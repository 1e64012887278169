//! The debug overlay: its text panel (speed and CPU state in hex) and the
//! embedded 3x5 bitmap font it is drawn with.
use vstd::prelude::*;
use crate::cpu::Cpu;
use crate::memory::push_char;

verus! {

/// The rows of the 3x5 glyph for `c`, top to bottom; in each row bit 2 is
/// the leftmost column. Uppercase letters, digits and `: . - % / ( )` have a
/// glyph; every other character (space included) is blank.
pub open spec fn glyph(c: char) -> Seq<u8> {
    if c == '0' { seq![0b111u8, 0b101, 0b101, 0b101, 0b111] }
    else if c == '1' { seq![0b010u8, 0b110, 0b010, 0b010, 0b111] }
    else if c == '2' { seq![0b111u8, 0b001, 0b111, 0b100, 0b111] }
    else if c == '3' { seq![0b111u8, 0b001, 0b111, 0b001, 0b111] }
    else if c == '4' { seq![0b101u8, 0b101, 0b111, 0b001, 0b001] }
    else if c == '5' { seq![0b111u8, 0b100, 0b111, 0b001, 0b111] }
    else if c == '6' { seq![0b111u8, 0b100, 0b111, 0b101, 0b111] }
    else if c == '7' { seq![0b111u8, 0b001, 0b010, 0b010, 0b010] }
    else if c == '8' { seq![0b111u8, 0b101, 0b111, 0b101, 0b111] }
    else if c == '9' { seq![0b111u8, 0b101, 0b111, 0b001, 0b111] }
    else if c == 'A' { seq![0b010u8, 0b101, 0b111, 0b101, 0b101] }
    else if c == 'B' { seq![0b110u8, 0b101, 0b110, 0b101, 0b110] }
    else if c == 'C' { seq![0b011u8, 0b100, 0b100, 0b100, 0b011] }
    else if c == 'D' { seq![0b110u8, 0b101, 0b101, 0b101, 0b110] }
    else if c == 'E' { seq![0b111u8, 0b100, 0b110, 0b100, 0b111] }
    else if c == 'F' { seq![0b111u8, 0b100, 0b110, 0b100, 0b100] }
    else if c == 'G' { seq![0b011u8, 0b100, 0b101, 0b101, 0b011] }
    else if c == 'H' { seq![0b101u8, 0b101, 0b111, 0b101, 0b101] }
    else if c == 'I' { seq![0b111u8, 0b010, 0b010, 0b010, 0b111] }
    else if c == 'J' { seq![0b001u8, 0b001, 0b001, 0b101, 0b010] }
    else if c == 'K' { seq![0b101u8, 0b101, 0b110, 0b101, 0b101] }
    else if c == 'L' { seq![0b100u8, 0b100, 0b100, 0b100, 0b111] }
    else if c == 'M' { seq![0b101u8, 0b111, 0b111, 0b101, 0b101] }
    else if c == 'N' { seq![0b101u8, 0b111, 0b111, 0b111, 0b101] }
    else if c == 'O' { seq![0b010u8, 0b101, 0b101, 0b101, 0b010] }
    else if c == 'P' { seq![0b110u8, 0b101, 0b110, 0b100, 0b100] }
    else if c == 'Q' { seq![0b010u8, 0b101, 0b101, 0b110, 0b011] }
    else if c == 'R' { seq![0b110u8, 0b101, 0b110, 0b101, 0b101] }
    else if c == 'S' { seq![0b011u8, 0b100, 0b010, 0b001, 0b110] }
    else if c == 'T' { seq![0b111u8, 0b010, 0b010, 0b010, 0b010] }
    else if c == 'U' { seq![0b101u8, 0b101, 0b101, 0b101, 0b111] }
    else if c == 'V' { seq![0b101u8, 0b101, 0b101, 0b101, 0b010] }
    else if c == 'W' { seq![0b101u8, 0b101, 0b111, 0b111, 0b101] }
    else if c == 'X' { seq![0b101u8, 0b101, 0b010, 0b101, 0b101] }
    else if c == 'Y' { seq![0b101u8, 0b101, 0b010, 0b010, 0b010] }
    else if c == 'Z' { seq![0b111u8, 0b001, 0b010, 0b100, 0b111] }
    else if c == ':' { seq![0b000u8, 0b010, 0b000, 0b010, 0b000] }
    else if c == '.' { seq![0b000u8, 0b000, 0b000, 0b000, 0b010] }
    else if c == '-' { seq![0b000u8, 0b000, 0b111, 0b000, 0b000] }
    else if c == '%' { seq![0b101u8, 0b001, 0b010, 0b100, 0b101] }
    else if c == '/' { seq![0b001u8, 0b001, 0b010, 0b100, 0b100] }
    else if c == '(' { seq![0b001u8, 0b010, 0b010, 0b010, 0b001] }
    else if c == ')' { seq![0b100u8, 0b010, 0b010, 0b010, 0b100] }
    else { seq![0u8, 0, 0, 0, 0] }
}

/// A minimal 3x5 bitmap font: uppercase, digits, and a few symbols. Each row's
/// low 3 bits are the columns (bit 2 = leftmost). Unknown chars render blank.
pub fn font3x5(c: char) -> (r: [u8; 5])
    ensures
        r@ == glyph(c),
{
    let r: [u8; 5] = match c {
        '0' => [0b111, 0b101, 0b101, 0b101, 0b111],
        '1' => [0b010, 0b110, 0b010, 0b010, 0b111],
        '2' => [0b111, 0b001, 0b111, 0b100, 0b111],
        '3' => [0b111, 0b001, 0b111, 0b001, 0b111],
        '4' => [0b101, 0b101, 0b111, 0b001, 0b001],
        '5' => [0b111, 0b100, 0b111, 0b001, 0b111],
        '6' => [0b111, 0b100, 0b111, 0b101, 0b111],
        '7' => [0b111, 0b001, 0b010, 0b010, 0b010],
        '8' => [0b111, 0b101, 0b111, 0b101, 0b111],
        '9' => [0b111, 0b101, 0b111, 0b001, 0b111],
        'A' => [0b010, 0b101, 0b111, 0b101, 0b101],
        'B' => [0b110, 0b101, 0b110, 0b101, 0b110],
        'C' => [0b011, 0b100, 0b100, 0b100, 0b011],
        'D' => [0b110, 0b101, 0b101, 0b101, 0b110],
        'E' => [0b111, 0b100, 0b110, 0b100, 0b111],
        'F' => [0b111, 0b100, 0b110, 0b100, 0b100],
        'G' => [0b011, 0b100, 0b101, 0b101, 0b011],
        'H' => [0b101, 0b101, 0b111, 0b101, 0b101],
        'I' => [0b111, 0b010, 0b010, 0b010, 0b111],
        'J' => [0b001, 0b001, 0b001, 0b101, 0b010],
        'K' => [0b101, 0b101, 0b110, 0b101, 0b101],
        'L' => [0b100, 0b100, 0b100, 0b100, 0b111],
        'M' => [0b101, 0b111, 0b111, 0b101, 0b101],
        'N' => [0b101, 0b111, 0b111, 0b111, 0b101],
        'O' => [0b010, 0b101, 0b101, 0b101, 0b010],
        'P' => [0b110, 0b101, 0b110, 0b100, 0b100],
        'Q' => [0b010, 0b101, 0b101, 0b110, 0b011],
        'R' => [0b110, 0b101, 0b110, 0b101, 0b101],
        'S' => [0b011, 0b100, 0b010, 0b001, 0b110],
        'T' => [0b111, 0b010, 0b010, 0b010, 0b010],
        'U' => [0b101, 0b101, 0b101, 0b101, 0b111],
        'V' => [0b101, 0b101, 0b101, 0b101, 0b010],
        'W' => [0b101, 0b101, 0b111, 0b111, 0b101],
        'X' => [0b101, 0b101, 0b010, 0b101, 0b101],
        'Y' => [0b101, 0b101, 0b010, 0b010, 0b010],
        'Z' => [0b111, 0b001, 0b010, 0b100, 0b111],
        ':' => [0b000, 0b010, 0b000, 0b010, 0b000],
        '.' => [0b000, 0b000, 0b000, 0b000, 0b010],
        '-' => [0b000, 0b000, 0b111, 0b000, 0b000],
        '%' => [0b101, 0b001, 0b010, 0b100, 0b101],
        '/' => [0b001, 0b001, 0b010, 0b100, 0b100],
        '(' => [0b001, 0b010, 0b010, 0b010, 0b001],
        ')' => [0b100, 0b010, 0b010, 0b010, 0b100],
        _ => [0, 0, 0, 0, 0],  // space + anything unmapped
    };
    assert(r@ =~= glyph(c));
    r
}

/// The character of hex digit `v` (0-15), uppercase.
pub open spec fn hex_digit(v: u8) -> char {
    (if v < 10 { (48 + v) as u8 } else { (55 + v) as u8 }) as char
}

/// `v` as two uppercase hex digits.
pub open spec fn hex2(v: u8) -> Seq<char> {
    seq![hex_digit(v / 16), hex_digit(v % 16)]
}

/// `v` as four uppercase hex digits.
pub open spec fn hex4(v: u16) -> Seq<char> {
    hex2((v / 256) as u8) + hex2((v % 256) as u8)
}

/// `n` in decimal, without leading zeros.
pub open spec fn decimal(n: nat) -> Seq<char>
    decreases n,
{
    if n < 10 {
        seq![hex_digit(n as u8)]
    } else {
        decimal(n / 10).push(hex_digit((n % 10) as u8))
    }
}

/// ASCII bytes as characters.
pub open spec fn ascii(bytes: Seq<u8>) -> Seq<char> {
    bytes.map_values(|b: u8| b as char)
}

/// The five lines of the debug text panel: measured speed, PC and SP, the
/// register pairs AF BC DE HL, and the LY and LCDC registers.
pub open spec fn debug_text(cpu: crate::cpu::CpuState, pct: u32) -> Seq<Seq<char>> {
    let r = cpu.registers;
    seq![
        seq!['S', 'P', 'D', ' '] + decimal(pct as nat) + seq!['%'],
        seq!['P', 'C', ' '] + hex4(cpu.pc) + seq![' ', 'S', 'P', ' '] + hex4(cpu.sp),
        seq!['A', 'F', ' '] + hex2(r.a) + hex2(r.f) + seq![' ', 'B', 'C', ' '] + hex2(r.b) + hex2(r.c),
        seq!['D', 'E', ' '] + hex2(r.d) + hex2(r.e) + seq![' ', 'H', 'L', ' '] + hex2(r.h) + hex2(r.l),
        seq!['L', 'Y', ' '] + hex2(cpu.memory.read(0xFF44)) + seq![' ', 'L', 'C', 'D', 'C', ' ']
            + hex2(cpu.memory.read(0xFF40)),
    ]
}

fn hex_byte(v: u8) -> (r: u8)
    requires
        v < 16,
    ensures
        r as char == hex_digit(v),
{
    if v < 10 { 48 + v } else { 55 + v }
}

fn push_ascii(s: &mut String, bytes: &[u8])
    ensures
        final(s)@ == old(s)@ + ascii(bytes@),
{
    let mut i: usize = 0;
    while i < bytes.len()
        invariant
            i <= bytes@.len(),
            s@ == old(s)@ + ascii(bytes@.subrange(0, i as int)),
        decreases bytes.len() - i,
    {
        push_char(s, bytes[i]);
        i += 1;
        assert(ascii(bytes@.subrange(0, i as int)) =~= ascii(bytes@.subrange(0, i - 1)).push(bytes@[i - 1] as char));
    }
    assert(bytes@.subrange(0, i as int) =~= bytes@);
}

fn push_hex2(s: &mut String, v: u8)
    ensures
        final(s)@ == old(s)@ + hex2(v),
{
    push_char(s, hex_byte(v / 16));
    push_char(s, hex_byte(v % 16));
    assert(final(s)@ =~= old(s)@ + hex2(v)) by {
        assert(s@ =~= old(s)@ + hex2(v));
    }
}

fn push_hex4(s: &mut String, v: u16)
    ensures
        final(s)@ == old(s)@ + hex4(v),
{
    push_hex2(s, (v / 256) as u8);
    push_hex2(s, (v % 256) as u8);
    assert(s@ =~= old(s)@ + hex4(v));
}

fn push_decimal(s: &mut String, n: u32)
    ensures
        final(s)@ == old(s)@ + decimal(n as nat),
    decreases n,
{
    if n >= 10 {
        push_decimal(s, n / 10);
    }
    push_char(s, hex_byte((n % 10) as u8));
    assert(s@ =~= old(s)@ + decimal(n as nat));
}

/// The debug panel's text for `cpu` at measured speed `pct` percent.
pub fn debug_lines(cpu: &Cpu, pct: u32) -> (r: Vec<String>)
    requires
        cpu@.memory.inv(),
    ensures
        r@.len() == 5,
        forall|i: int| 0 <= i < 5 ==> #[trigger] r@[i]@ == debug_text(cpu@, pct)[i],
{
    let r = &cpu.registers;
    let mut spd = String::new();
    push_ascii(&mut spd, &[83u8, 80u8, 68u8, 32u8]);
    push_decimal(&mut spd, pct);
    push_ascii(&mut spd, &[37u8]);

    let mut pc = String::new();
    push_ascii(&mut pc, &[80u8, 67u8, 32u8]);
    push_hex4(&mut pc, cpu.pc);
    push_ascii(&mut pc, &[32u8, 83u8, 80u8, 32u8]);
    push_hex4(&mut pc, cpu.sp);

    let mut af = String::new();
    push_ascii(&mut af, &[65u8, 70u8, 32u8]);
    push_hex2(&mut af, r.a);
    push_hex2(&mut af, r.f);
    push_ascii(&mut af, &[32u8, 66u8, 67u8, 32u8]);
    push_hex2(&mut af, r.b);
    push_hex2(&mut af, r.c);

    let mut de = String::new();
    push_ascii(&mut de, &[68u8, 69u8, 32u8]);
    push_hex2(&mut de, r.d);
    push_hex2(&mut de, r.e);
    push_ascii(&mut de, &[32u8, 72u8, 76u8, 32u8]);
    push_hex2(&mut de, r.h);
    push_hex2(&mut de, r.l);

    let mut ly = String::new();
    push_ascii(&mut ly, &[76u8, 89u8, 32u8]);
    push_hex2(&mut ly, cpu.memory.read_byte(0xFF44));
    push_ascii(&mut ly, &[32u8, 76u8, 67u8, 68u8, 67u8, 32u8]);
    push_hex2(&mut ly, cpu.memory.read_byte(0xFF40));

    vec![spd, pc, af, de, ly]
}

/// Font pixel (`x`, `y`) of text `t` is lit, in font cells: character `i`
/// covers columns `4 * i` to `4 * i + 2` (the fourth column is the gap) and
/// rows 0 to 4.
pub open spec fn text_pixel(t: Seq<char>, x: int, y: int) -> bool {
    &&& 0 <= x
    &&& 0 <= y < 5
    &&& x / 4 < t.len()
    &&& x % 4 < 3
    &&& glyph(t[x / 4])[y] & (1u8 << ((2 - x % 4) as u8)) != 0
}

/// Drawing order of a pixel: by character, then row, then column.
pub open spec fn pixel_order(x: int, y: int) -> int {
    (x / 4) * 15 + y * 3 + x % 4
}

fn bit_set(bits: u8, col: u8) -> (r: bool)
    requires
        col < 3,
    ensures
        r == (bits & (1u8 << ((2 - col) as u8)) != 0),
{
    bits & (1u8 << (2 - col)) != 0
}

/// The lit font pixels of `text`, in drawing order, each once.
pub fn text_pixels(text: &str) -> (r: Vec<(usize, usize)>)
    requires
        text@.len() * 4 <= usize::MAX,
    ensures
        forall|k: int| 0 <= k < r@.len() ==> text_pixel(text@, #[trigger] r@[k].0 as int, r@[k].1 as int),
        forall|x: int, y: int|
            #[trigger] text_pixel(text@, x, y) ==> exists|k: int| 0 <= k < r@.len() && r@[k] == (x as usize, y as usize),
        forall|k1: int, k2: int|
            0 <= k1 < k2 < r@.len() ==> pixel_order(#[trigger] r@[k1].0 as int, r@[k1].1 as int) < pixel_order(
                #[trigger] r@[k2].0 as int,
                r@[k2].1 as int,
            ),
{
    let chars = crate::headless::chars_of(text);
    let ghost t = text@;
    let mut r: Vec<(usize, usize)> = Vec::new();
    let mut i: usize = 0;
    while i < chars.len()
        invariant
            chars@ == t,
            t.len() * 4 <= usize::MAX,
            i <= t.len(),
            forall|k: int| 0 <= k < r@.len() ==> text_pixel(t, #[trigger] r@[k].0 as int, r@[k].1 as int)
                && pixel_order(r@[k].0 as int, r@[k].1 as int) < i * 15,
            forall|x: int, y: int|
                #[trigger] text_pixel(t, x, y) && pixel_order(x, y) < i * 15 ==> exists|k: int|
                    0 <= k < r@.len() && r@[k] == (x as usize, y as usize),
            forall|k1: int, k2: int|
                0 <= k1 < k2 < r@.len() ==> pixel_order(#[trigger] r@[k1].0 as int, r@[k1].1 as int)
                    < pixel_order(#[trigger] r@[k2].0 as int, r@[k2].1 as int),
        decreases t.len() - i,
    {
        let rows = font3x5(chars[i]);
        let mut row: usize = 0;
        while row < 5
            invariant
                chars@ == t,
                t.len() * 4 <= usize::MAX,
                i < t.len(),
                row <= 5,
                rows@ == glyph(t[i as int]),
                forall|k: int| 0 <= k < r@.len() ==> text_pixel(t, #[trigger] r@[k].0 as int, r@[k].1 as int)
                    && pixel_order(r@[k].0 as int, r@[k].1 as int) < i * 15 + row * 3,
                forall|x: int, y: int|
                    #[trigger] text_pixel(t, x, y) && pixel_order(x, y) < i * 15 + row * 3 ==> exists|k: int|
                        0 <= k < r@.len() && r@[k] == (x as usize, y as usize),
                forall|k1: int, k2: int|
                    0 <= k1 < k2 < r@.len() ==> pixel_order(#[trigger] r@[k1].0 as int, r@[k1].1 as int)
                        < pixel_order(#[trigger] r@[k2].0 as int, r@[k2].1 as int),
            decreases 5 - row,
        {
            let mut col: u8 = 0;
            while col < 3
                invariant
                    chars@ == t,
                    t.len() * 4 <= usize::MAX,
                    i < t.len(),
                    row < 5,
                    col <= 3,
                    rows@ == glyph(t[i as int]),
                    forall|k: int| 0 <= k < r@.len() ==> text_pixel(t, #[trigger] r@[k].0 as int, r@[k].1 as int)
                        && pixel_order(r@[k].0 as int, r@[k].1 as int) < i * 15 + row * 3 + col,
                    forall|x: int, y: int|
                        #[trigger] text_pixel(t, x, y) && pixel_order(x, y) < i * 15 + row * 3 + col ==> exists|k: int|
                            0 <= k < r@.len() && r@[k] == (x as usize, y as usize),
                    forall|k1: int, k2: int|
                        0 <= k1 < k2 < r@.len() ==> pixel_order(#[trigger] r@[k1].0 as int, r@[k1].1 as int)
                            < pixel_order(#[trigger] r@[k2].0 as int, r@[k2].1 as int),
                decreases 3 - col,
            {
                let x = 4 * i + col as usize;
                let ghost old_r = r@;
                assert(x as int / 4 == i && x as int % 4 == col);
                if bit_set(rows[row], col) {
                    r.push((x, row));
                    assert(r@[old_r.len() as int] == (x, row));
                }
                proof {
                    assert forall|x2: int, y2: int|
                        #[trigger] text_pixel(t, x2, y2) && pixel_order(x2, y2) < i * 15 + row * 3 + col + 1 implies exists|k: int|
                            0 <= k < r@.len() && r@[k] == (x2 as usize, y2 as usize) by {
                        if pixel_order(x2, y2) < i * 15 + row * 3 + col {
                            let k = choose|k: int| 0 <= k < old_r.len() && old_r[k] == (x2 as usize, y2 as usize);
                            assert(r@[k] == old_r[k]);
                        } else {
                            assert(x2 == x && y2 == row);
                            assert(r@[old_r.len() as int] == (x2 as usize, y2 as usize));
                        }
                    }
                }
                col += 1;
            }
            row += 1;
        }
        i += 1;
    }
    r
}

} // verus!
