//! The CPU's register file: eight 8-bit registers, the BC/DE/HL pairs and the
//! four flags kept in the high nibble of F, plus the arithmetic-logic unit
//! that computes results and flags.
use vstd::prelude::*;

verus! {

/// `F` after the zero flag is written with `set`.
pub open spec fn with_zero(f: u8, set: bool) -> u8 {
    if set { f | 0b1000_0000 } else { f & 0b0111_1111 }
}

/// `F` after the subtract flag is written with `set`.
pub open spec fn with_subtract(f: u8, set: bool) -> u8 {
    if set { f | 0b0100_0000 } else { f & 0b1011_1111 }
}

/// `F` after the half-carry flag is written with `set`.
pub open spec fn with_half_carry(f: u8, set: bool) -> u8 {
    if set { f | 0b0010_0000 } else { f & 0b1101_1111 }
}

/// `F` after the carry flag is written with `set`.
pub open spec fn with_carry(f: u8, set: bool) -> u8 {
    if set { f | 0b0001_0000 } else { f & 0b1110_1111 }
}

/// `F` after an operation writes Z, N, H and C in that order.
pub open spec fn with_flags(f: u8, z: bool, n: bool, h: bool, c: bool) -> u8 {
    with_carry(with_half_carry(with_subtract(with_zero(f, z), n), h), c)
}

/// Zero flag (bit 7) of `f`.
pub open spec fn zero_of(f: u8) -> bool {
    f & 0b1000_0000 != 0
}

/// Subtract flag (bit 6) of `f`.
pub open spec fn subtract_of(f: u8) -> bool {
    f & 0b0100_0000 != 0
}

/// Half-carry flag (bit 5) of `f`.
pub open spec fn half_carry_of(f: u8) -> bool {
    f & 0b0010_0000 != 0
}

/// Carry flag (bit 4) of `f`.
pub open spec fn carry_of(f: u8) -> bool {
    f & 0b0001_0000 != 0
}

/// The 16-bit value of a register pair whose high byte is `hi` and low byte `lo`.
pub open spec fn pair(hi: u8, lo: u8) -> u16 {
    (hi as int * 256 + lo as int) as u16
}

/// High byte of a 16-bit value.
pub open spec fn high_byte(v: u16) -> u8 {
    (v as int / 256) as u8
}

/// Low byte of a 16-bit value.
pub open spec fn low_byte(v: u16) -> u8 {
    (v as int % 256) as u8
}

/// The eight 8-bit registers of the CPU.
#[derive(Clone, Copy)]
pub struct Registers {
    pub a: u8,
    pub f: u8,
    pub b: u8,
    pub c: u8,
    pub d: u8,
    pub e: u8,
    pub h: u8,
    pub l: u8,
}

proof fn lemma_split(v: u16)
    ensures
        (v >> 8) as u8 == high_byte(v),
        v as u8 == low_byte(v),
        pair(high_byte(v), low_byte(v)) == v,
{
    crate::bits::lemma_split_word(v);
}

proof fn lemma_join(hi: u8, lo: u8)
    ensures
        ((hi as u16) << 8) | (lo as u16) == pair(hi, lo),
{
    crate::bits::lemma_join_bytes(hi, lo);
}

/// What each flag writer does to each flag bit and to the low nibble.
proof fn lemma_flag_bits(f: u8, set: bool)
    by (bit_vector)
    ensures
        (with_zero(f, set) & 0x80 != 0) == set,
        (with_half_carry(f, set) & 0x20 != 0) == set,
        (with_carry(f, set) & 0x10 != 0) == set,
        (with_subtract(f, set) & 0x40 != 0) == set,
        with_zero(f, set) & 0x7F == f & 0x7F,
        with_half_carry(f, set) & 0xDF == f & 0xDF,
        with_carry(f, set) & 0xEF == f & 0xEF,
        with_subtract(f, set) & 0xBF == f & 0xBF,
{
}

proof fn lemma_flag_mask_bits(f: u8, g: u8)
    by (bit_vector)
    ensures
        f & 0x7F == g & 0x7F ==> (f & 0x40 == g & 0x40 && f & 0x20 == g & 0x20 && f & 0x10 == g & 0x10 && f & 0x0F == g & 0x0F),
        f & 0xDF == g & 0xDF ==> (f & 0x80 == g & 0x80 && f & 0x40 == g & 0x40 && f & 0x10 == g & 0x10 && f & 0x0F == g & 0x0F),
        f & 0xEF == g & 0xEF ==> (f & 0x80 == g & 0x80 && f & 0x40 == g & 0x40 && f & 0x20 == g & 0x20 && f & 0x0F == g & 0x0F),
        f & 0xBF == g & 0xBF ==> (f & 0x80 == g & 0x80 && f & 0x20 == g & 0x20 && f & 0x10 == g & 0x10 && f & 0x0F == g & 0x0F),
{
}

/// Writing a flag and reading it back gives the written value; the other
/// flags and the low nibble of F keep their values.
pub proof fn lemma_flag_write_read(f: u8, set: bool)
    ensures
        zero_of(with_zero(f, set)) == set,
        half_carry_of(with_half_carry(f, set)) == set,
        carry_of(with_carry(f, set)) == set,
        subtract_of(with_subtract(f, set)) == set,
        // the other flags are untouched
        subtract_of(with_zero(f, set)) == subtract_of(f),
        half_carry_of(with_zero(f, set)) == half_carry_of(f),
        carry_of(with_zero(f, set)) == carry_of(f),
        zero_of(with_half_carry(f, set)) == zero_of(f),
        subtract_of(with_half_carry(f, set)) == subtract_of(f),
        carry_of(with_half_carry(f, set)) == carry_of(f),
        zero_of(with_carry(f, set)) == zero_of(f),
        subtract_of(with_carry(f, set)) == subtract_of(f),
        half_carry_of(with_carry(f, set)) == half_carry_of(f),
        zero_of(with_subtract(f, set)) == zero_of(f),
        carry_of(with_subtract(f, set)) == carry_of(f),
        half_carry_of(with_subtract(f, set)) == half_carry_of(f),
        // bits 3-0 of F never change
        with_zero(f, set) & 0x0F == f & 0x0F,
        with_subtract(f, set) & 0x0F == f & 0x0F,
        with_half_carry(f, set) & 0x0F == f & 0x0F,
        with_carry(f, set) & 0x0F == f & 0x0F,
{
    lemma_flag_bits(f, set);
    lemma_flag_mask_bits(with_zero(f, set), f);
    lemma_flag_mask_bits(with_half_carry(f, set), f);
    lemma_flag_mask_bits(with_carry(f, set), f);
    lemma_flag_mask_bits(with_subtract(f, set), f);
}

/// The flags after an operation writes Z, N, H and C: each takes the written
/// value, and bits 3-0 keep theirs.
pub proof fn lemma_with_flags(f: u8, z: bool, n: bool, h: bool, c: bool)
    ensures
        zero_of(with_flags(f, z, n, h, c)) == z,
        subtract_of(with_flags(f, z, n, h, c)) == n,
        half_carry_of(with_flags(f, z, n, h, c)) == h,
        carry_of(with_flags(f, z, n, h, c)) == c,
        with_flags(f, z, n, h, c) & 0x0F == f & 0x0F,
{
    let f1 = with_zero(f, z);
    let f2 = with_subtract(f1, n);
    let f3 = with_half_carry(f2, h);
    lemma_flag_write_read(f, z);
    lemma_flag_write_read(f1, n);
    lemma_flag_write_read(f2, h);
    lemma_flag_write_read(f3, c);
}

/// A register pair reads back the value it was set to, and its bytes are the
/// value's high and low bytes.
pub proof fn lemma_pair_write_read(r: Registers, v: u16)
    ensures
        r.with_bc(v).bc_spec() == v,
        r.with_de(v).de_spec() == v,
        r.with_hl(v).hl_spec() == v,
        r.with_bc(v).b as int * 256 + r.with_bc(v).c as int == v as int,
{
    lemma_split(v);
}

/// What the eight ALU operations compute. A gets the wrapped result (CP
/// leaves it unchanged); Z says whether the 8-bit result is zero; C is the
/// carry out of bit 7 (borrow for SUB/SBC/CP); H the carry out of bit 3
/// (borrow from bit 4); N is set by SUB/SBC/CP and cleared by the others; bits 3-0 of
/// F never change. ADC and SBC add (subtract) the carry flag from before the
/// operation.
pub proof fn lemma_alu(r: Registers, v: u8)
    ensures
        ({
            let c: int = if carry_of(r.f) { 1 } else { 0 };
            let add = r.after_add(v);
            let adc = r.after_adc(v);
            let sub = r.after_sub(v);
            let sbc = r.after_sbc(v);
            let cp = r.after_cp(v);
            &&& add.a as int == (r.a + v) % 256
            &&& zero_of(add.f) == (add.a == 0)
            &&& carry_of(add.f) == (r.a + v > 255)
            &&& half_carry_of(add.f) == ((r.a % 16) + (v % 16) > 15)
            &&& !subtract_of(add.f)
            &&& adc.a as int == (r.a + v + c) % 256
            &&& zero_of(adc.f) == (adc.a == 0)
            &&& carry_of(adc.f) == (r.a + v + c > 255)
            &&& half_carry_of(adc.f) == ((r.a % 16) + (v % 16) + c > 15)
            &&& !subtract_of(adc.f)
            &&& sub.a as int == (r.a - v + 256) % 256
            &&& zero_of(sub.f) == (r.a == v)
            &&& carry_of(sub.f) == (r.a < v)
            &&& half_carry_of(sub.f) == (r.a % 16 < v % 16)
            &&& subtract_of(sub.f)
            &&& sbc.a as int == (r.a - v - c + 512) % 256
            &&& zero_of(sbc.f) == (sbc.a == 0)
            &&& carry_of(sbc.f) == (r.a < v + c)
            &&& half_carry_of(sbc.f) == (r.a % 16 < v % 16 + c)
            &&& subtract_of(sbc.f)
            &&& cp.a == r.a
            &&& zero_of(cp.f) == (r.a == v)
            &&& carry_of(cp.f) == (r.a < v)
            &&& half_carry_of(cp.f) == (r.a % 16 < v % 16)
            &&& subtract_of(cp.f)
            &&& add.f & 0x0F == r.f & 0x0F
            &&& adc.f & 0x0F == r.f & 0x0F
            &&& sub.f & 0x0F == r.f & 0x0F
            &&& sbc.f & 0x0F == r.f & 0x0F
            &&& cp.f & 0x0F == r.f & 0x0F
        }),
        ({
            let and = r.after_and(v);
            let xor = r.after_xor(v);
            let or = r.after_or(v);
            &&& and.a == r.a & v && zero_of(and.f) == (and.a == 0) && half_carry_of(and.f) && !carry_of(and.f)
            &&& !subtract_of(and.f)
            &&& xor.a == r.a ^ v && zero_of(xor.f) == (xor.a == 0) && !half_carry_of(xor.f) && !carry_of(xor.f)
            &&& !subtract_of(xor.f)
            &&& or.a == r.a | v && zero_of(or.f) == (or.a == 0) && !half_carry_of(or.f) && !carry_of(or.f)
            &&& !subtract_of(or.f)
            &&& and.f & 0x0F == r.f & 0x0F && xor.f & 0x0F == r.f & 0x0F && or.f & 0x0F == r.f & 0x0F
        }),
{
    let c: int = if carry_of(r.f) { 1 } else { 0 };
    crate::bits::lemma_byte_fields(r.a);
    crate::bits::lemma_byte_fields(v);
    lemma_nibble_mod(r.a);
    lemma_nibble_mod(v);
    let add_r = ((r.a + v) % 256) as u8;
    lemma_with_flags(r.f, add_r == 0, false, (r.a & 0x0F) + (v & 0x0F) > 0x0F, r.a + v > 0xFF);
    let adc_r = ((r.a + v + c) % 256) as u8;
    lemma_with_flags(r.f, adc_r == 0, false, (r.a & 0x0F) + (v & 0x0F) + c > 0x0F, r.a + v + c > 0xFF);
    let sub_r = ((r.a - v + 256) % 256) as u8;
    lemma_with_flags(r.f, sub_r == 0, true, (r.a & 0x0F) < (v & 0x0F), r.a < v);
    let sbc_r = ((r.a - v - c + 512) % 256) as u8;
    lemma_with_flags(r.f, sbc_r == 0, true, (r.a & 0x0F) < (v & 0x0F) + c, r.a < v + c);
    lemma_with_flags(r.f, r.a & v == 0, false, true, false);
    lemma_with_flags(r.f, r.a ^ v == 0, false, false, false);
    lemma_with_flags(r.f, r.a | v == 0, false, false, false);
}

/// INC and DEC flags: Z says the 8-bit result is zero, N is cleared by INC
/// and set by DEC, H is the carry into (borrow from) bit 4, and C and bits
/// 3-0 of F keep their values.
pub proof fn lemma_inc_dec_flags(r: Registers, v: u8)
    ensures
        zero_of(r.inc_flags(v)) == ((v + 1) % 256 == 0),
        !subtract_of(r.inc_flags(v)),
        half_carry_of(r.inc_flags(v)) == (v % 16 == 15),
        carry_of(r.inc_flags(v)) == carry_of(r.f),
        r.inc_flags(v) & 0x0F == r.f & 0x0F,
        zero_of(r.dec_flags(v)) == (v == 1),
        subtract_of(r.dec_flags(v)),
        half_carry_of(r.dec_flags(v)) == (v % 16 == 0),
        carry_of(r.dec_flags(v)) == carry_of(r.f),
        r.dec_flags(v) & 0x0F == r.f & 0x0F,
{
    lemma_nibble_mod(v);
    let inc_r = ((v + 1) % 256) as u8;
    let f1 = with_zero(r.f, inc_r == 0);
    let f2 = with_subtract(f1, false);
    lemma_flag_write_read(r.f, inc_r == 0);
    lemma_flag_write_read(f1, false);
    lemma_flag_write_read(f2, v & 0x0F == 0x0F);
    let dec_r = ((v - 1 + 256) % 256) as u8;
    let g1 = with_zero(r.f, dec_r == 0);
    let g2 = with_subtract(g1, true);
    lemma_flag_write_read(r.f, dec_r == 0);
    lemma_flag_write_read(g1, true);
    lemma_flag_write_read(g2, v & 0x0F == 0);
}

/// The low nibble as a remainder.
proof fn lemma_nibble_mod(x: u8)
    by (bit_vector)
    ensures
        x & 0x0F == x % 16,
{
}

impl Registers {
    /// BC as one 16-bit value.
    pub open spec fn bc_spec(self) -> u16 {
        pair(self.b, self.c)
    }

    /// DE as one 16-bit value.
    pub open spec fn de_spec(self) -> u16 {
        pair(self.d, self.e)
    }

    /// HL as one 16-bit value.
    pub open spec fn hl_spec(self) -> u16 {
        pair(self.h, self.l)
    }

    /// The registers with BC set to `v`.
    pub open spec fn with_bc(self, v: u16) -> Registers {
        Registers { b: high_byte(v), c: low_byte(v), ..self }
    }

    /// The registers with DE set to `v`.
    pub open spec fn with_de(self, v: u16) -> Registers {
        Registers { d: high_byte(v), e: low_byte(v), ..self }
    }

    /// The registers with HL set to `v`.
    pub open spec fn with_hl(self, v: u16) -> Registers {
        Registers { h: high_byte(v), l: low_byte(v), ..self }
    }

    /// The registers with F replaced by `f`.
    pub open spec fn with_f(self, f: u8) -> Registers {
        Registers { f, ..self }
    }

    /// INC: F after incrementing `value` (Z, N cleared, H on a carry out of
    /// bit 3; C untouched).
    pub open spec fn inc_flags(self, value: u8) -> u8 {
        let result = ((value + 1) % 256) as u8;
        with_half_carry(with_subtract(with_zero(self.f, result == 0), false), value & 0x0F == 0x0F)
    }

    /// DEC: F after decrementing `value` (Z, N set, H on a borrow from bit 4; C untouched).
    pub open spec fn dec_flags(self, value: u8) -> u8 {
        let result = ((value - 1 + 256) % 256) as u8;
        with_half_carry(with_subtract(with_zero(self.f, result == 0), true), value & 0x0F == 0)
    }

    /// ADD A, value.
    pub open spec fn after_add(self, value: u8) -> Registers {
        let a = self.a;
        let result = ((a + value) % 256) as u8;
        Registers {
            a: result,
            f: with_flags(self.f, result == 0, false, (a & 0x0F) + (value & 0x0F) > 0x0F, a + value > 0xFF),
            ..self
        }
    }

    /// ADC A, value: the carry flag before the operation is added in.
    pub open spec fn after_adc(self, value: u8) -> Registers {
        let a = self.a;
        let carry: int = if carry_of(self.f) { 1 } else { 0 };
        let result = ((a + value + carry) % 256) as u8;
        Registers {
            a: result,
            f: with_flags(
                self.f,
                result == 0,
                false,
                (a & 0x0F) + (value & 0x0F) + carry > 0x0F,
                a + value + carry > 0xFF,
            ),
            ..self
        }
    }

    /// SUB value.
    pub open spec fn after_sub(self, value: u8) -> Registers {
        let a = self.a;
        let result = ((a - value + 256) % 256) as u8;
        Registers {
            a: result,
            f: with_flags(self.f, result == 0, true, (a & 0x0F) < (value & 0x0F), a < value),
            ..self
        }
    }

    /// SBC value: the carry flag before the operation is a borrow in.
    pub open spec fn after_sbc(self, value: u8) -> Registers {
        let a = self.a;
        let carry: int = if carry_of(self.f) { 1 } else { 0 };
        let result = ((a - value - carry + 512) % 256) as u8;
        Registers {
            a: result,
            f: with_flags(self.f, result == 0, true, (a & 0x0F) < (value & 0x0F) + carry, a < value + carry),
            ..self
        }
    }

    /// AND value (H is always set).
    pub open spec fn after_and(self, value: u8) -> Registers {
        let result = self.a & value;
        Registers { a: result, f: with_flags(self.f, result == 0, false, true, false), ..self }
    }

    /// XOR value.
    pub open spec fn after_xor(self, value: u8) -> Registers {
        let result = self.a ^ value;
        Registers { a: result, f: with_flags(self.f, result == 0, false, false, false), ..self }
    }

    /// OR value.
    pub open spec fn after_or(self, value: u8) -> Registers {
        let result = self.a | value;
        Registers { a: result, f: with_flags(self.f, result == 0, false, false, false), ..self }
    }

    /// CP value: the flags of SUB, with A unchanged.
    pub open spec fn after_cp(self, value: u8) -> Registers {
        Registers { f: self.after_sub(value).f, ..self }
    }

    pub fn new() -> (r: Self)
        ensures
            r == (Registers { a: 0, f: 0, b: 0, c: 0, d: 0, e: 0, h: 0, l: 0 }),
    {
        Self { a: 0, f: 0, b: 0, c: 0, d: 0, e: 0, h: 0, l: 0 }
    }

    // Helper methods to work with paired registers
    pub fn bc(&self) -> (r: u16)
        ensures
            r == self.bc_spec(),
    {
        proof { lemma_join(self.b, self.c); }
        ((self.b as u16) << 8) | (self.c as u16)
    }

    pub fn set_bc(&mut self, value: u16)
        ensures
            *final(self) == old(self).with_bc(value),
            final(self).bc_spec() == value,
    {
        proof { lemma_split(value); }
        self.b = (value >> 8) as u8;
        self.c = value as u8;
    }

    pub fn de(&self) -> (r: u16)
        ensures
            r == self.de_spec(),
    {
        proof { lemma_join(self.d, self.e); }
        ((self.d as u16) << 8) | (self.e as u16)
    }

    pub fn set_de(&mut self, value: u16)
        ensures
            *final(self) == old(self).with_de(value),
            final(self).de_spec() == value,
    {
        proof { lemma_split(value); }
        self.d = (value >> 8) as u8;
        self.e = value as u8;
    }

    pub fn hl(&self) -> (r: u16)
        ensures
            r == self.hl_spec(),
    {
        proof { lemma_join(self.h, self.l); }
        ((self.h as u16) << 8) | (self.l as u16)
    }

    pub fn set_hl(&mut self, value: u16)
        ensures
            *final(self) == old(self).with_hl(value),
            final(self).hl_spec() == value,
    {
        proof { lemma_split(value); }
        self.h = (value >> 8) as u8;
        self.l = value as u8;
    }

    /// Write all four flags (Z, N, H, C); bits 3-0 of F are kept.
    pub fn set_flags(&mut self, z: bool, n: bool, h: bool, c: bool)
        ensures
            *final(self) == old(self).with_f(with_flags(old(self).f, z, n, h, c)),
    {
        self.set_flag_zero(z);
        self.set_flag_subtract(n);
        self.set_flag_half_carry(h);
        self.set_flag_carry(c);
    }

    // Flag manipulation
    pub fn flag_zero(&self) -> (r: bool)
        ensures
            r == zero_of(self.f),
    {
        self.f & 0b1000_0000 != 0
    }

    pub fn set_flag_zero(&mut self, set: bool)
        ensures
            *final(self) == old(self).with_f(with_zero(old(self).f, set)),
    {
        if set {
            self.f |= 0b1000_0000;
        } else {
            self.f &= 0b0111_1111;
        }
    }

    pub fn flag_subtract(&self) -> (r: bool)
        ensures
            r == subtract_of(self.f),
    {
        self.f & 0b0100_0000 != 0
    }

    pub fn set_flag_subtract(&mut self, set: bool)
        ensures
            *final(self) == old(self).with_f(with_subtract(old(self).f, set)),
    {
        if set {
            self.f |= 0b0100_0000;
        } else {
            self.f &= 0b1011_1111;
        }
    }

    pub fn flag_half_carry(&self) -> (r: bool)
        ensures
            r == half_carry_of(self.f),
    {
        self.f & 0b0010_0000 != 0
    }

    pub fn set_flag_half_carry(&mut self, set: bool)
        ensures
            *final(self) == old(self).with_f(with_half_carry(old(self).f, set)),
    {
        if set {
            self.f |= 0b0010_0000;
        } else {
            self.f &= 0b1101_1111;
        }
    }

    pub fn flag_carry(&self) -> (r: bool)
        ensures
            r == carry_of(self.f),
    {
        self.f & 0b0001_0000 != 0
    }

    pub fn set_flag_carry(&mut self, set: bool)
        ensures
            *final(self) == old(self).with_f(with_carry(old(self).f, set)),
    {
        if set {
            self.f |= 0b0001_0000;
        } else {
            self.f &= 0b1110_1111
        }
    }
}

} // verus!
