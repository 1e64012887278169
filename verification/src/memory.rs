//! The 64 KiB address space: cartridge ROM with MBC1/2/3/5 banking, video and
//! work RAM with CGB banking, OAM, I/O registers (joypad, serial, DMA, CGB
//! palettes, speed switch), high RAM and the interrupt-enable register.
use vstd::prelude::*;
use crate::apu::{Apu, ApuImage};
use crate::bits::{lemma_byte_fields, lemma_join_bytes, lemma_low_bits};

verus! {

/// The abstract state of the address space: every field of [`Memory`], with
/// the byte arrays, the ROM and the serial log as sequences.
#[verifier::ext_equal]
pub ghost struct MemState {
    pub rom: Seq<u8>,
    pub rom_bank: usize,
    pub vram: Seq<u8>,
    pub external_ram: Seq<u8>,
    pub wram: Seq<u8>,
    pub oam: Seq<u8>,
    pub io_registers: Seq<u8>,
    pub hram: Seq<u8>,
    pub ie_register: u8,
    pub serial: Seq<char>,
    pub trace: bool,
    pub joypad_select: u8,
    pub dpad: u8,
    pub buttons: u8,
    pub cart_type: u8,
    pub ram_enabled: bool,
    pub ram_bank: usize,
    pub mbc1_bank1: u8,
    pub mbc1_bank2: u8,
    pub mbc1_mode: bool,
    pub cgb_mode: bool,
    pub vram_bank: usize,
    pub bg_palette: Seq<u8>,
    pub obj_palette: Seq<u8>,
    pub bcps: u8,
    pub ocps: u8,
    pub svbk: usize,
    pub hdma_src: u16,
    pub hdma_dst: u16,
    pub double_speed: bool,
    pub key1_prepare: bool,
    pub div_counter: u16,
    pub apu: Apu,
}

/// The cartridge type byte names an MBC2 cartridge (built-in 4-bit RAM).
pub open spec fn is_mbc2(cart_type: u8) -> bool {
    cart_type == 0x05 || cart_type == 0x06
}

/// A bank request of 0 selects bank 1 (MBC1, MBC2, MBC3).
pub open spec fn nonzero_bank(n: int) -> int {
    if n == 0 { 1 } else { n }
}

/// Palette index register after a data write: with bit 7 set the 6-bit index
/// advances (wrapping within 0..64) and bit 7 stays set.
pub open spec fn palette_index_after_write(ps: u8) -> u8 {
    if ps & 0x80 != 0 { (ps & 0x80) | (((ps + 1) % 256) as u8 & 0x3F) } else { ps }
}

impl MemState {
    /// The bounds that every operation keeps: bank registers in range, the
    /// array sizes of the hardware, and the audio unit's own invariant.
    pub open spec fn inv(self) -> bool {
        &&& self.vram.len() == 0x4000
        &&& self.external_ram.len() == 0x8000
        &&& self.wram.len() == 0x8000
        &&& self.oam.len() == 0xA0
        &&& self.io_registers.len() == 0x80
        &&& self.hram.len() == 0x7F
        &&& self.bg_palette.len() == 64
        &&& self.obj_palette.len() == 64
        &&& self.vram_bank < 2
        &&& 1 <= self.svbk <= 7
        &&& self.rom_bank <= 0x1FF
        &&& self.ram_bank <= 15
        &&& self.mbc1_bank1 <= 0x1F
        &&& self.mbc1_bank2 <= 3
        &&& self.apu.inv()
    }

    /// Index into work RAM of a work-RAM or echo address: 0xC000-0xCFFF is
    /// bank 0, 0xD000-0xDFFF is bank `svbk`; echo (0xE000-0xFDFF) mirrors
    /// 0xC000-0xDDFF.
    pub open spec fn wram_index(self, address: u16) -> int {
        let a = if address >= 0xE000 { address - 0x2000 } else { address as int };
        if a < 0xD000 { a - 0xC000 } else { self.svbk * 0x1000 + (a - 0xD000) }
    }

    /// Index into video RAM of an address in 0x8000-0x9FFF.
    pub open spec fn vram_index(self, address: u16) -> int {
        self.vram_bank * 0x2000 + (address - 0x8000)
    }

    /// Offset into cartridge RAM of an address in 0xA000-0xBFFF.
    pub open spec fn ext_offset(self, address: u16) -> int {
        self.ram_bank * 0x2000 + (address - 0xA000)
    }

    /// The joypad register: bits 7-6 read 1, bits 5-4 the selected groups,
    /// bits 3-0 the buttons of the selected groups, active-low.
    pub open spec fn joypad(self) -> u8 {
        let dirs: u8 = if self.joypad_select & 0x10 == 0 { !self.dpad & 0x0F } else { 0x0F };
        let btns: u8 = if self.joypad_select & 0x20 == 0 { !self.buttons & 0x0F } else { 0x0F };
        0xC0 | self.joypad_select | (0x0F & dirs & btns)
    }

    /// The byte a read of `address` returns.
    pub open spec fn read(self, address: u16) -> u8 {
        if self.trace && address == 0xFF44 {
            0x90
        } else if address <= 0x3FFF {
            if address < self.rom.len() { self.rom[address as int] } else { 0xFF }
        } else if address <= 0x7FFF {
            let off = self.rom_bank * 0x4000 + (address - 0x4000);
            if off < self.rom.len() { self.rom[off] } else { 0xFF }
        } else if address <= 0x9FFF {
            self.vram[self.vram_index(address)]
        } else if address <= 0xBFFF {
            if !self.ram_enabled {
                0xFF
            } else if is_mbc2(self.cart_type) {
                0xF0 | (self.external_ram[(address & 0x1FF) as int] & 0x0F)
            } else if self.ext_offset(address) < 0x8000 {
                self.external_ram[self.ext_offset(address)]
            } else {
                0xFF
            }
        } else if address <= 0xFDFF {
            self.wram[self.wram_index(address)]
        } else if address <= 0xFE9F {
            self.oam[address - 0xFE00]
        } else if address <= 0xFEFF {
            0xFF
        } else if address == 0xFF00 {
            self.joypad()
        } else if address == 0xFF04 {
            (self.div_counter / 256) as u8
        } else if 0xFF10 <= address <= 0xFF3F {
            self.apu.read_reg_spec(address)
        } else if address == 0xFF4D {
            0x7E | (if self.double_speed { 0x80u8 } else { 0 }) | (if self.key1_prepare { 0x01u8 } else { 0 })
        } else if address == 0xFF4F {
            0xFE | (self.vram_bank as u8)
        } else if address == 0xFF70 {
            0xF8 | (self.svbk as u8)
        } else if address == 0xFF55 {
            0xFF
        } else if address == 0xFF68 {
            self.bcps
        } else if address == 0xFF69 {
            self.bg_palette[(self.bcps & 0x3F) as int]
        } else if address == 0xFF6A {
            self.ocps
        } else if address == 0xFF6B {
            self.obj_palette[(self.ocps & 0x3F) as int]
        } else if address <= 0xFF7F {
            self.io_registers[address - 0xFF00]
        } else if address <= 0xFFFE {
            self.hram[address - 0xFF80]
        } else {
            self.ie_register
        }
    }

    /// Effective MBC1 banks from its two bank registers and mode.
    pub open spec fn mbc1_updated(self) -> MemState {
        MemState {
            rom_bank: ((self.mbc1_bank2 << 5u8) | self.mbc1_bank1) as usize,
            ram_bank: if self.mbc1_mode { self.mbc1_bank2 as usize } else { 0 },
            ..self
        }
    }

    /// A write into the ROM area (0x0000-0x7FFF): a command to the cartridge's
    /// memory bank controller; the ROM itself never changes.
    pub open spec fn mbc_write(self, address: u16, value: u8) -> MemState {
        let ct = self.cart_type;
        if ct == 0x00 {
            self
        } else if 0x01 <= ct <= 0x03 {
            if address <= 0x1FFF {
                MemState { ram_enabled: value & 0x0F == 0x0A, ..self }
            } else if address <= 0x3FFF {
                MemState { mbc1_bank1: nonzero_bank((value & 0x1F) as int) as u8, ..self }.mbc1_updated()
            } else if address <= 0x5FFF {
                MemState { mbc1_bank2: value & 0x03, ..self }.mbc1_updated()
            } else {
                MemState { mbc1_mode: value & 0x01 != 0, ..self }.mbc1_updated()
            }
        } else if is_mbc2(ct) {
            if address <= 0x3FFF {
                if address & 0x0100 == 0 {
                    MemState { ram_enabled: value & 0x0F == 0x0A, ..self }
                } else {
                    MemState { rom_bank: nonzero_bank((value & 0x0F) as int) as usize, ..self }
                }
            } else {
                self
            }
        } else if 0x0F <= ct <= 0x13 {
            if address <= 0x1FFF {
                MemState { ram_enabled: value & 0x0F == 0x0A, ..self }
            } else if address <= 0x3FFF {
                MemState { rom_bank: nonzero_bank((value & 0x7F) as int) as usize, ..self }
            } else if address <= 0x5FFF {
                if value <= 0x03 { MemState { ram_bank: value as usize, ..self } } else { self }
            } else {
                self
            }
        } else if 0x19 <= ct <= 0x1E {
            if address <= 0x1FFF {
                MemState { ram_enabled: value & 0x0F == 0x0A, ..self }
            } else if address <= 0x2FFF {
                MemState { rom_bank: (self.rom_bank & 0x100) | (value as usize), ..self }
            } else if address <= 0x3FFF {
                MemState { rom_bank: (self.rom_bank & 0xFF) | (((value as usize) & 1) << 8usize), ..self }
            } else if address <= 0x5FFF {
                MemState { ram_bank: (value & 0x0F) as usize, ..self }
            } else {
                self
            }
        } else {
            self
        }
    }

    /// The effect of a write to any address other than the two DMA triggers
    /// (0xFF46 and 0xFF55).
    pub open spec fn write_basic(self, address: u16, value: u8) -> MemState {
        if address <= 0x7FFF {
            self.mbc_write(address, value)
        } else if address <= 0x9FFF {
            MemState { vram: self.vram.update(self.vram_index(address), value), ..self }
        } else if address <= 0xBFFF {
            if !self.ram_enabled {
                self
            } else if is_mbc2(self.cart_type) {
                MemState { external_ram: self.external_ram.update((address & 0x1FF) as int, value & 0x0F), ..self }
            } else if self.ext_offset(address) < 0x8000 {
                MemState { external_ram: self.external_ram.update(self.ext_offset(address), value), ..self }
            } else {
                self
            }
        } else if address <= 0xFDFF {
            MemState { wram: self.wram.update(self.wram_index(address), value), ..self }
        } else if address <= 0xFE9F {
            MemState { oam: self.oam.update(address - 0xFE00, value), ..self }
        } else if address <= 0xFEFF {
            self
        } else {
            self.io_write(address, value)
        }
    }

    /// A write to 0xFF00-0xFFFF other than a DMA trigger: joypad select,
    /// audio, CGB registers, serial, I/O, high RAM and IE.
    pub open spec fn io_write(self, address: u16, value: u8) -> MemState {
        if address == 0xFF00 {
            MemState { joypad_select: value & 0x30, ..self }
        } else if 0xFF10 <= address <= 0xFF3F {
            MemState { apu: self.apu.after_write(address, value), ..self }
        } else if address == 0xFF4D {
            MemState { key1_prepare: value & 0x01 != 0, ..self }
        } else if address == 0xFF4F {
            MemState { vram_bank: (value & 1) as usize, ..self }
        } else if address == 0xFF70 {
            MemState { svbk: nonzero_bank((value & 0x07) as int) as usize, ..self }
        } else if address == 0xFF51 {
            MemState { hdma_src: (self.hdma_src & 0x00FF) | ((value as u16) << 8u16), ..self }
        } else if address == 0xFF52 {
            MemState { hdma_src: (self.hdma_src & 0xFF00) | ((value & 0xF0) as u16), ..self }
        } else if address == 0xFF53 {
            MemState { hdma_dst: (self.hdma_dst & 0x00FF) | (((value & 0x1F) as u16) << 8u16), ..self }
        } else if address == 0xFF54 {
            MemState { hdma_dst: (self.hdma_dst & 0xFF00) | ((value & 0xF0) as u16), ..self }
        } else if address == 0xFF68 {
            MemState { bcps: value, ..self }
        } else if address == 0xFF69 {
            MemState {
                bg_palette: self.bg_palette.update((self.bcps & 0x3F) as int, value),
                bcps: palette_index_after_write(self.bcps),
                ..self
            }
        } else if address == 0xFF6A {
            MemState { ocps: value, ..self }
        } else if address == 0xFF6B {
            MemState {
                obj_palette: self.obj_palette.update((self.ocps & 0x3F) as int, value),
                ocps: palette_index_after_write(self.ocps),
                ..self
            }
        } else if address <= 0xFF7F {
            // Writing SC (0xFF02) with bit 7 set sends the byte in SB (0xFF01).
            MemState {
                io_registers: self.io_registers.update(address - 0xFF00, value),
                serial: if address == 0xFF02 && value & 0x80 != 0 {
                    self.serial.push(self.io_registers[1] as char)
                } else {
                    self.serial
                },
                ..self
            }
        } else if address <= 0xFFFE {
            MemState { hram: self.hram.update(address - 0xFF80, value), ..self }
        } else {
            MemState { ie_register: value, ..self }
        }
    }

    /// `n` byte copies in order: byte `i` is read from `src + i` and written to
    /// `dst + i`, each read seeing the earlier writes.
    pub open spec fn copy_steps(self, src: int, dst: int, n: nat) -> MemState
        decreases n,
    {
        if n == 0 {
            self
        } else {
            let m = self.copy_steps(src, dst, (n - 1) as nat);
            m.write_basic((dst + n - 1) as u16, m.read((src + n - 1) as u16))
        }
    }

    /// Source address of a VRAM DMA.
    pub open spec fn hdma_source(self) -> int {
        (self.hdma_src & 0xFFF0) as int
    }

    /// Destination address of a VRAM DMA.
    pub open spec fn hdma_dest(self) -> int {
        (0x8000 | (self.hdma_dst & 0x1FF0)) as int
    }

    /// Bytes a VRAM DMA triggered with `value` copies.
    pub open spec fn hdma_length(value: u8) -> nat {
        (((value & 0x7F) as int + 1) * 0x10) as nat
    }

    /// The effect of writing `value` to `address`. 0xFF46 starts an OAM DMA
    /// (160 bytes from `value << 8` to 0xFE00, register kept readable);
    /// 0xFF55 runs a VRAM DMA of `(value & 0x7F) + 1` blocks of 16 bytes.
    pub open spec fn write(self, address: u16, value: u8) -> MemState {
        if address == 0xFF46 {
            let m = self.copy_steps((value as int) * 256, 0xFE00, 0xA0);
            MemState { io_registers: m.io_registers.update(0x46, value), ..m }
        } else if address == 0xFF55 {
            self.copy_steps(self.hdma_source(), self.hdma_dest(), MemState::hdma_length(value))
        } else {
            self.write_basic(address, value)
        }
    }

    /// One TIMA increment: on overflow past 0xFF it reloads from TMA and
    /// requests the timer interrupt (IF bit 2).
    pub open spec fn tima_tick(self) -> MemState {
        let t = self.io_registers[5];
        if t == 0xFF {
            MemState {
                io_registers: self.io_registers.update(5, self.io_registers[6]).update(
                    0x0F,
                    self.io_registers[0x0F] | 4,
                ),
                ..self
            }
        } else {
            MemState { io_registers: self.io_registers.update(5, (t + 1) as u8), ..self }
        }
    }

    /// `k` TIMA increments.
    pub open spec fn tima_ticks(self, k: nat) -> MemState
        decreases k,
    {
        if k == 0 { self } else { self.tima_ticks((k - 1) as nat).tima_tick() }
    }

    /// The timer after `n` more cycles: the divider counter advances by `n`
    /// (DIV is its high byte) and, while TAC bit 2 is set, TIMA counts once
    /// per period of the counter that TAC bits 1-0 select.
    pub open spec fn after_timer(self, n: nat) -> MemState {
        let c = self.div_counter;
        let m = MemState { div_counter: ((c + n) % 0x10000) as u16, ..self };
        let tac = self.io_registers[7];
        if tac & 4 == 0 {
            m
        } else {
            let p = timer_period(tac);
            m.tima_ticks((((c as int % p) + n) / p) as nat)
        }
    }

    /// The 16-bit little-endian word at `address`.
    pub open spec fn read_word(self, address: u16) -> u16 {
        (self.read(address) + 256 * self.read(((address + 1) % 0x10000) as u16)) as u16
    }
}

/// Cycles per TIMA increment for the TAC clock select (bits 1-0).
pub open spec fn timer_period(tac: u8) -> int {
    let sel = tac & 3;
    if sel == 0 { 1024 } else if sel == 1 { 16 } else if sel == 2 { 64 } else { 256 }
}

/// Append the character with code `byte` to `s` (std's `String::push`).
#[verifier::external_body]
pub(crate) fn push_char(s: &mut String, byte: u8)
    ensures
        final(s)@ == old(s)@.push(byte as char),
{
    s.push(byte as char);
}

/// The whole address space.
#[derive(Clone)]
pub struct Memory {
    // The entire cartridge ROM (all banks, however big).
    rom: Vec<u8>,
    // Which 16KB ROM bank is mapped at 0x4000-0x7FFF.
    rom_bank: usize,
    // Video RAM (CGB has 2 banks; DMG uses only bank 0)
    vram: [u8; 0x4000],
    // External RAM (up to 4 x 8KB cartridge RAM banks)
    external_ram: [u8; 0x8000],
    // Work RAM (CGB has 8 x 4KB banks; DMG uses the first two contiguously)
    wram: [u8; 0x8000],
    // Sprite Attribute Table
    oam: [u8; 0xA0],
    // I/O Registers
    io_registers: [u8; 0x80],
    // High RAM
    hram: [u8; 0x7F],
    // Interrupt Enable Register
    ie_register: u8,
    /// Captured serial output (test ROMs print Pass/Fail here via the link port).
    pub serial: String,
    /// Trace mode: reads of LY (0xFF44) return 0x90.
    pub trace: bool,
    // Joypad (0xFF00): group-select bits 4-5 as written; press masks (1 = pressed).
    joypad_select: u8,
    dpad: u8,
    buttons: u8,
    // Cartridge / MBC state.
    cart_type: u8,
    ram_enabled: bool,
    ram_bank: usize,
    mbc1_bank1: u8,
    mbc1_bank2: u8,
    mbc1_mode: bool,
    // CGB state.
    cgb_mode: bool,
    vram_bank: usize,
    bg_palette: [u8; 64],
    obj_palette: [u8; 64],
    bcps: u8,
    ocps: u8,
    svbk: usize,
    hdma_src: u16,
    hdma_dst: u16,
    /// CGB double-speed mode (KEY1 bit 7).
    pub double_speed: bool,
    key1_prepare: bool,
    /// Free-running 16-bit counter; DIV (0xFF04) reads its high byte.
    div_counter: u16,
    /// Audio.
    pub apu: Apu,
}

impl View for Memory {
    type V = MemState;

    closed spec fn view(&self) -> MemState {
        MemState {
            rom: self.rom@,
            rom_bank: self.rom_bank,
            vram: self.vram@,
            external_ram: self.external_ram@,
            wram: self.wram@,
            oam: self.oam@,
            io_registers: self.io_registers@,
            hram: self.hram@,
            ie_register: self.ie_register,
            serial: self.serial@,
            trace: self.trace,
            joypad_select: self.joypad_select,
            dpad: self.dpad,
            buttons: self.buttons,
            cart_type: self.cart_type,
            ram_enabled: self.ram_enabled,
            ram_bank: self.ram_bank,
            mbc1_bank1: self.mbc1_bank1,
            mbc1_bank2: self.mbc1_bank2,
            mbc1_mode: self.mbc1_mode,
            cgb_mode: self.cgb_mode,
            vram_bank: self.vram_bank,
            bg_palette: self.bg_palette@,
            obj_palette: self.obj_palette@,
            bcps: self.bcps,
            ocps: self.ocps,
            svbk: self.svbk,
            hdma_src: self.hdma_src,
            hdma_dst: self.hdma_dst,
            double_speed: self.double_speed,
            key1_prepare: self.key1_prepare,
            div_counter: self.div_counter,
            apu: self.apu,
        }
    }
}


/// Eight-bit channel value of a five-bit CGB colour channel: `(v << 3) | (v >> 2)`,
/// so 0x1F maps to 0xFF.
pub open spec fn expand5(v: int) -> u8 {
    (v * 8 + v / 4) as u8
}

/// The five-bit channel of an RGB555 colour that starts at bit `shift`.
pub open spec fn channel5(c: u16, shift: u16) -> int {
    ((c >> shift) & 0x1F) as int
}

/// [`channel5`] in the form the bit-vector solver reads.
pub open spec fn channel5_bv(c: u16, shift: u16) -> int {
    ((c >> shift) & 0x1F) as int
}

/// The RGB888 colour of a 15-bit CGB colour (red in bits 0-4, green 5-9, blue 10-14).
pub open spec fn rgb888(c: u16) -> (u8, u8, u8) {
    (expand5(channel5(c, 0)), expand5(channel5(c, 5)), expand5(channel5(c, 10)))
}

/// Convert a 15-bit CGB color (RGB555, 5 bits each) to 8-bit-per-channel RGB.
/// Scale 5->8 bits by `(v << 3) | (v >> 2)` so 0x1F maps to 0xFF.
pub fn rgb555_to_rgb888(c: u16) -> (r: (u8, u8, u8))
    ensures
        r == rgb888(c),
{
    let r = (c & 0x1F) as u8;
    let g = ((c >> 5) & 0x1F) as u8;
    let b = ((c >> 10) & 0x1F) as u8;
    proof { lemma_rgb555(c); }
    ((r << 3) | (r >> 2), (g << 3) | (g >> 2), (b << 3) | (b >> 2))
}

/// The three five-bit channels of a colour and their expansion to eight bits.
proof fn lemma_rgb555(c: u16)
    by (bit_vector)
    ensures
        ((c & 0x1F) as u8) as int == channel5_bv(c, 0),
        (((c >> 5) & 0x1F) as u8) as int == channel5_bv(c, 5),
        (((c >> 10) & 0x1F) as u8) as int == channel5_bv(c, 10),
        ((((c & 0x1F) as u8) << 3) | (((c & 0x1F) as u8) >> 2)) as int
            == ((c & 0x1F) as u8) * 8 + ((c & 0x1F) as u8) / 4,
        (((((c >> 5) & 0x1F) as u8) << 3) | ((((c >> 5) & 0x1F) as u8) >> 2)) as int
            == (((c >> 5) & 0x1F) as u8) * 8 + (((c >> 5) & 0x1F) as u8) / 4,
        (((((c >> 10) & 0x1F) as u8) << 3) | ((((c >> 10) & 0x1F) as u8) >> 2)) as int
            == (((c >> 10) & 0x1F) as u8) * 8 + (((c >> 10) & 0x1F) as u8) / 4,
{
}

/// A sequence of `n` zero bytes.
pub open spec fn zeros(n: nat) -> Seq<u8> {
    Seq::new(n, |i: int| 0u8)
}

/// The I/O registers after power-up: LCDC = 0x91, BGP = 0xFC, OBP0 = OBP1 = 0xFF
/// (the values the boot ROM leaves behind), everything else 0.
pub open spec fn initial_io() -> Seq<u8> {
    zeros(0x80).update(0x40, 0x91).update(0x47, 0xFC).update(0x48, 0xFF).update(0x49, 0xFF)
}

impl MemState {
    /// The address space at power-up, before a cartridge is loaded.
    pub open spec fn initial() -> MemState {
        MemState {
            rom: Seq::empty(),
            rom_bank: 1,
            vram: zeros(0x4000),
            external_ram: zeros(0x8000),
            wram: zeros(0x8000),
            oam: zeros(0xA0),
            io_registers: initial_io(),
            hram: zeros(0x7F),
            ie_register: 0,
            serial: Seq::empty(),
            trace: false,
            joypad_select: 0x30,
            dpad: 0,
            buttons: 0,
            cart_type: 0,
            ram_enabled: false,
            ram_bank: 0,
            mbc1_bank1: 1,
            mbc1_bank2: 0,
            mbc1_mode: false,
            cgb_mode: false,
            vram_bank: 0,
            bg_palette: zeros(64),
            obj_palette: zeros(64),
            bcps: 0,
            ocps: 0,
            svbk: 1,
            hdma_src: 0,
            hdma_dst: 0,
            double_speed: false,
            key1_prepare: false,
            div_counter: 0,
            apu: Apu::initial(),
        }
    }

    /// The header byte at `i`, or 0 when the ROM is shorter.
    pub open spec fn header_byte(rom: Seq<u8>, i: int) -> u8 {
        if i < rom.len() { rom[i] } else { 0 }
    }

    /// The address space after a cartridge image is loaded.
    pub open spec fn with_rom(self, rom: Seq<u8>) -> MemState {
        MemState {
            rom,
            cart_type: MemState::header_byte(rom, 0x0147),
            cgb_mode: MemState::header_byte(rom, 0x0143) & 0x80 != 0,
            rom_bank: 1,
            ram_bank: 0,
            ram_enabled: false,
            ..self
        }
    }

    /// The cartridge type has battery-backed RAM.
    pub open spec fn battery(self) -> bool {
        let t = self.cart_type;
        t == 0x03 || t == 0x06 || t == 0x09 || t == 0x0D || t == 0x0F || t == 0x10 || t == 0x13
            || t == 0x1B || t == 0x1E
    }
}

/// Bank registers stay within their widths.
/// The joypad and KEY1 read values, bit by bit.
proof fn lemma_register_bits(sel: u8, d: u8, b: u8, ds: bool, kp: bool)
    by (bit_vector)
    ensures
        (if sel & 0x20 == 0 {
            (if sel & 0x10 == 0 { 0x0Fu8 & (!d & 0x0F) } else { 0x0Fu8 }) & (!b & 0x0F)
        } else {
            if sel & 0x10 == 0 { 0x0Fu8 & (!d & 0x0F) } else { 0x0Fu8 }
        }) == 0x0F & (if sel & 0x10 == 0 { !d & 0x0F } else { 0x0Fu8 })
            & (if sel & 0x20 == 0 { !b & 0x0F } else { 0x0Fu8 }),
        (if kp { (if ds { 0x7Eu8 | 0x80 } else { 0x7Eu8 }) | 0x01 } else {
            if ds { 0x7Eu8 | 0x80 } else { 0x7Eu8 }
        }) == 0x7E | (if ds { 0x80u8 } else { 0 }) | (if kp { 0x01u8 } else { 0 }),
{
}

/// DMA source page and destination bounds.
proof fn lemma_dma_bits(value: u8, d: u16)
    by (bit_vector)
    ensures
        ((value as u16) << 8) == value as int * 256,
        0x8000 | (d & 0x1FF0) <= 0x9FF0,
{
}

proof fn lemma_bank_bits(b1: u8, b2: u8, rb: usize, value: u8)
    by (bit_vector)
    ensures
        b1 <= 0x1F && b2 <= 3 ==> ((b2 << 5u8) | b1) <= 0x7F,
        (rb & 0x100) | (value as usize) <= 0x1FF,
        (rb & 0xFF) | (((value as usize) & 1) << 8usize) <= 0x1FF,
{
}

proof fn lemma_mbc_write_inv(m: MemState, address: u16, value: u8)
    requires
        m.inv(),
        address <= 0x7FFF,
    ensures
        m.mbc_write(address, value).inv(),
{
    lemma_byte_fields(value);
    lemma_bank_bits(m.mbc1_bank1, m.mbc1_bank2, m.rom_bank, value);
    let ct = m.cart_type;
    if 0x01 <= ct <= 0x03 {
        if 0x2000 <= address <= 0x3FFF {
            let nb = nonzero_bank((value & 0x1F) as int) as u8;
            lemma_bank_bits(nb, m.mbc1_bank2, m.rom_bank, value);
        } else if 0x4000 <= address <= 0x5FFF {
            lemma_bank_bits(m.mbc1_bank1, value & 0x03, m.rom_bank, value);
        }
    }
}

/// A write other than a DMA trigger keeps the invariant.
pub proof fn lemma_write_basic_inv(m: MemState, address: u16, value: u8)
    requires
        m.inv(),
    ensures
        m.write_basic(address, value).inv(),
{
    lemma_byte_fields(value);
    lemma_byte_fields(m.bcps);
    lemma_byte_fields(m.ocps);
    lemma_low_bits(address as usize);
    if address <= 0x7FFF {
        lemma_mbc_write_inv(m, address, value);
    } else if 0xFF10 <= address <= 0xFF3F {
        crate::apu::lemma_write_keeps_inv(m.apu, address, value);
    } else if 0xC000 <= address <= 0xFDFF {
        assert(0 <= m.wram_index(address) < 0x8000);
    }
}

proof fn lemma_copy_steps_inv(m: MemState, src: int, dst: int, n: nat)
    requires
        m.inv(),
    ensures
        m.copy_steps(src, dst, n).inv(),
    decreases n,
{
    if n > 0 {
        lemma_copy_steps_inv(m, src, dst, (n - 1) as nat);
        let k = m.copy_steps(src, dst, (n - 1) as nat);
        lemma_write_basic_inv(k, (dst + n - 1) as u16, k.read((src + n - 1) as u16));
    }
}

/// A write keeps the invariant.
pub proof fn lemma_write_inv(m: MemState, address: u16, value: u8)
    requires
        m.inv(),
    ensures
        m.write(address, value).inv(),
{
    if address == 0xFF46 {
        lemma_copy_steps_inv(m, (value as int) * 256, 0xFE00, 0xA0);
    } else if address == 0xFF55 {
        lemma_copy_steps_inv(m, m.hdma_source(), m.hdma_dest(), MemState::hdma_length(value));
    } else {
        lemma_write_basic_inv(m, address, value);
    }
}


/// The serial log is append-only: a write either leaves it as it was or
/// appends exactly one character (a transfer started through SC at 0xFF02).
pub open spec fn serial_grows_by_at_most_one(before: Seq<char>, after: Seq<char>) -> bool {
    after == before || exists|c: char| after == before.push(c)
}

proof fn lemma_copy_steps_serial(m: MemState, src: int, dst: int, n: nat)
    requires
        0x8000 <= dst,
        dst + n <= 0xFF00,
    ensures
        m.copy_steps(src, dst, n).serial == m.serial,
    decreases n,
{
    if n > 0 {
        lemma_copy_steps_serial(m, src, dst, (n - 1) as nat);
    }
}

/// A write appends at most one character to the serial log, and only a write
/// of SC (0xFF02) with bit 7 set appends one.
pub proof fn lemma_write_serial(m: MemState, address: u16, value: u8)
    ensures
        serial_grows_by_at_most_one(m.serial, m.write(address, value).serial),
        !(address == 0xFF02 && value & 0x80 != 0) ==> m.write(address, value).serial == m.serial,
{
    if address == 0xFF46 {
        lemma_copy_steps_serial(m, (value as int) * 256, 0xFE00, 0xA0);
    } else if address == 0xFF55 {
        crate::bits::lemma_dma_dest_bits(m.hdma_dst);
        lemma_byte_fields(value);
        lemma_copy_steps_serial(m, m.hdma_source(), m.hdma_dest(), MemState::hdma_length(value));
    } else if address == 0xFF02 && value & 0x80 != 0 {
        assert(m.write(address, value).serial == m.serial.push(m.io_registers[1] as char));
    }
}

/// `after` keeps every character of `before`, in place: the log only grew.
pub open spec fn serial_grows(before: Seq<char>, after: Seq<char>) -> bool {
    &&& before.len() <= after.len()
    &&& forall|i: int| 0 <= i < before.len() ==> #[trigger] after[i] == before[i]
}

/// Every write keeps the characters already in the serial log.
pub proof fn lemma_writes_grow_serial()
    ensures
        forall|m: MemState, a: u16, v: u8| serial_grows(m.serial, #[trigger] m.write(a, v).serial),
{
    assert forall|m: MemState, a: u16, v: u8| serial_grows(m.serial, #[trigger] m.write(a, v).serial) by {
        lemma_write_serial(m, a, v);
        let after = m.write(a, v).serial;
        if after != m.serial {
            let c = choose|c: char| after == m.serial.push(c);
            assert(after == m.serial.push(c));
        }
    }
}

proof fn lemma_copy_steps_div(m: MemState, src: int, dst: int, n: nat)
    ensures
        m.copy_steps(src, dst, n).div_counter == m.div_counter,
    decreases n,
{
    if n > 0 {
        lemma_copy_steps_div(m, src, dst, (n - 1) as nat);
    }
}

/// Writes never touch the divider counter (a write to DIV does not reset it).
pub proof fn lemma_writes_keep_div()
    ensures
        forall|m: MemState, a: u16, v: u8| #[trigger] m.write(a, v).div_counter == m.div_counter,
{
    assert forall|m: MemState, a: u16, v: u8| #[trigger] m.write(a, v).div_counter == m.div_counter by {
        if a == 0xFF46 {
            lemma_copy_steps_div(m, (v as int) * 256, 0xFE00, 0xA0);
        } else if a == 0xFF55 {
            lemma_copy_steps_div(m, m.hdma_source(), m.hdma_dest(), MemState::hdma_length(v));
        }
    }
}

/// Addresses backed by plain RAM: video RAM, work RAM and its echo, OAM,
/// high RAM and the interrupt-enable register.
pub open spec fn is_plain_ram(a: u16) -> bool {
    (0x8000 <= a <= 0x9FFF) || (0xC000 <= a <= 0xFDFF) || (0xFE00 <= a <= 0xFE9F) || (0xFF80 <= a)
}

impl MemState {
    /// The storage cell a plain-RAM address reaches under the current bank
    /// selection; two addresses with the same cell read and write the same byte.
    pub open spec fn ram_cell(self, a: u16) -> int {
        if a <= 0x9FFF {
            self.vram_index(a)
        } else if a <= 0xFDFF {
            0x10000 + self.wram_index(a)
        } else if a <= 0xFE9F {
            0x20000 + (a - 0xFE00)
        } else {
            0x30000 + (a - 0xFF80)
        }
    }
}

/// Plain RAM reads back what was written: a write changes exactly the cell
/// it reaches, so a read of an address with the same cell (the same address,
/// or its echo) gives the value and a read of any other cell is unchanged.
pub proof fn lemma_ram_write_read(m: MemState, a: u16, b: u16, v: u8)
    requires
        m.inv(),
        is_plain_ram(a),
        is_plain_ram(b),
    ensures
        m.ram_cell(a) == m.ram_cell(b) ==> m.write(a, v).read(b) == v,
        m.ram_cell(a) != m.ram_cell(b) ==> m.write(a, v).read(b) == m.read(b),
{
}

/// Echo RAM (0xE000-0xFDFF) mirrors work RAM 0x2000 below it.
pub proof fn lemma_echo_mirrors_wram(m: MemState, a: u16)
    requires
        0xE000 <= a <= 0xFDFF,
    ensures
        m.read(a) == m.read((a - 0x2000) as u16),
{
}

/// Echo RAM mirrors work RAM both ways: a write to 0xC000-0xDDFF or to its
/// echo 0xE000-0xFDFF reads back at the address and at its mirror
/// (`a ^ 0x2000`).
pub proof fn lemma_echo_write(m: MemState, a: u16, v: u8)
    requires
        m.inv(),
        (0xC000 <= a <= 0xDDFF) || (0xE000 <= a <= 0xFDFF),
    ensures
        m.write(a, v).read(a) == v,
        m.write(a, v).read(a ^ 0x2000) == v,
{
    let b = a ^ 0x2000;
    assert(((0xC000 <= a && a <= 0xDDFF) ==> a ^ 0x2000 == a + 0x2000) && ((0xE000 <= a && a <= 0xFDFF) ==> a
        ^ 0x2000 == a - 0x2000)) by (bit_vector);
    lemma_ram_write_read(m, a, a, v);
    lemma_ram_write_read(m, a, b, v);
}

/// The unusable region 0xFEA0-0xFEFF reads 0xFF.
pub proof fn lemma_unusable_reads_ff(m: MemState, a: u16)
    requires
        0xFEA0 <= a <= 0xFEFF,
    ensures
        m.read(a) == 0xFF,
{
}

/// Writes into the ROM area never change the ROM; without a bank
/// controller (cartridge type 0) they change nothing at all.
pub proof fn lemma_rom_read_only(m: MemState, a: u16, v: u8)
    requires
        a <= 0x7FFF,
    ensures
        m.write(a, v).rom == m.rom,
        m.cart_type == 0 ==> m.write(a, v) == m,
{
}

/// A loaded ROM's first 16 KiB read back at their own addresses; past its
/// end the fixed bank reads 0xFF.
pub proof fn lemma_rom_loaded(m: MemState, rom: Seq<u8>, a: u16)
    requires
        a <= 0x3FFF,
    ensures
        a < rom.len() ==> m.with_rom(rom).read(a) == rom[a as int],
        a >= rom.len() ==> m.with_rom(rom).read(a) == 0xFF,
{
}

/// While cartridge RAM is disabled it reads 0xFF and ignores writes; its
/// contents survive being disabled and enabled again.
pub proof fn lemma_cart_ram_gate(m: MemState, a: u16, v: u8)
    requires
        0xA000 <= a <= 0xBFFF,
    ensures
        !m.ram_enabled ==> m.read(a) == 0xFF,
        !m.ram_enabled ==> m.write(a, v) == m,
        m.write(0x0000, v).external_ram == m.external_ram,
{
}

/// A 16-bit word written to two distinct plain-RAM cells reads back
/// (little-endian: low byte first).
pub proof fn lemma_word_write_read(m: MemState, a: u16, v: u16)
    requires
        m.inv(),
        a < 0xFFFF,
        is_plain_ram(a),
        is_plain_ram((a + 1) as u16),
        m.ram_cell(a) != m.ram_cell((a + 1) as u16),
    ensures
        m.write(a, (v & 0xFF) as u8).write((a + 1) as u16, (v >> 8) as u8).read_word(a) == v,
{
    let lo = (v & 0xFF) as u8;
    let hi = (v >> 8) as u8;
    let a1 = (a + 1) as u16;
    let m1 = m.write(a, lo);
    lemma_write_inv(m, a, lo);
    lemma_ram_write_read(m, a, a, lo);
    assert(m1.ram_cell(a) == m.ram_cell(a) && m1.ram_cell(a1) == m.ram_cell(a1));
    lemma_ram_write_read(m1, a1, a, hi);
    lemma_ram_write_read(m1, a1, a1, hi);
    crate::bits::lemma_split_word(v);
    assert((v & 0xFF) as u8 == v as u8) by {
        crate::bits::lemma_word_low(v);
    }
}

/// The joypad register: bits 7-6 read 1, bits 5-4 read the group selection,
/// and a low bit reads 0 exactly when that button is pressed in a selected
/// group (directions when bit 4 is 0, actions when bit 5 is 0).
pub proof fn lemma_joypad(m: MemState)
    requires
        m.joypad_select & 0xCF == 0,
    ensures
        m.read(0xFF00) & 0xC0 == 0xC0,
        m.read(0xFF00) & 0x30 == m.joypad_select,
        m.read(0xFF00) & 0x0F == !((if m.joypad_select & 0x10 == 0 { m.dpad } else { 0u8 })
            | (if m.joypad_select & 0x20 == 0 { m.buttons } else { 0u8 })) & 0x0F,
{
    lemma_joypad_bits(m.joypad_select, m.dpad, m.buttons);
}

proof fn lemma_joypad_bits(sel: u8, d: u8, b: u8)
    by (bit_vector)
    requires
        sel & 0xCF == 0,
    ensures
        ({
            let r = 0xC0 | sel | (0x0F & (if sel & 0x10 == 0 { !d & 0x0F } else { 0x0Fu8 })
                & (if sel & 0x20 == 0 { !b & 0x0F } else { 0x0Fu8 }));
            &&& r & 0xC0 == 0xC0
            &&& r & 0x30 == sel
            &&& r & 0x0F == !((if sel & 0x10 == 0 { d } else { 0u8 }) | (if sel & 0x20 == 0 { b } else { 0u8 }))
                & 0x0F
        }),
{
}

proof fn lemma_joypad_select_bits(s: u8, dp: u8, bt: u8)
    by (bit_vector)
    ensures
        0x0F & (if (s & 0x30) & 0x10 == 0 { !(dp & 0x0F) & 0x0F } else { 0x0Fu8 }) & (if (s & 0x30) & 0x20 == 0 {
            !(bt & 0x0F) & 0x0F
        } else {
            0x0Fu8
        }) == 0x0F & (if s & 0x10 == 0 { !dp } else { 0xFFu8 }) & (if s & 0x20 == 0 { !bt } else { 0xFFu8 }),
{
}

/// The joypad reads back what was last set and selected: after
/// `set_joypad(dp, bt)` and a write of `s` to 0xFF00, a read of 0xFF00 gives
/// bits 7-6 set, the selection `s & 0x30`, and active-low the buttons of the
/// selected groups only (directions with bit 4 clear, actions with bit 5
/// clear).
pub proof fn lemma_joypad_read(m: MemState, dp: u8, bt: u8, s: u8)
    ensures
        (MemState { dpad: dp & 0x0F, buttons: bt & 0x0F, ..m }).write(0xFF00, s).read(0xFF00) == 0xC0 | (s & 0x30)
            | (0x0F & (if s & 0x10 == 0 { !dp } else { 0xFFu8 }) & (if s & 0x20 == 0 { !bt } else { 0xFFu8 })),
{
    lemma_joypad_select_bits(s, dp, bt);
}

/// MBC5 RAM banking: on an MBC5 cartridge (types 0x19-0x1E) a write of `v`
/// to 0x4000-0x5FFF selects RAM bank `v % 16`, so with RAM enabled a read of
/// 0xA000 + `o` gives byte `o` of that 8 KiB bank (0xFF for a bank past the
/// 32 KiB of cartridge RAM).
pub proof fn lemma_mbc5_ram_bank(m: MemState, a: u16, v: u8, o: u16)
    requires
        m.inv(),
        0x19 <= m.cart_type <= 0x1E,
        m.ram_enabled,
        0x4000 <= a <= 0x5FFF,
        o < 0x2000,
    ensures
        ({
            let off = (v % 16) * 0x2000 + o;
            let r = m.write(a, v).read((0xA000 + o) as u16);
            &&& off < 0x8000 ==> r == m.external_ram[off]
            &&& off >= 0x8000 ==> r == 0xFF
        }),
{
    assert((v & 0x0F) as int == v % 16) by (bit_vector);
}

/// MBC3 RAM banking: on an MBC3 cartridge (types 0x0F-0x13) a write of
/// `v` <= 3 to 0x4000-0x5FFF selects RAM bank `v`, so with RAM enabled a read
/// of 0xA000 + `o` gives byte `o` of that bank; a larger `v` (an RTC
/// register select) leaves the bank as it was.
pub proof fn lemma_mbc3_ram_bank(m: MemState, a: u16, v: u8, o: u16)
    requires
        m.inv(),
        0x0F <= m.cart_type <= 0x13,
        m.ram_enabled,
        0x4000 <= a <= 0x5FFF,
        o < 0x2000,
    ensures
        v <= 3 ==> m.write(a, v).read((0xA000 + o) as u16) == m.external_ram[v * 0x2000 + o],
        v > 3 ==> m.write(a, v).read((0xA000 + o) as u16) == m.read((0xA000 + o) as u16),
{
}

/// MBC5 ROM banking: a write of `v` to 0x2000-0x2FFF sets the low eight bits
/// of the ROM bank and a write to 0x3000-0x3FFF sets bit 8 from `v % 2`; a
/// read of 0x4000 + `o` then gives byte `o` of that 16 KiB bank (0xFF past
/// the end of the ROM).
pub proof fn lemma_mbc5_rom_bank(m: MemState, a: u16, v: u8, o: u16)
    requires
        m.inv(),
        0x19 <= m.cart_type <= 0x1E,
        0x2000 <= a <= 0x3FFF,
        o < 0x4000,
    ensures
        ({
            let bank = if a <= 0x2FFF { (m.rom_bank / 256) * 256 + v } else { (v % 2) * 256 + m.rom_bank % 256 };
            let off = bank * 0x4000 + o;
            let r = m.write(a, v).read((0x4000 + o) as u16);
            &&& off < m.rom.len() ==> r == m.rom[off]
            &&& off >= m.rom.len() ==> r == 0xFF
        }),
{
    let b = m.rom_bank;
    let vv = v as usize;
    assert((b <= 0x1FF ==> (b & 0x100) | vv == (b / 256) * 256 + vv)
        && (b <= 0x1FF ==> (b & 0xFF) | ((vv & 1) << 8usize) == (vv % 2) * 256 + b % 256)) by (bit_vector)
        requires vv <= 255;
}

/// MBC1 ROM banking: on an MBC1 cartridge (types 0x01-0x03) a write of `v`
/// to 0x2000-0x3FFF selects bank `v % 32` (0 counts as 1) within the upper
/// bank bits, so a read of 0x4000 + `o` gives byte `o` of bank
/// `bank2 * 32 + that` (0xFF past the end of the ROM).
pub proof fn lemma_mbc1_rom_bank(m: MemState, a: u16, v: u8, o: u16)
    requires
        m.inv(),
        0x01 <= m.cart_type <= 0x03,
        0x2000 <= a <= 0x3FFF,
        o < 0x4000,
    ensures
        ({
            let low = if v % 32 == 0 { 1 } else { v % 32 };
            let off = (m.mbc1_bank2 * 32 + low) * 0x4000 + o;
            let r = m.write(a, v).read((0x4000 + o) as u16);
            &&& off < m.rom.len() ==> r == m.rom[off]
            &&& off >= m.rom.len() ==> r == 0xFF
        }),
{
    let b2 = m.mbc1_bank2;
    assert((v & 0x1F) as int == v % 32) by (bit_vector);
    let b1 = nonzero_bank((v & 0x1F) as int) as u8;
    assert(b1 <= 0x1F && b2 <= 3 ==> ((b2 << 5u8) | b1) as int == b2 * 32 + b1) by (bit_vector);
}

/// MBC2 ROM banking: on an MBC2 cartridge (types 0x05-0x06) a write of `v`
/// to an address in 0x0000-0x3FFF with bit 8 set selects bank `v % 16` (0
/// counts as 1); with bit 8 clear it is the RAM enable instead.
pub proof fn lemma_mbc2_rom_bank(m: MemState, a: u16, v: u8, o: u16)
    requires
        m.inv(),
        0x05 <= m.cart_type <= 0x06,
        a <= 0x3FFF,
        (a / 256) % 2 == 1,
        o < 0x4000,
    ensures
        ({
            let bank = if v % 16 == 0 { 1 } else { v % 16 };
            let off = bank * 0x4000 + o;
            let r = m.write(a, v).read((0x4000 + o) as u16);
            &&& off < m.rom.len() ==> r == m.rom[off]
            &&& off >= m.rom.len() ==> r == 0xFF
        }),
{
    assert((a & 0x0100 == 0) == ((a / 256) % 2 == 0) && (v & 0x0F) as int == v % 16) by (bit_vector);
}

/// MBC3 ROM banking: on an MBC3 cartridge (types 0x0F-0x13) a write of `v`
/// to 0x2000-0x3FFF selects bank `v % 128` (0 counts as 1).
pub proof fn lemma_mbc3_rom_bank(m: MemState, a: u16, v: u8, o: u16)
    requires
        m.inv(),
        0x0F <= m.cart_type <= 0x13,
        0x2000 <= a <= 0x3FFF,
        o < 0x4000,
    ensures
        ({
            let bank = if v % 128 == 0 { 1 } else { v % 128 };
            let off = bank * 0x4000 + o;
            let r = m.write(a, v).read((0x4000 + o) as u16);
            &&& off < m.rom.len() ==> r == m.rom[off]
            &&& off >= m.rom.len() ==> r == 0xFF
        }),
{
    assert((v & 0x7F) as int == v % 128) by (bit_vector);
}

/// A write of SC (0xFF02) with bit 7 set sends the byte in SB (0xFF01): it
/// is appended to the serial log as a character; any other write to SC
/// leaves the log as it was.
pub proof fn lemma_serial_send(m: MemState, v: u8)
    ensures
        v >= 0x80 ==> m.write(0xFF02, v).serial == m.serial.push(m.read(0xFF01) as char),
        v < 0x80 ==> m.write(0xFF02, v).serial == m.serial,
{
    assert((v & 0x80 != 0) == (v >= 0x80)) by (bit_vector);
}

/// The timer rate: while TAC bit 2 is set, TIMA counts once each time the
/// divider counter passes a multiple of 1024, 16, 64 or 256 cycles (TAC
/// bits 1-0 = 0, 1, 2, 3); on counting past 0xFF it reloads from TMA and
/// requests the timer interrupt (IF bit 2). With TAC bit 2 clear it stands.
pub proof fn lemma_timer_rate(m: MemState, n: nat)
    requires
        m.io_registers.len() == 0x80,
    ensures
        ({
            let tac = m.io_registers[7] as int;
            let p: int = if tac % 4 == 0 { 1024 } else if tac % 4 == 1 { 16 } else if tac % 4 == 2 { 64 } else { 256 };
            let k = (m.div_counter + n) / p - (m.div_counter as int) / p;
            let t = m.after_timer(n);
            let tima = m.io_registers[5];
            &&& (tac / 4) % 2 == 0 ==> t.io_registers == m.io_registers
            &&& (tac / 4) % 2 == 1 && k == 0 ==> t.io_registers == m.io_registers
            &&& (tac / 4) % 2 == 1 && k == 1 && tima < 0xFF ==> t.io_registers[5] == tima + 1
                && t.io_registers[0x0F] == m.io_registers[0x0F]
            &&& (tac / 4) % 2 == 1 && k == 1 && tima == 0xFF ==> t.io_registers[5] == m.io_registers[6]
                && (t.io_registers[0x0F] / 4) % 2 == 1
            &&& t.div_counter == (m.div_counter + n) % 0x10000
        }),
{
    let tac = m.io_registers[7];
    let iflag = m.io_registers[0x0F];
    assert((tac & 4 == 0) == ((tac as int / 4) % 2 == 0) && (tac & 3) as int == tac as int % 4
        && ((iflag | 4) as int / 4) % 2 == 1) by (bit_vector);
    let c = m.div_counter as int;
    let p = timer_period(tac);
    assert(p > 0);
    assert((c % p + n) / p == (c + n) / p - c / p) by (nonlinear_arith)
        requires p > 0, c >= 0, n >= 0;
    let t4 = tac as int % 4;
    assert(p == (if t4 == 0 { 1024int } else if t4 == 1 { 16int } else if t4 == 2 { 64int } else { 256int }));
    let m1 = MemState { div_counter: ((c + n) % 0x10000) as u16, ..m };
    let k = (c % p + n) / p;
    if tac & 4 != 0 {
        assert(m.after_timer(n) == m1.tima_ticks(k as nat));
        if k == 0 {
            assert(m1.tima_ticks(0) == m1);
        } else if k == 1 {
            assert(m1.tima_ticks(1) == m1.tima_ticks(0).tima_tick());
            assert(m1.tima_ticks(0) == m1);
        }
    } else {
        assert(m.after_timer(n) == m1);
    }
    let t = m.after_timer(n);
    crate::cpu::lemma_timer_keeps_div(m, n);
    let ti = m.io_registers[5];
    assert(k == (c + n) / p - c / p);
    assert((tac as int / 4) % 2 == 0 ==> t.io_registers == m.io_registers);
    assert((tac as int / 4) % 2 == 1 && k == 0 ==> t.io_registers == m.io_registers);
    assert((tac as int / 4) % 2 == 1 && k == 1 && ti < 0xFF ==> t.io_registers[5] == ti + 1);
    assert((tac as int / 4) % 2 == 1 && k == 1 && ti < 0xFF ==> t.io_registers[0x0F] == m.io_registers[0x0F]);
    assert((tac as int / 4) % 2 == 1 && k == 1 && ti == 0xFF ==> t.io_registers[5] == m.io_registers[6]);
    assert((tac as int / 4) % 2 == 1 && k == 1 && ti == 0xFF ==> (t.io_registers[0x0F] / 4) % 2 == 1);
    assert(t.div_counter == (m.div_counter + n) % 0x10000);
}

/// KEY1 reads back the armed switch in bit 0 and the current speed in bit 7;
/// a speed switch flips the speed and disarms.
pub proof fn lemma_key1(m: MemState, v: u8)
    ensures
        m.write(0xFF4D, v).read(0xFF4D) & 0x01 == v & 0x01,
        m.read(0xFF4D) & 0x80 != 0 <==> m.double_speed,
{
    lemma_key1_bits(m.double_speed, v & 0x01 != 0, v);
    lemma_key1_bits(m.double_speed, m.key1_prepare, v);
}

proof fn lemma_key1_bits(ds: bool, kp: bool, v: u8)
    by (bit_vector)
    ensures
        kp == (v & 0x01 != 0) ==> (0x7Eu8 | (if ds { 0x80u8 } else { 0u8 }) | (if kp { 0x01u8 } else { 0u8 })) & 0x01
            == v & 0x01,
        ((0x7Eu8 | (if ds { 0x80u8 } else { 0u8 }) | (if kp { 0x01u8 } else { 0u8 })) & 0x80 != 0) == ds,
{
}

/// A palette data write stores the byte at the current index and, with
/// auto-increment (bit 7) set, moves the index to the next of the 64 bytes.
pub proof fn lemma_palette_write(m: MemState, v: u8)
    requires
        m.inv(),
    ensures
        m.write(0xFF69, v).bg_palette[(m.bcps & 0x3F) as int] == v,
        m.write(0xFF69, v).read(0xFF68) & 0x3F == if m.bcps & 0x80 != 0 { ((m.bcps & 0x3F) + 1) % 64 } else {
            (m.bcps & 0x3F) as int
        },
        m.write(0xFF69, v).read(0xFF68) & 0x80 == m.bcps & 0x80,
        m.write(0xFF6B, v).obj_palette[(m.ocps & 0x3F) as int] == v,
{
    crate::bits::lemma_byte_fields(m.bcps);
    crate::bits::lemma_byte_fields(m.ocps);
    lemma_palette_index_bits(m.bcps);
}

proof fn lemma_palette_index_bits(ps: u8)
    by (bit_vector)
    ensures
        ps & 0x80 != 0 ==> ((ps & 0x80) | (((ps + 1) % 256) as u8 & 0x3F)) & 0x3F == ((ps & 0x3F) + 1) % 64,
        ps & 0x80 != 0 ==> ((ps & 0x80) | (((ps + 1) % 256) as u8 & 0x3F)) & 0x80 == ps & 0x80,
{
}

/// The OAM contents after `k` steps of an OAM DMA from `src`.
pub open spec fn oam_after_copy(m: MemState, src: int, k: int) -> Seq<u8> {
    Seq::new(0xA0, |j: int| if j < k { m.read((src + j) as u16) } else { m.oam[j] })
}

proof fn lemma_oam_copy_steps(m: MemState, src: int, k: nat)
    requires
        m.inv(),
        k <= 0xA0,
        src % 256 == 0,
        0 <= src <= 0xFF00,
    ensures
        m.copy_steps(src, 0xFE00, k) == (MemState { oam: oam_after_copy(m, src, k as int), ..m }),
    decreases k,
{
    if k == 0 {
        assert(oam_after_copy(m, src, 0) =~= m.oam);
    } else {
        let k1 = (k - 1) as nat;
        lemma_oam_copy_steps(m, src, k1);
        let mk = m.copy_steps(src, 0xFE00, k1);
        let a = (src + k1) as u16;
        assert(mk.read(a) == m.read(a));
        assert(oam_after_copy(m, src, k as int) =~= oam_after_copy(m, src, k1 as int).update(k1 as int, m.read(a)));
    }
}

/// An OAM DMA (a write of `v` to 0xFF46) copies the 160 bytes read from
/// `v * 0x100` into OAM, keeps the value readable at 0xFF46 and changes
/// nothing else.
pub proof fn lemma_oam_dma(m: MemState, v: u8)
    requires
        m.inv(),
    ensures
        m.write(0xFF46, v) == (MemState {
            oam: oam_after_copy(m, v as int * 256, 0xA0),
            io_registers: m.io_registers.update(0x46, v),
            ..m
        }),
        forall|i: int| 0 <= i < 0xA0 ==> #[trigger] m.write(0xFF46, v).read((0xFE00 + i) as u16) == m.read(
            (v as int * 256 + i) as u16,
        ),
{
    lemma_oam_copy_steps(m, v as int * 256, 0xA0);
}

/// The video RAM after `k` steps of a VRAM DMA from `src` to `dst`, when no
/// source byte lies in video RAM and every destination does.
pub open spec fn vram_after_copy(m: MemState, src: int, dst: int, k: int) -> Seq<u8> {
    let base = m.vram_bank * 0x2000 + (dst - 0x8000);
    Seq::new(0x4000, |x: int| if base <= x < base + k { m.read((src + (x - base)) as u16) } else { m.vram[x] })
}

proof fn lemma_vram_copy_steps(m: MemState, src: int, dst: int, k: nat)
    requires
        m.inv(),
        0x8000 <= dst,
        dst + k <= 0xA000,
        0 <= src,
        src + k <= 0x8000 || (0xA000 <= src && src + k <= 0x10000),
    ensures
        m.copy_steps(src, dst, k) == (MemState { vram: vram_after_copy(m, src, dst, k as int), ..m }),
    decreases k,
{
    if k == 0 {
        assert(vram_after_copy(m, src, dst, 0) =~= m.vram);
    } else {
        let k1 = (k - 1) as nat;
        lemma_vram_copy_steps(m, src, dst, k1);
        let mk = m.copy_steps(src, dst, k1);
        let a = (src + k1) as u16;
        assert(mk.read(a) == m.read(a));
        let base = m.vram_bank * 0x2000 + (dst - 0x8000);
        assert(vram_after_copy(m, src, dst, k as int) =~= vram_after_copy(m, src, dst, k1 as int).update(
            base + k1,
            m.read(a),
        ));
    }
}

/// A VRAM DMA (a write of `v` to 0xFF55) whose source lies outside video RAM
/// and whose destination block lies inside it copies the source bytes into
/// the current VRAM bank and changes nothing else.
pub proof fn lemma_vram_dma(m: MemState, v: u8)
    requires
        m.inv(),
        m.hdma_dest() + MemState::hdma_length(v) <= 0xA000,
        m.hdma_source() + MemState::hdma_length(v) <= 0x8000 || (0xA000 <= m.hdma_source()
            && m.hdma_source() + MemState::hdma_length(v) <= 0x10000),
    ensures
        m.write(0xFF55, v) == (MemState {
            vram: vram_after_copy(m, m.hdma_source(), m.hdma_dest(), MemState::hdma_length(v) as int),
            ..m
        }),
        forall|i: int|
            0 <= i < MemState::hdma_length(v) ==> #[trigger] m.write(0xFF55, v).read((m.hdma_dest() + i) as u16)
                == m.read((m.hdma_source() + i) as u16),
{
    crate::bits::lemma_dma_dest_bits(m.hdma_dst);
    lemma_vram_copy_steps(m, m.hdma_source(), m.hdma_dest(), MemState::hdma_length(v));
}

/// Every field of a [`Memory`] as a plain value (byte arrays as vectors),
/// for saving and restoring the address space.
pub struct MemoryImage {
    pub rom: Vec<u8>,
    pub rom_bank: usize,
    pub vram: Vec<u8>,
    pub external_ram: Vec<u8>,
    pub wram: Vec<u8>,
    pub oam: Vec<u8>,
    pub io_registers: Vec<u8>,
    pub hram: Vec<u8>,
    pub ie_register: u8,
    pub serial: String,
    pub trace: bool,
    pub joypad_select: u8,
    pub dpad: u8,
    pub buttons: u8,
    pub cart_type: u8,
    pub ram_enabled: bool,
    pub ram_bank: usize,
    pub mbc1_bank1: u8,
    pub mbc1_bank2: u8,
    pub mbc1_mode: bool,
    pub cgb_mode: bool,
    pub vram_bank: usize,
    pub bg_palette: Vec<u8>,
    pub obj_palette: Vec<u8>,
    pub bcps: u8,
    pub ocps: u8,
    pub svbk: usize,
    pub hdma_src: u16,
    pub hdma_dst: u16,
    pub double_speed: bool,
    pub key1_prepare: bool,
    pub div_counter: u16,
    pub apu: ApuImage,
}

impl MemoryImage {
    /// The address space these fields describe.
    pub open spec fn state(self) -> MemState {
        MemState {
            rom: self.rom@,
            rom_bank: self.rom_bank,
            vram: self.vram@,
            external_ram: self.external_ram@,
            wram: self.wram@,
            oam: self.oam@,
            io_registers: self.io_registers@,
            hram: self.hram@,
            ie_register: self.ie_register,
            serial: self.serial@,
            trace: self.trace,
            joypad_select: self.joypad_select,
            dpad: self.dpad,
            buttons: self.buttons,
            cart_type: self.cart_type,
            ram_enabled: self.ram_enabled,
            ram_bank: self.ram_bank,
            mbc1_bank1: self.mbc1_bank1,
            mbc1_bank2: self.mbc1_bank2,
            mbc1_mode: self.mbc1_mode,
            cgb_mode: self.cgb_mode,
            vram_bank: self.vram_bank,
            bg_palette: self.bg_palette@,
            obj_palette: self.obj_palette@,
            bcps: self.bcps,
            ocps: self.ocps,
            svbk: self.svbk,
            hdma_src: self.hdma_src,
            hdma_dst: self.hdma_dst,
            double_speed: self.double_speed,
            key1_prepare: self.key1_prepare,
            div_counter: self.div_counter,
            apu: self.apu.unit(),
        }
    }
}

/// A fixed-size array holding the bytes of `v`.
fn to_array<const N: usize>(v: &Vec<u8>) -> (r: [u8; N])
    requires
        v@.len() == N,
    ensures
        r@ == v@,
{
    let mut r = [0u8; N];
    let mut i: usize = 0;
    while i < N
        invariant
            v@.len() == N,
            i <= N,
            forall|j: int| 0 <= j < i ==> r@[j] == v@[j],
        decreases N - i,
    {
        r[i] = v[i];
        i += 1;
    }
    assert(r@ =~= v@);
    r
}

impl Memory {
    pub fn new() -> (r: Self)
        ensures
            r@ == MemState::initial(),
            r@.inv(),
    {
        let mut memory = Self {
            rom: Vec::new(),
            rom_bank: 1,
            vram: [0; 0x4000],
            external_ram: [0; 0x8000],
            wram: [0; 0x8000],
            oam: [0; 0xA0],
            io_registers: [0; 0x80],
            hram: [0; 0x7F],
            ie_register: 0,
            serial: String::new(),
            trace: false,
            joypad_select: 0x30,  // nothing selected
            dpad: 0,
            buttons: 0,
            cart_type: 0,
            ram_enabled: false,
            ram_bank: 0,
            mbc1_bank1: 1,
            mbc1_bank2: 0,
            mbc1_mode: false,
            cgb_mode: false,
            vram_bank: 0,
            bg_palette: [0; 64],
            obj_palette: [0; 64],
            bcps: 0,
            ocps: 0,
            svbk: 1,
            hdma_src: 0,
            hdma_dst: 0,
            double_speed: false,
            key1_prepare: false,
            div_counter: 0,
            apu: Apu::new(),
        };
        // Post-boot register defaults (values the boot ROM leaves behind).
        memory.io_registers[0x40] = 0x91;  // LCDC: LCD on, BG on, 0x8000 tile data
        memory.io_registers[0x47] = 0xFC;  // BGP: background palette
        memory.io_registers[0x48] = 0xFF;  // OBP0: sprite palette 0
        memory.io_registers[0x49] = 0xFF;  // OBP1: sprite palette 1
        assert(memory.vram@ =~= zeros(0x4000));
        assert(memory.external_ram@ =~= zeros(0x8000));
        assert(memory.wram@ =~= zeros(0x8000));
        assert(memory.oam@ =~= zeros(0xA0));
        assert(memory.io_registers@ =~= initial_io());
        assert(memory.hram@ =~= zeros(0x7F));
        assert(memory.bg_palette@ =~= zeros(64));
        assert(memory.obj_palette@ =~= zeros(64));
        assert(memory@ =~= MemState::initial());
        memory
    }

    // Map a WRAM or echo address to a flat index, honoring the CGB WRAM bank.
    fn wram_index(&self, address: u16) -> (r: usize)
        requires
            self@.inv(),
            0xC000 <= address <= 0xFDFF,
        ensures
            r == self@.wram_index(address),
            r < 0x8000,
    {
        let a = if address >= 0xE000 { address - 0x2000 } else { address };
        if a < 0xD000 {
            (a - 0xC000) as usize
        } else {
            self.svbk * 0x1000 + (a - 0xD000) as usize
        }
    }

    pub fn read_byte(&self, address: u16) -> (r: u8)
        requires
            self@.inv(),
        ensures
            r == self@.read(address),
    {
        // Trace mode: LY is stubbed to 0x90.
        if self.trace && address == 0xFF44 {
            return 0x90;
        }
        match address {
            // ROM Bank 0 (fixed: the first 16KB of the cartridge)
            0x0000..=0x3FFF => {
                if (address as usize) < self.rom.len() { self.rom[address as usize] } else { 0xFF }
            },
            // ROM Bank N (switchable): index into the selected 16KB bank.
            0x4000..=0x7FFF => {
                let offset = self.rom_bank * 0x4000 + (address as usize - 0x4000);
                if offset < self.rom.len() { self.rom[offset] } else { 0xFF }
            },
            // VRAM
            0x8000..=0x9FFF => self.vram[self.vram_bank * 0x2000 + (address - 0x8000) as usize],
            // External (cartridge) RAM - only accessible while enabled.
            0xA000..=0xBFFF => {
                if !self.ram_enabled {
                    0xFF
                } else if self.cart_type == 0x05 || self.cart_type == 0x06 {
                    // MBC2: built-in 512 x 4-bit RAM (echoed); upper nibble reads 1.
                    proof { lemma_low_bits(address as usize); }
                    0xF0 | (self.external_ram[address as usize & 0x1FF] & 0x0F)
                } else {
                    let off = self.ram_bank * 0x2000 + (address - 0xA000) as usize;
                    if off < 0x8000 { self.external_ram[off] } else { 0xFF }
                }
            },
            // Work RAM (and its echo) with CGB bank switching.
            0xC000..=0xDFFF => self.wram[self.wram_index(address)],
            0xE000..=0xFDFF => self.wram[self.wram_index(address)],
            // OAM
            0xFE00..=0xFE9F => self.oam[(address - 0xFE00) as usize],
            // Not usable
            0xFEA0..=0xFEFF => 0xFF,
            // Joypad: bits 7-6 read 1, bits 5-4 = selected group, bits 3-0 = button
            // states for the selected group(s), active-low (0 = pressed).
            0xFF00 => {
                let sel = self.joypad_select;
                let (d, b) = (self.dpad, self.buttons);
                let mut low: u8 = 0x0F;
                if self.joypad_select & 0x10 == 0 {
                    low &= !self.dpad & 0x0F;  // directions selected
                }
                if self.joypad_select & 0x20 == 0 {
                    low &= !self.buttons & 0x0F;  // action buttons selected
                }
                proof { lemma_register_bits(sel, d, b, self.double_speed, self.key1_prepare); }
                0xC0 | self.joypad_select | low
            },
            // DIV: the high byte of the free-running counter.
            0xFF04 => (self.div_counter / 256) as u8,
            // Audio registers delegate to the APU.
            0xFF10..=0xFF3F => self.apu.read_reg(address),
            // CGB KEY1: bit 7 = current speed, bit 0 = armed switch.
            0xFF4D => {
                let (ds, kp) = (self.double_speed, self.key1_prepare);
                let mut v: u8 = 0x7E;  // unused bits read 1
                if self.double_speed {
                    v |= 0x80;
                }
                if self.key1_prepare {
                    v |= 0x01;
                }
                proof { lemma_register_bits(0, 0, 0, ds, kp); }
                v
            },
            // CGB: VRAM bank register (unused bits read as 1).
            0xFF4F => 0xFE | self.vram_bank as u8,
            // CGB: WRAM bank register (unused bits read as 1).
            0xFF70 => 0xF8 | self.svbk as u8,
            // CGB VRAM DMA status: transfers complete instantly, so always done.
            0xFF55 => 0xFF,
            // CGB palette registers.
            0xFF68 => self.bcps,
            0xFF69 => {
                proof { lemma_byte_fields(self.bcps); }
                self.bg_palette[(self.bcps & 0x3F) as usize]
            },
            0xFF6A => self.ocps,
            0xFF6B => {
                proof { lemma_byte_fields(self.ocps); }
                self.obj_palette[(self.ocps & 0x3F) as usize]
            },
            // I/O Registers
            0xFF00..=0xFF7F => self.io_registers[(address - 0xFF00) as usize],
            // High RAM
            0xFF80..=0xFFFE => self.hram[(address - 0xFF80) as usize],
            // Interrupt Enable
            0xFFFF => self.ie_register,
        }
    }

    /// Recompute the effective MBC1 ROM/RAM banks from its register state.
    fn mbc1_update(&mut self)
        ensures
            final(self)@ == old(self)@.mbc1_updated(),
    {
        self.rom_bank = ((self.mbc1_bank2 << 5) | self.mbc1_bank1) as usize;
        self.ram_bank = if self.mbc1_mode { self.mbc1_bank2 as usize } else { 0 };
    }

    /// Every write except the two DMA triggers.
    fn write_plain(&mut self, address: u16, value: u8)
        requires
            old(self)@.inv(),
        ensures
            final(self)@ == old(self)@.write_basic(address, value),
            final(self)@.inv(),
    {
        proof { lemma_write_basic_inv(self@, address, value); }
        match address {
            // Writes to ROM space aren't stored - they're MBC control commands.
            0x0000..=0x7FFF => self.mbc_write(address, value),
            // VRAM
            0x8000..=0x9FFF => {
                self.vram[self.vram_bank * 0x2000 + (address - 0x8000) as usize] = value;
            },
            // External RAM
            0xA000..=0xBFFF => {
                if self.ram_enabled {
                    if self.cart_type == 0x05 || self.cart_type == 0x06 {
                        // MBC2: only the low nibble is stored.
                        proof { lemma_low_bits(address as usize); }
                        self.external_ram[address as usize & 0x1FF] = value & 0x0F;
                    } else {
                        let off = self.ram_bank * 0x2000 + (address - 0xA000) as usize;
                        if off < 0x8000 {
                            self.external_ram[off] = value;
                        }
                    }
                }
            },
            // Work RAM (and its echo) with CGB bank switching.
            0xC000..=0xDFFF => {
                let i = self.wram_index(address);
                self.wram[i] = value;
            },
            0xE000..=0xFDFF => {
                let i = self.wram_index(address);
                self.wram[i] = value;
            },
            // OAM
            0xFE00..=0xFE9F => {
                self.oam[(address - 0xFE00) as usize] = value;
            },
            // Not usable
            0xFEA0..=0xFEFF => {},
            // 0xFF00-0xFFFF: I/O registers, high RAM and IE.
            _ => self.write_io(address, value),
        }
    }

    /// A write into the ROM area: a command to the memory bank controller.
    fn mbc_write(&mut self, address: u16, value: u8)
        requires
            old(self)@.inv(),
            address <= 0x7FFF,
        ensures
            final(self)@ == old(self)@.mbc_write(address, value),
    {
        let ct = self.cart_type;
        if ct == 0x00 {
            // ROM only: no MBC, ignore.
        } else if 0x01 <= ct && ct <= 0x03 {
            // MBC1.
            if address <= 0x1FFF {
                // RAM enable: low nibble == 0xA enables cartridge RAM.
                self.ram_enabled = value & 0x0F == 0x0A;
            } else if address <= 0x3FFF {
                // ROM bank low 5 bits; a request for 0 maps to 1.
                let n = value & 0x1F;
                self.mbc1_bank1 = if n == 0 { 1 } else { n };
                self.mbc1_update();
            } else if address <= 0x5FFF {
                // 2-bit register: high ROM bits (ROM mode) or RAM bank (RAM mode).
                self.mbc1_bank2 = value & 0x03;
                self.mbc1_update();
            } else {
                // Banking mode select.
                self.mbc1_mode = value & 0x01 != 0;
                self.mbc1_update();
            }
        } else if ct == 0x05 || ct == 0x06 {
            // MBC2: address bit 8 selects RAM-enable (clear) vs ROM bank (set).
            if address <= 0x3FFF {
                if address & 0x0100 == 0 {
                    self.ram_enabled = value & 0x0F == 0x0A;
                } else {
                    let n = (value & 0x0F) as usize;
                    self.rom_bank = if n == 0 { 1 } else { n };
                }
            }
        } else if 0x0F <= ct && ct <= 0x13 {
            // MBC3.
            if address <= 0x1FFF {
                // RAM (and RTC) enable.
                self.ram_enabled = value & 0x0F == 0x0A;
            } else if address <= 0x3FFF {
                // ROM bank: full 7 bits; bank 0 maps to 1.
                let n = (value & 0x7F) as usize;
                self.rom_bank = if n == 0 { 1 } else { n };
            } else if address <= 0x5FFF {
                // 0x00-0x03 selects a RAM bank; RTC registers are ignored.
                if value <= 0x03 {
                    self.ram_bank = value as usize;
                }
            }
            // 0x6000-0x7FFF: latch clock data (RTC stub).
        } else if 0x19 <= ct && ct <= 0x1E {
            // MBC5.
            if address <= 0x1FFF {
                self.ram_enabled = value & 0x0F == 0x0A;
            } else if address <= 0x2FFF {
                // ROM bank low 8 bits. No bank-0 quirk - bank 0 is valid here.
                self.rom_bank = (self.rom_bank & 0x100) | value as usize;
            } else if address <= 0x3FFF {
                // ROM bank bit 8 (the 9th bit, for ROMs > 1MB).
                self.rom_bank = (self.rom_bank & 0xFF) | ((value as usize & 1) << 8);
            } else if address <= 0x5FFF {
                // RAM bank (low 4 bits).
                self.ram_bank = (value & 0x0F) as usize;
            }
        }
        // other MBCs not supported yet
    }

    /// A write to 0xFF00-0xFFFF other than a DMA trigger.
    #[verifier::rlimit(60)]
    fn write_io(&mut self, address: u16, value: u8)
        requires
            old(self)@.inv(),
            address >= 0xFF00,
        ensures
            final(self)@ == old(self)@.io_write(address, value),
    {
        match address {
            // Joypad: the game only writes the group-select bits 4-5.
            0xFF00 => {
                self.joypad_select = value & 0x30;
            },
            // Audio registers delegate to the APU.
            0xFF10..=0xFF3F => {
                self.apu.write_reg(address, value);
            },
            // CGB KEY1: the game arms a speed switch via bit 0 (STOP performs it).
            0xFF4D => {
                self.key1_prepare = value & 0x01 != 0;
            },
            // CGB: select the VRAM bank (bit 0).
            0xFF4F => {
                self.vram_bank = value as usize & 1;
            },
            // CGB: select the WRAM bank at 0xD000 (bits 0-2; 0 acts as 1).
            0xFF70 => {
                let b = (value & 0x07) as usize;
                self.svbk = if b == 0 { 1 } else { b };
            },
            // CGB VRAM DMA source/destination latches.
            0xFF51 => {
                self.hdma_src = (self.hdma_src & 0x00FF) | ((value as u16) << 8);
            },
            0xFF52 => {
                self.hdma_src = (self.hdma_src & 0xFF00) | (value & 0xF0) as u16;
            },
            0xFF53 => {
                self.hdma_dst = (self.hdma_dst & 0x00FF) | (((value & 0x1F) as u16) << 8);
            },
            0xFF54 => {
                self.hdma_dst = (self.hdma_dst & 0xFF00) | (value & 0xF0) as u16;
            },
            // CGB BG palette: 0xFF68 sets the index (+auto-increment bit), 0xFF69
            // writes the color byte at that index (and bumps the index if enabled).
            0xFF68 => {
                self.bcps = value;
            },
            0xFF69 => {
                proof { lemma_byte_fields(self.bcps); }
                self.bg_palette[(self.bcps & 0x3F) as usize] = value;
                if self.bcps & 0x80 != 0 {
                    self.bcps = (self.bcps & 0x80) | (self.bcps.wrapping_add(1) & 0x3F);
                }
            },
            // CGB OBJ (sprite) palette: same scheme via 0xFF6A/0xFF6B.
            0xFF6A => {
                self.ocps = value;
            },
            0xFF6B => {
                proof { lemma_byte_fields(self.ocps); }
                self.obj_palette[(self.ocps & 0x3F) as usize] = value;
                if self.ocps & 0x80 != 0 {
                    self.ocps = (self.ocps & 0x80) | (self.ocps.wrapping_add(1) & 0x3F);
                }
            },
            // I/O Registers
            0xFF00..=0xFF7F => {
                self.io_registers[(address - 0xFF00) as usize] = value;
                // Serial: writing SC (0xFF02) with bit 7 set "sends" the byte in SB.
                if address == 0xFF02 && value & 0x80 != 0 {
                    let byte = self.io_registers[0x01];  // SB = 0xFF01
                    push_char(&mut self.serial, byte);
                }
            },
            // High RAM
            0xFF80..=0xFFFE => {
                self.hram[(address - 0xFF80) as usize] = value;
            },
            // Interrupt Enable
            0xFFFF => {
                self.ie_register = value;
            },
            _ => {},
        }
    }

    pub fn write_byte(&mut self, address: u16, value: u8)
        requires
            old(self)@.inv(),
        ensures
            final(self)@ == old(self)@.write(address, value),
            final(self)@.inv(),
    {
        if address == 0xFF46 {
            // OAM DMA: copy 160 bytes from `value << 8` into OAM at 0xFE00.
            let src = (value as u16) << 8;
            proof { lemma_dma_bits(value, self.hdma_dst); }
            let mut i: u16 = 0;
            while i < 0xA0
                invariant
                    i <= 0xA0,
                    src == value as int * 256,
                    self@.inv(),
                    self@ == old(self)@.copy_steps(src as int, 0xFE00, i as nat),
                decreases 0xA0 - i,
            {
                let byte = self.read_byte(src + i);
                self.write_plain(0xFE00 + i, byte);
                i += 1;
            }
            self.io_registers[0x46] = value;  // keep the register readable
        } else if address == 0xFF55 {
            // VRAM DMA (HDMA5): both modes complete instantly.
            let src = self.hdma_src & 0xFFF0;
            let dst = 0x8000 | (self.hdma_dst & 0x1FF0);
            let length = ((value & 0x7F) as usize + 1) * 0x10;
            proof { lemma_dma_bits(value, self.hdma_dst); }
            let len = length as u16;
            let mut i: u16 = 0;
            while i < len
                invariant
                    len == MemState::hdma_length(value),
                    src == old(self)@.hdma_source(),
                    dst == old(self)@.hdma_dest(),
                    dst <= 0x9FF0,
                    i <= len,
                    self@.inv(),
                    self@ == old(self)@.copy_steps(src as int, dst as int, i as nat),
                decreases len - i,
            {
                // The source address wraps past 0xFFFF.
                let a = ((src as u32 + i as u32) % 0x10000) as u16;
                proof {
                    let (s0, j) = (src, i);
                    assert(((s0 + j) as u16) == (((s0 + j) % 0x10000) as u16)) by (bit_vector);
                }
                let b = self.read_byte(a);
                self.write_plain(dst + i, b);
                i += 1;
            }
        } else {
            self.write_plain(address, value);
        }
        proof { lemma_write_inv(old(self)@, address, value); }
    }

    // Helper for reading 16-bit values (little-endian)
    pub fn read_word(&self, address: u16) -> (r: u16)
        requires
            self@.inv(),
        ensures
            r == self@.read_word(address),
    {
        let low = self.read_byte(address) as u16;
        let high = self.read_byte(address.wrapping_add(1)) as u16;
        proof { lemma_join_bytes(high as u8, low as u8); }
        (high << 8) | low
    }

    // Helper for writing 16-bit values
    #[verifier::spinoff_prover]
    pub fn write_word(&mut self, address: u16, value: u16)
        requires
            old(self)@.inv(),
        ensures
            final(self)@ == old(self)@.write(address, (value & 0xFF) as u8).write(
                ((address + 1) % 0x10000) as u16,
                (value >> 8) as u8,
            ),
            final(self)@.inv(),
    {
        let lo = (value & 0xFF) as u8;
        let hi = (value >> 8) as u8;
        let next: u16 = if address == 0xFFFF { 0 } else { address + 1 };
        self.write_byte(address, lo);
        let ghost mid = self@;
        self.write_byte(next, hi);
        assert(self@ == mid.write(next, hi));
    }

    // Load the whole cartridge ROM (all banks) into memory.
    pub fn load_rom(&mut self, rom: &[u8])
        requires
            old(self)@.inv(),
        ensures
            final(self)@ == old(self)@.with_rom(rom@),
            final(self)@.inv(),
    {
        self.rom = vstd::slice::slice_to_vec(rom);
        // Cartridge type lives in the header at 0x0147.
        self.cart_type = if self.rom.len() > 0x0147 { self.rom[0x0147] } else { 0 };
        // CGB support flag: header 0x0143 bit 7 (0x80 = CGB-enhanced, 0xC0 = CGB-only).
        self.cgb_mode = (if self.rom.len() > 0x0143 { self.rom[0x0143] } else { 0 }) & 0x80 != 0;
        self.rom_bank = 1;
        self.ram_bank = 0;
        self.ram_enabled = false;
    }

    /// The captured serial output.
    pub fn serial_log(&self) -> (r: &String)
        ensures
            r@ == self@.serial,
    {
        &self.serial
    }

    /// True in CGB double-speed mode.
    pub fn is_double_speed(&self) -> (r: bool)
        ensures
            r == self@.double_speed,
    {
        self.double_speed
    }

    /// True if the cartridge declares Game Boy Color support (header 0x0143).
    pub fn is_cgb(&self) -> (r: bool)
        ensures
            r == self@.cgb_mode,
    {
        self.cgb_mode
    }

    /// Perform an armed CGB speed switch (called by STOP). Returns whether one
    /// happened - if not, STOP was a real "stop the CPU".
    pub fn try_speed_switch(&mut self) -> (r: bool)
        ensures
            r == old(self)@.key1_prepare,
            final(self)@ == if r {
                MemState { double_speed: !old(self)@.double_speed, key1_prepare: false, ..old(self)@ }
            } else {
                old(self)@
            },
    {
        if self.key1_prepare {
            self.double_speed = !self.double_speed;
            self.key1_prepare = false;
            true
        } else {
            false
        }
    }

    /// Advance the timer by `n` cycles (see [`MemState::after_timer`]).
    pub fn tick_timer(&mut self, n: u16)
        requires
            old(self)@.inv(),
        ensures
            final(self)@ == old(self)@.after_timer(n as nat),
            final(self)@.inv(),
    {
        let c = self.div_counter;
        self.div_counter = c.wrapping_add(n);
        let tac = self.io_registers[7];
        if tac & 4 == 0 {
            return;
        }
        let sel = tac & 3;
        let p: u32 = if sel == 0 { 1024 } else if sel == 1 { 16 } else if sel == 2 { 64 } else { 256 };
        let k: u32 = ((c as u32 % p) + n as u32) / p;
        let ghost m = self@;
        let mut i: u32 = 0;
        while i < k
            invariant
                i <= k,
                self@.inv(),
                m.inv(),
                self@ == m.tima_ticks(i as nat),
            decreases k - i,
        {
            let t = self.io_registers[5];
            if t == 0xFF {
                self.io_registers[5] = self.io_registers[6];
                self.io_registers[0x0F] = self.io_registers[0x0F] | 4;
            } else {
                self.io_registers[5] = t + 1;
            }
            i += 1;
            assert(self.io_registers@ =~= m.tima_ticks(i as nat).io_registers);
        }
    }

    /// Read a byte from a specific VRAM bank, whatever bank VBK selects.
    pub fn vram_read(&self, bank: usize, addr: u16) -> (r: u8)
        requires
            self@.inv(),
            addr >= 0x8000,
            bank * 0x2000 + (addr - 0x8000) < 0x4000,
        ensures
            r == self@.vram[bank * 0x2000 + (addr - 0x8000)],
    {
        self.vram[bank * 0x2000 + (addr - 0x8000) as usize]
    }

    /// A CGB background color: palette 0-7, color id 0-3 -> RGB888.
    pub fn cgb_bg_color(&self, palette: usize, color: usize) -> (r: (u8, u8, u8))
        requires
            self@.inv(),
            palette * 8 + color * 2 + 1 < 64,
        ensures
            r == rgb888((self@.bg_palette[palette * 8 + color * 2]
                + 256 * self@.bg_palette[palette * 8 + color * 2 + 1]) as u16),
    {
        let i = palette * 8 + color * 2;  // 8 bytes per palette, 2 per color
        let lo = self.bg_palette[i] as u16;
        let hi = self.bg_palette[i + 1] as u16;
        proof { lemma_join_bytes(hi as u8, lo as u8); }
        let rgb555 = lo | (hi << 8);
        rgb555_to_rgb888(rgb555)
    }

    /// A CGB sprite color: palette 0-7, color id 0-3 -> RGB888.
    pub fn cgb_obj_color(&self, palette: usize, color: usize) -> (r: (u8, u8, u8))
        requires
            self@.inv(),
            palette * 8 + color * 2 + 1 < 64,
        ensures
            r == rgb888((self@.obj_palette[palette * 8 + color * 2]
                + 256 * self@.obj_palette[palette * 8 + color * 2 + 1]) as u16),
    {
        let i = palette * 8 + color * 2;
        let lo = self.obj_palette[i] as u16;
        let hi = self.obj_palette[i + 1] as u16;
        proof { lemma_join_bytes(hi as u8, lo as u8); }
        let rgb555 = lo | (hi << 8);
        rgb555_to_rgb888(rgb555)
    }

    /// True if the cartridge has battery-backed RAM (its save persists).
    pub fn has_battery(&self) -> (r: bool)
        ensures
            r == self@.battery(),
    {
        let t = self.cart_type;
        t == 0x03 || t == 0x06 || t == 0x09 || t == 0x0D || t == 0x0F || t == 0x10 || t == 0x13
            || t == 0x1B || t == 0x1E
    }

    /// Current contents of cartridge RAM (for writing a .sav file).
    pub fn ram_snapshot(&self) -> (r: &[u8])
        ensures
            r@ == self@.external_ram,
    {
        self.external_ram.as_slice()
    }

    /// Load saved cartridge RAM (from a .sav file) back into memory: the first
    /// `min(data.len(), 0x8000)` bytes are replaced.
    pub fn load_ram(&mut self, data: &[u8])
        requires
            old(self)@.inv(),
        ensures
            ({
                let n = if data@.len() < 0x8000 { data@.len() as int } else { 0x8000 };
                final(self)@ == MemState {
                    external_ram: data@.subrange(0, n) + old(self)@.external_ram.subrange(n, 0x8000),
                    ..old(self)@
                }
            }),
            final(self)@.inv(),
    {
        let n = if data.len() < self.external_ram.len() { data.len() } else { self.external_ram.len() };
        let mut i: usize = 0;
        while i < n
            invariant
                n <= data@.len(),
                n <= 0x8000,
                n == if data@.len() < 0x8000 { data@.len() as int } else { 0x8000 },
                i <= n,
                self.external_ram@ =~= data@.subrange(0, i as int) + old(self)@.external_ram.subrange(
                    i as int,
                    0x8000,
                ),
                self@ == (MemState { external_ram: self.external_ram@, ..old(self)@ }),
            decreases n - i,
        {
            self.external_ram[i] = data[i];
            i += 1;
            assert(self.external_ram@ =~= data@.subrange(0, i as int) + old(self)@.external_ram.subrange(
                i as int,
                0x8000,
            ));
        }
    }

    /// Set joypad press state from the frontend. Each is a low-nibble mask
    /// (1 = pressed): dpad = Right/Left/Up/Down (bits 0-3),
    /// buttons = A/B/Select/Start (bits 0-3).
    pub fn set_joypad(&mut self, dpad: u8, buttons: u8)
        ensures
            final(self)@ == (MemState { dpad: dpad & 0x0F, buttons: buttons & 0x0F, ..old(self)@ }),
    {
        self.dpad = dpad & 0x0F;
        self.buttons = buttons & 0x0F;
    }

    /// A copy of every field.
    pub fn to_image(&self) -> (r: MemoryImage)
        ensures
            r.state() == self@,
    {
        MemoryImage {
            rom: vstd::slice::slice_to_vec(self.rom.as_slice()),
            rom_bank: self.rom_bank,
            vram: vstd::slice::slice_to_vec(self.vram.as_slice()),
            external_ram: vstd::slice::slice_to_vec(self.external_ram.as_slice()),
            wram: vstd::slice::slice_to_vec(self.wram.as_slice()),
            oam: vstd::slice::slice_to_vec(self.oam.as_slice()),
            io_registers: vstd::slice::slice_to_vec(self.io_registers.as_slice()),
            hram: vstd::slice::slice_to_vec(self.hram.as_slice()),
            ie_register: self.ie_register,
            serial: self.serial.clone(),
            trace: self.trace,
            joypad_select: self.joypad_select,
            dpad: self.dpad,
            buttons: self.buttons,
            cart_type: self.cart_type,
            ram_enabled: self.ram_enabled,
            ram_bank: self.ram_bank,
            mbc1_bank1: self.mbc1_bank1,
            mbc1_bank2: self.mbc1_bank2,
            mbc1_mode: self.mbc1_mode,
            cgb_mode: self.cgb_mode,
            vram_bank: self.vram_bank,
            bg_palette: vstd::slice::slice_to_vec(self.bg_palette.as_slice()),
            obj_palette: vstd::slice::slice_to_vec(self.obj_palette.as_slice()),
            bcps: self.bcps,
            ocps: self.ocps,
            svbk: self.svbk,
            hdma_src: self.hdma_src,
            hdma_dst: self.hdma_dst,
            double_speed: self.double_speed,
            key1_prepare: self.key1_prepare,
            div_counter: self.div_counter,
            apu: self.apu.to_image(),
        }
    }

    /// The address space an image describes, or `None` when the image breaks
    /// the invariant (a wrong array size or a bank register out of range).
    pub fn from_image(img: MemoryImage) -> (r: Option<Memory>)
        ensures
            r is Some <==> img.state().inv(),
            r matches Some(m) ==> m@ == img.state(),
    {
        let sizes_ok = img.vram.len() == 0x4000 && img.external_ram.len() == 0x8000 && img.wram.len() == 0x8000
            && img.oam.len() == 0xA0 && img.io_registers.len() == 0x80 && img.hram.len() == 0x7F
            && img.bg_palette.len() == 64 && img.obj_palette.len() == 64;
        let banks_ok = img.vram_bank < 2 && 1 <= img.svbk && img.svbk <= 7 && img.rom_bank <= 0x1FF
            && img.ram_bank <= 15 && img.mbc1_bank1 <= 0x1F && img.mbc1_bank2 <= 3;
        if !sizes_ok || !banks_ok {
            return None;
        }
        let apu = match Apu::from_image(img.apu) {
            Some(a) => a,
            None => return None,
        };
        let m = Memory {
            rom: img.rom,
            rom_bank: img.rom_bank,
            vram: to_array(&img.vram),
            external_ram: to_array(&img.external_ram),
            wram: to_array(&img.wram),
            oam: to_array(&img.oam),
            io_registers: to_array(&img.io_registers),
            hram: to_array(&img.hram),
            ie_register: img.ie_register,
            serial: img.serial,
            trace: img.trace,
            joypad_select: img.joypad_select,
            dpad: img.dpad,
            buttons: img.buttons,
            cart_type: img.cart_type,
            ram_enabled: img.ram_enabled,
            ram_bank: img.ram_bank,
            mbc1_bank1: img.mbc1_bank1,
            mbc1_bank2: img.mbc1_bank2,
            mbc1_mode: img.mbc1_mode,
            cgb_mode: img.cgb_mode,
            vram_bank: img.vram_bank,
            bg_palette: to_array(&img.bg_palette),
            obj_palette: to_array(&img.obj_palette),
            bcps: img.bcps,
            ocps: img.ocps,
            svbk: img.svbk,
            hdma_src: img.hdma_src,
            hdma_dst: img.hdma_dst,
            double_speed: img.double_speed,
            key1_prepare: img.key1_prepare,
            div_counter: img.div_counter,
            apu,
        };
        Some(m)
    }
}

} // verus!
