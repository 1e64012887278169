//! The CPU: interrupt dispatch, fetch / decode / execute of the whole SM83
//! instruction set (including the CB-prefixed table) and the timer, with the
//! semantics stated as functions of the machine state.
use vstd::prelude::*;
use crate::memory::{Memory, MemState, serial_grows};
use crate::registers::{Registers, carry_of, zero_of, subtract_of, half_carry_of, with_flags, pair, high_byte, low_byte};

verus! {

/// The abstract machine state: registers, PC, SP, the address space, the
/// cycle counter and the HALT / IME flags.
pub ghost struct CpuState {
    pub registers: Registers,
    pub pc: u16,
    pub sp: u16,
    pub memory: MemState,
    pub cycles: u64,
    pub halted: bool,
    pub interrupts_enabled: bool,
}

/// The 8-bit register with operand index `i` (0 B, 1 C, 2 D, 3 E, 4 H, 5 L, 7 A).
pub open spec fn reg8(r: Registers, i: int) -> u8 {
    if i == 0 { r.b }
    else if i == 1 { r.c }
    else if i == 2 { r.d }
    else if i == 3 { r.e }
    else if i == 4 { r.h }
    else if i == 5 { r.l }
    else { r.a }
}

/// The registers with operand `i` set to `v`.
pub open spec fn set_reg8(r: Registers, i: int, v: u8) -> Registers {
    if i == 0 { Registers { b: v, ..r } }
    else if i == 1 { Registers { c: v, ..r } }
    else if i == 2 { Registers { d: v, ..r } }
    else if i == 3 { Registers { e: v, ..r } }
    else if i == 4 { Registers { h: v, ..r } }
    else if i == 5 { Registers { l: v, ..r } }
    else { Registers { a: v, ..r } }
}

/// The eleven opcodes the SM83 does not define.
pub open spec fn undefined(op: u8) -> bool {
    op == 0xD3 || op == 0xDB || op == 0xDD || op == 0xE3 || op == 0xE4 || op == 0xEB || op == 0xEC
        || op == 0xED || op == 0xF4 || op == 0xFC || op == 0xFD
}

/// The ALU operation `kind` (0 ADD, 1 ADC, 2 SUB, 3 SBC, 4 AND, 5 XOR, 6 OR, 7 CP).
pub open spec fn alu_op(r: Registers, kind: int, v: u8) -> Registers {
    if kind == 0 { r.after_add(v) }
    else if kind == 1 { r.after_adc(v) }
    else if kind == 2 { r.after_sub(v) }
    else if kind == 3 { r.after_sbc(v) }
    else if kind == 4 { r.after_and(v) }
    else if kind == 5 { r.after_xor(v) }
    else if kind == 6 { r.after_or(v) }
    else { r.after_cp(v) }
}

/// Result and carry out of rotate/shift `kind` (0 RLC, 1 RRC, 2 RL, 3 RR,
/// 4 SLA, 5 SRA, 6 SWAP, 7 SRL) of `v`, with carry in `c`.
pub open spec fn shift_op(kind: int, v: u8, c: bool) -> (u8, bool) {
    if kind == 0 { ((v << 1u8) | (v >> 7u8), v & 0x80 != 0) }
    else if kind == 1 { ((v >> 1u8) | (v << 7u8), v & 1 != 0) }
    else if kind == 2 { ((v << 1u8) | (if c { 1u8 } else { 0u8 }), v & 0x80 != 0) }
    else if kind == 3 { ((v >> 1u8) | (if c { 0x80u8 } else { 0u8 }), v & 1 != 0) }
    else if kind == 4 { (v << 1u8, v & 0x80 != 0) }
    else if kind == 5 { ((v >> 1u8) | (v & 0x80), v & 1 != 0) }
    else if kind == 6 { ((v >> 4u8) | (v << 4u8), false) }
    else { (v >> 1u8, v & 1 != 0) }
}

/// DAA: decimal adjust of A after a BCD addition (N clear) or subtraction (N set).
pub open spec fn daa(r: Registers) -> Registers {
    let n = subtract_of(r.f);
    let lo: int = if half_carry_of(r.f) || (!n && r.a % 16 > 9) { 6 } else { 0 };
    let hi = carry_of(r.f) || (!n && r.a > 0x99);
    let adj: int = lo + if hi { 0x60int } else { 0 };
    let a = if n { ((r.a - adj + 256) % 256) as u8 } else { ((r.a + adj) % 256) as u8 };
    Registers { a, f: with_flags(r.f, a == 0, n, false, hi), ..r }
}

/// `base` plus the signed byte `e`, wrapping at 0x10000.
pub open spec fn offset(base: u16, e: u8) -> u16 {
    ((base + (if e < 128 { e as int } else { e - 256 }) + 0x10000) % 0x10000) as u16
}

/// F after SP + e (ADD SP,e and LD HL,SP+e): Z and N clear, H and C the
/// carries out of bits 3 and 7 of the low byte.
pub open spec fn sp_offset_flags(f: u8, sp: u16, e: u8) -> u8 {
    with_flags(f, false, false, (sp % 16) + (e % 16) > 15, (sp % 256) + e > 255)
}

/// The lowest pending interrupt of `p` (bit 0 VBlank ... bit 4 Joypad).
pub open spec fn lowest_pending(p: u8) -> int {
    if p & 1 != 0 { 0 }
    else if p & 2 != 0 { 1 }
    else if p & 4 != 0 { 2 }
    else if p & 8 != 0 { 3 }
    else { 4 }
}

impl CpuState {
    /// `n` more cycles.
    pub open spec fn tick(self, n: int) -> CpuState {
        CpuState { cycles: (self.cycles + n) as u64, ..self }
    }

    /// PC advanced by `n`, wrapping at 0x10000.
    pub open spec fn advance(self, n: int) -> CpuState {
        CpuState { pc: ((self.pc + n) % 0x10000) as u16, ..self }
    }

    /// PC set to `addr`.
    pub open spec fn jump(self, addr: u16) -> CpuState {
        CpuState { pc: addr, ..self }
    }

    /// The byte at PC.
    pub open spec fn imm8(self) -> u8 {
        self.memory.read(self.pc)
    }

    /// The little-endian word at PC.
    pub open spec fn imm16(self) -> u16 {
        self.memory.read_word(self.pc)
    }

    /// Operand `i` of an instruction: a register, or the byte at (HL) for 6.
    pub open spec fn operand(self, i: int) -> u8 {
        if i == 6 { self.memory.read(self.registers.hl_spec()) } else { reg8(self.registers, i) }
    }

    /// The state with operand `i` set to `v` (6 writes the byte at (HL)).
    pub open spec fn with_operand(self, i: int, v: u8) -> CpuState {
        if i == 6 {
            CpuState { memory: self.memory.write(self.registers.hl_spec(), v), ..self }
        } else {
            CpuState { registers: set_reg8(self.registers, i, v), ..self }
        }
    }

    /// The 16-bit register `p` (0 BC, 1 DE, 2 HL, 3 SP).
    pub open spec fn reg16(self, p: int) -> u16 {
        if p == 0 { self.registers.bc_spec() }
        else if p == 1 { self.registers.de_spec() }
        else if p == 2 { self.registers.hl_spec() }
        else { self.sp }
    }

    /// The state with 16-bit register `p` set to `v`.
    pub open spec fn with_reg16(self, p: int, v: u16) -> CpuState {
        if p == 0 { CpuState { registers: self.registers.with_bc(v), ..self } }
        else if p == 1 { CpuState { registers: self.registers.with_de(v), ..self } }
        else if p == 2 { CpuState { registers: self.registers.with_hl(v), ..self } }
        else { CpuState { sp: v, ..self } }
    }

    /// The register pair `p` of PUSH and POP (0 BC, 1 DE, 2 HL, 3 AF).
    pub open spec fn reg16_stack(self, p: int) -> u16 {
        if p == 3 { pair(self.registers.a, self.registers.f) } else { self.reg16(p) }
    }

    /// The state with PUSH/POP pair `p` set to `v`; F keeps only its flag bits.
    pub open spec fn with_reg16_stack(self, p: int, v: u16) -> CpuState {
        if p == 3 {
            CpuState { registers: Registers { a: high_byte(v), f: low_byte(v) & 0xF0, ..self.registers }, ..self }
        } else {
            self.with_reg16(p, v)
        }
    }

    /// `v` pushed: its high byte at SP - 1, its low byte at SP - 2, SP lowered by 2.
    pub open spec fn push(self, v: u16) -> CpuState {
        let sp1 = ((self.sp + 0xFFFF) % 0x10000) as u16;
        let sp2 = ((self.sp + 0xFFFE) % 0x10000) as u16;
        CpuState { memory: self.memory.write(sp1, high_byte(v)).write(sp2, low_byte(v)), sp: sp2, ..self }
    }

    /// The word POP reads.
    pub open spec fn top(self) -> u16 {
        self.memory.read_word(self.sp)
    }

    /// SP raised by 2 after a POP.
    pub open spec fn popped(self) -> CpuState {
        CpuState { sp: ((self.sp + 2) % 0x10000) as u16, ..self }
    }

    /// Return: pop PC.
    pub open spec fn ret(self) -> CpuState {
        self.popped().jump(self.top())
    }

    /// Branch condition `cc` (0 NZ, 1 Z, 2 NC, 3 C).
    pub open spec fn cond(self, cc: int) -> bool {
        let f = self.registers.f;
        if cc == 0 { !zero_of(f) } else if cc == 1 { zero_of(f) } else if cc == 2 { !carry_of(f) } else { carry_of(f) }
    }

    /// Opcodes 0x00-0x3F, with `y` = bits 5-3 and `z` = bits 2-0; PC is past
    /// the opcode.
    pub open spec fn exec_x0(self, y: int, z: int) -> CpuState {
        let r = self.registers;
        if z == 0 {
            if y == 0 {
                self.tick(4)
            } else if y == 1 {
                // LD (a16),SP
                let a = self.imm16();
                let t = self.advance(2);
                CpuState {
                    memory: t.memory.write(a, low_byte(self.sp)).write(((a + 1) % 0x10000) as u16, high_byte(self.sp)),
                    ..t
                }.tick(20)
            } else if y == 2 {
                // STOP: performs an armed CGB speed switch
                let t = self.advance(1);
                let m = t.memory;
                (if m.key1_prepare {
                    CpuState { memory: MemState { double_speed: !m.double_speed, key1_prepare: false, ..m }, ..t }
                } else {
                    t
                }).tick(4)
            } else {
                // JR e / JR cc,e
                let e = self.imm8();
                let t = self.advance(1);
                if y == 3 || self.cond(y - 4) { t.jump(offset(t.pc, e)).tick(12) } else { t.tick(8) }
            }
        } else if z == 1 {
            if y % 2 == 0 {
                self.advance(2).with_reg16(y / 2, self.imm16()).tick(12)
            } else {
                // ADD HL,rr
                let hl = r.hl_spec();
                let v = self.reg16(y / 2);
                CpuState {
                    registers: r.with_f(
                        with_flags(r.f, zero_of(r.f), false, (hl % 4096) + (v % 4096) > 4095, hl + v > 0xFFFF),
                    ).with_hl(((hl + v) % 0x10000) as u16),
                    ..self
                }.tick(8)
            }
        } else if z == 2 {
            // LD (rr),A / LD A,(rr) with rr = BC, DE, HL+, HL-
            let p = y / 2;
            let addr = if p == 0 { r.bc_spec() } else if p == 1 { r.de_spec() } else { r.hl_spec() };
            let r2 = if p == 2 {
                r.with_hl(((addr + 1) % 0x10000) as u16)
            } else if p == 3 {
                r.with_hl(((addr + 0xFFFF) % 0x10000) as u16)
            } else {
                r
            };
            if y % 2 == 0 {
                CpuState { registers: r2, memory: self.memory.write(addr, r.a), ..self }.tick(8)
            } else {
                CpuState { registers: Registers { a: self.memory.read(addr), ..r2 }, ..self }.tick(8)
            }
        } else if z == 3 {
            let v = self.reg16(y / 2);
            if y % 2 == 0 {
                self.with_reg16(y / 2, ((v + 1) % 0x10000) as u16).tick(8)
            } else {
                self.with_reg16(y / 2, ((v + 0xFFFF) % 0x10000) as u16).tick(8)
            }
        } else if z == 4 {
            let v = self.operand(y);
            CpuState { registers: r.with_f(r.inc_flags(v)), ..self }.with_operand(y, ((v + 1) % 256) as u8).tick(
                if y == 6 { 12 } else { 4 },
            )
        } else if z == 5 {
            let v = self.operand(y);
            CpuState { registers: r.with_f(r.dec_flags(v)), ..self }.with_operand(y, ((v + 255) % 256) as u8).tick(
                if y == 6 { 12 } else { 4 },
            )
        } else if z == 6 {
            self.advance(1).with_operand(y, self.imm8()).tick(if y == 6 { 12 } else { 8 })
        } else {
            let f = r.f;
            let regs = if y < 4 {
                // RLCA, RRCA, RLA, RRA
                let (res, co) = shift_op(y, r.a, carry_of(f));
                Registers { a: res, f: with_flags(f, false, false, false, co), ..r }
            } else if y == 4 {
                daa(r)
            } else if y == 5 {
                Registers { a: !r.a, f: with_flags(f, zero_of(f), true, true, carry_of(f)), ..r }
            } else if y == 6 {
                r.with_f(with_flags(f, zero_of(f), false, false, true))
            } else {
                r.with_f(with_flags(f, zero_of(f), false, false, !carry_of(f)))
            };
            CpuState { registers: regs, ..self }.tick(4)
        }
    }

    /// Opcodes 0xC0-0xFF, with `y` = bits 5-3 and `z` = bits 2-0; PC is past
    /// the opcode. An undefined opcode leaves the state as it is.
    pub open spec fn exec_x3(self, y: int, z: int) -> CpuState {
        let r = self.registers;
        if z == 0 {
            if y < 4 {
                if self.cond(y) { self.ret().tick(20) } else { self.tick(8) }
            } else if y == 4 {
                let t = self.advance(1);
                CpuState { memory: self.memory.write((0xFF00 + self.imm8()) as u16, r.a), ..t }.tick(12)
            } else if y == 5 {
                let e = self.imm8();
                CpuState { sp: offset(self.sp, e), registers: r.with_f(sp_offset_flags(r.f, self.sp, e)), ..self.advance(1) }.tick(16)
            } else if y == 6 {
                CpuState { registers: Registers { a: self.memory.read((0xFF00 + self.imm8()) as u16), ..r }, ..self.advance(1) }.tick(12)
            } else {
                let e = self.imm8();
                CpuState {
                    registers: r.with_f(sp_offset_flags(r.f, self.sp, e)).with_hl(offset(self.sp, e)),
                    ..self.advance(1)
                }.tick(12)
            }
        } else if z == 1 {
            if y % 2 == 0 {
                self.popped().with_reg16_stack(y / 2, self.top()).tick(12)
            } else if y == 1 {
                self.ret().tick(16)
            } else if y == 3 {
                CpuState { interrupts_enabled: true, ..self.ret() }.tick(16)
            } else if y == 5 {
                self.jump(r.hl_spec()).tick(4)
            } else {
                CpuState { sp: r.hl_spec(), ..self }.tick(8)
            }
        } else if z == 2 {
            if y < 4 {
                let a = self.imm16();
                let t = self.advance(2);
                if self.cond(y) { t.jump(a).tick(16) } else { t.tick(12) }
            } else if y == 4 {
                CpuState { memory: self.memory.write((0xFF00 + r.c) as u16, r.a), ..self }.tick(8)
            } else if y == 5 {
                CpuState { memory: self.memory.write(self.imm16(), r.a), ..self.advance(2) }.tick(16)
            } else if y == 6 {
                CpuState { registers: Registers { a: self.memory.read((0xFF00 + r.c) as u16), ..r }, ..self }.tick(8)
            } else {
                CpuState { registers: Registers { a: self.memory.read(self.imm16()), ..r }, ..self.advance(2) }.tick(16)
            }
        } else if z == 3 {
            if y == 0 {
                self.jump(self.imm16()).tick(16)
            } else if y == 1 {
                self.advance(1).exec_cb(self.imm8())
            } else if y == 6 {
                CpuState { interrupts_enabled: false, ..self }.tick(4)
            } else if y == 7 {
                CpuState { interrupts_enabled: true, ..self }.tick(4)
            } else {
                self
            }
        } else if z == 4 {
            if y < 4 {
                let a = self.imm16();
                let t = self.advance(2);
                if self.cond(y) { t.push(t.pc).jump(a).tick(24) } else { t.tick(12) }
            } else {
                self
            }
        } else if z == 5 {
            if y % 2 == 0 {
                self.push(self.reg16_stack(y / 2)).tick(16)
            } else if y == 1 {
                let a = self.imm16();
                let t = self.advance(2);
                t.push(t.pc).jump(a).tick(24)
            } else {
                self
            }
        } else if z == 6 {
            CpuState { registers: alu_op(r, y, self.imm8()), ..self.advance(1) }.tick(8)
        } else {
            // RST y * 8
            self.push(self.pc).jump((y * 8) as u16).tick(16)
        }
    }

    /// A CB-prefixed opcode `cb` (PC past both bytes): rotates and shifts,
    /// BIT, RES and SET on operand bits 2-0.
    pub open spec fn exec_cb(self, cb: u8) -> CpuState {
        let x = cb / 64;
        let y = (cb / 8) % 8;
        let z = (cb % 8) as int;
        let v = self.operand(z);
        let r = self.registers;
        let hl = z == 6;
        if x == 0 {
            let (res, co) = shift_op(y as int, v, carry_of(r.f));
            CpuState { registers: r.with_f(with_flags(r.f, res == 0, false, false, co)), ..self }.with_operand(
                z,
                res,
            ).tick(if hl { 16 } else { 8 })
        } else if x == 1 {
            CpuState {
                registers: r.with_f(with_flags(r.f, (v >> y) & 1 == 0, false, true, carry_of(r.f))),
                ..self
            }.tick(if hl { 12 } else { 8 })
        } else if x == 2 {
            self.with_operand(z, v & !(1u8 << y)).tick(if hl { 16 } else { 8 })
        } else {
            self.with_operand(z, v | (1u8 << y)).tick(if hl { 16 } else { 8 })
        }
    }

    /// The state after executing `op`, whose operand bytes start at PC.
    #[verifier::opaque]
    pub open spec fn execute(self, op: u8) -> CpuState {
        let x = op / 64;
        let y = ((op / 8) % 8) as int;
        let z = ((op % 8)) as int;
        if x == 0 {
            self.exec_x0(y, z)
        } else if x == 1 {
            if op == 0x76 {
                CpuState { halted: true, ..self }.tick(4)
            } else {
                self.with_operand(y, self.operand(z)).tick(if y == 6 || z == 6 { 8 } else { 4 })
            }
        } else if x == 2 {
            CpuState { registers: alu_op(self.registers, y, self.operand(z)), ..self }.tick(if z == 6 { 8 } else { 4 })
        } else {
            self.exec_x3(y, z)
        }
    }

    /// Interrupts requested and enabled: IE & IF, bits 4-0.
    pub open spec fn pending(self) -> u8 {
        self.memory.read(0xFFFF) & self.memory.read(0xFF0F) & 0x1F
    }

    /// Interrupt dispatch: acknowledge (clear the IF bit), clear IME, push PC
    /// and jump to the vector 0x40 + 8k of the lowest pending interrupt k.
    pub open spec fn dispatch(self) -> CpuState {
        let k = lowest_pending(self.pending());
        let t = CpuState {
            memory: self.memory.write(0xFF0F, self.memory.read(0xFF0F) & !(1u8 << (k as u8))),
            interrupts_enabled: false,
            ..self
        };
        t.push(self.pc).jump((0x40 + 8 * k) as u16).tick(20)
    }

    /// A pending interrupt wakes a halted CPU, whether IME is on or not.
    pub open spec fn woken(self) -> CpuState {
        if self.halted && self.pending() != 0 { CpuState { halted: false, ..self } } else { self }
    }

    /// The CPU part of a step: dispatch an interrupt, idle while halted, or
    /// fetch and execute the opcode at PC.
    pub open spec fn core_step(self) -> CpuState {
        let w = self.woken();
        if w.interrupts_enabled && w.pending() != 0 {
            w.dispatch()
        } else if w.halted {
            w.tick(4)
        } else {
            w.advance(1).execute(w.memory.read(w.pc))
        }
    }

    /// One step: the CPU part, then the timer runs for the cycles it took.
    pub open spec fn step(self) -> CpuState {
        let s = self.core_step();
        CpuState { memory: s.memory.after_timer((s.cycles - self.cycles) as nat), ..s }
    }

    /// The step fetches and executes an opcode (no interrupt, not halted).
    pub open spec fn fetches(self) -> bool {
        let w = self.woken();
        !(w.interrupts_enabled && w.pending() != 0) && !w.halted
    }

    /// A step can be taken: the cycle counter has room, and an opcode the step
    /// executes is a defined one.
    pub open spec fn step_ok(self) -> bool {
        &&& self.cycles + 24 <= u64::MAX
        &&& self.fetches() ==> !undefined(self.memory.read(self.pc))
    }
}

#[derive(Debug, Clone, Copy, PartialEq, Eq, Structural)]
pub enum Register {
    A,
    B,
    C,
    D,
    E,
    H,
    L,
}

/// The value of register `r` in `regs`.
pub open spec fn register_value(regs: Registers, r: Register) -> u8 {
    match r {
        Register::A => regs.a,
        Register::B => regs.b,
        Register::C => regs.c,
        Register::D => regs.d,
        Register::E => regs.e,
        Register::H => regs.h,
        Register::L => regs.l,
    }
}

/// `regs` with register `r` set to `v`.
pub open spec fn with_register(regs: Registers, r: Register, v: u8) -> Registers {
    match r {
        Register::A => Registers { a: v, ..regs },
        Register::B => Registers { b: v, ..regs },
        Register::C => Registers { c: v, ..regs },
        Register::D => Registers { d: v, ..regs },
        Register::E => Registers { e: v, ..regs },
        Register::H => Registers { h: v, ..regs },
        Register::L => Registers { l: v, ..regs },
    }
}

/// The one-letter name of register `r`.
pub open spec fn register_name(r: Register) -> Seq<char> {
    match r {
        Register::A => seq!['A'],
        Register::B => seq!['B'],
        Register::C => seq!['C'],
        Register::D => seq!['D'],
        Register::E => seq!['E'],
        Register::H => seq!['H'],
        Register::L => seq!['L'],
    }
}

impl Register {
    /// Get the value of this register from a CPU
    pub fn get(&self, cpu: &Cpu) -> (r: u8)
        ensures
            r == register_value(cpu.registers, *self),
    {
        match self {
            Register::A => cpu.registers.a,
            Register::B => cpu.registers.b,
            Register::C => cpu.registers.c,
            Register::D => cpu.registers.d,
            Register::E => cpu.registers.e,
            Register::H => cpu.registers.h,
            Register::L => cpu.registers.l,
        }
    }

    /// Set the value of this register in a CPU
    pub fn set(&self, cpu: &mut Cpu, value: u8)
        ensures
            final(cpu)@ == (CpuState { registers: with_register(old(cpu).registers, *self, value), ..old(cpu)@ }),
    {
        match self {
            Register::A => cpu.registers.a = value,
            Register::B => cpu.registers.b = value,
            Register::C => cpu.registers.c = value,
            Register::D => cpu.registers.d = value,
            Register::E => cpu.registers.e = value,
            Register::H => cpu.registers.h = value,
            Register::L => cpu.registers.l = value,
        }
    }

    /// Get the name of this register as a string
    pub fn name(&self) -> (r: &'static str)
        ensures
            r@ == register_name(*self),
    {
        match self {
            Register::A => {
                proof { reveal_strlit("A"); }
                "A"
            },
            Register::B => {
                proof { reveal_strlit("B"); }
                "B"
            },
            Register::C => {
                proof { reveal_strlit("C"); }
                "C"
            },
            Register::D => {
                proof { reveal_strlit("D"); }
                "D"
            },
            Register::E => {
                proof { reveal_strlit("E"); }
                "E"
            },
            Register::H => {
                proof { reveal_strlit("H"); }
                "H"
            },
            Register::L => {
                proof { reveal_strlit("L"); }
                "L"
            },
        }
    }

    /// Get all registers as an array (useful for iteration), in opcode order
    /// B, C, D, E, H, L, A.
    pub fn all() -> (r: [Register; 7])
        ensures
            r@ == seq![Register::B, Register::C, Register::D, Register::E, Register::H, Register::L, Register::A],
    {
        let r = [Register::B, Register::C, Register::D, Register::E, Register::H, Register::L, Register::A];
        assert(r@ =~= seq![Register::B, Register::C, Register::D, Register::E, Register::H, Register::L, Register::A]);
        r
    }
}

/// The state right after [`Cpu::power_on`] with cartridge `rom`.
pub open spec fn boot_state(rom: Seq<u8>) -> CpuState {
    let memory = MemState::initial().with_rom(rom);
    CpuState {
        registers: Registers { a: if memory.cgb_mode { 0x11 } else { 0 }, f: 0, b: 0, c: 0, d: 0, e: 0, h: 0, l: 0 },
        pc: 0x0100,
        sp: 0xFFFE,
        memory,
        cycles: 0,
        halted: false,
        interrupts_enabled: false,
    }
}

#[derive(Clone)]
pub struct Cpu {
    pub registers: Registers,
    pub pc: u16,  // Program Counter
    pub sp: u16,  // Stack Pointer
    pub memory: Memory,
    pub cycles: u64,  // Total cycles executed
    pub halted: bool,
    pub interrupts_enabled: bool,
}

impl View for Cpu {
    type V = CpuState;

    open spec fn view(&self) -> CpuState {
        CpuState {
            registers: self.registers,
            pc: self.pc,
            sp: self.sp,
            memory: self.memory@,
            cycles: self.cycles,
            halted: self.halted,
            interrupts_enabled: self.interrupts_enabled,
        }
    }
}

proof fn lemma_nibbles(a: u8, v: u8)
    ensures
        a & 0x0F <= 0x0F,
        v & 0x0F <= 0x0F,
{
    crate::bits::lemma_byte_fields(a);
    crate::bits::lemma_byte_fields(v);
}

impl Cpu {
    pub fn new() -> (r: Self)
        ensures
            r@ == (CpuState {
                registers: Registers { a: 0, f: 0, b: 0, c: 0, d: 0, e: 0, h: 0, l: 0 },
                pc: 0x0100,
                sp: 0xFFFE,
                memory: MemState::initial(),
                cycles: 0,
                halted: false,
                interrupts_enabled: false,
            }),
            r@.memory.inv(),
    {
        Self {
            registers: Registers::new(),
            pc: 0x0100,  // Game start at 0x100 (after boot ROM)
            sp: 0xFFFE,  // Stack starts at top of memory
            memory: Memory::new(),
            cycles: 0,
            halted: false,
            interrupts_enabled: false,
        }
    }

    /// A fresh machine with cartridge `rom` loaded. CGB cartridges are told
    /// they run on a Game Boy Color by booting with A = 0x11, so they enable
    /// color; other cartridges keep A = 0.
    pub fn power_on(rom: &[u8]) -> (r: Self)
        ensures
            r@ == boot_state(rom@),
            r@.memory.inv(),
    {
        let mut cpu = Cpu::new();
        cpu.memory.load_rom(rom);
        if cpu.memory.is_cgb() {
            cpu.registers.a = 0x11;
        }
        cpu
    }

    /// Whether [`Cpu::step`] can run now: the cycle counter has room, and
    /// when the step fetches an opcode, it is a defined one.
    pub fn can_step(&self) -> (r: bool)
        requires
            self@.memory.inv(),
        ensures
            r == self@.step_ok(),
    {
        if self.cycles > u64::MAX - 24 {
            return false;
        }
        let pending = self.memory.read_byte(0xFFFF) & self.memory.read_byte(0xFF0F) & 0x1F;
        if pending != 0 && self.interrupts_enabled {
            return true;
        }
        if self.halted && pending == 0 {
            return true;
        }
        let op = self.memory.read_byte(self.pc);
        !(op == 0xD3 || op == 0xDB || op == 0xDD || op == 0xE3 || op == 0xE4 || op == 0xEB || op == 0xEC
            || op == 0xED || op == 0xF4 || op == 0xFC || op == 0xFD)
    }

    /// Execute one step: wake from HALT on a pending interrupt, dispatch an
    /// interrupt when IME is on, else idle (halted) or run one instruction;
    /// then run the timer for the cycles taken.
    pub fn step(&mut self)
        requires
            old(self)@.memory.inv(),
            old(self)@.step_ok(),
        ensures
            final(self)@ == old(self)@.step(),
            final(self)@.memory.inv(),
    {
        let start = self.cycles;
        let pending = self.memory.read_byte(0xFFFF) & self.memory.read_byte(0xFF0F) & 0x1F;
        if self.halted && pending != 0 {
            self.halted = false;
        }
        if self.interrupts_enabled && pending != 0 {
            self.dispatch(pending);
        } else if self.halted {
            self.cycles += 4;
        } else {
            let opcode = self.fetch_byte();
            self.execute(opcode);
        }
        proof { lemma_core_cycles(old(self)@); }
        let elapsed = (self.cycles - start) as u16;
        self.memory.tick_timer(elapsed);
    }

    /// Dispatch the lowest pending interrupt of `pending`.
    fn dispatch(&mut self, pending: u8)
        requires
            old(self)@.memory.inv(),
            pending == old(self)@.pending(),
            old(self).cycles + 20 <= u64::MAX,
        ensures
            final(self)@ == old(self)@.dispatch(),
            final(self)@.memory.inv(),
    {
        let k: u8 = if pending & 1 != 0 {
            0
        } else if pending & 2 != 0 {
            1
        } else if pending & 4 != 0 {
            2
        } else if pending & 8 != 0 {
            3
        } else {
            4
        };
        let iflag = self.memory.read_byte(0xFF0F);
        self.memory.write_byte(0xFF0F, iflag & !(1u8 << k));
        self.interrupts_enabled = false;
        let pc = self.pc;
        self.push(pc);
        self.pc = 0x40 + 8 * k as u16;
        self.cycles += 20;
    }

    /// Fetch a byte from PC and increment PC
    fn fetch_byte(&mut self) -> (r: u8)
        requires
            old(self)@.memory.inv(),
        ensures
            r == old(self)@.imm8(),
            final(self)@ == old(self)@.advance(1),
    {
        let byte = self.memory.read_byte(self.pc);
        self.pc = self.pc.wrapping_add(1);
        byte
    }

    /// Fetch a 16-bit word from PC and increment PC twice
    fn fetch_word(&mut self) -> (r: u16)
        requires
            old(self)@.memory.inv(),
        ensures
            r == old(self)@.imm16(),
            final(self)@ == old(self)@.advance(2),
    {
        let word = self.memory.read_word(self.pc);
        self.pc = self.pc.wrapping_add(2);
        word
    }

    /// Operand `i` (a register, or (HL) for 6).
    fn operand(&self, i: u8) -> (r: u8)
        requires
            self@.memory.inv(),
        ensures
            r == self@.operand(i as int),
    {
        match i {
            0 => self.registers.b,
            1 => self.registers.c,
            2 => self.registers.d,
            3 => self.registers.e,
            4 => self.registers.h,
            5 => self.registers.l,
            6 => self.memory.read_byte(self.registers.hl()),
            _ => self.registers.a,
        }
    }

    /// Set operand `i` (a register, or (HL) for 6) to `v`.
    fn set_operand(&mut self, i: u8, v: u8)
        requires
            old(self)@.memory.inv(),
        ensures
            final(self)@ == old(self)@.with_operand(i as int, v),
            final(self)@.memory.inv(),
    {
        match i {
            0 => self.registers.b = v,
            1 => self.registers.c = v,
            2 => self.registers.d = v,
            3 => self.registers.e = v,
            4 => self.registers.h = v,
            5 => self.registers.l = v,
            6 => {
                let hl = self.registers.hl();
                self.memory.write_byte(hl, v);
            },
            _ => self.registers.a = v,
        }
    }

    /// 16-bit register `p` (0 BC, 1 DE, 2 HL, 3 SP).
    fn reg16(&self, p: u8) -> (r: u16)
        ensures
            r == self@.reg16(p as int),
    {
        match p {
            0 => self.registers.bc(),
            1 => self.registers.de(),
            2 => self.registers.hl(),
            _ => self.sp,
        }
    }

    fn set_reg16(&mut self, p: u8, v: u16)
        ensures
            final(self)@ == old(self)@.with_reg16(p as int, v),
    {
        match p {
            0 => self.registers.set_bc(v),
            1 => self.registers.set_de(v),
            2 => self.registers.set_hl(v),
            _ => self.sp = v,
        }
    }

    /// Push `v` on the stack.
    #[verifier::spinoff_prover]
    fn push(&mut self, v: u16)
        requires
            old(self)@.memory.inv(),
        ensures
            final(self)@ == old(self)@.push(v),
            final(self)@.memory.inv(),
    {
        let sp1 = self.sp.wrapping_sub(1);
        let sp2 = self.sp.wrapping_sub(2);
        assert(sp1 == ((old(self).sp + 0xFFFF) % 0x10000) as u16);
        assert(sp2 == ((old(self).sp + 0xFFFE) % 0x10000) as u16);
        self.memory.write_byte(sp1, (v / 256) as u8);
        self.memory.write_byte(sp2, (v % 256) as u8);
        self.sp = sp2;
    }

    /// Pop a word off the stack.
    fn pop(&mut self) -> (r: u16)
        requires
            old(self)@.memory.inv(),
        ensures
            r == old(self)@.top(),
            final(self)@ == old(self)@.popped(),
    {
        let v = self.memory.read_word(self.sp);
        self.sp = self.sp.wrapping_add(2);
        v
    }

    /// Branch condition `cc` (0 NZ, 1 Z, 2 NC, 3 C).
    fn cond(&self, cc: u8) -> (r: bool)
        ensures
            r == self@.cond(cc as int),
    {
        match cc {
            0 => !self.registers.flag_zero(),
            1 => self.registers.flag_zero(),
            2 => !self.registers.flag_carry(),
            _ => self.registers.flag_carry(),
        }
    }

    /// Opcodes 0x00-0x3F.
    fn exec_x0(&mut self, y: u8, z: u8)
        requires
            y < 8,
            z < 8,
            old(self)@.memory.inv(),
            old(self).cycles + 24 <= u64::MAX,
        ensures
            final(self)@ == old(self)@.exec_x0(y as int, z as int),
            final(self)@.memory.inv(),
    {
        if z == 0 {
            self.exec_x0_control(y, z);
        } else if z == 1 {
            self.exec_x0_wide(y, z);
        } else if z == 2 {
            self.exec_x0_indirect(y, z);
        } else if z == 3 {
            self.exec_x0_incdec16(y, z);
        } else {
            self.exec_x0_high(y, z);
        }
    }

    /// Opcodes 0x00-0x3F with `z` = 0: NOP, LD (a16),SP, STOP and the
    /// relative jumps.
    #[verifier::rlimit(100)]
    #[verifier::spinoff_prover]
    fn exec_x0_control(&mut self, y: u8, z: u8)
        requires
            y < 8,
            z == 0,
            old(self)@.memory.inv(),
            old(self).cycles + 24 <= u64::MAX,
        ensures
            final(self)@ == old(self)@.exec_x0(y as int, z as int),
            final(self)@.memory.inv(),
    {
        if y == 0 {
            self.cycles += 4;
        } else if y == 1 {
            let a = self.fetch_word();
            let sp = self.sp;
            self.memory.write_byte(a, (sp % 256) as u8);
            self.memory.write_byte(a.wrapping_add(1), (sp / 256) as u8);
            self.cycles += 20;
        } else if y == 2 {
            let _ = self.fetch_byte();
            let _ = self.memory.try_speed_switch();
            self.cycles += 4;
        } else {
            let e = self.fetch_byte();
            if y == 3 || self.cond(y - 4) {
                self.pc = offset_exec(self.pc, e);
                self.cycles += 12;
            } else {
                self.cycles += 8;
            }
        }
    }

    /// Opcodes 0x00-0x3F with `z` = 1: LD rr,d16 and ADD HL,rr.
    #[verifier::rlimit(100)]
    #[verifier::spinoff_prover]
    fn exec_x0_wide(&mut self, y: u8, z: u8)
        requires
            y < 8,
            z == 1,
            old(self)@.memory.inv(),
            old(self).cycles + 24 <= u64::MAX,
        ensures
            final(self)@ == old(self)@.exec_x0(y as int, z as int),
            final(self)@.memory.inv(),
    {
        if y % 2 == 0 {
            let v = self.fetch_word();
            self.set_reg16(y / 2, v);
            self.cycles += 12;
        } else {
            let hl = self.registers.hl();
            let v = self.reg16(y / 2);
            let zf = self.registers.flag_zero();
            self.registers.set_flags(zf, false, (hl % 4096) + (v % 4096) > 4095, hl as u32 + v as u32 > 0xFFFF);
            self.registers.set_hl(hl.wrapping_add(v));
            self.cycles += 8;
        }
    }

    /// Opcodes 0x00-0x3F with `z` = 2: LD (rr),A and LD A,(rr).
    #[verifier::rlimit(100)]
    #[verifier::spinoff_prover]
    fn exec_x0_indirect(&mut self, y: u8, z: u8)
        requires
            y < 8,
            z == 2,
            old(self)@.memory.inv(),
            old(self).cycles + 24 <= u64::MAX,
        ensures
            final(self)@ == old(self)@.exec_x0(y as int, z as int),
            final(self)@.memory.inv(),
    {
        let p = y / 2;
        let addr = if p == 0 {
            self.registers.bc()
        } else if p == 1 {
            self.registers.de()
        } else {
            self.registers.hl()
        };
        if p == 2 {
            self.registers.set_hl(addr.wrapping_add(1));
        } else if p == 3 {
            self.registers.set_hl(addr.wrapping_sub(1));
        }
        if y % 2 == 0 {
            let a = self.registers.a;
            self.memory.write_byte(addr, a);
        } else {
            self.registers.a = self.memory.read_byte(addr);
        }
        self.cycles += 8;
    }

    /// Opcodes 0x00-0x3F with `z` = 3: INC rr and DEC rr.
    #[verifier::rlimit(100)]
    #[verifier::spinoff_prover]
    fn exec_x0_incdec16(&mut self, y: u8, z: u8)
        requires
            y < 8,
            z == 3,
            old(self)@.memory.inv(),
            old(self).cycles + 24 <= u64::MAX,
        ensures
            final(self)@ == old(self)@.exec_x0(y as int, z as int),
            final(self)@.memory.inv(),
    {
        let v = self.reg16(y / 2);
        if y % 2 == 0 {
            let n = if v == 0xFFFF { 0 } else { v + 1 };
            self.set_reg16(y / 2, n);
        } else {
            let n = if v == 0 { 0xFFFF } else { v - 1 };
            self.set_reg16(y / 2, n);
        }
        self.cycles += 8;
    }

    /// Opcodes 0x00-0x3F with `z` from 4: INC, DEC, LD r,d8 and the
    /// accumulator/flag operations.
    #[verifier::rlimit(100)]
    #[verifier::spinoff_prover]
    fn exec_x0_high(&mut self, y: u8, z: u8)
        requires
            y < 8,
            4 <= z < 8,
            old(self)@.memory.inv(),
            old(self).cycles + 24 <= u64::MAX,
        ensures
            final(self)@ == old(self)@.exec_x0(y as int, z as int),
            final(self)@.memory.inv(),
    {
        if z == 4 {
            let v = self.operand(y);
            let r = self.alu_inc(v);
            self.set_operand(y, r);
            self.cycles += if y == 6 { 12 } else { 4 };
        } else if z == 5 {
            let v = self.operand(y);
            let r = self.alu_dec(v);
            self.set_operand(y, r);
            self.cycles += if y == 6 { 12 } else { 4 };
        } else if z == 6 {
            let v = self.fetch_byte();
            self.set_operand(y, v);
            self.cycles += if y == 6 { 12 } else { 8 };
        } else {
            let zf = self.registers.flag_zero();
            let cf = self.registers.flag_carry();
            if y < 4 {
                let (res, co) = shift_exec(y, self.registers.a, cf);
                self.registers.a = res;
                self.registers.set_flags(false, false, false, co);
            } else if y == 4 {
                self.registers = daa_exec(self.registers);
            } else if y == 5 {
                self.registers.a = !self.registers.a;
                self.registers.set_flags(zf, true, true, cf);
            } else if y == 6 {
                self.registers.set_flags(zf, false, false, true);
            } else {
                self.registers.set_flags(zf, false, false, !cf);
            }
            self.cycles += 4;
        }
    }

    /// Opcodes 0xC0-0xFF.
    #[verifier::rlimit(100)]
    #[verifier::spinoff_prover]
    fn exec_x3(&mut self, y: u8, z: u8)
        requires
            y < 8,
            z < 8,
            old(self)@.memory.inv(),
            old(self).cycles + 24 <= u64::MAX,
        ensures
            final(self)@ == old(self)@.exec_x3(y as int, z as int),
            final(self)@.memory.inv(),
    {
        if z == 0 {
            if y < 4 {
                if self.cond(y) {
                    let v = self.pop();
                    self.pc = v;
                    self.cycles += 20;
                } else {
                    self.cycles += 8;
                }
            } else if y == 4 {
                let n = self.fetch_byte();
                let a = self.registers.a;
                self.memory.write_byte(0xFF00 + n as u16, a);
                self.cycles += 12;
            } else if y == 5 {
                let sp = self.sp;
                let e = self.fetch_byte();
                self.registers.set_flags(false, false, (sp % 16) + (e as u16 % 16) > 15, (sp % 256) + e as u16 > 255);
                self.sp = offset_exec(sp, e);
                self.cycles += 16;
            } else if y == 6 {
                let n = self.fetch_byte();
                self.registers.a = self.memory.read_byte(0xFF00 + n as u16);
                self.cycles += 12;
            } else {
                let sp = self.sp;
                let e = self.fetch_byte();
                self.registers.set_flags(false, false, (sp % 16) + (e as u16 % 16) > 15, (sp % 256) + e as u16 > 255);
                self.registers.set_hl(offset_exec(sp, e));
                self.cycles += 12;
            }
        } else if z == 1 {
            if y % 2 == 0 {
                let v = self.pop();
                if y == 6 {
                    self.registers.a = (v / 256) as u8;
                    self.registers.f = ((v % 256) as u8) & 0xF0;
                } else {
                    self.set_reg16(y / 2, v);
                }
                self.cycles += 12;
            } else if y == 1 || y == 3 {
                let v = self.pop();
                self.pc = v;
                if y == 3 {
                    self.interrupts_enabled = true;
                }
                self.cycles += 16;
            } else if y == 5 {
                self.pc = self.registers.hl();
                self.cycles += 4;
            } else {
                self.sp = self.registers.hl();
                self.cycles += 8;
            }
        } else if z == 2 {
            if y < 4 {
                let a = self.fetch_word();
                if self.cond(y) {
                    self.pc = a;
                    self.cycles += 16;
                } else {
                    self.cycles += 12;
                }
            } else if y == 4 {
                let a = self.registers.a;
                self.memory.write_byte(0xFF00 + self.registers.c as u16, a);
                self.cycles += 8;
            } else if y == 5 {
                let addr = self.fetch_word();
                let a = self.registers.a;
                self.memory.write_byte(addr, a);
                self.cycles += 16;
            } else if y == 6 {
                self.registers.a = self.memory.read_byte(0xFF00 + self.registers.c as u16);
                self.cycles += 8;
            } else {
                let addr = self.fetch_word();
                self.registers.a = self.memory.read_byte(addr);
                self.cycles += 16;
            }
        } else if z == 3 {
            if y == 0 {
                let a = self.fetch_word();
                self.pc = a;
                self.cycles += 16;
            } else if y == 1 {
                let cb = self.fetch_byte();
                self.exec_cb(cb);
            } else if y == 6 {
                self.interrupts_enabled = false;
                self.cycles += 4;
            } else if y == 7 {
                self.interrupts_enabled = true;
                self.cycles += 4;
            }
        } else if z == 4 {
            if y < 4 {
                let a = self.fetch_word();
                if self.cond(y) {
                    let pc = self.pc;
                    self.push(pc);
                    self.pc = a;
                    self.cycles += 24;
                } else {
                    self.cycles += 12;
                }
            }
        } else if z == 5 {
            if y % 2 == 0 {
                let v = if y == 6 {
                    self.registers.a as u16 * 256 + self.registers.f as u16
                } else {
                    self.reg16(y / 2)
                };
                self.push(v);
                self.cycles += 16;
            } else if y == 1 {
                let a = self.fetch_word();
                let pc = self.pc;
                self.push(pc);
                self.pc = a;
                self.cycles += 24;
            }
        } else if z == 6 {
            let v = self.fetch_byte();
            self.alu(y, v);
            self.cycles += 8;
        } else {
            let pc = self.pc;
            self.push(pc);
            self.pc = y as u16 * 8;
            self.cycles += 16;
        }
    }

    /// A CB-prefixed opcode.
    #[verifier::rlimit(100)]
    #[verifier::spinoff_prover]
    fn exec_cb(&mut self, cb: u8)
        requires
            old(self)@.memory.inv(),
            old(self).cycles + 16 <= u64::MAX,
        ensures
            final(self)@ == old(self)@.exec_cb(cb),
            final(self)@.memory.inv(),
    {
        let x = cb / 64;
        let y = (cb / 8) % 8;
        let z = cb % 8;
        let v = self.operand(z);
        if x == 0 {
            let cf = self.registers.flag_carry();
            let (res, co) = shift_exec(y, v, cf);
            self.registers.set_flags(res == 0, false, false, co);
            self.set_operand(z, res);
            self.cycles += if z == 6 { 16 } else { 8 };
        } else if x == 1 {
            let cf = self.registers.flag_carry();
            self.registers.set_flags((v >> y) & 1 == 0, false, true, cf);
            self.cycles += if z == 6 { 12 } else { 8 };
        } else if x == 2 {
            self.set_operand(z, v & !(1u8 << y));
            self.cycles += if z == 6 { 16 } else { 8 };
        } else {
            self.set_operand(z, v | (1u8 << y));
            self.cycles += if z == 6 { 16 } else { 8 };
        }
    }

    /// ALU operation `kind` on A and `v`.
    fn alu(&mut self, kind: u8, v: u8)
        ensures
            final(self)@ == (CpuState { registers: alu_op(old(self).registers, kind as int, v), ..old(self)@ }),
    {
        match kind {
            0 => self.alu_add(v),
            1 => self.alu_adc(v),
            2 => self.alu_sub(v),
            3 => self.alu_sbc(v),
            4 => self.alu_and(v),
            5 => self.alu_xor(v),
            6 => self.alu_or(v),
            _ => self.alu_cp(v),
        }
    }

    /// Execute an instruction based on opcode
    #[verifier::rlimit(100)]
    #[verifier::spinoff_prover]
    fn execute(&mut self, opcode: u8)
        requires
            old(self)@.memory.inv(),
            old(self).cycles + 24 <= u64::MAX,
            !undefined(opcode),
        ensures
            final(self)@ == old(self)@.execute(opcode),
            final(self)@.memory.inv(),
    {
        proof { reveal(CpuState::execute); }
        let x = opcode / 64;
        let y = (opcode / 8) % 8;
        let z = opcode % 8;
        if x == 0 {
            self.exec_x0(y, z);
        } else if x == 1 {
            if opcode == 0x76 {
                // HALT
                self.halted = true;
                self.cycles += 4;
            } else {
                let v = self.operand(z);
                self.set_operand(y, v);
                self.cycles += if y == 6 || z == 6 { 8 } else { 4 };
            }
        } else if x == 2 {
            let v = self.operand(z);
            self.alu(y, v);
            self.cycles += if z == 6 { 8 } else { 4 };
        } else {
            self.exec_x3(y, z);
        }
    }

    // ALU (Arithmetic Logic Unit) operations

    fn alu_inc(&mut self, value: u8) -> (r: u8)
        ensures
            r == ((value + 1) % 256) as u8,
            final(self)@ == (CpuState {
                registers: old(self).registers.with_f(old(self).registers.inc_flags(value)),
                ..old(self)@
            }),
    {
        let result = value.wrapping_add(1);

        // Set flags
        self.registers.set_flag_zero(result == 0);
        self.registers.set_flag_subtract(false);
        self.registers.set_flag_half_carry((value & 0x0F) == 0x0F);

        result
    }

    fn alu_dec(&mut self, value: u8) -> (r: u8)
        ensures
            r == ((value - 1 + 256) % 256) as u8,
            final(self)@ == (CpuState {
                registers: old(self).registers.with_f(old(self).registers.dec_flags(value)),
                ..old(self)@
            }),
    {
        let result = value.wrapping_sub(1);

        // Set flags
        self.registers.set_flag_zero(result == 0);
        self.registers.set_flag_subtract(true);
        self.registers.set_flag_half_carry((value & 0x0F) == 0);

        result
    }

    fn alu_add(&mut self, value: u8)
        ensures
            final(self)@ == (CpuState { registers: old(self).registers.after_add(value), ..old(self)@ }),
    {
        let a = self.registers.a;
        let result = a.wrapping_add(value);
        proof { lemma_nibbles(a, value); }

        // Set flags
        self.registers.set_flag_zero(result == 0);
        self.registers.set_flag_subtract(false);
        self.registers.set_flag_half_carry((a & 0x0F) + (value & 0x0F) > 0x0F);
        self.registers.set_flag_carry(a as u16 + value as u16 > 0xFF);

        self.registers.a = result;
    }

    fn alu_adc(&mut self, value: u8)
        ensures
            final(self)@ == (CpuState { registers: old(self).registers.after_adc(value), ..old(self)@ }),
    {
        let a = self.registers.a;
        // The carry flag is read before any flag is written.
        let carry: u8 = if self.registers.flag_carry() { 1 } else { 0 };
        let result = a.wrapping_add(value).wrapping_add(carry);
        proof { lemma_nibbles(a, value); }

        // Set flags
        self.registers.set_flag_zero(result == 0);
        // ADC is addition, so the N flag is written with false.
        self.registers.set_flag_subtract(false);
        // Low nibbles plus carry are at most 31, so the u8 sum cannot overflow.
        self.registers.set_flag_half_carry((a & 0x0F) + (value & 0x0F) + carry > 0x0F);
        // The full carry is computed in u16 so that 255 + 0 + 1 = 256 survives.
        self.registers.set_flag_carry((a as u16) + (value as u16) + (carry as u16) > 0xFF);
        self.registers.a = result;
    }

    fn alu_sub(&mut self, value: u8)
        ensures
            final(self)@ == (CpuState { registers: old(self).registers.after_sub(value), ..old(self)@ }),
    {
        let a = self.registers.a;
        let result = a.wrapping_sub(value);

        // Set flags
        self.registers.set_flag_zero(result == 0);
        self.registers.set_flag_subtract(true);
        self.registers.set_flag_half_carry((a & 0x0F) < (value & 0x0F));
        self.registers.set_flag_carry(a < value);

        self.registers.a = result;
    }

    fn alu_sbc(&mut self, value: u8)
        ensures
            final(self)@ == (CpuState { registers: old(self).registers.after_sbc(value), ..old(self)@ }),
    {
        let a = self.registers.a;
        // The carry flag is read before any flag is written, as for ADC.
        let carry: u8 = if self.registers.flag_carry() { 1 } else { 0 };
        let result = a.wrapping_sub(value).wrapping_sub(carry);
        proof { lemma_nibbles(a, value); }

        // Set flags
        self.registers.set_flag_zero(result == 0);
        self.registers.set_flag_subtract(true);
        // Low-nibble borrow, including the carry.
        self.registers.set_flag_half_carry((a & 0x0F) < (value & 0x0F) + carry);
        // Full borrow, including the carry.
        self.registers.set_flag_carry((a as u16) < (value as u16) + (carry as u16));

        self.registers.a = result;
    }

    fn alu_and(&mut self, value: u8)
        ensures
            final(self)@ == (CpuState { registers: old(self).registers.after_and(value), ..old(self)@ }),
    {
        let result = self.registers.a & value;
        self.registers.set_flag_zero(result == 0);
        self.registers.set_flag_subtract(false);
        self.registers.set_flag_half_carry(true);  // AND always sets H
        self.registers.set_flag_carry(false);
        self.registers.a = result;
    }

    fn alu_xor(&mut self, value: u8)
        ensures
            final(self)@ == (CpuState { registers: old(self).registers.after_xor(value), ..old(self)@ }),
    {
        let result = self.registers.a ^ value;
        self.registers.set_flag_zero(result == 0);
        self.registers.set_flag_subtract(false);
        self.registers.set_flag_half_carry(false);  // XOR clears H (unlike AND)
        self.registers.set_flag_carry(false);
        self.registers.a = result;
    }

    fn alu_or(&mut self, value: u8)
        ensures
            final(self)@ == (CpuState { registers: old(self).registers.after_or(value), ..old(self)@ }),
    {
        let result = self.registers.a | value;
        self.registers.set_flag_zero(result == 0);
        self.registers.set_flag_subtract(false);
        self.registers.set_flag_half_carry(false);
        self.registers.set_flag_carry(false);
        self.registers.a = result;
    }

    fn alu_cp(&mut self, value: u8)
        ensures
            final(self)@ == (CpuState { registers: old(self).registers.after_cp(value), ..old(self)@ }),
    {
        let a = self.registers.a;
        let result = a.wrapping_sub(value);

        self.registers.set_flag_zero(result == 0);
        self.registers.set_flag_subtract(true);
        self.registers.set_flag_half_carry((a & 0x0F) < (value & 0x0F));
        self.registers.set_flag_carry(a < value);
        // CP discards the result: A is unchanged.
    }
}

/// `base` plus the signed byte `e` (see [`offset`]).
fn offset_exec(base: u16, e: u8) -> (r: u16)
    ensures
        r == offset(base, e),
{
    if e < 128 { base.wrapping_add(e as u16) } else { base.wrapping_sub(256 - e as u16) }
}

/// Rotate/shift `kind` of `v` with carry in `c` (see [`shift_op`]).
fn shift_exec(kind: u8, v: u8, c: bool) -> (r: (u8, bool))
    ensures
        r == shift_op(kind as int, v, c),
{
    match kind {
        0 => ((v << 1u8) | (v >> 7u8), v & 0x80 != 0),
        1 => ((v >> 1u8) | (v << 7u8), v & 1 != 0),
        2 => ((v << 1u8) | (if c { 1u8 } else { 0u8 }), v & 0x80 != 0),
        3 => ((v >> 1u8) | (if c { 0x80u8 } else { 0u8 }), v & 1 != 0),
        4 => (v << 1u8, v & 0x80 != 0),
        5 => ((v >> 1u8) | (v & 0x80), v & 1 != 0),
        6 => ((v >> 4u8) | (v << 4u8), false),
        _ => (v >> 1u8, v & 1 != 0),
    }
}

/// DAA on `r` (see [`daa`]).
fn daa_exec(r: Registers) -> (out: Registers)
    ensures
        out == daa(r),
{
    let mut regs = r;
    let n = regs.flag_subtract();
    let lo: u8 = if regs.flag_half_carry() || (!n && regs.a % 16 > 9) { 6 } else { 0 };
    let hi = regs.flag_carry() || (!n && regs.a > 0x99);
    let adj: u8 = lo + if hi { 0x60 } else { 0 };
    let a = if n { regs.a.wrapping_sub(adj) } else { regs.a.wrapping_add(adj) };
    regs.a = a;
    regs.set_flags(a == 0, n, false, hi);
    regs
}

/// The rotate and shift table in plain arithmetic, for every byte `v` and
/// carry in `c`: RLC, RRC, RL, RR, SLA, SRA, SWAP and SRL give these results
/// and carries out.
pub proof fn lemma_shift_table(v: u8, c: bool)
    ensures
        shift_op(0, v, c).0 as int == (v * 2) % 256 + v / 128 && shift_op(0, v, c).1 == (v >= 128),
        shift_op(1, v, c).0 as int == v / 2 + (v % 2) * 128 && shift_op(1, v, c).1 == (v % 2 == 1),
        shift_op(2, v, c).0 as int == (v * 2) % 256 + (if c { 1int } else { 0 }) && shift_op(2, v, c).1 == (v >= 128),
        shift_op(3, v, c).0 as int == v / 2 + (if c { 128int } else { 0 }) && shift_op(3, v, c).1 == (v % 2 == 1),
        shift_op(4, v, c).0 as int == (v * 2) % 256 && shift_op(4, v, c).1 == (v >= 128),
        shift_op(5, v, c).0 as int == v / 2 + (if v >= 128 { 128int } else { 0 }) && shift_op(5, v, c).1 == (v % 2
            == 1),
        shift_op(6, v, c).0 as int == (v % 16) * 16 + v / 16 && !shift_op(6, v, c).1,
        shift_op(7, v, c).0 as int == v / 2 && shift_op(7, v, c).1 == (v % 2 == 1),
{
    assert(
        (((v << 1u8) | (v >> 7u8)) as int == (v * 2) % 256 + v / 128)
        && (((v >> 1u8) | (v << 7u8)) as int == v / 2 + (v % 2) * 128)
        && (((v << 1u8) | 1u8) as int == (v * 2) % 256 + 1 && ((v << 1u8) | 0u8) as int == (v * 2) % 256)
        && (((v >> 1u8) | 0x80u8) as int == v / 2 + 128 && ((v >> 1u8) | 0u8) as int == v / 2)
        && ((v << 1u8) as int == (v * 2) % 256)
        && (((v >> 1u8) | (v & 0x80)) as int == v / 2 + (if v >= 128 { 128int } else { 0 }))
        && (((v >> 4u8) | (v << 4u8)) as int == (v % 16) * 16 + v / 16)
        && ((v >> 1u8) as int == v / 2)
        && ((v & 0x80 != 0) == (v >= 128) && (v & 1 != 0) == (v % 2 == 1))) by (bit_vector);
}

/// The CB-prefixed rotates and shifts (0xCB 0x00-0x3F) on a register, in
/// plain arithmetic: operand `z` (not (HL)) gets the result and C the bit
/// shifted out; Z says the result is zero, N and H are cleared.
#[verifier::spinoff_prover]
#[verifier::rlimit(40)]
pub proof fn lemma_cb_rotate_shift(s: CpuState, cb: u8)
    requires
        cb < 64,
        cb % 8 != 6,
    ensures
        ({
            let y = cb / 8;
            let z = (cb % 8) as int;
            let v = reg8(s.registers, z);
            let c = carry_of(s.registers.f);
            let t = s.exec_cb(cb);
            let res = reg8(t.registers, z) as int;
            let co = carry_of(t.registers.f);
            &&& y == 0 ==> res == (v * 2) % 256 + v / 128 && co == (v >= 128)
            &&& y == 1 ==> res == v / 2 + (v % 2) * 128 && co == (v % 2 == 1)
            &&& y == 2 ==> res == (v * 2) % 256 + (if c { 1int } else { 0 }) && co == (v >= 128)
            &&& y == 3 ==> res == v / 2 + (if c { 128int } else { 0 }) && co == (v % 2 == 1)
            &&& y == 4 ==> res == (v * 2) % 256 && co == (v >= 128)
            &&& y == 5 ==> res == v / 2 + (if v >= 128 { 128int } else { 0 }) && co == (v % 2 == 1)
            &&& y == 6 ==> res == (v % 16) * 16 + v / 16 && !co
            &&& y == 7 ==> res == v / 2 && co == (v % 2 == 1)
            &&& zero_of(t.registers.f) == (res == 0)
            &&& !subtract_of(t.registers.f)
            &&& !half_carry_of(t.registers.f)
        }),
{
    let y = cb / 8;
    let z = (cb % 8) as int;
    let v = reg8(s.registers, z);
    let f = s.registers.f;
    lemma_shift_table(v, carry_of(f));
    let (res, co) = shift_op(y as int, v, carry_of(f));
    crate::registers::lemma_with_flags(f, res == 0, false, false, co);
}

/// Interrupt priority: the dispatched interrupt is the lowest-numbered one
/// that is both enabled and requested (bit 0 VBlank first, then LCD STAT,
/// Timer, Serial, Joypad), and PC goes to its vector.
#[verifier::spinoff_prover]
#[verifier::rlimit(40)]
pub proof fn lemma_interrupt_priority(s: CpuState)
    requires
        s.interrupts_enabled,
        s.pending() != 0,
        s.cycles + 20 <= u64::MAX,
    ensures
        ({
            let p = s.pending() as int;
            let pc = s.step().pc;
            &&& p % 2 == 1 ==> pc == 0x40
            &&& p % 2 == 0 && (p / 2) % 2 == 1 ==> pc == 0x48
            &&& p % 4 == 0 && (p / 4) % 2 == 1 ==> pc == 0x50
            &&& p % 8 == 0 && (p / 8) % 2 == 1 ==> pc == 0x58
            &&& p % 16 == 0 && (p / 16) % 2 == 1 ==> pc == 0x60
        }),
        ({
            let pc = s.step().pc as int;
            let k = ((pc - 0x40) / 8) as u8;
            &&& 0x40 <= pc && (pc - 0x40) % 8 == 0 && k < 5
            &&& (s.pending() >> k) & 1 == 1
            &&& forall|j: u8| j < k ==> #[trigger] ((s.pending() >> j) & 1) == 0
        }),
{
    let p = s.pending();
    assert(p == s.memory.read(0xFFFF) & s.memory.read(0xFF0F) & 0x1F);
    let ie = s.memory.read(0xFFFF);
    let iflag = s.memory.read(0xFF0F);
    assert(p < 32 && (p & 1 != 0) == (p % 2 == 1) && (p & 2 != 0) == ((p / 2) % 2 == 1) && (p & 4 != 0) == ((p / 4) % 2 == 1)
        && (p & 8 != 0) == ((p / 8) % 2 == 1) && (p % 2 == 0 ==> (p / 2) % 2 == 0 ==> p % 4 == 0)
        && (p % 4 == 0 ==> (p / 4) % 2 == 0 ==> p % 8 == 0) && (p % 8 == 0 ==> (p / 8) % 2 == 0 ==> p % 16 == 0))
        by (bit_vector)
        requires
            p == ie & iflag & 0x1F,
    ;
    lemma_lowest_pending_bit(p);
    lemma_interrupt_dispatch(s);
}

/// `lowest_pending` picks the least set bit of a nonzero five-bit mask.
proof fn lemma_lowest_pending_bit(p: u8)
    requires
        p != 0,
        p < 32,
    ensures
        0 <= lowest_pending(p) < 5,
        (p >> (lowest_pending(p) as u8)) & 1 == 1,
        forall|j: u8| j < lowest_pending(p) ==> #[trigger] ((p >> j) & 1) == 0,
{
    assert((p & 1 != 0) == ((p >> 0u8) & 1 == 1) && (p & 2 != 0) == ((p >> 1u8) & 1 == 1)
        && (p & 4 != 0) == ((p >> 2u8) & 1 == 1) && (p & 8 != 0) == ((p >> 3u8) & 1 == 1)
        && (p & 1 == 0) == ((p >> 0u8) & 1 == 0) && (p & 2 == 0) == ((p >> 1u8) & 1 == 0)
        && (p & 4 == 0) == ((p >> 2u8) & 1 == 0) && (p & 8 == 0) == ((p >> 3u8) & 1 == 0)
        && (p != 0 && p < 32 && p & 1 == 0 && p & 2 == 0 && p & 4 == 0 && p & 8 == 0 ==> (p >> 4u8) & 1 == 1))
        by (bit_vector);
    assert forall|j: u8| j < lowest_pending(p) implies #[trigger] ((p >> j) & 1) == 0 by {
        assert(j == 0 || j == 1 || j == 2 || j == 3);
    }
}

/// What ALU operation `k` (0 ADD, 1 ADC, 2 SUB, 3 SBC, 4 AND, 5 XOR, 6 OR,
/// 7 CP) makes of registers `r0` with operand `v`, in plain arithmetic:
/// A and the Z, N and C flags of `r1`.
pub open spec fn alu_law(r0: Registers, v: u8, k: int, r1: Registers) -> bool {
    let a = r0.a as int;
    let c: int = if carry_of(r0.f) { 1 } else { 0 };
    &&& k == 0 ==> r1.a == (a + v) % 256 && carry_of(r1.f) == (a + v > 255) && !subtract_of(r1.f)
    &&& k == 1 ==> r1.a == (a + v + c) % 256 && carry_of(r1.f) == (a + v + c > 255) && !subtract_of(r1.f)
    &&& k == 2 ==> r1.a == (a - v + 256) % 256 && carry_of(r1.f) == (a < v) && subtract_of(r1.f)
    &&& k == 3 ==> r1.a == (a - v - c + 512) % 256 && carry_of(r1.f) == (a < v + c) && subtract_of(r1.f)
    &&& k == 4 ==> r1.a == r0.a & v && !carry_of(r1.f) && half_carry_of(r1.f) && !subtract_of(r1.f)
    &&& k == 5 ==> r1.a == r0.a ^ v && !carry_of(r1.f) && !half_carry_of(r1.f) && !subtract_of(r1.f)
    &&& k == 6 ==> r1.a == r0.a | v && !carry_of(r1.f) && !half_carry_of(r1.f) && !subtract_of(r1.f)
    &&& k == 7 ==> r1.a == r0.a && carry_of(r1.f) == (a < v) && subtract_of(r1.f)
    &&& k != 7 ==> zero_of(r1.f) == (r1.a == 0)
    &&& k == 7 ==> zero_of(r1.f) == (a == v)
    &&& r1.b == r0.b && r1.c == r0.c && r1.d == r0.d && r1.e == r0.e && r1.h == r0.h && r1.l == r0.l
}

/// The ALU opcodes 0x80-0xBF with a register operand compute what their
/// operation `(op / 8) % 8` says of A and the register `op % 8`, in 4 cycles.
pub proof fn lemma_alu_register_opcodes(s: CpuState, op: u8)
    requires
        0x80 <= op <= 0xBF,
        op % 8 != 6,
        s.cycles + 24 <= u64::MAX,
    ensures
        alu_law(s.registers, reg8(s.registers, (op % 8) as int), ((op / 8) % 8) as int, s.execute(op).registers),
        s.execute(op).cycles == s.cycles + 4,
        s.execute(op).pc == s.pc,
{
    reveal(CpuState::execute);
    let v = reg8(s.registers, (op % 8) as int);
    assert(op / 64 == 2);
    assert(s.operand((op % 8) as int) == v);
    assert(s.execute(op) == (CpuState { registers: alu_op(s.registers, ((op / 8) % 8) as int, v), ..s }).tick(4));
    crate::registers::lemma_alu(s.registers, v);
}

/// The ALU opcodes 0xC6-0xFE with an immediate operand compute what their
/// operation `(op / 8) % 8` says of A and the byte after the opcode, in 8
/// cycles.
pub proof fn lemma_alu_immediate_opcodes(s: CpuState, op: u8)
    requires
        op >= 0xC0,
        op % 8 == 6,
        s.cycles + 24 <= u64::MAX,
    ensures
        alu_law(s.registers, s.imm8(), ((op / 8) % 8) as int, s.execute(op).registers),
        s.execute(op).cycles == s.cycles + 8,
        s.execute(op).pc == (s.pc + 1) % 0x10000,
{
    reveal(CpuState::execute);
    let v = s.imm8();
    assert(op / 64 == 3);
    assert(s.execute(op) == s.exec_x3(((op / 8) % 8) as int, 6));
    crate::registers::lemma_alu(s.registers, v);
}

/// INC r and DEC r (0x04 + 8y and 0x05 + 8y, y a register) add or subtract one,
/// wrapping; Z says the result is zero, N is cleared by INC and set by DEC,
/// H is the carry into (borrow from) bit 4, and C and the other registers
/// are unchanged.
pub proof fn lemma_inc_dec_opcodes(s: CpuState, y: u8)
    requires
        y < 8,
        y != 6,
    ensures
        ({
            let v = reg8(s.registers, y as int) as int;
            let i = s.execute((0x04 + 8 * y) as u8).registers;
            let d = s.execute((0x05 + 8 * y) as u8).registers;
            &&& reg8(i, y as int) == (v + 1) % 256
            &&& zero_of(i.f) == (v == 255) && !subtract_of(i.f) && half_carry_of(i.f) == (v % 16 == 15)
            &&& carry_of(i.f) == carry_of(s.registers.f)
            &&& reg8(d, y as int) == (v + 255) % 256
            &&& zero_of(d.f) == (v == 1) && subtract_of(d.f) && half_carry_of(d.f) == (v % 16 == 0)
            &&& carry_of(d.f) == carry_of(s.registers.f)
            &&& forall|j: int| 0 <= j < 8 && j != 6 && j != y ==> reg8(i, j) == reg8(s.registers, j) && reg8(d, j)
                == reg8(s.registers, j)
        }),
{
    reveal(CpuState::execute);
    let v = reg8(s.registers, y as int);
    crate::registers::lemma_inc_dec_flags(s.registers, v);
    assert(((0x04 + 8 * y) as u8) / 64 == 0 && ((((0x04 + 8 * y) as u8) / 8) % 8) == y && ((0x04 + 8 * y) as u8) % 8 == 4);
    assert(((0x05 + 8 * y) as u8) / 64 == 0 && ((((0x05 + 8 * y) as u8) / 8) % 8) == y && ((0x05 + 8 * y) as u8) % 8 == 5);
}

/// LD r,r' (0x40 + 8y + z, neither register (HL)) copies register `z` into
/// register `y` and changes no other register and no flag, in 4 cycles.
pub proof fn lemma_ld_opcodes(s: CpuState, y: u8, z: u8)
    requires
        y < 8,
        z < 8,
        y != 6,
        z != 6,
        s.cycles + 24 <= u64::MAX,
    ensures
        ({
            let t = s.execute((0x40 + 8 * y + z) as u8);
            &&& reg8(t.registers, y as int) == reg8(s.registers, z as int)
            &&& forall|j: int| 0 <= j < 8 && j != 6 && j != y ==> reg8(t.registers, j) == reg8(s.registers, j)
            &&& t.registers.f == s.registers.f
            &&& t.cycles == s.cycles + 4
            &&& t.memory == s.memory
        }),
{
    reveal(CpuState::execute);
    let op = (0x40 + 8 * y + z) as u8;
    assert(op / 64 == 1 && (op / 8) % 8 == y && op % 8 == z && op != 0x76);
}

/// The conditional jumps JP cc,a16 (0xC2 + 8cc) and JR cc,e (0x20 + 8cc) are
/// taken exactly when their condition holds: NZ (Z clear), Z (Z set), NC
/// (C clear), C (C set), with Z bit 7 and C bit 4 of F.
#[verifier::spinoff_prover]
#[verifier::rlimit(40)]
pub proof fn lemma_conditional_jumps(s: CpuState, cc: u8)
    requires
        cc < 4,
        s.cycles + 24 <= u64::MAX,
    ensures
        ({
            let f = s.registers.f as int;
            let z = (f / 128) % 2 == 1;
            let c = (f / 16) % 2 == 1;
            let taken = if cc == 0 { !z } else if cc == 1 { z } else if cc == 2 { !c } else { c };
            let jp = s.execute((0xC2 + 8 * cc) as u8);
            let jr = s.execute((0x20 + 8 * cc) as u8);
            &&& taken ==> jp.pc == s.imm16() && jp.cycles == s.cycles + 16
            &&& !taken ==> jp.pc == (s.pc + 2) % 0x10000 && jp.cycles == s.cycles + 12
            &&& taken ==> jr.pc == offset(((s.pc + 1) % 0x10000) as u16, s.imm8()) && jr.cycles == s.cycles + 12
            &&& !taken ==> jr.pc == (s.pc + 1) % 0x10000 && jr.cycles == s.cycles + 8
        }),
{
    reveal(CpuState::execute);
    let f = s.registers.f;
    assert((f & 0x80 != 0) == ((f as int / 128) % 2 == 1) && (f & 0x10 != 0) == ((f as int / 16) % 2 == 1))
        by (bit_vector);
    let jp = (0xC2 + 8 * cc) as u8;
    let jr = (0x20 + 8 * cc) as u8;
    assert(jp / 64 == 3 && (jp / 8) % 8 == cc && jp % 8 == 2);
    assert(jr / 64 == 0 && (jr / 8) % 8 == cc + 4 && jr % 8 == 0);
}

proof fn lemma_bcd_add_core(a: u8, b: u8, a1: u8, h: bool, c: bool, adj: u8, res: u8)
    by (bit_vector)
    requires
        a % 16 <= 9,
        a / 16 <= 9,
        b % 16 <= 9,
        b / 16 <= 9,
        a1 == ((a as u16 + b as u16) % 256) as u8,
        h == (a % 16 + b % 16 > 15),
        c == (a as u16 + b as u16 > 255),
        adj == (if h || a1 % 16 > 9 { 6u8 } else { 0u8 }) + (if c || a1 > 0x99 { 0x60u8 } else { 0u8 }),
        res == ((a1 as u16 + adj as u16) % 256) as u8,
    ensures
        res % 16 <= 9,
        res / 16 <= 9,
        (res / 16) as u16 * 10 + (res % 16) as u16 == ((a / 16) as u16 * 10 + (a % 16) as u16 + (b / 16) as u16 * 10 + (
        b % 16) as u16) % 100,
        (c || a1 > 0x99) == ((a / 16) as u16 * 10 + (a % 16) as u16 + (b / 16) as u16 * 10 + (b % 16) as u16 >= 100),
{
}

/// DAA after adding two BCD numbers gives their decimal sum: with A and `b`
/// each two decimal digits, ADD then DAA leaves in A the two decimal digits
/// of the sum modulo 100, sets C exactly when the sum reaches 100 and Z
/// exactly when the digits are 00.
pub proof fn lemma_daa_after_bcd_add(r: Registers, b: u8)
    requires
        r.a % 16 <= 9,
        r.a / 16 <= 9,
        b % 16 <= 9,
        b / 16 <= 9,
    ensures
        ({
            let d = daa(r.after_add(b));
            let x = (r.a / 16) * 10 + r.a % 16 + (b / 16) * 10 + b % 16;
            &&& d.a % 16 <= 9 && d.a / 16 <= 9
            &&& (d.a / 16) * 10 + d.a % 16 == x % 100
            &&& carry_of(d.f) == (x >= 100)
            &&& zero_of(d.f) == (x % 100 == 0)
            &&& !subtract_of(d.f)
        }),
{
    let a = r.a;
    crate::registers::lemma_alu(r, b);
    let s = r.after_add(b);
    let a1 = s.a;
    let h = (a % 16) + (b % 16) > 15;
    let c = a as int + b > 255;
    let lo: u8 = if h || a1 % 16 > 9 { 6 } else { 0 };
    let hi = c || a1 > 0x99;
    let adj: u8 = (lo + if hi { 0x60u8 } else { 0u8 }) as u8;
    let res = ((a1 + adj) % 256) as u8;
    assert(a1 == ((a as u16 + b as u16) % 256) as u8);
    lemma_bcd_add_core(a, b, a1, h, c, adj, res);
    let d = daa(s);
    assert(d.a == res);
    crate::registers::lemma_with_flags(s.f, res == 0, false, false, hi);
}

/// The state after `k` steps.
pub open spec fn steps(s: CpuState, k: nat) -> CpuState
    decreases k,
{
    if k == 0 { s } else { steps(s, (k - 1) as nat).step() }
}

/// `m1` keeps the divider counter of `m0` and every character of its serial log.
pub open spec fn mem_follows(m0: MemState, m1: MemState) -> bool {
    m1.div_counter == m0.div_counter && serial_grows(m0.serial, m1.serial)
}

proof fn lemma_write_follows(m: MemState, a: u16, v: u8)
    ensures
        mem_follows(m, m.write(a, v)),
{
    crate::memory::lemma_writes_grow_serial();
    crate::memory::lemma_writes_keep_div();
    assert(serial_grows(m.serial, m.write(a, v).serial));
}

proof fn lemma_follows_trans(m0: MemState, m1: MemState, m2: MemState)
    requires
        mem_follows(m0, m1),
        mem_follows(m1, m2),
    ensures
        mem_follows(m0, m2),
{
    assert forall|i: int| 0 <= i < m0.serial.len() implies #[trigger] m2.serial[i] == m0.serial[i] by {
        assert(m2.serial[i] == m1.serial[i]);
    }
}

proof fn lemma_two_writes_follow(m: MemState, a: u16, v: u8, b: u16, w: u8)
    ensures
        mem_follows(m, m.write(a, v).write(b, w)),
{
    lemma_write_follows(m, a, v);
    lemma_write_follows(m.write(a, v), b, w);
    lemma_follows_trans(m, m.write(a, v), m.write(a, v).write(b, w));
}

proof fn lemma_push_follows(s: CpuState, v: u16)
    ensures
        mem_follows(s.memory, s.push(v).memory),
{
    lemma_two_writes_follow(
        s.memory,
        ((s.sp + 0xFFFF) % 0x10000) as u16,
        high_byte(v),
        ((s.sp + 0xFFFE) % 0x10000) as u16,
        low_byte(v),
    );
}

proof fn lemma_operand_follows(s: CpuState, i: int, v: u8)
    ensures
        mem_follows(s.memory, s.with_operand(i, v).memory),
{
    lemma_write_follows(s.memory, s.registers.hl_spec(), v);
}

/// Opcodes 0x00-0x3F take 4 to 24 cycles, keep the divider counter and only
/// add to the serial log.
#[verifier::rlimit(50)]
proof fn lemma_x0(s: CpuState, y: int, z: int)
    requires
        0 <= y < 8,
        0 <= z < 8,
        s.cycles + 24 <= u64::MAX,
    ensures
        s.cycles + 4 <= s.exec_x0(y, z).cycles <= s.cycles + 24,
        mem_follows(s.memory, s.exec_x0(y, z).memory),
{
    let r = s.registers;
    if z == 0 {
        if y == 1 {
            let a = s.imm16();
            lemma_two_writes_follow(s.memory, a, low_byte(s.sp), ((a + 1) % 0x10000) as u16, high_byte(s.sp));
        }
    } else if z == 2 {
        let p = y / 2;
        let addr = if p == 0 { r.bc_spec() } else if p == 1 { r.de_spec() } else { r.hl_spec() };
        lemma_write_follows(s.memory, addr, r.a);
    } else if z == 4 {
        let v = s.operand(y);
        lemma_operand_follows(CpuState { registers: r.with_f(r.inc_flags(v)), ..s }, y, ((v + 1) % 256) as u8);
    } else if z == 5 {
        let v = s.operand(y);
        lemma_operand_follows(CpuState { registers: r.with_f(r.dec_flags(v)), ..s }, y, ((v + 255) % 256) as u8);
    } else if z == 6 {
        lemma_operand_follows(s.advance(1), y, s.imm8());
    }
}

/// CB-prefixed opcodes take 8 to 16 cycles, keep the divider counter and
/// only add to the serial log.
proof fn lemma_cb(s: CpuState, cb: u8)
    requires
        s.cycles + 16 <= u64::MAX,
    ensures
        s.cycles + 8 <= s.exec_cb(cb).cycles <= s.cycles + 16,
        mem_follows(s.memory, s.exec_cb(cb).memory),
{
    let x = cb / 64;
    let y = (cb / 8) % 8;
    let z = (cb % 8) as int;
    let v = s.operand(z);
    let r = s.registers;
    if x == 0 {
        let (res, co) = shift_op(y as int, v, carry_of(r.f));
        lemma_operand_follows(CpuState { registers: r.with_f(with_flags(r.f, res == 0, false, false, co)), ..s }, z, res);
    } else if x == 2 {
        lemma_operand_follows(s, z, v & !(1u8 << y));
    } else if x == 3 {
        lemma_operand_follows(s, z, v | (1u8 << y));
    }
}

/// Opcodes 0xC0-0xFF other than the undefined ones take 4 to 24 cycles,
/// keep the divider counter and only add to the serial log.
#[verifier::rlimit(50)]
proof fn lemma_x3(s: CpuState, y: int, z: int)
    requires
        0 <= y < 8,
        0 <= z < 8,
        !undefined((0xC0 + y * 8 + z) as u8),
        s.cycles + 24 <= u64::MAX,
    ensures
        s.cycles + 4 <= s.exec_x3(y, z).cycles <= s.cycles + 24,
        mem_follows(s.memory, s.exec_x3(y, z).memory),
{
    let r = s.registers;
    if z == 0 {
        if y == 4 {
            lemma_write_follows(s.memory, (0xFF00 + s.imm8()) as u16, r.a);
        }
    } else if z == 2 {
        if y == 4 {
            lemma_write_follows(s.memory, (0xFF00 + r.c) as u16, r.a);
        } else if y == 5 {
            lemma_write_follows(s.memory, s.imm16(), r.a);
        }
    } else if z == 3 {
        if y == 1 {
            lemma_cb(s.advance(1), s.imm8());
        }
    } else if z == 4 {
        if y < 4 {
            let t = s.advance(2);
            lemma_push_follows(t, t.pc);
        }
    } else if z == 5 {
        if y % 2 == 0 {
            lemma_push_follows(s, s.reg16_stack(y / 2));
        } else if y == 1 {
            let t = s.advance(2);
            lemma_push_follows(t, t.pc);
        }
    } else if z == 7 {
        lemma_push_follows(s, s.pc);
    }
}

/// A defined instruction takes 4 to 24 cycles, keeps the divider counter
/// and only adds to the serial log.
proof fn lemma_execute(s: CpuState, op: u8)
    requires
        !undefined(op),
        s.cycles + 24 <= u64::MAX,
    ensures
        s.cycles + 4 <= s.execute(op).cycles <= s.cycles + 24,
        mem_follows(s.memory, s.execute(op).memory),
{
    reveal(CpuState::execute);
    let x = op / 64;
    let y = ((op / 8) % 8) as int;
    let z = (op % 8) as int;
    if x == 0 {
        lemma_x0(s, y, z);
    } else if x == 1 {
        if op != 0x76 {
            lemma_operand_follows(s, y, s.operand(z));
        }
    } else if x == 3 {
        assert(op == 0xC0 + y * 8 + z);
        lemma_x3(s, y, z);
    }
}

/// The CPU part of a step keeps the divider counter and only adds to the
/// serial log.
proof fn lemma_core_follows(s: CpuState)
    requires
        s.step_ok(),
    ensures
        mem_follows(s.memory, s.core_step().memory),
{
    let w = s.woken();
    if w.interrupts_enabled && w.pending() != 0 {
        let k = lowest_pending(w.pending());
        let m1 = w.memory.write(0xFF0F, w.memory.read(0xFF0F) & !(1u8 << (k as u8)));
        lemma_write_follows(w.memory, 0xFF0F, w.memory.read(0xFF0F) & !(1u8 << (k as u8)));
        let t = CpuState { memory: m1, interrupts_enabled: false, ..w };
        lemma_push_follows(t, w.pc);
        lemma_follows_trans(w.memory, m1, t.push(w.pc).memory);
    } else if !w.halted {
        lemma_execute(w.advance(1), w.memory.read(w.pc));
    }
}

/// The CPU part of an allowed step takes 4 to 24 cycles.
proof fn lemma_core_cycles(s: CpuState)
    requires
        s.step_ok(),
    ensures
        s.cycles + 4 <= s.core_step().cycles <= s.cycles + 24,
{
    let w = s.woken();
    if !(w.interrupts_enabled && w.pending() != 0) && !w.halted {
        lemma_execute(w.advance(1), w.memory.read(w.pc));
    }
}

/// Every step advances the cycle counter by 4 to 24 cycles (20 for an
/// interrupt dispatch, 4 while halted).
pub proof fn lemma_step_cycles(s: CpuState)
    requires
        s.step_ok(),
    ensures
        s.cycles + 4 <= s.step().cycles <= s.cycles + 24,
{
    lemma_core_cycles(s);
}

/// A halted CPU with no interrupt pending only burns 4 cycles (and the
/// timer runs for them).
pub proof fn lemma_halted_step(s: CpuState)
    requires
        s.halted,
        s.pending() == 0,
        s.cycles + 4 <= u64::MAX,
    ensures
        s.step() == (CpuState { memory: s.memory.after_timer(4), ..s.tick(4) }),
{
}

/// A pending interrupt wakes a halted CPU, even with IME off: the step is
/// the one the same CPU takes when it is not halted.
pub proof fn lemma_interrupt_wakes(s: CpuState)
    requires
        s.halted,
        s.pending() != 0,
    ensures
        s.step() == (CpuState { halted: false, ..s }).step(),
{
}

/// With IME on and an interrupt pending, a step dispatches the lowest one k
/// instead of fetching: IME is cleared, the old PC is pushed (high byte at
/// SP - 1, low byte at SP - 2), PC becomes 0x40 + 8k, and it takes 20 cycles.
pub proof fn lemma_interrupt_dispatch(s: CpuState)
    requires
        s.interrupts_enabled,
        s.pending() != 0,
        s.cycles + 20 <= u64::MAX,
    ensures
        ({
            let k = lowest_pending(s.pending());
            let t = s.step();
            &&& t.pc == 0x40 + 8 * k
            &&& !t.interrupts_enabled
            &&& !t.halted
            &&& t.sp == (s.sp + 0xFFFE) % 0x10000
            &&& t.cycles == s.cycles + 20
            &&& t.registers == s.registers
        }),
{
}

/// DIV counts elapsed cycles: over any run of steps the divider counter
/// advances by exactly the cycles taken (modulo 0x10000), so DIV (its high
/// byte) rises by one every 256 cycles.
#[verifier::spinoff_prover]
#[verifier::rlimit(40)]
pub proof fn lemma_div_counts_cycles(s: CpuState, k: nat)
    requires
        forall|j: nat| j < k ==> (#[trigger] steps(s, j)).step_ok(),
    ensures
        steps(s, k).memory.div_counter == (s.memory.div_counter + (steps(s, k).cycles - s.cycles)) % 0x10000,
        steps(s, k).cycles >= s.cycles,
    decreases k,
{
    if k > 0 {
        let p = steps(s, (k - 1) as nat);
        lemma_div_counts_cycles(s, (k - 1) as nat);
        assert(p.step_ok());
        lemma_step_div(p);
        let q = p.step();
        assert(steps(s, k) == q);
        let d0 = s.memory.div_counter as int;
        let e = p.cycles - s.cycles;
        let n = q.cycles - p.cycles;
        vstd::arithmetic::div_mod::lemma_add_mod_noop(d0 + e, n, 0x10000);
        vstd::arithmetic::div_mod::lemma_mod_twice(d0 + e, 0x10000);
        vstd::arithmetic::div_mod::lemma_mod_twice(n, 0x10000);
    }
}

/// One step advances the divider counter by the cycles it took.
proof fn lemma_step_div(p: CpuState)
    requires
        p.step_ok(),
    ensures
        p.step().memory.div_counter == (p.memory.div_counter + (p.step().cycles - p.cycles)) % 0x10000,
        p.step().cycles >= p.cycles,
{
    lemma_core_cycles(p);
    lemma_core_follows(p);
    let c = p.core_step();
    lemma_timer_keeps_div(c.memory, (c.cycles - p.cycles) as nat);
}

/// The timer's TIMA part never touches the divider counter.
proof fn lemma_tima_keeps_div(m: MemState, k: nat)
    ensures
        m.tima_ticks(k).div_counter == m.div_counter,
        m.tima_ticks(k).serial == m.serial,
    decreases k,
{
    if k > 0 {
        lemma_tima_keeps_div(m, (k - 1) as nat);
    }
}

/// The timer advances the divider counter by `n` and keeps the serial log.
pub proof fn lemma_timer_keeps_div(m: MemState, n: nat)
    ensures
        m.after_timer(n).div_counter == (m.div_counter + n) % 0x10000,
        m.after_timer(n).serial == m.serial,
{
    let m1 = MemState { div_counter: ((m.div_counter + n) % 0x10000) as u16, ..m };
    if m.io_registers[7] & 4 != 0 {
        let p = crate::memory::timer_period(m.io_registers[7]);
        lemma_tima_keeps_div(m1, (((m.div_counter as int % p) + n) / p) as nat);
    }
}

/// The serial log only grows: a step keeps every character it held.
pub proof fn lemma_step_serial(s: CpuState)
    requires
        s.step_ok(),
    ensures
        serial_grows(s.memory.serial, s.step().memory.serial),
{
    lemma_core_follows(s);
    let c = s.core_step();
    lemma_timer_keeps_div(c.memory, (c.cycles - s.cycles) as nat);
}

/// Cycles in one video frame (doubled in CGB double-speed mode).
pub open spec fn frame_cycles(double_speed: bool) -> int {
    70224 * if double_speed { 2int } else { 1int }
}

/// Run exactly one frame's worth of CPU cycles (double speed runs twice as
/// many). Returns `false`, after the steps taken so far, as soon as the next
/// step cannot be taken (an undefined opcode, or no room in the cycle counter).
#[verifier::spinoff_prover]
pub fn run_one_frame(cpu: &mut Cpu) -> (ok: bool)
    requires
        old(cpu)@.memory.inv(),
        old(cpu).cycles + frame_cycles(true) + 24 <= u64::MAX,
    ensures
        final(cpu)@.memory.inv(),
        // the machine took k steps, each of them below the frame target and
        // allowed, and stopped at the first state that reaches the target or
        // cannot step
        exists|k: nat|
            {
                &&& final(cpu)@ == steps(old(cpu)@, k)
                &&& forall|j: nat| j < k ==> (#[trigger] steps(old(cpu)@, j)).step_ok()
                    && steps(old(cpu)@, j).cycles < old(cpu).cycles + frame_cycles(old(cpu)@.memory.double_speed)
            },
        ok <==> final(cpu).cycles >= old(cpu).cycles + frame_cycles(old(cpu)@.memory.double_speed),
        !ok ==> !final(cpu)@.step_ok(),
{
    let per_frame: u64 = 70224 * if cpu.memory.is_double_speed() { 2 } else { 1 };
    let target = cpu.cycles + per_frame;
    let ghost mut k: nat = 0;
    while cpu.cycles < target
        invariant
            cpu@.memory.inv(),
            target == old(cpu).cycles + frame_cycles(old(cpu)@.memory.double_speed),
            target + 24 <= u64::MAX,
            cpu.cycles >= old(cpu).cycles,
            cpu.cycles < target + 24,
            cpu@ == steps(old(cpu)@, k),
            forall|j: nat| j < k ==> (#[trigger] steps(old(cpu)@, j)).step_ok()
                && steps(old(cpu)@, j).cycles < target,
        decreases target + 24 - cpu.cycles,
    {
        if !cpu.can_step() {
            return false;
        }
        proof { lemma_step_cycles(cpu@); }
        cpu.step();
        proof {
            assert forall|j: nat| j < k + 1 implies (#[trigger] steps(old(cpu)@, j)).step_ok()
                && steps(old(cpu)@, j).cycles < target by {
                if j < k {
                    assert(steps(old(cpu)@, j).step_ok());
                }
            }
            k = k + 1;
        }
    }
    true
}

/// A register reads back the value it was set to; the other registers keep theirs.
pub proof fn lemma_register_write_read(regs: Registers, r: Register, other: Register, v: u8)
    ensures
        register_value(with_register(regs, r, v), r) == v,
        other != r ==> register_value(with_register(regs, r, v), other) == register_value(regs, other),
        with_register(regs, r, v).f == regs.f,
{
}

} // verus!
