use gbc::cpu::{run_one_frame, Cpu, Register};
use gbc::headless::{run_until_report, serial_reports, RunEnd};

/// A 32 KiB cartridge without an MBC whose code at 0x0100 is `program`.
fn rom_with(program: &[u8]) -> Vec<u8> {
    let mut rom = vec![0u8; 0x8000];
    rom[0x0100..0x0100 + program.len()].copy_from_slice(program);
    rom
}

/// Code that sends `text` through the serial port: for each byte,
/// SB (0xFF01) <- byte, then SC (0xFF02) <- 0x81.
fn serial_program(text: &str) -> Vec<u8> {
    let mut code = vec![0x26, 0xFF]; // LD H,0xFF
    for b in text.bytes() {
        code.extend_from_slice(&[0x2E, 0x01, 0x3E, b, 0x77]); // LD L,1; LD A,b; LD (HL),A
        code.extend_from_slice(&[0x2E, 0x02, 0x3E, 0x81, 0x77]); // LD L,2; LD A,0x81; LD (HL),A
    }
    code
}

#[test]
fn power_on_sets_cgb_boot_flag() {
    let mut rom = rom_with(&[]);
    rom[0x0143] = 0x80;
    let cpu = Cpu::power_on(&rom);
    assert!(cpu.memory.is_cgb());
    assert_eq!(cpu.registers.a, 0x11);
    assert_eq!(cpu.pc, 0x0100);
    assert_eq!(cpu.sp, 0xFFFE);

    let dmg = Cpu::power_on(&rom_with(&[]));
    assert!(!dmg.memory.is_cgb());
    assert_eq!(dmg.registers.a, 0);
}

#[test]
fn halted_cpu_only_burns_four_cycles() {
    let mut cpu = Cpu::power_on(&rom_with(&[0x76, 0x3C])); // HALT; INC A
    cpu.step();
    assert!(cpu.halted);
    assert_eq!(cpu.cycles, 4);
    let pc = cpu.pc;
    cpu.step();
    cpu.step();
    assert_eq!(cpu.cycles, 12);
    assert_eq!(cpu.pc, pc);
    assert_eq!(cpu.registers.a, 0);
}

#[test]
fn ld_bc_d16_then_store_and_increment() {
    // LD BC,0xC123; LD A,0x5A; LD (BC),A; INC BC
    let mut cpu = Cpu::power_on(&rom_with(&[0x01, 0x23, 0xC1, 0x3E, 0x5A, 0x02, 0x03]));
    cpu.step();
    assert_eq!(cpu.registers.bc(), 0xC123);
    assert_eq!(cpu.pc, 0x0103);
    assert_eq!(cpu.cycles, 12);
    cpu.step();
    cpu.step();
    assert_eq!(cpu.memory.read_byte(0xC123), 0x5A);
    assert_eq!(cpu.cycles, 12 + 8 + 8);
    cpu.step();
    assert_eq!(cpu.registers.bc(), 0xC124);
    assert_eq!(cpu.cycles, 36);
}

#[test]
fn inc_bc_wraps_without_touching_flags() {
    let mut cpu = Cpu::power_on(&rom_with(&[0x03]));
    cpu.registers.set_bc(0xFFFF);
    cpu.registers.f = 0xB0;
    cpu.step();
    assert_eq!(cpu.registers.bc(), 0x0000);
    assert_eq!(cpu.registers.f, 0xB0);
}

#[test]
fn ld_hl_indirect_costs_eight_cycles() {
    // LD H,0xC0; LD L,0x10; LD (HL),B; LD C,(HL)
    let mut cpu = Cpu::power_on(&rom_with(&[0x26, 0xC0, 0x2E, 0x10, 0x70, 0x4E]));
    cpu.registers.b = 0x99;
    cpu.step();
    cpu.step();
    assert_eq!(cpu.cycles, 16);
    cpu.step();
    assert_eq!(cpu.memory.read_byte(0xC010), 0x99);
    assert_eq!(cpu.cycles, 24);
    cpu.step();
    assert_eq!(cpu.registers.c, 0x99);
    assert_eq!(cpu.cycles, 32);
}

#[test]
fn alu_with_hl_operand_reads_memory() {
    // LD H,0xC0; LD L,0x00; ADD A,(HL)
    let mut cpu = Cpu::power_on(&rom_with(&[0x26, 0xC0, 0x2E, 0x00, 0x86]));
    cpu.memory.write_byte(0xC000, 0x0F);
    cpu.registers.a = 0x01;
    cpu.step();
    cpu.step();
    cpu.step();
    assert_eq!(cpu.registers.a, 0x10);
    assert!(cpu.registers.flag_half_carry());
    assert_eq!(cpu.cycles, 8 + 8 + 8);
}

#[test]
fn can_step_refuses_undefined_opcode() {
    let cpu = Cpu::power_on(&rom_with(&[0xD3]));
    assert!(!cpu.can_step());
    let ok = Cpu::power_on(&rom_with(&[0x00]));
    assert!(ok.can_step());
}

#[test]
fn register_names_and_order() {
    let names: Vec<&str> = Register::all().iter().map(|r| r.name()).collect();
    assert_eq!(names, vec!["B", "C", "D", "E", "H", "L", "A"]);
}

#[test]
fn register_set_leaves_others_and_flags() {
    let mut cpu = Cpu::new();
    cpu.registers.f = 0x50;
    Register::H.set(&mut cpu, 0x77);
    assert_eq!(Register::H.get(&cpu), 0x77);
    for r in Register::all() {
        if r != Register::H {
            assert_eq!(r.get(&cpu), 0);
        }
    }
    assert_eq!(cpu.registers.f, 0x50);
}

#[test]
fn one_frame_of_nops_is_exactly_one_frame() {
    let mut cpu = Cpu::power_on(&rom_with(&[]));
    assert!(run_one_frame(&mut cpu));
    assert_eq!(cpu.cycles, 70224);
    assert_eq!(cpu.pc as u32, 0x0100 + 70224 / 4);
}

#[test]
fn one_frame_in_double_speed_runs_twice_as_long() {
    let mut cpu = Cpu::power_on(&rom_with(&[]));
    cpu.memory.write_byte(0xFF4D, 0x01);
    assert!(cpu.memory.try_speed_switch());
    assert!(run_one_frame(&mut cpu));
    assert_eq!(cpu.cycles, 2 * 70224);
}

#[test]
fn one_frame_stops_at_undefined_opcode() {
    let mut cpu = Cpu::power_on(&rom_with(&[0x00, 0x00, 0xFD]));
    assert!(!run_one_frame(&mut cpu));
    assert_eq!(cpu.cycles, 8);
    assert_eq!(cpu.pc, 0x0102);
}

#[test]
fn headless_run_stops_at_the_verdict() {
    let mut cpu = Cpu::power_on(&rom_with(&serial_program("Passed")));
    assert_eq!(run_until_report(&mut cpu, 1_000_000), RunEnd::Reported);
    assert_eq!(cpu.memory.serial, "Passed");
    // 2 (LD H) + 6 bytes x (2 + 2 + 1 + 2 + 2 + 1) of code
    assert_eq!(cpu.pc, 0x0100 + 2 + 6 * 10);
}

#[test]
fn headless_run_reports_failures_too() {
    let mut cpu = Cpu::power_on(&rom_with(&serial_program("x Failed")));
    assert_eq!(run_until_report(&mut cpu, 1_000_000), RunEnd::Reported);
    assert_eq!(cpu.memory.serial, "x Failed");
}

#[test]
fn headless_run_hits_the_cycle_budget() {
    let mut cpu = Cpu::power_on(&rom_with(&serial_program("Pass")));
    assert_eq!(run_until_report(&mut cpu, 1000), RunEnd::CycleLimit);
    assert_eq!(cpu.cycles, 1000);
    assert_eq!(cpu.memory.serial, "Pass");
}

#[test]
fn headless_run_stops_when_stuck() {
    let mut cpu = Cpu::power_on(&rom_with(&[0x00, 0xEB]));
    assert_eq!(run_until_report(&mut cpu, 1000), RunEnd::Stuck);
    assert_eq!(cpu.cycles, 4);
}

#[test]
fn serial_verdict_detection() {
    assert!(serial_reports(&"Test 01 Passed\n".to_string()));
    assert!(serial_reports(&"Failed #3".to_string()));
    assert!(!serial_reports(&"Pass".to_string()));
    assert!(!serial_reports(&"passed".to_string()));
    assert!(!serial_reports(&String::new()));
}

#[test]
fn jp_call_ret_and_rst() {
    // 0x100: CALL 0x0110; 0x103: JP 0x0120; 0x110: RET; 0x120: RST 0x08
    let mut rom = rom_with(&[0xCD, 0x10, 0x01, 0xC3, 0x20, 0x01]);
    rom[0x110] = 0xC9;
    rom[0x120] = 0xCF;
    let mut cpu = Cpu::power_on(&rom);
    cpu.step();
    assert_eq!((cpu.pc, cpu.sp, cpu.cycles), (0x0110, 0xFFFC, 24));
    assert_eq!(cpu.memory.read_word(0xFFFC), 0x0103);
    cpu.step();
    assert_eq!((cpu.pc, cpu.sp, cpu.cycles), (0x0103, 0xFFFE, 40));
    cpu.step();
    assert_eq!((cpu.pc, cpu.cycles), (0x0120, 56));
    cpu.step();
    assert_eq!((cpu.pc, cpu.sp), (0x0008, 0xFFFC));
    assert_eq!(cpu.memory.read_word(0xFFFC), 0x0121);
}

#[test]
fn jr_conditions_and_timing() {
    // XOR A (Z set); JR NZ,+2 (not taken); JR Z,-4 (taken, back to 0x101)
    let mut cpu = Cpu::power_on(&rom_with(&[0xAF, 0x20, 0x02, 0x28, 0xFC]));
    cpu.step();
    cpu.step();
    assert_eq!((cpu.pc, cpu.cycles), (0x0103, 12));
    cpu.step();
    assert_eq!((cpu.pc, cpu.cycles), (0x0101, 24));
}

#[test]
fn push_pop_af_keeps_only_flag_bits() {
    // LD BC,0x12FF; PUSH BC; POP AF
    let mut cpu = Cpu::power_on(&rom_with(&[0x01, 0xFF, 0x12, 0xC5, 0xF1]));
    cpu.step();
    cpu.step();
    cpu.step();
    assert_eq!((cpu.registers.a, cpu.registers.f), (0x12, 0xF0));
    assert_eq!(cpu.cycles, 12 + 16 + 12);
}

#[test]
fn cb_table_bit_swap_res_set() {
    // LD B,0xF1; SWAP B; BIT 7,B; RES 4,B; SET 0,C
    let mut cpu = Cpu::power_on(&rom_with(&[0x06, 0xF1, 0xCB, 0x30, 0xCB, 0x78, 0xCB, 0xA0, 0xCB, 0xC1]));
    cpu.step();
    cpu.step();
    assert_eq!(cpu.registers.b, 0x1F);
    assert_eq!(cpu.registers.f, 0x00);
    cpu.step();
    assert!(cpu.registers.flag_zero() && cpu.registers.flag_half_carry());
    cpu.step();
    assert_eq!(cpu.registers.b, 0x0F);
    cpu.step();
    assert_eq!(cpu.registers.c, 0x01);
    assert_eq!(cpu.cycles, 8 + 4 * 8);
}

#[test]
fn daa_after_bcd_addition_and_subtraction() {
    // LD A,0x45; ADD A,0x38; DAA -> 0x83; SUB 0x05; DAA -> 0x78
    let mut cpu = Cpu::power_on(&rom_with(&[0x3E, 0x45, 0xC6, 0x38, 0x27, 0xD6, 0x05, 0x27]));
    for _ in 0..3 {
        cpu.step();
    }
    assert_eq!(cpu.registers.a, 0x83);
    cpu.step();
    cpu.step();
    assert_eq!(cpu.registers.a, 0x78);
    assert!(cpu.registers.flag_subtract());
}

#[test]
fn add_hl_and_add_sp_flags() {
    // LD HL,0x0FFF; LD BC,0x0001; ADD HL,BC; LD SP,0x00F8; ADD SP,0x08
    let mut cpu = Cpu::power_on(&rom_with(&[0x21, 0xFF, 0x0F, 0x01, 0x01, 0x00, 0x09, 0x31, 0xF8, 0x00, 0xE8, 0x08]));
    for _ in 0..3 {
        cpu.step();
    }
    assert_eq!(cpu.registers.hl(), 0x1000);
    assert!(cpu.registers.flag_half_carry() && !cpu.registers.flag_carry() && !cpu.registers.flag_subtract());
    cpu.step();
    cpu.step();
    assert_eq!(cpu.sp, 0x0100);
    assert!(cpu.registers.flag_half_carry() && cpu.registers.flag_carry() && !cpu.registers.flag_zero());
}

#[test]
fn or_clears_a_leftover_subtract_flag() {
    let mut cpu = Cpu::power_on(&rom_with(&[0xF6, 0x0F])); // OR 0x0F
    cpu.registers.a = 0xF0;
    cpu.registers.f = 0x40;
    cpu.step();
    assert_eq!((cpu.registers.a, cpu.registers.f), (0xFF, 0x00));
}

#[test]
fn interrupt_dispatch_pushes_pc_and_jumps_to_vector() {
    // EI; NOP
    let mut cpu = Cpu::power_on(&rom_with(&[0xFB, 0x00]));
    cpu.memory.write_byte(0xFFFF, 0x05);
    cpu.step(); // EI
    assert!(cpu.interrupts_enabled);
    cpu.memory.write_byte(0xFF0F, 0x14); // timer and joypad requested; timer enabled
    cpu.step();
    assert_eq!((cpu.pc, cpu.sp), (0x0050, 0xFFFC));
    assert_eq!(cpu.memory.read_word(0xFFFC), 0x0101);
    assert!(!cpu.interrupts_enabled);
    assert_eq!(cpu.memory.read_byte(0xFF0F), 0x10);
    assert_eq!(cpu.cycles, 4 + 20);
}

#[test]
fn pending_interrupt_wakes_halt_without_ime() {
    // HALT; INC A
    let mut cpu = Cpu::power_on(&rom_with(&[0x76, 0x3C]));
    cpu.step();
    assert!(cpu.halted);
    cpu.step();
    assert!(cpu.halted);
    cpu.memory.write_byte(0xFFFF, 0x01);
    cpu.memory.write_byte(0xFF0F, 0x01);
    cpu.step();
    assert!(!cpu.halted);
    assert_eq!(cpu.registers.a, 1);
    assert_eq!(cpu.memory.read_byte(0xFF0F), 0x01); // not acknowledged with IME off
}

#[test]
fn timer_interrupt_reaches_its_vector() {
    // EI, then NOPs; TIMA overflows after 16 cycles at the fastest rate
    let mut cpu = Cpu::power_on(&rom_with(&[0xFB]));
    cpu.memory.write_byte(0xFFFF, 0x04);
    cpu.memory.write_byte(0xFF05, 0xFF);
    cpu.memory.write_byte(0xFF06, 0x42);
    cpu.memory.write_byte(0xFF07, 0x05);
    for _ in 0..4 {
        cpu.step();
    }
    assert_eq!(cpu.cycles, 16);
    assert_eq!(cpu.memory.read_byte(0xFF05), 0x42);
    assert_eq!(cpu.memory.read_byte(0xFF0F) & 0x04, 0x04);
    cpu.step();
    assert_eq!(cpu.pc, 0x0050);
}

#[test]
fn div_advances_with_cycles() {
    let mut cpu = Cpu::power_on(&rom_with(&[]));
    for _ in 0..64 {
        cpu.step();
    }
    assert_eq!(cpu.cycles, 256);
    assert_eq!(cpu.memory.read_byte(0xFF04), 1);
}
