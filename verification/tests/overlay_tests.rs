use gbc::apu::Apu;
use gbc::cpu::Cpu;
use gbc::overlay::{debug_lines, font3x5, text_pixels};

#[test]
fn debug_panel_text() {
    let mut cpu = Cpu::new();
    cpu.registers.a = 0x01;
    cpu.registers.f = 0xB0;
    cpu.registers.b = 0x00;
    cpu.registers.c = 0x13;
    cpu.registers.d = 0xDE;
    cpu.registers.e = 0xAD;
    cpu.registers.h = 0x4F;
    cpu.registers.l = 0x0A;
    cpu.memory.write_byte(0xFF40, 0x91);
    cpu.memory.write_byte(0xFF44, 0x42);
    let lines = debug_lines(&cpu, 100);
    assert_eq!(
        lines,
        vec![
            "SPD 100%".to_string(),
            "PC 0100 SP FFFE".to_string(),
            "AF 01B0 BC 0013".to_string(),
            "DE DEAD HL 4F0A".to_string(),
            "LY 42 LCDC 91".to_string(),
        ]
    );
    assert_eq!(debug_lines(&cpu, 0)[0], "SPD 0%");
    assert_eq!(debug_lines(&cpu, 4_294_967_295)[0], "SPD 4294967295%");
}

#[test]
fn text_pixels_match_the_font() {
    let px = text_pixels("1 -");
    // '1' = 010 110 010 010 111 at columns 0-2
    let one: Vec<(usize, usize)> = vec![(1, 0), (0, 1), (1, 1), (1, 2), (1, 3), (0, 4), (1, 4), (2, 4)];
    // ' ' is blank; '-' lights its middle row at columns 8-10
    let dash: Vec<(usize, usize)> = vec![(8, 2), (9, 2), (10, 2)];
    let mut expected = one;
    expected.extend(dash);
    assert_eq!(px, expected);
}

#[test]
fn text_pixels_count_every_lit_bit() {
    let text = "GBC 0:9";
    let lit: u32 = text.chars().map(|c| font3x5(c).iter().map(|r| r.count_ones()).sum::<u32>()).sum();
    assert_eq!(text_pixels(text).len() as u32, lit);
    assert!(text_pixels("").is_empty());
}

#[test]
fn channel_levels_report_each_channel() {
    let mut apu = Apu::new();
    assert_eq!(apu.channel_levels(), [0, 0, 0, 0]);
    apu.write_reg(0xFF30, 0xF0);
    apu.write_reg(0xFF1A, 0x80);
    apu.write_reg(0xFF1C, 0x40); // 50% volume
    apu.write_reg(0xFF1E, 0x80);
    assert_eq!(apu.channel_levels(), [0, 0, 7, 0]);
}

#[test]
fn step_fits_guards_the_timers() {
    let mut apu = Apu::new();
    assert!(apu.step_fits(10_000));
    apu.step(100);
    assert!(apu.step_fits(u32::MAX - 100));
    assert!(!apu.step_fits(u32::MAX - 50));
}
