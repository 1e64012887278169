use gbc::memory::{rgb555_to_rgb888, Memory};

fn cart(kind: u8, banks: usize) -> Memory {
    let mut rom = vec![0u8; 0x4000 * banks];
    rom[0x0147] = kind;
    for b in 0..banks {
        rom[b * 0x4000 + 1] = b as u8;
    }
    let mut memory = Memory::new();
    memory.load_rom(&rom);
    memory
}

#[test]
fn power_on_io_defaults() {
    let memory = Memory::new();
    assert_eq!(memory.read_byte(0xFF40), 0x91);
    assert_eq!(memory.read_byte(0xFF47), 0xFC);
    assert_eq!(memory.read_byte(0xFF48), 0xFF);
    assert_eq!(memory.read_byte(0xFF49), 0xFF);
    assert_eq!(memory.read_byte(0xFF41), 0x00);
    // joypad: nothing selected, nothing pressed
    assert_eq!(memory.read_byte(0xFF00), 0xFF);
    // bank registers read their unused bits as 1
    assert_eq!(memory.read_byte(0xFF4F), 0xFE);
    assert_eq!(memory.read_byte(0xFF70), 0xF9);
    assert_eq!(memory.read_byte(0xFF4D), 0x7E);
    assert_eq!(memory.read_byte(0xFF55), 0xFF);
}

#[test]
fn empty_rom_reads_ff() {
    let memory = Memory::new();
    assert_eq!(memory.read_byte(0x0000), 0xFF);
    assert_eq!(memory.read_byte(0x4000), 0xFF);
    assert_eq!(memory.read_byte(0x7FFF), 0xFF);
}

#[test]
fn echo_write_reaches_wram_and_echo_reads_wram() {
    let mut memory = Memory::new();
    memory.write_byte(0xDDFF, 0x5A);
    assert_eq!(memory.read_byte(0xFDFF), 0x5A);
    memory.write_byte(0xFD00, 0x77);
    assert_eq!(memory.read_byte(0xDD00), 0x77);
}

#[test]
fn wram_writes_touch_only_their_cell() {
    let mut memory = Memory::new();
    memory.write_byte(0xC010, 0x01);
    memory.write_byte(0xC011, 0x02);
    assert_eq!(memory.read_byte(0xC010), 0x01);
    assert_eq!(memory.read_byte(0xC011), 0x02);
    assert_eq!(memory.read_byte(0xC012), 0x00);
}

#[test]
fn oam_and_ie_read_back() {
    let mut memory = Memory::new();
    memory.write_byte(0xFE00, 0x10);
    memory.write_byte(0xFE9F, 0x20);
    memory.write_byte(0xFFFF, 0x1F);
    assert_eq!(memory.read_byte(0xFE00), 0x10);
    assert_eq!(memory.read_byte(0xFE9F), 0x20);
    assert_eq!(memory.read_byte(0xFFFF), 0x1F);
    // unusable region stays 0xFF even after a write
    memory.write_byte(0xFEA0, 0x12);
    assert_eq!(memory.read_byte(0xFEA0), 0xFF);
}

#[test]
fn word_round_trip_in_hram_and_wrap_at_top() {
    let mut memory = Memory::new();
    memory.write_word(0xFF80, 0xBEEF);
    assert_eq!(memory.read_byte(0xFF80), 0xEF);
    assert_eq!(memory.read_byte(0xFF81), 0xBE);
    assert_eq!(memory.read_word(0xFF80), 0xBEEF);
    // the high byte of a word at 0xFFFF lands at 0x0000 (ROM: ignored)
    memory.write_word(0xFFFF, 0x1234);
    assert_eq!(memory.read_byte(0xFFFF), 0x34);
}

#[test]
fn rom_writes_without_mbc_change_nothing() {
    let mut memory = cart(0x00, 2);
    memory.write_byte(0x2000, 0x05);
    assert_eq!(memory.read_byte(0x4001), 1);
    memory.write_byte(0x0000, 0x0A);
    memory.write_byte(0xA000, 0x42);
    assert_eq!(memory.read_byte(0xA000), 0xFF);
}

#[test]
fn mbc1_ram_banking_mode_selects_ram_bank() {
    let mut memory = cart(0x03, 4);
    memory.write_byte(0x0000, 0x0A);
    memory.write_byte(0x6000, 0x01); // RAM banking mode
    memory.write_byte(0x4000, 0x02); // bank2 = 2 -> RAM bank 2
    memory.write_byte(0xA000, 0x99);
    memory.write_byte(0x4000, 0x00); // RAM bank 0
    assert_eq!(memory.read_byte(0xA000), 0x00);
    memory.write_byte(0x4000, 0x02);
    assert_eq!(memory.read_byte(0xA000), 0x99);
    // ROM banking mode maps RAM bank 0 again
    memory.write_byte(0x6000, 0x00);
    assert_eq!(memory.read_byte(0xA000), 0x00);
}

#[test]
fn mbc1_bank_outside_rom_reads_ff() {
    let mut memory = cart(0x01, 2);
    memory.write_byte(0x2000, 0x05);
    assert_eq!(memory.read_byte(0x4000), 0xFF);
}

#[test]
fn mbc3_rtc_select_keeps_ram_bank() {
    let mut memory = cart(0x13, 2);
    memory.write_byte(0x0000, 0x0A);
    memory.write_byte(0x4000, 0x02);
    memory.write_byte(0xA000, 0x44);
    memory.write_byte(0x4000, 0x08); // RTC register: ignored
    assert_eq!(memory.read_byte(0xA000), 0x44);
    // bank 0 request maps to 1
    memory.write_byte(0x2000, 0x00);
    assert_eq!(memory.read_byte(0x4001), 1);
}

#[test]
fn mbc5_ninth_bank_bit() {
    let mut memory = cart(0x19, 3);
    memory.write_byte(0x2000, 0x02);
    memory.write_byte(0x3000, 0x01); // bank 0x102: past the ROM
    assert_eq!(memory.read_byte(0x4001), 0xFF);
    memory.write_byte(0x3000, 0x00); // back to bank 2
    assert_eq!(memory.read_byte(0x4001), 2);
}

#[test]
fn mbc2_ram_is_four_bits_and_echoes() {
    let mut memory = cart(0x05, 2);
    memory.write_byte(0x0000, 0x0A); // bit 8 clear: RAM enable
    memory.write_byte(0xA1FF, 0x3C);
    assert_eq!(memory.read_byte(0xA1FF), 0xFC);
    assert_eq!(memory.read_byte(0xBFFF), 0xFC);
    // bank 0 request maps to bank 1
    memory.write_byte(0x2100, 0x00);
    assert_eq!(memory.read_byte(0x4001), 1);
}

#[test]
fn cart_ram_disabled_ignores_writes_and_keeps_data() {
    let mut memory = cart(0x03, 2);
    memory.write_byte(0x0000, 0x0A);
    memory.write_byte(0xA123, 0x66);
    memory.write_byte(0x0000, 0x00);
    memory.write_byte(0xA123, 0x11); // dropped
    memory.write_byte(0x0000, 0x0A);
    assert_eq!(memory.read_byte(0xA123), 0x66);
}

#[test]
fn cgb_flag_and_battery_from_header() {
    let mut rom = vec![0u8; 0x8000];
    rom[0x0143] = 0xC0;
    rom[0x0147] = 0x1B;
    let mut memory = Memory::new();
    memory.load_rom(&rom);
    assert!(memory.is_cgb());
    assert!(memory.has_battery());
    let plain = cart(0x01, 2);
    assert!(!plain.is_cgb());
    assert!(!plain.has_battery());
    for kind in [0x03u8, 0x06, 0x09, 0x0D, 0x0F, 0x10, 0x13, 0x1B, 0x1E] {
        assert!(cart(kind, 2).has_battery());
    }
    for kind in [0x00u8, 0x01, 0x02, 0x05, 0x11, 0x12, 0x19, 0x1A] {
        assert!(!cart(kind, 2).has_battery());
    }
}

#[test]
fn short_rom_header_defaults() {
    let mut memory = Memory::new();
    memory.load_rom(&[0x12, 0x34]);
    assert!(!memory.is_cgb());
    assert!(!memory.has_battery());
    assert_eq!(memory.read_byte(0x0001), 0x34);
    assert_eq!(memory.read_byte(0x0002), 0xFF);
}

#[test]
fn load_ram_copies_a_prefix_and_snapshot_reports_it() {
    let mut memory = cart(0x03, 2);
    memory.load_ram(&[1, 2, 3]);
    let snap = memory.ram_snapshot();
    assert_eq!(snap.len(), 0x8000);
    assert_eq!(&snap[0..4], &[1, 2, 3, 0]);
    memory.write_byte(0x0000, 0x0A);
    assert_eq!(memory.read_byte(0xA002), 3);
    // a save longer than the RAM is cut to its size
    memory.load_ram(&vec![9u8; 0x9000]);
    assert_eq!(memory.ram_snapshot()[0x7FFF], 9);
}

#[test]
fn joypad_reads_both_groups_when_both_selected() {
    let mut memory = Memory::new();
    memory.set_joypad(0b0001, 0b1000); // Right + Start
    memory.write_byte(0xFF00, 0x00); // both groups selected
    assert_eq!(memory.read_byte(0xFF00), 0xC0 | 0b0110);
    memory.write_byte(0xFF00, 0x30); // none selected
    assert_eq!(memory.read_byte(0xFF00), 0xFF);
    // only the low nibble of a press mask counts
    memory.set_joypad(0xF2, 0x00);
    memory.write_byte(0xFF00, 0x20);
    assert_eq!(memory.read_byte(0xFF00), 0xE0 | 0b1101);
}

#[test]
fn key1_arm_reads_back_and_switch_disarms() {
    let mut memory = Memory::new();
    memory.write_byte(0xFF4D, 0x01);
    assert_eq!(memory.read_byte(0xFF4D), 0x7F);
    assert!(memory.try_speed_switch());
    assert_eq!(memory.read_byte(0xFF4D), 0xFE);
    memory.write_byte(0xFF4D, 0x01);
    assert!(memory.try_speed_switch());
    assert!(!memory.double_speed);
}

#[test]
fn wram_bank_zero_selects_one() {
    let mut memory = Memory::new();
    memory.write_byte(0xFF70, 1);
    memory.write_byte(0xD000, 0x31);
    memory.write_byte(0xFF70, 0);
    assert_eq!(memory.read_byte(0xFF70), 0xF9);
    assert_eq!(memory.read_byte(0xD000), 0x31);
    memory.write_byte(0xFF70, 7);
    assert_eq!(memory.read_byte(0xD000), 0x00);
    // bank 0 at 0xC000 is shared by every selection
    memory.write_byte(0xC000, 0x55);
    memory.write_byte(0xFF70, 3);
    assert_eq!(memory.read_byte(0xC000), 0x55);
}

#[test]
fn vram_read_ignores_the_selected_bank() {
    let mut memory = Memory::new();
    memory.write_byte(0xFF4F, 1);
    memory.write_byte(0x8010, 0xAB);
    memory.write_byte(0xFF4F, 0);
    assert_eq!(memory.vram_read(1, 0x8010), 0xAB);
    assert_eq!(memory.vram_read(0, 0x8010), 0x00);
    assert_eq!(memory.read_byte(0xFF4F), 0xFE);
}

#[test]
fn palette_index_wraps_and_obj_palette_colors() {
    let mut memory = Memory::new();
    memory.write_byte(0xFF68, 0xBF); // index 63, auto-increment
    memory.write_byte(0xFF69, 0x11);
    assert_eq!(memory.read_byte(0xFF68), 0x80); // wrapped to 0, bit 7 kept
    memory.write_byte(0xFF6A, 0x82); // OBJ palette 0, color 1
    memory.write_byte(0xFF6B, 0x1F); // red = 31
    memory.write_byte(0xFF6B, 0x00);
    assert_eq!(memory.cgb_obj_color(0, 1), (0xFF, 0, 0));
    assert_eq!(memory.read_byte(0xFF6A), 0x84);
    memory.write_byte(0xFF6A, 0x02);
    assert_eq!(memory.read_byte(0xFF6B), 0x1F);
}

#[test]
fn cgb_bg_color_combines_two_bytes() {
    let mut memory = Memory::new();
    memory.write_byte(0xFF68, 0x80 | 8); // palette 1, color 0
    memory.write_byte(0xFF69, 0xE0); // low byte: green low bits
    memory.write_byte(0xFF69, 0x7F); // high byte
    assert_eq!(memory.cgb_bg_color(1, 0), (0x00, 0xFF, 0xFF));
}

#[test]
fn rgb555_exact_values() {
    assert_eq!(rgb555_to_rgb888(0x0000), (0, 0, 0));
    assert_eq!(rgb555_to_rgb888(0x7FFF), (0xFF, 0xFF, 0xFF));
    assert_eq!(rgb555_to_rgb888(0x001F), (0xFF, 0, 0));
    assert_eq!(rgb555_to_rgb888(0x03E0), (0, 0xFF, 0));
    assert_eq!(rgb555_to_rgb888(0x7C00), (0, 0, 0xFF));
    // 10 -> (10 << 3) | (10 >> 2) = 80 | 2 = 82
    assert_eq!(rgb555_to_rgb888(10 | (1 << 5) | (16 << 10)), (82, 8, 132));
}

#[test]
fn oam_dma_from_rom_and_register_readable() {
    let mut rom = vec![0u8; 0x8000];
    for i in 0..0xA0usize {
        rom[0x1200 + i] = i as u8;
    }
    let mut memory = Memory::new();
    memory.load_rom(&rom);
    memory.write_byte(0xFF46, 0x12);
    assert_eq!(memory.read_byte(0xFE00), 0);
    assert_eq!(memory.read_byte(0xFE50), 0x50);
    assert_eq!(memory.read_byte(0xFE9F), 0x9F);
    assert_eq!(memory.read_byte(0xFF46), 0x12);
}

#[test]
fn hdma_length_destination_and_bank() {
    let mut memory = Memory::new();
    for i in 0..0x20u16 {
        memory.write_byte(0xC100 + i, i as u8 + 1);
    }
    memory.write_byte(0xFF4F, 1); // VRAM bank 1
    memory.write_byte(0xFF51, 0xC1);
    memory.write_byte(0xFF52, 0x0F); // low nibble ignored
    memory.write_byte(0xFF53, 0xE1); // top bits ignored: dest 0x8100
    memory.write_byte(0xFF54, 0x00);
    memory.write_byte(0xFF55, 0x01); // 2 blocks = 32 bytes
    assert_eq!(memory.read_byte(0x8100), 1);
    assert_eq!(memory.read_byte(0x811F), 0x20);
    assert_eq!(memory.vram_read(0, 0x8100), 0);
    assert_eq!(memory.vram_read(1, 0x8100), 1);
}

#[test]
fn serial_transfer_logs_sb() {
    let mut memory = Memory::new();
    memory.write_byte(0xFF01, b'O');
    memory.write_byte(0xFF02, 0x81);
    memory.write_byte(0xFF01, b'K');
    memory.write_byte(0xFF02, 0x01); // bit 7 clear: no transfer
    memory.write_byte(0xFF02, 0x80);
    assert_eq!(memory.serial, "OK");
    assert_eq!(memory.read_byte(0xFF02), 0x80);
}

#[test]
fn trace_mode_stubs_ly() {
    let mut memory = Memory::new();
    memory.write_byte(0xFF44, 0x12);
    assert_eq!(memory.read_byte(0xFF44), 0x12);
    memory.trace = true;
    assert_eq!(memory.read_byte(0xFF44), 0x90);
}

#[test]
fn audio_registers_reach_the_apu() {
    let mut memory = Memory::new();
    assert_eq!(memory.read_byte(0xFF26), 0xF0);
    memory.write_byte(0xFF30, 0xA5);
    assert_eq!(memory.read_byte(0xFF30), 0xA5);
    assert_eq!(memory.read_byte(0xFF11), 0xFF);
    memory.write_byte(0xFF26, 0x00);
    assert_eq!(memory.read_byte(0xFF26), 0x70);
}

#[test]
fn vram_dma_source_wraps_past_ffff() {
    let mut memory = Memory::new();
    memory.write_byte(0xFFF0, 0x12);
    memory.write_byte(0xFFFE, 0x34);
    memory.write_byte(0xFF51, 0xFF);
    memory.write_byte(0xFF52, 0xF0); // source 0xFFF0
    memory.write_byte(0xFF55, 0x01); // 32 bytes: 0xFFF0-0xFFFF, then 0x0000-0x000F
    assert_eq!(memory.read_byte(0x8000), 0x12);
    assert_eq!(memory.read_byte(0x800E), 0x34);
    assert_eq!(memory.read_byte(0x8010), 0xFF); // no cartridge: ROM reads 0xFF
}

#[test]
fn div_is_the_high_byte_of_the_counter() {
    let mut memory = Memory::new();
    assert_eq!(memory.read_byte(0xFF04), 0);
    memory.tick_timer(255);
    assert_eq!(memory.read_byte(0xFF04), 0);
    memory.tick_timer(1);
    assert_eq!(memory.read_byte(0xFF04), 1);
    memory.write_byte(0xFF04, 0x00); // writes do not reset the counter
    assert_eq!(memory.read_byte(0xFF04), 1);
}

#[test]
fn tima_counts_at_the_tac_rate_and_reloads_from_tma() {
    let mut memory = Memory::new();
    memory.write_byte(0xFF05, 0xFE); // TIMA
    memory.write_byte(0xFF06, 0x80); // TMA
    memory.write_byte(0xFF07, 0x05); // enabled, every 16 cycles
    memory.tick_timer(16);
    assert_eq!(memory.read_byte(0xFF05), 0xFF);
    assert_eq!(memory.read_byte(0xFF0F) & 0x04, 0);
    memory.tick_timer(16);
    assert_eq!(memory.read_byte(0xFF05), 0x80);
    assert_eq!(memory.read_byte(0xFF0F) & 0x04, 0x04);
    memory.write_byte(0xFF07, 0x01); // stopped
    memory.tick_timer(64);
    assert_eq!(memory.read_byte(0xFF05), 0x80);
}

#[test]
fn image_round_trip_restores_memory() {
    let mut memory = cart(0x1B, 3);
    memory.write_byte(0x0000, 0x0A);
    memory.write_byte(0xA010, 0x3C);
    memory.write_byte(0xC123, 0x42);
    memory.write_byte(0xFF30, 0x9A);
    memory.write_byte(0x2000, 0x02);
    let image = memory.to_image();
    let restored = Memory::from_image(image).expect("valid image");
    assert_eq!(restored.read_byte(0xA010), 0x3C);
    assert_eq!(restored.read_byte(0xC123), 0x42);
    assert_eq!(restored.read_byte(0xFF30), 0x9A);
    assert_eq!(restored.read_byte(0x4001), 2);
    let mut bad = memory.to_image();
    bad.vram.pop();
    assert!(Memory::from_image(bad).is_none());
    let mut bad = memory.to_image();
    bad.svbk = 0;
    assert!(Memory::from_image(bad).is_none());
}

#[test]
fn joypad_reads_only_selected_group_active_low() {
    let mut memory = Memory::new();
    assert_eq!(memory.read_byte(0xFF00), 0xFF); // nothing selected, nothing pressed
    memory.set_joypad(0b0001, 0b1000); // Right, Start
    memory.write_byte(0xFF00, 0x20); // directions selected
    assert_eq!(memory.read_byte(0xFF00), 0xE0 | 0x0E);
    memory.write_byte(0xFF00, 0x10); // actions selected
    assert_eq!(memory.read_byte(0xFF00), 0xD0 | 0x07);
    memory.write_byte(0xFF00, 0x30);
    assert_eq!(memory.read_byte(0xFF00), 0xFF);
}
