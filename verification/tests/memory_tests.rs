use gbc::memory::Memory;

#[test]
fn test_memory_read_write() {
    let mut memory = Memory::new();

    // Test WRAM (Work RAM)
    memory.write_byte(0xC000, 0x42);
    assert_eq!(memory.read_byte(0xC000), 0x42);

    memory.write_byte(0xDFFF, 0xFF);
    assert_eq!(memory.read_byte(0xDFFF), 0xFF);

    // Test HRAM (High RAM)
    memory.write_byte(0xFF80, 0x12);
    assert_eq!(memory.read_byte(0xFF80), 0x12);

    memory.write_byte(0xFFFE, 0x34);
    assert_eq!(memory.read_byte(0xFFFE), 0x34);

    // Test Interrupt Enable Register
    memory.write_byte(0xFFFF, 0b0001_1111);
    assert_eq!(memory.read_byte(0xFFFF), 0b0001_1111);
}

#[test]
fn test_echo_ram_mirrors_wram() {
    let mut memory = Memory::new();

    // Write to WRAM
    memory.write_byte(0xC000, 0xAB);

    // Read from Echo RAM (should mirror)
    assert_eq!(memory.read_byte(0xE000), 0xAB);

    // Write to Echo RAM
    memory.write_byte(0xE100, 0xCD);

    // Read from WRAM (should be mirrored)
    assert_eq!(memory.read_byte(0xC100), 0xCD)
}

#[test]
fn test_unusable_memory_returns_ff() {
    let memory = Memory::new();

    // The range 0xFEA0-0xFEFF is not usable and should return 0xFF
    for addr in 0xFEA0..=0xFEFF {
        assert_eq!(memory.read_byte(addr), 0xFF);
    }
}

#[test]
fn test_read_write_word() {
    let mut memory = Memory::new();

    // Write a 16-bit word
    memory.write_word(0xC000, 0x1234);

    // Check individual bytes (little-endian)
    assert_eq!(memory.read_byte(0xC000), 0x34); // Low byte
    assert_eq!(memory.read_byte(0xC001), 0x12); // High byte

    // Read back as word
    assert_eq!(memory.read_word(0xC000), 0x1234);
}

#[test]
fn test_rom_loading() {
    let mut memory = Memory::new();

    let rom = vec![
        0x00, 0x01, 0x02,
        0x03, // First few bytes
             // ...imagine it continues
    ];

    memory.load_rom(&rom);

    // Verify the ROM was loaded
    assert_eq!(memory.read_byte(0x0000), 0x00);
    assert_eq!(memory.read_byte(0x0001), 0x01);
    assert_eq!(memory.read_byte(0x0002), 0x02);
    assert_eq!(memory.read_byte(0x0003), 0x03);
}

#[test]
fn test_rom_is_read_only() {
    let mut memory = Memory::new();

    let rom = vec![0xAA; 0x8000]; // Fill ROM with 0xAA
    memory.load_rom(&rom);

    // Try to write to ROM
    memory.write_byte(0x0000, 0x55);

    // ROM should still contain original value
    assert_eq!(memory.read_byte(0x0000), 0xAA);
}

#[test]
fn test_joypad_nothing_pressed_reads_high() {
    let mut memory = Memory::new();
    memory.write_byte(0xFF00, 0x20); // select directions (bit4=0)
    // Nothing pressed -> low nibble all 1s.
    assert_eq!(memory.read_byte(0xFF00) & 0x0F, 0x0F);
}

#[test]
fn test_joypad_press_only_shows_in_selected_group() {
    let mut memory = Memory::new();
    memory.set_joypad(0b0001, 0b0000); // Right pressed (dpad bit 0)

    // Select directions: Right reads as 0 (pressed, active-low).
    memory.write_byte(0xFF00, 0x20); // bit4=0 dir selected, bit5=1 actions not
    assert_eq!(memory.read_byte(0xFF00) & 0x01, 0x00);

    // Select action buttons instead: the direction press must NOT appear.
    memory.write_byte(0xFF00, 0x10); // bit5=0 actions selected, bit4=1 dir not
    assert_eq!(memory.read_byte(0xFF00) & 0x0F, 0x0F);
}

#[test]
fn test_mbc1_rom_bank_switch() {
    let mut memory = Memory::new();
    // 3-bank ROM (48KB); mark each bank's first byte so we can tell them apart.
    let mut rom = vec![0u8; 0x4000 * 3];
    rom[0x0147] = 0x01; // cartridge type = MBC1
    rom[0x4000] = 0xAA; // bank 1, first byte
    rom[0x8000] = 0xBB; // bank 2, first byte
    memory.load_rom(&rom);

    // Boots with bank 1 mapped at 0x4000.
    assert_eq!(memory.read_byte(0x4000), 0xAA);

    // Switch to bank 2.
    memory.write_byte(0x2000, 0x02);
    assert_eq!(memory.read_byte(0x4000), 0xBB);

    // Requesting bank 0 maps to bank 1 (the MBC1 quirk).
    memory.write_byte(0x2000, 0x00);
    assert_eq!(memory.read_byte(0x4000), 0xAA);
}

#[test]
fn test_mbc3_rom_and_ram_banks() {
    let mut memory = Memory::new();
    // ROM big enough for bank 0x40 (65 banks); mark bank 0x40's first byte.
    let mut rom = vec![0u8; 0x4000 * 0x41];
    rom[0x0147] = 0x13; // MBC3 + RAM + battery
    rom[0x4000 * 0x40] = 0xCD; // bank 0x40, first byte
    memory.load_rom(&rom);

    // 7-bit ROM bank: 0x40 is reachable (MBC1's 5 bits couldn't).
    memory.write_byte(0x2000, 0x40);
    assert_eq!(memory.read_byte(0x4000), 0xCD);

    // RAM bank switching: write distinct bytes to banks 0 and 1.
    memory.write_byte(0x0000, 0x0A); // enable RAM
    memory.write_byte(0x4000, 0x00); // RAM bank 0
    memory.write_byte(0xA000, 0x11);
    memory.write_byte(0x4000, 0x01); // RAM bank 1
    memory.write_byte(0xA000, 0x22);

    memory.write_byte(0x4000, 0x00);
    assert_eq!(memory.read_byte(0xA000), 0x11);
    memory.write_byte(0x4000, 0x01);
    assert_eq!(memory.read_byte(0xA000), 0x22);
}

#[test]
fn test_mbc1_high_rom_banks() {
    let mut memory = Memory::new();
    let mut rom = vec![0u8; 0x4000 * 0x22]; // 34 banks so bank 0x21 exists
    rom[0x0147] = 0x01; // MBC1
    rom[0x4000 * 0x21] = 0x99; // bank 0x21
    memory.load_rom(&rom);

    // bank1 = 1 (low 5 bits), bank2 = 1 (high 2 bits) -> bank (1<<5)|1 = 0x21.
    memory.write_byte(0x2000, 0x01);
    memory.write_byte(0x4000, 0x01);
    assert_eq!(memory.read_byte(0x4000), 0x99);
}

#[test]
fn test_mbc2_bank_and_ram() {
    let mut memory = Memory::new();
    let mut rom = vec![0u8; 0x4000 * 3];
    rom[0x0147] = 0x06; // MBC2 + battery
    rom[0x4000] = 0xAA; // bank 1
    rom[0x8000] = 0xBB; // bank 2
    memory.load_rom(&rom);

    // ROM bank: address bit 8 SET selects the bank (low 4 bits).
    memory.write_byte(0x2100, 0x02);
    assert_eq!(memory.read_byte(0x4000), 0xBB);

    // RAM enable: address bit 8 CLEAR.
    memory.write_byte(0x0000, 0x0A);
    // 4-bit RAM: only the low nibble stores; high nibble reads as 1.
    memory.write_byte(0xA000, 0xAB);
    assert_eq!(memory.read_byte(0xA000), 0xFB); // 0xF0 | 0x0B
    assert_eq!(memory.read_byte(0xA200), 0xFB); // echoes every 0x200
}

#[test]
fn test_mbc5_rom_bank_no_zero_quirk() {
    let mut memory = Memory::new();
    let mut rom = vec![0u8; 0x4000 * 3];
    rom[0x0147] = 0x1B; // MBC5 + RAM + battery (Pokemon Yellow's type)
    rom[0x0000] = 0x10; // bank 0, first byte
    rom[0x4000] = 0xAA; // bank 1
    rom[0x8000] = 0xBB; // bank 2
    memory.load_rom(&rom);

    memory.write_byte(0x2000, 0x02); // select bank 2 (low byte)
    assert_eq!(memory.read_byte(0x4000), 0xBB);

    // MBC5 has NO bank-0->1 quirk: bank 0 maps to bank 0.
    memory.write_byte(0x2000, 0x00);
    assert_eq!(memory.read_byte(0x4000), 0x10);
}

#[test]
fn test_cartridge_ram_enable_gate() {
    let mut memory = Memory::new();
    let mut rom = vec![0u8; 0x8000];
    rom[0x0147] = 0x03; // MBC1 + RAM + battery
    memory.load_rom(&rom);

    // Disabled by default: writes dropped, reads return 0xFF.
    memory.write_byte(0xA000, 0x42);
    assert_eq!(memory.read_byte(0xA000), 0xFF);

    // Enable, then RAM works.
    memory.write_byte(0x0000, 0x0A);
    memory.write_byte(0xA000, 0x42);
    assert_eq!(memory.read_byte(0xA000), 0x42);

    // Disable again: data is retained but gated off (reads 0xFF).
    memory.write_byte(0x0000, 0x00);
    assert_eq!(memory.read_byte(0xA000), 0xFF);
}

#[test]
fn test_key1_speed_switch() {
    let mut memory = Memory::new();
    assert!(!memory.double_speed);
    memory.write_byte(0xFF4D, 0x01); // arm a switch
    assert!(memory.try_speed_switch());
    assert!(memory.double_speed);
    assert_eq!(memory.read_byte(0xFF4D) & 0x80, 0x80); // reports double speed
    assert!(!memory.try_speed_switch()); // nothing armed -> no switch
    assert!(memory.double_speed);
}

#[test]
fn test_hdma_copies_to_vram() {
    let mut memory = Memory::new();
    // Stage source bytes in WRAM at 0xC000.
    memory.write_byte(0xC000, 0xAB);
    memory.write_byte(0xC00F, 0xCD);
    // Source = 0xC000, dest = 0x8000, length = 1 block (0x10 bytes).
    memory.write_byte(0xFF51, 0xC0);
    memory.write_byte(0xFF52, 0x00);
    memory.write_byte(0xFF53, 0x00);
    memory.write_byte(0xFF54, 0x00);
    memory.write_byte(0xFF55, 0x00); // trigger, length = (0+1)*0x10

    assert_eq!(memory.read_byte(0x8000), 0xAB);
    assert_eq!(memory.read_byte(0x800F), 0xCD);
    assert_eq!(memory.read_byte(0xFF55), 0xFF); // reports done
}

#[test]
fn test_wram_banking() {
    let mut memory = Memory::new();
    // Bank 0 (0xC000) is fixed; 0xD000 is the switchable bank.
    memory.write_byte(0xFF70, 1); // WRAM bank 1
    memory.write_byte(0xD000, 0x11);
    memory.write_byte(0xFF70, 2); // WRAM bank 2
    memory.write_byte(0xD000, 0x22);

    assert_eq!(memory.read_byte(0xD000), 0x22); // bank 2
    memory.write_byte(0xFF70, 1);
    assert_eq!(memory.read_byte(0xD000), 0x11); // bank 1 preserved
}

#[test]
fn test_vram_banking() {
    let mut memory = Memory::new();
    memory.write_byte(0xFF4F, 0); // select VRAM bank 0
    memory.write_byte(0x8000, 0x11);
    memory.write_byte(0xFF4F, 1); // select VRAM bank 1
    memory.write_byte(0x8000, 0x22);

    assert_eq!(memory.read_byte(0x8000), 0x22); // bank 1's value
    memory.write_byte(0xFF4F, 0);
    assert_eq!(memory.read_byte(0x8000), 0x11); // bank 0 preserved independently
}

#[test]
fn test_cgb_bg_palette_autoincrement() {
    let mut memory = Memory::new();
    memory.write_byte(0xFF68, 0x80); // index 0, auto-increment enabled
    memory.write_byte(0xFF69, 0xAA); // -> palette byte 0, index advances to 1
    memory.write_byte(0xFF69, 0xBB); // -> palette byte 1, index advances to 2

    memory.write_byte(0xFF68, 0x00); // point at index 0 (no auto-increment)
    assert_eq!(memory.read_byte(0xFF69), 0xAA);
    memory.write_byte(0xFF68, 0x01);
    assert_eq!(memory.read_byte(0xFF69), 0xBB);
}

#[test]
fn test_oam_dma_copies_to_oam() {
    let mut memory = Memory::new();
    // Stage a sprite table in WRAM at 0xC000.
    memory.write_byte(0xC000, 0x42);
    memory.write_byte(0xC09F, 0x99); // last of the 160 bytes

    memory.write_byte(0xFF46, 0xC0); // trigger DMA from 0xC000

    assert_eq!(memory.read_byte(0xFE00), 0x42); // first OAM byte
    assert_eq!(memory.read_byte(0xFE9F), 0x99); // last OAM byte
}
