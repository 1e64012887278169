use gbc::apu::{Apu, Noise};

/// An audio unit with wave RAM byte 0 = 0xF0 and channel 3 triggered at full
/// volume, so the wave channel outputs level 15 and the others are silent.
fn wave_at_full_level() -> Apu {
    let mut apu = Apu::new();
    apu.write_reg(0xFF30, 0xF0);
    apu.write_reg(0xFF1A, 0x80); // DAC on
    apu.write_reg(0xFF1C, 0x20); // 100% volume
    apu.write_reg(0xFF1E, 0x80); // trigger
    apu
}

#[test]
fn nr52_reports_power_and_channels() {
    let mut apu = Apu::new();
    assert_eq!(apu.read_reg(0xFF26), 0xF0);
    apu = wave_at_full_level();
    assert_eq!(apu.read_reg(0xFF26), 0xF4);
    apu.write_reg(0xFF26, 0x00);
    assert_eq!(apu.read_reg(0xFF26), 0x74);
}

#[test]
fn wave_ram_reads_back_and_other_registers_read_ff() {
    let mut apu = Apu::new();
    apu.write_reg(0xFF3A, 0x5C);
    assert_eq!(apu.read_reg(0xFF3A), 0x5C);
    assert_eq!(apu.read_reg(0xFF3B), 0x00);
    apu.write_reg(0xFF11, 0x80);
    assert_eq!(apu.read_reg(0xFF11), 0xFF);
    assert_eq!(apu.read_reg(0xFF24), 0xFF);
}

#[test]
fn mix_levels_follow_routing_and_master_volume() {
    let mut apu = wave_at_full_level();
    // Power-on routing sends every channel both ways at volume 7.
    assert_eq!(apu.mix_levels(), (15 * 8, 15 * 8));
    apu.write_reg(0xFF24, 0x30); // left volume 3, right volume 0
    assert_eq!(apu.mix_levels(), (15 * 4, 15));
    apu.write_reg(0xFF25, 0x40); // channel 3 to the left only
    assert_eq!(apu.mix_levels(), (60, 0));
    apu.write_reg(0xFF26, 0x00); // power off
    assert_eq!(apu.mix_levels(), (0, 0));
}

#[test]
fn mix_levels_silent_without_triggered_channels() {
    let apu = Apu::new();
    assert_eq!(apu.mix_levels(), (0, 0));
}

#[test]
fn noise_period_from_divisor_and_shift() {
    let mut ch = Noise::default();
    assert_eq!(ch.period(), 8);
    ch.divisor_code = 3;
    ch.clock_shift = 2;
    assert_eq!(ch.period(), 48 * 4);
    ch.divisor_code = 7;
    ch.clock_shift = 15;
    assert_eq!(ch.period(), 112 * 32768);
}

#[test]
fn frame_sequencer_clocks_length_every_other_step() {
    let mut apu = Apu::new();
    apu.write_reg(0xFF12, 0xF0); // channel 1 DAC on
    apu.write_reg(0xFF11, 0x3E); // length 2
    apu.write_reg(0xFF14, 0xC0); // trigger with length enabled
    assert_eq!(apu.read_reg(0xFF26) & 0x01, 0x01);
    apu.step(8192); // step 0: length 2 -> 1
    assert_eq!(apu.read_reg(0xFF26) & 0x01, 0x01);
    apu.step(8192); // step 1: nothing
    assert_eq!(apu.read_reg(0xFF26) & 0x01, 0x01);
    apu.step(8192); // step 2: length 1 -> 0, channel off
    assert_eq!(apu.read_reg(0xFF26) & 0x01, 0x00);
}

#[test]
fn image_round_trip_keeps_the_unit() {
    let apu = wave_at_full_level();
    let back = Apu::from_image(apu.to_image()).expect("a valid image");
    assert_eq!(back.read_reg(0xFF26), apu.read_reg(0xFF26));
    assert_eq!(back.mix_levels(), apu.mix_levels());
}

#[test]
fn image_with_out_of_range_field_is_refused() {
    let mut img = Apu::new().to_image();
    img.ch1.freq = 3000;
    assert!(Apu::from_image(img).is_none());
    let mut img = Apu::new().to_image();
    img.fs_step = 8;
    assert!(Apu::from_image(img).is_none());
}

#[test]
fn wave_ram_and_master_enable_read_back_across_steps() {
    let mut apu = Apu::new();
    apu.write_reg(0xFF34, 0xA5);
    apu.write_reg(0xFF26, 0x00);
    for _ in 0..10 {
        apu.step(5000);
    }
    assert_eq!(apu.read_reg(0xFF34), 0xA5);
    assert_eq!(apu.read_reg(0xFF26) & 0x80, 0x00);
    apu.write_reg(0xFF26, 0x80);
    apu.step(9000);
    assert_eq!(apu.read_reg(0xFF26) & 0x80, 0x80);
    assert_eq!(apu.read_reg(0xFF13), 0xFF);
}
