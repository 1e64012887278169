use gbc::apu::{Noise, Square, Wave};

#[test]
fn test_square_produces_a_waveform() {
    let mut ch = Square::default();
    ch.write_nrx1(0x80);
    ch.write_nrx2(0xF0);
    ch.write_nrx3(0x00);
    ch.write_nrx4(0x87);
    assert!(ch.enabled);
    let mut saw_high = false;
    let mut saw_low = false;
    for _ in 0..64 {
        ch.step(64);
        if ch.sample() == 0 {
            saw_low = true;
        } else {
            saw_high = true;
        }
    }
    assert!(saw_high && saw_low);
}

#[test]
fn test_length_counter_disables_channel() {
    let mut ch = Square::default();
    ch.write_nrx2(0xF0);
    ch.write_nrx1(0x3F);
    ch.write_nrx4(0xC7);
    assert!(ch.enabled);
    ch.clock_length();
    assert!(!ch.enabled);
}

#[test]
fn test_sweep_disables_on_overflow() {
    let mut ch = Square::default();
    ch.write_nrx2(0xF0); // DAC on
    ch.freq = 2000;
    ch.write_nr10(0x11); // period 1, increase, shift 1
    ch.write_nrx4(0x87); // trigger
    // 2000 + (2000 >> 1) = 3000 > 2047 -> overflow disables the channel.
    ch.clock_sweep();
    assert!(!ch.enabled);
}

#[test]
fn test_wave_plays_ram_samples() {
    let mut ch = Wave::default();
    ch.write_nr30(0x80); // DAC on
    ch.ram[0] = 0xF0; // first two nibbles: 0xF, 0x0
    ch.write_nr32(0x20); // volume 100%
    ch.write_nr34(0x80); // trigger
    assert_eq!(ch.sample(), 0xF); // pos 0 -> high nibble
    ch.step((2048 - ch.freq as i32) * 2); // advance one sample
    assert_eq!(ch.sample(), 0x0); // pos 1 -> low nibble
}

#[test]
fn test_noise_generates_bits() {
    let mut ch = Noise::default();
    ch.write_nr42(0xF0); // volume 15
    ch.write_nr43(0x00); // fastest-ish
    ch.write_nr44(0x80); // trigger
    assert!(ch.enabled);
    let mut changed = false;
    let first = ch.sample();
    for _ in 0..64 {
        ch.step(64);
        if ch.sample() != first {
            changed = true;
        }
    }
    assert!(changed, "noise output should vary");
}

