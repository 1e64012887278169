//! Audio processing unit: the integer side of the four sound channels
//! (square + sweep, square, wave, noise), their registers at 0xFF10-0xFF3F
//! and the 512 Hz frame sequencer that clocks length, sweep and envelope.
use vstd::prelude::*;
use crate::bits::{lemma_byte_fields, lemma_low_bits, lemma_shr_le, lemma_shr_le_u8};

verus! {

/// Cycles between two frame-sequencer ticks (512 Hz at 4 MiHz).
pub const FRAME_SEQ_PERIOD: u32 = 8192;

/// The four duty patterns (12.5%, 25%, 50%, 75%), eight steps each, 1 = high.
#[verifier::opaque]
pub open spec fn duty_table() -> Seq<Seq<u8>> {
    seq![
        seq![0u8, 0, 0, 0, 0, 0, 0, 1],
        seq![1u8, 0, 0, 0, 0, 0, 0, 1],
        seq![1u8, 0, 0, 0, 0, 1, 1, 1],
        seq![0u8, 1, 1, 1, 1, 1, 1, 0],
    ]
}

/// The noise divisors selected by the low three bits of NR43.
pub open spec fn noise_divisor(code: u8) -> i32 {
    if code == 0 { 8 } else { (code as int * 16) as i32 }
}

/// How many times a channel timer that stands at `t` after subtracting the
/// elapsed cycles has to be reloaded with `p` until it is positive again.
pub open spec fn reloads(t: int, p: int) -> nat {
    if t > 0 { 0 } else { ((-t) / p + 1) as nat }
}

/// Envelope volume after one envelope step.
pub open spec fn envelope_step(volume: u8, add: bool) -> u8 {
    if add && volume < 15 { (volume + 1) as u8 }
    else if !add && volume > 0 { (volume - 1) as u8 }
    else { volume }
}

proof fn lemma_reloads(t: int, p: int)
    requires
        p > 0,
        t <= 0,
    ensures
        reloads(t, p) >= 1,
        t + reloads(t, p) * p > 0,
        t + reloads(t, p) * p <= p,
        forall|k: int| 0 <= k < reloads(t, p) ==> #[trigger] (t + k * p) <= 0,
{
    let q = (-t) / p;
    let r = (-t) % p;
    assert(-t == p * q + r && 0 <= r < p) by (nonlinear_arith)
        requires p > 0, q == (-t) / p, r == (-t) % p;
    assert(q >= 0) by (nonlinear_arith)
        requires p > 0, -t >= 0, q == (-t) / p;
    assert(t + (q + 1) * p == p - r) by (nonlinear_arith)
        requires -t == p * q + r;
    assert forall|k: int| 0 <= k < reloads(t, p) implies #[trigger] (t + k * p) <= 0 by {
        assert(k <= q);
        assert(t + k * p <= 0) by (nonlinear_arith)
            requires k <= q, p > 0, -t == p * q + r, r >= 0;
    }
}

/// A square-wave channel. Channel 1 also uses the sweep fields; channel 2
/// leaves them at zero.
#[derive(Clone)]
pub struct Square {
    pub enabled: bool,
    pub freq: u16,
    pub freq_timer: i32,
    pub duty: u8,
    pub duty_pos: usize,
    pub length_counter: u8,
    pub length_enabled: bool,
    pub env_initial: u8,
    pub env_add: bool,
    pub env_period: u8,
    pub env_timer: u8,
    pub volume: u8,
    pub sweep_period: u8,
    pub sweep_negate: bool,
    pub sweep_shift: u8,
    pub sweep_timer: u8,
    pub sweep_enabled: bool,
    pub sweep_shadow: u16,
}

impl Default for Square {
    fn default() -> (r: Self)
        ensures
            r == Square::zeroed(),
    {
        Square {
            enabled: false,
            freq: 0,
            freq_timer: 0,
            duty: 0,
            duty_pos: 0,
            length_counter: 0,
            length_enabled: false,
            env_initial: 0,
            env_add: false,
            env_period: 0,
            env_timer: 0,
            volume: 0,
            sweep_period: 0,
            sweep_negate: false,
            sweep_shift: 0,
            sweep_timer: 0,
            sweep_enabled: false,
            sweep_shadow: 0,
        }
    }
}

impl Square {
    /// A channel with every field at zero / false.
    pub open spec fn zeroed() -> Square {
        Square {
            enabled: false,
            freq: 0,
            freq_timer: 0,
            duty: 0,
            duty_pos: 0,
            length_counter: 0,
            length_enabled: false,
            env_initial: 0,
            env_add: false,
            env_period: 0,
            env_timer: 0,
            volume: 0,
            sweep_period: 0,
            sweep_negate: false,
            sweep_shift: 0,
            sweep_timer: 0,
            sweep_enabled: false,
            sweep_shadow: 0,
        }
    }

    /// Cycles per duty step at the current frequency.
    pub open spec fn period(self) -> int {
        (2048 - self.freq) * 4
    }

    /// NR10 (channel 1 only): sweep period (bits 6-4), direction (3), shift (2-0).
    pub open spec fn after_nr10(self, v: u8) -> Square {
        Square {
            sweep_period: (v >> 4) & 0x07,
            sweep_negate: v & 0x08 != 0,
            sweep_shift: v & 0x07,
            ..self
        }
    }

    /// NRx1: duty (bits 7-6) and length load (5-0).
    pub open spec fn after_nrx1(self, v: u8) -> Square {
        Square { duty: (v >> 6) & 0x03, length_counter: (64 - (v & 0x3F)) as u8, ..self }
    }

    /// NRx2: envelope initial volume, direction and period; a zero upper
    /// five bits turn the DAC (and so the channel) off.
    pub open spec fn after_nrx2(self, v: u8) -> Square {
        Square {
            env_initial: v >> 4,
            env_add: v & 0x08 != 0,
            env_period: v & 0x07,
            enabled: if v & 0xF8 == 0 { false } else { self.enabled },
            ..self
        }
    }

    /// NRx3: low eight frequency bits.
    pub open spec fn after_nrx3(self, v: u8) -> Square {
        Square { freq: (self.freq & 0x0700) | (v as u16), ..self }
    }

    /// NRx4: high three frequency bits, length enable, and trigger (bit 7).
    pub open spec fn after_nrx4(self, v: u8) -> Square {
        let s = Square {
            freq: (self.freq & 0x00FF) | (((v & 0x07) as u16) << 8),
            length_enabled: v & 0x40 != 0,
            ..self
        };
        if v & 0x80 != 0 { s.after_trigger() } else { s }
    }

    /// The channel after its duty timer has run for `cycles` cycles.
    pub open spec fn after_step(self, cycles: int) -> Square {
        let t = self.freq_timer - cycles;
        let n = reloads(t, self.period());
        Square {
            freq_timer: (t + n * self.period()) as i32,
            duty_pos: if n == 0 { self.duty_pos } else { ((self.duty_pos + n) % 8) as usize },
            ..self
        }
    }

    /// The frequency the sweep unit computes from the shadow register.
    pub open spec fn sweep_target(self) -> int {
        let delta = self.sweep_shadow >> self.sweep_shift;
        if self.sweep_negate { self.sweep_shadow - delta } else { self.sweep_shadow + delta }
    }

    /// The sweep computation neither shifts out of range nor overflows.
    pub open spec fn sweep_computable(self) -> bool {
        &&& self.sweep_shift < 16
        &&& self.sweep_target() <= u16::MAX
    }

    /// The channel after one sweep computation: a target above 2047 disables it.
    pub open spec fn after_calc_sweep(self) -> Square {
        if self.sweep_target() > 2047 { Square { enabled: false, ..self } } else { self }
    }

    /// The channel after a trigger (bit 7 of NRx4).
    pub open spec fn after_trigger(self) -> Square {
        let s = Square {
            enabled: true,
            length_counter: if self.length_counter == 0 { 64 } else { self.length_counter },
            freq_timer: ((2048 - self.freq) * 4) as i32,
            env_timer: self.env_period,
            volume: self.env_initial,
            sweep_shadow: self.freq,
            sweep_timer: if self.sweep_period > 0 { self.sweep_period } else { 8 },
            sweep_enabled: self.sweep_period > 0 || self.sweep_shift > 0,
            ..self
        };
        if self.sweep_shift > 0 { s.after_calc_sweep() } else { s }
    }

    /// The channel after one length clock.
    pub open spec fn after_length_clock(self) -> Square {
        if self.length_enabled && self.length_counter > 0 {
            Square {
                length_counter: (self.length_counter - 1) as u8,
                enabled: if self.length_counter == 1 { false } else { self.enabled },
                ..self
            }
        } else {
            self
        }
    }

    /// The channel after one envelope clock.
    pub open spec fn after_envelope_clock(self) -> Square {
        if self.env_period == 0 {
            self
        } else {
            let t = if self.env_timer > 0 { (self.env_timer - 1) as u8 } else { 0u8 };
            if t == 0 {
                Square {
                    env_timer: self.env_period,
                    volume: envelope_step(self.volume, self.env_add),
                    ..self
                }
            } else {
                Square { env_timer: t, ..self }
            }
        }
    }

    /// The channel after one sweep clock.
    pub open spec fn after_sweep_clock(self) -> Square {
        if !self.sweep_enabled {
            self
        } else {
            let t = if self.sweep_timer > 0 { (self.sweep_timer - 1) as u8 } else { 0u8 };
            if t != 0 {
                Square { sweep_timer: t, ..self }
            } else {
                let s = Square {
                    sweep_timer: if self.sweep_period > 0 { self.sweep_period } else { 8 },
                    ..self
                };
                if self.sweep_period > 0 {
                    let new = s.sweep_target();
                    let s2 = s.after_calc_sweep();
                    if new <= 2047 && self.sweep_shift > 0 {
                        Square { sweep_shadow: new as u16, freq: new as u16, ..s2 }.after_calc_sweep()
                    } else {
                        s2
                    }
                } else {
                    s
                }
            }
        }
    }

    /// The current output level (0..=15).
    pub open spec fn sample_spec(self) -> u8 {
        if !self.enabled {
            0
        } else {
            (duty_table()[self.duty as int][self.duty_pos as int] * self.volume) as u8
        }
    }

    /// The register state a channel keeps when it is driven through its
    /// registers: frequency in 11 bits, small fields in range, timers bounded.
    pub open spec fn well_formed(self) -> bool {
        &&& self.freq < 2048
        &&& self.sweep_shadow < 2048
        &&& self.sweep_shift < 8
        &&& self.duty < 4
        &&& self.duty_pos < 8
        &&& self.volume <= 15
        &&& self.env_initial <= 15
        &&& self.freq_timer >= 0
    }

    // NR10 (channel 1 only): sweep period (6-4), direction (3), shift (2-0).
    pub fn write_nr10(&mut self, v: u8)
        ensures
            *final(self) == old(self).after_nr10(v),
    {
        self.sweep_period = (v >> 4) & 0x07;
        self.sweep_negate = v & 0x08 != 0;
        self.sweep_shift = v & 0x07;
    }

    pub fn write_nrx1(&mut self, v: u8)
        ensures
            *final(self) == old(self).after_nrx1(v),
    {
        self.duty = (v >> 6) & 0x03;
        proof { lemma_byte_fields(v); }
        self.length_counter = 64 - (v & 0x3F);
    }

    pub fn write_nrx2(&mut self, v: u8)
        ensures
            *final(self) == old(self).after_nrx2(v),
    {
        self.env_initial = v >> 4;
        self.env_add = v & 0x08 != 0;
        self.env_period = v & 0x07;
        if v & 0xF8 == 0 {
            self.enabled = false;  // DAC off
        }
    }

    pub fn write_nrx3(&mut self, v: u8)
        ensures
            *final(self) == old(self).after_nrx3(v),
    {
        self.freq = (self.freq & 0x0700) | v as u16;
    }

    pub fn write_nrx4(&mut self, v: u8)
        requires
            v & 0x80 != 0 ==> old(self).sweep_shift < 16,
        ensures
            *final(self) == old(self).after_nrx4(v),
            final(self).freq < 2048,
    {
        proof { lemma_freq_bits(self.freq, v); }
        self.freq = (self.freq & 0x00FF) | (((v & 0x07) as u16) << 8);
        self.length_enabled = v & 0x40 != 0;
        if v & 0x80 != 0 {
            self.trigger();
        }
    }

    pub fn trigger(&mut self)
        requires
            old(self).sweep_shift < 16,
            old(self).freq < 2048,
        ensures
            *final(self) == old(self).after_trigger(),
            final(self).freq == old(self).freq,
    {
        self.enabled = true;
        if self.length_counter == 0 {
            self.length_counter = 64;
        }
        self.freq_timer = (2048 - self.freq as i32) * 4;
        self.env_timer = self.env_period;
        self.volume = self.env_initial;

        // Sweep init (harmless for channel 2, which has zero sweep settings).
        self.sweep_shadow = self.freq;
        self.sweep_timer = if self.sweep_period > 0 { self.sweep_period } else { 8 };
        self.sweep_enabled = self.sweep_period > 0 || self.sweep_shift > 0;
        if self.sweep_shift > 0 {
            proof { lemma_shr_le(self.sweep_shadow, self.sweep_shift); }
            self.calc_sweep();  // immediate overflow check
        }
    }

    /// One clock of the duty timer over `cycles` cycles.
    pub fn step(&mut self, cycles: i32)
        requires
            old(self).freq < 2048,
            i32::MIN <= old(self).freq_timer - cycles <= i32::MAX,
            old(self).freq_timer - cycles <= 0 ==> old(self).duty_pos < usize::MAX,
        ensures
            *final(self) == old(self).after_step(cycles as int),
    {
        let ghost t = old(self).freq_timer - cycles;
        let ghost p = old(self).period();
        let ghost n = reloads(t, p);
        self.freq_timer -= cycles;
        if self.freq_timer <= 0 {
            proof { lemma_reloads(t, p); }
        }
        let ghost mut k: nat = 0;
        while self.freq_timer <= 0
            invariant
                self.freq < 2048,
                p == (2048 - self.freq) * 4,
                t <= 0 ==> old(self).duty_pos < usize::MAX,
                t <= 0 ==> k <= n,
                t > 0 ==> k == 0,
                self.freq_timer == t + k * p,
                self.duty_pos == if k == 0 { old(self).duty_pos } else { ((old(self).duty_pos + k) % 8) as usize },
                forall|j: int| 0 <= j < n ==> #[trigger] (t + j * p) <= 0,
                t <= 0 ==> t + n * p > 0 && t + n * p <= p,
                *self == (Square { freq_timer: self.freq_timer, duty_pos: self.duty_pos, ..*old(self) }),
            decreases n - k,
        {
            assert(k < n) by {
                if k >= n {
                    assert(k == n);
                }
            }
            assert(t + (k + 1) * p == t + k * p + p) by (nonlinear_arith);
            self.freq_timer += (2048 - self.freq as i32) * 4;
            let dp = self.duty_pos + 1;
            proof { lemma_low_bits(dp); }
            self.duty_pos = dp & 7;
            proof { k = k + 1; }
        }
        assert(k == n) by {
            if t <= 0 {
                if k < n {
                    assert(t + k * p <= 0);
                }
            }
        }
    }

    pub fn clock_length(&mut self)
        ensures
            *final(self) == old(self).after_length_clock(),
    {
        if self.length_enabled && self.length_counter > 0 {
            self.length_counter -= 1;
            if self.length_counter == 0 {
                self.enabled = false;
            }
        }
    }

    pub fn clock_envelope(&mut self)
        ensures
            *final(self) == old(self).after_envelope_clock(),
    {
        if self.env_period == 0 {
            return;
        }
        if self.env_timer > 0 {
            self.env_timer -= 1;
        }
        if self.env_timer == 0 {
            self.env_timer = self.env_period;
            if self.env_add && self.volume < 15 {
                self.volume += 1;
            } else if !self.env_add && self.volume > 0 {
                self.volume -= 1;
            }
        }
    }

    /// Compute the swept frequency; disables the channel on overflow past 2047.
    pub fn calc_sweep(&mut self) -> (r: u16)
        requires
            old(self).sweep_computable(),
        ensures
            r == old(self).sweep_target(),
            *final(self) == old(self).after_calc_sweep(),
    {
        let delta = self.sweep_shadow >> self.sweep_shift;
        proof { lemma_shr_le(self.sweep_shadow, self.sweep_shift); }
        let new = if self.sweep_negate {
            self.sweep_shadow.wrapping_sub(delta)
        } else {
            self.sweep_shadow + delta
        };
        if new > 2047 {
            self.enabled = false;
        }
        new
    }

    pub fn clock_sweep(&mut self)
        requires
            old(self).sweep_shift < 16,
            old(self).sweep_shadow < 2048,
        ensures
            *final(self) == old(self).after_sweep_clock(),
    {
        if !self.sweep_enabled {
            return;
        }
        if self.sweep_timer > 0 {
            self.sweep_timer -= 1;
        }
        if self.sweep_timer == 0 {
            self.sweep_timer = if self.sweep_period > 0 { self.sweep_period } else { 8 };
            if self.sweep_period > 0 {
                proof { lemma_shr_le(self.sweep_shadow, self.sweep_shift); }
                let new = self.calc_sweep();
                if new <= 2047 && self.sweep_shift > 0 {
                    self.sweep_shadow = new;
                    self.freq = new;
                    proof { lemma_shr_le(self.sweep_shadow, self.sweep_shift); }
                    self.calc_sweep();  // second overflow check
                }
            }
        }
    }

    pub fn sample(&self) -> (r: u8)
        requires
            self.duty < 4,
            self.duty_pos < 8,
        ensures
            r == self.sample_spec(),
            r == 0 || r == self.volume,
    {
        if !self.enabled {
            return 0;
        }
        let row = duty_row(self.duty);
        let bit = row[self.duty_pos];
        proof { reveal(duty_table); }
        assert(bit == 0 || bit == 1);
        if bit == 0 { 0 } else { self.volume }
    }
}

/// One row of the duty table.
fn duty_row(duty: u8) -> (r: [u8; 8])
    requires
        duty < 4,
    ensures
        r@ == duty_table()[duty as int],
{
    let r = if duty == 0 {
        [0, 0, 0, 0, 0, 0, 0, 1]
    } else if duty == 1 {
        [1, 0, 0, 0, 0, 0, 0, 1]
    } else if duty == 2 {
        [1, 0, 0, 0, 0, 1, 1, 1]
    } else {
        [0, 1, 1, 1, 1, 1, 1, 0]
    };
    proof { reveal(duty_table); }
    assert(r@ =~= duty_table()[duty as int]);
    r
}


/// Channel 3: plays 32 four-bit samples from wave RAM.
#[derive(Clone)]
pub struct Wave {
    pub enabled: bool,
    pub dac_on: bool,
    pub freq: u16,
    pub freq_timer: i32,
    pub pos: usize,
    pub length_counter: u16,
    pub length_enabled: bool,
    pub volume_code: u8,
    pub ram: [u8; 16],
}

impl Default for Wave {
    fn default() -> (r: Self)
        ensures
            r.enabled == false,
            r.dac_on == false,
            r.freq == 0,
            r.freq_timer == 0,
            r.pos == 0,
            r.length_counter == 0,
            r.length_enabled == false,
            r.volume_code == 0,
            forall|i: int| 0 <= i < 16 ==> #[trigger] r.ram@[i] == 0,
    {
        Wave {
            enabled: false,
            dac_on: false,
            freq: 0,
            freq_timer: 0,
            pos: 0,
            length_counter: 0,
            length_enabled: false,
            volume_code: 0,
            ram: [0u8; 16],
        }
    }
}

/// Right shift that the wave volume code applies (mute, 100%, 50%, 25%).
pub open spec fn wave_shift(code: u8) -> u8 {
    if code == 0 { 4 } else if code == 1 { 0 } else if code == 2 { 1 } else { 2 }
}

impl Wave {
    /// Cycles per wave position at the current frequency.
    pub open spec fn period(self) -> int {
        (2048 - self.freq) * 2
    }

    pub open spec fn after_nr30(self, v: u8) -> Wave {
        Wave { dac_on: v & 0x80 != 0, enabled: if v & 0x80 == 0 { false } else { self.enabled }, ..self }
    }

    pub open spec fn after_nr31(self, v: u8) -> Wave {
        Wave { length_counter: (256 - v) as u16, ..self }
    }

    pub open spec fn after_nr32(self, v: u8) -> Wave {
        Wave { volume_code: (v >> 5) & 0x03, ..self }
    }

    pub open spec fn after_nr33(self, v: u8) -> Wave {
        Wave { freq: (self.freq & 0x0700) | (v as u16), ..self }
    }

    pub open spec fn after_nr34(self, v: u8) -> Wave {
        let s = Wave {
            freq: (self.freq & 0x00FF) | (((v & 0x07) as u16) << 8),
            length_enabled: v & 0x40 != 0,
            ..self
        };
        if v & 0x80 != 0 { s.after_trigger() } else { s }
    }

    /// The channel after its timer has run for `cycles` cycles.
    pub open spec fn after_step(self, cycles: int) -> Wave {
        let t = self.freq_timer - cycles;
        let n = reloads(t, self.period());
        Wave {
            freq_timer: (t + n * self.period()) as i32,
            pos: if n == 0 { self.pos } else { ((self.pos + n) % 32) as usize },
            ..self
        }
    }

    /// The channel after a trigger (bit 7 of NR34).
    pub open spec fn after_trigger(self) -> Wave {
        Wave {
            enabled: self.dac_on,
            length_counter: if self.length_counter == 0 { 256 } else { self.length_counter },
            freq_timer: ((2048 - self.freq) * 2) as i32,
            pos: 0,
            ..self
        }
    }

    /// The channel after one length clock.
    pub open spec fn after_length_clock(self) -> Wave {
        if self.length_enabled && self.length_counter > 0 {
            Wave {
                length_counter: (self.length_counter - 1) as u16,
                enabled: if self.length_counter == 1 { false } else { self.enabled },
                ..self
            }
        } else {
            self
        }
    }

    /// The four-bit sample at the current position, before the volume shift.
    pub open spec fn nibble(self) -> u8 {
        let byte = self.ram@[self.pos as int / 2];
        if self.pos % 2 == 0 { byte >> 4 } else { byte & 0x0F }
    }

    /// The current output level.
    pub open spec fn sample_spec(self) -> u8 {
        if !self.enabled || !self.dac_on { 0 } else { self.nibble() >> wave_shift(self.volume_code) }
    }

    pub open spec fn well_formed(self) -> bool {
        &&& self.freq < 2048
        &&& self.pos < 32
        &&& self.volume_code < 4
        &&& self.freq_timer >= 0
    }

    pub fn write_nr30(&mut self, v: u8)
        ensures
            *final(self) == old(self).after_nr30(v),
    {
        self.dac_on = v & 0x80 != 0;
        if !self.dac_on {
            self.enabled = false;
        }
    }

    pub fn write_nr31(&mut self, v: u8)
        ensures
            *final(self) == old(self).after_nr31(v),
    {
        self.length_counter = 256 - v as u16;
    }

    pub fn write_nr32(&mut self, v: u8)
        ensures
            *final(self) == old(self).after_nr32(v),
    {
        self.volume_code = (v >> 5) & 0x03;
    }

    pub fn write_nr33(&mut self, v: u8)
        ensures
            *final(self) == old(self).after_nr33(v),
    {
        self.freq = (self.freq & 0x0700) | v as u16;
    }

    pub fn write_nr34(&mut self, v: u8)
        ensures
            *final(self) == old(self).after_nr34(v),
            final(self).freq < 2048,
    {
        proof { lemma_freq_bits(self.freq, v); }
        self.freq = (self.freq & 0x00FF) | (((v & 0x07) as u16) << 8);
        self.length_enabled = v & 0x40 != 0;
        if v & 0x80 != 0 {
            self.trigger();
        }
    }

    pub fn trigger(&mut self)
        requires
            old(self).freq < 2048,
        ensures
            *final(self) == old(self).after_trigger(),
    {
        self.enabled = self.dac_on;
        if self.length_counter == 0 {
            self.length_counter = 256;
        }
        self.freq_timer = (2048 - self.freq as i32) * 2;  // wave ticks twice as fast
        self.pos = 0;
    }

    /// Advance the wave position over `cycles` cycles.
    pub fn step(&mut self, cycles: i32)
        requires
            old(self).freq < 2048,
            i32::MIN <= old(self).freq_timer - cycles <= i32::MAX,
            old(self).freq_timer - cycles <= 0 ==> old(self).pos < usize::MAX,
        ensures
            *final(self) == old(self).after_step(cycles as int),
    {
        let ghost t = old(self).freq_timer - cycles;
        let ghost p = old(self).period();
        let ghost n = reloads(t, p);
        self.freq_timer -= cycles;
        if self.freq_timer <= 0 {
            proof { lemma_reloads(t, p); }
        }
        let ghost mut k: nat = 0;
        while self.freq_timer <= 0
            invariant
                self.freq < 2048,
                p == (2048 - self.freq) * 2,
                t <= 0 ==> old(self).pos < usize::MAX,
                t <= 0 ==> k <= n,
                t > 0 ==> k == 0,
                self.freq_timer == t + k * p,
                self.pos == if k == 0 { old(self).pos } else { ((old(self).pos + k) % 32) as usize },
                forall|j: int| 0 <= j < n ==> #[trigger] (t + j * p) <= 0,
                t <= 0 ==> t + n * p > 0 && t + n * p <= p,
                *self == (Wave { freq_timer: self.freq_timer, pos: self.pos, ..*old(self) }),
            decreases n - k,
        {
            assert(k < n) by {
                if k >= n {
                    assert(k == n);
                }
            }
            assert(t + (k + 1) * p == t + k * p + p) by (nonlinear_arith);
            self.freq_timer += (2048 - self.freq as i32) * 2;
            let np = self.pos + 1;
            proof { lemma_low_bits(np); }
            self.pos = np & 31;
            proof { k = k + 1; }
        }
        assert(k == n) by {
            if t <= 0 {
                if k < n {
                    assert(t + k * p <= 0);
                }
            }
        }
    }

    pub fn clock_length(&mut self)
        ensures
            *final(self) == old(self).after_length_clock(),
    {
        if self.length_enabled && self.length_counter > 0 {
            self.length_counter -= 1;
            if self.length_counter == 0 {
                self.enabled = false;
            }
        }
    }

    pub fn sample(&self) -> (r: u8)
        requires
            self.pos < 32,
            self.volume_code < 4,
        ensures
            r == self.sample_spec(),
            r <= 15,
    {
        if !self.enabled || !self.dac_on {
            return 0;
        }
        let byte = self.ram[self.pos / 2];
        let nibble = if self.pos & 1 == 0 { byte >> 4 } else { byte & 0x0F };
        proof { lemma_low_bits(self.pos); lemma_byte_fields(byte); }
        // Volume code: 0 = mute, 1 = 100%, 2 = 50%, 3 = 25% (right-shifts).
        let shift: u8 = if self.volume_code == 0 {
            4
        } else if self.volume_code == 1 {
            0
        } else if self.volume_code == 2 {
            1
        } else {
            2
        };
        proof { lemma_shr_le_u8(nibble, shift); }
        nibble >> shift
    }
}

/// Channel 4: pseudo-random noise from a linear-feedback shift register.
#[derive(Clone)]
pub struct Noise {
    pub enabled: bool,
    pub lfsr: u16,
    pub freq_timer: i32,
    pub width_7: bool,
    pub divisor_code: u8,
    pub clock_shift: u8,
    pub length_counter: u8,
    pub length_enabled: bool,
    pub env_initial: u8,
    pub env_add: bool,
    pub env_period: u8,
    pub env_timer: u8,
    pub volume: u8,
}

impl Default for Noise {
    fn default() -> (r: Self)
        ensures
            r == Noise::zeroed(),
    {
        Noise {
            enabled: false,
            lfsr: 0,
            freq_timer: 0,
            width_7: false,
            divisor_code: 0,
            clock_shift: 0,
            length_counter: 0,
            length_enabled: false,
            env_initial: 0,
            env_add: false,
            env_period: 0,
            env_timer: 0,
            volume: 0,
        }
    }
}

/// One shift of the noise LFSR: XOR the low two bits, shift right and feed the
/// result into bit 14 (and bit 6 in 7-bit mode).
pub open spec fn lfsr_next(lfsr: u16, width_7: bool) -> u16 {
    let bit = (lfsr ^ (lfsr >> 1u16)) & 1u16;
    let l = (lfsr >> 1u16) | (bit << 14u16);
    if width_7 { (l & !0x40u16) | (bit << 6u16) } else { l }
}

/// The LFSR after `n` shifts.
pub open spec fn lfsr_after(lfsr: u16, width_7: bool, n: nat) -> u16
    decreases n,
{
    if n == 0 { lfsr } else { lfsr_next(lfsr_after(lfsr, width_7, (n - 1) as nat), width_7) }
}

impl Noise {
    pub open spec fn zeroed() -> Noise {
        Noise {
            enabled: false,
            lfsr: 0,
            freq_timer: 0,
            width_7: false,
            divisor_code: 0,
            clock_shift: 0,
            length_counter: 0,
            length_enabled: false,
            env_initial: 0,
            env_add: false,
            env_period: 0,
            env_timer: 0,
            volume: 0,
        }
    }

    /// Cycles between two LFSR shifts: the divisor shifted left by the clock shift.
    pub open spec fn period_spec(self) -> int {
        noise_divisor(self.divisor_code) * vstd::arithmetic::power2::pow2(self.clock_shift as nat)
    }


    pub open spec fn after_nr41(self, v: u8) -> Noise {
        Noise { length_counter: (64 - (v & 0x3F)) as u8, ..self }
    }

    pub open spec fn after_nr42(self, v: u8) -> Noise {
        Noise {
            env_initial: v >> 4,
            env_add: v & 0x08 != 0,
            env_period: v & 0x07,
            enabled: if v & 0xF8 == 0 { false } else { self.enabled },
            ..self
        }
    }

    pub open spec fn after_nr43(self, v: u8) -> Noise {
        Noise { clock_shift: v >> 4, width_7: v & 0x08 != 0, divisor_code: v & 0x07, ..self }
    }

    pub open spec fn after_nr44(self, v: u8) -> Noise {
        let s = Noise { length_enabled: v & 0x40 != 0, ..self };
        if v & 0x80 != 0 { s.after_trigger() } else { s }
    }

    /// The channel after its timer has run for `cycles` cycles.
    pub open spec fn after_step(self, cycles: int) -> Noise {
        let t = self.freq_timer - cycles;
        let n = reloads(t, self.period_spec());
        Noise {
            freq_timer: (t + n * self.period_spec()) as i32,
            lfsr: lfsr_after(self.lfsr, self.width_7, n),
            ..self
        }
    }

    /// The channel after a trigger (bit 7 of NR44).
    pub open spec fn after_trigger(self) -> Noise {
        Noise {
            enabled: true,
            length_counter: if self.length_counter == 0 { 64 } else { self.length_counter },
            lfsr: 0x7FFF,
            env_timer: self.env_period,
            volume: self.env_initial,
            freq_timer: self.period_spec() as i32,
            ..self
        }
    }

    pub open spec fn after_length_clock(self) -> Noise {
        if self.length_enabled && self.length_counter > 0 {
            Noise {
                length_counter: (self.length_counter - 1) as u8,
                enabled: if self.length_counter == 1 { false } else { self.enabled },
                ..self
            }
        } else {
            self
        }
    }

    pub open spec fn after_envelope_clock(self) -> Noise {
        if self.env_period == 0 {
            self
        } else {
            let t = if self.env_timer > 0 { (self.env_timer - 1) as u8 } else { 0u8 };
            if t == 0 {
                Noise {
                    env_timer: self.env_period,
                    volume: envelope_step(self.volume, self.env_add),
                    ..self
                }
            } else {
                Noise { env_timer: t, ..self }
            }
        }
    }

    /// The current output level: the inverted low LFSR bit times the volume.
    pub open spec fn sample_spec(self) -> u8 {
        if !self.enabled { 0 } else if self.lfsr & 1 == 0 { self.volume } else { 0 }
    }

    pub open spec fn well_formed(self) -> bool {
        &&& self.divisor_code < 8
        &&& self.clock_shift < 16
        &&& self.volume <= 15
        &&& self.env_initial <= 15
        &&& self.freq_timer >= 0
    }

    pub fn write_nr41(&mut self, v: u8)
        ensures
            *final(self) == old(self).after_nr41(v),
    {
        proof { lemma_byte_fields(v); }
        self.length_counter = 64 - (v & 0x3F);
    }

    pub fn write_nr42(&mut self, v: u8)
        ensures
            *final(self) == old(self).after_nr42(v),
    {
        self.env_initial = v >> 4;
        self.env_add = v & 0x08 != 0;
        self.env_period = v & 0x07;
        if v & 0xF8 == 0 {
            self.enabled = false;
        }
    }

    pub fn write_nr43(&mut self, v: u8)
        ensures
            *final(self) == old(self).after_nr43(v),
            final(self).clock_shift < 16,
            final(self).divisor_code < 8,
    {
        self.clock_shift = v >> 4;
        self.width_7 = v & 0x08 != 0;
        self.divisor_code = v & 0x07;
        proof {
            lemma_byte_fields(v);
        }
    }

    pub fn write_nr44(&mut self, v: u8)
        requires
            v & 0x80 != 0 ==> old(self).divisor_code < 8 && old(self).clock_shift < 16,
        ensures
            *final(self) == old(self).after_nr44(v),
    {
        self.length_enabled = v & 0x40 != 0;
        if v & 0x80 != 0 {
            self.trigger();
        }
    }

    pub fn period(&self) -> (r: i32)
        requires
            self.divisor_code < 8,
            self.clock_shift < 16,
        ensures
            r == self.period_spec(),
            8 <= r <= 112 * 32768,
    {
        let d: u32 = if self.divisor_code == 0 { 8 } else { self.divisor_code as u32 * 16 };
        let s = self.clock_shift as u32;
        proof {
            vstd::arithmetic::power2::lemma_pow2_pos(s as nat);
            lemma_pow2_le_32768(s as nat);
            assert(d * vstd::arithmetic::power2::pow2(s as nat) <= 112 * 32768) by (nonlinear_arith)
                requires d <= 112, vstd::arithmetic::power2::pow2(s as nat) <= 32768;
            assert(d * vstd::arithmetic::power2::pow2(s as nat) >= 8) by (nonlinear_arith)
                requires d >= 8, vstd::arithmetic::power2::pow2(s as nat) >= 1;
            vstd::bits::lemma_u32_shl_is_mul(d, s);
        }
        (d << s) as i32
    }

    pub fn trigger(&mut self)
        requires
            old(self).divisor_code < 8,
            old(self).clock_shift < 16,
        ensures
            *final(self) == old(self).after_trigger(),
    {
        self.enabled = true;
        if self.length_counter == 0 {
            self.length_counter = 64;
        }
        self.lfsr = 0x7FFF;  // all bits set
        self.env_timer = self.env_period;
        self.volume = self.env_initial;
        self.freq_timer = self.period();
    }

    /// Shift the LFSR once per elapsed period over `cycles` cycles.
    pub fn step(&mut self, cycles: i32)
        requires
            old(self).divisor_code < 8,
            old(self).clock_shift < 16,
            i32::MIN <= old(self).freq_timer - cycles <= i32::MAX,
        ensures
            *final(self) == old(self).after_step(cycles as int),
    {
        let ghost t = old(self).freq_timer - cycles;
        let p_exec = self.period();
        let ghost p = old(self).period_spec();
        let ghost n = reloads(t, p);
        self.freq_timer -= cycles;
        if self.freq_timer <= 0 {
            proof { lemma_reloads(t, p); }
        }
        let ghost mut k: nat = 0;
        while self.freq_timer <= 0
            invariant
                self.divisor_code < 8,
                self.clock_shift < 16,
                p == self.period_spec(),
                p == p_exec,
                8 <= p <= 112 * 32768,
                t <= 0 ==> k <= n,
                t > 0 ==> k == 0,
                self.freq_timer == t + k * p,
                self.lfsr == lfsr_after(old(self).lfsr, old(self).width_7, k),
                forall|j: int| 0 <= j < n ==> #[trigger] (t + j * p) <= 0,
                t <= 0 ==> t + n * p > 0 && t + n * p <= p,
                *self == (Noise { freq_timer: self.freq_timer, lfsr: self.lfsr, ..*old(self) }),
            decreases n - k,
        {
            assert(k < n) by {
                if k >= n {
                    assert(k == n);
                }
            }
            assert(t + (k + 1) * p == t + k * p + p) by (nonlinear_arith);
            self.freq_timer += self.period();
            // XOR the low two bits, shift right, feed the result into bit 14
            // (and bit 6 in 7-bit "width" mode) for a shorter, buzzier period.
            let bit = (self.lfsr ^ (self.lfsr >> 1)) & 1;
            self.lfsr >>= 1;
            self.lfsr |= bit << 14;
            if self.width_7 {
                self.lfsr = (self.lfsr & !0x40) | (bit << 6);
            }
            proof { k = k + 1; }
        }
        assert(k == n) by {
            if t <= 0 {
                if k < n {
                    assert(t + k * p <= 0);
                }
            }
        }
    }

    pub fn clock_length(&mut self)
        ensures
            *final(self) == old(self).after_length_clock(),
    {
        if self.length_enabled && self.length_counter > 0 {
            self.length_counter -= 1;
            if self.length_counter == 0 {
                self.enabled = false;
            }
        }
    }

    pub fn clock_envelope(&mut self)
        ensures
            *final(self) == old(self).after_envelope_clock(),
    {
        if self.env_period == 0 {
            return;
        }
        if self.env_timer > 0 {
            self.env_timer -= 1;
        }
        if self.env_timer == 0 {
            self.env_timer = self.env_period;
            if self.env_add && self.volume < 15 {
                self.volume += 1;
            } else if !self.env_add && self.volume > 0 {
                self.volume -= 1;
            }
        }
    }

    pub fn sample(&self) -> (r: u8)
        ensures
            r == self.sample_spec(),
            r == 0 || r == self.volume,
    {
        if !self.enabled {
            return 0;
        }
        // Output is the inverted low bit of the LFSR, scaled by volume.
        let l = self.lfsr;
        let b = (!self.lfsr & 1) as u8;
        proof { lemma_low_lfsr_bit(l); }
        b * self.volume
    }
}


/// The audio unit: four channels, the master controls NR50-NR52 and the
/// frame sequencer.
#[derive(Clone)]
pub struct Apu {
    ch1: Square,
    ch2: Square,
    ch3: Wave,
    ch4: Noise,
    /// NR52 bit 7: master enable.
    enabled: bool,
    /// Master volume (+ VIN, unused): bits 6-4 left, 2-0 right.
    nr50: u8,
    /// Panning: bits 7-4 route channels to the left, 3-0 to the right.
    nr51: u8,
    /// Cycles toward the next frame-sequencer tick (one per 8192 cycles).
    fs_timer: u32,
    /// Frame-sequencer step, 0-7.
    fs_step: u8,
}

/// `v` if `on`, else 0.
pub open spec fn if_on(on: bool, v: int) -> int {
    if on { v } else { 0 }
}

/// Frequency registers keep 11 bits.
proof fn lemma_freq_bits(f: u16, v: u8)
    by (bit_vector)
    ensures
        (f & 0x0700) | (v as u16) < 2048,
        (f & 0x00FF) | (((v & 0x07) as u16) << 8) < 2048,
{
}

/// The inverted low bit of the LFSR as a 0/1 byte.
proof fn lemma_low_lfsr_bit(l: u16)
    by (bit_vector)
    ensures
        ((!l & 1) as u8 == 0 && l & 1 == 1) || ((!l & 1) as u8 == 1 && l & 1 == 0),
{
}

proof fn lemma_reg_bits(f: u16, v: u8)
    ensures
        (f & 0x0700) | (v as u16) < 2048,
        (f & 0x00FF) | (((v & 0x07) as u16) << 8) < 2048,
        v & 0x07 < 8,
        (v >> 6) & 0x03 < 4,
        (v >> 5) & 0x03 < 4,
        v >> 4 <= 15,
{
    lemma_freq_bits(f, v);
    lemma_byte_fields(v);
}

impl Apu {
    /// The audio unit after power-up: all channels silent, master enable on,
    /// full volume to both sides, every channel routed to both sides.
    pub closed spec fn initial() -> Apu {
        Apu {
            ch1: Square::zeroed(),
            ch2: Square::zeroed(),
            ch3: self::wave_zeroed(),
            ch4: Noise::zeroed(),
            enabled: true,
            nr50: 0x77,
            nr51: 0xFF,
            fs_timer: 0,
            fs_step: 0,
        }
    }

    /// The state that the register interface and the frame sequencer keep:
    /// every channel well formed and the sequencer step below 8.
    pub closed spec fn inv(self) -> bool {
        &&& self.ch1.well_formed()
        &&& self.ch2.well_formed()
        &&& self.ch3.well_formed()
        &&& self.ch4.well_formed()
        &&& self.fs_step < 8
    }

    /// What a read of `addr` (0xFF10-0xFF3F) returns: NR52 reports the master
    /// enable in bit 7 and the four channel-on flags in bits 0-3 (bits 4-6 read
    /// 1), wave RAM reads back, every other register reads 0xFF.
    pub closed spec fn read_reg_spec(self, addr: u16) -> u8 {
        if addr == 0xFF26 {
            (0x70 + if_on(self.enabled, 0x80) + if_on(self.ch1.enabled, 1) + if_on(self.ch2.enabled, 2)
                + if_on(self.ch3.enabled, 4) + if_on(self.ch4.enabled, 8)) as u8
        } else if 0xFF30 <= addr <= 0xFF3F {
            self.ch3.ram@[addr - 0xFF30]
        } else {
            0xFF
        }
    }

    /// Channel `i` (1-4) is on.
    pub closed spec fn channel_on(self, i: int) -> bool {
        if i == 1 { self.ch1.enabled }
        else if i == 2 { self.ch2.enabled }
        else if i == 3 { self.ch3.enabled }
        else { self.ch4.enabled }
    }

    /// The audio unit after a write of `v` to `addr`.
    #[verifier::opaque]
    pub closed spec fn after_write(self, addr: u16, v: u8) -> Apu {
        if addr == 0xFF10 { Apu { ch1: self.ch1.after_nr10(v), ..self } }
        else if addr == 0xFF11 { Apu { ch1: self.ch1.after_nrx1(v), ..self } }
        else if addr == 0xFF12 { Apu { ch1: self.ch1.after_nrx2(v), ..self } }
        else if addr == 0xFF13 { Apu { ch1: self.ch1.after_nrx3(v), ..self } }
        else if addr == 0xFF14 { Apu { ch1: self.ch1.after_nrx4(v), ..self } }
        else if addr == 0xFF16 { Apu { ch2: self.ch2.after_nrx1(v), ..self } }
        else if addr == 0xFF17 { Apu { ch2: self.ch2.after_nrx2(v), ..self } }
        else if addr == 0xFF18 { Apu { ch2: self.ch2.after_nrx3(v), ..self } }
        else if addr == 0xFF19 { Apu { ch2: self.ch2.after_nrx4(v), ..self } }
        else if addr == 0xFF1A { Apu { ch3: self.ch3.after_nr30(v), ..self } }
        else if addr == 0xFF1B { Apu { ch3: self.ch3.after_nr31(v), ..self } }
        else if addr == 0xFF1C { Apu { ch3: self.ch3.after_nr32(v), ..self } }
        else if addr == 0xFF1D { Apu { ch3: self.ch3.after_nr33(v), ..self } }
        else if addr == 0xFF1E { Apu { ch3: self.ch3.after_nr34(v), ..self } }
        else if 0xFF30 <= addr <= 0xFF3F {
            Apu { ch3: Wave { ram: vstd::array::spec_array_update(self.ch3.ram, addr - 0xFF30, v), ..self.ch3 }, ..self }
        }
        else if addr == 0xFF20 { Apu { ch4: self.ch4.after_nr41(v), ..self } }
        else if addr == 0xFF21 { Apu { ch4: self.ch4.after_nr42(v), ..self } }
        else if addr == 0xFF22 { Apu { ch4: self.ch4.after_nr43(v), ..self } }
        else if addr == 0xFF23 { Apu { ch4: self.ch4.after_nr44(v), ..self } }
        else if addr == 0xFF24 { Apu { nr50: v, ..self } }
        else if addr == 0xFF25 { Apu { nr51: v, ..self } }
        else if addr == 0xFF26 { Apu { enabled: v & 0x80 != 0, ..self } }
        else { self }
    }

    /// The four channels after one length clock.
    pub closed spec fn lengths_clocked(self) -> Apu {
        Apu {
            ch1: self.ch1.after_length_clock(),
            ch2: self.ch2.after_length_clock(),
            ch3: self.ch3.after_length_clock(),
            ch4: self.ch4.after_length_clock(),
            ..self
        }
    }

    /// One frame-sequencer tick: length on steps 0/2/4/6, sweep on 2/6,
    /// envelope on 7, then the step counter advances modulo 8.
    pub closed spec fn after_fs_tick(self) -> Apu {
        let a = if self.fs_step == 0 || self.fs_step == 4 {
            self.lengths_clocked()
        } else if self.fs_step == 2 || self.fs_step == 6 {
            let l = self.lengths_clocked();
            Apu { ch1: l.ch1.after_sweep_clock(), ..l }
        } else if self.fs_step == 7 {
            Apu {
                ch1: self.ch1.after_envelope_clock(),
                ch2: self.ch2.after_envelope_clock(),
                ch4: self.ch4.after_envelope_clock(),
                ..self
            }
        } else {
            self
        };
        Apu { fs_step: ((self.fs_step + 1) % 8) as u8, ..a }
    }

    /// `n` frame-sequencer ticks.
    pub closed spec fn after_fs_ticks(self, n: nat) -> Apu
        decreases n,
    {
        if n == 0 { self } else { self.after_fs_ticks((n - 1) as nat).after_fs_tick() }
    }

    /// `cycles` can be run without an arithmetic overflow.
    pub closed spec fn can_step(self, cycles: u32) -> bool {
        &&& self.ch1.freq_timer - (cycles as i32) <= i32::MAX
        &&& self.ch2.freq_timer - (cycles as i32) <= i32::MAX
        &&& self.ch3.freq_timer - (cycles as i32) <= i32::MAX
        &&& self.ch4.freq_timer - (cycles as i32) <= i32::MAX
        &&& self.fs_timer + cycles <= u32::MAX
    }

    /// The audio unit after `cycles` cycles: every channel timer runs, then
    /// the frame sequencer ticks once per 8192 cycles accumulated.
    pub closed spec fn after_step(self, cycles: u32) -> Apu {
        let c = (cycles as i32) as int;
        let total = self.fs_timer + cycles;
        let a = Apu {
            ch1: self.ch1.after_step(c),
            ch2: self.ch2.after_step(c),
            ch3: self.ch3.after_step(c),
            ch4: self.ch4.after_step(c),
            fs_timer: (total % 8192) as u32,
            ..self
        };
        a.after_fs_ticks((total / 8192) as nat)
    }

    /// Sum of the levels of the channels NR51 routes to the left (bits 7-4).
    pub closed spec fn left_sum(self) -> int {
        if_on(self.nr51 & 0x10 != 0, self.ch1.sample_spec() as int) + if_on(self.nr51 & 0x20 != 0, self.ch2.sample_spec() as int)
            + if_on(self.nr51 & 0x40 != 0, self.ch3.sample_spec() as int) + if_on(self.nr51 & 0x80 != 0, self.ch4.sample_spec() as int)
    }

    /// Sum of the levels of the channels NR51 routes to the right (bits 3-0).
    pub closed spec fn right_sum(self) -> int {
        if_on(self.nr51 & 0x01 != 0, self.ch1.sample_spec() as int) + if_on(self.nr51 & 0x02 != 0, self.ch2.sample_spec() as int)
            + if_on(self.nr51 & 0x04 != 0, self.ch3.sample_spec() as int) + if_on(self.nr51 & 0x08 != 0, self.ch4.sample_spec() as int)
    }

    /// Left and right mix levels in units of 1/480 of full scale: each side
    /// sums the routed channel levels (0..=15) and scales by its master
    /// volume plus one; a disabled unit is silent.
    pub closed spec fn mix_spec(self) -> (u16, u16) {
        if !self.enabled {
            (0, 0)
        } else {
            ((self.left_sum() * (((self.nr50 >> 4) & 0x07) + 1)) as u16, (self.right_sum() * ((self.nr50 & 0x07) + 1)) as u16)
        }
    }

    pub fn new() -> (r: Self)
        ensures
            r == Apu::initial(),
            r.inv(),
    {
        let ch3 = Wave::default();
        assert(ch3.ram =~= wave_zeroed().ram);
        Apu {
            ch1: Square::default(),
            ch2: Square::default(),
            ch3,
            ch4: Noise::default(),
            enabled: true,
            nr50: 0x77,  // full volume both sides (post-boot default)
            nr51: 0xFF,  // all channels to both sides
            fs_timer: 0,
            fs_step: 0,
        }
    }

    pub fn read_reg(&self, addr: u16) -> (r: u8)
        ensures
            r == self.read_reg_spec(addr),
    {
        match addr {
            // NR52: master enable + per-channel on flags.
            0xFF26 => {
                let e = self.enabled;
                let (c1, c2, c3, c4) = (self.ch1.enabled, self.ch2.enabled, self.ch3.enabled, self.ch4.enabled);
                let v: u8 = 0x70 | (if e { 0x80 } else { 0 }) | (if c1 { 0x01 } else { 0 })
                    | (if c2 { 0x02 } else { 0 }) | (if c3 { 0x04 } else { 0 }) | (if c4 { 0x08 } else { 0 });
                assert((0x70u8 | (if e { 0x80u8 } else { 0u8 }) | (if c1 { 1u8 } else { 0u8 })
                    | (if c2 { 2u8 } else { 0u8 }) | (if c3 { 4u8 } else { 0u8 }) | (if c4 { 8u8 } else { 0u8 }))
                    == 0x70u8 + (if e { 0x80u8 } else { 0u8 }) + (if c1 { 1u8 } else { 0u8 })
                    + (if c2 { 2u8 } else { 0u8 }) + (if c3 { 4u8 } else { 0u8 }) + (if c4 { 8u8 } else { 0u8 }))
                    by (bit_vector);
                v
            },
            // Wave RAM.
            0xFF30..=0xFF3F => self.ch3.ram[(addr - 0xFF30) as usize],
            _ => 0xFF,
        }
    }

    #[verifier::rlimit(30)]
    pub fn write_reg(&mut self, addr: u16, value: u8)
        requires
            old(self).inv(),
        ensures
            final(self).inv(),
            *final(self) == old(self).after_write(addr, value),
    {
        proof {
            lemma_write_keeps_inv(*self, addr, value);
            reveal(Apu::after_write);
        }
        match addr {
            // Channel 1 (square + sweep).
            0xFF10 => self.ch1.write_nr10(value),
            0xFF11 => self.ch1.write_nrx1(value),
            0xFF12 => self.ch1.write_nrx2(value),
            0xFF13 => self.ch1.write_nrx3(value),
            0xFF14 => self.ch1.write_nrx4(value),
            // Channel 2 (square).
            0xFF16 => self.ch2.write_nrx1(value),
            0xFF17 => self.ch2.write_nrx2(value),
            0xFF18 => self.ch2.write_nrx3(value),
            0xFF19 => self.ch2.write_nrx4(value),
            // Channel 3 (wave) + wave RAM.
            0xFF1A => self.ch3.write_nr30(value),
            0xFF1B => self.ch3.write_nr31(value),
            0xFF1C => self.ch3.write_nr32(value),
            0xFF1D => self.ch3.write_nr33(value),
            0xFF1E => self.ch3.write_nr34(value),
            0xFF30..=0xFF3F => self.ch3.ram[(addr - 0xFF30) as usize] = value,
            // Channel 4 (noise).
            0xFF20 => self.ch4.write_nr41(value),
            0xFF21 => self.ch4.write_nr42(value),
            0xFF22 => self.ch4.write_nr43(value),
            0xFF23 => self.ch4.write_nr44(value),
            0xFF24 => self.nr50 = value,
            0xFF25 => self.nr51 = value,
            0xFF26 => self.enabled = value & 0x80 != 0,
            _ => {},
        }
    }

    /// Whether [`Apu::step`] can run `cycles` cycles without an overflow.
    pub fn step_fits(&self, cycles: u32) -> (r: bool)
        ensures
            r == self.can_step(cycles),
    {
        let c = cycles as i32;
        (c >= 0 || (self.ch1.freq_timer <= i32::MAX + c && self.ch2.freq_timer <= i32::MAX + c
            && self.ch3.freq_timer <= i32::MAX + c && self.ch4.freq_timer <= i32::MAX + c))
            && self.fs_timer <= u32::MAX - cycles
    }

    /// Run all channel timers and the frame sequencer for `cycles` cycles.
    pub fn step(&mut self, cycles: u32)
        requires
            old(self).inv(),
            old(self).can_step(cycles),
        ensures
            final(self).inv(),
            *final(self) == old(self).after_step(cycles),
    {
        let c = cycles as i32;
        self.ch1.step(c);
        self.ch2.step(c);
        self.ch3.step(c);
        self.ch4.step(c);

        // Frame sequencer: 512 Hz. Length on 0/2/4/6, sweep on 2/6, envelope on 7.
        let ghost total = old(self).fs_timer + cycles;
        let ghost a = Apu { fs_timer: (total % 8192) as u32, ..*self };
        let ghost n: nat = (total / 8192) as nat;
        proof { lemma_step_channels_inv(*old(self), *self, c as int); }
        self.fs_timer += cycles;
        let ghost mut k: nat = 0;
        while self.fs_timer >= FRAME_SEQ_PERIOD
            invariant
                self.inv(),
                k <= n,
                n == total / 8192,
                self.fs_timer == total - k * 8192,
                a.fs_timer == total % 8192,
                *self == (Apu { fs_timer: self.fs_timer, ..a.after_fs_ticks(k) }),
            decreases self.fs_timer,
        {
            assert(k < n) by {
                assert(total - k * 8192 >= 8192);
                assert((k + 1) * 8192 <= total) by (nonlinear_arith)
                    requires total - k * 8192 >= 8192;
                vstd::arithmetic::div_mod::lemma_div_is_ordered(((k + 1) * 8192) as int, total as int, 8192);
                vstd::arithmetic::div_mod::lemma_div_multiples_vanish((k + 1) as int, 8192);
            }
            proof { lemma_fs_tick_inv(*self); }
            self.fs_timer -= FRAME_SEQ_PERIOD;
            let step = self.fs_step;
            if step == 0 || step == 4 {
                self.ch1.clock_length();
                self.ch2.clock_length();
                self.ch3.clock_length();
                self.ch4.clock_length();
            } else if step == 2 || step == 6 {
                self.ch1.clock_length();
                self.ch2.clock_length();
                self.ch3.clock_length();
                self.ch4.clock_length();
                self.ch1.clock_sweep();
            } else if step == 7 {
                self.ch1.clock_envelope();
                self.ch2.clock_envelope();
                self.ch4.clock_envelope();
            }
            let ns = self.fs_step + 1;
            proof { lemma_byte_fields(ns); }
            self.fs_step = ns & 7;
            proof { k = k + 1; }
        }
        proof {
            lemma_fs_ticks_timer(a, n);
            assert(k == n) by {
                assert(total - k * 8192 < 8192);
                assert(total < (k + 1) * 8192) by (nonlinear_arith)
                    requires total - k * 8192 < 8192;
                vstd::arithmetic::div_mod::lemma_div_is_ordered((k * 8192) as int, total as int, 8192);
                vstd::arithmetic::div_mod::lemma_div_multiples_vanish(k as int, 8192);
                vstd::arithmetic::div_mod::lemma_div_by_multiple_is_strongly_ordered(total as int, ((k + 1) * 8192) as int, (k + 1) as int, 8192);
            }
            vstd::arithmetic::div_mod::lemma_fundamental_div_mod(total as int, 8192);
        }
    }

    /// Mix the four channels into left/right levels (units of 1/480), honoring
    /// NR51 panning and NR50 master volume.
    #[verifier::spinoff_prover]
    pub fn mix_levels(&self) -> (r: (u16, u16))
        requires
            self.inv(),
        ensures
            r == self.mix_spec(),
            r.0 <= 480,
            r.1 <= 480,
    {
        if !self.enabled {
            return (0, 0);
        }
        let s1 = self.ch1.sample() as u16;
        let s2 = self.ch2.sample() as u16;
        let s3 = self.ch3.sample() as u16;
        let s4 = self.ch4.sample() as u16;
        let left = routed(self.nr51 & 0x10 != 0, s1) + routed(self.nr51 & 0x20 != 0, s2)
            + routed(self.nr51 & 0x40 != 0, s3) + routed(self.nr51 & 0x80 != 0, s4);
        assert(left == self.left_sum());
        let right = routed(self.nr51 & 0x01 != 0, s1) + routed(self.nr51 & 0x02 != 0, s2)
            + routed(self.nr51 & 0x04 != 0, s3) + routed(self.nr51 & 0x08 != 0, s4);
        assert(right == self.right_sum());
        // Master volume 0-7 per side, scaled by (vol + 1).
        let lvol = ((self.nr50 >> 4) & 0x07) as u16 + 1;
        let rvol = (self.nr50 & 0x07) as u16 + 1;
        proof { lemma_byte_fields(self.nr50); }
        assert(left * lvol <= 480) by (nonlinear_arith)
            requires left <= 60, 1 <= lvol <= 8;
        assert(right * rvol <= 480) by (nonlinear_arith)
            requires right <= 60, 1 <= rvol <= 8;
        let l = left * lvol;
        let r = right * rvol;
        assert(l == (self.left_sum() * (((self.nr50 >> 4) & 0x07) + 1)) as u16);
        assert(r == (self.right_sum() * ((self.nr50 & 0x07) + 1)) as u16);
        (l, r)
    }
}

impl Apu {
    /// The output level (0-15) of channel `i` (0-3 for channels 1-4).
    pub closed spec fn channel_level(self, i: int) -> u8 {
        if i == 0 { self.ch1.sample_spec() }
        else if i == 1 { self.ch2.sample_spec() }
        else if i == 2 { self.ch3.sample_spec() }
        else { self.ch4.sample_spec() }
    }

    /// The output level of each channel, for the level meters.
    pub fn channel_levels(&self) -> (r: [u8; 4])
        requires
            self.inv(),
        ensures
            forall|i: int| 0 <= i < 4 ==> #[trigger] r@[i] == self.channel_level(i),
            forall|i: int| 0 <= i < 4 ==> #[trigger] r@[i] <= 15,
    {
        let r = [self.ch1.sample(), self.ch2.sample(), self.ch3.sample(), self.ch4.sample()];
        r
    }
}

/// Every field of an [`Apu`] as a plain value, for saving and restoring it.
#[derive(Clone)]
pub struct ApuImage {
    pub ch1: Square,
    pub ch2: Square,
    pub ch3: Wave,
    pub ch4: Noise,
    pub enabled: bool,
    pub nr50: u8,
    pub nr51: u8,
    pub fs_timer: u32,
    pub fs_step: u8,
}

impl ApuImage {
    /// The audio unit with these fields.
    pub closed spec fn unit(self) -> Apu {
        Apu {
            ch1: self.ch1,
            ch2: self.ch2,
            ch3: self.ch3,
            ch4: self.ch4,
            enabled: self.enabled,
            nr50: self.nr50,
            nr51: self.nr51,
            fs_timer: self.fs_timer,
            fs_step: self.fs_step,
        }
    }
}

fn copy_square(s: &Square) -> (r: Square)
    ensures
        r == *s,
{
    Square { ..*s }
}

fn copy_wave(w: &Wave) -> (r: Wave)
    ensures
        r == *w,
{
    Wave { ..*w }
}

fn copy_noise(n: &Noise) -> (r: Noise)
    ensures
        r == *n,
{
    Noise { ..*n }
}

fn square_ok(s: &Square) -> (r: bool)
    ensures
        r == s.well_formed(),
{
    s.freq < 2048 && s.sweep_shadow < 2048 && s.sweep_shift < 8 && s.duty < 4 && s.duty_pos < 8 && s.volume <= 15
        && s.env_initial <= 15 && s.freq_timer >= 0
}

impl Apu {
    /// A copy of every field.
    pub fn to_image(&self) -> (r: ApuImage)
        ensures
            r.unit() == *self,
    {
        ApuImage {
            ch1: copy_square(&self.ch1),
            ch2: copy_square(&self.ch2),
            ch3: copy_wave(&self.ch3),
            ch4: copy_noise(&self.ch4),
            enabled: self.enabled,
            nr50: self.nr50,
            nr51: self.nr51,
            fs_timer: self.fs_timer,
            fs_step: self.fs_step,
        }
    }

    /// The audio unit an image describes, or `None` when the image breaks the
    /// unit's invariant (a channel field out of range).
    pub fn from_image(img: ApuImage) -> (r: Option<Apu>)
        ensures
            r is Some <==> img.unit().inv(),
            r matches Some(a) ==> a == img.unit(),
    {
        let w = &img.ch3;
        let n = &img.ch4;
        let ok = square_ok(&img.ch1) && square_ok(&img.ch2) && w.freq < 2048 && w.pos < 32 && w.volume_code < 4
            && w.freq_timer >= 0 && n.divisor_code < 8 && n.clock_shift < 16 && n.volume <= 15 && n.env_initial <= 15
            && n.freq_timer >= 0 && img.fs_step < 8;
        if !ok {
            return None;
        }
        Some(
            Apu {
                ch1: img.ch1,
                ch2: img.ch2,
                ch3: img.ch3,
                ch4: img.ch4,
                enabled: img.enabled,
                nr50: img.nr50,
                nr51: img.nr51,
                fs_timer: img.fs_timer,
                fs_step: img.fs_step,
            },
        )
    }
}

/// A channel's level if it is routed to a side, else 0.
fn routed(on: bool, s: u16) -> (r: u16)
    requires
        s <= 15,
    ensures
        r == if_on(on, s as int),
        r <= 15,
{
    if on { s } else { 0 }
}

/// A wave channel with every field at zero / false and zeroed wave RAM.
pub open spec fn wave_zeroed() -> Wave {
    Wave {
        enabled: false,
        dac_on: false,
        freq: 0,
        freq_timer: 0,
        pos: 0,
        length_counter: 0,
        length_enabled: false,
        volume_code: 0,
        ram: vstd::array::spec_array_fill_for_copy_type::<u8, 16>(0),
    }
}

proof fn lemma_square_step_wf(s: Square, c: int)
    requires
        s.well_formed(),
        c <= i32::MAX,
        s.freq_timer - c <= i32::MAX,
    ensures
        s.after_step(c).well_formed(),
{
    let t = s.freq_timer - c;
    if t <= 0 {
        lemma_reloads(t, s.period());
    }
}

proof fn lemma_wave_step_wf(w: Wave, c: int)
    requires
        w.well_formed(),
        c <= i32::MAX,
        w.freq_timer - c <= i32::MAX,
    ensures
        w.after_step(c).well_formed(),
{
    let t = w.freq_timer - c;
    if t <= 0 {
        lemma_reloads(t, w.period());
    }
}

proof fn lemma_noise_step_wf(n: Noise, c: int)
    requires
        n.well_formed(),
        c <= i32::MAX,
        n.freq_timer - c <= i32::MAX,
    ensures
        n.after_step(c).well_formed(),
{
    let t = n.freq_timer - c;
    if t <= 0 {
        lemma_period_pos(n);
        lemma_reloads(t, n.period_spec());
    }
}

proof fn lemma_step_channels_inv(old_apu: Apu, a: Apu, c: int)
    requires
        old_apu.inv(),
        c <= i32::MAX,
        old_apu.ch1.freq_timer - c <= i32::MAX,
        old_apu.ch2.freq_timer - c <= i32::MAX,
        old_apu.ch3.freq_timer - c <= i32::MAX,
        old_apu.ch4.freq_timer - c <= i32::MAX,
        a == (Apu {
            ch1: old_apu.ch1.after_step(c),
            ch2: old_apu.ch2.after_step(c),
            ch3: old_apu.ch3.after_step(c),
            ch4: old_apu.ch4.after_step(c),
            ..old_apu
        }),
    ensures
        a.inv(),
{
    lemma_square_step_wf(old_apu.ch1, c);
    lemma_square_step_wf(old_apu.ch2, c);
    lemma_wave_step_wf(old_apu.ch3, c);
    lemma_noise_step_wf(old_apu.ch4, c);
}

proof fn lemma_period_pos(n: Noise)
    requires
        n.divisor_code < 8,
        n.clock_shift < 16,
    ensures
        8 <= n.period_spec() <= 112 * 32768,
{
    vstd::arithmetic::power2::lemma_pow2_pos(n.clock_shift as nat);
    lemma_pow2_le_32768(n.clock_shift as nat);
    assert(n.period_spec() <= 112 * 32768) by (nonlinear_arith)
        requires
            n.period_spec() == noise_divisor(n.divisor_code) * vstd::arithmetic::power2::pow2(n.clock_shift as nat),
            noise_divisor(n.divisor_code) <= 112,
            vstd::arithmetic::power2::pow2(n.clock_shift as nat) <= 32768;
    assert(n.period_spec() >= 8) by (nonlinear_arith)
        requires
            n.period_spec() == noise_divisor(n.divisor_code) * vstd::arithmetic::power2::pow2(n.clock_shift as nat),
            noise_divisor(n.divisor_code) >= 8,
            vstd::arithmetic::power2::pow2(n.clock_shift as nat) >= 1;
}

proof fn lemma_fs_ticks_timer(a: Apu, n: nat)
    ensures
        a.after_fs_ticks(n).fs_timer == a.fs_timer,
    decreases n,
{
    if n > 0 {
        lemma_fs_ticks_timer(a, (n - 1) as nat);
    }
}

/// A register write keeps the audio unit's invariant.
pub proof fn lemma_write_keeps_inv(a: Apu, addr: u16, v: u8)
    requires
        a.inv(),
    ensures
        a.after_write(addr, v).inv(),
{
    reveal(Apu::after_write);
    lemma_reg_bits(a.ch1.freq, v);
    lemma_reg_bits(a.ch2.freq, v);
    lemma_reg_bits(a.ch3.freq, v);
    if addr == 0xFF23 && v & 0x80 != 0 {
        lemma_period_pos(a.ch4);
    }
    if addr == 0xFF14 {
        let s = Square {
            freq: (a.ch1.freq & 0x00FF) | (((v & 0x07) as u16) << 8),
            length_enabled: v & 0x40 != 0,
            ..a.ch1
        };
        assert(s.well_formed());
        assert(s.after_trigger().well_formed());
        assert(a.after_write(addr, v).ch1 == a.ch1.after_nrx4(v));
    } else if addr == 0xFF19 {
        let s = Square {
            freq: (a.ch2.freq & 0x00FF) | (((v & 0x07) as u16) << 8),
            length_enabled: v & 0x40 != 0,
            ..a.ch2
        };
        assert(s.well_formed());
        assert(s.after_trigger().well_formed());
    } else if addr == 0xFF10 {
        assert(a.after_write(addr, v).ch1.well_formed());
    } else if addr == 0xFF11 || addr == 0xFF12 || addr == 0xFF13 {
        assert(a.after_write(addr, v).ch1.well_formed());
    } else if addr == 0xFF16 || addr == 0xFF17 || addr == 0xFF18 {
        assert(a.after_write(addr, v).ch2.well_formed());
    } else if addr == 0xFF23 {
        assert(a.after_write(addr, v).ch4.well_formed());
    } else if addr == 0xFF1E {
        assert(a.after_write(addr, v).ch3.well_formed());
    }
}

proof fn lemma_fs_tick_inv(a: Apu)
    requires
        a.inv(),
    ensures
        a.after_fs_tick().inv(),
{
    let s = a.ch1;
    if s.sweep_enabled && s.sweep_period > 0 {
        lemma_shr_le(s.sweep_shadow, s.sweep_shift);
    }
}

proof fn lemma_pow2_le_32768(s: nat)
    requires
        s < 16,
    ensures
        vstd::arithmetic::power2::pow2(s) <= 32768,
{
    vstd::arithmetic::power2::lemma2_to64();
    if s < 15 {
        vstd::arithmetic::power2::lemma_pow2_strictly_increases(s, 15);
    }
}


/// Wave RAM reads back what was written there, and a write to one wave RAM
/// byte leaves the others as they were.
pub proof fn lemma_wave_ram_write_read(a: Apu, addr: u16, other: u16, v: u8)
    requires
        0xFF30 <= addr <= 0xFF3F,
        0xFF30 <= other <= 0xFF3F,
    ensures
        a.after_write(addr, v).read_reg_spec(addr) == v,
        other != addr ==> a.after_write(addr, v).read_reg_spec(other) == a.read_reg_spec(other),
{
    reveal(Apu::after_write);
}

/// NR52 reads bit 7 as the master enable last written, bits 6-4 as 1 and bits
/// 3-0 as the four channels' on flags; registers without a read-back read 0xFF.
pub proof fn lemma_nr52(a: Apu, v: u8, addr: u16)
    ensures
        a.after_write(0xFF26, v).read_reg_spec(0xFF26) & 0x80 == v & 0x80,
        a.read_reg_spec(0xFF26) & 0x70 == 0x70,
        (a.read_reg_spec(0xFF26) & 0x01 != 0) == a.channel_on(1),
        (a.read_reg_spec(0xFF26) & 0x02 != 0) == a.channel_on(2),
        (a.read_reg_spec(0xFF26) & 0x04 != 0) == a.channel_on(3),
        (a.read_reg_spec(0xFF26) & 0x08 != 0) == a.channel_on(4),
        addr != 0xFF26 && !(0xFF30 <= addr <= 0xFF3F) ==> a.read_reg_spec(addr) == 0xFF,
{
    reveal(Apu::after_write);
    lemma_nr52_bits(a.enabled, a.ch1.enabled, a.ch2.enabled, a.ch3.enabled, a.ch4.enabled, v);
    lemma_nr52_bits(v & 0x80 != 0, a.ch1.enabled, a.ch2.enabled, a.ch3.enabled, a.ch4.enabled, v);
}

proof fn lemma_nr52_bits(e: bool, c1: bool, c2: bool, c3: bool, c4: bool, v: u8)
    by (bit_vector)
    ensures
        ({
            let r: u8 = (0x70u8 + (if e { 0x80u8 } else { 0u8 }) + (if c1 { 1u8 } else { 0u8 }) + (if c2 { 2u8 } else { 0u8 })
                + (if c3 { 4u8 } else { 0u8 }) + (if c4 { 8u8 } else { 0u8 })) as u8;
            &&& e == (v & 0x80 != 0) ==> r & 0x80 == v & 0x80
            &&& r & 0x70 == 0x70
            &&& (r & 0x01 != 0) == c1
            &&& (r & 0x02 != 0) == c2
            &&& (r & 0x04 != 0) == c3
            &&& (r & 0x08 != 0) == c4
        }),
{
}
/// The unit at power-on: on, every channel off, wave RAM zero. NR52 reads
/// 0xF0, wave RAM reads 0, every other register reads 0xFF, each channel's
/// level is 0 and the mix is silent.
pub proof fn lemma_power_on(addr: u16)
    ensures
        Apu::initial().inv(),
        Apu::initial().read_reg_spec(0xFF26) == 0xF0,
        0xFF30 <= addr <= 0xFF3F ==> Apu::initial().read_reg_spec(addr) == 0,
        addr != 0xFF26 && !(0xFF30 <= addr <= 0xFF3F) ==> Apu::initial().read_reg_spec(addr) == 0xFF,
        forall|i: int| 0 <= i < 4 ==> #[trigger] Apu::initial().channel_level(i) == 0,
        Apu::initial().mix_spec() == (0u16, 0u16),
{
    let a = Apu::initial();
    assert(a.left_sum() == 0 && a.right_sum() == 0);
}

/// NR52 bits 7-4 from the master enable and the channel bits `low`.
proof fn lemma_nr52_top(e: bool, low: u8)
    requires
        low <= 15,
    ensures
        ((0x70 + if_on(e, 0x80) + low) as u8) & 0x80 == (if e { 0x80u8 } else { 0u8 }),
        ((0x70 + if_on(e, 0x80) + low) as u8) & 0x70 == 0x70,
{
    let r: u8 = if e { (0xF0 + low) as u8 } else { (0x70 + low) as u8 };
    assert(r & 0x80 == (if e { 0x80u8 } else { 0u8 }) && r & 0x70 == 0x70) by (bit_vector)
        requires
            low <= 15,
            r == if e { (0xF0 + low) as u8 } else { (0x70 + low) as u8 };
}

/// Frame-sequencer ticks keep wave RAM and the master enable.
proof fn lemma_fs_ticks_keep(a: Apu, n: nat)
    ensures
        a.after_fs_ticks(n).ch3.ram == a.ch3.ram,
        a.after_fs_ticks(n).enabled == a.enabled,
    decreases n,
{
    if n > 0 {
        lemma_fs_ticks_keep(a, (n - 1) as nat);
    }
}

/// A step keeps what the register interface reads back: wave RAM reads the
/// same, NR52 bit 7 (the master enable) reads the same, and the registers
/// without a read-back still read 0xFF. So wave RAM and the master enable
/// read back what was last written, across any steps.
pub proof fn lemma_step_keeps_read_back(a: Apu, cycles: u32, addr: u16)
    ensures
        0xFF30 <= addr <= 0xFF3F ==> a.after_step(cycles).read_reg_spec(addr) == a.read_reg_spec(addr),
        a.after_step(cycles).read_reg_spec(0xFF26) & 0x80 == a.read_reg_spec(0xFF26) & 0x80,
        a.after_step(cycles).read_reg_spec(0xFF26) & 0x70 == 0x70,
        addr != 0xFF26 && !(0xFF30 <= addr <= 0xFF3F) ==> a.after_step(cycles).read_reg_spec(addr) == 0xFF,
{
    let c = (cycles as i32) as int;
    let total = a.fs_timer + cycles;
    let b = Apu {
        ch1: a.ch1.after_step(c),
        ch2: a.ch2.after_step(c),
        ch3: a.ch3.after_step(c),
        ch4: a.ch4.after_step(c),
        fs_timer: (total % 8192) as u32,
        ..a
    };
    lemma_fs_ticks_keep(b, (total / 8192) as nat);
    let s = a.after_step(cycles);
    assert(s == b.after_fs_ticks((total / 8192) as nat));
    assert(s.enabled == a.enabled);
    lemma_nr52_top(a.enabled, (if_on(a.ch1.enabled, 1) + if_on(a.ch2.enabled, 2) + if_on(a.ch3.enabled, 4) + if_on(a.ch4.enabled, 8)) as u8);
    lemma_nr52_top(s.enabled, (if_on(s.ch1.enabled, 1) + if_on(s.ch2.enabled, 2) + if_on(s.ch3.enabled, 4) + if_on(s.ch4.enabled, 8)) as u8);
}

/// The square channels' volume envelope: with a period set, a clock that
/// runs the envelope timer out reloads it with the period and steps the
/// volume one up (if `env_add`, at most to 15) or one down (otherwise, at
/// least to 0); a clock that does not run it out only counts it down; with
/// period 0 the envelope is stopped.
pub proof fn lemma_square_envelope(s: Square)
    ensures
        ({
            let t = s.after_envelope_clock();
            &&& s.env_period == 0 ==> t == s
            &&& s.env_period != 0 && s.env_timer <= 1 ==> t.env_timer == s.env_period
            &&& s.env_period != 0 && s.env_timer <= 1 && s.env_add && s.volume < 15 ==> t.volume == s.volume + 1
            &&& s.env_period != 0 && s.env_timer <= 1 && s.env_add && s.volume >= 15 ==> t.volume == s.volume
            &&& s.env_period != 0 && s.env_timer <= 1 && !s.env_add && s.volume > 0 ==> t.volume == s.volume - 1
            &&& s.env_period != 0 && s.env_timer <= 1 && !s.env_add && s.volume == 0 ==> t.volume == 0
            &&& s.env_period != 0 && s.env_timer > 1 ==> t.env_timer == s.env_timer - 1 && t.volume == s.volume
        }),
{
}

/// The noise channel's volume envelope, as for the square channels.
pub proof fn lemma_noise_envelope(s: Noise)
    ensures
        ({
            let t = s.after_envelope_clock();
            &&& s.env_period == 0 ==> t == s
            &&& s.env_period != 0 && s.env_timer <= 1 ==> t.env_timer == s.env_period
            &&& s.env_period != 0 && s.env_timer <= 1 && s.env_add && s.volume < 15 ==> t.volume == s.volume + 1
            &&& s.env_period != 0 && s.env_timer <= 1 && s.env_add && s.volume >= 15 ==> t.volume == s.volume
            &&& s.env_period != 0 && s.env_timer <= 1 && !s.env_add && s.volume > 0 ==> t.volume == s.volume - 1
            &&& s.env_period != 0 && s.env_timer <= 1 && !s.env_add && s.volume == 0 ==> t.volume == 0
            &&& s.env_period != 0 && s.env_timer > 1 ==> t.env_timer == s.env_timer - 1 && t.volume == s.volume
        }),
{
}

/// One shift of the noise LFSR (a 15-bit register): the feedback bit (bit 0
/// XOR bit 1) enters at bit 14, and in 7-bit mode also at bit 6; every other
/// bit below 14 takes the value of the bit above it; a 15-bit register stays
/// 15-bit.
pub proof fn lemma_lfsr_shift(l: u16, w: bool)
    ensures
        l < 0x8000 ==> (lfsr_next(l, w) >> 14u16) & 1 == (l ^ (l >> 1u16)) & 1,
        w ==> (lfsr_next(l, w) >> 6u16) & 1 == (l ^ (l >> 1u16)) & 1,
        !w ==> (lfsr_next(l, w) >> 6u16) & 1 == (l >> 7u16) & 1,
        forall|i: u16| i < 14 && i != 6 ==> #[trigger] ((lfsr_next(l, w) >> i) & 1) == (l >> (i + 1)) & 1,
        l < 0x8000 ==> lfsr_next(l, w) < 0x8000,
{
    let bit = (l ^ (l >> 1u16)) & 1u16;
    let m = (l >> 1u16) | (bit << 14u16);
    let n = lfsr_next(l, w);
    assert(n == if w { (m & !0x40u16) | (bit << 6u16) } else { m });
    assert((l < 0x8000 ==> (n >> 14u16) & 1 == (l ^ (l >> 1u16)) & 1)
        && (w ==> (n >> 6u16) & 1 == (l ^ (l >> 1u16)) & 1)
        && (!w ==> (n >> 6u16) & 1 == (l >> 7u16) & 1)
        && (l < 0x8000 ==> n < 0x8000)) by (bit_vector)
        requires
            bit == (l ^ (l >> 1u16)) & 1u16,
            m == (l >> 1u16) | (bit << 14u16),
            n == if w { (m & !0x40u16) | (bit << 6u16) } else { m };
    assert(forall|i: u16| i < 14 && i != 6 ==> #[trigger] ((n >> i) & 1) == (l >> (i + 1)) & 1) by (bit_vector)
        requires
            bit == (l ^ (l >> 1u16)) & 1u16,
            m == (l >> 1u16) | (bit << 14u16),
            n == if w { (m & !0x40u16) | (bit << 6u16) } else { m };
}

/// A noise step in which the timer runs out once shifts the LFSR once: the
/// feedback bit (bit 0 XOR bit 1) enters at bit 14, and in 7-bit mode also
/// at bit 6 (otherwise bit 6 takes bit 7); a step in which the timer does not
/// run out leaves the LFSR as it was.
pub proof fn lemma_noise_step_shifts(s: Noise, cycles: int)
    requires
        s.divisor_code < 8,
        s.lfsr < 0x8000,
    ensures
        s.freq_timer - cycles > 0 ==> s.after_step(cycles).lfsr == s.lfsr,
        s.freq_timer - cycles <= 0 && s.freq_timer - cycles + s.period_spec() > 0 ==> {
            let n = s.after_step(cycles).lfsr;
            let l = s.lfsr;
            &&& (n >> 14u16) & 1 == (l ^ (l >> 1u16)) & 1
            &&& s.width_7 ==> (n >> 6u16) & 1 == (l ^ (l >> 1u16)) & 1
            &&& !s.width_7 ==> (n >> 6u16) & 1 == (l >> 7u16) & 1
        },
{
    let t = s.freq_timer - cycles;
    let p = s.period_spec();
    vstd::arithmetic::power2::lemma_pow2_pos(s.clock_shift as nat);
    assert(p > 0) by (nonlinear_arith)
        requires
            p == noise_divisor(s.divisor_code) * vstd::arithmetic::power2::pow2(s.clock_shift as nat),
            noise_divisor(s.divisor_code) >= 8,
            vstd::arithmetic::power2::pow2(s.clock_shift as nat) > 0;
    if t <= 0 && t + p > 0 {
        assert((-t) / p == 0) by (nonlinear_arith)
            requires 0 <= -t < p;
        assert(reloads(t, p) == 1);
        assert(lfsr_after(s.lfsr, s.width_7, 0) == s.lfsr);
        assert(lfsr_after(s.lfsr, s.width_7, 1) == lfsr_next(lfsr_after(s.lfsr, s.width_7, 0), s.width_7));
        lemma_lfsr_shift(s.lfsr, s.width_7);
    }
}

/// The wave channel's output: while on with its DAC on, the sample at
/// position `pos` is the high nibble of wave RAM byte `pos / 2` for an even
/// position and the low nibble for an odd one, at volume code 1 (100%), 2
/// (50%, halved) or 3 (25%, quartered); code 0 mutes it, as does the channel
/// or its DAC being off.
pub proof fn lemma_wave_output(w: Wave)
    requires
        w.pos < 32,
    ensures
        ({
            let byte = w.ram@[w.pos as int / 2] as int;
            let nib = if w.pos % 2 == 0 { byte / 16 } else { byte % 16 };
            let out = w.sample_spec() as int;
            &&& !w.enabled || !w.dac_on ==> out == 0
            &&& w.enabled && w.dac_on && w.volume_code == 0 ==> out == 0
            &&& w.enabled && w.dac_on && w.volume_code == 1 ==> out == nib
            &&& w.enabled && w.dac_on && w.volume_code == 2 ==> out == nib / 2
            &&& w.enabled && w.dac_on && w.volume_code >= 3 ==> out == nib / 4
        }),
{
    let b = w.ram@[w.pos as int / 2];
    assert((b >> 4u8) as int == b / 16 && (b & 0x0F) as int == b % 16) by (bit_vector);
    let n = w.nibble();
    assert(n <= 15 ==> (n >> 4u8) == 0 && (n >> 0u8) == n && (n >> 1u8) as int == n / 2 && (n >> 2u8) as int == n / 4)
        by (bit_vector);
}

/// A length clock: with length counting enabled and the counter above 0 it
/// counts down by one and turns the channel off when it reaches 0; otherwise
/// the channel is unchanged. (Square channels.)
pub proof fn lemma_square_length(s: Square)
    ensures
        s.length_enabled && s.length_counter > 0 ==> s.after_length_clock().length_counter == s.length_counter - 1
            && s.after_length_clock().enabled == (s.enabled && s.length_counter != 1),
        !(s.length_enabled && s.length_counter > 0) ==> s.after_length_clock() == s,
{
}

/// A length clock of the wave channel, as for the square channels.
pub proof fn lemma_wave_length(s: Wave)
    ensures
        s.length_enabled && s.length_counter > 0 ==> s.after_length_clock().length_counter == s.length_counter - 1
            && s.after_length_clock().enabled == (s.enabled && s.length_counter != 1),
        !(s.length_enabled && s.length_counter > 0) ==> s.after_length_clock() == s,
{
}

/// A length clock of the noise channel, as for the square channels.
pub proof fn lemma_noise_length(s: Noise)
    ensures
        s.length_enabled && s.length_counter > 0 ==> s.after_length_clock().length_counter == s.length_counter - 1
            && s.after_length_clock().enabled == (s.enabled && s.length_counter != 1),
        !(s.length_enabled && s.length_counter > 0) ==> s.after_length_clock() == s,
{
}

/// The frequency sweep: the target is the shadow frequency plus (or, with
/// negate, minus) the shadow divided by 2 to the power of the shift, and a
/// computation whose target passes 2047 turns channel 1 off.
pub proof fn lemma_sweep_target(s: Square)
    requires
        s.sweep_shift < 16,
    ensures
        !s.sweep_negate ==> s.sweep_target() == s.sweep_shadow + s.sweep_shadow as int / (vstd::arithmetic::power2::pow2(
            s.sweep_shift as nat,
        ) as int),
        s.sweep_negate ==> s.sweep_target() == s.sweep_shadow - s.sweep_shadow as int / (vstd::arithmetic::power2::pow2(
            s.sweep_shift as nat,
        ) as int),
        s.after_calc_sweep().enabled == (s.enabled && s.sweep_target() <= 2047),
{
    let (sh, sk) = (s.sweep_shadow, s.sweep_shift);
    vstd::bits::lemma_u16_shr_is_div(sh, sk as u16);
    assert((sh >> sk) == (sh >> (sk as u16))) by (bit_vector)
        requires sk < 16;
}

} // verus!
