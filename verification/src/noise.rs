use vstd::prelude::*;
use crate::tables::{bit_set, counted_down, lemma_byte_bits, length_table, length_value};

verus! {

/// NTSC noise timer periods, indexed by the low four bits of `$400E`.
pub open spec fn noise_period(index: u8) -> u16 {
    match index {
        0 => 4, 1 => 8, 2 => 16, 3 => 32, 4 => 64, 5 => 96, 6 => 128, 7 => 160,
        8 => 202, 9 => 254, 10 => 380, 11 => 508, 12 => 762, 13 => 1016, 14 => 2034, _ => 4068,
    }
}

fn noise_periods_ntsc(index: u8) -> (r: u16)
    requires
        index < 16,
    ensures
        r == noise_period(index),
{
    match index {
        0 => 4, 1 => 8, 2 => 16, 3 => 32, 4 => 64, 5 => 96, 6 => 128, 7 => 160,
        8 => 202, 9 => 254, 10 => 380, 11 => 508, 12 => 762, 13 => 1016, 14 => 2034, _ => 4068,
    }
}

/// One shift of the 15-bit linear feedback shift register: the feedback bit
/// is bit 0 XOR bit 6 (short mode) or bit 0 XOR bit 1 (long mode), shifted
/// in at bit 14.
pub open spec fn lfsr_shifted(lfsr: u16, mode: bool) -> u16 {
    let other: u16 = if mode { (lfsr >> 6) & 1 } else { (lfsr >> 1) & 1 };
    let feedback: u16 = (lfsr & 1) ^ other;
    (lfsr >> 1) | (feedback << 14)
}

/// https://wiki.nesdev.org/w/index.php/APU_Noise
///
/// A 15-bit linear feedback shift register produces pseudo-random bits
/// clocked by a period timer. Envelope and length counter work like those of
/// the pulse channels.
#[derive(Clone, Copy, PartialEq, Eq, Structural, Debug)]
pub struct Noise {
    pub lfsr: u16,
    pub mode: bool,
    pub timer: u16,
    pub timer_reload: u16,
    pub length: u8,
    pub length_enabled: bool,
    pub volume: u8,
    pub volume_constant: u8,
    pub envelope_start: bool,
    pub envelope_timer: u8,
    pub envelope_timer_reload: u8,
    pub envelope_loop: bool,
    pub envelope_enabled: bool,
}

impl Noise {
    /// The shift register is a non-zero 15-bit value (all zeros is a dead
    /// state it could never leave), and the 4-bit registers stay 4-bit.
    pub open spec fn wf(&self) -> bool {
        &&& 0 < self.lfsr < 0x8000
        &&& self.volume <= 15
        &&& self.volume_constant <= 15
        &&& self.envelope_timer_reload <= 15
    }

    pub open spec fn output_level(&self) -> u8 {
        if self.length == 0 || self.lfsr % 2 == 1 {
            0
        } else if self.envelope_enabled {
            self.volume
        } else {
            self.volume_constant
        }
    }

    pub open spec fn initial() -> Noise {
        Noise {
            lfsr: 1,
            mode: false,
            timer: 0,
            timer_reload: 0,
            length: 0,
            length_enabled: true,
            volume: 0,
            volume_constant: 15,
            envelope_start: false,
            envelope_timer: 0,
            envelope_timer_reload: 0,
            envelope_loop: false,
            envelope_enabled: true,
        }
    }

    /// One APU-rate clock of the period timer; at zero it reloads and the
    /// shift register shifts once.
    pub open spec fn timer_clocked(self) -> Noise {
        if self.timer == 0 {
            Noise { timer: self.timer_reload, lfsr: lfsr_shifted(self.lfsr, self.mode), ..self }
        } else {
            Noise { timer: (self.timer - 1) as u16, ..self }
        }
    }

    pub open spec fn length_clocked(self) -> Noise {
        if self.length_enabled && self.length > 0 {
            Noise { length: (self.length - 1) as u8, ..self }
        } else {
            self
        }
    }

    pub open spec fn envelope_clocked(self) -> Noise {
        if self.envelope_start {
            Noise {
                volume: 15,
                envelope_timer: self.envelope_timer_reload,
                envelope_start: false,
                ..self
            }
        } else if self.envelope_timer == 0 {
            let volume: u8 = if self.volume > 0 {
                (self.volume - 1) as u8
            } else if self.envelope_loop {
                15
            } else {
                self.volume
            };
            Noise { volume, envelope_timer: self.envelope_timer_reload, ..self }
        } else {
            Noise { envelope_timer: (self.envelope_timer - 1) as u8, ..self }
        }
    }

/// `self` after `n` envelope clocks.
pub open spec fn envelope_clocked_times(self, n: nat) -> Noise
    decreases n,
{
    if n == 0 {
        self
    } else {
        self.envelope_clocked().envelope_clocked_times((n - 1) as nat)
    }
}

    /// Effect of a write to `$400C`: halt, envelope, volume.
    pub open spec fn ctrl_written(self, data: u8) -> Noise {
        Noise {
            length_enabled: !bit_set(data, 5),
            envelope_loop: bit_set(data, 5),
            envelope_enabled: !bit_set(data, 4),
            envelope_timer_reload: data % 16,
            volume_constant: data % 16,
            ..self
        }
    }

    /// Effect of a write to `$400E`: mode flag and period index.
    pub open spec fn mode_written(self, data: u8) -> Noise {
        Noise { mode: bit_set(data, 7), timer_reload: noise_period(data % 16), ..self }
    }

    /// Effect of a write to `$400F`: length load and envelope restart.
    pub open spec fn length_written(self, data: u8) -> Noise {
        Noise {
            length: if self.length_enabled { length_value(data / 8) } else { self.length },
            envelope_start: true,
            ..self
        }
    }

    pub open spec fn enabled(self) -> Noise {
        Noise { length_enabled: true, ..self }
    }

    pub open spec fn disabled(self) -> Noise {
        Noise { length_enabled: false, length: 0, ..self }
    }

    pub fn new() -> (r: Noise)
        ensures
            r == Noise::initial(),
            r.wf(),
    {
        Noise {
            // The register must start non-zero: all zeros is a dead state.
            lfsr: 1,
            mode: false,
            timer: 0,
            timer_reload: 0,
            length: 0,
            length_enabled: true,
            volume: 0,
            volume_constant: 15,
            envelope_start: false,
            envelope_timer: 0,
            envelope_timer_reload: 0,
            envelope_loop: false,
            envelope_enabled: true,
        }
    }

    pub fn cycle_timer(&mut self)
        ensures
            *final(self) == old(self).timer_clocked(),
            old(self).wf() ==> final(self).wf(),
    {
        if self.timer == 0 {
            self.timer = self.timer_reload;
            let bit0 = self.lfsr & 1;
            let other = if self.mode {
                (self.lfsr >> 6) & 1
            } else {
                (self.lfsr >> 1) & 1
            };
            let feedback = bit0 ^ other;
            proof {
                if 0 < self.lfsr < 0x8000 {
                    lemma_lfsr_shift_stays_live(self.lfsr, self.mode);
                }
            }
            self.lfsr = (self.lfsr >> 1) | (feedback << 14);
        } else {
            self.timer -= 1;
        }
    }

    pub fn cycle_length(&mut self)
        ensures
            *final(self) == old(self).length_clocked(),
            old(self).wf() ==> final(self).wf(),
    {
        if self.length_enabled && self.length > 0 {
            self.length -= 1;
        }
    }

    pub fn cycle_envelope(&mut self)
        ensures
            *final(self) == old(self).envelope_clocked(),
            old(self).wf() ==> final(self).wf(),
    {
        if self.envelope_start {
            self.volume = 15;
            self.envelope_timer = self.envelope_timer_reload;
            self.envelope_start = false;
        } else if self.envelope_timer == 0 {
            if self.volume > 0 {
                self.volume -= 1;
            } else if self.envelope_loop {
                self.volume = 15;
            }
            self.envelope_timer = self.envelope_timer_reload;
        } else {
            self.envelope_timer -= 1;
        }
    }

    pub fn write_ctrl(&mut self, data: u8)
        ensures
            *final(self) == old(self).ctrl_written(data),
            old(self).wf() ==> final(self).wf(),
    {
        assert((data & 0x0F) == data % 16) by (bit_vector);
        proof {
            lemma_byte_bits(data);
        }
        self.length_enabled = (data & 0b0010_0000) == 0;
        self.envelope_loop = (data & 0b0010_0000) != 0;
        self.envelope_enabled = (data & 0b0001_0000) == 0;
        self.envelope_timer_reload = data & 0b0000_1111;
        self.volume_constant = data & 0b0000_1111;
    }

    pub fn write_mode(&mut self, data: u8)
        ensures
            *final(self) == old(self).mode_written(data),
            old(self).wf() ==> final(self).wf(),
    {
        assert((data & 0x0F) == data % 16) by (bit_vector);
        proof {
            lemma_byte_bits(data);
        }
        self.mode = (data & 0b1000_0000) != 0;
        self.timer_reload = noise_periods_ntsc(data & 0b0000_1111);
    }

    pub fn write_length(&mut self, data: u8)
        ensures
            *final(self) == old(self).length_written(data),
            old(self).wf() ==> final(self).wf(),
    {
        if self.length_enabled {
            assert(((data >> 3) & 0x1F) == data / 8) by (bit_vector);
            self.length = length_table((data >> 3) & 0x1F);
        }
        self.envelope_start = true;
    }

    pub fn output(&self) -> (r: u8)
        ensures
            r == self.output_level(),
            self.wf() ==> r <= 15,
    {
        let lfsr = self.lfsr;
        assert((lfsr & 1 != 0) == (lfsr % 2 == 1)) by (bit_vector);
        if self.length == 0 || (self.lfsr & 1) != 0 {
            0
        } else if self.envelope_enabled {
            self.volume
        } else {
            self.volume_constant
        }
    }

    pub fn enable(&mut self)
        ensures
            *final(self) == old(self).enabled(),
            old(self).wf() ==> final(self).wf(),
    {
        self.length_enabled = true;
    }

    pub fn disable(&mut self)
        ensures
            *final(self) == old(self).disabled(),
            old(self).wf() ==> final(self).wf(),
    {
        self.length_enabled = false;
        self.length = 0;
    }
}

/// A shift of a live (non-zero, 15-bit) register gives a live register.
pub proof fn lemma_lfsr_shift_stays_live(lfsr: u16, mode: bool)
    requires
        0 < lfsr < 0x8000,
    ensures
        0 < lfsr_shifted(lfsr, mode) < 0x8000,
{
    let a: u16 = (lfsr >> 6) & 1;
    let b: u16 = (lfsr >> 1) & 1;
    assert(0 < ((lfsr >> 1) | (((lfsr & 1) ^ a) << 14)) < 0x8000) by (bit_vector)
        requires
            0 < lfsr < 0x8000,
            a == (lfsr >> 6) & 1,
    ;
    assert(0 < ((lfsr >> 1) | (((lfsr & 1) ^ b) << 14)) < 0x8000) by (bit_vector)
        requires
            0 < lfsr < 0x8000,
            b == (lfsr >> 1) & 1,
    ;
}


/// From any well-formed state the noise channel never reaches the dead,
/// all-zero shift register: a timer clock keeps it non-zero and 15-bit.
pub proof fn lemma_timer_keeps_register_live(n: Noise)
    requires
        n.wf(),
    ensures
        n.timer_clocked().wf(),
        n.timer_clocked().lfsr != 0,
{
    lemma_lfsr_shift_stays_live(n.lfsr, n.mode);
}

/// The output is silent while bit 0 of the shift register is set or the
/// length counter is zero.
pub proof fn lemma_silent_when_bit0_set(n: Noise)
    ensures
        (n.lfsr % 2 == 1 || n.length == 0) ==> n.output_level() == 0,
{
}


/// One envelope clock: a pending restart sets full volume and reloads the
/// divider; otherwise the divider counts down, and when it expires it
/// reloads and the volume drops by one, or, at 0, wraps to 15 when the
/// envelope loops and stays 0 when it does not. Nothing else changes.
pub proof fn lemma_noise_envelope_clock(x: Noise)
    ensures
        x.envelope_start ==> x.envelope_clocked().volume == 15 && !x.envelope_clocked().envelope_start
            && x.envelope_clocked().envelope_timer == x.envelope_timer_reload,
        !x.envelope_start && x.envelope_timer > 0 ==> x.envelope_clocked().volume == x.volume
            && x.envelope_clocked().envelope_timer == x.envelope_timer - 1,
        !x.envelope_start && x.envelope_timer == 0 ==> x.envelope_clocked().envelope_timer
            == x.envelope_timer_reload,
        !x.envelope_start && x.envelope_timer == 0 && x.volume > 0 ==> x.envelope_clocked().volume
            == x.volume - 1,
        !x.envelope_start && x.envelope_timer == 0 && x.volume == 0 && x.envelope_loop
            ==> x.envelope_clocked().volume == 15,
        !x.envelope_start && x.envelope_timer == 0 && x.volume == 0 && !x.envelope_loop
            ==> x.envelope_clocked().volume == 0,
        x.envelope_clocked() == (Noise {
            volume: x.envelope_clocked().volume,
            envelope_timer: x.envelope_clocked().envelope_timer,
            envelope_start: x.envelope_clocked().envelope_start,
            ..x
        }),
{
}

/// With divider period 0 the envelope decays one step per clock: from
/// volume `v`, `k <= v` clocks later the volume is `v - k`, and one clock
/// after reaching 0 it is back at 15 when looping and still 0 when not.
pub proof fn lemma_noise_envelope_decay(x: Noise, k: nat)
    requires
        !x.envelope_start,
        x.envelope_timer == 0,
        x.envelope_timer_reload == 0,
        k <= x.volume,
    ensures
        x.envelope_clocked_times(k).volume == x.volume - k,
        x.envelope_clocked_times(k).envelope_timer == 0,
        !x.envelope_clocked_times(k).envelope_start,
        x.envelope_clocked_times(k).envelope_loop == x.envelope_loop,
        x.envelope_clocked_times(x.volume as nat + 1).volume == if x.envelope_loop { 15u8 } else { 0u8 },
    decreases k,
{
    if k > 0 {
        lemma_noise_envelope_decay(x.envelope_clocked(), (k - 1) as nat);
    }
    lemma_noise_envelope_decay_end(x);
}

proof fn lemma_noise_envelope_decay_end(x: Noise)
    requires
        !x.envelope_start,
        x.envelope_timer == 0,
        x.envelope_timer_reload == 0,
    ensures
        x.envelope_clocked_times(x.volume as nat + 1).volume == if x.envelope_loop { 15u8 } else { 0u8 },
    decreases x.volume,
{
    if x.volume > 0 {
        lemma_noise_envelope_decay_end(x.envelope_clocked());
        assert(x.envelope_clocked().volume as nat + 1 == x.volume as nat);
    } else {
        assert(x.envelope_clocked_times(1) == x.envelope_clocked().envelope_clocked_times(0));
    }
}


/// One timer clock of the noise channel: the timer counts down, and when it
/// expires the 15-bit shift register moves right by one, taking as its new
/// bit 14 the exclusive or of bit 0 with bit 6 (short mode) or bit 1 (long
/// mode); nothing else changes.
pub proof fn lemma_noise_timer_clock(n: Noise)
    requires
        n.wf(),
    ensures
        n.timer_clocked().timer == counted_down(n.timer, n.timer_reload),
        n.timer > 0 ==> n.timer_clocked().lfsr == n.lfsr,
        n.timer == 0 ==> n.timer_clocked().lfsr & 0x3FFF == (n.lfsr >> 1) & 0x3FFF,
        n.timer == 0 && n.mode ==> (n.timer_clocked().lfsr >> 14) == (n.lfsr ^ (n.lfsr >> 6)) & 1,
        n.timer == 0 && !n.mode ==> (n.timer_clocked().lfsr >> 14) == (n.lfsr ^ (n.lfsr >> 1)) & 1,
        n.timer_clocked() == (Noise { timer: n.timer_clocked().timer, lfsr: n.timer_clocked().lfsr, ..n }),
{
    let l = n.lfsr;
    assert(l < 0x8000 ==> {
        &&& lfsr_shifted(l, true) & 0x3FFF == (l >> 1) & 0x3FFF
        &&& lfsr_shifted(l, false) & 0x3FFF == (l >> 1) & 0x3FFF
        &&& lfsr_shifted(l, true) >> 14 == (l ^ (l >> 6)) & 1
        &&& lfsr_shifted(l, false) >> 14 == (l ^ (l >> 1)) & 1
    }) by (bit_vector);
}

/// What the noise channel outputs: silence while the length counter is zero
/// or bit 0 of the shift register is set; otherwise the envelope volume when
/// the envelope is enabled and the constant volume when not.
pub proof fn lemma_noise_output(n: Noise)
    ensures
        n.length == 0 || n.lfsr & 1 == 1 ==> n.output_level() == 0,
        n.length > 0 && n.lfsr & 1 == 0 && n.envelope_enabled ==> n.output_level() == n.volume,
        n.length > 0 && n.lfsr & 1 == 0 && !n.envelope_enabled ==> n.output_level() == n.volume_constant,
{
    let l = n.lfsr;
    assert(l & 1 == l % 2) by (bit_vector);
}
} // verus!
