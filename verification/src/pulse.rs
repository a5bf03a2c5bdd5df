use vstd::prelude::*;
use crate::tables::{bit_set, counted_down, bit_value, lemma_byte_bits, length_table, length_value};

verus! {

/// The 8-step duty sequences. Bit N of a pattern is the output level at
/// sequencer step N (stored LSB-first).
pub open spec fn duty_pattern(duty: u8) -> u8 {
    if duty == 0 {
        0b0000_0001  // 12.5%
    } else if duty == 1 {
        0b0000_0011  // 25%
    } else if duty == 2 {
        0b0000_1111  // 50%
    } else {
        0b1111_1100  // 25% inverted
    }
}

/// Whether duty setting `duty` outputs high at sequencer step `step`:
/// 12.5% is high on step 0, 25% on steps 0-1, 50% on steps 0-3, and the
/// inverted 25% on steps 2-7.
pub open spec fn duty_high(duty: u8, step: u8) -> bool {
    if duty == 0 {
        step == 0
    } else if duty == 1 {
        step <= 1
    } else if duty == 2 {
        step <= 3
    } else {
        step >= 2
    }
}

fn pulse_table(duty: u8) -> (r: u8)
    requires
        duty < 4,
    ensures
        r == duty_pattern(duty),
{
    match duty {
        0 => 0b0000_0001,
        1 => 0b0000_0011,
        2 => 0b0000_1111,
        _ => 0b1111_1100,
    }
}

/// https://wiki.nesdev.org/w/index.php/APU_Pulse
///
/// The sequencer is an 8-step position counter, not a rotating bit pattern:
/// `duty` selects the pattern and `step` the position, so rewriting
/// `$4000`/`$4004` mid-note changes the level without restarting the
/// waveform. The sequencer returns to step 0 only on `$4003`/`$4007` writes.
#[derive(Clone, Copy, PartialEq, Eq, Structural, Debug)]
pub struct Pulse {
    pub id: u8,
    pub duty: u8,
    pub step: u8,
    pub length: u8,
    pub length_enabled: bool,
    pub timer: u16,
    pub timer_reload: u16,
    pub volume: u8,
    pub volume_constant: u8,
    pub envelope_start: bool,
    pub envelope_timer: u8,
    pub envelope_timer_reload: u8,
    pub envelope_loop: bool,
    pub envelope_enabled: bool,
    pub sweep_timer: u8,
    pub sweep_negate: bool,
    pub sweep_reload: u8,
    pub sweep_shift: u8,
    pub sweep_enabled: bool,
    pub sweep_reload_flag: bool,
}

impl Pulse {
    /// Register values stay within the widths the hardware gives them.
    pub open spec fn wf(&self) -> bool {
        &&& self.duty <= 3
        &&& self.step <= 7
        &&& self.timer_reload <= 0x7FF
        &&& self.volume <= 15
        &&& self.volume_constant <= 15
        &&& self.envelope_timer_reload <= 15
        &&& self.sweep_reload <= 7
        &&& self.sweep_shift <= 7
    }

    /// The period the sweep unit would move to: the current period plus or
    /// minus the period shifted right by the shift count. Pulse 1 negates in
    /// one's complement (one extra subtracted), pulse 2 in two's complement.
    pub open spec fn target_period(&self) -> int {
        let amount = self.timer_reload as int / bit_value(self.sweep_shift as int);
        let current = self.timer_reload as int;
        if self.sweep_negate {
            if self.id == 1 {
                current - amount - 1
            } else {
                current - amount
            }
        } else {
            current + amount
        }
    }

    /// The channel is silenced while its period is below 8 or the sweep
    /// target period is above `$7FF`.
    pub open spec fn is_sweep_muted(&self) -> bool {
        self.timer_reload < 8 || self.target_period() > 0x7FF
    }

    /// The 4-bit level the channel outputs.
    pub open spec fn output_level(&self) -> u8 {
        if self.length == 0 || self.is_sweep_muted() {
            0
        } else if !duty_high(self.duty, self.step) {
            0
        } else if self.envelope_enabled {
            self.volume
        } else {
            self.volume_constant
        }
    }

    pub open spec fn initial(id: u8) -> Pulse {
        Pulse {
            id,
            duty: 0,
            step: 0,
            length: 0,
            length_enabled: true,
            timer: 0,
            timer_reload: 0,
            volume: 0,
            volume_constant: 15,
            envelope_start: false,
            envelope_timer: 0,
            envelope_timer_reload: 0,
            envelope_loop: false,
            envelope_enabled: true,
            sweep_timer: 0,
            sweep_negate: false,
            sweep_reload: 0,
            sweep_shift: 0,
            sweep_enabled: false,
            sweep_reload_flag: false,
        }
    }

    /// One clock of the period timer: at zero it reloads and the sequencer
    /// moves to the next of its eight steps.
    pub open spec fn timer_clocked(self) -> Pulse {
        if self.timer == 0 {
            Pulse { timer: self.timer_reload, step: ((self.step + 1) % 8) as u8, ..self }
        } else {
            Pulse { timer: (self.timer - 1) as u16, ..self }
        }
    }

    /// One half-frame clock of the length counter.
    pub open spec fn length_clocked(self) -> Pulse {
        if self.length_enabled && self.length > 0 {
            Pulse { length: (self.length - 1) as u8, ..self }
        } else {
            self
        }
    }

    /// One quarter-frame clock of the envelope generator.
    pub open spec fn envelope_clocked(self) -> Pulse {
        if self.envelope_start {
            Pulse {
                volume: 15,
                envelope_timer: self.envelope_timer_reload,
                envelope_start: false,
                ..self
            }
        } else if self.envelope_timer == 0 {
            let volume: u8 = if self.volume > 0 {
                (self.volume - 1) as u8
            } else if self.envelope_loop {
                15
            } else {
                self.volume
            };
            Pulse { volume, envelope_timer: self.envelope_timer_reload, ..self }
        } else {
            Pulse { envelope_timer: (self.envelope_timer - 1) as u8, ..self }
        }
    }

/// `self` after `n` envelope clocks.
pub open spec fn envelope_clocked_times(self, n: nat) -> Pulse
    decreases n,
{
    if n == 0 {
        self
    } else {
        self.envelope_clocked().envelope_clocked_times((n - 1) as nat)
    }
}

    /// Whether this sweep clock moves the period to the target period.
    pub open spec fn sweep_applies(&self) -> bool {
        &&& self.sweep_timer == 0
        &&& self.sweep_enabled
        &&& self.sweep_shift > 0
        &&& !self.is_sweep_muted()
    }

    /// One half-frame clock of the sweep unit.
    pub open spec fn sweep_clocked(self) -> Pulse {
        let timer_reload: u16 = if self.sweep_applies() {
            self.target_period() as u16
        } else {
            self.timer_reload
        };
        if self.sweep_timer == 0 || self.sweep_reload_flag {
            Pulse {
                timer_reload,
                sweep_timer: self.sweep_reload,
                sweep_reload_flag: false,
                ..self
            }
        } else {
            Pulse { timer_reload, sweep_timer: (self.sweep_timer - 1) as u8, ..self }
        }
    }

    /// Effect of a write to `$4000`/`$4004` (duty, halt, envelope): the
    /// sequencer position is kept.
    pub open spec fn ctrl_written(self, data: u8) -> Pulse {
        Pulse {
            duty: data / 64,
            length_enabled: !bit_set(data, 5),
            envelope_loop: bit_set(data, 5),
            envelope_enabled: !bit_set(data, 4),
            envelope_timer_reload: data % 16,
            volume_constant: data % 16,
            ..self
        }
    }

    /// Effect of a write to `$4001`/`$4005` (sweep unit).
    pub open spec fn sweep_written(self, data: u8) -> Pulse {
        Pulse {
            sweep_enabled: bit_set(data, 7),
            sweep_reload: (data / 16) % 8,
            sweep_negate: bit_set(data, 3),
            sweep_shift: data % 8,
            sweep_reload_flag: true,
            ..self
        }
    }

    /// Effect of a write to `$4002`/`$4006`: the low eight bits of the period.
    pub open spec fn lo_written(self, data: u8) -> Pulse {
        Pulse { timer_reload: ((self.timer_reload / 256) * 256 + data) as u16, ..self }
    }

    /// Effect of a write to `$4003`/`$4007`: length load, high three bits of
    /// the period, and restart of the sequencer and envelope.
    pub open spec fn hi_written(self, data: u8) -> Pulse {
        let timer_reload = ((self.timer_reload % 256) + (data % 8) * 256) as u16;
        Pulse {
            length: if self.length_enabled { length_value(data / 8) } else { self.length },
            timer_reload,
            timer: timer_reload,
            step: 0,
            envelope_start: true,
            ..self
        }
    }

    pub open spec fn enabled(self) -> Pulse {
        Pulse { length_enabled: true, ..self }
    }

    pub open spec fn disabled(self) -> Pulse {
        Pulse { length_enabled: false, length: 0, ..self }
    }

    pub fn new(id: u8) -> (r: Pulse)
        ensures
            r == Pulse::initial(id),
            r.wf(),
    {
        Pulse {
            id,
            duty: 0,
            step: 0,
            length: 0,
            length_enabled: true,
            timer: 0,
            timer_reload: 0,
            volume: 0,
            volume_constant: 15,
            envelope_start: false,
            envelope_timer: 0,
            envelope_timer_reload: 0,
            envelope_loop: false,
            envelope_enabled: true,
            sweep_timer: 0,
            sweep_negate: false,
            sweep_reload: 0,
            sweep_shift: 0,
            sweep_enabled: false,
            sweep_reload_flag: false,
        }
    }

    pub fn cycle_timer(&mut self)
        requires
            old(self).wf(),
        ensures
            *final(self) == old(self).timer_clocked(),
            final(self).wf(),
    {
        if self.timer == 0 {
            self.timer = self.timer_reload;
            let step = self.step;
            assert((((step + 1) as u8) & 7) == ((step + 1) % 8) as u8) by (bit_vector)
                requires
                    step <= 7,
            ;
            self.step = (self.step + 1) & 7;
        } else {
            self.timer -= 1;
        }
    }

    pub fn cycle_length(&mut self)
        ensures
            *final(self) == old(self).length_clocked(),
            old(self).wf() ==> final(self).wf(),
    {
        if self.length_enabled && self.length > 0 {
            self.length -= 1;
        }
    }

    pub fn cycle_envelope(&mut self)
        ensures
            *final(self) == old(self).envelope_clocked(),
            old(self).wf() ==> final(self).wf(),
    {
        if self.envelope_start {
            self.volume = 15;
            self.envelope_timer = self.envelope_timer_reload;
            self.envelope_start = false;
        } else if self.envelope_timer == 0 {
            if self.volume > 0 {
                self.volume -= 1;
            } else if self.envelope_loop {
                self.volume = 15;
            }
            self.envelope_timer = self.envelope_timer_reload;
        } else {
            self.envelope_timer -= 1;
        }
    }

    /// Computes the sweep target period as a signed value so that an
    /// underflow on negation is visible.
    fn sweep_target(&self) -> (r: i32)
        requires
            self.wf(),
        ensures
            r == self.target_period(),
    {
        let tr = self.timer_reload;
        let shift = self.sweep_shift;
        assert(tr >> shift == tr / (bit_value(shift as int) as u16)) by (bit_vector)
            requires
                shift <= 7,
        ;
        let amount = (self.timer_reload >> self.sweep_shift) as i32;
        let current = self.timer_reload as i32;
        if self.sweep_negate {
            if self.id == 1 {
                current - amount - 1
            } else {
                current - amount
            }
        } else {
            current + amount
        }
    }

    fn sweep_muting(&self) -> (r: bool)
        requires
            self.wf(),
        ensures
            r == self.is_sweep_muted(),
    {
        self.timer_reload < 8 || self.sweep_target() > 0x7FF
    }

    pub fn cycle_sweep(&mut self)
        requires
            old(self).wf(),
        ensures
            *final(self) == old(self).sweep_clocked(),
            final(self).wf(),
    {
        // A zero shift count is a no-op: the period only moves when every
        // condition holds.
        if self.sweep_timer == 0 && self.sweep_enabled && self.sweep_shift > 0 && !self.sweep_muting() {
            proof {
                lemma_sweep_target_in_range(*self);
            }
            self.timer_reload = self.sweep_target() as u16;
        }
        if self.sweep_timer == 0 || self.sweep_reload_flag {
            self.sweep_timer = self.sweep_reload;
            self.sweep_reload_flag = false;
        } else {
            self.sweep_timer -= 1;
        }
    }

    pub fn write_ctrl(&mut self, data: u8)
        ensures
            *final(self) == old(self).ctrl_written(data),
            old(self).wf() ==> final(self).wf(),
    {
        assert(((data & 0xC0) >> 6) == data / 64 && (data & 0x0F) == data % 16) by (bit_vector);
        proof {
            lemma_byte_bits(data);
        }
        self.duty = (data & 0b1100_0000) >> 6;
        self.length_enabled = (data & 0b0010_0000) == 0;
        self.envelope_loop = (data & 0b0010_0000) > 0;
        self.envelope_enabled = (data & 0b0001_0000) == 0;
        self.envelope_timer_reload = data & 0b0000_1111;
        self.volume_constant = data & 0b0000_1111;
    }

    pub fn write_sweep(&mut self, data: u8)
        ensures
            *final(self) == old(self).sweep_written(data),
            old(self).wf() ==> final(self).wf(),
    {
        assert(((data & 0x70) >> 4) == (data / 16) % 8 && (data & 0x07) == data % 8) by (bit_vector);
        proof {
            lemma_byte_bits(data);
        }
        self.sweep_enabled = (data & 0b1000_0000) > 0;
        self.sweep_reload = (data & 0b0111_0000) >> 4;
        self.sweep_negate = (data & 0b0000_1000) > 0;
        self.sweep_shift = data & 0b0000_0111;
        self.sweep_reload_flag = true;
    }

    pub fn write_lo(&mut self, data: u8)
        ensures
            *final(self) == old(self).lo_written(data),
            old(self).wf() ==> final(self).wf(),
    {
        let tr = self.timer_reload;
        assert(((tr & 0xFF00) | (data as u16)) == (tr / 256) * 256 + data) by (bit_vector);
        self.timer_reload = (self.timer_reload & 0xFF00) | data as u16;
    }

    pub fn write_hi(&mut self, data: u8)
        ensures
            *final(self) == old(self).hi_written(data),
            old(self).wf() ==> final(self).wf(),
    {
        if self.length_enabled {
            assert(((data & 0xF8) >> 3) == data / 8) by (bit_vector);
            self.length = length_table((data & 0b1111_1000) >> 3);
        }
        let tr = self.timer_reload;
        assert(((tr & 0x00FF) | (((data as u16) & 7) << 8)) == (tr % 256) + (data % 8) * 256)
            by (bit_vector);
        self.timer_reload = (self.timer_reload & 0x00FF) | (data as u16 & 0b0000_0111) << 8;
        self.timer = self.timer_reload;
        self.step = 0;
        self.envelope_start = true;
    }

    pub fn output(&self) -> (r: u8)
        requires
            self.wf(),
        ensures
            r == self.output_level(),
            r <= 15,
    {
        if self.length == 0 || self.sweep_muting() {
            0
        } else {
            let pattern = pulse_table(self.duty);
            let duty = self.duty;
            let step = self.step;
            let level = (pattern >> step) & 1;
            assert(level == (if duty_high(duty, step) { 1u8 } else { 0u8 })) by (bit_vector)
                requires
                    level == (pattern >> step) & 1,
                    pattern == duty_pattern(duty),
                    duty <= 3,
                    step <= 7,
            ;
            level * if self.envelope_enabled {
                self.volume
            } else {
                self.volume_constant
            }
        }
    }

    pub fn enable(&mut self)
        ensures
            *final(self) == old(self).enabled(),
            old(self).wf() ==> final(self).wf(),
    {
        self.length_enabled = true;
    }

    pub fn disable(&mut self)
        ensures
            *final(self) == old(self).disabled(),
            old(self).wf() ==> final(self).wf(),
    {
        self.length_enabled = false;
        self.length = 0;
    }
}

/// Rewriting the duty/envelope register mid-note changes the level but keeps
/// the sequencer position and the timer: the waveform is not restarted.
pub proof fn lemma_ctrl_write_keeps_waveform_position(p: Pulse, data: u8)
    ensures
        p.ctrl_written(data).step == p.step,
        p.ctrl_written(data).timer == p.timer,
        p.ctrl_written(data).timer_reload == p.timer_reload,
{
}

/// The sequencer returns to step 0 on a write to the high period register,
/// and on no other register write.
pub proof fn lemma_only_hi_write_restarts_sequencer(p: Pulse, data: u8)
    ensures
        p.hi_written(data).step == 0,
        p.hi_written(data).envelope_start,
        p.ctrl_written(data).step == p.step,
        p.sweep_written(data).step == p.step,
        p.lo_written(data).step == p.step,
        p.enabled().step == p.step,
        p.disabled().step == p.step,
{
}

/// A zero sweep shift count never changes the period; neither does a sweep
/// while the channel is muted by the sweep unit.
pub proof fn lemma_sweep_without_shift_keeps_period(p: Pulse)
    ensures
        (p.sweep_shift == 0 || p.is_sweep_muted()) ==> p.sweep_clocked().timer_reload
            == p.timer_reload,
{
}

/// A channel whose period is below 8, or whose sweep target exceeds `$7FF`,
/// outputs silence, and so does one whose length counter has run out.
pub proof fn lemma_muted_channel_is_silent(p: Pulse)
    ensures
        p.timer_reload < 8 ==> p.output_level() == 0,
        p.target_period() > 0x7FF ==> p.output_level() == 0,
        p.length == 0 ==> p.output_level() == 0,
{
}

/// Disabling the channel clears its length counter, and while it stays
/// disabled a high-register write loads no length.
pub proof fn lemma_disabled_channel_loads_no_length(p: Pulse, data: u8)
    ensures
        p.disabled().length == 0,
        !p.disabled().length_enabled,
        p.disabled().hi_written(data).length == 0,
{
}

/// The envelope restarts at full volume on the clock after a restart.
pub proof fn lemma_envelope_restart_sets_full_volume(p: Pulse)
    requires
        p.envelope_start,
    ensures
        p.envelope_clocked().volume == 15,
        !p.envelope_clocked().envelope_start,
{
}

/// When the sweep is allowed to move the period, the target lies in
/// `0..=0x7FF`.
proof fn lemma_sweep_target_in_range(p: Pulse)
    requires
        p.wf(),
        p.sweep_shift > 0,
        !p.is_sweep_muted(),
    ensures
        0 <= p.target_period() <= 0x7FF,
{
    vstd::arithmetic::div_mod::lemma_div_is_ordered_by_denominator(
        p.timer_reload as int,
        2,
        bit_value(p.sweep_shift as int),
    );
}


/// One envelope clock: a pending restart sets full volume and reloads the
/// divider; otherwise the divider counts down, and when it expires it
/// reloads and the volume drops by one, or, at 0, wraps to 15 when the
/// envelope loops and stays 0 when it does not. Nothing else changes.
pub proof fn lemma_pulse_envelope_clock(x: Pulse)
    ensures
        x.envelope_start ==> x.envelope_clocked().volume == 15 && !x.envelope_clocked().envelope_start
            && x.envelope_clocked().envelope_timer == x.envelope_timer_reload,
        !x.envelope_start && x.envelope_timer > 0 ==> x.envelope_clocked().volume == x.volume
            && x.envelope_clocked().envelope_timer == x.envelope_timer - 1,
        !x.envelope_start && x.envelope_timer == 0 ==> x.envelope_clocked().envelope_timer
            == x.envelope_timer_reload,
        !x.envelope_start && x.envelope_timer == 0 && x.volume > 0 ==> x.envelope_clocked().volume
            == x.volume - 1,
        !x.envelope_start && x.envelope_timer == 0 && x.volume == 0 && x.envelope_loop
            ==> x.envelope_clocked().volume == 15,
        !x.envelope_start && x.envelope_timer == 0 && x.volume == 0 && !x.envelope_loop
            ==> x.envelope_clocked().volume == 0,
        x.envelope_clocked() == (Pulse {
            volume: x.envelope_clocked().volume,
            envelope_timer: x.envelope_clocked().envelope_timer,
            envelope_start: x.envelope_clocked().envelope_start,
            ..x
        }),
{
}

/// With divider period 0 the envelope decays one step per clock: from
/// volume `v`, `k <= v` clocks later the volume is `v - k`, and one clock
/// after reaching 0 it is back at 15 when looping and still 0 when not.
pub proof fn lemma_pulse_envelope_decay(x: Pulse, k: nat)
    requires
        !x.envelope_start,
        x.envelope_timer == 0,
        x.envelope_timer_reload == 0,
        k <= x.volume,
    ensures
        x.envelope_clocked_times(k).volume == x.volume - k,
        x.envelope_clocked_times(k).envelope_timer == 0,
        !x.envelope_clocked_times(k).envelope_start,
        x.envelope_clocked_times(k).envelope_loop == x.envelope_loop,
        x.envelope_clocked_times(x.volume as nat + 1).volume == if x.envelope_loop { 15u8 } else { 0u8 },
    decreases k,
{
    if k > 0 {
        lemma_pulse_envelope_decay(x.envelope_clocked(), (k - 1) as nat);
    }
    lemma_pulse_envelope_decay_end(x);
}

proof fn lemma_pulse_envelope_decay_end(x: Pulse)
    requires
        !x.envelope_start,
        x.envelope_timer == 0,
        x.envelope_timer_reload == 0,
    ensures
        x.envelope_clocked_times(x.volume as nat + 1).volume == if x.envelope_loop { 15u8 } else { 0u8 },
    decreases x.volume,
{
    if x.volume > 0 {
        lemma_pulse_envelope_decay_end(x.envelope_clocked());
        assert(x.envelope_clocked().volume as nat + 1 == x.volume as nat);
    } else {
        assert(x.envelope_clocked_times(1) == x.envelope_clocked().envelope_clocked_times(0));
    }
}


/// What a pulse channel outputs: silence while its length counter is zero,
/// the sweep unit mutes it or the duty sequence is low; otherwise the
/// envelope's current volume when the envelope is enabled, and the constant
/// volume when it is not.
pub proof fn lemma_pulse_output(p: Pulse)
    ensures
        p.length == 0 || p.is_sweep_muted() || !duty_high(p.duty, p.step) ==> p.output_level() == 0,
        p.length > 0 && !p.is_sweep_muted() && duty_high(p.duty, p.step) && p.envelope_enabled
            ==> p.output_level() == p.volume,
        p.length > 0 && !p.is_sweep_muted() && duty_high(p.duty, p.step) && !p.envelope_enabled
            ==> p.output_level() == p.volume_constant,
{
}

/// An envelope-driven note follows its envelope: a sounding channel whose
/// envelope was just restarted plays at full volume after the next envelope
/// clock, whatever its constant-volume field holds.
pub proof fn lemma_envelope_note_starts_loud(p: Pulse)
    requires
        p.envelope_enabled,
        p.envelope_start,
        p.length > 0,
        !p.is_sweep_muted(),
        duty_high(p.duty, p.step),
    ensures
        p.envelope_clocked().output_level() == 15,
{
}

/// One timer clock of a pulse channel: the timer counts down, and from zero
/// reloads the period and moves the eight-step sequencer on by one.
pub proof fn lemma_pulse_timer_clock(p: Pulse)
    ensures
        p.timer_clocked().timer == counted_down(p.timer, p.timer_reload),
        p.timer == 0 ==> p.timer_clocked().step == (p.step + 1) % 8,
        p.timer > 0 ==> p.timer_clocked().step == p.step,
        p.timer_clocked() == (Pulse { timer: p.timer_clocked().timer, step: p.timer_clocked().step, ..p }),
{
}

/// The sweep target: the period plus or minus the period shifted right by
/// the shift count, pulse 1 subtracting one more than pulse 2.
pub proof fn lemma_sweep_target(p: Pulse)
    requires
        p.sweep_shift <= 7,
    ensures
        !p.sweep_negate ==> p.target_period() == p.timer_reload + (p.timer_reload >> p.sweep_shift),
        p.sweep_negate && p.id == 1 ==> p.target_period() == p.timer_reload - (p.timer_reload
            >> p.sweep_shift) - 1,
        p.sweep_negate && p.id != 1 ==> p.target_period() == p.timer_reload - (p.timer_reload
            >> p.sweep_shift),
{
    let t = p.timer_reload;
    assert({
        &&& t >> 0u8 == t / 1
        &&& t >> 1u8 == t / 2
        &&& t >> 2u8 == t / 4
        &&& t >> 3u8 == t / 8
        &&& t >> 4u8 == t / 16
        &&& t >> 5u8 == t / 32
        &&& t >> 6u8 == t / 64
        &&& t >> 7u8 == t / 128
    }) by (bit_vector);
}

/// One sweep clock: the divider reloads when it expires or a reload was
/// asked for, and counts down otherwise; the period moves to the target
/// exactly when the expiring divider finds the unit enabled with a non-zero
/// shift and not muting the channel, and stays otherwise.
pub proof fn lemma_sweep_clock(p: Pulse)
    ensures
        p.sweep_timer == 0 && p.sweep_enabled && p.sweep_shift > 0 && !p.is_sweep_muted()
            ==> p.sweep_clocked().timer_reload == p.target_period(),
        !(p.sweep_timer == 0 && p.sweep_enabled && p.sweep_shift > 0 && !p.is_sweep_muted())
            ==> p.sweep_clocked().timer_reload == p.timer_reload,
        p.sweep_timer == 0 || p.sweep_reload_flag ==> p.sweep_clocked().sweep_timer == p.sweep_reload
            && !p.sweep_clocked().sweep_reload_flag,
        !(p.sweep_timer == 0 || p.sweep_reload_flag) ==> p.sweep_clocked().sweep_timer == p.sweep_timer - 1,
        p.sweep_clocked() == (Pulse {
            timer_reload: p.sweep_clocked().timer_reload,
            sweep_timer: p.sweep_clocked().sweep_timer,
            sweep_reload_flag: p.sweep_clocked().sweep_reload_flag,
            ..p
        }),
{
}
} // verus!
