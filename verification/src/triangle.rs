use vstd::prelude::*;
use crate::tables::{bit_set, counted_down, lemma_byte_bits, length_table, length_value};

verus! {

/// The 32-step triangle sequence: 15 down to 0, then 0 up to 15.
pub open spec fn triangle_value(step: u8) -> u8 {
    if step < 16 {
        (15 - step) as u8
    } else {
        (step - 16) as u8
    }
}

fn triangle_sequence(step: u8) -> (r: u8)
    requires
        step < 32,
    ensures
        r == triangle_value(step),
{
    if step < 16 {
        15 - step
    } else {
        step - 16
    }
}

/// https://wiki.nesdev.org/w/index.php/APU_Triangle
///
/// Clocked at the CPU rate (not CPU/2 like the pulses). Gated by a length
/// counter and a linear counter: both must be non-zero for the sequencer to
/// advance. Output is a 4-bit value (0-15); there is no volume control.
#[derive(Clone, Copy, PartialEq, Eq, Structural, Debug)]
pub struct Triangle {
    pub timer: u16,
    pub timer_reload: u16,
    pub step: u8,
    pub length: u8,
    pub length_enabled: bool,
    pub linear_counter: u8,
    pub linear_reload: u8,
    pub linear_reload_flag: bool,
    pub halt: bool,
}

impl Triangle {
    pub open spec fn wf(&self) -> bool {
        &&& self.step <= 31
        &&& self.timer_reload <= 0x7FF
        &&& self.linear_reload <= 0x7F
    }

    /// The level the channel outputs: periods below 2 are ultrasonic and are
    /// muted to avoid clicks.
    pub open spec fn output_level(&self) -> u8 {
        if self.timer_reload < 2 {
            0
        } else {
            triangle_value(self.step)
        }
    }

    pub open spec fn initial() -> Triangle {
        Triangle {
            timer: 0,
            timer_reload: 0,
            step: 0,
            length: 0,
            length_enabled: true,
            linear_counter: 0,
            linear_reload: 0,
            linear_reload_flag: false,
            halt: false,
        }
    }

    /// One CPU-rate clock of the period timer. The sequence only advances
    /// while both the length and the linear counter are non-zero.
    pub open spec fn timer_clocked(self) -> Triangle {
        if self.timer == 0 {
            if self.length > 0 && self.linear_counter > 0 {
                Triangle { timer: self.timer_reload, step: ((self.step + 1) % 32) as u8, ..self }
            } else {
                Triangle { timer: self.timer_reload, ..self }
            }
        } else {
            Triangle { timer: (self.timer - 1) as u16, ..self }
        }
    }

    pub open spec fn length_clocked(self) -> Triangle {
        if !self.halt && self.length > 0 {
            Triangle { length: (self.length - 1) as u8, ..self }
        } else {
            self
        }
    }

    /// One quarter-frame clock of the linear counter.
    pub open spec fn linear_clocked(self) -> Triangle {
        let linear_counter: u8 = if self.linear_reload_flag {
            self.linear_reload
        } else if self.linear_counter > 0 {
            (self.linear_counter - 1) as u8
        } else {
            self.linear_counter
        };
        Triangle {
            linear_counter,
            linear_reload_flag: if self.halt { self.linear_reload_flag } else { false },
            ..self
        }
    }

    /// Effect of a write to `$4008`: control flag and linear reload value.
    pub open spec fn ctrl_written(self, data: u8) -> Triangle {
        Triangle {
            halt: bit_set(data, 7),
            length_enabled: !bit_set(data, 7),
            linear_reload: data % 128,
            ..self
        }
    }

    /// Effect of a write to `$400A`: the low eight bits of the period.
    pub open spec fn lo_written(self, data: u8) -> Triangle {
        Triangle { timer_reload: ((self.timer_reload / 256) * 256 + data) as u16, ..self }
    }

    /// Effect of a write to `$400B`: high three bits of the period, length
    /// load, and the linear counter reload flag.
    pub open spec fn hi_written(self, data: u8) -> Triangle {
        Triangle {
            timer_reload: ((self.timer_reload % 256) + (data % 8) * 256) as u16,
            length: if self.length_enabled { length_value(data / 8) } else { self.length },
            linear_reload_flag: true,
            ..self
        }
    }

    pub open spec fn enabled(self) -> Triangle {
        Triangle { length_enabled: true, ..self }
    }

    pub open spec fn disabled(self) -> Triangle {
        Triangle { length_enabled: false, length: 0, ..self }
    }

    pub fn new() -> (r: Triangle)
        ensures
            r == Triangle::initial(),
            r.wf(),
    {
        Triangle {
            timer: 0,
            timer_reload: 0,
            step: 0,
            length: 0,
            length_enabled: true,
            linear_counter: 0,
            linear_reload: 0,
            linear_reload_flag: false,
            halt: false,
        }
    }

    pub fn cycle_timer(&mut self)
        requires
            old(self).wf(),
        ensures
            *final(self) == old(self).timer_clocked(),
            final(self).wf(),
    {
        if self.timer == 0 {
            self.timer = self.timer_reload;
            // Only advance while both counters are armed; this avoids a DC
            // offset when the channel is off.
            if self.length > 0 && self.linear_counter > 0 {
                let step = self.step;
                assert((((step + 1) as u8) & 0x1F) == ((step + 1) % 32) as u8) by (bit_vector)
                    requires
                        step <= 31,
                ;
                self.step = (self.step + 1) & 0x1F;
            }
        } else {
            self.timer -= 1;
        }
    }

    pub fn cycle_length(&mut self)
        ensures
            *final(self) == old(self).length_clocked(),
            old(self).wf() ==> final(self).wf(),
    {
        if !self.halt && self.length > 0 {
            self.length -= 1;
        }
    }

    /// Called on the quarter-frame clock.
    pub fn cycle_linear(&mut self)
        ensures
            *final(self) == old(self).linear_clocked(),
            old(self).wf() ==> final(self).wf(),
    {
        if self.linear_reload_flag {
            self.linear_counter = self.linear_reload;
        } else if self.linear_counter > 0 {
            self.linear_counter -= 1;
        }
        if !self.halt {
            self.linear_reload_flag = false;
        }
    }

    pub fn write_ctrl(&mut self, data: u8)
        ensures
            *final(self) == old(self).ctrl_written(data),
            old(self).wf() ==> final(self).wf(),
    {
        assert((data & 0x7F) == data % 128) by (bit_vector);
        proof {
            lemma_byte_bits(data);
        }
        self.halt = (data & 0x80) != 0;
        self.length_enabled = (data & 0x80) == 0;
        self.linear_reload = data & 0x7F;
    }

    pub fn write_lo(&mut self, data: u8)
        ensures
            *final(self) == old(self).lo_written(data),
            old(self).wf() ==> final(self).wf(),
    {
        let tr = self.timer_reload;
        assert(((tr & 0xFF00) | (data as u16)) == (tr / 256) * 256 + data) by (bit_vector);
        self.timer_reload = (self.timer_reload & 0xFF00) | data as u16;
    }

    pub fn write_hi(&mut self, data: u8)
        ensures
            *final(self) == old(self).hi_written(data),
            old(self).wf() ==> final(self).wf(),
    {
        let tr = self.timer_reload;
        assert(((tr & 0x00FF) | (((data as u16) & 7) << 8)) == (tr % 256) + (data % 8) * 256)
            by (bit_vector);
        self.timer_reload = (self.timer_reload & 0x00FF) | ((data as u16 & 0x07) << 8);
        if self.length_enabled {
            assert(((data >> 3) & 0x1F) == data / 8) by (bit_vector);
            self.length = length_table((data >> 3) & 0x1F);
        }
        self.linear_reload_flag = true;
    }

    pub fn output(&self) -> (r: u8)
        requires
            self.wf(),
        ensures
            r == self.output_level(),
            r <= 15,
    {
        // Ultrasonic periods are muted to avoid DC clicks and aliased hash.
        if self.timer_reload < 2 {
            0
        } else {
            triangle_sequence(self.step)
        }
    }

    pub fn enable(&mut self)
        ensures
            *final(self) == old(self).enabled(),
            old(self).wf() ==> final(self).wf(),
    {
        self.length_enabled = true;
    }

    pub fn disable(&mut self)
        ensures
            *final(self) == old(self).disabled(),
            old(self).wf() ==> final(self).wf(),
    {
        self.length_enabled = false;
        self.length = 0;
    }
}


/// The sequencer holds its position unless both the length counter and the
/// linear counter are armed.
pub proof fn lemma_sequencer_needs_both_counters(t: Triangle)
    ensures
        (t.length == 0 || t.linear_counter == 0) ==> t.timer_clocked().step == t.step,
{
}

/// Ultrasonic periods (below 2) are silent.
pub proof fn lemma_ultrasonic_period_is_silent(t: Triangle)
    ensures
        t.timer_reload < 2 ==> t.output_level() == 0,
{
}

/// The linear counter reloads on the quarter-frame clock after a `$400B`
/// write, and the reload flag stays set only while the control flag halts.
pub proof fn lemma_linear_counter_reloads_after_hi_write(t: Triangle, data: u8)
    ensures
        t.hi_written(data).linear_clocked().linear_counter == t.linear_reload,
        t.hi_written(data).linear_clocked().linear_reload_flag == t.halt,
{
}


/// One timer clock: the timer counts down by one, or from zero reloads the
/// period and then advances the 32-step sequence, but only while both the
/// length and the linear counter are non-zero. Nothing else changes.
pub proof fn lemma_triangle_timer_clock(t: Triangle)
    ensures
        t.timer_clocked().timer == counted_down(t.timer, t.timer_reload),
        t.timer == 0 && t.length > 0 && t.linear_counter > 0 ==> t.timer_clocked().step == (t.step
            + 1) % 32,
        !(t.timer == 0 && t.length > 0 && t.linear_counter > 0) ==> t.timer_clocked().step == t.step,
        t.timer_clocked() == (Triangle {
            timer: t.timer_clocked().timer,
            step: t.timer_clocked().step,
            ..t
        }),
{
}

/// The triangle waveform: from step 0 at level 15 it falls by one per step
/// to 0 at step 15, repeats 0 at step 16, then rises by one per step to 15
/// at step 31, so that the wave is symmetric; periods below 2 are silent.
pub proof fn lemma_triangle_waveform(t: Triangle)
    requires
        t.step < 32,
        t.timer_reload >= 2,
    ensures
        t.step == 0 ==> t.output_level() == 15,
        t.step < 15 ==> (Triangle { step: (t.step + 1) as u8, ..t }).output_level() == t.output_level() - 1,
        t.step == 15 ==> (Triangle { step: 16, ..t }).output_level() == t.output_level(),
        16 <= t.step < 31 ==> (Triangle { step: (t.step + 1) as u8, ..t }).output_level() == t.output_level() + 1,
        (Triangle { step: (31 - t.step) as u8, ..t }).output_level() == t.output_level(),
        (Triangle { timer_reload: 1, ..t }).output_level() == 0,
{
}
} // verus!
