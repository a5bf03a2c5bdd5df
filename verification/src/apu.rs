use vstd::prelude::*;
use crate::pulse::Pulse;
use crate::triangle::Triangle;
use crate::noise::{Noise, noise_period};
use crate::dmc::{Dmc, dmc_rate};
use crate::tables::{bit_set, counted_down, lemma_byte_bits, lemma_byte_fields, length_value, with_bit, without_bit};

verus! {

/// Bits of the `$4015` status register.
pub const STATUS_DMC_INTERRUPT: u8 = 0b1000_0000;
pub const STATUS_FRAME_INTERRUPT: u8 = 0b0100_0000;
pub const STATUS_DMC: u8 = 0b0001_0000;
pub const STATUS_NOISE: u8 = 0b0000_1000;
pub const STATUS_TRIANGLE: u8 = 0b0000_0100;
pub const STATUS_SQUARE_2: u8 = 0b0000_0010;
pub const STATUS_SQUARE_1: u8 = 0b0000_0001;

/// Number of channels that can be muted: pulse 1, pulse 2, triangle, noise,
/// DMC.
pub const CHANNEL_COUNT: usize = 5;

#[derive(Clone, Copy, PartialEq, Eq, Structural, Debug)]
pub enum FrameCounterMode {
    FourStep,
    FiveStep,
}

/// Frame-counter step (in APU cycles) at which the sequence ends and the
/// counter wraps to 0.
pub open spec fn frame_period(mode: FrameCounterMode) -> usize {
    match mode {
        FrameCounterMode::FourStep => 14915,
        FrameCounterMode::FiveStep => 18641,
    }
}

/// The 4-bit (7-bit for the DMC) level of every channel, with muted channels
/// forced to 0. This is what the mixer takes.
#[derive(Clone, Copy, PartialEq, Eq, Structural, Debug)]
pub struct ChannelLevels {
    pub pulse_1: u8,
    pub pulse_2: u8,
    pub triangle: u8,
    pub noise: u8,
    pub dmc: u8,
}

/// https://wiki.nesdev.org/w/index.php/APU
///
/// The register file, the five channels and the frame counter. `cycles`
/// counts CPU cycles; the pulse and noise timers and the frame counter run on
/// every other one.
pub struct Apu {
    pub status: u8,
    pub mode: FrameCounterMode,
    pub irq_inhibit: bool,
    pub square_1: Pulse,
    pub square_2: Pulse,
    pub triangle: Triangle,
    pub noise: Noise,
    pub dmc: Dmc,
    pub frame: usize,
    /// Per-channel mute flags for debugging: [pulse 1, pulse 2, triangle,
    /// noise, dmc]. Muted channels keep running their internal state so that
    /// unmuting mid-song resumes correctly; only their mixer input is zero.
    pub muted: [bool; 5],
    pub cycles: usize,
}

impl Apu {
    /// Every channel is well formed.
    pub open spec fn channels_wf(&self) -> bool {
        &&& self.square_1.wf()
        &&& self.square_2.wf()
        &&& self.triangle.wf()
        &&& self.noise.wf()
        &&& self.dmc.wf()
    }

    /// Every channel is well formed and the frame counter is inside the
    /// current mode's sequence.
    pub open spec fn wf(&self) -> bool {
        &&& self.channels_wf()
        &&& self.frame < frame_period(self.mode)
    }

    pub open spec fn initial() -> Apu {
        Apu {
            status: 0,
            mode: FrameCounterMode::FiveStep,
            irq_inhibit: false,
            square_1: Pulse::initial(1),
            square_2: Pulse::initial(2),
            triangle: Triangle::initial(),
            noise: Noise::initial(),
            dmc: Dmc::initial(),
            frame: 0,
            muted: [false, false, false, false, false],
            cycles: 0,
        }
    }

    /// Quarter-frame clock: envelopes and the triangle's linear counter.
    pub open spec fn quarter_frame_ticked(self) -> Apu {
        Apu {
            square_1: self.square_1.envelope_clocked(),
            square_2: self.square_2.envelope_clocked(),
            triangle: self.triangle.linear_clocked(),
            noise: self.noise.envelope_clocked(),
            ..self
        }
    }

    /// Half-frame clock: length counters and sweep units.
    pub open spec fn half_frame_ticked(self) -> Apu {
        Apu {
            square_1: self.square_1.length_clocked().sweep_clocked(),
            square_2: self.square_2.length_clocked().sweep_clocked(),
            triangle: self.triangle.length_clocked(),
            noise: self.noise.length_clocked(),
            ..self
        }
    }

    /// One step of the frame counter at the current `frame` position.
    /// https://wiki.nesdev.org/w/index.php/APU_Frame_Counter
    pub open spec fn frame_counter_clocked(self) -> Apu {
        if self.frame == 3729 || self.frame == 11186 {
            self.quarter_frame_ticked()
        } else if self.frame == 7457 {
            self.quarter_frame_ticked().half_frame_ticked()
        } else if self.frame == frame_period(self.mode) {
            let ticked = self.quarter_frame_ticked().half_frame_ticked();
            let raise = self.mode == FrameCounterMode::FourStep && !self.irq_inhibit;
            Apu {
                status: if raise { with_bit(ticked.status, 6) } else { ticked.status },
                frame: 0,
                ..ticked
            }
        } else {
            self
        }
    }

    /// One CPU cycle: triangle and DMC timers every cycle; pulse and noise
    /// timers and the frame counter every other cycle.
    pub open spec fn cycled(self) -> Apu {
        let every = Apu {
            triangle: self.triangle.timer_clocked(),
            dmc: self.dmc.timer_clocked(),
            ..self
        };
        if self.cycles % 2 == 0 {
            Apu {
                square_1: every.square_1.timer_clocked(),
                square_2: every.square_2.timer_clocked(),
                noise: every.noise.timer_clocked(),
                frame: (every.frame + 1) as usize,
                ..every
            }.frame_counter_clocked()
        } else {
            every
        }
    }

    /// The value read from `$4015`: one bit per running length counter
    /// (bits 0-3), the DMC playing (bit 4), the frame interrupt (bit 6) and
    /// the DMC interrupt (bit 7).
    pub open spec fn status_byte(&self) -> u8 {
        ((if self.square_1.length > 0 { 1int } else { 0 }) + (if self.square_2.length > 0 {
            2int
        } else {
            0
        }) + (if self.triangle.length > 0 { 4int } else { 0 }) + (if self.noise.length > 0 {
            8int
        } else {
            0
        }) + (if self.dmc.bytes_remaining > 0 { 16int } else { 0 }) + (if bit_set(self.status, 6) {
            64int
        } else {
            0
        }) + (if self.dmc.irq_flag { 128int } else { 0 })) as u8
    }

    /// Effect of a write to `$4015`: each channel is enabled or disabled by
    /// its bit, and the DMC IRQ flag is cleared.
    pub open spec fn channels_written(self, data: u8) -> Apu {
        let dmc = if bit_set(data, 4) { self.dmc.enabled() } else { self.dmc.disabled() };
        Apu {
            square_1: if bit_set(data, 0) {
                self.square_1.enabled()
            } else {
                self.square_1.disabled()
            },
            square_2: if bit_set(data, 1) {
                self.square_2.enabled()
            } else {
                self.square_2.disabled()
            },
            triangle: if bit_set(data, 2) {
                self.triangle.enabled()
            } else {
                self.triangle.disabled()
            },
            noise: if bit_set(data, 3) {
                self.noise.enabled()
            } else {
                self.noise.disabled()
            },
            dmc: Dmc { irq_flag: false, ..dmc },
            ..self
        }
    }

    /// Effect of a write to `$4017`: mode and IRQ inhibit; inhibiting clears
    /// the frame interrupt; five-step mode clocks a quarter and a half frame
    /// at once; the sequence restarts.
    pub open spec fn frame_counter_written(self, data: u8) -> Apu {
        let five_step = bit_set(data, 7);
        let inhibit = bit_set(data, 6);
        let set = Apu {
            mode: if five_step { FrameCounterMode::FiveStep } else { FrameCounterMode::FourStep },
            irq_inhibit: inhibit,
            status: if inhibit { without_bit(self.status, 6) } else { self.status },
            ..self
        };
        let ticked = if five_step { set.quarter_frame_ticked().half_frame_ticked() } else { set };
        Apu { frame: 0, ..ticked }
    }

    /// Effect of a CPU write of `data` to `address`.
    pub open spec fn register_written(self, address: u16, data: u8) -> Apu {
        if address == 0x4000 {
            Apu { square_1: self.square_1.ctrl_written(data), ..self }
        } else if address == 0x4001 {
            Apu { square_1: self.square_1.sweep_written(data), ..self }
        } else if address == 0x4002 {
            Apu { square_1: self.square_1.lo_written(data), ..self }
        } else if address == 0x4003 {
            Apu { square_1: self.square_1.hi_written(data), ..self }
        } else if address == 0x4004 {
            Apu { square_2: self.square_2.ctrl_written(data), ..self }
        } else if address == 0x4005 {
            Apu { square_2: self.square_2.sweep_written(data), ..self }
        } else if address == 0x4006 {
            Apu { square_2: self.square_2.lo_written(data), ..self }
        } else if address == 0x4007 {
            Apu { square_2: self.square_2.hi_written(data), ..self }
        } else if address == 0x4008 {
            Apu { triangle: self.triangle.ctrl_written(data), ..self }
        } else if address == 0x400A {
            Apu { triangle: self.triangle.lo_written(data), ..self }
        } else if address == 0x400B {
            Apu { triangle: self.triangle.hi_written(data), ..self }
        } else if address == 0x400C {
            Apu { noise: self.noise.ctrl_written(data), ..self }
        } else if address == 0x400E {
            Apu { noise: self.noise.mode_written(data), ..self }
        } else if address == 0x400F {
            Apu { noise: self.noise.length_written(data), ..self }
        } else if address == 0x4010 {
            Apu { dmc: self.dmc.ctrl_written(data), ..self }
        } else if address == 0x4011 {
            Apu { dmc: self.dmc.dac_written(data), ..self }
        } else if address == 0x4012 {
            Apu { dmc: self.dmc.address_written(data), ..self }
        } else if address == 0x4013 {
            Apu { dmc: self.dmc.length_written(data), ..self }
        } else if address == 0x4015 {
            self.channels_written(data)
        } else if address == 0x4017 {
            self.frame_counter_written(data)
        } else {
            self
        }
    }

    /// The level each channel feeds the mixer, zero for a muted channel.
    pub open spec fn mixer_levels(&self) -> ChannelLevels {
        ChannelLevels {
            pulse_1: if self.muted[0] { 0 } else { self.square_1.output_level() },
            pulse_2: if self.muted[1] { 0 } else { self.square_2.output_level() },
            triangle: if self.muted[2] { 0 } else { self.triangle.output_level() },
            noise: if self.muted[3] { 0 } else { self.noise.output_level() },
            dmc: if self.muted[4] { 0 } else { self.dmc.output },
        }
    }

    pub fn new() -> (r: Apu)
        ensures
            r == Apu::initial(),
            r.wf(),
    {
        Apu {
            status: 0,
            mode: FrameCounterMode::FiveStep,
            irq_inhibit: false,
            square_1: Pulse::new(1),
            square_2: Pulse::new(2),
            triangle: Triangle::new(),
            noise: Noise::new(),
            dmc: Dmc::new(),
            frame: 0,
            muted: [false, false, false, false, false],
            cycles: 0,
        }
    }

    pub fn set_channel_muted(&mut self, channel: usize, muted: bool)
        ensures
            *final(self) == (Apu { muted: final(self).muted, ..*old(self) }),
            channel < CHANNEL_COUNT ==> final(self).muted@ == old(self).muted@.update(
                channel as int,
                muted,
            ),
            channel >= CHANNEL_COUNT ==> final(self).muted == old(self).muted,
    {
        if channel < self.muted.len() {
            self.muted[channel] = muted;
        }
    }
    fn tick_quarter_frame(&mut self)
        ensures
            *final(self) == old(self).quarter_frame_ticked(),
            old(self).channels_wf() ==> final(self).channels_wf(),
    {
        self.square_1.cycle_envelope();
        self.square_2.cycle_envelope();
        self.triangle.cycle_linear();
        self.noise.cycle_envelope();
    }

    fn tick_half_frame(&mut self)
        requires
            old(self).square_1.wf(),
            old(self).square_2.wf(),
        ensures
            *final(self) == old(self).half_frame_ticked(),
            old(self).channels_wf() ==> final(self).channels_wf(),
    {
        self.square_1.cycle_length();
        self.square_1.cycle_sweep();
        self.square_2.cycle_length();
        self.square_2.cycle_sweep();
        self.triangle.cycle_length();
        self.noise.cycle_length();
    }

    /// https://wiki.nesdev.org/w/index.php/APU_Frame_Counter
    pub fn cycle_frame(&mut self)
        requires
            old(self).square_1.wf(),
            old(self).square_2.wf(),
        ensures
            *final(self) == old(self).frame_counter_clocked(),
            old(self).channels_wf() ==> final(self).channels_wf(),
            old(self).frame <= frame_period(old(self).mode) ==> final(self).frame < frame_period(
                final(self).mode,
            ),
    {
        match self.mode {
            FrameCounterMode::FourStep => {
                if self.frame == 3729 || self.frame == 11186 {
                    self.tick_quarter_frame();
                } else if self.frame == 7457 {
                    self.tick_quarter_frame();
                    self.tick_half_frame();
                } else if self.frame == 14915 {
                    self.tick_quarter_frame();
                    self.tick_half_frame();
                    if !self.irq_inhibit {
                        proof {
                            lemma_byte_bits(self.status);
                        }
                        self.status |= STATUS_FRAME_INTERRUPT;
                    }
                    self.frame = 0;
                }
            },
            FrameCounterMode::FiveStep => {
                if self.frame == 3729 || self.frame == 11186 {
                    self.tick_quarter_frame();
                } else if self.frame == 7457 {
                    self.tick_quarter_frame();
                    self.tick_half_frame();
                } else if self.frame == 18641 {
                    self.tick_quarter_frame();
                    self.tick_half_frame();
                    self.frame = 0;
                }
            },
        }
    }

    /// One CPU cycle of the APU (the caller advances `cycles` before it).
    pub fn cycle(&mut self)
        requires
            old(self).wf(),
        ensures
            *final(self) == old(self).cycled(),
            final(self).wf(),
    {
        // Triangle and DMC are both clocked at CPU rate.
        self.triangle.cycle_timer();
        self.dmc.cycle_timer();

        if self.cycles % 2 == 0 {
            self.square_1.cycle_timer();
            self.square_2.cycle_timer();
            self.noise.cycle_timer();
            self.frame += 1;

            self.cycle_frame();
        }
    }

    pub fn reset(&mut self)
        requires
            old(self).wf(),
        ensures
            *final(self) == (Apu { status: 0, frame: 0, ..*old(self) }).channels_written(0),
            final(self).wf(),
    {
        self.status = 0;
        self.frame = 0;
        self.write(0x4015, 0);
    }

    /// The level each channel currently feeds the mixer.
    pub fn levels(&self) -> (r: ChannelLevels)
        requires
            self.wf(),
        ensures
            r == self.mixer_levels(),
            r.pulse_1 <= 15 && r.pulse_2 <= 15 && r.triangle <= 15 && r.noise <= 15,
            r.dmc <= 127,
    {
        ChannelLevels {
            pulse_1: if self.muted[0] { 0 } else { self.square_1.output() },
            pulse_2: if self.muted[1] { 0 } else { self.square_2.output() },
            triangle: if self.muted[2] { 0 } else { self.triangle.output() },
            noise: if self.muted[3] { 0 } else { self.noise.output() },
            dmc: if self.muted[4] { 0 } else { self.dmc.output() },
        }
    }

    /// Read of an APU register. Only `$4015` is readable; reading it clears
    /// the frame interrupt flag (but not the DMC interrupt).
    pub fn read(&mut self, address: u16) -> (r: u8)
        requires
            address == 0x4015,
        ensures
            r == old(self).status_byte(),
            *final(self) == (Apu { status: without_bit(old(self).status, 6), ..*old(self) }),
    {
        let b0 = self.square_1.length > 0;
        let b1 = self.square_2.length > 0;
        let b2 = self.triangle.length > 0;
        let b3 = self.noise.length > 0;
        let b4 = self.dmc.active();
        let b6 = (self.status & STATUS_FRAME_INTERRUPT) > 0;
        let b7 = self.dmc.irq_flag;
        let status = (if b0 { STATUS_SQUARE_1 } else { 0 }) | (if b1 { STATUS_SQUARE_2 } else { 0 })
            | (if b2 { STATUS_TRIANGLE } else { 0 }) | (if b3 { STATUS_NOISE } else { 0 }) | (if b4 {
            STATUS_DMC
        } else {
            0
        }) | (if b6 { STATUS_FRAME_INTERRUPT } else { 0 }) | (if b7 { STATUS_DMC_INTERRUPT } else {
            0
        });
        proof {
            lemma_byte_bits(self.status);
            lemma_or_of_flags(b0, b1, b2, b3, b4, b6, b7);
        }
        self.status &= !STATUS_FRAME_INTERRUPT;
        status
    }

    /// Side-effect-free read: the raw status register for `$4015`, nothing
    /// for any other address.
    pub fn peek(&self, address: u16) -> (r: Option<u8>)
        ensures
            r == (if address == 0x4015 { Some(self.status) } else { None }),
    {
        if address == 0x4015 {
            Some(self.status)
        } else {
            None
        }
    }

    /// `$4015` write: enable or disable each channel by its bit.
    #[verifier::rlimit(50)]
    fn write_channel_enables(&mut self, data: u8)
        ensures
            *final(self) == old(self).channels_written(data),
            old(self).wf() ==> final(self).wf(),
    {
        proof {
            lemma_byte_bits(data);
        }
        if (data & STATUS_SQUARE_1) > 0 {
            self.square_1.enable();
        } else {
            self.square_1.disable();
        }
        if (data & STATUS_SQUARE_2) > 0 {
            self.square_2.enable();
        } else {
            self.square_2.disable();
        }
        if (data & STATUS_TRIANGLE) > 0 {
            self.triangle.enable();
        } else {
            self.triangle.disable();
        }
        if (data & STATUS_NOISE) > 0 {
            self.noise.enable();
        } else {
            self.noise.disable();
        }
        if (data & STATUS_DMC) > 0 {
            self.dmc.enable();
        } else {
            self.dmc.disable();
        }
        // Writing $4015 always clears the DMC IRQ flag.
        self.dmc.clear_irq();
    }

    /// `$4017` write: frame counter mode and IRQ inhibit.
    fn write_frame_counter(&mut self, data: u8)
        requires
            old(self).wf(),
        ensures
            *final(self) == old(self).frame_counter_written(data),
            final(self).wf(),
    {
        proof {
            lemma_byte_bits(data);
            lemma_byte_bits(self.status);
        }
        self.mode = if (data & 0b1000_0000) > 0 {
            FrameCounterMode::FiveStep
        } else {
            FrameCounterMode::FourStep
        };
        self.irq_inhibit = (data & 0b0100_0000) > 0;
        if self.irq_inhibit {
            self.status &= !STATUS_FRAME_INTERRUPT;
        }
        if self.mode == FrameCounterMode::FiveStep {
            self.tick_quarter_frame();
            self.tick_half_frame();
        }
        self.frame = 0;
    }

    /// CPU write of `data` to APU register `address`. Writes to unused
    /// addresses are ignored.
    pub fn write(&mut self, address: u16, data: u8)
        requires
            old(self).wf(),
        ensures
            *final(self) == old(self).register_written(address, data),
            final(self).wf(),
    {
        match address {
            // Pulse 1
            0x4000 => self.square_1.write_ctrl(data),
            0x4001 => self.square_1.write_sweep(data),
            0x4002 => self.square_1.write_lo(data),
            0x4003 => self.square_1.write_hi(data),
            // Pulse 2
            0x4004 => self.square_2.write_ctrl(data),
            0x4005 => self.square_2.write_sweep(data),
            0x4006 => self.square_2.write_lo(data),
            0x4007 => self.square_2.write_hi(data),
            // Triangle
            0x4008 => self.triangle.write_ctrl(data),
            0x400A => self.triangle.write_lo(data),
            0x400B => self.triangle.write_hi(data),
            // Noise
            0x400C => self.noise.write_ctrl(data),
            0x400E => self.noise.write_mode(data),
            0x400F => self.noise.write_length(data),
            // DMC
            0x4010 => self.dmc.write_ctrl(data),
            0x4011 => self.dmc.write_dac(data),
            0x4012 => self.dmc.write_address(data),
            0x4013 => self.dmc.write_length(data),
            // Status (channel enable)
            0x4015 => self.write_channel_enables(data),
            // Frame counter
            0x4017 => self.write_frame_counter(data),
            _ => {},
        }
    }
}


/// Or-ing distinct single-bit flags adds them.
proof fn lemma_or_of_flags(b0: bool, b1: bool, b2: bool, b3: bool, b4: bool, b6: bool, b7: bool)
    ensures
        ((if b0 { 1u8 } else { 0u8 }) | (if b1 { 2u8 } else { 0u8 }) | (if b2 { 4u8 } else { 0u8 })
            | (if b3 { 8u8 } else { 0u8 }) | (if b4 { 16u8 } else { 0u8 }) | (if b6 {
            64u8
        } else {
            0u8
        }) | (if b7 { 128u8 } else { 0u8 })) as int == (if b0 { 1int } else { 0 }) + (if b1 {
            2int
        } else {
            0
        }) + (if b2 { 4int } else { 0 }) + (if b3 { 8int } else { 0 }) + (if b4 { 16int } else {
            0
        }) + (if b6 { 64int } else { 0 }) + (if b7 { 128int } else { 0 }),
{
    assert(((if b0 { 1u8 } else { 0u8 }) | (if b1 { 2u8 } else { 0u8 }) | (if b2 {
        4u8
    } else {
        0u8
    }) | (if b3 { 8u8 } else { 0u8 }) | (if b4 { 16u8 } else { 0u8 }) | (if b6 { 64u8 } else {
        0u8
    }) | (if b7 { 128u8 } else { 0u8 })) == (if b0 { 1u8 } else { 0u8 }) + (if b1 {
        2u8
    } else {
        0u8
    }) + (if b2 { 4u8 } else { 0u8 }) + (if b3 { 8u8 } else { 0u8 }) + (if b4 { 16u8 } else {
        0u8
    }) + (if b6 { 64u8 } else { 0u8 }) + (if b7 { 128u8 } else { 0u8 })) by (bit_vector);
}

/// Reading `$4015` reports, bit by bit, which length counters are non-zero,
/// whether the DMC is playing, and the two interrupt flags.
pub proof fn lemma_status_byte_bits(a: Apu)
    ensures
        bit_set(a.status_byte(), 0) == (a.square_1.length > 0),
        bit_set(a.status_byte(), 1) == (a.square_2.length > 0),
        bit_set(a.status_byte(), 2) == (a.triangle.length > 0),
        bit_set(a.status_byte(), 3) == (a.noise.length > 0),
        bit_set(a.status_byte(), 4) == (a.dmc.bytes_remaining > 0),
        !bit_set(a.status_byte(), 5),
        bit_set(a.status_byte(), 6) == bit_set(a.status, 6),
        bit_set(a.status_byte(), 7) == a.dmc.irq_flag,
{
}

/// A `$4015` read clears the frame interrupt flag and leaves the DMC
/// interrupt flag, which only a `$4015` write or a `$4010` write with IRQs
/// disabled clears.
pub proof fn lemma_status_read_clears_only_frame_interrupt(a: Apu)
    ensures
        !bit_set(without_bit(a.status, 6), 6),
        (Apu { status: without_bit(a.status, 6), ..a }).dmc.irq_flag == a.dmc.irq_flag,
        !a.register_written(0x4015, 0).dmc.irq_flag,
{
}

/// Writing `$4015` with a channel's bit clear silences that channel's length
/// counter, so the status read reports it as off.
pub proof fn lemma_disabled_channels_report_off(a: Apu, data: u8)
    ensures
        !bit_set(data, 0) ==> a.register_written(0x4015, data).square_1.length == 0,
        !bit_set(data, 1) ==> a.register_written(0x4015, data).square_2.length == 0,
        !bit_set(data, 2) ==> a.register_written(0x4015, data).triangle.length == 0,
        !bit_set(data, 3) ==> a.register_written(0x4015, data).noise.length == 0,
        !bit_set(data, 4) ==> a.register_written(0x4015, data).dmc.bytes_remaining == 0,
{
}

/// Muting is for the mixer only: a muted channel keeps running exactly as an
/// unmuted one, and its mixer level is zero.
pub proof fn lemma_muting_only_silences_mixer(a: Apu, muted: [bool; 5])
    ensures
        (Apu { muted, ..a }).cycled() == (Apu { muted, ..a.cycled() }),
        muted[0] ==> (Apu { muted, ..a }).mixer_levels().pulse_1 == 0,
        muted[1] ==> (Apu { muted, ..a }).mixer_levels().pulse_2 == 0,
        muted[2] ==> (Apu { muted, ..a }).mixer_levels().triangle == 0,
        muted[3] ==> (Apu { muted, ..a }).mixer_levels().noise == 0,
        muted[4] ==> (Apu { muted, ..a }).mixer_levels().dmc == 0,
{
}

/// Five-step mode never raises the frame interrupt; four-step mode raises it
/// at the end of its sequence unless inhibited.
pub proof fn lemma_frame_interrupt_only_in_four_step_mode(a: Apu)
    ensures
        a.mode == FrameCounterMode::FiveStep ==> a.frame_counter_clocked().status == a.status,
        a.mode == FrameCounterMode::FourStep && a.frame == 14915 && !a.irq_inhibit ==> bit_set(
            a.frame_counter_clocked().status,
            6,
        ),
        a.mode == FrameCounterMode::FourStep && a.irq_inhibit ==> a.frame_counter_clocked().status
            == a.status,
{
}

/// Setting the IRQ inhibit flag through `$4017` clears the frame interrupt,
/// and any `$4017` write restarts the frame sequence.
pub proof fn lemma_frame_counter_write(a: Apu, data: u8)
    ensures
        a.register_written(0x4017, data).frame == 0,
        bit_set(data, 6) ==> !bit_set(a.register_written(0x4017, data).status, 6),
{
}


// ---------------------------------------------------------------------------
// The register map, bit by bit.
// ---------------------------------------------------------------------------

/// `$4000` / `$4004`: duty (bits 6-7), length-counter halt and envelope loop
/// (bit 5), constant volume (bit 4) and volume / envelope period (bits 0-3)
/// of pulse 1 / pulse 2. Nothing else changes.
pub proof fn lemma_pulse_ctrl_registers(a: Apu, d: u8)
    ensures
        a.register_written(0x4000, d) == (Apu {
            square_1: Pulse {
                duty: d >> 6,
                length_enabled: d & 0x20 == 0,
                envelope_loop: d & 0x20 != 0,
                envelope_enabled: d & 0x10 == 0,
                envelope_timer_reload: d & 0x0F,
                volume_constant: d & 0x0F,
                ..a.square_1
            },
            ..a
        }),
        a.register_written(0x4004, d) == (Apu {
            square_2: Pulse {
                duty: d >> 6,
                length_enabled: d & 0x20 == 0,
                envelope_loop: d & 0x20 != 0,
                envelope_enabled: d & 0x10 == 0,
                envelope_timer_reload: d & 0x0F,
                volume_constant: d & 0x0F,
                ..a.square_2
            },
            ..a
        }),
{
    lemma_byte_bits(d);
    lemma_byte_fields(d);
}

/// `$4001` / `$4005` set up the sweep unit of pulse 1 / pulse 2: enable
/// (bit 7), divider period (bits 4-6), negate (bit 3) and shift count
/// (bits 0-2), and ask for a divider reload. Nothing else changes.
pub proof fn lemma_pulse_sweep_registers(a: Apu, d: u8)
    ensures
        a.register_written(0x4001, d) == (Apu {
            square_1: Pulse {
                sweep_enabled: d & 0x80 != 0,
                sweep_reload: (d >> 4) & 7,
                sweep_negate: d & 0x08 != 0,
                sweep_shift: d & 7,
                sweep_reload_flag: true,
                ..a.square_1
            },
            ..a
        }),
        a.register_written(0x4005, d) == (Apu {
            square_2: Pulse {
                sweep_enabled: d & 0x80 != 0,
                sweep_reload: (d >> 4) & 7,
                sweep_negate: d & 0x08 != 0,
                sweep_shift: d & 7,
                sweep_reload_flag: true,
                ..a.square_2
            },
            ..a
        }),
{
    lemma_byte_bits(d);
    lemma_byte_fields(d);
}

/// `$4002` / `$4006` replace the low eight bits of the pulse period and keep
/// its high bits; `$4003` / `$4007` replace the high three bits, keep the
/// low eight, reload the timer, restart the sequencer and the envelope, and
/// load the length counter from bits 3-7 unless it is halted by `$4015`.
pub proof fn lemma_pulse_period_registers(a: Apu, d: u8)
    ensures
        a.register_written(0x4002, d).square_1.timer_reload % 256 == d,
        a.register_written(0x4002, d).square_1.timer_reload / 256 == a.square_1.timer_reload / 256,
        a.register_written(0x4002, d) == (Apu {
            square_1: Pulse {
                timer_reload: a.register_written(0x4002, d).square_1.timer_reload,
                ..a.square_1
            },
            ..a
        }),
        a.register_written(0x4006, d).square_2.timer_reload % 256 == d,
        a.register_written(0x4006, d).square_2.timer_reload / 256 == a.square_2.timer_reload / 256,
        a.register_written(0x4006, d) == (Apu {
            square_2: Pulse {
                timer_reload: a.register_written(0x4006, d).square_2.timer_reload,
                ..a.square_2
            },
            ..a
        }),
        a.register_written(0x4003, d).square_1.timer_reload % 256 == a.square_1.timer_reload % 256,
        a.register_written(0x4003, d).square_1.timer_reload / 256 == d & 7,
        a.register_written(0x4003, d) == (Apu {
            square_1: Pulse {
                timer_reload: a.register_written(0x4003, d).square_1.timer_reload,
                timer: a.register_written(0x4003, d).square_1.timer_reload,
                step: 0,
                envelope_start: true,
                length: if a.square_1.length_enabled {
                    length_value(d >> 3)
                } else {
                    a.square_1.length
                },
                ..a.square_1
            },
            ..a
        }),
        a.register_written(0x4007, d).square_2.timer_reload % 256 == a.square_2.timer_reload % 256,
        a.register_written(0x4007, d).square_2.timer_reload / 256 == d & 7,
        a.register_written(0x4007, d) == (Apu {
            square_2: Pulse {
                timer_reload: a.register_written(0x4007, d).square_2.timer_reload,
                timer: a.register_written(0x4007, d).square_2.timer_reload,
                step: 0,
                envelope_start: true,
                length: if a.square_2.length_enabled {
                    length_value(d >> 3)
                } else {
                    a.square_2.length
                },
                ..a.square_2
            },
            ..a
        }),
{
    lemma_byte_fields(d);
}

/// `$4008`: length-counter halt / linear-counter control (bit 7) and linear
/// reload value (bits 0-6); `$400A` / `$400B`: the low / high bits of the
/// triangle period, the high write also loading the length counter (unless
/// halted by `$4015`) and asking for a linear-counter reload.
pub proof fn lemma_triangle_registers(a: Apu, d: u8)
    ensures
        a.register_written(0x4008, d) == (Apu {
            triangle: Triangle {
                halt: d & 0x80 != 0,
                length_enabled: d & 0x80 == 0,
                linear_reload: d & 0x7F,
                ..a.triangle
            },
            ..a
        }),
        a.register_written(0x400A, d).triangle.timer_reload % 256 == d,
        a.register_written(0x400A, d).triangle.timer_reload / 256 == a.triangle.timer_reload / 256,
        a.register_written(0x400A, d) == (Apu {
            triangle: Triangle {
                timer_reload: a.register_written(0x400A, d).triangle.timer_reload,
                ..a.triangle
            },
            ..a
        }),
        a.register_written(0x400B, d).triangle.timer_reload % 256 == a.triangle.timer_reload % 256,
        a.register_written(0x400B, d).triangle.timer_reload / 256 == d & 7,
        a.register_written(0x400B, d) == (Apu {
            triangle: Triangle {
                timer_reload: a.register_written(0x400B, d).triangle.timer_reload,
                length: if a.triangle.length_enabled {
                    length_value(d >> 3)
                } else {
                    a.triangle.length
                },
                linear_reload_flag: true,
                ..a.triangle
            },
            ..a
        }),
{
    lemma_byte_bits(d);
    lemma_byte_fields(d);
}

/// `$400C`: length-counter halt and envelope loop (bit 5), constant volume
/// (bit 4), volume / envelope period (bits 0-3); `$400E`: mode (bit 7) and
/// period index (bits 0-3); `$400F`: length load from bits 3-7 (unless
/// halted by `$4015`) and envelope restart.
pub proof fn lemma_noise_registers(a: Apu, d: u8)
    ensures
        a.register_written(0x400C, d) == (Apu {
            noise: Noise {
                length_enabled: d & 0x20 == 0,
                envelope_loop: d & 0x20 != 0,
                envelope_enabled: d & 0x10 == 0,
                envelope_timer_reload: d & 0x0F,
                volume_constant: d & 0x0F,
                ..a.noise
            },
            ..a
        }),
        a.register_written(0x400E, d) == (Apu {
            noise: Noise { mode: d & 0x80 != 0, timer_reload: noise_period(d & 0x0F), ..a.noise },
            ..a
        }),
        a.register_written(0x400F, d) == (Apu {
            noise: Noise {
                length: if a.noise.length_enabled {
                    length_value(d >> 3)
                } else {
                    a.noise.length
                },
                envelope_start: true,
                ..a.noise
            },
            ..a
        }),
{
    lemma_byte_bits(d);
    lemma_byte_fields(d);
}

/// `$4010`: IRQ enable (bit 7, clearing it also clears the DMC interrupt),
/// loop (bit 6) and rate index (bits 0-3); `$4011`: the 7-bit DAC level;
/// `$4012`: sample address `$C000 + 64 * d`; `$4013`: sample length
/// `16 * d + 1`.
pub proof fn lemma_dmc_registers(a: Apu, d: u8)
    ensures
        a.register_written(0x4010, d) == (Apu {
            dmc: Dmc {
                irq_enable: d & 0x80 != 0,
                loop_flag: d & 0x40 != 0,
                timer_reload: (dmc_rate(d & 0x0F) - 1) as u16,
                irq_flag: a.dmc.irq_flag && d & 0x80 != 0,
                ..a.dmc
            },
            ..a
        }),
        a.register_written(0x4011, d) == (Apu { dmc: Dmc { output: d & 0x7F, ..a.dmc }, ..a }),
        a.register_written(0x4012, d) == (Apu {
            dmc: Dmc { sample_address: (0xC000 + 64 * d) as u16, ..a.dmc },
            ..a
        }),
        a.register_written(0x4013, d) == (Apu {
            dmc: Dmc { sample_length: (16 * d + 1) as u16, ..a.dmc },
            ..a
        }),
{
    lemma_byte_bits(d);
    lemma_byte_fields(d);
}

/// `$4015` enables channel `i` with bit `i` (pulse 1, pulse 2, triangle,
/// noise); a cleared bit also zeroes that length counter, a set bit leaves
/// it. Bit 4 starts the DMC sample from its beginning when none is playing,
/// lets a playing one continue, and when clear stops it. The write clears
/// the DMC interrupt and touches nothing else.
pub proof fn lemma_channel_enable_register(a: Apu, d: u8)
    ensures
        ({
            let w = a.register_written(0x4015, d);
            &&& w.square_1.length_enabled == (d & 0x01 != 0)
            &&& w.square_2.length_enabled == (d & 0x02 != 0)
            &&& w.triangle.length_enabled == (d & 0x04 != 0)
            &&& w.noise.length_enabled == (d & 0x08 != 0)
            &&& w.square_1.length == if d & 0x01 != 0 { a.square_1.length } else { 0 }
            &&& w.square_2.length == if d & 0x02 != 0 { a.square_2.length } else { 0 }
            &&& w.triangle.length == if d & 0x04 != 0 { a.triangle.length } else { 0 }
            &&& w.noise.length == if d & 0x08 != 0 { a.noise.length } else { 0 }
            &&& w.square_1 == (Pulse { length_enabled: w.square_1.length_enabled, length: w.square_1.length, ..a.square_1 })
            &&& w.square_2 == (Pulse { length_enabled: w.square_2.length_enabled, length: w.square_2.length, ..a.square_2 })
            &&& w.triangle == (Triangle { length_enabled: w.triangle.length_enabled, length: w.triangle.length, ..a.triangle })
            &&& w.noise == (Noise { length_enabled: w.noise.length_enabled, length: w.noise.length, ..a.noise })
            &&& !w.dmc.irq_flag
            &&& d & 0x10 == 0 ==> w.dmc.bytes_remaining == 0
            &&& d & 0x10 != 0 && a.dmc.bytes_remaining == 0 ==> w.dmc.bytes_remaining
                == a.dmc.sample_length && w.dmc.current_address == a.dmc.sample_address
            &&& d & 0x10 != 0 && a.dmc.bytes_remaining > 0 ==> w.dmc.bytes_remaining
                == a.dmc.bytes_remaining && w.dmc.current_address == a.dmc.current_address
            &&& w.dmc == (Dmc {
                irq_flag: false,
                bytes_remaining: w.dmc.bytes_remaining,
                current_address: w.dmc.current_address,
                ..a.dmc
            })
            &&& w == (Apu {
                square_1: w.square_1,
                square_2: w.square_2,
                triangle: w.triangle,
                noise: w.noise,
                dmc: w.dmc,
                ..a
            })
        }),
{
    lemma_byte_bits(d);
}

/// `$4017`: bit 7 selects the five-step sequence, bit 6 inhibits (and
/// clears) the frame interrupt, and the sequence restarts from step 0. In
/// five-step mode the write clocks a quarter and a half frame at once.
pub proof fn lemma_frame_counter_register(a: Apu, d: u8)
    ensures
        ({
            let w = a.register_written(0x4017, d);
            let set = Apu {
                mode: if d & 0x80 != 0 { FrameCounterMode::FiveStep } else { FrameCounterMode::FourStep },
                irq_inhibit: d & 0x40 != 0,
                status: if d & 0x40 != 0 { a.status & !0x40u8 } else { a.status },
                ..a
            };
            &&& w.mode == set.mode
            &&& w.irq_inhibit == (d & 0x40 != 0)
            &&& w.frame == 0
            &&& d & 0x80 != 0 ==> w == (Apu { frame: 0, ..set.quarter_frame_ticked().half_frame_ticked() })
            &&& d & 0x80 == 0 ==> w == (Apu { frame: 0, ..set })
        }),
{
    lemma_byte_bits(d);
    lemma_byte_bits(a.status);
}

/// Writes to addresses the APU does not decode change nothing.
pub proof fn lemma_unmapped_registers(a: Apu, address: u16, d: u8)
    requires
        !(0x4000 <= address <= 0x4008 || 0x400A <= address <= 0x400C || 0x400E <= address <= 0x4013
            || address == 0x4015 || address == 0x4017),
    ensures
        a.register_written(address, d) == a,
{
}

// ---------------------------------------------------------------------------
// Clocks.
// ---------------------------------------------------------------------------

/// The triangle and DMC timers count on every CPU cycle, odd or even; the
/// pulse and noise timers and the frame counter only on even cycles. An odd
/// cycle changes nothing else.
pub proof fn lemma_cycle_rates(a: Apu)
    ensures
        a.cycled().triangle.timer == counted_down(a.triangle.timer, a.triangle.timer_reload),
        a.cycled().dmc.timer == counted_down(a.dmc.timer, a.dmc.timer_reload),
        a.cycles % 2 == 0 ==> a.cycled().square_1.timer == counted_down(
            a.square_1.timer,
            a.square_1.timer_reload,
        ) && a.cycled().square_2.timer == counted_down(a.square_2.timer, a.square_2.timer_reload)
            && a.cycled().noise.timer == counted_down(a.noise.timer, a.noise.timer_reload),
        a.cycles % 2 == 0 && a.frame + 1 < frame_period(a.mode) ==> a.cycled().frame == a.frame + 1,
        a.cycles % 2 == 1 ==> a.cycled() == (Apu {
            triangle: a.cycled().triangle,
            dmc: a.cycled().dmc,
            ..a
        }),
        a.cycles % 2 == 1 ==> a.cycled().triangle == a.triangle.timer_clocked(),
{
}

/// Over two CPU cycles the triangle timer counts twice and each pulse timer
/// once: the triangle runs at twice the pulse rate.
pub proof fn lemma_two_cycles(a: Apu)
    requires
        a.cycles % 2 == 1,
        a.cycles < usize::MAX,
        a.triangle.timer >= 2,
        a.square_1.timer >= 1,
    ensures
        ({
            let b = Apu { cycles: (a.cycles + 1) as usize, ..a.cycled() };
            &&& b.cycled().triangle.timer == a.triangle.timer - 2
            &&& b.cycled().square_1.timer == a.square_1.timer - 1
        }),
{
    lemma_cycle_rates(a);
    let b = Apu { cycles: (a.cycles + 1) as usize, ..a.cycled() };
    assert(b.cycles % 2 == 0);
    assert(b.triangle.timer == a.triangle.timer - 1);
    assert(b.square_1.timer == a.square_1.timer);
    lemma_cycle_rates(b);
}

/// The frame sequence: a quarter-frame clock (envelopes, triangle linear
/// counter) at steps 3729, 7457, 11186 and at the last step, a half-frame
/// clock (length counters, sweeps) at steps 7457 and the last step, and no
/// clock at any other step, in both modes.
pub proof fn lemma_frame_sequence(a: Apu)
    ensures
        a.frame == 3729 || a.frame == 11186 ==> a.frame_counter_clocked() == a.quarter_frame_ticked(),
        a.frame == 7457 ==> a.frame_counter_clocked() == a.quarter_frame_ticked().half_frame_ticked(),
        a.frame == frame_period(a.mode) ==> a.frame_counter_clocked() == (Apu {
            status: a.frame_counter_clocked().status,
            frame: 0,
            ..a.quarter_frame_ticked().half_frame_ticked()
        }),
        a.frame != 3729 && a.frame != 7457 && a.frame != 11186 && a.frame != frame_period(a.mode)
            ==> a.frame_counter_clocked() == a,
{
}

/// A quarter-frame clock steps every envelope and the triangle's linear
/// counter and nothing else: a pending envelope restart takes effect (full
/// volume), and a pending linear reload loads the counter.
pub proof fn lemma_quarter_frame(a: Apu)
    ensures
        a.quarter_frame_ticked() == (Apu {
            square_1: a.quarter_frame_ticked().square_1,
            square_2: a.quarter_frame_ticked().square_2,
            triangle: a.quarter_frame_ticked().triangle,
            noise: a.quarter_frame_ticked().noise,
            ..a
        }),
        a.square_1.envelope_start ==> a.quarter_frame_ticked().square_1.volume == 15
            && !a.quarter_frame_ticked().square_1.envelope_start,
        a.square_2.envelope_start ==> a.quarter_frame_ticked().square_2.volume == 15
            && !a.quarter_frame_ticked().square_2.envelope_start,
        a.noise.envelope_start ==> a.quarter_frame_ticked().noise.volume == 15
            && !a.quarter_frame_ticked().noise.envelope_start,
        a.triangle.linear_reload_flag ==> a.quarter_frame_ticked().triangle.linear_counter
            == a.triangle.linear_reload,
        !a.triangle.linear_reload_flag && a.triangle.linear_counter > 0
            ==> a.quarter_frame_ticked().triangle.linear_counter == a.triangle.linear_counter - 1,
        a.quarter_frame_ticked().square_1.length == a.square_1.length,
        a.quarter_frame_ticked().triangle.length == a.triangle.length,
{
}

/// A half-frame clock counts every unhalted, non-zero length counter down by
/// one and leaves the envelopes.
pub proof fn lemma_half_frame(a: Apu)
    ensures
        a.half_frame_ticked().square_1.length == if a.square_1.length_enabled && a.square_1.length > 0 {
            (a.square_1.length - 1) as u8
        } else {
            a.square_1.length
        },
        a.half_frame_ticked().triangle.length == if !a.triangle.halt && a.triangle.length > 0 {
            (a.triangle.length - 1) as u8
        } else {
            a.triangle.length
        },
        a.half_frame_ticked().noise.length == if a.noise.length_enabled && a.noise.length > 0 {
            (a.noise.length - 1) as u8
        } else {
            a.noise.length
        },
        a.half_frame_ticked().square_1.volume == a.square_1.volume,
        a.half_frame_ticked().noise.volume == a.noise.volume,
{
}


/// The mixer hears each unmuted channel at its own output level, and the
/// DMC at its DAC level.
pub proof fn lemma_mixer_levels(a: Apu)
    ensures
        !a.muted[0] ==> a.mixer_levels().pulse_1 == a.square_1.output_level(),
        !a.muted[1] ==> a.mixer_levels().pulse_2 == a.square_2.output_level(),
        !a.muted[2] ==> a.mixer_levels().triangle == a.triangle.output_level(),
        !a.muted[3] ==> a.mixer_levels().noise == a.noise.output_level(),
        !a.muted[4] ==> a.mixer_levels().dmc == a.dmc.output,
{
}
} // verus!
