use vstd::prelude::*;
use crate::tables::{bit_set, counted_down, lemma_byte_bits};

verus! {

/// NTSC DMC rate periods (CPU cycles per output bit), indexed by the low
/// four bits of `$4010`.
pub open spec fn dmc_rate(index: u8) -> u16 {
    match index {
        0 => 428, 1 => 380, 2 => 340, 3 => 320, 4 => 286, 5 => 254, 6 => 226, 7 => 214,
        8 => 190, 9 => 160, 10 => 142, 11 => 128, 12 => 106, 13 => 84, 14 => 72, _ => 54,
    }
}

fn rate_table_ntsc(index: u8) -> (r: u16)
    requires
        index < 16,
    ensures
        r == dmc_rate(index),
        54 <= r <= 428,
{
    match index {
        0 => 428, 1 => 380, 2 => 340, 3 => 320, 4 => 286, 5 => 254, 6 => 226, 7 => 214,
        8 => 190, 9 => 160, 10 => 142, 11 => 128, 12 => 106, 13 => 84, 14 => 72, _ => 54,
    }
}

/// The address after `address` in the sample reader's walk: past `$FFFF` it
/// wraps to `$8000`.
pub open spec fn next_sample_address(address: u16) -> u16 {
    if address == 0xFFFF {
        0x8000
    } else {
        (address + 1) as u16
    }
}

/// https://wiki.nesdev.org/w/index.php/APU_DMC
///
/// The DMC plays 7-bit PCM samples streamed from CPU memory:
///
/// 1. The output unit shifts a byte out one bit at a time at a programmable
///    rate; each bit moves the 7-bit DAC up or down by 2 (saturating at
///    0/127).
/// 2. The memory reader fetches the next sample byte into a one-byte buffer
///    whenever the buffer is empty and bytes remain. The bus read itself is
///    done by the caller (see `fetch_address` / `complete_fetch`), since the
///    APU does not own the bus.
/// 3. The DAC level can also be set directly through `$4011`.
#[derive(Clone, Copy, PartialEq, Eq, Structural, Debug)]
pub struct Dmc {
    pub irq_enable: bool,
    pub irq_flag: bool,
    pub loop_flag: bool,
    pub timer: u16,
    pub timer_reload: u16,
    /// 7-bit DAC level (0..=127), directly writable through `$4011`.
    pub output: u8,
    pub sample_address: u16,
    pub sample_length: u16,
    pub current_address: u16,
    pub bytes_remaining: u16,
    pub sample_buffer: Option<u8>,
    pub shift_register: u8,
    pub bits_remaining: u8,
    pub silence: bool,
    /// Latched after the last byte of a sample is consumed; the emulator
    /// uses it to raise an edge-triggered IRQ.
    pub irq_pending: bool,
}

impl Dmc {
    /// The DAC is a 7-bit value and the output unit is somewhere within its
    /// 8-bit cycle.
    pub open spec fn wf(&self) -> bool {
        &&& self.output <= 127
        &&& 1 <= self.bits_remaining <= 8
    }

    pub open spec fn initial() -> Dmc {
        Dmc {
            irq_enable: false,
            irq_flag: false,
            loop_flag: false,
            timer: 0,
            timer_reload: (dmc_rate(0) - 1) as u16,
            output: 0,
            sample_address: 0xC000,
            sample_length: 1,
            current_address: 0xC000,
            bytes_remaining: 0,
            sample_buffer: None,
            shift_register: 0,
            bits_remaining: 8,
            silence: true,
            irq_pending: false,
        }
    }

    /// Effect of a write to `$4010`: IRQ enable, loop flag and rate. Clearing
    /// the IRQ enable also clears a pending IRQ flag.
    pub open spec fn ctrl_written(self, data: u8) -> Dmc {
        let irq_enable = bit_set(data, 7);
        Dmc {
            irq_enable,
            loop_flag: bit_set(data, 6),
            timer_reload: (dmc_rate(data % 16) - 1) as u16,
            irq_flag: if irq_enable { self.irq_flag } else { false },
            ..self
        }
    }

    /// Effect of a write to `$4011`: the DAC takes the low seven bits.
    pub open spec fn dac_written(self, data: u8) -> Dmc {
        Dmc { output: data % 128, ..self }
    }

    /// Effect of a write to `$4012`: sample address `$C000 + data * 64`.
    pub open spec fn address_written(self, data: u8) -> Dmc {
        Dmc { sample_address: (0xC000 + data * 64) as u16, ..self }
    }

    /// Effect of a write to `$4013`: sample length `data * 16 + 1` bytes.
    pub open spec fn length_written(self, data: u8) -> Dmc {
        Dmc { sample_length: (data * 16 + 1) as u16, ..self }
    }

    /// Enabling restarts playback only when the channel is idle; a sample in
    /// flight continues unmodified.
    pub open spec fn enabled(self) -> Dmc {
        if self.bytes_remaining == 0 {
            Dmc { current_address: self.sample_address, bytes_remaining: self.sample_length, ..self }
        } else {
            self
        }
    }

    /// Disabling silences playback at the next byte boundary.
    pub open spec fn disabled(self) -> Dmc {
        Dmc { bytes_remaining: 0, ..self }
    }

    /// Start of a new 8-bit output cycle: the buffered byte, if any, moves to
    /// the shift register; with no byte the output unit is silent.
    pub open spec fn output_cycle_started(self) -> Dmc {
        match self.sample_buffer {
            Some(byte) => Dmc {
                bits_remaining: 8,
                sample_buffer: None,
                shift_register: byte,
                silence: false,
                ..self
            },
            None => Dmc { bits_remaining: 8, silence: true, ..self },
        }
    }

    /// The DAC after one output bit: up 2 for a 1, down 2 for a 0, never
    /// leaving 0..=127; unchanged while silent.
    pub open spec fn dac_after_bit(&self) -> u8 {
        if self.silence {
            self.output
        } else if self.shift_register % 2 == 1 {
            if self.output <= 125 { (self.output + 2) as u8 } else { self.output }
        } else {
            if self.output >= 2 { (self.output - 2) as u8 } else { self.output }
        }
    }

    /// One clock of the output unit.
    pub open spec fn output_clocked(self) -> Dmc {
        let shifted = Dmc {
            output: self.dac_after_bit(),
            shift_register: self.shift_register / 2,
            bits_remaining: (self.bits_remaining - 1) as u8,
            ..self
        };
        if shifted.bits_remaining == 0 {
            shifted.output_cycle_started()
        } else {
            shifted
        }
    }

    /// One CPU-rate clock of the rate timer.
    pub open spec fn timer_clocked(self) -> Dmc {
        if self.timer == 0 {
            Dmc { timer: self.timer_reload, ..self }.output_clocked()
        } else {
            Dmc { timer: (self.timer - 1) as u16, ..self }
        }
    }

    /// The address the memory reader wants to fetch from: only while the
    /// buffer is empty and bytes remain.
    pub open spec fn pending_fetch(&self) -> Option<u16> {
        if self.sample_buffer is None && self.bytes_remaining > 0 {
            Some(self.current_address)
        } else {
            None
        }
    }

    /// Effect of delivering the fetched `byte`: it fills the buffer, the read
    /// pointer advances, and at the end of the sample it either loops or, with
    /// IRQs enabled, raises the IRQ flag.
    pub open spec fn fetch_completed(self, byte: u8) -> Dmc {
        let remaining = (self.bytes_remaining - 1) as u16;
        let advanced = Dmc {
            sample_buffer: Some(byte),
            current_address: next_sample_address(self.current_address),
            bytes_remaining: remaining,
            ..self
        };
        if remaining != 0 {
            advanced
        } else if self.loop_flag {
            Dmc {
                current_address: self.sample_address,
                bytes_remaining: self.sample_length,
                ..advanced
            }
        } else if self.irq_enable {
            Dmc { irq_flag: true, irq_pending: true, ..advanced }
        } else {
            advanced
        }
    }

    pub fn new() -> (r: Dmc)
        ensures
            r == Dmc::initial(),
            r.wf(),
    {
        Dmc {
            irq_enable: false,
            irq_flag: false,
            loop_flag: false,
            timer: 0,
            timer_reload: rate_table_ntsc(0) - 1,
            output: 0,
            sample_address: 0xC000,
            sample_length: 1,
            current_address: 0xC000,
            bytes_remaining: 0,
            sample_buffer: None,
            shift_register: 0,
            bits_remaining: 8,
            silence: true,
            irq_pending: false,
        }
    }

    pub fn write_ctrl(&mut self, data: u8)
        ensures
            *final(self) == old(self).ctrl_written(data),
            old(self).wf() ==> final(self).wf(),
    {
        assert((data & 0x0F) == data % 16) by (bit_vector);
        proof {
            lemma_byte_bits(data);
        }
        self.irq_enable = (data & 0x80) != 0;
        self.loop_flag = (data & 0x40) != 0;
        self.timer_reload = rate_table_ntsc(data & 0x0F) - 1;
        if !self.irq_enable {
            self.irq_flag = false;
        }
    }

    pub fn write_dac(&mut self, data: u8)
        ensures
            *final(self) == old(self).dac_written(data),
            old(self).wf() ==> final(self).wf(),
    {
        assert((data & 0x7F) == data % 128) by (bit_vector);
        self.output = data & 0x7F;
    }

    pub fn write_address(&mut self, data: u8)
        ensures
            *final(self) == old(self).address_written(data),
            old(self).wf() ==> final(self).wf(),
    {
        assert((0xC000u16 | ((data as u16) << 6)) == 0xC000 + data * 64) by (bit_vector);
        self.sample_address = 0xC000 | ((data as u16) << 6);
    }

    pub fn write_length(&mut self, data: u8)
        ensures
            *final(self) == old(self).length_written(data),
            old(self).wf() ==> final(self).wf(),
    {
        assert((((data as u16) << 4) | 1) == data * 16 + 1) by (bit_vector);
        self.sample_length = ((data as u16) << 4) | 1;
    }

    /// Called when bit 4 of `$4015` is written as 1.
    pub fn enable(&mut self)
        ensures
            *final(self) == old(self).enabled(),
            old(self).wf() ==> final(self).wf(),
    {
        if self.bytes_remaining == 0 {
            self.current_address = self.sample_address;
            self.bytes_remaining = self.sample_length;
        }
    }

    /// Called when bit 4 of `$4015` is written as 0.
    pub fn disable(&mut self)
        ensures
            *final(self) == old(self).disabled(),
            old(self).wf() ==> final(self).wf(),
    {
        self.bytes_remaining = 0;
    }

    pub fn active(&self) -> (r: bool)
        ensures
            r == (self.bytes_remaining > 0),
    {
        self.bytes_remaining > 0
    }

    pub fn clear_irq(&mut self)
        ensures
            *final(self) == (Dmc { irq_flag: false, ..*old(self) }),
            old(self).wf() ==> final(self).wf(),
    {
        self.irq_flag = false;
    }

    pub fn cycle_timer(&mut self)
        requires
            old(self).timer == 0 ==> old(self).bits_remaining >= 1,
        ensures
            *final(self) == old(self).timer_clocked(),
            old(self).wf() ==> final(self).wf(),
    {
        if self.timer == 0 {
            self.timer = self.timer_reload;
            self.clock_output();
        } else {
            self.timer -= 1;
        }
    }

    fn clock_output(&mut self)
        requires
            old(self).bits_remaining >= 1,
        ensures
            *final(self) == old(self).output_clocked(),
            old(self).wf() ==> final(self).wf(),
    {
        let sr = self.shift_register;
        assert((sr & 1 != 0) == (sr % 2 == 1) && (sr >> 1) == sr / 2) by (bit_vector);
        if !self.silence {
            if (self.shift_register & 1) != 0 {
                if self.output <= 125 {
                    self.output += 2;
                }
            } else if self.output >= 2 {
                self.output -= 2;
            }
        }
        self.shift_register >>= 1;
        self.bits_remaining -= 1;
        if self.bits_remaining == 0 {
            self.start_output_cycle();
        }
    }

    fn start_output_cycle(&mut self)
        ensures
            *final(self) == old(self).output_cycle_started(),
            old(self).output <= 127 ==> final(self).wf(),
    {
        self.bits_remaining = 8;
        match self.sample_buffer.take() {
            Some(byte) => {
                self.shift_register = byte;
                self.silence = false;
            },
            None => {
                self.silence = true;
            },
        }
    }

    /// Address the memory reader wants to fetch from, or `None` when the
    /// sample buffer is full or there is nothing left to play.
    pub fn fetch_address(&self) -> (r: Option<u16>)
        ensures
            r == self.pending_fetch(),
    {
        if self.sample_buffer.is_none() && self.bytes_remaining > 0 {
            Some(self.current_address)
        } else {
            None
        }
    }

    /// Delivers the byte read for `fetch_address`.
    pub fn complete_fetch(&mut self, byte: u8)
        requires
            old(self).bytes_remaining > 0,
        ensures
            *final(self) == old(self).fetch_completed(byte),
            old(self).wf() ==> final(self).wf(),
    {
        self.sample_buffer = Some(byte);
        self.current_address = if self.current_address == 0xFFFF {
            0x8000
        } else {
            self.current_address + 1
        };
        self.bytes_remaining -= 1;
        if self.bytes_remaining == 0 {
            if self.loop_flag {
                self.current_address = self.sample_address;
                self.bytes_remaining = self.sample_length;
            } else if self.irq_enable {
                self.irq_flag = true;
                self.irq_pending = true;
            }
        }
    }

    pub fn output(&self) -> (r: u8)
        ensures
            r == self.output,
            self.wf() ==> r <= 127,
    {
        self.output
    }
}


/// Enabling restarts playback only from idle: a sample in flight continues.
pub proof fn lemma_enable_restarts_only_when_idle(d: Dmc)
    ensures
        d.bytes_remaining > 0 ==> d.enabled() == d,
        d.bytes_remaining == 0 ==> d.enabled().current_address == d.sample_address
            && d.enabled().bytes_remaining == d.sample_length,
{
}

/// Once disabled, the memory reader requests nothing more.
pub proof fn lemma_disabled_requests_no_fetch(d: Dmc)
    ensures
        d.disabled().pending_fetch() is None,
{
}

/// A fetch is requested exactly while the buffer is empty and bytes remain,
/// and it is for the current address.
pub proof fn lemma_fetch_request(d: Dmc)
    ensures
        d.pending_fetch() == Some(d.current_address) <==> (d.sample_buffer is None
            && d.bytes_remaining > 0),
{
}

/// Completing the last byte of a sample either loops back to the sample
/// start or, with IRQs enabled, raises both IRQ latches; a looping sample
/// never raises them.
pub proof fn lemma_sample_end(d: Dmc, byte: u8)
    requires
        d.bytes_remaining == 1,
    ensures
        d.loop_flag ==> d.fetch_completed(byte).current_address == d.sample_address
            && d.fetch_completed(byte).bytes_remaining == d.sample_length
            && d.fetch_completed(byte).irq_flag == d.irq_flag,
        !d.loop_flag && d.irq_enable ==> d.fetch_completed(byte).irq_flag
            && d.fetch_completed(byte).irq_pending,
        !d.loop_flag ==> d.fetch_completed(byte).bytes_remaining == 0,
{
}

/// The reader walks upward through memory and wraps from `$FFFF` to `$8000`;
/// it never leaves `$8000..=$FFFF` once inside it.
pub proof fn lemma_address_stays_in_upper_half(a: u16)
    requires
        a >= 0x8000,
    ensures
        next_sample_address(a) >= 0x8000,
{
}

/// The DAC level moves by at most 2 per output clock and never leaves
/// `0..=127`.
pub proof fn lemma_dac_step_bounded(d: Dmc)
    requires
        d.wf(),
    ensures
        d.dac_after_bit() <= 127,
        d.dac_after_bit() as int - d.output as int <= 2,
        d.output as int - d.dac_after_bit() as int <= 2,
{
}

/// The sample address always lies in `$C000..=$FFC0` and the length is
/// always odd and between 1 and 4081 bytes.
pub proof fn lemma_sample_registers_range(d: Dmc, data: u8)
    ensures
        0xC000 <= d.address_written(data).sample_address <= 0xFFC0,
        1 <= d.length_written(data).sample_length <= 4081,
        d.length_written(data).sample_length % 2 == 1,
{
}


/// Clearing the IRQ enable through `$4010` also clears the IRQ flag; setting
/// it leaves the flag as it was.
pub proof fn lemma_irq_disable_clears_flag(d: Dmc, data: u8)
    ensures
        !bit_set(data, 7) ==> !d.ctrl_written(data).irq_flag,
        bit_set(data, 7) ==> d.ctrl_written(data).irq_flag == d.irq_flag,
{
}


/// The output unit on a timer clock. The timer counts down, and only when
/// it expires does the unit act: it moves the DAC by +2 for a 1 bit and -2
/// for a 0 bit (staying inside `0..=127`, and not at all while silenced),
/// shifts the register right, and after the eighth bit starts a new output
/// cycle from the sample buffer, or silenced when the buffer is empty.
pub proof fn lemma_output_unit(d: Dmc)
    requires
        d.wf(),
    ensures
        d.timer_clocked().timer == counted_down(d.timer, d.timer_reload),
        d.timer > 0 ==> d.timer_clocked() == (Dmc { timer: (d.timer - 1) as u16, ..d }),
        d.timer == 0 && d.silence ==> d.timer_clocked().output == d.output,
        d.timer == 0 && !d.silence && d.shift_register & 1 == 1 ==> d.timer_clocked().output == if d.output <= 125 {
            d.output + 2
        } else {
            d.output as int
        },
        d.timer == 0 && !d.silence && d.shift_register & 1 == 0 ==> d.timer_clocked().output == if d.output >= 2 {
            d.output - 2
        } else {
            d.output as int
        },
        d.timer == 0 && d.bits_remaining > 1 ==> d.timer_clocked().bits_remaining == d.bits_remaining - 1
            && d.timer_clocked().shift_register == d.shift_register >> 1
            && d.timer_clocked().sample_buffer == d.sample_buffer
            && d.timer_clocked().silence == d.silence,
        d.timer == 0 && d.bits_remaining == 1 ==> d.timer_clocked().bits_remaining == 8
            && d.timer_clocked().sample_buffer is None
            && d.timer_clocked().silence == (d.sample_buffer is None),
        d.timer == 0 && d.bits_remaining == 1 && d.sample_buffer is Some ==> d.timer_clocked().shift_register
            == d.sample_buffer->0,
        d.timer_clocked().bytes_remaining == d.bytes_remaining,
        d.timer_clocked().current_address == d.current_address,
{
    let s = d.shift_register;
    assert(s & 1 == s % 2 && s >> 1 == s / 2) by (bit_vector);
}

/// A completed fetch fills the sample buffer with the byte read and moves
/// the reader to the next address with one byte fewer to go.
pub proof fn lemma_fetch_completes(d: Dmc, byte: u8)
    requires
        d.bytes_remaining > 1,
    ensures
        d.fetch_completed(byte).sample_buffer == Some(byte),
        d.fetch_completed(byte).bytes_remaining == d.bytes_remaining - 1,
        d.fetch_completed(byte).current_address == if d.current_address == 0xFFFF {
            0x8000
        } else {
            d.current_address + 1
        },
        d.fetch_completed(byte).irq_flag == d.irq_flag,
        d.fetch_completed(byte).output == d.output,
{
}
} // verus!
