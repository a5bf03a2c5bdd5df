use vstd::prelude::*;

verus! {

/// What happens during one PPU cycle besides the PPU itself.
#[derive(Clone, Copy, PartialEq, Eq, Structural, Debug)]
pub struct CycleEvents {
    /// The CPU and the APU take their step (every third PPU cycle).
    pub cpu: bool,
    /// An audio sample is due at the output rate.
    pub sample: bool,
}

/// The emulator's integer dividers. The PPU is the fastest component; the CPU
/// and APU run on every third PPU cycle, and audio samples are timed with a
/// fixed-point accumulator: `sample_rate` is added on every PPU cycle and a
/// sample is due whenever the accumulator reaches `sample_threshold` (the PPU
/// clock rate).
pub struct EmulatorTiming {
    pub cpu_divider: u8,
    pub sample_accumulator: u64,
    pub sample_rate: u64,
    pub sample_threshold: u64,
}

/// Largest sample threshold for which the accumulator provably never
/// overflows.
pub open spec fn max_threshold() -> u64 {
    0x8000_0000_0000_0000
}

impl EmulatorTiming {
    /// The divider is within its 3-cycle period, the accumulator below the
    /// threshold, and the output rate no faster than the PPU.
    pub open spec fn wf(&self) -> bool {
        &&& self.cpu_divider < 3
        &&& self.sample_accumulator < self.sample_threshold
        &&& self.sample_rate <= self.sample_threshold
        &&& self.sample_threshold <= max_threshold()
    }

    /// Whether this PPU cycle is a CPU cycle.
    pub open spec fn cpu_due(&self) -> bool {
        self.cpu_divider + 1 == 3
    }

    /// Whether this PPU cycle makes a sample due.
    pub open spec fn sample_due(&self) -> bool {
        self.sample_accumulator + self.sample_rate >= self.sample_threshold
    }

    /// The dividers after one PPU cycle.
    pub open spec fn ticked(self) -> EmulatorTiming {
        EmulatorTiming {
            cpu_divider: if self.cpu_due() { 0 } else { (self.cpu_divider + 1) as u8 },
            sample_accumulator: if self.sample_due() {
                (self.sample_accumulator + self.sample_rate - self.sample_threshold) as u64
            } else {
                (self.sample_accumulator + self.sample_rate) as u64
            },
            ..self
        }
    }

    /// The dividers after `n` PPU cycles.
    pub open spec fn ticked_n(self, n: nat) -> EmulatorTiming
        decreases n,
    {
        if n == 0 {
            self
        } else {
            self.ticked_n((n - 1) as nat).ticked()
        }
    }

    /// Number of samples made due during `n` PPU cycles.
    pub open spec fn samples_in(self, n: nat) -> nat
        decreases n,
    {
        if n == 0 {
            0
        } else {
            self.samples_in((n - 1) as nat) + if self.ticked_n((n - 1) as nat).sample_due() {
                1nat
            } else {
                0nat
            }
        }
    }

    /// Number of CPU steps during `n` PPU cycles.
    pub open spec fn cpu_steps_in(self, n: nat) -> nat
        decreases n,
    {
        if n == 0 {
            0
        } else {
            self.cpu_steps_in((n - 1) as nat) + if self.ticked_n((n - 1) as nat).cpu_due() {
                1nat
            } else {
                0nat
            }
        }
    }

    pub fn new(sample_rate: u64, sample_threshold: u64) -> (r: EmulatorTiming)
        ensures
            r == (EmulatorTiming {
                cpu_divider: 0,
                sample_accumulator: 0,
                sample_rate,
                sample_threshold,
            }),
            0 < sample_threshold <= max_threshold() && sample_rate <= sample_threshold ==> r.wf(),
    {
        EmulatorTiming { cpu_divider: 0, sample_accumulator: 0, sample_rate, sample_threshold }
    }

    /// Advances the dividers by one PPU cycle (the emulator's per-cycle step)
    /// and reports what is due: a CPU step on every third call, and an output
    /// sample whenever the accumulator passes the threshold. Over `n` calls
    /// the samples due are exactly `(accumulator + n * sample_rate) /
    /// sample_threshold`, with the remainder left in the accumulator, so the
    /// sample clock never drifts (`lemma_sample_count_exact`).
    pub fn ppu_cycle(&mut self) -> (r: CycleEvents)
        requires
            old(self).cpu_divider < 255,
            old(self).sample_accumulator + old(self).sample_rate <= u64::MAX,
        ensures
            r == (CycleEvents { cpu: old(self).cpu_due(), sample: old(self).sample_due() }),
            *final(self) == old(self).ticked(),
            old(self).wf() ==> final(self).wf(),
    {
        self.cpu_divider += 1;
        let cpu = self.cpu_divider == 3;
        if cpu {
            self.cpu_divider = 0;
        }
        self.sample_accumulator += self.sample_rate;
        let sample = self.sample_accumulator >= self.sample_threshold;
        if sample {
            self.sample_accumulator -= self.sample_threshold;
        }
        CycleEvents { cpu, sample }
    }
}

/// A well-formed timing state meets the requirements of `ppu_cycle` and
/// stays well formed.
pub proof fn lemma_tick_keeps_wf(t: EmulatorTiming)
    requires
        t.wf(),
    ensures
        t.cpu_divider < 255,
        t.sample_accumulator + t.sample_rate <= u64::MAX,
        t.ticked().wf(),
{
}

/// Sample timing never drifts: after `n` PPU cycles the samples made due and
/// the accumulator are exactly the quotient and remainder of
/// `accumulator + n * sample_rate` by the threshold.
pub proof fn lemma_sample_count_exact(t: EmulatorTiming, n: nat)
    requires
        t.wf(),
    ensures
        t.ticked_n(n).wf(),
        t.ticked_n(n).sample_rate == t.sample_rate,
        t.ticked_n(n).sample_threshold == t.sample_threshold,
        t.samples_in(n) * t.sample_threshold + t.ticked_n(n).sample_accumulator
            == t.sample_accumulator + n * t.sample_rate,
        t.samples_in(n) == (t.sample_accumulator + n * t.sample_rate) / (
        t.sample_threshold as int),
        t.ticked_n(n).sample_accumulator == (t.sample_accumulator + n * t.sample_rate) % (
        t.sample_threshold as int),
    decreases n,
{
    if n == 0 {
        assert(n * t.sample_rate == 0) by (nonlinear_arith)
            requires
                n == 0,
        ;
        assert(t.samples_in(n) * t.sample_threshold == 0) by (nonlinear_arith)
            requires
                t.samples_in(n) == 0,
        ;
    } else {
        lemma_sample_count_exact(t, (n - 1) as nat);
        let prev = t.ticked_n((n - 1) as nat);
        lemma_tick_keeps_wf(prev);
        let q0 = t.samples_in((n - 1) as nat);
        let d = t.sample_threshold;
        assert(n * t.sample_rate == (n - 1) * t.sample_rate + t.sample_rate) by (nonlinear_arith);
        assert((q0 + 1) * d == q0 * d + d) by (nonlinear_arith);
        assert(t.ticked_n(n) == prev.ticked());
        assert(t.samples_in(n) == q0 + if prev.sample_due() { 1nat } else { 0nat });
        if prev.sample_due() {
            assert(t.ticked_n(n).sample_accumulator == prev.sample_accumulator + t.sample_rate - d);
            assert(t.samples_in(n) * d == q0 * d + d);
        } else {
            assert(t.ticked_n(n).sample_accumulator == prev.sample_accumulator + t.sample_rate);
            assert(t.samples_in(n) * d == q0 * d);
        }
    }
    let total = t.sample_accumulator + n * t.sample_rate;
    let q = t.samples_in(n);
    let r = t.ticked_n(n).sample_accumulator;
    let d = t.sample_threshold as int;
    vstd::arithmetic::div_mod::lemma_fundamental_div_mod_converse(total, d, q as int, r as int);
}

/// The CPU runs on exactly one PPU cycle in three: after `n` PPU cycles the
/// CPU has stepped `(cpu_divider + n) / 3` times and the divider is the
/// remainder.
pub proof fn lemma_cpu_steps_exact(t: EmulatorTiming, n: nat)
    requires
        t.wf(),
    ensures
        t.ticked_n(n).wf(),
        t.cpu_steps_in(n) == (t.cpu_divider + n) / 3,
        t.ticked_n(n).cpu_divider == (t.cpu_divider + n) % 3,
    decreases n,
{
    if n > 0 {
        lemma_cpu_steps_exact(t, (n - 1) as nat);
        lemma_tick_keeps_wf(t.ticked_n((n - 1) as nat));
    }
}

} // verus!
