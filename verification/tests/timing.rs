use wasm_nes::dma::{Dma, DmaAction};
use wasm_nes::timing::{CycleEvents, EmulatorTiming};

#[test]
fn cpu_runs_every_third_ppu_cycle() {
    let mut t = EmulatorTiming::new(48_000, 5_369_318);
    let mut cpu_cycles = Vec::new();
    for i in 0..9 {
        if t.ppu_cycle().cpu {
            cpu_cycles.push(i);
        }
    }
    assert_eq!(cpu_cycles, vec![2, 5, 8]);
    assert_eq!(t.cpu_divider, 0);
}

#[test]
fn samples_are_exact_over_a_second() {
    let mut t = EmulatorTiming::new(48_000, 5_369_318);
    let mut samples = 0u64;
    for _ in 0..5_369_318u64 {
        if t.ppu_cycle().sample {
            samples += 1;
        }
    }
    assert_eq!(samples, 48_000);
    assert_eq!(t.sample_accumulator, 0);
}

#[test]
fn sample_accumulator_remainder() {
    let mut t = EmulatorTiming::new(3, 10);
    let events: Vec<CycleEvents> = (0..4).map(|_| t.ppu_cycle()).collect();
    assert_eq!(
        events.iter().map(|e| e.sample).collect::<Vec<_>>(),
        vec![false, false, false, true]
    );
    assert_eq!(t.sample_accumulator, 2);
}

#[test]
fn dma_wait_then_copy() {
    let mut d = Dma { page: 0x02, wait: true, count: 0, read_buffer: 0 };
    assert_eq!(d.step(10), DmaAction::Idle);
    assert!(d.wait);
    assert_eq!(d.step(11), DmaAction::Idle);
    assert!(!d.wait);
    assert_eq!(d.step(12), DmaAction::Read(0x0200));
    d.read_buffer = 0x5A;
    assert_eq!(d.step(13), DmaAction::WriteOam { byte: 0x5A, last: false });
    assert_eq!(d.count, 1);
    assert_eq!(d.step(14), DmaAction::Read(0x0201));
}

#[test]
fn dma_copies_256_bytes() {
    let mut d = Dma { page: 0x07, wait: false, count: 0, read_buffer: 0 };
    let mut reads = Vec::new();
    let mut writes = 0;
    let mut cycle = 0usize;
    loop {
        match d.step(cycle) {
            DmaAction::Read(a) => {
                reads.push(a);
                d.read_buffer = a as u8;
            },
            DmaAction::WriteOam { byte, last } => {
                assert_eq!(byte, writes as u8);
                writes += 1;
                if last {
                    break;
                }
            },
            DmaAction::Idle => {},
        }
        cycle += 1;
    }
    assert_eq!(writes, 256);
    assert_eq!(reads, (0x0700u16..=0x07FF).collect::<Vec<_>>());
    assert_eq!(cycle, 511);
}
