use wasm_nes::dma::Dma;
use wasm_nes::apu::{Apu, FrameCounterMode};
use wasm_nes::dmc::Dmc;
use wasm_nes::savestate::{
    decode, encode, ApuSave, CpuState, DmcState, LoadError, PpuState, SaveState,
};
use wasm_nes::wire::Interrupt;

fn sample_state() -> SaveState {
    SaveState {
        cpu: CpuState {
            pc: 0xC123,
            sp: 0xFD,
            a: 1,
            x: 2,
            y: 3,
            status: 0x24,
            cycles: 0x0102_0304,
            interrupt: Some(Interrupt::IRQ),
            clock_cycles: 99,
        },
        cpu_divider: 2,
        sample_accumulator: 0x1122_3344_5566_7788,
        wram: vec![9, 8, 7],
        ppu: PpuState {
            ctrl: 0x80,
            mask: 0x1E,
            status: 0xA0,
            dot: 340,
            scanline: 261,
            frame: 60,
            clock_cycles: 123_456,
            cur_address: 0x2000,
            tmp_address: 0x2400,
            scroll_x_fine: 5,
            write_latch: true,
            read_buffer: 0x42,
            oam_address: 0x10,
            nametables: vec![1, 2],
            palettes: vec![0x0F],
            oam: vec![],
        },
        apu_cycles: 77,
        apu: ApuSave::DmcOnly(DmcState {
            timer: 300,
            output: 64,
            sample_address: 0xC040,
            sample_length: 17,
            current_address: 0xC041,
            bytes_remaining: 16,
            sample_buffer: Some(0xAA),
            shift_register: 0x55,
            bits_remaining: 3,
            silence: false,
            irq_flag: true,
            irq_pending: false,
        }),
        controller_1: 0x81,
        controller_2: 0x00,
        dma: Some(Dma { page: 2, wait: false, count: 17, read_buffer: 0x33 }),
        prg_ram: vec![0xEE; 4],
        chr: vec![],
        mapper_state: vec![1, 0, 1],
    }
}

#[test]
fn save_state_round_trip() {
    let s = sample_state();
    let bytes = encode(&s);
    assert_eq!(decode(&bytes), Ok(s.clone()));
    let mut longer = bytes.clone();
    longer.extend_from_slice(&[1, 2, 3]);
    assert_eq!(decode(&longer), Ok(s));
}

#[test]
fn save_state_round_trip_without_dma() {
    let mut s = sample_state();
    s.dma = None;
    s.cpu.interrupt = None;
    let bytes = encode(&s);
    assert_eq!(decode(&bytes), Ok(s));
}

#[test]
fn save_state_layout() {
    let s = sample_state();
    let bytes = encode(&s);
    assert_eq!(&bytes[0..8], b"NESSAVE2");
    // pc little-endian
    assert_eq!(&bytes[8..10], &[0x23, 0xC1]);
    assert_eq!(&bytes[10..15], &[0xFD, 1, 2, 3, 0x24]);
    assert_eq!(&bytes[15..19], &[4, 3, 2, 1]);
    assert_eq!(bytes[19], 2); // IRQ
    assert_eq!(&bytes[20..24], &[99, 0, 0, 0]);
    assert_eq!(bytes[24], 2);
    assert_eq!(&bytes[25..33], &[0x88, 0x77, 0x66, 0x55, 0x44, 0x33, 0x22, 0x11]);
    assert_eq!(&bytes[33..40], &[3, 0, 0, 0, 9, 8, 7]);
    // Header 8 + CPU 16 + dividers 9 + wram 7 + PPU 23 + blocks 4+2, 4+1, 4+0
    // + APU 4 + DMC 18 + controllers 3 + DMA 4 + blocks 8, 4, 7.
    let expected_len = 8 + 16 + 9 + 7 + 23 + 6 + 5 + 4 + 4 + 18 + 3 + 4 + 8 + 4 + 7;
    assert_eq!(bytes.len(), expected_len);
    assert_eq!(&bytes[expected_len - 7..], &[3, 0, 0, 0, 1, 0, 1]);
}

#[test]
fn save_state_legacy_format() {
    let mut s = sample_state();
    s.apu = ApuSave::Legacy;
    let bytes = encode(&s);
    assert_eq!(&bytes[0..8], b"NESSAVE1");
    assert_eq!(decode(&bytes), Ok(s));
}

#[test]
fn save_state_unknown_format() {
    let mut bytes = encode(&sample_state());
    bytes[7] = b'4';
    assert_eq!(decode(&bytes), Err(LoadError::UnknownFormat));
    assert_eq!(decode(b"NOTASAVE"), Err(LoadError::UnknownFormat));
}

#[test]
fn save_state_truncated() {
    let bytes = encode(&sample_state());
    for len in [0, 5, 7, 8, 20, bytes.len() / 2, bytes.len() - 1] {
        assert_eq!(decode(&bytes[..len]), Err(LoadError::Truncated), "len {}", len);
    }
}

#[test]
fn save_state_lenient_flags() {
    let s = sample_state();
    let mut bytes = encode(&s);
    // write_latch flag: any non-zero byte reads as true.
    let latch = 8 + 16 + 9 + 7 + 20;
    assert_eq!(bytes[latch], 1);
    bytes[latch] = 0x7F;
    assert_eq!(decode(&bytes), Ok(s.clone()));
    // Interrupt code outside 1..=3 reads as none.
    bytes[19] = 9;
    let mut expected = s.clone();
    expected.cpu.interrupt = None;
    assert_eq!(decode(&bytes), Ok(expected));
}

#[test]
fn save_state_dma_flag_must_be_one() {
    let mut s = sample_state();
    s.dma = None;
    let mut bytes = encode(&s);
    let flag = 8 + 16 + 9 + 7 + 23 + 6 + 5 + 4 + 4 + 18 + 2;
    assert_eq!(bytes[flag], 0);
    bytes[flag] = 2;
    assert_eq!(decode(&bytes), Ok(s));
}

#[test]
fn dmc_save_and_restore() {
    let mut d = Dmc::new();
    d.write_ctrl(0xCF);
    d.write_address(3);
    d.write_length(4);
    d.enable();
    d.complete_fetch(0x12);
    let saved = d.save_state();
    assert_eq!(saved.current_address, 0xC0C1);
    assert_eq!(saved.sample_buffer, Some(0x12));
    let mut other = Dmc::new();
    other.load_state(&saved);
    assert_eq!(other.save_state(), saved);
    // Not part of a save: IRQ enable, loop flag, rate.
    assert!(!other.irq_enable);
    assert!(!other.loop_flag);
    assert_eq!(other.timer_reload, 427);
}

/// An APU that has been written to and run for a while.
fn busy_apu() -> Apu {
    let mut apu = Apu::new();
    apu.write(0x4017, 0x80);
    apu.write(0x4015, 0x1F);
    apu.write(0x4000, 0x9F);
    apu.write(0x4001, 0x8A);
    apu.write(0x4002, 0x34);
    apu.write(0x4003, 0x0A);
    apu.write(0x4004, 0x46);
    apu.write(0x4006, 0x80);
    apu.write(0x4007, 0x11);
    apu.write(0x4008, 0x85);
    apu.write(0x400A, 0x20);
    apu.write(0x400B, 0x03);
    apu.write(0x400C, 0x37);
    apu.write(0x400E, 0x83);
    apu.write(0x400F, 0x08);
    apu.write(0x4010, 0xCF);
    apu.write(0x4011, 0x40);
    apu.write(0x4012, 3);
    apu.write(0x4013, 4);
    for _ in 0..5000 {
        apu.cycles += 1;
        apu.cycle();
    }
    apu
}

#[test]
fn save_state_full_apu_round_trip() {
    let apu = busy_apu();
    let mut s = sample_state();
    s.apu = ApuSave::Full(apu.save_state());
    let bytes = encode(&s);
    assert_eq!(&bytes[0..8], b"NESSAVE3");
    assert_eq!(decode(&bytes), Ok(s.clone()));
    // Status, mode, inhibit, frame (8), two pulse records (22 each), the
    // triangle (11), noise (16) and DMC (22) records.
    let apu_len = 1 + 1 + 1 + 8 + 22 + 22 + 11 + 16 + 22;
    let expected_len = 8 + 16 + 9 + 7 + 23 + 6 + 5 + 4 + 4 + apu_len + 3 + 4 + 8 + 4 + 7;
    assert_eq!(bytes.len(), expected_len);
    let apu_start = 8 + 16 + 9 + 7 + 23 + 6 + 5 + 4 + 4;
    assert_eq!(bytes[apu_start + 1], 1); // five-step mode
    // Pulse 1 record: id, duty, step, length, length enabled, timer, reload.
    let p1 = apu_start + 11;
    assert_eq!(bytes[p1], 1);
    assert_eq!(bytes[p1 + 1], 2);
    assert_eq!(&bytes[p1 + 7..p1 + 9], &apu.square_1.timer_reload.to_le_bytes());
    // DMC record ends with IRQ enable, loop flag and rate.
    let dmc_end = apu_start + apu_len;
    assert_eq!(&bytes[dmc_end - 4..dmc_end], &[1, 1, 53, 0]);
    for len in [apu_start + 3, apu_start + 20, dmc_end - 1] {
        assert_eq!(decode(&bytes[..len]), Err(LoadError::Truncated), "len {}", len);
    }
}

#[test]
fn apu_load_state_restores_whole_apu() {
    let a = busy_apu();
    let saved = ApuSave::Full(a.save_state());
    let mut b = Apu::new();
    b.set_channel_muted(1, true);
    assert!(saved.is_valid());
    b.load_state(a.cycles as u32, &saved);
    assert_eq!(b.save_state(), a.save_state());
    assert_eq!(b.cycles, a.cycles);
    assert_eq!(b.dmc.timer_reload, 53);
    assert!(b.dmc.irq_enable);
    assert!(b.dmc.loop_flag);
    assert_eq!(b.mode, FrameCounterMode::FiveStep);
    assert_eq!(b.muted, [false, true, false, false, false]);
    assert_eq!(b.peek(0x4015), a.peek(0x4015));
    assert_eq!(b.levels(), a.levels());
}

#[test]
fn apu_load_after_encoded_save() {
    let a = busy_apu();
    let mut s = sample_state();
    s.apu_cycles = a.cycles as u32;
    s.apu = ApuSave::Full(a.save_state());
    let loaded = decode(&encode(&s)).unwrap();
    let mut b = Apu::new();
    b.load_state(loaded.apu_cycles, &loaded.apu);
    assert_eq!(b.save_state(), a.save_state());
    assert_eq!(b.cycles, a.cycles);
}

#[test]
fn apu_load_legacy_save_resets_dmc() {
    let a = busy_apu();
    let mut b = busy_apu();
    b.load_state(12, &ApuSave::Legacy);
    assert_eq!(b.cycles, 12);
    assert_eq!(b.dmc, Dmc::new());
    assert_eq!(b.square_1, a.square_1);
    assert_eq!(b.noise, a.noise);
    assert_eq!(b.frame, a.frame);
}

#[test]
fn apu_load_dmc_only_save_keeps_rate() {
    let a = busy_apu();
    let mut b = Apu::new();
    b.load_state(3, &ApuSave::DmcOnly(a.dmc.save_state()));
    assert_eq!(b.cycles, 3);
    assert_eq!(b.dmc.save_state(), a.dmc.save_state());
    assert_eq!(b.dmc.timer_reload, 427);
    assert!(!b.dmc.irq_enable);
    assert_eq!(b.square_1, Apu::new().square_1);
}

#[test]
fn apu_save_validity() {
    let a = busy_apu();
    let good = a.save_state();
    assert!(ApuSave::Full(good).is_valid());
    assert!(ApuSave::Legacy.is_valid());
    let mut bad = good;
    bad.square_1.duty = 4;
    assert!(!ApuSave::Full(bad).is_valid());
    let mut bad = good;
    bad.noise.lfsr = 0;
    assert!(!ApuSave::Full(bad).is_valid());
    let mut bad = good;
    bad.mode = FrameCounterMode::FourStep;
    bad.frame = 14915;
    assert!(!ApuSave::Full(bad).is_valid());
    let mut m = a.dmc.save_state();
    m.bits_remaining = 0;
    assert!(!ApuSave::DmcOnly(m).is_valid());
}

#[test]
fn apu_state_record_flags_are_lenient() {
    let a = busy_apu();
    let mut s = sample_state();
    s.apu = ApuSave::Full(a.save_state());
    let mut bytes = encode(&s);
    let apu_start = 8 + 16 + 9 + 7 + 23 + 6 + 5 + 4 + 4;
    // Pulse 1 length-enabled flag.
    let flag = apu_start + 11 + 4;
    assert_eq!(bytes[flag], if a.square_1.length_enabled { 1 } else { 0 });
    if a.square_1.length_enabled {
        bytes[flag] = 0x80;
        assert_eq!(decode(&bytes), Ok(s));
    }
}
