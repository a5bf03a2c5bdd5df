use wasm_nes::noise::Noise;

#[test]
fn noise_new_register_is_live() {
    let n = Noise::new();
    assert_eq!(n.lfsr, 1);
    assert_eq!(n.output(), 0);
}

#[test]
fn noise_long_mode_shift() {
    let mut n = Noise::new();
    n.cycle_timer();
    // bit0 = 1, bit1 = 0: feedback 1 enters at bit 14.
    assert_eq!(n.lfsr, 0x4000);
    n.cycle_timer();
    assert_eq!(n.lfsr, 0x2000);
}

#[test]
fn noise_short_mode_shift() {
    let mut n = Noise::new();
    n.write_mode(0x80);
    assert!(n.mode);
    n.lfsr = 0b100_0001;
    n.timer = 0;
    n.cycle_timer();
    // bit0 = 1, bit6 = 1: feedback 0.
    assert_eq!(n.lfsr, 0b10_0000);
}

#[test]
fn noise_register_never_dies() {
    for mode in [false, true] {
        let mut n = Noise::new();
        n.mode = mode;
        for _ in 0..100_000 {
            n.cycle_timer();
            assert_ne!(n.lfsr, 0);
            assert!(n.lfsr < 0x8000);
        }
    }
}

#[test]
fn noise_long_mode_period_is_32767() {
    let mut n = Noise::new();
    let start = n.lfsr;
    let mut count = 0u32;
    loop {
        n.cycle_timer();
        count += 1;
        if n.lfsr == start {
            break;
        }
    }
    assert_eq!(count, 32767);
}

#[test]
fn noise_period_table() {
    let mut n = Noise::new();
    let expected = [4u16, 8, 16, 32, 64, 96, 128, 160, 202, 254, 380, 508, 762, 1016, 2034, 4068];
    for (i, e) in expected.iter().enumerate() {
        n.write_mode(i as u8 | 0x70);
        assert_eq!(n.timer_reload, *e);
        assert!(!n.mode);
    }
}

#[test]
fn noise_timer_reloads() {
    let mut n = Noise::new();
    n.write_mode(0x01);
    n.cycle_timer();
    assert_eq!(n.timer, 8);
    n.cycle_timer();
    assert_eq!(n.timer, 7);
}

#[test]
fn noise_output_uses_volume() {
    let mut n = Noise::new();
    n.write_ctrl(0b0001_0110);
    n.write_length(0x08);
    assert_eq!(n.length, 254);
    n.lfsr = 2;
    assert_eq!(n.output(), 6);
    n.lfsr = 3;
    assert_eq!(n.output(), 0);
}

#[test]
fn noise_envelope() {
    let mut n = Noise::new();
    n.write_ctrl(0b0000_0000);
    n.write_length(0x08);
    assert!(n.envelope_start);
    n.cycle_envelope();
    assert_eq!(n.volume, 15);
    n.cycle_envelope();
    assert_eq!(n.volume, 14);
    n.lfsr = 2;
    assert_eq!(n.output(), 14);
}

#[test]
fn noise_length_and_disable() {
    let mut n = Noise::new();
    n.write_length(0b0001_1000);
    assert_eq!(n.length, 2);
    n.cycle_length();
    assert_eq!(n.length, 1);
    n.write_ctrl(0x20);
    n.cycle_length();
    assert_eq!(n.length, 1);
    n.disable();
    assert_eq!(n.length, 0);
    n.write_length(0x08);
    assert_eq!(n.length, 0);
    n.enable();
    n.write_length(0x08);
    assert_eq!(n.length, 254);
}
