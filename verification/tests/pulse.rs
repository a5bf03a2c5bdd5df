use wasm_nes::pulse::Pulse;

#[test]
fn pulse_new_is_silent() {
    let p = Pulse::new(1);
    assert_eq!(p.output(), 0);
    assert_eq!(p.length, 0);
    assert_eq!(p.volume_constant, 15);
    assert!(p.length_enabled);
}

#[test]
fn pulse_hi_write_loads_length_and_period() {
    let mut p = Pulse::new(1);
    p.write_lo(0xAB);
    // Index 1 of the length table is 254; high period bits are 0b101.
    p.write_hi(0b0000_1101);
    assert_eq!(p.length, 254);
    assert_eq!(p.timer_reload, 0x5AB);
    assert_eq!(p.timer, 0x5AB);
    assert_eq!(p.step, 0);
    assert!(p.envelope_start);
}

#[test]
fn pulse_lo_write_keeps_high_bits() {
    let mut p = Pulse::new(2);
    p.write_hi(0x07);
    p.write_lo(0x12);
    assert_eq!(p.timer_reload, 0x712);
    p.write_lo(0xFF);
    assert_eq!(p.timer_reload, 0x7FF);
}

#[test]
fn pulse_ctrl_write_keeps_sequencer_position() {
    let mut p = Pulse::new(1);
    p.write_lo(0);
    p.write_hi(0);
    // Period 0: each timer clock advances the sequencer.
    p.cycle_timer();
    p.cycle_timer();
    p.cycle_timer();
    assert_eq!(p.step, 3);
    p.write_ctrl(0b1011_0101);
    assert_eq!(p.step, 3);
    assert_eq!(p.duty, 2);
    assert!(!p.length_enabled);
    assert!(p.envelope_loop);
    assert!(!p.envelope_enabled);
    assert_eq!(p.volume_constant, 5);
    p.write_hi(0);
    assert_eq!(p.step, 0);
}

#[test]
fn pulse_sequencer_wraps_after_eight_steps() {
    let mut p = Pulse::new(1);
    for _ in 0..8 {
        p.cycle_timer();
    }
    assert_eq!(p.step, 0);
    p.cycle_timer();
    assert_eq!(p.step, 1);
}

#[test]
fn pulse_timer_counts_down_then_reloads() {
    let mut p = Pulse::new(1);
    p.write_lo(2);
    p.write_hi(0);
    assert_eq!(p.timer, 2);
    p.cycle_timer();
    assert_eq!((p.timer, p.step), (1, 0));
    p.cycle_timer();
    assert_eq!((p.timer, p.step), (0, 0));
    p.cycle_timer();
    assert_eq!((p.timer, p.step), (2, 1));
}

#[test]
fn pulse_output_follows_duty_and_volume() {
    let mut p = Pulse::new(1);
    // Duty 50% (pattern 0b0000_1111), constant volume 9.
    p.write_ctrl(0b1001_1001);
    p.write_lo(0x40);
    p.write_hi(0x08);
    assert_eq!(p.output(), 9);
    for _ in 0..4 {
        p.cycle_timer();
        for _ in 0..0x40 {
            p.cycle_timer();
        }
    }
    assert_eq!(p.step, 4);
    assert_eq!(p.output(), 0);
}

#[test]
fn pulse_duty_75_percent_pattern() {
    let mut p = Pulse::new(1);
    // Duty 3 (0b1111_1100): low at steps 0 and 1.
    p.write_ctrl(0b1101_1111);
    p.write_lo(0x40);
    p.write_hi(0x08);
    assert_eq!(p.output(), 0);
    p.step = 2;
    assert_eq!(p.output(), 15);
}

#[test]
fn pulse_short_period_is_muted() {
    let mut p = Pulse::new(1);
    p.write_ctrl(0b1001_1111);
    p.write_lo(7);
    p.write_hi(0x08);
    assert_eq!(p.output(), 0);
    p.write_lo(8);
    assert_eq!(p.output(), 15);
}

#[test]
fn pulse_sweep_overflow_target_mutes() {
    let mut p = Pulse::new(1);
    p.write_ctrl(0b1001_1111);
    p.write_lo(0xFF);
    p.write_hi(0x0F);
    // Period 0x7FF; an upward sweep by shift 1 targets 0xBFE > 0x7FF.
    p.write_sweep(0b0000_0001);
    assert_eq!(p.output(), 0);
}

#[test]
fn pulse_envelope_decays_and_loops() {
    let mut p = Pulse::new(1);
    // Loop flag set, envelope enabled, divider period 0.
    p.write_ctrl(0b0010_0000);
    p.write_hi(0);
    p.cycle_envelope();
    assert_eq!(p.volume, 15);
    assert!(!p.envelope_start);
    for expected in (0..15).rev() {
        p.cycle_envelope();
        assert_eq!(p.volume, expected);
    }
    p.cycle_envelope();
    assert_eq!(p.volume, 15);
}

#[test]
fn pulse_envelope_without_loop_stays_at_zero() {
    let mut p = Pulse::new(1);
    p.write_ctrl(0b0000_0001);
    p.write_hi(0);
    p.cycle_envelope();
    assert_eq!(p.envelope_timer, 1);
    p.cycle_envelope();
    assert_eq!(p.envelope_timer, 0);
    assert_eq!(p.volume, 15);
    p.cycle_envelope();
    assert_eq!(p.volume, 14);
    assert_eq!(p.envelope_timer, 1);
    for _ in 0..100 {
        p.cycle_envelope();
    }
    assert_eq!(p.volume, 0);
}

#[test]
fn pulse_sweep_zero_shift_is_noop() {
    let mut p = Pulse::new(1);
    p.write_lo(0x00);
    p.write_hi(0x01);
    // Enabled, period 0, shift 0.
    p.write_sweep(0b1000_0000);
    for _ in 0..10 {
        p.cycle_sweep();
    }
    assert_eq!(p.timer_reload, 0x100);
}

#[test]
fn pulse_sweep_negate_ones_complement_on_pulse_1() {
    let mut p1 = Pulse::new(1);
    let mut p2 = Pulse::new(2);
    for p in [&mut p1, &mut p2] {
        p.write_lo(0x00);
        p.write_hi(0x01);
        // Enabled, period 0, negate, shift 1.
        p.write_sweep(0b1000_1001);
        p.cycle_sweep();
    }
    assert_eq!(p1.timer_reload, 0x100 - 0x80 - 1);
    assert_eq!(p2.timer_reload, 0x100 - 0x80);
}

#[test]
fn pulse_sweep_upward() {
    let mut p = Pulse::new(2);
    p.write_lo(0x00);
    p.write_hi(0x01);
    // Enabled, divider period 1, shift 2.
    p.write_sweep(0b1001_0010);
    assert!(p.sweep_reload_flag);
    p.cycle_sweep();
    assert_eq!(p.timer_reload, 0x140);
    assert_eq!(p.sweep_timer, 1);
    assert!(!p.sweep_reload_flag);
    p.cycle_sweep();
    assert_eq!(p.timer_reload, 0x140);
    assert_eq!(p.sweep_timer, 0);
    p.cycle_sweep();
    assert_eq!(p.timer_reload, 0x190);
}

#[test]
fn pulse_length_counter_and_halt() {
    let mut p = Pulse::new(1);
    p.write_hi(0b0001_1000); // index 3 -> length 2
    assert_eq!(p.length, 2);
    p.cycle_length();
    assert_eq!(p.length, 1);
    p.write_ctrl(0b0010_0000); // halt
    p.cycle_length();
    assert_eq!(p.length, 1);
    p.write_ctrl(0);
    p.cycle_length();
    p.cycle_length();
    assert_eq!(p.length, 0);
}

#[test]
fn pulse_disable_clears_length_and_blocks_loads() {
    let mut p = Pulse::new(1);
    p.write_hi(0x08);
    assert_eq!(p.length, 254);
    p.disable();
    assert_eq!(p.length, 0);
    p.write_hi(0x08);
    assert_eq!(p.length, 0);
    p.enable();
    p.write_hi(0x08);
    assert_eq!(p.length, 254);
}
