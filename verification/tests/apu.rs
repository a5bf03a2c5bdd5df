use wasm_nes::apu::{Apu, ChannelLevels, FrameCounterMode};

#[test]
fn apu_new_state() {
    let mut apu = Apu::new();
    assert_eq!(apu.mode, FrameCounterMode::FiveStep);
    assert_eq!(apu.frame, 0);
    assert_eq!(apu.peek(0x4015), Some(0));
    assert_eq!(apu.peek(0x4000), None);
    assert_eq!(apu.read(0x4015), 0);
    assert_eq!(apu.square_1.id, 1);
    assert_eq!(apu.square_2.id, 2);
}

#[test]
fn apu_register_dispatch() {
    let mut apu = Apu::new();
    apu.write(0x4015, 0x1F);
    apu.write(0x4000, 0x9F);
    apu.write(0x4002, 0x34);
    apu.write(0x4003, 0x0A);
    assert_eq!(apu.square_1.duty, 2);
    assert_eq!(apu.square_1.timer_reload, 0x234);
    assert_eq!(apu.square_1.length, 254);
    apu.write(0x4004, 0x40);
    apu.write(0x4005, 0x80);
    apu.write(0x4006, 0x01);
    apu.write(0x4007, 0x01);
    assert_eq!(apu.square_2.duty, 1);
    assert!(apu.square_2.sweep_enabled);
    assert_eq!(apu.square_2.timer_reload, 0x101);
    apu.write(0x4008, 0x7F);
    apu.write(0x400A, 0x10);
    apu.write(0x400B, 0x08);
    assert_eq!(apu.triangle.linear_reload, 0x7F);
    assert_eq!(apu.triangle.timer_reload, 0x10);
    assert_eq!(apu.triangle.length, 254);
    apu.write(0x400C, 0x13);
    apu.write(0x400E, 0x85);
    apu.write(0x400F, 0x08);
    assert_eq!(apu.noise.volume_constant, 3);
    assert!(apu.noise.mode);
    assert_eq!(apu.noise.timer_reload, 96);
    assert_eq!(apu.noise.length, 254);
    apu.write(0x4010, 0x8F);
    apu.write(0x4011, 0x40);
    apu.write(0x4012, 0x01);
    apu.write(0x4013, 0x01);
    assert!(apu.dmc.irq_enable);
    assert_eq!(apu.dmc.output, 0x40);
    assert_eq!(apu.dmc.sample_address, 0xC040);
    assert_eq!(apu.dmc.sample_length, 17);
}

#[test]
fn apu_unused_addresses_are_ignored() {
    let mut apu = Apu::new();
    apu.write(0x4009, 0xFF);
    apu.write(0x400D, 0xFF);
    apu.write(0x4014, 0xFF);
    apu.write(0x4016, 0xFF);
    assert_eq!(apu.triangle.timer_reload, 0);
    assert_eq!(apu.noise.timer_reload, 0);
    assert_eq!(apu.peek(0x4015), Some(0));
}

#[test]
fn apu_status_read_reports_channels() {
    let mut apu = Apu::new();
    apu.write(0x4015, 0x1F);
    apu.write(0x4003, 0x08);
    apu.write(0x400B, 0x08);
    assert_eq!(apu.read(0x4015), 0x15);
    apu.write(0x4007, 0x08);
    apu.write(0x400F, 0x08);
    assert_eq!(apu.read(0x4015), 0x1F);
    apu.write(0x4015, 0x00);
    assert_eq!(apu.read(0x4015), 0x00);
}

#[test]
fn apu_status_read_clears_frame_interrupt_only() {
    let mut apu = Apu::new();
    apu.status = 0x40;
    apu.dmc.irq_flag = true;
    assert_eq!(apu.read(0x4015), 0xC0);
    assert_eq!(apu.read(0x4015), 0x80);
    assert!(apu.dmc.irq_flag);
    apu.write(0x4015, 0);
    assert!(!apu.dmc.irq_flag);
    assert_eq!(apu.read(0x4015), 0x00);
}

#[test]
fn apu_four_step_sequence_raises_frame_interrupt() {
    let mut apu = Apu::new();
    apu.write(0x4017, 0x00);
    assert_eq!(apu.mode, FrameCounterMode::FourStep);
    let mut raised_at = None;
    for cpu_cycle in 0..40_000usize {
        apu.cycles = cpu_cycle;
        apu.cycle();
        if raised_at.is_none() && apu.status & 0x40 != 0 {
            raised_at = Some(cpu_cycle);
        }
    }
    // 14915 APU cycles of two CPU cycles each; the first APU cycle is CPU
    // cycle 0.
    assert_eq!(raised_at, Some(2 * 14914));
}

#[test]
fn apu_four_step_inhibited() {
    let mut apu = Apu::new();
    apu.write(0x4017, 0x40);
    for cpu_cycle in 0..40_000usize {
        apu.cycles = cpu_cycle;
        apu.cycle();
        assert_eq!(apu.status & 0x40, 0);
    }
}

#[test]
fn apu_five_step_never_raises_frame_interrupt() {
    let mut apu = Apu::new();
    apu.write(0x4017, 0x80);
    for cpu_cycle in 0..80_000usize {
        apu.cycles = cpu_cycle;
        apu.cycle();
        assert_eq!(apu.status & 0x40, 0);
        assert!(apu.frame < 18641);
    }
}

#[test]
fn apu_inhibit_write_clears_frame_interrupt() {
    let mut apu = Apu::new();
    apu.status = 0x40;
    apu.frame = 100;
    apu.write(0x4017, 0x40);
    assert_eq!(apu.status, 0);
    assert_eq!(apu.frame, 0);
    assert!(apu.irq_inhibit);
}

#[test]
fn apu_five_step_write_clocks_length_immediately() {
    let mut apu = Apu::new();
    apu.write(0x4015, 0x01);
    apu.write(0x4003, 0b0001_1000);
    assert_eq!(apu.square_1.length, 2);
    apu.write(0x4017, 0x80);
    assert_eq!(apu.square_1.length, 1);
    apu.write(0x4017, 0x00);
    assert_eq!(apu.square_1.length, 1);
}

#[test]
fn apu_half_frame_clocks_length_counters() {
    let mut apu = Apu::new();
    apu.write(0x4015, 0x0F);
    apu.write(0x4003, 0b0001_1000);
    apu.frame = 7456;
    apu.cycles = 0;
    apu.cycle();
    assert_eq!(apu.frame, 7457);
    assert_eq!(apu.square_1.length, 1);
}

#[test]
fn apu_odd_cycles_skip_pulse_timers() {
    let mut apu = Apu::new();
    apu.write(0x4002, 0x05);
    apu.write(0x4003, 0x00);
    apu.cycles = 1;
    apu.cycle();
    assert_eq!(apu.square_1.timer, 5);
    assert_eq!(apu.frame, 0);
    apu.cycles = 2;
    apu.cycle();
    assert_eq!(apu.square_1.timer, 4);
    assert_eq!(apu.frame, 1);
}

#[test]
fn apu_mute_only_affects_levels() {
    let mut apu = Apu::new();
    apu.write(0x4015, 0x01);
    apu.write(0x4000, 0b1001_1100);
    apu.write(0x4002, 0x40);
    apu.write(0x4003, 0x08);
    apu.write(0x4011, 0x30);
    assert_eq!(
        apu.levels(),
        ChannelLevels { pulse_1: 12, pulse_2: 0, triangle: 0, noise: 0, dmc: 0x30 }
    );
    apu.set_channel_muted(0, true);
    apu.set_channel_muted(4, true);
    apu.set_channel_muted(9, true);
    assert_eq!(apu.muted, [true, false, false, false, true]);
    assert_eq!(apu.levels(), ChannelLevels { pulse_1: 0, pulse_2: 0, triangle: 0, noise: 0, dmc: 0 });
    assert_eq!(apu.square_1.output(), 12);
    apu.set_channel_muted(0, false);
    assert_eq!(apu.levels().pulse_1, 12);
}

#[test]
fn apu_reset_disables_channels() {
    let mut apu = Apu::new();
    apu.write(0x4015, 0x1F);
    apu.write(0x4003, 0x08);
    apu.status = 0x40;
    apu.frame = 50;
    apu.reset();
    assert_eq!(apu.square_1.length, 0);
    assert_eq!(apu.status, 0);
    assert_eq!(apu.frame, 0);
    assert!(!apu.square_1.length_enabled);
}
