use wasm_nes::dmc::Dmc;

#[test]
fn dmc_new_state() {
    let d = Dmc::new();
    assert_eq!(d.timer_reload, 427);
    assert_eq!(d.sample_address, 0xC000);
    assert_eq!(d.sample_length, 1);
    assert_eq!(d.bits_remaining, 8);
    assert!(d.silence);
    assert!(!d.active());
    assert_eq!(d.fetch_address(), None);
    assert_eq!(d.output(), 0);
}

#[test]
fn dmc_register_formulas() {
    let mut d = Dmc::new();
    d.write_address(0x00);
    assert_eq!(d.sample_address, 0xC000);
    d.write_address(0xFF);
    assert_eq!(d.sample_address, 0xFFC0);
    d.write_address(0x01);
    assert_eq!(d.sample_address, 0xC040);
    d.write_length(0x00);
    assert_eq!(d.sample_length, 1);
    d.write_length(0xFF);
    assert_eq!(d.sample_length, 4081);
    d.write_length(0x02);
    assert_eq!(d.sample_length, 33);
    d.write_dac(0xFF);
    assert_eq!(d.output(), 127);
    d.write_dac(0x40);
    assert_eq!(d.output(), 64);
}

#[test]
fn dmc_rate_table() {
    let mut d = Dmc::new();
    let rates = [428u16, 380, 340, 320, 286, 254, 226, 214, 190, 160, 142, 128, 106, 84, 72, 54];
    for (i, r) in rates.iter().enumerate() {
        d.write_ctrl(i as u8);
        assert_eq!(d.timer_reload, r - 1);
    }
    d.write_ctrl(0xCF);
    assert!(d.irq_enable);
    assert!(d.loop_flag);
    assert_eq!(d.timer_reload, 53);
}

#[test]
fn dmc_irq_disable_clears_flag() {
    let mut d = Dmc::new();
    d.irq_flag = true;
    d.write_ctrl(0x80);
    assert!(d.irq_flag);
    d.write_ctrl(0x00);
    assert!(!d.irq_flag);
}

#[test]
fn dmc_enable_only_restarts_when_idle() {
    let mut d = Dmc::new();
    d.write_address(0x10);
    d.write_length(0x01);
    d.enable();
    assert_eq!(d.current_address, 0xC400);
    assert_eq!(d.bytes_remaining, 17);
    assert!(d.active());
    d.complete_fetch(0xAA);
    d.write_address(0x20);
    d.enable();
    assert_eq!(d.current_address, 0xC401);
    assert_eq!(d.bytes_remaining, 16);
    d.disable();
    assert!(!d.active());
    assert_eq!(d.fetch_address(), None);
}

#[test]
fn dmc_fetch_protocol() {
    let mut d = Dmc::new();
    d.enable();
    assert_eq!(d.fetch_address(), Some(0xC000));
    d.complete_fetch(0x55);
    assert_eq!(d.sample_buffer, Some(0x55));
    // The one-byte sample is done; no IRQ without IRQ enable.
    assert_eq!(d.bytes_remaining, 0);
    assert!(!d.irq_flag);
    assert_eq!(d.fetch_address(), None);
}

#[test]
fn dmc_address_wraps_to_8000() {
    let mut d = Dmc::new();
    d.current_address = 0xFFFF;
    d.bytes_remaining = 3;
    d.complete_fetch(1);
    assert_eq!(d.current_address, 0x8000);
    assert_eq!(d.bytes_remaining, 2);
}

#[test]
fn dmc_end_of_sample_irq() {
    let mut d = Dmc::new();
    d.write_ctrl(0x80);
    d.enable();
    d.complete_fetch(0);
    assert!(d.irq_flag);
    assert!(d.irq_pending);
    d.clear_irq();
    assert!(!d.irq_flag);
    assert!(d.irq_pending);
}

#[test]
fn dmc_end_of_sample_loops() {
    let mut d = Dmc::new();
    d.write_ctrl(0xC0);
    d.write_length(0);
    d.enable();
    d.complete_fetch(0);
    assert!(!d.irq_flag);
    assert_eq!(d.current_address, 0xC000);
    assert_eq!(d.bytes_remaining, 1);
}

#[test]
fn dmc_output_unit_moves_dac_by_two() {
    let mut d = Dmc::new();
    d.write_dac(10);
    d.sample_buffer = Some(0b0000_0101);
    // Drain the initial silent cycle: 8 output clocks.
    d.timer_reload = 0;
    for _ in 0..8 {
        d.cycle_timer();
    }
    assert!(!d.silence);
    assert_eq!(d.shift_register, 0b0000_0101);
    assert_eq!(d.output(), 10);
    d.cycle_timer();
    assert_eq!(d.output(), 12);
    d.cycle_timer();
    assert_eq!(d.output(), 10);
    d.cycle_timer();
    assert_eq!(d.output(), 12);
    for _ in 0..5 {
        d.cycle_timer();
    }
    assert_eq!(d.output(), 2);
    // Buffer empty now: silent cycle keeps the level.
    assert!(d.silence);
    for _ in 0..8 {
        d.cycle_timer();
    }
    assert_eq!(d.output(), 2);
}

#[test]
fn dmc_dac_saturates() {
    let mut d = Dmc::new();
    d.silence = false;
    d.write_dac(126);
    d.shift_register = 0xFF;
    d.timer_reload = 0;
    d.cycle_timer();
    assert_eq!(d.output(), 126);
    d.write_dac(1);
    d.shift_register = 0;
    d.cycle_timer();
    assert_eq!(d.output(), 1);
}

#[test]
fn dmc_timer_counts_down() {
    let mut d = Dmc::new();
    d.cycle_timer();
    assert_eq!(d.timer, 427);
    assert_eq!(d.bits_remaining, 7);
    d.cycle_timer();
    assert_eq!(d.timer, 426);
    assert_eq!(d.bits_remaining, 7);
}
