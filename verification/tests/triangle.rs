use wasm_nes::triangle::Triangle;

fn armed() -> Triangle {
    let mut t = Triangle::new();
    t.write_ctrl(0x10);
    t.write_lo(0x10);
    t.write_hi(0x08);
    t.cycle_linear();
    t
}

#[test]
fn triangle_new_is_silent() {
    let t = Triangle::new();
    assert_eq!(t.output(), 0);
    assert_eq!(t.step, 0);
}

#[test]
fn triangle_registers() {
    let mut t = Triangle::new();
    t.write_ctrl(0xFF);
    assert!(t.halt);
    assert!(!t.length_enabled);
    assert_eq!(t.linear_reload, 0x7F);
    t.write_ctrl(0x05);
    assert!(!t.halt);
    assert_eq!(t.linear_reload, 5);
    t.write_lo(0x34);
    t.write_hi(0b1111_1010);
    assert_eq!(t.timer_reload, 0x234);
    assert_eq!(t.length, 30);
    assert!(t.linear_reload_flag);
}

#[test]
fn triangle_sequence_values() {
    let mut t = armed();
    assert_eq!(t.output(), 15);
    let mut seen = Vec::new();
    for _ in 0..32 {
        seen.push(t.output());
        t.timer = 0;
        t.cycle_timer();
    }
    let expected: Vec<u8> = (0..16).rev().chain(0..16).collect();
    assert_eq!(seen, expected);
    assert_eq!(t.step, 0);
}

#[test]
fn triangle_holds_without_linear_counter() {
    let mut t = Triangle::new();
    t.write_lo(0x10);
    t.write_hi(0x08);
    assert_eq!(t.linear_counter, 0);
    t.timer = 0;
    t.cycle_timer();
    assert_eq!(t.step, 0);
    assert_eq!(t.timer, 0x10);
}

#[test]
fn triangle_holds_without_length_counter() {
    let mut t = armed();
    t.length = 0;
    t.timer = 0;
    t.cycle_timer();
    assert_eq!(t.step, 0);
}

#[test]
fn triangle_ultrasonic_is_silent() {
    let mut t = armed();
    t.write_lo(1);
    t.write_hi(0x08);
    assert_eq!(t.output(), 0);
}

#[test]
fn triangle_linear_counter() {
    let mut t = Triangle::new();
    t.write_ctrl(0x03);
    t.write_hi(0x00);
    t.cycle_linear();
    assert_eq!(t.linear_counter, 3);
    assert!(!t.linear_reload_flag);
    t.cycle_linear();
    t.cycle_linear();
    t.cycle_linear();
    t.cycle_linear();
    assert_eq!(t.linear_counter, 0);
}

#[test]
fn triangle_halt_keeps_reload_flag() {
    let mut t = Triangle::new();
    t.write_ctrl(0x83);
    t.write_hi(0x00);
    t.cycle_linear();
    t.cycle_linear();
    assert_eq!(t.linear_counter, 3);
    assert!(t.linear_reload_flag);
}

#[test]
fn triangle_length_counter() {
    let mut t = Triangle::new();
    t.write_hi(0b0001_1000);
    assert_eq!(t.length, 2);
    t.cycle_length();
    assert_eq!(t.length, 1);
    t.write_ctrl(0x80);
    t.cycle_length();
    assert_eq!(t.length, 1);
    t.disable();
    assert_eq!(t.length, 0);
    assert!(!t.length_enabled);
    t.enable();
    assert!(t.length_enabled);
}
