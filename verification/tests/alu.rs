use chip8_core::machine::Emu;

fn run(prog: &[u8]) -> Emu {
    let mut e = Emu::new();
    e.load(prog).unwrap();
    for _ in 0..prog.len() / 2 {
        e.tick().unwrap();
    }
    e
}

#[test]
fn add_imm_wraps_and_leaves_flag_alone() {
    // V3 = 0xFF, add 0x02: wraps to 0x01, VF untouched.
    let e = run(&[0x63, 0xFF, 0x73, 0x02]);
    assert_eq!(e.register(3), 0x01);
    assert_eq!(e.register(0xF), 0x00);
}

#[test]
fn add_reg_sets_carry_on_overflow() {
    // V0 = 0xFF, V1 = 0x01: sum wraps to 0x00 and VF reports the carry.
    let e = run(&[0x60, 0xFF, 0x61, 0x01, 0x80, 0x14]);
    assert_eq!(e.register(0), 0x00);
    assert_eq!(e.register(0xF), 1);
}

#[test]
fn add_reg_clears_carry_without_overflow() {
    let e = run(&[0x60, 0x20, 0x61, 0x22, 0x80, 0x14]);
    assert_eq!(e.register(0), 0x42);
    assert_eq!(e.register(0xF), 0);
}

#[test]
fn sub_reg_underflow_wraps_and_clears_flag() {
    // V0 = 0x05 minus V1 = 0x0A: wraps to 0xFB, VF = 0 marks the borrow.
    let e = run(&[0x60, 0x05, 0x61, 0x0A, 0x80, 0x15]);
    assert_eq!(e.register(0), 0xFB);
    assert_eq!(e.register(0xF), 0);
}

#[test]
fn sub_reg_without_borrow_sets_flag() {
    let e = run(&[0x60, 0x0A, 0x61, 0x05, 0x80, 0x15]);
    assert_eq!(e.register(0), 0x05);
    assert_eq!(e.register(0xF), 1);
}

#[test]
fn sub_from_reverses_operands() {
    // V0 = V1 - V0.
    let e = run(&[0x60, 0x0A, 0x61, 0x2A, 0x80, 0x17]);
    assert_eq!(e.register(0), 0x20);
    assert_eq!(e.register(0xF), 1);
}

#[test]
fn sub_from_underflow_clears_flag() {
    let e = run(&[0x60, 0x2A, 0x61, 0x0A, 0x80, 0x17]);
    assert_eq!(e.register(0), 0xE0);
    assert_eq!(e.register(0xF), 0);
}

#[test]
fn shr_stores_dropped_bit() {
    let e = run(&[0x60, 0x81, 0x80, 0x06]);
    assert_eq!(e.register(0), 0x40);
    assert_eq!(e.register(0xF), 1);
}

#[test]
fn shl_stores_masked_high_bit() {
    // The flag register takes the masked value 0x80, not a 0/1 bit.
    let e = run(&[0x60, 0x81, 0x80, 0x0E]);
    assert_eq!(e.register(0), 0x02);
    assert_eq!(e.register(0xF), 0x80);
}

#[test]
fn shl_clears_flag_when_high_bit_unset() {
    let e = run(&[0x60, 0x41, 0x80, 0x0E]);
    assert_eq!(e.register(0), 0x82);
    assert_eq!(e.register(0xF), 0);
}

#[test]
fn mov_or_and_xor() {
    let e = run(&[0x60, 0x0C, 0x61, 0x0A, 0x82, 0x00, 0x82, 0x11]);
    // V2 = V0 = 0x0C, then V2 |= V1 = 0x0A.
    assert_eq!(e.register(2), 0x0E);
    let e = run(&[0x60, 0x0C, 0x61, 0x0A, 0x60, 0x0C, 0x80, 0x12]);
    assert_eq!(e.register(0), 0x08);
    let e = run(&[0x60, 0x0C, 0x61, 0x0A, 0x80, 0x13]);
    assert_eq!(e.register(0), 0x06);
}

#[test]
fn set_imm_overwrites() {
    let e = run(&[0x6A, 0x55, 0x6A, 0x21]);
    assert_eq!(e.register(0xA), 0x21);
}

#[test]
fn random_masked_to_zero_is_zero() {
    // Whatever byte was drawn, AND 0x00 pins the result.
    let e = run(&[0xC0, 0x00]);
    assert_eq!(e.register(0), 0);
}

#[test]
fn random_masked_stays_in_mask() {
    let e = run(&[0xC1, 0x0F]);
    assert!(e.register(1) <= 0x0F);
}
