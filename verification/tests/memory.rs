use chip8_core::machine::{Emu, ExecError};

#[test]
fn bcd_of_157_stores_digits() {
    let mut e = Emu::new();
    e.load(&[0x60, 0x9D, 0xA3, 0x00, 0xF0, 0x33]).unwrap();
    for _ in 0..3 {
        e.tick().unwrap();
    }
    assert_eq!(e.memory_byte(0x300), 1);
    assert_eq!(e.memory_byte(0x301), 5);
    assert_eq!(e.memory_byte(0x302), 7);
}

#[test]
fn bcd_of_small_value() {
    let mut e = Emu::new();
    e.load(&[0x60, 0x07, 0xA3, 0x00, 0xF0, 0x33]).unwrap();
    for _ in 0..3 {
        e.tick().unwrap();
    }
    assert_eq!(e.memory_byte(0x300), 0);
    assert_eq!(e.memory_byte(0x301), 0);
    assert_eq!(e.memory_byte(0x302), 7);
}

#[test]
fn bcd_near_memory_end_reports_out_of_bounds() {
    let mut e = Emu::new();
    e.load(&[0xAF, 0xFE, 0xF0, 0x33]).unwrap(); // I = 0xFFE: digits need 0xFFE..0x1001
    e.tick().unwrap();
    assert!(matches!(e.tick(), Err(ExecError::MemoryOutOfBounds)));
    assert_eq!(e.memory_byte(0xFFE), 0);
    assert_eq!(e.program_counter(), 0x202);
}

#[test]
fn store_and_load_registers_round_trip() {
    let mut e = Emu::new();
    e.load(&[
        0x60, 0x11, // V0
        0x61, 0x22, // V1
        0x62, 0x33, // V2
        0xA3, 0x00, // I = 0x300
        0xF2, 0x55, // store V0..=V2
        0x60, 0x00, // clear V0
        0x61, 0x00, // clear V1
        0x62, 0x00, // clear V2
        0xF2, 0x65, // load V0..=V2 back
    ])
    .unwrap();
    for _ in 0..9 {
        e.tick().unwrap();
    }
    assert_eq!(e.memory_byte(0x300), 0x11);
    assert_eq!(e.memory_byte(0x301), 0x22);
    assert_eq!(e.memory_byte(0x302), 0x33);
    assert_eq!(e.memory_byte(0x303), 0x00);
    assert_eq!(e.register(0), 0x11);
    assert_eq!(e.register(1), 0x22);
    assert_eq!(e.register(2), 0x33);
    assert_eq!(e.register(3), 0x00);
}

#[test]
fn store_registers_past_memory_end_reports_out_of_bounds() {
    let mut e = Emu::new();
    e.load(&[0xAF, 0xFF, 0xF1, 0x55]).unwrap(); // I = 0xFFF, two registers
    e.tick().unwrap();
    assert!(matches!(e.tick(), Err(ExecError::MemoryOutOfBounds)));
    assert_eq!(e.memory_byte(0xFFF), 0);
}

#[test]
fn store_single_register_at_last_byte_succeeds() {
    let mut e = Emu::new();
    e.load(&[0x60, 0x5A, 0xAF, 0xFF, 0xF0, 0x55]).unwrap();
    for _ in 0..3 {
        e.tick().unwrap();
    }
    assert_eq!(e.memory_byte(0xFFF), 0x5A);
}

#[test]
fn set_index_and_add_index() {
    let mut e = Emu::new();
    e.load(&[0xA1, 0x23, 0x60, 0x20, 0xF0, 0x1E]).unwrap();
    e.tick().unwrap();
    assert_eq!(e.index_register(), 0x123);
    e.tick().unwrap();
    e.tick().unwrap();
    assert_eq!(e.index_register(), 0x143);
}

#[test]
fn font_index_uses_low_nibble() {
    let mut e = Emu::new();
    e.load(&[0x60, 0x0A, 0xF0, 0x29]).unwrap();
    e.tick().unwrap();
    e.tick().unwrap();
    assert_eq!(e.index_register(), 50); // glyph A sits at 5 * 10

    let mut e = Emu::new();
    e.load(&[0x60, 0x3A, 0xF0, 0x29]).unwrap(); // only the low nibble names the glyph
    e.tick().unwrap();
    e.tick().unwrap();
    assert_eq!(e.index_register(), 50);
}
