use chip8_core::machine::{Emu, ExecError};

fn pixel(e: &Emu, x: usize, y: usize) -> bool {
    e.framebuffer()[y * 64 + x]
}

#[test]
fn drawing_glyph_zero_twice_clears_and_reports_collision() {
    // With I = 0 and V0 = 0 the five rows at memory 0..5 are the digit-0
    // glyph; drawing it at (0, 0) twice XORs it away again.
    let mut e = Emu::new();
    e.load(&[0xD0, 0x05, 0xD0, 0x05]).unwrap();

    e.tick().unwrap();
    let glyph: [u8; 5] = [0xF0, 0x90, 0x90, 0x90, 0xF0];
    for (row, bits) in glyph.iter().enumerate() {
        for col in 0..8 {
            let expected = bits & (0x80 >> col) != 0;
            assert_eq!(pixel(&e, col, row), expected, "pixel ({}, {})", col, row);
        }
    }
    assert_eq!(e.register(0xF), 0, "no collision on the first draw");

    e.tick().unwrap();
    assert!(e.framebuffer().iter().all(|p| !p), "second draw clears every pixel");
    assert_eq!(e.register(0xF), 1, "collision reported on the second draw");
}

#[test]
fn draw_wraps_horizontally_and_vertically() {
    // A solid 8-wide, 2-row sprite drawn at (62, 31) wraps to columns
    // 0..6 and to row 0.
    let mut e = Emu::new();
    e.load(&[
        0x60, 0x3E, // V0 = 62
        0x61, 0x1F, // V1 = 31
        0xA2, 0x08, // I = 0x208: the sprite bytes below
        0xD0, 0x12, // draw 2 rows at (V0, V1)
        0xFF, 0xFF, // sprite data
    ])
    .unwrap();
    for _ in 0..4 {
        e.tick().unwrap();
    }
    for row in [31usize, 0] {
        for col in [62usize, 63, 0, 1, 2, 3, 4, 5] {
            assert!(pixel(&e, col, row), "pixel ({}, {})", col, row);
        }
        assert!(!pixel(&e, 6, row));
        assert!(!pixel(&e, 61, row));
    }
    assert_eq!(e.register(0xF), 0);
}

#[test]
fn draw_position_comes_from_registers_not_their_names() {
    let mut e = Emu::new();
    e.load(&[
        0x62, 0x0A, // V2 = 10
        0x63, 0x07, // V3 = 7
        0xD2, 0x31, // draw 1 row of glyph 0 at (10, 7)
    ])
    .unwrap();
    for _ in 0..3 {
        e.tick().unwrap();
    }
    // Row 0 of glyph 0 is 0xF0: four set pixels from x = 10.
    for col in 10..14 {
        assert!(pixel(&e, col, 7), "pixel ({}, 7)", col);
    }
    assert!(!pixel(&e, 14, 7));
    assert!(!pixel(&e, 9, 7));
}

#[test]
fn draw_zero_rows_changes_nothing() {
    let mut e = Emu::new();
    e.load(&[0xD0, 0x00]).unwrap();
    e.tick().unwrap();
    assert!(e.framebuffer().iter().all(|p| !p));
    assert_eq!(e.register(0xF), 0);
    assert_eq!(e.program_counter(), 0x202);
}

#[test]
fn draw_reading_past_memory_end_reports_out_of_bounds() {
    let mut e = Emu::new();
    e.load(&[0xAF, 0xFF, 0xD0, 0x02]).unwrap(); // rows at 0xFFF and 0x1000
    e.tick().unwrap();
    assert!(matches!(e.tick(), Err(ExecError::MemoryOutOfBounds)));
    assert!(e.framebuffer().iter().all(|p| !p));
}

#[test]
fn draw_single_row_at_last_byte_succeeds() {
    let mut e = Emu::new();
    e.load(&[0xAF, 0xFF, 0xD0, 0x01]).unwrap();
    e.tick().unwrap();
    e.tick().unwrap(); // the byte at 0xFFF is 0: nothing set, no error
    assert!(e.framebuffer().iter().all(|p| !p));
}

#[test]
fn clear_screen_blanks_every_pixel() {
    let mut e = Emu::new();
    e.load(&[0xD0, 0x05, 0x00, 0xE0]).unwrap();
    e.tick().unwrap();
    assert!(e.framebuffer().iter().any(|p| *p));
    e.tick().unwrap();
    assert!(e.framebuffer().iter().all(|p| !p));
}
