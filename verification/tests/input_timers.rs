use chip8_core::machine::{Emu, ExecError};

#[test]
fn skip_if_key_pressed() {
    let mut e = Emu::new();
    e.load(&[0x60, 0x05, 0xE0, 0x9E]).unwrap();
    e.tick().unwrap();
    e.set_key(5, true);
    e.tick().unwrap();
    assert_eq!(e.program_counter(), 0x206);

    let mut e = Emu::new();
    e.load(&[0x60, 0x05, 0xE0, 0x9E]).unwrap();
    e.tick().unwrap();
    e.tick().unwrap();
    assert_eq!(e.program_counter(), 0x204);
}

#[test]
fn skip_if_key_not_pressed() {
    let mut e = Emu::new();
    e.load(&[0x60, 0x05, 0xE0, 0xA1]).unwrap();
    e.tick().unwrap();
    e.tick().unwrap();
    assert_eq!(e.program_counter(), 0x206);

    let mut e = Emu::new();
    e.load(&[0x60, 0x05, 0xE0, 0xA1]).unwrap();
    e.tick().unwrap();
    e.set_key(5, true);
    e.tick().unwrap();
    assert_eq!(e.program_counter(), 0x204);
}

#[test]
fn key_skip_with_register_out_of_key_range_reports_error() {
    let mut e = Emu::new();
    e.load(&[0x60, 0xFF, 0xE0, 0x9E]).unwrap();
    e.tick().unwrap();
    assert!(matches!(e.tick(), Err(ExecError::MemoryOutOfBounds)));
    assert_eq!(e.program_counter(), 0x202);
}

#[test]
fn released_key_no_longer_skips() {
    let mut e = Emu::new();
    e.load(&[0x60, 0x05, 0xE0, 0x9E]).unwrap();
    e.tick().unwrap();
    e.set_key(5, true);
    e.set_key(5, false);
    e.tick().unwrap();
    assert_eq!(e.program_counter(), 0x204);
}

#[test]
fn wait_key_rewinds_until_pressed_then_stores_index() {
    let mut e = Emu::new();
    e.load(&[0xF0, 0x0A]).unwrap();
    // No key pressed: the step succeeds and the program counter is back
    // where it was, so the same instruction re-executes next time.
    e.tick().unwrap();
    assert_eq!(e.program_counter(), 0x200);
    e.tick().unwrap();
    assert_eq!(e.program_counter(), 0x200);
    // Once a key is pressed the next step stores its index and proceeds.
    e.set_key(7, true);
    e.tick().unwrap();
    assert_eq!(e.register(0), 7);
    assert_eq!(e.program_counter(), 0x202);
}

#[test]
fn wait_key_takes_the_first_pressed_index() {
    let mut e = Emu::new();
    e.load(&[0xF0, 0x0A]).unwrap();
    e.set_key(9, true);
    e.set_key(3, true);
    e.tick().unwrap();
    assert_eq!(e.register(0), 3);
}

#[test]
fn delay_timer_counts_down_through_advance_timers_only() {
    let mut e = Emu::new();
    e.load(&[
        0x60, 0x05, // V0 = 5
        0xF0, 0x15, // delay = 5
        0xF1, 0x07, // V1 = delay
        0xF2, 0x07, // V2 = delay, after two timer steps
    ])
    .unwrap();
    e.tick().unwrap();
    e.tick().unwrap();
    e.tick().unwrap();
    assert_eq!(e.register(1), 5, "stepping instructions does not move the timer");
    e.tick_timers();
    e.tick_timers();
    e.tick().unwrap();
    assert_eq!(e.register(2), 3);
}

#[test]
fn sound_timer_floors_at_zero() {
    let mut e = Emu::new();
    e.load(&[0x60, 0x02, 0xF0, 0x18]).unwrap();
    e.tick().unwrap();
    assert!(!e.sound_active());
    e.tick().unwrap();
    assert!(e.sound_active());
    e.tick_timers();
    assert!(e.sound_active());
    e.tick_timers();
    assert!(!e.sound_active());
    e.tick_timers();
    assert!(!e.sound_active());
}

#[test]
fn get_delay_reads_zero_initially() {
    let mut e = Emu::new();
    e.load(&[0x60, 0x09, 0xF0, 0x07]).unwrap();
    e.tick().unwrap();
    e.tick().unwrap();
    assert_eq!(e.register(0), 0);
}
