use chip8_core::machine::{Emu, ExecError};

#[test]
fn jump_sets_program_counter() {
    let mut e = Emu::new();
    e.load(&[0x12, 0x34]).unwrap();
    e.tick().unwrap();
    assert_eq!(e.program_counter(), 0x234);
}

#[test]
fn jump_v0_adds_register_zero() {
    let mut e = Emu::new();
    e.load(&[0x60, 0x04, 0xB2, 0x00]).unwrap();
    e.tick().unwrap();
    e.tick().unwrap();
    assert_eq!(e.program_counter(), 0x204);
}

#[test]
fn call_pushes_and_ret_pops() {
    let mut e = Emu::new();
    let mut prog = vec![0u8; 0x12];
    prog[0] = 0x22; // call 0x210
    prog[1] = 0x10;
    prog[0x10] = 0x00; // at 0x210: ret
    prog[0x11] = 0xEE;
    e.load(&prog).unwrap();
    e.tick().unwrap();
    assert_eq!(e.program_counter(), 0x210);
    e.tick().unwrap();
    assert_eq!(e.program_counter(), 0x202);
}

#[test]
fn skip_eq_imm_taken_and_not_taken() {
    let mut e = Emu::new();
    e.load(&[0x30, 0x00]).unwrap(); // V0 == 0: skip
    e.tick().unwrap();
    assert_eq!(e.program_counter(), 0x204);

    let mut e = Emu::new();
    e.load(&[0x30, 0x05]).unwrap(); // V0 != 5: no skip
    e.tick().unwrap();
    assert_eq!(e.program_counter(), 0x202);
}

#[test]
fn skip_ne_imm() {
    let mut e = Emu::new();
    e.load(&[0x40, 0x05]).unwrap();
    e.tick().unwrap();
    assert_eq!(e.program_counter(), 0x204);

    let mut e = Emu::new();
    e.load(&[0x40, 0x00]).unwrap();
    e.tick().unwrap();
    assert_eq!(e.program_counter(), 0x202);
}

#[test]
fn skip_eq_reg_and_ne_reg() {
    let mut e = Emu::new();
    e.load(&[0x50, 0x10]).unwrap(); // V0 == V1
    e.tick().unwrap();
    assert_eq!(e.program_counter(), 0x204);

    let mut e = Emu::new();
    e.load(&[0x60, 0x01, 0x90, 0x10]).unwrap(); // V0 != V1
    e.tick().unwrap();
    e.tick().unwrap();
    assert_eq!(e.program_counter(), 0x206);
}

#[test]
fn nop_advances_only() {
    let mut e = Emu::new();
    e.load(&[0x00, 0x00]).unwrap();
    e.tick().unwrap();
    assert_eq!(e.program_counter(), 0x202);
    assert_eq!(e.register(0xF), 0);
}

#[test]
fn invalid_opcode_reports_and_leaves_machine_unchanged() {
    let mut e = Emu::new();
    e.load(&[0xE0, 0x00]).unwrap();
    assert!(matches!(e.tick(), Err(ExecError::InvalidOpcode)));
    assert_eq!(e.program_counter(), 0x200);
}

#[test]
fn fetch_past_memory_end_reports_out_of_bounds() {
    let mut e = Emu::new();
    e.load(&[0x1F, 0xFF]).unwrap(); // jump to 0xFFF
    e.tick().unwrap();
    assert_eq!(e.program_counter(), 0xFFF);
    assert!(matches!(e.tick(), Err(ExecError::MemoryOutOfBounds)));
    assert_eq!(e.program_counter(), 0xFFF);
}

#[test]
fn seventeenth_push_overflows_without_corruption() {
    let mut e = Emu::new();
    for i in 0..16 {
        assert!(e.push(0x300 + i).is_ok(), "push {}", i);
    }
    assert!(matches!(e.push(0x310), Err(ExecError::StackOverflow)));
    // The stored addresses come back last-in first-out, untouched by the
    // rejected push.
    for i in (0..16).rev() {
        assert_eq!(e.pop(), Ok(0x300 + i));
    }
    assert!(matches!(e.pop(), Err(ExecError::StackUnderflow)));
}

#[test]
fn pop_on_fresh_machine_underflows() {
    let mut e = Emu::new();
    assert!(matches!(e.pop(), Err(ExecError::StackUnderflow)));
    assert_eq!(e.program_counter(), 0x200);
}

#[test]
fn ret_on_empty_stack_reports_underflow() {
    let mut e = Emu::new();
    e.load(&[0x00, 0xEE]).unwrap();
    assert!(matches!(e.tick(), Err(ExecError::StackUnderflow)));
    assert_eq!(e.program_counter(), 0x200);
}

#[test]
fn call_on_full_stack_reports_overflow() {
    let mut e = Emu::new();
    e.load(&[0x22, 0x00]).unwrap(); // call 0x200: loops on itself
    for _ in 0..16 {
        e.tick().unwrap();
    }
    assert!(matches!(e.tick(), Err(ExecError::StackOverflow)));
    assert_eq!(e.program_counter(), 0x200);
}
