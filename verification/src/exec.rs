//! Instruction semantics: a total specification-level transition function
//! over the machine model, and the verified fetch-decode-execute step that
//! implements it. The one randomized instruction draws its byte through a
//! trusted wrapper; everything downstream of the drawn byte is verified
//! for every value it may take.

use vstd::prelude::*;

use crate::isa::{Instr, decode_spec};
use crate::machine::{
    EmuView, ExecError,
    RAM_SIZE, SCREEN_SIZE, SCREEN_WIDTH, SCREEN_HEIGHT, NUM_REGS, NUM_KEYS, STACK_SIZE,
    push_view, pop_view,
};

verus! {

/// A value reduced modulo 2^8.
pub open spec fn wrap8(v: int) -> u8 {
    (v % 0x100) as u8
}

/// A value reduced modulo 2^16.
pub open spec fn wrap16(v: int) -> u16 {
    (v % 0x10000) as u16
}

/// The machine with its program counter moved one instruction forward.
pub open spec fn advance_pc(m: EmuView) -> EmuView {
    EmuView { pc: wrap16(m.pc + 2), ..m }
}

/// The machine with register `x` set to `v`.
pub open spec fn set_reg(m: EmuView, x: int, v: u8) -> EmuView {
    EmuView { v_reg: m.v_reg.update(x, v), ..m }
}

/// The divisor that isolates bit `c` of a sprite row, leftmost bit first.
pub open spec fn bit_mask(c: int) -> int {
    if c == 0 { 128 }
    else if c == 1 { 64 }
    else if c == 2 { 32 }
    else if c == 3 { 16 }
    else if c == 4 { 8 }
    else if c == 5 { 4 }
    else if c == 6 { 2 }
    else { 1 }
}

/// Whether column `c` (0 = leftmost) of sprite row `b` is set.
pub open spec fn sprite_bit(b: u8, c: int) -> bool {
    (b as int / bit_mask(c)) % 2 == 1
}

/// XOR the set bits of sprite row `b` into the framebuffer at absolute row
/// `y`, columns `x0 + c` onward taken modulo the screen width; the second
/// component reports whether a previously-set pixel was encountered.
pub open spec fn draw_row_from(screen: Seq<bool>, b: u8, x0: int, y: int, c: int) -> (Seq<bool>, bool)
    decreases 8 - c,
{
    if c < 0 || c >= 8 {
        (screen, false)
    } else if sprite_bit(b, c) {
        let px = y * (SCREEN_WIDTH as int) + (x0 + c) % (SCREEN_WIDTH as int);
        let hit = screen[px];
        let rest = draw_row_from(screen.update(px, !screen[px]), b, x0, y, c + 1);
        (rest.0, hit || rest.1)
    } else {
        draw_row_from(screen, b, x0, y, c + 1)
    }
}

/// XOR sprite rows `l..n`, read from memory at `i + l` onward, into the
/// framebuffer at base position (`x0`, `y0`), rows taken modulo the screen
/// height; the second component reports any collision.
pub open spec fn draw_rows_from(
    screen: Seq<bool>, ram: Seq<u8>, i: int, x0: int, y0: int, l: int, n: int,
) -> (Seq<bool>, bool)
    decreases n - l,
{
    if l < 0 || l >= n {
        (screen, false)
    } else {
        let row = draw_row_from(screen, ram[i + l], x0, (y0 + l) % (SCREEN_HEIGHT as int), 0);
        let rest = draw_rows_from(row.0, ram, i, x0, y0, l + 1, n);
        (rest.0, row.1 || rest.1)
    }
}

/// The framebuffer and collision flag a draw instruction produces.
pub open spec fn draw_result(m: EmuView, x: u8, y: u8, n: u8) -> (Seq<bool>, bool) {
    draw_rows_from(
        m.screen, m.ram, m.i_reg as int,
        m.v_reg[x as int] as int, m.v_reg[y as int] as int,
        0, n as int,
    )
}

/// The index of the first pressed key at or above `k`, if any.
pub open spec fn first_pressed_from(keys: Seq<bool>, k: int) -> Option<int>
    decreases 16 - k,
{
    if k < 0 || k >= NUM_KEYS {
        None
    } else if keys[k] {
        Some(k)
    } else {
        first_pressed_from(keys, k + 1)
    }
}

/// Scanning for the first pressed key may start past any all-unpressed
/// prefix without changing the outcome.
pub proof fn lemma_first_pressed_prefix(keys: Seq<bool>, k: int)
    requires
        0 <= k <= NUM_KEYS,
        forall|j: int| 0 <= j < k ==> !keys[j],
    ensures
        first_pressed_from(keys, 0) == first_pressed_from(keys, k),
    decreases k,
{
    if k > 0 {
        lemma_first_pressed_prefix(keys, k - 1);
        assert(first_pressed_from(keys, k - 1) == first_pressed_from(keys, k));
    }
}

/// The decimal digits of a byte: hundreds, tens, ones.
pub open spec fn bcd_hundreds(v: u8) -> u8 {
    (v / 100) as u8
}

/// See `bcd_hundreds`.
pub open spec fn bcd_tens(v: u8) -> u8 {
    ((v / 10) % 10) as u8
}

/// See `bcd_hundreds`.
pub open spec fn bcd_ones(v: u8) -> u8 {
    (v % 10) as u8
}

/// The memory image after registers 0..=x are stored at index `i`.
pub open spec fn stored_regs(ram: Seq<u8>, v_reg: Seq<u8>, i: int, x: int) -> Seq<u8> {
    Seq::new(RAM_SIZE as nat, |j: int| if i <= j <= i + x { v_reg[j - i] } else { ram[j] })
}

/// The register file after registers 0..=x are loaded from index `i`.
pub open spec fn loaded_regs(ram: Seq<u8>, v_reg: Seq<u8>, i: int, x: int) -> Seq<u8> {
    Seq::new(NUM_REGS as nat, |j: int| if j <= x { ram[i + j] } else { v_reg[j] })
}

/// The single atomic state transition of one decoded instruction, applied
/// to a machine whose program counter has already moved past the
/// instruction word. `rnd` is the byte the randomized instruction uses;
/// every other instruction ignores it. An error reports the condition and
/// stands for a step that leaves the machine as it was before the fetch.
pub open spec fn exec_spec(m: EmuView, instr: Instr, rnd: u8) -> Result<EmuView, ExecError> {
    match instr {
        Instr::Nop => Ok(m),
        Instr::ClearScreen => Ok(
            EmuView { screen: Seq::new(SCREEN_SIZE as nat, |i: int| false), ..m },
        ),
        Instr::Ret => if m.sp == 0 {
            Err(ExecError::StackUnderflow)
        } else {
            Ok(EmuView { pc: m.stack[m.sp - 1], ..pop_view(m) })
        },
        Instr::Jump(a) => Ok(EmuView { pc: a, ..m }),
        Instr::Call(a) => if m.sp >= STACK_SIZE {
            Err(ExecError::StackOverflow)
        } else {
            Ok(EmuView { pc: a, ..push_view(m, m.pc) })
        },
        Instr::SkipEqImm(x, nn) => Ok(
            if m.v_reg[x as int] == nn { advance_pc(m) } else { m },
        ),
        Instr::SkipNeImm(x, nn) => Ok(
            if m.v_reg[x as int] != nn { advance_pc(m) } else { m },
        ),
        Instr::SkipEqReg(x, y) => Ok(
            if m.v_reg[x as int] == m.v_reg[y as int] { advance_pc(m) } else { m },
        ),
        Instr::SetImm(x, nn) => Ok(set_reg(m, x as int, nn)),
        Instr::AddImm(x, nn) => Ok(set_reg(m, x as int, wrap8(m.v_reg[x as int] + nn))),
        Instr::Mov(x, y) => Ok(set_reg(m, x as int, m.v_reg[y as int])),
        Instr::Or(x, y) => Ok(set_reg(m, x as int, m.v_reg[x as int] | m.v_reg[y as int])),
        Instr::And(x, y) => Ok(set_reg(m, x as int, m.v_reg[x as int] & m.v_reg[y as int])),
        Instr::Xor(x, y) => Ok(set_reg(m, x as int, m.v_reg[x as int] ^ m.v_reg[y as int])),
        Instr::AddReg(x, y) => {
            let sum = m.v_reg[x as int] + m.v_reg[y as int];
            let flag: u8 = if sum > 0xFF { 1 } else { 0 };
            Ok(EmuView { v_reg: m.v_reg.update(15, flag).update(x as int, wrap8(sum)), ..m })
        },
        Instr::SubReg(x, y) => {
            let diff = m.v_reg[x as int] - m.v_reg[y as int];
            let flag: u8 = if diff < 0 { 0 } else { 1 };
            Ok(EmuView { v_reg: m.v_reg.update(15, flag).update(x as int, wrap8(diff)), ..m })
        },
        Instr::Shr(x) => {
            let v1 = m.v_reg.update(15, (m.v_reg[x as int] % 2) as u8);
            Ok(EmuView { v_reg: v1.update(x as int, (v1[x as int] / 2) as u8), ..m })
        },
        Instr::SubFrom(x, y) => {
            let diff = m.v_reg[y as int] - m.v_reg[x as int];
            let flag: u8 = if diff < 0 { 0 } else { 1 };
            Ok(EmuView { v_reg: m.v_reg.update(15, flag).update(x as int, wrap8(diff)), ..m })
        },
        Instr::Shl(x) => {
            let flag: u8 = if m.v_reg[x as int] >= 0x80 { 0x80 } else { 0 };
            let v1 = m.v_reg.update(15, flag);
            Ok(EmuView { v_reg: v1.update(x as int, wrap8(2 * v1[x as int])), ..m })
        },
        Instr::SkipNeReg(x, y) => Ok(
            if m.v_reg[x as int] != m.v_reg[y as int] { advance_pc(m) } else { m },
        ),
        Instr::SetIndex(a) => Ok(EmuView { i_reg: a, ..m }),
        Instr::JumpV0(a) => Ok(EmuView { pc: wrap16(m.v_reg[0] + a), ..m }),
        Instr::Random(x, nn) => Ok(set_reg(m, x as int, rnd & nn)),
        Instr::Draw(x, y, n) => if n > 0 && m.i_reg + n > RAM_SIZE {
            Err(ExecError::MemoryOutOfBounds)
        } else {
            let drawn = draw_result(m, x, y, n);
            Ok(EmuView {
                screen: drawn.0,
                v_reg: m.v_reg.update(15, if drawn.1 { 1u8 } else { 0u8 }),
                ..m
            })
        },
        Instr::SkipKey(x) => if m.v_reg[x as int] >= NUM_KEYS {
            Err(ExecError::MemoryOutOfBounds)
        } else {
            Ok(if m.keys[m.v_reg[x as int] as int] { advance_pc(m) } else { m })
        },
        Instr::SkipNoKey(x) => if m.v_reg[x as int] >= NUM_KEYS {
            Err(ExecError::MemoryOutOfBounds)
        } else {
            Ok(if !m.keys[m.v_reg[x as int] as int] { advance_pc(m) } else { m })
        },
        Instr::GetDelay(x) => Ok(set_reg(m, x as int, m.dt)),
        Instr::WaitKey(x) => match first_pressed_from(m.keys, 0) {
            Some(k) => Ok(set_reg(m, x as int, k as u8)),
            None => Ok(EmuView { pc: wrap16(m.pc - 2), ..m }),
        },
        Instr::SetDelay(x) => Ok(EmuView { dt: m.v_reg[x as int], ..m }),
        Instr::SetSound(x) => Ok(EmuView { st: m.v_reg[x as int], ..m }),
        Instr::AddIndex(x) => Ok(EmuView { i_reg: wrap16(m.i_reg + m.v_reg[x as int]), ..m }),
        Instr::SetFontIndex(x) => Ok(EmuView { i_reg: (5 * (m.v_reg[x as int] % 16)) as u16, ..m }),
        Instr::StoreBcd(x) => if m.i_reg + 3 > RAM_SIZE {
            Err(ExecError::MemoryOutOfBounds)
        } else {
            let v = m.v_reg[x as int];
            let i = m.i_reg as int;
            Ok(EmuView {
                ram: m.ram
                    .update(i, bcd_hundreds(v))
                    .update(i + 1, bcd_tens(v))
                    .update(i + 2, bcd_ones(v)),
                ..m
            })
        },
        Instr::StoreRegs(x) => if m.i_reg + x + 1 > RAM_SIZE {
            Err(ExecError::MemoryOutOfBounds)
        } else {
            Ok(EmuView { ram: stored_regs(m.ram, m.v_reg, m.i_reg as int, x as int), ..m })
        },
        Instr::LoadRegs(x) => if m.i_reg + x + 1 > RAM_SIZE {
            Err(ExecError::MemoryOutOfBounds)
        } else {
            Ok(EmuView { v_reg: loaded_regs(m.ram, m.v_reg, m.i_reg as int, x as int), ..m })
        },
    }
}

/// The instruction word two consecutive memory bytes at the program
/// counter spell, combined big-endian.
pub open spec fn fetched_op(m: EmuView) -> u16 {
    (m.ram[m.pc as int] * 0x100 + m.ram[m.pc as int + 1]) as u16
}

/// One whole step: fetch the word at the program counter, advance past it,
/// decode and execute. An error reports the condition; the machine is then
/// unchanged (see `step_outcome`).
pub open spec fn step_spec(m: EmuView, rnd: u8) -> Result<EmuView, ExecError> {
    if m.pc + 1 >= RAM_SIZE {
        Err(ExecError::MemoryOutOfBounds)
    } else {
        match decode_spec(fetched_op(m)) {
            None => Err(ExecError::InvalidOpcode),
            Some(instr) => exec_spec(advance_pc(m), instr, rnd),
        }
    }
}

/// How a call of `tick` relates the states before and after it and its
/// returned value, given the byte `rnd` the randomized instruction used:
/// on success the machine moves to the specified successor state, on an
/// error it reports the condition and stands unchanged.
pub open spec fn step_outcome(
    pre: EmuView, post: EmuView, r: Result<(), ExecError>, rnd: u8,
) -> bool {
    match step_spec(pre, rnd) {
        Ok(m2) => r == Ok::<(), ExecError>(()) && post == m2,
        Err(e) => r == Err::<(), ExecError>(e) && post == pre,
    }
}

} // verus!
