//! Laws of the interpreter, stated and proved over the semantic model
//! that the executable functions' contracts use.

use vstd::prelude::*;

use crate::exec::{
    exec_spec, step_spec, fetched_op, set_reg, wrap8,
    lemma_first_pressed_prefix,
};
use crate::isa::{Instr, decode_spec};
use crate::machine::{EmuView, ExecError, wf_view, initial_view, RAM_SIZE, NUM_KEYS};

verus! {

/// Law: a reset machine is indistinguishable from a freshly constructed
/// one in every observable field. `reset` and `new` both establish
/// `initial_view`, whatever state the machine held before.
pub proof fn lemma_reset_is_fresh_construct(after_reset: EmuView, fresh: EmuView)
    requires
        after_reset == initial_view(),
        fresh == initial_view(),
    ensures
        after_reset.pc == fresh.pc,
        after_reset.ram == fresh.ram,
        after_reset.screen == fresh.screen,
        after_reset.v_reg == fresh.v_reg,
        after_reset.i_reg == fresh.i_reg,
        after_reset.stack == fresh.stack,
        after_reset.keys == fresh.keys,
        after_reset.sp == fresh.sp,
        after_reset.dt == fresh.dt,
        after_reset.st == fresh.st,
        after_reset == fresh,
{
}

/// Law: for every target register and immediate, the add-immediate
/// instruction always succeeds, wraps modulo 256, touches no other state,
/// and — whenever its target is not the flag register itself — leaves the
/// flag register unchanged.
pub proof fn lemma_add_imm_wraps(m: EmuView, x: u8, nn: u8, rnd: u8)
    requires
        wf_view(m),
        x < 16,
    ensures
        ({
            let r = exec_spec(m, Instr::AddImm(x, nn), rnd);
            &&& r is Ok
            &&& r->Ok_0 == set_reg(m, x as int, wrap8(m.v_reg[x as int] + nn))
            &&& r->Ok_0.v_reg[x as int] == wrap8(m.v_reg[x as int] + nn)
            &&& x != 15 ==> r->Ok_0.v_reg[15] == m.v_reg[15]
        }),
{
}

/// Law: a whole step whose fetched instruction is the key wait, taken
/// while no key is pressed, returns the machine exactly unchanged: the
/// rewind of the program counter cancels the fetch advance, so the wait
/// re-presents itself on the next step.
pub proof fn lemma_wait_key_no_press_step(m: EmuView, x: u8, rnd: u8)
    requires
        wf_view(m),
        m.pc + 1 < RAM_SIZE,
        decode_spec(fetched_op(m)) == Some(Instr::WaitKey(x)),
        forall|k: int| 0 <= k < NUM_KEYS ==> !m.keys[k],
    ensures
        step_spec(m, rnd) == Ok::<EmuView, ExecError>(m),
{
    lemma_first_pressed_prefix(m.keys, NUM_KEYS as int);
    let stepped = step_spec(m, rnd)->Ok_0;
    assert(stepped =~= m);
}

/// Law: as soon as a key is pressed, the key wait stores the index of the
/// first pressed key in its target register and execution proceeds.
pub proof fn lemma_wait_key_press(m: EmuView, x: u8, rnd: u8, k: int)
    requires
        wf_view(m),
        x < 16,
        0 <= k < NUM_KEYS,
        m.keys[k],
        forall|j: int| 0 <= j < k ==> !m.keys[j],
    ensures
        exec_spec(m, Instr::WaitKey(x), rnd) == Ok::<EmuView, ExecError>(
            set_reg(m, x as int, k as u8),
        ),
{
    lemma_first_pressed_prefix(m.keys, k);
}

/// Law: apart from the one randomized instruction, a step does not
/// depend on the drawn byte: the interpreter is deterministic.
pub proof fn lemma_step_ignores_rnd(m: EmuView, r1: u8, r2: u8)
    requires
        !(decode_spec(fetched_op(m)) matches Some(Instr::Random(x, nn))),
    ensures
        step_spec(m, r1) == step_spec(m, r2),
{
}

} // verus!
