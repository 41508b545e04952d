//! The machine state: memory, registers, stack, framebuffer, keypad and
//! timers, together with its mathematical model and the lifecycle
//! operations (construction, reset, program loading, stack discipline,
//! keypad input, timer stepping and the read-only views a host uses).

use vstd::prelude::*;

use crate::exec::{
    exec_spec, step_outcome, advance_pc, set_reg, wrap8, wrap16,
    bit_mask, sprite_bit, draw_row_from, draw_rows_from, draw_result,
    first_pressed_from, lemma_first_pressed_prefix,
    stored_regs, loaded_regs,
};
use crate::isa::{Instr, decode, lemma_decode_wf};

verus! {

/// Width of the framebuffer in pixels.
pub const SCREEN_WIDTH: usize = 64;

/// Height of the framebuffer in pixels.
pub const SCREEN_HEIGHT: usize = 32;

/// Number of pixels in the row-major framebuffer.
pub const SCREEN_SIZE: usize = 64 * 32;

/// Bytes of addressable memory.
pub const RAM_SIZE: usize = 4096;

/// Number of general-purpose registers.
pub const NUM_REGS: usize = 16;

/// Number of keypad keys.
pub const NUM_KEYS: usize = 16;

/// Capacity of the call stack.
pub const STACK_SIZE: usize = 16;

/// Bytes occupied by the built-in glyph sprites at the bottom of memory.
pub const FONTSET_SIZE: usize = 80;

/// Address at which a program image is placed and execution begins.
pub const START_ADDR: u16 = 0x200;

/// The 16 built-in glyph sprites, 5 bytes per hexadecimal digit,
/// pre-loaded at memory offsets 0..80.
pub open spec fn fontset() -> Seq<u8> {
    seq![
        0xF0u8, 0x90, 0x90, 0x90, 0xF0, // 0
        0x20, 0x60, 0x20, 0x20, 0x70, // 1
        0xF0, 0x10, 0xF0, 0x80, 0xF0, // 2
        0xF0, 0x10, 0xF0, 0x10, 0xF0, // 3
        0x90, 0x90, 0xF0, 0x10, 0x10, // 4
        0xF0, 0x80, 0xF0, 0x10, 0xF0, // 5
        0xF0, 0x80, 0xF0, 0x90, 0xF0, // 6
        0xF0, 0x10, 0x20, 0x40, 0x40, // 7
        0xF0, 0x90, 0xF0, 0x90, 0xF0, // 8
        0xF0, 0x90, 0xF0, 0x10, 0xF0, // 9
        0xF0, 0x90, 0xF0, 0x90, 0x90, // A
        0xE0, 0x90, 0xE0, 0x90, 0xE0, // B
        0xF0, 0x80, 0x80, 0x80, 0xF0, // C
        0xE0, 0x90, 0x90, 0x90, 0xE0, // D
        0xF0, 0x80, 0xF0, 0x80, 0xF0, // E
        0xF0, 0x80, 0xF0, 0x80, 0x80, // F
    ]
}

/// An error surfaced by `tick`, `push` or `pop`; the host decides policy.
#[derive(Clone, Copy, Debug, PartialEq, Eq, Structural)]
pub enum ExecError {
    /// The instruction word matches no known pattern.
    InvalidOpcode,
    /// A push beyond the 16 stack entries.
    StackOverflow,
    /// A pop from an empty stack.
    StackUnderflow,
    /// A fetch, sprite draw, decimal store, bulk register transfer or
    /// keypad lookup addressing past the end of the addressed range.
    MemoryOutOfBounds,
}

/// An error surfaced by `load`.
#[derive(Clone, Copy, Debug, PartialEq, Eq, Structural)]
pub enum LoadError {
    /// The program image exceeds the memory window above `START_ADDR`.
    TooLarge,
}

/// The mathematical model of the machine state.
#[verifier::ext_equal]
pub struct EmuView {
    pub pc: u16,
    pub ram: Seq<u8>,
    pub screen: Seq<bool>,
    pub v_reg: Seq<u8>,
    pub i_reg: u16,
    pub stack: Seq<u16>,
    pub keys: Seq<bool>,
    pub sp: u16,
    pub dt: u8,
    pub st: u8,
}

/// Well-formedness of a machine model: every fixed-size container has its
/// size and the stack pointer stays within the stack.
pub open spec fn wf_view(m: EmuView) -> bool {
    &&& m.ram.len() == RAM_SIZE
    &&& m.screen.len() == SCREEN_SIZE
    &&& m.v_reg.len() == NUM_REGS
    &&& m.stack.len() == STACK_SIZE
    &&& m.keys.len() == NUM_KEYS
    &&& m.sp <= STACK_SIZE
}

/// Memory contents right after construction: the glyph sprites in the
/// first 80 bytes and zeroes everywhere else.
pub open spec fn initial_ram() -> Seq<u8> {
    Seq::new(RAM_SIZE as nat, |j: int| if j < FONTSET_SIZE { fontset()[j] } else { 0u8 })
}

/// The machine state produced by construction and by reset: fonts
/// pre-loaded, the program counter at `START_ADDR`, all else zeroed.
pub open spec fn initial_view() -> EmuView {
    EmuView {
        pc: START_ADDR,
        ram: initial_ram(),
        screen: Seq::new(SCREEN_SIZE as nat, |i: int| false),
        v_reg: Seq::new(NUM_REGS as nat, |i: int| 0u8),
        i_reg: 0,
        stack: Seq::new(STACK_SIZE as nat, |i: int| 0u16),
        keys: Seq::new(NUM_KEYS as nat, |i: int| false),
        sp: 0,
        dt: 0,
        st: 0,
    }
}

/// The state after a successful push: the value written at the stack
/// pointer, which then moves up by one.
pub open spec fn push_view(m: EmuView, val: u16) -> EmuView {
    EmuView { stack: m.stack.update(m.sp as int, val), sp: (m.sp + 1) as u16, ..m }
}

/// The state after a successful pop: the stack pointer moves down by one;
/// the slot contents are left in place.
pub open spec fn pop_view(m: EmuView) -> EmuView {
    EmuView { sp: (m.sp - 1) as u16, ..m }
}

/// A timer value after one timer step: decremented, floored at zero.
pub open spec fn dec_timer(t: u8) -> u8 {
    if t > 0 { (t - 1) as u8 } else { 0 }
}

/// Memory after a program image `data` is copied in at `START_ADDR`.
pub open spec fn loaded_ram(ram: Seq<u8>, data: Seq<u8>) -> Seq<u8> {
    Seq::new(RAM_SIZE as nat, |j: int|
        if START_ADDR <= j < START_ADDR + data.len() { data[j - START_ADDR] } else { ram[j] })
}

/// The emulated machine: a single owned aggregate holding all state.
pub struct Emu {
    pc: u16,
    ram: Vec<u8>,
    screen: Vec<bool>,
    v_reg: Vec<u8>,
    i_reg: u16,
    stack: Vec<u16>,
    keys: Vec<bool>,
    sp: u16,
    dt: u8,
    st: u8,
}

impl View for Emu {
    type V = EmuView;

    closed spec fn view(&self) -> EmuView {
        EmuView {
            pc: self.pc,
            ram: self.ram@,
            screen: self.screen@,
            v_reg: self.v_reg@,
            i_reg: self.i_reg,
            stack: self.stack@,
            keys: self.keys@,
            sp: self.sp,
            dt: self.dt,
            st: self.st,
        }
    }
}

/// A vector of `n` copies of `val`.
fn filled<T: Copy>(n: usize, val: T) -> (r: Vec<T>)
    ensures
        r@ == Seq::new(n as nat, |i: int| val),
{
    let mut r: Vec<T> = Vec::new();
    while r.len() < n
        invariant
            r@.len() <= n,
            forall|j: int| 0 <= j < r@.len() ==> r@[j] == val,
        decreases n - r@.len(),
    {
        r.push(val);
    }
    proof {
        assert(r@ =~= Seq::new(n as nat, |i: int| val));
    }
    r
}

/// Memory as construction leaves it: glyph sprites, then zeroes.
#[verifier::rlimit(60)]
fn make_ram() -> (r: Vec<u8>)
    ensures
        r@ == initial_ram(),
{
    let mut r: Vec<u8> = filled(RAM_SIZE, 0u8);
    r.set(0, 0xF0); r.set(1, 0x90); r.set(2, 0x90); r.set(3, 0x90); r.set(4, 0xF0);
    r.set(5, 0x20); r.set(6, 0x60); r.set(7, 0x20); r.set(8, 0x20); r.set(9, 0x70);
    r.set(10, 0xF0); r.set(11, 0x10); r.set(12, 0xF0); r.set(13, 0x80); r.set(14, 0xF0);
    r.set(15, 0xF0); r.set(16, 0x10); r.set(17, 0xF0); r.set(18, 0x10); r.set(19, 0xF0);
    r.set(20, 0x90); r.set(21, 0x90); r.set(22, 0xF0); r.set(23, 0x10); r.set(24, 0x10);
    r.set(25, 0xF0); r.set(26, 0x80); r.set(27, 0xF0); r.set(28, 0x10); r.set(29, 0xF0);
    r.set(30, 0xF0); r.set(31, 0x80); r.set(32, 0xF0); r.set(33, 0x90); r.set(34, 0xF0);
    r.set(35, 0xF0); r.set(36, 0x10); r.set(37, 0x20); r.set(38, 0x40); r.set(39, 0x40);
    r.set(40, 0xF0); r.set(41, 0x90); r.set(42, 0xF0); r.set(43, 0x90); r.set(44, 0xF0);
    r.set(45, 0xF0); r.set(46, 0x90); r.set(47, 0xF0); r.set(48, 0x10); r.set(49, 0xF0);
    r.set(50, 0xF0); r.set(51, 0x90); r.set(52, 0xF0); r.set(53, 0x90); r.set(54, 0x90);
    r.set(55, 0xE0); r.set(56, 0x90); r.set(57, 0xE0); r.set(58, 0x90); r.set(59, 0xE0);
    r.set(60, 0xF0); r.set(61, 0x80); r.set(62, 0x80); r.set(63, 0x80); r.set(64, 0xF0);
    r.set(65, 0xE0); r.set(66, 0x90); r.set(67, 0x90); r.set(68, 0x90); r.set(69, 0xE0);
    r.set(70, 0xF0); r.set(71, 0x80); r.set(72, 0xF0); r.set(73, 0x80); r.set(74, 0xF0);
    r.set(75, 0xF0); r.set(76, 0x80); r.set(77, 0xF0); r.set(78, 0x80); r.set(79, 0x80);
    proof {
        assert(r@ =~= initial_ram());
    }
    r
}

impl Emu {
    /// Whether the machine satisfies its structural invariant.
    pub open spec fn wf(&self) -> bool {
        wf_view(self@)
    }

    /// Construct a machine: zeroed state, program counter at `START_ADDR`,
    /// glyph sprites pre-loaded at memory offsets 0..80.
    pub fn new() -> (r: Emu)
        ensures
            r.wf(),
            r@ == initial_view(),
    {
        let e = Emu {
            pc: START_ADDR,
            ram: make_ram(),
            screen: filled(SCREEN_SIZE, false),
            v_reg: filled(NUM_REGS, 0u8),
            i_reg: 0,
            stack: filled(STACK_SIZE, 0u16),
            keys: filled(NUM_KEYS, false),
            sp: 0,
            dt: 0,
            st: 0,
        };
        proof {
            assert(e@ =~= initial_view());
        }
        e
    }

    /// Reinitialize in place; the result is a fresh construction in every
    /// observable field, discarding any loaded program.
    pub fn reset(&mut self)
        ensures
            final(self).wf(),
            final(self)@ == initial_view(),
    {
        self.pc = START_ADDR;
        self.ram = make_ram();
        self.screen = filled(SCREEN_SIZE, false);
        self.v_reg = filled(NUM_REGS, 0u8);
        self.i_reg = 0;
        self.stack = filled(STACK_SIZE, 0u16);
        self.keys = filled(NUM_KEYS, false);
        self.sp = 0;
        self.dt = 0;
        self.st = 0;
        proof {
            assert(self@ =~= initial_view());
        }
    }

    /// Push a return address. Fails with `StackOverflow`, leaving the
    /// machine unchanged, exactly when the stack is full.
    pub fn push(&mut self, val: u16) -> (r: Result<(), ExecError>)
        requires
            old(self).wf(),
        ensures
            final(self).wf(),
            old(self)@.sp < STACK_SIZE ==> r == Ok::<(), ExecError>(())
                && final(self)@ == push_view(old(self)@, val),
            old(self)@.sp == STACK_SIZE ==> r == Err::<(), ExecError>(ExecError::StackOverflow)
                && final(self)@ == old(self)@,
    {
        if self.sp as usize >= STACK_SIZE {
            return Err(ExecError::StackOverflow);
        }
        self.stack.set(self.sp as usize, val);
        self.sp = self.sp + 1;
        proof {
            assert(self@ =~= push_view(old(self)@, val));
        }
        Ok(())
    }

    /// Pop a return address. Fails with `StackUnderflow`, leaving the
    /// machine unchanged, exactly when the stack is empty.
    pub fn pop(&mut self) -> (r: Result<u16, ExecError>)
        requires
            old(self).wf(),
        ensures
            final(self).wf(),
            old(self)@.sp > 0 ==> r == Ok::<u16, ExecError>(old(self)@.stack[old(self)@.sp - 1])
                && final(self)@ == pop_view(old(self)@),
            old(self)@.sp == 0 ==> r == Err::<u16, ExecError>(ExecError::StackUnderflow)
                && final(self)@ == old(self)@,
    {
        if self.sp == 0 {
            return Err(ExecError::StackUnderflow);
        }
        self.sp = self.sp - 1;
        let val = self.stack[self.sp as usize];
        proof {
            assert(self@ =~= pop_view(old(self)@));
        }
        Ok(val)
    }

    /// Copy a program image into memory starting at `START_ADDR`. Fails
    /// with `TooLarge`, leaving the machine unchanged, exactly when the
    /// image exceeds the available window.
    pub fn load(&mut self, data: &[u8]) -> (r: Result<(), LoadError>)
        requires
            old(self).wf(),
        ensures
            final(self).wf(),
            data@.len() <= RAM_SIZE - START_ADDR ==> r == Ok::<(), LoadError>(())
                && final(self)@ == (EmuView { ram: loaded_ram(old(self)@.ram, data@), ..old(self)@ }),
            data@.len() > RAM_SIZE - START_ADDR ==> r == Err::<(), LoadError>(LoadError::TooLarge)
                && final(self)@ == old(self)@,
    {
        if data.len() > RAM_SIZE - START_ADDR as usize {
            return Err(LoadError::TooLarge);
        }
        let mut k: usize = 0;
        while k < data.len()
            invariant
                old(self).wf(),
                data@.len() <= RAM_SIZE - START_ADDR,
                k <= data@.len(),
                self.ram@.len() == RAM_SIZE,
                forall|j: int| 0 <= j < RAM_SIZE && !(START_ADDR <= j < START_ADDR + k)
                    ==> self.ram@[j] == old(self)@.ram[j],
                forall|j: int| START_ADDR <= j < START_ADDR + k ==> self.ram@[j] == data@[j - START_ADDR],
                self.pc == old(self).pc,
                self.screen == old(self).screen,
                self.v_reg == old(self).v_reg,
                self.i_reg == old(self).i_reg,
                self.stack == old(self).stack,
                self.keys == old(self).keys,
                self.sp == old(self).sp,
                self.dt == old(self).dt,
                self.st == old(self).st,
            decreases data@.len() - k,
        {
            self.ram.set(START_ADDR as usize + k, data[k]);
            k = k + 1;
        }
        proof {
            assert(self@.ram =~= loaded_ram(old(self)@.ram, data@));
            assert(self@ =~= (EmuView { ram: loaded_ram(old(self)@.ram, data@), ..old(self)@ }));
        }
        Ok(())
    }

    /// Record a key as pressed or released; `key` names one of the 16 keys.
    pub fn set_key(&mut self, key: usize, pressed: bool)
        requires
            old(self).wf(),
            key < NUM_KEYS,
        ensures
            final(self).wf(),
            final(self)@ == (EmuView { keys: old(self)@.keys.update(key as int, pressed), ..old(self)@ }),
    {
        self.keys.set(key, pressed);
        proof {
            assert(self@ =~= (EmuView { keys: old(self)@.keys.update(key as int, pressed), ..old(self)@ }));
        }
    }

    /// Step both countdown timers: each decrements, floored at zero;
    /// nothing else changes.
    pub fn tick_timers(&mut self)
        requires
            old(self).wf(),
        ensures
            final(self).wf(),
            final(self)@ == (EmuView { dt: dec_timer(old(self)@.dt), st: dec_timer(old(self)@.st), ..old(self)@ }),
    {
        if self.dt > 0 {
            self.dt = self.dt - 1;
        }
        if self.st > 0 {
            self.st = self.st - 1;
        }
        proof {
            assert(self@ =~= (EmuView { dt: dec_timer(old(self)@.dt), st: dec_timer(old(self)@.st), ..old(self)@ }));
        }
    }

    /// The 64x32 framebuffer, row-major, for a rendering collaborator.
    pub fn framebuffer(&self) -> (r: &Vec<bool>)
        ensures
            r@ == self@.screen,
    {
        &self.screen
    }

    /// Whether the sound timer is active, for an audio collaborator.
    pub fn sound_active(&self) -> (r: bool)
        ensures
            r == (self@.st > 0),
    {
        self.st > 0
    }

    /// The value of general-purpose register `x`.
    pub fn register(&self, x: usize) -> (r: u8)
        requires
            self.wf(),
            x < NUM_REGS,
        ensures
            r == self@.v_reg[x as int],
    {
        self.v_reg[x]
    }

    /// The current program counter.
    pub fn program_counter(&self) -> (r: u16)
        ensures
            r == self@.pc,
    {
        self.pc
    }

    /// The current index register.
    pub fn index_register(&self) -> (r: u16)
        ensures
            r == self@.i_reg,
    {
        self.i_reg
    }

    /// The memory byte at `addr`.
    pub fn memory_byte(&self, addr: usize) -> (r: u8)
        requires
            self.wf(),
            addr < RAM_SIZE,
        ensures
            r == self@.ram[addr as int],
    {
        self.ram[addr]
    }
}

/// Relies on `rand::random`: a byte drawn from the thread-local
/// generator. Nothing is promised of the value; the instruction that
/// uses it is verified for every byte that may come back.
#[verifier::external_body]
fn random_byte() -> u8 {
    rand::random()
}

/// The divisor that isolates bit `c` of a sprite row, leftmost first.
fn mask_of(c: usize) -> (m: u8)
    requires
        c < 8,
    ensures
        m as int == bit_mask(c as int),
        m >= 1,
{
    if c == 0 { 128 }
    else if c == 1 { 64 }
    else if c == 2 { 32 }
    else if c == 3 { 16 }
    else if c == 4 { 8 }
    else if c == 5 { 4 }
    else if c == 6 { 2 }
    else { 1 }
}

impl Emu {
    /// Read the instruction word at the program counter and advance past
    /// it. Fails with `MemoryOutOfBounds`, leaving the machine unchanged,
    /// exactly when the two bytes do not both lie inside memory.
    fn fetch(&mut self) -> (r: Result<u16, ExecError>)
        requires
            old(self).wf(),
        ensures
            final(self).wf(),
            old(self)@.pc + 1 < RAM_SIZE ==> r == Ok::<u16, ExecError>(crate::exec::fetched_op(old(self)@))
                && final(self)@ == advance_pc(old(self)@),
            old(self)@.pc + 1 >= RAM_SIZE ==> r == Err::<u16, ExecError>(ExecError::MemoryOutOfBounds)
                && final(self)@ == old(self)@,
    {
        if self.pc as usize + 1 >= RAM_SIZE {
            return Err(ExecError::MemoryOutOfBounds);
        }
        let hi = self.ram[self.pc as usize] as u16;
        let lo = self.ram[self.pc as usize + 1] as u16;
        let op = hi * 0x100 + lo;
        self.pc = self.pc + 2;
        proof {
            assert(self@ =~= advance_pc(old(self)@));
        }
        Ok(op)
    }

    /// The first pressed key, scanning upward from key 0.
    fn find_first_key(&self) -> (r: Option<u8>)
        requires
            self.wf(),
        ensures
            match first_pressed_from(self@.keys, 0) {
                Some(k) => r == Some(k as u8),
                None => r is None,
            },
    {
        let mut k: usize = 0;
        while k < NUM_KEYS
            invariant
                self.wf(),
                k <= NUM_KEYS,
                forall|j: int| 0 <= j < k ==> !self@.keys[j],
            decreases NUM_KEYS - k,
        {
            if self.keys[k] {
                proof {
                    lemma_first_pressed_prefix(self@.keys, k as int);
                }
                return Some(k as u8);
            }
            k = k + 1;
        }
        proof {
            lemma_first_pressed_prefix(self@.keys, NUM_KEYS as int);
        }
        None
    }

    /// XOR the set bits of one sprite row into the framebuffer at
    /// absolute row `yy`, columns wrapping at the screen width; reports
    /// whether any previously-set pixel was encountered.
    fn draw_one_row(&mut self, b: u8, x0: usize, yy: usize) -> (hit: bool)
        requires
            old(self).wf(),
            x0 < 256,
            yy < SCREEN_HEIGHT,
        ensures
            final(self).wf(),
            final(self)@ == (EmuView {
                screen: draw_row_from(old(self)@.screen, b, x0 as int, yy as int, 0).0,
                ..old(self)@
            }),
            hit == draw_row_from(old(self)@.screen, b, x0 as int, yy as int, 0).1,
    {
        let ghost target = draw_row_from(old(self)@.screen, b, x0 as int, yy as int, 0);
        let mut hit = false;
        let mut c: usize = 0;
        while c < 8
            invariant
                self.wf(),
                x0 < 256,
                yy < SCREEN_HEIGHT,
                c <= 8,
                self.pc == old(self).pc,
                self.ram == old(self).ram,
                self.v_reg == old(self).v_reg,
                self.i_reg == old(self).i_reg,
                self.stack == old(self).stack,
                self.keys == old(self).keys,
                self.sp == old(self).sp,
                self.dt == old(self).dt,
                self.st == old(self).st,
                self.screen@.len() == SCREEN_SIZE,
                target == draw_row_from(old(self)@.screen, b, x0 as int, yy as int, 0),
                target.0 == draw_row_from(self.screen@, b, x0 as int, yy as int, c as int).0,
                target.1 == (hit || draw_row_from(self.screen@, b, x0 as int, yy as int, c as int).1),
            decreases 8 - c,
        {
            let ghost s_pre = self.screen@;
            let mask = mask_of(c);
            if (b / mask) % 2 == 1 {
                proof {
                    assert(sprite_bit(b, c as int));
                }
                let px = yy * SCREEN_WIDTH + (x0 + c) % SCREEN_WIDTH;
                let prev = self.screen[px];
                self.screen.set(px, !prev);
                hit = hit || prev;
                proof {
                    assert(draw_row_from(s_pre, b, x0 as int, yy as int, c as int).0
                        == draw_row_from(self.screen@, b, x0 as int, yy as int, c as int + 1).0);
                    assert(draw_row_from(s_pre, b, x0 as int, yy as int, c as int).1
                        == (prev || draw_row_from(self.screen@, b, x0 as int, yy as int, c as int + 1).1));
                }
            } else {
                proof {
                    assert(!sprite_bit(b, c as int));
                    assert(draw_row_from(s_pre, b, x0 as int, yy as int, c as int)
                        == draw_row_from(s_pre, b, x0 as int, yy as int, c as int + 1));
                }
            }
            c = c + 1;
        }
        proof {
            assert(draw_row_from(self.screen@, b, x0 as int, yy as int, 8).0 == self.screen@);
            assert(self@ =~= (EmuView { screen: target.0, ..old(self)@ }));
        }
        hit
    }

    /// Draw an `n`-row sprite read from memory at the index register at
    /// base position (register `x`, register `y`), setting the flag
    /// register to 1 exactly when a set pixel was cleared.
    fn op_draw(&mut self, x: u8, y: u8, n: u8) -> (r: Result<(), ExecError>)
        requires
            old(self).wf(),
            x < 16,
            y < 16,
            n < 16,
        ensures
            final(self).wf(),
            ({
                let m = old(self)@;
                if n > 0 && m.i_reg + n > RAM_SIZE {
                    r == Err::<(), ExecError>(ExecError::MemoryOutOfBounds) && final(self)@ == m
                } else {
                    let drawn = draw_result(m, x, y, n);
                    r == Ok::<(), ExecError>(())
                        && final(self)@ == (EmuView {
                            screen: drawn.0,
                            v_reg: m.v_reg.update(15, if drawn.1 { 1u8 } else { 0u8 }),
                            ..m
                        })
                }
            }),
    {
        let i = self.i_reg as usize;
        if n > 0 && i + n as usize > RAM_SIZE {
            return Err(ExecError::MemoryOutOfBounds);
        }
        let x0 = self.v_reg[x as usize] as usize;
        let y0 = self.v_reg[y as usize] as usize;
        let ghost target = draw_rows_from(
            old(self)@.screen, old(self)@.ram, i as int, x0 as int, y0 as int, 0, n as int,
        );
        let mut hit = false;
        let mut l: usize = 0;
        while l < n as usize
            invariant
                self.wf(),
                l <= n,
                n < 16,
                x0 < 256,
                y0 < 256,
                i == old(self)@.i_reg,
                n > 0 ==> i + n <= RAM_SIZE,
                x < 16,
                y < 16,
                x0 == old(self)@.v_reg[x as int],
                y0 == old(self)@.v_reg[y as int],
                self.pc == old(self)@.pc,
                self.ram@ == old(self)@.ram,
                self.v_reg@ == old(self)@.v_reg,
                self.i_reg == old(self)@.i_reg,
                self.stack@ == old(self)@.stack,
                self.keys@ == old(self)@.keys,
                self.sp == old(self)@.sp,
                self.dt == old(self)@.dt,
                self.st == old(self)@.st,
                self.screen@.len() == SCREEN_SIZE,
                target == draw_rows_from(
                    old(self)@.screen, old(self)@.ram, i as int, x0 as int, y0 as int, 0, n as int,
                ),
                target.0 == draw_rows_from(
                    self.screen@, old(self)@.ram, i as int, x0 as int, y0 as int, l as int, n as int,
                ).0,
                target.1 == (hit || draw_rows_from(
                    self.screen@, old(self)@.ram, i as int, x0 as int, y0 as int, l as int, n as int,
                ).1),
            decreases n - l,
        {
            let ghost s_pre = self.screen@;
            let b = self.ram[i + l];
            let yy = (y0 + l) % SCREEN_HEIGHT;
            let rowhit = self.draw_one_row(b, x0, yy);
            hit = hit || rowhit;
            proof {
                assert(draw_rows_from(
                    s_pre, old(self)@.ram, i as int, x0 as int, y0 as int, l as int, n as int,
                ).0 == draw_rows_from(
                    self.screen@, old(self)@.ram, i as int, x0 as int, y0 as int, l as int + 1, n as int,
                ).0);
                assert(draw_rows_from(
                    s_pre, old(self)@.ram, i as int, x0 as int, y0 as int, l as int, n as int,
                ).1 == (rowhit || draw_rows_from(
                    self.screen@, old(self)@.ram, i as int, x0 as int, y0 as int, l as int + 1, n as int,
                ).1));
            }
            l = l + 1;
        }
        let flag: u8 = if hit { 1 } else { 0 };
        self.v_reg.set(15, flag);
        proof {
            assert(self@ =~= (EmuView {
                screen: target.0,
                v_reg: old(self)@.v_reg.update(15, if target.1 { 1u8 } else { 0u8 }),
                ..old(self)@
            }));
        }
        Ok(())
    }

    /// Store registers 0..=x into memory at the index register.
    fn op_store_regs(&mut self, x: u8) -> (r: Result<(), ExecError>)
        requires
            old(self).wf(),
            x < 16,
        ensures
            final(self).wf(),
            old(self)@.i_reg + x + 1 > RAM_SIZE ==> r == Err::<(), ExecError>(ExecError::MemoryOutOfBounds)
                && final(self)@ == old(self)@,
            old(self)@.i_reg + x + 1 <= RAM_SIZE ==> r == Ok::<(), ExecError>(())
                && final(self)@ == (EmuView {
                    ram: stored_regs(old(self)@.ram, old(self)@.v_reg, old(self)@.i_reg as int, x as int),
                    ..old(self)@
                }),
    {
        let i = self.i_reg as usize;
        if i + x as usize + 1 > RAM_SIZE {
            return Err(ExecError::MemoryOutOfBounds);
        }
        let mut k: usize = 0;
        while k <= x as usize
            invariant
                self.wf(),
                k <= x + 1,
                x < 16,
                i == old(self)@.i_reg,
                i + x + 1 <= RAM_SIZE,
                self.pc == old(self).pc,
                self.screen == old(self).screen,
                self.v_reg == old(self).v_reg,
                self.i_reg == old(self).i_reg,
                self.stack == old(self).stack,
                self.keys == old(self).keys,
                self.sp == old(self).sp,
                self.dt == old(self).dt,
                self.st == old(self).st,
                self.ram@.len() == RAM_SIZE,
                forall|j: int| i <= j < i + k ==> self.ram@[j] == old(self)@.v_reg[j - i],
                forall|j: int| 0 <= j < RAM_SIZE && !(i <= j < i + k) ==> self.ram@[j] == old(self)@.ram[j],
            decreases x + 1 - k,
        {
            let v = self.v_reg[k];
            self.ram.set(i + k, v);
            k = k + 1;
        }
        proof {
            assert(self.ram@ =~= stored_regs(old(self)@.ram, old(self)@.v_reg, i as int, x as int));
            assert(self@ =~= (EmuView {
                ram: stored_regs(old(self)@.ram, old(self)@.v_reg, i as int, x as int),
                ..old(self)@
            }));
        }
        Ok(())
    }

    /// Load registers 0..=x from memory at the index register.
    fn op_load_regs(&mut self, x: u8) -> (r: Result<(), ExecError>)
        requires
            old(self).wf(),
            x < 16,
        ensures
            final(self).wf(),
            old(self)@.i_reg + x + 1 > RAM_SIZE ==> r == Err::<(), ExecError>(ExecError::MemoryOutOfBounds)
                && final(self)@ == old(self)@,
            old(self)@.i_reg + x + 1 <= RAM_SIZE ==> r == Ok::<(), ExecError>(())
                && final(self)@ == (EmuView {
                    v_reg: loaded_regs(old(self)@.ram, old(self)@.v_reg, old(self)@.i_reg as int, x as int),
                    ..old(self)@
                }),
    {
        let i = self.i_reg as usize;
        if i + x as usize + 1 > RAM_SIZE {
            return Err(ExecError::MemoryOutOfBounds);
        }
        let mut k: usize = 0;
        while k <= x as usize
            invariant
                self.wf(),
                k <= x + 1,
                x < 16,
                i == old(self)@.i_reg,
                i + x + 1 <= RAM_SIZE,
                self.pc == old(self).pc,
                self.screen == old(self).screen,
                self.ram == old(self).ram,
                self.i_reg == old(self).i_reg,
                self.stack == old(self).stack,
                self.keys == old(self).keys,
                self.sp == old(self).sp,
                self.dt == old(self).dt,
                self.st == old(self).st,
                self.v_reg@.len() == NUM_REGS,
                forall|j: int| 0 <= j < k ==> self.v_reg@[j] == old(self)@.ram[i + j],
                forall|j: int| k <= j < NUM_REGS ==> self.v_reg@[j] == old(self)@.v_reg[j],
            decreases x + 1 - k,
        {
            let v = self.ram[i + k];
            self.v_reg.set(k, v);
            k = k + 1;
        }
        proof {
            assert(self.v_reg@ =~= loaded_regs(old(self)@.ram, old(self)@.v_reg, i as int, x as int));
            assert(self@ =~= (EmuView {
                v_reg: loaded_regs(old(self)@.ram, old(self)@.v_reg, i as int, x as int),
                ..old(self)@
            }));
        }
        Ok(())
    }

    /// Apply one decoded instruction to a machine whose program counter
    /// has already moved past the instruction word; `rnd` is the byte the
    /// randomized instruction uses. On an error the machine is unchanged.
    #[verifier::rlimit(100)]
    fn execute(&mut self, instr: Instr, rnd: u8) -> (r: Result<(), ExecError>)
        requires
            old(self).wf(),
            crate::isa::instr_wf(instr),
            2 <= old(self)@.pc <= 4096,
        ensures
            final(self).wf(),
            match exec_spec(old(self)@, instr, rnd) {
                Ok(m2) => r == Ok::<(), ExecError>(()) && final(self)@ == m2,
                Err(e) => r == Err::<(), ExecError>(e) && final(self)@ == old(self)@,
            },
    {
        match instr {
            Instr::Nop => Ok(()),
            Instr::ClearScreen => {
                self.screen = filled(SCREEN_SIZE, false);
                proof {
                    assert(self@ =~= (EmuView {
                        screen: Seq::new(SCREEN_SIZE as nat, |i: int| false),
                        ..old(self)@
                    }));
                }
                Ok(())
            },
            Instr::Ret => {
                match self.pop() {
                    Ok(a) => {
                        self.pc = a;
                        proof {
                            assert(self@ =~= (EmuView {
                                pc: old(self)@.stack[old(self)@.sp - 1],
                                ..pop_view(old(self)@)
                            }));
                        }
                        Ok(())
                    },
                    Err(e) => Err(e),
                }
            },
            Instr::Jump(a) => {
                self.pc = a;
                proof {
                    assert(self@ =~= (EmuView { pc: a, ..old(self)@ }));
                }
                Ok(())
            },
            Instr::Call(a) => {
                let ret_addr = self.pc;
                match self.push(ret_addr) {
                    Ok(()) => {
                        self.pc = a;
                        proof {
                            assert(self@ =~= (EmuView { pc: a, ..push_view(old(self)@, old(self)@.pc) }));
                        }
                        Ok(())
                    },
                    Err(e) => Err(e),
                }
            },
            Instr::SkipEqImm(x, nn) => {
                if self.v_reg[x as usize] == nn {
                    self.pc = self.pc + 2;
                    proof {
                        assert(self@ =~= advance_pc(old(self)@));
                    }
                }
                Ok(())
            },
            Instr::SkipNeImm(x, nn) => {
                if self.v_reg[x as usize] != nn {
                    self.pc = self.pc + 2;
                    proof {
                        assert(self@ =~= advance_pc(old(self)@));
                    }
                }
                Ok(())
            },
            Instr::SkipEqReg(x, y) => {
                if self.v_reg[x as usize] == self.v_reg[y as usize] {
                    self.pc = self.pc + 2;
                    proof {
                        assert(self@ =~= advance_pc(old(self)@));
                    }
                }
                Ok(())
            },
            Instr::SetImm(x, nn) => {
                self.v_reg.set(x as usize, nn);
                proof {
                    assert(self@ =~= set_reg(old(self)@, x as int, nn));
                }
                Ok(())
            },
            Instr::AddImm(x, nn) => {
                let vx = self.v_reg[x as usize];
                let sum: u16 = vx as u16 + nn as u16;
                self.v_reg.set(x as usize, (sum % 0x100) as u8);
                proof {
                    assert(self@ =~= set_reg(old(self)@, x as int, wrap8(vx + nn)));
                }
                Ok(())
            },
            Instr::Mov(x, y) => {
                let vy = self.v_reg[y as usize];
                self.v_reg.set(x as usize, vy);
                proof {
                    assert(self@ =~= set_reg(old(self)@, x as int, vy));
                }
                Ok(())
            },
            Instr::Or(x, y) => {
                let vx = self.v_reg[x as usize];
                let vy = self.v_reg[y as usize];
                self.v_reg.set(x as usize, vx | vy);
                proof {
                    assert(self@ =~= set_reg(old(self)@, x as int, vx | vy));
                }
                Ok(())
            },
            Instr::And(x, y) => {
                let vx = self.v_reg[x as usize];
                let vy = self.v_reg[y as usize];
                self.v_reg.set(x as usize, vx & vy);
                proof {
                    assert(self@ =~= set_reg(old(self)@, x as int, vx & vy));
                }
                Ok(())
            },
            Instr::Xor(x, y) => {
                let vx = self.v_reg[x as usize];
                let vy = self.v_reg[y as usize];
                self.v_reg.set(x as usize, vx ^ vy);
                proof {
                    assert(self@ =~= set_reg(old(self)@, x as int, vx ^ vy));
                }
                Ok(())
            },
            Instr::AddReg(x, y) => {
                let a = self.v_reg[x as usize];
                let b = self.v_reg[y as usize];
                let sum: u16 = a as u16 + b as u16;
                let flag: u8 = if sum > 0xFF { 1 } else { 0 };
                self.v_reg.set(15, flag);
                self.v_reg.set(x as usize, (sum % 0x100) as u8);
                proof {
                    assert(self@ =~= (EmuView {
                        v_reg: old(self)@.v_reg.update(15, flag).update(x as int, wrap8(a + b)),
                        ..old(self)@
                    }));
                }
                Ok(())
            },
            Instr::SubReg(x, y) => {
                let a = self.v_reg[x as usize];
                let b = self.v_reg[y as usize];
                let flag: u8 = if a < b { 0 } else { 1 };
                self.v_reg.set(15, flag);
                self.v_reg.set(x as usize, a.wrapping_sub(b));
                proof {
                    assert(a.wrapping_sub(b) == wrap8(a - b));
                    assert(self@ =~= (EmuView {
                        v_reg: old(self)@.v_reg.update(15, flag).update(x as int, wrap8(a - b)),
                        ..old(self)@
                    }));
                }
                Ok(())
            },
            Instr::Shr(x) => {
                let vx = self.v_reg[x as usize];
                self.v_reg.set(15, vx % 2);
                let cur = self.v_reg[x as usize];
                self.v_reg.set(x as usize, cur / 2);
                proof {
                    assert(self@ =~= (EmuView {
                        v_reg: old(self)@.v_reg
                            .update(15, (old(self)@.v_reg[x as int] % 2) as u8)
                            .update(x as int, (old(self)@.v_reg.update(
                                15, (old(self)@.v_reg[x as int] % 2) as u8)[x as int] / 2) as u8),
                        ..old(self)@
                    }));
                }
                Ok(())
            },
            Instr::SubFrom(x, y) => {
                let a = self.v_reg[x as usize];
                let b = self.v_reg[y as usize];
                let flag: u8 = if b < a { 0 } else { 1 };
                self.v_reg.set(15, flag);
                self.v_reg.set(x as usize, b.wrapping_sub(a));
                proof {
                    assert(b.wrapping_sub(a) == wrap8(b - a));
                    assert(self@ =~= (EmuView {
                        v_reg: old(self)@.v_reg.update(15, flag).update(x as int, wrap8(b - a)),
                        ..old(self)@
                    }));
                }
                Ok(())
            },
            Instr::Shl(x) => {
                let vx = self.v_reg[x as usize];
                let flag: u8 = if vx >= 0x80 { 0x80 } else { 0 };
                self.v_reg.set(15, flag);
                let cur = self.v_reg[x as usize];
                let doubled: u8 = ((2 * cur as u16) % 0x100) as u8;
                self.v_reg.set(x as usize, doubled);
                proof {
                    let v1 = old(self)@.v_reg.update(15, flag);
                    assert(doubled == wrap8(2 * v1[x as int]));
                    assert(self@ =~= (EmuView {
                        v_reg: v1.update(x as int, wrap8(2 * v1[x as int])),
                        ..old(self)@
                    }));
                }
                Ok(())
            },
            Instr::SkipNeReg(x, y) => {
                if self.v_reg[x as usize] != self.v_reg[y as usize] {
                    self.pc = self.pc + 2;
                    proof {
                        assert(self@ =~= advance_pc(old(self)@));
                    }
                }
                Ok(())
            },
            Instr::SetIndex(a) => {
                self.i_reg = a;
                proof {
                    assert(self@ =~= (EmuView { i_reg: a, ..old(self)@ }));
                }
                Ok(())
            },
            Instr::JumpV0(a) => {
                let v0 = self.v_reg[0];
                self.pc = v0 as u16 + a;
                proof {
                    assert(self@ =~= (EmuView { pc: wrap16(old(self)@.v_reg[0] + a), ..old(self)@ }));
                }
                Ok(())
            },
            Instr::Random(x, nn) => {
                self.v_reg.set(x as usize, rnd & nn);
                proof {
                    assert(self@ =~= set_reg(old(self)@, x as int, rnd & nn));
                }
                Ok(())
            },
            Instr::Draw(x, y, n) => self.op_draw(x, y, n),
            Instr::SkipKey(x) => {
                let k = self.v_reg[x as usize];
                if k as usize >= NUM_KEYS {
                    Err(ExecError::MemoryOutOfBounds)
                } else {
                    if self.keys[k as usize] {
                        self.pc = self.pc + 2;
                        proof {
                            assert(self@ =~= advance_pc(old(self)@));
                        }
                    }
                    Ok(())
                }
            },
            Instr::SkipNoKey(x) => {
                let k = self.v_reg[x as usize];
                if k as usize >= NUM_KEYS {
                    Err(ExecError::MemoryOutOfBounds)
                } else {
                    if !self.keys[k as usize] {
                        self.pc = self.pc + 2;
                        proof {
                            assert(self@ =~= advance_pc(old(self)@));
                        }
                    }
                    Ok(())
                }
            },
            Instr::GetDelay(x) => {
                let d = self.dt;
                self.v_reg.set(x as usize, d);
                proof {
                    assert(self@ =~= set_reg(old(self)@, x as int, d));
                }
                Ok(())
            },
            Instr::WaitKey(x) => {
                match self.find_first_key() {
                    Some(k) => {
                        self.v_reg.set(x as usize, k);
                        proof {
                            assert(self@ =~= set_reg(old(self)@, x as int, k));
                        }
                    },
                    None => {
                        self.pc = self.pc - 2;
                        proof {
                            assert(self@ =~= (EmuView { pc: wrap16(old(self)@.pc - 2), ..old(self)@ }));
                        }
                    },
                }
                Ok(())
            },
            Instr::SetDelay(x) => {
                let vx = self.v_reg[x as usize];
                self.dt = vx;
                proof {
                    assert(self@ =~= (EmuView { dt: vx, ..old(self)@ }));
                }
                Ok(())
            },
            Instr::SetSound(x) => {
                let vx = self.v_reg[x as usize];
                self.st = vx;
                proof {
                    assert(self@ =~= (EmuView { st: vx, ..old(self)@ }));
                }
                Ok(())
            },
            Instr::AddIndex(x) => {
                let vx = self.v_reg[x as usize];
                self.i_reg = self.i_reg.wrapping_add(vx as u16);
                proof {
                    assert(self@ =~= (EmuView {
                        i_reg: wrap16(old(self)@.i_reg + old(self)@.v_reg[x as int]),
                        ..old(self)@
                    }));
                }
                Ok(())
            },
            Instr::SetFontIndex(x) => {
                let vx = self.v_reg[x as usize];
                self.i_reg = 5 * (vx % 16) as u16;
                proof {
                    assert(self@ =~= (EmuView {
                        i_reg: (5 * (old(self)@.v_reg[x as int] % 16)) as u16,
                        ..old(self)@
                    }));
                }
                Ok(())
            },
            Instr::StoreBcd(x) => {
                let i = self.i_reg as usize;
                if i + 3 > RAM_SIZE {
                    Err(ExecError::MemoryOutOfBounds)
                } else {
                    let v = self.v_reg[x as usize];
                    self.ram.set(i, v / 100);
                    self.ram.set(i + 1, (v / 10) % 10);
                    self.ram.set(i + 2, v % 10);
                    proof {
                        assert(self@ =~= (EmuView {
                            ram: old(self)@.ram
                                .update(i as int, crate::exec::bcd_hundreds(v))
                                .update(i as int + 1, crate::exec::bcd_tens(v))
                                .update(i as int + 2, crate::exec::bcd_ones(v)),
                            ..old(self)@
                        }));
                    }
                    Ok(())
                }
            },
            Instr::StoreRegs(x) => self.op_store_regs(x),
            Instr::LoadRegs(x) => self.op_load_regs(x),
        }
    }

    /// Fetch, decode and execute one instruction. On success the machine
    /// moves to the successor state `step_spec` describes for the byte
    /// the randomized instruction drew; on an error the machine reports
    /// the condition and is left exactly as it was.
    pub fn tick(&mut self) -> (r: Result<(), ExecError>)
        requires
            old(self).wf(),
        ensures
            final(self).wf(),
            exists|rnd: u8| #[trigger] step_outcome(old(self)@, final(self)@, r, rnd),
    {
        let ghost pre = self@;
        let pc0 = self.pc;
        let op = match self.fetch() {
            Ok(op) => op,
            Err(e) => {
                proof {
                    assert(step_outcome(pre, self@, Err::<(), ExecError>(e), 0u8));
                }
                return Err(e);
            },
        };
        let instr = match decode(op) {
            Some(instr) => instr,
            None => {
                self.pc = pc0;
                proof {
                    assert(self@ =~= pre);
                    assert(step_outcome(pre, self@, Err::<(), ExecError>(ExecError::InvalidOpcode), 0u8));
                }
                return Err(ExecError::InvalidOpcode);
            },
        };
        let rnd: u8 = match instr {
            Instr::Random(_, _) => random_byte(),
            _ => 0,
        };
        proof {
            lemma_decode_wf(op);
        }
        match self.execute(instr, rnd) {
            Ok(()) => {
                proof {
                    assert(step_outcome(pre, self@, Ok::<(), ExecError>(()), rnd));
                }
                Ok(())
            },
            Err(e) => {
                self.pc = pc0;
                proof {
                    assert(self@ =~= pre);
                    assert(step_outcome(pre, self@, Err::<(), ExecError>(e), rnd));
                }
                Err(e)
            },
        }
    }
}

} // verus!
