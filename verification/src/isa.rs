//! The instruction set: a tagged variant for each member of the
//! instruction family and a pure decoder from a 16-bit instruction word.
//! Decoding is separated from execution so that the dispatch can be
//! stated, verified and tested on its own.

use vstd::prelude::*;

verus! {

/// One decoded instruction. Register operands are indices 0x0..=0xF,
/// addresses are 12-bit, immediates are bytes, sprite heights are nibbles.
#[derive(Clone, Copy, Debug, PartialEq, Eq, Structural)]
pub enum Instr {
    /// 0x0000: no operation.
    Nop,
    /// 0x00E0: clear the framebuffer.
    ClearScreen,
    /// 0x00EE: pop a return address into the program counter.
    Ret,
    /// 0x1NNN: jump to NNN.
    Jump(u16),
    /// 0x2NNN: push the program counter, jump to NNN.
    Call(u16),
    /// 0x3XNN: skip the next instruction if register X equals NN.
    SkipEqImm(u8, u8),
    /// 0x4XNN: skip the next instruction if register X differs from NN.
    SkipNeImm(u8, u8),
    /// 0x5XY0: skip the next instruction if register X equals register Y.
    SkipEqReg(u8, u8),
    /// 0x6XNN: set register X to NN.
    SetImm(u8, u8),
    /// 0x7XNN: add NN to register X, wrapping; the flag register is not touched.
    AddImm(u8, u8),
    /// 0x8XY0: register X = register Y.
    Mov(u8, u8),
    /// 0x8XY1: register X |= register Y.
    Or(u8, u8),
    /// 0x8XY2: register X &= register Y.
    And(u8, u8),
    /// 0x8XY3: register X ^= register Y.
    Xor(u8, u8),
    /// 0x8XY4: register X += register Y; flag register 1 on carry, else 0.
    AddReg(u8, u8),
    /// 0x8XY5: register X -= register Y; flag register 0 on borrow, else 1.
    SubReg(u8, u8),
    /// 0x8XY6: flag register = lowest bit of register X, then X >>= 1.
    Shr(u8),
    /// 0x8XY7: register X = register Y - register X; flag as for SubReg.
    SubFrom(u8, u8),
    /// 0x8XYE: flag register = register X masked to its highest bit, then X <<= 1.
    Shl(u8),
    /// 0x9XY0: skip the next instruction if register X differs from register Y.
    SkipNeReg(u8, u8),
    /// 0xANNN: index register = NNN.
    SetIndex(u16),
    /// 0xBNNN: jump to register 0 + NNN.
    JumpV0(u16),
    /// 0xCXNN: register X = random byte AND NN.
    Random(u8, u8),
    /// 0xDXYN: draw an N-row sprite from the index register at
    /// (register X, register Y), XORed in with wraparound.
    Draw(u8, u8, u8),
    /// 0xEX9E: skip the next instruction if the key named by register X is pressed.
    SkipKey(u8),
    /// 0xEXA1: skip the next instruction if the key named by register X is not pressed.
    SkipNoKey(u8),
    /// 0xFX07: register X = delay timer.
    GetDelay(u8),
    /// 0xFX0A: store the first pressed key in register X, or rewind the
    /// program counter by one instruction so the wait repeats.
    WaitKey(u8),
    /// 0xFX15: delay timer = register X.
    SetDelay(u8),
    /// 0xFX18: sound timer = register X.
    SetSound(u8),
    /// 0xFX1E: index register += register X, wrapping.
    AddIndex(u8),
    /// 0xFX29: index register = glyph sprite address for the low nibble of register X.
    SetFontIndex(u8),
    /// 0xFX33: store the decimal digits of register X at index, index+1, index+2.
    StoreBcd(u8),
    /// 0xFX55: store registers 0..=X into memory at the index register.
    StoreRegs(u8),
    /// 0xFX65: load registers 0..=X from memory at the index register.
    LoadRegs(u8),
}

/// The highest nibble of an instruction word.
pub open spec fn nib1(op: u16) -> u16 {
    op / 0x1000
}

/// The second nibble (register operand X).
pub open spec fn nib2(op: u16) -> u16 {
    (op / 0x100) % 16
}

/// The third nibble (register operand Y).
pub open spec fn nib3(op: u16) -> u16 {
    (op / 0x10) % 16
}

/// The lowest nibble.
pub open spec fn nib4(op: u16) -> u16 {
    op % 16
}

/// The low byte (immediate NN).
pub open spec fn imm8(op: u16) -> u8 {
    (op % 0x100) as u8
}

/// The low 12 bits (address NNN).
pub open spec fn addr12(op: u16) -> u16 {
    op % 0x1000
}

/// Every operand a decoded instruction carries is in range: register
/// indices below 16, addresses below 0x1000, sprite heights below 16.
pub open spec fn instr_wf(i: Instr) -> bool {
    match i {
        Instr::Nop => true,
        Instr::ClearScreen => true,
        Instr::Ret => true,
        Instr::Jump(a) => a < 0x1000,
        Instr::Call(a) => a < 0x1000,
        Instr::SkipEqImm(x, _) => x < 16,
        Instr::SkipNeImm(x, _) => x < 16,
        Instr::SkipEqReg(x, y) => x < 16 && y < 16,
        Instr::SetImm(x, _) => x < 16,
        Instr::AddImm(x, _) => x < 16,
        Instr::Mov(x, y) => x < 16 && y < 16,
        Instr::Or(x, y) => x < 16 && y < 16,
        Instr::And(x, y) => x < 16 && y < 16,
        Instr::Xor(x, y) => x < 16 && y < 16,
        Instr::AddReg(x, y) => x < 16 && y < 16,
        Instr::SubReg(x, y) => x < 16 && y < 16,
        Instr::Shr(x) => x < 16,
        Instr::SubFrom(x, y) => x < 16 && y < 16,
        Instr::Shl(x) => x < 16,
        Instr::SkipNeReg(x, y) => x < 16 && y < 16,
        Instr::SetIndex(a) => a < 0x1000,
        Instr::JumpV0(a) => a < 0x1000,
        Instr::Random(x, _) => x < 16,
        Instr::Draw(x, y, n) => x < 16 && y < 16 && n < 16,
        Instr::SkipKey(x) => x < 16,
        Instr::SkipNoKey(x) => x < 16,
        Instr::GetDelay(x) => x < 16,
        Instr::WaitKey(x) => x < 16,
        Instr::SetDelay(x) => x < 16,
        Instr::SetSound(x) => x < 16,
        Instr::AddIndex(x) => x < 16,
        Instr::SetFontIndex(x) => x < 16,
        Instr::StoreBcd(x) => x < 16,
        Instr::StoreRegs(x) => x < 16,
        Instr::LoadRegs(x) => x < 16,
    }
}

/// What an instruction word decodes to; `None` for a word that matches no
/// known pattern.
pub open spec fn decode_spec(op: u16) -> Option<Instr> {
    let d1 = nib1(op);
    let d3 = nib3(op);
    let d4 = nib4(op);
    let x = nib2(op) as u8;
    let y = nib3(op) as u8;
    let n = nib4(op) as u8;
    let nn = imm8(op);
    let nnn = addr12(op);
    if op == 0x0000 {
        Some(Instr::Nop)
    } else if op == 0x00E0 {
        Some(Instr::ClearScreen)
    } else if op == 0x00EE {
        Some(Instr::Ret)
    } else if d1 == 0x1 {
        Some(Instr::Jump(nnn))
    } else if d1 == 0x2 {
        Some(Instr::Call(nnn))
    } else if d1 == 0x3 {
        Some(Instr::SkipEqImm(x, nn))
    } else if d1 == 0x4 {
        Some(Instr::SkipNeImm(x, nn))
    } else if d1 == 0x5 && d4 == 0x0 {
        Some(Instr::SkipEqReg(x, y))
    } else if d1 == 0x6 {
        Some(Instr::SetImm(x, nn))
    } else if d1 == 0x7 {
        Some(Instr::AddImm(x, nn))
    } else if d1 == 0x8 && d4 == 0x0 {
        Some(Instr::Mov(x, y))
    } else if d1 == 0x8 && d4 == 0x1 {
        Some(Instr::Or(x, y))
    } else if d1 == 0x8 && d4 == 0x2 {
        Some(Instr::And(x, y))
    } else if d1 == 0x8 && d4 == 0x3 {
        Some(Instr::Xor(x, y))
    } else if d1 == 0x8 && d4 == 0x4 {
        Some(Instr::AddReg(x, y))
    } else if d1 == 0x8 && d4 == 0x5 {
        Some(Instr::SubReg(x, y))
    } else if d1 == 0x8 && d4 == 0x6 {
        Some(Instr::Shr(x))
    } else if d1 == 0x8 && d4 == 0x7 {
        Some(Instr::SubFrom(x, y))
    } else if d1 == 0x8 && d4 == 0xE {
        Some(Instr::Shl(x))
    } else if d1 == 0x9 && d4 == 0x0 {
        Some(Instr::SkipNeReg(x, y))
    } else if d1 == 0xA {
        Some(Instr::SetIndex(nnn))
    } else if d1 == 0xB {
        Some(Instr::JumpV0(nnn))
    } else if d1 == 0xC {
        Some(Instr::Random(x, nn))
    } else if d1 == 0xD {
        Some(Instr::Draw(x, y, n))
    } else if d1 == 0xE && d3 == 0x9 && d4 == 0xE {
        Some(Instr::SkipKey(x))
    } else if d1 == 0xE && d3 == 0xA && d4 == 0x1 {
        Some(Instr::SkipNoKey(x))
    } else if d1 == 0xF && d3 == 0x0 && d4 == 0x7 {
        Some(Instr::GetDelay(x))
    } else if d1 == 0xF && d3 == 0x0 && d4 == 0xA {
        Some(Instr::WaitKey(x))
    } else if d1 == 0xF && d3 == 0x1 && d4 == 0x5 {
        Some(Instr::SetDelay(x))
    } else if d1 == 0xF && d3 == 0x1 && d4 == 0x8 {
        Some(Instr::SetSound(x))
    } else if d1 == 0xF && d3 == 0x1 && d4 == 0xE {
        Some(Instr::AddIndex(x))
    } else if d1 == 0xF && d3 == 0x2 && d4 == 0x9 {
        Some(Instr::SetFontIndex(x))
    } else if d1 == 0xF && d3 == 0x3 && d4 == 0x3 {
        Some(Instr::StoreBcd(x))
    } else if d1 == 0xF && d3 == 0x5 && d4 == 0x5 {
        Some(Instr::StoreRegs(x))
    } else if d1 == 0xF && d3 == 0x6 && d4 == 0x5 {
        Some(Instr::LoadRegs(x))
    } else {
        None
    }
}

/// Whatever decodes at all decodes to a well-formed instruction.
pub proof fn lemma_decode_wf(op: u16)
    ensures
        decode_spec(op) is Some ==> instr_wf(decode_spec(op)->0),
{
}

/// Split an instruction word into its four nibbles and map it to the
/// instruction family member it encodes, or to `None` where it encodes
/// nothing.
pub fn decode(op: u16) -> (r: Option<Instr>)
    ensures
        r == decode_spec(op),
{
    let d1: u16 = op / 0x1000;
    let d3: u16 = (op / 0x10) % 16;
    let d4: u16 = op % 16;
    let x: u8 = ((op / 0x100) % 16) as u8;
    let y: u8 = ((op / 0x10) % 16) as u8;
    let n: u8 = (op % 16) as u8;
    let nn: u8 = (op % 0x100) as u8;
    let nnn: u16 = op % 0x1000;
    if op == 0x0000 {
        Some(Instr::Nop)
    } else if op == 0x00E0 {
        Some(Instr::ClearScreen)
    } else if op == 0x00EE {
        Some(Instr::Ret)
    } else if d1 == 0x1 {
        Some(Instr::Jump(nnn))
    } else if d1 == 0x2 {
        Some(Instr::Call(nnn))
    } else if d1 == 0x3 {
        Some(Instr::SkipEqImm(x, nn))
    } else if d1 == 0x4 {
        Some(Instr::SkipNeImm(x, nn))
    } else if d1 == 0x5 && d4 == 0x0 {
        Some(Instr::SkipEqReg(x, y))
    } else if d1 == 0x6 {
        Some(Instr::SetImm(x, nn))
    } else if d1 == 0x7 {
        Some(Instr::AddImm(x, nn))
    } else if d1 == 0x8 && d4 == 0x0 {
        Some(Instr::Mov(x, y))
    } else if d1 == 0x8 && d4 == 0x1 {
        Some(Instr::Or(x, y))
    } else if d1 == 0x8 && d4 == 0x2 {
        Some(Instr::And(x, y))
    } else if d1 == 0x8 && d4 == 0x3 {
        Some(Instr::Xor(x, y))
    } else if d1 == 0x8 && d4 == 0x4 {
        Some(Instr::AddReg(x, y))
    } else if d1 == 0x8 && d4 == 0x5 {
        Some(Instr::SubReg(x, y))
    } else if d1 == 0x8 && d4 == 0x6 {
        Some(Instr::Shr(x))
    } else if d1 == 0x8 && d4 == 0x7 {
        Some(Instr::SubFrom(x, y))
    } else if d1 == 0x8 && d4 == 0xE {
        Some(Instr::Shl(x))
    } else if d1 == 0x9 && d4 == 0x0 {
        Some(Instr::SkipNeReg(x, y))
    } else if d1 == 0xA {
        Some(Instr::SetIndex(nnn))
    } else if d1 == 0xB {
        Some(Instr::JumpV0(nnn))
    } else if d1 == 0xC {
        Some(Instr::Random(x, nn))
    } else if d1 == 0xD {
        Some(Instr::Draw(x, y, n))
    } else if d1 == 0xE && d3 == 0x9 && d4 == 0xE {
        Some(Instr::SkipKey(x))
    } else if d1 == 0xE && d3 == 0xA && d4 == 0x1 {
        Some(Instr::SkipNoKey(x))
    } else if d1 == 0xF && d3 == 0x0 && d4 == 0x7 {
        Some(Instr::GetDelay(x))
    } else if d1 == 0xF && d3 == 0x0 && d4 == 0xA {
        Some(Instr::WaitKey(x))
    } else if d1 == 0xF && d3 == 0x1 && d4 == 0x5 {
        Some(Instr::SetDelay(x))
    } else if d1 == 0xF && d3 == 0x1 && d4 == 0x8 {
        Some(Instr::SetSound(x))
    } else if d1 == 0xF && d3 == 0x1 && d4 == 0xE {
        Some(Instr::AddIndex(x))
    } else if d1 == 0xF && d3 == 0x2 && d4 == 0x9 {
        Some(Instr::SetFontIndex(x))
    } else if d1 == 0xF && d3 == 0x3 && d4 == 0x3 {
        Some(Instr::StoreBcd(x))
    } else if d1 == 0xF && d3 == 0x5 && d4 == 0x5 {
        Some(Instr::StoreRegs(x))
    } else if d1 == 0xF && d3 == 0x6 && d4 == 0x5 {
        Some(Instr::LoadRegs(x))
    } else {
        None
    }
}

} // verus!
