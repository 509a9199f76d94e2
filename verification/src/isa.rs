//! Decoding: each 16-bit instruction word is split into its nibble fields
//! and mapped onto a closed set of instruction forms.  Every encoding the
//! table does not match decodes to the no-op on purpose: memory regions
//! that are not instructions are tolerated, not treated as errors.

use vstd::prelude::*;

verus! {

/// One decoded instruction.  Fields named x and y are register indices
/// (always below 16), nn is an 8-bit immediate, nnn a 12-bit address
/// immediate, n a 4-bit sprite height.
#[derive(Clone, Copy, PartialEq, Eq, Structural, Debug)]
pub enum Instr {
    /// 00E0: switch every pixel off.
    ClearScreen,
    /// 00EE: return from a subroutine through the call stack.
    Return,
    /// 1NNN: jump to NNN.
    Jump(u16),
    /// 2NNN: call the subroutine at NNN.
    Call(u16),
    /// 3XNN: skip the next instruction when register x equals NN.
    SkipEqImm(u8, u8),
    /// 4XNN: skip the next instruction when register x differs from NN.
    SkipNeImm(u8, u8),
    /// 5XY0 (low nibble ignored): skip when register x equals register y.
    SkipEqReg(u8, u8),
    /// 6XNN: set register x to NN.
    SetImm(u8, u8),
    /// 7XNN: add NN to register x, wrapping, flags untouched.
    AddImm(u8, u8),
    /// 8XY0: copy register y into register x.
    Assign(u8, u8),
    /// 8XY1: bitwise OR of registers x and y into x.
    Or(u8, u8),
    /// 8XY2: bitwise AND of registers x and y into x.
    And(u8, u8),
    /// 8XY3: bitwise XOR of registers x and y into x.
    Xor(u8, u8),
    /// 8XY4: add register y to register x; the flag register gets the
    /// carry.
    Add(u8, u8),
    /// 8XY5: subtract register y from register x; the flag register gets
    /// 1 exactly when no borrow occurred.
    Sub(u8, u8),
    /// 8XY6: shift register x right by one; the dropped bit goes to the
    /// flag register.
    ShiftRight(u8),
    /// 8XY7: set register x to register y minus register x; the flag
    /// register gets 1 exactly when no borrow occurred.
    SubReverse(u8, u8),
    /// 8XYE: shift register x left by one; the dropped bit goes to the
    /// flag register.
    ShiftLeft(u8),
    /// 9XY0 (low nibble ignored): skip when register x differs from
    /// register y.
    SkipNeReg(u8, u8),
    /// ANNN: set the address register to NNN.
    SetAddr(u16),
    /// BNNN: jump to NNN plus register 0, masked to 12 bits.
    JumpOffset(u16),
    /// CXNN: set register x to NN masked by a random byte.
    Random(u8, u8),
    /// DXYN: draw the n-row sprite at the address register, at the point
    /// held in registers x and y; the flag register gets the collision.
    Draw(u8, u8, u8),
    /// EX9E: skip when the key named by register x is pressed.
    SkipKeyPressed(u8),
    /// EXA1: skip when the key named by register x is not pressed.
    SkipKeyNotPressed(u8),
    /// FX07: read the delay timer into register x.
    GetDelay(u8),
    /// FX0A: suspend until a key is pressed; the key goes to register x.
    WaitKey(u8),
    /// FX15: set the delay timer from register x.
    SetDelay(u8),
    /// FX18: set the sound timer from register x.
    SetSound(u8),
    /// FX1E: add register x to the address register, masked to 12 bits;
    /// the flag register gets the overflow.
    AddAddr(u8),
    /// FX29: point the address register at the font glyph for the low
    /// nibble of register x.
    FontAddr(u8),
    /// FX33: write the decimal digits of register x to the three memory
    /// cells at the address register.
    StoreBcd(u8),
    /// FX55: dump registers 0 through x to memory at the address register.
    DumpRegs(u8),
    /// FX65: load registers 0 through x from memory at the address
    /// register.
    LoadRegs(u8),
    /// Any unmatched encoding: tolerated, the pointer just advances.
    Nop,
}

impl Instr {
    /// What decoding guarantees of the fields: register indices below 16,
    /// addresses below 4096, sprite heights below 16.
    pub open spec fn wf(self) -> bool {
        match self {
            Instr::ClearScreen => true,
            Instr::Return => true,
            Instr::Jump(nnn) => nnn < 4096,
            Instr::Call(nnn) => nnn < 4096,
            Instr::SkipEqImm(x, _nn) => x < 16,
            Instr::SkipNeImm(x, _nn) => x < 16,
            Instr::SkipEqReg(x, y) => x < 16 && y < 16,
            Instr::SetImm(x, _nn) => x < 16,
            Instr::AddImm(x, _nn) => x < 16,
            Instr::Assign(x, y) => x < 16 && y < 16,
            Instr::Or(x, y) => x < 16 && y < 16,
            Instr::And(x, y) => x < 16 && y < 16,
            Instr::Xor(x, y) => x < 16 && y < 16,
            Instr::Add(x, y) => x < 16 && y < 16,
            Instr::Sub(x, y) => x < 16 && y < 16,
            Instr::ShiftRight(x) => x < 16,
            Instr::SubReverse(x, y) => x < 16 && y < 16,
            Instr::ShiftLeft(x) => x < 16,
            Instr::SkipNeReg(x, y) => x < 16 && y < 16,
            Instr::SetAddr(nnn) => nnn < 4096,
            Instr::JumpOffset(nnn) => nnn < 4096,
            Instr::Random(x, _nn) => x < 16,
            Instr::Draw(x, y, n) => x < 16 && y < 16 && n < 16,
            Instr::SkipKeyPressed(x) => x < 16,
            Instr::SkipKeyNotPressed(x) => x < 16,
            Instr::GetDelay(x) => x < 16,
            Instr::WaitKey(x) => x < 16,
            Instr::SetDelay(x) => x < 16,
            Instr::SetSound(x) => x < 16,
            Instr::AddAddr(x) => x < 16,
            Instr::FontAddr(x) => x < 16,
            Instr::StoreBcd(x) => x < 16,
            Instr::DumpRegs(x) => x < 16,
            Instr::LoadRegs(x) => x < 16,
            Instr::Nop => true,
        }
    }
}

/// The dispatch table as a function: which form an instruction word
/// decodes to.  The order of the tests settles the overlapping patterns
/// exactly as the executor dispatches them.
pub open spec fn spec_decode(op: u16) -> Instr {
    let op1 = (op >> 12) as u8;
    let x = ((op >> 8) & 15) as u8;
    let y = ((op >> 4) & 15) as u8;
    let n = (op & 15) as u8;
    let nn = (op & 255) as u8;
    let nnn = op & 4095;
    if op1 == 1 {
        Instr::Jump(nnn)
    } else if op == 0x00EE {
        Instr::Return
    } else if op1 == 2 {
        Instr::Call(nnn)
    } else if op1 == 3 {
        Instr::SkipEqImm(x, nn)
    } else if op1 == 4 {
        Instr::SkipNeImm(x, nn)
    } else if op1 == 5 {
        Instr::SkipEqReg(x, y)
    } else if op == 0x00E0 {
        Instr::ClearScreen
    } else if op1 == 10 {
        Instr::SetAddr(nnn)
    } else if op1 == 6 {
        Instr::SetImm(x, nn)
    } else if op1 == 7 {
        Instr::AddImm(x, nn)
    } else if op1 == 8 && n == 0 {
        Instr::Assign(x, y)
    } else if op1 == 8 && n == 1 {
        Instr::Or(x, y)
    } else if op1 == 8 && n == 2 {
        Instr::And(x, y)
    } else if op1 == 8 && n == 3 {
        Instr::Xor(x, y)
    } else if op1 == 8 && n == 4 {
        Instr::Add(x, y)
    } else if op1 == 8 && n == 5 {
        Instr::Sub(x, y)
    } else if op1 == 8 && n == 6 {
        Instr::ShiftRight(x)
    } else if op1 == 8 && n == 7 {
        Instr::SubReverse(x, y)
    } else if op1 == 8 && n == 14 {
        Instr::ShiftLeft(x)
    } else if op1 == 9 {
        Instr::SkipNeReg(x, y)
    } else if op1 == 11 {
        Instr::JumpOffset(nnn)
    } else if op1 == 12 {
        Instr::Random(x, nn)
    } else if op1 == 13 {
        Instr::Draw(x, y, n)
    } else if op1 == 14 && n == 14 {
        Instr::SkipKeyPressed(x)
    } else if op1 == 14 && n == 1 {
        Instr::SkipKeyNotPressed(x)
    } else if op1 == 15 && n == 7 {
        Instr::GetDelay(x)
    } else if op1 == 15 && n == 10 {
        Instr::WaitKey(x)
    } else if op1 == 15 && y == 1 && n == 5 {
        Instr::SetDelay(x)
    } else if op1 == 15 && y == 1 && n == 8 {
        Instr::SetSound(x)
    } else if op1 == 15 && y == 1 && n == 14 {
        Instr::AddAddr(x)
    } else if op1 == 15 && y == 2 && n == 9 {
        Instr::FontAddr(x)
    } else if op1 == 15 && y == 3 && n == 3 {
        Instr::StoreBcd(x)
    } else if op1 == 15 && y == 5 && n == 5 {
        Instr::DumpRegs(x)
    } else if op1 == 15 && y == 6 && n == 5 {
        Instr::LoadRegs(x)
    } else {
        Instr::Nop
    }
}

/// Every decoded instruction has its fields in range.
pub proof fn lemma_decode_wf(op: u16)
    ensures
        spec_decode(op).wf(),
{
    assert((((op >> 8) & 15) as u8) < 16) by (bit_vector);
    assert((((op >> 4) & 15) as u8) < 16) by (bit_vector);
    assert(((op & 15) as u8) < 16) by (bit_vector);
    assert(op & 4095 < 4096) by (bit_vector);
}

/// Decode one instruction word, exactly as the dispatch table matches it.
pub fn decode(op: u16) -> (instr: Instr)
    ensures
        instr == spec_decode(op),
        instr.wf(),
{
    proof {
        lemma_decode_wf(op);
    }
    let op1 = (op >> 12) as u8;
    let x = ((op >> 8) & 15) as u8;
    let y = ((op >> 4) & 15) as u8;
    let n = (op & 15) as u8;
    let nn = (op & 255) as u8;
    let nnn = op & 4095;
    if op1 == 1 {
        Instr::Jump(nnn)
    } else if op == 0x00EE {
        Instr::Return
    } else if op1 == 2 {
        Instr::Call(nnn)
    } else if op1 == 3 {
        Instr::SkipEqImm(x, nn)
    } else if op1 == 4 {
        Instr::SkipNeImm(x, nn)
    } else if op1 == 5 {
        Instr::SkipEqReg(x, y)
    } else if op == 0x00E0 {
        Instr::ClearScreen
    } else if op1 == 10 {
        Instr::SetAddr(nnn)
    } else if op1 == 6 {
        Instr::SetImm(x, nn)
    } else if op1 == 7 {
        Instr::AddImm(x, nn)
    } else if op1 == 8 && n == 0 {
        Instr::Assign(x, y)
    } else if op1 == 8 && n == 1 {
        Instr::Or(x, y)
    } else if op1 == 8 && n == 2 {
        Instr::And(x, y)
    } else if op1 == 8 && n == 3 {
        Instr::Xor(x, y)
    } else if op1 == 8 && n == 4 {
        Instr::Add(x, y)
    } else if op1 == 8 && n == 5 {
        Instr::Sub(x, y)
    } else if op1 == 8 && n == 6 {
        Instr::ShiftRight(x)
    } else if op1 == 8 && n == 7 {
        Instr::SubReverse(x, y)
    } else if op1 == 8 && n == 14 {
        Instr::ShiftLeft(x)
    } else if op1 == 9 {
        Instr::SkipNeReg(x, y)
    } else if op1 == 11 {
        Instr::JumpOffset(nnn)
    } else if op1 == 12 {
        Instr::Random(x, nn)
    } else if op1 == 13 {
        Instr::Draw(x, y, n)
    } else if op1 == 14 && n == 14 {
        Instr::SkipKeyPressed(x)
    } else if op1 == 14 && n == 1 {
        Instr::SkipKeyNotPressed(x)
    } else if op1 == 15 && n == 7 {
        Instr::GetDelay(x)
    } else if op1 == 15 && n == 10 {
        Instr::WaitKey(x)
    } else if op1 == 15 && y == 1 && n == 5 {
        Instr::SetDelay(x)
    } else if op1 == 15 && y == 1 && n == 8 {
        Instr::SetSound(x)
    } else if op1 == 15 && y == 1 && n == 14 {
        Instr::AddAddr(x)
    } else if op1 == 15 && y == 2 && n == 9 {
        Instr::FontAddr(x)
    } else if op1 == 15 && y == 3 && n == 3 {
        Instr::StoreBcd(x)
    } else if op1 == 15 && y == 5 && n == 5 {
        Instr::DumpRegs(x)
    } else if op1 == 15 && y == 6 && n == 5 {
        Instr::LoadRegs(x)
    } else {
        Instr::Nop
    }
}

} // verus!
