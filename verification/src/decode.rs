//! Instruction decoding: field extraction from a raw 16-bit word and the
//! total map from words to the architecturally defined operations.

use vstd::prelude::*;

verus! {

/// A decoded instruction. Operand meaning: `x` and `y` are register
/// indices (always below 16), `kk` an 8-bit immediate, `nnn` a 12-bit
/// address, `n` a 4-bit nibble constant.
#[derive(Clone, Copy, PartialEq, Eq, Structural, Debug)]
pub enum Instr {
    /// The reserved encoding 0x0000: the driver stops issuing fetches.
    Halt,
    ClearDisplay,
    Return,
    Jump(u16),
    Call(u16),
    SkipEqByte(u8, u8),
    SkipNeByte(u8, u8),
    SkipEqReg(u8, u8),
    LoadByte(u8, u8),
    AddByte(u8, u8),
    Move(u8, u8),
    Or(u8, u8),
    And(u8, u8),
    Xor(u8, u8),
    AddReg(u8, u8),
    SubXY(u8, u8),
    ShiftRight(u8),
    SubYX(u8, u8),
    ShiftLeft(u8),
    SkipNeReg(u8, u8),
    LoadIndex(u16),
    JumpOffset(u16),
    Random(u8, u8),
    Draw(u8, u8, u8),
    SkipKeyPressed(u8),
    SkipKeyNotPressed(u8),
    GetDelay(u8),
    WaitKey(u8),
    SetDelay(u8),
    SetSound(u8),
    AddIndex(u8),
    SpriteAddr(u8),
    Bcd(u8),
    RegDump(u8),
    RegLoad(u8),
}

/// Leading nibble, bits 12-15: the instruction family.
pub open spec fn spec_op_nibble(w: u16) -> u16 {
    w >> 12
}

/// `x` field, bits 8-11: a register index.
pub open spec fn spec_field_x(w: u16) -> u8 {
    ((w >> 8) & 0xF) as u8
}

/// `y` field, bits 4-7: a register index.
pub open spec fn spec_field_y(w: u16) -> u8 {
    ((w >> 4) & 0xF) as u8
}

/// `n` field, bits 0-3: a sub-opcode or nibble constant.
pub open spec fn spec_field_n(w: u16) -> u8 {
    (w & 0xF) as u8
}

/// `kk` field, bits 0-7: an 8-bit immediate.
pub open spec fn spec_field_kk(w: u16) -> u8 {
    (w & 0xFF) as u8
}

/// `nnn` field, bits 0-11: a 12-bit address.
pub open spec fn spec_field_nnn(w: u16) -> u16 {
    w & 0xFFF
}

/// The instruction word read big-endian from two consecutive bytes.
pub open spec fn spec_word_of(hi: u8, lo: u8) -> u16 {
    ((hi as u16) << 8) | (lo as u16)
}

/// Bounds of the extracted fields.
pub proof fn lemma_field_bounds(w: u16)
    ensures
        spec_op_nibble(w) < 16,
        spec_field_x(w) < 16,
        spec_field_y(w) < 16,
        spec_field_n(w) < 16,
        spec_field_nnn(w) < 0x1000,
{
    assert((w >> 12) < 16 && ((w >> 8) & 0xF) < 16 && ((w >> 4) & 0xF) < 16 && (w & 0xF) < 16
        && (w & 0xFFF) < 0x1000) by (bit_vector);
}

/// The total decode map. `None` is an undefined encoding: running one is
/// fatal, never silently ignored.
pub open spec fn spec_decode(w: u16) -> Option<Instr> {
    let op = spec_op_nibble(w);
    let x = spec_field_x(w);
    let y = spec_field_y(w);
    let n = spec_field_n(w);
    let kk = spec_field_kk(w);
    let nnn = spec_field_nnn(w);
    if w == 0x0000 {
        Some(Instr::Halt)
    } else if w == 0x00E0 {
        Some(Instr::ClearDisplay)
    } else if w == 0x00EE {
        Some(Instr::Return)
    } else if op == 0x1 {
        Some(Instr::Jump(nnn))
    } else if op == 0x2 {
        Some(Instr::Call(nnn))
    } else if op == 0x3 {
        Some(Instr::SkipEqByte(x, kk))
    } else if op == 0x4 {
        Some(Instr::SkipNeByte(x, kk))
    } else if op == 0x5 && n == 0x0 {
        Some(Instr::SkipEqReg(x, y))
    } else if op == 0x6 {
        Some(Instr::LoadByte(x, kk))
    } else if op == 0x7 {
        Some(Instr::AddByte(x, kk))
    } else if op == 0x8 && n == 0x0 {
        Some(Instr::Move(x, y))
    } else if op == 0x8 && n == 0x1 {
        Some(Instr::Or(x, y))
    } else if op == 0x8 && n == 0x2 {
        Some(Instr::And(x, y))
    } else if op == 0x8 && n == 0x3 {
        Some(Instr::Xor(x, y))
    } else if op == 0x8 && n == 0x4 {
        Some(Instr::AddReg(x, y))
    } else if op == 0x8 && n == 0x5 {
        Some(Instr::SubXY(x, y))
    } else if op == 0x8 && n == 0x6 {
        Some(Instr::ShiftRight(x))
    } else if op == 0x8 && n == 0x7 {
        Some(Instr::SubYX(x, y))
    } else if op == 0x8 && n == 0xE {
        Some(Instr::ShiftLeft(x))
    } else if op == 0x9 && n == 0x0 {
        Some(Instr::SkipNeReg(x, y))
    } else if op == 0xA {
        Some(Instr::LoadIndex(nnn))
    } else if op == 0xB {
        Some(Instr::JumpOffset(nnn))
    } else if op == 0xC {
        Some(Instr::Random(x, kk))
    } else if op == 0xD {
        Some(Instr::Draw(x, y, n))
    } else if op == 0xE && kk == 0x9E {
        Some(Instr::SkipKeyPressed(x))
    } else if op == 0xE && kk == 0xA1 {
        Some(Instr::SkipKeyNotPressed(x))
    } else if op == 0xF && kk == 0x07 {
        Some(Instr::GetDelay(x))
    } else if op == 0xF && kk == 0x0A {
        Some(Instr::WaitKey(x))
    } else if op == 0xF && kk == 0x15 {
        Some(Instr::SetDelay(x))
    } else if op == 0xF && kk == 0x18 {
        Some(Instr::SetSound(x))
    } else if op == 0xF && kk == 0x1E {
        Some(Instr::AddIndex(x))
    } else if op == 0xF && kk == 0x29 {
        Some(Instr::SpriteAddr(x))
    } else if op == 0xF && kk == 0x33 {
        Some(Instr::Bcd(x))
    } else if op == 0xF && kk == 0x55 {
        Some(Instr::RegDump(x))
    } else if op == 0xF && kk == 0x65 {
        Some(Instr::RegLoad(x))
    } else {
        None
    }
}

/// Every operand a decoded instruction carries respects its field width:
/// register indices and nibble constants below 16, addresses below 0x1000.
pub open spec fn instr_bounded(i: Instr) -> bool {
    match i {
        Instr::Halt => true,
        Instr::ClearDisplay => true,
        Instr::Return => true,
        Instr::Jump(nnn) => nnn < 0x1000,
        Instr::Call(nnn) => nnn < 0x1000,
        Instr::SkipEqByte(x, _) => x < 16,
        Instr::SkipNeByte(x, _) => x < 16,
        Instr::SkipEqReg(x, y) => x < 16 && y < 16,
        Instr::LoadByte(x, _) => x < 16,
        Instr::AddByte(x, _) => x < 16,
        Instr::Move(x, y) => x < 16 && y < 16,
        Instr::Or(x, y) => x < 16 && y < 16,
        Instr::And(x, y) => x < 16 && y < 16,
        Instr::Xor(x, y) => x < 16 && y < 16,
        Instr::AddReg(x, y) => x < 16 && y < 16,
        Instr::SubXY(x, y) => x < 16 && y < 16,
        Instr::ShiftRight(x) => x < 16,
        Instr::SubYX(x, y) => x < 16 && y < 16,
        Instr::ShiftLeft(x) => x < 16,
        Instr::SkipNeReg(x, y) => x < 16 && y < 16,
        Instr::LoadIndex(nnn) => nnn < 0x1000,
        Instr::JumpOffset(nnn) => nnn < 0x1000,
        Instr::Random(x, _) => x < 16,
        Instr::Draw(x, y, n) => x < 16 && y < 16 && n < 16,
        Instr::SkipKeyPressed(x) => x < 16,
        Instr::SkipKeyNotPressed(x) => x < 16,
        Instr::GetDelay(x) => x < 16,
        Instr::WaitKey(x) => x < 16,
        Instr::SetDelay(x) => x < 16,
        Instr::SetSound(x) => x < 16,
        Instr::AddIndex(x) => x < 16,
        Instr::SpriteAddr(x) => x < 16,
        Instr::Bcd(x) => x < 16,
        Instr::RegDump(x) => x < 16,
        Instr::RegLoad(x) => x < 16,
    }
}

/// Whatever `spec_decode` returns is bounded.
pub proof fn lemma_decode_bounded(w: u16)
    ensures
        spec_decode(w) matches Some(i) ==> instr_bounded(i),
{
    lemma_field_bounds(w);
}

/// Decodes a raw instruction word.
pub fn decode(w: u16) -> (r: Option<Instr>)
    ensures
        r == spec_decode(w),
{
    proof {
        lemma_field_bounds(w);
    }
    let op = w >> 12;
    let x = ((w >> 8) & 0xF) as u8;
    let y = ((w >> 4) & 0xF) as u8;
    let n = (w & 0xF) as u8;
    let kk = (w & 0xFF) as u8;
    let nnn = w & 0xFFF;
    if w == 0x0000 {
        Some(Instr::Halt)
    } else if w == 0x00E0 {
        Some(Instr::ClearDisplay)
    } else if w == 0x00EE {
        Some(Instr::Return)
    } else if op == 0x1 {
        Some(Instr::Jump(nnn))
    } else if op == 0x2 {
        Some(Instr::Call(nnn))
    } else if op == 0x3 {
        Some(Instr::SkipEqByte(x, kk))
    } else if op == 0x4 {
        Some(Instr::SkipNeByte(x, kk))
    } else if op == 0x5 && n == 0x0 {
        Some(Instr::SkipEqReg(x, y))
    } else if op == 0x6 {
        Some(Instr::LoadByte(x, kk))
    } else if op == 0x7 {
        Some(Instr::AddByte(x, kk))
    } else if op == 0x8 && n == 0x0 {
        Some(Instr::Move(x, y))
    } else if op == 0x8 && n == 0x1 {
        Some(Instr::Or(x, y))
    } else if op == 0x8 && n == 0x2 {
        Some(Instr::And(x, y))
    } else if op == 0x8 && n == 0x3 {
        Some(Instr::Xor(x, y))
    } else if op == 0x8 && n == 0x4 {
        Some(Instr::AddReg(x, y))
    } else if op == 0x8 && n == 0x5 {
        Some(Instr::SubXY(x, y))
    } else if op == 0x8 && n == 0x6 {
        Some(Instr::ShiftRight(x))
    } else if op == 0x8 && n == 0x7 {
        Some(Instr::SubYX(x, y))
    } else if op == 0x8 && n == 0xE {
        Some(Instr::ShiftLeft(x))
    } else if op == 0x9 && n == 0x0 {
        Some(Instr::SkipNeReg(x, y))
    } else if op == 0xA {
        Some(Instr::LoadIndex(nnn))
    } else if op == 0xB {
        Some(Instr::JumpOffset(nnn))
    } else if op == 0xC {
        Some(Instr::Random(x, kk))
    } else if op == 0xD {
        Some(Instr::Draw(x, y, n))
    } else if op == 0xE && kk == 0x9E {
        Some(Instr::SkipKeyPressed(x))
    } else if op == 0xE && kk == 0xA1 {
        Some(Instr::SkipKeyNotPressed(x))
    } else if op == 0xF && kk == 0x07 {
        Some(Instr::GetDelay(x))
    } else if op == 0xF && kk == 0x0A {
        Some(Instr::WaitKey(x))
    } else if op == 0xF && kk == 0x15 {
        Some(Instr::SetDelay(x))
    } else if op == 0xF && kk == 0x18 {
        Some(Instr::SetSound(x))
    } else if op == 0xF && kk == 0x1E {
        Some(Instr::AddIndex(x))
    } else if op == 0xF && kk == 0x29 {
        Some(Instr::SpriteAddr(x))
    } else if op == 0xF && kk == 0x33 {
        Some(Instr::Bcd(x))
    } else if op == 0xF && kk == 0x55 {
        Some(Instr::RegDump(x))
    } else if op == 0xF && kk == 0x65 {
        Some(Instr::RegLoad(x))
    } else {
        None
    }
}

/// Composes the instruction word from its two big-endian bytes.
pub fn word_of(hi: u8, lo: u8) -> (w: u16)
    ensures
        w == spec_word_of(hi, lo),
{
    ((hi as u16) << 8) | (lo as u16)
}

} // verus!
