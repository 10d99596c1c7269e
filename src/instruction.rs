use vstd::prelude::*;

verus! {

/// One decoded instruction. `x` and `y` select registers (`0..16`), `kk` is
/// an immediate byte, `nnn` a 12-bit address and `n` a 4-bit row count.
#[derive(Clone, Copy, Debug, PartialEq, Eq, Structural)]
pub enum Instruction {
    /// `00E0`
    ClearScreen,
    /// `00EE`
    Return,
    /// `1NNN`
    Jump { nnn: u16 },
    /// `2NNN`
    Call { nnn: u16 },
    /// `3XKK`
    SkipIfEqualImm { x: u8, kk: u8 },
    /// `4XKK`
    SkipIfNotEqualImm { x: u8, kk: u8 },
    /// `5XY0`
    SkipIfEqualReg { x: u8, y: u8 },
    /// `6XKK`
    LoadImm { x: u8, kk: u8 },
    /// `7XKK`
    AddImm { x: u8, kk: u8 },
    /// `8XY0`
    Move { x: u8, y: u8 },
    /// `8XY1`
    Or { x: u8, y: u8 },
    /// `8XY2`
    And { x: u8, y: u8 },
    /// `8XY3`
    Xor { x: u8, y: u8 },
    /// `8XY4`
    AddReg { x: u8, y: u8 },
    /// `8XY5`
    SubReg { x: u8, y: u8 },
    /// `8XY6`
    ShiftRight { x: u8, y: u8 },
    /// `8XY7`
    SubReverse { x: u8, y: u8 },
    /// `8XYE`
    ShiftLeft { x: u8, y: u8 },
    /// `9XY0`
    SkipIfNotEqualReg { x: u8, y: u8 },
    /// `ANNN`
    LoadIndex { nnn: u16 },
    /// `BNNN`
    JumpOffset { nnn: u16 },
    /// `CXKK`
    Random { x: u8, kk: u8 },
    /// `DXYN`
    Draw { x: u8, y: u8, n: u8 },
    /// `EX9E`
    SkipIfKey { x: u8 },
    /// `EXA1`
    SkipIfNotKey { x: u8 },
    /// `FX07`
    ReadDelay { x: u8 },
    /// `FX0A`
    WaitKey { x: u8 },
    /// `FX15`
    SetDelay { x: u8 },
    /// `FX18`
    SetSound { x: u8 },
    /// `FX1E`
    AddIndex { x: u8 },
    /// `FX29`
    FontGlyph { x: u8 },
    /// `FX33`
    StoreBcd { x: u8 },
    /// `FX55`
    StoreRegs { x: u8 },
    /// `FX65`
    LoadRegs { x: u8 },
    /// Any other opcode; it does nothing.
    Unknown { opcode: u16 },
}

pub open spec fn x_of(op: u16) -> u8 {
    ((op >> 8u16) & 0xFu16) as u8
}

pub open spec fn y_of(op: u16) -> u8 {
    ((op >> 4u16) & 0xFu16) as u8
}

pub open spec fn n_of(op: u16) -> u8 {
    (op & 0xFu16) as u8
}

pub open spec fn kk_of(op: u16) -> u8 {
    (op & 0xFFu16) as u8
}

pub open spec fn nnn_of(op: u16) -> u16 {
    op & 0xFFFu16
}

/// The instruction that a 16-bit opcode encodes: the top nibble picks the
/// family, and the low byte or low nibble the member where a family has
/// several.
pub open spec fn decode_spec(op: u16) -> Instruction {
    let hi = op >> 12u16;
    let x = x_of(op);
    let y = y_of(op);
    let n = n_of(op);
    let kk = kk_of(op);
    let nnn = nnn_of(op);
    if op == 0x00E0 {
        Instruction::ClearScreen
    } else if op == 0x00EE {
        Instruction::Return
    } else if hi == 0x1 {
        Instruction::Jump { nnn }
    } else if hi == 0x2 {
        Instruction::Call { nnn }
    } else if hi == 0x3 {
        Instruction::SkipIfEqualImm { x, kk }
    } else if hi == 0x4 {
        Instruction::SkipIfNotEqualImm { x, kk }
    } else if hi == 0x5 && n == 0 {
        Instruction::SkipIfEqualReg { x, y }
    } else if hi == 0x6 {
        Instruction::LoadImm { x, kk }
    } else if hi == 0x7 {
        Instruction::AddImm { x, kk }
    } else if hi == 0x8 && n == 0x0 {
        Instruction::Move { x, y }
    } else if hi == 0x8 && n == 0x1 {
        Instruction::Or { x, y }
    } else if hi == 0x8 && n == 0x2 {
        Instruction::And { x, y }
    } else if hi == 0x8 && n == 0x3 {
        Instruction::Xor { x, y }
    } else if hi == 0x8 && n == 0x4 {
        Instruction::AddReg { x, y }
    } else if hi == 0x8 && n == 0x5 {
        Instruction::SubReg { x, y }
    } else if hi == 0x8 && n == 0x6 {
        Instruction::ShiftRight { x, y }
    } else if hi == 0x8 && n == 0x7 {
        Instruction::SubReverse { x, y }
    } else if hi == 0x8 && n == 0xE {
        Instruction::ShiftLeft { x, y }
    } else if hi == 0x9 && n == 0 {
        Instruction::SkipIfNotEqualReg { x, y }
    } else if hi == 0xA {
        Instruction::LoadIndex { nnn }
    } else if hi == 0xB {
        Instruction::JumpOffset { nnn }
    } else if hi == 0xC {
        Instruction::Random { x, kk }
    } else if hi == 0xD {
        Instruction::Draw { x, y, n }
    } else if hi == 0xE && kk == 0x9E {
        Instruction::SkipIfKey { x }
    } else if hi == 0xE && kk == 0xA1 {
        Instruction::SkipIfNotKey { x }
    } else if hi == 0xF && kk == 0x07 {
        Instruction::ReadDelay { x }
    } else if hi == 0xF && kk == 0x0A {
        Instruction::WaitKey { x }
    } else if hi == 0xF && kk == 0x15 {
        Instruction::SetDelay { x }
    } else if hi == 0xF && kk == 0x18 {
        Instruction::SetSound { x }
    } else if hi == 0xF && kk == 0x1E {
        Instruction::AddIndex { x }
    } else if hi == 0xF && kk == 0x29 {
        Instruction::FontGlyph { x }
    } else if hi == 0xF && kk == 0x33 {
        Instruction::StoreBcd { x }
    } else if hi == 0xF && kk == 0x55 {
        Instruction::StoreRegs { x }
    } else if hi == 0xF && kk == 0x65 {
        Instruction::LoadRegs { x }
    } else {
        Instruction::Unknown { opcode: op }
    }
}

/// The operands lie in their ranges: registers and row counts below 16,
/// addresses below `0x1000`.
pub open spec fn operands_ok(ins: Instruction) -> bool {
    match ins {
        Instruction::Jump { nnn } | Instruction::Call { nnn } | Instruction::LoadIndex { nnn }
        | Instruction::JumpOffset { nnn } => nnn < 0x1000,
        Instruction::SkipIfEqualImm { x, .. } | Instruction::SkipIfNotEqualImm { x, .. }
        | Instruction::LoadImm { x, .. } | Instruction::AddImm { x, .. }
        | Instruction::Random { x, .. } => x < 16,
        Instruction::SkipIfEqualReg { x, y } | Instruction::Move { x, y }
        | Instruction::Or { x, y } | Instruction::And { x, y } | Instruction::Xor { x, y }
        | Instruction::AddReg { x, y } | Instruction::SubReg { x, y }
        | Instruction::ShiftRight { x, y } | Instruction::SubReverse { x, y }
        | Instruction::ShiftLeft { x, y } | Instruction::SkipIfNotEqualReg { x, y } => x < 16
            && y < 16,
        Instruction::Draw { x, y, n } => x < 16 && y < 16 && n < 16,
        Instruction::SkipIfKey { x } | Instruction::SkipIfNotKey { x }
        | Instruction::ReadDelay { x } | Instruction::WaitKey { x }
        | Instruction::SetDelay { x } | Instruction::SetSound { x }
        | Instruction::AddIndex { x } | Instruction::FontGlyph { x }
        | Instruction::StoreBcd { x } | Instruction::StoreRegs { x }
        | Instruction::LoadRegs { x } => x < 16,
        _ => true,
    }
}

proof fn lemma_fields_in_range(op: u16)
    ensures
        x_of(op) < 16,
        y_of(op) < 16,
        n_of(op) < 16,
        nnn_of(op) < 0x1000,
        op >> 12u16 < 16,
{
    assert((op >> 8u16) & 0xFu16 < 16) by (bit_vector);
    assert((op >> 4u16) & 0xFu16 < 16) by (bit_vector);
    assert(op & 0xFu16 < 16) by (bit_vector);
    assert(op & 0xFFFu16 < 0x1000) by (bit_vector);
    assert(op >> 12u16 < 16) by (bit_vector);
}

/// Splits a 16-bit opcode into its instruction.
pub fn decode(op: u16) -> (r: Instruction)
    ensures
        r == decode_spec(op),
        operands_ok(r),
{
    proof {
        lemma_fields_in_range(op);
    }
    let hi = op >> 12;
    let x = ((op >> 8) & 0xF) as u8;
    let y = ((op >> 4) & 0xF) as u8;
    let n = (op & 0xF) as u8;
    let kk = (op & 0xFF) as u8;
    let nnn = op & 0xFFF;
    if op == 0x00E0 {
        Instruction::ClearScreen
    } else if op == 0x00EE {
        Instruction::Return
    } else if hi == 0x1 {
        Instruction::Jump { nnn }
    } else if hi == 0x2 {
        Instruction::Call { nnn }
    } else if hi == 0x3 {
        Instruction::SkipIfEqualImm { x, kk }
    } else if hi == 0x4 {
        Instruction::SkipIfNotEqualImm { x, kk }
    } else if hi == 0x5 && n == 0 {
        Instruction::SkipIfEqualReg { x, y }
    } else if hi == 0x6 {
        Instruction::LoadImm { x, kk }
    } else if hi == 0x7 {
        Instruction::AddImm { x, kk }
    } else if hi == 0x8 {
        match n {
            0x0 => Instruction::Move { x, y },
            0x1 => Instruction::Or { x, y },
            0x2 => Instruction::And { x, y },
            0x3 => Instruction::Xor { x, y },
            0x4 => Instruction::AddReg { x, y },
            0x5 => Instruction::SubReg { x, y },
            0x6 => Instruction::ShiftRight { x, y },
            0x7 => Instruction::SubReverse { x, y },
            0xE => Instruction::ShiftLeft { x, y },
            _ => Instruction::Unknown { opcode: op },
        }
    } else if hi == 0x9 && n == 0 {
        Instruction::SkipIfNotEqualReg { x, y }
    } else if hi == 0xA {
        Instruction::LoadIndex { nnn }
    } else if hi == 0xB {
        Instruction::JumpOffset { nnn }
    } else if hi == 0xC {
        Instruction::Random { x, kk }
    } else if hi == 0xD {
        Instruction::Draw { x, y, n }
    } else if hi == 0xE {
        match kk {
            0x9E => Instruction::SkipIfKey { x },
            0xA1 => Instruction::SkipIfNotKey { x },
            _ => Instruction::Unknown { opcode: op },
        }
    } else if hi == 0xF {
        match kk {
            0x07 => Instruction::ReadDelay { x },
            0x0A => Instruction::WaitKey { x },
            0x15 => Instruction::SetDelay { x },
            0x18 => Instruction::SetSound { x },
            0x1E => Instruction::AddIndex { x },
            0x29 => Instruction::FontGlyph { x },
            0x33 => Instruction::StoreBcd { x },
            0x55 => Instruction::StoreRegs { x },
            0x65 => Instruction::LoadRegs { x },
            _ => Instruction::Unknown { opcode: op },
        }
    } else {
        Instruction::Unknown { opcode: op }
    }
}

} // verus!
