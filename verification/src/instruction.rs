//! The instruction set: the mapping from the four nibbles of an
//! instruction word to the instruction they denote.

use crate::chip8::{addr_of, address_of, byte_of, value_of};
use vstd::prelude::*;

verus! {

/// One instruction. `x` and `y` name registers, `value` is an immediate
/// byte, `addr` a twelve-bit address, `rows` the height of a sprite.
#[derive(Debug, Clone, Copy, PartialEq, Eq, Structural)]
pub enum Instruction {
    /// `00E0`
    ClearScreen,
    /// `00EE`
    Return,
    /// `1nnn`
    Jump { addr: u16 },
    /// `2nnn`
    Call { addr: u16 },
    /// `3xkk`
    SkipIfEqual { x: u8, value: u8 },
    /// `4xkk`
    SkipIfNotEqual { x: u8, value: u8 },
    /// `5xy0`
    SkipIfSame { x: u8, y: u8 },
    /// `6xkk`
    Load { x: u8, value: u8 },
    /// `7xkk`
    AddImmediate { x: u8, value: u8 },
    /// `8xy0`
    Move { x: u8, y: u8 },
    /// `8xy1`
    Or { x: u8, y: u8 },
    /// `8xy2`
    And { x: u8, y: u8 },
    /// `8xy3`
    Xor { x: u8, y: u8 },
    /// `8xy4`
    Add { x: u8, y: u8 },
    /// `8xy5`
    Subtract { x: u8, y: u8 },
    /// `8xy6`
    ShiftRight { x: u8 },
    /// `8xy7`
    SubtractFrom { x: u8, y: u8 },
    /// `8xyE`
    ShiftLeft { x: u8 },
    /// `9xy0`
    SkipIfDifferent { x: u8, y: u8 },
    /// `Annn`
    LoadIndex { addr: u16 },
    /// `Bnnn`
    JumpOffset { addr: u16 },
    /// `Cxkk`
    Random { x: u8, value: u8 },
    /// `Dxyn`
    Draw { x: u8, y: u8, rows: u8 },
    /// `Ex9E`
    SkipIfKey { x: u8 },
    /// `ExA1`
    SkipIfNoKey { x: u8 },
    /// `Fx07`
    ReadDelay { x: u8 },
    /// `Fx0A`
    AwaitKey { x: u8 },
    /// `Fx15`
    SetDelay { x: u8 },
    /// `Fx18`
    SetSound { x: u8 },
    /// `Fx1E`
    AddIndex { x: u8 },
    /// `Fx29`
    FontAddress { x: u8 },
    /// `Fx33`
    StoreDigits { x: u8 },
    /// `Fx55`
    StoreRegisters { x: u8 },
    /// `Fx65`
    LoadRegisters { x: u8 },
}

impl Instruction {
    /// Register operands are below 16, addresses below 4096, sprite
    /// heights below 16.
    pub open spec fn wf(self) -> bool {
        match self {
            Instruction::ClearScreen => true,
            Instruction::Return => true,
            Instruction::Jump { addr } => addr < 0x1000,
            Instruction::Call { addr } => addr < 0x1000,
            Instruction::SkipIfEqual { x, value } => x < 16,
            Instruction::SkipIfNotEqual { x, value } => x < 16,
            Instruction::SkipIfSame { x, y } => x < 16 && y < 16,
            Instruction::Load { x, value } => x < 16,
            Instruction::AddImmediate { x, value } => x < 16,
            Instruction::Move { x, y } => x < 16 && y < 16,
            Instruction::Or { x, y } => x < 16 && y < 16,
            Instruction::And { x, y } => x < 16 && y < 16,
            Instruction::Xor { x, y } => x < 16 && y < 16,
            Instruction::Add { x, y } => x < 16 && y < 16,
            Instruction::Subtract { x, y } => x < 16 && y < 16,
            Instruction::ShiftRight { x } => x < 16,
            Instruction::SubtractFrom { x, y } => x < 16 && y < 16,
            Instruction::ShiftLeft { x } => x < 16,
            Instruction::SkipIfDifferent { x, y } => x < 16 && y < 16,
            Instruction::LoadIndex { addr } => addr < 0x1000,
            Instruction::JumpOffset { addr } => addr < 0x1000,
            Instruction::Random { x, value } => x < 16,
            Instruction::Draw { x, y, rows } => x < 16 && y < 16 && rows < 16,
            Instruction::SkipIfKey { x } => x < 16,
            Instruction::SkipIfNoKey { x } => x < 16,
            Instruction::ReadDelay { x } => x < 16,
            Instruction::AwaitKey { x } => x < 16,
            Instruction::SetDelay { x } => x < 16,
            Instruction::SetSound { x } => x < 16,
            Instruction::AddIndex { x } => x < 16,
            Instruction::FontAddress { x } => x < 16,
            Instruction::StoreDigits { x } => x < 16,
            Instruction::StoreRegisters { x } => x < 16,
            Instruction::LoadRegisters { x } => x < 16,
        }
    }
}

/// The instruction that the nibbles `h1 h2 h3 h4` denote, most significant
/// first; none where they denote no instruction, or where one of them is
/// no nibble.
pub open spec fn spec_decode(h1: u8, h2: u8, h3: u8, h4: u8) -> Option<Instruction> {
    let x = h2;
    let y = h3;
    let value = byte_of(h3, h4);
    let addr = addr_of(h2, h3, h4);
    if h1 >= 16 || h2 >= 16 || h3 >= 16 || h4 >= 16 {
        None
    } else if h1 == 0x0 {
        if h2 == 0x0 && h3 == 0xE && h4 == 0x0 {
            Some(Instruction::ClearScreen)
        } else if h2 == 0x0 && h3 == 0xE && h4 == 0xE {
            Some(Instruction::Return)
        } else {
            None
        }
    } else if h1 == 0x1 {
        Some(Instruction::Jump { addr })
    } else if h1 == 0x2 {
        Some(Instruction::Call { addr })
    } else if h1 == 0x3 {
        Some(Instruction::SkipIfEqual { x, value })
    } else if h1 == 0x4 {
        Some(Instruction::SkipIfNotEqual { x, value })
    } else if h1 == 0x5 {
        if h4 == 0x0 {
            Some(Instruction::SkipIfSame { x, y })
        } else {
            None
        }
    } else if h1 == 0x6 {
        Some(Instruction::Load { x, value })
    } else if h1 == 0x7 {
        Some(Instruction::AddImmediate { x, value })
    } else if h1 == 0x8 {
        if h4 == 0x0 {
            Some(Instruction::Move { x, y })
        } else if h4 == 0x1 {
            Some(Instruction::Or { x, y })
        } else if h4 == 0x2 {
            Some(Instruction::And { x, y })
        } else if h4 == 0x3 {
            Some(Instruction::Xor { x, y })
        } else if h4 == 0x4 {
            Some(Instruction::Add { x, y })
        } else if h4 == 0x5 {
            Some(Instruction::Subtract { x, y })
        } else if h4 == 0x6 {
            Some(Instruction::ShiftRight { x })
        } else if h4 == 0x7 {
            Some(Instruction::SubtractFrom { x, y })
        } else if h4 == 0xE {
            Some(Instruction::ShiftLeft { x })
        } else {
            None
        }
    } else if h1 == 0x9 {
        if h4 == 0x0 {
            Some(Instruction::SkipIfDifferent { x, y })
        } else {
            None
        }
    } else if h1 == 0xA {
        Some(Instruction::LoadIndex { addr })
    } else if h1 == 0xB {
        Some(Instruction::JumpOffset { addr })
    } else if h1 == 0xC {
        Some(Instruction::Random { x, value })
    } else if h1 == 0xD {
        Some(Instruction::Draw { x, y, rows: h4 })
    } else if h1 == 0xE {
        if h3 == 0x9 && h4 == 0xE {
            Some(Instruction::SkipIfKey { x })
        } else if h3 == 0xA && h4 == 0x1 {
            Some(Instruction::SkipIfNoKey { x })
        } else {
            None
        }
    } else if h3 == 0x0 && h4 == 0x7 {
        Some(Instruction::ReadDelay { x })
    } else if h3 == 0x0 && h4 == 0xA {
        Some(Instruction::AwaitKey { x })
    } else if h3 == 0x1 && h4 == 0x5 {
        Some(Instruction::SetDelay { x })
    } else if h3 == 0x1 && h4 == 0x8 {
        Some(Instruction::SetSound { x })
    } else if h3 == 0x1 && h4 == 0xE {
        Some(Instruction::AddIndex { x })
    } else if h3 == 0x2 && h4 == 0x9 {
        Some(Instruction::FontAddress { x })
    } else if h3 == 0x3 && h4 == 0x3 {
        Some(Instruction::StoreDigits { x })
    } else if h3 == 0x5 && h4 == 0x5 {
        Some(Instruction::StoreRegisters { x })
    } else if h3 == 0x6 && h4 == 0x5 {
        Some(Instruction::LoadRegisters { x })
    } else {
        None
    }
}

/// Decodes the instruction whose nibbles are `h1 h2 h3 h4`.
pub fn decode(h1: u8, h2: u8, h3: u8, h4: u8) -> (decoded: Option<Instruction>)
    ensures
        decoded == spec_decode(h1, h2, h3, h4),
        decoded matches Some(instruction) ==> instruction.wf(),
{
    if h1 >= 16 || h2 >= 16 || h3 >= 16 || h4 >= 16 {
        return None;
    }
    let x = h2;
    let y = h3;
    match (h1, h2, h3, h4) {
        (0x0, 0x0, 0xE, 0x0) => Some(Instruction::ClearScreen),
        (0x0, 0x0, 0xE, 0xE) => Some(Instruction::Return),
        (0x1, _, _, _) => Some(Instruction::Jump { addr: address_of(h2, h3, h4) }),
        (0x2, _, _, _) => Some(Instruction::Call { addr: address_of(h2, h3, h4) }),
        (0x3, _, _, _) => Some(Instruction::SkipIfEqual { x, value: value_of(h3, h4) }),
        (0x4, _, _, _) => Some(Instruction::SkipIfNotEqual { x, value: value_of(h3, h4) }),
        (0x5, _, _, 0x0) => Some(Instruction::SkipIfSame { x, y }),
        (0x6, _, _, _) => Some(Instruction::Load { x, value: value_of(h3, h4) }),
        (0x7, _, _, _) => Some(Instruction::AddImmediate { x, value: value_of(h3, h4) }),
        (0x8, _, _, 0x0) => Some(Instruction::Move { x, y }),
        (0x8, _, _, 0x1) => Some(Instruction::Or { x, y }),
        (0x8, _, _, 0x2) => Some(Instruction::And { x, y }),
        (0x8, _, _, 0x3) => Some(Instruction::Xor { x, y }),
        (0x8, _, _, 0x4) => Some(Instruction::Add { x, y }),
        (0x8, _, _, 0x5) => Some(Instruction::Subtract { x, y }),
        (0x8, _, _, 0x6) => Some(Instruction::ShiftRight { x }),
        (0x8, _, _, 0x7) => Some(Instruction::SubtractFrom { x, y }),
        (0x8, _, _, 0xE) => Some(Instruction::ShiftLeft { x }),
        (0x9, _, _, 0x0) => Some(Instruction::SkipIfDifferent { x, y }),
        (0xA, _, _, _) => Some(Instruction::LoadIndex { addr: address_of(h2, h3, h4) }),
        (0xB, _, _, _) => Some(Instruction::JumpOffset { addr: address_of(h2, h3, h4) }),
        (0xC, _, _, _) => Some(Instruction::Random { x, value: value_of(h3, h4) }),
        (0xD, _, _, _) => Some(Instruction::Draw { x, y, rows: h4 }),
        (0xE, _, 0x9, 0xE) => Some(Instruction::SkipIfKey { x }),
        (0xE, _, 0xA, 0x1) => Some(Instruction::SkipIfNoKey { x }),
        (0xF, _, 0x0, 0x7) => Some(Instruction::ReadDelay { x }),
        (0xF, _, 0x0, 0xA) => Some(Instruction::AwaitKey { x }),
        (0xF, _, 0x1, 0x5) => Some(Instruction::SetDelay { x }),
        (0xF, _, 0x1, 0x8) => Some(Instruction::SetSound { x }),
        (0xF, _, 0x1, 0xE) => Some(Instruction::AddIndex { x }),
        (0xF, _, 0x2, 0x9) => Some(Instruction::FontAddress { x }),
        (0xF, _, 0x3, 0x3) => Some(Instruction::StoreDigits { x }),
        (0xF, _, 0x5, 0x5) => Some(Instruction::StoreRegisters { x }),
        (0xF, _, 0x6, 0x5) => Some(Instruction::LoadRegisters { x }),
        _ => None,
    }
}

/// Decodes a sixteen-bit instruction word, most significant nibble first.
pub fn decode_opcode(opcode: u16) -> (decoded: Option<Instruction>)
    ensures
        decoded == spec_decode(
            (opcode / 0x1000) as u8,
            (opcode / 0x100 % 0x10) as u8,
            (opcode / 0x10 % 0x10) as u8,
            (opcode % 0x10) as u8,
        ),
        decoded matches Some(instruction) ==> instruction.wf(),
{
    decode(
        (opcode / 0x1000) as u8,
        (opcode / 0x100 % 0x10) as u8,
        (opcode / 0x10 % 0x10) as u8,
        (opcode % 0x10) as u8,
    )
}

/// Whatever a word decodes to is well formed: its registers are below
/// 16, its address below 4096, its sprite height below 16.
pub proof fn lemma_decoded_is_wf(h1: u8, h2: u8, h3: u8, h4: u8)
    ensures
        spec_decode(h1, h2, h3, h4) matches Some(instruction) ==> instruction.wf(),
{
}

} // verus!
