//! Decoding of 16-bit instruction words into instructions.
use vstd::prelude::*;

verus! {

/// A decoded instruction. Register and key operands are 4-bit fields of the
/// instruction word; addresses are 12-bit fields.
#[derive(Debug, Clone, Copy, PartialEq, Eq, Structural)]
pub enum Opcode {
    ClearScreen,
    Return,
    Jump(u16),
    Call(u16),
    SkipEqualByte(usize, u8),
    SkipNotEqualByte(usize, u8),
    SkipEqual(usize, usize),
    LoadByte(usize, u8),
    AddByte(usize, u8),
    Load(usize, usize),
    Add(usize, usize),
    Or(usize, usize),
    And(usize, usize),
    Xor(usize, usize),
    Sub(usize, usize),
    SubN(usize, usize),
    ShiftRight(usize),
    ShiftLeft(usize),
    SkipNotEqual(usize, usize),
    LoadI(u16),
    JumpV0(u16),
    Random(usize, u8),
    Draw(usize, usize, u8),
    SkipKeyPress(usize),
    SkipKeyNotPress(usize),
    LoadDelayTimer(usize),
    LoadKeyPress(usize),
    LoadDelayTimerSet(usize),
    LoadSoundTimer(usize),
    AddI(usize),
    LoadFont(usize),
    LoadBCD(usize),
    StoreRegisters(usize),
    LoadRegisters(usize),
    Invalid(u16),
}

/// The top nibble of an instruction word, which selects its group.
pub open spec fn group_of(w: u16) -> int {
    w as int / 0x1000
}

/// The second nibble (conventionally `x`).
pub open spec fn x_of(w: u16) -> usize {
    (w as int / 0x100 % 0x10) as usize
}

/// The third nibble (conventionally `y`).
pub open spec fn y_of(w: u16) -> usize {
    (w as int / 0x10 % 0x10) as usize
}

/// The low nibble (conventionally `n`).
pub open spec fn n_of(w: u16) -> u8 {
    (w as int % 0x10) as u8
}

/// The low byte (conventionally `kk` or `nn`).
pub open spec fn nn_of(w: u16) -> u8 {
    (w as int % 0x100) as u8
}

/// The low twelve bits, an address (conventionally `nnn`).
pub open spec fn nnn_of(w: u16) -> u16 {
    (w as int % 0x1000) as u16
}

/// The instruction that the word `w` encodes.
pub open spec fn decode_spec(w: u16) -> Opcode {
    let x = x_of(w);
    let y = y_of(w);
    let n = n_of(w);
    let nn = nn_of(w);
    let nnn = nnn_of(w);
    let g = group_of(w);
    if g == 0x0 {
        if nnn == 0x0E0 {
            Opcode::ClearScreen
        } else if nnn == 0x0EE {
            Opcode::Return
        } else {
            Opcode::Invalid(w)
        }
    } else if g == 0x1 {
        Opcode::Jump(nnn)
    } else if g == 0x2 {
        Opcode::Call(nnn)
    } else if g == 0x3 {
        Opcode::SkipEqualByte(x, nn)
    } else if g == 0x4 {
        Opcode::SkipNotEqualByte(x, nn)
    } else if g == 0x5 {
        Opcode::SkipEqual(x, y)
    } else if g == 0x6 {
        Opcode::LoadByte(x, nn)
    } else if g == 0x7 {
        Opcode::AddByte(x, nn)
    } else if g == 0x8 {
        if n == 0x0 {
            Opcode::Load(x, y)
        } else if n == 0x1 {
            Opcode::Or(x, y)
        } else if n == 0x2 {
            Opcode::And(x, y)
        } else if n == 0x3 {
            Opcode::Xor(x, y)
        } else if n == 0x4 {
            Opcode::Add(x, y)
        } else if n == 0x5 {
            Opcode::Sub(x, y)
        } else if n == 0x6 {
            Opcode::ShiftRight(x)
        } else if n == 0x7 {
            Opcode::SubN(x, y)
        } else if n == 0xE {
            Opcode::ShiftLeft(x)
        } else {
            Opcode::Invalid(w)
        }
    } else if g == 0x9 {
        Opcode::SkipNotEqual(x, y)
    } else if g == 0xA {
        Opcode::LoadI(nnn)
    } else if g == 0xB {
        Opcode::JumpV0(nnn)
    } else if g == 0xC {
        Opcode::Random(x, nn)
    } else if g == 0xD {
        Opcode::Draw(x, y, n)
    } else if g == 0xE {
        if nn == 0x9E {
            Opcode::SkipKeyPress(x)
        } else if nn == 0xA1 {
            Opcode::SkipKeyNotPress(x)
        } else {
            Opcode::Invalid(w)
        }
    } else {
        if nn == 0x07 {
            Opcode::LoadDelayTimer(x)
        } else if nn == 0x0A {
            Opcode::LoadKeyPress(x)
        } else if nn == 0x15 {
            Opcode::LoadDelayTimerSet(x)
        } else if nn == 0x18 {
            Opcode::LoadSoundTimer(x)
        } else if nn == 0x1E {
            Opcode::AddI(x)
        } else if nn == 0x29 {
            Opcode::LoadFont(x)
        } else if nn == 0x33 {
            Opcode::LoadBCD(x)
        } else if nn == 0x55 {
            Opcode::StoreRegisters(x)
        } else if nn == 0x65 {
            Opcode::LoadRegisters(x)
        } else {
            Opcode::Invalid(w)
        }
    }
}

impl Opcode {
    /// Every operand lies in the range of the instruction field it came from:
    /// registers and keys below 16, heights below 16, addresses below 0x1000.
    pub open spec fn wf(self) -> bool {
        match self {
            Opcode::Jump(a) | Opcode::Call(a) | Opcode::LoadI(a) | Opcode::JumpV0(a) => a < 0x1000,
            Opcode::SkipEqualByte(x, _) | Opcode::SkipNotEqualByte(x, _) | Opcode::LoadByte(x, _)
            | Opcode::AddByte(x, _) | Opcode::Random(x, _) => x < 16,
            Opcode::SkipEqual(x, y) | Opcode::Load(x, y) | Opcode::Add(x, y) | Opcode::Or(x, y)
            | Opcode::And(x, y) | Opcode::Xor(x, y) | Opcode::Sub(x, y) | Opcode::SubN(x, y)
            | Opcode::SkipNotEqual(x, y) => x < 16 && y < 16,
            Opcode::Draw(x, y, n) => x < 16 && y < 16 && n < 16,
            Opcode::ShiftRight(x) | Opcode::ShiftLeft(x) | Opcode::SkipKeyPress(x)
            | Opcode::SkipKeyNotPress(x) | Opcode::LoadDelayTimer(x) | Opcode::LoadKeyPress(x)
            | Opcode::LoadDelayTimerSet(x) | Opcode::LoadSoundTimer(x) | Opcode::AddI(x)
            | Opcode::LoadFont(x) | Opcode::LoadBCD(x) | Opcode::StoreRegisters(x)
            | Opcode::LoadRegisters(x) => x < 16,
            _ => true,
        }
    }
}

/// Decodes one instruction word. Decoding never fails: a word that matches
/// no known form yields `Opcode::Invalid` carrying the word.
pub fn decode_opcode(op: u16) -> (r: Opcode)
    ensures
        r == decode_spec(op),
        r.wf(),
{
    let g: u16 = op / 0x1000;
    let x: usize = (op / 0x100 % 0x10) as usize;
    let y: usize = (op / 0x10 % 0x10) as usize;
    let n: u8 = (op % 0x10) as u8;
    let nn: u8 = (op % 0x100) as u8;
    let nnn: u16 = op % 0x1000;
    match g {
        0x0 => match nnn {
            0x0E0 => Opcode::ClearScreen,
            0x0EE => Opcode::Return,
            _ => Opcode::Invalid(op),
        },
        0x1 => Opcode::Jump(nnn),
        0x2 => Opcode::Call(nnn),
        0x3 => Opcode::SkipEqualByte(x, nn),
        0x4 => Opcode::SkipNotEqualByte(x, nn),
        0x5 => Opcode::SkipEqual(x, y),
        0x6 => Opcode::LoadByte(x, nn),
        0x7 => Opcode::AddByte(x, nn),
        0x8 => match n {
            0x0 => Opcode::Load(x, y),
            0x1 => Opcode::Or(x, y),
            0x2 => Opcode::And(x, y),
            0x3 => Opcode::Xor(x, y),
            0x4 => Opcode::Add(x, y),
            0x5 => Opcode::Sub(x, y),
            0x6 => Opcode::ShiftRight(x),
            0x7 => Opcode::SubN(x, y),
            0xE => Opcode::ShiftLeft(x),
            _ => Opcode::Invalid(op),
        },
        0x9 => Opcode::SkipNotEqual(x, y),
        0xA => Opcode::LoadI(nnn),
        0xB => Opcode::JumpV0(nnn),
        0xC => Opcode::Random(x, nn),
        0xD => Opcode::Draw(x, y, n),
        0xE => match nn {
            0x9E => Opcode::SkipKeyPress(x),
            0xA1 => Opcode::SkipKeyNotPress(x),
            _ => Opcode::Invalid(op),
        },
        _ => match nn {
            0x07 => Opcode::LoadDelayTimer(x),
            0x0A => Opcode::LoadKeyPress(x),
            0x15 => Opcode::LoadDelayTimerSet(x),
            0x18 => Opcode::LoadSoundTimer(x),
            0x1E => Opcode::AddI(x),
            0x29 => Opcode::LoadFont(x),
            0x33 => Opcode::LoadBCD(x),
            0x55 => Opcode::StoreRegisters(x),
            0x65 => Opcode::LoadRegisters(x),
            _ => Opcode::Invalid(op),
        },
    }
}

} // verus!
