//! The instruction set: sixteen one-byte opcodes and their encoding.

use vstd::prelude::*;

verus! {

/// One of the sixteen opcodes the machine understands.  Each opcode is
/// zero-argument and acts on fixed registers (see `state::instruction_spec`
/// for the transition each one performs).
#[derive(Copy, Clone, PartialEq, Eq, Structural, Debug)]
pub enum Instruction {
    Add,
    Sub,
    Mov,
    Mul,
    Div,
    Jmp,
    Push,
    Pop,
    Exit,
    L0,
    L1,
    ShiftRR,
    ShiftRL,
    Lea,
    OwnAddress,
    Noop,
}

/// The byte that encodes each opcode.
pub open spec fn encode_spec(ins: Instruction) -> u8 {
    match ins {
        Instruction::Add => 0,
        Instruction::Sub => 1,
        Instruction::Mov => 2,
        Instruction::Mul => 3,
        Instruction::Div => 4,
        Instruction::Jmp => 5,
        Instruction::Push => 6,
        Instruction::Pop => 7,
        Instruction::Exit => 8,
        Instruction::L0 => 9,
        Instruction::L1 => 10,
        Instruction::ShiftRR => 11,
        Instruction::ShiftRL => 12,
        Instruction::Lea => 13,
        Instruction::OwnAddress => 14,
        Instruction::Noop => 15,
    }
}

/// The opcode a byte decodes to, or `None` for the 240 byte values that are
/// not in the instruction set.
pub open spec fn decode_spec(b: u8) -> Option<Instruction> {
    if b == 0 {
        Some(Instruction::Add)
    } else if b == 1 {
        Some(Instruction::Sub)
    } else if b == 2 {
        Some(Instruction::Mov)
    } else if b == 3 {
        Some(Instruction::Mul)
    } else if b == 4 {
        Some(Instruction::Div)
    } else if b == 5 {
        Some(Instruction::Jmp)
    } else if b == 6 {
        Some(Instruction::Push)
    } else if b == 7 {
        Some(Instruction::Pop)
    } else if b == 8 {
        Some(Instruction::Exit)
    } else if b == 9 {
        Some(Instruction::L0)
    } else if b == 10 {
        Some(Instruction::L1)
    } else if b == 11 {
        Some(Instruction::ShiftRR)
    } else if b == 12 {
        Some(Instruction::ShiftRL)
    } else if b == 13 {
        Some(Instruction::Lea)
    } else if b == 14 {
        Some(Instruction::OwnAddress)
    } else if b == 15 {
        Some(Instruction::Noop)
    } else {
        None
    }
}

impl Instruction {
    /// Decode a byte: every value 0 through 15 maps to its opcode, every
    /// other value is rejected.
    pub fn decode(b: u8) -> (r: Option<Instruction>)
        ensures
            r == decode_spec(b),
    {
        match b {
            0 => Some(Instruction::Add),
            1 => Some(Instruction::Sub),
            2 => Some(Instruction::Mov),
            3 => Some(Instruction::Mul),
            4 => Some(Instruction::Div),
            5 => Some(Instruction::Jmp),
            6 => Some(Instruction::Push),
            7 => Some(Instruction::Pop),
            8 => Some(Instruction::Exit),
            9 => Some(Instruction::L0),
            10 => Some(Instruction::L1),
            11 => Some(Instruction::ShiftRR),
            12 => Some(Instruction::ShiftRL),
            13 => Some(Instruction::Lea),
            14 => Some(Instruction::OwnAddress),
            15 => Some(Instruction::Noop),
            _ => None,
        }
    }

    /// Encode the opcode as its program byte; decoding the byte gives the
    /// opcode back.
    pub fn encode(self) -> (b: u8)
        ensures
            b == encode_spec(self),
            decode_spec(b) == Some(self),
    {
        match self {
            Instruction::Add => 0,
            Instruction::Sub => 1,
            Instruction::Mov => 2,
            Instruction::Mul => 3,
            Instruction::Div => 4,
            Instruction::Jmp => 5,
            Instruction::Push => 6,
            Instruction::Pop => 7,
            Instruction::Exit => 8,
            Instruction::L0 => 9,
            Instruction::L1 => 10,
            Instruction::ShiftRR => 11,
            Instruction::ShiftRL => 12,
            Instruction::Lea => 13,
            Instruction::OwnAddress => 14,
            Instruction::Noop => 15,
        }
    }
}

} // verus!
