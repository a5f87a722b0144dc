//! Decoding one bytecode instruction into a structured value.
//!
//! The high nibble of a byte is the opcode; the low nibble carries the
//! operands. A call instruction's target fingerprint is decoded by scanning
//! *backward* from the call opcode's own position, since the fingerprint's
//! encoded bytes precede the opcode in the stream.

use crate::blockpattern::{bwd_fingerprint, BlockPattern};
use vstd::pervasive::unreached;
use vstd::prelude::*;

verus! {

/// One of the four registers, numbered 0 through 3.
#[derive(Debug, Clone, Copy, PartialEq, Eq, Hash, Structural)]
pub struct RegisterId(pub u8);

/// A decoded bytecode instruction.
#[derive(Debug, Clone, Copy, PartialEq, Eq, Structural)]
pub enum Instruction {
    /// Transfers control to the block matching the carried fingerprint.
    Call(BlockPattern),
    /// Returns from the current block.
    Return,
    /// Conditional on the given register.
    If(RegisterId),
    /// Repeats, counted by the given register.
    Repeat(RegisterId),
    /// Bitwise negation of the given register.
    Not(RegisterId),
    /// Pushes the given register.
    Push(RegisterId),
    /// Pops into the given register.
    Pop(RegisterId),
    /// Increments the given register.
    Inc(RegisterId),
    /// Decrements the given register.
    Dec(RegisterId),
    /// Stores through the register pair.
    Store(RegisterId, RegisterId),
    /// Loads through the register pair.
    Load(RegisterId, RegisterId),
    /// Adds the register pair.
    Add(RegisterId, RegisterId),
    /// Subtracts the register pair.
    Sub(RegisterId, RegisterId),
    /// Multiplies the register pair.
    Mul(RegisterId, RegisterId),
    /// Divides the register pair.
    Div(RegisterId, RegisterId),
    /// Compares the register pair for equality.
    Eq(RegisterId, RegisterId),
    /// Compares the register pair by order.
    Gt(RegisterId, RegisterId),
    /// Bitwise and of the register pair.
    And(RegisterId, RegisterId),
    /// Bitwise or of the register pair.
    Or(RegisterId, RegisterId),
    /// Bitwise exclusive or of the register pair.
    Xor(RegisterId, RegisterId),
    /// Reserved two-register operation.
    Unknown0(RegisterId, RegisterId),
    /// Reserved two-register operation.
    Unknown1(RegisterId, RegisterId),
}

/// The byte at `index` decodes to an instruction: it is in bounds and is
/// neither a block delimiter (opcode 0, operand 0), a value instruction
/// (opcode 0, operand 3), nor a pattern byte (opcode 15), none of which
/// stand for a decodable instruction.
pub open spec fn decodable(data: Seq<u8>, index: int) -> bool {
    &&& 0 <= index < data.len()
    &&& data[index] != 0
    &&& data[index] != 3
    &&& data[index] >> 4u8 != 15
}

/// The instruction encoded by the byte at `index` of `data`, with a call's
/// fingerprint decoded backward from `index`.
pub open spec fn decode_spec(data: Seq<u8>, index: int) -> Instruction {
    let bytecode = data[index];
    let opcode = bytecode >> 4u8;
    let operand = bytecode & 0x0f;
    let reg = RegisterId(operand & 0x03);
    let r0 = RegisterId((operand & 0x0c) >> 2u8);
    let r1 = RegisterId(operand & 0x03);
    if opcode == 0 {
        if operand == 1 {
            Instruction::Call(BlockPattern { value: bwd_fingerprint(data, index) })
        } else if operand == 2 {
            Instruction::Return
        } else if operand <= 7 {
            Instruction::If(reg)
        } else if operand <= 11 {
            Instruction::Repeat(reg)
        } else {
            Instruction::Not(reg)
        }
    } else if opcode == 1 {
        if operand <= 3 {
            Instruction::Push(reg)
        } else if operand <= 7 {
            Instruction::Pop(reg)
        } else if operand <= 11 {
            Instruction::Inc(reg)
        } else {
            Instruction::Dec(reg)
        }
    } else if opcode == 2 {
        Instruction::Store(r0, r1)
    } else if opcode == 3 {
        Instruction::Load(r0, r1)
    } else if opcode == 4 {
        Instruction::Add(r0, r1)
    } else if opcode == 5 {
        Instruction::Sub(r0, r1)
    } else if opcode == 6 {
        Instruction::Mul(r0, r1)
    } else if opcode == 7 {
        Instruction::Div(r0, r1)
    } else if opcode == 8 {
        Instruction::Eq(r0, r1)
    } else if opcode == 9 {
        Instruction::Gt(r0, r1)
    } else if opcode == 10 {
        Instruction::And(r0, r1)
    } else if opcode == 11 {
        Instruction::Or(r0, r1)
    } else if opcode == 12 {
        Instruction::Xor(r0, r1)
    } else if opcode == 13 {
        Instruction::Unknown0(r0, r1)
    } else {
        Instruction::Unknown1(r0, r1)
    }
}

impl Instruction {
    /// Decodes the instruction at `index` of `slice`. A call instruction's
    /// fingerprint is read by scanning backward from the opcode's position.
    pub fn decode(slice: &[u8], index: usize) -> (r: Instruction)
        requires
            decodable(slice@, index as int),
        ensures
            r == decode_spec(slice@, index as int),
    {
        let bytecode = slice[index];
        let opcode = bytecode >> 4;
        let operand = bytecode & 0x0f;
        let reg = RegisterId(operand & 0x03);
        let r0 = RegisterId((operand & 0x0c) >> 2);
        let r1 = RegisterId(operand & 0x03);
        proof {
            assert(bytecode >> 4u8 <= 15 && (bytecode >> 4u8 == 0 ==> (bytecode & 0x0f)
                == bytecode)) by (bit_vector);
        }
        if opcode == 0 {
            if operand == 1 {
                Instruction::Call(BlockPattern::decode_backward(slice, index))
            } else if operand == 2 {
                Instruction::Return
            } else if operand >= 4 && operand <= 7 {
                Instruction::If(reg)
            } else if operand >= 8 && operand <= 11 {
                Instruction::Repeat(reg)
            } else if operand >= 12 {
                Instruction::Not(reg)
            } else {
                unreached()
            }
        } else if opcode == 1 {
            if operand <= 3 {
                Instruction::Push(reg)
            } else if operand <= 7 {
                Instruction::Pop(reg)
            } else if operand <= 11 {
                Instruction::Inc(reg)
            } else {
                Instruction::Dec(reg)
            }
        } else if opcode == 2 {
            Instruction::Store(r0, r1)
        } else if opcode == 3 {
            Instruction::Load(r0, r1)
        } else if opcode == 4 {
            Instruction::Add(r0, r1)
        } else if opcode == 5 {
            Instruction::Sub(r0, r1)
        } else if opcode == 6 {
            Instruction::Mul(r0, r1)
        } else if opcode == 7 {
            Instruction::Div(r0, r1)
        } else if opcode == 8 {
            Instruction::Eq(r0, r1)
        } else if opcode == 9 {
            Instruction::Gt(r0, r1)
        } else if opcode == 10 {
            Instruction::And(r0, r1)
        } else if opcode == 11 {
            Instruction::Or(r0, r1)
        } else if opcode == 12 {
            Instruction::Xor(r0, r1)
        } else if opcode == 13 {
            Instruction::Unknown0(r0, r1)
        } else if opcode == 14 {
            Instruction::Unknown1(r0, r1)
        } else {
            unreached()
        }
    }
}

} // verus!
