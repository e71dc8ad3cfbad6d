//! The instruction set.
use vstd::prelude::*;

verus! {

/// One instruction tag. The tags are numbered from 0 in the order written
/// here; that number is the tag's byte in a chunk.
#[derive(Debug, Clone, Copy, PartialEq, Eq, Structural)]
pub enum OpCode {
    /// Push the constant whose index follows.
    OpConstant,
    /// Push nil.
    OpNil,
    /// Push true.
    OpTrue,
    /// Push false.
    OpFalse,
    /// Pop two values, push their sum, or their joined text if one is a string.
    OpAdd,
    /// Pop two values, push their difference.
    OpSubtract,
    /// Pop two values, push their product.
    OpMultiply,
    /// Pop two values, push their quotient.
    OpDivide,
    /// Pop two values, push the remainder.
    OpModulo,
    /// Pop a value, push its negation.
    OpNegate,
    /// Pop two values, push whether they are equal.
    OpEqual,
    /// Pop two values, push whether the left is greater.
    OpGreater,
    /// Pop two values, push whether the left is less.
    OpLess,
    /// Pop two values, push whether the left is greater or equal.
    OpGreaterEqual,
    /// Pop two values, push whether the left is less or equal.
    OpLessEqual,
    /// Pop two values, push whether they differ.
    OpNotEqual,
    /// Pop a value, push the negation of its truthiness.
    OpNot,
    /// Logical and.
    OpAnd,
    /// Logical or.
    OpOr,
    /// Pop a value into the global whose name constant follows.
    OpDefineGlobal,
    /// Push the global whose name constant follows.
    OpGetGlobal,
    /// Copy the top value into the global whose name constant follows.
    OpSetGlobal,
    /// Push the stack slot whose index follows.
    OpGetLocal,
    /// Copy the top value into the stack slot whose index follows.
    OpSetLocal,
    /// Jump forward by the offset that follows.
    OpJump,
    /// Jump forward by the offset that follows if the top value is not truthy.
    OpJumpIfFalse,
    /// Jump backward by the offset that follows.
    OpLoop,
    /// Call a function.
    OpCall,
    /// End the run with the top value.
    OpReturn,
    /// Pop the top value.
    OpPop,
    /// Duplicate the top value.
    OpDup,
    /// Swap the top two values.
    OpSwap,
    /// Pop the top value and show it.
    OpPrint,
    /// Pop two values, push their joined text.
    OpConcat,
    /// Marks the start of a loop.
    OpLoopStart,
    /// Marks the end of a loop.
    OpLoopEnd,
}

/// The number of instruction tags.
pub const OPCODE_COUNT: u8 = 36;

impl OpCode {
    /// The byte that stands for the tag.
    pub open spec fn byte(self) -> u8 {
        match self {
            OpCode::OpConstant => 0,
            OpCode::OpNil => 1,
            OpCode::OpTrue => 2,
            OpCode::OpFalse => 3,
            OpCode::OpAdd => 4,
            OpCode::OpSubtract => 5,
            OpCode::OpMultiply => 6,
            OpCode::OpDivide => 7,
            OpCode::OpModulo => 8,
            OpCode::OpNegate => 9,
            OpCode::OpEqual => 10,
            OpCode::OpGreater => 11,
            OpCode::OpLess => 12,
            OpCode::OpGreaterEqual => 13,
            OpCode::OpLessEqual => 14,
            OpCode::OpNotEqual => 15,
            OpCode::OpNot => 16,
            OpCode::OpAnd => 17,
            OpCode::OpOr => 18,
            OpCode::OpDefineGlobal => 19,
            OpCode::OpGetGlobal => 20,
            OpCode::OpSetGlobal => 21,
            OpCode::OpGetLocal => 22,
            OpCode::OpSetLocal => 23,
            OpCode::OpJump => 24,
            OpCode::OpJumpIfFalse => 25,
            OpCode::OpLoop => 26,
            OpCode::OpCall => 27,
            OpCode::OpReturn => 28,
            OpCode::OpPop => 29,
            OpCode::OpDup => 30,
            OpCode::OpSwap => 31,
            OpCode::OpPrint => 32,
            OpCode::OpConcat => 33,
            OpCode::OpLoopStart => 34,
            OpCode::OpLoopEnd => 35,
        }
    }

    /// The tag that a byte stands for, if it stands for one.
    pub open spec fn of_byte(byte: u8) -> Option<OpCode> {
        if byte >= OPCODE_COUNT {
            None
        } else {
            Some(choose|op: OpCode| op.byte() == byte)
        }
    }

    /// The name of the tag, as written in this file.
    pub open spec fn name_text(self) -> Seq<char> {
        match self {
            OpCode::OpConstant => "OpConstant"@,
            OpCode::OpNil => "OpNil"@,
            OpCode::OpTrue => "OpTrue"@,
            OpCode::OpFalse => "OpFalse"@,
            OpCode::OpAdd => "OpAdd"@,
            OpCode::OpSubtract => "OpSubtract"@,
            OpCode::OpMultiply => "OpMultiply"@,
            OpCode::OpDivide => "OpDivide"@,
            OpCode::OpModulo => "OpModulo"@,
            OpCode::OpNegate => "OpNegate"@,
            OpCode::OpEqual => "OpEqual"@,
            OpCode::OpGreater => "OpGreater"@,
            OpCode::OpLess => "OpLess"@,
            OpCode::OpGreaterEqual => "OpGreaterEqual"@,
            OpCode::OpLessEqual => "OpLessEqual"@,
            OpCode::OpNotEqual => "OpNotEqual"@,
            OpCode::OpNot => "OpNot"@,
            OpCode::OpAnd => "OpAnd"@,
            OpCode::OpOr => "OpOr"@,
            OpCode::OpDefineGlobal => "OpDefineGlobal"@,
            OpCode::OpGetGlobal => "OpGetGlobal"@,
            OpCode::OpSetGlobal => "OpSetGlobal"@,
            OpCode::OpGetLocal => "OpGetLocal"@,
            OpCode::OpSetLocal => "OpSetLocal"@,
            OpCode::OpJump => "OpJump"@,
            OpCode::OpJumpIfFalse => "OpJumpIfFalse"@,
            OpCode::OpLoop => "OpLoop"@,
            OpCode::OpCall => "OpCall"@,
            OpCode::OpReturn => "OpReturn"@,
            OpCode::OpPop => "OpPop"@,
            OpCode::OpDup => "OpDup"@,
            OpCode::OpSwap => "OpSwap"@,
            OpCode::OpPrint => "OpPrint"@,
            OpCode::OpConcat => "OpConcat"@,
            OpCode::OpLoopStart => "OpLoopStart"@,
            OpCode::OpLoopEnd => "OpLoopEnd"@,
        }
    }

    pub fn from_byte(byte: u8) -> (r: Option<OpCode>)
        ensures
            r == OpCode::of_byte(byte),
            r matches Some(op) ==> op.byte() == byte,
            r is None <==> byte >= OPCODE_COUNT,
    {
        let r = match byte {
            0 => Some(OpCode::OpConstant),
            1 => Some(OpCode::OpNil),
            2 => Some(OpCode::OpTrue),
            3 => Some(OpCode::OpFalse),
            4 => Some(OpCode::OpAdd),
            5 => Some(OpCode::OpSubtract),
            6 => Some(OpCode::OpMultiply),
            7 => Some(OpCode::OpDivide),
            8 => Some(OpCode::OpModulo),
            9 => Some(OpCode::OpNegate),
            10 => Some(OpCode::OpEqual),
            11 => Some(OpCode::OpGreater),
            12 => Some(OpCode::OpLess),
            13 => Some(OpCode::OpGreaterEqual),
            14 => Some(OpCode::OpLessEqual),
            15 => Some(OpCode::OpNotEqual),
            16 => Some(OpCode::OpNot),
            17 => Some(OpCode::OpAnd),
            18 => Some(OpCode::OpOr),
            19 => Some(OpCode::OpDefineGlobal),
            20 => Some(OpCode::OpGetGlobal),
            21 => Some(OpCode::OpSetGlobal),
            22 => Some(OpCode::OpGetLocal),
            23 => Some(OpCode::OpSetLocal),
            24 => Some(OpCode::OpJump),
            25 => Some(OpCode::OpJumpIfFalse),
            26 => Some(OpCode::OpLoop),
            27 => Some(OpCode::OpCall),
            28 => Some(OpCode::OpReturn),
            29 => Some(OpCode::OpPop),
            30 => Some(OpCode::OpDup),
            31 => Some(OpCode::OpSwap),
            32 => Some(OpCode::OpPrint),
            33 => Some(OpCode::OpConcat),
            34 => Some(OpCode::OpLoopStart),
            35 => Some(OpCode::OpLoopEnd),
            _ => None,
        };
        proof {
            if let Some(op) = r {
                let found = choose|other: OpCode| other.byte() == byte;
                assert(op.byte() == byte);
                assert(found.byte() == byte);
            }
        }
        r
    }

    pub fn to_byte(self) -> (byte: u8)
        ensures
            byte == self.byte(),
            byte < OPCODE_COUNT,
    {
        match self {
            OpCode::OpConstant => 0,
            OpCode::OpNil => 1,
            OpCode::OpTrue => 2,
            OpCode::OpFalse => 3,
            OpCode::OpAdd => 4,
            OpCode::OpSubtract => 5,
            OpCode::OpMultiply => 6,
            OpCode::OpDivide => 7,
            OpCode::OpModulo => 8,
            OpCode::OpNegate => 9,
            OpCode::OpEqual => 10,
            OpCode::OpGreater => 11,
            OpCode::OpLess => 12,
            OpCode::OpGreaterEqual => 13,
            OpCode::OpLessEqual => 14,
            OpCode::OpNotEqual => 15,
            OpCode::OpNot => 16,
            OpCode::OpAnd => 17,
            OpCode::OpOr => 18,
            OpCode::OpDefineGlobal => 19,
            OpCode::OpGetGlobal => 20,
            OpCode::OpSetGlobal => 21,
            OpCode::OpGetLocal => 22,
            OpCode::OpSetLocal => 23,
            OpCode::OpJump => 24,
            OpCode::OpJumpIfFalse => 25,
            OpCode::OpLoop => 26,
            OpCode::OpCall => 27,
            OpCode::OpReturn => 28,
            OpCode::OpPop => 29,
            OpCode::OpDup => 30,
            OpCode::OpSwap => 31,
            OpCode::OpPrint => 32,
            OpCode::OpConcat => 33,
            OpCode::OpLoopStart => 34,
            OpCode::OpLoopEnd => 35,
        }
    }

    /// The name of the tag.
    pub fn name(self) -> (s: &'static str)
        ensures
            s@ == self.name_text(),
    {
        match self {
            OpCode::OpConstant => "OpConstant",
            OpCode::OpNil => "OpNil",
            OpCode::OpTrue => "OpTrue",
            OpCode::OpFalse => "OpFalse",
            OpCode::OpAdd => "OpAdd",
            OpCode::OpSubtract => "OpSubtract",
            OpCode::OpMultiply => "OpMultiply",
            OpCode::OpDivide => "OpDivide",
            OpCode::OpModulo => "OpModulo",
            OpCode::OpNegate => "OpNegate",
            OpCode::OpEqual => "OpEqual",
            OpCode::OpGreater => "OpGreater",
            OpCode::OpLess => "OpLess",
            OpCode::OpGreaterEqual => "OpGreaterEqual",
            OpCode::OpLessEqual => "OpLessEqual",
            OpCode::OpNotEqual => "OpNotEqual",
            OpCode::OpNot => "OpNot",
            OpCode::OpAnd => "OpAnd",
            OpCode::OpOr => "OpOr",
            OpCode::OpDefineGlobal => "OpDefineGlobal",
            OpCode::OpGetGlobal => "OpGetGlobal",
            OpCode::OpSetGlobal => "OpSetGlobal",
            OpCode::OpGetLocal => "OpGetLocal",
            OpCode::OpSetLocal => "OpSetLocal",
            OpCode::OpJump => "OpJump",
            OpCode::OpJumpIfFalse => "OpJumpIfFalse",
            OpCode::OpLoop => "OpLoop",
            OpCode::OpCall => "OpCall",
            OpCode::OpReturn => "OpReturn",
            OpCode::OpPop => "OpPop",
            OpCode::OpDup => "OpDup",
            OpCode::OpSwap => "OpSwap",
            OpCode::OpPrint => "OpPrint",
            OpCode::OpConcat => "OpConcat",
            OpCode::OpLoopStart => "OpLoopStart",
            OpCode::OpLoopEnd => "OpLoopEnd",
        }
    }
}

/// Every tag is read back from its byte.
pub proof fn byte_round_trip(op: OpCode)
    ensures
        OpCode::of_byte(op.byte()) == Some(op),
{
    let found = choose|other: OpCode| other.byte() == op.byte();
    assert(found.byte() == op.byte());
}

} // verus!
