//! Operation codes of the byte code.
use vstd::prelude::*;

use crate::assembler::token::{keyword, TokenType};
use crate::text::{concat, push_char};
use crate::word::{from_be_bytes, to_be_bytes, word_bytes, word_value};

verus! {

/// The operation of an instruction. The first word of an instruction holds
/// its value (see `opcode_value`).
#[derive(Clone, Copy, Debug, PartialEq, Eq, Structural)]
pub enum OpCode {
    // Data movement.
    LoadString,
    LoadContent,
    LoadImmediate,
    Move,
    // Control flow.
    BranchEqual,
    BranchLessEqual,
    BranchLess,
    BranchGreaterEqual,
    BranchGreater,
    Exit,
    // I/O.
    Print,
    PrintLine,
    // Generative operations.
    Inference,
    // Guardrails operations.
    Evaluate,
    Similarity,
    // Context operations.
    ContextPush,
    ContextPop,
    ContextDrop,
    MoveContext,
    // Arithmetic operations.
    SubtractImmediate,
    AddImmediate,
    // Control flow.
    BranchNotEqual,
    // I/O.
    PrintContext,
    // Line operations.
    ReadLine,
    CountLines,
    // Misc.
    NoOp,
}

/// The number that stands for an operation in the byte code.
pub open spec fn opcode_value(op: OpCode) -> u32 {
    match op {
        OpCode::LoadString => 0x00,
        OpCode::LoadContent => 0x01,
        OpCode::LoadImmediate => 0x02,
        OpCode::Move => 0x03,
        OpCode::BranchEqual => 0x04,
        OpCode::BranchLessEqual => 0x05,
        OpCode::BranchLess => 0x06,
        OpCode::BranchGreaterEqual => 0x07,
        OpCode::BranchGreater => 0x08,
        OpCode::Exit => 0x09,
        OpCode::Print => 0x0A,
        OpCode::PrintLine => 0x0B,
        OpCode::Inference => 0x0C,
        OpCode::Evaluate => 0x0D,
        OpCode::Similarity => 0x0E,
        OpCode::ContextPush => 0x0F,
        OpCode::ContextPop => 0x10,
        OpCode::ContextDrop => 0x11,
        OpCode::MoveContext => 0x12,
        OpCode::SubtractImmediate => 0x13,
        OpCode::AddImmediate => 0x14,
        OpCode::BranchNotEqual => 0x15,
        OpCode::PrintContext => 0x16,
        OpCode::ReadLine => 0x17,
        OpCode::CountLines => 0x18,
        OpCode::NoOp => 0xFF,
    }
}

/// The operation that a number stands for, if any.
pub open spec fn opcode_of(v: u32) -> Option<OpCode> {
    if v <= 0x18 {
        Some(
            if v == 0x00 {
                OpCode::LoadString
            } else if v == 0x01 {
                OpCode::LoadContent
            } else if v == 0x02 {
                OpCode::LoadImmediate
            } else if v == 0x03 {
                OpCode::Move
            } else if v == 0x04 {
                OpCode::BranchEqual
            } else if v == 0x05 {
                OpCode::BranchLessEqual
            } else if v == 0x06 {
                OpCode::BranchLess
            } else if v == 0x07 {
                OpCode::BranchGreaterEqual
            } else if v == 0x08 {
                OpCode::BranchGreater
            } else if v == 0x09 {
                OpCode::Exit
            } else if v == 0x0A {
                OpCode::Print
            } else if v == 0x0B {
                OpCode::PrintLine
            } else if v == 0x0C {
                OpCode::Inference
            } else if v == 0x0D {
                OpCode::Evaluate
            } else if v == 0x0E {
                OpCode::Similarity
            } else if v == 0x0F {
                OpCode::ContextPush
            } else if v == 0x10 {
                OpCode::ContextPop
            } else if v == 0x11 {
                OpCode::ContextDrop
            } else if v == 0x12 {
                OpCode::MoveContext
            } else if v == 0x13 {
                OpCode::SubtractImmediate
            } else if v == 0x14 {
                OpCode::AddImmediate
            } else if v == 0x15 {
                OpCode::BranchNotEqual
            } else if v == 0x16 {
                OpCode::PrintContext
            } else if v == 0x17 {
                OpCode::ReadLine
            } else {
                OpCode::CountLines
            },
        )
    } else if v == 0xFF {
        Some(OpCode::NoOp)
    } else {
        None
    }
}

/// Every operation is found again from its number, and only from it.
pub proof fn lemma_opcode_roundtrip(op: OpCode, v: u32)
    ensures
        opcode_of(opcode_value(op)) == Some(op),
        opcode_of(v) == Some(op) ==> opcode_value(op) == v,
{
}

/// The operation that a keyword token assembles to; other tokens give `NoOp`.
pub open spec fn opcode_for(t: TokenType) -> OpCode {
    match t {
        TokenType::LoadString => OpCode::LoadString,
        TokenType::LoadImmediate => OpCode::LoadImmediate,
        TokenType::LoadContent => OpCode::LoadContent,
        TokenType::Move => OpCode::Move,
        TokenType::BranchEqual => OpCode::BranchEqual,
        TokenType::BranchLessEqual => OpCode::BranchLessEqual,
        TokenType::BranchLess => OpCode::BranchLess,
        TokenType::BranchGreaterEqual => OpCode::BranchGreaterEqual,
        TokenType::BranchGreater => OpCode::BranchGreater,
        TokenType::BranchNotEqual => OpCode::BranchNotEqual,
        TokenType::Exit => OpCode::Exit,
        TokenType::Print => OpCode::Print,
        TokenType::PrintLine => OpCode::PrintLine,
        TokenType::PrintContext => OpCode::PrintContext,
        TokenType::Inference => OpCode::Inference,
        TokenType::Evaluate => OpCode::Evaluate,
        TokenType::Similarity => OpCode::Similarity,
        TokenType::ContextPush => OpCode::ContextPush,
        TokenType::ContextPop => OpCode::ContextPop,
        TokenType::ContextDrop => OpCode::ContextDrop,
        TokenType::MoveContext => OpCode::MoveContext,
        TokenType::AddImmediate => OpCode::AddImmediate,
        TokenType::SubtractImmediate => OpCode::SubtractImmediate,
        TokenType::ReadLine => OpCode::ReadLine,
        TokenType::CountLines => OpCode::CountLines,
        _ => OpCode::NoOp,
    }
}

/// The upper-case hexadecimal digit of `d` (below 16).
pub open spec fn hex_digit(d: nat) -> char {
    if d < 10 {
        ((d + 48) as u32) as char
    } else {
        ((d + 55) as u32) as char
    }
}

/// The upper-case hexadecimal notation of `n`, with leading zeros up to
/// `min_digits` digits.
pub open spec fn hex(n: nat, min_digits: nat) -> Seq<char>
    decreases n, min_digits,
{
    if n >= 16 || min_digits > 1 {
        hex(
            n / 16,
            if min_digits > 1 {
                (min_digits - 1) as nat
            } else {
                0
            },
        ).push(hex_digit(n % 16))
    } else {
        seq![hex_digit(n % 16)]
    }
}

/// Appends `n` in upper-case hexadecimal, with at least `min_digits` digits.
fn push_hex(s: &mut String, n: u32, min_digits: u32)
    ensures
        final(s)@ == old(s)@ + hex(n as nat, min_digits as nat),
    decreases n, min_digits,
{
    let ghost start = s@;
    if n >= 16 || min_digits > 1 {
        let next_min = if min_digits > 1 {
            min_digits - 1
        } else {
            0
        };
        push_hex(s, n / 16, next_min);
    }
    let d = (n % 16) as u8;
    if d < 10 {
        push_char(s, (d + 48) as char);
    } else {
        push_char(s, (d + 55) as char);
    }
    assert(s@ =~= start + hex(n as nat, min_digits as nat));
}

impl OpCode {
    /// The number of the operation.
    pub fn value(self) -> (v: u32)
        ensures
            v == opcode_value(self),
    {
        match self {
            OpCode::LoadString => 0x00,
            OpCode::LoadContent => 0x01,
            OpCode::LoadImmediate => 0x02,
            OpCode::Move => 0x03,
            OpCode::BranchEqual => 0x04,
            OpCode::BranchLessEqual => 0x05,
            OpCode::BranchLess => 0x06,
            OpCode::BranchGreaterEqual => 0x07,
            OpCode::BranchGreater => 0x08,
            OpCode::Exit => 0x09,
            OpCode::Print => 0x0A,
            OpCode::PrintLine => 0x0B,
            OpCode::Inference => 0x0C,
            OpCode::Evaluate => 0x0D,
            OpCode::Similarity => 0x0E,
            OpCode::ContextPush => 0x0F,
            OpCode::ContextPop => 0x10,
            OpCode::ContextDrop => 0x11,
            OpCode::MoveContext => 0x12,
            OpCode::SubtractImmediate => 0x13,
            OpCode::AddImmediate => 0x14,
            OpCode::BranchNotEqual => 0x15,
            OpCode::PrintContext => 0x16,
            OpCode::ReadLine => 0x17,
            OpCode::CountLines => 0x18,
            OpCode::NoOp => 0xFF,
        }
    }

    /// The four big-endian bytes of the operation's number.
    pub fn to_be_bytes(self) -> (b: [u8; 4])
        ensures
            b@ == word_bytes(opcode_value(self)),
    {
        to_be_bytes(self.value())
    }

    /// The operation that a number stands for; an error names unknown numbers.
    pub fn try_from_u32(value: u32) -> (r: Result<OpCode, String>)
        ensures
            r is Ok <==> opcode_of(value) is Some,
            r matches Ok(op) ==> opcode_of(value) == Some(op),
            r matches Err(m) ==> m@ == "Unknown opcode value: 0x"@ + hex(value as nat, 2),
    {
        if value <= 0x18 {
            let op = if value == 0x00 {
                OpCode::LoadString
            } else if value == 0x01 {
                OpCode::LoadContent
            } else if value == 0x02 {
                OpCode::LoadImmediate
            } else if value == 0x03 {
                OpCode::Move
            } else if value == 0x04 {
                OpCode::BranchEqual
            } else if value == 0x05 {
                OpCode::BranchLessEqual
            } else if value == 0x06 {
                OpCode::BranchLess
            } else if value == 0x07 {
                OpCode::BranchGreaterEqual
            } else if value == 0x08 {
                OpCode::BranchGreater
            } else if value == 0x09 {
                OpCode::Exit
            } else if value == 0x0A {
                OpCode::Print
            } else if value == 0x0B {
                OpCode::PrintLine
            } else if value == 0x0C {
                OpCode::Inference
            } else if value == 0x0D {
                OpCode::Evaluate
            } else if value == 0x0E {
                OpCode::Similarity
            } else if value == 0x0F {
                OpCode::ContextPush
            } else if value == 0x10 {
                OpCode::ContextPop
            } else if value == 0x11 {
                OpCode::ContextDrop
            } else if value == 0x12 {
                OpCode::MoveContext
            } else if value == 0x13 {
                OpCode::SubtractImmediate
            } else if value == 0x14 {
                OpCode::AddImmediate
            } else if value == 0x15 {
                OpCode::BranchNotEqual
            } else if value == 0x16 {
                OpCode::PrintContext
            } else if value == 0x17 {
                OpCode::ReadLine
            } else {
                OpCode::CountLines
            };
            Ok(op)
        } else if value == 0xFF {
            Ok(OpCode::NoOp)
        } else {
            let mut message = concat("Unknown opcode value: 0x", "");
            proof {
                reveal_strlit("");
                assert(message@ =~= "Unknown opcode value: 0x"@);
            }
            push_hex(&mut message, value, 2);
            Err(message)
        }
    }

    /// The operation whose number four big-endian bytes hold.
    pub fn from_be_bytes(bytes: [u8; 4]) -> (r: Result<OpCode, String>)
        ensures
            r is Ok <==> opcode_of(word_value(bytes@)) is Some,
            r matches Ok(op) ==> opcode_of(word_value(bytes@)) == Some(op),
            r matches Err(m) ==> m@ == "Unknown opcode value: 0x"@ + hex(word_value(bytes@) as nat, 2),
    {
        let value = from_be_bytes(bytes);
        OpCode::try_from_u32(value)
    }

    /// The operation that a keyword token assembles to.
    pub fn from_token_type(t: TokenType) -> (op: OpCode)
        ensures
            op == opcode_for(t),
    {
        match t {
            TokenType::LoadString => OpCode::LoadString,
            TokenType::LoadImmediate => OpCode::LoadImmediate,
            TokenType::LoadContent => OpCode::LoadContent,
            TokenType::Move => OpCode::Move,
            TokenType::BranchEqual => OpCode::BranchEqual,
            TokenType::BranchLessEqual => OpCode::BranchLessEqual,
            TokenType::BranchLess => OpCode::BranchLess,
            TokenType::BranchGreaterEqual => OpCode::BranchGreaterEqual,
            TokenType::BranchGreater => OpCode::BranchGreater,
            TokenType::BranchNotEqual => OpCode::BranchNotEqual,
            TokenType::Exit => OpCode::Exit,
            TokenType::Print => OpCode::Print,
            TokenType::PrintLine => OpCode::PrintLine,
            TokenType::PrintContext => OpCode::PrintContext,
            TokenType::Inference => OpCode::Inference,
            TokenType::Evaluate => OpCode::Evaluate,
            TokenType::Similarity => OpCode::Similarity,
            TokenType::ContextPush => OpCode::ContextPush,
            TokenType::ContextPop => OpCode::ContextPop,
            TokenType::ContextDrop => OpCode::ContextDrop,
            TokenType::MoveContext => OpCode::MoveContext,
            TokenType::AddImmediate => OpCode::AddImmediate,
            TokenType::SubtractImmediate => OpCode::SubtractImmediate,
            TokenType::ReadLine => OpCode::ReadLine,
            TokenType::CountLines => OpCode::CountLines,
            _ => OpCode::NoOp,
        }
    }
}

} // verus!

verus! {

/// Different keywords name different instructions, and every keyword names
/// an instruction (one that assembles to an operation, not `NoOp`).
pub proof fn lemma_keywords_distinct(w1: Seq<u8>, w2: Seq<u8>)
    requires
        keyword(w1) is Some,
        keyword(w1) == keyword(w2),
    ensures
        w1 == w2,
        opcode_for(keyword(w1).unwrap()) != OpCode::NoOp,
{
}

} // verus!
