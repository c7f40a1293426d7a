//! Turns the four words of a fetched instruction into an `Instruction`,
//! reading string operands from the data section.
use vstd::prelude::*;
use vstd::utf8::*;

use crate::assembler::opcode::{opcode_of, OpCode};
use crate::exception::{plain, wrapped, Exception};
use crate::processor::instruction::{
    AddImmediateInstruction, BranchInstruction, BranchType, ContextDropInstruction,
    ContextPopInstruction, ContextPushInstruction, CountLinesInstruction, EvaluateInstruction,
    ExitInstruction, InferenceInstruction, Instruction, LoadContentInstruction,
    LoadImmediateInstruction, LoadStringInstruction, MoveContextInstruction, MoveInstruction, Op,
    PrintContextInstruction, PrintInstruction, PrintLineInstruction, ReadLineInstruction,
    SimilarityInstruction, SubtractImmediateInstruction,
};
use crate::processor::memory::Memory;
use crate::processor::registers::Registers;
use crate::text::string_from_utf8;
use crate::word::{from_be_bytes, word_value};

verus! {

/// The values of the four words of an instruction.
pub open spec fn instruction_words(b: [[u8; 4]; 4]) -> Seq<u32> {
    seq![word_value(b@[0]@), word_value(b@[1]@), word_value(b@[2]@), word_value(b@[3]@)]
}

/// `rest` with `b` in front, if there is a `rest`.
pub open spec fn prepend(b: Seq<u8>, rest: Option<Seq<u8>>) -> Option<Seq<u8>> {
    match rest {
        Some(r) => Some(b + r),
        None => None,
    }
}

/// The bytes of the string stored from word `address` on: one byte per word,
/// up to a zero word. `None` when the memory ends first or a word does not
/// fit in a byte.
pub open spec fn stored_bytes(words: Seq<u32>, address: int) -> Option<Seq<u8>>
    decreases words.len() - address,
{
    if address < 0 || address >= words.len() {
        None
    } else if words[address] == 0 {
        Some(Seq::empty())
    } else if words[address] > 255 {
        None
    } else {
        prepend(seq![words[address] as u8], stored_bytes(words, address + 1))
    }
}

/// The string at offset `pointer` of the data section that starts at word
/// `data_start`: `None` when its bytes cannot be read or are not UTF-8.
pub open spec fn stored_string(words: Seq<u32>, data_start: int, pointer: u32) -> Option<Seq<char>> {
    match stored_bytes(words, data_start + pointer) {
        Some(b) => if valid_utf8(b) {
            Some(decode_utf8(b))
        } else {
            None
        },
        None => None,
    }
}

/// A branch of the given kind on the operand words.
pub open spec fn branch_op(kind: BranchType, w: Seq<u32>) -> Option<Op> {
    Some(Op::Branch { kind, rs1: w[1], rs2: w[2], target: w[3] })
}

/// What an instruction with operation `op` and words `w` decodes to; `None`
/// for `NoOp` and when a string operand cannot be read.
pub open spec fn decoded_with(words: Seq<u32>, data_start: int, op: OpCode, w: Seq<u32>) -> Option<Op> {
    match op {
        OpCode::LoadString => match stored_string(words, data_start, w[2]) {
            Some(t) => Some(Op::LoadString { rd: w[1], text: t }),
            None => None,
        },
        OpCode::LoadContent => match stored_string(words, data_start, w[2]) {
            Some(t) => Some(Op::LoadContent { rd: w[1], path: t }),
            None => None,
        },
        OpCode::LoadImmediate => Some(Op::LoadImmediate { rd: w[1], value: w[2] }),
        OpCode::Move => Some(Op::Move { rd: w[1], rs: w[2] }),
        OpCode::BranchEqual => branch_op(BranchType::Equal, w),
        OpCode::BranchLessEqual => branch_op(BranchType::LessEqual, w),
        OpCode::BranchLess => branch_op(BranchType::Less, w),
        OpCode::BranchGreaterEqual => branch_op(BranchType::GreaterEqual, w),
        OpCode::BranchGreater => branch_op(BranchType::Greater, w),
        OpCode::BranchNotEqual => branch_op(BranchType::NotEqual, w),
        OpCode::Exit => Some(Op::Exit),
        OpCode::Print => Some(Op::Print { rs: w[1] }),
        OpCode::PrintLine => Some(Op::PrintLine { rs: w[1] }),
        OpCode::PrintContext => Some(Op::PrintContext { rc: w[1] }),
        OpCode::ContextDrop => Some(Op::ContextDrop { rc: w[1] }),
        OpCode::ContextPush => match stored_string(words, data_start, w[3]) {
            Some(t) => Some(Op::ContextPush { rc: w[1], rs: w[2], role: t }),
            None => None,
        },
        OpCode::ContextPop => Some(Op::ContextPop { rd: w[1], rc: w[2] }),
        OpCode::MoveContext => Some(Op::MoveContext { rdc: w[1], rsc: w[2] }),
        OpCode::CountLines => Some(Op::CountLines { rd: w[1], rs: w[2] }),
        OpCode::Inference => Some(Op::Inference { rd: w[1], rs: w[2], rc: w[3] }),
        OpCode::Evaluate => Some(Op::Evaluate { rd: w[1], rs: w[2], rc: w[3] }),
        OpCode::Similarity => Some(Op::Similarity { rd: w[1], rs1: w[2], rs2: w[3] }),
        OpCode::ReadLine => Some(Op::ReadLine { rd: w[1], rs: w[2], rl: w[3] }),
        OpCode::AddImmediate => Some(Op::AddImmediate { rd: w[1], value: w[2] }),
        OpCode::SubtractImmediate => Some(Op::SubtractImmediate { rd: w[1], value: w[2] }),
        OpCode::NoOp => None,
    }
}

/// What the instruction words `w` decode to, with the data section starting
/// at word `data_start` of the memory `words`.
pub open spec fn decoded(words: Seq<u32>, data_start: int, w: Seq<u32>) -> Option<Op> {
    match opcode_of(w[0]) {
        Some(op) => decoded_with(words, data_start, op, w),
        None => None,
    }
}

/// Operations whose second operand is a register or an immediate word.
pub open spec fn immediate_group(op: OpCode) -> bool {
    ||| op == OpCode::LoadString
    ||| op == OpCode::LoadContent
    ||| op == OpCode::LoadImmediate
    ||| op == OpCode::Move
    ||| op == OpCode::AddImmediate
    ||| op == OpCode::SubtractImmediate
}

pub open spec fn branch_group(op: OpCode) -> bool {
    ||| op == OpCode::BranchEqual
    ||| op == OpCode::BranchLessEqual
    ||| op == OpCode::BranchLess
    ||| op == OpCode::BranchGreaterEqual
    ||| op == OpCode::BranchGreater
    ||| op == OpCode::BranchNotEqual
}

pub open spec fn single_register_group(op: OpCode) -> bool {
    ||| op == OpCode::Print
    ||| op == OpCode::PrintLine
    ||| op == OpCode::PrintContext
    ||| op == OpCode::ContextDrop
}

pub open spec fn double_register_group(op: OpCode) -> bool {
    ||| op == OpCode::ContextPop
    ||| op == OpCode::MoveContext
    ||| op == OpCode::CountLines
}

pub open spec fn triple_register_group(op: OpCode) -> bool {
    ||| op == OpCode::Inference
    ||| op == OpCode::Evaluate
    ||| op == OpCode::Similarity
    ||| op == OpCode::ReadLine
}

pub struct Decoder;

impl Decoder {
    fn op_code(bytes: &[u8; 4]) -> (r: Result<OpCode, Exception>)
        ensures
            r is Ok <==> opcode_of(word_value(bytes@)) is Some,
            r matches Ok(op) ==> opcode_of(word_value(bytes@)) == Some(op),
            r matches Err(e) ==> e is Decoder,
    {
        match OpCode::from_be_bytes(*bytes) {
            Ok(op) => Ok(op),
            Err(_) => Err(Exception::Decoder(plain("Failed to decode opcode."))),
        }
    }

    /// The string at offset `pointer` of the data section.
    fn read_data_string(memory: &Memory, registers: &Registers, pointer: u32) -> (r: Result<
        String,
        Exception,
    >)
        ensures
            r is Ok <==> stored_string(
                memory.words(),
                registers@.data_section_pointer as int,
                pointer,
            ) is Some,
            r matches Ok(s) ==> Some(s@) == stored_string(
                memory.words(),
                registers@.data_section_pointer as int,
                pointer,
            ),
            r matches Err(e) ==> e is Decoder,
    {
        let ghost words = memory.words();
        let ghost start = registers@.data_section_pointer + pointer;
        let data_start = registers.get_data_section_pointer();
        let mut address: usize = match data_start.checked_add(pointer as usize) {
            Some(a) => a,
            None => {
                let length = memory.length();
                assert(length < start);
                return Err(Exception::Decoder(plain("String address out of range.")));
            },
        };
        let length = memory.length();
        let mut bytes: Vec<u8> = Vec::new();
        assert(bytes@ + Seq::<u8>::empty() =~= Seq::<u8>::empty());
        loop
            invariant
                words == memory.words(),
                words.len() == length,
                start == registers@.data_section_pointer + pointer,
                start <= address,
                stored_bytes(words, start) == prepend(bytes@, stored_bytes(words, address as int)),
            decreases words.len() - address,
        {
            let word = match memory.read(address) {
                Ok(w) => *w,
                Err(e) => {
                    return Err(Exception::Decoder(wrapped("Failed to read a data string.", e)));
                },
            };
            let value = from_be_bytes(word);
            assert(value == words[address as int]);
            if value == 0 {
                assert(bytes@ + Seq::<u8>::empty() =~= bytes@);
                return match string_from_utf8(bytes) {
                    Some(s) => Ok(s),
                    None => Err(Exception::Decoder(plain("A data string is not valid UTF-8."))),
                };
            }
            if value > 255 {
                return Err(Exception::Decoder(plain("A data word does not fit in a byte.")));
            }
            let ghost before = bytes@;
            bytes.push(value as u8);
            proof {
                match stored_bytes(words, address + 1) {
                    Some(rest) => {
                        assert(before + (seq![value as u8] + rest) =~= bytes@ + rest);
                    },
                    None => {},
                }
            }
            address = address + 1;
        }
    }

    fn decode_immediate(
        memory: &Memory,
        registers: &Registers,
        op_code: OpCode,
        instruction_bytes: [[u8; 4]; 4],
    ) -> (r: Result<Instruction, Exception>)
        ensures
            r is Ok <==> immediate_group(op_code) && decoded_with(
                memory.words(),
                registers@.data_section_pointer as int,
                op_code,
                instruction_words(instruction_bytes),
            ) is Some,
            r matches Ok(i) ==> Some(i@) == decoded_with(
                memory.words(),
                registers@.data_section_pointer as int,
                op_code,
                instruction_words(instruction_bytes),
            ),
            r matches Err(e) ==> e is Decoder,
    {
        let register = from_be_bytes(instruction_bytes[1]);
        let operand = from_be_bytes(instruction_bytes[2]);
        match op_code {
            OpCode::LoadString => match Self::read_data_string(memory, registers, operand) {
                Ok(value) => Ok(
                    Instruction::LoadString(
                        LoadStringInstruction { destination_register: register, value },
                    ),
                ),
                Err(e) => Err(Exception::Decoder(wrapped("Failed to read a string operand.", e))),
            },
            OpCode::LoadContent => match Self::read_data_string(memory, registers, operand) {
                Ok(path) => Ok(
                    Instruction::LoadContent(
                        LoadContentInstruction { destination_register: register, path },
                    ),
                ),
                Err(e) => Err(Exception::Decoder(wrapped("Failed to read a path operand.", e))),
            },
            OpCode::LoadImmediate => Ok(
                Instruction::LoadImmediate(
                    LoadImmediateInstruction { destination_register: register, value: operand },
                ),
            ),
            OpCode::Move => Ok(
                Instruction::Move(
                    MoveInstruction { destination_register: register, source_register: operand },
                ),
            ),
            OpCode::AddImmediate => Ok(
                Instruction::AddImmediate(
                    AddImmediateInstruction { destination_register: register, value: operand },
                ),
            ),
            OpCode::SubtractImmediate => Ok(
                Instruction::SubtractImmediate(
                    SubtractImmediateInstruction { destination_register: register, value: operand },
                ),
            ),
            _ => Err(Exception::Decoder(plain("Failed to decode immediate instruction: invalid opcode."))),
        }
    }

    fn decode_branch(op_code: OpCode, instruction_bytes: [[u8; 4]; 4]) -> (r: Result<Instruction, Exception>)
        ensures
            r is Ok <==> branch_group(op_code),
            r matches Ok(i) ==> Some(i@) == decoded_with(
                Seq::empty(),
                0,
                op_code,
                instruction_words(instruction_bytes),
            ),
            r matches Err(e) ==> e is Decoder,
    {
        let source_register_1 = from_be_bytes(instruction_bytes[1]);
        let source_register_2 = from_be_bytes(instruction_bytes[2]);
        let instruction_pointer_jump_index = from_be_bytes(instruction_bytes[3]);
        let branch_type = match op_code {
            OpCode::BranchEqual => BranchType::Equal,
            OpCode::BranchLess => BranchType::Less,
            OpCode::BranchLessEqual => BranchType::LessEqual,
            OpCode::BranchGreater => BranchType::Greater,
            OpCode::BranchGreaterEqual => BranchType::GreaterEqual,
            OpCode::BranchNotEqual => BranchType::NotEqual,
            _ => {
                return Err(Exception::Decoder(plain("Failed to decode branch instruction: invalid opcode.")));
            },
        };
        Ok(
            Instruction::Branch(
                BranchInstruction {
                    branch_type,
                    source_register_1,
                    source_register_2,
                    instruction_pointer_jump_index,
                },
            ),
        )
    }

    fn decode_no_register(op_code: OpCode) -> (r: Result<Instruction, Exception>)
        ensures
            r is Ok <==> op_code == OpCode::Exit,
            r matches Ok(i) ==> i@ == Op::Exit,
            r matches Err(e) ==> e is Decoder,
    {
        match op_code {
            OpCode::Exit => Ok(Instruction::Exit(ExitInstruction)),
            _ => Err(Exception::Decoder(plain("Failed to decode zero-register instruction: invalid opcode."))),
        }
    }

    fn decode_single_register(op_code: OpCode, instruction_bytes: [[u8; 4]; 4]) -> (r: Result<Instruction, Exception>)
        ensures
            r is Ok <==> single_register_group(op_code),
            r matches Ok(i) ==> Some(i@) == decoded_with(
                Seq::empty(),
                0,
                op_code,
                instruction_words(instruction_bytes),
            ),
            r matches Err(e) ==> e is Decoder,
    {
        let register = from_be_bytes(instruction_bytes[1]);
        match op_code {
            OpCode::Print => Ok(Instruction::Print(PrintInstruction { source_register: register })),
            OpCode::PrintLine => Ok(
                Instruction::PrintLine(PrintLineInstruction { source_register: register }),
            ),
            OpCode::PrintContext => Ok(
                Instruction::PrintContext(
                    PrintContextInstruction { source_context_register: register },
                ),
            ),
            OpCode::ContextDrop => Ok(
                Instruction::ContextDrop(
                    ContextDropInstruction { source_context_register: register },
                ),
            ),
            _ => Err(Exception::Decoder(plain("Failed to decode single-register instruction: invalid opcode."))),
        }
    }

    fn decode_double_register(op_code: OpCode, instruction_bytes: [[u8; 4]; 4]) -> (r: Result<Instruction, Exception>)
        ensures
            r is Ok <==> double_register_group(op_code),
            r matches Ok(i) ==> Some(i@) == decoded_with(
                Seq::empty(),
                0,
                op_code,
                instruction_words(instruction_bytes),
            ),
            r matches Err(e) ==> e is Decoder,
    {
        let destination_register = from_be_bytes(instruction_bytes[1]);
        let source_register = from_be_bytes(instruction_bytes[2]);
        match op_code {
            OpCode::ContextPop => Ok(
                Instruction::ContextPop(
                    ContextPopInstruction {
                        destination_register,
                        source_context_register: source_register,
                    },
                ),
            ),
            OpCode::MoveContext => Ok(
                Instruction::MoveContext(
                    MoveContextInstruction {
                        destination_context_register: destination_register,
                        source_context_register: source_register,
                    },
                ),
            ),
            OpCode::CountLines => Ok(
                Instruction::CountLines(CountLinesInstruction { destination_register, source_register }),
            ),
            _ => Err(Exception::Decoder(plain("Failed to decode double-register instruction: invalid opcode."))),
        }
    }

    fn decode_double_register_string(
        memory: &Memory,
        registers: &Registers,
        op_code: OpCode,
        instruction_bytes: [[u8; 4]; 4],
    ) -> (r: Result<Instruction, Exception>)
        ensures
            r is Ok <==> op_code == OpCode::ContextPush && decoded_with(
                memory.words(),
                registers@.data_section_pointer as int,
                op_code,
                instruction_words(instruction_bytes),
            ) is Some,
            r matches Ok(i) ==> Some(i@) == decoded_with(
                memory.words(),
                registers@.data_section_pointer as int,
                op_code,
                instruction_words(instruction_bytes),
            ),
            r matches Err(e) ==> e is Decoder,
    {
        let destination_register = from_be_bytes(instruction_bytes[1]);
        let source_register = from_be_bytes(instruction_bytes[2]);
        let pointer = from_be_bytes(instruction_bytes[3]);
        match op_code {
            OpCode::ContextPush => {},
            _ => {
                return Err(Exception::Decoder(plain("Failed to decode double-register-string instruction: invalid opcode.")));
            },
        }
        match Self::read_data_string(memory, registers, pointer) {
            Ok(role) => Ok(
                Instruction::ContextPush(
                    ContextPushInstruction {
                        destination_context_register: destination_register,
                        source_register,
                        role,
                    },
                ),
            ),
            Err(e) => Err(Exception::Decoder(wrapped("Failed to read a role operand.", e))),
        }
    }

    fn decode_triple_register(op_code: OpCode, instruction_bytes: [[u8; 4]; 4]) -> (r: Result<Instruction, Exception>)
        ensures
            r is Ok <==> triple_register_group(op_code),
            r matches Ok(i) ==> Some(i@) == decoded_with(
                Seq::empty(),
                0,
                op_code,
                instruction_words(instruction_bytes),
            ),
            r matches Err(e) ==> e is Decoder,
    {
        let destination_register = from_be_bytes(instruction_bytes[1]);
        let first = from_be_bytes(instruction_bytes[2]);
        let second = from_be_bytes(instruction_bytes[3]);
        match op_code {
            OpCode::Inference => Ok(
                Instruction::Inference(
                    InferenceInstruction {
                        destination_register,
                        source_register: first,
                        context_register: second,
                    },
                ),
            ),
            OpCode::Evaluate => Ok(
                Instruction::Evaluate(
                    EvaluateInstruction {
                        destination_register,
                        source_register: first,
                        context_register: second,
                    },
                ),
            ),
            OpCode::Similarity => Ok(
                Instruction::Similarity(
                    SimilarityInstruction {
                        destination_register,
                        source_register_1: first,
                        source_register_2: second,
                    },
                ),
            ),
            OpCode::ReadLine => Ok(
                Instruction::ReadLine(
                    ReadLineInstruction {
                        destination_register,
                        source_register: first,
                        line_number_register: second,
                    },
                ),
            ),
            _ => Err(Exception::Decoder(plain("Failed to decode triple-register instruction: invalid opcode."))),
        }
    }

    /// Decodes the four words of a fetched instruction. Fails on an unknown
    /// operation, on `NoOp`, and when a string operand cannot be read from
    /// the data section.
    pub fn decode(memory: &Memory, registers: &Registers, instruction_bytes: [[u8; 4]; 4]) -> (r:
        Result<Instruction, Exception>)
        ensures
            r is Ok <==> decoded(
                memory.words(),
                registers@.data_section_pointer as int,
                instruction_words(instruction_bytes),
            ) is Some,
            r matches Ok(i) ==> Some(i@) == decoded(
                memory.words(),
                registers@.data_section_pointer as int,
                instruction_words(instruction_bytes),
            ),
            r matches Err(e) ==> e is Decoder,
    {
        let op_code = match Self::op_code(&instruction_bytes[0]) {
            Ok(op) => op,
            Err(e) => {
                return Err(Exception::Decoder(wrapped("Failed to decode opcode.", e)));
            },
        };
        match op_code {
            OpCode::NoOp => Err(
                Exception::Decoder(
                    plain("NoOp is not a valid instruction and should not be decoded."),
                ),
            ),
            OpCode::LoadString | OpCode::LoadImmediate | OpCode::LoadContent | OpCode::Move
            | OpCode::AddImmediate | OpCode::SubtractImmediate => {
                match Self::decode_immediate(memory, registers, op_code, instruction_bytes) {
                    Ok(i) => Ok(i),
                    Err(e) => Err(Exception::Decoder(wrapped("Failed to decode instruction.", e))),
                }
            },
            OpCode::BranchEqual | OpCode::BranchLess | OpCode::BranchLessEqual
            | OpCode::BranchGreater | OpCode::BranchGreaterEqual | OpCode::BranchNotEqual => {
                match Self::decode_branch(op_code, instruction_bytes) {
                    Ok(i) => Ok(i),
                    Err(e) => Err(Exception::Decoder(wrapped("Failed to decode instruction.", e))),
                }
            },
            OpCode::Exit => match Self::decode_no_register(op_code) {
                    Ok(i) => Ok(i),
                    Err(e) => Err(Exception::Decoder(wrapped("Failed to decode instruction.", e))),
                },
            OpCode::Print | OpCode::PrintLine | OpCode::PrintContext | OpCode::ContextDrop => {
                match Self::decode_single_register(op_code, instruction_bytes) {
                    Ok(i) => Ok(i),
                    Err(e) => Err(Exception::Decoder(wrapped("Failed to decode instruction.", e))),
                }
            },
            OpCode::ContextPush => {
                match Self::decode_double_register_string(
                    memory,
                    registers,
                    op_code,
                    instruction_bytes,
                ) {
                    Ok(i) => Ok(i),
                    Err(e) => Err(Exception::Decoder(wrapped("Failed to decode instruction.", e))),
                }
            },
            OpCode::ContextPop | OpCode::MoveContext | OpCode::CountLines => {
                match Self::decode_double_register(op_code, instruction_bytes) {
                    Ok(i) => Ok(i),
                    Err(e) => Err(Exception::Decoder(wrapped("Failed to decode instruction.", e))),
                }
            },
            OpCode::Inference | OpCode::Evaluate | OpCode::Similarity | OpCode::ReadLine => {
                match Self::decode_triple_register(op_code, instruction_bytes) {
                    Ok(i) => Ok(i),
                    Err(e) => Err(Exception::Decoder(wrapped("Failed to decode instruction.", e))),
                }
            },
        }
    }
}

} // verus!
