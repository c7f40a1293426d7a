//! Decoded instructions.
use vstd::prelude::*;

verus! {

#[derive(Debug)]
pub struct LoadStringInstruction {
    pub destination_register: u32,
    pub value: String,
}

#[derive(Debug)]
pub struct LoadImmediateInstruction {
    pub destination_register: u32,
    pub value: u32,
}

#[derive(Debug)]
pub struct LoadContentInstruction {
    pub destination_register: u32,
    pub path: String,
}

#[derive(Debug)]
pub struct MoveInstruction {
    pub destination_register: u32,
    pub source_register: u32,
}

#[derive(Debug)]
pub struct InferenceInstruction {
    pub destination_register: u32,
    pub source_register: u32,
    pub context_register: u32,
}

#[derive(Debug)]
pub struct EvaluateInstruction {
    pub destination_register: u32,
    pub source_register: u32,
    pub context_register: u32,
}

#[derive(Debug)]
pub struct SimilarityInstruction {
    pub destination_register: u32,
    pub source_register_1: u32,
    pub source_register_2: u32,
}

/// The comparison that a branch makes.
#[derive(Clone, Copy, Debug, PartialEq, Eq, Structural)]
pub enum BranchType {
    Equal,
    LessEqual,
    Less,
    GreaterEqual,
    Greater,
    NotEqual,
}

#[derive(Debug)]
pub struct BranchInstruction {
    pub branch_type: BranchType,
    pub source_register_1: u32,
    pub source_register_2: u32,
    pub instruction_pointer_jump_index: u32,
}

#[derive(Debug)]
pub struct ContextPushInstruction {
    pub destination_context_register: u32,
    pub source_register: u32,
    pub role: String,
}

#[derive(Debug)]
pub struct ContextPopInstruction {
    pub destination_register: u32,
    pub source_context_register: u32,
}

#[derive(Debug)]
pub struct ContextDropInstruction {
    pub source_context_register: u32,
}

#[derive(Debug)]
pub struct MoveContextInstruction {
    pub destination_context_register: u32,
    pub source_context_register: u32,
}

#[derive(Debug)]
pub struct AddImmediateInstruction {
    pub destination_register: u32,
    pub value: u32,
}

#[derive(Debug)]
pub struct SubtractImmediateInstruction {
    pub destination_register: u32,
    pub value: u32,
}

#[derive(Debug)]
pub struct PrintInstruction {
    pub source_register: u32,
}

#[derive(Debug)]
pub struct PrintLineInstruction {
    pub source_register: u32,
}

#[derive(Debug)]
pub struct PrintContextInstruction {
    pub source_context_register: u32,
}

#[derive(Debug)]
pub struct ReadLineInstruction {
    pub destination_register: u32,
    pub source_register: u32,
    pub line_number_register: u32,
}

#[derive(Debug)]
pub struct CountLinesInstruction {
    pub destination_register: u32,
    pub source_register: u32,
}

#[derive(Debug)]
pub struct ExitInstruction;

#[derive(Debug)]
pub enum Instruction {
    // Data movement.
    LoadString(LoadStringInstruction),
    LoadImmediate(LoadImmediateInstruction),
    LoadContent(LoadContentInstruction),
    Move(MoveInstruction),
    // Control flow.
    Branch(BranchInstruction),
    Exit(ExitInstruction),
    // I/O.
    Print(PrintInstruction),
    PrintLine(PrintLineInstruction),
    PrintContext(PrintContextInstruction),
    // Generative operations.
    Inference(InferenceInstruction),
    // Guardrails operations.
    Evaluate(EvaluateInstruction),
    Similarity(SimilarityInstruction),
    // Context operations.
    ContextPush(ContextPushInstruction),
    ContextPop(ContextPopInstruction),
    ContextDrop(ContextDropInstruction),
    MoveContext(MoveContextInstruction),
    // Arithmetic operations.
    AddImmediate(AddImmediateInstruction),
    SubtractImmediate(SubtractImmediateInstruction),
    // Line operations.
    ReadLine(ReadLineInstruction),
    CountLines(CountLinesInstruction),
}

/// An instruction as the contracts see it: its operation and operands, with
/// strings as sequences of characters.
pub enum Op {
    LoadString { rd: u32, text: Seq<char> },
    LoadImmediate { rd: u32, value: u32 },
    LoadContent { rd: u32, path: Seq<char> },
    Move { rd: u32, rs: u32 },
    Branch { kind: BranchType, rs1: u32, rs2: u32, target: u32 },
    Exit,
    Print { rs: u32 },
    PrintLine { rs: u32 },
    PrintContext { rc: u32 },
    Inference { rd: u32, rs: u32, rc: u32 },
    Evaluate { rd: u32, rs: u32, rc: u32 },
    Similarity { rd: u32, rs1: u32, rs2: u32 },
    ContextPush { rc: u32, rs: u32, role: Seq<char> },
    ContextPop { rd: u32, rc: u32 },
    ContextDrop { rc: u32 },
    MoveContext { rdc: u32, rsc: u32 },
    AddImmediate { rd: u32, value: u32 },
    SubtractImmediate { rd: u32, value: u32 },
    ReadLine { rd: u32, rs: u32, rl: u32 },
    CountLines { rd: u32, rs: u32 },
}

impl View for Instruction {
    type V = Op;

    open spec fn view(&self) -> Op {
        match self {
            Instruction::LoadString(i) => Op::LoadString { rd: i.destination_register, text: i.value@ },
            Instruction::LoadImmediate(i) => Op::LoadImmediate {
                rd: i.destination_register,
                value: i.value,
            },
            Instruction::LoadContent(i) => Op::LoadContent { rd: i.destination_register, path: i.path@ },
            Instruction::Move(i) => Op::Move { rd: i.destination_register, rs: i.source_register },
            Instruction::Branch(i) => Op::Branch {
                kind: i.branch_type,
                rs1: i.source_register_1,
                rs2: i.source_register_2,
                target: i.instruction_pointer_jump_index,
            },
            Instruction::Exit(_) => Op::Exit,
            Instruction::Print(i) => Op::Print { rs: i.source_register },
            Instruction::PrintLine(i) => Op::PrintLine { rs: i.source_register },
            Instruction::PrintContext(i) => Op::PrintContext { rc: i.source_context_register },
            Instruction::Inference(i) => Op::Inference {
                rd: i.destination_register,
                rs: i.source_register,
                rc: i.context_register,
            },
            Instruction::Evaluate(i) => Op::Evaluate {
                rd: i.destination_register,
                rs: i.source_register,
                rc: i.context_register,
            },
            Instruction::Similarity(i) => Op::Similarity {
                rd: i.destination_register,
                rs1: i.source_register_1,
                rs2: i.source_register_2,
            },
            Instruction::ContextPush(i) => Op::ContextPush {
                rc: i.destination_context_register,
                rs: i.source_register,
                role: i.role@,
            },
            Instruction::ContextPop(i) => Op::ContextPop {
                rd: i.destination_register,
                rc: i.source_context_register,
            },
            Instruction::ContextDrop(i) => Op::ContextDrop { rc: i.source_context_register },
            Instruction::MoveContext(i) => Op::MoveContext {
                rdc: i.destination_context_register,
                rsc: i.source_context_register,
            },
            Instruction::AddImmediate(i) => Op::AddImmediate {
                rd: i.destination_register,
                value: i.value,
            },
            Instruction::SubtractImmediate(i) => Op::SubtractImmediate {
                rd: i.destination_register,
                value: i.value,
            },
            Instruction::ReadLine(i) => Op::ReadLine {
                rd: i.destination_register,
                rs: i.source_register,
                rl: i.line_number_register,
            },
            Instruction::CountLines(i) => Op::CountLines {
                rd: i.destination_register,
                rs: i.source_register,
            },
        }
    }
}

} // verus!
