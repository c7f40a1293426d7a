//! Carries out one decoded instruction on the registers. What needs the world
//! outside (reading a file, printing, asking the language model) is handed
//! back as a `Request`; the rest is done here.
use vstd::prelude::*;

use crate::assembler::opcode::{lemma_opcode_roundtrip, opcode_for, opcode_of, opcode_value, OpCode};
use crate::assembler::token::{keyword, TokenType};
use crate::exception::{plain, wrapped, Exception};
use crate::processor::decoder::{decoded, stored_string};
use crate::processor::instruction::{
    AddImmediateInstruction, BranchInstruction, BranchType, ContextDropInstruction,
    ContextPopInstruction, ContextPushInstruction, CountLinesInstruction, EvaluateInstruction,
    InferenceInstruction, Instruction, LoadContentInstruction, LoadImmediateInstruction,
    LoadStringInstruction, MoveContextInstruction, MoveInstruction, Op, PrintContextInstruction,
    PrintInstruction, PrintLineInstruction, ReadLineInstruction, SimilarityInstruction,
    SubtractImmediateInstruction,
};
use crate::processor::language_logic_unit::{
    chat_models, evaluation_suffix, merged, raw_messages, valid_messages, LanguageLogicUnit,
    OpenAIChatCompletionRequestText,
};
use crate::processor::memory::Memory;
use crate::processor::registers::{
    copy_messages, message_models, readable, registers_valid, shown, writable, ContextMessage,
    MessageModel,
    Registers, RegistersModel, Value, ValueModel,
};
use crate::text::{chars_of, decimal, decimal_string, lines, lines_of, owned, string_from_chars};

verus! {

/// Work that an instruction leaves to the world outside the processor.
#[derive(Debug)]
pub enum Request {
    /// Nothing: the instruction is done.
    Proceed,
    /// Read the file at `path` and store its text in the register.
    LoadContent { destination_register: u32, path: String },
    /// Print `text`.
    Print { text: String },
    /// Print `text` and a line feed.
    PrintLine { text: String },
    /// Print the messages of a context register.
    PrintContext { messages: Vec<ContextMessage> },
    /// Ask the text model for a reply to `messages` and store the reply in
    /// the register.
    Inference { destination_register: u32, messages: Vec<OpenAIChatCompletionRequestText> },
    /// Ask the text model for a yes-or-no reply to `messages`, score it
    /// against the evaluation words and store the verdict in the register.
    Evaluate { destination_register: u32, messages: Vec<OpenAIChatCompletionRequestText> },
    /// Store the similarity of two texts in the register.
    Similarity { destination_register: u32, first: String, second: String },
}

/// A request as the contracts see it.
pub enum RequestModel {
    Proceed,
    LoadContent { rd: u32, path: Seq<char> },
    Print { text: Seq<char> },
    PrintLine { text: Seq<char> },
    PrintContext { messages: Seq<MessageModel> },
    Inference { rd: u32, messages: Seq<MessageModel> },
    Evaluate { rd: u32, messages: Seq<MessageModel> },
    Similarity { rd: u32, first: Seq<char>, second: Seq<char> },
}

impl View for Request {
    type V = RequestModel;

    open spec fn view(&self) -> RequestModel {
        match self {
            Request::Proceed => RequestModel::Proceed,
            Request::LoadContent { destination_register, path } => RequestModel::LoadContent {
                rd: *destination_register,
                path: path@,
            },
            Request::Print { text } => RequestModel::Print { text: text@ },
            Request::PrintLine { text } => RequestModel::PrintLine { text: text@ },
            Request::PrintContext { messages } => RequestModel::PrintContext {
                messages: message_models(messages@),
            },
            Request::Inference { destination_register, messages } => RequestModel::Inference {
                rd: *destination_register,
                messages: chat_models(messages@),
            },
            Request::Evaluate { destination_register, messages } => RequestModel::Evaluate {
                rd: *destination_register,
                messages: chat_models(messages@),
            },
            Request::Similarity { destination_register, first, second } => RequestModel::Similarity {
                rd: *destination_register,
                first: first@,
                second: second@,
            },
        }
    }
}

/// The number in register `n`, if it names a register holding a number.
pub open spec fn number_in(r: RegistersModel, n: u32) -> Option<u32> {
    if readable(n) {
        match r.general[n as int] {
            ValueModel::Number(v) => Some(v),
            _ => None,
        }
    } else {
        None
    }
}

/// The text in register `n`, if it names a register holding text.
pub open spec fn text_in(r: RegistersModel, n: u32) -> Option<Seq<char>> {
    if readable(n) {
        match r.general[n as int] {
            ValueModel::Text(t) => Some(t),
            _ => None,
        }
    } else {
        None
    }
}

/// Whether a branch of the given kind is taken.
pub open spec fn holds(kind: BranchType, a: u32, b: u32) -> bool {
    match kind {
        BranchType::Equal => a == b,
        BranchType::LessEqual => a <= b,
        BranchType::Less => a < b,
        BranchType::GreaterEqual => a >= b,
        BranchType::Greater => a > b,
        BranchType::NotEqual => a != b,
    }
}

/// The content of a message pushed from a register: text as it is, a number
/// in decimal; an empty register gives none.
pub open spec fn message_text(v: ValueModel) -> Option<Seq<char>> {
    match v {
        ValueModel::Text(t) => Some(t),
        ValueModel::Number(n) => Some(decimal(n as nat)),
        ValueModel::Empty => None,
    }
}

/// The checked chat messages for `content` after context register `rc`.
pub open spec fn chat_request(r: RegistersModel, content: Seq<char>, rc: u32) -> Option<
    Seq<MessageModel>,
> {
    if readable(rc) {
        let m = merged(raw_messages(content, r.contexts[rc as int]));
        if valid_messages(m) {
            Some(m)
        } else {
            None
        }
    } else {
        None
    }
}

/// Writing `v` into register `rd`: done, or a failure that changes nothing.
pub open spec fn store(r: RegistersModel, rd: u32, v: ValueModel) -> (RegistersModel, Option<
    RequestModel,
>) {
    if writable(rd) {
        (r.with_register(rd, v), Some(RequestModel::Proceed))
    } else {
        (r, None)
    }
}

/// The registers after carrying out `op`, and the request it leaves; `None`
/// when the instruction fails. The memory holds `memory_length` words.
pub open spec fn executed(r: RegistersModel, op: Op, memory_length: int) -> (RegistersModel, Option<
    RequestModel,
>) {
    match op {
        Op::LoadString { rd, text } => store(r, rd, ValueModel::Text(text)),
        Op::LoadImmediate { rd, value } => store(r, rd, ValueModel::Number(value)),
        Op::LoadContent { rd, path } => if writable(rd) {
            (r, Some(RequestModel::LoadContent { rd, path }))
        } else {
            (r, None)
        },
        Op::Move { rd, rs } => if readable(rs) {
            store(r, rd, r.general[rs as int])
        } else {
            (r, None)
        },
        Op::Branch { kind, rs1, rs2, target } => match (number_in(r, rs1), number_in(r, rs2)) {
            (Some(a), Some(b)) => (
                if holds(kind, a, b) {
                    r.with_pointer(target as usize)
                } else {
                    r
                },
                Some(RequestModel::Proceed),
            ),
            _ => (r, None),
        },
        Op::Exit => (r.with_pointer(memory_length as usize), Some(RequestModel::Proceed)),
        Op::Print { rs } => if readable(rs) {
            (r, Some(RequestModel::Print { text: shown(r.general[rs as int]) }))
        } else {
            (r, None)
        },
        Op::PrintLine { rs } => if readable(rs) {
            (r, Some(RequestModel::PrintLine { text: shown(r.general[rs as int]) }))
        } else {
            (r, None)
        },
        Op::PrintContext { rc } => if readable(rc) {
            (r, Some(RequestModel::PrintContext { messages: r.contexts[rc as int] }))
        } else {
            (r, None)
        },
        Op::Inference { rd, rs, rc } => match text_in(r, rs) {
            Some(t) => match chat_request(r, t, rc) {
                Some(m) => if writable(rd) {
                    (r, Some(RequestModel::Inference { rd, messages: m }))
                } else {
                    (r, None)
                },
                None => (r, None),
            },
            None => (r, None),
        },
        Op::Evaluate { rd, rs, rc } => match text_in(r, rs) {
            Some(t) => match chat_request(r, t + evaluation_suffix(), rc) {
                Some(m) => if writable(rd) {
                    (r, Some(RequestModel::Evaluate { rd, messages: m }))
                } else {
                    (r, None)
                },
                None => (r, None),
            },
            None => (r, None),
        },
        Op::Similarity { rd, rs1, rs2 } => match (text_in(r, rs1), text_in(r, rs2)) {
            (Some(a), Some(b)) => if writable(rd) {
                (r, Some(RequestModel::Similarity { rd, first: a, second: b }))
            } else {
                (r, None)
            },
            _ => (r, None),
        },
        Op::ContextPush { rc, rs, role } => if readable(rs) {
            match message_text(r.general[rs as int]) {
                Some(c) => if writable(rc) {
                    (
                        r.with_context(
                            rc,
                            r.contexts[rc as int].push(MessageModel { role, content: c }),
                        ),
                        Some(RequestModel::Proceed),
                    )
                } else {
                    (r, None)
                },
                None => (r, None),
            }
        } else {
            (r, None)
        },
        Op::ContextPop { rd, rc } => if writable(rc) && r.contexts[rc as int].len() > 0 {
            store(
                r.with_context(rc, r.contexts[rc as int].drop_last()),
                rd,
                ValueModel::Text(r.contexts[rc as int].last().content),
            )
        } else {
            (r, None)
        },
        Op::ContextDrop { rc } => if writable(rc) && r.contexts[rc as int].len() > 0 {
            (r.with_context(rc, r.contexts[rc as int].drop_last()), Some(RequestModel::Proceed))
        } else {
            (r, None)
        },
        Op::MoveContext { rdc, rsc } => if readable(rsc) && writable(rdc) {
            (r.with_context(rdc, r.contexts[rsc as int]), Some(RequestModel::Proceed))
        } else {
            (r, None)
        },
        Op::AddImmediate { rd, value } => match number_in(r, rd) {
            Some(n) => if n + value <= u32::MAX {
                store(r, rd, ValueModel::Number((n + value) as u32))
            } else {
                (r, None)
            },
            None => (r, None),
        },
        Op::SubtractImmediate { rd, value } => match number_in(r, rd) {
            Some(n) => if n >= value {
                store(r, rd, ValueModel::Number((n - value) as u32))
            } else {
                (r, None)
            },
            None => (r, None),
        },
        Op::ReadLine { rd, rs, rl } => match (text_in(r, rs), number_in(r, rl)) {
            (Some(t), Some(k)) => if k < lines(t).len() {
                store(r, rd, ValueModel::Text(lines(t)[k as int]))
            } else {
                (r, None)
            },
            _ => (r, None),
        },
        Op::CountLines { rd, rs } => match text_in(r, rs) {
            Some(t) => if lines(t).len() <= u32::MAX {
                store(r, rd, ValueModel::Number(lines(t).len() as u32))
            } else {
                (r, None)
            },
            None => (r, None),
        },
    }
}

/// The call ended as `expected` says: the registers it left, whether it
/// failed, and the request it returned.
pub open spec fn outcome(
    after: RegistersModel,
    r: Result<Request, Exception>,
    expected: (RegistersModel, Option<RequestModel>),
) -> bool {
    &&& after == expected.0
    &&& (r is Ok <==> expected.1 is Some)
    &&& (r matches Ok(q) ==> Some(q@) == expected.1)
    &&& (r matches Err(e) ==> e is Executor)
}

pub struct Executor;

impl Executor {
    fn read_text(registers: &Registers, n: u32) -> (r: Result<&String, Exception>)
        requires
            registers.wf(),
        ensures
            r is Ok <==> text_in(registers@, n) is Some,
            r matches Ok(t) ==> Some(t@) == text_in(registers@, n),
            r matches Err(e) ==> e is Executor,
    {
        match registers.get_register(n) {
            Ok(Value::Text(text)) => Ok(text),
            Ok(Value::Empty) => Err(
                Exception::Executor(plain("Register is uninitialised, expected text.")),
            ),
            Ok(_) => Err(Exception::Executor(plain("Register holds a number, expected text."))),
            Err(e) => Err(Exception::Executor(wrapped("Failed to read a register.", e))),
        }
    }

    fn read_number(registers: &Registers, n: u32) -> (r: Result<u32, Exception>)
        requires
            registers.wf(),
        ensures
            r is Ok <==> number_in(registers@, n) is Some,
            r matches Ok(v) ==> Some(v) == number_in(registers@, n),
            r matches Err(e) ==> e is Executor,
    {
        match registers.get_register(n) {
            Ok(Value::Number(number)) => Ok(*number),
            Ok(Value::Empty) => Err(
                Exception::Executor(plain("Register is uninitialised, expected number.")),
            ),
            Ok(_) => Err(Exception::Executor(plain("Register holds text, expected number."))),
            Err(e) => Err(Exception::Executor(wrapped("Failed to read a register.", e))),
        }
    }

    /// Writes `value` into register `rd` and reports the instruction done.
    fn store_value(registers: &mut Registers, rd: u32, value: &Value) -> (r: Result<
        Request,
        Exception,
    >)
        requires
            old(registers).wf(),
        ensures
            final(registers).wf(),
            outcome(final(registers)@, r, store(old(registers)@, rd, value@)),
    {
        match registers.set_register(rd, value) {
            Ok(()) => Ok(Request::Proceed),
            Err(e) => Err(Exception::Executor(wrapped("Failed to write a register.", e))),
        }
    }

    fn load_string(registers: &mut Registers, instruction: &LoadStringInstruction) -> (r: Result<
        Request,
        Exception,
    >)
        requires
            old(registers).wf(),
        ensures
            final(registers).wf(),
            outcome(
                final(registers)@,
                r,
                executed(
                    old(registers)@,
                    Op::LoadString { rd: instruction.destination_register, text: instruction.value@ },
                    0,
                ),
            ),
    {
        let value = Value::Text(instruction.value.clone());
        Self::store_value(registers, instruction.destination_register, &value)
    }

    fn load_immediate(registers: &mut Registers, instruction: &LoadImmediateInstruction) -> (r:
        Result<Request, Exception>)
        requires
            old(registers).wf(),
        ensures
            final(registers).wf(),
            outcome(
                final(registers)@,
                r,
                executed(
                    old(registers)@,
                    Op::LoadImmediate {
                        rd: instruction.destination_register,
                        value: instruction.value,
                    },
                    0,
                ),
            ),
    {
        let value = Value::Number(instruction.value);
        Self::store_value(registers, instruction.destination_register, &value)
    }

    /// Checks that register `rd` can take the result of a request.
    fn check_destination(rd: u32) -> (r: Result<(), Exception>)
        ensures
            r is Ok <==> writable(rd),
            r matches Err(e) ==> e is Executor,
    {
        if 1 <= rd && rd < 33 {
            Ok(())
        } else {
            Err(
                Exception::Executor(
                    plain("The destination register cannot be written (register 1-32 expected)."),
                ),
            )
        }
    }

    fn load_content(registers: &Registers, instruction: &LoadContentInstruction) -> (r: Result<
        Request,
        Exception,
    >)
        requires
            registers.wf(),
        ensures
            outcome(
                registers@,
                r,
                executed(
                    registers@,
                    Op::LoadContent { rd: instruction.destination_register, path: instruction.path@ },
                    0,
                ),
            ),
    {
        match Self::check_destination(instruction.destination_register) {
            Ok(()) => Ok(
                Request::LoadContent {
                    destination_register: instruction.destination_register,
                    path: instruction.path.clone(),
                },
            ),
            Err(e) => Err(e),
        }
    }

    fn mov(registers: &mut Registers, instruction: &MoveInstruction) -> (r: Result<
        Request,
        Exception,
    >)
        requires
            old(registers).wf(),
        ensures
            final(registers).wf(),
            outcome(
                final(registers)@,
                r,
                executed(
                    old(registers)@,
                    Op::Move {
                        rd: instruction.destination_register,
                        rs: instruction.source_register,
                    },
                    0,
                ),
            ),
    {
        let value = match registers.get_register(instruction.source_register) {
            Ok(v) => v.duplicate(),
            Err(e) => {
                return Err(Exception::Executor(wrapped("Failed to read the source register.", e)));
            },
        };
        Self::store_value(registers, instruction.destination_register, &value)
    }

    fn branch(registers: &mut Registers, instruction: &BranchInstruction) -> (r: Result<
        Request,
        Exception,
    >)
        requires
            old(registers).wf(),
        ensures
            final(registers).wf(),
            outcome(
                final(registers)@,
                r,
                executed(
                    old(registers)@,
                    Op::Branch {
                        kind: instruction.branch_type,
                        rs1: instruction.source_register_1,
                        rs2: instruction.source_register_2,
                        target: instruction.instruction_pointer_jump_index,
                    },
                    0,
                ),
            ),
    {
        let a = match Self::read_number(registers, instruction.source_register_1) {
            Ok(v) => v,
            Err(e) => {
                return Err(Exception::Executor(wrapped("Failed to read the first operand.", e)));
            },
        };
        let b = match Self::read_number(registers, instruction.source_register_2) {
            Ok(v) => v,
            Err(e) => {
                return Err(Exception::Executor(wrapped("Failed to read the second operand.", e)));
            },
        };
        let is_true = match instruction.branch_type {
            BranchType::Equal => a == b,
            BranchType::Less => a < b,
            BranchType::LessEqual => a <= b,
            BranchType::Greater => a > b,
            BranchType::GreaterEqual => a >= b,
            BranchType::NotEqual => a != b,
        };
        if is_true {
            registers.set_instruction_pointer(instruction.instruction_pointer_jump_index as usize);
        }
        Ok(Request::Proceed)
    }

    fn exit(memory: &Memory, registers: &mut Registers) -> (r: Request)
        ensures
            final(registers)@ == executed(old(registers)@, Op::Exit, memory.cells().len() as int).0,
            r@ == RequestModel::Proceed,
    {
        registers.set_instruction_pointer(memory.length());
        Request::Proceed
    }

    fn print(registers: &Registers, source_register: u32, newline: bool) -> (r: Result<
        Request,
        Exception,
    >)
        requires
            registers.wf(),
        ensures
            r is Ok <==> readable(source_register),
            r matches Ok(q) ==> q@ == (if newline {
                RequestModel::PrintLine { text: shown(registers@.general[source_register as int]) }
            } else {
                RequestModel::Print { text: shown(registers@.general[source_register as int]) }
            }),
            r matches Err(e) ==> e is Executor,
    {
        match registers.get_register(source_register) {
            Ok(v) => {
                let text = v.to_display_string();
                if newline {
                    Ok(Request::PrintLine { text })
                } else {
                    Ok(Request::Print { text })
                }
            },
            Err(e) => Err(Exception::Executor(wrapped("Failed to read a register.", e))),
        }
    }

    fn print_context(registers: &Registers, instruction: &PrintContextInstruction) -> (r: Result<
        Request,
        Exception,
    >)
        requires
            registers.wf(),
        ensures
            outcome(
                registers@,
                r,
                executed(registers@, Op::PrintContext { rc: instruction.source_context_register }, 0),
            ),
    {
        match registers.get_context(instruction.source_context_register) {
            Ok(messages) => Ok(Request::PrintContext { messages: copy_messages(messages) }),
            Err(e) => Err(Exception::Executor(wrapped("Failed to read a context register.", e))),
        }
    }

    /// The checked chat messages for `content` after the messages of context
    /// register `rc`.
    fn chat(registers: &Registers, content: &str, rc: u32) -> (r: Result<
        Vec<OpenAIChatCompletionRequestText>,
        Exception,
    >)
        requires
            registers.wf(),
        ensures
            r is Ok <==> chat_request(registers@, content@, rc) is Some,
            r matches Ok(m) ==> Some(chat_models(m@)) == chat_request(registers@, content@, rc),
            r matches Err(e) ==> e is Executor,
    {
        let context = match registers.get_context(rc) {
            Ok(c) => c,
            Err(e) => {
                return Err(Exception::Executor(wrapped("Failed to read a context register.", e)));
            },
        };
        match LanguageLogicUnit::chat_messages(content, context) {
            Ok(m) => Ok(m),
            Err(e) => Err(Exception::Executor(wrapped("Failed to build the chat messages.", e))),
        }
    }

    fn inference(registers: &Registers, instruction: &InferenceInstruction) -> (r: Result<
        Request,
        Exception,
    >)
        requires
            registers.wf(),
        ensures
            outcome(
                registers@,
                r,
                executed(
                    registers@,
                    Op::Inference {
                        rd: instruction.destination_register,
                        rs: instruction.source_register,
                        rc: instruction.context_register,
                    },
                    0,
                ),
            ),
    {
        let prompt = match Self::read_text(registers, instruction.source_register) {
            Ok(t) => t,
            Err(e) => {
                return Err(Exception::Executor(wrapped("Failed to read the prompt.", e)));
            },
        };
        let messages = match Self::chat(registers, prompt.as_str(), instruction.context_register) {
            Ok(m) => m,
            Err(e) => {
                return Err(e);
            },
        };
        match Self::check_destination(instruction.destination_register) {
            Ok(()) => Ok(
                Request::Inference { destination_register: instruction.destination_register, messages },
            ),
            Err(e) => Err(e),
        }
    }

    fn evaluate(registers: &Registers, instruction: &EvaluateInstruction) -> (r: Result<
        Request,
        Exception,
    >)
        requires
            registers.wf(),
        ensures
            outcome(
                registers@,
                r,
                executed(
                    registers@,
                    Op::Evaluate {
                        rd: instruction.destination_register,
                        rs: instruction.source_register,
                        rc: instruction.context_register,
                    },
                    0,
                ),
            ),
    {
        let question = match Self::read_text(registers, instruction.source_register) {
            Ok(t) => t,
            Err(e) => {
                return Err(Exception::Executor(wrapped("Failed to read the question.", e)));
            },
        };
        let prompt = LanguageLogicUnit::evaluation_prompt(question.as_str());
        let messages = match Self::chat(registers, prompt.as_str(), instruction.context_register) {
            Ok(m) => m,
            Err(e) => {
                return Err(e);
            },
        };
        match Self::check_destination(instruction.destination_register) {
            Ok(()) => Ok(
                Request::Evaluate { destination_register: instruction.destination_register, messages },
            ),
            Err(e) => Err(e),
        }
    }

    fn similarity(registers: &Registers, instruction: &SimilarityInstruction) -> (r: Result<
        Request,
        Exception,
    >)
        requires
            registers.wf(),
        ensures
            outcome(
                registers@,
                r,
                executed(
                    registers@,
                    Op::Similarity {
                        rd: instruction.destination_register,
                        rs1: instruction.source_register_1,
                        rs2: instruction.source_register_2,
                    },
                    0,
                ),
            ),
    {
        let first = match Self::read_text(registers, instruction.source_register_1) {
            Ok(t) => t.clone(),
            Err(e) => {
                return Err(Exception::Executor(wrapped("Failed to read the first text.", e)));
            },
        };
        let second = match Self::read_text(registers, instruction.source_register_2) {
            Ok(t) => t.clone(),
            Err(e) => {
                return Err(Exception::Executor(wrapped("Failed to read the second text.", e)));
            },
        };
        match Self::check_destination(instruction.destination_register) {
            Ok(()) => Ok(
                Request::Similarity {
                    destination_register: instruction.destination_register,
                    first,
                    second,
                },
            ),
            Err(e) => Err(e),
        }
    }

    fn context_push(registers: &mut Registers, instruction: &ContextPushInstruction) -> (r: Result<
        Request,
        Exception,
    >)
        requires
            old(registers).wf(),
        ensures
            final(registers).wf(),
            outcome(
                final(registers)@,
                r,
                executed(
                    old(registers)@,
                    Op::ContextPush {
                        rc: instruction.destination_context_register,
                        rs: instruction.source_register,
                        role: instruction.role@,
                    },
                    0,
                ),
            ),
    {
        let content = match registers.get_register(instruction.source_register) {
            Ok(Value::Text(text)) => text.clone(),
            Ok(Value::Number(number)) => decimal_string(*number as u64),
            Ok(Value::Empty) => {
                return Err(
                    Exception::Executor(
                        plain("Register is uninitialised, expected text or number."),
                    ),
                );
            },
            Err(e) => {
                return Err(Exception::Executor(wrapped("Failed to read the source register.", e)));
            },
        };
        let message = ContextMessage { role: instruction.role.clone(), content };
        match registers.push_context(message, instruction.destination_context_register) {
            Ok(()) => Ok(Request::Proceed),
            Err(e) => Err(Exception::Executor(wrapped("Failed to push a message.", e))),
        }
    }

    fn context_pop(registers: &mut Registers, instruction: &ContextPopInstruction) -> (r: Result<
        Request,
        Exception,
    >)
        requires
            old(registers).wf(),
        ensures
            final(registers).wf(),
            outcome(
                final(registers)@,
                r,
                executed(
                    old(registers)@,
                    Op::ContextPop {
                        rd: instruction.destination_register,
                        rc: instruction.source_context_register,
                    },
                    0,
                ),
            ),
    {
        let message = match registers.pop_context(instruction.source_context_register) {
            Ok(m) => m,
            Err(e) => {
                return Err(Exception::Executor(wrapped("Failed to pop a message.", e)));
            },
        };
        let value = Value::Text(message.content);
        Self::store_value(registers, instruction.destination_register, &value)
    }

    fn context_drop(registers: &mut Registers, instruction: &ContextDropInstruction) -> (r: Result<
        Request,
        Exception,
    >)
        requires
            old(registers).wf(),
        ensures
            final(registers).wf(),
            outcome(
                final(registers)@,
                r,
                executed(
                    old(registers)@,
                    Op::ContextDrop { rc: instruction.source_context_register },
                    0,
                ),
            ),
    {
        match registers.pop_context(instruction.source_context_register) {
            Ok(_) => Ok(Request::Proceed),
            Err(e) => Err(Exception::Executor(wrapped("Failed to drop a message.", e))),
        }
    }

    fn move_context(registers: &mut Registers, instruction: &MoveContextInstruction) -> (r: Result<
        Request,
        Exception,
    >)
        requires
            old(registers).wf(),
        ensures
            final(registers).wf(),
            outcome(
                final(registers)@,
                r,
                executed(
                    old(registers)@,
                    Op::MoveContext {
                        rdc: instruction.destination_context_register,
                        rsc: instruction.source_context_register,
                    },
                    0,
                ),
            ),
    {
        let messages = match registers.get_context(instruction.source_context_register) {
            Ok(m) => copy_messages(m),
            Err(e) => {
                return Err(Exception::Executor(wrapped("Failed to read a context register.", e)));
            },
        };
        match registers.set_context(instruction.destination_context_register, messages.as_slice()) {
            Ok(()) => Ok(Request::Proceed),
            Err(e) => Err(Exception::Executor(wrapped("Failed to write a context register.", e))),
        }
    }

    fn add_immediate(registers: &mut Registers, instruction: &AddImmediateInstruction) -> (r: Result<
        Request,
        Exception,
    >)
        requires
            old(registers).wf(),
        ensures
            final(registers).wf(),
            outcome(
                final(registers)@,
                r,
                executed(
                    old(registers)@,
                    Op::AddImmediate {
                        rd: instruction.destination_register,
                        value: instruction.value,
                    },
                    0,
                ),
            ),
    {
        let value = match Self::read_number(registers, instruction.destination_register) {
            Ok(v) => v,
            Err(e) => {
                return Err(Exception::Executor(wrapped("Failed to read the register.", e)));
            },
        };
        let sum = match value.checked_add(instruction.value) {
            Some(s) => s,
            None => {
                return Err(Exception::Executor(plain("Adding would overflow the register.")));
            },
        };
        Self::store_value(registers, instruction.destination_register, &Value::Number(sum))
    }

    fn subtract_immediate(
        registers: &mut Registers,
        instruction: &SubtractImmediateInstruction,
    ) -> (r: Result<Request, Exception>)
        requires
            old(registers).wf(),
        ensures
            final(registers).wf(),
            outcome(
                final(registers)@,
                r,
                executed(
                    old(registers)@,
                    Op::SubtractImmediate {
                        rd: instruction.destination_register,
                        value: instruction.value,
                    },
                    0,
                ),
            ),
    {
        let value = match Self::read_number(registers, instruction.destination_register) {
            Ok(v) => v,
            Err(e) => {
                return Err(Exception::Executor(wrapped("Failed to read the register.", e)));
            },
        };
        let difference = match value.checked_sub(instruction.value) {
            Some(d) => d,
            None => {
                return Err(Exception::Executor(plain("Subtracting would underflow the register.")));
            },
        };
        Self::store_value(registers, instruction.destination_register, &Value::Number(difference))
    }

    /// Stores line `k` (from 0) of a register's text in another register.
    pub fn read_line(registers: &mut Registers, instruction: &ReadLineInstruction) -> (r: Result<
        Request,
        Exception,
    >)
        requires
            old(registers).wf(),
        ensures
            final(registers).wf(),
            outcome(
                final(registers)@,
                r,
                executed(
                    old(registers)@,
                    Op::ReadLine {
                        rd: instruction.destination_register,
                        rs: instruction.source_register,
                        rl: instruction.line_number_register,
                    },
                    0,
                ),
            ),
    {
        let text = match Self::read_text(registers, instruction.source_register) {
            Ok(t) => chars_of(t.as_str()),
            Err(e) => {
                return Err(Exception::Executor(wrapped("Failed to read the text.", e)));
            },
        };
        let line_number = match Self::read_number(registers, instruction.line_number_register) {
            Ok(n) => n,
            Err(e) => {
                return Err(Exception::Executor(wrapped("Failed to read the line number.", e)));
            },
        };
        let all_lines = lines_of(text.as_slice());
        if line_number as usize >= all_lines.len() {
            return Err(Exception::Executor(plain("Line number out of range.")));
        }
        let line = string_from_chars(all_lines[line_number as usize].as_slice());
        Self::store_value(registers, instruction.destination_register, &Value::Text(line))
    }

    /// Stores the number of lines of a register's text in another register.
    pub fn count_lines(registers: &mut Registers, instruction: &CountLinesInstruction) -> (r: Result<
        Request,
        Exception,
    >)
        requires
            old(registers).wf(),
        ensures
            final(registers).wf(),
            outcome(
                final(registers)@,
                r,
                executed(
                    old(registers)@,
                    Op::CountLines {
                        rd: instruction.destination_register,
                        rs: instruction.source_register,
                    },
                    0,
                ),
            ),
    {
        let text = match Self::read_text(registers, instruction.source_register) {
            Ok(t) => chars_of(t.as_str()),
            Err(e) => {
                return Err(Exception::Executor(wrapped("Failed to read the text.", e)));
            },
        };
        let count = lines_of(text.as_slice()).len();
        if count > 4294967295 {
            return Err(Exception::Executor(plain("The line count does not fit in a register.")));
        }
        Self::store_value(registers, instruction.destination_register, &Value::Number(count as u32))
    }

    /// Carries out `instruction`: changes the registers as `executed` says
    /// and returns what is left to the world outside.
    pub fn execute(memory: &Memory, registers: &mut Registers, instruction: &Instruction) -> (r:
        Result<Request, Exception>)
        requires
            old(registers).wf(),
        ensures
            final(registers).wf(),
            outcome(
                final(registers)@,
                r,
                executed(old(registers)@, instruction@, memory.cells().len() as int),
            ),
    {
        let result = match instruction {
            Instruction::LoadString(i) => Self::load_string(registers, i),
            Instruction::LoadImmediate(i) => Self::load_immediate(registers, i),
            Instruction::LoadContent(i) => Self::load_content(registers, i),
            Instruction::Move(i) => Self::mov(registers, i),
            Instruction::Branch(i) => Self::branch(registers, i),
            Instruction::Exit(_) => Ok(Self::exit(memory, registers)),
            Instruction::Print(i) => Self::print(registers, i.source_register, false),
            Instruction::PrintLine(i) => Self::print(registers, i.source_register, true),
            Instruction::PrintContext(i) => Self::print_context(registers, i),
            Instruction::Inference(i) => Self::inference(registers, i),
            Instruction::Evaluate(i) => Self::evaluate(registers, i),
            Instruction::Similarity(i) => Self::similarity(registers, i),
            Instruction::ContextPush(i) => Self::context_push(registers, i),
            Instruction::ContextPop(i) => Self::context_pop(registers, i),
            Instruction::ContextDrop(i) => Self::context_drop(registers, i),
            Instruction::MoveContext(i) => Self::move_context(registers, i),
            Instruction::AddImmediate(i) => Self::add_immediate(registers, i),
            Instruction::SubtractImmediate(i) => Self::subtract_immediate(registers, i),
            Instruction::ReadLine(i) => Self::read_line(registers, i),
            Instruction::CountLines(i) => Self::count_lines(registers, i),
        };
        match result {
            Ok(q) => Ok(q),
            Err(e) => Err(Exception::Executor(wrapped("Instruction execution failed.", e))),
        }
    }
}

} // verus!

verus! {

// ---------------------------------------------------------------------------
// Laws
// ---------------------------------------------------------------------------

/// No instruction changes register 0 of either bank: general-purpose
/// register 0 keeps the number 0 and context register 0 stays empty.
pub proof fn lemma_executed_keeps_reserved(r: RegistersModel, op: Op, memory_length: int)
    requires
        registers_valid(r),
    ensures
        registers_valid(executed(r, op, memory_length).0),
{
    let r2 = executed(r, op, memory_length).0;
    assert(r2.general.len() == r.general.len());
    assert(r2.contexts.len() == r.contexts.len());
}

/// Writing a register and reading it back gives the value written; other
/// registers keep their values. Register 0 refuses the write and nothing
/// changes.
pub proof fn lemma_load_then_read(r: RegistersModel, rd: u32, value: u32, other: u32)
    requires
        registers_valid(r),
        readable(other),
        other != rd,
    ensures
        writable(rd) ==> number_in(executed(r, Op::LoadImmediate { rd, value }, 0).0, rd) == Some(
            value,
        ),
        executed(r, Op::LoadImmediate { rd, value }, 0).0.general[other as int]
            == r.general[other as int],
        !writable(rd) ==> executed(r, Op::LoadImmediate { rd, value }, 0) == (
            r,
            None::<RequestModel>,
        ),
{
}

/// A message pushed on a context stack and popped again comes back whole:
/// the popped register holds what was pushed and every stack is as before.
pub proof fn lemma_push_then_pop(r: RegistersModel, rc: u32, rs: u32, rd: u32, role: Seq<char>)
    requires
        registers_valid(r),
        writable(rc),
        writable(rd),
        readable(rs),
        message_text(r.general[rs as int]) is Some,
    ensures
        ({
            let (r1, q1) = executed(r, Op::ContextPush { rc, rs, role }, 0);
            let (r2, q2) = executed(r1, Op::ContextPop { rd, rc }, 0);
            &&& q1 == Some(RequestModel::Proceed)
            &&& q2 == Some(RequestModel::Proceed)
            &&& r2.contexts == r.contexts
            &&& r2.general == r.general.update(
                rd as int,
                ValueModel::Text(message_text(r.general[rs as int]).unwrap()),
            )
        }),
{
    let (r1, q1) = executed(r, Op::ContextPush { rc, rs, role }, 0);
    let (r2, q2) = executed(r1, Op::ContextPop { rd, rc }, 0);
    let m = MessageModel { role, content: message_text(r.general[rs as int]).unwrap() };
    assert(r1.contexts[rc as int] == r.contexts[rc as int].push(m));
    assert(r1.contexts[rc as int].drop_last() =~= r.contexts[rc as int]);
    assert(r2.contexts =~= r.contexts);
}

/// Adding a number to a register and subtracting it again leaves the
/// registers as they were.
pub proof fn lemma_add_then_subtract(r: RegistersModel, rd: u32, value: u32)
    requires
        registers_valid(r),
        writable(rd),
        number_in(r, rd) is Some,
        number_in(r, rd).unwrap() + value <= u32::MAX,
    ensures
        ({
            let (r1, q1) = executed(r, Op::AddImmediate { rd, value }, 0);
            let (r2, q2) = executed(r1, Op::SubtractImmediate { rd, value }, 0);
            q1 == Some(RequestModel::Proceed) && q2 == Some(RequestModel::Proceed) && r2 == r
        }),
{
    let (r1, q1) = executed(r, Op::AddImmediate { rd, value }, 0);
    let (r2, q2) = executed(r1, Op::SubtractImmediate { rd, value }, 0);
    assert(r2.general =~= r.general);
}

/// After moving a context, the destination holds the same messages as the
/// source.
pub proof fn lemma_move_context(r: RegistersModel, rdc: u32, rsc: u32)
    requires
        registers_valid(r),
        writable(rdc),
        readable(rsc),
    ensures
        executed(r, Op::MoveContext { rdc, rsc }, 0).0.contexts[rdc as int] == r.contexts[rsc as int],
        executed(r, Op::MoveContext { rdc, rsc }, 0).1 == Some(RequestModel::Proceed),
{
}

} // verus!

verus! {

/// What the branch written with keyword `w` (lower case) and operands `rs1`,
/// `rs2`, `target` becomes once assembled to its operation number and
/// decoded again.
pub open spec fn keyword_branch(w: Seq<u8>, rs1: u32, rs2: u32, target: u32) -> Option<Op> {
    match keyword(w) {
        Some(t) => decoded(Seq::empty(), 0, seq![opcode_value(opcode_for(t)), rs1, rs2, target]),
        None => None,
    }
}

/// Running that branch jumps to `target` when `taken`, and otherwise leaves
/// the registers as they are; either way it succeeds.
pub open spec fn branch_runs(
    r: RegistersModel,
    w: Seq<u8>,
    rs1: u32,
    rs2: u32,
    target: u32,
    taken: bool,
) -> bool {
    match keyword_branch(w, rs1, rs2, target) {
        Some(op) => executed(r, op, 0) == (
            if taken {
                r.with_pointer(target as usize)
            } else {
                r
            },
            Some(RequestModel::Proceed),
        ),
        None => false,
    }
}

/// Each branch keyword compares as its name says: with `a` in `rs1` and `b`
/// in `rs2`, `beq` jumps when a == b, `bne` when a != b, `blt` when a < b,
/// `ble` when a <= b, `bgt` when a > b and `bge` when a >= b, from the
/// keyword through its operation number and decoding to execution.
pub proof fn lemma_branch_keywords(r: RegistersModel, rs1: u32, rs2: u32, target: u32, a: u32, b: u32)
    requires
        number_in(r, rs1) == Some(a),
        number_in(r, rs2) == Some(b),
    ensures
        branch_runs(r, seq![98u8, 101, 113], rs1, rs2, target, a == b),
        branch_runs(r, seq![98u8, 110, 101], rs1, rs2, target, a != b),
        branch_runs(r, seq![98u8, 108, 116], rs1, rs2, target, a < b),
        branch_runs(r, seq![98u8, 108, 101], rs1, rs2, target, a <= b),
        branch_runs(r, seq![98u8, 103, 116], rs1, rs2, target, a > b),
        branch_runs(r, seq![98u8, 103, 101], rs1, rs2, target, a >= b),
{
    lemma_opcode_roundtrip(OpCode::BranchEqual, 0);
    lemma_opcode_roundtrip(OpCode::BranchNotEqual, 0);
    lemma_opcode_roundtrip(OpCode::BranchLess, 0);
    lemma_opcode_roundtrip(OpCode::BranchLessEqual, 0);
    lemma_opcode_roundtrip(OpCode::BranchGreater, 0);
    lemma_opcode_roundtrip(OpCode::BranchGreaterEqual, 0);
}

} // verus!

verus! {

/// What the instruction written with keyword `w` (lower case) and operand
/// words `a`, `b`, `c` becomes once assembled to its operation number and
/// decoded again, with the data section at `data_start` in `words`.
pub open spec fn keyword_op(
    w: Seq<u8>,
    words: Seq<u32>,
    data_start: int,
    a: u32,
    b: u32,
    c: u32,
) -> Option<Op> {
    match keyword(w) {
        Some(t) => decoded(words, data_start, seq![opcode_value(opcode_for(t)), a, b, c]),
        None => None,
    }
}

/// Running that instruction on `r` gives `expected`: the registers it leaves
/// and the request it hands out.
pub open spec fn keyword_runs(
    r: RegistersModel,
    w: Seq<u8>,
    words: Seq<u32>,
    data_start: int,
    a: u32,
    b: u32,
    c: u32,
    memory_length: int,
    expected: (RegistersModel, Option<RequestModel>),
) -> bool {
    match keyword_op(w, words, data_start, a, b, c) {
        Some(op) => executed(r, op, memory_length) == expected,
        None => false,
    }
}

proof fn lemma_all_opcodes()
    ensures
        forall|op: OpCode| #[trigger] opcode_of(opcode_value(op)) == Some(op),
{
    assert forall|op: OpCode| #[trigger] opcode_of(opcode_value(op)) == Some(op) by {
        lemma_opcode_roundtrip(op, 0);
    }
}

/// `li` loads a number, `mv` copies a register, `addi` adds to a register
/// and `subi` subtracts from it, `exit` moves the instruction pointer to the
/// end of the memory.
pub proof fn lemma_data_keywords(r: RegistersModel, rd: u32, rs: u32, v: u32, n: u32, len: int)
    requires
        registers_valid(r),
        writable(rd),
        readable(rs),
    ensures
        keyword_runs(
            r,
            seq![108u8, 105],
            Seq::empty(),
            0,
            rd,
            v,
            0,
            0,
            (r.with_register(rd, ValueModel::Number(v)), Some(RequestModel::Proceed)),
        ),
        keyword_runs(
            r,
            seq![109u8, 118],
            Seq::empty(),
            0,
            rd,
            rs,
            0,
            0,
            (r.with_register(rd, r.general[rs as int]), Some(RequestModel::Proceed)),
        ),
        number_in(r, rd) == Some(n) && n + v <= u32::MAX ==> keyword_runs(
            r,
            seq![97u8, 100, 100, 105],
            Seq::empty(),
            0,
            rd,
            v,
            0,
            0,
            (r.with_register(rd, ValueModel::Number((n + v) as u32)), Some(RequestModel::Proceed)),
        ),
        number_in(r, rd) == Some(n) && n >= v ==> keyword_runs(
            r,
            seq![115u8, 117, 98, 105],
            Seq::empty(),
            0,
            rd,
            v,
            0,
            0,
            (r.with_register(rd, ValueModel::Number((n - v) as u32)), Some(RequestModel::Proceed)),
        ),
        0 <= len <= usize::MAX ==> keyword_runs(
            r,
            seq![101u8, 120, 105, 116],
            Seq::empty(),
            0,
            0,
            0,
            0,
            len,
            (r.with_pointer(len as usize), Some(RequestModel::Proceed)),
        ),
{
    lemma_all_opcodes();
}

/// `put` prints a register, `pln` prints it and a line feed, `pcx` prints a
/// context register's messages.
pub proof fn lemma_output_keywords(r: RegistersModel, rs: u32, rc: u32)
    requires
        registers_valid(r),
        readable(rs),
        readable(rc),
    ensures
        keyword_runs(
            r,
            seq![112u8, 117, 116],
            Seq::empty(),
            0,
            rs,
            0,
            0,
            0,
            (r, Some(RequestModel::Print { text: shown(r.general[rs as int]) })),
        ),
        keyword_runs(
            r,
            seq![112u8, 108, 110],
            Seq::empty(),
            0,
            rs,
            0,
            0,
            0,
            (r, Some(RequestModel::PrintLine { text: shown(r.general[rs as int]) })),
        ),
        keyword_runs(
            r,
            seq![112u8, 99, 120],
            Seq::empty(),
            0,
            rc,
            0,
            0,
            0,
            (r, Some(RequestModel::PrintContext { messages: r.contexts[rc as int] })),
        ),
{
    lemma_all_opcodes();
}

/// `pop` takes the top message of a context into a register, `drp` drops
/// it, and `mvc` copies a context register into another.
pub proof fn lemma_context_keywords(r: RegistersModel, rd: u32, rc: u32, rsc: u32)
    requires
        registers_valid(r),
        writable(rd),
        writable(rc),
        readable(rsc),
    ensures
        r.contexts[rc as int].len() > 0 ==> keyword_runs(
            r,
            seq![112u8, 111, 112],
            Seq::empty(),
            0,
            rd,
            rc,
            0,
            0,
            (
                r.with_context(rc, r.contexts[rc as int].drop_last()).with_register(
                    rd,
                    ValueModel::Text(r.contexts[rc as int].last().content),
                ),
                Some(RequestModel::Proceed),
            ),
        ),
        r.contexts[rc as int].len() > 0 ==> keyword_runs(
            r,
            seq![100u8, 114, 112],
            Seq::empty(),
            0,
            rc,
            0,
            0,
            0,
            (r.with_context(rc, r.contexts[rc as int].drop_last()), Some(RequestModel::Proceed)),
        ),
        keyword_runs(
            r,
            seq![109u8, 118, 99],
            Seq::empty(),
            0,
            rc,
            rsc,
            0,
            0,
            (r.with_context(rc, r.contexts[rsc as int]), Some(RequestModel::Proceed)),
        ),
{
    lemma_all_opcodes();
    let w = seq![109u8, 118, 99];
    assert(w.len() == 3 && w[0] == 109 && w[1] == 118 && w[2] == 99);
    assert(keyword(w) == Some(TokenType::MoveContext));
    assert(opcode_for(TokenType::MoveContext) == OpCode::MoveContext);
    assert(keyword_op(seq![109u8, 118, 99], Seq::empty(), 0, rc, rsc, 0) == Some(
        Op::MoveContext { rdc: rc, rsc },
    ));
}

/// `ls` loads the string operand into a register, `lc` asks for the file it
/// names, and `psh` pushes a register's text on a context with the string
/// operand as its role.
pub proof fn lemma_string_keywords(
    r: RegistersModel,
    words: Seq<u32>,
    data_start: int,
    pointer: u32,
    text: Seq<char>,
    rd: u32,
    rc: u32,
    rs: u32,
    content: Seq<char>,
)
    requires
        registers_valid(r),
        writable(rd),
        writable(rc),
        stored_string(words, data_start, pointer) == Some(text),
        text_in(r, rs) == Some(content),
    ensures
        keyword_runs(
            r,
            seq![108u8, 115],
            words,
            data_start,
            rd,
            pointer,
            0,
            0,
            (r.with_register(rd, ValueModel::Text(text)), Some(RequestModel::Proceed)),
        ),
        keyword_runs(
            r,
            seq![108u8, 99],
            words,
            data_start,
            rd,
            pointer,
            0,
            0,
            (r, Some(RequestModel::LoadContent { rd, path: text })),
        ),
        keyword_runs(
            r,
            seq![112u8, 115, 104],
            words,
            data_start,
            rc,
            rs,
            pointer,
            0,
            (
                r.with_context(
                    rc,
                    r.contexts[rc as int].push(MessageModel { role: text, content }),
                ),
                Some(RequestModel::Proceed),
            ),
        ),
{
    lemma_all_opcodes();
}

/// `rln` loads line `k` of a text, `cln` counts its lines; `sim` asks for
/// the similarity of two texts, `inf` for a reply to a prompt and `eval` for
/// a yes-or-no answer to a question, both after the messages of a context.
pub proof fn lemma_text_keywords(
    r: RegistersModel,
    rd: u32,
    rs: u32,
    rs2: u32,
    rc: u32,
    t: Seq<char>,
    u: Seq<char>,
    k: u32,
)
    requires
        registers_valid(r),
        writable(rd),
        readable(rc),
        text_in(r, rs) == Some(t),
        text_in(r, rs2) == Some(u),
    ensures
        number_in(r, rs2) == Some(k) && k < lines(t).len() ==> keyword_runs(
            r,
            seq![114u8, 108, 110],
            Seq::empty(),
            0,
            rd,
            rs,
            rs2,
            0,
            (r.with_register(rd, ValueModel::Text(lines(t)[k as int])), Some(RequestModel::Proceed)),
        ),
        lines(t).len() <= u32::MAX ==> keyword_runs(
            r,
            seq![99u8, 108, 110],
            Seq::empty(),
            0,
            rd,
            rs,
            0,
            0,
            (
                r.with_register(rd, ValueModel::Number(lines(t).len() as u32)),
                Some(RequestModel::Proceed),
            ),
        ),
        keyword_runs(
            r,
            seq![115u8, 105, 109],
            Seq::empty(),
            0,
            rd,
            rs,
            rs2,
            0,
            (r, Some(RequestModel::Similarity { rd, first: t, second: u })),
        ),
        valid_messages(merged(raw_messages(t, r.contexts[rc as int]))) ==> keyword_runs(
            r,
            seq![105u8, 110, 102],
            Seq::empty(),
            0,
            rd,
            rs,
            rc,
            0,
            (
                r,
                Some(
                    RequestModel::Inference {
                        rd,
                        messages: merged(raw_messages(t, r.contexts[rc as int])),
                    },
                ),
            ),
        ),
        valid_messages(merged(raw_messages(t + evaluation_suffix(), r.contexts[rc as int])))
            ==> keyword_runs(
            r,
            seq![101u8, 118, 97, 108],
            Seq::empty(),
            0,
            rd,
            rs,
            rc,
            0,
            (
                r,
                Some(
                    RequestModel::Evaluate {
                        rd,
                        messages: merged(raw_messages(t + evaluation_suffix(), r.contexts[rc as int])),
                    },
                ),
            ),
        ),
{
    lemma_all_opcodes();
}

} // verus!
