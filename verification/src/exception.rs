//! The errors of the library: a message, the component that raised it and
//! the error that caused it.
use vstd::prelude::*;

use crate::text::owned;

verus! {

/// An error message with the error that caused it, if any. The library
/// records no source location: `location` is empty.
#[derive(Debug)]
pub struct BaseException {
    pub location: String,
    pub message: String,
    pub inner_exception: Option<Box<Exception>>,
}

/// An error, tagged with the component that raised it.
#[derive(Debug)]
pub enum Exception {
    BaseException(BaseException),
    Program(BaseException),
    Assembler(BaseException),
    OpenAIChatCompletion(BaseException),
    OpenAIEmbeddings(BaseException),
    LanguageLogic(BaseException),
    ControlUnit(BaseException),
    Decoder(BaseException),
    Executor(BaseException),
    Processor(BaseException),
    Memory(BaseException),
    Register(BaseException),
    Config(BaseException),
}

impl BaseException {
    pub fn new(message: String, inner_exception: Option<Box<Exception>>) -> (e: BaseException)
        ensures
            e.message@ == message@,
            e.inner_exception == inner_exception,
            e.location@ == Seq::<char>::empty(),
    {
        BaseException { message, inner_exception, location: String::new() }
    }

    /// An error with `message`, caused by `cause`.
    pub fn caused_by(message: String, cause: Exception) -> (e: BaseException)
        ensures
            e.message@ == message@,
            e.inner_exception == Some(Box::new(cause)),
            e.location@ == Seq::<char>::empty(),
    {
        BaseException::new(message, Some(Box::new(cause)))
    }
}

impl BaseException {
    /// The message and cause of an error, without its component.
    pub fn from(exception: Exception) -> (e: BaseException)
        ensures
            e.message@ == exception.base().message@,
            e.inner_exception == exception.base().inner_exception,
            e.location@ == Seq::<char>::empty(),
    {
        let e = exception.into_inner();
        BaseException::new(e.message, e.inner_exception)
    }
}

impl Exception {
    /// The message and cause that every variant holds.
    pub open spec fn base(self) -> BaseException {
        match self {
            Exception::BaseException(e) => e,
            Exception::Program(e) => e,
            Exception::Assembler(e) => e,
            Exception::OpenAIChatCompletion(e) => e,
            Exception::OpenAIEmbeddings(e) => e,
            Exception::LanguageLogic(e) => e,
            Exception::ControlUnit(e) => e,
            Exception::Decoder(e) => e,
            Exception::Executor(e) => e,
            Exception::Processor(e) => e,
            Exception::Memory(e) => e,
            Exception::Register(e) => e,
            Exception::Config(e) => e,
        }
    }

    pub fn inner(&self) -> (e: &BaseException)
        ensures
            *e == self.base(),
    {
        match self {
            Exception::BaseException(e) => e,
            Exception::Program(e) => e,
            Exception::Assembler(e) => e,
            Exception::OpenAIChatCompletion(e) => e,
            Exception::OpenAIEmbeddings(e) => e,
            Exception::LanguageLogic(e) => e,
            Exception::ControlUnit(e) => e,
            Exception::Decoder(e) => e,
            Exception::Executor(e) => e,
            Exception::Processor(e) => e,
            Exception::Memory(e) => e,
            Exception::Register(e) => e,
            Exception::Config(e) => e,
        }
    }

    pub fn into_inner(self) -> (e: BaseException)
        ensures
            e == self.base(),
    {
        match self {
            Exception::BaseException(e) => e,
            Exception::Program(e) => e,
            Exception::Assembler(e) => e,
            Exception::OpenAIChatCompletion(e) => e,
            Exception::OpenAIEmbeddings(e) => e,
            Exception::LanguageLogic(e) => e,
            Exception::ControlUnit(e) => e,
            Exception::Decoder(e) => e,
            Exception::Executor(e) => e,
            Exception::Processor(e) => e,
            Exception::Memory(e) => e,
            Exception::Register(e) => e,
            Exception::Config(e) => e,
        }
    }
}

/// How an error reads: `[location] message`, then for each cause in turn a
/// new line, `  Caused by: ` and how the cause reads.
pub open spec fn described(e: Exception) -> Seq<char>
    decreases e,
{
    match e {
        Exception::BaseException(b) | Exception::Program(b) | Exception::Assembler(b)
        | Exception::OpenAIChatCompletion(b) | Exception::OpenAIEmbeddings(b)
        | Exception::LanguageLogic(b) | Exception::ControlUnit(b) | Exception::Decoder(b)
        | Exception::Executor(b) | Exception::Processor(b) | Exception::Memory(b)
        | Exception::Register(b) | Exception::Config(b) => {
            let head = seq!['['] + b.location@ + seq![']', ' '] + b.message@;
            match b.inner_exception {
                Some(inner) => head + "\n  Caused by: "@ + described(*inner),
                None => head,
            }
        },
    }
}

impl Exception {
    /// The text of the error and of its causes; see `described`.
    pub fn to_display_string(&self) -> (s: String)
        ensures
            s@ == described(*self),
        decreases self,
    {
        match self {
            Exception::BaseException(b) | Exception::Program(b) | Exception::Assembler(b)
            | Exception::OpenAIChatCompletion(b) | Exception::OpenAIEmbeddings(b)
            | Exception::LanguageLogic(b) | Exception::ControlUnit(b) | Exception::Decoder(b)
            | Exception::Executor(b) | Exception::Processor(b) | Exception::Memory(b)
            | Exception::Register(b) | Exception::Config(b) => {
                let mut s = owned("[");
                s.append(b.location.as_str());
                s.append("] ");
                s.append(b.message.as_str());
                proof {
                    reveal_strlit("[");
                    reveal_strlit("] ");
                }
                match &b.inner_exception {
                    Some(inner) => {
                        let rest = inner.to_display_string();
                        s.append("\n  Caused by: ");
                        s.append(rest.as_str());
                        proof {
                            assert(s@ =~= seq!['['] + b.location@ + seq![']', ' '] + b.message@
                                + "\n  Caused by: "@ + described(**inner));
                        }
                        s
                    },
                    None => {
                        assert(s@ =~= seq!['['] + b.location@ + seq![']', ' '] + b.message@);
                        s
                    },
                }
            },
        }
    }
}

/// A base exception with a fixed message and no cause.
pub fn plain(message: &str) -> (e: BaseException)
    ensures
        e.message@ == message@,
        e.inner_exception is None,
{
    BaseException::new(owned(message), None)
}

/// A base exception with a fixed message, caused by `cause`.
pub fn wrapped(message: &str, cause: Exception) -> (e: BaseException)
    ensures
        e.message@ == message@,
        e.inner_exception == Some(Box::new(cause)),
{
    BaseException::caused_by(owned(message), cause)
}

} // verus!
