//! The registers of the processor: 33 general-purpose registers that hold
//! values, 33 context registers that hold message stacks, the instruction
//! pointer, the fetched instruction and the start of the data section.
use vstd::prelude::*;

use crate::exception::{plain, Exception};
use crate::text::{decimal, decimal_string, owned};

verus! {

/// The number of general-purpose registers, and of context registers.
pub const REGISTER_COUNT: usize = 33;

/// What a general-purpose register holds.
#[derive(Debug)]
pub enum Value {
    Text(String),
    Number(u32),
    Empty,
}

/// A value as the contracts see it.
pub enum ValueModel {
    Text(Seq<char>),
    Number(u32),
    Empty,
}

impl View for Value {
    type V = ValueModel;

    open spec fn view(&self) -> ValueModel {
        match self {
            Value::Text(t) => ValueModel::Text(t@),
            Value::Number(n) => ValueModel::Number(*n),
            Value::Empty => ValueModel::Empty,
        }
    }
}

/// The text that printing a value shows: text as it is, a number in
/// decimal, and nothing for an empty register.
pub open spec fn shown(v: ValueModel) -> Seq<char> {
    match v {
        ValueModel::Text(t) => t,
        ValueModel::Number(n) => decimal(n as nat),
        ValueModel::Empty => Seq::empty(),
    }
}

impl Value {
    /// A copy of this value.
    pub fn duplicate(&self) -> (v: Value)
        ensures
            v@ == self@,
    {
        match self {
            Value::Text(t) => Value::Text(t.clone()),
            Value::Number(n) => Value::Number(*n),
            Value::Empty => Value::Empty,
        }
    }

    /// The text that printing this value shows.
    pub fn to_display_string(&self) -> (s: String)
        ensures
            s@ == shown(self@),
    {
        match self {
            Value::Text(t) => t.clone(),
            Value::Number(n) => decimal_string(*n as u64),
            Value::Empty => String::new(),
        }
    }
}

/// One message of a context stack: who said it and what was said.
#[derive(Debug)]
pub struct ContextMessage {
    pub role: String,
    pub content: String,
}

/// A message as the contracts see it.
pub struct MessageModel {
    pub role: Seq<char>,
    pub content: Seq<char>,
}

impl View for ContextMessage {
    type V = MessageModel;

    open spec fn view(&self) -> MessageModel {
        MessageModel { role: self.role@, content: self.content@ }
    }
}

/// The models of a sequence of messages.
pub open spec fn message_models(s: Seq<ContextMessage>) -> Seq<MessageModel> {
    s.map_values(|m: ContextMessage| m@)
}

impl ContextMessage {
    pub fn new(role: &str, content: &str) -> (m: ContextMessage)
        ensures
            m@ == (MessageModel { role: role@, content: content@ }),
    {
        ContextMessage { role: owned(role), content: owned(content) }
    }

    /// A copy of this message.
    pub fn duplicate(&self) -> (m: ContextMessage)
        ensures
            m@ == self@,
    {
        ContextMessage { role: self.role.clone(), content: self.content.clone() }
    }
}

/// A copy of a sequence of messages.
pub fn copy_messages(messages: &[ContextMessage]) -> (v: Vec<ContextMessage>)
    ensures
        message_models(v@) == message_models(messages@),
{
    let mut v: Vec<ContextMessage> = Vec::new();
    let mut i: usize = 0;
    while i < messages.len()
        invariant
            i <= messages.len(),
            v.len() == i,
            forall|k: int| 0 <= k < i ==> #[trigger] v@[k]@ == messages@[k]@,
        decreases messages.len() - i,
    {
        v.push(messages[i].duplicate());
        i += 1;
    }
    assert(message_models(v@) =~= message_models(messages@));
    v
}

/// The registers as the contracts see them.
pub struct RegistersModel {
    pub general: Seq<ValueModel>,
    pub contexts: Seq<Seq<MessageModel>>,
    pub instruction_pointer: usize,
    pub instruction: Option<Seq<Seq<u8>>>,
    pub data_section_pointer: usize,
}

/// The fetched instruction as the contracts see it: its four words, each as
/// its four bytes.
pub open spec fn instruction_model(b: Option<[[u8; 4]; 4]>) -> Option<Seq<Seq<u8>>> {
    match b {
        Some(words) => Some(words@.map_values(|w: [u8; 4]| w@)),
        None => None,
    }
}

/// A register number that names a register.
pub open spec fn readable(n: u32) -> bool {
    n < REGISTER_COUNT
}

/// A register number that names a register that can be written: register 0
/// is read-only, in both banks.
pub open spec fn writable(n: u32) -> bool {
    1 <= n < REGISTER_COUNT
}

/// General-purpose register 0 always holds the number 0, and context register
/// 0 always holds an empty stack.
pub open spec fn registers_valid(r: RegistersModel) -> bool {
    &&& r.general.len() == REGISTER_COUNT
    &&& r.contexts.len() == REGISTER_COUNT
    &&& r.general[0] == ValueModel::Number(0)
    &&& r.contexts[0] == Seq::<MessageModel>::empty()
}

impl RegistersModel {
    /// The registers with general-purpose register `n` set to `v`.
    pub open spec fn with_register(self, n: u32, v: ValueModel) -> RegistersModel {
        RegistersModel { general: self.general.update(n as int, v), ..self }
    }

    /// The registers with context register `n` set to `c`.
    pub open spec fn with_context(self, n: u32, c: Seq<MessageModel>) -> RegistersModel {
        RegistersModel { contexts: self.contexts.update(n as int, c), ..self }
    }

    /// The registers with the instruction pointer set to `p`.
    pub open spec fn with_pointer(self, p: usize) -> RegistersModel {
        RegistersModel { instruction_pointer: p, ..self }
    }
}

/// The registers of a freshly made processor.
pub open spec fn initial_registers() -> RegistersModel {
    RegistersModel {
        general: Seq::new(
            REGISTER_COUNT as nat,
            |i: int|
                if i == 0 {
                    ValueModel::Number(0)
                } else {
                    ValueModel::Empty
                },
        ),
        contexts: Seq::new(REGISTER_COUNT as nat, |i: int| Seq::<MessageModel>::empty()),
        instruction_pointer: 0,
        instruction: None,
        data_section_pointer: 0,
    }
}

pub struct Registers {
    general_purpose: Vec<Value>,
    context: Vec<Vec<ContextMessage>>,
    instruction_pointer: usize,
    instruction: Option<[[u8; 4]; 4]>,
    data_section_pointer: usize,
}

impl View for Registers {
    type V = RegistersModel;

    closed spec fn view(&self) -> RegistersModel {
        RegistersModel {
            general: self.general_purpose@.map_values(|v: Value| v@),
            contexts: self.context@.map_values(|c: Vec<ContextMessage>| message_models(c@)),
            instruction_pointer: self.instruction_pointer,
            instruction: instruction_model(self.instruction),
            data_section_pointer: self.data_section_pointer,
        }
    }
}

impl Registers {
    /// Register 0 of each bank holds its fixed value and there are 33 of each.
    pub open spec fn wf(&self) -> bool {
        registers_valid(self@)
    }

    pub fn new() -> (r: Registers)
        ensures
            r@ == initial_registers(),
            r.wf(),
    {
        let mut general_purpose: Vec<Value> = Vec::new();
        let mut context: Vec<Vec<ContextMessage>> = Vec::new();
        general_purpose.push(Value::Number(0));
        let first: Vec<ContextMessage> = Vec::new();
        assert(message_models(first@) =~= Seq::<MessageModel>::empty());
        context.push(first);
        let mut i: usize = 1;
        while i < REGISTER_COUNT
            invariant
                1 <= i <= REGISTER_COUNT,
                general_purpose.len() == i,
                context.len() == i,
                general_purpose@.map_values(|v: Value| v@) =~= initial_registers().general.take(
                    i as int,
                ),
                context@.map_values(|c: Vec<ContextMessage>| message_models(c@))
                    =~= initial_registers().contexts.take(i as int),
            decreases REGISTER_COUNT - i,
        {
            general_purpose.push(Value::Empty);
            let empty: Vec<ContextMessage> = Vec::new();
            assert(message_models(empty@) =~= Seq::<MessageModel>::empty());
            context.push(empty);
            i += 1;
            assert(general_purpose@.map_values(|v: Value| v@) =~= initial_registers().general.take(
                i as int,
            ));
            assert(context@.map_values(|c: Vec<ContextMessage>| message_models(c@))
                =~= initial_registers().contexts.take(i as int));
        }
        let r = Registers {
            general_purpose,
            context,
            instruction_pointer: 0,
            instruction: None,
            data_section_pointer: 0,
        };
        assert(r@.general =~= initial_registers().general);
        assert(r@.contexts =~= initial_registers().contexts);
        r
    }

    /// The value of general-purpose register `n`.
    pub fn get_register(&self, n: u32) -> (r: Result<&Value, Exception>)
        requires
            self.wf(),
        ensures
            r is Ok <==> readable(n),
            r matches Ok(v) ==> v@ == self@.general[n as int],
            r matches Err(e) ==> e is Register,
    {
        if n < 33 {
            let ghost g = self@.general;
            assert(g[n as int] == self.general_purpose@[n as int]@);
            Ok(&self.general_purpose[n as usize])
        } else {
            Err(Exception::Register(plain("Register number out of range (0-32).")))
        }
    }

    /// Writes `value` into general-purpose register `n`; register 0 is
    /// read-only.
    pub fn set_register(&mut self, n: u32, value: &Value) -> (r: Result<(), Exception>)
        requires
            old(self).wf(),
        ensures
            final(self).wf(),
            r is Ok <==> writable(n),
            r is Ok ==> final(self)@ == old(self)@.with_register(n, value@),
            r is Err ==> final(self)@ == old(self)@,
            r matches Err(e) ==> e is Register,
    {
        if n >= 33 {
            return Err(Exception::Register(plain("Register number out of range (0-32).")));
        }
        if n == 0 {
            return Err(
                Exception::Register(plain("Cannot write to register 0 (it always holds 0).")),
            );
        }
        self.general_purpose.set(n as usize, value.duplicate());
        assert(self@.general =~= old(self)@.general.update(n as int, value@));
        assert(self@.contexts =~= old(self)@.contexts);
        Ok(())
    }

    /// The messages of context register `n`.
    pub fn get_context(&self, n: u32) -> (r: Result<&[ContextMessage], Exception>)
        requires
            self.wf(),
        ensures
            r is Ok <==> readable(n),
            r matches Ok(s) ==> message_models(s@) == self@.contexts[n as int],
            r matches Err(e) ==> e is Register,
    {
        if n < 33 {
            let ghost c = self@.contexts;
            assert(c[n as int] == message_models(self.context@[n as int]@));
            Ok(self.context[n as usize].as_slice())
        } else {
            Err(Exception::Register(plain("Register number out of range (0-32).")))
        }
    }

    /// Replaces the stack of context register `n` with a copy of `messages`;
    /// register 0 is read-only.
    pub fn set_context(&mut self, n: u32, messages: &[ContextMessage]) -> (r: Result<(), Exception>)
        requires
            old(self).wf(),
        ensures
            final(self).wf(),
            r is Ok <==> writable(n),
            r is Ok ==> final(self)@ == old(self)@.with_context(n, message_models(messages@)),
            r is Err ==> final(self)@ == old(self)@,
            r matches Err(e) ==> e is Register,
    {
        if n >= 33 {
            return Err(Exception::Register(plain("Register number out of range (0-32).")));
        }
        if n == 0 {
            return Err(
                Exception::Register(
                    plain("Cannot write to context register 0 (it always holds no messages)."),
                ),
            );
        }
        let copy = copy_messages(messages);
        self.context.set(n as usize, copy);
        assert(self@.contexts =~= old(self)@.contexts.update(n as int, message_models(messages@)));
        assert(self@.general =~= old(self)@.general);
        Ok(())
    }

    /// Pushes `message` on top of the stack of context register `n`;
    /// register 0 is read-only.
    pub fn push_context(&mut self, message: ContextMessage, n: u32) -> (r: Result<(), Exception>)
        requires
            old(self).wf(),
        ensures
            final(self).wf(),
            r is Ok <==> writable(n),
            r is Ok ==> final(self)@ == old(self)@.with_context(
                n,
                old(self)@.contexts[n as int].push(message@),
            ),
            r is Err ==> final(self)@ == old(self)@,
            r matches Err(e) ==> e is Register,
    {
        if n >= 33 {
            return Err(Exception::Register(plain("Register number out of range (0-32).")));
        }
        if n == 0 {
            return Err(
                Exception::Register(
                    plain("Cannot write to context register 0 (it always holds no messages)."),
                ),
            );
        }
        let ghost m = message@;
        let ghost before = self.context@[n as int];
        self.context[n as usize].push(message);
        assert(message_models(self.context@[n as int]@) =~= message_models(before@).push(m));
        assert(self@.contexts =~= old(self)@.contexts.update(
            n as int,
            old(self)@.contexts[n as int].push(m),
        ));
        assert(self@.general =~= old(self)@.general);
        Ok(())
    }

    /// Takes the top message off the stack of context register `n`; register
    /// 0 is read-only, and an empty stack has nothing to take.
    pub fn pop_context(&mut self, n: u32) -> (r: Result<ContextMessage, Exception>)
        requires
            old(self).wf(),
        ensures
            final(self).wf(),
            r is Ok <==> writable(n) && old(self)@.contexts[n as int].len() > 0,
            r matches Ok(m) ==> m@ == old(self)@.contexts[n as int].last() && final(self)@
                == old(self)@.with_context(n, old(self)@.contexts[n as int].drop_last()),
            r is Err ==> final(self)@ == old(self)@,
            r matches Err(e) ==> e is Register,
    {
        if n >= 33 {
            return Err(Exception::Register(plain("Register number out of range (0-32).")));
        }
        if n == 0 {
            return Err(
                Exception::Register(
                    plain("Cannot read from context register 0 (it always holds no messages)."),
                ),
            );
        }
        let ghost before = self.context@[n as int];
        assert(old(self)@.contexts[n as int] == message_models(before@));
        if self.context[n as usize].len() == 0 {
            return Err(Exception::Register(plain("Context stack is empty.")));
        }
        let popped = self.context[n as usize].pop();
        match popped {
            Some(m) => {
                assert(message_models(self.context@[n as int]@) =~= message_models(
                    before@,
                ).drop_last());
                assert(self@.contexts =~= old(self)@.contexts.update(
                    n as int,
                    old(self)@.contexts[n as int].drop_last(),
                ));
                assert(self@.general =~= old(self)@.general);
                Ok(m)
            },
            None => Err(Exception::Register(plain("Context stack is empty."))),
        }
    }

    pub fn get_instruction_pointer(&self) -> (p: usize)
        ensures
            p == self@.instruction_pointer,
    {
        self.instruction_pointer
    }

    pub fn set_instruction_pointer(&mut self, address: usize)
        ensures
            final(self)@ == old(self)@.with_pointer(address),
    {
        self.instruction_pointer = address;
    }

    /// Moves the instruction pointer `offset` words on.
    pub fn advance_instruction_pointer(&mut self, offset: usize)
        requires
            old(self)@.instruction_pointer + offset <= usize::MAX,
        ensures
            final(self)@ == old(self)@.with_pointer(
                (old(self)@.instruction_pointer + offset) as usize,
            ),
    {
        self.instruction_pointer = self.instruction_pointer + offset;
    }

    pub fn get_instruction(&self) -> (i: Option<[[u8; 4]; 4]>)
        ensures
            instruction_model(i) == self@.instruction,
    {
        self.instruction
    }

    pub fn set_instruction(&mut self, be_bytes: Option<[[u8; 4]; 4]>)
        ensures
            final(self)@ == (RegistersModel {
                instruction: instruction_model(be_bytes),
                ..old(self)@
            }),
    {
        self.instruction = be_bytes;
    }

    pub fn get_data_section_pointer(&self) -> (p: usize)
        ensures
            p == self@.data_section_pointer,
    {
        self.data_section_pointer
    }

    pub fn set_data_section_pointer(&mut self, address: usize)
        ensures
            final(self)@ == (RegistersModel { data_section_pointer: address, ..old(self)@ }),
    {
        self.data_section_pointer = address;
    }
}

} // verus!
