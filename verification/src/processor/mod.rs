//! The processor: memory, registers and the control unit that runs byte code.
//! A run is a sequence of steps; a step that needs the world outside hands
//! back a `Request`, and the caller hands the result back with `complete`.
pub mod control_unit;
pub mod decoder;
pub mod executor;
pub mod instruction;
pub mod language_logic_unit;
pub mod memory;
pub mod openai;
pub mod registers;

use vstd::prelude::*;

use crate::config::Config;
use crate::exception::{plain, wrapped, Exception};
use crate::processor::control_unit::{
    loaded_registers, stepped, ControlUnit, MachineModel,
};
use crate::processor::executor::Request;
use crate::processor::registers::{initial_registers, writable, Value};

verus! {

/// `words` are the bytes of `data` taken four at a time.
pub open spec fn split_words(data: Seq<u8>, words: Seq<[u8; 4]>) -> bool {
    &&& words.len() * 4 == data.len()
    &&& forall|i: int| 0 <= i < words.len() ==> #[trigger] words[i]@ == data.subrange(4 * i, 4 * i + 4)
}

pub struct Processor {
    config: Config,
    control_unit: ControlUnit,
}

impl Processor {
    /// The memory and registers.
    pub closed spec fn machine(&self) -> MachineModel {
        self.control_unit@
    }

    /// The settings it runs with.
    pub closed spec fn settings(&self) -> Config {
        self.config
    }

    pub closed spec fn wf(&self) -> bool {
        self.control_unit.wf()
    }

    pub fn new(config: Config) -> (p: Processor)
        ensures
            p.wf(),
            p.settings() == config,
            p.machine() == (MachineModel { memory: Seq::empty(), registers: initial_registers() }),
    {
        Processor { config, control_unit: ControlUnit::new() }
    }

    pub fn config(&self) -> (c: &Config)
        ensures
            *c == self.settings(),
    {
        &self.config
    }

    /// Loads byte code. Its length must be a multiple of four bytes and it
    /// must hold the two header words.
    pub fn load(&mut self, data: &[u8]) -> (r: Result<(), Exception>)
        requires
            old(self).wf(),
        ensures
            final(self).wf(),
            final(self).settings() == old(self).settings(),
            r is Ok <==> data@.len() % 4 == 0 && data@.len() >= 8,
            r is Ok ==> split_words(data@, final(self).machine().memory),
            r is Ok ==> final(self).machine().registers == loaded_registers(
                old(self).machine().registers,
                final(self).machine().memory,
            ),
            r is Err ==> final(self).machine() == old(self).machine(),
            r matches Err(e) ==> e is Processor,
    {
        if data.len() % 4 != 0 {
            return Err(
                Exception::Processor(
                    plain("Invalid byte code length. Must be a multiple of 4 bytes."),
                ),
            );
        }
        let n = data.len() / 4;
        assert(4 * n == data.len());
        let mut words: Vec<[u8; 4]> = Vec::new();
        let mut k: usize = 0;
        while k < n
            invariant
                k <= n,
                4 * n == data.len(),
                words.len() == k,
                forall|i: int| 0 <= i < k ==> #[trigger] words@[i]@ == data@.subrange(4 * i, 4 * i + 4),
            decreases n - k,
        {
            let j = 4 * k;
            let w = [data[j], data[j + 1], data[j + 2], data[j + 3]];
            assert(w@ =~= data@.subrange(j as int, j + 4));
            words.push(w);
            k += 1;
        }
        match self.control_unit.load(words.as_slice()) {
            Ok(()) => Ok(()),
            Err(e) => Err(Exception::Processor(wrapped("Failed to load byte code.", e))),
        }
    }

    /// Runs one cycle: fetches, decodes and executes the next instruction.
    /// `None` when the program has ended; otherwise the request that the
    /// instruction leaves (see `stepped`).
    pub fn step(&mut self) -> (r: Result<Option<Request>, Exception>)
        requires
            old(self).wf(),
        ensures
            final(self).wf(),
            final(self).settings() == old(self).settings(),
            final(self).machine().memory == old(self).machine().memory,
            final(self).machine().registers == stepped(old(self).machine()).0,
            r is Ok <==> stepped(old(self).machine()).1 is Some,
            r matches Ok(None) ==> stepped(old(self).machine()).1 == Some(
                None::<crate::processor::executor::RequestModel>,
            ),
            r matches Ok(Some(q)) ==> stepped(old(self).machine()).1 == Some(Some(q@)),
            r matches Err(e) ==> e is Processor,
    {
        let ghost m = self.control_unit@;
        match self.control_unit.fetch() {
            Ok(true) => {},
            Ok(false) => {
                return Ok(None);
            },
            Err(e) => {
                return Err(Exception::Processor(wrapped("Failed to fetch instruction.", e)));
            },
        }
        proof {
            let ip = m.registers.instruction_pointer as int;
            let words = crate::processor::memory::word_values(m.memory);
            let s = self.control_unit@.registers.instruction.unwrap();
            assert(s.map_values(|b: Seq<u8>| crate::word::word_value(b)) =~= words.subrange(
                ip,
                ip + 4,
            ));
        }
        let instruction = match self.control_unit.decode() {
            Ok(i) => i,
            Err(e) => {
                return Err(Exception::Processor(wrapped("Failed to decode instruction.", e)));
            },
        };
        match self.control_unit.execute(&instruction) {
            Ok(q) => Ok(Some(q)),
            Err(e) => Err(Exception::Processor(wrapped("Failed to execute instruction.", e))),
        }
    }

    /// Hands back the result of a request: stores `value` in register `rd`.
    pub fn complete(&mut self, rd: u32, value: Value) -> (r: Result<(), Exception>)
        requires
            old(self).wf(),
        ensures
            final(self).wf(),
            final(self).settings() == old(self).settings(),
            final(self).machine().memory == old(self).machine().memory,
            r is Ok <==> writable(rd),
            r is Ok ==> final(self).machine().registers == old(self).machine().registers.with_register(
                rd,
                value@,
            ),
            r is Err ==> final(self).machine() == old(self).machine(),
            r matches Err(e) ==> e is Processor,
    {
        match self.control_unit.store(rd, &value) {
            Ok(()) => Ok(()),
            Err(e) => Err(Exception::Processor(wrapped("Failed to store a result.", e))),
        }
    }
}

} // verus!
