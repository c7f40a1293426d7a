//! The control unit: loads byte code, fetches, decodes and executes
//! instructions.
use vstd::prelude::*;

use crate::exception::{plain, wrapped, Exception};
use crate::processor::decoder::{decoded, instruction_words, Decoder};
use crate::processor::executor::{executed, Executor, Request, RequestModel};
use crate::processor::instruction::{Instruction, Op};
use crate::processor::memory::{word_values, Memory};
use crate::processor::registers::{
    initial_registers, instruction_model, registers_valid, writable, Registers, RegistersModel,
    Value, ValueModel,
};
use crate::word::{from_be_bytes, word_value};

verus! {

/// The memory and registers of a processor, as the contracts see them.
pub struct MachineModel {
    pub memory: Seq<[u8; 4]>,
    pub registers: RegistersModel,
}

/// The registers after fetching the instruction at the instruction pointer:
/// its four words are held and the pointer moves past them.
pub open spec fn fetched_registers(m: MachineModel) -> RegistersModel {
    let ip = m.registers.instruction_pointer as int;
    RegistersModel {
        instruction: Some(m.memory.subrange(ip, ip + 4).map_values(|w: [u8; 4]| w@)),
        instruction_pointer: (ip + 4) as usize,
        ..m.registers
    }
}

/// The registers after loading byte code whose first two words point at the
/// instructions and at the data.
pub open spec fn loaded_registers(r: RegistersModel, code: Seq<[u8; 4]>) -> RegistersModel {
    RegistersModel {
        instruction_pointer: word_value(code[0]@) as usize,
        instruction: None,
        data_section_pointer: word_value(code[1]@) as usize,
        ..r
    }
}

/// One cycle of the machine: the registers it leaves and its outcome. The
/// outcome is `None` when the cycle fails, `Some(None)` when the program has
/// ended (the instruction pointer has reached the data section), and
/// `Some(Some(q))` when an instruction ran and left the request `q`.
pub open spec fn stepped(m: MachineModel) -> (RegistersModel, Option<Option<RequestModel>>) {
    let r = m.registers;
    let ip = r.instruction_pointer as int;
    let words = word_values(m.memory);
    if ip >= r.data_section_pointer {
        (r, Some(None))
    } else if ip + 4 > m.memory.len() {
        (r, None)
    } else {
        match decoded(words, r.data_section_pointer as int, words.subrange(ip, ip + 4)) {
            None => (fetched_registers(m), None),
            Some(op) => {
                let (after, q) = executed(fetched_registers(m), op, m.memory.len() as int);
                (
                    after,
                    match q {
                        Some(x) => Some(Some(x)),
                        None => None,
                    },
                )
            },
        }
    }
}

pub struct ControlUnit {
    memory: Memory,
    registers: Registers,
}

impl View for ControlUnit {
    type V = MachineModel;

    closed spec fn view(&self) -> MachineModel {
        MachineModel { memory: self.memory.cells(), registers: self.registers@ }
    }
}

impl ControlUnit {
    pub open spec fn wf(&self) -> bool {
        registers_valid(self@.registers)
    }

    pub fn new() -> (c: ControlUnit)
        ensures
            c@ == (MachineModel { memory: Seq::empty(), registers: initial_registers() }),
            c.wf(),
    {
        ControlUnit { memory: Memory::new(), registers: Registers::new() }
    }

    /// The four words at the instruction pointer.
    fn read_instruction(&self) -> (r: Result<[[u8; 4]; 4], Exception>)
        ensures
            self@.memory.len() <= usize::MAX,
            r is Ok <==> self@.registers.instruction_pointer + 4 <= self@.memory.len(),
            r matches Ok(b) ==> b@.map_values(|w: [u8; 4]| w@) == self@.memory.subrange(
                self@.registers.instruction_pointer as int,
                self@.registers.instruction_pointer + 4,
            ).map_values(|w: [u8; 4]| w@),
            r matches Err(e) ==> e is ControlUnit,
    {
        let ip = self.registers.get_instruction_pointer();
        let length = self.memory.length();
        if ip >= length || length - ip < 4 {
            return Err(Exception::ControlUnit(plain("Failed to read the instruction.")));
        }
        let w0 = *self.memory.read(ip).unwrap();
        let w1 = *self.memory.read(ip + 1).unwrap();
        let w2 = *self.memory.read(ip + 2).unwrap();
        let w3 = *self.memory.read(ip + 3).unwrap();
        let b = [w0, w1, w2, w3];
        assert(b@.map_values(|w: [u8; 4]| w@) =~= self@.memory.subrange(ip as int, ip + 4).map_values(
            |w: [u8; 4]| w@,
        ));
        Ok(b)
    }

    /// The value of word `index` of the byte code, read as an address.
    fn header_pointer(index: usize, byte_code: &[[u8; 4]]) -> (r: Result<usize, Exception>)
        ensures
            r is Ok <==> index < byte_code@.len(),
            r matches Ok(p) ==> p == word_value(byte_code@[index as int]@) as usize,
            r matches Err(e) ==> e is ControlUnit,
    {
        if index >= byte_code.len() {
            return Err(Exception::ControlUnit(plain("Header pointer not found.")));
        }
        Ok(from_be_bytes(byte_code[index]) as usize)
    }

    /// Loads byte code: its first word points at the first instruction and
    /// its second at the data section. Byte code without both is refused.
    pub fn load(&mut self, byte_code: &[[u8; 4]]) -> (r: Result<(), Exception>)
        requires
            old(self).wf(),
        ensures
            final(self).wf(),
            r is Ok <==> byte_code@.len() >= 2,
            r is Ok ==> final(self)@ == (MachineModel {
                memory: byte_code@,
                registers: loaded_registers(old(self)@.registers, byte_code@),
            }),
            r is Err ==> final(self)@ == old(self)@,
            r matches Err(e) ==> e is ControlUnit,
    {
        let instruction_section_pointer = match Self::header_pointer(0, byte_code) {
            Ok(p) => p,
            Err(e) => {
                return Err(
                    Exception::ControlUnit(wrapped("Invalid instruction section pointer.", e)),
                );
            },
        };
        let data_section_pointer = match Self::header_pointer(1, byte_code) {
            Ok(p) => p,
            Err(e) => {
                return Err(Exception::ControlUnit(wrapped("Invalid data section pointer.", e)));
            },
        };
        self.memory.load(byte_code);
        self.registers.set_instruction_pointer(instruction_section_pointer);
        self.registers.set_instruction(None);
        self.registers.set_data_section_pointer(data_section_pointer);
        Ok(())
    }

    /// Fetches the instruction at the instruction pointer. `false` when the
    /// pointer has reached the data section: the program has ended.
    pub fn fetch(&mut self) -> (r: Result<bool, Exception>)
        requires
            old(self).wf(),
        ensures
            final(self).wf(),
            final(self)@.memory == old(self)@.memory,
            ({
                let m = old(self)@;
                let ip = m.registers.instruction_pointer;
                if ip >= m.registers.data_section_pointer {
                    r == Ok::<bool, Exception>(false) && final(self)@ == m
                } else if ip + 4 > m.memory.len() {
                    r is Err && final(self)@ == m
                } else {
                    &&& r == Ok::<bool, Exception>(true)
                    &&& final(self)@.registers == fetched_registers(m)
                    &&& final(self)@.registers.instruction_pointer == ip + 4
                }
            }),
            r matches Err(e) ==> e is ControlUnit,
    {
        if self.registers.get_instruction_pointer() >= self.registers.get_data_section_pointer() {
            return Ok(false);
        }
        let bytes = match self.read_instruction() {
            Ok(b) => b,
            Err(e) => {
                return Err(Exception::ControlUnit(wrapped("Failed to fetch instruction.", e)));
            },
        };
        self.registers.set_instruction(Some(bytes));
        self.registers.advance_instruction_pointer(4);
        Ok(true)
    }

    /// Decodes the fetched instruction; there must be one.
    pub fn decode(&self) -> (r: Result<Instruction, Exception>)
        ensures
            ({
                let m = self@;
                match m.registers.instruction {
                    None => r is Err,
                    Some(s) => {
                        let d = decoded(
                            word_values(m.memory),
                            m.registers.data_section_pointer as int,
                            s.map_values(|b: Seq<u8>| word_value(b)),
                        );
                        &&& (r is Ok <==> d is Some)
                        &&& (r matches Ok(i) ==> Some(i@) == d)
                    },
                }
            }),
            r matches Err(e) ==> e is ControlUnit,
    {
        let bytes = match self.registers.get_instruction() {
            Some(b) => b,
            None => {
                return Err(Exception::ControlUnit(plain("No instruction bytes to decode.")));
            },
        };
        proof {
            let s = self@.registers.instruction.unwrap();
            assert(s.map_values(|b: Seq<u8>| word_value(b)) =~= instruction_words(bytes));
        }
        match Decoder::decode(&self.memory, &self.registers, bytes) {
            Ok(i) => Ok(i),
            Err(e) => Err(Exception::ControlUnit(wrapped("Failed to decode instruction.", e))),
        }
    }

    /// Executes a decoded instruction; see `executed`.
    pub fn execute(&mut self, instruction: &Instruction) -> (r: Result<Request, Exception>)
        requires
            old(self).wf(),
        ensures
            final(self).wf(),
            final(self)@.memory == old(self)@.memory,
            final(self)@.registers == executed(
                old(self)@.registers,
                instruction@,
                old(self)@.memory.len() as int,
            ).0,
            r is Ok <==> executed(
                old(self)@.registers,
                instruction@,
                old(self)@.memory.len() as int,
            ).1 is Some,
            r matches Ok(q) ==> Some(q@) == executed(
                old(self)@.registers,
                instruction@,
                old(self)@.memory.len() as int,
            ).1,
            r matches Err(e) ==> e is ControlUnit,
    {
        match Executor::execute(&self.memory, &mut self.registers, instruction) {
            Ok(q) => Ok(q),
            Err(e) => Err(Exception::ControlUnit(wrapped("Failed to execute instruction.", e))),
        }
    }

    /// Stores the result of a request in register `rd`.
    pub fn store(&mut self, rd: u32, value: &Value) -> (r: Result<(), Exception>)
        requires
            old(self).wf(),
        ensures
            final(self).wf(),
            final(self)@.memory == old(self)@.memory,
            r is Ok <==> writable(rd),
            r is Ok ==> final(self)@.registers == old(self)@.registers.with_register(rd, value@),
            r is Err ==> final(self)@ == old(self)@,
            r matches Err(e) ==> e is ControlUnit,
    {
        match self.registers.set_register(rd, value) {
            Ok(()) => Ok(()),
            Err(e) => Err(Exception::ControlUnit(wrapped("Failed to store a result.", e))),
        }
    }
}

} // verus!

verus! {

/// Once `EXIT` has run, the next cycle ends the program, provided the data
/// section starts within the memory.
pub proof fn lemma_exit_halts(m: MachineModel)
    requires
        m.memory.len() <= usize::MAX,
        m.registers.data_section_pointer <= m.memory.len(),
        m.registers.instruction_pointer < m.registers.data_section_pointer,
        m.registers.instruction_pointer + 4 <= m.memory.len(),
        decoded(
            word_values(m.memory),
            m.registers.data_section_pointer as int,
            word_values(m.memory).subrange(
                m.registers.instruction_pointer as int,
                m.registers.instruction_pointer + 4,
            ),
        ) == Some(Op::Exit),
    ensures
        stepped(m).1 == Some(Some(RequestModel::Proceed)),
        stepped(MachineModel { memory: m.memory, registers: stepped(m).0 }).1 == Some(
            None::<RequestModel>,
        ),
{
}

} // verus!
