//! The memory of the processor: the loaded byte code, one word per cell.
use vstd::prelude::*;

use crate::exception::{plain, Exception};
use crate::word::word_value;

verus! {

pub struct Memory {
    data: Vec<[u8; 4]>,
}

/// The values of a sequence of four-byte words.
pub open spec fn word_values(words: Seq<[u8; 4]>) -> Seq<u32> {
    Seq::new(words.len(), |i: int| word_value(words[i]@))
}

impl Memory {
    /// The words held.
    pub closed spec fn cells(&self) -> Seq<[u8; 4]> {
        self.data@
    }

    /// The values of the words held.
    pub open spec fn words(&self) -> Seq<u32> {
        word_values(self.cells())
    }

    pub fn new() -> (m: Memory)
        ensures
            m.cells() == Seq::<[u8; 4]>::empty(),
    {
        Memory { data: Vec::new() }
    }

    /// Replaces the content with a copy of `byte_code`.
    pub fn load(&mut self, byte_code: &[[u8; 4]])
        ensures
            final(self).cells() == byte_code@,
    {
        let mut data: Vec<[u8; 4]> = Vec::new();
        let mut i: usize = 0;
        while i < byte_code.len()
            invariant
                i <= byte_code.len(),
                data@ == byte_code@.take(i as int),
            decreases byte_code.len() - i,
        {
            data.push(byte_code[i]);
            i += 1;
            assert(data@ =~= byte_code@.take(i as int));
        }
        assert(byte_code@.take(byte_code.len() as int) =~= byte_code@);
        self.data = data;
    }

    /// The word at `address`; an address past the end is an error.
    pub fn read(&self, address: usize) -> (r: Result<&[u8; 4], Exception>)
        ensures
            r is Ok <==> address < self.cells().len(),
            r matches Ok(w) ==> *w == self.cells()[address as int],
            r matches Err(e) ==> e is Memory,
    {
        if address < self.data.len() {
            Ok(&self.data[address])
        } else {
            Err(Exception::Memory(plain("Memory address out of range.")))
        }
    }

    /// The number of words held.
    pub fn length(&self) -> (n: usize)
        ensures
            n == self.cells().len(),
    {
        self.data.len()
    }
}

} // verus!
