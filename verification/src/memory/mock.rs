use vstd::prelude::*;

use super::Addressable;
use crate::errors::NesError;

verus! {

/// A flat 64 KB memory answering every address, for tests.
#[derive(Debug)]
pub struct MockMemory {
    pub data: Vec<u8>,
}

impl MockMemory {
    /// One byte per address of the whole space.
    pub open spec fn wf(&self) -> bool {
        self.data.len() == 0x10000
    }

    /// 64 KB of zeroes.
    pub fn new() -> (m: Self)
        ensures
            m.wf(),
            forall|i: int| 0 <= i < 0x10000 ==> m.data@[i] == 0,
    {
        MockMemory { data: vec![0u8; 0x10000] }
    }
}

impl Addressable for MockMemory {
    open spec fn spec_handles(&self, address: u16) -> bool {
        true
    }

    open spec fn spec_read(&self, address: u16) -> Result<u8, NesError> {
        if self.wf() { Ok(self.data@[address as int]) } else { Err(NesError::MemoryAccessError(address)) }
    }

    open spec fn is_storage(&self) -> bool {
        self.wf()
    }

    fn handles_address(&self, address: u16) -> (b: bool) {
        true
    }

    fn peek_byte(&self, address: u16) -> (r: Result<u8, NesError>) {
        if self.data.len() == 0x10000 {
            Ok(self.data[address as usize])
        } else {
            Err(NesError::MemoryAccessError(address))
        }
    }

    fn read_byte(&mut self, address: u16) -> (r: Result<u8, NesError>) {
        self.peek_byte(address)
    }

    fn write_byte(&mut self, address: u16, value: u8) -> (r: Result<(), NesError>) {
        if self.data.len() == 0x10000 {
            self.data.set(address as usize, value);
            Ok(())
        } else {
            Err(NesError::MemoryAccessError(address))
        }
    }

    /// A mock has no state to reset.
    fn reset(&mut self)
        ensures
            *final(self) == *old(self),
    {
    }
}

} // verus!
