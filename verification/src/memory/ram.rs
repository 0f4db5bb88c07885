use vstd::prelude::*;

use super::Addressable;
use crate::errors::NesError;

verus! {

/// RAM mapped to an address range, repeating its storage across the range when the range is
/// larger than the storage (as the NES's 2 KB of work RAM answers four times across
/// `$0000-$1FFF`).
#[derive(Debug)]
pub struct Ram {
    pub data: Vec<u8>,
    pub start_address: u16,
    pub end_address: u16,
}

/// Where in its storage a RAM keeps the byte for `address`.
pub open spec fn ram_index(ram: &Ram, address: u16) -> int {
    (address - ram.start_address) % (ram.data@.len() as int)
}

impl Ram {
    /// The storage is non-empty and the range well ordered.
    pub open spec fn wf(&self) -> bool {
        self.data@.len() > 0 && self.start_address <= self.end_address
    }

    /// RAM whose storage matches its range: every address its own byte, all zero.
    pub fn with_range(start_address: u16, end_address: u16) -> (r: Self)
        requires
            start_address <= end_address,
        ensures
            r.start_address == start_address,
            r.end_address == end_address,
            r.data@.len() == end_address - start_address + 1,
            forall|i: int| 0 <= i < r.data@.len() ==> r.data@[i] == 0,
            r.wf(),
            r.is_storage(),
    {
        let size = end_address as usize - start_address as usize + 1;
        Ram { data: vec![0u8; size], start_address, end_address }
    }

    /// RAM answering `start_address..=end_address` with only `size` bytes of storage,
    /// repeating within the range.
    pub fn mirrored(start_address: u16, end_address: u16, size: usize) -> (r: Self)
        requires
            size > 0,
            start_address <= end_address,
        ensures
            r.start_address == start_address,
            r.end_address == end_address,
            r.data@.len() == size,
            forall|i: int| 0 <= i < r.data@.len() ==> r.data@[i] == 0,
            r.wf(),
    {
        Ram { data: vec![0u8; size], start_address, end_address }
    }

    /// The size of the storage in bytes.
    pub fn size(&self) -> (n: usize)
        ensures
            n == self.data@.len(),
    {
        self.data.len()
    }

    /// The first address this RAM answers.
    pub fn start_address(&self) -> (a: u16)
        ensures
            a == self.start_address,
    {
        self.start_address
    }

    /// The last address this RAM answers.
    pub fn end_address(&self) -> (a: u16)
        ensures
            a == self.end_address,
    {
        self.end_address
    }

    /// Where in the storage the byte for `address` lives.
    fn index_of(&self, address: u16) -> (i: usize)
        requires
            self.wf(),
            self.start_address <= address,
        ensures
            i == ram_index(self, address),
            i < self.data@.len(),
    {
        (address - self.start_address) as usize % self.data.len()
    }
}

impl Default for Ram {
    /// RAM over the whole 64 KB address space.
    fn default() -> (r: Self)
        ensures
            r.start_address == 0 && r.end_address == 0xFFFF,
            r.data@.len() == 0x10000,
            forall|i: int| 0 <= i < r.data@.len() ==> r.data@[i] == 0,
            r.wf(),
            r.is_storage(),
    {
        Self::with_range(0x0000, 0xFFFF)
    }
}

impl Addressable for Ram {
    open spec fn spec_handles(&self, address: u16) -> bool {
        self.start_address <= address && address <= self.end_address
    }

    open spec fn spec_read(&self, address: u16) -> Result<u8, NesError> {
        if self.spec_handles(address) && self.wf() {
            Ok(self.data@[ram_index(self, address)])
        } else {
            Err(NesError::MemoryAccessError(address))
        }
    }

    open spec fn is_storage(&self) -> bool {
        self.wf() && self.data@.len() == self.end_address - self.start_address + 1
    }

    fn handles_address(&self, address: u16) -> (b: bool) {
        address >= self.start_address && address <= self.end_address
    }

    fn peek_byte(&self, address: u16) -> (r: Result<u8, NesError>) {
        if !self.handles_address(address) || self.data.len() == 0 || self.start_address > self.end_address {
            return Err(NesError::MemoryAccessError(address));
        }
        let index = self.index_of(address);
        Ok(self.data[index])
    }

    fn read_byte(&mut self, address: u16) -> (r: Result<u8, NesError>)
        ensures
            *final(self) == *old(self),
    {
        self.peek_byte(address)
    }

    fn write_byte(&mut self, address: u16, value: u8) -> (r: Result<(), NesError>)
        ensures
            r is Ok <==> old(self).spec_handles(address) && old(self).wf(),
            final(self).start_address == old(self).start_address,
            final(self).end_address == old(self).end_address,
            final(self).data@.len() == old(self).data@.len(),
            r is Ok ==> final(self).data@ == old(self).data@.update(ram_index(old(self), address), value),
            r is Err ==> final(self).data@ == old(self).data@,
    {
        if !self.handles_address(address) || self.data.len() == 0 || self.start_address > self.end_address {
            return Err(NesError::MemoryAccessError(address));
        }
        let index = self.index_of(address);
        self.data.set(index, value);
        proof {
            if self.is_storage() {
                assert forall|b: u16| (b != address || !old(self).spec_handles(address)) implies #[trigger] self.spec_read(b) == old(self).spec_read(b) by {
                    if self.spec_handles(b) && old(self).spec_handles(address) {
                        let n = self.data@.len() as int;
                        vstd::arithmetic::div_mod::lemma_small_mod((b - self.start_address) as nat, n as nat);
                        vstd::arithmetic::div_mod::lemma_small_mod((address - self.start_address) as nat, n as nat);
                        assert(ram_index(self, b) != ram_index(self, address));
                    }
                }
            }
        }
        Ok(())
    }

    /// Zero every byte of storage.
    fn reset(&mut self)
        ensures
            final(self).start_address == old(self).start_address,
            final(self).end_address == old(self).end_address,
            final(self).data@.len() == old(self).data@.len(),
            forall|i: int| 0 <= i < final(self).data@.len() ==> final(self).data@[i] == 0,
    {
        let n = self.data.len();
        let mut i: usize = 0;
        while i < n
            invariant
                n == self.data@.len(),
                i <= n,
                self.start_address == old(self).start_address,
                self.end_address == old(self).end_address,
                forall|j: int| 0 <= j < i ==> self.data@[j] == 0,
            decreases n - i,
        {
            self.data.set(i, 0);
            i += 1;
        }
    }
}

/// Writing through a mirror is writing the original: in RAM whose storage repeats across its
/// range, two addresses a whole number of storage sizes apart share one byte.
pub proof fn lemma_mirrors_share_storage(ram: &Ram, a: u16, b: u16)
    requires
        ram.wf(),
        ram.start_address <= a,
        ram.start_address <= b,
        (b - a) % (ram.data@.len() as int) == 0,
    ensures
        ram_index(ram, a) == ram_index(ram, b),
{
    let n = ram.data@.len() as int;
    let x = a - ram.start_address;
    let y = b - ram.start_address;
    vstd::arithmetic::div_mod::lemma_fundamental_div_mod(b - a, n);
    vstd::arithmetic::div_mod::lemma_mod_multiples_vanish((b - a) / n, x, n);
    assert(y == (b - a) / n * n + x) by (nonlinear_arith)
        requires
            y == x + (b - a),
            (b - a) == n * ((b - a) / n) + (b - a) % n,
            (b - a) % n == 0,
    ;
}

} // verus!
