//! The memory interface every component on the CPU bus implements, and the components that
//! are plain memory.
use vstd::prelude::*;

use crate::errors::NesError;

pub mod bus;
pub mod mock;
pub mod ram;

pub use bus::Bus;
pub use mock::MockMemory;
pub use ram::Ram;

verus! {

/// The address one past `address`, wrapping at the top of the address space.
pub open spec fn next_address(address: u16) -> u16 {
    ((address + 1) % 0x10000) as u16
}

/// A little-endian word from the results of reading its two bytes.
pub open spec fn word_from(lo: Result<u8, NesError>, hi: Result<u8, NesError>) -> Result<u16, NesError> {
    match lo {
        Err(e) => Err(e),
        Ok(l) => match hi {
            Err(e) => Err(e),
            Ok(h) => Ok((h as u16 * 256 + l as u16) as u16),
        },
    }
}

/// Masking an address's low bits keeps its remainder by the matching power of two.
pub proof fn lemma_low_bits(address: u16)
    ensures
        address & 0x00FF == address % 0x100,
        address & 0x03FF == address % 0x400,
        address & 0x0FFF == address % 0x1000,
        address & 0x1FFF == address % 0x2000,
        address & 0x3FFF == address % 0x4000,
        address & 0x7FFF == address % 0x8000,
{
    assert(address & 0x00FF == address % 0x100 && address & 0x03FF == address % 0x400 && address & 0x0FFF
        == address % 0x1000 && address & 0x1FFF == address % 0x2000 && address & 0x3FFF == address % 0x4000
        && address & 0x7FFF == address % 0x8000) by (bit_vector);
}

/// A word's low and high bytes are its remainder and quotient by 256.
pub proof fn lemma_word_bytes(value: u16)
    ensures
        (value & 0xFF) as u8 == (value % 256) as u8,
        (value >> 8) as u8 == (value / 256) as u8,
{
    assert((value & 0xFF) as u8 == (value % 256) as u8 && (value >> 8) as u8 == (value / 256) as u8) by (bit_vector);
}

/// Combine two bytes into a little-endian word.
pub fn combine_word(lo: u8, hi: u8) -> (w: u16)
    ensures
        w == hi as u16 * 256 + lo as u16,
{
    let w = ((hi as u16) << 8) | (lo as u16);
    assert(((hi as u16) << 8) | (lo as u16) == hi as u16 * 256 + lo as u16) by (bit_vector);
    w
}

/// A component that answers CPU bus accesses at some set of addresses.
///
/// A component is described by what a read returns at each address (`spec_read`) and by which
/// addresses it answers (`spec_handles`). A component that is plain storage (`is_storage`) keeps
/// the laws of memory: reading changes nothing, and a write to an address it answers is what the
/// next read there returns, leaving every other address as it was.
pub trait Addressable {
    /// Whether the component answers `address`.
    spec fn spec_handles(&self, address: u16) -> bool;

    /// What a read of `address` returns in the current state.
    spec fn spec_read(&self, address: u16) -> Result<u8, NesError>;

    /// Whether the component is plain storage, one byte per address it answers.
    spec fn is_storage(&self) -> bool;

    /// Whether this component handles the specified address.
    fn handles_address(&self, address: u16) -> (b: bool)
        ensures
            b == self.spec_handles(address),
    ;

    /// Whether this component handles writes to the address. Defaults to `handles_address`;
    /// registers the hardware splits by direction override it.
    fn handles_write(&self, address: u16) -> (b: bool)
        ensures
            self.is_storage() ==> b == self.spec_handles(address),
    {
        self.handles_address(address)
    }

    /// Read without any of the consequences of reading.
    fn peek_byte(&self, address: u16) -> (r: Result<u8, NesError>)
        ensures
            r == self.spec_read(address),
    ;

    /// Which bits of a read from `address` the component leaves floating.
    fn open_bus_mask(&self, address: u16) -> (m: u8)
        ensures
            self.is_storage() ==> m == 0,
    {
        0
    }

    /// Read a byte.
    fn read_byte(&mut self, address: u16) -> (r: Result<u8, NesError>)
        ensures
            r == old(self).spec_read(address),
            old(self).is_storage() ==> final(self).is_storage(),
            old(self).is_storage() ==> forall|b: u16| #[trigger]
                final(self).spec_read(b) == old(self).spec_read(b),
            old(self).is_storage() ==> forall|b: u16| #[trigger]
                final(self).spec_handles(b) == old(self).spec_handles(b),
    ;

    /// Write a byte.
    fn write_byte(&mut self, address: u16, value: u8) -> (r: Result<(), NesError>)
        ensures
            old(self).is_storage() ==> final(self).is_storage(),
            old(self).is_storage() && old(self).spec_handles(address) ==> r is Ok
                && final(self).spec_read(address) == Ok::<u8, NesError>(value),
            old(self).is_storage() ==> forall|b: u16| (b != address || !old(self).spec_handles(address)) ==> #[trigger]
                final(self).spec_read(b) == old(self).spec_read(b),
            old(self).is_storage() ==> forall|b: u16| #[trigger]
                final(self).spec_handles(b) == old(self).spec_handles(b),
    ;

    /// Read a little-endian word: the byte at `address`, then the byte after it.
    fn read_word(&mut self, address: u16) -> (r: Result<u16, NesError>)
        ensures
            old(self).is_storage() ==> r == word_from(
                old(self).spec_read(address),
                old(self).spec_read(next_address(address)),
            ),
            old(self).is_storage() ==> final(self).is_storage(),
            old(self).is_storage() ==> forall|b: u16| #[trigger]
                final(self).spec_read(b) == old(self).spec_read(b),
            old(self).is_storage() ==> forall|b: u16| #[trigger]
                final(self).spec_handles(b) == old(self).spec_handles(b),
    {
        let lo = self.read_byte(address)?;
        let hi = self.read_byte(address.wrapping_add(1))?;
        Ok(combine_word(lo, hi))
    }

    /// Write a little-endian word: the low byte at `address`, the high byte after it.
    fn write_word(&mut self, address: u16, value: u16) -> (r: Result<(), NesError>)
        ensures
            old(self).is_storage() ==> final(self).is_storage(),
            old(self).is_storage() && old(self).spec_handles(address) && old(self).spec_handles(next_address(address))
                ==> r is Ok && final(self).spec_read(address) == Ok::<u8, NesError>((value % 256) as u8)
                && final(self).spec_read(next_address(address)) == Ok::<u8, NesError>((value / 256) as u8),
            old(self).is_storage() ==> forall|b: u16| b != address && b != next_address(address) ==> #[trigger]
                final(self).spec_read(b) == old(self).spec_read(b),
            old(self).is_storage() ==> forall|b: u16| #[trigger]
                final(self).spec_handles(b) == old(self).spec_handles(b),
    {
        let lo = (value & 0xFF) as u8;
        let hi = (value >> 8) as u8;
        proof {
            lemma_word_bytes(value);
        }
        self.write_byte(address, lo)?;
        self.write_byte(address.wrapping_add(1), hi)?;
        Ok(())
    }

    /// Return the component to its initial state. Does nothing by default.
    fn reset(&mut self) {
    }
}

} // verus!
