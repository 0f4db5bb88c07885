use vstd::prelude::*;

use crate::cpu::InstructionDecoderError;

verus! {

/// Errors raised by the memory system, the CPU and the components on the bus.
#[derive(Debug, Clone)]
pub enum NesError {
    /// An access to an address no component answers.
    MemoryAccessError(u16),
    /// An operation a component does not support at an address.
    InvalidMemoryOperation(u16, String),
    /// Anything else.
    GenericError(String),
    /// The decoder met an opcode or an addressing mode it does not know.
    InstructionDecoderError(InstructionDecoderError),
    /// The CPU has no memory connected.
    MemoryNotConnected,
    /// No cartridge is inserted.
    CartridgeNotConnected,
    /// The ROM needs a mapper this emulator does not implement (number, supported list).
    UnsupportedMapper(u8, String),
    /// An input-related failure.
    InputError(String),
}

} // verus!
