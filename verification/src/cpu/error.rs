use vstd::prelude::*;

verus! {

/// Errors of the CPU as a whole.
#[derive(Debug, Clone, Copy, PartialEq, Eq, Structural)]
pub enum CpuError {
    /// An opcode with no instruction behind it.
    InvalidOpcode(u8),
    /// An instruction used in an addressing mode it does not have.
    UnimplementedAddressingMode,
    /// An access no component answered.
    MemoryAccessError(u16),
}

} // verus!
