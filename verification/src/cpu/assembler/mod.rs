//! A two-pass 6502 assembler: labels, segments and data directives.
use vstd::prelude::*;

pub mod directives;
pub mod labels;
pub mod operand;
pub mod program;
pub mod rom;
pub mod segments;
pub mod sizes;
pub mod source;

use super::addressing_mode::AddressingMode;
use super::instruction::{form_entry, Instruction, InstructionDecoder, InstructionDecoderError, InstructionMetadata};
use crate::helpers::errors::ParseError;
use labels::Labels;
use segments::Segments;



verus! {

/// Why an operand does not fit an addressing mode.
#[derive(Debug, Clone)]
pub enum AddressingModeError {
    /// The operand text matches no addressing mode.
    InvalidOperand(String),
}

/// Errors that can occur while assembling.
#[derive(Debug, Clone)]
pub enum AssembleError {
    UnknownMnemonic(String),
    InvalidAddressingMode(String),
    InvalidOperandFormat(String),
    ValueOutOfRange(String),
    InvalidSyntax(String),
    InvalidSyntaxWithContext { line: String, message: String },
    LabelError(String),
    DirectiveError(String),
    SegmentError(String),
    ParseError(ParseError),
    InstructionDecoderError(InstructionDecoderError),
    AddressingModeError(AddressingModeError),
    InvalidOperand(String),
}

/// The result of an assembler operation.
pub type AssembleResult<T> = Result<T, AssembleError>;

impl From<ParseError> for AssembleError {
    fn from(e: ParseError) -> (r: AssembleError)
        ensures
            r == AssembleError::ParseError(e),
    {
        AssembleError::ParseError(e)
    }
}

impl vstd::std_specs::convert::FromSpecImpl<ParseError> for AssembleError {
    open spec fn obeys_from_spec() -> bool {
        true
    }

    open spec fn from_spec(v: ParseError) -> AssembleError {
        AssembleError::ParseError(v)
    }
}

impl From<InstructionDecoderError> for AssembleError {
    fn from(e: InstructionDecoderError) -> (r: AssembleError)
        ensures
            r == AssembleError::InstructionDecoderError(e),
    {
        AssembleError::InstructionDecoderError(e)
    }
}

impl vstd::std_specs::convert::FromSpecImpl<InstructionDecoderError> for AssembleError {
    open spec fn obeys_from_spec() -> bool {
        true
    }

    open spec fn from_spec(v: InstructionDecoderError) -> AssembleError {
        AssembleError::InstructionDecoderError(v)
    }
}

impl From<AddressingModeError> for AssembleError {
    fn from(e: AddressingModeError) -> (r: AssembleError)
        ensures
            r == AssembleError::AddressingModeError(e),
    {
        AssembleError::AddressingModeError(e)
    }
}

impl vstd::std_specs::convert::FromSpecImpl<AddressingModeError> for AssembleError {
    open spec fn obeys_from_spec() -> bool {
        true
    }

    open spec fn from_spec(v: AddressingModeError) -> AssembleError {
        AssembleError::AddressingModeError(v)
    }
}

/// The opcode table, always full.
#[derive(Debug)]
pub struct OpcodeTable {
    decoder: InstructionDecoder,
}

impl OpcodeTable {
    #[verifier::type_invariant]
    spec fn wf(&self) -> bool {
        self.decoder.wf()
    }

    /// The full table.
    pub fn new() -> (t: Self) {
        OpcodeTable { decoder: InstructionDecoder::new() }
    }

    /// The metadata for `instruction` in `mode`: the table's first entry for the pair.
    pub fn lookup(&self, instruction: Instruction, mode: AddressingMode) -> (r: Result<
        InstructionMetadata,
        InstructionDecoderError,
    >)
        ensures
            match r {
                Ok(m) => form_entry(instruction, mode) == Some(m),
                Err(e) => form_entry(instruction, mode) is None && e
                    == InstructionDecoderError::UnimplementedAddressingMode(instruction, mode),
            },
    {
        proof {
            use_type_invariant(self);
        }
        self.decoder.lookup(instruction, mode)
    }
}

/// The assembler: the opcode table, the default load address, and the output segments.
pub struct Assembler {
    pub table: OpcodeTable,
    pub load_address: u16,
    pub segments: Segments,
}

} // verus!
