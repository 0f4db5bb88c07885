//! Reading one assembly statement — a mnemonic and an immediate, zero-page or absolute
//! operand — into its opcode.
use vstd::prelude::*;

use super::addressing_mode::{mode_name, AddressingMode};
use super::error::CpuError;
use super::instruction::{mnemonic_text, opcode_entry, Instruction, InstructionDecoder, InstructionMetadata};
use crate::helpers::parse::{text_value, trimmed, u16_from_str_radix, u8_from_str_radix};
use crate::text::{
    chars_of, find_char, index_of, lemma_index_of, lemma_utf8_length_bounds, string_of, trim_chars, utf8_len,
    utf8_length,
};

verus! {

/// Errors that can occur while reading a statement.
#[derive(Debug, Clone)]
pub enum ParseError {
    UnknownMnemonic(String),
    InvalidAddressingMode(String),
    InvalidOperandFormat(String),
    ValueOutOfRange(String),
    InvalidSyntax(String),
    CpuError(CpuError),
}

impl From<CpuError> for ParseError {
    fn from(e: CpuError) -> (r: ParseError)
        ensures
            r == ParseError::CpuError(e),
    {
        ParseError::CpuError(e)
    }
}

impl vstd::std_specs::convert::FromSpecImpl<CpuError> for ParseError {
    open spec fn obeys_from_spec() -> bool {
        true
    }

    open spec fn from_spec(v: CpuError) -> ParseError {
        ParseError::CpuError(v)
    }
}

/// The statement's first word: what comes before the first space once it is trimmed.
pub open spec fn statement_head(input: Seq<char>) -> Seq<char> {
    let t = trimmed(input);
    t.subrange(0, index_of(t, ' '))
}

/// The statement's operand: what follows the first space, trimmed; `None` without a space.
pub open spec fn statement_operand(input: Seq<char>) -> Option<Seq<char>> {
    let t = trimmed(input);
    let k = index_of(t, ' ');
    if k < t.len() {
        Some(trimmed(t.subrange(k + 1, t.len() as int)))
    } else {
        None
    }
}

/// The digits an operand's notation leads to: after `#$` for an immediate, after `$` for a
/// zero-page (3 bytes of text) or absolute (5 bytes) address.
pub open spec fn operand_digits(op: Seq<char>) -> Option<Seq<char>> {
    if op.len() >= 2 && op[0] == '#' && op[1] == '$' {
        Some(op.subrange(2, op.len() as int))
    } else if op.len() >= 1 && op[0] == '$' && (utf8_length(op) == 3 || utf8_length(op) == 5) {
        Some(op.subrange(1, op.len() as int))
    } else {
        None
    }
}

/// The addressing mode and value an operand spells: `#$hh`, `$hh` or `$hhhh`, in hexadecimal.
pub open spec fn operand_form(op: Seq<char>) -> Option<(AddressingMode, u16)> {
    match operand_digits(op) {
        None => None,
        Some(d) => match text_value(d, 16) {
            None => None,
            Some(v) => if op[0] == '#' {
                if v <= 255 { Some((AddressingMode::Immediate, v as u16)) } else { None }
            } else if utf8_length(op) == 3 {
                if v <= 255 { Some((AddressingMode::ZeroPage, v as u16)) } else { None }
            } else {
                if v <= 65535 { Some((AddressingMode::Absolute, v as u16)) } else { None }
            },
        },
    }
}

/// The mode of an operand form.
pub open spec fn form_mode(f: Option<(AddressingMode, u16)>) -> AddressingMode {
    match f {
        Some((mode, _)) => mode,
        None => AddressingMode::Implied,
    }
}

/// The value of an operand form.
pub open spec fn form_value(f: Option<(AddressingMode, u16)>) -> u16 {
    match f {
        Some((_, v)) => v,
        None => 0,
    }
}

/// Whether the opcode table has `instruction` in `mode`.
pub open spec fn has_form(instruction: Instruction, mode: AddressingMode) -> bool {
    exists|op: u8| #[trigger] opcode_entry(op) matches Some(e) && e.instruction == instruction && e.addressing_mode
        == mode
}

/// What reading an operand gives: its mode and value, or the error for text that is not one.
pub open spec fn operand_outcome(op: Seq<char>, r: Result<(AddressingMode, u16), ParseError>) -> bool {
    match r {
        Ok(form) => operand_form(op) == Some(form),
        Err(e) => operand_form(op) is None && match operand_digits(op) {
            Some(d) => e matches ParseError::InvalidOperandFormat(m) && m@ == "Invalid hex value: "@ + d,
            None => e matches ParseError::InvalidAddressingMode(m) && m@ == op,
        },
    }
}

/// What reading a whole statement gives: the metadata of the instruction the first word names
/// in the mode the operand spells, or the first thing that stops it.
pub open spec fn statement_outcome(input: Seq<char>, r: Result<InstructionMetadata, ParseError>) -> bool {
    let head = statement_head(input);
    let operand = statement_operand(input);
    let named = exists|i: Instruction| #[trigger] mnemonic_text(i) == head;
    match r {
        Ok(m) => {
            &&& mnemonic_text(m.instruction) == head
            &&& operand is Some
            &&& operand_form(operand->0) == Some((m.addressing_mode, form_value(operand_form(operand->0))))
            &&& opcode_entry(m.opcode) == Some(m)
        },
        Err(e) => if !named {
            e matches ParseError::UnknownMnemonic(t) && t@ == head
        } else if operand is None {
            e matches ParseError::InvalidSyntax(t) && t@ == "Missing operand"@
        } else if operand_form(operand->0) is None {
            operand_outcome(operand->0, Err(e))
        } else {
            let mode = form_mode(operand_form(operand->0));
            &&& forall|i: Instruction| #[trigger] mnemonic_text(i) == head ==> !has_form(i, mode)
            &&& e matches ParseError::InvalidAddressingMode(t) && t@ == head + " does not support "@ + mode_name(mode)
        },
    }
}

/// The bytes an instruction occupies: the opcode, then a one-byte operand or a little-endian
/// word.
pub open spec fn encoded(opcode: u8, mode: AddressingMode, value: u16) -> Seq<u8> {
    match mode {
        AddressingMode::Absolute => seq![opcode, (value % 256) as u8, (value / 256) as u8],
        _ => seq![opcode, value as u8],
    }
}

/// Reads assembly statements into their binary representation.
pub struct InstructionParser {
    decoder: InstructionDecoder,
}

/// A string of the characters of `a` followed by those of `b`.
fn joined(a: &[char], b: &str) -> (r: String)
    ensures
        r@ == a@ + b@,
{
    let mut r = string_of(a);
    r.append(b);
    r
}

impl InstructionParser {
    /// The decoder holds the full opcode table.
    #[verifier::type_invariant]
    spec fn wf(&self) -> bool {
        self.decoder.wf()
    }

    /// A parser with the full opcode table.
    pub fn new() -> (p: Self) {
        InstructionParser { decoder: InstructionDecoder::new() }
    }

    /// Read an operand: `#$hh` immediate, `$hh` zero page or `$hhhh` absolute, in hexadecimal.
    pub fn parse_addressing_mode(&self, operand: &str) -> (r: Result<(AddressingMode, u16), ParseError>)
        ensures
            operand_outcome(operand@, r),
    {
        let chars = chars_of(operand);
        read_operand(chars.as_slice())
    }

    /// Read a statement such as `LDA #$42`, `LDA $42` or `LDA $1234` into the metadata of its
    /// opcode.
    pub fn parse(&self, input: &str) -> (r: Result<InstructionMetadata, ParseError>)
        ensures
            statement_outcome(input@, r),
    {
        let chars = chars_of(input);
        let (r, _) = self.read_statement(chars.as_slice());
        r
    }

    /// Read a statement into its bytes: the opcode and the operand, a word low byte first.
    pub fn parse_bytes(&self, input: &str) -> (r: Result<Vec<u8>, ParseError>)
        ensures
            r is Ok <==> (exists|m: InstructionMetadata| statement_outcome(input@, Ok(m))),
            match r {
                Ok(b) => exists|m: InstructionMetadata| #[trigger] statement_outcome(input@, Ok(m))
                    && b@ == encoded(m.opcode, m.addressing_mode, form_value(operand_form(statement_operand(input@)->0))),
                Err(e) => statement_outcome(input@, Err(e)),
            },
    {
        let chars = chars_of(input);
        let (r, value) = self.read_statement(chars.as_slice());
        match r {
            Ok(m) => {
                let mut bytes: Vec<u8> = Vec::new();
                bytes.push(m.opcode);
                match m.addressing_mode {
                    AddressingMode::Absolute => {
                        bytes.push((value & 0xFF) as u8);
                        bytes.push((value >> 8) as u8);
                        assert((value & 0xFF) as u8 == (value % 256) as u8 && (value >> 8) as u8 == (value / 256) as u8)
                            by (bit_vector);
                    },
                    _ => {
                        bytes.push(value as u8);
                    },
                }
                assert(bytes@ =~= encoded(m.opcode, m.addressing_mode, value));
                Ok(bytes)
            },
            Err(e) => {
                assert forall|m: InstructionMetadata| !statement_outcome(input@, Ok(m)) by {
                    lemma_outcomes_agree(input@, Err(e), Ok(m));
                }
                Err(e)
            },
        }
    }

    /// Read a statement, returning also the operand's value.
    fn read_statement(&self, input: &[char]) -> (r: (Result<InstructionMetadata, ParseError>, u16))
        ensures
            statement_outcome(input@, r.0),
            r.0 is Ok ==> form_value(operand_form(statement_operand(input@)->0)) == r.1,
    {
        proof {
            use_type_invariant(self);
        }
        let t = trim_chars(input);
        let k = find_char(t, ' ');
        proof {
            lemma_index_of(t@, ' ');
        }
        let head = &t[0..k];
        let instruction = match Instruction::from_mnemonic(head) {
            Some(i) => i,
            None => {
                let name = string_of(head);
                return (Err(ParseError::UnknownMnemonic(name)), 0);
            },
        };
        if k >= t.len() {
            return (Err(ParseError::InvalidSyntax(String::from_str("Missing operand"))), 0);
        }
        let operand = trim_chars(&t[k + 1..t.len()]);
        let (mode, value) = match read_operand(operand) {
            Ok(form) => form,
            Err(e) => return (Err(e), 0),
        };
        match self.decoder.lookup(instruction, mode) {
            Ok(m) => (Ok(m), value),
            Err(_) => {
                let mut message = string_of(head);
                message.append(" does not support ");
                message.append(mode.name());
                (Err(ParseError::InvalidAddressingMode(message)), 0)
            },
        }
    }
}

/// Two results that both meet the statement's outcome agree on success.
proof fn lemma_outcomes_agree(
    input: Seq<char>,
    a: Result<InstructionMetadata, ParseError>,
    b: Result<InstructionMetadata, ParseError>,
)
    requires
        statement_outcome(input, a),
        a is Err,
    ensures
        !(b is Ok && statement_outcome(input, b)),
{
    if b is Ok && statement_outcome(input, b) {
        let m = b->Ok_0;
        let head = statement_head(input);
        assert(mnemonic_text(m.instruction) == head);
        let operand = statement_operand(input);
        let mode = form_mode(operand_form(operand->0));
        assert(opcode_entry(m.opcode) matches Some(e) && e.instruction == m.instruction && e.addressing_mode == mode);
        assert(has_form(m.instruction, mode));
    }
}

/// Read an operand from its characters.
fn read_operand(op: &[char]) -> (r: Result<(AddressingMode, u16), ParseError>)
    ensures
        operand_outcome(op@, r),
{
    let len = op.len();
    if len >= 2 && op[0] == '#' && op[1] == '$' {
        let digits = &op[2..len];
        let text = string_of(digits);
        return match u8_from_str_radix(text.as_str(), 16) {
            Ok(v) => Ok((AddressingMode::Immediate, v as u16)),
            Err(_) => Err(ParseError::InvalidOperandFormat(joined_message(digits))),
        };
    }
    proof {
        lemma_utf8_length_bounds(op@);
    }
    if len >= 1 && op[0] == '$' && len <= 5 {
        let bytes = utf8_len(op);
        if bytes == 3 || bytes == 5 {
            let digits = &op[1..len];
            let text = string_of(digits);
            if bytes == 3 {
                return match u8_from_str_radix(text.as_str(), 16) {
                    Ok(v) => Ok((AddressingMode::ZeroPage, v as u16)),
                    Err(_) => Err(ParseError::InvalidOperandFormat(joined_message(digits))),
                };
            } else {
                return match u16_from_str_radix(text.as_str(), 16) {
                    Ok(v) => Ok((AddressingMode::Absolute, v)),
                    Err(_) => Err(ParseError::InvalidOperandFormat(joined_message(digits))),
                };
            }
        }
    }
    Err(ParseError::InvalidAddressingMode(string_of(op)))
}

/// The message for hexadecimal digits that do not read as a value of the operand's size.
fn joined_message(digits: &[char]) -> (m: String)
    ensures
        m@ == "Invalid hex value: "@ + digits@,
{
    let mut m = String::from_str("Invalid hex value: ");
    let rest = string_of(digits);
    m.append(rest.as_str());
    m
}

} // verus!
