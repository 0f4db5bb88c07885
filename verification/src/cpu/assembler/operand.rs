//! Operands as the assembler reads them, and the bytes an instruction becomes.
use vstd::prelude::*;

use super::labels::{map_get, Labels};
use super::segments::{segment_position, SegmentView};
use super::source::{
    ends_with3, is_accumulator, names_accumulator, same_text, split_statement, starts_with, statement_rest,
    statement_word,
};
use super::{AddressingModeError, AssembleError, Assembler, OpcodeTable};
use crate::cpu::addressing_mode::{mode_size, AddressingMode};
use crate::cpu::instruction::{
    first_form, form_entry, lemma_opcode_entry_bounds, lemma_opcode_entry_size, mnemonic_instruction, mnemonic_text, opcode_entry,
    Instruction, InstructionMetadata,
};
use crate::helpers::parse::{operand_fits, operand_number, parse_value, trimmed};
use crate::text::{
    find_char, find_pair, index_of, index_of_pair, lemma_index_of, lemma_index_of_pair, lemma_utf8_length_bounds,
    chars_of, hex_digits, push_hex, string_of, trim_chars, utf8_len, utf8_length,
};

verus! {

/// How an operand can fail to be read.
#[derive(Debug, Clone, Copy, PartialEq, Eq, Structural)]
pub enum OperandFault {
    /// A number in it does not read.
    BadNumber,
    /// A number in it is too large for the mode.
    TooLarge,
    /// It has the shape of no addressing mode.
    NoMode,
}

/// A number as operands write it, read as a word.
pub open spec fn word_of(s: Seq<char>) -> Option<u16> {
    if operand_fits(s, 65535) {
        Some(operand_number(s)->0 as u16)
    } else {
        None
    }
}

/// An indexed operand: a base that does not start with `$` is a label, assembled in the
/// absolute form once resolved; a number picks the zero-page form when it fits a byte.
pub open spec fn indexed_form(base: Seq<char>, zero_page: AddressingMode, absolute: AddressingMode) -> Result<
    (AddressingMode, u16),
    OperandFault,
> {
    if !(base.len() > 0 && base[0] == '$') {
        Ok((absolute, 0))
    } else {
        match word_of(base) {
            Some(v) => if v <= 0xFF {
                Ok((zero_page, v))
            } else {
                Ok((absolute, v))
            },
            None => Err(OperandFault::BadNumber),
        }
    }
}

/// Whether `s` ends with the three characters given.
pub open spec fn ends3(s: Seq<char>, a: char, b: char, c: char) -> bool {
    s.len() >= 3 && s[s.len() - 3] == a && s[s.len() - 2] == b && s[s.len() - 1] == c
}

/// A value that must fit in a byte.
pub open spec fn byte_form(mode: AddressingMode, w: Option<u16>) -> Result<(AddressingMode, u16), OperandFault> {
    match w {
        Some(v) => if v <= 0xFF {
            Ok((mode, v))
        } else {
            Err(OperandFault::TooLarge)
        },
        None => Err(OperandFault::BadNumber),
    }
}

/// A value of any size.
pub open spec fn word_form(mode: AddressingMode, w: Option<u16>) -> Result<(AddressingMode, u16), OperandFault> {
    match w {
        Some(v) => Ok((mode, v)),
        None => Err(OperandFault::BadNumber),
    }
}

/// The addressing mode and value an operand spells, tried in this order: `,X` and `,Y`
/// indexing, `#` immediate, `(..,X)`, `(..),Y`, `(..)` indirect, `$` with at most three bytes of
/// text as zero page, and `$` with five as absolute.
pub open spec fn asm_form(op: Seq<char>) -> Result<(AddressingMode, u16), OperandFault> {
    let n = op.len() as int;
    let x = index_of_pair(op, ',', 'X');
    let y = index_of_pair(op, ',', 'Y');
    if x < n {
        indexed_form(op.subrange(0, x), AddressingMode::ZeroPageX, AddressingMode::AbsoluteX)
    } else if y < n {
        indexed_form(op.subrange(0, y), AddressingMode::ZeroPageY, AddressingMode::AbsoluteY)
    } else if n > 0 && op[0] == '#' {
        word_form(AddressingMode::Immediate, word_of(op.drop_first()))
    } else if n > 0 && op[0] == '(' && ends3(op, ',', 'X', ')') {
        byte_form(AddressingMode::IndexedIndirect, word_of(op.subrange(1, n - 3)))
    } else if n > 0 && op[0] == '(' && ends3(op, ')', ',', 'Y') {
        byte_form(AddressingMode::IndirectIndexed, word_of(op.subrange(1, n - 3)))
    } else if n > 0 && op[0] == '(' && op[n - 1] == ')' {
        word_form(AddressingMode::Indirect, word_of(op.subrange(1, n - 1)))
    } else if n > 0 && op[0] == '$' && utf8_length(op) <= 3 && !(word_of(op) matches Some(v) && v > 0xFF) {
        word_form(AddressingMode::ZeroPage, word_of(op))
    } else if n > 0 && op[0] == '$' && utf8_length(op) == 5 {
        word_form(AddressingMode::Absolute, word_of(op))
    } else {
        Err(OperandFault::NoMode)
    }
}

/// Whether an error is the one a fault is reported as.
pub open spec fn reports(fault: OperandFault, e: AssembleError, op: Seq<char>) -> bool {
    match fault {
        OperandFault::BadNumber => e is ParseError,
        OperandFault::TooLarge => e is ValueOutOfRange,
        OperandFault::NoMode => e matches AssembleError::InvalidAddressingMode(m) && m@ == op,
    }
}

/// Whether an operand refers to a label: it is not the accumulator, and the part before any
/// comma does not start with `#`, `$` or `%`.
pub open spec fn label_reference(op: Seq<char>) -> bool {
    let base = op.subrange(0, index_of(op, ','));
    !names_accumulator(trimmed(op)) && !(base.len() > 0 && (base[0] == '#' || base[0] == '$' || base[0] == '%'))
}

/// Whether a label stands for a zero-page address.
pub open spec fn in_zero_page(labels: Map<Seq<char>, u16>, name: Seq<char>) -> bool {
    map_get(labels, name) matches Some(a) && a <= 0xFF
}

/// The label a reference names and the mode it is assembled in: `,X` and `,Y` index, a branch
/// is relative, a jump absolute, and anything else zero page when the label is.
pub open spec fn label_form(instruction: Instruction, op: Seq<char>, labels: Map<Seq<char>, u16>) -> (Seq<char>, AddressingMode) {
    let x = index_of_pair(op, ',', 'X');
    let y = index_of_pair(op, ',', 'Y');
    if x < op.len() {
        let l = op.subrange(0, x);
        (l, if in_zero_page(labels, l) { AddressingMode::ZeroPageX } else { AddressingMode::AbsoluteX })
    } else if y < op.len() {
        let l = op.subrange(0, y);
        (l, if in_zero_page(labels, l) { AddressingMode::ZeroPageY } else { AddressingMode::AbsoluteY })
    } else {
        (op, if instruction == Instruction::BPL || instruction == Instruction::BEQ || instruction
            == Instruction::BNE {
            AddressingMode::Relative
        } else if instruction == Instruction::JMP || instruction == Instruction::JSR {
            AddressingMode::Absolute
        } else if in_zero_page(labels, op) {
            AddressingMode::ZeroPage
        } else {
            AddressingMode::Absolute
        })
    }
}

/// The bytes of an instruction: the opcode, then one operand byte or a little-endian word.
pub open spec fn encoding(opcode: u8, mode: AddressingMode, value: u16) -> Option<Seq<u8>> {
    match mode {
        AddressingMode::Immediate | AddressingMode::ZeroPage | AddressingMode::ZeroPageX
        | AddressingMode::ZeroPageY | AddressingMode::Relative => Some(seq![opcode, value as u8]),
        AddressingMode::Absolute | AddressingMode::AbsoluteX | AddressingMode::AbsoluteY
        | AddressingMode::Indirect => Some(seq![opcode, (value % 256) as u8, (value / 256) as u8]),
        AddressingMode::Implied => Some(seq![opcode]),
        _ => None,
    }
}

/// Whether an instruction takes no operand.
pub open spec fn implied_only(i: Instruction) -> bool {
    i == Instruction::RTS || i == Instruction::BRK || i == Instruction::NOP || i == Instruction::CLC || i
        == Instruction::SEC || i == Instruction::TXS || i == Instruction::TAY || i == Instruction::TYA || i
        == Instruction::INX || i == Instruction::DEX
}

/// The instruction a statement names, unless its first word is a directive or no mnemonic.
pub open spec fn statement_instruction(input: Seq<char>) -> Option<Instruction> {
    let word = statement_word(input);
    if word.len() > 0 && word[0] == '.' {
        None
    } else {
        mnemonic_instruction(word)
    }
}

/// The offset byte of a branch at `here` to `target`: the distance from the instruction after
/// it, as a signed byte.
pub open spec fn branch_offset(target: u16, here: u16) -> u8 {
    ((target - (here + 2)) % 256) as u8
}

/// The bytes a statement assembles to, where the instruction will stand at `here`; `None` if
/// it does not assemble.
pub open spec fn assembled(input: Seq<char>, labels: Map<Seq<char>, u16>, here: u16) -> Option<Seq<u8>> {
    match statement_instruction(input) {
        None => None,
        Some(i) => if implied_only(i) {
            match form_entry(i, AddressingMode::Implied) {
                Some(m) => Some(seq![m.opcode]),
                None => None,
            }
        } else {
            match statement_rest(input) {
                None => None,
                Some(op) => if names_accumulator(op) {
                    if i == Instruction::ASL || i == Instruction::LSR {
                        match form_entry(i, AddressingMode::Accumulator) {
                            Some(m) => Some(seq![m.opcode]),
                            None => None,
                        }
                    } else {
                        None
                    }
                } else if op == seq!['*'] {
                    match form_entry(i, AddressingMode::Absolute) {
                        Some(m) => Some(seq![m.opcode, (here % 256) as u8, (here / 256) as u8]),
                        None => None,
                    }
                } else if label_reference(op) {
                    let (label, mode) = label_form(i, op, labels);
                    match map_get(labels, label) {
                        None => None,
                        Some(address) => match form_entry(i, mode) {
                            None => None,
                            Some(m) => if m.addressing_mode == AddressingMode::Relative {
                                Some(seq![m.opcode, branch_offset(address, here)])
                            } else {
                                encoding(m.opcode, m.addressing_mode, address)
                            },
                        },
                    }
                } else {
                    match asm_form(op) {
                        Err(_) => None,
                        Ok((mode, value)) => match form_entry(i, mode) {
                            None => None,
                            Some(m) => encoding(m.opcode, mode, value),
                        },
                    }
                },
            }
        },
    }
}

/// The table's first entry for an instruction in a mode is that opcode's own entry.
pub(crate) proof fn lemma_form_entry_decodes(i: Instruction, mode: AddressingMode)
    ensures
        form_entry(i, mode) matches Some(m) ==> opcode_entry(m.opcode) == Some(m) && m.instruction == i
            && m.addressing_mode == mode && m.bytes as u16 == mode_size(mode),
{
    if exists|op: u8| #[trigger] first_form(op, i, mode) {
        let op = choose|op: u8| #[trigger] first_form(op, i, mode);
        lemma_opcode_entry_bounds(op);
        lemma_opcode_entry_size(op);
    }
}

/// An encoding starts with its opcode and is as long as its mode says.
pub(crate) proof fn lemma_encoding_size(opcode: u8, mode: AddressingMode, value: u16)
    ensures
        encoding(opcode, mode, value) matches Some(b) ==> b.len() == mode_size(mode) && b[0] == opcode,
{
}

/// What a statement assembles to decodes back to it: the first byte is an opcode of the
/// statement's instruction, and the decoder gives that opcode the length that was emitted.
pub proof fn lemma_assembled_decodes(input: Seq<char>, labels: Map<Seq<char>, u16>, here: u16)
    requires
        assembled(input, labels, here) is Some,
    ensures
        ({
            let b = assembled(input, labels, here)->0;
            &&& b.len() >= 1
            &&& opcode_entry(b[0]) matches Some(m) && statement_instruction(input) == Some(m.instruction) && m.bytes
                == b.len()
        }),
{
    let i = statement_instruction(input)->0;
    let b = assembled(input, labels, here)->0;
    if implied_only(i) {
        lemma_form_entry_decodes(i, AddressingMode::Implied);
    } else {
        let op = statement_rest(input)->0;
        if names_accumulator(op) {
            lemma_form_entry_decodes(i, AddressingMode::Accumulator);
        } else if op == seq!['*'] {
            lemma_form_entry_decodes(i, AddressingMode::Absolute);
        } else if label_reference(op) {
            let (label, mode) = label_form(i, op, labels);
            let address = map_get(labels, label)->0;
            let m = form_entry(i, mode)->0;
            lemma_form_entry_decodes(i, mode);
            if m.addressing_mode != AddressingMode::Relative {
                lemma_encoding_size(m.opcode, m.addressing_mode, address);
            }
        } else {
            let (mode, value) = asm_form(op)->Ok_0;
            let m = form_entry(i, mode)->0;
            lemma_form_entry_decodes(i, mode);
            lemma_encoding_size(m.opcode, mode, value);
        }
    }
}

/// Whether a statement refers to a label that is not defined: an instruction with an operand
/// that names a label, and no such label.
pub open spec fn undefined_label(input: Seq<char>, labels: Map<Seq<char>, u16>) -> bool {
    match statement_instruction(input) {
        None => false,
        Some(i) => !implied_only(i) && match statement_rest(input) {
            None => false,
            Some(op) => !names_accumulator(op) && op != seq!['*'] && label_reference(op) && map_get(
                labels,
                label_form(i, op, labels).0,
            ) is None,
        },
    }
}

/// Read a number as operands write it.
pub fn read_word(s: &[char]) -> (r: Result<u16, AssembleError>)
    ensures
        match r {
            Ok(v) => word_of(s@) == Some(v),
            Err(e) => word_of(s@) is None && e is ParseError,
        },
{
    let text = string_of(s);
    match parse_value::<u16>(text.as_str()) {
        Ok(v) => Ok(v),
        Err(e) => Err(AssembleError::ParseError(e)),
    }
}

/// The message for a value too large for an indirect mode.
fn too_large(value: u16, mode: &str) -> (m: String)
    ensures
        m@ == "Value $"@ + hex_digits(value as nat) + " too large for "@ + mode@ + " addressing"@,
{
    let mut m = String::from_str("Value $");
    push_hex(&mut m, value as usize);
    m.append(" too large for ");
    m.append(mode);
    m.append(" addressing");
    m
}

/// Read an operand into its addressing mode and value.
pub fn read_operand(op: &[char]) -> (r: Result<(AddressingMode, u16), AssembleError>)
    ensures
        match r {
            Ok(f) => asm_form(op@) == Ok::<(AddressingMode, u16), OperandFault>(f),
            Err(e) => asm_form(op@) matches Err(fault) && reports(fault, e, op@),
        },
{
    let n = op.len();
    let x = find_pair(op, ',', 'X');
    let y = find_pair(op, ',', 'Y');
    proof {
        lemma_index_of_pair(op@, ',', 'X');
        lemma_index_of_pair(op@, ',', 'Y');
    }
    if x < n {
        let base = &op[0..x];
        if !starts_with(base, '$') {
            return Ok((AddressingMode::AbsoluteX, 0));
        }
        let v = read_word(base)?;
        return if v <= 0xFF {
            Ok((AddressingMode::ZeroPageX, v))
        } else {
            Ok((AddressingMode::AbsoluteX, v))
        };
    }
    if y < n {
        let base = &op[0..y];
        if !starts_with(base, '$') {
            return Ok((AddressingMode::AbsoluteY, 0));
        }
        let v = read_word(base)?;
        return if v <= 0xFF {
            Ok((AddressingMode::ZeroPageY, v))
        } else {
            Ok((AddressingMode::AbsoluteY, v))
        };
    }
    if starts_with(op, '#') {
        let v = read_word(&op[1..n])?;
        assert(op@.subrange(1, n as int) =~= op@.drop_first());
        return Ok((AddressingMode::Immediate, v));
    }
    if starts_with(op, '(') && ends_with3(op, ',', 'X', ')') {
        let v = read_word(&op[1..n - 3])?;
        return if v <= 0xFF {
            Ok((AddressingMode::IndexedIndirect, v))
        } else {
            Err(AssembleError::ValueOutOfRange(too_large(v, "indexed indirect")))
        };
    }
    if starts_with(op, '(') && ends_with3(op, ')', ',', 'Y') {
        let v = read_word(&op[1..n - 3])?;
        return if v <= 0xFF {
            Ok((AddressingMode::IndirectIndexed, v))
        } else {
            Err(AssembleError::ValueOutOfRange(too_large(v, "indirect indexed")))
        };
    }
    if starts_with(op, '(') && op[n - 1] == ')' {
        let v = read_word(&op[1..n - 1])?;
        return Ok((AddressingMode::Indirect, v));
    }
    proof {
        lemma_utf8_length_bounds(op@);
    }
    let short = n <= 5;
    let bytes: usize = if short {
        utf8_len(op)
    } else {
        6
    };
    if starts_with(op, '$') && bytes <= 3 {
        let v = read_word(op)?;
        if v <= 0xFF {
            return Ok((AddressingMode::ZeroPage, v));
        }
    }
    if starts_with(op, '$') && bytes == 5 {
        let v = read_word(op)?;
        return Ok((AddressingMode::Absolute, v));
    }
    Err(AssembleError::InvalidAddressingMode(string_of(op)))
}

/// Whether an operand refers to a label.
pub fn is_label_reference(op: &[char]) -> (b: bool)
    ensures
        b == label_reference(op@),
{
    if is_accumulator(trim_chars(op)) {
        return false;
    }
    let comma = find_char(op, ',');
    proof {
        lemma_index_of(op@, ',');
    }
    let base = &op[0..comma];
    !(starts_with(base, '#') || starts_with(base, '$') || starts_with(base, '%'))
}

/// The bytes of an instruction, for the modes that have an encoding.
pub fn encode(opcode: u8, mode: AddressingMode, value: u16) -> (r: Result<Vec<u8>, AssembleError>)
    ensures
        match r {
            Ok(b) => encoding(opcode, mode, value) == Some(b@),
            Err(e) => encoding(opcode, mode, value) is None && e is InvalidAddressingMode,
        },
{
    let mut bytes: Vec<u8> = Vec::new();
    bytes.push(opcode);
    match mode {
        AddressingMode::Immediate | AddressingMode::ZeroPage | AddressingMode::ZeroPageX
        | AddressingMode::ZeroPageY | AddressingMode::Relative => {
            bytes.push(value as u8);
        },
        AddressingMode::Absolute | AddressingMode::AbsoluteX | AddressingMode::AbsoluteY
        | AddressingMode::Indirect => {
            bytes.push((value & 0xFF) as u8);
            bytes.push((value >> 8) as u8);
            assert((value & 0xFF) as u8 == (value % 256) as u8 && (value >> 8) as u8 == (value / 256) as u8)
                by (bit_vector);
        },
        AddressingMode::Implied => {},
        _ => {
            let mut m = String::from_str("Unsupported addressing mode: ");
            m.append(mode.name());
            return Err(AssembleError::InvalidAddressingMode(m));
        },
    }
    assert(encoding(opcode, mode, value) == Some(bytes@));
    Ok(bytes)
}

/// The instruction a statement names.
pub fn statement_mnemonic(input: &[char]) -> (r: Result<(Instruction, Option<&[char]>), AssembleError>)
    ensures
        match r {
            Ok((i, op)) => statement_instruction(input@) == Some(i) && match op {
                Some(o) => statement_rest(input@) == Some(o@),
                None => statement_rest(input@) is None,
            },
            Err(e) => statement_instruction(input@) is None && e is InvalidSyntaxWithContext,
        },
{
    let (word, operand) = split_statement(input);
    if starts_with(word, '.') {
        let mut message = String::from_str("Tried to parse directive '");
        message.append(string_of(word).as_str());
        message.append("' as an instruction");
        return Err(AssembleError::InvalidSyntaxWithContext { line: string_of(input), message });
    }
    match Instruction::from_mnemonic(word) {
        Some(i) => Ok((i, operand)),
        None => {
            let mut message = String::from_str("Unknown instruction mnemonic: '");
            message.append(string_of(word).as_str());
            message.append("'");
            Err(AssembleError::InvalidSyntaxWithContext { line: string_of(input), message })
        },
    }
}


/// The mode an operand gives an instruction: the accumulator for a shift written with `A`,
/// implied for any other instruction written so, else the mode the operand spells.
pub open spec fn operand_mode(i: Instruction, op: Seq<char>) -> Option<AddressingMode> {
    if names_accumulator(trimmed(op)) {
        if i == Instruction::ASL || i == Instruction::LSR {
            Some(AddressingMode::Accumulator)
        } else {
            Some(AddressingMode::Implied)
        }
    } else {
        match asm_form(op) {
            Ok((m, _)) => Some(m),
            Err(_) => None,
        }
    }
}

/// The metadata a statement reads as, without resolving labels.
pub open spec fn parsed_instruction(input: Seq<char>) -> Option<InstructionMetadata> {
    match statement_instruction(input) {
        None => None,
        Some(i) => if implied_only(i) {
            form_entry(i, AddressingMode::Implied)
        } else {
            match statement_rest(input) {
                None => None,
                Some(op) => match operand_mode(i, op) {
                    None => None,
                    Some(mode) => form_entry(i, mode),
                },
            }
        },
    }
}

/// The size a statement is counted at while labels are not yet known: one byte with no
/// operand or the accumulator, three for a label, else its mode's size.
pub open spec fn instruction_size(input: Seq<char>) -> Option<u16> {
    match statement_instruction(input) {
        None => None,
        Some(i) => if implied_only(i) {
            Some(1)
        } else {
            match statement_rest(input) {
                None => None,
                Some(op) => if names_accumulator(trimmed(op)) {
                    Some(1)
                } else if label_reference(op) {
                    Some(3)
                } else {
                    match parsed_instruction(input) {
                        Some(m) => Some(mode_size(m.addressing_mode)),
                        None => None,
                    }
                },
            }
        },
    }
}

/// Where the next instruction goes: the end of the selected segment, or the load address when
/// none is selected.
pub open spec fn here_of(segments: Seq<SegmentView>, current: Option<Seq<char>>, load_address: u16) -> u16 {
    match current {
        Some(name) => {
            let p = segment_position(segments, name);
            if p < segments.len() {
                ((segments[p].1 + segments[p].2.len()) % 65536) as u16
            } else {
                load_address
            }
        },
        None => load_address,
    }
}

impl AddressingMode {
    /// The mode an operand gives an instruction, without resolving labels.
    pub fn from_instruction(instruction: Instruction, operand: &str) -> (r: Result<AddressingMode, AddressingModeError>)
        ensures
            match r {
                Ok(m) => operand_mode(instruction, operand@) == Some(m),
                Err(_) => operand_mode(instruction, operand@) is None,
            },
    {
        let chars = chars_of(operand);
        mode_of_operand(instruction, chars.as_slice())
    }
}

/// The mode an operand gives an instruction.
fn mode_of_operand(instruction: Instruction, op: &[char]) -> (r: Result<AddressingMode, AddressingModeError>)
    ensures
        match r {
            Ok(m) => operand_mode(instruction, op@) == Some(m),
            Err(_) => operand_mode(instruction, op@) is None,
        },
{
    if is_accumulator(trim_chars(op)) {
        return match instruction {
            Instruction::ASL | Instruction::LSR => Ok(AddressingMode::Accumulator),
            _ => Ok(AddressingMode::Implied),
        };
    }
    match read_operand(op) {
        Ok((mode, _)) => Ok(mode),
        Err(_) => Err(AddressingModeError::InvalidOperand(string_of(op))),
    }
}

/// Whether a label stands for a zero-page address.
fn zero_page_label(labels: &Labels, name: &[char]) -> (b: bool)
    ensures
        b == in_zero_page(labels@, name@),
{
    match labels.lookup_chars(name) {
        Some(a) => a <= 0xFF,
        None => false,
    }
}

/// The message for a statement that needs an operand and has none.
fn missing_operand(instruction: Instruction) -> (m: String)
    ensures
        m@ == "Missing operand for instruction '"@ + mnemonic_text(instruction) + "'"@,
{
    let mut m = String::from_str("Missing operand for instruction '");
    m.append(instruction.mnemonic());
    m.append("'");
    m
}

impl Assembler {
    /// Where the next instruction goes.
    pub open spec fn spec_here(&self) -> u16 {
        here_of(self.segments.spec_list(), self.segments.spec_current(), self.load_address)
    }

    /// Where the next instruction goes: the end of the selected segment, or the load address.
    pub fn here(&self) -> (a: u16)
        ensures
            a == self.spec_here(),
    {
        let _count = self.segments.len();
        proof {
            crate::cpu::assembler::segments::lemma_segment_position(
                self.segments.spec_list(),
                self.segments.spec_current()->0,
            );
        }
        match self.segments.current_index() {
            Some(i) => {
                let base = self.segments.load_address_at(i);
                let len = self.segments.data_len_at(i);
                let low = (len % 65536) as u16;
                let sum = (base as u32 + low as u32) % 65536;
                proof {
                    vstd::arithmetic::div_mod::lemma_add_mod_noop_right(base as int, len as int, 65536);
                }
                sum as u16
            },
            None => self.load_address,
        }
    }

    /// Resolve a label reference: the metadata for the mode the reference takes, and the
    /// address the label stands for.
    pub fn handle_label_reference(&self, instruction: Instruction, op: &[char], labels: &Labels) -> (r: Result<
        (InstructionMetadata, u16),
        AssembleError,
    >)
        ensures
            match r {
                Ok((m, a)) => map_get(labels@, label_form(instruction, op@, labels@).0) == Some(a) && form_entry(
                    instruction,
                    label_form(instruction, op@, labels@).1,
                ) == Some(m),
                Err(e) => map_get(labels@, label_form(instruction, op@, labels@).0) is None && e is LabelError
                    || map_get(labels@, label_form(instruction, op@, labels@).0) is Some && form_entry(
                    instruction,
                    label_form(instruction, op@, labels@).1,
                ) is None && e is InstructionDecoderError,
            },
    {
        let n = op.len();
        let x = find_pair(op, ',', 'X');
        let y = find_pair(op, ',', 'Y');
        let (label, mode) = if x < n {
            let l = &op[0..x];
            (l, if zero_page_label(labels, l) { AddressingMode::ZeroPageX } else { AddressingMode::AbsoluteX })
        } else if y < n {
            let l = &op[0..y];
            (l, if zero_page_label(labels, l) { AddressingMode::ZeroPageY } else { AddressingMode::AbsoluteY })
        } else {
            (op, if instruction.is_branch() {
                AddressingMode::Relative
            } else if instruction.is_jump() {
                AddressingMode::Absolute
            } else if zero_page_label(labels, op) {
                AddressingMode::ZeroPage
            } else {
                AddressingMode::Absolute
            })
        };
        let address = match labels.lookup_chars(label) {
            Some(a) => a,
            None => {
                let mut m = String::from_str("Undefined label: ");
                m.append(string_of(label).as_str());
                return Err(AssembleError::LabelError(m));
            },
        };
        match self.table.lookup(instruction, mode) {
            Ok(m) => Ok((m, address)),
            Err(e) => Err(AssembleError::InstructionDecoderError(e)),
        }
    }

    /// Assemble one statement into its bytes, resolving labels from `labels`.
    pub fn assemble_instruction(&self, input: &str, labels: &Labels) -> (r: Result<Vec<u8>, AssembleError>)
        ensures
            r is Ok <==> assembled(input@, labels@, self.spec_here()) is Some,
            r matches Ok(b) ==> assembled(input@, labels@, self.spec_here()) == Some(b@),
            undefined_label(input@, labels@) ==> r matches Err(AssembleError::LabelError(_)),
    {
        let chars = chars_of(input);
        self.assemble_chars(chars.as_slice(), labels)
    }

    /// Assemble one statement, given as characters.
    pub fn assemble_chars(&self, input: &[char], labels: &Labels) -> (r: Result<Vec<u8>, AssembleError>)
        ensures
            r is Ok <==> assembled(input@, labels@, self.spec_here()) is Some,
            r matches Ok(b) ==> assembled(input@, labels@, self.spec_here()) == Some(b@),
            undefined_label(input@, labels@) ==> r matches Err(AssembleError::LabelError(_)),
    {
        let (instruction, operand) = statement_mnemonic(input)?;
        if instruction.has_implied_addressing() {
            let m = match self.table.lookup(instruction, AddressingMode::Implied) {
                Ok(m) => m,
                Err(e) => return Err(AssembleError::InstructionDecoderError(e)),
            };
            let mut bytes: Vec<u8> = Vec::new();
            bytes.push(m.opcode);
            assert(bytes@ =~= seq![m.opcode]);
            return Ok(bytes);
        }
        let op = match operand {
            Some(o) => o,
            None => {
                return Err(AssembleError::InvalidSyntaxWithContext {
                    line: string_of(input),
                    message: missing_operand(instruction),
                });
            },
        };
        if is_accumulator(op) {
            return match instruction {
                Instruction::ASL | Instruction::LSR => {
                    match self.table.lookup(instruction, AddressingMode::Accumulator) {
                        Ok(m) => {
                            let mut bytes: Vec<u8> = Vec::new();
                            bytes.push(m.opcode);
                            assert(bytes@ =~= seq![m.opcode]);
                            Ok(bytes)
                        },
                        Err(e) => Err(AssembleError::InstructionDecoderError(e)),
                    }
                },
                _ => {
                    let mut message = String::from_str("Instruction '");
                    message.append(instruction.mnemonic());
                    message.append("' does not support accumulator addressing mode");
                    Err(AssembleError::InvalidSyntaxWithContext { line: string_of(input), message })
                },
            };
        }
        if op.len() == 1 && op[0] == '*' {
            assert(op@ =~= seq!['*']);
            let m = match self.table.lookup(instruction, AddressingMode::Absolute) {
                Ok(m) => m,
                Err(e) => return Err(AssembleError::InstructionDecoderError(e)),
            };
            let here = self.here();
            let mut bytes: Vec<u8> = Vec::new();
            bytes.push(m.opcode);
            bytes.push((here & 0xFF) as u8);
            bytes.push((here >> 8) as u8);
            proof {
                crate::memory::lemma_word_bytes(here);
            }
            assert(bytes@ =~= seq![m.opcode, (here % 256) as u8, (here / 256) as u8]);
            return Ok(bytes);
        }
        assert(!(op@ =~= seq!['*']));
        if is_label_reference(op) {
            let (m, address) = self.handle_label_reference(instruction, op, labels)?;
            if m.addressing_mode == AddressingMode::Relative {
                let here = self.here();
                let offset = ((address as u32 + 0x20000 - (here as u32 + 2)) % 256) as u8;
                assert(offset == branch_offset(address, here));
                let mut bytes: Vec<u8> = Vec::new();
                bytes.push(m.opcode);
                bytes.push(offset);
                assert(bytes@ =~= seq![m.opcode, branch_offset(address, here)]);
                return Ok(bytes);
            }
            return encode(m.opcode, m.addressing_mode, address);
        }
        let (mode, value) = read_operand(op)?;
        let m = match self.table.lookup(instruction, mode) {
            Ok(m) => m,
            Err(e) => return Err(AssembleError::InstructionDecoderError(e)),
        };
        encode(m.opcode, mode, value)
    }

    /// Read a statement into its metadata, without resolving labels.
    pub fn parse_instruction(&self, input: &str) -> (r: Result<InstructionMetadata, AssembleError>)
        ensures
            match r {
                Ok(m) => parsed_instruction(input@) == Some(m),
                Err(_) => parsed_instruction(input@) is None,
            },
    {
        let chars = chars_of(input);
        self.parse_chars(chars.as_slice())
    }

    /// Read a statement, given as characters, into its metadata.
    fn parse_chars(&self, input: &[char]) -> (r: Result<InstructionMetadata, AssembleError>)
        ensures
            match r {
                Ok(m) => parsed_instruction(input@) == Some(m),
                Err(_) => parsed_instruction(input@) is None,
            },
    {
        let (instruction, operand) = statement_mnemonic(input)?;
        if instruction.has_implied_addressing() {
            return match self.table.lookup(instruction, AddressingMode::Implied) {
                Ok(m) => Ok(m),
                Err(e) => Err(AssembleError::InstructionDecoderError(e)),
            };
        }
        let op = match operand {
            Some(o) => o,
            None => return Err(AssembleError::InvalidSyntax(String::from_str("Missing operand"))),
        };
        let mode = match mode_of_operand(instruction, op) {
            Ok(m) => m,
            Err(e) => return Err(AssembleError::AddressingModeError(e)),
        };
        match self.table.lookup(instruction, mode) {
            Ok(m) => Ok(m),
            Err(e) => Err(AssembleError::InstructionDecoderError(e)),
        }
    }

    /// The size a statement is counted at before labels are known.
    pub fn calculate_instruction_size(&self, line: &[char]) -> (r: Result<u16, AssembleError>)
        ensures
            match r {
                Ok(n) => instruction_size(line@) == Some(n),
                Err(_) => instruction_size(line@) is None,
            },
    {
        let (instruction, operand) = statement_mnemonic(line)?;
        if instruction.has_implied_addressing() {
            return Ok(1);
        }
        let op = match operand {
            Some(o) => o,
            None => {
                return Err(AssembleError::InvalidSyntaxWithContext {
                    line: string_of(line),
                    message: missing_operand(instruction),
                });
            },
        };
        if is_accumulator(trim_chars(op)) {
            return Ok(1);
        }
        if is_label_reference(op) {
            return Ok(3);
        }
        let m = self.parse_chars(line)?;
        Ok(m.addressing_mode.size())
    }
}

/// A branch the assembler encodes at `here` reaches its target when the CPU takes it: with the
/// opcode at `here`, the CPU reads the offset at `here + 1` and jumps from the byte after it, which
/// lands on `target` whenever the target is within the signed-byte range of the next
/// instruction.
pub proof fn lemma_branch_reaches_target(target: u16, here: u16)
    requires
        -128 <= target - (here + 2) <= 127,
    ensures
        crate::cpu::instruction::branch_target(((here + 1) % 65536) as u16, branch_offset(target, here)) == target,
{
    let d = target - (here + 2);
    let off = branch_offset(target, here);
    assert(off as int == ((d % 256) + 256) % 256);
    if d >= 0 {
        assert(off as int == d);
    } else {
        assert(off as int == d + 256);
    }
}

} // verus!
