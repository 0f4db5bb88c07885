//! Turning machine code back into assembly text.
use vstd::prelude::*;

use super::addressing_mode::{mode_name, AddressingMode};
use super::instruction::{lemma_opcode_entry_bounds, mnemonic_text, opcode_entry};
use super::{Instruction, InstructionDecoder, InstructionDecoderError, InstructionMetadata};
use crate::errors::NesError;
use crate::helpers::parse::digit_value;
use crate::text::{hex_char, hex_digit, hex_digits, push_char, push_hex_byte, push_text};

verus! {

/// Errors that can occur while disassembling.
#[derive(Debug)]
pub enum DisassembleError {
    /// The byte is no opcode the decoder knows.
    InvalidOpcode(u8),
    /// The instruction has no textual form.
    UnknownInstruction(Instruction),
    /// A memory or decoder failure.
    NesError(NesError),
}

impl From<NesError> for DisassembleError {
    fn from(e: NesError) -> (r: DisassembleError)
        ensures
            r == DisassembleError::NesError(e),
    {
        DisassembleError::NesError(e)
    }
}

impl vstd::std_specs::convert::FromSpecImpl<NesError> for DisassembleError {
    open spec fn obeys_from_spec() -> bool {
        true
    }

    open spec fn from_spec(v: NesError) -> DisassembleError {
        DisassembleError::NesError(v)
    }
}

/// The result of a disassembler operation.
pub type DisassembleResult<T> = Result<T, DisassembleError>;

/// A byte as two hexadecimal digits, capitals.
pub open spec fn hex_byte(b: u8) -> Seq<char> {
    seq![hex_char((b / 16) as nat), hex_char((b % 16) as nat)]
}

/// The text of an operand in a mode, from the operand bytes that memory holds (fewer than the
/// mode needs at the end of memory): `#$nn`, `$nn` and `$nnnn` for immediate, zero-page and
/// absolute operands, question marks where bytes are missing, nothing for implied
/// instructions, and `$` with the mode's name for the other modes.
pub open spec fn operand_text(mode: AddressingMode, operand: Seq<u8>) -> Seq<char> {
    match mode {
        AddressingMode::Immediate => if operand.len() > 0 {
            seq!['#', '$'] + hex_byte(operand[0])
        } else {
            seq!['#', '$', '?', '?']
        },
        AddressingMode::ZeroPage => if operand.len() > 0 {
            seq!['$'] + hex_byte(operand[0])
        } else {
            seq!['$', '?', '?']
        },
        AddressingMode::Absolute => if operand.len() >= 2 {
            seq!['$'] + hex_byte(operand[1]) + hex_byte(operand[0])
        } else {
            seq!['$', '?', '?', '?', '?']
        },
        AddressingMode::Implied => seq![],
        _ => seq!['$'] + mode_name(mode),
    }
}

/// The text of an instruction: its mnemonic, then a space and the operand when there is one.
pub open spec fn instruction_text(m: InstructionMetadata, operand: Seq<u8>) -> Seq<char> {
    let o = operand_text(m.addressing_mode, operand);
    if o.len() == 0 {
        mnemonic_text(m.instruction)
    } else {
        mnemonic_text(m.instruction) + seq![' '] + o
    }
}

/// The operand bytes after the opcode at `offset`, cut short by the end of memory.
pub open spec fn operand_of(memory: Seq<u8>, offset: int, m: InstructionMetadata) -> Seq<u8> {
    let end = if offset + m.bytes <= memory.len() { offset + m.bytes } else { memory.len() as int };
    memory.subrange(offset + 1, end)
}

/// What disassembling the instruction at `offset` gives: its text and its length in bytes, or
/// the error.
pub open spec fn disassembly_outcome(memory: Seq<u8>, offset: usize) -> Result<(Seq<char>, usize), DisassembleError> {
    if offset >= memory.len() {
        Err(DisassembleError::NesError(NesError::MemoryAccessError(offset as u16)))
    } else {
        match opcode_entry(memory[offset as int]) {
            None => Err(DisassembleError::InvalidOpcode(memory[offset as int])),
            Some(m) => Ok((instruction_text(m, operand_of(memory, offset as int, m)), m.bytes as usize)),
        }
    }
}

/// The line for a byte that is no opcode.
pub open spec fn data_byte_text(b: u8) -> Seq<char> {
    seq!['.', 'b', 'y', 't', 'e', ' ', '$'] + hex_byte(b)
}

/// The listing of memory from `offset` up to `end`: each instruction's address, its bytes (cut
/// at `end`) and its text; a byte that is no opcode is listed as data on its own.
pub open spec fn listing(memory: Seq<u8>, offset: int, end: int) -> Seq<(usize, Seq<u8>, Seq<char>)>
    decreases end - offset,
{
    if offset < 0 || offset >= end || end > memory.len() {
        seq![]
    } else {
        match opcode_entry(memory[offset]) {
            Some(m) => {
                proof {
                    lemma_opcode_entry_bounds(memory[offset]);
                }
                let used = if m.bytes <= end - offset { m.bytes as int } else { end - offset };
                seq![(offset as usize, memory.subrange(offset, offset + used), instruction_text(m, operand_of(memory, offset, m)))]
                    + listing(memory, offset + used, end)
            },
            None => seq![(offset as usize, seq![memory[offset]], data_byte_text(memory[offset]))] + listing(
                memory,
                offset + 1,
                end,
            ),
        }
    }
}

/// The bytes of a listing's entries, one after another.
pub open spec fn listing_bytes(entries: Seq<(usize, Seq<u8>, Seq<char>)>) -> Seq<u8>
    decreases entries.len(),
{
    if entries.len() == 0 {
        seq![]
    } else {
        entries[0].1 + listing_bytes(entries.drop_first())
    }
}

/// A listing covers its range exactly: its entries' bytes, one after another, are the memory
/// from `offset` to `end`, and each entry stands at the address where the ones before it end.
pub proof fn lemma_listing_covers_range(memory: Seq<u8>, offset: int, end: int)
    requires
        0 <= offset <= end <= memory.len(),
        memory.len() <= usize::MAX,
    ensures
        listing_bytes(listing(memory, offset, end)) == memory.subrange(offset, end),
        forall|k: int|
            0 <= k < listing(memory, offset, end).len() ==> #[trigger] listing(memory, offset, end)[k].0 == offset
                + listing_bytes(listing(memory, offset, end).take(k)).len(),
    decreases end - offset,
{
    let l = listing(memory, offset, end);
    if offset == end {
        assert(memory.subrange(offset, end) =~= Seq::<u8>::empty());
    } else {
        lemma_opcode_entry_bounds(memory[offset]);
        let next = match opcode_entry(memory[offset]) {
            Some(m) => if m.bytes <= end - offset { offset + m.bytes } else { end },
            None => offset + 1,
        };
        lemma_listing_covers_range(memory, next, end);
        let rest = listing(memory, next, end);
        assert(l == seq![l[0]] + rest);
        assert(l.drop_first() =~= rest);
        assert(l[0].1 =~= memory.subrange(offset, next));
        assert(memory.subrange(offset, end) =~= memory.subrange(offset, next) + memory.subrange(next, end));
        assert forall|k: int| 0 <= k < l.len() implies #[trigger] l[k].0 == offset + listing_bytes(l.take(k)).len() by {
            if k == 0 {
                assert(l.take(0) =~= Seq::<(usize, Seq<u8>, Seq<char>)>::empty());
            } else {
                assert(l[k] == rest[k - 1]);
                assert(l.take(k).drop_first() =~= rest.take(k - 1));
                assert(l.take(k)[0] == l[0]);
            }
        }
    }
}

/// A listing entry as plain values.
pub open spec fn entry_view(e: (usize, Vec<u8>, String)) -> (usize, Seq<u8>, Seq<char>) {
    (e.0, e.1@, e.2@)
}

/// `digits` padded with leading zeros to four characters.
pub open spec fn width4(digits: Seq<char>) -> Seq<char> {
    if digits.len() < 4 {
        Seq::new((4 - digits.len()) as nat, |i: int| '0') + digits
    } else {
        digits
    }
}

/// `s` padded with trailing spaces to eight characters.
pub open spec fn pad8(s: Seq<char>) -> Seq<char> {
    if s.len() < 8 {
        s + Seq::new((8 - s.len()) as nat, |i: int| ' ')
    } else {
        s
    }
}

/// Bytes as hexadecimal pairs separated by single spaces.
pub open spec fn joined_bytes(bytes: Seq<u8>) -> Seq<char>
    decreases bytes.len(),
{
    if bytes.len() == 0 {
        seq![]
    } else if bytes.len() == 1 {
        hex_byte(bytes[0])
    } else {
        joined_bytes(bytes.drop_last()) + seq![' '] + hex_byte(bytes.last())
    }
}

/// One line of a formatted listing: the address in at least four hexadecimal digits, a colon,
/// the bytes in a column eight wide, the text, and a newline.
pub open spec fn listing_line(e: (usize, Seq<u8>, Seq<char>)) -> Seq<char> {
    width4(hex_digits(e.0 as nat)) + seq![':', ' '] + pad8(joined_bytes(e.1)) + seq![' '] + e.2 + seq!['\n']
}

/// A formatted listing: its lines, in order.
pub open spec fn listing_text(entries: Seq<(usize, Seq<u8>, Seq<char>)>) -> Seq<char>
    decreases entries.len(),
{
    if entries.len() == 0 {
        seq![]
    } else {
        listing_text(entries.drop_last()) + listing_line(entries.last())
    }
}

/// The hexadecimal digits of `n`.
fn hex_chars(n: usize) -> (v: Vec<char>)
    ensures
        v@ == hex_digits(n as nat),
    decreases n,
{
    let mut v = if n >= 16 {
        hex_chars(n / 16)
    } else {
        Vec::new()
    };
    v.push(hex_digit((n % 16) as u8));
    assert(v@ =~= hex_digits(n as nat));
    v
}

/// Append the characters of `t`.
fn push_chars(s: &mut String, t: &[char])
    ensures
        final(s)@ == old(s)@ + t@,
{
    let mut i: usize = 0;
    while i < t.len()
        invariant
            i <= t@.len(),
            s@ == old(s)@ + t@.subrange(0, i as int),
        decreases t@.len() - i,
    {
        push_char(s, t[i]);
        assert(s@ =~= old(s)@ + t@.subrange(0, i + 1));
        i += 1;
    }
    assert(t@.subrange(0, t@.len() as int) =~= t@);
}

/// Bytes joined as hexadecimal pairs take three characters each, less the last separator.
proof fn lemma_joined_len(bytes: Seq<u8>)
    ensures
        joined_bytes(bytes).len() == if bytes.len() == 0 { 0 } else { 3 * bytes.len() - 1 },
    decreases bytes.len(),
{
    if bytes.len() > 1 {
        lemma_joined_len(bytes.drop_last());
    }
}

/// Append `count` copies of `c`.
fn push_repeated(s: &mut String, c: char, count: usize)
    ensures
        final(s)@ == old(s)@ + Seq::new(count as nat, |t: int| c),
{
    let mut k: usize = 0;
    while k < count
        invariant
            k <= count,
            s@ == old(s)@ + Seq::new(k as nat, |t: int| c),
        decreases count - k,
    {
        push_char(s, c);
        assert(s@ =~= old(s)@ + Seq::new((k + 1) as nat, |t: int| c));
        k += 1;
    }
}

/// Converts machine code into assembly text.
pub struct Disassembler {
    decoder: InstructionDecoder,
}

impl Disassembler {
    #[verifier::type_invariant]
    spec fn wf(&self) -> bool {
        self.decoder.wf()
    }

    /// A disassembler with the full opcode table.
    pub fn new() -> (d: Self) {
        Disassembler { decoder: InstructionDecoder::new() }
    }

    /// The metadata of an opcode.
    fn decode_opcode(&self, opcode: u8) -> (r: DisassembleResult<InstructionMetadata>)
        ensures
            r == (match opcode_entry(opcode) {
                Some(m) => Ok(m),
                None => Err(DisassembleError::InvalidOpcode(opcode)),
            }),
    {
        proof {
            use_type_invariant(self);
        }
        match self.decoder.decode(opcode) {
            Ok(m) => Ok(m),
            Err(InstructionDecoderError::InvalidOpcode(op)) => Err(DisassembleError::InvalidOpcode(op)),
            Err(e) => Err(DisassembleError::NesError(NesError::InstructionDecoderError(e))),
        }
    }

    /// The text of an operand in a mode.
    fn format_operand(&self, addressing_mode: AddressingMode, operand_bytes: &[u8]) -> (s: String)
        ensures
            s@ == operand_text(addressing_mode, operand_bytes@),
    {
        let mut s = String::new();
        match addressing_mode {
            AddressingMode::Immediate => {
                push_char(&mut s, '#');
                push_char(&mut s, '$');
                if operand_bytes.len() > 0 {
                    push_hex_byte(&mut s, operand_bytes[0]);
                } else {
                    push_char(&mut s, '?');
                    push_char(&mut s, '?');
                }
            },
            AddressingMode::ZeroPage => {
                push_char(&mut s, '$');
                if operand_bytes.len() > 0 {
                    push_hex_byte(&mut s, operand_bytes[0]);
                } else {
                    push_char(&mut s, '?');
                    push_char(&mut s, '?');
                }
            },
            AddressingMode::Absolute => {
                push_char(&mut s, '$');
                if operand_bytes.len() >= 2 {
                    push_hex_byte(&mut s, operand_bytes[1]);
                    push_hex_byte(&mut s, operand_bytes[0]);
                } else {
                    push_char(&mut s, '?');
                    push_char(&mut s, '?');
                    push_char(&mut s, '?');
                    push_char(&mut s, '?');
                }
            },
            AddressingMode::Implied => {},
            _ => {
                push_char(&mut s, '$');
                push_text(&mut s, addressing_mode.name());
            },
        }
        assert(s@ =~= operand_text(addressing_mode, operand_bytes@));
        s
    }

    /// Disassemble the instruction at `offset`: its text and its length in bytes. Fails at or
    /// past the end of memory, and on a byte that is no opcode.
    pub fn disassemble_instruction(&self, memory: &[u8], offset: usize) -> (r: DisassembleResult<(String, usize)>)
        ensures
            match disassembly_outcome(memory@, offset) {
                Ok((text, n)) => r matches Ok((s, k)) && s@ == text && k == n,
                Err(e) => r matches Err(e2) && e2 == e,
            },
    {
        if memory.len() == 0 || offset >= memory.len() {
            return Err(DisassembleError::NesError(NesError::MemoryAccessError(offset as u16)));
        }
        let opcode = memory[offset];
        let metadata = self.decode_opcode(opcode)?;
        proof {
            lemma_opcode_entry_bounds(opcode);
        }
        let operand_len = (metadata.bytes - 1) as usize;
        let end_offset = if operand_len <= memory.len() - offset - 1 {
            offset + 1 + operand_len
        } else {
            memory.len()
        };
        let operand_bytes = &memory[offset + 1..end_offset];
        assert(operand_bytes@ == operand_of(memory@, offset as int, metadata));
        let operand_str = self.format_operand(metadata.addressing_mode, operand_bytes);
        let mut text = String::new();
        push_text(&mut text, metadata.instruction.mnemonic());
        if !operand_str.as_str().is_empty() {
            push_char(&mut text, ' ');
            push_text(&mut text, operand_str.as_str());
        }
        assert(text@ =~= instruction_text(metadata, operand_bytes@));
        Ok((text, metadata.bytes as usize))
    }

    /// Disassemble memory from `start_offset` for `length` bytes (stopping at the end of
    /// memory): each instruction's address, bytes and text, with a byte that is no opcode
    /// listed as `.byte $nn`.
    pub fn disassemble_program(&self, memory: &[u8], start_offset: usize, length: usize) -> (r: Vec<(usize, Vec<u8>, String)>)
        requires
            start_offset + length <= usize::MAX,
        ensures
            r@.map_values(|e: (usize, Vec<u8>, String)| entry_view(e)) == listing(
                memory@,
                start_offset as int,
                if start_offset + length <= memory@.len() { start_offset + length } else { memory@.len() as int },
            ),
    {
        let mut result: Vec<(usize, Vec<u8>, String)> = Vec::new();
        let mut offset = start_offset;
        let end_offset = if start_offset + length <= memory.len() {
            start_offset + length
        } else {
            memory.len()
        };
        let ghost whole = listing(memory@, start_offset as int, end_offset as int);
        while offset < end_offset
            invariant
                end_offset <= memory@.len(),
                start_offset <= offset,
                offset <= end_offset || offset == start_offset,
                whole == listing(memory@, start_offset as int, end_offset as int),
                whole == result@.map_values(|e: (usize, Vec<u8>, String)| entry_view(e)) + listing(
                    memory@,
                    offset as int,
                    end_offset as int,
                ),
            decreases end_offset - offset,
        {
            let ghost before = result@.map_values(|e: (usize, Vec<u8>, String)| entry_view(e));
            let ghost rest = listing(memory@, offset as int, end_offset as int);
            match self.disassemble_instruction(memory, offset) {
                Ok((instruction_str, bytes_used)) => {
                    proof {
                        lemma_opcode_entry_bounds(memory@[offset as int]);
                    }
                    let actual = if bytes_used <= end_offset - offset {
                        bytes_used
                    } else {
                        end_offset - offset
                    };
                    let raw_bytes = vstd::slice::slice_to_vec(&memory[offset..offset + actual]);
                    let ghost entry = (offset, raw_bytes, instruction_str);
                    result.push((offset, raw_bytes, instruction_str));
                    assert(result@.map_values(|e: (usize, Vec<u8>, String)| entry_view(e)) =~= before.push(entry_view(entry)));
                    assert(rest == seq![entry_view(entry)] + listing(memory@, offset + actual, end_offset as int));
                    offset += actual;
                },
                Err(_) => {
                    let mut text = String::new();
                    push_text(&mut text, ".byte $");
                    push_hex_byte(&mut text, memory[offset]);
                    proof {
                        reveal_strlit(".byte $");
                    }
                    assert(text@ =~= data_byte_text(memory@[offset as int]));
                    let mut raw_bytes: Vec<u8> = Vec::new();
                    raw_bytes.push(memory[offset]);
                    let ghost entry = (offset, raw_bytes, text);
                    result.push((offset, raw_bytes, text));
                    assert(result@.map_values(|e: (usize, Vec<u8>, String)| entry_view(e)) =~= before.push(entry_view(entry)));
                    assert(entry_view(entry).1 =~= seq![memory@[offset as int]]);
                    assert(rest == seq![entry_view(entry)] + listing(memory@, offset + 1, end_offset as int));
                    offset += 1;
                },
            }
            assert(whole =~= result@.map_values(|e: (usize, Vec<u8>, String)| entry_view(e)) + listing(
                memory@,
                offset as int,
                end_offset as int,
            ));
        }
        assert(listing(memory@, offset as int, end_offset as int) == Seq::<(usize, Seq<u8>, Seq<char>)>::empty());
        assert(whole =~= result@.map_values(|e: (usize, Vec<u8>, String)| entry_view(e)));
        result
    }

    /// Format a listing, one line an entry: the address in at least four hexadecimal digits, a
    /// colon, the bytes as hexadecimal pairs in a column eight wide, and the text.
    #[verifier::rlimit(60)]
    pub fn format_disassembly(&self, disassembly: &[(usize, Vec<u8>, String)]) -> (s: String)
        ensures
            s@ == listing_text(disassembly@.map_values(|e: (usize, Vec<u8>, String)| entry_view(e))),
    {
        let ghost entries = disassembly@.map_values(|e: (usize, Vec<u8>, String)| entry_view(e));
        let mut result = String::new();
        let mut i: usize = 0;
        while i < disassembly.len()
            invariant
                i <= disassembly@.len(),
                entries == disassembly@.map_values(|e: (usize, Vec<u8>, String)| entry_view(e)),
                result@ == listing_text(entries.subrange(0, i as int)),
            decreases disassembly@.len() - i,
        {
            let (addr, bytes, instruction) = &disassembly[i];
            let ghost line_start = result@;
            let digits = hex_chars(*addr);
            let zeros: usize = if digits.len() < 4 {
                4 - digits.len()
            } else {
                0
            };
            push_repeated(&mut result, '0', zeros);
            push_chars(&mut result, digits.as_slice());
            assert(width4(hex_digits(*addr as nat)) =~= Seq::new(zeros as nat, |t: int| '0') + digits@);
            push_char(&mut result, ':');
            push_char(&mut result, ' ');
            let ghost col_start = result@;
            let mut j: usize = 0;
            while j < bytes.len()
                invariant
                    j <= bytes@.len(),
                    result@ == col_start + joined_bytes(bytes@.subrange(0, j as int)),
                decreases bytes@.len() - j,
            {
                if j > 0 {
                    push_char(&mut result, ' ');
                }
                push_hex_byte(&mut result, bytes[j]);
                assert(bytes@.subrange(0, j + 1).drop_last() =~= bytes@.subrange(0, j as int));
                assert(result@ =~= col_start + joined_bytes(bytes@.subrange(0, j + 1)));
                j += 1;
            }
            assert(bytes@.subrange(0, bytes@.len() as int) =~= bytes@);
            proof {
                lemma_joined_len(bytes@);
            }
            let n = bytes.len();
            let spaces: usize = if n == 0 {
                8
            } else if n == 1 {
                6
            } else if n == 2 {
                3
            } else {
                0
            };
            push_repeated(&mut result, ' ', spaces);
            assert(pad8(joined_bytes(bytes@)) =~= joined_bytes(bytes@) + Seq::new(spaces as nat, |t: int| ' '));
            push_char(&mut result, ' ');
            push_text(&mut result, instruction.as_str());
            push_char(&mut result, '\n');
            proof {
                let e = entries[i as int];
                assert(e == (*addr, bytes@, instruction@));
                assert(entries.subrange(0, i + 1).drop_last() =~= entries.subrange(0, i as int));
                assert(result@ =~= line_start + listing_line(e));
                assert(result@ =~= listing_text(entries.subrange(0, i + 1)));
            }
            i += 1;
        }
        assert(entries.subrange(0, disassembly@.len() as int) =~= entries);
        result
    }
}

/// A hexadecimal digit reads back as the number it was written for.
proof fn lemma_hex_char_reads_back(d: nat)
    requires
        d < 16,
    ensures
        digit_value(hex_char(d)) == d,
        hex_char(d) != '#' && hex_char(d) != '$' && hex_char(d) != '?',
{
    if d < 10 {
        assert((48 + d) as char as u32 == 48 + d);
    } else {
        assert((55 + d) as char as u32 == 55 + d);
    }
}

/// Two hexadecimal digits read back as the byte they were written for.
proof fn lemma_hex_byte_reads_back(b: u8)
    ensures
        hex_byte(b).len() == 2,
        digit_value(hex_byte(b)[0]) * 16 + digit_value(hex_byte(b)[1]) == b,
        hex_byte(b)[0] != '#' && hex_byte(b)[1] != '#',
{
    lemma_hex_char_reads_back((b / 16) as nat);
    lemma_hex_char_reads_back((b % 16) as nat);
    assert((b / 16) * 16 + b % 16 == b) by (nonlinear_arith);
}

/// Operand text shows the operand as written in assembly: only an immediate operand starts
/// with `#`; an immediate or zero-page operand's digits read back as the operand byte, behind
/// `#$` and `$` respectively; an absolute operand's four digits read back as the little-endian
/// address, behind `$`; and an implied instruction has none.
pub proof fn lemma_operand_text_reads_back(mode: AddressingMode, operand: Seq<u8>)
    ensures
        ({
            let t = operand_text(mode, operand);
            &&& (t.len() > 0 && t[0] == '#') == (mode == AddressingMode::Immediate)
            &&& (t.len() == 0) == (mode == AddressingMode::Implied)
            &&& (mode == AddressingMode::Immediate && operand.len() > 0) ==> t.len() == 4 && t[1] == '$'
                && digit_value(t[2]) * 16 + digit_value(t[3]) == operand[0]
            &&& (mode == AddressingMode::ZeroPage && operand.len() > 0) ==> t.len() == 3 && t[0] == '$'
                && digit_value(t[1]) * 16 + digit_value(t[2]) == operand[0]
            &&& (mode == AddressingMode::Absolute && operand.len() >= 2) ==> t.len() == 5 && t[0] == '$'
                && (digit_value(t[1]) * 16 + digit_value(t[2])) * 256 + digit_value(t[3]) * 16 + digit_value(t[4])
                == operand[1] * 256 + operand[0]
        }),
{
    let t = operand_text(mode, operand);
    if operand.len() > 0 {
        lemma_hex_byte_reads_back(operand[0]);
    }
    if operand.len() > 1 {
        lemma_hex_byte_reads_back(operand[1]);
    }
    match mode {
        AddressingMode::Immediate => {
            if operand.len() > 0 {
                assert(t == seq!['#', '$'] + hex_byte(operand[0]));
                assert(t[2] == hex_byte(operand[0])[0] && t[3] == hex_byte(operand[0])[1]);
            }
        },
        AddressingMode::ZeroPage => {
            if operand.len() > 0 {
                assert(t[1] == hex_byte(operand[0])[0] && t[2] == hex_byte(operand[0])[1]);
            }
        },
        AddressingMode::Absolute => {
            if operand.len() >= 2 {
                let hi = hex_byte(operand[1]);
                let lo = hex_byte(operand[0]);
                assert(t == seq!['$'] + hi + lo);
                assert(t[1] == hi[0] && t[2] == hi[1] && t[3] == lo[0] && t[4] == lo[1]);
            }
        },
        _ => {},
    }
}

} // verus!
