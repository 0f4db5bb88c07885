//! Label collection counts every line at the bytes assembly emits for it.
use vstd::prelude::*;

use super::directives::{
    byte_tokens, directive_bytes, directive_read, res_args, sprite_args, word_values, words_le, Directive,
};
use super::labels::map_get;
use super::operand::{
    asm_form, assembled, implied_only, label_form, label_reference, lemma_encoding_size, lemma_form_entry_decodes,
    statement_instruction,
};
use super::program::{directive_size_of, filled_count, resolved_size};
use super::segments::SegmentView;
use super::source::{names_accumulator, statement_rest};
use crate::cpu::addressing_mode::AddressingMode;
use crate::cpu::instruction::form_entry;
use crate::helpers::parse::{is_white_space, trim_end, trim_start, trimmed};
use crate::text::{index_of, lemma_trim_start_suffix, split_commas};

verus! {

/// A `.word` list has one value for each filled piece.
proof fn lemma_word_values_len(ps: Seq<Seq<char>>, labels: Map<Seq<char>, u16>)
    requires
        word_values(ps, labels) is Some,
    ensures
        word_values(ps, labels)->0.len() == filled_count(ps),
    decreases ps.len(),
{
    if ps.len() > 0 {
        lemma_word_values_len(ps.drop_first(), labels);
    }
}

/// Words take two bytes each.
proof fn lemma_words_le_len(ws: Seq<u16>)
    ensures
        words_le(ws).len() == 2 * ws.len(),
    decreases ws.len(),
{
    if ws.len() > 0 {
        lemma_words_le_len(ws.drop_last());
    }
}

/// Label collection counts a data directive at the number of bytes the directive emits once
/// read, modulo the address space.
pub proof fn lemma_counted_size_is_emitted_size(
    line: Seq<char>,
    labels: Map<Seq<char>, u16>,
    segments: Seq<SegmentView>,
    d: Directive,
)
    requires
        directive_read(line, labels, segments, Some(d)),
        !(d is Segment),
    ensures
        directive_size_of(line) as int == directive_bytes(d).len() % 65536,
{
    reveal_strlit(".word");
    reveal_strlit(".res");
    reveal_strlit(".byte");
    reveal_strlit(".sprite");
    assert(".res"@.len() == 4 && ".byte"@.len() == 5 && ".word"@.len() == 5 && ".sprite"@.len() == 7);
    assert(".word"@ != ".byte"@) by {
        assert(".word"@[1] != ".byte"@[1]);
    }
    match d {
        Directive::Word(ws) => {
            let args = match crate::cpu::assembler::directives::statement_rest_raw(line) {
                Some(a) => a,
                None => seq![],
            };
            lemma_word_values_len(split_commas(args), labels);
            lemma_words_le_len(ws@);
        },
        _ => {},
    }
}

/// `trim_end` keeps a prefix.
proof fn lemma_trim_end_prefix(s: Seq<char>)
    ensures
        trim_end(s).len() <= s.len(),
        trim_end(s) == s.subrange(0, trim_end(s).len() as int),
    decreases s.len(),
{
    if s.len() > 0 && is_white_space(s.last()) {
        lemma_trim_end_prefix(s.drop_last());
        assert(s.drop_last().subrange(0, trim_end(s).len() as int) =~= s.subrange(0, trim_end(s).len() as int));
    } else {
        assert(s.subrange(0, s.len() as int) =~= s);
    }
}

/// `trim_end` leaves no white space at the end.
proof fn lemma_trim_end_last(s: Seq<char>)
    ensures
        trim_end(s).len() > 0 ==> !is_white_space(trim_end(s).last()),
    decreases s.len(),
{
    if s.len() > 0 && is_white_space(s.last()) {
        lemma_trim_end_last(s.drop_last());
    }
}

/// Trimming twice is trimming once.
proof fn lemma_trimmed_idempotent(s: Seq<char>)
    ensures
        trimmed(trimmed(s)) == trimmed(s),
{
    lemma_trim_start_suffix(s);
    let t = trim_start(s);
    lemma_trim_end_prefix(t);
    lemma_trim_end_last(t);
    let u = trim_end(t);
    if u.len() > 0 {
        assert(u[0] == t[0]);
        assert(trim_start(u) == u);
    } else {
        assert(trim_start(u) == u);
    }
}

/// Whether a label a statement's operand names (other than `*`) is the one the operand splits
/// off before its first comma, and stands on the same side of the zero page in both maps.
pub open spec fn label_placed_alike(c: Seq<char>, first: Map<Seq<char>, u16>, labels: Map<Seq<char>, u16>) -> bool {
    match statement_rest(c) {
        Some(op) => label_reference(op) ==> {
            let base = op.subrange(0, index_of(op, ','));
            &&& op != seq!['*']
            &&& label_form(statement_instruction(c)->0, op, labels).0 == base
            &&& first.dom().contains(base)
            &&& labels.dom().contains(base)
            &&& (first[base] <= 0xFF) == (labels[base] <= 0xFF)
        },
        None => true,
    }
}

/// An instruction is counted by label collection's second pass at the length it assembles to,
/// provided that a label its operand names was placed by the first pass on the same side of the
/// zero page as it ends up (and the operand is not `*`, nor a label with a comma before `,X` or
/// `,Y`).
pub proof fn lemma_counted_instruction_size(
    c: Seq<char>,
    first: Map<Seq<char>, u16>,
    labels: Map<Seq<char>, u16>,
    here: u16,
)
    requires
        resolved_size(c, first) is Some,
        assembled(c, labels, here) is Some,
        label_placed_alike(c, first, labels),
    ensures
        assembled(c, labels, here)->0.len() == resolved_size(c, first)->0,
{
    let i = statement_instruction(c)->0;
    if !implied_only(i) {
        let k = index_of(c, ' ');
        let op = statement_rest(c)->0;
        lemma_trimmed_idempotent(c.subrange(k + 1, c.len() as int));
        assert(trimmed(op) == op);
        if names_accumulator(op) {
        } else if label_reference(op) {
            let (label, mode) = label_form(i, op, labels);
            let address = map_get(labels, label)->0;
            let m = form_entry(i, mode)->0;
            lemma_form_entry_decodes(i, mode);
            if m.addressing_mode != AddressingMode::Relative {
                lemma_encoding_size(m.opcode, m.addressing_mode, address);
            }
        } else {
            let (mode, value) = asm_form(op)->Ok_0;
            let m = form_entry(i, mode)->0;
            lemma_encoding_size(m.opcode, mode, value);
        }
    }
}

} // verus!
