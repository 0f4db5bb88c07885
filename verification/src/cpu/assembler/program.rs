//! Whole programs: where each label lands, and the bytes each segment receives.
use vstd::prelude::*;

use super::directives::{segment_name, statement_rest_raw, Directive};
use super::labels::Labels;
use super::operand::{instruction_size, label_reference, word_of};
use super::segments::{segment_position, segments_after_add, SegmentView};
use super::source::{
    clean_line, cleaned, line_code, line_label, process_line, same_text, source_lines, split_lines, starts_with,
};
use super::{AssembleError, Assembler};
use crate::helpers::parse::{is_white_space, trimmed};
use crate::text::{chars_of, find_char, index_of, lemma_index_of, split_commas, string_of, trim_chars};

verus! {

/// How many pieces of a list are not blank.
pub open spec fn filled_count(pieces: Seq<Seq<char>>) -> nat
    decreases pieces.len(),
{
    if pieces.len() == 0 {
        0
    } else {
        (if trimmed(pieces[0]).len() == 0 { 0nat } else { 1nat }) + filled_count(pieces.drop_first())
    }
}

/// The bytes a data directive emits, as label collection counts them: what the directive
/// emits once read (`.byte` its values, `.word` two bytes a value, `.res` its size, `.sprite` its
/// pattern data), modulo the address space; nothing for a line that reads as no data directive.
pub open spec fn directive_size_of(code: Seq<char>) -> u16 {
    let name = super::source::statement_word(code);
    let args = match statement_rest_raw(code) {
        Some(a) => a,
        None => seq![],
    };
    let n: nat = if args.len() == 0 {
        0
    } else if name == ".byte"@ {
        match super::directives::byte_tokens(trimmed(args)) {
            Some(b) => b.len(),
            None => 0,
        }
    } else if name == ".word"@ {
        filled_count(split_commas(args)) * 2
    } else if name == ".res"@ {
        match super::directives::res_args(args) {
            Some((size, _)) => size as nat,
            None => 0,
        }
    } else if name == ".sprite"@ {
        match super::directives::sprite_args(args) {
            Some((_, _, p)) => p.len(),
            None => 0,
        }
    } else {
        0
    };
    (n % 65536) as u16
}

/// The pieces of a list, one step unfolded.
proof fn lemma_split_step(list: Seq<char>)
    ensures
        split_commas(list) == (if index_of(list, ',') < list.len() {
            seq![list.subrange(0, index_of(list, ','))] + split_commas(
                list.subrange(index_of(list, ',') + 1, list.len() as int),
            )
        } else {
            seq![list]
        }),
{
}

/// How many pieces of a list are not blank, modulo 65536.
pub(crate) fn filled_len(list: &[char]) -> (n: u32)
    ensures
        n == filled_count(split_commas(list@)) % 65536,
    decreases list@.len(),
{
    let c = find_char(list, ',');
    proof {
        lemma_index_of(list@, ',');
        lemma_split_step(list@);
    }
    let ghost pieces = split_commas(list@);
    let v = trim_chars(&list[0..c]);
    let rest: u32 = if c < list.len() {
        assert(pieces.drop_first() =~= split_commas(list@.subrange(c + 1, list@.len() as int)));
        filled_len(&list[c + 1..list.len()])
    } else {
        assert(pieces.drop_first() =~= Seq::<Seq<char>>::empty());
        0
    };
    assert(pieces[0] == list@.subrange(0, c as int));
    assert(rest == filled_count(pieces.drop_first()) % 65536);
    if v.len() == 0 {
        rest
    } else {
        proof {
            vstd::arithmetic::div_mod::lemma_add_mod_noop_right(1, filled_count(pieces.drop_first()) as int, 65536);
        }
        (1 + rest) % 65536
    }
}

/// Whether `lines` are the spans in `text` of the lines `all`.
#[verifier::opaque]
pub open spec fn lines_fit(text: Seq<char>, lines: Seq<(usize, usize)>, all: Seq<Seq<char>>) -> bool {
    &&& lines.len() == all.len()
    &&& forall|j: int| 0 <= j < lines.len() ==> #[trigger] lines[j].0 <= lines[j].1 <= text.len()
        && text.subrange(lines[j].0 as int, lines[j].1 as int) == all[j]
}

/// The text's lines, as spans.
fn line_spans(text: &[char]) -> (lines: Vec<(usize, usize)>)
    ensures
        lines_fit(text@, lines@, source_lines(text@)),
{
    let lines = split_lines(text);
    proof {
        reveal(lines_fit);
    }
    lines
}

/// Line `i` of the text.
fn line_at_index<'a>(text: &'a [char], lines: &Vec<(usize, usize)>, i: usize, Ghost(all): Ghost<Seq<Seq<char>>>) -> (r: &'a [char])
    requires
        lines_fit(text@, lines@, all),
        i < lines@.len(),
    ensures
        r@ == all[i as int],
{
    proof {
        reveal(lines_fit);
    }
    let (a, b) = lines[i];
    &text[a..b]
}

/// There are as many spans as lines.
proof fn lemma_lines_fit_len(text: Seq<char>, lines: Seq<(usize, usize)>, all: Seq<Seq<char>>)
    requires
        lines_fit(text, lines, all),
    ensures
        lines.len() == all.len(),
{
    reveal(lines_fit);
}

/// A table that models a map has that map as its view.
proof fn lemma_models_view(l: Labels, m: Map<Seq<char>, u16>)
    requires
        models(l, m),
    ensures
        l@ == m,
{
    assert forall|k: Seq<char>| #[trigger] l@.dom().contains(k) == m.dom().contains(k) by {
        assert(l.spec_get(k) == (if m.dom().contains(k) { Some(m[k]) } else { None }));
    }
    assert forall|k: Seq<char>| l@.dom().contains(k) implies #[trigger] l@[k] == m[k] by {
        assert(l.spec_get(k) == (if m.dom().contains(k) { Some(m[k]) } else { None }));
    }
    assert(l@ =~= m);
}

/// What a label table holds, as a map.
pub open spec fn models(labels: Labels, m: Map<Seq<char>, u16>) -> bool {
    forall|k: Seq<char>| #[trigger] labels.spec_get(k) == (if m.dom().contains(k) { Some(m[k]) } else { None })
}

/// The state of label collection between lines.
pub struct LabelScan {
    /// The labels found so far.
    pub labels: Map<Seq<char>, u16>,
    /// Labels seen on lines of their own, waiting for the next code.
    pub pending: Seq<Seq<char>>,
    /// Where the next code goes.
    pub address: u16,
    /// The segment being filled.
    pub segment: Seq<char>,
    /// Where each segment visited so far had got to.
    pub seg_addresses: Map<Seq<char>, u16>,
    /// The assembler's segments, which a `.segment` may add to.
    pub segments: Seq<SegmentView>,
}

/// The load address a segment first met in a `.segment` gets.
pub open spec fn default_address(name: Seq<char>, load_address: u16) -> u16 {
    if name == "ZEROPAGE"@ {
        0
    } else if name == "VECTORS"@ {
        0xFFFA
    } else {
        load_address
    }
}

/// Whether a line starts with the text `.segment`.
pub open spec fn segment_line(l: Seq<char>) -> bool {
    l.len() >= 8 && l.subrange(0, 8) == ".segment"@
}

/// Give each pending label `address`, refusing one already known; `None` at a duplicate.
pub open spec fn assign_pending(labels: Map<Seq<char>, u16>, pending: Seq<Seq<char>>, address: u16) -> Option<
    Map<Seq<char>, u16>,
>
    decreases pending.len(),
{
    if pending.len() == 0 {
        Some(labels)
    } else if labels.dom().contains(pending[0]) {
        None
    } else {
        assign_pending(labels.insert(pending[0], address), pending.drop_first(), address)
    }
}

/// Give each pending label `address`, overwriting.
pub open spec fn place_pending(labels: Map<Seq<char>, u16>, pending: Seq<Seq<char>>, address: u16) -> Map<
    Seq<char>,
    u16,
>
    decreases pending.len(),
{
    if pending.len() == 0 {
        labels
    } else {
        place_pending(labels.insert(pending[0], address), pending.drop_first(), address)
    }
}

/// A `.segment` line in either pass: select the segment and move to where it had got to, or,
/// the first time, to its load address.
pub open spec fn enter_segment(st: LabelScan, name: Seq<char>) -> LabelScan {
    if st.seg_addresses.dom().contains(name) {
        LabelScan { segment: name, address: st.seg_addresses[name], ..st }
    } else if segment_position(st.segments, name) < st.segments.len() {
        let a = st.segments[segment_position(st.segments, name)].1;
        LabelScan { segment: name, address: a, seg_addresses: st.seg_addresses.insert(name, a), ..st }
    } else {
        LabelScan { segment: name, ..st }
    }
}

/// The first pass over one line: segments are created and entered, labels recorded at the
/// address their code lands on, and the address advanced past the code.
pub open spec fn first_pass_line(st: LabelScan, line: Seq<char>, load_address: u16) -> Option<LabelScan> {
    let l = cleaned(line);
    if l.len() == 0 {
        Some(st)
    } else if segment_line(l) {
        match statement_rest_raw(l) {
            None => Some(st),
            Some(arg) => {
                let name = segment_name(arg);
                let segments = if segment_position(st.segments, name) < st.segments.len() {
                    st.segments
                } else {
                    segments_after_add(st.segments, name, default_address(name, load_address))
                };
                Some(enter_segment(LabelScan { segments, ..st }, name))
            },
        }
    } else {
        let label = line_label(l);
        let code = line_code(l);
        if label.len() > 0 && code is Some && st.labels.dom().contains(label) {
            None
        } else {
            let labels = if label.len() > 0 && code is Some { st.labels.insert(label, st.address) } else { st.labels };
            let pending = if label.len() > 0 && code is None { st.pending.push(label) } else { st.pending };
            match code {
                None => Some(LabelScan { labels, pending, ..st }),
                Some(c) => match assign_pending(labels, pending, st.address) {
                    None => None,
                    Some(assigned) => {
                        let size = if c.len() > 0 && c[0] == '.' { Some(directive_size_of(c)) } else { instruction_size(c) };
                        match size {
                            None => None,
                            Some(n) => Some(LabelScan {
                                labels: assigned,
                                pending: seq![],
                                address: ((st.address + n) % 65536) as u16,
                                ..st
                            }),
                        }
                    },
                }
            }
        }
    }
}

/// The first pass over lines `from` onward.
pub open spec fn first_pass(st: LabelScan, lines: Seq<Seq<char>>, load_address: u16) -> Option<LabelScan>
    decreases lines.len(),
{
    if lines.len() == 0 {
        Some(st)
    } else {
        match first_pass_line(st, lines[0], load_address) {
            None => None,
            Some(next) => first_pass(next, lines.drop_first(), load_address),
        }
    }
}

/// Whether the first pass stops at `line` because of a label defined twice: the line's label
/// is already known, or a label waiting for this code is.
pub open spec fn line_duplicate(st: LabelScan, line: Seq<char>) -> bool {
    let l = cleaned(line);
    let label = line_label(l);
    let code = line_code(l);
    let labels = if label.len() > 0 && code is Some { st.labels.insert(label, st.address) } else { st.labels };
    &&& l.len() > 0
    &&& !segment_line(l)
    &&& code is Some
    &&& ((label.len() > 0 && st.labels.dom().contains(label)) || assign_pending(labels, st.pending, st.address) is None)
}

/// Whether the first pass over `lines` stops at a line with a label defined twice.
pub open spec fn first_pass_duplicate(st: LabelScan, lines: Seq<Seq<char>>, load_address: u16) -> bool
    decreases lines.len(),
{
    if lines.len() == 0 {
        false
    } else {
        match first_pass_line(st, lines[0], load_address) {
            Some(next) => first_pass_duplicate(next, lines.drop_first(), load_address),
            None => line_duplicate(st, lines[0]),
        }
    }
}

/// A first pass that gets through its lines meets no duplicate on the way.
proof fn lemma_no_duplicate_on_success(st: LabelScan, lines: Seq<Seq<char>>, load_address: u16)
    requires
        first_pass(st, lines, load_address) is Some,
    ensures
        !first_pass_duplicate(st, lines, load_address),
    decreases lines.len(),
{
    if lines.len() > 0 {
        lemma_no_duplicate_on_success(first_pass_line(st, lines[0], load_address)->0, lines.drop_first(), load_address);
    }
}

/// Whether label collection meets a label defined twice: on a line of the first pass, or among
/// the labels left waiting at the end of the program.
pub open spec fn duplicate_label(program: Seq<char>, load_address: u16, segments: Seq<SegmentView>) -> bool {
    let lines = source_lines(program);
    let start = scan_start(Map::empty(), load_address, Map::empty().insert("STARTUP"@, load_address), segments);
    ||| first_pass_duplicate(start, lines, load_address)
    ||| (first_pass(start, lines, load_address) matches Some(one) && assign_pending(one.labels, one.pending, one.address) is None)
}

/// The size label collection's second pass gives an instruction, now that labels have first
/// addresses: a jump is three bytes, a branch two, and another label reference two or three by
/// whether its label is in the zero page.
pub open spec fn resolved_size(c: Seq<char>, first: Map<Seq<char>, u16>) -> Option<u16> {
    match super::operand::statement_instruction(c) {
        None => None,
        Some(i) => if super::operand::implied_only(i) {
            Some(1)
        } else {
            match super::source::statement_rest(c) {
                None => Some(0),
                Some(op) => if super::source::names_accumulator(trimmed(op)) {
                    Some(1)
                } else if label_reference(op) {
                    let base = op.subrange(0, index_of(op, ','));
                    if first.dom().contains(base) {
                        let a = first[base];
                        if i == crate::cpu::Instruction::JMP || i == crate::cpu::Instruction::JSR {
                            Some(3)
                        } else if i == crate::cpu::Instruction::BPL || i == crate::cpu::Instruction::BEQ || i
                            == crate::cpu::Instruction::BNE {
                            Some(2)
                        } else if a <= 0xFF {
                            Some(2)
                        } else {
                            Some(3)
                        }
                    } else {
                        Some(3)
                    }
                } else {
                    match super::operand::asm_form(op) {
                        Ok((m, _)) => Some(crate::cpu::addressing_mode::mode_size(m)),
                        Err(_) => instruction_size(c),
                    }
                },
            }
        },
    }
}

/// The second pass over one line: labels move to the addresses real instruction sizes give,
/// and the segment's position is recorded after every line.
pub open spec fn second_pass_line(st: LabelScan, line: Seq<char>, first: Map<Seq<char>, u16>) -> Option<LabelScan> {
    let l = cleaned(line);
    let moved = if l.len() == 0 {
        Some(st)
    } else if segment_line(l) {
        match statement_rest_raw(l) {
            None => Some(st),
            Some(arg) => {
                let name = segment_name(arg);
                let entered = if st.seg_addresses.dom().contains(name) {
                    LabelScan { segment: name, address: st.seg_addresses[name], ..st }
                } else if segment_position(st.segments, name) < st.segments.len() {
                    LabelScan { segment: name, address: st.segments[segment_position(st.segments, name)].1, ..st }
                } else {
                    LabelScan { segment: name, ..st }
                };
                Some(entered)
            },
        }
    } else {
        let label = line_label(l);
        let code = line_code(l);
        let labels = if label.len() > 0 && code is Some { st.labels.insert(label, st.address) } else { st.labels };
        let pending = if label.len() > 0 && code is None { st.pending.push(label) } else { st.pending };
        match code {
            None => Some(LabelScan { labels, pending, ..st }),
            Some(c) => {
                let placed = place_pending(labels, pending, st.address);
                let size = if c.len() > 0 && c[0] == '.' { Some(directive_size_of(c)) } else { resolved_size(c, first) };
                match size {
                    None => None,
                    Some(n) => Some(LabelScan {
                        labels: placed,
                        pending: seq![],
                        address: ((st.address + n) % 65536) as u16,
                        ..st
                    }),
                }
            },
        }
    };
    match moved {
        None => None,
        Some(m) => Some(LabelScan { seg_addresses: m.seg_addresses.insert(m.segment, m.address), ..m }),
    }
}

/// The second pass over a run of lines.
pub open spec fn second_pass(st: LabelScan, lines: Seq<Seq<char>>, first: Map<Seq<char>, u16>) -> Option<LabelScan>
    decreases lines.len(),
{
    if lines.len() == 0 {
        Some(st)
    } else {
        match second_pass_line(st, lines[0], first) {
            None => None,
            Some(next) => second_pass(next, lines.drop_first(), first),
        }
    }
}

/// The scan a pass starts from.
pub open spec fn scan_start(
    labels: Map<Seq<char>, u16>,
    load_address: u16,
    seg_addresses: Map<Seq<char>, u16>,
    segments: Seq<SegmentView>,
) -> LabelScan {
    LabelScan {
        labels,
        pending: seq![],
        address: load_address,
        segment: "STARTUP"@,
        seg_addresses,
        segments,
    }
}

/// Where every label of a program lands, and the segments afterwards: the first pass with
/// estimated sizes, then the second with sizes the first pass's addresses decide, and any
/// label only the first pass saw keeping its first address.
pub open spec fn collected(program: Seq<char>, load_address: u16, segments: Seq<SegmentView>) -> Option<
    (Map<Seq<char>, u16>, Seq<SegmentView>),
> {
    let lines = source_lines(program);
    let start = scan_start(
        Map::empty(),
        load_address,
        Map::empty().insert("STARTUP"@, load_address),
        segments,
    );
    match first_pass(start, lines, load_address) {
        None => None,
        Some(one) => match assign_pending(one.labels, one.pending, one.address) {
            None => None,
            Some(first) => {
                let restart = scan_start(Map::empty(), load_address, one.seg_addresses, one.segments);
                match second_pass(restart, lines, first) {
                    None => None,
                    Some(two) => {
                        let second = place_pending(two.labels, two.pending, two.address);
                        Some((first.union_prefer_right(second), one.segments))
                    },
                }
            },
        }
    }
}


/// Label collection's working state.
struct Scan {
    labels: Labels,
    pending: Vec<Vec<char>>,
    address: u16,
    segment: Vec<char>,
    seg_addresses: Labels,
}

/// The pending labels as text.
spec fn pending_view(p: Seq<Vec<char>>) -> Seq<Seq<char>> {
    p.map_values(|v: Vec<char>| v@)
}

/// Whether a working state is the scan `st`, given the assembler's segments.
spec fn scan_is(sc: Scan, segments: Seq<SegmentView>, st: LabelScan) -> bool {
    &&& models(sc.labels, st.labels)
    &&& pending_view(sc.pending@) == st.pending
    &&& sc.address == st.address
    &&& sc.segment@ == st.segment
    &&& models(sc.seg_addresses, st.seg_addresses)
    &&& segments == st.segments
}

/// Give each pending label `address`, refusing one already known.
fn assign_pending_labels(labels: &mut Labels, pending: &Vec<Vec<char>>, address: u16, Ghost(m): Ghost<Map<Seq<char>, u16>>) -> (r: Result<(), AssembleError>)
    requires
        models(*old(labels), m),
    ensures
        match assign_pending(m, pending_view(pending@), address) {
            Some(m2) => r is Ok && models(*final(labels), m2),
            None => r matches Err(AssembleError::LabelError(_)),
        },
{
    let mut i: usize = 0;
    let ghost mut cur = m;
    assert(pending_view(pending@).subrange(0, pending@.len() as int) =~= pending_view(pending@));
    while i < pending.len()
        invariant
            i <= pending@.len(),
            models(*labels, cur),
            assign_pending(m, pending_view(pending@), address) == assign_pending(
                cur,
                pending_view(pending@).subrange(i as int, pending@.len() as int),
                address,
            ),
        decreases pending@.len() - i,
    {
        let ghost rest = pending_view(pending@).subrange(i as int, pending@.len() as int);
        assert(rest[0] == pending@[i as int]@);
        assert(rest.drop_first() =~= pending_view(pending@).subrange(i + 1, pending@.len() as int));
        let name = pending[i].as_slice();
        if labels.contains_key(name) {
            let mut message = String::from_str("Duplicate label: ");
            message.append(string_of(name).as_str());
            return Err(AssembleError::LabelError(message));
        }
        labels.insert(name, address);
        proof {
            cur = cur.insert(name@, address);
        }
        i += 1;
    }
    assert(pending_view(pending@).subrange(pending@.len() as int, pending@.len() as int) =~= Seq::<Seq<char>>::empty());
    Ok(())
}

/// Give each pending label `address`, overwriting.
fn place_pending_labels(labels: &mut Labels, pending: &Vec<Vec<char>>, address: u16, Ghost(m): Ghost<Map<Seq<char>, u16>>)
    requires
        models(*old(labels), m),
    ensures
        models(*final(labels), place_pending(m, pending_view(pending@), address)),
{
    let mut i: usize = 0;
    let ghost mut cur = m;
    assert(pending_view(pending@).subrange(0, pending@.len() as int) =~= pending_view(pending@));
    while i < pending.len()
        invariant
            i <= pending@.len(),
            models(*labels, cur),
            place_pending(m, pending_view(pending@), address) == place_pending(
                cur,
                pending_view(pending@).subrange(i as int, pending@.len() as int),
                address,
            ),
        decreases pending@.len() - i,
    {
        let ghost rest = pending_view(pending@).subrange(i as int, pending@.len() as int);
        assert(rest[0] == pending@[i as int]@);
        assert(rest.drop_first() =~= pending_view(pending@).subrange(i + 1, pending@.len() as int));
        let name = pending[i].as_slice();
        labels.insert(name, address);
        proof {
            cur = cur.insert(name@, address);
        }
        i += 1;
    }
    assert(pending_view(pending@).subrange(pending@.len() as int, pending@.len() as int) =~= Seq::<Seq<char>>::empty());
}

/// Whether a line starts with `.segment`.
fn is_segment_line(l: &[char]) -> (b: bool)
    ensures
        b == segment_line(l@),
{
    if l.len() < 8 {
        return false;
    }
    let word = chars_of(".segment");
    same_text(&l[0..8], word.as_slice())
}

/// The text after a line's first space, untrimmed.
fn rest_after_space(l: &[char]) -> (r: Option<&[char]>)
    ensures
        match r {
            Some(a) => statement_rest_raw(l@) == Some(a@),
            None => statement_rest_raw(l@) is None,
        },
{
    let k = find_char(l, ' ');
    proof {
        lemma_index_of(l@, ' ');
    }
    if k < l.len() {
        Some(&l[k + 1..l.len()])
    } else {
        None
    }
}

/// The load address a new segment gets.
fn default_segment_address(name: &[char], load_address: u16) -> (a: u16)
    ensures
        a == default_address(name@, load_address),
{
    let zero_page = chars_of("ZEROPAGE");
    let vectors = chars_of("VECTORS");
    if same_text(name, zero_page.as_slice()) {
        0
    } else if same_text(name, vectors.as_slice()) {
        0xFFFA
    } else {
        load_address
    }
}

impl Assembler {
    /// Enter a segment during label collection: move to where it had got to, or to its load
    /// address the first time, when it exists.
    fn enter_segment_scan(&self, sc: &mut Scan, name: &[char], record: bool, Ghost(st): Ghost<LabelScan>)
        requires
            scan_is(*old(sc), self.segments.spec_list(), st),
        ensures
            scan_is(*final(sc), self.segments.spec_list(), if record {
                enter_segment(st, name@)
            } else {
                if st.seg_addresses.dom().contains(name@) {
                    LabelScan { segment: name@, address: st.seg_addresses[name@], ..st }
                } else if segment_position(st.segments, name@) < st.segments.len() {
                    LabelScan { segment: name@, address: st.segments[segment_position(st.segments, name@)].1, ..st }
                } else {
                    LabelScan { segment: name@, ..st }
                }
            }),
    {
        let _count = self.segments.len();
        proof {
            super::segments::lemma_segment_position(self.segments.spec_list(), name@);
        }
        sc.segment = vstd::slice::slice_to_vec(name);
        match sc.seg_addresses.lookup_chars(name) {
            Some(a) => {
                sc.address = a;
            },
            None => {
                let p = self.segments.position(name);
                if p < self.segments.len() {
                    let a = self.segments.load_address_at(p);
                    sc.address = a;
                    if record {
                        sc.seg_addresses.insert(name, a);
                        proof {
                            assert forall|k: Seq<char>| #[trigger] sc.seg_addresses.spec_get(k) == (if st.seg_addresses.insert(name@, a).dom().contains(k) {
                                Some(st.seg_addresses.insert(name@, a)[k])
                            } else {
                                None
                            }) by {}
                        }
                    }
                }
            },
        }
    }

    /// The first pass over one line.
    fn first_line(&mut self, sc: &mut Scan, line: &[char], Ghost(st): Ghost<LabelScan>) -> (r: Result<(), AssembleError>)
        requires
            scan_is(*old(sc), old(self).segments.spec_list(), st),
        ensures
            final(self).load_address == old(self).load_address,
            final(self).segments.spec_current() == old(self).segments.spec_current(),
            match first_pass_line(st, line@, old(self).load_address) {
                Some(next) => r is Ok && scan_is(*final(sc), final(self).segments.spec_list(), next),
                None => r is Err,
            },
            line_duplicate(st, line@) ==> r matches Err(AssembleError::LabelError(_)),
    {
        let l = match clean_line(line) {
            Some(l) => l,
            None => return Ok(()),
        };
        if is_segment_line(l) {
            if let Some(arg) = rest_after_space(l) {
                let name = super::directives::format_segment_name(arg);
                if !self.segments.contains(name) {
                    let a = default_segment_address(name, self.load_address);
                    self.segments.add_chars(name, a);
                }
                let ghost st1 = LabelScan { segments: self.segments.spec_list(), ..st };
                self.enter_segment_scan(sc, name, true, Ghost(st1));
            }
            return Ok(());
        }
        let (label, code) = process_line(l);
        let ghost mut labels_now = st.labels;
        if label.len() > 0 && code.is_some() {
            if sc.labels.contains_key(label) {
                let mut message = String::from_str("Duplicate label: ");
                message.append(string_of(label).as_str());
                return Err(AssembleError::LabelError(message));
            }
            sc.labels.insert(label, sc.address);
            proof {
                labels_now = st.labels.insert(label@, st.address);
            }
        }
        if label.len() > 0 && code.is_none() {
            sc.pending.push(vstd::slice::slice_to_vec(label));
            assert(pending_view(sc.pending@) =~= st.pending.push(label@));
        }
        match code {
            None => Ok(()),
            Some(c) => {
                assign_pending_labels(&mut sc.labels, &sc.pending, sc.address, Ghost(labels_now))?;
                let size = if starts_with(c, '.') {
                    self.directive_size(c)
                } else {
                    self.calculate_instruction_size(c)?
                };
                sc.pending = Vec::new();
                assert(pending_view(sc.pending@) =~= Seq::<Seq<char>>::empty());
                sc.address = ((sc.address as u32 + size as u32) % 65536) as u16;
                Ok(())
            },
        }
    }
}


/// The label address a resolved size is decided by: the first-pass address of the label an
/// operand names before any comma.
fn first_address(first: &Labels, op: &[char]) -> (r: Option<u16>)
    ensures
        r == first.spec_get(op@.subrange(0, index_of(op@, ','))),
{
    let c = find_char(op, ',');
    proof {
        lemma_index_of(op@, ',');
    }
    first.lookup_chars(&op[0..c])
}

impl Assembler {
    /// The size the second pass gives an instruction.
    fn resolved_instruction_size(&self, c: &[char], first: &Labels, Ghost(fm): Ghost<Map<Seq<char>, u16>>) -> (r: Result<u16, AssembleError>)
        requires
            models(*first, fm),
        ensures
            match resolved_size(c@, fm) {
                Some(n) => r == Ok::<u16, AssembleError>(n),
                None => r is Err,
            },
    {
        let (instruction, operand) = super::operand::statement_mnemonic(c)?;
        if instruction.has_implied_addressing() {
            return Ok(1);
        }
        let op = match operand {
            Some(o) => o,
            None => return Ok(0),
        };
        if super::source::is_accumulator(trim_chars(op)) {
            return Ok(1);
        }
        if super::operand::is_label_reference(op) {
            return match first_address(first, op) {
                Some(a) => {
                    if instruction.is_jump() {
                        Ok(3)
                    } else if instruction.is_branch() {
                        Ok(2)
                    } else if a <= 0xFF {
                        Ok(2)
                    } else {
                        Ok(3)
                    }
                },
                None => Ok(3),
            };
        }
        match super::operand::read_operand(op) {
            Ok((mode, _)) => Ok(mode.size()),
            Err(_) => self.calculate_instruction_size(c),
        }
    }

    /// The second pass over one line.
    fn second_line(&self, sc: &mut Scan, line: &[char], first: &Labels, Ghost(st): Ghost<LabelScan>, Ghost(fm): Ghost<Map<Seq<char>, u16>>) -> (r: Result<(), AssembleError>)
        requires
            scan_is(*old(sc), self.segments.spec_list(), st),
            models(*first, fm),
        ensures
            match second_pass_line(st, line@, fm) {
                Some(next) => r is Ok && scan_is(*final(sc), self.segments.spec_list(), next),
                None => r is Err,
            },
    {
        let ghost mut moved = st;
        match clean_line(line) {
            None => {},
            Some(l) => {
                if is_segment_line(l) {
                    if let Some(arg) = rest_after_space(l) {
                        let name = super::directives::format_segment_name(arg);
                        self.enter_segment_scan(sc, name, false, Ghost(st));
                        proof {
                            moved = if st.seg_addresses.dom().contains(name@) {
                                LabelScan { segment: name@, address: st.seg_addresses[name@], ..st }
                            } else if segment_position(st.segments, name@) < st.segments.len() {
                                LabelScan { segment: name@, address: st.segments[segment_position(st.segments, name@)].1, ..st }
                            } else {
                                LabelScan { segment: name@, ..st }
                            };
                        }
                    }
                } else {
                    let (label, code) = process_line(l);
                    let ghost mut labels_now = st.labels;
                    if label.len() > 0 && code.is_some() {
                        sc.labels.insert(label, sc.address);
                        proof {
                            labels_now = st.labels.insert(label@, st.address);
                        }
                    }
                    if label.len() > 0 && code.is_none() {
                        sc.pending.push(vstd::slice::slice_to_vec(label));
                        assert(pending_view(sc.pending@) =~= st.pending.push(label@));
                    }
                    match code {
                        None => {
                            proof {
                                moved = LabelScan {
                                    labels: labels_now,
                                    pending: if label@.len() > 0 { st.pending.push(label@) } else { st.pending },
                                    ..st
                                };
                            }
                        },
                        Some(c) => {
                            place_pending_labels(&mut sc.labels, &sc.pending, sc.address, Ghost(labels_now));
                            let size = if starts_with(c, '.') {
                                self.directive_size(c)
                            } else {
                                self.resolved_instruction_size(c, first, Ghost(fm))?
                            };
                            proof {
                                moved = LabelScan {
                                    labels: place_pending(labels_now, pending_view(sc.pending@), st.address),
                                    pending: seq![],
                                    address: ((st.address + size) % 65536) as u16,
                                    ..st
                                };
                            }
                            sc.pending = Vec::new();
                            assert(pending_view(sc.pending@) =~= Seq::<Seq<char>>::empty());
                            sc.address = ((sc.address as u32 + size as u32) % 65536) as u16;
                        },
                    }
                }
            },
        }
        let segment = sc.segment.clone();
        assert(segment@ == sc.segment@);
        sc.seg_addresses.insert(segment.as_slice(), sc.address);
        Ok(())
    }

    /// Where every label of a program lands. Segments named by `.segment` lines that do not
    /// exist yet are created, at address 0 for `ZEROPAGE`, `$FFFA` for `VECTORS`, and the
    /// load address otherwise.
    pub fn collect_labels(&mut self, program: &str) -> (r: Result<Labels, AssembleError>)
        ensures
            final(self).load_address == old(self).load_address,
            final(self).segments.spec_current() == old(self).segments.spec_current(),
            match collected(program@, old(self).load_address, old(self).segments.spec_list()) {
                Some((labels, segments)) => r matches Ok(l) && models(l, labels) && final(self).segments.spec_list()
                    == segments,
                None => r is Err,
            },
            duplicate_label(program@, old(self).load_address, old(self).segments.spec_list()) ==> r matches Err(
                AssembleError::LabelError(_),
            ),
    {
        let text = chars_of(program);
        let lines = line_spans(text.as_slice());
        let ghost all = source_lines(program@);
        proof {
            lemma_lines_fit_len(text@, lines@, all);
        }
        let mut sc = Scan {
            labels: Labels::new(),
            pending: Vec::new(),
            address: self.load_address,
            segment: chars_of("STARTUP"),
            seg_addresses: Labels::new(),
        };
        let startup = chars_of("STARTUP");
        sc.seg_addresses.insert(startup.as_slice(), self.load_address);
        let ghost start = scan_start(
            Map::empty(),
            self.load_address,
            Map::empty().insert("STARTUP"@, self.load_address),
            self.segments.spec_list(),
        );
        assert(pending_view(sc.pending@) =~= Seq::<Seq<char>>::empty());
        assert(all.subrange(0, all.len() as int) =~= all);
        let mut i: usize = 0;
        let ghost mut st = start;
        while i < lines.len()
            invariant
                i <= lines@.len(),
                lines@.len() == all.len(),
                all == source_lines(program@),
                text@ == program@,
                lines_fit(text@, lines@, all),
                scan_is(sc, self.segments.spec_list(), st),
                self.load_address == old(self).load_address,
                self.segments.spec_current() == old(self).segments.spec_current(),
                first_pass(start, all, old(self).load_address) == first_pass(st, all.subrange(i as int, all.len() as int), old(self).load_address),
                first_pass_duplicate(start, all, old(self).load_address) == first_pass_duplicate(
                    st,
                    all.subrange(i as int, all.len() as int),
                    old(self).load_address,
                ),
                start == scan_start(
                    Map::empty(),
                    old(self).load_address,
                    Map::empty().insert("STARTUP"@, old(self).load_address),
                    old(self).segments.spec_list(),
                ),
            decreases lines@.len() - i,
        {
            let line = line_at_index(text.as_slice(), &lines, i, Ghost(all));
            let ghost rest = all.subrange(i as int, all.len() as int);
            assert(rest[0] == line@);
            assert(rest.drop_first() =~= all.subrange(i + 1, all.len() as int));
            let ghost before = st;
            match self.first_line(&mut sc, line, Ghost(st)) {
                Ok(()) => {},
                Err(e) => {
                    assert(first_pass_line(before, line@, old(self).load_address) is None);
                    assert(first_pass(before, rest, old(self).load_address) is None);
                    assert(first_pass(start, all, old(self).load_address) is None);
                    assert(start == scan_start(
                        Map::empty(),
                        old(self).load_address,
                        Map::empty().insert("STARTUP"@, old(self).load_address),
                        old(self).segments.spec_list(),
                    ));
                    return Err(e);
                },
            }
            proof {
                st = first_pass_line(before, line@, old(self).load_address)->0;
            }
            i += 1;
        }
        assert(all.subrange(all.len() as int, all.len() as int) =~= Seq::<Seq<char>>::empty());
        assign_pending_labels(&mut sc.labels, &sc.pending, sc.address, Ghost(st.labels))?;
        let ghost first_map = assign_pending(st.labels, st.pending, st.address)->0;
        let first = sc.labels;
        let ghost one = st;
        let mut sc2 = Scan {
            labels: Labels::new(),
            pending: Vec::new(),
            address: self.load_address,
            segment: chars_of("STARTUP"),
            seg_addresses: sc.seg_addresses,
        };
        proof {
            lemma_no_duplicate_on_success(start, all, old(self).load_address);
        }
        assert(!duplicate_label(program@, old(self).load_address, old(self).segments.spec_list()));
        let ghost restart = scan_start(Map::empty(), self.load_address, one.seg_addresses, one.segments);
        assert(pending_view(sc2.pending@) =~= Seq::<Seq<char>>::empty());
        let mut j: usize = 0;
        let ghost mut st2 = restart;
        while j < lines.len()
            invariant
                j <= lines@.len(),
                lines@.len() == all.len(),
                all == source_lines(program@),
                text@ == program@,
                lines_fit(text@, lines@, all),
                scan_is(sc2, self.segments.spec_list(), st2),
                models(first, first_map),
                self.load_address == old(self).load_address,
                self.segments.spec_current() == old(self).segments.spec_current(),
                first_pass(
                    scan_start(Map::empty(), old(self).load_address, Map::empty().insert("STARTUP"@, old(self).load_address), old(self).segments.spec_list()),
                    all,
                    old(self).load_address,
                ) == Some(one),
                assign_pending(one.labels, one.pending, one.address) == Some(first_map),
                restart == scan_start(Map::empty(), old(self).load_address, one.seg_addresses, one.segments),
                !duplicate_label(program@, old(self).load_address, old(self).segments.spec_list()),
                self.segments.spec_list() == one.segments,
                second_pass(restart, all, first_map) == second_pass(st2, all.subrange(j as int, all.len() as int), first_map),
            decreases lines@.len() - j,
        {
            let line = line_at_index(text.as_slice(), &lines, j, Ghost(all));
            let ghost rest = all.subrange(j as int, all.len() as int);
            assert(rest[0] == line@);
            assert(rest.drop_first() =~= all.subrange(j + 1, all.len() as int));
            let ghost before = st2;
            match self.second_line(&mut sc2, line, &first, Ghost(st2), Ghost(first_map)) {
                Ok(()) => {},
                Err(e) => {
                    assert(second_pass_line(before, line@, first_map) is None);
                    assert(second_pass(before, rest, first_map) is None);
                    return Err(e);
                },
            }
            proof {
                st2 = second_pass_line(before, line@, first_map)->0;
            }
            j += 1;
        }
        assert(all.subrange(all.len() as int, all.len() as int) =~= Seq::<Seq<char>>::empty());
        let ghost second_map = place_pending(st2.labels, st2.pending, st2.address);
        place_pending_labels(&mut sc2.labels, &sc2.pending, sc2.address, Ghost(st2.labels));
        let mut result = sc2.labels;
        merge_missing(&mut result, &first, Ghost(second_map), Ghost(first_map));
        Ok(result)
    }
}

/// What looking a name up in the first `n` entries gives.
proof fn lemma_lookup_prefix(entries: Seq<(Seq<char>, u16)>, n: int, k: Seq<char>)
    requires
        0 <= n < entries.len(),
    ensures
        super::labels::lookup(entries.subrange(0, n + 1), k) == (match super::labels::lookup(entries.subrange(0, n), k) {
            Some(a) => Some(a),
            None => if entries[n].0 == k { Some(entries[n].1) } else { None },
        }),
    decreases n,
{
    if n > 0 {
        assert(entries.drop_first()[n - 1] == entries[n]);
        assert(entries.subrange(0, n + 1)[0] == entries[0]);
        assert(entries.subrange(0, n)[0] == entries[0]);
        assert(entries.subrange(0, n + 1).drop_first() =~= entries.drop_first().subrange(0, n));
        assert(entries.subrange(0, n).drop_first() =~= entries.drop_first().subrange(0, n - 1));
        lemma_lookup_prefix(entries.drop_first(), n - 1, k);
    } else {
        assert(entries.subrange(0, 1)[0] == entries[0]);
        assert(entries.subrange(0, 1).drop_first() =~= Seq::<(Seq<char>, u16)>::empty());
        assert(entries.subrange(0, 0) =~= Seq::<(Seq<char>, u16)>::empty());
    }
}

/// Give every name `first` has and `result` lacks its address in `first`.
fn merge_missing(result: &mut Labels, first: &Labels, Ghost(second): Ghost<Map<Seq<char>, u16>>, Ghost(fm): Ghost<Map<Seq<char>, u16>>)
    requires
        models(*old(result), second),
        models(*first, fm),
    ensures
        models(*final(result), fm.union_prefer_right(second)),
{
    let ghost entries = first.spec_entries();
    let n = first.len();
    let mut i: usize = 0;
    assert(entries.subrange(0, 0) =~= Seq::<(Seq<char>, u16)>::empty());
    while i < n
        invariant
            i <= n,
            n == entries.len(),
            entries == first.spec_entries(),
            forall|k: Seq<char>| #[trigger] result.spec_get(k) == (if second.dom().contains(k) {
                Some(second[k])
            } else {
                super::labels::lookup(entries.subrange(0, i as int), k)
            }),
        decreases n - i,
    {
        let (name, address) = first.entry_at(i);
        proof {
            assert forall|k: Seq<char>| #[trigger] super::labels::lookup(entries.subrange(0, i + 1), k) == (match super::labels::lookup(entries.subrange(0, i as int), k) {
                Some(a) => Some(a),
                None => if entries[i as int].0 == k { Some(entries[i as int].1) } else { None },
            }) by {
                lemma_lookup_prefix(entries, i as int, k);
            }
        }
        result.insert_if_absent(name.as_slice(), address);
        i += 1;
    }
    assert(entries.subrange(0, n as int) =~= entries);
    assert forall|k: Seq<char>| #[trigger] result.spec_get(k) == (if fm.union_prefer_right(second).dom().contains(k) {
        Some(fm.union_prefer_right(second)[k])
    } else {
        None
    }) by {
        assert(first.spec_get(k) == super::labels::lookup(entries, k));
    }
}


/// What a directive line does once read.
pub enum Effect {
    /// Select the segment of this name, as the directive wrote it.
    Select(Seq<char>),
    /// Emit these bytes into the selected segment.
    Emit(Seq<u8>),
}

/// What a directive line (one starting with `.`) does, or `None` when it does not read.
pub open spec fn directive_effect(line: Seq<char>, labels: Map<Seq<char>, u16>, segments: Seq<SegmentView>) -> Option<Effect> {
    let name = super::source::statement_word(line);
    let args = match statement_rest_raw(line) {
        Some(a) => a,
        None => seq![],
    };
    if args.len() == 0 {
        None
    } else if name == ".segment"@ {
        if segment_position(segments, segment_name(args)) < segments.len() {
            Some(Effect::Select(segment_name(args)))
        } else {
            None
        }
    } else if name == ".byte"@ {
        match super::directives::byte_tokens(trimmed(args)) {
            Some(b) => Some(Effect::Emit(b)),
            None => None,
        }
    } else if name == ".word"@ {
        match super::directives::word_values(split_commas(args), labels) {
            Some(ws) => Some(Effect::Emit(super::directives::words_le(ws))),
            None => None,
        }
    } else if name == ".res"@ {
        match super::directives::res_args(args) {
            Some((size, fill)) => Some(Effect::Emit(Seq::new(size as nat, |i: int| fill))),
            None => None,
        }
    } else if name == ".sprite"@ {
        match super::directives::sprite_args(args) {
            Some((w, h, p)) => Some(Effect::Emit(p)),
            None => None,
        }
    } else {
        None
    }
}

/// The segments and selection after an effect. Applying a selection formats the name once
/// more, and creates the segment at the load address if that name has none.
pub open spec fn apply_effect(segments: Seq<SegmentView>, current: Option<Seq<char>>, e: Effect, load_address: u16) -> (
    Seq<SegmentView>,
    Option<Seq<char>>,
) {
    match e {
        Effect::Select(n) => {
            let n2 = segment_name(n);
            (if segment_position(segments, n2) < segments.len() {
                segments
            } else {
                segments_after_add(segments, n2, load_address)
            }, Some(n2))
        },
        Effect::Emit(b) => (super::directives::emitted(segments, current, b), current),
    }
}

/// Where assembled code goes: the selected segment, or the first when none is selected; nowhere
/// when the selected one does not exist.
pub open spec fn emit_code(segments: Seq<SegmentView>, current: Option<Seq<char>>, b: Seq<u8>) -> Seq<SegmentView> {
    match current {
        Some(_) => super::directives::emitted(segments, current, b),
        None => if segments.len() > 0 {
            segments.update(0, (segments[0].0, segments[0].1, segments[0].2 + b))
        } else {
            segments
        },
    }
}

#[verifier::opaque]
/// Assembling line `i`: its directive applied, or its code assembled into the segment; a line
/// with only a label takes the directive on the next line. Returns the segments, the selection,
/// and whether the next line was taken too.
pub open spec fn program_line(
    segments: Seq<SegmentView>,
    current: Option<Seq<char>>,
    lines: Seq<Seq<char>>,
    i: int,
    labels: Map<Seq<char>, u16>,
    load_address: u16,
) -> Option<(Seq<SegmentView>, Option<Seq<char>>, bool)> {
    let l = cleaned(lines[i]);
    let next = if i + 1 < lines.len() { cleaned(lines[i + 1]) } else { seq![] };
    if l.len() == 0 {
        Some((segments, current, false))
    } else if l[0] == '.' {
        match directive_effect(l, labels, segments) {
            None => None,
            Some(e) => Some((apply_effect(segments, current, e, load_address).0, apply_effect(segments, current, e, load_address).1, false)),
        }
    } else if line_label(l).len() > 0 && next.len() > 0 && next[0] == '.' {
        match directive_effect(next, labels, segments) {
            None => None,
            Some(e) => Some((apply_effect(segments, current, e, load_address).0, apply_effect(segments, current, e, load_address).1, true)),
        }
    } else {
        match line_code(l) {
            None => Some((segments, current, false)),
            Some(c) => if c.len() > 0 && c[0] == '.' {
                match directive_effect(c, labels, segments) {
                    None => None,
                    Some(e) => Some((apply_effect(segments, current, e, load_address).0, apply_effect(segments, current, e, load_address).1, false)),
                }
            } else {
                match super::operand::assembled(c, labels, super::operand::here_of(segments, current, load_address)) {
                    None => None,
                    Some(b) => Some((emit_code(segments, current, b), current, false)),
                }
            },
        }
    }
}

/// Assembling lines `i` onward.
pub open spec fn program_from(
    segments: Seq<SegmentView>,
    current: Option<Seq<char>>,
    lines: Seq<Seq<char>>,
    i: int,
    labels: Map<Seq<char>, u16>,
    load_address: u16,
) -> Option<(Seq<SegmentView>, Option<Seq<char>>)>
    decreases lines.len() - i,
{
    if i >= lines.len() || i < 0 {
        Some((segments, current))
    } else {
        match program_line(segments, current, lines, i, labels, load_address) {
            None => None,
            Some((s2, c2, took_next)) => {
                let j = if took_next && i + 1 < lines.len() { i + 2 } else { i + 1 };
                program_from(s2, c2, lines, j, labels, load_address)
            },
        }
    }
}

/// Assembling from line `i` is assembling line `i`, then going on after it.
proof fn lemma_program_from_step(
    segments: Seq<SegmentView>,
    current: Option<Seq<char>>,
    lines: Seq<Seq<char>>,
    i: int,
    labels: Map<Seq<char>, u16>,
    load_address: u16,
)
    requires
        0 <= i < lines.len(),
    ensures
        match program_line(segments, current, lines, i, labels, load_address) {
            None => program_from(segments, current, lines, i, labels, load_address) is None,
            Some((s2, c2, took)) => program_from(segments, current, lines, i, labels, load_address) == program_from(
                s2,
                c2,
                lines,
                if took && i + 1 < lines.len() { i + 2 } else { i + 1 },
                labels,
                load_address,
            ),
        },
{
}

/// Whether a cleaned line's code is an instruction that refers to an undefined label.
pub open spec fn code_undefined(l: Seq<char>, labels: Map<Seq<char>, u16>) -> bool {
    match line_code(l) {
        Some(c) => !(c.len() > 0 && c[0] == '.') && super::operand::undefined_label(c, labels),
        None => false,
    }
}

/// Whether line `i` is assembled as code (no directive, and no label taking the directive on
/// the next line) whose instruction refers to an undefined label.
pub open spec fn line_undefined(lines: Seq<Seq<char>>, i: int, labels: Map<Seq<char>, u16>) -> bool {
    let l = cleaned(lines[i]);
    let next = if i + 1 < lines.len() { cleaned(lines[i + 1]) } else { seq![] };
    &&& l.len() > 0
    &&& l[0] != '.'
    &&& !(line_label(l).len() > 0 && next.len() > 0 && next[0] == '.')
    &&& code_undefined(l, labels)
}

/// Whether assembling lines `i` onward stops at a line that refers to an undefined label.
pub open spec fn program_undefined(
    segments: Seq<SegmentView>,
    current: Option<Seq<char>>,
    lines: Seq<Seq<char>>,
    i: int,
    labels: Map<Seq<char>, u16>,
    load_address: u16,
) -> bool
    decreases lines.len() - i,
{
    if i >= lines.len() || i < 0 {
        false
    } else {
        match program_line(segments, current, lines, i, labels, load_address) {
            None => line_undefined(lines, i, labels),
            Some((s2, c2, took_next)) => {
                let j = if took_next && i + 1 < lines.len() { i + 2 } else { i + 1 };
                program_undefined(s2, c2, lines, j, labels, load_address)
            },
        }
    }
}

/// The segments assembly starts from: a `STARTUP` segment at the load address when there are
/// none.
pub open spec fn starting_segments(segments: Seq<SegmentView>, load_address: u16) -> Seq<SegmentView> {
    if segments.len() == 0 { segments_after_add(segments, "STARTUP"@, load_address) } else { segments }
}

/// Whether assembling a program stops at a line that refers to an undefined label, once its
/// labels are collected.
pub open spec fn undefined_in_program(program: Seq<char>, load_address: u16, segments: Seq<SegmentView>) -> bool {
    match collected(program, load_address, starting_segments(segments, load_address)) {
        None => false,
        Some((labels, after)) => program_undefined(cleared(after), None, source_lines(program), 0, labels, load_address),
    }
}

/// Assembling from line `i` stops for an undefined label exactly as line `i` does, or as the
/// lines after it do.
proof fn lemma_program_undefined_step(
    segments: Seq<SegmentView>,
    current: Option<Seq<char>>,
    lines: Seq<Seq<char>>,
    i: int,
    labels: Map<Seq<char>, u16>,
    load_address: u16,
)
    requires
        0 <= i < lines.len(),
    ensures
        match program_line(segments, current, lines, i, labels, load_address) {
            None => program_undefined(segments, current, lines, i, labels, load_address) == line_undefined(lines, i, labels),
            Some((s2, c2, took)) => program_undefined(segments, current, lines, i, labels, load_address) == program_undefined(
                s2,
                c2,
                lines,
                if took && i + 1 < lines.len() { i + 2 } else { i + 1 },
                labels,
                load_address,
            ),
        },
{
}

/// Every segment emptied.
pub open spec fn cleared(segments: Seq<SegmentView>) -> Seq<SegmentView> {
    Seq::new(segments.len(), |i: int| (segments[i].0, segments[i].1, Seq::<u8>::empty()))
}

/// The segments a program assembles to: with a `STARTUP` segment at the load address when
/// there are none, labels collected, the segments emptied, and every line assembled.
#[verifier::opaque]
pub open spec fn program_result(program: Seq<char>, load_address: u16, segments: Seq<SegmentView>) -> Option<Seq<SegmentView>> {
    let start = if segments.len() == 0 { segments_after_add(segments, "STARTUP"@, load_address) } else { segments };
    match collected(program, load_address, start) {
        None => None,
        Some((labels, after)) => match program_from(cleared(after), None, source_lines(program), 0, labels, load_address) {
            None => None,
            Some((done, _)) => Some(done),
        },
    }
}

/// What a directive read gives is what its line does.
proof fn lemma_directive_effect(line: Seq<char>, labels: Map<Seq<char>, u16>, segments: Seq<SegmentView>, d: Directive)
    requires
        super::directives::directive_read(line, labels, segments, Some(d)),
    ensures
        directive_effect(line, labels, segments) == Some(match d {
            Directive::Segment(n) => Effect::Select(n@),
            _ => Effect::Emit(super::directives::directive_bytes(d)),
        }),
{
    reveal_strlit(".segment");
    reveal_strlit(".byte");
    reveal_strlit(".word");
    reveal_strlit(".res");
    reveal_strlit(".sprite");
    assert(".segment"@.len() == 8 && ".byte"@.len() == 5 && ".word"@.len() == 5 && ".res"@.len() == 4 && ".sprite"@.len() == 7);
    assert(".byte"@ != ".word"@) by {
        assert(".byte"@[1] != ".word"@[1]);
    }
    match d {
        Directive::Segment(n) => {},
        Directive::Byte(v) => {
            assert(".byte"@ != ".segment"@);
        },
        Directive::Word(ws) => {
            assert(".word"@ != ".segment"@);
        },
        Directive::Res(size, fill) => {
            assert(".res"@ != ".segment"@ && ".res"@ != ".byte"@ && ".res"@ != ".word"@);
            assert(Seq::new(size as nat, |i: int| fill) =~= super::directives::directive_bytes(d));
        },
        Directive::Sprite(w, h, p) => {
            assert(".sprite"@ != ".segment"@ && ".sprite"@ != ".byte"@ && ".sprite"@ != ".word"@ && ".sprite"@ != ".res"@);
        },
    }
}

/// Segments as assembled: each name with its bytes, in the order the segments were added.
pub struct AssembledSegments {
    entries: Vec<(Vec<char>, Vec<u8>)>,
}

impl AssembledSegments {
    /// Each segment's name and bytes.
    pub closed spec fn spec_entries(&self) -> Seq<(Seq<char>, Seq<u8>)> {
        self.entries@.map_values(|e: (Vec<char>, Vec<u8>)| (e.0@, e.1@))
    }

    /// The bytes of the segment named `name`.
    pub fn get(&self, name: &str) -> (r: Option<&Vec<u8>>)
        ensures
            match r {
                Some(d) => exists|i: int| 0 <= i < self.spec_entries().len() && #[trigger] self.spec_entries()[i] == (name@, d@),
                None => forall|i: int| 0 <= i < self.spec_entries().len() ==> #[trigger] self.spec_entries()[i].0 != name@,
            },
    {
        let key = chars_of(name);
        let mut i: usize = 0;
        while i < self.entries.len()
            invariant
                i <= self.entries@.len(),
                key@ == name@,
                forall|j: int| 0 <= j < i ==> #[trigger] self.spec_entries()[j].0 != name@,
            decreases self.entries@.len() - i,
        {
            assert(self.spec_entries()[i as int] == (self.entries@[i as int].0@, self.entries@[i as int].1@));
            if same_text(self.entries[i].0.as_slice(), key.as_slice()) {
                return Some(&self.entries[i].1);
            }
            i += 1;
        }
        None
    }

    /// How many segments there are.
    pub fn len(&self) -> (n: usize)
        ensures
            n == self.spec_entries().len(),
    {
        self.entries.len()
    }
}

impl Assembler {
    /// Apply the directive on a line that starts with `.`.
    fn apply_line_directive(&mut self, l: &[char], labels: &Labels) -> (r: Result<(), AssembleError>)
        requires
            l@.len() > 0 && l@[0] == '.',
        ensures
            final(self).load_address == old(self).load_address,
            match directive_effect(l@, labels@, old(self).segments.spec_list()) {
                None => r is Err,
                Some(e) => r is Ok && (final(self).segments.spec_list(), final(self).segments.spec_current()) == apply_effect(
                    old(self).segments.spec_list(),
                    old(self).segments.spec_current(),
                    e,
                    old(self).load_address,
                ),
            },
    {
        match self.parse_directive(l, labels) {
            Ok(Some(d)) => {
                proof {
                    lemma_directive_effect(l@, labels@, self.segments.spec_list(), d);
                }
                self.apply_directive(&d)
            },
            Ok(None) => {
                assert(false);
                Ok(())
            },
            Err(e) => Err(e),
        }
    }

    /// Put assembled code into the segment code goes to.
    fn emit_code_bytes(&mut self, bytes: &Vec<u8>)
        ensures
            final(self).load_address == old(self).load_address,
            final(self).segments.spec_current() == old(self).segments.spec_current(),
            final(self).segments.spec_list() == emit_code(old(self).segments.spec_list(), old(self).segments.spec_current(), bytes@),
    {
        let _count = self.segments.len();
        proof {
            super::segments::lemma_segment_position(self.segments.spec_list(), self.segments.spec_current()->0);
        }
        if let Some(i) = self.segments.current_or_first_index() {
            self.segments.extend_at(i, bytes.as_slice());
        }
    }

    /// The directive line a label-only line takes: the next line, cleaned, when it starts with
    /// `.`.
    fn labeled_directive<'a>(text: &'a [char], lines: &Vec<(usize, usize)>, i: usize, Ghost(all): Ghost<Seq<Seq<char>>>) -> (r: Option<&'a [char]>)
        requires
            lines_fit(text@, lines@, all),
            i < lines@.len(),
        ensures
            match r {
                Some(n) => i + 1 < all.len() && n@ == cleaned(all[i + 1]) && n@.len() > 0 && n@[0] == '.',
                None => !(i + 1 < all.len() && cleaned(all[i + 1]).len() > 0 && cleaned(all[i + 1])[0] == '.'),
            },
    {
        proof {
            lemma_lines_fit_len(text@, lines@, all);
        }
        if i >= lines.len() - 1 {
            return None;
        }
        let next_line = line_at_index(text, lines, i + 1, Ghost(all));
        match clean_line(next_line) {
            Some(next) => if starts_with(next, '.') {
                Some(next)
            } else {
                None
            },
            None => None,
        }
    }

    /// Assemble the code on a line that is neither a directive nor a label before one.
    fn code_step(&mut self, l: &[char], labels: &Labels) -> (r: Result<(), AssembleError>)
        requires
            l@.len() > 0,
        ensures
            final(self).load_address == old(self).load_address,
            code_undefined(l@, labels@) ==> r matches Err(AssembleError::LabelError(_)),
            match line_code(l@) {
                None => r is Ok && final(self).segments.spec_list() == old(self).segments.spec_list()
                    && final(self).segments.spec_current() == old(self).segments.spec_current(),
                Some(c) => if c.len() > 0 && c[0] == '.' {
                    match directive_effect(c, labels@, old(self).segments.spec_list()) {
                        None => r is Err,
                        Some(e) => r is Ok && (final(self).segments.spec_list(), final(self).segments.spec_current())
                            == apply_effect(old(self).segments.spec_list(), old(self).segments.spec_current(), e, old(self).load_address),
                    }
                } else {
                    match super::operand::assembled(c, labels@, super::operand::here_of(old(self).segments.spec_list(), old(self).segments.spec_current(), old(self).load_address)) {
                        None => r is Err,
                        Some(b) => r is Ok && final(self).segments.spec_list() == emit_code(old(self).segments.spec_list(), old(self).segments.spec_current(), b)
                            && final(self).segments.spec_current() == old(self).segments.spec_current(),
                    }
                },
            },
    {
        let (_, code) = process_line(l);
        let c = match code {
            Some(c) => c,
            None => return Ok(()),
        };
        if starts_with(c, '.') {
            return self.apply_line_directive(c, labels);
        }
        let bytes = self.assemble_chars(c, labels)?;
        self.emit_code_bytes(&bytes);
        Ok(())
    }

    /// Assemble line `i`; returns whether the next line was taken too.
    fn program_step(&mut self, text: &[char], lines: &Vec<(usize, usize)>, i: usize, labels: &Labels, Ghost(all): Ghost<Seq<Seq<char>>>) -> (r: Result<bool, AssembleError>)
        requires
            lines_fit(text@, lines@, all),
            i < lines@.len(),
        ensures
            final(self).load_address == old(self).load_address,
            match program_line(old(self).segments.spec_list(), old(self).segments.spec_current(), all, i as int, labels@, old(self).load_address) {
                None => r is Err,
                Some((s2, c2, took)) => r == Ok::<bool, AssembleError>(took) && final(self).segments.spec_list() == s2
                    && final(self).segments.spec_current() == c2,
            },
            line_undefined(all, i as int, labels@) ==> r matches Err(AssembleError::LabelError(_)),
    {
        reveal(program_line);
        let line = line_at_index(text, lines, i, Ghost(all));
        let l = match clean_line(line) {
            Some(l) => l,
            None => return Ok(false),
        };
        if starts_with(l, '.') {
            self.apply_line_directive(l, labels)?;
            return Ok(false);
        }
        let (label, _) = process_line(l);
        if label.len() > 0 {
            if let Some(next) = Self::labeled_directive(text, lines, i, Ghost(all)) {
                self.apply_line_directive(next, labels)?;
                return Ok(true);
            }
        }
        self.code_step(l, labels)?;
        Ok(false)
    }

    /// Assemble a whole program into its segments. With no segments yet, a `STARTUP` segment
    /// at the load address receives the code. Labels are collected first, then every segment is
    /// emptied and the program assembled into them.
    pub fn assemble_program(&mut self, program: &str) -> (r: Result<AssembledSegments, AssembleError>)
        ensures
            final(self).load_address == old(self).load_address,
            match program_result(program@, old(self).load_address, old(self).segments.spec_list()) {
                None => r is Err,
                Some(done) => r matches Ok(out) && out.spec_entries().len() == done.len() && forall|j: int|
                    0 <= j < done.len() ==> #[trigger] out.spec_entries()[j] == (done[j].0, done[j].2),
            },
            duplicate_label(program@, old(self).load_address, starting_segments(old(self).segments.spec_list(), old(self).load_address))
                ==> r matches Err(AssembleError::LabelError(_)),
            undefined_in_program(program@, old(self).load_address, old(self).segments.spec_list()) ==> r matches Err(
                AssembleError::LabelError(_),
            ),
    {
        reveal(program_result);
        if self.segments.is_empty() {
            let startup = chars_of("STARTUP");
            self.segments.add_chars(startup.as_slice(), self.load_address);
        }
        let ghost start = self.segments.spec_list();
        let labels = self.collect_labels(program)?;
        let ghost found = collected(program@, old(self).load_address, start)->0;
        proof {
            lemma_models_view(labels, found.0);
        }
        let ghost after = self.segments.spec_list();
        self.segments.reset();
        assert(self.segments.spec_list() =~= cleared(after));
        let text = chars_of(program);
        let lines = line_spans(text.as_slice());
        let ghost all = source_lines(program@);
        proof {
            lemma_lines_fit_len(text@, lines@, all);
        }
        assert(program_result(program@, old(self).load_address, old(self).segments.spec_list()) == match program_from(cleared(after), None, all, 0, found.0, old(self).load_address) {
            None => None,
            Some((done, _)) => Some(done),
        });
        assert(start == starting_segments(old(self).segments.spec_list(), old(self).load_address));
        proof {
            let st0 = scan_start(
                Map::empty(),
                old(self).load_address,
                Map::empty().insert("STARTUP"@, old(self).load_address),
                start,
            );
            assert(collected(program@, old(self).load_address, start) is Some);
            assert(first_pass(st0, all, old(self).load_address) is Some);
            lemma_no_duplicate_on_success(st0, all, old(self).load_address);
        }
        assert(!duplicate_label(program@, old(self).load_address, start));
        assert(undefined_in_program(program@, old(self).load_address, old(self).segments.spec_list()) == program_undefined(
            cleared(after),
            None,
            all,
            0,
            found.0,
            old(self).load_address,
        ));
        let mut i: usize = 0;
        while i < lines.len()
            invariant
                !duplicate_label(program@, old(self).load_address, starting_segments(old(self).segments.spec_list(), old(self).load_address)),
                undefined_in_program(program@, old(self).load_address, old(self).segments.spec_list()) == program_undefined(
                    self.segments.spec_list(),
                    self.segments.spec_current(),
                    all,
                    i as int,
                    found.0,
                    old(self).load_address,
                ),
                program_result(program@, old(self).load_address, old(self).segments.spec_list()) == match program_from(cleared(after), None, all, 0, found.0, old(self).load_address) {
                    None => None,
                    Some((done, _)) => Some(done),
                },
                i <= lines@.len(),
                lines@.len() == all.len(),
                all == source_lines(program@),
                text@ == program@,
                lines_fit(text@, lines@, all),
                self.load_address == old(self).load_address,
                labels@ == found.0,
                program_from(cleared(after), None, all, 0, found.0, old(self).load_address) == program_from(
                    self.segments.spec_list(),
                    self.segments.spec_current(),
                    all,
                    i as int,
                    found.0,
                    old(self).load_address,
                ),
            decreases lines@.len() - i,
        {
            let ghost before_segs = self.segments.spec_list();
            let ghost before_cur = self.segments.spec_current();
            proof {
                lemma_program_from_step(before_segs, before_cur, all, i as int, found.0, self.load_address);
                lemma_program_undefined_step(before_segs, before_cur, all, i as int, found.0, self.load_address);
            }
            let took = match self.program_step(text.as_slice(), &lines, i, &labels, Ghost(all)) {
                Ok(t) => t,
                Err(e) => {
                    assert(program_line(before_segs, before_cur, all, i as int, found.0, old(self).load_address) is None);
                    assert(program_from(before_segs, before_cur, all, i as int, found.0, old(self).load_address) is None);
                    assert(program_from(cleared(after), None, all, 0, found.0, old(self).load_address) is None);
                    return Err(e);
                },
            };
            i = if took && i < lines.len() - 1 {
                i + 2
            } else {
                i + 1
            };
        }
        assert(program_from(self.segments.spec_list(), self.segments.spec_current(), all, i as int, found.0, old(self).load_address) == Some((self.segments.spec_list(), self.segments.spec_current())));
        Ok(self.output())
    }

    /// The segments' names and bytes.
    fn output(&self) -> (out: AssembledSegments)
        ensures
            out.spec_entries().len() == self.segments.spec_list().len(),
            forall|j: int| 0 <= j < self.segments.spec_list().len() ==> #[trigger] out.spec_entries()[j] == (
                self.segments.spec_list()[j].0,
                self.segments.spec_list()[j].2,
            ),
    {
        let mut entries: Vec<(Vec<char>, Vec<u8>)> = Vec::new();
        let n = self.segments.len();
        let mut i: usize = 0;
        while i < n
            invariant
                i <= n,
                n == self.segments.spec_list().len(),
                entries@.len() == i,
                forall|j: int| 0 <= j < i ==> #[trigger] entries@[j].0@ == self.segments.spec_list()[j].0
                    && entries@[j].1@ == self.segments.spec_list()[j].2,
            decreases n - i,
        {
            let name = chars_of(self.segments.name_at(i).as_str());
            let mut data: Vec<u8> = Vec::new();
            super::segments::extend_bytes(&mut data, self.segments.data_at(i).as_slice());
            assert(data@ =~= self.segments.spec_list()[i as int].2);
            let ghost before = entries@;
            entries.push((name, data));
            assert(entries@ == before.push((name, data)));
            i += 1;
        }
        let out = AssembledSegments { entries };
        assert forall|j: int| 0 <= j < self.segments.spec_list().len() implies #[trigger] out.spec_entries()[j] == (
            self.segments.spec_list()[j].0,
            self.segments.spec_list()[j].2,
        ) by {
            assert(out.spec_entries()[j] == (out.entries@[j].0@, out.entries@[j].1@));
        }
        out
    }
}

} // verus!
