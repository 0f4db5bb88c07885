//! The shape of assembly source: lines, comments, labels, and an instruction's mnemonic and
//! operand.
use vstd::prelude::*;

use crate::helpers::parse::trimmed;
use crate::text::{find_char, index_of, lemma_index_of, trim_chars};

verus! {

/// Where the line starting at `start` ends: at the next newline, or at the end of the text.
pub open spec fn line_end(s: Seq<char>, start: int) -> int {
    start + index_of(s.subrange(start, s.len() as int), '\n')
}

/// The line starting at `start`, without its newline and without a carriage return before it.
pub open spec fn line_at(s: Seq<char>, start: int) -> Seq<char> {
    let end = line_end(s, start);
    if end < s.len() && end > start && s[end - 1] == '\r' {
        s.subrange(start, end - 1)
    } else {
        s.subrange(start, end)
    }
}

/// The lines of `s`, as `str::lines` gives them: split at each `\n`, a `\r` before it dropped,
/// and no empty line after a final newline.
pub open spec fn lines_from(s: Seq<char>, start: int) -> Seq<Seq<char>>
    decreases s.len() + 1 - start,
{
    if start >= s.len() || start < 0 {
        seq![]
    } else {
        proof {
            lemma_index_of(s.subrange(start, s.len() as int), '\n');
        }
        seq![line_at(s, start)] + lines_from(s, line_end(s, start) + 1)
    }
}

/// The lines of a text.
pub open spec fn source_lines(s: Seq<char>) -> Seq<Seq<char>> {
    lines_from(s, 0)
}

/// A line without its comment (from the first `;`) and the white space around what is left.
pub open spec fn cleaned(line: Seq<char>) -> Seq<char> {
    trimmed(line.subrange(0, index_of(line, ';')))
}

/// The label a line declares: what comes before its first colon, trimmed; empty if there is
/// no colon.
pub open spec fn line_label(line: Seq<char>) -> Seq<char> {
    let t = trimmed(line);
    let c = index_of(t, ':');
    if c < t.len() {
        trimmed(t.subrange(0, c))
    } else {
        seq![]
    }
}

/// The code on a line: after the first colon if there is one, trimmed, and `None` when that
/// leaves nothing.
pub open spec fn line_code(line: Seq<char>) -> Option<Seq<char>> {
    let t = trimmed(line);
    let c = index_of(t, ':');
    if c < t.len() {
        let code = trimmed(t.subrange(c + 1, t.len() as int));
        if code.len() > 0 {
            Some(code)
        } else {
            None
        }
    } else {
        Some(t)
    }
}

/// The mnemonic of a statement: what comes before its first space.
pub open spec fn statement_word(s: Seq<char>) -> Seq<char> {
    s.subrange(0, index_of(s, ' '))
}

/// The operand of a statement: what follows its first space, trimmed; `None` without a space.
pub open spec fn statement_rest(s: Seq<char>) -> Option<Seq<char>> {
    let k = index_of(s, ' ');
    if k < s.len() {
        Some(trimmed(s.subrange(k + 1, s.len() as int)))
    } else {
        None
    }
}

/// Whether an operand is the accumulator, `A` or `a`.
pub open spec fn names_accumulator(op: Seq<char>) -> bool {
    op.len() == 1 && (op[0] == 'a' || op[0] == 'A')
}

/// Where the line starting at `start` ends.
pub fn find_line_end(s: &[char], start: usize) -> (end: usize)
    requires
        start <= s@.len(),
    ensures
        end == line_end(s@, start as int),
        start <= end <= s@.len(),
        end < s@.len() ==> s@[end as int] == '\n',
{
    let rest = &s[start..s.len()];
    let k = find_char(rest, '\n');
    proof {
        lemma_index_of(rest@, '\n');
    }
    start + k
}

/// The lines of a text, as `str::lines` gives them.
pub fn split_lines(s: &[char]) -> (lines: Vec<(usize, usize)>)
    ensures
        lines@.len() == source_lines(s@).len(),
        forall|i: int|
            0 <= i < lines@.len() ==> {
                &&& #[trigger] lines@[i].0 <= lines@[i].1 <= s@.len()
                &&& s@.subrange(lines@[i].0 as int, lines@[i].1 as int) == source_lines(s@)[i]
            },
{
    let mut lines: Vec<(usize, usize)> = Vec::new();
    let mut start: usize = 0;
    while start < s.len()
        invariant
            start <= s@.len(),
            source_lines(s@) == lines@.map_values(|p: (usize, usize)| s@.subrange(p.0 as int, p.1 as int))
                + lines_from(s@, start as int),
            forall|i: int| 0 <= i < lines@.len() ==> #[trigger] lines@[i].0 <= lines@[i].1 <= s@.len(),
        decreases s@.len() - start,
    {
        let end = find_line_end(s, start);
        let stop = if end < s.len() && end > start && s[end - 1] == '\r' {
            end - 1
        } else {
            end
        };
        let ghost before = lines@;
        lines.push((start, stop));
        proof {
            assert(lines_from(s@, start as int) == seq![line_at(s@, start as int)] + lines_from(s@, end + 1));
            assert(lines@.map_values(|p: (usize, usize)| s@.subrange(p.0 as int, p.1 as int)) =~= before.map_values(
                |p: (usize, usize)| s@.subrange(p.0 as int, p.1 as int),
            ).push(line_at(s@, start as int)));
        }
        assert(lines@[lines@.len() - 1].0 <= lines@[lines@.len() - 1].1 <= s@.len());
        assert forall|i: int| 0 <= i < lines@.len() implies #[trigger] lines@[i].0 <= lines@[i].1 <= s@.len() by {
            if i < before.len() {
                assert(lines@[i] == before[i]);
            }
        }
        if end >= s.len() {
            assert(lines_from(s@, end + 1) =~= seq![]);
            assert(lines_from(s@, s@.len() as int) =~= seq![]);
            start = s.len();
        } else {
            start = end + 1;
        }
    }
    proof {
        assert(lines_from(s@, start as int) =~= seq![]);
        assert forall|i: int| 0 <= i < lines@.len() implies s@.subrange(lines@[i].0 as int, lines@[i].1 as int)
            == source_lines(s@)[i] by {
            assert(source_lines(s@)[i] == lines@.map_values(
                |p: (usize, usize)| s@.subrange(p.0 as int, p.1 as int),
            )[i]);
        }
    }
    lines
}

/// A line without its comment and surrounding white space; `None` when nothing is left.
pub fn clean_line(line: &[char]) -> (r: Option<&[char]>)
    ensures
        match r {
            Some(c) => c@ == cleaned(line@) && c@.len() > 0,
            None => cleaned(line@).len() == 0,
        },
{
    let k = find_char(line, ';');
    proof {
        lemma_index_of(line@, ';');
    }
    let t = trim_chars(&line[0..k]);
    if t.len() == 0 {
        None
    } else {
        Some(t)
    }
}

/// Split a line into the label it declares (empty if none) and the code it holds.
pub fn process_line(line: &[char]) -> (r: (&[char], Option<&[char]>))
    ensures
        r.0@ == line_label(line@),
        match r.1 {
            Some(c) => line_code(line@) == Some(c@),
            None => line_code(line@) is None,
        },
{
    let t = trim_chars(line);
    let c = find_char(t, ':');
    proof {
        lemma_index_of(t@, ':');
    }
    if c < t.len() {
        let label = trim_chars(&t[0..c]);
        let code = trim_chars(&t[c + 1..t.len()]);
        if code.len() > 0 {
            (label, Some(code))
        } else {
            (label, None)
        }
    } else {
        let empty: &[char] = &t[0..0];
        assert(empty@ =~= seq![]);
        (empty, Some(t))
    }
}

/// Split a statement at its first space into the mnemonic and the trimmed operand.
pub fn split_statement(s: &[char]) -> (r: (&[char], Option<&[char]>))
    ensures
        r.0@ == statement_word(s@),
        match r.1 {
            Some(o) => statement_rest(s@) == Some(o@),
            None => statement_rest(s@) is None,
        },
{
    let k = find_char(s, ' ');
    proof {
        lemma_index_of(s@, ' ');
    }
    let word = &s[0..k];
    if k < s.len() {
        (word, Some(trim_chars(&s[k + 1..s.len()])))
    } else {
        (word, None)
    }
}

/// Whether an operand is the accumulator.
pub fn is_accumulator(op: &[char]) -> (b: bool)
    ensures
        b == names_accumulator(op@),
{
    op.len() == 1 && (op[0] == 'a' || op[0] == 'A')
}

/// Whether `s` starts with `c`.
pub fn starts_with(s: &[char], c: char) -> (b: bool)
    ensures
        b == (s@.len() > 0 && s@[0] == c),
{
    s.len() > 0 && s[0] == c
}

/// Whether `s` ends with the characters `a`, `b`, `c`.
pub fn ends_with3(s: &[char], a: char, b: char, c: char) -> (r: bool)
    ensures
        r == (s@.len() >= 3 && s@[s@.len() - 3] == a && s@[s@.len() - 2] == b && s@[s@.len() - 1] == c),
{
    let n = s.len();
    n >= 3 && s[n - 3] == a && s[n - 2] == b && s[n - 1] == c
}

/// Whether two character sequences are equal.
pub fn same_text(a: &[char], b: &[char]) -> (r: bool)
    ensures
        r == (a@ == b@),
{
    if a.len() != b.len() {
        return false;
    }
    let mut i: usize = 0;
    while i < a.len()
        invariant
            a@.len() == b@.len(),
            i <= a@.len(),
            forall|j: int| 0 <= j < i ==> a@[j] == b@[j],
        decreases a@.len() - i,
    {
        if a[i] != b[i] {
            return false;
        }
        i += 1;
    }
    assert(a@ =~= b@);
    true
}

} // verus!
