//! Assembler directives: `.segment`, `.byte`, `.word`, `.res` and `.sprite`.
use vstd::prelude::*;

use super::labels::{map_get, Labels};
use super::segments::{segment_position, segments_after_add, SegmentView};
use super::source::{same_text, starts_with, statement_word};
use super::operand::word_of;
use super::program::{directive_size_of, filled_count, filled_len};
use super::{AssembleError, Assembler};
use crate::helpers::errors::ParseError;
use crate::helpers::parse::{
    is_white_space, operand_fits, operand_number, parse_value, text_value, trim_start, trimmed, u8_from_str_radix,
};
use crate::text::{
    chars_of, find_char, index_of, lemma_index_of, lemma_trim_start_suffix, push_decimal, split_commas, string_of,
    strip_char, strip_chars, trim_chars, trim_start_chars,
};

verus! {

/// A directive, read but not yet applied.
#[derive(Debug, Clone)]
pub enum Directive {
    /// Select the segment output goes to.
    Segment(String),
    /// Emit bytes.
    Byte(Vec<u8>),
    /// Emit words, low byte first.
    Word(Vec<u16>),
    /// Emit a count of one fill byte.
    Res(u16, u8),
    /// Emit tile pattern data: width and height in tiles, then 16 bytes a tile.
    Sprite(u8, u8, Vec<u8>),
}

/// A segment name as a directive writes it: trimmed, then stripped of double and single quotes.
pub open spec fn segment_name(s: Seq<char>) -> Seq<char> {
    strip_char(strip_char(trimmed(s), '"'), '\'')
}

/// Whether a character opens or closes a quoted string.
pub open spec fn is_quote(c: char) -> bool {
    c == '"' || c == '\''
}

/// The index of the first quote in `s`, or its length.
pub open spec fn quote_index(s: Seq<char>) -> int
    decreases s.len(),
{
    if s.len() == 0 {
        0
    } else if is_quote(s[0]) {
        0
    } else {
        1 + quote_index(s.drop_first())
    }
}

/// The index of the first quote is in range, and no character before it is a quote.
pub proof fn lemma_quote_index(s: Seq<char>)
    ensures
        0 <= quote_index(s) <= s.len(),
        quote_index(s) < s.len() ==> is_quote(s[quote_index(s)]),
        forall|j: int| 0 <= j < quote_index(s) ==> !is_quote(s[j]),
    decreases s.len(),
{
    if s.len() > 0 && !is_quote(s[0]) {
        lemma_quote_index(s.drop_first());
        assert forall|j: int| 0 <= j < quote_index(s) implies !is_quote(s[j]) by {
            if j > 0 {
                assert(s[j] == s.drop_first()[j - 1]);
            }
        }
    }
}

/// What the pattern `^\s*["']([^"']*)["']` matches at the start of `s`: the text between the
/// first two quotes, and what follows the second; `None` unless `s` starts, after white space,
/// with a quote that another closes.
pub open spec fn quoted_split(s: Seq<char>) -> Option<(Seq<char>, Seq<char>)> {
    let t = trim_start(s);
    if t.len() > 0 && is_quote(t[0]) {
        let body = t.drop_first();
        let k = quote_index(body);
        if k < body.len() {
            Some((body.subrange(0, k), body.subrange(k + 1, body.len() as int)))
        } else {
            None
        }
    } else {
        None
    }
}

/// `Regex::captures` with the pattern `^\s*["']([^"']*)["']`, whose `\s` is Unicode white
/// space. The contract claims what the pattern means: the content of the quotes (group 1) and
/// the text after the whole match, or `None` when it does not match.
#[verifier::external_body]
fn quoted_prefix(input: &str) -> (r: Option<(&str, &str)>)
    ensures
        match r {
            Some((content, rest)) => quoted_split(input@) == Some((content@, rest@)),
            None => quoted_split(input@) is None,
        },
{
    let pattern = regex::Regex::new(r#"^\s*["']([^"']*)["']"#).unwrap();
    match pattern.captures(input) {
        Some(captures) => match (captures.get(1), captures.get(0)) {
            (Some(content), Some(whole)) => Some((content.as_str(), &input[whole.end()..])),
            _ => None,
        },
        None => None,
    }
}

/// The bytes a string literal becomes: each character truncated to its low byte.
pub open spec fn literal_bytes(s: Seq<char>) -> Seq<u8> {
    Seq::new(s.len(), |i: int| (s[i] as u32 % 256) as u8)
}

/// A value as `parse_value::<u8>` reads it.
pub open spec fn byte_of(s: Seq<char>) -> Option<u8> {
    if operand_fits(s, 255) {
        Some(operand_number(s)->0 as u8)
    } else {
        None
    }
}

/// `s` without a leading comma.
pub open spec fn skip_comma(s: Seq<char>) -> Seq<char> {
    if s.len() > 0 && s[0] == ',' {
        s.drop_first()
    } else {
        s
    }
}

/// The bytes of a `.byte` list from `rem` on: quoted strings byte by byte, and numbers, each
/// up to the next comma; `None` at the first value that does not read.
pub open spec fn byte_tokens(rem: Seq<char>) -> Option<Seq<u8>>
    decreases rem.len(),
{
    let r = trim_start(rem);
    proof {
        lemma_trim_start_suffix(rem);
    }
    if r.len() == 0 {
        Some(seq![])
    } else {
        match quoted_split(r) {
            Some((content, rest)) => {
                proof {
                    lemma_trim_start_suffix(r);
                    lemma_quote_index(trim_start(r).drop_first());
                    lemma_trim_start_suffix(rest);
                }
                match byte_tokens(skip_comma(trim_start(rest))) {
                    Some(t) => Some(literal_bytes(content) + t),
                    None => None,
                }
            },
            None => {
                let c = index_of(r, ',');
                proof {
                    lemma_index_of(r, ',');
                    lemma_trim_start_suffix(r.subrange(c, r.len() as int));
                }
                let v = trimmed(r.subrange(0, c));
                if v.len() == 0 {
                    None
                } else {
                    match byte_of(v) {
                        None => None,
                        Some(b) => match byte_tokens(skip_comma(trim_start(r.subrange(c, r.len() as int)))) {
                            Some(t) => Some(seq![b] + t),
                            None => None,
                        },
                    }
                }
            },
        }
    }
}

/// A `.word` value: a number, or else a label.
pub open spec fn word_value(v: Seq<char>, labels: Map<Seq<char>, u16>) -> Option<u16> {
    if operand_fits(v, 65535) {
        Some(operand_number(v)->0 as u16)
    } else {
        map_get(labels, v)
    }
}

/// The values of a `.word` list: each non-empty piece between commas, trimmed.
pub open spec fn word_values(pieces: Seq<Seq<char>>, labels: Map<Seq<char>, u16>) -> Option<Seq<u16>>
    decreases pieces.len(),
{
    if pieces.len() == 0 {
        Some(seq![])
    } else {
        let v = trimmed(pieces[0]);
        if v.len() == 0 {
            word_values(pieces.drop_first(), labels)
        } else {
            match word_value(v, labels) {
                None => None,
                Some(w) => match word_values(pieces.drop_first(), labels) {
                    Some(t) => Some(seq![w] + t),
                    None => None,
                },
            }
        }
    }
}

/// A decimal number as `str::parse::<u8>` reads it.
pub open spec fn decimal_byte(s: Seq<char>) -> Option<u8> {
    match text_value(s, 10) {
        Some(v) => if v <= 255 { Some(v as u8) } else { None },
        None => None,
    }
}

/// A sprite pattern value: `%` binary, `$` hexadecimal, or decimal.
pub open spec fn pattern_byte(t: Seq<char>) -> Option<u8> {
    let radix: nat = if t.len() > 0 && t[0] == '%' { 2 } else if t.len() > 0 && t[0] == '$' { 16 } else { 10 };
    let digits = if t.len() > 0 && (t[0] == '%' || t[0] == '$') { t.drop_first() } else { t };
    match text_value(digits, radix) {
        Some(v) => if v <= 255 { Some(v as u8) } else { None },
        None => None,
    }
}

/// The bytes of a sprite's pattern list: each non-empty piece between commas, trimmed.
pub open spec fn pattern_bytes(pieces: Seq<Seq<char>>) -> Option<Seq<u8>>
    decreases pieces.len(),
{
    if pieces.len() == 0 {
        Some(seq![])
    } else {
        let t = trimmed(pieces[0]);
        if t.len() == 0 {
            pattern_bytes(pieces.drop_first())
        } else {
            match pattern_byte(t) {
                None => None,
                Some(b) => match pattern_bytes(pieces.drop_first()) {
                    Some(rest) => Some(seq![b] + rest),
                    None => None,
                },
            }
        }
    }
}

/// Whether `s` is the text of the literal `w`.
fn is_word(s: &[char], w: &str) -> (b: bool)
    ensures
        b == (s@ == w@),
{
    let chars = chars_of(w);
    same_text(s, chars.as_slice())
}

/// A segment name as a directive writes it, without quotes.
pub fn format_segment_name(name: &[char]) -> (r: &[char])
    ensures
        r@ == segment_name(name@),
{
    strip_chars(strip_chars(trim_chars(name), '"'), '\'')
}

/// A message made of a fixed text and some characters.
fn message(text: &str, detail: &[char]) -> (m: String)
    ensures
        m@ == text@ + detail@,
{
    let mut m = String::from_str(text);
    m.append(string_of(detail).as_str());
    m
}

/// The bytes of a string literal, each character truncated to a byte.
fn literal_to_bytes(content: &[char]) -> (b: Vec<u8>)
    ensures
        b@ == literal_bytes(content@),
{
    let mut b: Vec<u8> = Vec::new();
    let mut i: usize = 0;
    while i < content.len()
        invariant
            i <= content@.len(),
            b@ == literal_bytes(content@.subrange(0, i as int)),
        decreases content@.len() - i,
    {
        let c = content[i] as u32;
        b.push((c % 256) as u8);
        assert(b@ =~= literal_bytes(content@.subrange(0, i + 1)));
        i += 1;
    }
    assert(content@.subrange(0, content@.len() as int) =~= content@);
    b
}

/// Read one number of a `.byte` list: what comes before the next comma, trimmed.
fn numeric_byte(input: &[char]) -> (r: Result<(u8, usize), AssembleError>)
    ensures
        match r {
            Ok((b, c)) => c == index_of(input@, ',') && trimmed(input@.subrange(0, c as int)).len() > 0 && byte_of(
                trimmed(input@.subrange(0, c as int)),
            ) == Some(b),
            Err(_) => trimmed(input@.subrange(0, index_of(input@, ','))).len() == 0 || byte_of(
                trimmed(input@.subrange(0, index_of(input@, ','))),
            ) is None,
        },
{
    let c = find_char(input, ',');
    proof {
        lemma_index_of(input@, ',');
    }
    let value = trim_chars(&input[0..c]);
    if value.len() == 0 {
        return Err(AssembleError::DirectiveError(String::from_str("Empty value in byte list")));
    }
    let text = string_of(value);
    match parse_value::<u8>(text.as_str()) {
        Ok(b) => Ok((b, c)),
        Err(e) => Err(AssembleError::ParseError(e)),
    }
}

/// The slice after an optional leading comma.
fn after_comma(s: &[char]) -> (r: &[char])
    ensures
        r@ == skip_comma(s@),
{
    if s.len() > 0 && s[0] == ',' {
        let r = &s[1..s.len()];
        assert(r@ =~= s@.drop_first());
        r
    } else {
        s
    }
}

/// The bytes a suffix of `t` contributes, given as what follows `pos`.
pub open spec fn tokens_at(t: Seq<char>, pos: int) -> Option<Seq<u8>> {
    byte_tokens(t.subrange(pos, t.len() as int))
}

/// Read the token of a `.byte` list that starts at `pos`: its bytes, and where the next begins.
#[verifier::rlimit(40)]
fn byte_token_step(t: &[char], pos: usize) -> (r: Result<(Vec<u8>, usize), AssembleError>)
    requires
        pos < t@.len(),
    ensures
        match r {
            Ok((bytes, next)) => pos < next <= t@.len() && tokens_at(t@, pos as int) == (match tokens_at(
                t@,
                next as int,
            ) {
                Some(x) => Some(bytes@ + x),
                None => None::<Seq<u8>>,
            }),
            Err(_) => tokens_at(t@, pos as int) is None,
        },
{
    let n = t.len();
    let rem = &t[pos..n];
    let r = trim_start_chars(rem);
    proof {
        lemma_trim_start_suffix(rem@);
    }
    if r.len() == 0 {
        assert(byte_tokens(rem@) == Some(Seq::<u8>::empty()));
        assert(t@.subrange(n as int, n as int) =~= Seq::<char>::empty());
        assert(byte_tokens(Seq::<char>::empty()) == Some(Seq::<u8>::empty()));
        let none: Vec<u8> = Vec::new();
        assert(none@ + Seq::<u8>::empty() =~= none@);
        return Ok((none, n));
    }
    let text = string_of(r);
    match quoted_prefix(text.as_str()) {
        Some((content, rest)) => {
            let content_chars = chars_of(content);
            let bytes = literal_to_bytes(content_chars.as_slice());
            let rest_len = rest.unicode_len();
            proof {
                lemma_trim_start_suffix(r@);
                lemma_quote_index(r@.drop_first());
            }
            let rest_start = n - rest_len;
            assert(t@.subrange(rest_start as int, n as int) =~= rest@);
            let next = after_comma(trim_start_chars(&t[rest_start..n]));
            proof {
                lemma_trim_start_suffix(rest@);
            }
            let next_pos = n - next.len();
            assert(t@.subrange(next_pos as int, n as int) =~= next@);
            assert(byte_tokens(rem@) == (match byte_tokens(next@) {
                Some(x) => Some(literal_bytes(content@) + x),
                None => None::<Seq<u8>>,
            }));
            Ok((bytes, next_pos))
        },
        None => {
            proof {
                lemma_index_of(r@, ',');
            }
            let (b, c) = match numeric_byte(r) {
                Ok(found) => found,
                Err(e) => return Err(e),
            };
            let tail = &r[c..r.len()];
            let next = after_comma(trim_start_chars(tail));
            proof {
                lemma_trim_start_suffix(tail@);
            }
            let next_pos = n - next.len();
            assert(t@.subrange(next_pos as int, n as int) =~= next@);
            let mut bytes: Vec<u8> = Vec::new();
            bytes.push(b);
            assert(bytes@ =~= seq![b]);
            assert(byte_tokens(rem@) == (match byte_tokens(next@) {
                Some(x) => Some(seq![b] + x),
                None => None::<Seq<u8>>,
            }));
            Ok((bytes, next_pos))
        },
    }
}

/// The bytes of a `.byte` list: quoted strings and numbers, separated by commas.
pub fn parse_comma_separated_byte_tokens(input: &[char]) -> (r: Result<Vec<u8>, AssembleError>)
    ensures
        match r {
            Ok(b) => byte_tokens(trimmed(input@)) == Some(b@),
            Err(_) => byte_tokens(trimmed(input@)) is None,
        },
{
    let t = trim_chars(input);
    let n = t.len();
    let mut result: Vec<u8> = Vec::new();
    let mut pos: usize = 0;
    assert(t@.subrange(0, n as int) =~= t@);
    proof {
        match byte_tokens(t@) {
            Some(x) => assert(result@ + x =~= x),
            None => {},
        }
    }
    while pos < n
        invariant
            pos <= n,
            n == t@.len(),
            t@ == trimmed(input@),
            byte_tokens(t@) == (match tokens_at(t@, pos as int) {
                Some(x) => Some(result@ + x),
                None => None::<Seq<u8>>,
            }),
        decreases n - pos,
    {
        let (bytes, next) = match byte_token_step(t, pos) {
            Ok(step) => step,
            Err(e) => {
                assert(tokens_at(t@, pos as int) is None);
                assert(byte_tokens(t@) is None);
                return Err(e);
            },
        };
        let ghost before = result@;
        let mut k: usize = 0;
        while k < bytes.len()
            invariant
                k <= bytes@.len(),
                result@ == before + bytes@.subrange(0, k as int),
            decreases bytes@.len() - k,
        {
            result.push(bytes[k]);
            assert(result@ =~= before + bytes@.subrange(0, k + 1));
            k += 1;
        }
        proof {
            assert(bytes@.subrange(0, bytes@.len() as int) =~= bytes@);
            match tokens_at(t@, next as int) {
                Some(x) => assert(before + (bytes@ + x) =~= result@ + x),
                None => {},
            }
        }
        pos = next;
    }
    assert(t@.subrange(n as int, n as int) =~= Seq::<char>::empty());
    assert(byte_tokens(Seq::<char>::empty()) == Some(Seq::<u8>::empty()));
    assert(result@ + Seq::<u8>::empty() =~= result@);
    Ok(result)
}


/// Words as bytes, each low byte first.
pub open spec fn words_le(ws: Seq<u16>) -> Seq<u8>
    decreases ws.len(),
{
    if ws.len() == 0 {
        seq![]
    } else {
        words_le(ws.drop_last()) + seq![(ws.last() % 256) as u8, (ws.last() / 256) as u8]
    }
}

/// The bytes a directive emits; a `.segment` emits none.
pub open spec fn directive_bytes(d: Directive) -> Seq<u8> {
    match d {
        Directive::Segment(_) => seq![],
        Directive::Byte(v) => v@,
        Directive::Word(ws) => words_le(ws@),
        Directive::Res(size, fill) => Seq::new(size as nat, |i: int| fill),
        Directive::Sprite(_, _, p) => p@,
    }
}

/// The arguments of a `.res`: a size, and a fill byte that defaults to zero.
pub open spec fn res_args(args: Seq<char>) -> Option<(u16, u8)> {
    let ps = split_commas(args);
    match word_of(trimmed(ps[0])) {
        None => None,
        Some(size) => if ps.len() > 1 {
            match byte_of(trimmed(ps[1])) {
                Some(fill) => Some((size, fill)),
                None => None,
            }
        } else {
            Some((size, 0))
        },
    }
}

/// The arguments of a `.sprite`: decimal width and height in tiles, then 16 pattern bytes a
/// tile.
pub open spec fn sprite_args(args: Seq<char>) -> Option<(u8, u8, Seq<u8>)> {
    let c0 = index_of(args, ',');
    let after = args.subrange(c0 + 1, args.len() as int);
    let c1 = index_of(after, ',');
    if c0 >= args.len() {
        None
    } else {
        match decimal_byte(trimmed(args.subrange(0, c0))) {
            None => None,
            Some(w) => if c1 >= after.len() {
                None
            } else {
                match decimal_byte(trimmed(after.subrange(0, c1))) {
                    None => None,
                    Some(h) => match pattern_bytes(split_commas(after.subrange(c1 + 1, after.len() as int))) {
                        None => None,
                        Some(p) => if p.len() == w * h * 16 {
                            Some((w, h, p))
                        } else {
                            None
                        },
                    },
                }
            },
        }
    }
}

/// What a directive line reads as: `Some(None)` when it is no directive, `None` when it does
/// not read. A `.segment` may only select a segment that exists.
pub open spec fn directive_read(line: Seq<char>, labels: Map<Seq<char>, u16>, segments: Seq<SegmentView>, d: Option<Directive>) -> bool {
    if !(line.len() > 0 && line[0] == '.') {
        d is None
    } else {
        let name = statement_word(line);
        let args = match statement_rest_raw(line) {
            Some(a) => a,
            None => seq![],
        };
        match d {
            None => false,
            Some(Directive::Segment(n)) => name == ".segment"@ && args.len() > 0 && n@ == segment_name(args)
                && segment_position(segments, segment_name(args)) < segments.len(),
            Some(Directive::Byte(v)) => name == ".byte"@ && args.len() > 0 && byte_tokens(trimmed(args)) == Some(v@),
            Some(Directive::Word(ws)) => name == ".word"@ && args.len() > 0 && word_values(split_commas(args), labels)
                == Some(ws@),
            Some(Directive::Res(size, fill)) => name == ".res"@ && args.len() > 0 && res_args(args) == Some((size, fill)),
            Some(Directive::Sprite(w, h, p)) => name == ".sprite"@ && args.len() > 0 && sprite_args(args) == Some(
                (w, h, p@),
            ),
        }
    }
}

/// Whether a directive line fails to read.
pub open spec fn directive_fails(line: Seq<char>, labels: Map<Seq<char>, u16>, segments: Seq<SegmentView>) -> bool {
    let name = statement_word(line);
    let args = match statement_rest_raw(line) {
        Some(a) => a,
        None => seq![],
    };
    &&& line.len() > 0 && line[0] == '.'
    &&& if name == ".segment"@ {
        args.len() == 0 || segment_position(segments, segment_name(args)) >= segments.len()
    } else if name == ".byte"@ {
        args.len() == 0 || byte_tokens(trimmed(args)) is None
    } else if name == ".word"@ {
        args.len() == 0 || word_values(split_commas(args), labels) is None
    } else if name == ".res"@ {
        args.len() == 0 || res_args(args) is None
    } else if name == ".sprite"@ {
        args.len() == 0 || sprite_args(args) is None
    } else {
        true
    }
}

/// The text after a statement's first space, untrimmed; `None` without a space.
pub open spec fn statement_rest_raw(s: Seq<char>) -> Option<Seq<char>> {
    let k = index_of(s, ' ');
    if k < s.len() {
        Some(s.subrange(k + 1, s.len() as int))
    } else {
        None
    }
}

/// Read the arguments of a `.res`: a size, and a fill byte that defaults to zero.
fn res_parts(args: &[char]) -> (r: Result<(u16, u8), AssembleError>)
    ensures
        match r {
            Ok((size, fill)) => res_args(args@) == Some((size, fill)),
            Err(e) => res_args(args@) is None && e is ParseError,
        },
{
    let (first, rest) = first_piece(args);
    let size_text = string_of(trim_chars(first));
    let size = match parse_value::<u16>(size_text.as_str()) {
        Ok(v) => v,
        Err(e) => return Err(AssembleError::ParseError(e)),
    };
    let fill = match rest {
        Some(r) => {
            let (second, _) = first_piece(r);
            let fill_text = string_of(trim_chars(second));
            match parse_value::<u8>(fill_text.as_str()) {
                Ok(v) => v,
                Err(e) => return Err(AssembleError::ParseError(e)),
            }
        },
        None => 0,
    };
    Ok((size, fill))
}

/// The first piece of `s` before a comma, and where the rest starts if there is a comma.
fn first_piece(s: &[char]) -> (r: (&[char], Option<&[char]>))
    ensures
        split_commas(s@) == (match r.1 {
            Some(rest) => seq![r.0@] + split_commas(rest@),
            None => seq![r.0@],
        }),
        r.1 matches Some(rest) ==> rest@.len() < s@.len(),
{
    let c = find_char(s, ',');
    proof {
        lemma_index_of(s@, ',');
    }
    if c < s.len() {
        (&s[0..c], Some(&s[c + 1..s.len()]))
    } else {
        (s, None)
    }
}

/// The first value of a `.word` list that reads neither as a number nor as a label.
pub open spec fn word_fault(pieces: Seq<Seq<char>>, labels: Map<Seq<char>, u16>) -> Option<Seq<char>>
    decreases pieces.len(),
{
    if pieces.len() == 0 {
        None
    } else {
        let v = trimmed(pieces[0]);
        if v.len() > 0 && word_value(v, labels) is None {
            Some(v)
        } else {
            word_fault(pieces.drop_first(), labels)
        }
    }
}

/// The kind of error a directive line that fails to read gives: a missing argument list is a
/// `DirectiveError`; so is an unknown directive and any fault in a `.sprite`. An unknown segment
/// is a `SegmentError`, a `.res` value that does not read a `ParseError`, and a `.word` value
/// that reads neither as a number nor as a label a `LabelError` naming it.
pub open spec fn directive_error(line: Seq<char>, labels: Map<Seq<char>, u16>, e: AssembleError) -> bool {
    let name = statement_word(line);
    let args = match statement_rest_raw(line) {
        Some(a) => a,
        None => seq![],
    };
    if name == ".segment"@ {
        if args.len() == 0 { e is DirectiveError } else { e is SegmentError }
    } else if name == ".byte"@ {
        args.len() == 0 ==> e is DirectiveError
    } else if name == ".word"@ {
        if args.len() == 0 {
            e is DirectiveError
        } else {
            (e matches AssembleError::LabelError(m) && m@ == "Invalid .word directive: "@ + word_fault(
                split_commas(args),
                labels,
            )->0)
        }
    } else if name == ".res"@ {
        if args.len() == 0 { e is DirectiveError } else { e is ParseError }
    } else {
        e is DirectiveError
    }
}

/// Read a `.word` list: numbers, or labels where a number does not read.
fn parse_words(args: &[char], labels: &Labels) -> (r: Result<Vec<u16>, AssembleError>)
    ensures
        match r {
            Ok(v) => word_values(split_commas(args@), labels@) == Some(v@),
            Err(e) => word_values(split_commas(args@), labels@) is None && word_fault(split_commas(args@), labels@) is Some
                && (e matches AssembleError::LabelError(m) && m@ == "Invalid .word directive: "@ + word_fault(
                split_commas(args@),
                labels@,
            )->0),
        },
    decreases args@.len(),
{
    let (piece, rest) = first_piece(args);
    let v = trim_chars(piece);
    let mut values: Vec<u16> = Vec::new();
    let ghost pieces = split_commas(args@);
    let ghost tail = match rest {
        Some(r) => split_commas(r@),
        None => Seq::<Seq<char>>::empty(),
    };
    assert(pieces.drop_first() =~= tail);
    if v.len() > 0 {
        let text = string_of(v);
        let value = match parse_value::<u16>(text.as_str()) {
            Ok(value) => value,
            Err(_) => match labels.lookup_chars(v) {
                Some(a) => a,
                None => {
                    let mut m = String::from_str("Invalid .word directive: ");
                    m.append(text.as_str());
                    return Err(AssembleError::LabelError(m));
                },
            },
        };
        values.push(value);
    }
    match rest {
        Some(r) => {
            let more = parse_words(r, labels)?;
            let mut k: usize = 0;
            let ghost before = values@;
            while k < more.len()
                invariant
                    k <= more@.len(),
                    values@ == before + more@.subrange(0, k as int),
                decreases more@.len() - k,
            {
                values.push(more[k]);
                assert(values@ =~= before + more@.subrange(0, k + 1));
                k += 1;
            }
            assert(more@.subrange(0, more@.len() as int) =~= more@);
            assert(word_values(pieces, labels@) == Some(values@));
            Ok(values)
        },
        None => {
            assert(word_values(tail, labels@) == Some(Seq::<u16>::empty()));
            assert(word_values(pieces, labels@) == Some(values@));
            Ok(values)
        },
    }
}

/// A decimal byte, as `str::parse::<u8>` reads it.
fn parse_decimal_byte(s: &[char]) -> (r: Option<u8>)
    ensures
        r == decimal_byte(s@),
{
    let text = string_of(s);
    match u8_from_str_radix(text.as_str(), 10) {
        Ok(v) => Some(v),
        Err(_) => None,
    }
}

/// One sprite pattern value: `%` binary, `$` hexadecimal, or decimal.
fn parse_pattern_byte(t: &[char]) -> (r: Option<u8>)
    ensures
        r == pattern_byte(t@),
{
    let (radix, digits): (u32, &[char]) = if starts_with(t, '%') {
        (2, &t[1..t.len()])
    } else if starts_with(t, '$') {
        (16, &t[1..t.len()])
    } else {
        (10, t)
    };
    if starts_with(t, '%') || starts_with(t, '$') {
        assert(digits@ =~= t@.drop_first());
    }
    let text = string_of(digits);
    match u8_from_str_radix(text.as_str(), radix) {
        Ok(v) => Some(v),
        Err(_) => None,
    }
}

/// The bytes of a sprite's pattern list.
fn parse_pattern(list: &[char]) -> (r: Option<Vec<u8>>)
    ensures
        match r {
            Some(v) => pattern_bytes(split_commas(list@)) == Some(v@),
            None => pattern_bytes(split_commas(list@)) is None,
        },
    decreases list@.len(),
{
    let (piece, rest) = first_piece(list);
    let t = trim_chars(piece);
    let mut values: Vec<u8> = Vec::new();
    let ghost pieces = split_commas(list@);
    let ghost tail = match rest {
        Some(r) => split_commas(r@),
        None => Seq::<Seq<char>>::empty(),
    };
    assert(pieces.drop_first() =~= tail);
    if t.len() > 0 {
        match parse_pattern_byte(t) {
            Some(b) => values.push(b),
            None => return None,
        }
    }
    match rest {
        Some(r) => {
            let more = parse_pattern(r)?;
            let mut k: usize = 0;
            let ghost before = values@;
            while k < more.len()
                invariant
                    k <= more@.len(),
                    values@ == before + more@.subrange(0, k as int),
                decreases more@.len() - k,
            {
                values.push(more[k]);
                assert(values@ =~= before + more@.subrange(0, k + 1));
                k += 1;
            }
            assert(more@.subrange(0, more@.len() as int) =~= more@);
            Some(values)
        },
        None => {
            assert(pattern_bytes(tail) == Some(Seq::<u8>::empty()));
            Some(values)
        },
    }
}

impl Assembler {
    /// Read a directive line without applying it: `None` when the line is no directive.
    pub fn parse_directive(&self, line: &[char], labels: &Labels) -> (r: Result<Option<Directive>, AssembleError>)
        ensures
            match r {
                Ok(d) => directive_read(line@, labels@, self.segments.spec_list(), d),
                Err(e) => directive_fails(line@, labels@, self.segments.spec_list()) && directive_error(line@, labels@, e),
            },
    {
        if !starts_with(line, '.') {
            return Ok(None);
        }
        let k = find_char(line, ' ');
        proof {
            lemma_index_of(line@, ' ');
        }
        let name = &line[0..k];
        let args: &[char] = if k < line.len() {
            &line[k + 1..line.len()]
        } else {
            &line[0..0]
        };
        assert(args@ == (match statement_rest_raw(line@) {
            Some(a) => a,
            None => seq![],
        }));
        if is_word(name, ".segment") {
            if args.len() == 0 {
                return Err(AssembleError::DirectiveError(String::from_str("Missing segment name")));
            }
            let segment = format_segment_name(args);
            if !self.segments.contains(segment) {
                return Err(AssembleError::SegmentError(message("Unknown segment: ", segment)));
            }
            return Ok(Some(Directive::Segment(string_of(segment))));
        }
        if is_word(name, ".byte") {
            if args.len() == 0 {
                return Err(AssembleError::DirectiveError(String::from_str("Missing byte values")));
            }
            let bytes = parse_comma_separated_byte_tokens(args)?;
            return Ok(Some(Directive::Byte(bytes)));
        }
        if is_word(name, ".word") {
            if args.len() == 0 {
                return Err(AssembleError::DirectiveError(String::from_str("Missing word values")));
            }
            let words = parse_words(args, labels)?;
            return Ok(Some(Directive::Word(words)));
        }
        if is_word(name, ".res") {
            if args.len() == 0 {
                return Err(AssembleError::DirectiveError(String::from_str("Missing size parameter")));
            }
            let (size, fill) = res_parts(args)?;
            return Ok(Some(Directive::Res(size, fill)));
        }
        if is_word(name, ".sprite") {
            return self.parse_sprite_directive(args);
        }
        Err(AssembleError::DirectiveError(message("Unknown directive: ", name)))
    }

    /// The bytes a data directive emits, as label collection counts them: the directive read as
    /// assembly reads it, its bytes counted; zero when it reads as no data directive.
    pub fn directive_size(&self, code: &[char]) -> (n: u16)
        ensures
            n == directive_size_of(code@),
    {
        let k = find_char(code, ' ');
        proof {
            lemma_index_of(code@, ' ');
        }
        let name = &code[0..k];
        let args: &[char] = if k < code.len() {
            &code[k + 1..code.len()]
        } else {
            &code[0..0]
        };
        assert(args@ == (match statement_rest_raw(code@) {
            Some(a) => a,
            None => seq![],
        }));
        if args.len() == 0 {
            return 0;
        }
        if is_word(name, ".byte") {
            match parse_comma_separated_byte_tokens(args) {
                Ok(b) => (b.len() % 65536) as u16,
                Err(_) => 0,
            }
        } else if is_word(name, ".word") {
            let count = filled_len(args);
            proof {
                vstd::arithmetic::div_mod::lemma_mul_mod_noop_left(filled_count(split_commas(args@)) as int, 2, 65536);
            }
            ((count * 2) % 65536) as u16
        } else if is_word(name, ".res") {
            match res_parts(args) {
                Ok((size, _)) => size,
                Err(_) => 0,
            }
        } else if is_word(name, ".sprite") {
            match self.parse_sprite_directive(args) {
                Ok(Some(Directive::Sprite(_, _, p))) => (p.len() % 65536) as u16,
                _ => 0,
            }
        } else {
            0
        }
    }

    /// Read the arguments of a `.sprite`.
    fn parse_sprite_directive(&self, args: &[char]) -> (r: Result<Option<Directive>, AssembleError>)
        ensures
            match r {
                Ok(Some(Directive::Sprite(w, h, p))) => args@.len() > 0 && sprite_args(args@) == Some((w, h, p@)),
                Ok(_) => false,
                Err(e) => (args@.len() == 0 || sprite_args(args@) is None) && e is DirectiveError,
            },
    {
        if args.len() == 0 {
            return Err(AssembleError::DirectiveError(String::from_str("Missing sprite parameters")));
        }
        let c0 = find_char(args, ',');
        proof {
            lemma_index_of(args@, ',');
        }
        let width_text = trim_chars(&args[0..c0]);
        let width = match parse_decimal_byte(width_text) {
            Some(w) => w,
            None => return Err(AssembleError::DirectiveError(message("Invalid width: ", width_text))),
        };
        if c0 >= args.len() {
            return Err(AssembleError::DirectiveError(String::from_str("Missing height parameter")));
        }
        let after = &args[c0 + 1..args.len()];
        let c1 = find_char(after, ',');
        proof {
            lemma_index_of(after@, ',');
        }
        let height_text = trim_chars(&after[0..c1]);
        let height = match parse_decimal_byte(height_text) {
            Some(h) => h,
            None => return Err(AssembleError::DirectiveError(message("Invalid height: ", height_text))),
        };
        if c1 >= after.len() {
            return Err(AssembleError::DirectiveError(String::from_str("Missing pattern data")));
        }
        let pattern = match parse_pattern(&after[c1 + 1..after.len()]) {
            Some(p) => p,
            None => {
                return Err(AssembleError::DirectiveError(String::from_str("Invalid pattern value")));
            },
        };
        assert(width as int * height as int <= 65025) by (nonlinear_arith)
            requires
                width <= 255,
                height <= 255,
        ;
        let expected: usize = width as usize * height as usize * 16;
        if pattern.len() != expected {
            let mut m = String::from_str("Incorrect pattern data size: expected ");
            push_decimal(&mut m, expected);
            m.append(" bytes, got ");
            push_decimal(&mut m, pattern.len());
            m.append(" bytes");
            return Err(AssembleError::DirectiveError(m));
        }
        Ok(Some(Directive::Sprite(width, height, pattern)))
    }

    /// Apply a directive: select (creating if need be) a segment, or emit its bytes into the
    /// selected segment, if there is one.
    pub fn apply_directive(&mut self, directive: &Directive) -> (r: Result<(), AssembleError>)
        ensures
            r is Ok,
            final(self).load_address == old(self).load_address,
            match directive {
                Directive::Segment(name) => {
                    let n = segment_name(name@);
                    &&& final(self).segments.spec_current() == Some(n)
                    &&& final(self).segments.spec_list() == (if segment_position(old(self).segments.spec_list(), n)
                        < old(self).segments.spec_list().len() {
                        old(self).segments.spec_list()
                    } else {
                        segments_after_add(old(self).segments.spec_list(), n, old(self).load_address)
                    })
                },
                _ => final(self).segments.spec_current() == old(self).segments.spec_current()
                    && final(self).segments.spec_list() == emitted(old(self).segments.spec_list(), old(self).segments.spec_current(), directive_bytes(*directive)),
            },
    {
        match directive {
            Directive::Segment(name) => {
                let chars = chars_of(name.as_str());
                let n = format_segment_name(chars.as_slice());
                if !self.segments.contains(n) {
                    self.segments.add_chars(n, self.load_address);
                }
                self.segments.select(n);
            },
            _ => {
                let bytes = directive_data(directive);
                let _count = self.segments.len();
                proof {
                    super::segments::lemma_segment_position(self.segments.spec_list(), self.segments.spec_current()->0);
                }
                if let Some(i) = self.segments.current_index() {
                    self.segments.extend_at(i, bytes.as_slice());
                }
            },
        }
        Ok(())
    }
}

/// The segments after bytes are emitted into the selected segment; unchanged when none is
/// selected or the selected one does not exist.
pub open spec fn emitted(segments: Seq<SegmentView>, current: Option<Seq<char>>, bytes: Seq<u8>) -> Seq<SegmentView> {
    match current {
        Some(name) => {
            let p = segment_position(segments, name);
            if p < segments.len() {
                segments.update(p, (segments[p].0, segments[p].1, segments[p].2 + bytes))
            } else {
                segments
            }
        },
        None => segments,
    }
}

/// The bytes a directive emits.
fn directive_data(directive: &Directive) -> (b: Vec<u8>)
    ensures
        b@ == directive_bytes(*directive),
{
    match directive {
        Directive::Segment(_) => Vec::new(),
        Directive::Byte(v) => {
            let mut b: Vec<u8> = Vec::new();
            super::segments::extend_bytes(&mut b, v.as_slice());
            assert(b@ =~= v@);
            b
        },
        Directive::Word(ws) => {
            let mut b: Vec<u8> = Vec::new();
            let mut i: usize = 0;
            while i < ws.len()
                invariant
                    i <= ws@.len(),
                    b@ == words_le(ws@.subrange(0, i as int)),
                decreases ws@.len() - i,
            {
                let w = ws[i];
                b.push((w & 0xFF) as u8);
                b.push((w >> 8) as u8);
                proof {
                    crate::memory::lemma_word_bytes(w);
                }
                assert(ws@.subrange(0, i + 1).drop_last() =~= ws@.subrange(0, i as int));
                assert(b@ =~= words_le(ws@.subrange(0, i + 1)));
                i += 1;
            }
            assert(ws@.subrange(0, ws@.len() as int) =~= ws@);
            b
        },
        Directive::Res(size, fill) => {
            let mut b: Vec<u8> = Vec::new();
            let mut i: u16 = 0;
            while i < *size
                invariant
                    i <= *size,
                    b@ == Seq::new(i as nat, |k: int| *fill),
                decreases *size - i,
            {
                b.push(*fill);
                assert(b@ =~= Seq::new((i + 1) as nat, |k: int| *fill));
                i += 1;
            }
            b
        },
        Directive::Sprite(_, _, p) => {
            let mut b: Vec<u8> = Vec::new();
            super::segments::extend_bytes(&mut b, p.as_slice());
            assert(b@ =~= p@);
            b
        },
    }
}

} // verus!
