//! Text as the assembler reads it: sequences of characters, searched, split and trimmed, each
//! operation stated over the character sequence it works on.
use vstd::prelude::*;

use vstd::std_specs::iter::IteratorSpec;

use crate::helpers::parse::{is_white_space, trim_end, trim_start, trimmed};

verus! {

broadcast use vstd::string::group_string_axioms;

/// The index of the first `c` in `s`, or `s.len()` when there is none.
pub open spec fn index_of(s: Seq<char>, c: char) -> int
    decreases s.len(),
{
    if s.len() == 0 {
        0
    } else if s[0] == c {
        0
    } else {
        1 + index_of(s.drop_first(), c)
    }
}

/// The index of the first `a` directly followed by `b` in `s`, or `s.len()` when there is none.
pub open spec fn index_of_pair(s: Seq<char>, a: char, b: char) -> int
    decreases s.len(),
{
    if s.len() < 2 {
        s.len() as int
    } else if s[0] == a && s[1] == b {
        0
    } else {
        1 + index_of_pair(s.drop_first(), a, b)
    }
}

/// What `index_of` says: the index is in range, every character before it differs from `c`,
/// and the character at it is `c` unless it is the end.
pub proof fn lemma_index_of(s: Seq<char>, c: char)
    ensures
        0 <= index_of(s, c) <= s.len(),
        forall|j: int| 0 <= j < index_of(s, c) ==> s[j] != c,
        index_of(s, c) < s.len() ==> s[index_of(s, c)] == c,
    decreases s.len(),
{
    if s.len() > 0 && s[0] != c {
        lemma_index_of(s.drop_first(), c);
        assert forall|j: int| 0 <= j < index_of(s, c) implies s[j] != c by {
            if j > 0 {
                assert(s[j] == s.drop_first()[j - 1]);
            }
        }
    }
}

/// What `index_of_pair` says: the index is in range, no earlier position starts the pair, and
/// the pair stands at it unless it is the end.
pub proof fn lemma_index_of_pair(s: Seq<char>, a: char, b: char)
    ensures
        0 <= index_of_pair(s, a, b) <= s.len(),
        forall|j: int| 0 <= j < index_of_pair(s, a, b) && j + 1 < s.len() ==> !(#[trigger] s[j] == a && s[j + 1] == b),
        index_of_pair(s, a, b) < s.len() ==> index_of_pair(s, a, b) + 1 < s.len() && s[index_of_pair(s, a, b)]
            == a && s[index_of_pair(s, a, b) + 1] == b,
    decreases s.len(),
{
    if s.len() >= 2 && !(s[0] == a && s[1] == b) {
        lemma_index_of_pair(s.drop_first(), a, b);
        assert forall|j: int| 0 <= j < index_of_pair(s, a, b) && j + 1 < s.len() implies !(#[trigger] s[j] == a
            && s[j + 1] == b) by {
            if j > 0 {
                assert(s[j] == s.drop_first()[j - 1]);
                assert(s[j + 1] == s.drop_first()[j]);
            }
        }
    }
}

/// `String::push`: its documentation says it appends the character to the end of the string.
#[verifier::external_body]
pub(crate) fn push_char(s: &mut String, c: char)
    ensures
        final(s)@ == old(s)@.push(c),
{
    s.push(c);
}

/// The characters of a string slice.
pub fn chars_of(s: &str) -> (v: Vec<char>)
    ensures
        v@ == s@,
{
    let mut v: Vec<char> = Vec::new();
    for c in iter: s.chars()
        invariant
            iter.seq() == s@,
            v@ == s@.take(iter.index() as int),
    {
        v.push(c);
    }
    assert(v@ =~= s@);
    v
}

/// A string holding exactly the given characters.
pub fn string_of(s: &[char]) -> (r: String)
    ensures
        r@ == s@,
{
    let mut r = String::new();
    let mut i: usize = 0;
    while i < s.len()
        invariant
            i <= s@.len(),
            r@ == s@.subrange(0, i as int),
        decreases s@.len() - i,
    {
        push_char(&mut r, s[i]);
        assert(r@ =~= s@.subrange(0, i + 1));
        i += 1;
    }
    assert(r@ =~= s@);
    r
}

/// Append the characters of `t`.
pub fn push_text(s: &mut String, t: &str)
    ensures
        final(s)@ == old(s)@ + t@,
{
    let chars = chars_of(t);
    let mut i: usize = 0;
    while i < chars.len()
        invariant
            i <= chars@.len(),
            chars@ == t@,
            s@ == old(s)@ + t@.subrange(0, i as int),
        decreases chars@.len() - i,
    {
        push_char(s, chars[i]);
        assert(s@ =~= old(s)@ + t@.subrange(0, i + 1));
        i += 1;
    }
    assert(t@.subrange(0, t@.len() as int) =~= t@);
}

/// Whether a character is white space in the sense of `is_white_space`.
pub fn is_space(c: char) -> (b: bool)
    ensures
        b == is_white_space(c),
{
    let n = c as u32;
    (0x09 <= n && n <= 0x0D) || n == 0x20 || n == 0x85 || n == 0xA0 || n == 0x1680 || (0x2000 <= n && n
        <= 0x200A) || n == 0x2028 || n == 0x2029 || n == 0x202F || n == 0x205F || n == 0x3000
}

/// `s` without white space at either end.
pub fn trim_chars(s: &[char]) -> (r: &[char])
    ensures
        r@ == trimmed(s@),
{
    let len = s.len();
    let mut start: usize = 0;
    assert(s@.subrange(0, len as int) =~= s@);
    while start < len && is_space(s[start])
        invariant
            start <= len,
            len == s@.len(),
            trim_start(s@) == trim_start(s@.subrange(start as int, len as int)),
        decreases len - start,
    {
        assert(s@.subrange(start as int, len as int).drop_first() =~= s@.subrange(start + 1, len as int));
        start += 1;
    }
    assert(trim_start(s@.subrange(start as int, len as int)) == s@.subrange(start as int, len as int));
    let mut end: usize = len;
    while end > start && is_space(s[end - 1])
        invariant
            start <= end <= len,
            len == s@.len(),
            trim_start(s@) == s@.subrange(start as int, len as int),
            trimmed(s@) == trim_end(s@.subrange(start as int, end as int)),
        decreases end,
    {
        assert(s@.subrange(start as int, end as int).drop_last() =~= s@.subrange(start as int, end - 1));
        end -= 1;
    }
    assert(trim_end(s@.subrange(start as int, end as int)) == s@.subrange(start as int, end as int));
    &s[start..end]
}

/// The index of the first `c` in `s`, or its length.
pub fn find_char(s: &[char], c: char) -> (i: usize)
    ensures
        i == index_of(s@, c),
{
    let mut i: usize = 0;
    assert(s@.subrange(0, s@.len() as int) =~= s@);
    while i < s.len() && s[i] != c
        invariant
            i <= s@.len(),
            index_of(s@, c) == i + index_of(s@.subrange(i as int, s@.len() as int), c),
        decreases s@.len() - i,
    {
        assert(s@.subrange(i as int, s@.len() as int).drop_first() =~= s@.subrange(i + 1, s@.len() as int));
        i += 1;
    }
    i
}

/// The index of the first `a` directly followed by `b` in `s`, or its length.
pub fn find_pair(s: &[char], a: char, b: char) -> (i: usize)
    ensures
        i == index_of_pair(s@, a, b),
{
    let len = s.len();
    let mut i: usize = 0;
    assert(s@.subrange(0, len as int) =~= s@);
    while i < len && i + 1 < len && !(s[i] == a && s[i + 1] == b)
        invariant
            i <= len,
            len == s@.len(),
            index_of_pair(s@, a, b) == i + index_of_pair(s@.subrange(i as int, len as int), a, b),
        decreases len - i,
    {
        assert(s@.subrange(i as int, len as int).drop_first() =~= s@.subrange(i + 1, len as int));
        i += 1;
    }
    if i < len && i + 1 < len {
        i
    } else {
        len
    }
}


/// How many bytes UTF-8 spends on a character.
pub open spec fn char_utf8_len(c: char) -> nat {
    let n = c as u32;
    if n < 0x80 {
        1
    } else if n < 0x800 {
        2
    } else if n < 0x10000 {
        3
    } else {
        4
    }
}

/// How many bytes a string of these characters takes in UTF-8, which is what `str::len` counts.
pub open spec fn utf8_length(s: Seq<char>) -> nat
    decreases s.len(),
{
    if s.len() == 0 {
        0
    } else {
        utf8_length(s.drop_last()) + char_utf8_len(s.last())
    }
}

/// Every character takes at least one byte and at most four.
pub proof fn lemma_utf8_length_bounds(s: Seq<char>)
    ensures
        s.len() <= utf8_length(s) <= 4 * s.len(),
    decreases s.len(),
{
    if s.len() > 0 {
        lemma_utf8_length_bounds(s.drop_last());
    }
}

/// The UTF-8 length of a short run of characters.
pub fn utf8_len(s: &[char]) -> (n: usize)
    requires
        s@.len() <= 1024,
    ensures
        n == utf8_length(s@),
{
    let mut n: usize = 0;
    let mut i: usize = 0;
    while i < s.len()
        invariant
            i <= s@.len() <= 1024,
            n == utf8_length(s@.subrange(0, i as int)),
            n <= 4 * i,
        decreases s@.len() - i,
    {
        let c = s[i] as u32;
        let w: usize = if c < 0x80 {
            1
        } else if c < 0x800 {
            2
        } else if c < 0x10000 {
            3
        } else {
            4
        };
        assert(s@.subrange(0, i + 1).drop_last() =~= s@.subrange(0, i as int));
        n = n + w;
        i += 1;
    }
    assert(s@.subrange(0, s@.len() as int) =~= s@);
    n
}


/// The character for a hexadecimal digit, `0`-`9` then `A`-`F`.
pub open spec fn hex_char(d: nat) -> char {
    if d < 10 {
        (48 + d) as char
    } else {
        (55 + d) as char
    }
}

/// `n` in hexadecimal, capitals, no leading zeros (a lone `0` for zero).
pub open spec fn hex_digits(n: nat) -> Seq<char>
    decreases n,
{
    if n < 16 {
        seq![hex_char(n)]
    } else {
        hex_digits(n / 16).push(hex_char(n % 16))
    }
}

/// `n` in decimal, no leading zeros.
pub open spec fn decimal_digits(n: nat) -> Seq<char>
    decreases n,
{
    if n < 10 {
        seq![(48 + n) as char]
    } else {
        decimal_digits(n / 10).push((48 + n % 10) as char)
    }
}

/// The character for a hexadecimal digit.
pub fn hex_digit(d: u8) -> (c: char)
    requires
        d < 16,
    ensures
        c == hex_char(d as nat),
{
    if d < 10 {
        (48 + d) as char
    } else {
        (55 + d) as char
    }
}

/// Append `n` in hexadecimal, capitals, no leading zeros.
pub fn push_hex(s: &mut String, n: usize)
    ensures
        final(s)@ == old(s)@ + hex_digits(n as nat),
    decreases n,
{
    if n >= 16 {
        push_hex(s, n / 16);
    }
    push_char(s, hex_digit((n % 16) as u8));
    assert(hex_digits(n as nat) == (if n < 16 { seq![hex_char(n as nat)] } else { hex_digits((n / 16) as nat).push(hex_char((n % 16) as nat)) }));
}

/// Append `n` in decimal, no leading zeros.
pub fn push_decimal(s: &mut String, n: usize)
    ensures
        final(s)@ == old(s)@ + decimal_digits(n as nat),
    decreases n,
{
    if n >= 10 {
        push_decimal(s, n / 10);
    }
    let d = (n % 10) as u8;
    push_char(s, (48 + d) as char);
}

/// Append a byte as two hexadecimal digits.
pub fn push_hex_byte(s: &mut String, b: u8)
    ensures
        final(s)@ == old(s)@ + seq![hex_char((b / 16) as nat), hex_char((b % 16) as nat)],
{
    push_char(s, hex_digit(b / 16));
    push_char(s, hex_digit(b % 16));
}


/// `trim_start` keeps a suffix of the text.
pub proof fn lemma_trim_start_suffix(s: Seq<char>)
    ensures
        trim_start(s).len() <= s.len(),
        trim_start(s) == s.subrange(s.len() - trim_start(s).len(), s.len() as int),
        trim_start(s).len() > 0 ==> !is_white_space(trim_start(s)[0]),
        trim_start(trim_start(s)) == trim_start(s),
    decreases s.len(),
{
    if s.len() > 0 && is_white_space(s[0]) {
        lemma_trim_start_suffix(s.drop_first());
        assert(s.drop_first().subrange(
            s.drop_first().len() - trim_start(s.drop_first()).len(),
            s.drop_first().len() as int,
        ) =~= s.subrange(s.len() - trim_start(s).len(), s.len() as int));
    } else {
        assert(s.subrange(0, s.len() as int) =~= s);
    }
}

/// `s` without the white space it starts with.
pub fn trim_start_chars(s: &[char]) -> (r: &[char])
    ensures
        r@ == trim_start(s@),
{
    let len = s.len();
    let mut start: usize = 0;
    assert(s@.subrange(0, len as int) =~= s@);
    while start < len && is_space(s[start])
        invariant
            start <= len,
            len == s@.len(),
            trim_start(s@) == trim_start(s@.subrange(start as int, len as int)),
        decreases len - start,
    {
        assert(s@.subrange(start as int, len as int).drop_first() =~= s@.subrange(start + 1, len as int));
        start += 1;
    }
    assert(trim_start(s@.subrange(start as int, len as int)) == s@.subrange(start as int, len as int));
    &s[start..len]
}

/// `s` without the copies of `c` at either end.
pub open spec fn strip_char(s: Seq<char>, c: char) -> Seq<char>
    decreases s.len(),
{
    if s.len() > 0 && s[0] == c {
        strip_char(s.drop_first(), c)
    } else if s.len() > 0 && s.last() == c {
        strip_char(s.drop_last(), c)
    } else {
        s
    }
}

/// `s` without the copies of `c` at either end, as `str::trim_matches` removes them.
pub fn strip_chars(s: &[char], c: char) -> (r: &[char])
    ensures
        r@ == strip_char(s@, c),
{
    let mut start: usize = 0;
    let mut end: usize = s.len();
    assert(s@.subrange(0, s@.len() as int) =~= s@);
    while start < end && (s[start] == c || s[end - 1] == c)
        invariant
            start <= end <= s@.len(),
            strip_char(s@, c) == strip_char(s@.subrange(start as int, end as int), c),
        decreases end - start,
    {
        let ghost t = s@.subrange(start as int, end as int);
        if s[start] == c {
            assert(t.drop_first() =~= s@.subrange(start + 1, end as int));
            start += 1;
        } else {
            assert(t.drop_last() =~= s@.subrange(start as int, end - 1));
            end -= 1;
        }
    }
    &s[start..end]
}

/// The pieces of `s` between commas, as `str::split(',')` gives them.
pub open spec fn split_commas(s: Seq<char>) -> Seq<Seq<char>>
    decreases s.len(),
{
    let c = index_of(s, ',');
    if c < s.len() {
        proof {
            lemma_index_of(s, ',');
        }
        seq![s.subrange(0, c)] + split_commas(s.subrange(c + 1, s.len() as int))
    } else {
        seq![s]
    }
}

} // verus!
