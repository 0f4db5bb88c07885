//! Operand numbers as an assembler writes them: `$` hexadecimal, `%` binary or plain decimal,
//! optionally behind the `#` of immediate addressing.
use vstd::prelude::*;

use std::num::ParseIntError;

use super::errors::ParseError;

verus! {

/// The error `from_str_radix` reports; only whether there was one matters here.
#[verifier::external_type_specification]
#[verifier::external_body]
pub struct ExParseIntError(ParseIntError);

/// Whether `c` has the Unicode `White_Space` property: the characters `str::trim` removes.
pub open spec fn is_white_space(c: char) -> bool {
    let n = c as u32;
    ||| 0x09 <= n <= 0x0D
    ||| n == 0x20 || n == 0x85 || n == 0xA0 || n == 0x1680
    ||| 0x2000 <= n <= 0x200A
    ||| n == 0x2028 || n == 0x2029 || n == 0x202F || n == 0x205F || n == 0x3000
}

/// `s` without the white space it starts with.
pub open spec fn trim_start(s: Seq<char>) -> Seq<char>
    decreases s.len(),
{
    if s.len() > 0 && is_white_space(s[0]) {
        trim_start(s.drop_first())
    } else {
        s
    }
}

/// `s` without the white space it ends with.
pub open spec fn trim_end(s: Seq<char>) -> Seq<char>
    decreases s.len(),
{
    if s.len() > 0 && is_white_space(s.last()) {
        trim_end(s.drop_last())
    } else {
        s
    }
}

/// `s` without white space at either end.
pub open spec fn trimmed(s: Seq<char>) -> Seq<char> {
    trim_end(trim_start(s))
}

/// The value of a digit in bases up to 36: `0`-`9`, then `a`-`z` or `A`-`Z` from ten. Any other
/// character is worth 36, a digit in no base.
pub open spec fn digit_value(c: char) -> nat {
    let n = c as u32;
    if 0x30 <= n <= 0x39 {
        (n - 0x30) as nat
    } else if 0x61 <= n <= 0x7A {
        (n - 0x61 + 10) as nat
    } else if 0x41 <= n <= 0x5A {
        (n - 0x41 + 10) as nat
    } else {
        36
    }
}

/// The number the digits of `s` spell in `radix`, most significant first; `None` if one of them
/// is not a digit of that base.
pub open spec fn digits_value(s: Seq<char>, radix: nat) -> Option<nat>
    decreases s.len(),
{
    if s.len() == 0 {
        Some(0)
    } else {
        match digits_value(s.drop_last(), radix) {
            Some(v) => if digit_value(s.last()) < radix {
                Some(v * radix + digit_value(s.last()))
            } else {
                None
            },
            None => None,
        }
    }
}

/// The number `s` spells as an optional `+` followed by at least one digit of `radix`.
pub open spec fn text_value(s: Seq<char>, radix: nat) -> Option<nat> {
    let digits = if s.len() > 0 && s[0] == '+' { s.drop_first() } else { s };
    if digits.len() == 0 {
        None
    } else {
        digits_value(digits, radix)
    }
}

/// What is left of an operand once a leading `#` and the white space around it are gone.
pub open spec fn operand_text(input: Seq<char>) -> Seq<char> {
    trimmed(if input.len() > 0 && input[0] == '#' { input.drop_first() } else { input })
}

/// The number an operand spells: `$` then hexadecimal, `%` then binary, or decimal.
pub open spec fn operand_number(input: Seq<char>) -> Option<nat> {
    let t = operand_text(input);
    if t.len() > 0 && t[0] == '$' {
        text_value(t.drop_first(), 16)
    } else if t.len() > 0 && t[0] == '%' {
        text_value(t.drop_first(), 2)
    } else {
        text_value(t, 10)
    }
}

/// Whether an operand spells a number no larger than `max`.
pub open spec fn operand_fits(input: Seq<char>, max: nat) -> bool {
    operand_number(input) is Some && operand_number(input)->0 <= max
}

/// The message for an operand that does not spell a number of the type named `kind_name`.
pub open spec fn operand_error(input: Seq<char>, kind_name: Seq<char>) -> Seq<char> {
    let t = operand_text(input);
    if t.len() > 0 && t[0] == '$' {
        "Invalid hex "@ + kind_name + " value: $"@ + t.drop_first()
    } else if t.len() > 0 && t[0] == '%' {
        "Invalid binary "@ + kind_name + " value: %"@ + t.drop_first()
    } else {
        "Invalid decimal "@ + kind_name + " value: "@ + t
    }
}

/// Integer types that read their digits in a given base.
pub trait FromStrRadix: Sized {
    /// The largest value of the type.
    spec fn max_value() -> nat;

    /// The value of the type that stands for `n`, for `n` up to `max_value()`.
    spec fn from_nat(n: nat) -> Self;

    /// Read `s` as an optional `+` followed by digits of `radix`.
    fn from_str_radix(s: &str, radix: u32) -> (r: Result<Self, ParseIntError>)
        requires
            2 <= radix <= 36,
        ensures
            match r {
                Ok(v) => text_value(s@, radix as nat) is Some && text_value(s@, radix as nat)->0
                    <= Self::max_value() && v == Self::from_nat(text_value(s@, radix as nat)->0),
                Err(_) => !(text_value(s@, radix as nat) is Some && text_value(s@, radix as nat)->0
                    <= Self::max_value()),
            },
    ;
}

/// `u8::from_str_radix`. Its documentation: an optional `+` followed by one or more digits of
/// `radix` (`0-9`, `a-z`, `A-Z`), anything else an error, as is a value above 255; it panics
/// for a radix outside 2 to 36. The contract states exactly that.
#[verifier::external_body]
pub(crate) fn u8_from_str_radix(s: &str, radix: u32) -> (r: Result<u8, ParseIntError>)
    requires
        2 <= radix <= 36,
    ensures
        match r {
            Ok(v) => text_value(s@, radix as nat) == Some(v as nat),
            Err(_) => !(text_value(s@, radix as nat) is Some && text_value(s@, radix as nat)->0 <= 255),
        },
{
    u8::from_str_radix(s, radix)
}

/// `u16::from_str_radix`, with the same documented rules as for `u8` and a limit of 65535.
#[verifier::external_body]
pub(crate) fn u16_from_str_radix(s: &str, radix: u32) -> (r: Result<u16, ParseIntError>)
    requires
        2 <= radix <= 36,
    ensures
        match r {
            Ok(v) => text_value(s@, radix as nat) == Some(v as nat),
            Err(_) => !(text_value(s@, radix as nat) is Some && text_value(s@, radix as nat)->0 <= 65535),
        },
{
    u16::from_str_radix(s, radix)
}

impl FromStrRadix for u8 {
    open spec fn max_value() -> nat {
        255
    }

    open spec fn from_nat(n: nat) -> u8 {
        n as u8
    }

    fn from_str_radix(s: &str, radix: u32) -> (r: Result<u8, ParseIntError>) {
        u8_from_str_radix(s, radix)
    }
}

impl FromStrRadix for u16 {
    open spec fn max_value() -> nat {
        65535
    }

    open spec fn from_nat(n: nat) -> u16 {
        n as u16
    }

    fn from_str_radix(s: &str, radix: u32) -> (r: Result<u16, ParseIntError>) {
        u16_from_str_radix(s, radix)
    }
}

/// Operand types: a byte or a word, read from any of the assembler's notations.
pub trait ParseOperand: Sized {
    /// The largest value the type holds.
    spec fn max_operand() -> nat;

    /// The value of the type that stands for `n`, for `n` up to `max_operand()`.
    spec fn operand_from(n: nat) -> Self;

    /// The type's name in messages.
    spec fn spec_kind_name() -> Seq<char>;

    /// Read an operand: `#` is skipped, surrounding white space ignored, and the number is read
    /// in hexadecimal after `$`, in binary after `%`, and in decimal otherwise. A number that
    /// does not fit is refused like any other malformed text.
    fn parse_operand(input: &str) -> (r: Result<Self, ParseError>)
        ensures
            match r {
                Ok(v) => operand_fits(input@, Self::max_operand()) && v == Self::operand_from(
                    operand_number(input@)->0,
                ),
                Err(e) => !operand_fits(input@, Self::max_operand()) && (e matches ParseError::InvalidFormat(m)
                    && m@ == operand_error(input@, Self::spec_kind_name())),
            },
    ;

    /// The type's name in messages.
    fn kind_name() -> (s: &'static str)
        ensures
            s@ == Self::spec_kind_name(),
    ;
}

/// Whether a character is white space in the sense of `is_white_space`.
fn is_white_space_char(c: char) -> (b: bool)
    ensures
        b == is_white_space(c),
{
    let n = c as u32;
    (0x09 <= n && n <= 0x0D) || n == 0x20 || n == 0x85 || n == 0xA0 || n == 0x1680 || (0x2000 <= n && n
        <= 0x200A) || n == 0x2028 || n == 0x2029 || n == 0x202F || n == 0x205F || n == 0x3000
}

/// `s` without white space at either end.
pub fn trim(s: &str) -> (r: &str)
    ensures
        r@ == trimmed(s@),
{
    let len = s.unicode_len();
    let mut start: usize = 0;
    assert(s@.subrange(0, len as int) =~= s@);
    while start < len && is_white_space_char(s.get_char(start))
        invariant
            start <= len,
            len == s@.len(),
            trim_start(s@) == trim_start(s@.subrange(start as int, len as int)),
        decreases len - start,
    {
        assert(s@.subrange(start as int, len as int).drop_first() =~= s@.subrange(start + 1, len as int));
        start += 1;
    }
    assert(trim_start(s@.subrange(start as int, len as int)) == s@.subrange(start as int, len as int));
    let mut end: usize = len;
    while end > start && is_white_space_char(s.get_char(end - 1))
        invariant
            start <= end <= len,
            len == s@.len(),
            trim_start(s@) == s@.subrange(start as int, len as int),
            trimmed(s@) == trim_end(s@.subrange(start as int, end as int)),
        decreases end,
    {
        assert(s@.subrange(start as int, end as int).drop_last() =~= s@.subrange(start as int, end - 1));
        end -= 1;
    }
    assert(trim_end(s@.subrange(start as int, end as int)) == s@.subrange(start as int, end as int));
    s.substring_char(start, end)
}

/// The message for text that is not a number: the notation, the type's name, and the text.
fn invalid(notation: &str, kind_name: &str, sign: &str, text: &str) -> (m: String)
    ensures
        m@ == notation@ + kind_name@ + sign@ + text@,
{
    let mut m = String::from_str(notation);
    m.append(kind_name);
    m.append(sign);
    m.append(text);
    m
}

/// Read an operand of any type that reads its digits in a given base.
fn parse_numeric_value<T: FromStrRadix>(input: &str, kind_name: &str) -> (r: Result<T, ParseError>)
    ensures
        match r {
            Ok(v) => operand_fits(input@, T::max_value()) && v == T::from_nat(operand_number(input@)->0),
            Err(e) => !operand_fits(input@, T::max_value()) && (e matches ParseError::InvalidFormat(m) && m@
                == operand_error(input@, kind_name@)),
        },
{
    let len = input.unicode_len();
    let body = if len > 0 && input.get_char(0) == '#' {
        input.substring_char(1, len)
    } else {
        input
    };
    assert(body@ == (if input@.len() > 0 && input@[0] == '#' { input@.drop_first() } else { input@ }));
    let text = trim(body);
    let tlen = text.unicode_len();
    if tlen > 0 && text.get_char(0) == '$' {
        let hex = text.substring_char(1, tlen);
        assert(hex@ == text@.drop_first());
        match T::from_str_radix(hex, 16) {
            Ok(v) => Ok(v),
            Err(_) => Err(ParseError::InvalidFormat(invalid("Invalid hex ", kind_name, " value: $", hex))),
        }
    } else if tlen > 0 && text.get_char(0) == '%' {
        let bin = text.substring_char(1, tlen);
        assert(bin@ == text@.drop_first());
        match T::from_str_radix(bin, 2) {
            Ok(v) => Ok(v),
            Err(_) => Err(ParseError::InvalidFormat(invalid("Invalid binary ", kind_name, " value: %", bin))),
        }
    } else {
        match T::from_str_radix(text, 10) {
            Ok(v) => Ok(v),
            Err(_) => Err(ParseError::InvalidFormat(invalid("Invalid decimal ", kind_name, " value: ", text))),
        }
    }
}

impl ParseOperand for u8 {
    open spec fn max_operand() -> nat {
        255
    }

    open spec fn operand_from(n: nat) -> u8 {
        n as u8
    }

    open spec fn spec_kind_name() -> Seq<char> {
        "byte"@
    }

    fn parse_operand(input: &str) -> (r: Result<u8, ParseError>) {
        parse_numeric_value::<u8>(input, Self::kind_name())
    }

    fn kind_name() -> (s: &'static str) {
        "byte"
    }
}

impl ParseOperand for u16 {
    open spec fn max_operand() -> nat {
        65535
    }

    open spec fn operand_from(n: nat) -> u16 {
        n as u16
    }

    open spec fn spec_kind_name() -> Seq<char> {
        "word"@
    }

    fn parse_operand(input: &str) -> (r: Result<u16, ParseError>) {
        parse_numeric_value::<u16>(input, Self::kind_name())
    }

    fn kind_name() -> (s: &'static str) {
        "word"
    }
}

/// Read an operand of type `T`: `$` hexadecimal, `%` binary or decimal, with an optional `#`.
pub fn parse_value<T: ParseOperand>(input: &str) -> (r: Result<T, ParseError>)
    ensures
        match r {
            Ok(v) => operand_fits(input@, T::max_operand()) && v == T::operand_from(operand_number(input@)->0),
            Err(e) => !operand_fits(input@, T::max_operand()) && (e matches ParseError::InvalidFormat(m) && m@
                == operand_error(input@, T::spec_kind_name())),
        },
{
    T::parse_operand(input)
}

} // verus!
