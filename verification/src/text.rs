//! Text: decimal numbers, and the quoted forms in which a message shows what was received.
use bytes::Bytes;
use vstd::prelude::*;
use vstd::string::*;
use vstd::utf8::*;

use crate::buffers::contents;

verus! {

/// The decimal digit of `d`.
pub open spec fn digit(d: int) -> char {
    (48 + d) as char
}

/// The decimal digits of `n`, without leading zeros.
pub open spec fn digits(n: nat) -> Seq<char>
    decreases n,
{
    if n < 10 {
        seq![digit(n as int)]
    } else {
        digits(n / 10).push(digit((n % 10) as int))
    }
}

/// The decimal form of `n`.
pub open spec fn decimal(n: int) -> Seq<char> {
    if n < 0 {
        seq!['-'] + digits((-n) as nat)
    } else {
        digits(n as nat)
    }
}

/// Whether `c` is one of the ten ASCII digits.
pub open spec fn is_digit(c: char) -> bool {
    '0' <= c <= '9'
}

/// The number that a sequence of digits stands for.
pub open spec fn digits_value(s: Seq<char>) -> nat
    decreases s.len(),
{
    if s.len() == 0 {
        0
    } else {
        digits_value(s.drop_last()) * 10 + (s.last() as nat - 48) as nat
    }
}

/// Whether `s` is one digit or more, and nothing else.
pub open spec fn all_digits(s: Seq<char>) -> bool {
    s.len() > 0 && forall|i: int| 0 <= i < s.len() ==> is_digit(#[trigger] s[i])
}

/// The number that `s` spells: an optional sign, then digits only.
pub open spec fn parse_decimal(s: Seq<char>) -> Option<int> {
    if s.len() > 0 && s[0] == '-' {
        if all_digits(s.skip(1)) {
            Some(-(digits_value(s.skip(1)) as int))
        } else {
            None
        }
    } else {
        let body = if s.len() > 0 && s[0] == '+' {
            s.skip(1)
        } else {
            s
        };
        if all_digits(body) {
            Some(digits_value(body) as int)
        } else {
            None
        }
    }
}

/// The `i32` that `s` spells, where it spells one.
pub open spec fn parse_i32(s: Seq<char>) -> Option<i32> {
    match parse_decimal(s) {
        Some(n) if i32::MIN <= n <= i32::MAX => Some(n as i32),
        _ => None,
    }
}

proof fn lemma_digits(n: nat)
    ensures
        all_digits(digits(n)),
        digits_value(digits(n)) == n,
    decreases n,
{
    reveal_with_fuel(digits_value, 2);
    if n < 10 {
        assert(digits(n).drop_last() =~= Seq::<char>::empty());
        assert(digits(n).last() == digit(n as int));
    } else {
        lemma_digits(n / 10);
        let d = digit((n % 10) as int);
        assert(digits(n).drop_last() =~= digits(n / 10));
        assert(digits(n).last() == d);
        assert forall|i: int| 0 <= i < digits(n).len() implies is_digit(#[trigger] digits(n)[i]) by {
            if i < digits(n / 10).len() {
                assert(digits(n)[i] == digits(n / 10)[i]);
            }
        }
    }
}

/// The decimal form of a number is ASCII, and far from longer than the number itself.
pub(crate) proof fn lemma_decimal_is_short(n: int)
    ensures
        is_ascii_chars(decimal(n)),
        decimal(n).len() <= (if n < 0 {
            -n
        } else {
            n
        }) + 2,
{
    let magnitude = if n < 0 {
        (-n) as nat
    } else {
        n as nat
    };
    lemma_digits(magnitude);
    lemma_few_digits(magnitude);
    assert forall|i: int| 0 <= i < decimal(n).len() implies '\0' <= #[trigger] decimal(n)[i]
        <= '\u{7f}' by {
        if n < 0 && i > 0 {
            assert(decimal(n)[i] == digits(magnitude)[i - 1]);
            assert(is_digit(digits(magnitude)[i - 1]));
        } else if n >= 0 {
            assert(is_digit(digits(magnitude)[i]));
        }
    }
}

proof fn lemma_few_digits(n: nat)
    ensures
        digits(n).len() <= n + 1,
    decreases n,
{
    if n >= 10 {
        lemma_few_digits(n / 10);
    }
}

/// The decimal form of a number spells that number.
pub proof fn law_parse_decimal(n: int)
    ensures
        parse_decimal(decimal(n)) == Some(n),
{
    if n < 0 {
        lemma_digits((-n) as nat);
        assert(decimal(n).skip(1) =~= digits((-n) as nat));
    } else {
        lemma_digits(n as nat);
        assert(is_digit(digits(n as nat)[0]));
    }
}

/// `String::push` appends one character.
pub assume_specification[ String::push ](s: &mut String, c: char)
    ensures
        final(s)@ == old(s)@.push(c),
;

/// The decimal form of a number that is not negative.
fn digits_text(n: u64) -> (text: String)
    ensures
        text@ == digits(n as nat),
    decreases n,
{
    let last: u8 = (n % 10) as u8;
    let mut text = if n < 10 {
        String::new()
    } else {
        digits_text(n / 10)
    };
    text.push((48 + last) as char);
    text
}

/// The decimal form of a number.
pub fn decimal_text(n: i64) -> (text: String)
    ensures
        text@ == decimal(n as int),
{
    if n < 0 {
        let magnitude: u64 = (-(n + 1)) as u64 + 1;
        let mut text = String::new();
        text.push('-');
        let number = digits_text(magnitude);
        text.append(number.as_str());
        text
    } else {
        digits_text(n as u64)
    }
}

/// The hexadecimal digit of `d`, in lower case.
pub open spec fn hex_digit(d: int) -> char {
    if d < 10 {
        (48 + d) as char
    } else {
        (87 + d) as char
    }
}

/// One byte inside a quoted byte string: itself where it is printable ASCII, else an escape.
pub open spec fn escaped_byte(b: u8) -> Seq<char> {
    if b == 10 {
        seq!['\\', 'n']
    } else if b == 13 {
        seq!['\\', 'r']
    } else if b == 9 {
        seq!['\\', 't']
    } else if b == 92 || b == 34 {
        seq!['\\', b as char]
    } else if b == 0 {
        seq!['\\', '0']
    } else if 32 <= b < 127 {
        seq![b as char]
    } else {
        seq!['\\', 'x', hex_digit(b as int / 16), hex_digit(b as int % 16)]
    }
}

/// The escaped forms of all bytes of `s`, in order.
pub open spec fn escaped_bytes(s: Seq<u8>) -> Seq<char>
    decreases s.len(),
{
    if s.len() == 0 {
        seq![]
    } else {
        escaped_bytes(s.drop_last()) + escaped_byte(s.last())
    }
}

/// The quoted form of a byte string, as a Rust byte string literal writes it.
pub open spec fn byte_string(s: Seq<u8>) -> Seq<char> {
    seq!['b', '"'] + escaped_bytes(s) + seq!['"']
}

/// The `Debug` form of a `Bytes`: a quoted byte string.
#[verifier::external_body]
pub(crate) fn quote_bytes(bytes: &Bytes) -> (text: String)
    ensures
        text@ == byte_string(contents(*bytes)),
{
    format!("{:?}", bytes)
}

/// The `Debug` form of a string.
pub uninterp spec fn quoted(s: Seq<char>) -> Seq<char>;

/// The `Debug` form that std gives a `str`: quoted, with the escapes that std chooses.
#[verifier::external_body]
pub(crate) fn quote(s: &str) -> (text: String)
    ensures
        text@ == quoted(s@),
{
    format!("{:?}", s)
}

/// What std says is wrong with bytes that are not UTF-8.
pub uninterp spec fn utf8_complaint(bytes: Seq<u8>) -> Seq<char>;

/// `str::from_utf8` accepts exactly the valid UTF-8 and keeps its bytes; its error, as text, is
/// named.
#[verifier::external_body]
pub(crate) fn decode_text(bytes: &[u8]) -> (decoded: Result<String, String>)
    ensures
        match decoded {
            Ok(s) => valid_utf8(bytes@) && s@ == decode_utf8(bytes@),
            Err(e) => !valid_utf8(bytes@) && e@ == utf8_complaint(bytes@),
        },
{
    match std::str::from_utf8(bytes) {
        Ok(s) => Ok(s.to_string()),
        Err(e) => Err(e.to_string()),
    }
}

/// What std says is wrong with a string that spells no `i32`.
pub uninterp spec fn number_complaint(s: Seq<char>) -> Seq<char>;

/// `str::parse::<i32>` accepts an optional sign followed by digits only, where the number fits; its
/// error, as text, is named.
#[verifier::external_body]
pub(crate) fn parse_number(s: &str) -> (parsed: Result<i32, String>)
    ensures
        match parsed {
            Ok(n) => parse_i32(s@) == Some(n),
            Err(e) => parse_i32(s@) is None && e@ == number_complaint(s@),
        },
{
    match s.parse::<i32>() {
        Ok(n) => Ok(n),
        Err(e) => Err(e.to_string()),
    }
}

/// The decimal form of a number is built up digit by digit, with the last digit last, no leading zero,
/// and a sign in front of what is negative and of nothing else.
pub proof fn law_decimal_form(n: int)
    ensures
        0 <= n < 10 ==> decimal(n) == seq![(0x30 + n) as char],
        n >= 10 ==> decimal(n) == decimal(n / 10).push((0x30 + n % 10) as char),
        n < 0 ==> decimal(n) == seq!['-'] + decimal(-n),
{
}

/// A number is spelled by digits with at most one sign in front; each further digit counts ten times
/// what is before it, and nothing else spells a number.
pub proof fn law_spelling(s: Seq<char>, d: int, c: char)
    requires
        all_digits(s),
        0 <= d < 10,
    ensures
        parse_decimal(seq![(0x30 + d) as char]) == Some(d),
        parse_decimal(s) is Some,
        parse_decimal(s.push((0x30 + d) as char)) == Some(parse_decimal(s)->0 * 10 + d),
        parse_decimal(seq!['-'] + s) == Some(-parse_decimal(s)->0),
        parse_decimal(seq!['+'] + s) == parse_decimal(s),
        !('0' <= c <= '9') ==> parse_decimal(s.push(c)) is None,
        parse_decimal(Seq::<char>::empty()) is None,
{
    reveal_with_fuel(digits_value, 2);
    let digit_char = (0x30 + d) as char;
    let one = seq![digit_char];
    assert(one.drop_last() =~= Seq::<char>::empty());
    let more = s.push(digit_char);
    assert(more.drop_last() =~= s);
    assert(is_digit(s[0]));
    assert forall|i: int| 0 <= i < more.len() implies is_digit(#[trigger] more[i]) by {
        if i < s.len() {
            assert(more[i] == s[i]);
            assert(is_digit(s[i]));
        }
    }
    assert(more[0] == s[0]);
    assert((seq!['-'] + s).skip(1) =~= s);
    assert((seq!['+'] + s).skip(1) =~= s);
    let bad = s.push(c);
    assert(bad[0] == s[0]);
    assert(bad[s.len() as int] == c);
}

/// What spells a number that an `i32` holds spells that `i32`, and nothing else does.
pub proof fn law_spelling_of_i32(s: Seq<char>)
    ensures
        parse_i32(s) matches Some(n) ==> parse_decimal(s) == Some(n as int),
        parse_decimal(s) matches Some(n) && -0x8000_0000 <= n <= 0x7fff_ffff ==> parse_i32(s)
            is Some,
{
}

} // verus!
