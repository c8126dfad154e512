//! Numbers as text: the decimal notation that records are read from and
//! that the summary is written in.

use crate::amount::{magnitude, Amount, Decimal};
use vstd::prelude::*;
use vstd::string::is_ascii_spec_bytes;
use vstd::utf8::is_ascii_chars;

verus! {

/// The byte of `+`.
const PLUS: u8 = 43;

/// The byte of `-`.
const MINUS: u8 = 45;

/// The byte of `.`.
const POINT: u8 = 46;

/// The byte of the digit `0`.
const ZERO: u8 = 48;

/// The byte of the digit `9`.
const NINE: u8 = 57;

/// Whether `c` is one of the digits `0` to `9`.
pub open spec fn is_digit(c: char) -> bool {
    '0' <= c && c <= '9'
}

/// The number that the digit `c` stands for; zero for any other character.
pub open spec fn digit_value(c: char) -> nat {
    if is_digit(c) {
        (c as u32 - '0' as u32) as nat
    } else {
        0
    }
}

/// The digit that stands for `d`, a number below ten.
pub open spec fn digit_char(d: nat) -> char
    recommends
        d < 10,
{
    ('0' as u32 + d) as char
}

/// Whether `text` holds digits only.
pub open spec fn all_digits(text: Seq<char>) -> bool {
    forall|i: int| 0 <= i < text.len() ==> is_digit(#[trigger] text[i])
}

/// The number that a run of digits writes.
pub open spec fn digits_value(text: Seq<char>) -> nat
    decreases text.len(),
{
    if text.len() == 0 {
        0
    } else {
        10 * digits_value(text.drop_last()) + digit_value(text.last())
    }
}

/// The digits that write `n`, without leading zeros.
pub open spec fn digits_of(n: nat) -> Seq<char>
    decreases n,
{
    if n < 10 {
        seq![digit_char(n)]
    } else {
        digits_of(n / 10).push(digit_char(n % 10))
    }
}

/// The text without its `+`, if it starts with one.
pub open spec fn without_plus(text: Seq<char>) -> Seq<char> {
    if text.len() > 0 && text[0] == '+' {
        text.subrange(1, text.len() as int)
    } else {
        text
    }
}

/// The number that `text` writes, if it is an optional `+`, then one digit
/// or more, and the number is at most `max`.
pub open spec fn unsigned_of_text(text: Seq<char>, max: nat) -> Option<nat> {
    let body = without_plus(text);
    if body.len() > 0 && all_digits(body) && digits_value(body) <= max {
        Some(digits_value(body))
    } else {
        None
    }
}

/// The position of the first `.` of `body` at or after `from`; the length
/// of `body` if there is none.
pub open spec fn point_position(body: Seq<char>, from: int) -> int
    decreases body.len() - from,
{
    if from < 0 || from >= body.len() {
        body.len() as int
    } else if body[from] == '.' {
        from
    } else {
        point_position(body, from + 1)
    }
}

/// The text without its sign, if it starts with one.
pub open spec fn unsigned_part(text: Seq<char>) -> Seq<char> {
    if text.len() > 0 && (text[0] == '+' || text[0] == '-') {
        text.subrange(1, text.len() as int)
    } else {
        text
    }
}

/// What stands before the first `.` of `body`.
pub open spec fn whole_part(body: Seq<char>) -> Seq<char> {
    body.subrange(0, point_position(body, 0))
}

/// What stands after the first `.` of `body`.
pub open spec fn fraction_part(body: Seq<char>) -> Seq<char> {
    if point_position(body, 0) < body.len() {
        body.subrange(point_position(body, 0) + 1, body.len() as int)
    } else {
        Seq::empty()
    }
}

/// The decimal that `text` writes: an optional sign, digits, and
/// optionally a `.` and more digits, with one digit at the least, and a
/// mantissa that fits.
pub open spec fn decimal_of_text(text: Seq<char>) -> Option<Decimal> {
    let body = unsigned_part(text);
    let whole = whole_part(body);
    let fraction = fraction_part(body);
    let size = digits_value(whole + fraction);
    let mantissa = if text.len() > 0 && text[0] == '-' {
        -size
    } else {
        size as int
    };
    if all_digits(whole) && all_digits(fraction) && whole.len() + fraction.len() > 0 && i64::MIN
        <= mantissa <= i64::MAX {
        Some(Decimal { mantissa: mantissa as i64, scale: fraction.len() as usize })
    } else {
        None
    }
}

/// The four digits that write `part`, a number of ten-thousandths below one.
pub open spec fn fraction_text(part: nat) -> Seq<char>
    recommends
        part < 10_000,
{
    seq![
        digit_char(part / 1000),
        digit_char(part / 100 % 10),
        digit_char(part / 10 % 10),
        digit_char(part % 10),
    ]
}

/// An amount of `units` ten-thousandths in decimal notation with exactly
/// four fractional digits, and a `-` before a negative one.
pub open spec fn amount_text(units: int) -> Seq<char> {
    let size = magnitude(units);
    let body = digits_of((size / 10_000) as nat) + seq!['.'] + fraction_text(
        (size % 10_000) as nat,
    );
    if units < 0 {
        seq!['-'] + body
    } else {
        body
    }
}

/// How a flag is written.
pub open spec fn flag_text(flag: bool) -> Seq<char> {
    if flag {
        "true"@
    } else {
        "false"@
    }
}

/// Believed of `String::push` of std, not proved: it appends the character
/// to the end of the string.
pub assume_specification[ String::push ](text: &mut String, c: char)
    ensures
        final(text)@ == old(text)@.push(c),
;

/// The bytes of `text`, one for each character, if `text` is ASCII.
fn ascii_bytes(text: &str) -> (bytes: Option<&[u8]>)
    ensures
        bytes is Some <==> is_ascii_chars(text@),
        bytes is Some ==> bytes.unwrap()@.len() == text@.len(),
        bytes is Some ==> forall|i: int|
            0 <= i < text@.len() ==> text@[i] == #[trigger] bytes.unwrap()@[i] as char,
{
    if text.is_ascii() {
        let bytes = text.as_bytes();
        proof {
            is_ascii_spec_bytes(text);
        }
        Some(bytes)
    } else {
        None
    }
}

/// A run of digits that grows by one writes ten times the number, and the
/// new digit.
proof fn lemma_digits_value_push(text: Seq<char>, c: char)
    ensures
        digits_value(text.push(c)) == 10 * digits_value(text) + digit_value(c),
{
    assert(text.push(c).drop_last() =~= text);
}

/// The start of a run of digits writes no more than the whole.
proof fn lemma_digits_value_prefix(text: Seq<char>, length: int)
    requires
        0 <= length <= text.len(),
    ensures
        digits_value(text.subrange(0, length)) <= digits_value(text),
    decreases text.len(),
{
    if length < text.len() {
        assert(text.drop_last().subrange(0, length) =~= text.subrange(0, length));
        lemma_digits_value_prefix(text.drop_last(), length);
    } else {
        assert(text.subrange(0, length) =~= text);
    }
}

/// The first `.` at or after `from` stands at or after `from`, and nothing
/// between the two is a `.`.
proof fn lemma_point_position(body: Seq<char>, from: int)
    requires
        0 <= from <= body.len(),
    ensures
        from <= point_position(body, from) <= body.len(),
        point_position(body, from) < body.len() ==> body[point_position(body, from)] == '.',
        forall|i: int| from <= i < point_position(body, from) ==> #[trigger] body[i] != '.',
    decreases body.len() - from,
{
    if from < body.len() && body[from] != '.' {
        lemma_point_position(body, from + 1);
    }
}

/// Reads `text` as a number of at most `max`: an optional `+`, then digits.
pub fn parse_unsigned(text: &str, max: u64) -> (value: Option<u64>)
    ensures
        value is Some <==> unsigned_of_text(text@, max as nat) is Some,
        value is Some ==> value.unwrap() == unsigned_of_text(text@, max as nat).unwrap(),
{
    let bytes = match ascii_bytes(text) {
        Some(bytes) => bytes,
        None => {
            proof {
                // a character beyond ASCII is no digit, and the body holds it
                let body = without_plus(text@);
                let bad = choose|i: int|
                    0 <= i < text@.len() && !('\0' <= #[trigger] text@[i] <= '\u{7f}');
                if text@.len() > 0 && text@[0] == '+' {
                    assert(!is_digit(body[bad - 1]));
                }
            }
            return None;
        },
    };
    let length: usize = bytes.len();
    let start: usize = if length > 0 && bytes[0] == PLUS {
        1
    } else {
        0
    };
    let ghost body = without_plus(text@);
    let mut value: u64 = 0;
    let mut index: usize = start;
    while index < length
        invariant
            start <= index <= length,
            length == text@.len(),
            length == bytes@.len(),
            forall|i: int| 0 <= i < length ==> text@[i] == #[trigger] bytes@[i] as char,
            body == text@.subrange(start as int, length as int),
            body == without_plus(text@),
            forall|i: int| 0 <= i < index - start ==> is_digit(#[trigger] body[i]),
            value == digits_value(body.subrange(0, index - start)),
            value <= max,
        decreases length - index,
    {
        let byte: u8 = bytes[index];
        let ghost at = index - start;
        if byte < ZERO || byte > NINE {
            assert(!is_digit(body[at]));
            return None;
        }
        let digit: u64 = (byte - ZERO) as u64;
        let next: u128 = value as u128 * 10 + digit as u128;
        proof {
            assert(body.subrange(0, at + 1) =~= body.subrange(0, at).push(body[at]));
            lemma_digits_value_push(body.subrange(0, at), body[at]);
            lemma_digits_value_prefix(body, at + 1);
        }
        if next > max as u128 {
            // what has been read is no more than the whole
            return None;
        }
        value = next as u64;
        index = index + 1;
    }
    assert(body.subrange(0, length - start) =~= body);
    if index == start {
        None
    } else {
        Some(value)
    }
}

/// Reads `text` as a decimal: an optional sign, digits, and optionally a
/// `.` and more digits.
pub fn parse_decimal(text: &str) -> (decimal: Option<Decimal>)
    ensures
        decimal == decimal_of_text(text@),
{
    let bytes = match ascii_bytes(text) {
        Some(bytes) => bytes,
        None => {
            proof {
                // a character beyond ASCII is no digit, and it stands before
                // the point or after it
                let body = unsigned_part(text@);
                let bad = choose|i: int|
                    0 <= i < text@.len() && !('\0' <= #[trigger] text@[i] <= '\u{7f}');
                let at = if body.len() < text@.len() {
                    bad - 1
                } else {
                    bad
                };
                lemma_point_position(body, 0);
                let point = point_position(body, 0);
                if at < point {
                    assert(!is_digit(whole_part(body)[at]));
                } else {
                    assert(!is_digit(fraction_part(body)[at - point - 1]));
                }
            }
            return None;
        },
    };
    let length: usize = bytes.len();
    let negative: bool = length > 0 && bytes[0] == MINUS;
    let start: usize = if length > 0 && (bytes[0] == PLUS || bytes[0] == MINUS) {
        1
    } else {
        0
    };
    let limit: u64 = if negative {
        0x8000_0000_0000_0000
    } else {
        0x7fff_ffff_ffff_ffff
    };
    let ghost body = unsigned_part(text@);
    let ghost point = point_position(body, 0);
    let ghost digits = whole_part(body) + fraction_part(body);
    proof {
        lemma_point_position(body, 0);
    }
    let mut size: u64 = 0;
    let mut scale: usize = 0;
    let mut pointed: bool = false;
    let mut index: usize = start;
    let ghost mut seen: int = 0;
    while index < length
        invariant
            start <= index <= length,
            length == text@.len(),
            length == bytes@.len(),
            forall|i: int| 0 <= i < length ==> text@[i] == #[trigger] bytes@[i] as char,
            body == text@.subrange(start as int, length as int),
            body == unsigned_part(text@),
            negative == (text@.len() > 0 && text@[0] == '-'),
            limit == (if negative {
                0x8000_0000_0000_0000u64
            } else {
                0x7fff_ffff_ffff_ffffu64
            }),
            point == point_position(body, 0),
            0 <= point <= body.len(),
            point < body.len() ==> body[point] == '.',
            forall|i: int| 0 <= i < point ==> #[trigger] body[i] != '.',
            digits == whole_part(body) + fraction_part(body),
            pointed <==> point < index - start,
            pointed ==> seen == index - start - 1 && scale == index - start - point - 1,
            !pointed ==> seen == index - start && scale == 0,
            0 <= seen <= digits.len(),
            forall|i: int| 0 <= i < seen ==> is_digit(#[trigger] digits[i]),
            size == digits_value(digits.subrange(0, seen)),
            size <= limit,
        decreases length - index,
    {
        let byte: u8 = bytes[index];
        let ghost at = index - start;
        assert(body[at] == byte as char);
        if byte == POINT {
            if pointed {
                assert(!is_digit(fraction_part(body)[at - point - 1]));
                return None;
            }
            pointed = true;
        } else {
            if byte < ZERO || byte > NINE {
                assert(!is_digit(digits[seen]));
                return None;
            }
            proof {
                assert(digits.subrange(0, seen + 1) =~= digits.subrange(0, seen).push(body[at]));
                lemma_digits_value_push(digits.subrange(0, seen), body[at]);
                lemma_digits_value_prefix(digits, seen + 1);
            }
            let digit: u64 = (byte - ZERO) as u64;
            let next: u128 = size as u128 * 10 + digit as u128;
            if next > limit as u128 {
                // what has been read is no more than the whole
                return None;
            }
            size = next as u64;
            if pointed {
                scale = scale + 1;
            }
            proof {
                seen = seen + 1;
            }
        }
        index = index + 1;
    }
    proof {
        assert(digits.subrange(0, seen) =~= digits);
        assert forall|i: int| 0 <= i < whole_part(body).len() implies is_digit(
            #[trigger] whole_part(body)[i],
        ) by {
            assert(whole_part(body)[i] == digits[i]);
        }
        assert forall|i: int| 0 <= i < fraction_part(body).len() implies is_digit(
            #[trigger] fraction_part(body)[i],
        ) by {
            assert(fraction_part(body)[i] == digits[whole_part(body).len() + i]);
        }
    }
    let count: usize = if pointed {
        length - start - 1
    } else {
        length - start
    };
    if count == 0 {
        return None;
    }
    let mantissa: i64 = if negative {
        if size == 0x8000_0000_0000_0000 {
            i64::MIN
        } else {
            -(size as i64)
        }
    } else {
        size as i64
    };
    Some(Decimal { mantissa, scale })
}

/// Appends the digits that write `n`.
fn push_digits(text: &mut String, n: u128)
    ensures
        final(text)@ == old(text)@ + digits_of(n as nat),
    decreases n,
{
    if n >= 10 {
        push_digits(text, n / 10);
    }
    let digit: u8 = (n % 10) as u8;
    text.push((ZERO + digit) as char);
}

/// Writes `n` in decimal notation.
pub fn unsigned_text(n: u64) -> (text: String)
    ensures
        text@ == digits_of(n as nat),
{
    let mut text = String::new();
    push_digits(&mut text, n as u128);
    text
}

/// By how much `high` lies above `low`.
fn distance(high: i128, low: i128) -> (size: u128)
    requires
        low <= high,
    ensures
        size == high - low,
{
    if low >= 0 || high < 0 {
        (high - low) as u128
    } else {
        high as u128 + (-(low + 1)) as u128 + 1
    }
}

/// Writes the number of `size` ten-thousandths, with a `-` before it if
/// `negative`, in decimal notation with exactly four fractional digits.
fn signed_text(negative: bool, size: u128) -> (text: String)
    requires
        negative ==> size > 0,
    ensures
        text@ == amount_text(
            if negative {
                -size
            } else {
                size as int
            },
        ),
{
    let mut text = String::new();
    if negative {
        text.push('-');
    }
    push_digits(&mut text, size / 10_000);
    text.push('.');
    let part: u128 = size % 10_000;
    text.push((ZERO + (part / 1000) as u8) as char);
    text.push((ZERO + (part / 100 % 10) as u8) as char);
    text.push((ZERO + (part / 10 % 10) as u8) as char);
    text.push((ZERO + (part % 10) as u8) as char);
    assert(text@ =~= amount_text(
        if negative {
            -size
        } else {
            size as int
        },
    ));
    text
}

/// Writes the difference `left - right` of two amounts in decimal notation
/// with exactly four fractional digits; the difference need not fit in an
/// amount.
pub fn difference_text(left: Amount, right: Amount) -> (text: String)
    ensures
        text@ == amount_text(left@ - right@),
{
    if left.units < right.units {
        signed_text(true, distance(right.units, left.units))
    } else {
        signed_text(false, distance(left.units, right.units))
    }
}

impl Amount {
    /// Writes the amount in decimal notation with exactly four fractional
    /// digits.
    pub fn to_text(&self) -> (text: String)
        ensures
            text@ == amount_text(self@),
    {
        difference_text(*self, Amount { units: 0 })
    }
}

/// What is written can be read: the digits that write a number are digits,
/// one at the least, and write that number.
pub proof fn lemma_digits_round_trip(n: nat)
    ensures
        digits_of(n).len() >= 1,
        all_digits(digits_of(n)),
        digits_value(digits_of(n)) == n,
    decreases n,
{
    if n >= 10 {
        lemma_digits_round_trip(n / 10);
        lemma_digits_value_push(digits_of(n / 10), digit_char(n % 10));
    } else {
        lemma_digits_value_push(Seq::empty(), digit_char(n));
    }
}

/// A number that was written is read back as it was.
pub proof fn lemma_unsigned_round_trip(n: nat, max: nat)
    requires
        n <= max,
    ensures
        unsigned_of_text(digits_of(n), max) == Some(n),
{
    lemma_digits_round_trip(n);
}

/// An amount that was written is read back as it was: the text of an
/// amount writes the decimal of its ten-thousandths, with four fractional
/// digits.
pub proof fn lemma_amount_round_trip(units: i64)
    ensures
        decimal_of_text(amount_text(units as int)) == Some(
            Decimal { mantissa: units, scale: 4 },
        ),
{
    let size = magnitude(units as int);
    let whole = digits_of((size / 10_000) as nat);
    let fraction = fraction_text((size % 10_000) as nat);
    lemma_digits_round_trip((size / 10_000) as nat);
    lemma_fraction_value(whole, (size % 10_000) as nat);
    lemma_parts_of_text(units < 0, whole, fraction);
}

/// The four digits of a fraction are digits, and after a run of digits
/// they write ten thousand times its number, and the fraction.
proof fn lemma_fraction_value(whole: Seq<char>, part: nat)
    requires
        part < 10_000,
    ensures
        fraction_text(part).len() == 4,
        all_digits(fraction_text(part)),
        digits_value(whole + fraction_text(part)) == 10_000 * digits_value(whole) + part,
{
    let fraction = fraction_text(part);
    lemma_fraction_digits(part);
    lemma_digit_char(part / 1000);
    lemma_digit_char(part / 100 % 10);
    lemma_digit_char(part / 10 % 10);
    lemma_digit_char(part % 10);
    let one = whole.push(fraction[0]);
    let two = one.push(fraction[1]);
    let three = two.push(fraction[2]);
    lemma_digits_value_push(whole, fraction[0]);
    lemma_digits_value_push(one, fraction[1]);
    lemma_digits_value_push(two, fraction[2]);
    lemma_digits_value_push(three, fraction[3]);
    assert(three.push(fraction[3]) =~= whole + fraction);
}

/// The digit of a number below ten is a digit, and stands for that number.
proof fn lemma_digit_char(d: nat)
    requires
        d < 10,
    ensures
        is_digit(digit_char(d)),
        digit_value(digit_char(d)) == d,
{
}

/// A number below ten thousand is made of its four decimal digits.
proof fn lemma_fraction_digits(part: nat)
    requires
        part < 10_000,
    ensures
        part / 1000 < 10,
        part == 1000 * (part / 1000) + 100 * (part / 100 % 10) + 10 * (part / 10 % 10) + part
            % 10,
{
    let tens = part / 10;
    let hundreds = tens / 10;
    assert(part / 1000 == hundreds / 10);
}

/// A text put together from a sign, digits, a `.` and more digits comes
/// apart into the same.
proof fn lemma_parts_of_text(negative: bool, whole: Seq<char>, fraction: Seq<char>)
    requires
        whole.len() > 0,
        all_digits(whole),
    ensures
        ({
            let body = whole + seq!['.'] + fraction;
            let text = if negative {
                seq!['-'] + body
            } else {
                body
            };
            &&& text.len() > 0
            &&& text[0] == '-' <==> negative
            &&& unsigned_part(text) == body
            &&& whole_part(body) == whole
            &&& fraction_part(body) == fraction
        }),
{
    let body = whole + seq!['.'] + fraction;
    let text = if negative {
        seq!['-'] + body
    } else {
        body
    };
    lemma_first_point(body, whole.len() as int, 0);
}

/// Where `body` has a `.` at `point` and none before it, that is its first.
proof fn lemma_first_point(body: Seq<char>, point: int, from: int)
    requires
        0 <= from <= point < body.len(),
        body[point] == '.',
        forall|i: int| 0 <= i < point ==> is_digit(#[trigger] body[i]),
    ensures
        point_position(body, from) == point,
    decreases point - from,
{
    if from < point {
        lemma_first_point(body, point, from + 1);
    }
}

} // verus!
