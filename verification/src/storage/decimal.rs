//! Decimal notation: the text that an integer is written as, and the integer
//! that a text is read as.

use vstd::prelude::*;
use vstd::std_specs::iter::IteratorSpec;
use crate::storage::codec::{CodecError, Text};

verus! {

/// Whether `c` is one of the ten digits.
pub open spec fn is_digit(c: char) -> bool {
    48 <= c as u32 <= 57
}

/// The number that the digit `c` stands for.
pub open spec fn digit_value(c: char) -> int {
    c as u32 - 48
}

/// The digit that stands for `d`, a number below ten.
pub open spec fn digit_char(d: int) -> char {
    (d + 48) as char
}

/// The digits of `n`, the most significant first, without leading zeros.
pub open spec fn digits(n: nat) -> Text
    decreases n,
{
    if n < 10 {
        seq![digit_char(n as int)]
    } else {
        digits(n / 10).push(digit_char((n % 10) as int))
    }
}

/// The text of `value`: its digits, after a minus sign where it is negative.
pub open spec fn decimal(value: int) -> Text {
    if value < 0 {
        seq!['-'] + digits((-value) as nat)
    } else {
        digits(value as nat)
    }
}

/// The number read so far, `acc`, with the digit `c` behind it.
pub open spec fn shifted(acc: int, c: char, negative: bool) -> int {
    if negative {
        acc * 10 - digit_value(c)
    } else {
        acc * 10 + digit_value(c)
    }
}

/// Reading the one character `c` behind the number `acc`: the longer number,
/// or the error where `c` is no digit or the longer number leaves `lo ..= hi`.
pub open spec fn digit_step(acc: int, c: char, negative: bool, lo: int, hi: int) -> Result<
    int,
    CodecError,
> {
    if !is_digit(c) {
        Err(CodecError::InvalidDigit)
    } else if shifted(acc, c, negative) > hi {
        Err(CodecError::PosOverflow)
    } else if shifted(acc, c, negative) < lo {
        Err(CodecError::NegOverflow)
    } else {
        Ok(shifted(acc, c, negative))
    }
}

/// Reads `text` as digits behind the number `acc`, from left to right; the
/// first character that fails ends the reading with its error.
pub open spec fn read_digits(text: Text, acc: int, negative: bool, lo: int, hi: int) -> Result<
    int,
    CodecError,
>
    decreases text.len(),
{
    if text.len() == 0 {
        Ok(acc)
    } else {
        match digit_step(acc, text[0], negative, lo, hi) {
            Ok(next) => read_digits(text.drop_first(), next, negative, lo, hi),
            Err(error) => Err(error),
        }
    }
}

/// The integer in `lo ..= hi` that `text` is read as: an optional sign and
/// then at least one digit. A minus sign is a sign only where `lo` is
/// negative.
pub open spec fn parse_decimal(text: Text, lo: int, hi: int) -> Result<int, CodecError> {
    if text.len() == 0 {
        Err(CodecError::Empty)
    } else if text.len() == 1 && (text[0] == '+' || text[0] == '-') {
        Err(CodecError::InvalidDigit)
    } else if text[0] == '+' {
        read_digits(text.drop_first(), 0, false, lo, hi)
    } else if text[0] == '-' && lo < 0 {
        read_digits(text.drop_first(), 0, true, lo, hi)
    } else {
        read_digits(text, 0, false, lo, hi)
    }
}

/// Reads the character `c` behind the number `acc`.
fn read_digit(acc: i128, c: char, negative: bool, lo: i128, hi: i128) -> (result: Result<
    i128,
    CodecError,
>)
    requires
        lo <= 0 <= hi,
        lo <= acc <= hi,
        negative ==> acc <= 0,
        !negative ==> acc >= 0,
    ensures
        match result {
            Ok(next) => digit_step(acc as int, c, negative, lo as int, hi as int) == Ok::<
                int,
                CodecError,
            >(next as int),
            Err(error) => digit_step(acc as int, c, negative, lo as int, hi as int) == Err::<
                int,
                CodecError,
            >(error),
        },
        result matches Ok(next) ==> lo <= next <= hi && (negative ==> next <= 0) && (!negative
            ==> next >= 0),
{
    let code = c as u32;
    if code < 48 || code > 57 {
        return Err(CodecError::InvalidDigit);
    }
    let digit = (code - 48) as i128;
    let grown = match acc.checked_mul(10) {
        Some(tens) => if negative {
            tens.checked_sub(digit)
        } else {
            tens.checked_add(digit)
        },
        None => None,
    };
    match grown {
        Some(next) if lo <= next && next <= hi => Ok(next),
        _ => if negative {
            Err(CodecError::NegOverflow)
        } else {
            Err(CodecError::PosOverflow)
        },
    }
}

/// Reads `raw` as an integer in `lo ..= hi`.
pub fn parse_int(raw: &str, lo: i128, hi: i128) -> (result: Result<i128, CodecError>)
    requires
        lo <= 0 <= hi,
    ensures
        match result {
            Ok(n) => parse_decimal(raw@, lo as int, hi as int) == Ok::<int, CodecError>(n as int),
            Err(error) => parse_decimal(raw@, lo as int, hi as int) == Err::<int, CodecError>(
                error,
            ),
        },
        result matches Ok(n) ==> lo <= n <= hi,
{
    let mut chars = raw.chars();
    let mut acc: i128 = 0;
    let mut negative = false;
    let mut any_digit = false;
    match chars.next() {
        None => {
            return Err(CodecError::Empty);
        },
        Some(first) => {
            if first == '+' || (first == '-' && lo < 0) {
                negative = first == '-';
            } else {
                match read_digit(0, first, false, lo, hi) {
                    Ok(next) => {
                        acc = next;
                        any_digit = true;
                    },
                    Err(error) => {
                        return Err(error);
                    },
                }
            }
        },
    }
    loop
        invariant
            lo <= 0 <= hi,
            lo <= acc <= hi,
            negative ==> acc <= 0,
            !negative ==> acc >= 0,
            chars.obeys_prophetic_iter_laws(),
            chars.decrease() is Some,
            raw@.len() > 0,
            any_digit ==> read_digits(
                chars.remaining(),
                acc as int,
                negative,
                lo as int,
                hi as int,
            ) == parse_decimal(raw@, lo as int, hi as int),
            !any_digit ==> acc == 0 && chars.remaining() == raw@.drop_first() && (raw@[0] == '+'
                || (raw@[0] == '-' && lo < 0)) && negative == (raw@[0] == '-'),
        decreases chars.decrease()->0,
    {
        match chars.next() {
            None => {
                if any_digit {
                    return Ok(acc);
                } else {
                    return Err(CodecError::InvalidDigit);
                }
            },
            Some(c) => {
                match read_digit(acc, c, negative, lo, hi) {
                    Ok(next) => {
                        acc = next;
                        any_digit = true;
                    },
                    Err(error) => {
                        return Err(error);
                    },
                }
            },
        }
    }
}

/// The one-character text of the digit `d`.
fn digit_text(d: u8) -> (text: &'static str)
    requires
        d < 10,
    ensures
        text@ == seq![digit_char(d as int)],
{
    proof {
        reveal_strlit("0");
        reveal_strlit("1");
        reveal_strlit("2");
        reveal_strlit("3");
        reveal_strlit("4");
        reveal_strlit("5");
        reveal_strlit("6");
        reveal_strlit("7");
        reveal_strlit("8");
        reveal_strlit("9");
    }
    match d {
        0 => "0",
        1 => "1",
        2 => "2",
        3 => "3",
        4 => "4",
        5 => "5",
        6 => "6",
        7 => "7",
        8 => "8",
        _ => "9",
    }
}

/// Writes the digits of `n` behind what `out` holds.
fn push_digits(n: u128, out: &mut String)
    ensures
        final(out)@ == old(out)@ + digits(n as nat),
    decreases n,
{
    if n >= 10 {
        push_digits(n / 10, out);
    }
    out.append(digit_text((n % 10) as u8));
}

/// Writes `value` in decimal notation.
pub fn render_int(value: i128) -> (text: String)
    ensures
        text@ == decimal(value as int),
{
    let mut text = String::new();
    if value < 0 {
        proof {
            reveal_strlit("-");
        }
        text.append("-");
        let magnitude = (-(value + 1)) as u128 + 1;
        push_digits(magnitude, &mut text);
    } else {
        push_digits(value as u128, &mut text);
    }
    text
}

/// Reading digits behind a number in `lo ..= hi` never leaves that range.
pub proof fn lemma_read_digits_in_range(text: Text, acc: int, negative: bool, lo: int, hi: int)
    requires
        lo <= acc <= hi,
    ensures
        read_digits(text, acc, negative, lo, hi) matches Ok(n) ==> lo <= n <= hi,
    decreases text.len(),
{
    if text.len() > 0 {
        match digit_step(acc, text[0], negative, lo, hi) {
            Ok(next) => {
                lemma_read_digits_in_range(text.drop_first(), next, negative, lo, hi);
            },
            Err(_) => {},
        }
    }
}

/// A text is read as a number in `lo ..= hi` or not at all.
pub proof fn lemma_parse_decimal_in_range(text: Text, lo: int, hi: int)
    requires
        lo <= 0 <= hi,
    ensures
        parse_decimal(text, lo, hi) matches Ok(n) ==> lo <= n <= hi,
{
    lemma_read_digits_in_range(text, 0, false, lo, hi);
    if text.len() > 0 {
        lemma_read_digits_in_range(text.drop_first(), 0, false, lo, hi);
        lemma_read_digits_in_range(text.drop_first(), 0, true, lo, hi);
    }
}

/// Every text of digits starts with a digit.
pub proof fn lemma_digits_start_with_a_digit(n: nat)
    ensures
        digits(n).len() >= 1,
        is_digit(digits(n)[0]),
    decreases n,
{
    if n >= 10 {
        lemma_digits_start_with_a_digit(n / 10);
    }
}

/// Reading a text with one more character behind it is reading the text and
/// then that character.
pub proof fn lemma_read_digits_push(
    text: Text,
    c: char,
    acc: int,
    negative: bool,
    lo: int,
    hi: int,
)
    ensures
        read_digits(text.push(c), acc, negative, lo, hi) == match read_digits(
            text,
            acc,
            negative,
            lo,
            hi,
        ) {
            Ok(n) => digit_step(n, c, negative, lo, hi),
            Err(error) => Err(error),
        },
    decreases text.len(),
{
    let longer = text.push(c);
    if text.len() == 0 {
        assert(longer.drop_first() =~= Text::empty());
        assert(longer[0] == c);
        match digit_step(acc, c, negative, lo, hi) {
            Ok(next) => {
                assert(read_digits(longer.drop_first(), next, negative, lo, hi) == Ok::<
                    int,
                    CodecError,
                >(next));
            },
            Err(_) => {},
        }
    } else {
        assert(longer.drop_first() =~= text.drop_first().push(c));
        assert(longer[0] == text[0]);
        match digit_step(acc, text[0], negative, lo, hi) {
            Ok(next) => {
                lemma_read_digits_push(text.drop_first(), c, next, negative, lo, hi);
            },
            Err(_) => {},
        }
    }
}

/// The digits of `n` are read as `n`, or as `-n` behind a minus sign, where
/// that number lies in `lo ..= hi`.
pub proof fn lemma_read_digits_of_digits(n: nat, negative: bool, lo: int, hi: int)
    requires
        lo <= 0 <= hi,
        negative ==> lo <= -n,
        !negative ==> n <= hi,
    ensures
        read_digits(digits(n), 0, negative, lo, hi) == Ok::<int, CodecError>(
            if negative {
                -n
            } else {
                n as int
            },
        ),
    decreases n,
{
    let signed: int = if negative {
        -n
    } else {
        n as int
    };
    if n < 10 {
        let c = digit_char(n as int);
        assert(digits(n).drop_first() =~= Text::empty());
        assert(digits(n)[0] == c);
        assert(digit_step(0, c, negative, lo, hi) == Ok::<int, CodecError>(signed));
        assert(read_digits(digits(n).drop_first(), signed, negative, lo, hi) == Ok::<
            int,
            CodecError,
        >(signed));
    } else {
        let c = digit_char((n % 10) as int);
        let shorter: int = if negative {
            -(n / 10)
        } else {
            (n / 10) as int
        };
        lemma_read_digits_of_digits(n / 10, negative, lo, hi);
        lemma_read_digits_push(digits(n / 10), c, 0, negative, lo, hi);
        assert(digit_step(shorter, c, negative, lo, hi) == Ok::<int, CodecError>(signed));
    }
}

/// Reading what was written gives the number back: for every `value` in
/// `lo ..= hi`, the text of `value` is read as `value`.
pub proof fn lemma_parse_decimal_of_decimal(value: int, lo: int, hi: int)
    requires
        lo <= 0 <= hi,
        lo <= value <= hi,
    ensures
        parse_decimal(decimal(value), lo, hi) == Ok::<int, CodecError>(value),
{
    if value < 0 {
        let n = (-value) as nat;
        lemma_read_digits_of_digits(n, true, lo, hi);
        assert(decimal(value).drop_first() =~= digits(n));
    } else {
        let n = value as nat;
        lemma_digits_start_with_a_digit(n);
        lemma_read_digits_of_digits(n, false, lo, hi);
    }
}

} // verus!
