//! Splitting byte text into fields and reading decimal numbers from it.

use vstd::prelude::*;

verus! {

/// The position of the first `byte` in `text`, or the length of `text` where it holds none.
pub open spec fn first_position(text: Seq<u8>, byte: u8) -> int
    decreases text.len(),
{
    if text.len() == 0 || text[0] == byte {
        0
    } else {
        1 + first_position(text.drop_first(), byte)
    }
}

/// What [`first_position`] picks: no `byte` stands before it, and one stands at it unless
/// it is the end of the text.
pub proof fn lemma_first_position(text: Seq<u8>, byte: u8)
    ensures
        0 <= first_position(text, byte) <= text.len(),
        forall|j: int| 0 <= j < first_position(text, byte) ==> text[j] != byte,
        first_position(text, byte) < text.len() ==> text[first_position(text, byte)] == byte,
    decreases text.len(),
{
    if text.len() > 0 && text[0] != byte {
        let rest = text.drop_first();
        lemma_first_position(rest, byte);
        assert forall|j: int| 0 <= j < first_position(text, byte) implies text[j] != byte by {
            if j > 0 {
                assert(text[j] == rest[j - 1]);
            }
        }
    }
}

/// The position that [`first_position`] picks is the only one of its kind.
pub proof fn lemma_first_position_is(text: Seq<u8>, byte: u8, at: int)
    requires
        0 <= at <= text.len(),
        forall|j: int| 0 <= j < at ==> text[j] != byte,
        at < text.len() ==> text[at] == byte,
    ensures
        first_position(text, byte) == at,
{
    lemma_first_position(text, byte);
}

/// Whether `text` holds a `byte`.
pub open spec fn holds(text: Seq<u8>, byte: u8) -> bool {
    first_position(text, byte) < text.len()
}

/// What stands in `text` before its first `byte`: all of `text` where it holds none.
pub open spec fn before(text: Seq<u8>, byte: u8) -> Seq<u8> {
    text.take(first_position(text, byte))
}

/// What stands in `text` after its first `byte`: nothing where it holds none.
pub open spec fn after(text: Seq<u8>, byte: u8) -> Seq<u8> {
    text.skip(first_position(text, byte) + 1)
}

/// Finds the first `byte` in `text`.
pub fn find_byte(text: &[u8], byte: u8) -> (at: usize)
    ensures
        at == first_position(text@, byte),
        at <= text@.len(),
{
    let mut i: usize = 0;
    while i < text.len() && text[i] != byte
        invariant
            i <= text.len(),
            forall|j: int| 0 <= j < i ==> text@[j] != byte,
        decreases text.len() - i,
    {
        i = i + 1;
    }
    proof {
        lemma_first_position_is(text@, byte, i as int);
    }
    i
}

/// Cuts `text` at its first `byte`, which goes to neither part. `None` where `text` holds
/// no such byte.
pub fn cut<'a>(text: &'a [u8], byte: u8) -> (parts: Option<(&'a [u8], &'a [u8])>)
    ensures
        parts is Some == holds(text@, byte),
        parts matches Some((head, tail)) ==> head@ == before(text@, byte) && tail@ == after(
            text@,
            byte,
        ),
{
    let at = find_byte(text, byte);
    if at < text.len() {
        Some((&text[0..at], &text[at + 1..text.len()]))
    } else {
        None
    }
}

/// Whether `byte` is an ASCII decimal digit.
pub open spec fn is_digit(byte: u8) -> bool {
    '0' as u8 <= byte <= '9' as u8
}

/// Whether `text` consists of ASCII decimal digits only.
pub open spec fn all_digits(text: Seq<u8>) -> bool {
    forall|i: int| 0 <= i < text.len() ==> is_digit(#[trigger] text[i])
}

/// The number that the decimal digits of `digits` write.
pub open spec fn digits_value(digits: Seq<u8>) -> int
    decreases digits.len(),
{
    if digits.len() == 0 {
        0
    } else {
        10 * digits_value(digits.drop_last()) + (digits.last() - 48)
    }
}

/// Reads `text` as a decimal integer between `min` and `max`: digits, after an optional
/// `+` or, where `min` is negative, an optional `-`. There have to be digits, nothing may
/// stand around them, and the number has to lie in the range.
pub open spec fn parse_integer(text: Seq<u8>, min: int, max: int) -> Option<int> {
    let negative = min < 0 && text.len() > 0 && text[0] == '-' as u8;
    let signed = text.len() > 0 && (text[0] == '+' as u8 || negative);
    let digits = if signed {
        text.drop_first()
    } else {
        text
    };
    let value = if negative {
        -digits_value(digits)
    } else {
        digits_value(digits)
    };
    if digits.len() > 0 && all_digits(digits) && min <= value <= max {
        Some(value)
    } else {
        None
    }
}

/// A number does not get smaller when digits are appended to it.
pub proof fn lemma_digits_value_grows(digits: Seq<u8>, n: int)
    requires
        0 <= n <= digits.len(),
        all_digits(digits),
    ensures
        0 <= digits_value(digits.take(n)) <= digits_value(digits),
    decreases digits.len() - n,
{
    lemma_digits_value_nonnegative(digits.take(n));
    if n < digits.len() {
        let longer = digits.take(n + 1);
        assert(longer.drop_last() == digits.take(n));
        assert(is_digit(digits[n]));
        assert(longer.last() == digits[n]);
        lemma_digits_value_grows(digits, n + 1);
    } else {
        assert(digits.take(n) == digits);
    }
}

proof fn lemma_digits_value_nonnegative(digits: Seq<u8>)
    requires
        all_digits(digits),
    ensures
        0 <= digits_value(digits),
    decreases digits.len(),
{
    if digits.len() > 0 {
        assert(is_digit(digits.last()));
        assert forall|i: int| 0 <= i < digits.drop_last().len() implies is_digit(
            #[trigger] digits.drop_last()[i],
        ) by {
            assert(digits.drop_last()[i] == digits[i]);
        }
        lemma_digits_value_nonnegative(digits.drop_last());
    }
}

/// The largest magnitude that [`read_integer`] reads.
pub const READ_LIMIT: i64 = 0x1_0000_0000;

/// Reads `digits` as an unsigned decimal number of at most [`READ_LIMIT`].
fn read_digits(digits: &[u8]) -> (value: Option<i64>)
    ensures
        match value {
            Some(v) => all_digits(digits@) && v == digits_value(digits@) && 0 <= v <= READ_LIMIT,
            None => !all_digits(digits@) || digits_value(digits@) > READ_LIMIT,
        },
{
    let mut value: i64 = 0;
    let mut i: usize = 0;
    while i < digits.len()
        invariant
            i <= digits.len(),
            all_digits(digits@.take(i as int)),
            value == digits_value(digits@.take(i as int)),
            0 <= value <= READ_LIMIT,
        decreases digits.len() - i,
    {
        let byte = digits[i];
        if byte < 48 || byte > 57 {
            assert(!is_digit(digits@[i as int]));
            return None;
        }
        proof {
            let longer = digits@.take(i + 1);
            assert(longer.drop_last() == digits@.take(i as int));
            assert(longer.last() == byte);
            assert forall|j: int| 0 <= j < longer.len() implies is_digit(#[trigger] longer[j]) by {
                if j < i {
                    assert(longer[j] == digits@.take(i as int)[j]);
                }
            }
        }
        value = value * 10 + (byte - 48) as i64;
        i = i + 1;
        if value > READ_LIMIT {
            proof {
                if all_digits(digits@) {
                    lemma_digits_value_grows(digits@, i as int);
                }
            }
            return None;
        }
    }
    assert(digits@.take(i as int) == digits@);
    Some(value)
}

/// Reads `text` as a decimal integer between `min` and `max`.
pub fn read_integer(text: &[u8], min: i64, max: i64) -> (number: Option<i64>)
    requires
        -READ_LIMIT <= min <= 0 <= max <= READ_LIMIT,
    ensures
        match number {
            Some(n) => parse_integer(text@, min as int, max as int) == Some(n as int),
            None => parse_integer(text@, min as int, max as int) is None,
        },
{
    if text.len() == 0 {
        return None;
    }
    let negative = min < 0 && text[0] == '-' as u8;
    let signed = text[0] == '+' as u8 || negative;
    let digits = if signed {
        &text[1..text.len()]
    } else {
        text
    };
    if digits.len() == 0 {
        return None;
    }
    match read_digits(digits) {
        Some(value) => {
            let number = if negative {
                -value
            } else {
                value
            };
            if min <= number && number <= max {
                Some(number)
            } else {
                None
            }
        },
        None => None,
    }
}

} // verus!
