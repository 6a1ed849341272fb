//! The price of an event against what a person is willing to pay.
//!
//! A price is written as a whole number of currency units from 0 to 255: one or
//! more decimal digits, with at most a plus sign before them and nothing else
//! around them.

use crate::error::FilterError;
use crate::text::chars_of;
use vstd::prelude::*;

verus! {

/// Whether `c` is one of the ten decimal digits.
pub open spec fn is_digit(c: char) -> bool {
    '0' <= c <= '9'
}

/// Whether `s` holds decimal digits only.
pub open spec fn all_digits(s: Seq<char>) -> bool {
    forall|i: int| 0 <= i < s.len() ==> is_digit(#[trigger] s[i])
}

/// The number that the digit `c` stands for.
pub open spec fn digit_value(c: char) -> nat {
    (c as u32 - '0' as u32) as nat
}

/// The number that a row of decimal digits stands for; 0 for the empty row.
pub open spec fn decimal_value(digits: Seq<char>) -> nat
    decreases digits.len(),
{
    if digits.len() == 0 {
        0
    } else {
        decimal_value(digits.drop_last()) * 10 + digit_value(digits.last())
    }
}

/// The digits of a price text: the text without the plus sign that may stand at
/// its front.
pub open spec fn unsigned_part(text: Seq<char>) -> Seq<char> {
    if text.len() > 0 && text[0] == '+' {
        text.skip(1)
    } else {
        text
    }
}

/// The price that `text` stands for; `None` where it is not a price.
pub open spec fn price_of(text: Seq<char>) -> Option<u8> {
    let digits = unsigned_part(text);
    if digits.len() > 0 && all_digits(digits) && decimal_value(digits) <= u8::MAX {
        Some(decimal_value(digits) as u8)
    } else {
        None
    }
}

/// Whether `text` is a price of at most `max_acceptable_price`.
pub open spec fn price_within(text: Seq<char>, max_acceptable_price: u8) -> bool {
    price_of(text) matches Some(price) && price <= max_acceptable_price
}

/// A row of digits stands for at least as much as any of its beginnings.
pub proof fn lemma_value_grows(digits: Seq<char>, k: int)
    requires
        0 <= k <= digits.len(),
    ensures
        decimal_value(digits.take(k)) <= decimal_value(digits),
    decreases digits.len() - k,
{
    if k == digits.len() {
        assert(digits.take(k) =~= digits);
    } else {
        lemma_value_grows(digits, k + 1);
        assert(digits.take(k + 1).drop_last() =~= digits.take(k));
    }
}

/// Reads a price.
pub fn parse_price(text: &str) -> (r: Result<u8, FilterError>)
    ensures
        match r {
            Ok(price) => price_of(text@) == Some(price),
            Err(e) => price_of(text@) is None && e == FilterError::MalformedPrice,
        },
{
    let chars = chars_of(text);
    let start: usize = if chars.len() > 0 && chars[0] == '+' {
        1
    } else {
        0
    };
    let ghost digits = unsigned_part(text@);
    assert(digits =~= chars@.skip(start as int));
    if start == chars.len() {
        return Err(FilterError::MalformedPrice);
    }
    let mut value: u32 = 0;
    let mut i: usize = start;
    while i < chars.len()
        invariant
            start <= i <= chars.len(),
            digits == chars@.skip(start as int),
            digits == unsigned_part(text@),
            all_digits(digits.take(i - start)),
            value == decimal_value(digits.take(i - start)),
            value <= u8::MAX,
        decreases chars.len() - i,
    {
        let c = chars[i];
        let ghost k = i - start;
        proof {
            assert(digits[k] == c);
            assert(digits.take(k + 1).drop_last() =~= digits.take(k));
            assert(digits.take(k + 1).last() == c);
        }
        if c < '0' || c > '9' {
            assert(!is_digit(digits[k]));
            return Err(FilterError::MalformedPrice);
        }
        let digit: u32 = c as u32 - '0' as u32;
        value = value * 10 + digit;
        proof {
            assert forall|j: int| 0 <= j < k + 1 implies is_digit(
                #[trigger] digits.take(k + 1)[j],
            ) by {
                if j < k {
                    assert(digits.take(k + 1)[j] == digits.take(k)[j]);
                }
            }
        }
        if value > 255 {
            proof {
                lemma_value_grows(digits, k + 1);
            }
            return Err(FilterError::MalformedPrice);
        }
        i += 1;
    }
    proof {
        assert(digits.take(i - start) =~= digits);
    }
    Ok(value as u8)
}

/// Whether the price of an event is within what a person is willing to pay. An
/// event whose price cannot be read is not.
pub fn with_price(max_acceptable_price: u8, event_price: &str) -> (r: bool)
    ensures
        r == price_within(event_price@, max_acceptable_price),
{
    match parse_price(event_price) {
        Ok(parsed_price) => parsed_price <= max_acceptable_price,
        Err(_) => false,
    }
}

} // verus!
