//! Token amounts as they travel between contracts: JSON strings of decimal
//! digits.

use vstd::prelude::*;

verus! {

/// The text of the JSON string that `data` holds, if `data` is the JSON
/// encoding of exactly one string.
pub uninterp spec fn json_string(data: Seq<u8>) -> Option<Seq<char>>;

/// The text of an optional string.
pub open spec fn text_of(text: Option<String>) -> Option<Seq<char>> {
    match text {
        Some(text) => Some(text@),
        None => None,
    }
}

/// `serde_json::from_slice::<String>`: the string that the JSON text `data`
/// denotes, or nothing where `data` is not the JSON encoding of one string.
/// What comes back depends on `data` alone.
#[verifier::external_body]
pub(crate) fn json_string_from_slice(data: &[u8]) -> (r: Option<String>)
    ensures
        text_of(r) == json_string(data@),
{
    serde_json::from_slice::<String>(data).ok()
}

/// An ASCII decimal digit.
pub open spec fn is_decimal_digit(byte: u8) -> bool {
    0x30 <= byte <= 0x39
}

/// Every byte is a decimal digit.
pub open spec fn all_decimal_digits(bytes: Seq<u8>) -> bool {
    forall|i: int| 0 <= i < bytes.len() ==> is_decimal_digit(#[trigger] bytes[i])
}

/// The number that a string of decimal digits denotes.
pub open spec fn digits_value(digits: Seq<u8>) -> nat
    decreases digits.len(),
{
    if digits.len() == 0 {
        0
    } else {
        digits_value(digits.drop_last()) * 10 + (digits.last() - 0x30) as nat
    }
}

/// The amount that decimal text denotes: an optional `+`, then one or more
/// decimal digits whose value fits in 128 bits. Any other text denotes no
/// amount.
pub open spec fn decimal_u128(text: Seq<u8>) -> Option<u128> {
    let digits = if text.len() > 0 && text[0] == 0x2b {
        text.drop_first()
    } else {
        text
    };
    if digits.len() > 0 && all_decimal_digits(digits) && digits_value(digits) <= u128::MAX {
        Some(digits_value(digits) as u128)
    } else {
        None
    }
}

/// The amount that text denotes, read as decimal text in UTF-8.
pub open spec fn amount_of_text(text: Seq<char>) -> Option<u128> {
    decimal_u128(vstd::utf8::encode_utf8(text))
}

/// The amount that a JSON payload denotes: the payload is one JSON string,
/// and its text denotes an amount.
pub open spec fn amount_of_json(data: Seq<u8>) -> Option<u128> {
    match json_string(data) {
        Some(text) => amount_of_text(text),
        None => None,
    }
}

/// Reading more digits never makes the value smaller.
pub proof fn lemma_digits_value_monotone(digits: Seq<u8>, k: int)
    requires
        0 <= k <= digits.len(),
        all_decimal_digits(digits),
    ensures
        digits_value(digits.take(k)) <= digits_value(digits),
    decreases digits.len(),
{
    if k == digits.len() {
        assert(digits.take(k) =~= digits);
    } else {
        let init = digits.drop_last();
        assert forall|i: int| 0 <= i < init.len() implies is_decimal_digit(#[trigger] init[i]) by {
            assert(init[i] == digits[i]);
        }
        assert(init.take(k) =~= digits.take(k));
        lemma_digits_value_monotone(init, k);
    }
}

/// Reads an amount from decimal text: an optional `+` followed by decimal
/// digits. Returns `None` for empty text, for a byte that is not a digit,
/// and for a value that does not fit in 128 bits.
pub fn parse_u128(text: &[u8]) -> (r: Option<u128>)
    ensures
        r == decimal_u128(text@),
{
    let start: usize = if text.len() > 0 && text[0] == 0x2b {
        1
    } else {
        0
    };
    let ghost digits = if start == 1 {
        text@.drop_first()
    } else {
        text@
    };
    if start == text.len() {
        return None;
    }
    let mut value: u128 = 0;
    let mut i: usize = start;
    while i < text.len()
        invariant
            start <= i <= text.len(),
            start <= 1,
            digits == if text@.len() > 0 && text@[0] == 0x2b {
                text@.drop_first()
            } else {
                text@
            },
            digits.len() == text@.len() - start,
            forall|j: int| 0 <= j < digits.len() ==> digits[j] == text@[j + start],
            all_decimal_digits(digits.take(i - start)),
            value == digits_value(digits.take(i - start)),
        decreases text.len() - i,
    {
        let byte = text[i];
        let ghost read = digits.take(i - start + 1);
        proof {
            assert(read.drop_last() =~= digits.take(i - start));
            assert(read.last() == byte);
        }
        if byte < 0x30 || byte > 0x39 {
            assert(!is_decimal_digit(digits[i - start]));
            return None;
        }
        assert(all_decimal_digits(read)) by {
            assert forall|j: int| 0 <= j < read.len() implies is_decimal_digit(#[trigger] read[j]) by {
                if j < read.len() - 1 {
                    assert(read[j] == digits.take(i - start)[j]);
                }
            }
        }
        proof {
            if all_decimal_digits(digits) {
                lemma_digits_value_monotone(digits, i - start + 1);
            }
        }
        let scaled = match value.checked_mul(10) {
            Some(scaled) => scaled,
            None => { return None; },
        };
        value =
        match scaled.checked_add((byte - 0x30) as u128) {
            Some(sum) => sum,
            None => { return None; },
        };
        i = i + 1;
    }
    assert(digits.take(i - start) =~= digits);
    Some(value)
}

/// Reads an amount from decimal text.
pub fn amount_from_text(text: &str) -> (r: Option<u128>)
    ensures
        r == amount_of_text(text@),
{
    parse_u128(text.as_bytes())
}

/// Reads an amount from a JSON payload, which holds it as a string of decimal
/// digits.
pub fn amount_from_json(data: &[u8]) -> (r: Option<u128>)
    ensures
        r == amount_of_json(data@),
{
    match json_string_from_slice(data) {
        Some(text) => amount_from_text(text.as_str()),
        None => None,
    }
}

} // verus!
