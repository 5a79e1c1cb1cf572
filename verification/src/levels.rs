use vstd::prelude::*;
use vstd::string::StringSliceAdditionalSpecFns;
use vstd::utf8::{encode_utf8, is_ascii_chars, is_ascii_chars_encode_utf8};
use crate::keys::{
    all_digit_bytes, digits_value, is_digit_byte, lemma_digits_value_nonneg, parse_digits_bounded,
    spec_parse_i64,
};

verus! {

/// The canonical decimal form of a number: its ASCII digits, most
/// significant first, with no sign and no leading zero (except for `0`
/// itself, written as one digit).
pub open spec fn spec_decimal(n: nat) -> Seq<u8>
    decreases n,
{
    if n < 10 {
        seq![(48 + n) as u8]
    } else {
        spec_decimal(n / 10).push((48 + n % 10) as u8)
    }
}

/// What the stored level field must look like to be read back as a level:
/// an optional `+` sign, then one or more ASCII digits and nothing else,
/// denoting a value that fits in a `usize`. `None` on every other input.
pub open spec fn spec_parse_usize(s: Seq<u8>) -> Option<int> {
    let ds = if s.len() >= 1 && s[0] == 43 {
        s.subrange(1, s.len() as int)
    } else {
        s
    };
    if ds.len() >= 1 && all_digit_bytes(ds) {
        if digits_value(ds) <= usize::MAX {
            Some(digits_value(ds))
        } else {
            None
        }
    } else {
        None
    }
}

/// The level a store's textual field denotes: its characters, encoded back
/// to bytes, read as a decimal `usize`.
pub open spec fn spec_level_of_text(t: Seq<char>) -> Option<int> {
    spec_parse_usize(encode_utf8(t))
}

/// The canonical decimal form is all digits and denotes the number it was
/// built from.
pub proof fn lemma_spec_decimal_value(n: nat)
    ensures
        spec_decimal(n).len() >= 1,
        all_digit_bytes(spec_decimal(n)),
        digits_value(spec_decimal(n)) == n,
    decreases n,
{
    if n < 10 {
        let s = spec_decimal(n);
        assert(s.drop_last() =~= Seq::<u8>::empty());
        assert(s.last() == (48 + n) as u8);
        assert(digits_value(s) == digits_value(Seq::<u8>::empty()) * 10 + ((48 + n) as u8 - 48));
    } else {
        lemma_spec_decimal_value(n / 10);
        let s = spec_decimal(n);
        assert(s.drop_last() =~= spec_decimal(n / 10));
        assert(s.last() == (48 + n % 10) as u8);
        assert(digits_value(s) == (n / 10) * 10 + n % 10);
        assert(n == (n / 10) * 10 + n % 10) by (nonlinear_arith);
        assert(forall|i: int|
            0 <= i < s.len() ==> is_digit_byte(#[trigger] s[i])) by {
            assert(forall|i: int|
                0 <= i < s.len() - 1 ==> s[i] == spec_decimal(n / 10)[i]);
        }
    }
}

/// A key printed in canonical decimal parses back as the same key: the key a
/// client copies out of an issuance response resolves to the same record it
/// was issued for.
pub proof fn lemma_key_text_round_trip(n: nat)
    requires
        n <= i64::MAX,
    ensures
        spec_parse_i64(spec_decimal(n)) == Some(n as int),
{
    lemma_spec_decimal_value(n);
    let s = spec_decimal(n);
    assert(is_digit_byte(s[0]));
    assert(s[0] != 43 && s[0] != 45);
}

/// A level written in canonical decimal parses back as the same level: the
/// level survives its trip through the store's string encoding.
pub proof fn lemma_level_round_trip(n: nat)
    requires
        n <= usize::MAX,
    ensures
        spec_parse_usize(spec_decimal(n)) == Some(n as int),
{
    lemma_spec_decimal_value(n);
    let s = spec_decimal(n);
    assert(is_digit_byte(s[0]));
    assert(s[0] != 43);
}

/// A decimal digit string, read as characters, encodes back to exactly its
/// digit bytes: the textual level field carries the digits and nothing else.
pub proof fn lemma_decimal_text_bytes(n: nat)
    ensures
        encode_utf8(spec_decimal(n).map_values(|b: u8| b as char)) == spec_decimal(n),
{
    lemma_spec_decimal_value(n);
    let s = spec_decimal(n);
    let t = s.map_values(|b: u8| b as char);
    assert(is_ascii_chars(t)) by {
        assert(forall|i: int| 0 <= i < t.len() ==> is_digit_byte(#[trigger] s[i]) && t[i] == s[i]
            as char);
    }
    is_ascii_chars_encode_utf8(t);
    assert(encode_utf8(t) =~= s);
}

/// Formats a level as its canonical decimal digits, as `spec_decimal`
/// describes them.
pub fn level_digits(n: usize) -> (r: Vec<u8>)
    ensures
        r@ == spec_decimal(n as nat),
    decreases n,
{
    if n < 10 {
        let mut v: Vec<u8> = Vec::new();
        v.push((48 + n) as u8);
        proof {
            assert(v@ =~= spec_decimal(n as nat));
        }
        v
    } else {
        let mut v = level_digits(n / 10);
        v.push((48 + n % 10) as u8);
        v
    }
}

/// Relies on String::from_utf8: a vector of ASCII bytes is valid UTF-8 and
/// decodes to the string holding exactly those bytes as characters.
#[verifier::external_body]
fn ascii_to_string(v: Vec<u8>) -> (r: String)
    requires
        forall|i: int| 0 <= i < v@.len() ==> v@[i] < 128,
    ensures
        r@ == v@.map_values(|b: u8| b as char),
{
    String::from_utf8(v).unwrap_or_default()
}

/// Formats a level for the store: the canonical decimal digit string.
pub fn level_to_string(n: usize) -> (r: String)
    ensures
        r@ == spec_decimal(n as nat).map_values(|b: u8| b as char),
        spec_level_of_text(r@) == Some(n as int),
{
    let v = level_digits(n);
    proof {
        lemma_spec_decimal_value(n as nat);
        lemma_decimal_text_bytes(n as nat);
        lemma_level_round_trip(n as nat);
    }
    ascii_to_string(v)
}

/// Parses a byte string as a decimal `usize`, exactly as `spec_parse_usize`
/// describes: an optional `+` sign, one or more digits, nothing else, and
/// the value must fit.
pub fn parse_usize_bytes(b: &[u8]) -> (r: Option<usize>)
    ensures
        match r {
            Some(v) => spec_parse_usize(b@) == Some(v as int),
            None => spec_parse_usize(b@) is None,
        },
{
    let n: usize = b.len();
    let mut start: usize = 0;
    if n > 0 && b[0] == 43 {
        start = 1;
    }
    let ghost ds = b@.subrange(start as int, n as int);
    proof {
        if start == 0 {
            assert(ds =~= b@);
        }
    }
    match parse_digits_bounded(b, start, usize::MAX as u128) {
        None => {
            proof {
                if ds.len() >= 1 && all_digit_bytes(ds) {
                    lemma_digits_value_nonneg(ds);
                }
            }
            None
        },
        Some(acc) => Some(acc as usize),
    }
}

/// Parses the store's textual level field, per `spec_parse_usize` over the
/// text's bytes.
pub fn parse_level(s: &str) -> (r: Option<usize>)
    ensures
        match r {
            Some(v) => spec_level_of_text(s@) == Some(v as int),
            None => spec_level_of_text(s@) is None,
        },
{
    parse_usize_bytes(s.as_bytes())
}

} // verus!
