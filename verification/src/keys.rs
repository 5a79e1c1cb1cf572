use vstd::prelude::*;
use vstd::string::StringSliceAdditionalSpecFns;

verus! {

/// Lowest key that issuance may hand out (the smallest ten-digit number).
pub const KEY_RANGE_LOW: i64 = 1000000000;

/// Exclusive upper bound of the issuance range: `9999999999` itself is never
/// issued.
pub const KEY_RANGE_HIGH: i64 = 9999999999;

/// A key that issuance is allowed to return: a ten-digit number drawn from
/// `[KEY_RANGE_LOW, KEY_RANGE_HIGH)`.
pub open spec fn key_in_range(k: int) -> bool {
    KEY_RANGE_LOW <= k < KEY_RANGE_HIGH
}

/// An ASCII decimal digit.
pub open spec fn is_digit_byte(b: u8) -> bool {
    48 <= b <= 57
}

/// Every byte of `s` is an ASCII decimal digit.
pub open spec fn all_digit_bytes(s: Seq<u8>) -> bool {
    forall|i: int| 0 <= i < s.len() ==> is_digit_byte(#[trigger] s[i])
}

/// The number denoted by a sequence of ASCII digits, most significant first.
pub open spec fn digits_value(s: Seq<u8>) -> int
    decreases s.len(),
{
    if s.len() == 0 {
        0
    } else {
        digits_value(s.drop_last()) * 10 + (s.last() - 48)
    }
}

/// What a path key must look like to be accepted, byte for byte: an optional
/// `+` or `-` sign, then one or more ASCII digits and nothing else (no
/// whitespace, no separators), denoting a value that fits in an `i64`.
/// `None` on every other input.
pub open spec fn spec_parse_i64(s: Seq<u8>) -> Option<int> {
    let neg = s.len() >= 1 && s[0] == 45;
    let ds = if s.len() >= 1 && (s[0] == 43 || s[0] == 45) {
        s.subrange(1, s.len() as int)
    } else {
        s
    };
    if ds.len() >= 1 && all_digit_bytes(ds) {
        let v = if neg {
            -digits_value(ds)
        } else {
            digits_value(ds)
        };
        if i64::MIN <= v <= i64::MAX {
            Some(v)
        } else {
            None
        }
    } else {
        None
    }
}

/// A sequence of digits denotes a non-negative number.
pub proof fn lemma_digits_value_nonneg(s: Seq<u8>)
    requires
        all_digit_bytes(s),
    ensures
        digits_value(s) >= 0,
    decreases s.len(),
{
    if s.len() > 0 {
        assert(all_digit_bytes(s.drop_last()));
        lemma_digits_value_nonneg(s.drop_last());
    }
}

/// Appending digits never shrinks the denoted number: a prefix denotes at
/// most what the whole sequence denotes.
pub proof fn lemma_digits_value_prefix_le(s: Seq<u8>, i: int)
    requires
        all_digit_bytes(s),
        0 <= i <= s.len(),
    ensures
        digits_value(s.subrange(0, i)) <= digits_value(s),
    decreases s.len() - i,
{
    if i < s.len() {
        assert(s.subrange(0, i + 1).drop_last() =~= s.subrange(0, i));
        assert(all_digit_bytes(s.subrange(0, i)));
        lemma_digits_value_nonneg(s.subrange(0, i));
        assert(digits_value(s.subrange(0, i + 1)) == digits_value(s.subrange(0, i)) * 10 + (
        s.subrange(0, i + 1).last() - 48));
        lemma_digits_value_prefix_le(s, i + 1);
    } else {
        assert(s.subrange(0, i) =~= s);
    }
}

/// Reads the digit run `b[start..]` as a number, refusing it once it exceeds
/// `limit`: the run must be non-empty, all digits, and denote at most
/// `limit`, or nothing is returned. Both integer parsers share this core.
pub(crate) fn parse_digits_bounded(b: &[u8], start: usize, limit: u128) -> (r: Option<u128>)
    requires
        start as int <= b@.len(),
        limit <= 0xffff_ffff_ffff_ffff,
    ensures
        match r {
            Some(acc) => {
                &&& b@.len() - start >= 1
                &&& all_digit_bytes(b@.subrange(start as int, b@.len() as int))
                &&& acc as int == digits_value(b@.subrange(start as int, b@.len() as int))
                &&& acc <= limit
            },
            None => {
                ||| b@.len() - start < 1
                ||| !all_digit_bytes(b@.subrange(start as int, b@.len() as int))
                ||| digits_value(b@.subrange(start as int, b@.len() as int)) > limit
            },
        },
{
    let n: usize = b.len();
    let ghost ds = b@.subrange(start as int, n as int);
    if start == n {
        return None;
    }
    let mut acc: u128 = 0;
    let mut i: usize = start;
    while i < n
        invariant
            start <= i <= n,
            n == b@.len(),
            ds == b@.subrange(start as int, n as int),
            all_digit_bytes(b@.subrange(start as int, i as int)),
            acc as int == digits_value(b@.subrange(start as int, i as int)),
            acc <= limit,
            limit <= 0xffff_ffff_ffff_ffff,
        decreases n - i,
    {
        let c = b[i];
        if c < 48 || c > 57 {
            assert(!all_digit_bytes(ds)) by {
                assert(ds[i - start] == b@[i as int]);
            }
            return None;
        }
        let d: u128 = (c - 48) as u128;
        assert(acc * 10 + d <= limit * 10 + 9) by (nonlinear_arith)
            requires
                acc <= limit,
                d <= 9,
        ;
        let new_acc: u128 = acc * 10 + d;
        proof {
            assert(b@.subrange(start as int, i + 1).drop_last() =~= b@.subrange(
                start as int,
                i as int,
            ));
            assert(b@.subrange(start as int, i + 1).last() == c);
        }
        if new_acc > limit {
            proof {
                if all_digit_bytes(ds) {
                    assert(b@.subrange(start as int, i + 1) =~= ds.subrange(0, i + 1 - start));
                    lemma_digits_value_prefix_le(ds, i + 1 - start);
                }
            }
            return None;
        }
        acc = new_acc;
        i = i + 1;
    }
    proof {
        assert(b@.subrange(start as int, i as int) =~= ds);
    }
    Some(acc)
}

/// Parses a byte string as a decimal `i64`, exactly as `spec_parse_i64`
/// describes: an optional sign, one or more digits, nothing else, and the
/// value must fit.
pub fn parse_i64_bytes(b: &[u8]) -> (r: Option<i64>)
    ensures
        match r {
            Some(v) => spec_parse_i64(b@) == Some(v as int),
            None => spec_parse_i64(b@) is None,
        },
{
    let n: usize = b.len();
    let mut start: usize = 0;
    let mut neg: bool = false;
    if n > 0 && (b[0] == 43 || b[0] == 45) {
        neg = b[0] == 45;
        start = 1;
    }
    let ghost ds = b@.subrange(start as int, n as int);
    proof {
        if start == 0 {
            assert(ds =~= b@);
        }
    }
    let limit: u128 = if neg {
        9223372036854775808
    } else {
        9223372036854775807
    };
    match parse_digits_bounded(b, start, limit) {
        None => {
            proof {
                if ds.len() >= 1 && all_digit_bytes(ds) {
                    lemma_digits_value_nonneg(ds);
                }
            }
            None
        },
        Some(acc) => {
            proof {
                lemma_digits_value_nonneg(ds);
            }
            if neg {
                if acc == 9223372036854775808 {
                    Some(i64::MIN)
                } else {
                    Some(-(acc as i64))
                }
            } else {
                Some(acc as i64)
            }
        },
    }
}

/// Parses the key component of a request path: strict decimal with an
/// optional sign and no surrounding whitespace, per `spec_parse_i64` over the
/// path's bytes.
pub fn parse_key(s: &str) -> (r: Option<i64>)
    ensures
        match r {
            Some(v) => spec_parse_i64(s.spec_bytes()) == Some(v as int),
            None => spec_parse_i64(s.spec_bytes()) is None,
        },
{
    parse_i64_bytes(s.as_bytes())
}

/// Relies on rand::random_range: a sample drawn from a non-empty integer
/// range lies within that range.
#[verifier::external_body]
fn random_in_range(lo: i64, hi: i64) -> (r: i64)
    requires
        lo < hi,
    ensures
        lo <= r < hi,
{
    rand::random_range(lo..hi)
}

/// Draws a candidate key uniformly from the issuance range. Nothing more is
/// promised of the draw: freshness against a store is checked separately.
pub fn fresh_candidate() -> (k: i64)
    ensures
        key_in_range(k as int),
{
    random_in_range(KEY_RANGE_LOW, KEY_RANGE_HIGH)
}

} // verus!
