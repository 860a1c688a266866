//! Sequence numbers of outbound message keys.
//!
//! The canister names each outbound message with a key of the shape
//! `<opaque-prefix>_<sequence>`: the characters after the last `_` (or the
//! whole key when it has none) must be one or more decimal digits.  The
//! poller reads that suffix to advance its nonce; a key that does not
//! conform is a recoverable decode error, never a crash.

use vstd::prelude::*;
use vstd::string::StrSliceExecFns;

verus! {

/// The recoverable error for an outbound message key whose sequence suffix
/// is missing, non-numeric, or too large for a nonce.
#[derive(Clone, Copy, Debug, PartialEq, Eq)]
pub struct MalformedKey;

/// An ASCII decimal digit.
pub open spec fn is_digit_char(c: char) -> bool {
    48 <= c as int && c as int <= 57
}

/// The numeric value of an ASCII decimal digit.
pub open spec fn digit_value(c: char) -> int {
    c as int - 48
}

/// Every character of `s` is an ASCII decimal digit.
pub open spec fn all_digits(s: Seq<char>) -> bool {
    forall|i: int| 0 <= i < s.len() ==> is_digit_char(s[i])
}

/// The number written by a sequence of decimal digits, most significant
/// first.
pub open spec fn decimal_value(s: Seq<char>) -> int
    decreases s.len(),
{
    if s.len() == 0 {
        0
    } else {
        decimal_value(s.drop_last()) * 10 + digit_value(s.last())
    }
}

/// The characters after the last `_` of `s`, or all of `s` when it has
/// none.
pub open spec fn key_suffix(s: Seq<char>) -> Seq<char>
    decreases s.len(),
{
    if s.len() == 0 {
        s
    } else if s.last() == '_' {
        Seq::<char>::empty()
    } else {
        key_suffix(s.drop_last()).push(s.last())
    }
}

/// The sequence number a key carries: the decimal value of its suffix, if
/// the suffix is one or more digits and the value fits a nonce.
pub open spec fn key_sequence_num(s: Seq<char>) -> Option<u64> {
    let suf = key_suffix(s);
    if suf.len() > 0 && all_digits(suf) && decimal_value(suf) <= u64::MAX {
        Some(decimal_value(suf) as u64)
    } else {
        None
    }
}

/// A sequence of digits names a non-negative number.
proof fn lemma_decimal_value_nonneg(s: Seq<char>)
    requires
        all_digits(s),
    ensures
        decimal_value(s) >= 0,
    decreases s.len(),
{
    if s.len() > 0 {
        assert(all_digits(s.drop_last()));
        lemma_decimal_value_nonneg(s.drop_last());
    }
}

/// Appending digits never shrinks the number a digit string names.
proof fn lemma_decimal_value_prefix(s: Seq<char>, i: int)
    requires
        all_digits(s),
        0 <= i <= s.len(),
    ensures
        decimal_value(s.take(i)) <= decimal_value(s),
    decreases s.len() - i,
{
    if i == s.len() {
        assert(s.take(i) =~= s);
    } else {
        lemma_decimal_value_prefix(s, i + 1);
        assert(s.take(i + 1).drop_last() =~= s.take(i));
        assert(s.take(i + 1).last() == s[i]);
        assert(all_digits(s.take(i)));
        lemma_decimal_value_nonneg(s.take(i));
    }
}

/// Reads the sequence number out of an outbound message key, or reports
/// that the key is malformed: an empty suffix, a non-digit in the suffix,
/// or a value past the largest nonce.
pub fn parse_key_sequence(key: &str) -> (r: Result<u64, MalformedKey>)
    ensures
        match r {
            Ok(n) => key_sequence_num(key@) == Some(n),
            Err(_) => key_sequence_num(key@) is None,
        },
{
    let ghost s = key@;
    let n: usize = key.unicode_len();

    // Find where the suffix begins: one past the last `_`, or 0.
    let mut start: usize = 0;
    let mut i: usize = 0;
    while i < n
        invariant
            n == s.len(),
            s == key@,
            0 <= start <= i <= n,
            key_suffix(s.take(i as int)) == s.subrange(start as int, i as int),
        decreases n - i,
    {
        let c = key.get_char(i);
        proof {
            assert(s.take(i + 1).drop_last() =~= s.take(i as int));
            assert(s.take(i + 1).last() == s[i as int]);
        }
        if c == '_' {
            start = i + 1;
            proof {
                assert(key_suffix(s.take(i + 1)) =~= s.subrange(i + 1, i + 1));
            }
        } else {
            proof {
                assert(key_suffix(s.take(i + 1)) =~= s.subrange(start as int, i + 1));
            }
        }
        i = i + 1;
    }
    proof {
        assert(s.take(n as int) =~= s);
    }
    let ghost suf = key_suffix(s);
    assert(suf == s.subrange(start as int, n as int));

    if start == n {
        // Empty suffix: `_` at the end, or an empty key.
        assert(suf.len() == 0);
        return Err(MalformedKey);
    }

    // Read the digits of the suffix, most significant first.
    let mut val: u64 = 0;
    let mut j: usize = start;
    while j < n
        invariant
            n == s.len(),
            s == key@,
            0 <= start <= j <= n,
            start < n,
            suf == key_suffix(s),
            suf == s.subrange(start as int, n as int),
            all_digits(s.subrange(start as int, j as int)),
            decimal_value(s.subrange(start as int, j as int)) == val,
        decreases n - j,
    {
        let c = key.get_char(j);
        let u: u32 = c as u32;
        proof {
            assert(s.subrange(start as int, n as int)[j - start] == s[j as int]);
        }
        if u < 48 || u > 57 {
            // A non-digit in the suffix.
            assert(!is_digit_char(suf[j - start]));
            assert(!all_digits(suf));
            return Err(MalformedKey);
        }
        let d: u64 = (u - 48) as u64;
        proof {
            assert(d == digit_value(s[j as int]));
            assert(s.subrange(start as int, j + 1).drop_last() =~= s.subrange(
                start as int,
                j as int,
            ));
            assert(s.subrange(start as int, j + 1).last() == s[j as int]);
        }
        if val > u64::MAX / 10 {
            proof {
                lemma_value_too_large(s, start as int, j as int, n as int, val, d);
            }
            return Err(MalformedKey);
        }
        let v10: u64 = val * 10;
        if d > u64::MAX - v10 {
            proof {
                lemma_value_too_large(s, start as int, j as int, n as int, val, d);
            }
            return Err(MalformedKey);
        }
        val = v10 + d;
        j = j + 1;
    }
    proof {
        assert(s.subrange(start as int, n as int) =~= suf);
    }
    Ok(val)
}

/// When the digits read so far already overflow a nonce, the whole key
/// carries no sequence number.
proof fn lemma_value_too_large(s: Seq<char>, start: int, j: int, n: int, val: u64, d: u64)
    requires
        0 <= start <= j < n <= s.len(),
        key_suffix(s) == s.subrange(start, n),
        all_digits(s.subrange(start, j)),
        decimal_value(s.subrange(start, j)) == val,
        d == digit_value(s[j]),
        0 <= d <= 9,
        val * 10 + d > u64::MAX,
    ensures
        key_sequence_num(s) is None,
{
    let suf = key_suffix(s);
    if all_digits(suf) {
        assert(s.subrange(start, j + 1).drop_last() =~= s.subrange(start, j));
        assert(s.subrange(start, j + 1).last() == s[j]);
        assert(decimal_value(s.subrange(start, j + 1)) == val * 10 + d);
        assert(s.subrange(start, j + 1) =~= suf.take(j + 1 - start));
        lemma_decimal_value_prefix(suf, j + 1 - start);
        assert(decimal_value(suf) > u64::MAX);
    }
}

} // verus!
