//! Decimal parsing of attribute values: unsigned and signed integers and
//! booleans, each proved against a spec-level grammar on byte sequences.

use vstd::prelude::*;

verus! {

/// ASCII decimal digit test.
pub open spec fn is_dec_digit(b: u8) -> bool {
    48 <= b && b <= 57
}

/// Every byte of `s` is a decimal digit.
pub open spec fn all_dec_digits(s: Seq<u8>) -> bool {
    forall|i: int| 0 <= i < s.len() ==> is_dec_digit(s[i])
}

/// Numeric value of one digit byte.
pub open spec fn dec_digit_val(b: u8) -> nat {
    (b - 48) as nat
}

/// Value of a digit string read most-significant first.
pub open spec fn dec_val(s: Seq<u8>) -> nat
    decreases s.len(),
{
    if s.len() == 0 {
        0
    } else {
        dec_val(s.drop_last()) * 10 + dec_digit_val(s.last())
    }
}

/// Powers of ten.
pub open spec fn pow10(n: nat) -> nat
    decreases n,
{
    if n == 0 {
        1
    } else {
        10 * pow10((n - 1) as nat)
    }
}

/// The value of a nonempty all-digit string; `None` for anything else.
pub open spec fn spec_dec(s: Seq<u8>) -> Option<nat> {
    if s.len() > 0 && all_dec_digits(s) {
        Some(dec_val(s))
    } else {
        None
    }
}

/// A prefix of a digit string never has a larger value than the whole.
proof fn lemma_dec_val_prefix(s: Seq<u8>, i: int)
    requires
        0 <= i <= s.len(),
    ensures
        dec_val(s.take(i)) <= dec_val(s),
    decreases s.len(),
{
    if i < s.len() {
        assert(s.drop_last() =~= s.take(s.len() - 1));
        lemma_dec_val_prefix(s.drop_last(), i);
        assert(s.drop_last().take(i) =~= s.take(i));
    } else {
        assert(s.take(i) =~= s);
    }
}

/// True when bytes `from..to` of `s` are all decimal digits.
pub fn all_digits_range(s: &[u8], from: usize, to: usize) -> (r: bool)
    requires
        from <= to <= s@.len(),
    ensures
        r == all_dec_digits(s@.subrange(from as int, to as int)),
{
    let ghost sub = s@.subrange(from as int, to as int);
    let mut i: usize = from;
    while i < to
        invariant
            from <= i <= to <= s@.len(),
            sub == s@.subrange(from as int, to as int),
            forall|j: int| 0 <= j < i - from ==> is_dec_digit(sub[j]),
        decreases to - i,
    {
        let b = s[i];
        if b < 48 || b > 57 {
            proof {
                assert(sub[i - from] == s@[i as int]);
                assert(!is_dec_digit(sub[i - from]));
            }
            return false;
        }
        i = i + 1;
    }
    true
}

/// Parses bytes `from..to` of `s` as a nonempty decimal digit string.
/// Returns `None` when the range is empty, holds a non-digit, or the value
/// does not fit in `u64`.
pub fn dec_range(s: &[u8], from: usize, to: usize) -> (r: Option<u64>)
    requires
        from <= to <= s@.len(),
    ensures
        ({
            let sub = s@.subrange(from as int, to as int);
            match spec_dec(sub) {
                None => r is None,
                Some(v) => if v <= u64::MAX {
                    r == Some(v as u64)
                } else {
                    r is None
                },
            }
        }),
{
    let ghost sub = s@.subrange(from as int, to as int);
    if from == to {
        return None;
    }
    let mut acc: u64 = 0;
    let mut i: usize = from;
    while i < to
        invariant
            from <= i <= to <= s@.len(),
            sub == s@.subrange(from as int, to as int),
            all_dec_digits(sub.take(i - from)),
            acc == dec_val(sub.take(i - from)),
        decreases to - i,
    {
        let b = s[i];
        proof {
            assert(sub[i - from] == s@[i as int]);
        }
        if b < 48 || b > 57 {
            proof {
                assert(!is_dec_digit(sub[i - from]));
            }
            return None;
        }
        let d: u64 = (b - 48) as u64;
        proof {
            assert(sub.take(i - from + 1).drop_last() =~= sub.take(i - from));
            assert(sub.take(i - from + 1).last() == sub[i - from]);
        }
        if acc > 1844674407370955161u64 || (acc == 1844674407370955161u64 && d > 5) {
            // the next digit would push the value past u64::MAX
            proof {
                assert(dec_val(sub.take(i - from + 1)) > u64::MAX);
                lemma_dec_val_prefix(sub, i - from + 1);
                assert(dec_val(sub) > u64::MAX);
            }
            return None;
        }
        acc = acc * 10 + d;
        i = i + 1;
        proof {
            assert(all_dec_digits(sub.take(i - from)));
        }
    }
    proof {
        assert(sub.take(to - from) =~= sub);
    }
    Some(acc)
}

/// Signed 64-bit decimal parse: optional `+` or `-` sign, then digits.
pub open spec fn spec_parse_i64(s: Seq<u8>) -> Option<i64> {
    if s.len() == 0 {
        None
    } else {
        let neg = s[0] == 45u8;
        let mag = if s[0] == 45u8 || s[0] == 43u8 {
            s.skip(1)
        } else {
            s
        };
        match spec_dec(mag) {
            None => None,
            Some(v) => if neg {
                if v <= 0x8000_0000_0000_0000 {
                    Some((-(v as int)) as i64)
                } else {
                    None
                }
            } else {
                if v <= i64::MAX {
                    Some(v as i64)
                } else {
                    None
                }
            },
        }
    }
}

/// Unsigned 64-bit decimal parse: optional `+` sign, then digits.
pub open spec fn spec_parse_u64(s: Seq<u8>) -> Option<u64> {
    if s.len() == 0 {
        None
    } else {
        let mag = if s[0] == 43u8 {
            s.skip(1)
        } else {
            s
        };
        match spec_dec(mag) {
            None => None,
            Some(v) => if v <= u64::MAX {
                Some(v as u64)
            } else {
                None
            },
        }
    }
}

/// Unsigned 32-bit decimal parse: optional `+` sign, then digits.
pub open spec fn spec_parse_u32(s: Seq<u8>) -> Option<u32> {
    match spec_parse_u64(s) {
        None => None,
        Some(v) => if v <= u32::MAX {
            Some(v as u32)
        } else {
            None
        },
    }
}

/// Boolean parse: exactly `true` or `false`.
pub open spec fn spec_parse_bool(s: Seq<u8>) -> Option<bool> {
    if s.len() == 4 && s[0] == 116u8 && s[1] == 114u8 && s[2] == 117u8 && s[3] == 101u8 {
        Some(true)
    } else if s.len() == 5 && s[0] == 102u8 && s[1] == 97u8 && s[2] == 108u8 && s[3] == 115u8
        && s[4] == 101u8 {
        Some(false)
    } else {
        None
    }
}

/// Parses a signed 64-bit integer.
pub fn parse_i64(s: &[u8]) -> (r: Option<i64>)
    ensures
        r == spec_parse_i64(s@),
{
    if s.len() == 0 {
        return None;
    }
    let b0 = s[0];
    let neg = b0 == 45u8;
    let start: usize = if b0 == 45u8 || b0 == 43u8 {
        1
    } else {
        0
    };
    proof {
        assert(s@.subrange(start as int, s@.len() as int) =~= (if start == 1 {
            s@.skip(1)
        } else {
            s@
        }));
    }
    match dec_range(s, start, s.len()) {
        None => None,
        Some(m) => if neg {
            if m > 0x8000_0000_0000_0000u64 {
                None
            } else if m == 0x8000_0000_0000_0000u64 {
                Some(i64::MIN)
            } else {
                Some(-(m as i64))
            }
        } else {
            if m > i64::MAX as u64 {
                None
            } else {
                Some(m as i64)
            }
        },
    }
}

/// Parses an unsigned 64-bit integer.
pub fn parse_u64(s: &[u8]) -> (r: Option<u64>)
    ensures
        r == spec_parse_u64(s@),
{
    if s.len() == 0 {
        return None;
    }
    let start: usize = if s[0] == 43u8 {
        1
    } else {
        0
    };
    proof {
        assert(s@.subrange(start as int, s@.len() as int) =~= (if start == 1 {
            s@.skip(1)
        } else {
            s@
        }));
    }
    dec_range(s, start, s.len())
}

/// Parses an unsigned 32-bit integer.
pub fn parse_u32(s: &[u8]) -> (r: Option<u32>)
    ensures
        r == spec_parse_u32(s@),
{
    match parse_u64(s) {
        None => None,
        Some(v) => if v > u32::MAX as u64 {
            None
        } else {
            Some(v as u32)
        },
    }
}

/// Parses a boolean attribute value.
pub fn parse_bool(s: &[u8]) -> (r: Option<bool>)
    ensures
        r == spec_parse_bool(s@),
{
    if s.len() == 4 && s[0] == 116u8 && s[1] == 114u8 && s[2] == 117u8 && s[3] == 101u8 {
        Some(true)
    } else if s.len() == 5 && s[0] == 102u8 && s[1] == 97u8 && s[2] == 108u8 && s[3] == 115u8
        && s[4] == 101u8 {
        Some(false)
    } else {
        None
    }
}

} // verus!
