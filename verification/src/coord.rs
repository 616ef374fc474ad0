//! Coordinate values. A latitude or longitude attribute is a plain decimal
//! number (optional sign, integer digits, optional fraction digits). The
//! library stores it exactly as a fixed-point count of ten-millionths of a
//! degree; fraction digits past the seventh are truncated toward zero.

use vstd::prelude::*;
use crate::numeric::{all_dec_digits, dec_val, is_dec_digit, pow10, spec_dec,
    dec_range, all_digits_range};

verus! {

/// Index of the first `.` in `s`, or -1 when there is none.
pub open spec fn find_dot(s: Seq<u8>) -> int
    decreases s.len(),
{
    if s.len() == 0 {
        -1
    } else if s[0] == 46u8 {
        0
    } else if find_dot(s.skip(1)) == -1 {
        -1
    } else {
        find_dot(s.skip(1)) + 1
    }
}

proof fn lemma_find_dot_at(s: Seq<u8>, k: int)
    requires
        0 <= k < s.len(),
        s[k] == 46u8,
        forall|j: int| 0 <= j < k ==> s[j] != 46u8,
    ensures
        find_dot(s) == k,
    decreases k,
{
    if k > 0 {
        lemma_find_dot_at(s.skip(1), k - 1);
    }
}

proof fn lemma_find_dot_none(s: Seq<u8>)
    requires
        forall|j: int| 0 <= j < s.len() ==> s[j] != 46u8,
    ensures
        find_dot(s) == -1,
    decreases s.len(),
{
    if s.len() > 0 {
        lemma_find_dot_none(s.skip(1));
    }
}

/// The first seven fraction digits, padded on the right with `0` digits.
pub open spec fn pad7(fp: Seq<u8>) -> Seq<u8> {
    let l = if fp.len() < 7 {
        fp.len() as int
    } else {
        7
    };
    fp.take(l) + Seq::new((7 - l) as nat, |i: int| 48u8)
}

/// Fixed-point value of a decimal coordinate string, in ten-millionths.
/// `None` when the string is not of the form `sign? digits+ (. digits+)?`
/// or the scaled magnitude exceeds `i64::MAX`.
pub open spec fn spec_parse_coord(s: Seq<u8>) -> Option<i64> {
    if s.len() == 0 {
        None
    } else {
        let neg = s[0] == 45u8;
        let body = if s[0] == 45u8 || s[0] == 43u8 {
            s.skip(1)
        } else {
            s
        };
        let d = find_dot(body);
        let ip = if d == -1 {
            body
        } else {
            body.take(d)
        };
        let fp = if d == -1 {
            Seq::<u8>::empty()
        } else {
            body.skip(d + 1)
        };
        if ip.len() == 0 || !all_dec_digits(ip) {
            None
        } else if d != -1 && (fp.len() == 0 || !all_dec_digits(fp)) {
            None
        } else {
            let scaled = dec_val(ip) * 10_000_000 + dec_val(pad7(fp));
            if scaled <= i64::MAX {
                if neg {
                    Some((-(scaled as int)) as i64)
                } else {
                    Some(scaled as i64)
                }
            } else {
                None
            }
        }
    }
}

/// Finds the first `.` at or after `from`.
fn find_dot_exec(s: &[u8], from: usize) -> (r: Option<usize>)
    requires
        from <= s@.len(),
    ensures
        match r {
            Some(k) => from <= k < s@.len() && find_dot(s@.skip(from as int)) == k - from,
            None => find_dot(s@.skip(from as int)) == -1,
        },
{
    let ghost body = s@.skip(from as int);
    let mut i: usize = from;
    while i < s.len()
        invariant
            from <= i <= s@.len(),
            body == s@.skip(from as int),
            forall|j: int| 0 <= j < i - from ==> body[j] != 46u8,
        decreases s@.len() - i,
    {
        if s[i] == 46u8 {
            proof {
                assert(body[i - from] == s@[i as int]);
                lemma_find_dot_at(body, i - from);
            }
            return Some(i);
        }
        proof {
            assert(body[i - from] == s@[i as int]);
        }
        i = i + 1;
    }
    proof {
        lemma_find_dot_none(body);
    }
    None
}

/// Accumulates the first seven fraction digits of `s[from..to]`, padded
/// with zeros; requires the range to be all digits.
fn frac7_val(s: &[u8], from: usize, to: usize) -> (r: u64)
    requires
        from <= to <= s@.len(),
        all_dec_digits(s@.subrange(from as int, to as int)),
    ensures
        r == dec_val(pad7(s@.subrange(from as int, to as int))),
        r < 10_000_000,
{
    let ghost fp = s@.subrange(from as int, to as int);
    let ghost padded = pad7(fp);
    proof {
        assert(padded.len() == 7);
        assert forall|j: int| 0 <= j < 7 implies is_dec_digit(padded[j]) by {
            if j < fp.len() && j < 7 {
                assert(padded[j] == fp[j]);
            } else {
                assert(padded[j] == 48u8);
            }
        }
    }
    let mut acc: u64 = 0;
    let mut k: usize = 0;
    while k < 7
        invariant
            0 <= k <= 7,
            from <= to <= s@.len(),
            fp == s@.subrange(from as int, to as int),
            padded == pad7(fp),
            padded.len() == 7,
            all_dec_digits(padded),
            acc == dec_val(padded.take(k as int)),
            acc < pow10(k as nat),
        decreases 7 - k,
    {
        let d: u64 = if k < to - from {
            proof {
                assert(padded[k as int] == fp[k as int]);
                assert(fp[k as int] == s@[from + k]);
            }
            (s[from + k] - 48) as u64
        } else {
            proof {
                assert(padded[k as int] == 48u8);
            }
            0
        };
        proof {
            assert(padded.take(k + 1).drop_last() =~= padded.take(k as int));
            assert(padded.take(k + 1).last() == padded[k as int]);
            assert(pow10((k + 1) as nat) == 10 * pow10(k as nat));
            lemma_pow10_mono(k as nat, 6);
            reveal_with_fuel(pow10, 8);
            assert(pow10(6nat) == 1_000_000);
        }
        acc = acc * 10 + d;
        k = k + 1;
    }
    proof {
        assert(padded.take(7) =~= padded);
        reveal_with_fuel(pow10, 8);
        assert(pow10(7nat) == 10_000_000);
    }
    acc
}

/// Parses a decimal coordinate into ten-millionths of a degree.
pub fn parse_coord(s: &[u8]) -> (r: Option<i64>)
    ensures
        r == spec_parse_coord(s@),
{
    if s.len() == 0 {
        return None;
    }
    let b0 = s[0];
    let neg = b0 == 45u8;
    let start: usize = if b0 == 45u8 || b0 == 43u8 {
        1
    } else {
        0
    };
    let ghost body = if start == 1 {
        s@.skip(1)
    } else {
        s@
    };
    let dot = find_dot_exec(s, start);
    let ip_end: usize = match dot {
        Some(d) => d,
        None => s.len(),
    };
    proof {
        assert(body == s@.skip(start as int));
        match dot {
            Some(d) => {
                assert(find_dot(body) == d - start);
                assert(body.take(d - start) =~= s@.subrange(start as int, d as int));
            },
            None => {
                assert(body =~= s@.subrange(start as int, s@.len() as int));
            },
        }
    }
    let ip_val: u64 = match dec_range(s, start, ip_end) {
        Some(v) => v,
        None => {
            // the integer part is empty, non-numeric, or past any bound
            proof {
                let ghost ip = s@.subrange(start as int, ip_end as int);
                if spec_dec(ip) is Some {
                    let v = spec_dec(ip)->Some_0;
                    assert(v > u64::MAX);
                    assert(dec_val(ip) * 10_000_000 >= dec_val(ip) * 1) by (nonlinear_arith)
                        requires dec_val(ip) >= 0;
                }
            }
            return None;
        },
    };
    let ghost ip = s@.subrange(start as int, ip_end as int);
    let mut frac: u64 = 0;
    match dot {
        Some(d) => {
            if d + 1 >= s.len() {
                // a dot with no fraction digits after it
                return None;
            }
            if !all_digits_range(s, d + 1, s.len()) {
                proof {
                    assert(body.skip(d + 1 - start) =~= s@.subrange(d + 1, s@.len() as int));
                }
                return None;
            }
            proof {
                assert(body.skip(d + 1 - start) =~= s@.subrange(d + 1, s@.len() as int));
            }
            frac = frac7_val(s, d + 1, s.len());
        },
        None => {
            proof {
                assert(pad7(Seq::<u8>::empty()) =~= Seq::new(7nat, |i: int| 48u8));
                let z = pad7(Seq::<u8>::empty());
                assert forall|j: int| 0 <= j < z.len() implies is_dec_digit(z[j]) by {}
                lemma_zeros_val(z);
            }
        },
    }
    if ip_val > 922_337_203_685u64 {
        // scaling by ten million would pass i64::MAX
        proof {
            assert(dec_val(ip) * 10_000_000 > i64::MAX);
        }
        return None;
    }
    let total: u64 = ip_val * 10_000_000 + frac;
    if total > i64::MAX as u64 {
        return None;
    }
    if neg {
        Some(-(total as i64))
    } else {
        Some(total as i64)
    }
}

/// Powers of ten grow with the exponent.
proof fn lemma_pow10_mono(a: nat, b: nat)
    requires
        a <= b,
    ensures
        pow10(a) <= pow10(b),
    decreases b,
{
    if a < b {
        lemma_pow10_mono(a, (b - 1) as nat);
        assert(pow10(b) == 10 * pow10((b - 1) as nat));
    }
}

/// An all-zero digit string has value zero.
proof fn lemma_zeros_val(s: Seq<u8>)
    requires
        forall|j: int| 0 <= j < s.len() ==> s[j] == 48u8,
    ensures
        dec_val(s) == 0,
    decreases s.len(),
{
    if s.len() > 0 {
        lemma_zeros_val(s.drop_last());
    }
}

} // verus!
