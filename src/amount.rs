//! Decimal text of amounts: reading `"-12.3405"` as ten-thousandths, and
//! splitting an amount into the parts that print it.

use vstd::prelude::*;

use crate::ledger::{in_range, Amount};

verus! {

pub const ASCII_ZERO: u8 = 48;

pub const ASCII_NINE: u8 = 57;

pub const ASCII_DOT: u8 = 46;

pub const ASCII_MINUS: u8 = 45;

/// Whole-unit values at or above this bound give an amount out of range.
const WHOLE_CAP: u64 = 1_000_000_000_000_000;

pub open spec fn is_digit(b: u8) -> bool {
    ASCII_ZERO <= b <= ASCII_NINE
}

pub open spec fn all_digits(s: Seq<u8>) -> bool {
    forall|i: int| 0 <= i < s.len() ==> is_digit(#[trigger] s[i])
}

/// The number that a run of decimal digits writes.
pub open spec fn digits_value(s: Seq<u8>) -> nat
    decreases s.len(),
{
    if s.len() == 0 {
        0
    } else {
        digits_value(s.drop_last()) * 10 + (s.last() - ASCII_ZERO) as nat
    }
}

pub open spec fn pow10(n: nat) -> nat
    decreases n,
{
    if n == 0 {
        1
    } else {
        10 * pow10((n - 1) as nat)
    }
}

/// The index of the first `.` in `s` at or after `i`, or `s.len()`.
pub open spec fn find_dot(s: Seq<u8>, i: int) -> int
    decreases s.len() - i,
{
    if i < 0 || i >= s.len() {
        s.len() as int
    } else if s[i] == ASCII_DOT {
        i
    } else {
        find_dot(s, i + 1)
    }
}

/// The amount that `s` writes, in ten-thousandths: an optional `-`, one or
/// more digits, then optionally `.` and one to four digits. `None` where `s`
/// has another shape or the amount is out of range.
pub open spec fn text_units(s: Seq<u8>) -> Option<int> {
    let neg = s.len() > 0 && s[0] == ASCII_MINUS;
    let body = if neg {
        s.subrange(1, s.len() as int)
    } else {
        s
    };
    let k = find_dot(body, 0);
    let whole = body.subrange(0, k);
    let frac = if k < body.len() {
        body.subrange(k + 1, body.len() as int)
    } else {
        Seq::empty()
    };
    if whole.len() == 0 || !all_digits(whole) || !all_digits(frac) || frac.len() > 4 || (k
        < body.len() && frac.len() == 0) {
        None
    } else {
        let m = (digits_value(whole) * 10000 + digits_value(frac) * pow10((4 - frac.len()) as nat)) as int;
        let v = if neg {
            -m
        } else {
            m
        };
        if in_range(v) {
            Some(v)
        } else {
            None
        }
    }
}

/// Reads the digits of `s[start..end]`: whether all are digits, and their
/// value, or `WHOLE_CAP` where the value reaches it.
fn read_digits(s: &[u8], start: usize, end: usize) -> (r: (bool, u64))
    requires
        start <= end <= s@.len(),
    ensures
        r.0 == all_digits(s@.subrange(start as int, end as int)),
        r.0 ==> r.1 == if digits_value(s@.subrange(start as int, end as int)) < WHOLE_CAP {
            digits_value(s@.subrange(start as int, end as int))
        } else {
            WHOLE_CAP as nat
        },
{
    let mut v: u64 = 0;
    let mut i: usize = start;
    while i < end
        invariant
            start <= i <= end <= s@.len(),
            all_digits(s@.subrange(start as int, i as int)),
            v == if digits_value(s@.subrange(start as int, i as int)) < WHOLE_CAP {
                digits_value(s@.subrange(start as int, i as int))
            } else {
                WHOLE_CAP as nat
            },
        decreases end - i,
    {
        let b = s[i];
        let ghost prefix = s@.subrange(start as int, i as int);
        let ghost next = s@.subrange(start as int, i + 1);
        assert(next.drop_last() =~= prefix);
        if !(ASCII_ZERO <= b && b <= ASCII_NINE) {
            assert(s@.subrange(start as int, end as int)[i - start] == b);
            return (false, 0);
        }
        let d: u64 = (b - ASCII_ZERO) as u64;
        proof {
            let pv = digits_value(prefix);
            assert(digits_value(next) == pv * 10 + d);
            if pv >= WHOLE_CAP {
                assert(pv * 10 + d >= WHOLE_CAP) by (nonlinear_arith)
                    requires
                        pv >= WHOLE_CAP,
                        d >= 0,
                ;
            }
        }
        let w: u64 = v * 10 + d;
        v = if w < WHOLE_CAP {
            w
        } else {
            WHOLE_CAP
        };
        i += 1;
        assert forall|j: int| 0 <= j < next.len() implies is_digit(#[trigger] next[j]) by {
            if j < prefix.len() {
                assert(next[j] == prefix[j]);
            }
        }
    }
    (true, v)
}

proof fn lemma_digits_below_power(s: Seq<u8>)
    requires
        all_digits(s),
    ensures
        digits_value(s) < pow10(s.len()),
    decreases s.len(),
{
    if s.len() > 0 {
        let p = s.drop_last();
        assert(all_digits(p)) by {
            assert forall|i: int| 0 <= i < p.len() implies is_digit(#[trigger] p[i]) by {
                assert(p[i] == s[i]);
            }
        }
        lemma_digits_below_power(p);
        assert(is_digit(s[s.len() - 1]));
        let a = digits_value(p);
        let b = pow10(p.len());
        let d = (s.last() - ASCII_ZERO) as nat;
        assert(a * 10 + d < 10 * b) by (nonlinear_arith)
            requires
                a < b,
                d < 10,
        ;
    }
}

/// Reads a decimal amount such as `"5.0004"` or `"-3"` as ten-thousandths:
/// an optional `-`, one or more digits, then optionally `.` and one to four
/// digits. `None` where the text has another shape or the amount is out of
/// range.
pub fn parse_amount(text: &[u8]) -> (r: Option<Amount>)
    ensures
        r == match text_units(text@) {
            Some(v) => Some(v as i64),
            None => None::<i64>,
        },
{
    let n = text.len();
    let neg = n > 0 && text[0] == ASCII_MINUS;
    let start: usize = if neg {
        1
    } else {
        0
    };
    let ghost body = if neg {
        text@.subrange(1, n as int)
    } else {
        text@
    };
    assert(body =~= text@.subrange(start as int, n as int));
    let mut k: usize = start;
    while k < n && text[k] != ASCII_DOT
        invariant
            start <= k <= n == text@.len(),
            body =~= text@.subrange(start as int, n as int),
            find_dot(body, 0) == find_dot(body, k - start),
        decreases n - k,
    {
        assert(body[k - start] == text@[k as int]);
        k += 1;
    }
    assert(find_dot(body, 0) == k - start) by {
        if k < n {
            assert(body[k - start] == text@[k as int]);
        }
    }
    let ghost whole = body.subrange(0, k - start);
    assert(whole =~= text@.subrange(start as int, k as int));
    if k == start {
        return None;
    }
    let (whole_ok, w) = read_digits(text, start, k);
    if !whole_ok {
        return None;
    }
    let ghost frac = if k < n {
        body.subrange(k - start + 1, body.len() as int)
    } else {
        Seq::empty()
    };
    let mut f: u64 = 0;
    let mut scale: u64 = 1;
    if k < n {
        let frac_len = n - (k + 1);
        assert(frac =~= text@.subrange(k + 1, n as int));
        if frac_len == 0 || frac_len > 4 {
            return None;
        }
        let (frac_ok, fv) = read_digits(text, k + 1, n);
        if !frac_ok {
            return None;
        }
        f = fv;
        scale = if frac_len == 1 {
            1000
        } else if frac_len == 2 {
            100
        } else if frac_len == 3 {
            10
        } else {
            1
        };
        proof {
            lemma_digits_below_power(frac);
            reveal_with_fuel(pow10, 5);
            assert(frac.len() == frac_len);
            assert(pow10(frac.len()) <= 10000);
            assert(scale == pow10((4 - frac.len()) as nat));
        }
    } else {
        assert(frac =~= Seq::<u8>::empty());
        scale = 10000;
        assert(scale == pow10((4 - frac.len()) as nat)) by {
            reveal_with_fuel(pow10, 5);
        }
    }
    assert(f == digits_value(frac));
    assert(f < 10000 && scale <= 10000);
    if w >= WHOLE_CAP {
        assert(digits_value(frac) * pow10((4 - frac.len()) as nat) >= 0) by (nonlinear_arith);
        return None;
    }
    assert(w * 10000 < 10_000_000_000_000_000_000) by (nonlinear_arith)
        requires
            w < WHOLE_CAP,
    ;
    assert(f * scale <= 100_000_000) by (nonlinear_arith)
        requires
            f < 10000,
            scale <= 10000,
    ;
    let m: i128 = w as i128 * 10000 + f as i128 * scale as i128;
    let v: i128 = if neg {
        -m
    } else {
        m
    };
    if v < i64::MIN as i128 || v > i64::MAX as i128 {
        return None;
    }
    Some(v as i64)
}

/// Splits `a` into its sign, whole units and ten-thousandths, as printed.
pub fn amount_parts(a: Amount) -> (r: (bool, u64, u64))
    ensures
        r.0 == (a < 0),
        r.2 < 10000,
        r.1 * 10000 + r.2 == if a < 0 {
            -a
        } else {
            a as int
        },
{
    let m: u64 = if a < 0 {
        (-(a as i128)) as u64
    } else {
        a as u64
    };
    (a < 0, m / 10000, m % 10000)
}

} // verus!
