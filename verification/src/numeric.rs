//! Numeric prefix parsing and value normalization.
//!
//! A raw value string such as `"500m"` or `"128Mi"` is reduced to the
//! unsigned integer spelled by its longest leading run of ASCII decimal
//! digits.  A string without a usable prefix — no leading digit, or a digit
//! run whose value does not fit in a `u64` — contributes zero rather than an
//! error: absence of a usable number means "zero resource".  Unit suffixes
//! are ignored entirely; only the magnitude is kept.

use vstd::prelude::*;
use crate::text::chars_of;

verus! {

/// An ASCII decimal digit.
pub open spec fn is_digit(c: char) -> bool {
    48 <= c as u32 <= 57
}

/// Decides digit membership exactly as `is_digit` does.
#[verifier::when_used_as_spec(is_digit)]
pub fn is_digit_char(c: char) -> (b: bool)
    ensures
        b == is_digit(c),
{
    let u = c as u32;
    48 <= u && u <= 57
}

/// The numeric value of digit `c`.
pub open spec fn digit_val(c: char) -> int {
    c as u32 - 48
}

/// The index just past the run of digits of `t` that starts at `i`:
/// the first index at or after `i` holding a non-digit, or `t.len()`.
pub open spec fn digit_run_end(t: Seq<char>, i: int) -> int
    decreases t.len() - i when 0 <= i <= t.len()
{
    if i >= t.len() {
        t.len() as int
    } else if is_digit(t[i]) {
        digit_run_end(t, i + 1)
    } else {
        i
    }
}

/// The value of `t[0..n]` read as a decimal numeral.
pub open spec fn decimal_value(t: Seq<char>, n: int) -> int
    decreases n when 0 <= n <= t.len()
{
    if n <= 0 {
        0
    } else {
        decimal_value(t, n - 1) * 10 + digit_val(t[n - 1])
    }
}

/// The numeric prefix of `t`: the value of its longest leading digit run,
/// or zero when there is no leading digit or the value exceeds `u64::MAX`.
pub open spec fn num_prefix(t: Seq<char>) -> u64 {
    let e = digit_run_end(t, 0);
    if e == 0 {
        0u64
    } else if decimal_value(t, e) > u64::MAX {
        0u64
    } else {
        decimal_value(t, e) as u64
    }
}

/// Basic bounds of `digit_run_end`, and that the run holds digits only.
pub proof fn lemma_digit_run_end(t: Seq<char>, i: int)
    requires
        0 <= i <= t.len(),
    ensures
        i <= digit_run_end(t, i) <= t.len(),
        forall|j: int| i <= j < digit_run_end(t, i) ==> is_digit(#[trigger] t[j]),
        digit_run_end(t, i) < t.len() ==> !is_digit(t[digit_run_end(t, i)]),
    decreases t.len() - i,
{
    if i < t.len() && is_digit(t[i]) {
        lemma_digit_run_end(t, i + 1);
    }
}

/// A decimal numeral of digits only is non-negative.
pub proof fn lemma_decimal_value_nonneg(t: Seq<char>, n: int)
    requires
        0 <= n <= t.len(),
        forall|j: int| 0 <= j < n ==> is_digit(#[trigger] t[j]),
    ensures
        decimal_value(t, n) >= 0,
    decreases n,
{
    if n > 0 {
        lemma_decimal_value_nonneg(t, n - 1);
        assert(0 <= digit_val(t[n - 1]) <= 9);
    }
}

/// A decimal numeral of digits only grows (weakly) with each further digit,
/// so once it exceeds `u64::MAX` at some length it exceeds it at every
/// greater length.
pub proof fn lemma_decimal_value_grows(t: Seq<char>, n: int, e: int)
    requires
        0 <= n <= e <= t.len(),
        forall|j: int| 0 <= j < e ==> is_digit(#[trigger] t[j]),
    ensures
        0 <= decimal_value(t, n) <= decimal_value(t, e),
    decreases e - n,
{
    lemma_decimal_value_nonneg(t, n);
    if n < e {
        lemma_decimal_value_grows(t, n, e - 1);
        lemma_decimal_value_nonneg(t, e - 1);
        assert(decimal_value(t, e) == decimal_value(t, e - 1) * 10 + digit_val(t[e - 1]));
        assert(0 <= digit_val(t[e - 1]) <= 9);
    }
}

/// Extracts the leading unsigned decimal number of `s`, or returns zero when
/// `s` has no leading digit or the number does not fit in a `u64`.
pub fn num_prefix_or_zero(s: &str) -> (r: u64)
    ensures
        r == num_prefix(s@),
{
    let t = chars_of(s);
    let ghost tv = t@;
    let n = t.len();
    let mut i: usize = 0;
    let mut acc: u64 = 0;
    let mut over: bool = false;
    proof {
        lemma_digit_run_end(tv, 0);
    }
    while i < n && is_digit_char(t[i])
        invariant
            tv == t@,
            tv == s@,
            n == tv.len(),
            0 <= i <= n,
            digit_run_end(tv, 0) == digit_run_end(tv, i as int),
            forall|j: int| 0 <= j < i ==> is_digit(#[trigger] tv[j]),
            !over ==> acc == decimal_value(tv, i as int),
            over ==> decimal_value(tv, i as int) > u64::MAX,
        decreases n - i,
    {
        let d = (t[i] as u32 - 48) as u64;
        proof {
            assert(is_digit(tv[i as int]));
            assert(d == digit_val(tv[i as int]));
            assert(decimal_value(tv, i + 1) == decimal_value(tv, i as int) * 10 + d);
        }
        if !over {
            if acc > 1844674407370955161u64 || (acc == 1844674407370955161u64 && d > 5) {
                over = true;
                proof {
                    assert(acc * 10 + d > u64::MAX);
                }
            } else {
                proof {
                    assert(acc * 10 + d <= u64::MAX);
                }
                acc = acc * 10 + d;
            }
        } else {
            proof {
                assert(decimal_value(tv, i as int) >= 0) by {
                    lemma_decimal_value_grows(tv, 0, i as int);
                    lemma_decimal_value_grows(tv, i as int, i as int);
                }
                assert(decimal_value(tv, i + 1) > u64::MAX);
            }
        }
        i = i + 1;
    }
    proof {
        assert(digit_run_end(tv, i as int) == i);
        assert(digit_run_end(tv, 0) == i);
    }
    if over {
        0
    } else if i == 0 {
        0
    } else {
        acc
    }
}

/// Normalizes a raw memory value string: the numeric prefix, unchanged, in
/// whatever magnitude unit the source text used.
pub fn parse_mem(s: &str) -> (r: u64)
    ensures
        r == num_prefix(s@),
{
    num_prefix_or_zero(s)
}

/// Normalizes a raw CPU value string to millicores: the numeric prefix,
/// read as milli-units (a fractional core count times one thousand).
pub fn parse_cpu_milli(s: &str) -> (r: u64)
    ensures
        r == num_prefix(s@),
{
    num_prefix_or_zero(s)
}

} // verus!
