//! Truncating integer division, the rounding used throughout the signal path.

use vstd::prelude::*;

verus! {

/// Integer division rounding toward zero, as Rust's `/` does on signed types.
pub open spec fn tdiv(a: int, b: int) -> int
    recommends
        b > 0,
{
    if a >= 0 {
        a / b
    } else {
        -((-a) / b)
    }
}

/// `tdiv` never moves a value away from zero.
pub proof fn lemma_tdiv_bound(a: int, b: int, c: int)
    requires
        b > 0,
        -c <= a <= c,
        0 <= c,
    ensures
        -(c / b) <= tdiv(a, b) <= c / b,
{
    if a >= 0 {
        vstd::arithmetic::div_mod::lemma_div_is_ordered(a, c, b);
        vstd::arithmetic::div_mod::lemma_div_pos_is_pos(a, b);
    } else {
        vstd::arithmetic::div_mod::lemma_div_is_ordered(-a, c, b);
        vstd::arithmetic::div_mod::lemma_div_pos_is_pos(-a, b);
    }
}

/// What remains of a length `n` from position `i` on; never negative.
pub open spec fn len_from(n: int, i: int) -> int {
    if n > i {
        n - i
    } else {
        0
    }
}

/// Truncating division on `i64`, matching `tdiv`.
pub fn div_trunc(a: i64, b: i64) -> (r: i64)
    requires
        b > 0,
        a > i64::MIN,
    ensures
        r == tdiv(a as int, b as int),
        a >= 0 ==> 0 <= r <= a,
        a < 0 ==> a <= r <= 0,
{
    if a >= 0 {
        a / b
    } else {
        proof {
            vstd::arithmetic::div_mod::lemma_div_is_ordered(0, -(a as int), b as int);
            vstd::arithmetic::div_mod::lemma_div_is_ordered_by_denominator(
                -(a as int),
                1,
                b as int,
            );
        }
        -((-a) / b)
    }
}

} // verus!
