//! Facts about floor and ceiling division on nonnegative integers.
use vstd::arithmetic::div_mod::lemma_remainder;
use vstd::prelude::*;

verus! {

/// `x / d` rounded up, for `d > 0`.
pub open spec fn ceil_div(x: int, d: int) -> int {
    (x + d - 1) / d
}

/// The floor quotient `q = x / d` is the one integer with `q * d <= x < q * d + d`.
pub proof fn lemma_floor_div_bounds(x: int, d: int)
    requires
        0 <= x,
        0 < d,
    ensures
        0 <= x / d,
        (x / d) * d <= x,
        x < (x / d) * d + d,
{
    lemma_remainder(x, d);
    assert(0 <= x / d) by (nonlinear_arith)
        requires
            0 <= x,
            0 < d,
            x - (x / d) * d < d,
    ;
}

/// The ceiling quotient `c = ceil_div(x, d)` is the one integer with
/// `x <= c * d < x + d`.
pub proof fn lemma_ceil_div_bounds(x: int, d: int)
    requires
        0 <= x,
        0 < d,
    ensures
        0 <= ceil_div(x, d),
        x <= ceil_div(x, d) * d,
        ceil_div(x, d) * d < x + d,
{
    lemma_floor_div_bounds(x + d - 1, d);
}

/// A quotient bounded by products: if `q * d <= x < (q + 1) * d` then `q == x / d`.
pub proof fn lemma_floor_div_unique(x: int, d: int, q: int)
    requires
        0 <= x,
        0 < d,
        q * d <= x,
        x < q * d + d,
    ensures
        x / d == q,
{
    lemma_floor_div_bounds(x, d);
    let r = x / d;
    assert(r == q) by (nonlinear_arith)
        requires
            0 < d,
            q * d <= x,
            x < q * d + d,
            r * d <= x,
            x < r * d + d,
    ;
}

/// Rounding up never passes a bound that the exact quotient respects:
/// `x <= a * d` gives `ceil_div(x, d) <= a`.
pub proof fn lemma_ceil_div_at_most(x: int, d: int, a: int)
    requires
        0 <= x,
        0 < d,
        x <= a * d,
    ensures
        ceil_div(x, d) <= a,
{
    lemma_ceil_div_bounds(x, d);
    let c = ceil_div(x, d);
    assert(c <= a) by (nonlinear_arith)
        requires
            0 < d,
            x <= a * d,
            c * d < x + d,
    ;
}

/// `q * d / d == q` for `d > 0`, the rounded-up form included.
pub proof fn lemma_ceil_div_exact(q: int, d: int)
    requires
        0 <= q,
        0 < d,
    ensures
        ceil_div(q * d, d) == q,
{
    assert(0 <= q * d) by (nonlinear_arith)
        requires
            0 <= q,
            0 < d,
    ;
    assert(q * d + d - 1 < q * d + d);
    lemma_floor_div_unique(q * d + d - 1, d, q);
}

/// The product of two `u64` values leaves room for two more `u64` values in a `u128`.
pub proof fn lemma_product_fits_u128(a: int, b: int)
    requires
        0 <= a <= u64::MAX,
        0 <= b <= u64::MAX,
    ensures
        0 <= a * b,
        a * b + 2 * (u64::MAX as int) <= u128::MAX,
{
    assert(0 <= a * b <= (u64::MAX as int) * (u64::MAX as int)) by (nonlinear_arith)
        requires
            0 <= a <= u64::MAX,
            0 <= b <= u64::MAX,
    ;
}

} // verus!
