//! Ceiling division over the integers, and the identities the raster sizing
//! rests on.

use vstd::prelude::*;

verus! {

/// The quotient `n / d` rounded up, for a positive divisor.
pub open spec fn ceil_div(n: int, d: int) -> int
    recommends
        d > 0,
{
    (n + d - 1) / d
}

/// The ceiling is the least integer `c` with `n <= c * d`.
pub proof fn lemma_ceil_div_bounds(n: int, d: int)
    requires
        d > 0,
    ensures
        (ceil_div(n, d) - 1) * d < n <= ceil_div(n, d) * d,
{
    let c = ceil_div(n, d);
    let m = n + d - 1;
    assert(m == d * (m / d) + m % d && 0 <= m % d < d) by (nonlinear_arith)
        requires
            d > 0,
    ;
    assert((c - 1) * d == c * d - d && c * d == d * c) by (nonlinear_arith);
}

/// An integer between whose multiples `n` lies is the ceiling.
pub proof fn lemma_ceil_div_unique(n: int, d: int, c: int)
    requires
        d > 0,
        (c - 1) * d < n <= c * d,
    ensures
        ceil_div(n, d) == c,
{
    lemma_ceil_div_bounds(n, d);
    let k = ceil_div(n, d);
    assert(k == c) by (nonlinear_arith)
        requires
            d > 0,
            (c - 1) * d < n <= c * d,
            (k - 1) * d < n <= k * d,
    ;
}

/// The ceiling grows with the dividend.
pub proof fn lemma_ceil_div_monotonic(n1: int, n2: int, d: int)
    requires
        d > 0,
        n1 <= n2,
    ensures
        ceil_div(n1, d) <= ceil_div(n2, d),
{
    lemma_ceil_div_bounds(n1, d);
    lemma_ceil_div_bounds(n2, d);
    let a = ceil_div(n1, d);
    let b = ceil_div(n2, d);
    assert(a <= b) by (nonlinear_arith)
        requires
            d > 0,
            n1 <= n2,
            (a - 1) * d < n1,
            n2 <= b * d,
    ;
}

/// A dividend above `k * d` has a ceiling above `k`.
pub proof fn lemma_ceil_div_exceeds(n: int, d: int, k: int)
    requires
        d > 0,
        n > k * d,
    ensures
        ceil_div(n, d) > k,
{
    lemma_ceil_div_bounds(n, d);
    let c = ceil_div(n, d);
    assert(c > k) by (nonlinear_arith)
        requires
            d > 0,
            n > k * d,
            n <= c * d,
    ;
}

/// A dividend of at most `k * d` has a ceiling of at most `k`.
pub proof fn lemma_ceil_div_at_most(n: int, d: int, k: int)
    requires
        d > 0,
        n <= k * d,
    ensures
        ceil_div(n, d) <= k,
{
    lemma_ceil_div_bounds(n, d);
    let c = ceil_div(n, d);
    assert(c <= k) by (nonlinear_arith)
        requires
            d > 0,
            n <= k * d,
            (c - 1) * d < n,
    ;
}

/// A common positive factor of dividend and divisor cancels.
pub proof fn lemma_ceil_div_cancel(n: int, d: int, z: int)
    requires
        d > 0,
        z > 0,
    ensures
        ceil_div(n * z, d * z) == ceil_div(n, d),
{
    lemma_ceil_div_bounds(n, d);
    let c = ceil_div(n, d);
    assert((c - 1) * (d * z) < n * z <= c * (d * z) && d * z > 0) by (nonlinear_arith)
        requires
            d > 0,
            z > 0,
            (c - 1) * d < n <= c * d,
    ;
    lemma_ceil_div_unique(n * z, d * z, c);
}

/// A whole multiple of the divisor divides exactly.
pub proof fn lemma_ceil_div_multiple(a: int, d: int)
    requires
        d > 0,
    ensures
        ceil_div(a * d, d) == a,
{
    assert((a - 1) * d < a * d) by (nonlinear_arith)
        requires
            d > 0,
    ;
    lemma_ceil_div_unique(a * d, d, a);
}

/// The ceiling held to the range of `u32`: nothing below zero, nothing above
/// the largest value.
pub open spec fn clamped_ceil_div(n: int, d: int) -> int
    recommends
        d > 0,
{
    let c = ceil_div(n, d);
    if c <= 0 {
        0
    } else if c >= u32::MAX {
        u32::MAX as int
    } else {
        c
    }
}

/// A whole multiple of the divisor comes out of the ceiling.
pub proof fn lemma_ceil_div_add_multiple(a: int, x: int, d: int)
    requires
        d > 0,
    ensures
        ceil_div(a * d + x, d) == a + ceil_div(x, d),
{
    lemma_ceil_div_bounds(x, d);
    let c = ceil_div(x, d);
    assert((a + c - 1) * d < a * d + x <= (a + c) * d) by (nonlinear_arith)
        requires
            (c - 1) * d < x <= c * d,
    ;
    lemma_ceil_div_unique(a * d + x, d, a + c);
}

/// The ceiling of a negated dividend is the negated floor.
pub proof fn lemma_ceil_div_negated(x: int, d: int)
    requires
        d > 0,
    ensures
        ceil_div(-x, d) == -(x / d),
{
    let q = x / d;
    assert(x == d * q + x % d && 0 <= x % d < d) by (nonlinear_arith)
        requires
            d > 0,
            q == x / d,
    ;
    assert((-q - 1) * d < -x <= (-q) * d) by (nonlinear_arith)
        requires
            x == d * q + x % d,
            0 <= x % d < d,
    ;
    lemma_ceil_div_unique(-x, d, -q);
}

/// Rounding up twice is rounding up once by the product.
pub proof fn lemma_ceil_div_nested(n: int, a: int, b: int)
    requires
        a > 0,
        b > 0,
    ensures
        ceil_div(ceil_div(n, a), b) == ceil_div(n, a * b),
{
    lemma_ceil_div_bounds(n, a);
    let c1 = ceil_div(n, a);
    lemma_ceil_div_bounds(c1, b);
    let c2 = ceil_div(c1, b);
    assert((c2 - 1) * (a * b) < n <= c2 * (a * b) && a * b > 0) by (nonlinear_arith)
        requires
            a > 0,
            b > 0,
            (c1 - 1) * a < n <= c1 * a,
            (c2 - 1) * b < c1 <= c2 * b,
    ;
    lemma_ceil_div_unique(n, a * b, c2);
}

/// A positive excess below one unit `t` pushes the quotient of `m` by `d` to
/// the next integer above its floor.
pub proof fn lemma_ceil_div_excess(m: int, t: int, q: int, d: int)
    requires
        d > 0,
        0 < q < t,
    ensures
        ceil_div(m * t + q, d * t) == m / d + 1,
{
    let f = m / d;
    assert(m == d * f + m % d && 0 <= m % d < d) by (nonlinear_arith)
        requires
            d > 0,
            f == m / d,
    ;
    let r = m % d;
    assert(f * (d * t) < m * t + q <= (f + 1) * (d * t) && d * t > 0) by (nonlinear_arith)
        requires
            d > 0,
            0 < q < t,
            m == d * f + r,
            0 <= r < d,
    ;
    lemma_ceil_div_unique(m * t + q, d * t, f + 1);
}

/// A positive deficit below one unit `t` leaves the ceiling of `m` by `d`
/// unchanged.
pub proof fn lemma_ceil_div_deficit(m: int, t: int, q: int, d: int)
    requires
        d > 0,
        0 < q < t,
    ensures
        ceil_div(m * t - q, d * t) == ceil_div(m, d),
{
    lemma_ceil_div_bounds(m, d);
    let c = ceil_div(m, d);
    assert((c - 1) * (d * t) < m * t - q <= c * (d * t) && d * t > 0) by (nonlinear_arith)
        requires
            d > 0,
            0 < q < t,
            (c - 1) * d < m <= c * d,
    ;
    lemma_ceil_div_unique(m * t - q, d * t, c);
}

/// A common positive factor cancels in a floor as well.
pub proof fn lemma_floor_div_cancel(n: int, d: int, z: int)
    requires
        d > 0,
        z > 0,
    ensures
        (n * z) / (d * z) == n / d,
{
    lemma_ceil_div_negated(n, d);
    lemma_ceil_div_cancel(-n, d, z);
    assert(d * z > 0) by (nonlinear_arith)
        requires
            d > 0,
            z > 0,
    ;
    lemma_ceil_div_negated(n * z, d * z);
    assert((-n) * z == -(n * z)) by (nonlinear_arith);
}

} // verus!
