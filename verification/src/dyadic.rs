//! Exact arithmetic on sums and differences of two scaled significands.
//!
//! A finite binary64 magnitude is a significand below 2^53 times a power of
//! two. The difference of two of them can span more than two thousand bits,
//! so it is never formed: this module computes its quotient by a power of
//! two, rounded up, and reports a quotient of 2^85 or more as too large to
//! matter.

use vstd::prelude::*;
use vstd::arithmetic::power2::{pow2, lemma_pow2_pos, lemma_pow2_adds, lemma_pow2_strictly_increases, lemma_pow2_unfold, lemma2_to64, lemma2_to64_rest};
use crate::ceiling::{ceil_div, clamped_ceil_div, lemma_ceil_div_unique, lemma_ceil_div_cancel, lemma_ceil_div_add_multiple, lemma_ceil_div_negated, lemma_ceil_div_excess, lemma_ceil_div_deficit, lemma_floor_div_cancel, lemma_ceil_div_multiple, lemma_ceil_div_nested, lemma_ceil_div_exceeds};

verus! {

/// Two to the power 52: the least significand of a normal value.
pub const HIDDEN_BIT: u64 = 0x10_0000_0000_0000;

/// Two to the power 53: the bound of every significand.
pub const SIGNIFICAND_LIMIT: u64 = 0x20_0000_0000_0000;

/// Two to the power 85: a unit count from which every pixel count saturates.
pub const HUGE: u128 = 0x20_0000_0000_0000_0000_0000;

/// Two to the power 120: the bound of the wide intermediate values.
pub const WIDE_LIMIT: u128 = 0x100_0000_0000_0000_0000_0000_0000_0000;

/// The largest scale of a finite value.
pub const SCALE_LIMIT: u32 = 2045;

/// A significand with its scale, as a finite binary64 value decodes.
pub open spec fn normalized(m: u64, s: u32) -> bool {
    &&& m < SIGNIFICAND_LIMIT
    &&& s <= SCALE_LIMIT
    &&& s > 0 ==> m >= HIDDEN_BIT
}

/// The significand `m` scaled by `2^s`.
pub open spec fn weighted(m: u64, s: u32) -> int {
    m * pow2(s as nat)
}

/// The sum of `p` and `q`, or their difference.
pub open spec fn joined(plus: bool, p: int, q: int) -> int {
    if plus {
        p + q
    } else {
        p - q
    }
}

/// Powers of two grow with the exponent.
pub proof fn lemma_pow2_monotonic(a: nat, b: nat)
    requires
        a <= b,
    ensures
        pow2(a) <= pow2(b),
{
    if a < b {
        lemma_pow2_strictly_increases(a, b);
    }
}

/// A power of two splits at any smaller exponent.
pub proof fn lemma_pow2_split(a: nat, b: nat)
    requires
        a <= b,
    ensures
        pow2(b) == pow2((b - a) as nat) * pow2(a),
        pow2(a) > 0,
        pow2((b - a) as nat) > 0,
{
    lemma_pow2_adds((b - a) as nat, a);
    lemma_pow2_pos(a);
    lemma_pow2_pos((b - a) as nat);
}

/// The values of the powers of two that bound the intermediate results.
pub proof fn lemma_pow2_landmarks()
    ensures
        pow2(0) == 1,
        pow2(1) == 2,
        pow2(33) == 0x2_0000_0000,
        pow2(34) == 0x4_0000_0000,
        pow2(52) == HIDDEN_BIT,
        pow2(53) == SIGNIFICAND_LIMIT,
        pow2(64) == 0x1_0000_0000_0000_0000,
        pow2(65) == 0x2_0000_0000_0000_0000,
        pow2(85) == HUGE,
        pow2(120) == WIDE_LIMIT,
{
    lemma2_to64();
    lemma2_to64_rest();
    lemma_pow2_unfold(65);
    lemma_pow2_adds(64, 21);
    lemma_pow2_adds(64, 56);
}

/// Two to the power `e`.
pub(crate) fn power_of_two(e: u32) -> (r: u128)
    requires
        e <= 120,
    ensures
        r == pow2(e as nat),
        1 <= r <= WIDE_LIMIT,
{
    let mut r: u128 = 1;
    let mut i: u32 = 0;
    proof {
        lemma_pow2_landmarks();
    }
    while i < e
        invariant
            i <= e,
            e <= 120,
            r == pow2(i as nat),
        decreases e - i,
    {
        proof {
            lemma_pow2_unfold((i + 1) as nat);
            lemma_pow2_monotonic((i + 1) as nat, 120);
            lemma_pow2_landmarks();
        }
        r = r * 2;
        i = i + 1;
    }
    proof {
        lemma_pow2_pos(e as nat);
        lemma_pow2_monotonic(e as nat, 120);
        lemma_pow2_landmarks();
    }
    r
}

/// The quotient of `m` by `2^j`, rounded down.
pub(crate) fn floor_shift(m: u128, j: u32) -> (r: u128)
    requires
        m < WIDE_LIMIT,
    ensures
        r == m as int / pow2(j as nat) as int,
        r <= m,
{
    if j > 120 {
        proof {
            lemma_pow2_landmarks();
            lemma_pow2_monotonic(120, j as nat);
            let p = pow2(j as nat) as int;
            let x = m as int;
            assert(x / p == 0) by (nonlinear_arith)
                requires
                    0 <= x < p,
            ;
        }
        0
    } else {
        let p: u128 = power_of_two(j);
        proof {
            let x = m as int;
            let d = p as int;
            assert(0 <= x / d <= x) by (nonlinear_arith)
                requires
                    0 <= x,
                    d >= 1,
            ;
        }
        m / p
    }
}

/// The quotient of `n` by `d`, rounded up.
pub(crate) fn ceil_quotient(n: u128, d: u128) -> (r: u128)
    requires
        d > 0,
    ensures
        r == ceil_div(n as int, d as int),
        r <= n,
        n > 0 ==> r >= 1,
{
    let q: u128 = n / d;
    let rest: u128 = n % d;
    proof {
        let x = n as int;
        let y = d as int;
        assert(x == y * (x / y) + x % y && 0 <= x / y <= x) by (nonlinear_arith)
            requires
                0 <= x,
                y >= 1,
        ;
        let c: int = if rest == 0 {
            q as int
        } else {
            q + 1
        };
        assert((c - 1) * y < x <= c * y) by (nonlinear_arith)
            requires
                x == y * (q as int) + (rest as int),
                0 <= (rest as int) < y,
                c == (if rest == 0 {
                    q as int
                } else {
                    q + 1
                }),
        ;
        lemma_ceil_div_unique(x, y, c);
        if rest == 0 && n > 0 {
            assert(q >= 1) by (nonlinear_arith)
                requires
                    x == y * (q as int),
                    x > 0,
                    y >= 1,
            ;
        }
        if rest != 0 {
            assert(q + 1 <= x) by (nonlinear_arith)
                requires
                    x == y * (q as int) + (rest as int),
                    0 < (rest as int),
                    y >= 1,
                    q >= 0,
            ;
        }
    }
    if rest == 0 {
        q
    } else {
        q + 1
    }
}

/// The quotient of `m` by `2^j`, rounded up.
pub(crate) fn ceil_shift(m: u128, j: u32) -> (r: u128)
    requires
        m < WIDE_LIMIT,
    ensures
        r == ceil_div(m as int, pow2(j as nat) as int),
        r <= m,
        m > 0 ==> r >= 1,
{
    if j > 120 {
        proof {
            lemma_pow2_landmarks();
            lemma_pow2_monotonic(120, j as nat);
            let p = pow2(j as nat) as int;
            if m > 0 {
                assert((1 - 1) * p < m <= 1 * p) by (nonlinear_arith)
                    requires
                        0 < m < p,
                ;
                lemma_ceil_div_unique(m as int, p, 1);
            } else {
                assert((0 - 1) * p < 0 <= 0 * p) by (nonlinear_arith)
                    requires
                        p > 0,
                ;
                lemma_ceil_div_unique(0, p, 0);
            }
        }
        if m > 0 {
            1
        } else {
            0
        }
    } else {
        ceil_quotient(m, power_of_two(j))
    }
}

/// What `unit_ceiling` reports of the numerator `n` and the unit `2^sr`: the
/// exact ceiling of their quotient, or that it is at least 2^85.
pub open spec fn unit_count_matches(r: Option<u128>, n: int, sr: u32) -> bool {
    match r {
        Some(c) => c == ceil_div(n, pow2(sr as nat) as int),
        None => ceil_div(n, pow2(sr as nat) as int) >= HUGE,
    }
}

/// The case where both terms are whole multiples of the unit.
fn units_aligned(plus: bool, mp: u64, sp: u32, mq: u64, sq: u32, sr: u32) -> (r: Option<u128>)
    requires
        normalized(mp, sp),
        normalized(mq, sq),
        sr <= sq <= sp,
        joined(plus, weighted(mp, sp), weighted(mq, sq)) > 0,
    ensures
        unit_count_matches(r, joined(plus, weighted(mp, sp), weighted(mq, sq)), sr),
{
    let d: u32 = sp - sq;
    let k: u32 = sq - sr;
    let ghost u = pow2(sr as nat) as int;
    let ghost z = pow2(sq as nat) as int;
    let ghost t = pow2(sp as nat) as int;
    let ghost pk = pow2(k as nat) as int;
    let ghost pd = pow2(d as nat) as int;
    let ghost n = joined(plus, weighted(mp, sp), weighted(mq, sq));
    let ghost x = joined(plus, mp * pd, mq as int);
    proof {
        lemma_pow2_landmarks();
        lemma_pow2_split(sr as nat, sq as nat);
        lemma_pow2_split(sq as nat, sp as nat);
        assert(n == (x * pk) * u && pk * u > 0 && n == x * (pk * u)) by (nonlinear_arith)
            requires
                n == joined(plus, mp * t, mq * z),
                x == joined(plus, mp * pd, mq as int),
                t == pd * z,
                z == pk * u,
                pk > 0,
                u > 0,
        ;
        assert(x > 0) by (nonlinear_arith)
            requires
                n > 0,
                n == x * (pk * u),
                pk * u > 0,
        ;
        lemma_ceil_div_multiple(x * pk, u);
        assert(x * pk >= x) by (nonlinear_arith)
            requires
                x > 0,
                pk >= 1,
        ;
    }
    if d <= 64 {
        let wd: u128 = power_of_two(d);
        proof {
            lemma_pow2_monotonic(d as nat, 64);
            assert(mp * wd < 0x20_0000_0000_0000 * 0x1_0000_0000_0000_0000) by (nonlinear_arith)
                requires
                    0 <= mp < 0x20_0000_0000_0000,
                    0 < wd <= 0x1_0000_0000_0000_0000,
            ;
        }
        let big: u128 = (mp as u128) * wd;
        let m: u128 = if plus {
            big + mq as u128
        } else {
            big - mq as u128
        };
        assert(m == x);
        if k > 120 {
            proof {
                lemma_pow2_monotonic(120, k as nat);
                assert(x * pk >= 0x100_0000_0000_0000_0000_0000_0000_0000) by (nonlinear_arith)
                    requires
                        x >= 1,
                        pk >= 0x100_0000_0000_0000_0000_0000_0000_0000,
                ;
            }
            None
        } else {
            let wk: u128 = power_of_two(k);
            m.checked_mul(wk)
        }
    } else {
        proof {
            lemma_pow2_monotonic(65, d as nat);
            assert(mp * pd >= 0x10_0000_0000_0000 * 0x2_0000_0000_0000_0000) by (nonlinear_arith)
                requires
                    mp >= 0x10_0000_0000_0000,
                    pd >= 0x2_0000_0000_0000_0000,
            ;
        }
        None
    }
}

/// The case where the larger term is a whole multiple of the unit and the
/// smaller term lies below it.
fn units_straddling(plus: bool, mp: u64, sp: u32, mq: u64, sq: u32, sr: u32) -> (r: Option<u128>)
    requires
        normalized(mp, sp),
        normalized(mq, sq),
        sq < sr <= sp,
        joined(plus, weighted(mp, sp), weighted(mq, sq)) > 0,
    ensures
        unit_count_matches(r, joined(plus, weighted(mp, sp), weighted(mq, sq)), sr),
{
    let kp: u32 = sp - sr;
    let j: u32 = sr - sq;
    let ghost u = pow2(sr as nat) as int;
    let ghost z = pow2(sq as nat) as int;
    let ghost t = pow2(sp as nat) as int;
    let ghost pk = pow2(kp as nat) as int;
    let ghost pj = pow2(j as nat) as int;
    let ghost n = joined(plus, weighted(mp, sp), weighted(mq, sq));
    let ghost a = mp * pk;
    let ghost y = mq * z;
    proof {
        lemma_pow2_landmarks();
        lemma_pow2_split(sr as nat, sp as nat);
        lemma_pow2_split(sq as nat, sr as nat);
        lemma_pow2_monotonic(1, j as nat);
        assert(mp * t == a * u) by (nonlinear_arith)
            requires
                t == pk * u,
                a == mp * pk,
        ;
        assert(u == pj * z);
        if plus {
            lemma_ceil_div_add_multiple(a, y, u);
            lemma_ceil_div_cancel(mq as int, pj, z);
            assert(n == a * u + y);
        } else {
            lemma_ceil_div_add_multiple(a, -y, u);
            lemma_ceil_div_negated(y, u);
            lemma_floor_div_cancel(mq as int, pj, z);
            assert(n == a * u + (-y));
        }
        let f = mq as int / pj;
        assert(0 <= 2 * f <= mq) by (nonlinear_arith)
            requires
                f == mq as int / pj,
                pj >= 2,
                mq >= 0,
        ;
        lemma_ceil_div_exceeds(mq as int, pj, -1);
    }
    if kp >= 34 {
        proof {
            lemma_pow2_monotonic(34, kp as nat);
            assert(a >= 0x10_0000_0000_0000 * 0x4_0000_0000) by (nonlinear_arith)
                requires
                    a == mp * pk,
                    mp >= 0x10_0000_0000_0000,
                    pk >= 0x4_0000_0000,
            ;
        }
        None
    } else {
        let wk: u128 = power_of_two(kp);
        proof {
            lemma_pow2_monotonic(kp as nat, 33);
            assert(0x10_0000_0000_0000 <= mp * wk < 0x20_0000_0000_0000 * 0x2_0000_0000) by (nonlinear_arith)
                requires
                    0x10_0000_0000_0000 <= mp < 0x20_0000_0000_0000,
                    1 <= wk <= 0x2_0000_0000,
            ;
        }
        let whole: u128 = (mp as u128) * wk;
        if plus {
            let part: u128 = ceil_shift(mq as u128, j);
            Some(whole + part)
        } else {
            let part: u128 = floor_shift(mq as u128, j);
            Some(whole - part)
        }
    }
}

/// The case where both terms lie below the unit.
fn units_below(plus: bool, mp: u64, sp: u32, mq: u64, sq: u32, sr: u32) -> (r: Option<u128>)
    requires
        normalized(mp, sp),
        normalized(mq, sq),
        sq <= sp < sr,
        sr <= SCALE_LIMIT,
        joined(plus, weighted(mp, sp), weighted(mq, sq)) > 0,
    ensures
        unit_count_matches(r, joined(plus, weighted(mp, sp), weighted(mq, sq)), sr),
{
    let jp: u32 = sr - sp;
    let jq: u32 = sr - sq;
    let d: u32 = sp - sq;
    let ghost u = pow2(sr as nat) as int;
    let ghost z = pow2(sq as nat) as int;
    let ghost t = pow2(sp as nat) as int;
    let ghost pjp = pow2(jp as nat) as int;
    let ghost pjq = pow2(jq as nat) as int;
    let ghost pd = pow2(d as nat) as int;
    let ghost n = joined(plus, weighted(mp, sp), weighted(mq, sq));
    proof {
        lemma_pow2_landmarks();
        lemma_pow2_split(sp as nat, sr as nat);
        lemma_pow2_split(sq as nat, sr as nat);
        lemma_pow2_split(sq as nat, sp as nat);
        assert(u == pjp * t);
        assert(u == pjq * z);
        assert(t == pd * z);
    }
    if d <= 64 {
        let wd: u128 = power_of_two(d);
        let ghost x = joined(plus, mp * pd, mq as int);
        proof {
            lemma_pow2_monotonic(d as nat, 64);
            assert(mp * wd < 0x20_0000_0000_0000 * 0x1_0000_0000_0000_0000) by (nonlinear_arith)
                requires
                    0 <= mp < 0x20_0000_0000_0000,
                    0 < wd <= 0x1_0000_0000_0000_0000,
            ;
            assert(n == x * z) by (nonlinear_arith)
                requires
                    n == joined(plus, mp * t, mq * z),
                    x == joined(plus, mp * pd, mq as int),
                    t == pd * z,
            ;
            assert(x > 0) by (nonlinear_arith)
                requires
                    n > 0,
                    n == x * z,
                    z > 0,
            ;
            lemma_ceil_div_cancel(x, pjq, z);
        }
        let big: u128 = (mp as u128) * wd;
        let m: u128 = if plus {
            big + mq as u128
        } else {
            big - mq as u128
        };
        assert(m == x);
        Some(ceil_shift(m, jq))
    } else if mq == 0 {
        proof {
            assert(n == mp * t) by (nonlinear_arith)
                requires
                    n == joined(plus, mp * t, mq * z),
                    mq == 0,
            ;
            lemma_ceil_div_cancel(mp as int, pjp, t);
        }
        Some(ceil_shift(mp as u128, jp))
    } else {
        let ghost y = mq * z;
        proof {
            lemma_pow2_adds(53, sq as nat);
            lemma_pow2_monotonic((53 + sq) as nat, sp as nat);
            assert(0 < y < 0x20_0000_0000_0000 * z) by (nonlinear_arith)
                requires
                    y == mq * z,
                    0 < mq < 0x20_0000_0000_0000,
                    z > 0,
            ;
            assert(0 < y < t);
            if plus {
                lemma_ceil_div_excess(mp as int, t, y, pjp);
                assert(n == mp * t + y);
            } else {
                lemma_ceil_div_deficit(mp as int, t, y, pjp);
                assert(n == mp * t - y);
            }
        }
        if plus {
            Some(floor_shift(mp as u128, jp) + 1)
        } else {
            Some(ceil_shift(mp as u128, jp))
        }
    }
}

/// The quotient of `mp * 2^sp + mq * 2^sq`, or of their difference, by
/// `2^sr`, rounded up; `None` where it is 2^85 or more.
pub(crate) fn unit_ceiling(plus: bool, mp: u64, sp: u32, mq: u64, sq: u32, sr: u32) -> (r: Option<u128>)
    requires
        normalized(mp, sp),
        normalized(mq, sq),
        sq <= sp,
        sr <= SCALE_LIMIT,
        joined(plus, weighted(mp, sp), weighted(mq, sq)) > 0,
    ensures
        unit_count_matches(r, joined(plus, weighted(mp, sp), weighted(mq, sq)), sr),
{
    if sq >= sr {
        units_aligned(plus, mp, sp, mq, sq, sr)
    } else if sp >= sr {
        units_straddling(plus, mp, sp, mq, sq, sr)
    } else {
        units_below(plus, mp, sp, mq, sq, sr)
    }
}

/// The quotient of `mp * 2^sp + mq * 2^sq`, or of their difference, by
/// `mr * 2^sr`, rounded up and held to the range of `u32`.
pub(crate) fn clamped_ratio(plus: bool, mp: u64, sp: u32, mq: u64, sq: u32, mr: u64, sr: u32) -> (r: u32)
    requires
        normalized(mp, sp),
        normalized(mq, sq),
        normalized(mr, sr),
        sq <= sp,
        mr > 0,
        joined(plus, weighted(mp, sp), weighted(mq, sq)) > 0,
    ensures
        r == clamped_ceil_div(
            joined(plus, weighted(mp, sp), weighted(mq, sq)),
            weighted(mr, sr),
        ),
{
    let units = unit_ceiling(plus, mp, sp, mq, sq, sr);
    let ghost n = joined(plus, weighted(mp, sp), weighted(mq, sq));
    let ghost u = pow2(sr as nat) as int;
    proof {
        lemma_pow2_pos(sr as nat);
        lemma_ceil_div_nested(n, u, mr as int);
        assert(u * mr == mr * u) by (nonlinear_arith);
    }
    match units {
        None => {
            proof {
                let c = ceil_div(n, u);
                assert(c > u32::MAX * mr) by (nonlinear_arith)
                    requires
                        c >= 0x20_0000_0000_0000_0000_0000,
                        0 < mr < 0x20_0000_0000_0000,
                        u32::MAX == 0xffff_ffff,
                ;
                lemma_ceil_div_exceeds(c, mr as int, u32::MAX as int);
            }
            u32::MAX
        },
        Some(c) => {
            let count: u128 = ceil_quotient(c, mr as u128);
            if count >= u32::MAX as u128 {
                u32::MAX
            } else {
                count as u32
            }
        },
    }
}

} // verus!
