//! Finite binary64 numbers, held by their bit patterns and ordered exactly.

use vstd::prelude::*;
use vstd::arithmetic::power2::{pow2, lemma_pow2_pos, lemma_pow2_strictly_increases, lemma_pow2_unfold};
use crate::dyadic::normalized;

verus! {

/// Two to the power 52: the number of values of the fraction field.
pub const FRACTION_MODULUS: u64 = 0x10_0000_0000_0000;

/// Two to the power 11: the number of values of the exponent field.
pub const EXPONENT_MODULUS: u64 = 0x800;

/// The exponent field of infinities and NaNs.
pub const EXPONENT_SPECIAL: u64 = 0x7ff;

/// The bit that holds the sign.
pub const SIGN_BIT: u64 = 0x8000_0000_0000_0000;

/// The low 52 bits of a bit pattern.
pub open spec fn fraction_field(bits: u64) -> nat {
    (bits % FRACTION_MODULUS) as nat
}

/// The 11 bits above the fraction.
pub open spec fn exponent_field(bits: u64) -> nat {
    ((bits / FRACTION_MODULUS) % EXPONENT_MODULUS) as nat
}

/// Whether the sign bit is set.
pub open spec fn sign_field(bits: u64) -> bool {
    bits >= SIGN_BIT
}

/// Whether the pattern encodes a number: neither an infinity nor a NaN.
pub open spec fn is_finite(bits: u64) -> bool {
    exponent_field(bits) != EXPONENT_SPECIAL
}

/// The integer significand: the fraction, with the implicit leading bit for
/// normal values.
pub open spec fn significand(bits: u64) -> nat {
    if exponent_field(bits) == 0 {
        fraction_field(bits)
    } else {
        (FRACTION_MODULUS + fraction_field(bits)) as nat
    }
}

/// The power of two by which the significand is scaled, counted from 2^-1074.
pub open spec fn shift(bits: u64) -> nat {
    if exponent_field(bits) == 0 {
        0
    } else {
        (exponent_field(bits) - 1) as nat
    }
}

/// The absolute value of the encoded number, in units of 2^-1074.
pub open spec fn magnitude(bits: u64) -> nat {
    significand(bits) * pow2(shift(bits))
}

/// The encoded number in units of 2^-1074. Both zeros give 0.
pub open spec fn quanta(bits: u64) -> int {
    if sign_field(bits) {
        -(magnitude(bits) as int)
    } else {
        magnitude(bits) as int
    }
}

/// The bit pattern without its sign.
pub open spec fn unsigned_bits(bits: u64) -> nat {
    (bits % SIGN_BIT) as nat
}

/// Among finite patterns, a larger unsigned pattern encodes a larger magnitude.
pub proof fn lemma_magnitude_strictly_increases(x: u64, y: u64)
    requires
        is_finite(x),
        is_finite(y),
        unsigned_bits(x) < unsigned_bits(y),
    ensures
        magnitude(x) < magnitude(y),
        shift(x) <= shift(y),
{
    let ex = exponent_field(x);
    let ey = exponent_field(y);
    let fx = fraction_field(x);
    let fy = fraction_field(y);
    assert(unsigned_bits(x) == ex * FRACTION_MODULUS + fx);
    assert(unsigned_bits(y) == ey * FRACTION_MODULUS + fy);
    let mx = significand(x) as int;
    let my = significand(y) as int;
    let px = pow2(shift(x)) as int;
    let py = pow2(shift(y)) as int;
    lemma_pow2_pos(shift(x));
    lemma_pow2_pos(shift(y));
    if ex == ey {
        assert(mx * px < my * py) by (nonlinear_arith)
            requires
                mx < my,
                px == py,
                px > 0,
        ;
    } else {
        assert(ex < ey);
        if ex == 0 {
            assert(vstd::arithmetic::power2::pow2(0) == 1) by {
                vstd::arithmetic::power2::lemma2_to64();
            }
            assert(mx * px < my * py) by (nonlinear_arith)
                requires
                    0 <= mx < 0x10_0000_0000_0000,
                    my >= 0x10_0000_0000_0000,
                    px == 1,
                    py >= 1,
            ;
        } else {
            let sx = shift(x);
            let sy = shift(y);
            assert(sx + 1 <= sy);
            lemma_pow2_unfold(sx + 1);
            assert((sx + 1 - 1) as nat == sx);
            let pn = pow2(sx + 1) as int;
            assert(pn == 2 * px);
            if sx + 1 < sy {
                lemma_pow2_strictly_increases(sx + 1, sy);
            }
            assert(pn <= py);
            assert(mx * px < my * py) by (nonlinear_arith)
                requires
                    0 <= mx < 0x20_0000_0000_0000,
                    my >= 0x10_0000_0000_0000,
                    px > 0,
                    2 * px <= py,
            ;
        }
    }
}

/// Among finite patterns, the unsigned patterns are ordered as the magnitudes.
pub proof fn lemma_magnitude_order(x: u64, y: u64)
    requires
        is_finite(x),
        is_finite(y),
    ensures
        unsigned_bits(x) <= unsigned_bits(y) <==> magnitude(x) <= magnitude(y),
        unsigned_bits(x) == unsigned_bits(y) <==> magnitude(x) == magnitude(y),
{
    if unsigned_bits(x) < unsigned_bits(y) {
        lemma_magnitude_strictly_increases(x, y);
    } else if unsigned_bits(y) < unsigned_bits(x) {
        lemma_magnitude_strictly_increases(y, x);
    } else {
        assert(exponent_field(x) == exponent_field(y));
        assert(fraction_field(x) == fraction_field(y));
    }
}

/// The all-zero pattern encodes zero.
pub proof fn lemma_zero_pattern()
    ensures
        is_finite(0),
        magnitude(0) == 0,
        quanta(0) == 0,
{
    let p = pow2(0) as int;
    assert(0 * p == 0) by (nonlinear_arith);
}

/// The larger of two numbers; the first where they are equal.
pub open spec fn larger(a: Scalar, b: Scalar) -> Scalar {
    if a@ < b@ {
        b
    } else {
        a
    }
}

/// The smaller of two numbers; the first where they are equal.
pub open spec fn smaller(a: Scalar, b: Scalar) -> Scalar {
    if b@ < a@ {
        b
    } else {
        a
    }
}

/// A finite binary64 number.
///
/// The value is kept as its IEEE-754 bit pattern; its view is the number in
/// units of 2^-1074, which is an integer for every finite pattern.
#[derive(Clone, Copy, Debug, PartialEq, Eq, Structural)]
pub struct Scalar {
    bits: u64,
}

impl View for Scalar {
    type V = int;

    open spec fn view(&self) -> int {
        quanta(self.bits())
    }
}

impl Scalar {
    /// The bit pattern of the number.
    pub closed spec fn bits(&self) -> u64 {
        self.bits
    }

    /// The number with the given bit pattern.
    pub closed spec fn with_bits(bits: u64) -> Scalar {
        Scalar { bits }
    }

    /// A number is its bit pattern and nothing else.
    pub proof fn lemma_with_bits(bits: u64)
        ensures
            Scalar::with_bits(bits).bits() == bits,
    {
    }

    /// Every `Scalar` encodes a finite number.
    #[verifier::type_invariant]
    pub open spec fn wf(&self) -> bool {
        is_finite(self.bits())
    }

    /// Accepts the bit pattern of any finite number and refuses infinities
    /// and NaNs.
    pub fn from_bits(bits: u64) -> (r: Option<Scalar>)
        ensures
            r == (if is_finite(bits) {
                Some(Scalar::with_bits(bits))
            } else {
                None
            }),
            r matches Some(s) ==> s.bits() == bits && s.wf(),
    {
        let exponent: u64 = (bits / FRACTION_MODULUS) % EXPONENT_MODULUS;
        if exponent == EXPONENT_SPECIAL {
            None
        } else {
            Some(Scalar { bits })
        }
    }

    /// The bit pattern the number was made from.
    pub fn to_bits(&self) -> (r: u64)
        ensures
            r == self.bits(),
            is_finite(r),
    {
        proof {
            use_type_invariant(self);
        }
        self.bits
    }

    /// Positive zero.
    pub fn zero() -> (r: Scalar)
        ensures
            r == Scalar::with_bits(0),
            r.bits() == 0,
            r@ == 0,
            r.wf(),
    {
        proof {
            lemma_zero_pattern();
        }
        Scalar { bits: 0 }
    }

    /// Whether the sign bit is set. Negative zero is negative in this sense.
    pub fn is_sign_negative(&self) -> (r: bool)
        ensures
            r == sign_field(self.bits()),
    {
        self.bits >= SIGN_BIT
    }

    /// The integer significand, below 2^53.
    pub fn significand(&self) -> (r: u64)
        ensures
            r == significand(self.bits()),
            normalized(r, shift(self.bits()) as u32),
    {
        proof {
            use_type_invariant(self);
        }
        let exponent: u64 = (self.bits / FRACTION_MODULUS) % EXPONENT_MODULUS;
        let fraction: u64 = self.bits % FRACTION_MODULUS;
        if exponent == 0 {
            fraction
        } else {
            FRACTION_MODULUS + fraction
        }
    }

    /// The binary scale of the significand, at most 2045.
    pub fn shift(&self) -> (r: u32)
        ensures
            r == shift(self.bits()),
            r <= crate::dyadic::SCALE_LIMIT,
    {
        proof {
            use_type_invariant(self);
        }
        let exponent: u64 = (self.bits / FRACTION_MODULUS) % EXPONENT_MODULUS;
        if exponent == 0 {
            0
        } else {
            (exponent - 1) as u32
        }
    }

    /// Whether the number is zero, of either sign.
    pub fn is_zero(&self) -> (r: bool)
        ensures
            r == (self@ == 0),
    {
        proof {
            lemma_pow2_pos(shift(self.bits));
            let m = significand(self.bits) as int;
            let p = pow2(shift(self.bits)) as int;
            assert(m * p == 0 <==> m == 0) by (nonlinear_arith)
                requires
                    m >= 0,
                    p > 0,
            ;
        }
        self.bits % SIGN_BIT == 0
    }

    /// Whether the number is at most `other`.
    pub fn le(&self, other: &Scalar) -> (r: bool)
        ensures
            r == (self@ <= other@),
    {
        proof {
            use_type_invariant(self);
            use_type_invariant(other);
            lemma_magnitude_order(self.bits, other.bits);
            lemma_magnitude_order(other.bits, self.bits);
            lemma_magnitude_order(self.bits, 0);
            lemma_magnitude_order(other.bits, 0);
            lemma_zero_pattern();
        }
        let a: u64 = self.bits % SIGN_BIT;
        let b: u64 = other.bits % SIGN_BIT;
        if self.bits >= SIGN_BIT {
            if other.bits >= SIGN_BIT {
                b <= a
            } else {
                true
            }
        } else {
            if other.bits >= SIGN_BIT {
                a == 0 && b == 0
            } else {
                a <= b
            }
        }
    }

    /// Whether the number is less than `other`.
    pub fn lt(&self, other: &Scalar) -> (r: bool)
        ensures
            r == (self@ < other@),
    {
        !other.le(self)
    }

    /// The larger of the two numbers; `self` where they are equal.
    pub fn max(self, other: Scalar) -> (r: Scalar)
        ensures
            r == larger(self, other),
            r@ == vstd::math::max(self@, other@),
            r.wf(),
    {
        proof {
            use_type_invariant(self);
            use_type_invariant(other);
        }
        if self.lt(&other) {
            other
        } else {
            self
        }
    }

    /// The smaller of the two numbers; `self` where they are equal.
    pub fn min(self, other: Scalar) -> (r: Scalar)
        ensures
            r == smaller(self, other),
            r@ == vstd::math::min(self@, other@),
            r.wf(),
    {
        proof {
            use_type_invariant(self);
            use_type_invariant(other);
        }
        if other.lt(&self) {
            other
        } else {
            self
        }
    }
}

} // verus!
