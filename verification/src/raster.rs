//! The size of the raster: how many pixels of a given resolution cover an
//! extent.
//!
//! Extents and resolutions are exact numbers, so the count is the ceiling of
//! their exact quotient: the tile always covers the extent, and no rounding
//! of the quotient can lose a pixel.

use vstd::prelude::*;
use vstd::arithmetic::power2::{pow2, lemma_pow2_pos};
use crate::ceiling::{clamped_ceil_div, lemma_ceil_div_at_most, lemma_ceil_div_bounds, lemma_ceil_div_exceeds, lemma_ceil_div_monotonic};
use crate::dyadic::clamped_ratio;
use crate::region::BoundingBox2D;
use crate::scalar::{Scalar, magnitude, significand, shift, lemma_magnitude_order, lemma_magnitude_strictly_increases};

verus! {

/// The number of pixels that cover `extent` at `resolution`, both in the
/// same unit: the quotient rounded up, zero for an extent that is not
/// positive, and the largest `u32` where the quotient exceeds it.
pub open spec fn pixel_count(extent: int, resolution: int) -> int
    recommends
        resolution > 0,
{
    clamped_ceil_div(extent, resolution)
}

/// A count below the largest `u32` is the ceiling of the quotient: the least
/// number of pixels that cover the extent. An extent that needs more pixels
/// than a `u32` holds gets the largest `u32`.
pub proof fn lemma_pixel_count_is_ceiling(extent: int, resolution: int)
    requires
        resolution > 0,
        extent >= 0,
    ensures
        0 <= pixel_count(extent, resolution) <= u32::MAX,
        extent <= u32::MAX * resolution ==> (pixel_count(extent, resolution) - 1) * resolution
            < extent <= pixel_count(extent, resolution) * resolution,
        extent > u32::MAX * resolution ==> pixel_count(extent, resolution) == u32::MAX,
{
    lemma_ceil_div_bounds(extent, resolution);
    if extent <= u32::MAX * resolution {
        lemma_ceil_div_at_most(extent, resolution, u32::MAX as int);
        lemma_ceil_div_exceeds(extent, resolution, -1);
    } else {
        lemma_ceil_div_exceeds(extent, resolution, u32::MAX as int);
    }
}

/// A larger extent never needs fewer pixels.
pub proof fn lemma_pixel_count_monotonic(smaller: int, larger: int, resolution: int)
    requires
        resolution > 0,
        smaller <= larger,
    ensures
        pixel_count(smaller, resolution) <= pixel_count(larger, resolution),
{
    lemma_ceil_div_monotonic(smaller, larger, resolution);
}

/// Doubling the extent at a fixed resolution never decreases the count.
pub proof fn lemma_pixel_count_doubling(extent: int, resolution: int)
    requires
        resolution > 0,
        extent >= 0,
    ensures
        pixel_count(2 * extent, resolution) >= pixel_count(extent, resolution),
{
    lemma_pixel_count_monotonic(extent, 2 * extent, resolution);
}

/// The size of one pixel in meters: a finite number above zero.
#[derive(Clone, Copy, Debug, PartialEq, Eq, Structural)]
pub struct Resolution {
    value: Scalar,
}

impl View for Resolution {
    type V = int;

    open spec fn view(&self) -> int {
        self.value()@
    }
}

impl Resolution {
    /// The number the resolution was made from.
    pub closed spec fn value(&self) -> Scalar {
        self.value
    }

    /// A resolution is strictly positive.
    #[verifier::type_invariant]
    pub open spec fn wf(&self) -> bool {
        &&& self.value().wf()
        &&& self.value()@ > 0
    }

    /// Accepts a number above zero and refuses zero and every negative
    /// number.
    pub fn new(value: Scalar) -> (r: Option<Resolution>)
        ensures
            r is Some <==> value@ > 0,
            r matches Some(resolution) ==> resolution.value() == value && resolution.wf(),
    {
        let zero = Scalar::zero();
        if zero.lt(&value) {
            proof {
                use_type_invariant(value);
            }
            Some(Resolution { value })
        } else {
            None
        }
    }

    /// The number the resolution was made from.
    pub fn get(&self) -> (r: Scalar)
        ensures
            r == self.value(),
    {
        self.value
    }
}

/// The number of pixels of size `resolution` that cover the span from `lo`
/// to `hi`. A span that is empty or runs backwards needs none.
pub fn span_pixels(lo: Scalar, hi: Scalar, resolution: &Resolution) -> (r: u32)
    ensures
        r == pixel_count(hi@ - lo@, resolution@),
{
    let unit = resolution.get();
    proof {
        use_type_invariant(lo);
        use_type_invariant(hi);
        use_type_invariant(resolution);
        lemma_pow2_pos(shift(unit.bits()));
        let m = significand(unit.bits()) as int;
        let p = pow2(shift(unit.bits())) as int;
        assert(m > 0) by (nonlinear_arith)
            requires
                m * p > 0,
                p > 0,
        ;
    }
    if hi.le(&lo) {
        proof {
            lemma_ceil_div_at_most(hi@ - lo@, resolution@, 0);
        }
        return 0;
    }
    let mh: u64 = hi.significand();
    let sh: u32 = hi.shift();
    let ml: u64 = lo.significand();
    let sl: u32 = lo.shift();
    let mr: u64 = unit.significand();
    let sr: u32 = unit.shift();
    proof {
        lemma_magnitude_order(lo.bits(), hi.bits());
        if magnitude(lo.bits()) < magnitude(hi.bits()) {
            lemma_magnitude_strictly_increases(lo.bits(), hi.bits());
        }
        if magnitude(hi.bits()) < magnitude(lo.bits()) {
            lemma_magnitude_strictly_increases(hi.bits(), lo.bits());
        }
    }
    if !hi.is_sign_negative() && lo.is_sign_negative() {
        if sh >= sl {
            clamped_ratio(true, mh, sh, ml, sl, mr, sr)
        } else {
            clamped_ratio(true, ml, sl, mh, sh, mr, sr)
        }
    } else if !hi.is_sign_negative() {
        clamped_ratio(false, mh, sh, ml, sl, mr, sr)
    } else {
        clamped_ratio(false, ml, sl, mh, sh, mr, sr)
    }
}

/// The number of pixels of size `resolution` that cover `extent`.
pub fn extent_pixels(extent: Scalar, resolution: &Resolution) -> (r: u32)
    ensures
        r == pixel_count(extent@, resolution@),
{
    span_pixels(Scalar::zero(), extent, resolution)
}

/// The two-component vector of the geometry crate, in which a renderer takes
/// the size of an image.
#[verifier::external_type_specification]
#[verifier::external_body]
#[verifier::reject_recursive_types(S)]
pub struct ExVector2<S>(cgmath::Vector2<S>);

/// The components of a vector of pixel counts, `x` first.
pub uninterp spec fn vector2_items(v: cgmath::Vector2<u32>) -> Seq<u32>;

/// `cgmath::Vector2::new`, which stores its two arguments as the components
/// `x` and `y` of the vector, in that order.
#[verifier::external_body]
fn vector2_new(x: u32, y: u32) -> (v: cgmath::Vector2<u32>)
    ensures
        vector2_items(v) == seq![x, y],
{
    cgmath::Vector2::new(x, y)
}

/// The size of a raster in pixels.
#[derive(Clone, Copy, Debug, PartialEq, Eq, Structural)]
pub struct RasterDimensions {
    pub width: u32,
    pub height: u32,
}

impl RasterDimensions {
    /// The raster has no pixel.
    pub open spec fn empty(&self) -> bool {
        self.width == 0 || self.height == 0
    }

    /// Whether the raster has no pixel.
    pub fn is_empty(&self) -> (r: bool)
        ensures
            r == self.empty(),
    {
        self.width == 0 || self.height == 0
    }

    /// The size as the vector that a renderer takes: the width as `x`, the
    /// height as `y`.
    pub fn to_vector(&self) -> (v: cgmath::Vector2<u32>)
        ensures
            vector2_items(v) == seq![self.width, self.height],
    {
        vector2_new(self.width, self.height)
    }

    /// The raster that covers a region of the given width and height.
    pub fn for_extent(width: Scalar, height: Scalar, resolution: &Resolution) -> (d: RasterDimensions)
        ensures
            d.width == pixel_count(width@, resolution@),
            d.height == pixel_count(height@, resolution@),
    {
        RasterDimensions {
            width: extent_pixels(width, resolution),
            height: extent_pixels(height, resolution),
        }
    }

    /// The raster that covers the rectangle `region`.
    pub fn for_region(region: &BoundingBox2D, resolution: &Resolution) -> (d: RasterDimensions)
        ensures
            d.width == pixel_count(region.width(), resolution@),
            d.height == pixel_count(region.height(), resolution@),
    {
        let lower = region.min();
        let upper = region.max();
        RasterDimensions {
            width: span_pixels(lower.x, upper.x, resolution),
            height: span_pixels(lower.y, upper.y, resolution),
        }
    }
}

} // verus!
