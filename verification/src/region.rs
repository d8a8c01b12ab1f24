//! Axis-aligned boxes and the resolution of a requested rectangle against
//! the extent of the data.

use vstd::prelude::*;
use vstd::math::{max, min};
use crate::scalar::{Scalar, larger, smaller};

verus! {

/// A point of the ground plane, in meters.
#[derive(Clone, Copy, Debug, PartialEq, Eq, Structural)]
pub struct Point2 {
    pub x: Scalar,
    pub y: Scalar,
}

/// A point in space, in meters.
#[derive(Clone, Copy, Debug, PartialEq, Eq, Structural)]
pub struct Point3 {
    pub x: Scalar,
    pub y: Scalar,
    pub z: Scalar,
}

/// A rectangle of the ground plane whose minimum is at most its maximum on
/// both axes.
#[derive(Clone, Copy, Debug, PartialEq, Eq, Structural)]
pub struct BoundingBox2D {
    min: Point2,
    max: Point2,
}

impl BoundingBox2D {
    /// The corner with the least coordinates.
    pub closed spec fn lower(&self) -> Point2 {
        self.min
    }

    /// The corner with the greatest coordinates.
    pub closed spec fn upper(&self) -> Point2 {
        self.max
    }

    /// The corners are ordered on both axes.
    #[verifier::type_invariant]
    pub open spec fn wf(&self) -> bool {
        &&& self.lower().x.wf()
        &&& self.lower().y.wf()
        &&& self.upper().x.wf()
        &&& self.upper().y.wf()
        &&& self.lower().x@ <= self.upper().x@
        &&& self.lower().y@ <= self.upper().y@
    }

    /// The extent along X, in units of 2^-1074 meters.
    pub open spec fn width(&self) -> int {
        self.upper().x@ - self.lower().x@
    }

    /// The extent along Y, in units of 2^-1074 meters.
    pub open spec fn height(&self) -> int {
        self.upper().y@ - self.lower().y@
    }

    /// The rectangle with `first` and `second` as opposing corners, whichever way
    /// round they are given.
    pub fn new(first: Point2, second: Point2) -> (b: BoundingBox2D)
        ensures
            b.lower().x == smaller(first.x, second.x),
            b.lower().y == smaller(first.y, second.y),
            b.upper().x == larger(first.x, second.x),
            b.upper().y == larger(first.y, second.y),
            b.wf(),
    {
        BoundingBox2D {
            min: Point2 { x: first.x.min(second.x), y: first.y.min(second.y) },
            max: Point2 { x: first.x.max(second.x), y: first.y.max(second.y) },
        }
    }

    /// The corner with the least coordinates.
    pub fn min(&self) -> (p: Point2)
        ensures
            p == self.lower(),
    {
        self.min
    }

    /// The corner with the greatest coordinates.
    pub fn max(&self) -> (p: Point2)
        ensures
            p == self.upper(),
    {
        self.max
    }
}

/// A box in space as a data source reports it, or as resolution leaves it.
///
/// Nothing orders its corners: a box whose minimum lies above its maximum
/// on an axis is inverted there, and holds no point.
#[derive(Clone, Copy, Debug, PartialEq, Eq, Structural)]
pub struct BoundingBox3D {
    pub min: Point3,
    pub max: Point3,
}

impl BoundingBox3D {
    /// The six coordinates are finite numbers.
    pub open spec fn wf(&self) -> bool {
        &&& self.min.x.wf()
        &&& self.min.y.wf()
        &&& self.min.z.wf()
        &&& self.max.x.wf()
        &&& self.max.y.wf()
        &&& self.max.z.wf()
    }

    /// The minimum is at most the maximum on X and on Y.
    pub open spec fn ordered(&self) -> bool {
        &&& self.min.x@ <= self.max.x@
        &&& self.min.y@ <= self.max.y@
    }

    /// The minimum lies above the maximum on X or on Y.
    pub open spec fn inverted(&self) -> bool {
        self.min.x@ > self.max.x@ || self.min.y@ > self.max.y@
    }

    /// Whether the box is inverted on X or on Y.
    pub fn is_inverted(&self) -> (r: bool)
        ensures
            r == self.inverted(),
    {
        self.max.x.lt(&self.min.x) || self.max.y.lt(&self.min.y)
    }
}

/// The rectangle and the box share no point of the ground plane.
pub open spec fn disjoint(request: BoundingBox2D, source: BoundingBox3D) -> bool {
    ||| request.upper().x@ < source.min.x@
    ||| source.max.x@ < request.lower().x@
    ||| request.upper().y@ < source.min.y@
    ||| source.max.y@ < request.lower().y@
}

/// The volume to render: on X and Y the intersection of the request with the
/// source, on Z the source's own bounds.
pub open spec fn resolved_volume(request: BoundingBox2D, source: BoundingBox3D) -> BoundingBox3D {
    BoundingBox3D {
        min: Point3 {
            x: larger(request.lower().x, source.min.x),
            y: larger(request.lower().y, source.min.y),
            z: source.min.z,
        },
        max: Point3 {
            x: smaller(request.upper().x, source.max.x),
            y: smaller(request.upper().y, source.max.y),
            z: source.max.z,
        },
    }
}

/// Intersects the requested rectangle with the extent of the data.
///
/// Each X and Y bound of the result is the tighter of the two given bounds;
/// the Z bounds are those of the source, unchanged. Where the two do not
/// overlap the result is inverted; that is a result, not a failure.
pub fn resolve_region(request: &BoundingBox2D, source: &BoundingBox3D) -> (volume: BoundingBox3D)
    ensures
        volume == resolved_volume(*request, *source),
        volume.min.x@ == max(request.lower().x@, source.min.x@),
        volume.min.y@ == max(request.lower().y@, source.min.y@),
        volume.max.x@ == min(request.upper().x@, source.max.x@),
        volume.max.y@ == min(request.upper().y@, source.max.y@),
        volume.min.z == source.min.z,
        volume.max.z == source.max.z,
{
    let lower = request.min();
    let upper = request.max();
    BoundingBox3D {
        min: Point3 {
            x: lower.x.max(source.min.x),
            y: lower.y.max(source.min.y),
            z: source.min.z,
        },
        max: Point3 {
            x: upper.x.min(source.max.x),
            y: upper.y.min(source.max.y),
            z: source.max.z,
        },
    }
}

/// The resolved volume is inverted exactly where the request and an ordered
/// source share no point of the ground plane.
pub proof fn lemma_inverted_iff_disjoint(request: BoundingBox2D, source: BoundingBox3D)
    requires
        request.wf(),
        source.ordered(),
    ensures
        resolved_volume(request, source).inverted() <==> disjoint(request, source),
{
}

} // verus!
