//! From a valid configuration and the extent of the data to what the run
//! does and reports.
//!
//! A run is linear: the region is resolved, the raster is sized, the
//! strategy is taken from the configuration, the tile is generated, the
//! outcome is reported. Opening the data and generating the tile belong to
//! the caller; every decision between them is made here.

use vstd::prelude::*;
use crate::background::Color;
use crate::config::TileRequest;
use crate::raster::{RasterDimensions, pixel_count};
use crate::region::{BoundingBox3D, disjoint, resolve_region, resolved_volume, lemma_inverted_iff_disjoint};
use crate::strategy::ColoringStrategyKind;

verus! {

/// Everything the generation of one tile is given besides the data itself:
/// the volume to render, where to write, the size of the image, how to color
/// it and what lies behind it. No earlier state is handed on.
#[derive(Clone, Debug)]
pub struct TilePlan {
    pub volume: BoundingBox3D,
    pub output_filename: String,
    pub dimensions: RasterDimensions,
    pub coloring_strategy: ColoringStrategyKind,
    pub background: Color,
}

/// What the run does with a plan.
#[derive(Clone, Copy, Debug, PartialEq, Eq, Structural)]
pub enum Action {
    /// Generate the tile.
    Generate,
    /// Generate nothing: no point can fall into the tile.
    Skip,
}

/// How a run ended.
#[derive(Clone, Copy, Debug, PartialEq, Eq, Structural)]
pub enum Outcome {
    /// A tile was written.
    TileWritten,
    /// No point fell into the volume, and nothing was written.
    NoPoints,
}

impl TilePlan {
    /// No point can fall into the tile: the volume is inverted, or the
    /// raster has no pixel.
    pub open spec fn vacant(&self) -> bool {
        self.volume.inverted() || self.dimensions.empty()
    }

    /// What the run does next: it skips a vacant plan and generates every
    /// other.
    pub fn action(&self) -> (a: Action)
        ensures
            a == (if self.vacant() {
                Action::Skip
            } else {
                Action::Generate
            }),
    {
        if self.volume.is_inverted() || self.dimensions.is_empty() {
            Action::Skip
        } else {
            Action::Generate
        }
    }
}

/// The plan of the run that `request` asks for, on data of extent `source`.
pub open spec fn planned(request: TileRequest, source: BoundingBox3D) -> TilePlan {
    TilePlan {
        volume: resolved_volume(request.region, source),
        output_filename: request.output_filename,
        dimensions: RasterDimensions {
            width: pixel_count(request.region.width(), request.resolution@) as u32,
            height: pixel_count(request.region.height(), request.resolution@) as u32,
        },
        coloring_strategy: request.coloring_strategy,
        background: request.background,
    }
}

impl TileRequest {
    /// Resolves the region against the extent of the data, sizes the raster
    /// for the requested rectangle and takes destination, strategy and
    /// background from the configuration.
    pub fn plan(&self, source: &BoundingBox3D) -> (plan: TilePlan)
        ensures
            plan == planned(*self, *source),
            plan.dimensions.width == pixel_count(self.region.width(), self.resolution@),
            plan.dimensions.height == pixel_count(self.region.height(), self.resolution@),
    {
        TilePlan {
            volume: resolve_region(&self.region, source),
            output_filename: self.output_filename.clone(),
            dimensions: RasterDimensions::for_region(&self.region, &self.resolution),
            coloring_strategy: self.coloring_strategy,
            background: self.background,
        }
    }
}

impl Outcome {
    /// The notice for the user: none after a tile was written.
    pub open spec fn notice_of(self) -> Option<Seq<char>> {
        match self {
            Outcome::TileWritten => None,
            Outcome::NoPoints => Some("No points in bounding box. No output written."@),
        }
    }

    /// The outcome of a generation that says whether it wrote a tile.
    pub fn of_generation(written: bool) -> (outcome: Outcome)
        ensures
            outcome == (if written {
                Outcome::TileWritten
            } else {
                Outcome::NoPoints
            }),
    {
        if written {
            Outcome::TileWritten
        } else {
            Outcome::NoPoints
        }
    }

    /// The outcome of a run that skipped the generation.
    pub fn of_skip() -> (outcome: Outcome)
        ensures
            outcome == Outcome::NoPoints,
    {
        Outcome::NoPoints
    }

    /// The notice for the user: none after a tile was written, and after a
    /// run without points the words that say so.
    pub fn notice(&self) -> (text: Option<&'static str>)
        ensures
            match text {
                Some(words) => self.notice_of() == Some(words@),
                None => self.notice_of() is None,
            },
    {
        match self {
            Outcome::TileWritten => None,
            Outcome::NoPoints => Some("No points in bounding box. No output written."),
        }
    }

    /// The exit code of the run. A run without points is no failure.
    pub fn exit_code(&self) -> (code: i32)
        ensures
            code == 0,
    {
        0
    }
}

/// A request that shares no point of the ground plane with the data is
/// skipped, never failed: its plan is vacant.
pub proof fn lemma_disjoint_request_is_vacant(request: TileRequest, source: BoundingBox3D)
    requires
        request.region.wf(),
        source.ordered(),
        disjoint(request.region, source),
    ensures
        planned(request, source).volume.inverted(),
        planned(request, source).vacant(),
{
    lemma_inverted_iff_disjoint(request.region, source);
}

/// A rectangle without area gives a raster without pixels, and its plan is
/// vacant.
pub proof fn lemma_degenerate_request_is_vacant(request: TileRequest, source: BoundingBox3D)
    requires
        request.region.wf(),
        request.resolution.wf(),
        request.region.width() == 0 || request.region.height() == 0,
    ensures
        planned(request, source).dimensions.empty(),
        planned(request, source).vacant(),
{
    crate::ceiling::lemma_ceil_div_at_most(0, request.resolution@, 0);
    crate::ceiling::lemma_ceil_div_exceeds(0, request.resolution@, -1);
}

} // verus!
