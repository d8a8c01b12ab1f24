//! The configuration of a run: what was given, what it defaults to, and
//! when it is refused.
//!
//! Validation is a step of its own, after the arguments were read and before
//! any data source is touched. Its rules are written out flag by flag, and
//! the first rule that fails, in the order of `Flag`, is the error.

use vstd::prelude::*;
use vstd::string::StringExecFns;
use crate::background::{Color, TileBackgroundColorArgument};
use crate::raster::Resolution;
use crate::region::{BoundingBox2D, Point2};
use vstd::arithmetic::power2::{pow2, lemma_pow2_pos};
use crate::scalar::{Scalar, is_finite, larger, smaller, significand, shift};
use crate::strategy::{ColoringStrategyArgument, ColoringStrategyKind, Single, is_finite_single};

verus! {

/// The binary64 pattern of 0.05, the resolution of a run that names none.
pub const DEFAULT_RESOLUTION: u64 = 0x3fa9_9999_9999_999a;

/// The arguments of a run, in the order in which they are validated.
#[derive(Clone, Copy, Debug, PartialEq, Eq, Structural)]
pub enum Flag {
    OctreeLocations,
    OutputFilename,
    Resolution,
    ColoringStrategy,
    MinIntensity,
    MaxIntensity,
    MaxStddev,
    MinX,
    MinY,
    MaxX,
    MaxY,
    TileBackgroundColor,
}

impl Flag {
    /// The name of the argument on the command line.
    pub open spec fn name(self) -> Seq<char> {
        match self {
            Flag::OctreeLocations => "octree_locations"@,
            Flag::OutputFilename => "output_filename"@,
            Flag::Resolution => "resolution"@,
            Flag::ColoringStrategy => "coloring_strategy"@,
            Flag::MinIntensity => "min_intensity"@,
            Flag::MaxIntensity => "max_intensity"@,
            Flag::MaxStddev => "max_stddev"@,
            Flag::MinX => "min_x"@,
            Flag::MinY => "min_y"@,
            Flag::MaxX => "max_x"@,
            Flag::MaxY => "max_y"@,
            Flag::TileBackgroundColor => "tile_background_color"@,
        }
    }

    /// The name of the argument on the command line.
    pub fn as_str(self) -> (s: &'static str)
        ensures
            s@ == self.name(),
    {
        match self {
            Flag::OctreeLocations => "octree_locations",
            Flag::OutputFilename => "output_filename",
            Flag::Resolution => "resolution",
            Flag::ColoringStrategy => "coloring_strategy",
            Flag::MinIntensity => "min_intensity",
            Flag::MaxIntensity => "max_intensity",
            Flag::MaxStddev => "max_stddev",
            Flag::MinX => "min_x",
            Flag::MinY => "min_y",
            Flag::MaxX => "max_x",
            Flag::MaxY => "max_y",
            Flag::TileBackgroundColor => "tile_background_color",
        }
    }
}

/// Why a configuration is refused.
#[derive(Clone, Copy, Debug, PartialEq, Eq, Structural)]
pub enum ConfigError {
    /// An argument that the run needs was not given.
    MissingArgument(Flag),
    /// An argument that must be a number is none, or is not finite.
    InvalidNumber(Flag),
    /// An argument that must be one of a fixed set of tokens is none of them.
    InvalidToken(Flag),
    /// The resolution is zero or negative.
    NonPositiveResolution,
}

/// A numeric argument as it was read: not given, given but not a number, or
/// the bit pattern of the number given.
#[derive(Clone, Copy, Debug, PartialEq, Eq)]
pub enum Parsed<T> {
    Absent,
    Malformed,
    Given(T),
}

/// The arguments of a run as they were read, before validation.
pub struct Arguments {
    pub octree_locations: Vec<String>,
    pub output_filename: Option<String>,
    pub resolution: Parsed<u64>,
    pub coloring_strategy: Option<String>,
    pub min_intensity: Parsed<u32>,
    pub max_intensity: Parsed<u32>,
    pub max_stddev: Parsed<u32>,
    pub min_x: Parsed<u64>,
    pub min_y: Parsed<u64>,
    pub max_x: Parsed<u64>,
    pub max_y: Parsed<u64>,
    pub tile_background_color: Option<String>,
}

/// A validated configuration.
pub struct TileRequest {
    pub octree_locations: Vec<String>,
    pub output_filename: String,
    pub resolution: Resolution,
    pub coloring_strategy: ColoringStrategyKind,
    pub background: Color,
    pub region: BoundingBox2D,
}

/// What is wrong with a binary64 argument that the run needs.
pub open spec fn number_error(flag: Flag, argument: Parsed<u64>) -> Option<ConfigError> {
    match argument {
        Parsed::Absent => Some(ConfigError::MissingArgument(flag)),
        Parsed::Malformed => Some(ConfigError::InvalidNumber(flag)),
        Parsed::Given(bits) => if is_finite(bits) {
            None
        } else {
            Some(ConfigError::InvalidNumber(flag))
        },
    }
}

/// What is wrong with a binary32 argument that the run needs.
pub open spec fn single_error(flag: Flag, argument: Parsed<u32>) -> Option<ConfigError> {
    match argument {
        Parsed::Absent => Some(ConfigError::MissingArgument(flag)),
        Parsed::Malformed => Some(ConfigError::InvalidNumber(flag)),
        Parsed::Given(bits) => if is_finite_single(bits) {
            None
        } else {
            Some(ConfigError::InvalidNumber(flag))
        },
    }
}

/// The bit pattern of the resolution: the one given, or the default.
pub open spec fn resolution_bits(argument: Parsed<u64>) -> u64 {
    match argument {
        Parsed::Given(bits) => bits,
        _ => DEFAULT_RESOLUTION,
    }
}

/// What is wrong with the resolution. It may be absent; given, it must be a
/// finite number above zero.
pub open spec fn resolution_error(argument: Parsed<u64>) -> Option<ConfigError> {
    if argument is Absent {
        None
    } else if number_error(Flag::Resolution, argument) is Some {
        number_error(Flag::Resolution, argument)
    } else if Scalar::with_bits(resolution_bits(argument))@ > 0 {
        None
    } else {
        Some(ConfigError::NonPositiveResolution)
    }
}

/// The strategy that the configuration names: the one given, or X-ray.
pub open spec fn strategy_argument(token: Option<String>) -> Option<ColoringStrategyArgument> {
    match token {
        None => Some(ColoringStrategyArgument::XRay),
        Some(text) => ColoringStrategyArgument::named(text@),
    }
}

/// The background that the configuration names: the one given, or white.
pub open spec fn background_argument(token: Option<String>) -> Option<TileBackgroundColorArgument> {
    match token {
        None => Some(TileBackgroundColorArgument::White),
        Some(text) => TileBackgroundColorArgument::named(text@),
    }
}

/// What is wrong with the strategy and its parameters. A parameter counts
/// only for the strategy that takes it; for that strategy it must be given.
pub open spec fn strategy_error(args: Arguments) -> Option<ConfigError> {
    match strategy_argument(args.coloring_strategy) {
        None => Some(ConfigError::InvalidToken(Flag::ColoringStrategy)),
        Some(argument) => if argument.needs_intensity_range() {
            if single_error(Flag::MinIntensity, args.min_intensity) is Some {
                single_error(Flag::MinIntensity, args.min_intensity)
            } else {
                single_error(Flag::MaxIntensity, args.max_intensity)
            }
        } else if argument.needs_max_stddev() {
            single_error(Flag::MaxStddev, args.max_stddev)
        } else {
            None
        },
    }
}

/// What is wrong with the requested rectangle: each of its four bounds must
/// be given as a finite number.
pub open spec fn region_error(args: Arguments) -> Option<ConfigError> {
    if number_error(Flag::MinX, args.min_x) is Some {
        number_error(Flag::MinX, args.min_x)
    } else if number_error(Flag::MinY, args.min_y) is Some {
        number_error(Flag::MinY, args.min_y)
    } else if number_error(Flag::MaxX, args.max_x) is Some {
        number_error(Flag::MaxX, args.max_x)
    } else {
        number_error(Flag::MaxY, args.max_y)
    }
}

/// The first rule that the arguments break, in the order of `Flag`; `None`
/// where they break none.
pub open spec fn first_error(args: Arguments) -> Option<ConfigError> {
    if args.octree_locations@.len() == 0 {
        Some(ConfigError::MissingArgument(Flag::OctreeLocations))
    } else if resolution_error(args.resolution) is Some {
        resolution_error(args.resolution)
    } else if strategy_error(args) is Some {
        strategy_error(args)
    } else if region_error(args) is Some {
        region_error(args)
    } else if background_argument(args.tile_background_color) is None {
        Some(ConfigError::InvalidToken(Flag::TileBackgroundColor))
    } else {
        None
    }
}

/// The number that a valid binary64 argument gives.
pub open spec fn given_number(argument: Parsed<u64>) -> Scalar {
    match argument {
        Parsed::Given(bits) => Scalar::with_bits(bits),
        _ => Scalar::with_bits(0),
    }
}

/// The number that a binary32 argument gives, if it gives one.
pub open spec fn given_single(argument: Parsed<u32>) -> Option<Single> {
    match argument {
        Parsed::Given(bits) => Some(Single::with_bits(bits)),
        _ => None,
    }
}

/// What a valid configuration asks for.
pub open spec fn configured(args: Arguments, request: TileRequest) -> bool {
    &&& request.octree_locations == args.octree_locations
    &&& request.output_filename@ == match args.output_filename {
        Some(name) => name@,
        None => "output.png"@,
    }
    &&& request.resolution.value() == Scalar::with_bits(resolution_bits(args.resolution))
    &&& strategy_argument(args.coloring_strategy) matches Some(argument)
    &&& request.coloring_strategy == ColoringStrategyKind::selected(
        argument,
        given_single(args.min_intensity),
        given_single(args.max_intensity),
        given_single(args.max_stddev),
    )
    &&& background_argument(args.tile_background_color) matches Some(background)
    &&& request.background == background.color_of()
    &&& request.region.lower().x == smaller(given_number(args.min_x), given_number(args.max_x))
    &&& request.region.lower().y == smaller(given_number(args.min_y), given_number(args.max_y))
    &&& request.region.upper().x == larger(given_number(args.min_x), given_number(args.max_x))
    &&& request.region.upper().y == larger(given_number(args.min_y), given_number(args.max_y))
}

/// The default resolution is a finite number above zero.
pub proof fn lemma_default_resolution()
    ensures
        is_finite(DEFAULT_RESOLUTION),
        Scalar::with_bits(DEFAULT_RESOLUTION)@ > 0,
{
    Scalar::lemma_with_bits(DEFAULT_RESOLUTION);
    let m = significand(DEFAULT_RESOLUTION) as int;
    let p = pow2(shift(DEFAULT_RESOLUTION)) as int;
    lemma_pow2_pos(shift(DEFAULT_RESOLUTION));
    assert(m * p > 0) by (nonlinear_arith)
        requires
            m > 0,
            p > 0,
    ;
}

/// Reads a binary64 argument that the run needs.
pub fn required_number(flag: Flag, argument: Parsed<u64>) -> (r: Result<Scalar, ConfigError>)
    ensures
        match r {
            Ok(value) => number_error(flag, argument) is None && value == given_number(argument),
            Err(error) => number_error(flag, argument) == Some(error),
        },
{
    match argument {
        Parsed::Absent => Err(ConfigError::MissingArgument(flag)),
        Parsed::Malformed => Err(ConfigError::InvalidNumber(flag)),
        Parsed::Given(bits) => match Scalar::from_bits(bits) {
            Some(value) => Ok(value),
            None => Err(ConfigError::InvalidNumber(flag)),
        },
    }
}

/// Reads a binary32 argument that the chosen strategy needs.
pub fn required_single(flag: Flag, argument: Parsed<u32>) -> (r: Result<Single, ConfigError>)
    ensures
        match r {
            Ok(value) => single_error(flag, argument) is None && Some(value) == given_single(argument),
            Err(error) => single_error(flag, argument) == Some(error),
        },
{
    match argument {
        Parsed::Absent => Err(ConfigError::MissingArgument(flag)),
        Parsed::Malformed => Err(ConfigError::InvalidNumber(flag)),
        Parsed::Given(bits) => match Single::from_bits(bits) {
            Some(value) => Ok(value),
            None => Err(ConfigError::InvalidNumber(flag)),
        },
    }
}

/// Reads the resolution: the number given, or 0.05 where none is given.
pub fn read_resolution(argument: Parsed<u64>) -> (r: Result<Resolution, ConfigError>)
    ensures
        match r {
            Ok(resolution) => resolution_error(argument) is None && resolution.value()
                == Scalar::with_bits(resolution_bits(argument)),
            Err(error) => resolution_error(argument) == Some(error),
        },
{
    let candidate = match argument {
        Parsed::Absent => Parsed::Given(DEFAULT_RESOLUTION),
        other => other,
    };
    proof {
        lemma_default_resolution();
    }
    match required_number(Flag::Resolution, candidate) {
        Err(error) => Err(error),
        Ok(value) => match Resolution::new(value) {
            Some(resolution) => Ok(resolution),
            None => Err(ConfigError::NonPositiveResolution),
        },
    }
}

/// Reads the coloring strategy and the parameters that it takes.
pub fn read_strategy(args: &Arguments) -> (r: Result<ColoringStrategyKind, ConfigError>)
    ensures
        match r {
            Ok(kind) => {
                &&& strategy_error(*args) is None
                &&& strategy_argument(args.coloring_strategy) matches Some(argument)
                &&& kind == ColoringStrategyKind::selected(
                    argument,
                    given_single(args.min_intensity),
                    given_single(args.max_intensity),
                    given_single(args.max_stddev),
                )
            },
            Err(error) => strategy_error(*args) == Some(error),
        },
{
    let argument = match &args.coloring_strategy {
        None => ColoringStrategyArgument::XRay,
        Some(text) => match ColoringStrategyArgument::from_name(text.as_str()) {
            Some(argument) => argument,
            None => {
                return Err(ConfigError::InvalidToken(Flag::ColoringStrategy));
            },
        },
    };
    match argument {
        ColoringStrategyArgument::ColoredWithIntensity => {
            let min_intensity = match required_single(Flag::MinIntensity, args.min_intensity) {
                Ok(value) => value,
                Err(error) => {
                    return Err(error);
                },
            };
            let max_intensity = match required_single(Flag::MaxIntensity, args.max_intensity) {
                Ok(value) => value,
                Err(error) => {
                    return Err(error);
                },
            };
            Ok(ColoringStrategyKind::select(argument, Some(min_intensity), Some(max_intensity), None))
        },
        ColoringStrategyArgument::ColoredWithHeightStddev => {
            let max_stddev = match required_single(Flag::MaxStddev, args.max_stddev) {
                Ok(value) => value,
                Err(error) => {
                    return Err(error);
                },
            };
            Ok(ColoringStrategyKind::select(argument, None, None, Some(max_stddev)))
        },
        _ => Ok(ColoringStrategyKind::select(argument, None, None, None)),
    }
}

/// Reads the requested rectangle from its four bounds.
pub fn read_region(args: &Arguments) -> (r: Result<BoundingBox2D, ConfigError>)
    ensures
        match r {
            Ok(region) => {
                &&& region_error(*args) is None
                &&& region.lower().x == smaller(given_number(args.min_x), given_number(args.max_x))
                &&& region.lower().y == smaller(given_number(args.min_y), given_number(args.max_y))
                &&& region.upper().x == larger(given_number(args.min_x), given_number(args.max_x))
                &&& region.upper().y == larger(given_number(args.min_y), given_number(args.max_y))
            },
            Err(error) => region_error(*args) == Some(error),
        },
{
    let min_x = match required_number(Flag::MinX, args.min_x) {
        Ok(value) => value,
        Err(error) => {
            return Err(error);
        },
    };
    let min_y = match required_number(Flag::MinY, args.min_y) {
        Ok(value) => value,
        Err(error) => {
            return Err(error);
        },
    };
    let max_x = match required_number(Flag::MaxX, args.max_x) {
        Ok(value) => value,
        Err(error) => {
            return Err(error);
        },
    };
    let max_y = match required_number(Flag::MaxY, args.max_y) {
        Ok(value) => value,
        Err(error) => {
            return Err(error);
        },
    };
    Ok(BoundingBox2D::new(Point2 { x: min_x, y: min_y }, Point2 { x: max_x, y: max_y }))
}

/// Validates the arguments of a run and applies the defaults.
///
/// The run is refused for the first rule that the arguments break, in the
/// order of `Flag`: no data source, a resolution that is no finite number
/// above zero, an unknown strategy, a parameter that the chosen strategy
/// takes and that is missing or no finite number, a bound of the rectangle
/// that is missing or no finite number, an unknown background. Parameters
/// of strategies other than the chosen one are not looked at.
pub fn configure(args: Arguments) -> (r: Result<TileRequest, ConfigError>)
    ensures
        match r {
            Ok(request) => first_error(args) is None && configured(args, request),
            Err(error) => first_error(args) == Some(error),
        },
{
    if args.octree_locations.len() == 0 {
        return Err(ConfigError::MissingArgument(Flag::OctreeLocations));
    }
    let resolution = match read_resolution(args.resolution) {
        Ok(resolution) => resolution,
        Err(error) => {
            return Err(error);
        },
    };
    let coloring_strategy = match read_strategy(&args) {
        Ok(kind) => kind,
        Err(error) => {
            return Err(error);
        },
    };
    let region = match read_region(&args) {
        Ok(region) => region,
        Err(error) => {
            return Err(error);
        },
    };
    let background = match &args.tile_background_color {
        None => TileBackgroundColorArgument::White,
        Some(text) => match TileBackgroundColorArgument::from_name(text.as_str()) {
            Some(background) => background,
            None => {
                return Err(ConfigError::InvalidToken(Flag::TileBackgroundColor));
            },
        },
    };
    let Arguments { octree_locations, output_filename, .. } = args;
    let output_filename = match output_filename {
        Some(name) => name,
        None => String::from_str("output.png"),
    };
    Ok(
        TileRequest {
            octree_locations,
            output_filename,
            resolution,
            coloring_strategy,
            background: background.color(),
            region,
        },
    )
}

/// A strategy that takes an intensity range is refused without it: the
/// first of the two bounds that is missing is the error.
pub proof fn lemma_intensity_range_is_required(args: Arguments)
    requires
        strategy_argument(args.coloring_strategy) == Some(ColoringStrategyArgument::ColoredWithIntensity),
        args.min_intensity is Absent || args.max_intensity is Absent,
    ensures
        strategy_error(args) is Some,
        first_error(args) is Some,
        args.min_intensity is Absent ==> strategy_error(args) == Some(
            ConfigError::MissingArgument(Flag::MinIntensity),
        ),
        single_error(Flag::MinIntensity, args.min_intensity) is None ==> strategy_error(args) == Some(
            ConfigError::MissingArgument(Flag::MaxIntensity),
        ),
{
}

/// A strategy that takes a largest standard deviation is refused without it.
pub proof fn lemma_max_stddev_is_required(args: Arguments)
    requires
        strategy_argument(args.coloring_strategy) == Some(
            ColoringStrategyArgument::ColoredWithHeightStddev,
        ),
        args.max_stddev is Absent,
    ensures
        strategy_error(args) == Some(ConfigError::MissingArgument(Flag::MaxStddev)),
        first_error(args) is Some,
{
}

/// No default stands in for a parameter in a valid configuration: the
/// strategy holds the parameters exactly as they were given.
pub proof fn lemma_valid_parameters_are_given(args: Arguments, request: TileRequest)
    requires
        first_error(args) is None,
        configured(args, request),
    ensures
        request.coloring_strategy matches ColoringStrategyKind::ColoredWithIntensity {
            min_intensity,
            max_intensity,
        } ==> given_single(args.min_intensity) == Some(min_intensity) && given_single(
            args.max_intensity,
        ) == Some(max_intensity),
        request.coloring_strategy matches ColoringStrategyKind::ColoredWithHeightStddev { max_stddev }
            ==> given_single(args.max_stddev) == Some(max_stddev),
{
}

/// A configuration that passes validation has a resolution above zero.
pub proof fn lemma_valid_resolution_is_positive(args: Arguments)
    requires
        first_error(args) is None,
    ensures
        Scalar::with_bits(resolution_bits(args.resolution))@ > 0,
{
    lemma_default_resolution();
}

} // verus!
