//! The coloring strategies: how the color of a pixel follows from the points
//! that fall into it.

use vstd::prelude::*;
use crate::text::same_text;

verus! {

/// Two to the power 23: the number of values of the fraction field of a
/// binary32 pattern.
pub const SINGLE_FRACTION_MODULUS: u32 = 0x80_0000;

/// Two to the power 8: the number of values of its exponent field.
pub const SINGLE_EXPONENT_MODULUS: u32 = 0x100;

/// The exponent field of binary32 infinities and NaNs.
pub const SINGLE_EXPONENT_SPECIAL: u32 = 0xff;

/// The binary32 pattern of the number one.
pub const SINGLE_ONE: u32 = 0x3f80_0000;

/// Whether a binary32 pattern encodes a number: neither an infinity nor a
/// NaN.
pub open spec fn is_finite_single(bits: u32) -> bool {
    (bits / SINGLE_FRACTION_MODULUS) % SINGLE_EXPONENT_MODULUS != SINGLE_EXPONENT_SPECIAL
}

/// A finite binary32 number, held by its bit pattern.
///
/// The parameters of the coloring strategies are carried through unchanged,
/// so nothing here computes with them.
#[derive(Clone, Copy, Debug, PartialEq, Eq, Structural)]
pub struct Single {
    bits: u32,
}

impl Single {
    /// The bit pattern of the number.
    pub closed spec fn bits(&self) -> u32 {
        self.bits
    }

    /// The number with the given bit pattern.
    pub closed spec fn with_bits(bits: u32) -> Single {
        Single { bits }
    }

    /// Every `Single` encodes a finite number.
    #[verifier::type_invariant]
    pub open spec fn wf(&self) -> bool {
        is_finite_single(self.bits())
    }

    /// Accepts the bit pattern of any finite number and refuses infinities
    /// and NaNs.
    pub fn from_bits(bits: u32) -> (r: Option<Single>)
        ensures
            r == (if is_finite_single(bits) {
                Some(Single::with_bits(bits))
            } else {
                None
            }),
            r matches Some(s) ==> s.bits() == bits && s.wf(),
    {
        let exponent: u32 = (bits / SINGLE_FRACTION_MODULUS) % SINGLE_EXPONENT_MODULUS;
        if exponent == SINGLE_EXPONENT_SPECIAL {
            None
        } else {
            Some(Single { bits })
        }
    }

    /// The bit pattern the number was made from.
    pub fn to_bits(&self) -> (r: u32)
        ensures
            r == self.bits(),
            is_finite_single(r),
    {
        proof {
            use_type_invariant(self);
        }
        self.bits
    }

    /// The number one.
    pub fn one() -> (r: Single)
        ensures
            r == Single::with_bits(SINGLE_ONE),
            r.bits() == SINGLE_ONE,
    {
        Single { bits: SINGLE_ONE }
    }
}

/// The name of a coloring strategy, as a configuration gives it.
#[derive(Clone, Copy, Debug, PartialEq, Eq, Structural)]
pub enum ColoringStrategyArgument {
    XRay,
    Colored,
    ColoredWithIntensity,
    ColoredWithHeightStddev,
}

impl ColoringStrategyArgument {
    /// The token that names the strategy.
    pub open spec fn name(self) -> Seq<char> {
        match self {
            ColoringStrategyArgument::XRay => "xray"@,
            ColoringStrategyArgument::Colored => "colored"@,
            ColoringStrategyArgument::ColoredWithIntensity => "colored_with_intensity"@,
            ColoringStrategyArgument::ColoredWithHeightStddev => "colored_with_height_stddev"@,
        }
    }

    /// The strategy that a token names, if it names one.
    pub open spec fn named(token: Seq<char>) -> Option<ColoringStrategyArgument> {
        if token == "xray"@ {
            Some(ColoringStrategyArgument::XRay)
        } else if token == "colored"@ {
            Some(ColoringStrategyArgument::Colored)
        } else if token == "colored_with_intensity"@ {
            Some(ColoringStrategyArgument::ColoredWithIntensity)
        } else if token == "colored_with_height_stddev"@ {
            Some(ColoringStrategyArgument::ColoredWithHeightStddev)
        } else {
            None
        }
    }

    /// Whether the strategy scales colors by an intensity range.
    pub open spec fn needs_intensity_range(self) -> bool {
        self == ColoringStrategyArgument::ColoredWithIntensity
    }

    /// Whether the strategy saturates at a largest standard deviation.
    pub open spec fn needs_max_stddev(self) -> bool {
        self == ColoringStrategyArgument::ColoredWithHeightStddev
    }

    /// Every strategy is named by its own token and by no other.
    pub proof fn lemma_name_round_trip(self)
        ensures
            ColoringStrategyArgument::named(self.name()) == Some(self),
    {
        reveal_strlit("xray");
        reveal_strlit("colored");
        reveal_strlit("colored_with_intensity");
        reveal_strlit("colored_with_height_stddev");
        assert("xray"@.len() == 4);
        assert("colored"@.len() == 7);
        assert("colored_with_intensity"@.len() == 22);
        assert("colored_with_height_stddev"@.len() == 26);
    }

    /// The token that names the strategy.
    pub fn as_str(self) -> (s: &'static str)
        ensures
            s@ == self.name(),
    {
        match self {
            ColoringStrategyArgument::XRay => "xray",
            ColoringStrategyArgument::Colored => "colored",
            ColoringStrategyArgument::ColoredWithIntensity => "colored_with_intensity",
            ColoringStrategyArgument::ColoredWithHeightStddev => "colored_with_height_stddev",
        }
    }

    /// The tokens of all strategies, in declaration order.
    pub fn variants() -> (names: [&'static str; 4])
        ensures
            names[0]@ == ColoringStrategyArgument::XRay.name(),
            names[1]@ == ColoringStrategyArgument::Colored.name(),
            names[2]@ == ColoringStrategyArgument::ColoredWithIntensity.name(),
            names[3]@ == ColoringStrategyArgument::ColoredWithHeightStddev.name(),
    {
        ["xray", "colored", "colored_with_intensity", "colored_with_height_stddev"]
    }

    /// Reads a token. Only the four tokens, letter for letter, name a
    /// strategy.
    pub fn from_name(token: &str) -> (r: Option<ColoringStrategyArgument>)
        ensures
            r == ColoringStrategyArgument::named(token@),
    {
        if same_text(token, "xray") {
            Some(ColoringStrategyArgument::XRay)
        } else if same_text(token, "colored") {
            Some(ColoringStrategyArgument::Colored)
        } else if same_text(token, "colored_with_intensity") {
            Some(ColoringStrategyArgument::ColoredWithIntensity)
        } else if same_text(token, "colored_with_height_stddev") {
            Some(ColoringStrategyArgument::ColoredWithHeightStddev)
        } else {
            None
        }
    }

    /// Whether the strategy scales colors by an intensity range.
    pub fn uses_intensity_range(self) -> (r: bool)
        ensures
            r == self.needs_intensity_range(),
    {
        match self {
            ColoringStrategyArgument::ColoredWithIntensity => true,
            _ => false,
        }
    }

    /// Whether the strategy saturates at a largest standard deviation.
    pub fn uses_max_stddev(self) -> (r: bool)
        ensures
            r == self.needs_max_stddev(),
    {
        match self {
            ColoringStrategyArgument::ColoredWithHeightStddev => true,
            _ => false,
        }
    }
}

/// A coloring strategy with its parameters.
#[derive(Clone, Copy, Debug, PartialEq, Eq, Structural)]
pub enum ColoringStrategyKind {
    /// Darkness by point density.
    XRay,
    /// The colors of the points.
    Colored,
    /// The colors of the points, scaled by their intensity within a range.
    ColoredWithIntensity { min_intensity: Single, max_intensity: Single },
    /// Colors by the standard deviation of the heights, saturating at a
    /// largest value.
    ColoredWithHeightStddev { max_stddev: Single },
}

/// The given parameter, or one where none was given.
pub open spec fn or_one(parameter: Option<Single>) -> Single {
    match parameter {
        Some(value) => value,
        None => Single::with_bits(SINGLE_ONE),
    }
}

impl ColoringStrategyKind {
    /// The strategy that `argument` names, with the parameters it takes. A
    /// parameter that the strategy takes and that was not given is one; a
    /// parameter that it does not take is ignored.
    pub open spec fn selected(
        argument: ColoringStrategyArgument,
        min_intensity: Option<Single>,
        max_intensity: Option<Single>,
        max_stddev: Option<Single>,
    ) -> ColoringStrategyKind {
        match argument {
            ColoringStrategyArgument::XRay => ColoringStrategyKind::XRay,
            ColoringStrategyArgument::Colored => ColoringStrategyKind::Colored,
            ColoringStrategyArgument::ColoredWithIntensity => ColoringStrategyKind::ColoredWithIntensity {
                min_intensity: or_one(min_intensity),
                max_intensity: or_one(max_intensity),
            },
            ColoringStrategyArgument::ColoredWithHeightStddev => ColoringStrategyKind::ColoredWithHeightStddev {
                max_stddev: or_one(max_stddev),
            },
        }
    }

    /// The name of the strategy, without its parameters.
    pub open spec fn argument_of(self) -> ColoringStrategyArgument {
        match self {
            ColoringStrategyKind::XRay => ColoringStrategyArgument::XRay,
            ColoringStrategyKind::Colored => ColoringStrategyArgument::Colored,
            ColoringStrategyKind::ColoredWithIntensity { .. } => ColoringStrategyArgument::ColoredWithIntensity,
            ColoringStrategyKind::ColoredWithHeightStddev { .. } => ColoringStrategyArgument::ColoredWithHeightStddev,
        }
    }

    /// Builds the strategy that `argument` names.
    ///
    /// This never fails: a parameter that is missing is taken as one.
    /// Whether a missing parameter is acceptable is for the validation of a
    /// configuration to say.
    pub fn select(
        argument: ColoringStrategyArgument,
        min_intensity: Option<Single>,
        max_intensity: Option<Single>,
        max_stddev: Option<Single>,
    ) -> (kind: ColoringStrategyKind)
        ensures
            kind == ColoringStrategyKind::selected(argument, min_intensity, max_intensity, max_stddev),
            kind.argument_of() == argument,
    {
        match argument {
            ColoringStrategyArgument::XRay => ColoringStrategyKind::XRay,
            ColoringStrategyArgument::Colored => ColoringStrategyKind::Colored,
            ColoringStrategyArgument::ColoredWithIntensity => ColoringStrategyKind::ColoredWithIntensity {
                min_intensity: single_or_one(min_intensity),
                max_intensity: single_or_one(max_intensity),
            },
            ColoringStrategyArgument::ColoredWithHeightStddev => ColoringStrategyKind::ColoredWithHeightStddev {
                max_stddev: single_or_one(max_stddev),
            },
        }
    }

    /// The name of the strategy, without its parameters.
    pub fn argument(&self) -> (r: ColoringStrategyArgument)
        ensures
            r == self.argument_of(),
    {
        match self {
            ColoringStrategyKind::XRay => ColoringStrategyArgument::XRay,
            ColoringStrategyKind::Colored => ColoringStrategyArgument::Colored,
            ColoringStrategyKind::ColoredWithIntensity { .. } => ColoringStrategyArgument::ColoredWithIntensity,
            ColoringStrategyKind::ColoredWithHeightStddev { .. } => ColoringStrategyArgument::ColoredWithHeightStddev,
        }
    }
}

/// The given parameter, or one where none was given.
pub fn single_or_one(parameter: Option<Single>) -> (r: Single)
    ensures
        r == or_one(parameter),
{
    match parameter {
        Some(value) => value,
        None => Single::one(),
    }
}

} // verus!
