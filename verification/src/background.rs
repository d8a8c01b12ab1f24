//! The background of a tile: the color of the pixels that no point reaches.

use vstd::prelude::*;
use crate::text::same_text;

verus! {

/// A color of four channels, eight bits each.
#[derive(Clone, Copy, Debug, PartialEq, Eq, Structural)]
pub struct Color {
    pub red: u8,
    pub green: u8,
    pub blue: u8,
    pub alpha: u8,
}

impl Color {
    /// Opaque white: every channel at its largest value.
    pub open spec fn white() -> Color {
        Color { red: 255, green: 255, blue: 255, alpha: 255 }
    }

    /// White without any opacity: the color channels at their largest value,
    /// alpha at zero.
    pub open spec fn transparent() -> Color {
        Color { red: 255, green: 255, blue: 255, alpha: 0 }
    }

    /// Whether nothing of the color shows.
    pub open spec fn fully_transparent(self) -> bool {
        self.alpha == 0
    }

    /// Whether the color hides everything behind it.
    pub open spec fn opaque(self) -> bool {
        self.alpha == 255
    }
}

/// The name of a tile background, as a configuration gives it.
#[derive(Clone, Copy, Debug, PartialEq, Eq, Structural)]
pub enum TileBackgroundColorArgument {
    White,
    Transparent,
}

impl TileBackgroundColorArgument {
    /// The token that names the background.
    pub open spec fn name(self) -> Seq<char> {
        match self {
            TileBackgroundColorArgument::White => "white"@,
            TileBackgroundColorArgument::Transparent => "transparent"@,
        }
    }

    /// The background that a token names, if it names one.
    pub open spec fn named(token: Seq<char>) -> Option<TileBackgroundColorArgument> {
        if token == "white"@ {
            Some(TileBackgroundColorArgument::White)
        } else if token == "transparent"@ {
            Some(TileBackgroundColorArgument::Transparent)
        } else {
            None
        }
    }

    /// The color that the background stands for.
    pub open spec fn color_of(self) -> Color {
        match self {
            TileBackgroundColorArgument::White => Color::white(),
            TileBackgroundColorArgument::Transparent => Color::transparent(),
        }
    }

    /// Every background is named by its own token and by no other.
    pub proof fn lemma_name_round_trip(self)
        ensures
            TileBackgroundColorArgument::named(self.name()) == Some(self),
    {
        reveal_strlit("white");
        reveal_strlit("transparent");
        assert("white"@.len() == 5);
        assert("transparent"@.len() == 11);
    }

    /// The token that names the background.
    pub fn as_str(self) -> (s: &'static str)
        ensures
            s@ == self.name(),
    {
        match self {
            TileBackgroundColorArgument::White => "white",
            TileBackgroundColorArgument::Transparent => "transparent",
        }
    }

    /// The tokens of both backgrounds, in declaration order.
    pub fn variants() -> (names: [&'static str; 2])
        ensures
            names[0]@ == TileBackgroundColorArgument::White.name(),
            names[1]@ == TileBackgroundColorArgument::Transparent.name(),
    {
        ["white", "transparent"]
    }

    /// Reads a token. Only the two tokens, letter for letter, name a
    /// background.
    pub fn from_name(token: &str) -> (r: Option<TileBackgroundColorArgument>)
        ensures
            r == TileBackgroundColorArgument::named(token@),
    {
        if same_text(token, "white") {
            Some(TileBackgroundColorArgument::White)
        } else if same_text(token, "transparent") {
            Some(TileBackgroundColorArgument::Transparent)
        } else {
            None
        }
    }

    /// The color that the background stands for: opaque white, or white
    /// without any opacity.
    pub fn color(self) -> (c: Color)
        ensures
            c == self.color_of(),
            self == TileBackgroundColorArgument::White ==> c.opaque(),
            self == TileBackgroundColorArgument::Transparent ==> c.fully_transparent(),
    {
        match self {
            TileBackgroundColorArgument::White => Color { red: 255, green: 255, blue: 255, alpha: 255 },
            TileBackgroundColorArgument::Transparent => Color { red: 255, green: 255, blue: 255, alpha: 0 },
        }
    }
}

} // verus!
