//! Rendering parameters: an immutable-per-call record consumed by every
//! renderer, and the colour theme it carries.

use vstd::prelude::*;

verus! {

/// A terminal colour from the classic 16-colour palette.
///
/// The renderer never interprets a colour; it only hands it, together with a
/// structural token, to the colourizing layer.
#[derive(Clone, Copy, PartialEq, Eq, Structural, Debug)]
pub enum Colour {
    Black,
    Red,
    Green,
    Yellow,
    Blue,
    Magenta,
    Cyan,
    White,
    BrightBlack,
    BrightRed,
    BrightGreen,
    BrightYellow,
    BrightBlue,
    BrightMagenta,
    BrightCyan,
    BrightWhite,
}

impl Colour {
    /// The colour's lower-case name, as colour theming libraries spell it.
    pub fn name(&self) -> (r: &'static str) {
        match self {
            Colour::Black => "black",
            Colour::Red => "red",
            Colour::Green => "green",
            Colour::Yellow => "yellow",
            Colour::Blue => "blue",
            Colour::Magenta => "magenta",
            Colour::Cyan => "cyan",
            Colour::White => "white",
            Colour::BrightBlack => "bright black",
            Colour::BrightRed => "bright red",
            Colour::BrightGreen => "bright green",
            Colour::BrightYellow => "bright yellow",
            Colour::BrightBlue => "bright blue",
            Colour::BrightMagenta => "bright magenta",
            Colour::BrightCyan => "bright cyan",
            Colour::BrightWhite => "bright white",
        }
    }
}

/// The category-to-colour theme map. Only the colour of generic objects is
/// read by the renderers in this crate; the per-category sibling renderers
/// own the rest of the theme.
#[derive(Clone, Copy)]
pub struct ColourMap {
    /// Colour of the structural tokens of generic objects (braces, commas,
    /// the depth-cap placeholder, elision markers).
    pub object: Colour,
}

/// Rendering parameters for one formatting call. Copied, never mutated, as
/// depth increases on recursive descent.
#[derive(Clone, Copy)]
pub struct Config {
    /// Current recursion depth; generic objects render as an opaque
    /// placeholder once it reaches the depth cap.
    pub depth: u32,
    /// Base indent unit count, added to the depth-derived indent.
    pub indentation: u32,
    /// Multi-line rather than single-line layout for generic objects.
    pub multiline: bool,
    /// Maximum number of keys enumerated per object.
    pub iteration: usize,
    /// Category-to-colour theme.
    pub colours: ColourMap,
    /// Whether top-level string values are quoted (nested ones always are).
    pub quoted: bool,
}

/// The fixed recursion limit beyond which generic objects render as an
/// opaque placeholder instead of expanding.
pub const DEPTH_CAP: u32 = 4;

impl Config {
    /// The configuration a child value is rendered under: one level deeper,
    /// and always quoted.
    pub open spec fn spec_child(self) -> Config {
        Config { depth: (self.depth + 1) as u32, quoted: true, ..self }
    }

    /// Descend: the same parameters, one level deeper, with quoting on.
    pub fn child(self) -> (r: Config)
        requires
            self.depth < u32::MAX,
        ensures
            r == self.spec_child(),
    {
        Config { depth: self.depth + 1, quoted: true, ..self }
    }
}

} // verus!
