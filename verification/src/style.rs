//! How text is to be shown: a colour and two kinds of emphasis.

use vstd::prelude::*;

verus! {

/// The colours that lines are shown in.
#[derive(Debug, Clone, Copy, PartialEq, Eq)]
pub enum Color {
    White,
    Blue,
    Yellow,
    LightYellow,
    Red,
    Green,
}

/// A foreground colour, if one is set, and the emphasis of a piece of text.
#[derive(Debug, Clone, Copy, PartialEq, Eq)]
pub struct Style {
    pub fg: Option<Color>,
    pub dim: bool,
    pub crossed_out: bool,
}

impl Style {
    /// The style that sets nothing.
    pub open spec fn plain() -> Style {
        Style { fg: None, dim: false, crossed_out: false }
    }

    /// The style that sets only the foreground colour.
    pub open spec fn colored(color: Color) -> Style {
        Style { fg: Some(color), dim: false, crossed_out: false }
    }
}

} // verus!
