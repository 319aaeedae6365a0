//! Text-related keyword values: overflow behaviour, font style, and font
//! weight.

use vstd::prelude::*;

verus! {

#[derive(Debug, Clone, Copy, PartialEq, Eq, Structural)]
pub enum TextOverflow {
    Wrap,
    Clip,
    Ellipsis,
}

/// Allows italic or oblique faces to be selected.
#[derive(Debug, Clone, Copy, PartialEq, Eq, Structural, Hash)]
pub enum Style {
    /// A face that is neither italic nor obliqued.
    Normal,
    /// A form that is generally cursive in nature.
    Italic,
    /// A typically-sloped version of the regular face.
    Oblique,
}

impl Default for Style {
    fn default() -> (r: Style)
        ensures
            r == Style::Normal,
    {
        Style::Normal
    }
}

/// The weight of glyphs in the font: their degree of blackness or stroke
/// thickness, on the usual 100–900 scale.
#[derive(Debug, Clone, Copy, PartialEq, Eq, Structural, Hash)]
pub struct Weight(pub u16);

impl Default for Weight {
    fn default() -> (r: Weight)
        ensures
            r == Weight(400u16),
    {
        Weight(400)
    }
}

} // verus!
