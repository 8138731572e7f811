//! Closed option sets of the screenshot annotation tools.

use vstd::prelude::*;

verus! {

/// Fill mode for shapes.
#[derive(Debug, Clone, Copy, PartialEq, Eq, Structural)]
pub enum FillMode {
    /// Stroke only (outline).
    Stroke,
    /// Fill only (solid).
    Fill,
    /// Both stroke and fill.
    Both,
}

impl Default for FillMode {
    /// Outline only.
    fn default() -> (r: Self)
        ensures
            r == FillMode::Stroke,
    {
        FillMode::Stroke
    }
}

/// Line style for strokes.
#[derive(Debug, Clone, Copy, PartialEq, Eq, Structural)]
pub enum LineStyle {
    /// An unbroken line.
    Solid,
    /// A dashed line.
    Dashed,
    /// A dotted line.
    Dotted,
}

impl Default for LineStyle {
    /// An unbroken line.
    fn default() -> (r: Self)
        ensures
            r == LineStyle::Solid,
    {
        LineStyle::Solid
    }
}

/// Arrow style.
#[derive(Debug, Clone, Copy, PartialEq, Eq, Structural)]
pub enum ArrowStyle {
    /// Arrow at the end only.
    Single,
    /// Arrows at both ends.
    Double,
    /// No arrow, just a line.
    NoArrow,
}

impl Default for ArrowStyle {
    /// An arrow at the end only.
    fn default() -> (r: Self)
        ensures
            r == ArrowStyle::Single,
    {
        ArrowStyle::Single
    }
}

} // verus!
