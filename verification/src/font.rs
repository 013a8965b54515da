//! Font style selection and rasterized glyph bitmaps.

use vstd::prelude::*;

verus! {

/// Font style selector, used to index into the loaded family.
#[derive(Debug, Clone, Copy, PartialEq, Eq, Hash, Structural)]
pub enum Style {
    Regular,
    Bold,
    Italic,
    BoldItalic,
}

/// The style with the given weight and slant.
pub open spec fn spec_style(bold: bool, italic: bool) -> Style {
    if bold {
        if italic { Style::BoldItalic } else { Style::Bold }
    } else {
        if italic { Style::Italic } else { Style::Regular }
    }
}

impl Style {
    pub fn from_attrs(bold: bool, italic: bool) -> (s: Self)
        ensures
            s == spec_style(bold, italic),
    {
        match (bold, italic) {
            (false, false) => Style::Regular,
            (true, false) => Style::Bold,
            (false, true) => Style::Italic,
            (true, true) => Style::BoldItalic,
        }
    }

    /// Position of the style in the loaded family: regular, bold, italic,
    /// bold-italic.
    pub fn index(self) -> (i: usize)
        ensures
            i == match self {
                Style::Regular => 0usize,
                Style::Bold => 1usize,
                Style::Italic => 2usize,
                Style::BoldItalic => 3usize,
            },
    {
        match self {
            Style::Regular => 0,
            Style::Bold => 1,
            Style::Italic => 2,
            Style::BoldItalic => 3,
        }
    }
}

/// A rasterized glyph: 8-bit coverage plus placement metrics.
#[derive(Debug, Clone)]
pub struct Glyph {
    /// Coverage bitmap width in pixels.
    pub width: usize,
    /// Coverage bitmap height in pixels.
    pub height: usize,
    /// Horizontal offset from the cell origin to the bitmap's left edge.
    pub xmin: i32,
    /// Vertical offset from the baseline to the bitmap's bottom edge.
    pub ymin: i32,
    /// Per-pixel coverage (`0..=255`), row-major, `width * height` long.
    pub coverage: Vec<u8>,
}

/// The style keeps both attributes: it is bold exactly when `bold` is set
/// and italic exactly when `italic` is set.
pub proof fn lemma_style_keeps_attributes(bold: bool, italic: bool)
    ensures
        (spec_style(bold, italic) == Style::Bold || spec_style(bold, italic) == Style::BoldItalic) == bold,
        (spec_style(bold, italic) == Style::Italic || spec_style(bold, italic) == Style::BoldItalic) == italic,
{
}

} // verus!
