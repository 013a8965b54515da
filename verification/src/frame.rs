//! A terminal frame as the server streams it: a row-major grid of cells,
//! each with its text, packed colors, and style modifier bits.

use vstd::prelude::*;

verus! {

/// One cell of a rendered terminal frame.
#[derive(Debug, Clone)]
pub struct CellData {
    /// The text drawn in the cell (usually one character).
    pub symbol: String,
    /// Packed wire color of the foreground.
    pub fg: u32,
    /// Packed wire color of the background.
    pub bg: u32,
    /// Style modifier bits (bold, dim, italic, ...).
    pub modifier: u16,
    /// The cell is covered by a wide character to its left.
    pub skip: bool,
}

/// Cursor placement and DECSCUSR shape.
#[derive(Debug, Clone, Copy, PartialEq, Eq, Structural)]
pub struct CursorState {
    pub x: u16,
    pub y: u16,
    pub visible: bool,
    pub shape: u8,
}

/// A `width` x `height` grid of cells, row-major.
#[derive(Debug, Clone)]
pub struct FrameData {
    pub cells: Vec<CellData>,
    pub width: u16,
    pub height: u16,
    pub cursor: Option<CursorState>,
}

} // verus!
