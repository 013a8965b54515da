//! Rasterization of a terminal [`FrameData`] cell grid onto a [`Canvas`].
//!
//! The canvas is first cleared to the default background, so any surface
//! area outside the cell grid stays clean. Cells are then painted in
//! row-major order: the background fills the cell, the glyph is stamped
//! over that background, and any underline and strike-through bars follow.
//! The cursor is painted last. Glyph bitmaps come from the caller, one per
//! cell, rasterized for the cell's first character in the cell's style.

use vstd::prelude::*;
use crate::color::{self, Rgb, DEFAULT_BG, DEFAULT_FG, spec_blend, spec_decode, spec_dim, spec_pack_rgb};
use crate::draw::{Canvas, spec_fill, on_surface, glyph_ink, glyph_origin, glyph_fits, glyph_fits_check};
use crate::font::{Glyph, Style, spec_style};
use crate::frame::{CellData, FrameData};
use crate::layout::fits_i32;

verus! {

/// Style modifier bit: bold weight.
pub const BOLD: u16 = 1;
/// Style modifier bit: faint foreground.
pub const DIM: u16 = 2;
/// Style modifier bit: italic slant.
pub const ITALIC: u16 = 4;
/// Style modifier bit: underline.
pub const UNDERLINED: u16 = 8;
/// Style modifier bit: swapped foreground and background.
pub const REVERSED: u16 = 64;
/// Style modifier bit: invisible text.
pub const HIDDEN: u16 = 128;
/// Style modifier bit: strike-through.
pub const CROSSED_OUT: u16 = 256;

/// The modifier bits `bits` include the bit `flag`.
pub open spec fn has_flag(bits: u16, flag: u16) -> bool {
    bits & flag != 0
}

/// The character a cell shows: the first of its symbol, a space when the
/// symbol is empty.
pub open spec fn first_char(symbol: Seq<char>) -> char {
    if symbol.len() == 0 {
        ' '
    } else {
        symbol[0]
    }
}

/// How one cell is painted once its modifiers are applied.
#[derive(Debug, Clone, Copy)]
pub struct CellPaint {
    /// Ink color of the glyph and of the underline / strike bars.
    pub fg: Rgb,
    /// Fill color of the cell.
    pub bg: Rgb,
    /// The character shown.
    pub ch: char,
    /// Whether a glyph is stamped at all (not a blank and not hidden).
    pub glyph: bool,
    /// The font style of the glyph.
    pub style: Style,
    /// Whether an underline bar is drawn.
    pub underline: bool,
    /// Whether a strike-through bar is drawn.
    pub strike: bool,
}

/// The paint of `cell`: colors decoded against the defaults, swapped when
/// reversed, the foreground dimmed toward the background when dim and set
/// to the background when hidden.
pub open spec fn spec_cell_paint(cell: CellData) -> CellPaint {
    let m = cell.modifier;
    let fg0 = spec_decode(cell.fg, DEFAULT_FG);
    let bg0 = spec_decode(cell.bg, DEFAULT_BG);
    let fg1 = if has_flag(m, REVERSED) { bg0 } else { fg0 };
    let bg1 = if has_flag(m, REVERSED) { fg0 } else { bg0 };
    let fg2 = if has_flag(m, DIM) { spec_dim(fg1, bg1) } else { fg1 };
    let hidden = has_flag(m, HIDDEN);
    let ch = first_char(cell.symbol@);
    CellPaint {
        fg: if hidden { bg1 } else { fg2 },
        bg: bg1,
        ch,
        glyph: ch != ' ' && ch != '\0' && !hidden,
        style: spec_style(has_flag(m, BOLD), has_flag(m, ITALIC)),
        underline: has_flag(m, UNDERLINED),
        strike: has_flag(m, CROSSED_OUT),
    }
}

/// The first character of `symbol`, or a space.
pub fn symbol_char(symbol: &String) -> (c: char)
    ensures
        c == first_char(symbol@),
{
    let s = symbol.as_str();
    if s.unicode_len() == 0 {
        ' '
    } else {
        s.get_char(0)
    }
}

/// Resolves the colors, character, style and bars of one cell.
pub fn cell_paint(cell: &CellData) -> (p: CellPaint)
    ensures
        p == spec_cell_paint(*cell),
{
    let m = cell.modifier;
    let mut fg = color::decode(cell.fg, DEFAULT_FG);
    let mut bg = color::decode(cell.bg, DEFAULT_BG);
    if m & REVERSED != 0 {
        let t = fg;
        fg = bg;
        bg = t;
    }
    if m & DIM != 0 {
        fg = color::dim(fg, bg);
    }
    let hidden = m & HIDDEN != 0;
    if hidden {
        fg = bg;
    }
    let ch = symbol_char(&cell.symbol);
    CellPaint {
        fg,
        bg,
        ch,
        glyph: ch != ' ' && ch != '\0' && !hidden,
        style: Style::from_attrs(m & BOLD != 0, m & ITALIC != 0),
        underline: m & UNDERLINED != 0,
        strike: m & CROSSED_OUT != 0,
    }
}

/// `pixels` with every on-surface pixel that a glyph bitmap placed with
/// its top-left corner at `(left, top)` covers set to `fg` blended over
/// `bg` at that bitmap pixel's coverage.
pub open spec fn spec_stamp(
    pixels: Seq<u32>,
    width: int,
    height: int,
    left: int,
    top: int,
    gw: int,
    gh: int,
    coverage: Seq<u8>,
    fg: Rgb,
    bg: Rgb,
) -> Seq<u32> {
    Seq::new(
        pixels.len(),
        |i: int|
            if on_surface(width, height, i) && glyph_ink(coverage, gw, gh, i % width - left, i / width - top) {
                spec_pack_rgb(spec_blend(bg, fg, coverage[(i / width - top) * gw + (i % width - left)]))
            } else {
                pixels[i]
            },
    )
}

/// Stamps `glyph` in `fg` over a `bg` cell whose top-left corner is
/// `(cell_x, cell_y)`, with the baseline `ascent` pixels below the top.
pub fn stamp_glyph(canvas: &mut Canvas, glyph: &Glyph, cell_x: i32, cell_y: i32, ascent: i32, fg: Rgb, bg: Rgb)
    requires
        old(canvas).wf(),
        glyph_fits(*glyph, cell_x as int, cell_y as int, ascent as int),
    ensures
        final(canvas).wf(),
        final(canvas).pixels() == spec_stamp(
            old(canvas).pixels(),
            old(canvas).spec_width(),
            old(canvas).spec_height(),
            glyph_origin(*glyph, cell_x as int, cell_y as int, ascent as int).0,
            glyph_origin(*glyph, cell_x as int, cell_y as int, ascent as int).1,
            glyph.width as int,
            glyph.height as int,
            glyph.coverage@,
            fg,
            bg,
        ),
        final(canvas).spec_width() == old(canvas).spec_width(),
        final(canvas).spec_height() == old(canvas).spec_height(),
{
    let ghost old_pixels = canvas.pixels();
    let ghost wd = canvas.spec_width();
    let ghost ht = canvas.spec_height();
    let gw: usize = glyph.width;
    let gh: usize = glyph.height;
    let ghost cov = glyph.coverage@;
    let top: i32 = cell_y + ascent - glyph.ymin - gh as i32;
    let left: i32 = cell_x + glyph.xmin;
    let ghost target = spec_stamp(old_pixels, wd, ht, left as int, top as int, gw as int, gh as int, cov, fg, bg);
    if gw == 0 || gh == 0 {
        assert(canvas.pixels() =~= target);
        return;
    }
    let clen: usize = glyph.coverage.len();
    let mut by: usize = 0;
    while by < gh
        invariant
            clen == cov.len(),
            canvas.wf(),
            canvas.pixels().len() == old_pixels.len(),
            canvas.spec_width() == wd,
            canvas.spec_height() == ht,
            gw == glyph.width,
            gh == glyph.height,
            cov == glyph.coverage@,
            cov.len() >= gw * gh,
            fits_i32(left + gw),
            fits_i32(top + gh),
            gw <= i32::MAX,
            gh <= i32::MAX,
            by <= gh,
            forall|i: int| 0 <= i < old_pixels.len() ==> #[trigger] canvas.pixels()[i] == if on_surface(wd, ht, i)
                && glyph_ink(cov, gw as int, gh as int, i % wd - left, i / wd - top) && i / wd - top < by {
                spec_pack_rgb(spec_blend(bg, fg, cov[(i / wd - top) * gw + (i % wd - left)]))
            } else {
                old_pixels[i]
            },
        decreases gh - by,
    {
        let mut bx: usize = 0;
        while bx < gw
            invariant
                clen == cov.len(),
                canvas.wf(),
                canvas.pixels().len() == old_pixels.len(),
                canvas.spec_width() == wd,
                canvas.spec_height() == ht,
                gw == glyph.width,
                gh == glyph.height,
                cov == glyph.coverage@,
                cov.len() >= gw * gh,
                fits_i32(left + gw),
                fits_i32(top + gh),
                gw <= i32::MAX,
                gh <= i32::MAX,
                by < gh,
                bx <= gw,
                forall|i: int| 0 <= i < old_pixels.len() ==> #[trigger] canvas.pixels()[i] == if on_surface(wd, ht, i)
                    && glyph_ink(cov, gw as int, gh as int, i % wd - left, i / wd - top) && (i / wd - top < by
                    || (i / wd - top == by && i % wd - left < bx)) {
                    spec_pack_rgb(spec_blend(bg, fg, cov[(i / wd - top) * gw + (i % wd - left)]))
                } else {
                    old_pixels[i]
                },
            decreases gw - bx,
        {
            proof {
                assert(0 <= by * gw + bx < gw * gh) by (nonlinear_arith)
                    requires
                        bx < gw,
                        by < gh,
                ;
            }
            let c: u8 = glyph.coverage[by * gw + bx];
            if c != 0 {
                let packed = color::pack_rgb(color::blend(bg, fg, c));
                canvas.put(left + bx as i32, top + by as i32, packed);
            }
            bx += 1;
        }
        by += 1;
    }
    proof {
        assert(canvas.pixels() =~= target);
    }
}

/// The row of a cell, counted from its top, on which the underline sits:
/// just below the baseline, but never below the cell.
pub open spec fn underline_row(cell_h: int, ascent: int) -> int {
    if ascent + 1 < cell_h - 1 {
        ascent + 1
    } else {
        cell_h - 1
    }
}

/// `pixels` with the cell whose top-left corner is `(x0, y0)` painted:
/// background fill, glyph, underline, strike-through.
pub open spec fn spec_paint_cell(
    pixels: Seq<u32>,
    width: int,
    height: int,
    x0: int,
    y0: int,
    cell_w: int,
    cell_h: int,
    ascent: int,
    paint: CellPaint,
    glyph: Glyph,
) -> Seq<u32> {
    let filled = spec_fill(pixels, width, height, x0, y0, cell_w, cell_h, spec_pack_rgb(paint.bg));
    let origin = glyph_origin(glyph, x0, y0, ascent);
    let inked = if paint.glyph {
        spec_stamp(
            filled,
            width,
            height,
            origin.0,
            origin.1,
            glyph.width as int,
            glyph.height as int,
            glyph.coverage@,
            paint.fg,
            paint.bg,
        )
    } else {
        filled
    };
    let under = if paint.underline {
        spec_fill(inked, width, height, x0, y0 + underline_row(cell_h, ascent), cell_w, 1, spec_pack_rgb(paint.fg))
    } else {
        inked
    };
    if paint.strike {
        spec_fill(under, width, height, x0, y0 + cell_h / 2, cell_w, 1, spec_pack_rgb(paint.fg))
    } else {
        under
    }
}

/// Paints one cell whose top-left corner is `(x0, y0)`.
pub fn paint_cell(
    canvas: &mut Canvas,
    cell: &CellData,
    glyph: &Glyph,
    x0: i32,
    y0: i32,
    cell_w: i32,
    cell_h: i32,
    ascent: i32,
)
    requires
        old(canvas).wf(),
        cell_w >= 1,
        cell_h >= 1,
        ascent >= 0,
        x0 >= 0,
        y0 >= 0,
        x0 + cell_w <= i32::MAX,
        y0 + cell_h <= i32::MAX,
        spec_cell_paint(*cell).glyph ==> glyph_fits(*glyph, x0 as int, y0 as int, ascent as int),
    ensures
        final(canvas).wf(),
        final(canvas).pixels() == spec_paint_cell(
            old(canvas).pixels(),
            old(canvas).spec_width(),
            old(canvas).spec_height(),
            x0 as int,
            y0 as int,
            cell_w as int,
            cell_h as int,
            ascent as int,
            spec_cell_paint(*cell),
            *glyph,
        ),
        final(canvas).spec_width() == old(canvas).spec_width(),
        final(canvas).spec_height() == old(canvas).spec_height(),
{
    let p = cell_paint(cell);
    canvas.fill_rect(x0, y0, cell_w, cell_h, p.bg);
    if p.glyph {
        stamp_glyph(canvas, glyph, x0, y0, ascent, p.fg, p.bg);
    }
    if p.underline {
        let row: i32 = if ascent < cell_h - 2 { ascent + 1 } else { cell_h - 1 };
        canvas.fill_rect(x0, y0 + row, cell_w, 1, p.fg);
    }
    if p.strike {
        canvas.fill_rect(x0, y0 + cell_h / 2, cell_w, 1, p.fg);
    }
}

/// The top-left corner of cell `idx` of a grid `cols` cells wide.
pub open spec fn cell_origin(idx: int, cols: int, cell_w: int, cell_h: int) -> (int, int) {
    ((idx % cols) * cell_w, (idx / cols) * cell_h)
}

/// How many cells of `frame` are painted: those that exist and lie inside
/// its `width` x `height` grid.
pub open spec fn painted_cells(frame: FrameData) -> int {
    let grid = frame.width * frame.height;
    if frame.cells@.len() < grid {
        frame.cells@.len() as int
    } else {
        grid
    }
}

/// `pixels` with the first `n` cells of `frame` painted in order, cell `k`
/// with glyph `glyphs[k]`.
pub open spec fn spec_paint_cells(
    pixels: Seq<u32>,
    width: int,
    height: int,
    frame: FrameData,
    glyphs: Seq<Glyph>,
    cell_w: int,
    cell_h: int,
    ascent: int,
    n: nat,
) -> Seq<u32>
    decreases n,
{
    if n == 0 {
        pixels
    } else {
        let k = n - 1;
        let origin = cell_origin(k, frame.width as int, cell_w, cell_h);
        spec_paint_cell(
            spec_paint_cells(pixels, width, height, frame, glyphs, cell_w, cell_h, ascent, (n - 1) as nat),
            width,
            height,
            origin.0,
            origin.1,
            cell_w,
            cell_h,
            ascent,
            spec_cell_paint(frame.cells@[k]),
            glyphs[k],
        )
    }
}

/// Cell `k` of `frame` can take its glyph without overflowing `i32`.
pub open spec fn cell_glyph_fits(
    frame: FrameData,
    glyphs: Seq<Glyph>,
    cell_w: int,
    cell_h: int,
    ascent: int,
    k: int,
) -> bool {
    let origin = cell_origin(k, frame.width as int, cell_w, cell_h);
    spec_cell_paint(frame.cells@[k]).glyph ==> glyph_fits(glyphs[k], origin.0, origin.1, ascent)
}

/// The index of the cell under the cursor at column `x`, row `y`.
pub open spec fn cursor_index(frame: FrameData, x: int, y: int) -> int {
    y * frame.width + x
}

/// The cursor is drawn: it is set, visible, and over an existing cell.
pub open spec fn cursor_drawn(frame: FrameData) -> bool {
    match frame.cursor {
        Some(c) => c.visible && cursor_index(frame, c.x as int, c.y as int) < frame.cells@.len(),
        None => false,
    }
}

/// The block cursor redraws the glyph of its cell.
pub open spec fn cursor_redraws_glyph(frame: FrameData) -> bool {
    match frame.cursor {
        Some(c) => {
            let ch = first_char(frame.cells@[cursor_index(frame, c.x as int, c.y as int)].symbol@);
            !(c.shape == 3 || c.shape == 4 || c.shape == 5 || c.shape == 6) && ch != ' ' && ch != '\0'
        },
        None => false,
    }
}

/// `pixels` with the cursor of `frame` drawn: an underline bar for shapes
/// 3 and 4, a bar at the left edge for 5 and 6, otherwise a block in the
/// cell's foreground with its glyph redrawn in the cell's background.
pub open spec fn spec_paint_cursor(
    pixels: Seq<u32>,
    width: int,
    height: int,
    frame: FrameData,
    glyphs: Seq<Glyph>,
    cell_w: int,
    cell_h: int,
    ascent: int,
) -> Seq<u32> {
    if !cursor_drawn(frame) {
        pixels
    } else {
        let c = frame.cursor->Some_0;
        let idx = cursor_index(frame, c.x as int, c.y as int);
        let cell = frame.cells@[idx];
        let x0 = c.x * cell_w;
        let y0 = c.y * cell_h;
        let fg = spec_decode(cell.fg, DEFAULT_FG);
        let bg = spec_decode(cell.bg, DEFAULT_BG);
        if c.shape == 3 || c.shape == 4 {
            let h = if cell_h / 8 > 1 { cell_h / 8 } else { 1 };
            spec_fill(pixels, width, height, x0, y0 + cell_h - h, cell_w, h, spec_pack_rgb(fg))
        } else if c.shape == 5 || c.shape == 6 {
            let w = if cell_w / 6 > 1 { cell_w / 6 } else { 1 };
            spec_fill(pixels, width, height, x0, y0, w, cell_h, spec_pack_rgb(fg))
        } else {
            let block = spec_fill(pixels, width, height, x0, y0, cell_w, cell_h, spec_pack_rgb(fg));
            if cursor_redraws_glyph(frame) {
                let glyph = glyphs[idx];
                let origin = glyph_origin(glyph, x0, y0, ascent);
                spec_stamp(
                    block,
                    width,
                    height,
                    origin.0,
                    origin.1,
                    glyph.width as int,
                    glyph.height as int,
                    glyph.coverage@,
                    bg,
                    fg,
                )
            } else {
                block
            }
        }
    }
}

/// The frame, glyphs and metrics `render_frame` handles: positive cell
/// sizes, a non-negative ascent, one glyph per cell, and every painted
/// coordinate within `i32`.
pub open spec fn render_fits(frame: FrameData, glyphs: Seq<Glyph>, cell_w: int, cell_h: int, ascent: int) -> bool {
    &&& cell_w >= 1
    &&& cell_h >= 1
    &&& ascent >= 0
    &&& glyphs.len() == frame.cells@.len()
    &&& frame.width * cell_w <= i32::MAX
    &&& frame.height * cell_h <= i32::MAX
    &&& forall|k: int| 0 <= k < painted_cells(frame) ==> #[trigger] cell_glyph_fits(frame, glyphs, cell_w, cell_h, ascent, k)
    &&& cursor_drawn(frame) ==> {
        let c = frame.cursor->Some_0;
        &&& (c.x + 1) * cell_w <= i32::MAX
        &&& (c.y + 1) * cell_h <= i32::MAX
        &&& cursor_redraws_glyph(frame) ==> glyph_fits(
            glyphs[cursor_index(frame, c.x as int, c.y as int)],
            c.x * cell_w,
            c.y * cell_h,
            ascent,
        )
    }
}

/// A whole frame on `pixels`: the surface cleared to the default
/// background, the painted cells in order, then the cursor.
pub open spec fn spec_render(
    pixels: Seq<u32>,
    width: int,
    height: int,
    frame: FrameData,
    glyphs: Seq<Glyph>,
    cell_w: int,
    cell_h: int,
    ascent: int,
) -> Seq<u32> {
    let cleared = Seq::new(pixels.len(), |i: int| spec_pack_rgb(DEFAULT_BG));
    let cells = spec_paint_cells(
        cleared,
        width,
        height,
        frame,
        glyphs,
        cell_w,
        cell_h,
        ascent,
        painted_cells(frame) as nat,
    );
    spec_paint_cursor(cells, width, height, frame, glyphs, cell_w, cell_h, ascent)
}

/// A cell inside the grid has its whole rect inside the grid's pixels.
proof fn lemma_cell_in_grid(idx: int, cols: int, rows: int, cell_w: int, cell_h: int)
    requires
        0 <= idx < cols * rows,
        cols >= 1,
        cell_w >= 1,
        cell_h >= 1,
    ensures
        0 <= idx % cols < cols,
        0 <= idx / cols < rows,
        (idx % cols) * cell_w + cell_w <= cols * cell_w,
        (idx / cols) * cell_h + cell_h <= rows * cell_h,
        0 <= (idx % cols) * cell_w,
        0 <= (idx / cols) * cell_h,
{
    let q = idx / cols;
    let r = idx % cols;
    vstd::arithmetic::div_mod::lemma_fundamental_div_mod(idx, cols);
    assert(0 <= r < cols);
    assert(0 <= q < rows) by (nonlinear_arith)
        requires
            idx == cols * q + r,
            0 <= r < cols,
            0 <= idx < cols * rows,
            cols >= 1,
    ;
    assert(r * cell_w + cell_w <= cols * cell_w) by (nonlinear_arith)
        requires
            0 <= r < cols,
            cell_w >= 1,
    ;
    assert(q * cell_h + cell_h <= rows * cell_h) by (nonlinear_arith)
        requires
            0 <= q < rows,
            cell_h >= 1,
    ;
    assert(0 <= r * cell_w && 0 <= q * cell_h) by (nonlinear_arith)
        requires
            0 <= r,
            0 <= q,
            cell_w >= 1,
            cell_h >= 1,
    ;
}

/// Draws the cursor of `frame`, if it is set, visible and over a cell.
pub fn paint_cursor(canvas: &mut Canvas, frame: &FrameData, glyphs: &Vec<Glyph>, cell_w: usize, cell_h: usize, ascent: i32)
    requires
        old(canvas).wf(),
        render_fits(*frame, glyphs@, cell_w as int, cell_h as int, ascent as int),
    ensures
        final(canvas).wf(),
        final(canvas).pixels() == spec_paint_cursor(
            old(canvas).pixels(),
            old(canvas).spec_width(),
            old(canvas).spec_height(),
            *frame,
            glyphs@,
            cell_w as int,
            cell_h as int,
            ascent as int,
        ),
        final(canvas).spec_width() == old(canvas).spec_width(),
        final(canvas).spec_height() == old(canvas).spec_height(),
{
    let cursor = match frame.cursor {
        Some(c) => c,
        None => {
            return;
        },
    };
    if !cursor.visible {
        return;
    }
    proof {
        let (y, w) = (cursor.y as int, frame.width as int);
        assert(y * w <= 0xFFFF * 0xFFFF) by (nonlinear_arith)
            requires
                0 <= y <= 0xFFFF,
                0 <= w <= 0xFFFF,
        ;
    }
    let idx64: u64 = cursor.y as u64 * frame.width as u64 + cursor.x as u64;
    if idx64 >= frame.cells.len() as u64 {
        return;
    }
    let idx: usize = idx64 as usize;
    proof {
        let (x, y, cw, chh) = (cursor.x as int, cursor.y as int, cell_w as int, cell_h as int);
        assert(x * cw + cw <= i32::MAX && cw <= i32::MAX && 0 <= x * cw) by (nonlinear_arith)
            requires
                (x + 1) * cw <= i32::MAX,
                x >= 0,
                cw >= 1,
        ;
        assert(y * chh + chh <= i32::MAX && chh <= i32::MAX && 0 <= y * chh) by (nonlinear_arith)
            requires
                (y + 1) * chh <= i32::MAX,
                y >= 0,
                chh >= 1,
        ;
    }
    let cell = &frame.cells[idx];
    let cw: i32 = cell_w as i32;
    let ch: i32 = cell_h as i32;
    let x0: i32 = cursor.x as i32 * cw;
    let y0: i32 = cursor.y as i32 * ch;
    let fg = color::decode(cell.fg, DEFAULT_FG);
    let bg = color::decode(cell.bg, DEFAULT_BG);
    if cursor.shape == 3 || cursor.shape == 4 {
        let h: i32 = if ch / 8 > 1 { ch / 8 } else { 1 };
        canvas.fill_rect(x0, y0 + ch - h, cw, h, fg);
    } else if cursor.shape == 5 || cursor.shape == 6 {
        let w: i32 = if cw / 6 > 1 { cw / 6 } else { 1 };
        canvas.fill_rect(x0, y0, w, ch, fg);
    } else {
        canvas.fill_rect(x0, y0, cw, ch, fg);
        let c = symbol_char(&cell.symbol);
        if c != ' ' && c != '\0' {
            stamp_glyph(canvas, &glyphs[idx], x0, y0, ascent, bg, fg);
        }
    }
}

/// Renders `frame` onto `canvas`: clears the whole surface to the default
/// background, paints every cell that exists inside the `width` x
/// `height` grid in row-major order with its glyph from `glyphs` (one per
/// cell), then draws the cursor.
pub fn render_frame(frame: &FrameData, glyphs: &Vec<Glyph>, cell_w: usize, cell_h: usize, ascent: i32, canvas: &mut Canvas)
    requires
        old(canvas).wf(),
        render_fits(*frame, glyphs@, cell_w as int, cell_h as int, ascent as int),
    ensures
        final(canvas).wf(),
        final(canvas).pixels() == spec_render(
            old(canvas).pixels(),
            old(canvas).spec_width(),
            old(canvas).spec_height(),
            *frame,
            glyphs@,
            cell_w as int,
            cell_h as int,
            ascent as int,
        ),
        final(canvas).spec_width() == old(canvas).spec_width(),
        final(canvas).spec_height() == old(canvas).spec_height(),
{
    let ghost wd = canvas.spec_width();
    let ghost ht = canvas.spec_height();
    canvas.clear(DEFAULT_BG);
    let ghost base = canvas.pixels();
    let cols: usize = frame.width as usize;
    let rows: usize = frame.height as usize;
    let len: usize = frame.cells.len();
    proof {
        assert(cols * rows <= 0xFFFF * 0xFFFF) by (nonlinear_arith)
            requires
                0 <= cols <= 0xFFFF,
                0 <= rows <= 0xFFFF,
        ;
    }
    let grid: u64 = cols as u64 * rows as u64;
    let n: usize = if (len as u64) < grid { len } else { grid as usize };
    let mut idx: usize = 0;
    while idx < n
        invariant
            canvas.wf(),
            canvas.spec_width() == wd,
            canvas.spec_height() == ht,
            render_fits(*frame, glyphs@, cell_w as int, cell_h as int, ascent as int),
            cols == frame.width,
            rows == frame.height,
            n == painted_cells(*frame),
            idx <= n,
            canvas.pixels() == spec_paint_cells(
                base,
                wd,
                ht,
                *frame,
                glyphs@,
                cell_w as int,
                cell_h as int,
                ascent as int,
                idx as nat,
            ),
        decreases n - idx,
    {
        proof {
            lemma_cell_in_grid(idx as int, cols as int, rows as int, cell_w as int, cell_h as int);
            assert(cell_glyph_fits(*frame, glyphs@, cell_w as int, cell_h as int, ascent as int, idx as int));
        }
        let col: usize = idx % cols;
        let row: usize = idx / cols;
        let x0: i32 = (col * cell_w) as i32;
        let y0: i32 = (row * cell_h) as i32;
        paint_cell(canvas, &frame.cells[idx], &glyphs[idx], x0, y0, cell_w as i32, cell_h as i32, ascent);
        idx += 1;
    }
    paint_cursor(canvas, frame, glyphs, cell_w, cell_h, ascent);
}

/// Whether `render_frame` can take `frame`, `glyphs` and the metrics:
/// exactly `render_fits`.
pub fn render_fits_check(frame: &FrameData, glyphs: &Vec<Glyph>, cell_w: usize, cell_h: usize, ascent: i32) -> (b: bool)
    ensures
        b == render_fits(*frame, glyphs@, cell_w as int, cell_h as int, ascent as int),
{
    if cell_w < 1 || cell_h < 1 || ascent < 0 || glyphs.len() != frame.cells.len() {
        return false;
    }
    if cell_w > 0x7FFF_FFFF || cell_h > 0x7FFF_FFFF {
        return render_fits_check_large(frame, glyphs, cell_w, cell_h, ascent);
    }
    let cols: u64 = frame.width as u64;
    let rows: u64 = frame.height as u64;
    proof {
        assert(cols * cell_w <= 0xFFFF * 0x7FFF_FFFF) by (nonlinear_arith)
            requires
                cols <= 0xFFFF,
                cell_w <= 0x7FFF_FFFF,
        ;
        assert(rows * cell_h <= 0xFFFF * 0x7FFF_FFFF) by (nonlinear_arith)
            requires
                rows <= 0xFFFF,
                cell_h <= 0x7FFF_FFFF,
        ;
    }
    if cols * (cell_w as u64) > 0x7FFF_FFFF || rows * (cell_h as u64) > 0x7FFF_FFFF {
        return false;
    }
    let cw: i32 = cell_w as i32;
    let ch: i32 = cell_h as i32;
    let len: usize = frame.cells.len();
    proof {
        assert(cols * rows <= 0xFFFF * 0xFFFF) by (nonlinear_arith)
            requires
                cols <= 0xFFFF,
                rows <= 0xFFFF,
        ;
    }
    let grid: u64 = cols * rows;
    let n: usize = if (len as u64) < grid { len } else { grid as usize };
    let mut k: usize = 0;
    while k < n
        invariant
            n == painted_cells(*frame),
            cols == frame.width,
            rows == frame.height,
            cw == cell_w,
            ch == cell_h,
            cell_w >= 1,
            cell_h >= 1,
            ascent >= 0,
            glyphs@.len() == frame.cells@.len(),
            frame.width * cell_w <= i32::MAX,
            frame.height * cell_h <= i32::MAX,
            k <= n,
            forall|i: int| 0 <= i < k ==> #[trigger] cell_glyph_fits(*frame, glyphs@, cell_w as int, cell_h as int, ascent as int, i),
        decreases n - k,
    {
        proof {
            lemma_cell_in_grid(k as int, cols as int, rows as int, cell_w as int, cell_h as int);
        }
        let col: usize = k % (cols as usize);
        let row: usize = k / (cols as usize);
        let x0: i32 = (col * cell_w) as i32;
        let y0: i32 = (row * cell_h) as i32;
        let p = cell_paint(&frame.cells[k]);
        if p.glyph && !glyph_fits_check(&glyphs[k], x0, y0, ascent) {
            proof {
                assert(!cell_glyph_fits(*frame, glyphs@, cell_w as int, cell_h as int, ascent as int, k as int));
            }
            return false;
        }
        k += 1;
    }
    cursor_fits_check(frame, glyphs, cw, ch, ascent)
}

/// `render_fits` for cell sizes beyond `i32`: only an empty grid with no
/// cursor drawn can meet it.
fn render_fits_check_large(frame: &FrameData, glyphs: &Vec<Glyph>, cell_w: usize, cell_h: usize, ascent: i32) -> (b: bool)
    requires
        cell_w >= 1,
        cell_h >= 1,
        ascent >= 0,
        glyphs@.len() == frame.cells@.len(),
        cell_w > 0x7FFF_FFFF || cell_h > 0x7FFF_FFFF,
    ensures
        b == render_fits(*frame, glyphs@, cell_w as int, cell_h as int, ascent as int),
{
    proof {
        let (cw, chh, fw, fh) = (cell_w as int, cell_h as int, frame.width as int, frame.height as int);
        assert(fw >= 1 ==> fw * cw >= cw) by (nonlinear_arith)
            requires
                cw >= 1,
        ;
        assert(fh >= 1 ==> fh * chh >= chh) by (nonlinear_arith)
            requires
                chh >= 1,
        ;
        assert(fw == 0 ==> fw * cw == 0) by (nonlinear_arith);
        assert(fh == 0 ==> fh * chh == 0) by (nonlinear_arith);
        assert((fw == 0 || fh == 0) ==> fw * fh == 0) by (nonlinear_arith);
    }
    if cell_w > 0x7FFF_FFFF {
        if frame.width != 0 {
            return false;
        }
    } else {
        proof {
            assert(frame.width * cell_w <= 0xFFFF * 0x7FFF_FFFF) by (nonlinear_arith)
                requires
                    frame.width <= 0xFFFF,
                    cell_w <= 0x7FFF_FFFF,
            ;
        }
        if (frame.width as u64) * (cell_w as u64) > 0x7FFF_FFFF {
            return false;
        }
    }
    if cell_h > 0x7FFF_FFFF {
        if frame.height != 0 {
            return false;
        }
    } else {
        proof {
            assert(frame.height * cell_h <= 0xFFFF * 0x7FFF_FFFF) by (nonlinear_arith)
                requires
                    frame.height <= 0xFFFF,
                    cell_h <= 0x7FFF_FFFF,
            ;
        }
        if (frame.height as u64) * (cell_h as u64) > 0x7FFF_FFFF {
            return false;
        }
    }
    proof {
        assert(painted_cells(*frame) == 0);
    }
    match frame.cursor {
        Some(c) => {
            if !c.visible {
                return true;
            }
            proof {
                let (y, w) = (c.y as int, frame.width as int);
                assert(y * w <= 0xFFFF * 0xFFFF) by (nonlinear_arith)
                    requires
                        0 <= y <= 0xFFFF,
                        0 <= w <= 0xFFFF,
                ;
                let (x, yy, cw, chh) = (c.x as int, c.y as int, cell_w as int, cell_h as int);
                assert((x + 1) * cw >= cw) by (nonlinear_arith)
                    requires
                        x >= 0,
                        cw >= 1,
                ;
                assert((yy + 1) * chh >= chh) by (nonlinear_arith)
                    requires
                        yy >= 0,
                        chh >= 1,
                ;
            }
            let idx64: u64 = (c.y as u64) * (frame.width as u64) + c.x as u64;
            !(idx64 < frame.cells.len() as u64)
        },
        None => true,
    }
}

/// The cursor part of `render_fits`, for cell sizes within `i32`.
fn cursor_fits_check(frame: &FrameData, glyphs: &Vec<Glyph>, cell_w: i32, cell_h: i32, ascent: i32) -> (b: bool)
    requires
        cell_w >= 1,
        cell_h >= 1,
        glyphs@.len() == frame.cells@.len(),
    ensures
        b == (cursor_drawn(*frame) ==> {
            let c = frame.cursor->Some_0;
            &&& (c.x + 1) * cell_w <= i32::MAX
            &&& (c.y + 1) * cell_h <= i32::MAX
            &&& cursor_redraws_glyph(*frame) ==> glyph_fits(
                glyphs@[cursor_index(*frame, c.x as int, c.y as int)],
                c.x * cell_w,
                c.y * cell_h,
                ascent as int,
            )
        }),
{
    let c = match frame.cursor {
        Some(c) => c,
        None => {
            return true;
        },
    };
    if !c.visible {
        return true;
    }
    proof {
        let (y, w) = (c.y as int, frame.width as int);
        assert(y * w <= 0xFFFF * 0xFFFF) by (nonlinear_arith)
            requires
                0 <= y <= 0xFFFF,
                0 <= w <= 0xFFFF,
        ;
        let (x, yy, cw, chh) = (c.x as int, c.y as int, cell_w as int, cell_h as int);
        assert((x + 1) * cw <= 0x1_0000 * 0x7FFF_FFFF) by (nonlinear_arith)
            requires
                0 <= x <= 0xFFFF,
                1 <= cw <= 0x7FFF_FFFF,
        ;
        assert((yy + 1) * chh <= 0x1_0000 * 0x7FFF_FFFF) by (nonlinear_arith)
            requires
                0 <= yy <= 0xFFFF,
                1 <= chh <= 0x7FFF_FFFF,
        ;
        assert((x + 1) * cw == x * cw + cw) by (nonlinear_arith);
        assert((yy + 1) * chh == yy * chh + chh) by (nonlinear_arith);
        assert(0 <= x * cw && 0 <= yy * chh) by (nonlinear_arith)
            requires
                x >= 0,
                yy >= 0,
                cw >= 1,
                chh >= 1,
        ;
    }
    let idx64: u64 = (c.y as u64) * (frame.width as u64) + c.x as u64;
    if idx64 >= frame.cells.len() as u64 {
        return true;
    }
    let xw: u64 = (c.x as u64 + 1) * (cell_w as u64);
    let yh: u64 = (c.y as u64 + 1) * (cell_h as u64);
    if xw > 0x7FFF_FFFF || yh > 0x7FFF_FFFF {
        return false;
    }
    if c.shape == 3 || c.shape == 4 || c.shape == 5 || c.shape == 6 {
        return true;
    }
    let idx: usize = idx64 as usize;
    let ch = symbol_char(&frame.cells[idx].symbol);
    if ch == ' ' || ch == '\0' {
        return true;
    }
    let x0: i32 = (c.x as i32) * cell_w;
    let y0: i32 = (c.y as i32) * cell_h;
    glyph_fits_check(&glyphs[idx], x0, y0, ascent)
}

/// `glyph`, placed in the cell whose top-left corner is `(x0, y0)`, keeps
/// its whole bitmap inside the `cell_w` x `cell_h` cell.
pub open spec fn glyph_inside_cell(glyph: Glyph, x0: int, y0: int, cell_w: int, cell_h: int, ascent: int) -> bool {
    let origin = glyph_origin(glyph, x0, y0, ascent);
    &&& x0 <= origin.0
    &&& origin.0 + glyph.width <= x0 + cell_w
    &&& y0 <= origin.1
    &&& origin.1 + glyph.height <= y0 + cell_h
}

/// Pixel `i` lies in the rect `(x, y, w, h)` of the surface.
pub open spec fn pixel_in(width: int, height: int, i: int, x: int, y: int, w: int, h: int) -> bool {
    on_surface(width, height, i) && x <= i % width < x + w && y <= i / width < y + h
}

/// Painting a cell changes no pixel outside the cell when its glyph stays
/// inside it.
proof fn lemma_paint_cell_local(
    pixels: Seq<u32>,
    width: int,
    height: int,
    x0: int,
    y0: int,
    cell_w: int,
    cell_h: int,
    ascent: int,
    paint: CellPaint,
    glyph: Glyph,
    i: int,
)
    requires
        0 <= i < pixels.len(),
        cell_w >= 1,
        cell_h >= 1,
        ascent >= 0,
        !pixel_in(width, height, i, x0, y0, cell_w, cell_h),
        paint.glyph ==> glyph_inside_cell(glyph, x0, y0, cell_w, cell_h, ascent),
    ensures
        spec_paint_cell(pixels, width, height, x0, y0, cell_w, cell_h, ascent, paint, glyph).len() == pixels.len(),
        spec_paint_cell(pixels, width, height, x0, y0, cell_w, cell_h, ascent, paint, glyph)[i] == pixels[i],
{
    let origin = glyph_origin(glyph, x0, y0, ascent);
    if paint.glyph && on_surface(width, height, i) {
        if glyph_ink(glyph.coverage@, glyph.width as int, glyph.height as int, i % width - origin.0, i / width - origin.1) {
            assert(pixel_in(width, height, i, x0, y0, cell_w, cell_h));
        }
    }
}

/// Every cell and glyph of the first `n` painted cells stays inside the
/// grid; a pixel outside the grid keeps its value.
proof fn lemma_paint_cells_outside_grid(
    pixels: Seq<u32>,
    width: int,
    height: int,
    frame: FrameData,
    glyphs: Seq<Glyph>,
    cell_w: int,
    cell_h: int,
    ascent: int,
    n: nat,
    i: int,
)
    requires
        0 <= i < pixels.len(),
        cell_w >= 1,
        cell_h >= 1,
        ascent >= 0,
        n <= painted_cells(frame),
        glyphs_inside_cells(frame, glyphs, cell_w, cell_h, ascent),
        !on_surface(width, height, i) || i % width >= frame.width * cell_w || i / width >= frame.height * cell_h,
    ensures
        spec_paint_cells(pixels, width, height, frame, glyphs, cell_w, cell_h, ascent, n).len() == pixels.len(),
        spec_paint_cells(pixels, width, height, frame, glyphs, cell_w, cell_h, ascent, n)[i] == pixels[i],
    decreases n,
{
    if n > 0 {
        let k = n - 1;
        lemma_paint_cells_outside_grid(pixels, width, height, frame, glyphs, cell_w, cell_h, ascent, (n - 1) as nat, i);
        assert(k < frame.width * frame.height);
        assert(frame.width >= 1) by (nonlinear_arith)
            requires
                0 <= k < frame.width * frame.height,
                frame.height >= 0,
        ;
        lemma_cell_in_grid(k, frame.width as int, frame.height as int, cell_w, cell_h);
        let origin = cell_origin(k, frame.width as int, cell_w, cell_h);
        assert(glyph_cell_inside(frame, glyphs, cell_w, cell_h, ascent, k));
        lemma_paint_cell_local(
            spec_paint_cells(pixels, width, height, frame, glyphs, cell_w, cell_h, ascent, (n - 1) as nat),
            width,
            height,
            origin.0,
            origin.1,
            cell_w,
            cell_h,
            ascent,
            spec_cell_paint(frame.cells@[k]),
            glyphs[k],
            i,
        );
    }
}

/// Cell `k`'s glyph, when drawn, stays inside the cell.
pub open spec fn glyph_cell_inside(frame: FrameData, glyphs: Seq<Glyph>, cell_w: int, cell_h: int, ascent: int, k: int) -> bool {
    let origin = cell_origin(k, frame.width as int, cell_w, cell_h);
    spec_cell_paint(frame.cells@[k]).glyph ==> glyph_inside_cell(glyphs[k], origin.0, origin.1, cell_w, cell_h, ascent)
}

/// Every painted cell whose glyph is drawn keeps it inside the cell.
pub open spec fn glyphs_inside_cells(frame: FrameData, glyphs: Seq<Glyph>, cell_w: int, cell_h: int, ascent: int) -> bool {
    forall|k: int| 0 <= k < painted_cells(frame) ==> #[trigger] glyph_cell_inside(frame, glyphs, cell_w, cell_h, ascent, k)
}

/// A drawn cursor sits on the grid, and the glyph a block cursor redraws
/// stays inside its cell.
pub open spec fn cursor_inside_grid(frame: FrameData, glyphs: Seq<Glyph>, cell_w: int, cell_h: int, ascent: int) -> bool {
    cursor_drawn(frame) ==> {
        let c = frame.cursor->Some_0;
        &&& c.x < frame.width
        &&& c.y < frame.height
        &&& cursor_redraws_glyph(frame) ==> glyph_inside_cell(
            glyphs[cursor_index(frame, c.x as int, c.y as int)],
            c.x * cell_w,
            c.y * cell_h,
            cell_w,
            cell_h,
            ascent,
        )
    }
}

/// The surface outside the cell grid keeps the default background: a
/// rendered frame leaves every pixel right of or below its `width` x
/// `height` grid (and every pixel past the surface) at the default
/// background, as long as no glyph overhangs its cell and the cursor sits
/// on the grid.
pub proof fn lemma_outside_grid_is_background(
    pixels: Seq<u32>,
    width: int,
    height: int,
    frame: FrameData,
    glyphs: Seq<Glyph>,
    cell_w: int,
    cell_h: int,
    ascent: int,
    i: int,
)
    requires
        render_fits(frame, glyphs, cell_w, cell_h, ascent),
        glyphs_inside_cells(frame, glyphs, cell_w, cell_h, ascent),
        cursor_inside_grid(frame, glyphs, cell_w, cell_h, ascent),
        0 <= i < pixels.len(),
        !on_surface(width, height, i) || i % width >= frame.width * cell_w || i / width >= frame.height * cell_h,
    ensures
        spec_render(pixels, width, height, frame, glyphs, cell_w, cell_h, ascent)[i] == spec_pack_rgb(DEFAULT_BG),
{
    let cleared = Seq::new(pixels.len(), |j: int| spec_pack_rgb(DEFAULT_BG));
    let n = painted_cells(frame) as nat;
    lemma_paint_cells_outside_grid(cleared, width, height, frame, glyphs, cell_w, cell_h, ascent, n, i);
    let cells = spec_paint_cells(cleared, width, height, frame, glyphs, cell_w, cell_h, ascent, n);
    if cursor_drawn(frame) {
        let c = frame.cursor->Some_0;
        let (x, y, w, hh) = (c.x as int, c.y as int, frame.width as int, frame.height as int);
        assert(x * cell_w + cell_w <= w * cell_w && y * cell_h + cell_h <= hh * cell_h) by (nonlinear_arith)
            requires
                0 <= x < w,
                0 <= y < hh,
                cell_w >= 1,
                cell_h >= 1,
        ;
        assert(0 <= x * cell_w && 0 <= y * cell_h) by (nonlinear_arith)
            requires
                x >= 0,
                y >= 0,
                cell_w >= 1,
                cell_h >= 1,
        ;
        assert(!pixel_in(width, height, i, x * cell_w, y * cell_h, cell_w, cell_h));
        if cursor_redraws_glyph(frame) && !(c.shape == 3 || c.shape == 4 || c.shape == 5 || c.shape == 6) {
            let glyph = glyphs[cursor_index(frame, x, y)];
            let origin = glyph_origin(glyph, x * cell_w, y * cell_h, ascent);
            if on_surface(width, height, i) && glyph_ink(
                glyph.coverage@,
                glyph.width as int,
                glyph.height as int,
                i % width - origin.0,
                i / width - origin.1,
            ) {
                assert(pixel_in(width, height, i, x * cell_w, y * cell_h, cell_w, cell_h));
            }
        }
    }
}

/// A cell's modifier bits act as ratatui's: bold is bit 1, italic 4 and
/// they pick the glyph style; underline (8) and strike-through (256) each
/// draw their own bar, exactly when their bit is set; reverse (64) swaps
/// the decoded colors; hidden (128) hides the glyph by inking in the
/// background color; dim (2) halves the foreground toward the background.
pub proof fn lemma_modifier_bits_act_as_named(cell: CellData)
    ensures
        ({
            let m = cell.modifier;
            let p = spec_cell_paint(cell);
            let fg = spec_decode(cell.fg, DEFAULT_FG);
            let bg = spec_decode(cell.bg, DEFAULT_BG);
            &&& p.underline == (m & 8 != 0)
            &&& p.strike == (m & 256 != 0)
            &&& p.style == spec_style(m & 1 != 0, m & 4 != 0)
            &&& p.bg == (if m & 64 != 0 { fg } else { bg })
            &&& m & 128 != 0 ==> p.fg == p.bg && !p.glyph
            &&& (m & 2 == 0 && m & 128 == 0) ==> p.fg == (if m & 64 != 0 { bg } else { fg })
            &&& (m & 128 == 0 && m & 2 != 0) ==> p.fg == spec_dim(if m & 64 != 0 { bg } else { fg }, p.bg)
        }),
{
}

/// The pixels of a cell without a glyph: a pixel in row `r` of the cell is
/// the foreground where an underline lies on the row below the baseline
/// (`ascent + 1`, kept inside the cell) or a strike-through on the middle
/// row (`cell_h / 2`), and the background everywhere else in the cell.
pub proof fn lemma_blank_cell_pixels(
    pixels: Seq<u32>,
    width: int,
    height: int,
    x0: int,
    y0: int,
    cell_w: int,
    cell_h: int,
    ascent: int,
    paint: CellPaint,
    glyph: Glyph,
    c: int,
    r: int,
)
    requires
        !paint.glyph,
        pixels.len() == width * height,
        0 <= c < cell_w,
        0 <= r < cell_h,
        0 <= x0 + c < width,
        0 <= y0 + r < height,
    ensures
        ({
            let under_row = if ascent + 1 < cell_h - 1 { ascent + 1 } else { cell_h - 1 };
            let bar = (paint.underline && r == under_row) || (paint.strike && r == cell_h / 2);
            spec_paint_cell(pixels, width, height, x0, y0, cell_w, cell_h, ascent, paint, glyph)[(y0 + r) * width + x0
                + c] == spec_pack_rgb(if bar { paint.fg } else { paint.bg })
        }),
{
    crate::draw::lemma_pixel_index(width, height, x0 + c, y0 + r);
}

/// The cursor takes the shape its DECSCUSR code asks for. In a cursor cell
/// at least two pixels each way and wholly on the surface: shapes 3 and 4
/// (underline) color the cell's bottom-left and bottom-right pixels in the
/// cell's foreground and leave its top-left pixel; shapes 5 and 6 (bar)
/// color its left column and leave its top-right pixel; every other shape
/// is a block that colors all four corners (a blank cell keeps them so).
pub proof fn lemma_cursor_takes_its_shape(
    pixels: Seq<u32>,
    width: int,
    height: int,
    frame: FrameData,
    glyphs: Seq<Glyph>,
    cell_w: int,
    cell_h: int,
    ascent: int,
)
    requires
        cursor_drawn(frame),
        pixels.len() == width * height,
        cell_w >= 2,
        cell_h >= 2,
        frame.cursor->Some_0.x * cell_w + cell_w <= width,
        frame.cursor->Some_0.y * cell_h + cell_h <= height,
    ensures
        ({
            let c = frame.cursor->Some_0;
            let x0 = c.x * cell_w;
            let y0 = c.y * cell_h;
            let cell = frame.cells@[cursor_index(frame, c.x as int, c.y as int)];
            let fg = spec_pack_rgb(spec_decode(cell.fg, DEFAULT_FG));
            let out = spec_paint_cursor(pixels, width, height, frame, glyphs, cell_w, cell_h, ascent);
            let at = |x: int, y: int| y * width + x;
            &&& (c.shape == 3 || c.shape == 4) ==> {
                &&& out[at(x0, y0 + cell_h - 1)] == fg
                &&& out[at(x0 + cell_w - 1, y0 + cell_h - 1)] == fg
                &&& out[at(x0, y0)] == pixels[at(x0, y0)]
            }
            &&& (c.shape == 5 || c.shape == 6) ==> {
                &&& out[at(x0, y0)] == fg
                &&& out[at(x0, y0 + cell_h - 1)] == fg
                &&& out[at(x0 + cell_w - 1, y0)] == pixels[at(x0 + cell_w - 1, y0)]
            }
            &&& (!(c.shape == 3 || c.shape == 4 || c.shape == 5 || c.shape == 6) && !cursor_redraws_glyph(frame)) ==> {
                &&& out[at(x0, y0)] == fg
                &&& out[at(x0 + cell_w - 1, y0)] == fg
                &&& out[at(x0, y0 + cell_h - 1)] == fg
                &&& out[at(x0 + cell_w - 1, y0 + cell_h - 1)] == fg
            }
        }),
{
    let c = frame.cursor->Some_0;
    let x0 = c.x * cell_w;
    let y0 = c.y * cell_h;
    assert(0 <= x0 && 0 <= y0) by (nonlinear_arith)
        requires
            x0 == c.x * cell_w,
            y0 == c.y * cell_h,
            c.x >= 0,
            c.y >= 0,
            cell_w >= 2,
            cell_h >= 2,
    ;
    crate::draw::lemma_pixel_index(width, height, x0, y0);
    crate::draw::lemma_pixel_index(width, height, x0 + cell_w - 1, y0);
    crate::draw::lemma_pixel_index(width, height, x0, y0 + cell_h - 1);
    crate::draw::lemma_pixel_index(width, height, x0 + cell_w - 1, y0 + cell_h - 1);
    assert(cell_h / 8 < cell_h - 0 && cell_w / 6 < cell_w) by (nonlinear_arith)
        requires
            cell_w >= 2,
            cell_h >= 2,
    ;
}

} // verus!
