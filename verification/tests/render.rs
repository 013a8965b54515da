use herdr_gui::color::{pack_rgb, Rgb, DEFAULT_BG};
use herdr_gui::draw::Canvas;
use herdr_gui::font::{Glyph, Style};
use herdr_gui::frame::{CellData, CursorState, FrameData};
use herdr_gui::render::{
    cell_paint, render_frame, symbol_char, BOLD, CROSSED_OUT, DIM, HIDDEN, ITALIC, REVERSED, UNDERLINED,
};

const CELL_W: usize = 8;
const CELL_H: usize = 16;
const ASCENT: i32 = 12;

fn rgb_cell(symbol: &str, fg: Rgb, bg: Rgb) -> CellData {
    CellData {
        symbol: symbol.to_string(),
        fg: 0x02_00_00_00 | ((fg.0 as u32) << 16) | ((fg.1 as u32) << 8) | (fg.2 as u32),
        bg: 0x02_00_00_00 | ((bg.0 as u32) << 16) | ((bg.1 as u32) << 8) | (bg.2 as u32),
        modifier: 0,
        skip: false,
    }
}

/// A 6x10 bitmap shaped like an "M": two full-coverage legs and a diagonal.
fn glyph_m() -> Glyph {
    let (w, h) = (6usize, 10usize);
    let mut coverage = vec![0u8; w * h];
    for y in 0..h {
        coverage[y * w] = 255;
        coverage[y * w + w - 1] = 255;
    }
    coverage[w + 1] = 255;
    coverage[2 * w + 2] = 255;
    coverage[w + 4] = 255;
    coverage[2 * w + 3] = 255;
    Glyph { width: w, height: h, xmin: 1, ymin: 0, coverage }
}

fn blank_glyph() -> Glyph {
    Glyph { width: 0, height: 0, xmin: 0, ymin: 0, coverage: vec![] }
}

fn render(frame: &FrameData, glyphs: &Vec<Glyph>, w: usize, h: usize) -> Vec<u32> {
    let mut canvas = Canvas::new(vec![0u32; w * h], w, h);
    render_frame(frame, glyphs, CELL_W, CELL_H, ASCENT, &mut canvas);
    canvas.into_buffer()
}

#[test]
fn fills_cell_background() {
    let (cw, ch) = (CELL_W, CELL_H);
    let frame = FrameData {
        cells: vec![rgb_cell(" ", (255, 255, 255), (255, 0, 0))],
        width: 1,
        height: 1,
        cursor: None,
    };
    let buf = render(&frame, &vec![blank_glyph()], cw, ch);
    // A space cell should be entirely its red background.
    assert!(buf.iter().all(|&p| p == pack_rgb((255, 0, 0))));
}

#[test]
fn glyph_produces_foreground_ink() {
    let (cw, ch) = (CELL_W, CELL_H);
    let frame = FrameData {
        cells: vec![rgb_cell("M", (255, 255, 255), (0, 0, 0))],
        width: 1,
        height: 1,
        cursor: None,
    };
    let buf = render(&frame, &vec![glyph_m()], cw, ch);
    let white = pack_rgb((255, 255, 255));
    assert!(buf.contains(&white), "letter M should paint white ink");
    assert!(buf.contains(&pack_rgb((0, 0, 0))), "background should remain black around the glyph");
}

#[test]
fn block_cursor_inverts_cell() {
    let (cw, ch) = (CELL_W, CELL_H);
    let frame = FrameData {
        cells: vec![rgb_cell(" ", (255, 255, 255), (0, 0, 0))],
        width: 1,
        height: 1,
        cursor: Some(CursorState { x: 0, y: 0, visible: true, shape: 2 }),
    };
    let buf = render(&frame, &vec![blank_glyph()], cw, ch);
    // Block cursor fills the cell with the foreground (white).
    assert!(buf.iter().all(|&p| p == pack_rgb((255, 255, 255))));
}

#[test]
fn glyph_bitmap_lands_on_the_baseline() {
    let frame = FrameData {
        cells: vec![rgb_cell("M", (255, 255, 255), (0, 0, 0))],
        width: 1,
        height: 1,
        cursor: None,
    };
    let buf = render(&frame, &vec![glyph_m()], CELL_W, CELL_H);
    let white = pack_rgb((255, 255, 255));
    let black = pack_rgb((0, 0, 0));
    // Left edge x = 0 + xmin = 1; top y = 0 + 12 - 0 - 10 = 2.
    assert_eq!(buf[2 * CELL_W + 1], white);
    assert_eq!(buf[11 * CELL_W + 1], white);
    assert_eq!(buf[12 * CELL_W + 1], black);
    assert_eq!(buf[CELL_W + 1], black);
    assert_eq!(buf[2 * CELL_W + 6], white);
    assert_eq!(buf[2 * CELL_W + 7], black);
}

#[test]
fn surface_outside_grid_gets_default_background() {
    let frame = FrameData {
        cells: vec![rgb_cell(" ", (1, 2, 3), (9, 9, 9))],
        width: 1,
        height: 1,
        cursor: None,
    };
    let w = CELL_W + 3;
    let h = CELL_H + 2;
    let buf = render(&frame, &vec![blank_glyph()], w, h);
    assert_eq!(buf[0], pack_rgb((9, 9, 9)));
    assert_eq!(buf[CELL_W], pack_rgb(DEFAULT_BG));
    assert_eq!(buf[CELL_H * w], pack_rgb(DEFAULT_BG));
}

#[test]
fn cells_are_placed_row_major() {
    let frame = FrameData {
        cells: vec![
            rgb_cell(" ", (0, 0, 0), (1, 0, 0)),
            rgb_cell(" ", (0, 0, 0), (2, 0, 0)),
            rgb_cell(" ", (0, 0, 0), (3, 0, 0)),
            rgb_cell(" ", (0, 0, 0), (4, 0, 0)),
            rgb_cell(" ", (0, 0, 0), (5, 0, 0)),
        ],
        width: 2,
        height: 2,
        cursor: None,
    };
    let glyphs = vec![blank_glyph(), blank_glyph(), blank_glyph(), blank_glyph(), blank_glyph()];
    let w = 2 * CELL_W;
    let buf = render(&frame, &glyphs, w, 2 * CELL_H);
    assert_eq!(buf[0], pack_rgb((1, 0, 0)));
    assert_eq!(buf[CELL_W], pack_rgb((2, 0, 0)));
    assert_eq!(buf[CELL_H * w], pack_rgb((3, 0, 0)));
    assert_eq!(buf[CELL_H * w + CELL_W], pack_rgb((4, 0, 0)));
    // The fifth cell lies outside the 2x2 grid and is not painted.
    assert!(!buf.contains(&pack_rgb((5, 0, 0))));
}

#[test]
fn underline_and_strike_bars() {
    let mut cell = rgb_cell(" ", (200, 0, 0), (0, 0, 0));
    cell.modifier = UNDERLINED | CROSSED_OUT;
    let frame = FrameData { cells: vec![cell], width: 1, height: 1, cursor: None };
    let buf = render(&frame, &vec![blank_glyph()], CELL_W, CELL_H);
    let red = pack_rgb((200, 0, 0));
    // Underline at row min(ascent + 1, cell_h - 1) = 13, strike at cell_h / 2 = 8.
    assert!(buf[13 * CELL_W..14 * CELL_W].iter().all(|&p| p == red));
    assert!(buf[8 * CELL_W..9 * CELL_W].iter().all(|&p| p == red));
    assert_eq!(buf[12 * CELL_W], pack_rgb((0, 0, 0)));
}

#[test]
fn underline_and_bar_cursors() {
    let frame = FrameData {
        cells: vec![rgb_cell(" ", (255, 255, 255), (0, 0, 0))],
        width: 1,
        height: 1,
        cursor: Some(CursorState { x: 0, y: 0, visible: true, shape: 4 }),
    };
    let buf = render(&frame, &vec![blank_glyph()], CELL_W, CELL_H);
    let white = pack_rgb((255, 255, 255));
    let black = pack_rgb((0, 0, 0));
    // Height max(16 / 8, 1) = 2 at the bottom of the cell.
    assert_eq!(buf[14 * CELL_W], white);
    assert_eq!(buf[13 * CELL_W], black);

    let frame = FrameData {
        cells: vec![rgb_cell(" ", (255, 255, 255), (0, 0, 0))],
        width: 1,
        height: 1,
        cursor: Some(CursorState { x: 0, y: 0, visible: true, shape: 6 }),
    };
    let buf = render(&frame, &vec![blank_glyph()], CELL_W, CELL_H);
    // Width max(8 / 6, 1) = 1 at the left edge.
    assert_eq!(buf[0], white);
    assert_eq!(buf[1], black);
    assert_eq!(buf[15 * CELL_W], white);
}

#[test]
fn hidden_cursor_and_cursor_off_grid_draw_nothing() {
    let frame = FrameData {
        cells: vec![rgb_cell(" ", (255, 255, 255), (0, 0, 0))],
        width: 1,
        height: 1,
        cursor: Some(CursorState { x: 0, y: 0, visible: false, shape: 2 }),
    };
    let buf = render(&frame, &vec![blank_glyph()], CELL_W, CELL_H);
    assert!(buf.iter().all(|&p| p == pack_rgb((0, 0, 0))));

    let frame = FrameData {
        cells: vec![rgb_cell(" ", (255, 255, 255), (0, 0, 0))],
        width: 1,
        height: 1,
        cursor: Some(CursorState { x: 0, y: 1, visible: true, shape: 2 }),
    };
    let buf = render(&frame, &vec![blank_glyph()], CELL_W, CELL_H);
    assert!(buf.iter().all(|&p| p == pack_rgb((0, 0, 0))));
}

#[test]
fn block_cursor_redraws_glyph_in_background() {
    let frame = FrameData {
        cells: vec![rgb_cell("M", (255, 255, 255), (0, 0, 0))],
        width: 1,
        height: 1,
        cursor: Some(CursorState { x: 0, y: 0, visible: true, shape: 0 }),
    };
    let buf = render(&frame, &vec![glyph_m()], CELL_W, CELL_H);
    assert_eq!(buf[2 * CELL_W + 1], pack_rgb((0, 0, 0)));
    assert_eq!(buf[0], pack_rgb((255, 255, 255)));
}

#[test]
fn cell_paint_applies_modifiers() {
    let mut cell = rgb_cell("x", (200, 100, 0), (0, 50, 100));
    cell.modifier = REVERSED;
    let p = cell_paint(&cell);
    assert_eq!(p.fg, (0, 50, 100));
    assert_eq!(p.bg, (200, 100, 0));
    assert!(p.glyph);
    assert_eq!(p.ch, 'x');

    cell.modifier = DIM;
    let p = cell_paint(&cell);
    assert_eq!(p.fg, (100, 75, 50));

    cell.modifier = HIDDEN | BOLD;
    let p = cell_paint(&cell);
    assert_eq!(p.fg, (0, 50, 100));
    assert!(!p.glyph);
    assert_eq!(p.style, Style::Bold);

    cell.modifier = BOLD | ITALIC;
    assert_eq!(cell_paint(&cell).style, Style::BoldItalic);
    cell.modifier = ITALIC;
    assert_eq!(cell_paint(&cell).style, Style::Italic);
}

#[test]
fn blank_symbols_draw_no_glyph() {
    assert_eq!(symbol_char(&String::new()), ' ');
    assert_eq!(symbol_char(&"é!".to_string()), 'é');
    let cell = rgb_cell("", (1, 1, 1), (0, 0, 0));
    assert!(!cell_paint(&cell).glyph);
    let cell = rgb_cell("\0", (1, 1, 1), (0, 0, 0));
    assert!(!cell_paint(&cell).glyph);
}

#[test]
fn render_fits_check_matches_the_metrics() {
    let frame = FrameData {
        cells: vec![rgb_cell("M", (255, 255, 255), (0, 0, 0))],
        width: 1,
        height: 1,
        cursor: Some(CursorState { x: 0, y: 0, visible: true, shape: 2 }),
    };
    assert!(herdr_gui::render::render_fits_check(&frame, &vec![glyph_m()], CELL_W, CELL_H, ASCENT));
    // One glyph per cell is required, and the cell size must be positive.
    assert!(!herdr_gui::render::render_fits_check(&frame, &vec![], CELL_W, CELL_H, ASCENT));
    assert!(!herdr_gui::render::render_fits_check(&frame, &vec![glyph_m()], 0, CELL_H, ASCENT));
    // A grid wider than i32 pixels is refused.
    let wide = FrameData { cells: vec![], width: 2, height: 1, cursor: None };
    assert!(!herdr_gui::render::render_fits_check(&wide, &vec![], 0x4000_0000, CELL_H, ASCENT));
    let empty = FrameData { cells: vec![], width: 0, height: 0, cursor: None };
    assert!(herdr_gui::render::render_fits_check(&empty, &vec![], usize::MAX, usize::MAX, ASCENT));
}
