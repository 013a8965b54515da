use herdr_gui::color::pack_rgb;
use herdr_gui::draw::{truncate_cells, Canvas};
use herdr_gui::font::Glyph;

#[test]
fn fill_rect_clips_to_bounds() {
    let buf = vec![0u32; 4 * 4];
    let mut canvas = Canvas::new(buf, 4, 4);
    canvas.fill_rect(2, 2, 10, 10, (255, 0, 0));
    let buf = canvas.into_buffer();
    // Only the bottom-right 2x2 should be red.
    assert_eq!(buf[3 * 4 + 3], pack_rgb((255, 0, 0)));
    assert_eq!(buf[0], 0);
}

#[test]
fn truncate_adds_ellipsis() {
    assert_eq!(truncate_cells("hello", 10), "hello");
    assert_eq!(truncate_cells("hello world", 5), "hell…");
}

#[test]
fn truncate_to_one_cell_has_no_ellipsis() {
    assert_eq!(truncate_cells("hello", 1), "h");
    assert_eq!(truncate_cells("hello", 0), "");
    assert_eq!(truncate_cells("héllo", 5), "héllo");
    assert_eq!(truncate_cells("héllo", 3), "hé…");
}

#[test]
fn fill_rect_negative_origin_and_empty_rects() {
    let mut canvas = Canvas::new(vec![0u32; 3 * 2], 3, 2);
    canvas.fill_rect(-1, -1, 2, 2, (0, 0, 1));
    canvas.fill_rect(1, 1, 0, 5, (9, 9, 9));
    let buf = canvas.into_buffer();
    assert_eq!(buf, vec![1, 0, 0, 0, 0, 0]);
}

#[test]
fn put_ignores_off_surface_points() {
    let mut canvas = Canvas::new(vec![0u32; 2 * 2], 2, 2);
    canvas.put(1, 1, 7);
    canvas.put(2, 0, 9);
    canvas.put(-1, 0, 9);
    canvas.put(0, 2, 9);
    assert_eq!(canvas.into_buffer(), vec![0, 0, 0, 7]);
}

#[test]
fn clear_paints_the_whole_buffer() {
    let mut canvas = Canvas::new(vec![5u32; 6], 2, 2);
    canvas.clear((0, 0, 2));
    assert_eq!(canvas.into_buffer(), vec![2; 6]);
}

#[test]
fn stroke_rect_draws_only_the_outline() {
    let mut canvas = Canvas::new(vec![0u32; 4 * 4], 4, 4);
    canvas.stroke_rect(0, 0, 4, 4, 1, (0, 0, 1));
    let buf = canvas.into_buffer();
    let expected = vec![1, 1, 1, 1, 1, 0, 0, 1, 1, 0, 0, 1, 1, 1, 1, 1];
    assert_eq!(buf, expected);
}

#[test]
fn stroke_rect_is_one_pixel_whatever_the_thickness() {
    let mut canvas = Canvas::new(vec![0u32; 5 * 5], 5, 5);
    canvas.stroke_rect(0, 0, 5, 5, 2, (0, 0, 1));
    let buf = canvas.into_buffer();
    let expected = vec![
        1, 1, 1, 1, 1, //
        1, 0, 0, 0, 1, //
        1, 0, 0, 0, 1, //
        1, 0, 0, 0, 1, //
        1, 1, 1, 1, 1,
    ];
    assert_eq!(buf, expected);
    // Clipped: only the on-surface parts of the border are drawn.
    let mut canvas = Canvas::new(vec![0u32; 3 * 3], 3, 3);
    canvas.stroke_rect(-1, 1, 3, 4, 3, (0, 0, 1));
    assert_eq!(canvas.into_buffer(), vec![0, 0, 0, 1, 1, 0, 0, 1, 0]);
}

#[test]
fn blend_mixes_with_existing_pixel() {
    let mut canvas = Canvas::new(vec![pack_rgb((0, 0, 0)); 1], 1, 1);
    canvas.blend(0, 0, (255, 255, 255), 128);
    assert_eq!(canvas.buffer()[0], pack_rgb((128, 128, 128)));
    canvas.blend(0, 0, (0, 0, 0), 0);
    assert_eq!(canvas.buffer()[0], pack_rgb((128, 128, 128)));
}

#[test]
fn dot_paints_a_disc() {
    let mut canvas = Canvas::new(vec![0u32; 5 * 5], 5, 5);
    canvas.dot(2, 2, 1, (0, 0, 1));
    let buf = canvas.into_buffer();
    let expected = vec![
        0, 0, 0, 0, 0, //
        0, 0, 1, 0, 0, //
        0, 1, 1, 1, 0, //
        0, 0, 1, 0, 0, //
        0, 0, 0, 0, 0,
    ];
    assert_eq!(buf, expected);
}

#[test]
fn draw_glyph_blends_coverage_and_skips_spaces() {
    let glyph = Glyph { width: 2, height: 1, xmin: 0, ymin: 0, coverage: vec![255, 0] };
    let mut canvas = Canvas::new(vec![0u32; 3 * 3], 3, 3);
    // Baseline 2 px below the cell top: the one-row bitmap lands on row 1.
    canvas.draw_glyph(&glyph, 'x', 0, 0, 2, (0, 0, 9));
    canvas.draw_glyph(&glyph, ' ', 1, 0, 2, (0, 0, 7));
    assert_eq!(canvas.into_buffer(), vec![0, 0, 0, 9, 0, 0, 0, 0, 0]);
}

#[test]
fn text_advances_one_cell_per_char_and_clips() {
    let glyph = Glyph { width: 1, height: 1, xmin: 0, ymin: 0, coverage: vec![255] };
    let glyphs = vec![glyph.clone(), glyph.clone(), glyph.clone()];
    let mut canvas = Canvas::new(vec![0u32; 40 * 20], 40, 20);
    assert!(herdr_gui::draw::text_fits_check(&glyphs, 0, 0, "ABC", 8, 10, 20));
    let end = canvas.text(&glyphs, 0, 0, "ABC", 8, 10, (255, 255, 255), 20);
    // Two 8 px cells fit before x = 20; the third would pass it.
    assert_eq!(end, 16);
    let buf = canvas.into_buffer();
    let white = pack_rgb((255, 255, 255));
    // Each 1x1 glyph sits on the baseline row: y = 10 - 0 - 1 = 9.
    assert_eq!(buf[9 * 40], white);
    assert_eq!(buf[9 * 40 + 8], white);
    assert_eq!(buf[9 * 40 + 16], 0);
}

#[test]
fn fill_rect_alpha_blends_and_clips() {
    let mut canvas = Canvas::new(vec![pack_rgb((0, 0, 200)); 4 * 2], 4, 2);
    canvas.fill_rect_alpha(-1, 1, 3, 5, (255, 0, 0), 51);
    let buf = canvas.into_buffer();
    // (255 * 51 + 0 * 204) / 255 = 51; (200 * 204) / 255 = 160.
    assert_eq!(buf[4], pack_rgb((51, 0, 160)));
    assert_eq!(buf[5], pack_rgb((51, 0, 160)));
    assert_eq!(buf[6], pack_rgb((0, 0, 200)));
    assert_eq!(buf[0], pack_rgb((0, 0, 200)));
}

#[test]
fn glyph_fits_check_rejects_short_bitmaps() {
    let short = Glyph { width: 2, height: 2, xmin: 0, ymin: 0, coverage: vec![1, 2, 3] };
    assert!(!herdr_gui::draw::glyph_fits_check(&short, 0, 0, 10));
    let ok = Glyph { width: 2, height: 2, xmin: 0, ymin: 0, coverage: vec![1, 2, 3, 4] };
    assert!(herdr_gui::draw::glyph_fits_check(&ok, 0, 0, 10));
    assert!(!herdr_gui::draw::glyph_fits_check(&ok, i32::MAX, 0, 10));
}

#[test]
fn text_advances_and_clips() {
    // A monospace cell as a 16 px face gives it: 10 px wide, 15 px ascent.
    let cw: i32 = 10;
    let glyph = Glyph { width: 6, height: 10, xmin: 1, ymin: 0, coverage: vec![200; 60] };
    let glyphs = vec![glyph.clone(), glyph];
    let mut canvas = Canvas::new(vec![0u32; 200 * 40], 200, 40);
    assert!(herdr_gui::draw::text_fits_check(&glyphs, 0, 0, "AB", cw, 15, 200));
    let end = canvas.text(&glyphs, 0, 0, "AB", cw, 15, (255, 255, 255), 200);
    assert_eq!(end, cw * 2);
}
