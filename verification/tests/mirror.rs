use herdr_gui::chrome::{selection_rects, Highlight};
use herdr_gui::layout::Rect;
use herdr_gui::mirror::{cols_rows, ButtonTracker};
use herdr_gui::protocol::{ClientMouseButton, ClientMouseKind};

#[test]
fn grid_fills_window() {
    assert_eq!(cols_rows(1100, 720, 10, 20), (110, 36));
    assert_eq!(cols_rows(5, 5, 10, 20), (1, 1));
    assert_eq!(cols_rows(100, 100, 0, 0), (100, 100));
    assert_eq!(cols_rows(u32::MAX, 10, 1, 1), (0xFFFF, 10));
}

#[test]
fn buttons_drag_with_first_pressed() {
    let mut t = ButtonTracker::new();
    assert_eq!(t.motion_kind(), ClientMouseKind::Moved);
    t.press(ClientMouseButton::Right);
    t.press(ClientMouseButton::Left);
    t.press(ClientMouseButton::Right);
    assert_eq!(t.motion_kind(), ClientMouseKind::Drag(ClientMouseButton::Right));
    t.release(ClientMouseButton::Right);
    assert_eq!(t.motion_kind(), ClientMouseKind::Drag(ClientMouseButton::Left));
    t.release(ClientMouseButton::Left);
    assert_eq!(t.motion_kind(), ClientMouseKind::Moved);
}

#[test]
fn selection_highlight_rects() {
    let hl = Highlight { terminal_id: "t".into(), start: (3, 2), end: (1, 0) };
    let rects = selection_rects(Rect::new(100, 50, 400, 300), 10, 2, 8, 16, &hl);
    // Rows 0 and 1 of a two-row frame; row 2 is below it.
    assert_eq!(rects, vec![Rect::new(108, 50, 72, 16), Rect::new(100, 66, 80, 16)]);
}

#[test]
fn press_then_release_restores_held_buttons() {
    let mut t = ButtonTracker::new();
    t.press(ClientMouseButton::Left);
    t.press(ClientMouseButton::Middle);
    t.release(ClientMouseButton::Middle);
    assert_eq!(t.motion_kind(), ClientMouseKind::Drag(ClientMouseButton::Left));
    t.release(ClientMouseButton::Left);
    t.release(ClientMouseButton::Left);
    assert_eq!(t.motion_kind(), ClientMouseKind::Moved);
}

#[test]
fn resize_reports_only_changed_grids() {
    assert_eq!(herdr_gui::mirror::resized_grid((110, 36), 1100, 720, 10, 20), None);
    assert_eq!(herdr_gui::mirror::resized_grid((110, 36), 1000, 720, 10, 20), Some((100, 36)));
}
