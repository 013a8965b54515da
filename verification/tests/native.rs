use herdr_gui::layout::{compute, Rect, RowSlot, TabSlot, ViewLayout};
use herdr_gui::model::UiModel;
use herdr_gui::native::{
    chrome_click, clamped_cell, grid_size, is_visible, mouse_cell, pane_grids, pane_slot_at, paste_text,
    pointer_action, worth_copying, ChromeClick, FinishAction, PointerAction, SelectionState,
};
use herdr_gui::protocol::ClientMouseButton;
use herdr_gui::schema::{AgentStatus, PaneInfo};
use herdr_gui::worker::{Cmd, SplitDirection};

fn layout_with_rows() -> ViewLayout {
    let mut layout = compute(&UiModel::default(), 1000, 700);
    layout.workspace_rows.push(RowSlot { id: "w1".into(), rect: Rect::new(10, 34, 210, 44), focused: false });
    layout.agent_rows.push(RowSlot { id: "term-x".into(), rect: Rect::new(10, 150, 210, 44), focused: false });
    layout.tabs.push(TabSlot {
        tab_id: "t1".into(),
        rect: Rect::new(238, 5, 150, 28),
        close: Rect::new(366, 11, 16, 16),
        focused: true,
    });
    layout
}

#[test]
fn chrome_clicks_issue_commands() {
    let layout = layout_with_rows();
    let focused = Some("p1".to_string());
    assert!(matches!(chrome_click(&layout, &focused, 20, 40), ChromeClick::Hit(Some(Cmd::FocusWorkspace(ref w))) if w == "w1"));
    assert!(matches!(chrome_click(&layout, &focused, 20, 160), ChromeClick::Hit(Some(Cmd::FocusTarget(ref t))) if t == "term-x"));
    assert!(matches!(chrome_click(&layout, &focused, 370, 15), ChromeClick::Hit(Some(Cmd::CloseTab(ref t))) if t == "t1"));
    assert!(matches!(chrome_click(&layout, &focused, 250, 15), ChromeClick::Hit(Some(Cmd::FocusTab(ref t))) if t == "t1"));
    assert!(matches!(chrome_click(&layout, &focused, 20, 670), ChromeClick::Hit(Some(Cmd::NewWorkspace))));
    let split = layout.btn_split_right;
    assert!(matches!(
        chrome_click(&layout, &focused, split.x + 1, split.y + 1),
        ChromeClick::Hit(Some(Cmd::SplitPane { ref pane_id, dir: SplitDirection::Right })) if pane_id == "p1"
    ));
    let close = layout.btn_close_pane;
    assert!(matches!(chrome_click(&layout, &None, close.x + 1, close.y + 1), ChromeClick::Hit(None)));
    assert!(matches!(chrome_click(&layout, &focused, 600, 400), ChromeClick::Miss));
}

fn pane(id: &str, terminal_id: &str) -> PaneInfo {
    PaneInfo {
        pane_id: id.into(),
        terminal_id: terminal_id.into(),
        workspace_id: "ws".into(),
        tab_id: "tab".into(),
        focused: false,
        label: None,
        agent: None,
        title: None,
        display_agent: None,
        agent_status: AgentStatus::Unknown,
    }
}

#[test]
fn pointer_maps_to_pane_and_cell() {
    let model = UiModel { panes: vec![pane("p0", ""), pane("p1", "t1")], ..UiModel::default() };
    let layout = compute(&model, 1030, 738);
    // The first pane has no terminal; the second starts at y = 388.
    assert_eq!(pane_slot_at(&layout, true, 300, 100), None);
    assert_eq!(pane_slot_at(&layout, false, 300, 390), Some(1));
    // Caption rows belong to the rect but not the content.
    assert_eq!(pane_slot_at(&layout, true, 300, 390), None);
    let content = layout.panes[1].content;
    assert_eq!(mouse_cell(content, content.x + 17, content.y + 33, 8, 16), (2, 2));
    assert_eq!(clamped_cell(content, 2, 80, content.x + 100, content.y, 8, 16), (1, 0));
    assert_eq!(grid_size(content, 8, 16), ((content.w / 8) as u16, (content.h / 16) as u16));
    assert_eq!(grid_size(Rect::new(0, 0, 3, 3), 8, 16), (1, 1));
}

#[test]
fn click_without_drag_clears_selection() {
    let mut state = SelectionState::new();
    state.begin(Some(("t1".into(), 3, 4)));
    assert!(state.selecting);
    assert_eq!(state.finish(), FinishAction::Cleared);
    assert!(state.selection.is_none());
}

#[test]
fn drag_keeps_selection_for_copy() {
    let mut state = SelectionState::new();
    state.begin(Some(("t1".into(), 3, 4)));
    assert!(!state.update(Some(("t2".into(), 9, 9))));
    assert!(state.update(Some(("t1".into(), 6, 4))));
    assert_eq!(state.finish(), FinishAction::Copy);
    let sel = state.selection.as_ref().unwrap();
    assert_eq!((sel.anchor, sel.head), ((3, 4), (6, 4)));
    assert_eq!(state.finish(), FinishAction::Nothing);
    assert!(state.clear());
    assert!(!state.clear());
}

#[test]
fn begin_outside_panes_clears() {
    let mut state = SelectionState::new();
    state.begin(Some(("t1".into(), 0, 0)));
    state.begin(None);
    assert!(state.selection.is_none());
    assert!(!state.selecting);
}

#[test]
fn visible_terminals_and_their_grids() {
    let model = UiModel {
        panes: vec![pane("p0", "t0"), pane("p1", "")],
        active_tab_id: Some("tab".into()),
        ..UiModel::default()
    };
    let layout = compute(&model, 1030, 738);
    assert!(is_visible(&layout, "t0"));
    assert!(!is_visible(&layout, "t9"));
    let grids = pane_grids(&layout, 8, 16);
    // The slot without a terminal needs no connection.
    assert_eq!(grids.len(), 1);
    let content = layout.panes[0].content;
    assert_eq!(grids[0], ("t0".to_string(), (content.w / 8) as u16, (content.h / 16) as u16));
}

#[test]
fn copy_and_paste_text_choices() {
    assert!(!worth_copying(""));
    assert!(!worth_copying(" \t\n\u{3000}"));
    assert!(worth_copying("  x "));
    assert_eq!(paste_text(Some("sys".into()), &Some("last".into())), Some("sys".to_string()));
    assert_eq!(paste_text(Some(String::new()), &Some("last".into())), Some("last".to_string()));
    assert_eq!(paste_text(None, &Some(String::new())), None);
    assert_eq!(paste_text(None, &None), None);
}

#[test]
fn mouse_buttons_route_to_actions() {
    assert_eq!(pointer_action(ClientMouseButton::Left, true), PointerAction::ClickOrSelect);
    assert_eq!(pointer_action(ClientMouseButton::Left, false), PointerAction::FinishSelection);
    assert_eq!(pointer_action(ClientMouseButton::Right, true), PointerAction::Paste);
    assert_eq!(pointer_action(ClientMouseButton::Right, false), PointerAction::Nothing);
    assert_eq!(pointer_action(ClientMouseButton::Middle, true), PointerAction::Nothing);
}
