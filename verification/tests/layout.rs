use herdr_gui::layout::{compute, Rect, CAPTION_H, SIDEBAR_W};
use herdr_gui::model::UiModel;
use herdr_gui::schema::{AgentStatus, CellRect, LayoutPane, PaneInfo, PaneLayoutSnapshot, TabInfo, WorkspaceInfo};

fn pane(id: &str, terminal_id: &str, tab_id: &str) -> PaneInfo {
    PaneInfo {
        pane_id: id.into(),
        terminal_id: terminal_id.into(),
        workspace_id: "ws0".into(),
        tab_id: tab_id.into(),
        focused: false,
        label: None,
        agent: None,
        title: None,
        display_agent: None,
        agent_status: AgentStatus::Unknown,
    }
}

#[test]
fn rect_contains_is_half_open() {
    let r = Rect::new(10, 10, 20, 20);
    assert!(r.contains(10, 10));
    assert!(r.contains(29, 29));
    assert!(!r.contains(30, 30));
    assert!(!r.contains(9, 10));
}

#[test]
fn empty_model_yields_chrome_but_no_panes() {
    let model = UiModel::default();
    let layout = compute(&model, 1000, 700);
    assert_eq!(layout.sidebar.w, SIDEBAR_W);
    assert_eq!(layout.tabbar.x, SIDEBAR_W);
    assert!(layout.panes.is_empty());
}

#[test]
fn inset_floors_size_at_zero() {
    assert_eq!(Rect::new(0, 0, 10, 4).inset(3), Rect::new(3, 3, 4, 0));
}

#[test]
fn sidebar_rows_stack_and_mark_focus() {
    let ws = |id: &str| WorkspaceInfo {
        workspace_id: id.into(),
        number: 1,
        label: id.into(),
        focused: false,
        active_tab_id: String::new(),
        branch: None,
        worktree_repo: None,
        agent_status: AgentStatus::Idle,
    };
    let model = UiModel {
        workspaces: vec![ws("a"), ws("b")],
        active_workspace_id: Some("b".into()),
        ..UiModel::default()
    };
    let layout = compute(&model, 1000, 700);
    assert_eq!(layout.workspace_rows.len(), 2);
    assert_eq!(layout.workspace_rows[0].rect, Rect::new(10, 34, 210, 44));
    assert_eq!(layout.workspace_rows[1].rect, Rect::new(10, 80, 210, 44));
    assert!(!layout.workspace_rows[0].focused);
    assert!(layout.workspace_rows[1].focused);
    assert_eq!(layout.new_workspace, Rect::new(10, 662, 210, 28));
}

#[test]
fn tabs_stop_before_the_toolbar() {
    let tab = |id: &str| TabInfo { tab_id: id.into(), workspace_id: "ws".into(), label: id.into(), focused: false };
    let model = UiModel { tabs: (0..10).map(|i| tab(&format!("t{i}"))).collect(), ..UiModel::default() };
    // Toolbar left edge: 1000 - 8 - 144 - 8 = 840; tabs at 238, 392, 546 fit, 700 does not.
    let layout = compute(&model, 1000, 700);
    assert_eq!(layout.tabs.len(), 3);
    assert_eq!(layout.tabs[2].rect, Rect::new(546, 5, 150, 28));
    assert_eq!(layout.tabs[2].close, Rect::new(674, 11, 16, 16));
    assert_eq!(layout.new_tab, Rect::new(700, 5, 28, 28));
    assert_eq!(layout.btn_close_pane, Rect::new(956, 5, 32, 28));
    assert_eq!(layout.btn_split_right, Rect::new(848, 5, 32, 28));
}

#[test]
fn panes_stack_evenly_without_a_snapshot() {
    let model = UiModel {
        panes: vec![pane("p0", "t0", "tab"), pane("p1", "t1", "tab"), pane("p2", "t2", "other")],
        active_tab_id: Some("tab".into()),
        focused_pane_id: Some("p1".into()),
        ..UiModel::default()
    };
    let layout = compute(&model, 1030, 738);
    // Pane area: (236, 44, 788, 688); two panes of 344 px each.
    assert_eq!(layout.panes.len(), 2);
    assert_eq!(layout.panes[0].rect, Rect::new(236, 44, 788, 338));
    assert_eq!(layout.panes[1].rect, Rect::new(236, 388, 788, 338));
    assert_eq!(layout.panes[1].content, Rect::new(237, 388 + CAPTION_H, 786, 338 - CAPTION_H - 1));
    assert!(!layout.panes[0].focused);
    assert!(layout.panes[1].focused);
    assert_eq!(layout.panes[1].terminal_id, "t1");
}

#[test]
fn panes_follow_the_snapshot_proportions() {
    let model = UiModel {
        panes: vec![pane("p0", "t0", "tab"), pane("p1", "t1", "tab")],
        layout: Some(PaneLayoutSnapshot {
            area: CellRect { x: 0, y: 0, width: 100, height: 50 },
            panes: vec![
                LayoutPane { pane_id: "p0".into(), rect: CellRect { x: 0, y: 0, width: 50, height: 50 }, focused: true },
                LayoutPane { pane_id: "p1".into(), rect: CellRect { x: 50, y: 0, width: 50, height: 50 }, focused: false },
                LayoutPane { pane_id: "gone".into(), rect: CellRect { x: 0, y: 0, width: 1, height: 1 }, focused: false },
            ],
        }),
        ..UiModel::default()
    };
    let layout = compute(&model, 1030, 738);
    // Pane area (236, 44, 788, 688): halves of 394 px; the 1-cell pane is
    // too small for its caption and is dropped.
    assert_eq!(layout.panes.len(), 2);
    assert_eq!(layout.panes[0].rect, Rect::new(236, 44, 388, 682));
    assert_eq!(layout.panes[1].rect, Rect::new(630, 44, 388, 682));
    assert!(layout.panes[0].focused);
    assert_eq!(layout.panes[1].terminal_id, "t1");
}
