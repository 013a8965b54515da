use herdr_gui::connection::Geometry;
use herdr_gui::frame::FrameData;
use herdr_gui::panes::{PaneAction, PaneTable};
use herdr_gui::model::UiModel;
use herdr_gui::schema::{AgentStatus, PaneInfo};

fn frame(width: u16) -> FrameData {
    FrameData { cells: vec![], width, height: 1, cursor: None }
}

#[test]
fn streams_open_once_and_resize_on_change() {
    let mut table = PaneTable::new(8, 16);
    let open = table.plan("t0", 80, 0);
    assert_eq!(open, PaneAction::Open(Geometry { cols: 80, rows: 1, cell_width_px: 8, cell_height_px: 16 }));
    assert!(!table.has("t0"));
    table.opened("t0".to_string(), 80, 1);
    assert!(table.has("t0"));
    assert_eq!(table.plan("t0", 80, 1), PaneAction::Nothing);
    assert_eq!(
        table.plan("t0", 100, 30),
        PaneAction::Resize(Geometry { cols: 100, rows: 30, cell_width_px: 8, cell_height_px: 16 })
    );
    assert_eq!(table.plan("t0", 100, 30), PaneAction::Nothing);
}

#[test]
fn frames_are_kept_per_stream() {
    let mut table = PaneTable::new(8, 16);
    table.set_frame("t0", frame(3));
    assert!(table.frame("t0").is_none());
    table.opened("t0".to_string(), 10, 10);
    assert!(table.frame("t0").is_none());
    table.set_frame("t0", frame(7));
    assert_eq!(table.frame("t0").map(|f| f.width), Some(7));
    table.remove("t0");
    assert!(!table.has("t0"));
    assert!(table.frame("t0").is_none());
}

#[test]
fn retain_visible_drops_hidden_streams() {
    let mut table = PaneTable::new(8, 16);
    table.opened("a".to_string(), 1, 1);
    table.opened("b".to_string(), 1, 1);
    table.opened("c".to_string(), 1, 1);
    let pane = |terminal_id: &str| PaneInfo {
        pane_id: format!("p-{terminal_id}"),
        terminal_id: terminal_id.into(),
        workspace_id: "ws".into(),
        tab_id: "tab".into(),
        focused: false,
        label: None,
        agent: None,
        title: None,
        display_agent: None,
        agent_status: AgentStatus::Idle,
    };
    let model = UiModel { all_panes: vec![pane("c"), pane("a")], ..UiModel::default() };
    table.retain_visible(&model.retained_terminal_ids());
    assert!(table.has("a"));
    assert!(!table.has("b"));
    assert!(table.has("c"));
}

#[test]
fn setting_one_frame_leaves_the_others() {
    let mut table = PaneTable::new(8, 16);
    table.opened("a".to_string(), 1, 1);
    table.opened("b".to_string(), 1, 1);
    table.set_frame("a", frame(2));
    table.set_frame("b", frame(5));
    table.set_frame("a", frame(9));
    assert_eq!(table.frame("a").map(|f| f.width), Some(9));
    assert_eq!(table.frame("b").map(|f| f.width), Some(5));
}
