use herdr_gui::model::UiModel;
use herdr_gui::schema::{AgentStatus, CellRect, LayoutPane, PaneInfo, PaneLayoutSnapshot};

fn pane(id: &str, terminal_id: &str, tab_id: &str) -> PaneInfo {
    PaneInfo {
        pane_id: id.into(),
        terminal_id: terminal_id.into(),
        workspace_id: "ws0".into(),
        tab_id: tab_id.into(),
        focused: false,
        label: None,
        agent: None,
        title: None,
        display_agent: None,
        agent_status: AgentStatus::Unknown,
    }
}

#[test]
fn retained_terminal_ids_skip_empty_terminal_ids() {
    let model = UiModel {
        all_panes: vec![
            pane("ws0:tab0:pane0", "term-a", "ws0:tab0"),
            PaneInfo { terminal_id: String::new(), ..pane("ws0:tab0:pane1", "", "ws0:tab0") },
        ],
        ..UiModel::default()
    };

    let retained = model.retained_terminal_ids();
    assert_eq!(retained.len(), 1);
    assert!(retained.contains("term-a"));
}

#[test]
fn retained_terminal_ids_include_every_workspace() {
    let model = UiModel {
        panes: vec![pane("ws0:tab0:pane0", "term-a", "ws0:tab0")],
        all_panes: vec![pane("ws0:tab0:pane0", "term-a", "ws0:tab0"), pane("ws1:tab0:pane0", "term-b", "ws1:tab0")],
        ..UiModel::default()
    };

    let retained = model.retained_terminal_ids();
    assert_eq!(retained.len(), 2);
    assert!(retained.contains("term-a"));
    assert!(retained.contains("term-b"));
}

#[test]
fn active_panes_filter_by_active_tab() {
    let mut model = UiModel {
        panes: vec![pane("a", "ta", "t1"), pane("b", "tb", "t2"), pane("c", "tc", "t1")],
        ..UiModel::default()
    };
    assert_eq!(model.active_panes().len(), 3);
    model.active_tab_id = Some("t1".into());
    let ids: Vec<&str> = model.active_panes().iter().map(|p| p.pane_id.as_str()).collect();
    assert_eq!(ids, vec!["a", "c"]);
}

#[test]
fn focused_terminal_id_follows_focused_pane() {
    let mut model = UiModel { panes: vec![pane("a", "ta", "t1"), pane("b", "tb", "t1")], ..UiModel::default() };
    assert_eq!(model.focused_terminal_id(), None);
    model.focused_pane_id = Some("b".into());
    assert_eq!(model.focused_terminal_id(), Some("tb"));
    model.focused_pane_id = Some("zz".into());
    assert_eq!(model.focused_terminal_id(), None);
}

fn snapshot(ids: &[&str]) -> PaneLayoutSnapshot {
    PaneLayoutSnapshot {
        area: CellRect { x: 0, y: 0, width: 80, height: 24 },
        panes: ids
            .iter()
            .map(|id| LayoutPane {
                pane_id: id.to_string(),
                rect: CellRect { x: 0, y: 0, width: 40, height: 24 },
                focused: false,
            })
            .collect(),
    }
}

#[test]
fn active_panes_follow_the_layout_order() {
    let mut model = UiModel {
        panes: vec![pane("a", "ta", "t1"), pane("b", "tb", "t1"), pane("x", "tx", "t2")],
        active_tab_id: Some("t1".into()),
        layout: Some(snapshot(&["b", "a"])),
        ..UiModel::default()
    };
    let ids: Vec<&str> = model.active_panes().iter().map(|p| p.pane_id.as_str()).collect();
    assert_eq!(ids, vec!["b", "a"]);
    // Panes the layout does not list come last in server order; names the
    // tab does not have, and repeated names, add nothing.
    model.panes.push(pane("c", "tc", "t1"));
    model.layout = Some(snapshot(&["x", "b", "b"]));
    let ids: Vec<&str> = model.active_panes().iter().map(|p| p.pane_id.as_str()).collect();
    assert_eq!(ids, vec!["b", "a", "c"]);
}
