use herdr_gui::schema::{AgentStatus, PaneInfo, TabInfo, WorkspaceInfo};
use herdr_gui::worker::{
    active_tab_id, active_workspace_index, command_request, focused_pane_id, Cmd, FetchStage, FetchStep, Method,
    ModelFetch, Reply, SplitDirection,
};

fn ws(id: &str, focused: bool, active_tab: &str) -> WorkspaceInfo {
    WorkspaceInfo {
        workspace_id: id.into(),
        number: 1,
        label: id.into(),
        focused,
        active_tab_id: active_tab.into(),
        branch: None,
        worktree_repo: None,
        agent_status: AgentStatus::Idle,
    }
}

fn pane(id: &str, tab: &str, focused: bool) -> PaneInfo {
    PaneInfo {
        pane_id: id.into(),
        terminal_id: format!("term-{id}"),
        workspace_id: "ws".into(),
        tab_id: tab.into(),
        focused,
        label: None,
        agent: None,
        title: None,
        display_agent: None,
        agent_status: AgentStatus::Unknown,
    }
}

#[test]
fn commands_become_requests() {
    let r = command_request(Cmd::FocusWorkspace("w1".into())).unwrap();
    assert_eq!(r.id, "gui:workspace.focus");
    assert!(matches!(r.method, Method::WorkspaceFocus { ref workspace_id } if workspace_id == "w1"));
    let r = command_request(Cmd::SplitPane { pane_id: "p".into(), dir: SplitDirection::Down }).unwrap();
    assert_eq!(r.id, "gui:pane.split");
    match r.method {
        Method::PaneSplit { target_pane_id, direction, focus, workspace_id, cwd } => {
            assert_eq!(target_pane_id.as_deref(), Some("p"));
            assert_eq!(direction, SplitDirection::Down);
            assert!(focus);
            assert!(workspace_id.is_none() && cwd.is_none());
        }
        other => panic!("unexpected method {other:?}"),
    }
    let r = command_request(Cmd::NewTab).unwrap();
    assert_eq!(r.id, "gui:tab.create");
    assert_eq!(command_request(Cmd::CloseTab("t".into())).unwrap().id, "gui:tab.close");
    assert!(command_request(Cmd::Shutdown).is_none());
}

#[test]
fn active_workspace_prefers_focused_then_first() {
    assert_eq!(active_workspace_index(&vec![]), None);
    assert_eq!(active_workspace_index(&vec![ws("a", false, "t"), ws("b", false, "t")]), Some(0));
    assert_eq!(active_workspace_index(&vec![ws("a", false, "t"), ws("b", true, "t"), ws("c", true, "t")]), Some(1));
}

#[test]
fn active_tab_prefers_focused_tab_then_workspace_record() {
    let tab = |id: &str, focused: bool| TabInfo { tab_id: id.into(), workspace_id: "w".into(), label: id.into(), focused };
    let w = ws("w", true, "t9");
    assert_eq!(active_tab_id(&vec![tab("t1", false), tab("t2", true)], Some(&w)).as_deref(), Some("t2"));
    assert_eq!(active_tab_id(&vec![tab("t1", false)], Some(&w)).as_deref(), Some("t9"));
    assert_eq!(active_tab_id(&vec![tab("t1", false)], None), None);
}

#[test]
fn focused_pane_prefers_active_tab() {
    let panes = vec![pane("a", "t1", true), pane("b", "t2", true), pane("c", "t2", false)];
    assert_eq!(focused_pane_id(&panes, &Some("t2".into())).as_deref(), Some("b"));
    assert_eq!(focused_pane_id(&panes, &Some("t3".into())).as_deref(), Some("a"));
    assert_eq!(focused_pane_id(&panes, &None).as_deref(), Some("a"));
    assert_eq!(focused_pane_id(&vec![pane("c", "t2", false)], &None), None);
}

fn call_of(step: FetchStep) -> (ModelFetch, String, Method) {
    match step {
        FetchStep::Call { fetch, request } => (fetch, request.id, request.method),
        other => panic!("expected a call, got {other:?}"),
    }
}

#[test]
fn model_fetch_walks_the_lists_in_order() {
    let (fetch, id, method) = call_of(ModelFetch::start());
    assert_eq!(id, "gui:workspace.list");
    assert!(matches!(method, Method::WorkspaceList));

    let step = fetch.advance(Reply::WorkspaceList(vec![ws("a", false, "ta"), ws("b", true, "tb")]));
    let (fetch, id, method) = call_of(step);
    assert_eq!(fetch.stage, FetchStage::Tabs);
    assert_eq!(id, "gui:tab.list");
    assert!(matches!(method, Method::TabList { workspace_id: Some(ref w) } if w == "b"));

    // No tab is marked focused: the workspace's own active tab is used.
    let (fetch, id, method) = call_of(fetch.advance(Reply::TabList(vec![])));
    assert_eq!(fetch.model.active_tab_id.as_deref(), Some("tb"));
    assert_eq!(id, "gui:pane.list");
    assert!(matches!(method, Method::PaneList { workspace_id: Some(ref w) } if w == "b"));

    let panes = vec![pane("p0", "ta", true), pane("p1", "tb", true)];
    let (fetch, id, _) = call_of(fetch.advance(Reply::PaneList(panes)));
    assert_eq!(id, "gui:pane.list.all");

    // A failed list of all panes falls back to the workspace's panes.
    let (fetch, id, method) = call_of(fetch.advance(Reply::Failed("boom".into())));
    assert_eq!(fetch.model.all_panes.len(), 2);
    assert_eq!(fetch.model.focused_pane_id.as_deref(), Some("p1"));
    assert_eq!(id, "gui:pane.layout");
    assert!(matches!(method, Method::PaneLayout { pane_id: Some(ref p) } if p == "p1"));

    let (fetch, id, _) = call_of(fetch.advance(Reply::Other));
    assert!(fetch.model.layout.is_none());
    assert_eq!(id, "gui:agent.list");

    match fetch.advance(Reply::AgentList(vec![])) {
        FetchStep::Done(model) => {
            assert_eq!(model.active_workspace_id.as_deref(), Some("b"));
            assert_eq!(model.workspaces.len(), 2);
            assert_eq!(model.panes.len(), 2);
            assert!(model.agents.is_empty());
        }
        other => panic!("expected the model, got {other:?}"),
    }
}

#[test]
fn model_fetch_fails_on_missing_required_lists_and_skips_absent_workspace() {
    let (fetch, _, _) = call_of(ModelFetch::start());
    match fetch.advance(Reply::Failed("no server".into())) {
        FetchStep::Failed(err) => assert_eq!(err, "no server"),
        other => panic!("expected failure, got {other:?}"),
    }

    // With no workspaces the tab and pane lists are skipped.
    let (fetch, _, _) = call_of(ModelFetch::start());
    let (fetch, id, method) = call_of(fetch.advance(Reply::Other));
    assert_eq!(fetch.stage, FetchStage::AllPanes);
    assert_eq!(id, "gui:pane.list.all");
    assert!(matches!(method, Method::PaneList { workspace_id: None }));
    assert!(fetch.model.active_workspace_id.is_none());
    assert!(fetch.model.active_tab_id.is_none());
}
