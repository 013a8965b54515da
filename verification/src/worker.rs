//! The background API worker's vocabulary and decisions: the control
//! commands the UI issues, the API request each becomes, and how a fresh
//! [`UiModel`](crate::model::UiModel) picks its active workspace, tab, and
//! focused pane from the server's lists.

use vstd::prelude::*;
use crate::model::UiModel;
use crate::schema::{AgentInfo, PaneInfo, PaneLayoutSnapshot, TabInfo, WorkspaceInfo};

verus! {

/// Which side of a pane a split opens on.
#[derive(Debug, Clone, Copy, PartialEq, Eq, Structural)]
pub enum SplitDirection {
    Right,
    Down,
}

/// Control commands issued by the UI thread.
#[derive(Debug, Clone)]
pub enum Cmd {
    FocusWorkspace(String),
    FocusTab(String),
    /// Focus a pane/terminal by its `terminal_id` (or any agent target string).
    FocusTarget(String),
    NewTab,
    NewWorkspace,
    SplitPane { pane_id: String, dir: SplitDirection },
    ClosePane(String),
    CloseTab(String),
    Shutdown,
}

/// The API methods the GUI calls, with their parameters.
#[derive(Debug, Clone)]
pub enum Method {
    WorkspaceFocus { workspace_id: String },
    TabFocus { tab_id: String },
    AgentFocus { target: String },
    TabCreate { workspace_id: Option<String>, cwd: Option<String>, focus: bool, label: Option<String> },
    WorkspaceCreate { cwd: Option<String>, focus: bool, label: Option<String> },
    /// Splits a pane at the server's default ratio.
    PaneSplit {
        workspace_id: Option<String>,
        target_pane_id: Option<String>,
        direction: SplitDirection,
        cwd: Option<String>,
        focus: bool,
    },
    PaneClose { pane_id: String },
    TabClose { tab_id: String },
    WorkspaceList,
    TabList { workspace_id: Option<String> },
    PaneList { workspace_id: Option<String> },
    PaneLayout { pane_id: Option<String> },
    AgentList,
}

/// A JSON API request.
#[derive(Debug, Clone)]
pub struct Request {
    pub id: String,
    pub method: Method,
}

/// The request id and method of the API call a command becomes; shutting
/// down makes no call. Commands that create something focus it.
pub open spec fn command_call(cmd: Cmd) -> Option<(Seq<char>, Method)> {
    match cmd {
        Cmd::FocusWorkspace(workspace_id) => Some(("gui:workspace.focus"@, Method::WorkspaceFocus { workspace_id })),
        Cmd::FocusTab(tab_id) => Some(("gui:tab.focus"@, Method::TabFocus { tab_id })),
        Cmd::FocusTarget(target) => Some(("gui:agent.focus"@, Method::AgentFocus { target })),
        Cmd::NewTab => Some((
            "gui:tab.create"@,
            Method::TabCreate { workspace_id: None, cwd: None, focus: true, label: None },
        )),
        Cmd::NewWorkspace => Some((
            "gui:workspace.create"@,
            Method::WorkspaceCreate { cwd: None, focus: true, label: None },
        )),
        Cmd::SplitPane { pane_id, dir } => Some((
            "gui:pane.split"@,
            Method::PaneSplit {
                workspace_id: None,
                target_pane_id: Some(pane_id),
                direction: dir,
                cwd: None,
                focus: true,
            },
        )),
        Cmd::ClosePane(pane_id) => Some(("gui:pane.close"@, Method::PaneClose { pane_id })),
        Cmd::CloseTab(tab_id) => Some(("gui:tab.close"@, Method::TabClose { tab_id })),
        Cmd::Shutdown => None,
    }
}

/// The API request a control command becomes; `Shutdown` is handled by the
/// worker loop itself and makes no request.
pub fn command_request(cmd: Cmd) -> (request: Option<Request>)
    ensures
        match command_call(cmd) {
            None => request is None,
            Some((id, method)) => request matches Some(r) && r.id@ == id && r.method == method,
        },
{
    let (id, method) = match cmd {
        Cmd::FocusWorkspace(workspace_id) => ("gui:workspace.focus", Method::WorkspaceFocus { workspace_id }),
        Cmd::FocusTab(tab_id) => ("gui:tab.focus", Method::TabFocus { tab_id }),
        Cmd::FocusTarget(target) => ("gui:agent.focus", Method::AgentFocus { target }),
        Cmd::NewTab => (
            "gui:tab.create",
            Method::TabCreate { workspace_id: None, cwd: None, focus: true, label: None },
        ),
        Cmd::NewWorkspace => ("gui:workspace.create", Method::WorkspaceCreate { cwd: None, focus: true, label: None }),
        Cmd::SplitPane { pane_id, dir } => (
            "gui:pane.split",
            Method::PaneSplit {
                workspace_id: None,
                target_pane_id: Some(pane_id),
                direction: dir,
                cwd: None,
                focus: true,
            },
        ),
        Cmd::ClosePane(pane_id) => ("gui:pane.close", Method::PaneClose { pane_id }),
        Cmd::CloseTab(tab_id) => ("gui:tab.close", Method::TabClose { tab_id }),
        Cmd::Shutdown => return None,
    };
    Some(Request { id: String::from_str(id), method })
}

/// Each command calls the API method of the same meaning on the same
/// target: focusing a workspace, tab or agent focuses exactly that one;
/// closing a pane or tab closes exactly that one; splitting splits the
/// given pane in the given direction and focuses the new pane; new tabs
/// and workspaces are created in the current place, focused; shutting down
/// calls nothing.
pub proof fn lemma_commands_call_their_own_method(target: String, dir: SplitDirection)
    ensures
        command_call(Cmd::FocusWorkspace(target)) == Some(("gui:workspace.focus"@, Method::WorkspaceFocus { workspace_id: target })),
        command_call(Cmd::FocusTab(target)) == Some(("gui:tab.focus"@, Method::TabFocus { tab_id: target })),
        command_call(Cmd::FocusTarget(target)) == Some(("gui:agent.focus"@, Method::AgentFocus { target: target })),
        command_call(Cmd::ClosePane(target)) == Some(("gui:pane.close"@, Method::PaneClose { pane_id: target })),
        command_call(Cmd::CloseTab(target)) == Some(("gui:tab.close"@, Method::TabClose { tab_id: target })),
        command_call(Cmd::SplitPane { pane_id: target, dir }) == Some((
            "gui:pane.split"@,
            Method::PaneSplit {
                workspace_id: None,
                target_pane_id: Some(target),
                direction: dir,
                cwd: None,
                focus: true,
            },
        )),
        command_call(Cmd::NewTab) == Some((
            "gui:tab.create"@,
            Method::TabCreate { workspace_id: None, cwd: None, focus: true, label: None },
        )),
        command_call(Cmd::NewWorkspace) == Some(("gui:workspace.create"@, Method::WorkspaceCreate { cwd: None, focus: true, label: None })),
        command_call(Cmd::Shutdown) is None,
{
}

/// Only the close commands close anything, and they close what they name;
/// only the focus commands focus, and never create or close.
pub proof fn lemma_only_close_commands_close(cmd: Cmd)
    ensures
        command_call(cmd) matches Some((_, m)) && (m is PaneClose || m is TabClose) ==> (cmd is ClosePane || cmd is CloseTab),
        command_call(cmd) matches Some((_, Method::PaneClose { pane_id })) ==> cmd == Cmd::ClosePane(pane_id),
        command_call(cmd) matches Some((_, Method::TabClose { tab_id })) ==> cmd == Cmd::CloseTab(tab_id),
        (cmd is FocusWorkspace || cmd is FocusTab || cmd is FocusTarget) ==> (command_call(cmd) matches Some((_, m)) && (
        m is WorkspaceFocus || m is TabFocus || m is AgentFocus)),
{
}

/// `i` is the first workspace marked focused.
pub open spec fn is_first_focused_workspace(workspaces: Seq<WorkspaceInfo>, i: int) -> bool {
    &&& 0 <= i < workspaces.len()
    &&& workspaces[i].focused
    &&& forall|j: int| 0 <= j < i ==> !(#[trigger] workspaces[j]).focused
}

/// The active workspace: the first focused one, else the first one.
pub open spec fn spec_active_workspace(workspaces: Seq<WorkspaceInfo>) -> Option<int> {
    if exists|i: int| is_first_focused_workspace(workspaces, i) {
        Some(choose|i: int| is_first_focused_workspace(workspaces, i))
    } else if workspaces.len() > 0 {
        Some(0)
    } else {
        None
    }
}

/// Picks the active workspace by position.
pub fn active_workspace_index(workspaces: &Vec<WorkspaceInfo>) -> (i: Option<usize>)
    ensures
        spec_active_workspace(workspaces@) == match i {
            Some(k) => Some(k as int),
            None => None::<int>,
        },
        i matches Some(k) ==> k < workspaces@.len(),
{
    let n: usize = workspaces.len();
    let mut i: usize = 0;
    while i < n
        invariant
            n == workspaces@.len(),
            i <= n,
            forall|j: int| 0 <= j < i ==> !(#[trigger] workspaces@[j]).focused,
        decreases n - i,
    {
        if workspaces[i].focused {
            proof {
                assert(is_first_focused_workspace(workspaces@, i as int));
                let c: int = choose|c: int| is_first_focused_workspace(workspaces@, c);
                if c < i {
                    assert(!workspaces@[c].focused);
                }
                if i < c {
                    assert(!workspaces@[i as int].focused);
                }
            }
            return Some(i);
        }
        i += 1;
    }
    proof {
        if exists|c: int| is_first_focused_workspace(workspaces@, c) {
            let c: int = choose|c: int| is_first_focused_workspace(workspaces@, c);
            assert(!workspaces@[c].focused);
        }
    }
    if n > 0 {
        Some(0)
    } else {
        None
    }
}

/// `i` is the first tab marked focused.
pub open spec fn is_first_focused_tab(tabs: Seq<TabInfo>, i: int) -> bool {
    &&& 0 <= i < tabs.len()
    &&& tabs[i].focused
    &&& forall|j: int| 0 <= j < i ==> !(#[trigger] tabs[j]).focused
}

/// The active tab id: the first focused tab's, else the active workspace's
/// own record of its active tab.
pub open spec fn spec_active_tab_id(tabs: Seq<TabInfo>, active_workspace: Option<WorkspaceInfo>) -> Option<Seq<char>> {
    if exists|i: int| is_first_focused_tab(tabs, i) {
        Some(tabs[choose|i: int| is_first_focused_tab(tabs, i)].tab_id@)
    } else {
        match active_workspace {
            Some(ws) => Some(ws.active_tab_id@),
            None => None,
        }
    }
}

pub fn active_tab_id(tabs: &Vec<TabInfo>, active_workspace: Option<&WorkspaceInfo>) -> (id: Option<String>)
    ensures
        match spec_active_tab_id(tabs@, match active_workspace { Some(w) => Some(*w), None => None }) {
            Some(t) => id matches Some(s) && s@ == t,
            None => id is None,
        },
{
    let n: usize = tabs.len();
    let mut i: usize = 0;
    while i < n
        invariant
            n == tabs@.len(),
            i <= n,
            forall|j: int| 0 <= j < i ==> !(#[trigger] tabs@[j]).focused,
        decreases n - i,
    {
        if tabs[i].focused {
            proof {
                assert(is_first_focused_tab(tabs@, i as int));
                let c: int = choose|c: int| is_first_focused_tab(tabs@, c);
                if c < i {
                    assert(!tabs@[c].focused);
                }
                if i < c {
                    assert(!tabs@[i as int].focused);
                }
            }
            return Some(tabs[i].tab_id.clone());
        }
        i += 1;
    }
    proof {
        if exists|c: int| is_first_focused_tab(tabs@, c) {
            let c: int = choose|c: int| is_first_focused_tab(tabs@, c);
            assert(!tabs@[c].focused);
        }
    }
    match active_workspace {
        Some(ws) => Some(ws.active_tab_id.clone()),
        None => None,
    }
}

/// `i` is the first pane satisfying `p`.
pub open spec fn is_first_pane(panes: Seq<PaneInfo>, p: spec_fn(PaneInfo) -> bool, i: int) -> bool {
    &&& 0 <= i < panes.len()
    &&& p(panes[i])
    &&& forall|j: int| 0 <= j < i ==> !p(#[trigger] panes[j])
}

/// The first pane satisfying `p`, if any.
pub open spec fn first_pane(panes: Seq<PaneInfo>, p: spec_fn(PaneInfo) -> bool) -> Option<PaneInfo> {
    if exists|i: int| is_first_pane(panes, p, i) {
        Some(panes[choose|i: int| is_first_pane(panes, p, i)])
    } else {
        None
    }
}

/// The values of an optional string.
pub open spec fn opt_view(o: Option<String>) -> Option<Seq<char>> {
    match o {
        Some(s) => Some(s@),
        None => None,
    }
}

/// A focused pane of the tab `tab_id` (of no tab when `None`).
pub open spec fn focused_in_tab(tab_id: Option<Seq<char>>) -> spec_fn(PaneInfo) -> bool {
    |p: PaneInfo| p.focused && tab_id == Some(p.tab_id@)
}

pub open spec fn focused_anywhere() -> spec_fn(PaneInfo) -> bool {
    |p: PaneInfo| p.focused
}

/// The focused pane id: the focused pane of the active tab, else the first
/// focused pane of any tab.
pub open spec fn spec_focused_pane_id(panes: Seq<PaneInfo>, active_tab_id: Option<Seq<char>>) -> Option<Seq<char>> {
    match first_pane(panes, focused_in_tab(active_tab_id)) {
        Some(p) => Some(p.pane_id@),
        None => match first_pane(panes, focused_anywhere()) {
            Some(p) => Some(p.pane_id@),
            None => None,
        },
    }
}

/// The focused pane a model picks is a focused pane of its list: of the
/// active tab when it has one, of any tab otherwise.
pub proof fn lemma_focused_pane_is_listed(panes: Seq<PaneInfo>, active_tab_id: Option<Seq<char>>)
    ensures
        spec_focused_pane_id(panes, active_tab_id) matches Some(id) ==> exists|i: int|
            0 <= i < panes.len() && (#[trigger] panes[i]).focused && panes[i].pane_id@ == id,
        (exists|i: int| 0 <= i < panes.len() && (#[trigger] panes[i]).focused) ==> spec_focused_pane_id(panes, active_tab_id) is Some,
{
    let p1 = focused_in_tab(active_tab_id);
    let p2 = focused_anywhere();
    if exists|i: int| is_first_pane(panes, p1, i) {
        let c = choose|i: int| is_first_pane(panes, p1, i);
        assert(panes[c].focused);
    } else if exists|i: int| is_first_pane(panes, p2, i) {
        let c = choose|i: int| is_first_pane(panes, p2, i);
        assert(panes[c].focused);
    }
    if exists|i: int| 0 <= i < panes.len() && (#[trigger] panes[i]).focused {
        let w = choose|i: int| 0 <= i < panes.len() && (#[trigger] panes[i]).focused;
        lemma_first_exists(panes, p2, w);
    }
}

/// The active workspace is the earliest focused one when some workspace is
/// focused, the first workspace when none is, and there is none only for
/// an empty list.
pub proof fn lemma_active_workspace_prefers_focus(workspaces: Seq<WorkspaceInfo>)
    ensures
        (exists|i: int| 0 <= i < workspaces.len() && (#[trigger] workspaces[i]).focused) ==> (spec_active_workspace(
            workspaces,
        ) matches Some(k) && 0 <= k < workspaces.len() && workspaces[k].focused && forall|j: int|
            0 <= j < k ==> !(#[trigger] workspaces[j]).focused),
        (forall|i: int| 0 <= i < workspaces.len() ==> !(#[trigger] workspaces[i]).focused) ==> spec_active_workspace(
            workspaces,
        ) == if workspaces.len() > 0 { Some(0int) } else { None::<int> },
{
    if exists|i: int| 0 <= i < workspaces.len() && (#[trigger] workspaces[i]).focused {
        let w = choose|i: int| 0 <= i < workspaces.len() && (#[trigger] workspaces[i]).focused;
        lemma_first_focused_workspace_exists(workspaces, w);
    } else {
        if exists|i: int| is_first_focused_workspace(workspaces, i) {
            let c = choose|i: int| is_first_focused_workspace(workspaces, i);
            assert(workspaces[c].focused);
        }
    }
}

proof fn lemma_first_focused_workspace_exists(workspaces: Seq<WorkspaceInfo>, w: int)
    requires
        0 <= w < workspaces.len(),
        workspaces[w].focused,
    ensures
        exists|i: int| is_first_focused_workspace(workspaces, i),
    decreases w,
{
    if forall|j: int| 0 <= j < w ==> !(#[trigger] workspaces[j]).focused {
        assert(is_first_focused_workspace(workspaces, w));
    } else {
        let j = choose|j: int| 0 <= j < w && (#[trigger] workspaces[j]).focused;
        lemma_first_focused_workspace_exists(workspaces, j);
    }
}

/// The focused pane belongs to the active tab whenever the active tab has
/// a focused pane.
pub proof fn lemma_focus_prefers_the_active_tab(panes: Seq<PaneInfo>, tab_id: Seq<char>)
    ensures
        (exists|i: int| 0 <= i < panes.len() && (#[trigger] panes[i]).focused && panes[i].tab_id@ == tab_id) ==> exists|
            i: int,
        |
            0 <= i < panes.len() && (#[trigger] panes[i]).focused && panes[i].tab_id@ == tab_id && spec_focused_pane_id(
                panes,
                Some(tab_id),
            ) == Some(panes[i].pane_id@),
{
    let p1 = focused_in_tab(Some(tab_id));
    if exists|i: int| 0 <= i < panes.len() && (#[trigger] panes[i]).focused && panes[i].tab_id@ == tab_id {
        let w = choose|i: int| 0 <= i < panes.len() && (#[trigger] panes[i]).focused && panes[i].tab_id@ == tab_id;
        assert(p1(panes[w]));
        lemma_first_exists(panes, p1, w);
        let c = choose|i: int| is_first_pane(panes, p1, i);
        assert(p1(panes[c]));
        assert(panes[c].focused && panes[c].tab_id@ == tab_id);
    }
}

/// A pane satisfying `p` at `w` means some pane is the first to satisfy it.
proof fn lemma_first_exists(panes: Seq<PaneInfo>, p: spec_fn(PaneInfo) -> bool, w: int)
    requires
        0 <= w < panes.len(),
        p(panes[w]),
    ensures
        exists|i: int| is_first_pane(panes, p, i),
    decreases w,
{
    if forall|j: int| 0 <= j < w ==> !p(#[trigger] panes[j]) {
        assert(is_first_pane(panes, p, w));
    } else {
        let j = choose|j: int| 0 <= j < w && p(#[trigger] panes[j]);
        lemma_first_exists(panes, p, j);
    }
}

proof fn lemma_first_pane_unique(panes: Seq<PaneInfo>, p: spec_fn(PaneInfo) -> bool, i: int, j: int)
    requires
        is_first_pane(panes, p, i),
        is_first_pane(panes, p, j),
    ensures
        i == j,
{
    if i < j {
        assert(!p(panes[i]));
    }
    if j < i {
        assert(!p(panes[j]));
    }
}

/// Position of the first focused pane; `in_tab` restricts the search to
/// the tab `tab_id`.
fn find_focused(panes: &Vec<PaneInfo>, in_tab: bool, tab_id: &Option<String>) -> (i: Option<usize>)
    ensures
        in_tab ==> match i {
            Some(k) => is_first_pane(panes@, focused_in_tab(opt_view(*tab_id)), k as int),
            None => !exists|k: int| is_first_pane(panes@, focused_in_tab(opt_view(*tab_id)), k),
        },
        !in_tab ==> match i {
            Some(k) => is_first_pane(panes@, focused_anywhere(), k as int),
            None => !exists|k: int| is_first_pane(panes@, focused_anywhere(), k),
        },
{
    let ghost p = if in_tab {
        focused_in_tab(opt_view(*tab_id))
    } else {
        focused_anywhere()
    };
    let n: usize = panes.len();
    let mut i: usize = 0;
    while i < n
        invariant
            n == panes@.len(),
            i <= n,
            p == (if in_tab {
                focused_in_tab(opt_view(*tab_id))
            } else {
                focused_anywhere()
            }),
            forall|j: int| 0 <= j < i ==> !p(#[trigger] panes@[j]),
        decreases n - i,
    {
        let pane = &panes[i];
        let hit: bool = pane.focused && (!in_tab || match tab_id {
            Some(t) => pane.tab_id == *t,
            None => false,
        });
        if hit {
            assert(is_first_pane(panes@, p, i as int));
            return Some(i);
        }
        i += 1;
    }
    proof {
        if exists|k: int| is_first_pane(panes@, p, k) {
            let k: int = choose|k: int| is_first_pane(panes@, p, k);
            assert(!p(panes@[k]));
        }
    }
    None
}

pub fn focused_pane_id(panes: &Vec<PaneInfo>, active_tab_id: &Option<String>) -> (id: Option<String>)
    ensures
        match spec_focused_pane_id(panes@, opt_view(*active_tab_id)) {
            Some(p) => id matches Some(s) && s@ == p,
            None => id is None,
        },
{
    let ghost tab = opt_view(*active_tab_id);
    let first = find_focused(panes, true, active_tab_id);
    if let Some(i) = first {
        proof {
            let p1 = focused_in_tab(tab);
            let c: int = choose|k: int| is_first_pane(panes@, p1, k);
            lemma_first_pane_unique(panes@, p1, i as int, c);
        }
        return Some(panes[i].pane_id.clone());
    }
    let second = find_focused(panes, false, active_tab_id);
    if let Some(i) = second {
        proof {
            let p2 = focused_anywhere();
            let c: int = choose|k: int| is_first_pane(panes@, p2, k);
            lemma_first_pane_unique(panes@, p2, i as int, c);
        }
        return Some(panes[i].pane_id.clone());
    }
    None
}

fn clone_opt(o: &Option<String>) -> (c: Option<String>)
    ensures
        c == *o,
{
    match o {
        Some(s) => Some(s.clone()),
        None => None,
    }
}

/// A copy of `p`, field for field.
fn copy_pane(p: &PaneInfo) -> (c: PaneInfo)
    ensures
        c == *p,
{
    PaneInfo {
        pane_id: p.pane_id.clone(),
        terminal_id: p.terminal_id.clone(),
        workspace_id: p.workspace_id.clone(),
        tab_id: p.tab_id.clone(),
        focused: p.focused,
        label: clone_opt(&p.label),
        agent: clone_opt(&p.agent),
        title: clone_opt(&p.title),
        display_agent: clone_opt(&p.display_agent),
        agent_status: p.agent_status,
    }
}

/// A copy of a pane list.
fn copy_panes(v: &Vec<PaneInfo>) -> (c: Vec<PaneInfo>)
    ensures
        c@ == v@,
{
    let mut out: Vec<PaneInfo> = Vec::new();
    let mut i: usize = 0;
    while i < v.len()
        invariant
            i <= v@.len(),
            out@ == v@.take(i as int),
        decreases v@.len() - i,
    {
        out.push(copy_pane(&v[i]));
        proof {
            assert(v@.take(i + 1) =~= v@.take(i as int).push(v@[i as int]));
        }
        i += 1;
    }
    proof {
        assert(v@.take(v@.len() as int) =~= v@);
    }
    out
}

/// What one API call of a model fetch came back with.
#[derive(Debug)]
pub enum Reply {
    WorkspaceList(Vec<WorkspaceInfo>),
    TabList(Vec<TabInfo>),
    PaneList(Vec<PaneInfo>),
    PaneLayout(PaneLayoutSnapshot),
    AgentList(Vec<AgentInfo>),
    /// A successful response of some other kind.
    Other,
    /// The call itself failed, with the client's error.
    Failed(String),
}

/// Which list a model fetch is waiting for.
#[derive(Debug, Clone, Copy, PartialEq, Eq, Structural)]
pub enum FetchStage {
    Workspaces,
    Tabs,
    Panes,
    AllPanes,
    Layout,
    Agents,
}

/// A model fetch in progress: the stage it is at, the model built so far,
/// and the position of the active workspace in it.
#[derive(Debug)]
pub struct ModelFetch {
    pub stage: FetchStage,
    pub model: UiModel,
    pub active: Option<usize>,
}

/// What a model fetch does next.
#[derive(Debug)]
pub enum FetchStep {
    /// Make this API call and hand its reply to `fetch`.
    Call { fetch: ModelFetch, request: Request },
    /// The model is complete.
    Done(UiModel),
    /// A required list could not be fetched.
    Failed(String),
}

/// The workspaces of a reply: its list, or none for a reply of another
/// kind.
pub open spec fn reply_workspaces(r: Reply) -> Seq<WorkspaceInfo> {
    match r {
        Reply::WorkspaceList(w) => w@,
        _ => seq![],
    }
}

pub open spec fn reply_tabs(r: Reply) -> Seq<TabInfo> {
    match r {
        Reply::TabList(t) => t@,
        _ => seq![],
    }
}

pub open spec fn reply_panes(r: Reply) -> Seq<PaneInfo> {
    match r {
        Reply::PaneList(p) => p@,
        _ => seq![],
    }
}

pub open spec fn reply_agents(r: Reply) -> Seq<AgentInfo> {
    match r {
        Reply::AgentList(a) => a@,
        _ => seq![],
    }
}

/// `step` makes the call `(id, method)` and continues at `stage`.
pub open spec fn calls(step: FetchStep, stage: FetchStage, id: Seq<char>, method: Method) -> bool {
    (step matches FetchStep::Call { fetch, request } && fetch.stage == stage && request.id@ == id && request.method
        == method)
}

/// The fetch that `step` continues with.
pub open spec fn next_fetch(step: FetchStep) -> ModelFetch {
    step->Call_fetch
}

/// The order in which a fetch visits its stages.
pub open spec fn stage_rank(stage: FetchStage) -> int {
    match stage {
        FetchStage::Workspaces => 0,
        FetchStage::Tabs => 1,
        FetchStage::Panes => 2,
        FetchStage::AllPanes => 3,
        FetchStage::Layout => 4,
        FetchStage::Agents => 5,
    }
}

/// The model fields, as values.
pub open spec fn model_parts(m: UiModel) -> (
    Seq<WorkspaceInfo>,
    Seq<TabInfo>,
    Seq<PaneInfo>,
    Seq<PaneInfo>,
    Seq<AgentInfo>,
    Option<PaneLayoutSnapshot>,
    Option<Seq<char>>,
    Option<Seq<char>>,
    Option<Seq<char>>,
) {
    (
        m.workspaces@,
        m.tabs@,
        m.panes@,
        m.all_panes@,
        m.agents@,
        m.layout,
        opt_view(m.active_workspace_id),
        opt_view(m.active_tab_id),
        opt_view(m.focused_pane_id),
    )
}

/// The fetch's bookkeeping is consistent: the active position, when set,
/// is a workspace of the model whose id is the active workspace id.
pub open spec fn fetch_wf(f: ModelFetch) -> bool {
    match f.active {
        Some(i) => i < f.model.workspaces@.len() && opt_view(f.model.active_workspace_id) == Some(
            f.model.workspaces@[i as int].workspace_id@,
        ),
        None => true,
    }
}

impl ModelFetch {
    /// Starts a fetch: an empty model, asking for the workspace list.
    pub fn start() -> (step: FetchStep)
        ensures
            calls(step, FetchStage::Workspaces, "gui:workspace.list"@, Method::WorkspaceList),
            model_parts(next_fetch(step).model) == (
                Seq::<WorkspaceInfo>::empty(),
                Seq::<TabInfo>::empty(),
                Seq::<PaneInfo>::empty(),
                Seq::<PaneInfo>::empty(),
                Seq::<AgentInfo>::empty(),
                None::<PaneLayoutSnapshot>,
                None::<Seq<char>>,
                None::<Seq<char>>,
                None::<Seq<char>>,
            ),
            next_fetch(step).active is None,
    {
        FetchStep::Call {
            fetch: ModelFetch { stage: FetchStage::Workspaces, model: UiModel::default(), active: None },
            request: Request { id: String::from_str("gui:workspace.list"), method: Method::WorkspaceList },
        }
    }

    /// Takes the reply to the fetch's last call and decides what comes
    /// next. The workspace list comes first; the tab and pane lists of the
    /// active workspace follow when there is one; then the panes of every
    /// workspace, the layout around the focused pane, and the agents. A
    /// failed workspace, tab or pane list fails the fetch; a failed list of
    /// all panes falls back to the active workspace's panes, and a failed
    /// layout or agent list leaves none.
    pub fn advance(self, reply: Reply) -> (step: FetchStep)
        requires
            fetch_wf(self),
        ensures
            (self.stage != FetchStage::AllPanes && self.stage != FetchStage::Layout && self.stage
                != FetchStage::Agents && reply is Failed) ==> (step matches FetchStep::Failed(e) && e@
                == reply->Failed_0@),
            step is Call ==> fetch_wf(next_fetch(step)),
            step is Call ==> stage_rank(next_fetch(step).stage) > stage_rank(self.stage),
            (self.stage == FetchStage::Workspaces && !(reply is Failed)) ==> {
                let ws = reply_workspaces(reply);
                let m = model_parts(self.model);
                match spec_active_workspace(ws) {
                    Some(i) => {
                        &&& calls(step, FetchStage::Tabs, "gui:tab.list"@, Method::TabList { workspace_id: next_fetch(step).model.active_workspace_id })
                        &&& next_fetch(step).active == Some(i as usize)
                        &&& model_parts(next_fetch(step).model) == (ws, m.1, m.2, m.3, m.4, m.5, Some(ws[i].workspace_id@), m.7, m.8)
                    },
                    None => {
                        &&& calls(step, FetchStage::AllPanes, "gui:pane.list.all"@, Method::PaneList { workspace_id: None })
                        &&& next_fetch(step).active is None
                        &&& model_parts(next_fetch(step).model) == (ws, Seq::<TabInfo>::empty(), Seq::<PaneInfo>::empty(), m.3, m.4, m.5, None::<Seq<char>>, None::<Seq<char>>, m.8)
                    },
                }
            },
            (self.stage == FetchStage::Tabs && !(reply is Failed)) ==> {
                let m = model_parts(self.model);
                let active_ws = match self.active {
                    Some(i) => Some(self.model.workspaces@[i as int]),
                    None => None,
                };
                &&& calls(step, FetchStage::Panes, "gui:pane.list"@, Method::PaneList { workspace_id: self.model.active_workspace_id })
                &&& next_fetch(step).active == self.active
                &&& model_parts(next_fetch(step).model) == (m.0, reply_tabs(reply), m.2, m.3, m.4, m.5, m.6, spec_active_tab_id(reply_tabs(reply), active_ws), m.8)
            },
            (self.stage == FetchStage::Panes && !(reply is Failed)) ==> {
                let m = model_parts(self.model);
                &&& calls(step, FetchStage::AllPanes, "gui:pane.list.all"@, Method::PaneList { workspace_id: None })
                &&& next_fetch(step).active == self.active
                &&& model_parts(next_fetch(step).model) == (m.0, m.1, reply_panes(reply), m.3, m.4, m.5, m.6, m.7, m.8)
            },
            self.stage == FetchStage::AllPanes ==> {
                let m = model_parts(self.model);
                let focused = spec_focused_pane_id(m.2, m.7);
                &&& calls(step, FetchStage::Layout, "gui:pane.layout"@, Method::PaneLayout { pane_id: next_fetch(step).model.focused_pane_id })
                &&& next_fetch(step).active == self.active
                &&& model_parts(next_fetch(step).model) == (m.0, m.1, m.2, if reply is PaneList { reply_panes(reply) } else { m.2 }, m.4, m.5, m.6, m.7, focused)
            },
            self.stage == FetchStage::Layout ==> {
                let m = model_parts(self.model);
                &&& calls(step, FetchStage::Agents, "gui:agent.list"@, Method::AgentList)
                &&& next_fetch(step).active == self.active
                &&& model_parts(next_fetch(step).model) == (m.0, m.1, m.2, m.3, m.4, match reply {
                    Reply::PaneLayout(l) => Some(l),
                    _ => None,
                }, m.6, m.7, m.8)
            },
            self.stage == FetchStage::Agents ==> {
                let m = model_parts(self.model);
                (step matches FetchStep::Done(model) && model_parts(model) == (m.0, m.1, m.2, m.3, reply_agents(reply), m.5, m.6, m.7, m.8))
            },
    {
        let ModelFetch { stage, mut model, active } = self;
        match stage {
            FetchStage::Workspaces => {
                let workspaces = match reply {
                    Reply::Failed(e) => {
                        return FetchStep::Failed(e);
                    },
                    Reply::WorkspaceList(w) => w,
                    _ => Vec::new(),
                };
                assert(workspaces@ =~= reply_workspaces(reply));
                let index = active_workspace_index(&workspaces);
                match index {
                    Some(i) => {
                        let id = workspaces[i].workspace_id.clone();
                        model.active_workspace_id = Some(id.clone());
                        model.workspaces = workspaces;
                        FetchStep::Call {
                            fetch: ModelFetch { stage: FetchStage::Tabs, model, active: Some(i) },
                            request: Request {
                                id: String::from_str("gui:tab.list"),
                                method: Method::TabList { workspace_id: Some(id) },
                            },
                        }
                    },
                    None => {
                        model.workspaces = workspaces;
                        model.active_workspace_id = None;
                        model.tabs = Vec::new();
                        model.active_tab_id = None;
                        model.panes = Vec::new();
                        FetchStep::Call {
                            fetch: ModelFetch { stage: FetchStage::AllPanes, model, active: None },
                            request: Request {
                                id: String::from_str("gui:pane.list.all"),
                                method: Method::PaneList { workspace_id: None },
                            },
                        }
                    },
                }
            },
            FetchStage::Tabs => {
                let tabs = match reply {
                    Reply::Failed(e) => {
                        return FetchStep::Failed(e);
                    },
                    Reply::TabList(t) => t,
                    _ => Vec::new(),
                };
                let tab_id = match active {
                    Some(i) => active_tab_id(&tabs, Some(&model.workspaces[i])),
                    None => active_tab_id(&tabs, None),
                };
                model.tabs = tabs;
                model.active_tab_id = tab_id;
                let ws_id = model.active_workspace_id.clone();
                FetchStep::Call {
                    fetch: ModelFetch { stage: FetchStage::Panes, model, active },
                    request: Request {
                        id: String::from_str("gui:pane.list"),
                        method: Method::PaneList { workspace_id: ws_id },
                    },
                }
            },
            FetchStage::Panes => {
                let panes = match reply {
                    Reply::Failed(e) => {
                        return FetchStep::Failed(e);
                    },
                    Reply::PaneList(p) => p,
                    _ => Vec::new(),
                };
                model.panes = panes;
                FetchStep::Call {
                    fetch: ModelFetch { stage: FetchStage::AllPanes, model, active },
                    request: Request {
                        id: String::from_str("gui:pane.list.all"),
                        method: Method::PaneList { workspace_id: None },
                    },
                }
            },
            FetchStage::AllPanes => {
                let all = match reply {
                    Reply::PaneList(p) => p,
                    _ => copy_panes(&model.panes),
                };
                model.all_panes = all;
                let focused = focused_pane_id(&model.panes, &model.active_tab_id);
                model.focused_pane_id = focused;
                let pane_id = model.focused_pane_id.clone();
                FetchStep::Call {
                    fetch: ModelFetch { stage: FetchStage::Layout, model, active },
                    request: Request {
                        id: String::from_str("gui:pane.layout"),
                        method: Method::PaneLayout { pane_id },
                    },
                }
            },
            FetchStage::Layout => {
                model.layout = match reply {
                    Reply::PaneLayout(l) => Some(l),
                    _ => None,
                };
                FetchStep::Call {
                    fetch: ModelFetch { stage: FetchStage::Agents, model, active },
                    request: Request { id: String::from_str("gui:agent.list"), method: Method::AgentList },
                }
            },
            FetchStage::Agents => {
                model.agents = match reply {
                    Reply::AgentList(a) => a,
                    _ => Vec::new(),
                };
                FetchStep::Done(model)
            },
        }
    }
}

} // verus!
