//! The slice of the server's API schema that the desktop client reads:
//! workspaces, tabs, panes, agents, and the active tab's split layout.

use vstd::prelude::*;

verus! {

/// Agent state rollup reported by the server for a pane or workspace.
#[derive(Debug, Clone, Copy, PartialEq, Eq, Structural)]
pub enum AgentStatus {
    Blocked,
    Working,
    Done,
    Idle,
    Unknown,
}

/// A workspace as listed by the server.
#[derive(Debug, Clone)]
pub struct WorkspaceInfo {
    pub workspace_id: String,
    pub number: u32,
    pub label: String,
    pub focused: bool,
    pub active_tab_id: String,
    pub branch: Option<String>,
    /// Repository name of the workspace's git worktree, if it has one.
    pub worktree_repo: Option<String>,
    pub agent_status: AgentStatus,
}

/// A tab as listed by the server.
#[derive(Debug, Clone)]
pub struct TabInfo {
    pub tab_id: String,
    pub workspace_id: String,
    pub label: String,
    pub focused: bool,
}

/// A pane as listed by the server.
#[derive(Debug, Clone)]
pub struct PaneInfo {
    pub pane_id: String,
    pub terminal_id: String,
    pub workspace_id: String,
    pub tab_id: String,
    pub focused: bool,
    pub label: Option<String>,
    pub agent: Option<String>,
    pub title: Option<String>,
    pub display_agent: Option<String>,
    pub agent_status: AgentStatus,
}

/// An agent as listed by the server.
#[derive(Debug, Clone)]
pub struct AgentInfo {
    pub terminal_id: String,
    pub pane_id: String,
    pub workspace_id: String,
    pub name: Option<String>,
    pub agent: Option<String>,
    pub display_agent: Option<String>,
    pub agent_status: AgentStatus,
}

/// A rectangle in the server's terminal cell grid.
#[derive(Debug, Clone, Copy, PartialEq, Eq, Structural)]
pub struct CellRect {
    pub x: u16,
    pub y: u16,
    pub width: u16,
    pub height: u16,
}

/// One pane's place in the active tab's split layout.
#[derive(Debug, Clone)]
pub struct LayoutPane {
    pub pane_id: String,
    pub rect: CellRect,
    pub focused: bool,
}

/// The active tab's split tree, flattened to pane rectangles within `area`.
#[derive(Debug, Clone)]
pub struct PaneLayoutSnapshot {
    pub area: CellRect,
    pub panes: Vec<LayoutPane>,
}

} // verus!
