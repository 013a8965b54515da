//! Decisions of the native-chrome window: what a click on the chrome does,
//! which pane and cell lie under the pointer, how large each pane's
//! terminal grid is, and the life of a mouse text selection.

use vstd::prelude::*;
use crate::frame::FrameData;
use crate::layout::{
    agent_row_y, fits_i32, lemma_sidebar_rows_stack, new_tab_rect, sidebar_row_rect, spec_contains, tab_fits, tab_x,
    toolbar_button, workspace_row_y, PaneSlot, Rect, ViewLayout, SIDEBAR_W, TABBAR_H,
    TAB_W,
};
use crate::settings::div_trunc;
use crate::model::UiModel;
use crate::protocol::ClientMouseButton;
use crate::selection::{is_whitespace, spec_is_whitespace};
use crate::worker::{Cmd, SplitDirection};

verus! {

/// Events delivered into the window loop from background threads.
#[derive(Debug)]
pub enum UserEvent {
    Model(Box<UiModel>),
    PaneFrame { terminal_id: String, epoch: u64, frame: FrameData },
    PaneClosed { terminal_id: String, epoch: u64 },
    ApiError(String),
}

/// What a left click on the chrome does: nothing (it missed every control),
/// or it hit a control, which may issue a command.
#[derive(Debug)]
pub enum ChromeClick {
    Miss,
    Hit(Option<Cmd>),
}

/// Index of the first workspace row containing the point.
pub open spec fn first_hit_row(rows: Seq<crate::layout::RowSlot>, x: int, y: int, i: int) -> bool {
    &&& 0 <= i < rows.len()
    &&& spec_contains(rows[i].rect, x, y)
    &&& forall|j: int| 0 <= j < i ==> !spec_contains(#[trigger] rows[j].rect, x, y)
}

pub open spec fn no_row_hit(rows: Seq<crate::layout::RowSlot>, x: int, y: int) -> bool {
    forall|j: int| 0 <= j < rows.len() ==> !spec_contains(#[trigger] rows[j].rect, x, y)
}

/// The tab slot `i` is the first whose close box or body contains the point.
pub open spec fn first_hit_tab(tabs: Seq<crate::layout::TabSlot>, x: int, y: int, i: int) -> bool {
    &&& 0 <= i < tabs.len()
    &&& tab_hit(tabs[i], x, y)
    &&& no_tab_hit_before(tabs, x, y, i)
}

pub open spec fn no_tab_hit(tabs: Seq<crate::layout::TabSlot>, x: int, y: int) -> bool {
    no_tab_hit_before(tabs, x, y, tabs.len() as int)
}

/// None of the first `n` tabs contains the point.
pub open spec fn no_tab_hit_before(tabs: Seq<crate::layout::TabSlot>, x: int, y: int, n: int) -> bool {
    forall|j: int| 0 <= j < n ==> !tab_hit(#[trigger] tabs[j], x, y)
}

/// The tab's close box or body contains the point.
pub open spec fn tab_hit(tab: crate::layout::TabSlot, x: int, y: int) -> bool {
    spec_contains(tab.close, x, y) || spec_contains(tab.rect, x, y)
}

/// The command a click on the chrome issues, in the order the controls are
/// tested: workspace rows, agent rows, the new-workspace button, each tab
/// (its close box before its body), the new-tab button, the split buttons,
/// and the close-pane button. Splitting and closing act on the focused pane
/// and issue nothing without one.
pub open spec fn click_command(layout: ViewLayout, focused_pane_id: Option<String>, x: int, y: int) -> Option<Option<Cmd>> {
    let ws = layout.workspace_rows@;
    let agents = layout.agent_rows@;
    let tabs = layout.tabs@;
    if !no_row_hit(ws, x, y) {
        let i = choose|i: int| first_hit_row(ws, x, y, i);
        Some(Some(Cmd::FocusWorkspace(ws[i].id)))
    } else if !no_row_hit(agents, x, y) {
        let i = choose|i: int| first_hit_row(agents, x, y, i);
        Some(Some(Cmd::FocusTarget(agents[i].id)))
    } else if spec_contains(layout.new_workspace, x, y) {
        Some(Some(Cmd::NewWorkspace))
    } else if !no_tab_hit(tabs, x, y) {
        let i = choose|i: int| first_hit_tab(tabs, x, y, i);
        if spec_contains(tabs[i].close, x, y) {
            Some(Some(Cmd::CloseTab(tabs[i].tab_id)))
        } else {
            Some(Some(Cmd::FocusTab(tabs[i].tab_id)))
        }
    } else if spec_contains(layout.new_tab, x, y) {
        Some(Some(Cmd::NewTab))
    } else if spec_contains(layout.btn_split_right, x, y) {
        Some(match focused_pane_id {
            Some(pane_id) => Some(Cmd::SplitPane { pane_id, dir: SplitDirection::Right }),
            None => None,
        })
    } else if spec_contains(layout.btn_split_down, x, y) {
        Some(match focused_pane_id {
            Some(pane_id) => Some(Cmd::SplitPane { pane_id, dir: SplitDirection::Down }),
            None => None,
        })
    } else if spec_contains(layout.btn_close_pane, x, y) {
        Some(match focused_pane_id {
            Some(pane_id) => Some(Cmd::ClosePane(pane_id)),
            None => None,
        })
    } else {
        None
    }
}

/// The layout facts the click laws rest on, all of which `compute`
/// guarantees: sidebar rows and the new-workspace button lie left of the
/// sidebar's edge; tab `i` sits at `tab_x(i)` with its close box inside it,
/// left of the toolbar; the new-tab button is its computed rect; and the
/// toolbar buttons are toolbar slots 1 (close pane) to 4 (split right).
pub open spec fn chrome_arranged(layout: ViewLayout, surface_w: int) -> bool {
    &&& forall|i: int| 0 <= i < layout.workspace_rows@.len() ==> (#[trigger] layout.workspace_rows@[i]).rect.x + layout.workspace_rows@[i].rect.w <= SIDEBAR_W
    &&& forall|i: int| 0 <= i < layout.agent_rows@.len() ==> (#[trigger] layout.agent_rows@[i]).rect.x + layout.agent_rows@[i].rect.w <= SIDEBAR_W
    &&& layout.new_workspace.x + layout.new_workspace.w <= SIDEBAR_W
    &&& forall|i: int| 0 <= i < layout.tabs@.len() ==> {
        &&& (#[trigger] layout.tabs@[i]).rect == Rect { x: tab_x(i) as i32, y: 5, w: TAB_W, h: (TABBAR_H - 10) as i32 }
        &&& layout.tabs@[i].close == Rect { x: (tab_x(i) + TAB_W - 22) as i32, y: 11, w: 16, h: 16 }
        &&& tab_fits(surface_w, i)
    }
    &&& layout.new_tab == new_tab_rect(surface_w, layout.tabs@.len() as int)
    &&& layout.btn_close_pane == toolbar_button(surface_w, 1)
    &&& layout.btn_settings == toolbar_button(surface_w, 2)
    &&& layout.btn_split_down == toolbar_button(surface_w, 3)
    &&& layout.btn_split_right == toolbar_button(surface_w, 4)
    &&& i32::MIN + 160 <= surface_w <= i32::MAX
}

/// Where tab `j` of an arranged layout lies.
proof fn lemma_tab_arranged(layout: ViewLayout, surface_w: int, j: int)
    requires
        chrome_arranged(layout, surface_w),
        0 <= j < layout.tabs@.len(),
    ensures
        layout.tabs@[j].rect == (Rect { x: tab_x(j) as i32, y: 5, w: TAB_W, h: (TABBAR_H - 10) as i32 }),
        layout.tabs@[j].close == (Rect { x: (tab_x(j) + TAB_W - 22) as i32, y: 11, w: 16, h: 16 }),
        tab_fits(surface_w, j),
        0 <= tab_x(j),
{
    let t = layout.tabs@[j];
    assert(0 <= j * (TAB_W + 4)) by (nonlinear_arith)
        requires
            0 <= j,
    ;
}

/// A click right of the sidebar misses every sidebar control.
proof fn lemma_sidebar_missed(layout: ViewLayout, surface_w: int, x: int, y: int)
    requires
        chrome_arranged(layout, surface_w),
        SIDEBAR_W <= x,
    ensures
        no_row_hit(layout.workspace_rows@, x, y),
        no_row_hit(layout.agent_rows@, x, y),
        !spec_contains(layout.new_workspace, x, y),
{
    assert forall|j: int| 0 <= j < layout.workspace_rows@.len() implies !spec_contains(
        #[trigger] layout.workspace_rows@[j].rect,
        x,
        y,
    ) by {}
    assert forall|j: int| 0 <= j < layout.agent_rows@.len() implies !spec_contains(
        #[trigger] layout.agent_rows@[j].rect,
        x,
        y,
    ) by {}
}

/// The toolbar buttons do what they show, right of the sidebar: a click in
/// the split-right button splits the focused pane to the right, in the
/// split-down button splits it downward, in the close-pane button closes
/// it (each hits but issues nothing without a focused pane), and in the
/// new-tab button opens a tab.
pub proof fn lemma_toolbar_buttons_do_what_they_show(
    layout: ViewLayout,
    surface_w: int,
    focused: Option<String>,
    x: int,
    y: int,
)
    requires
        chrome_arranged(layout, surface_w),
        SIDEBAR_W <= x,
    ensures
        spec_contains(layout.btn_split_right, x, y) ==> click_command(layout, focused, x, y) == Some(
            match focused {
                Some(p) => Some(Cmd::SplitPane { pane_id: p, dir: SplitDirection::Right }),
                None => None::<Cmd>,
            },
        ),
        spec_contains(layout.btn_split_down, x, y) ==> click_command(layout, focused, x, y) == Some(
            match focused {
                Some(p) => Some(Cmd::SplitPane { pane_id: p, dir: SplitDirection::Down }),
                None => None::<Cmd>,
            },
        ),
        spec_contains(layout.btn_close_pane, x, y) ==> click_command(layout, focused, x, y) == Some(
            match focused {
                Some(p) => Some(Cmd::ClosePane(p)),
                None => None::<Cmd>,
            },
        ),
        spec_contains(layout.new_tab, x, y) ==> click_command(layout, focused, x, y) == Some(Some(Cmd::NewTab)),
{
    lemma_sidebar_missed(layout, surface_w, x, y);
    let tabs = layout.tabs@;
    if spec_contains(layout.btn_split_right, x, y) || spec_contains(layout.btn_split_down, x, y) || spec_contains(
        layout.btn_close_pane,
        x,
        y,
    ) || spec_contains(layout.new_tab, x, y) {
        assert forall|j: int| 0 <= j < tabs.len() implies !tab_hit(#[trigger] tabs[j], x, y) by {
            lemma_tab_arranged(layout, surface_w, j);
        }
    }
}

/// The tabs do what they show: a click in tab `i`'s close box closes that
/// tab, and a click elsewhere in the tab focuses it.
pub proof fn lemma_tabs_do_what_they_show(layout: ViewLayout, surface_w: int, focused: Option<String>, i: int, x: int, y: int)
    requires
        chrome_arranged(layout, surface_w),
        0 <= i < layout.tabs@.len(),
        spec_contains(layout.tabs@[i].rect, x, y),
    ensures
        click_command(layout, focused, x, y) == Some(
            Some(
                if spec_contains(layout.tabs@[i].close, x, y) {
                    Cmd::CloseTab(layout.tabs@[i].tab_id)
                } else {
                    Cmd::FocusTab(layout.tabs@[i].tab_id)
                },
            ),
        ),
{
    let tabs = layout.tabs@;
    lemma_tab_arranged(layout, surface_w, i);
    lemma_sidebar_missed(layout, surface_w, x, y);
    assert forall|j: int| 0 <= j < tabs.len() && j != i implies !tab_hit(#[trigger] tabs[j], x, y) by {
        lemma_tab_arranged(layout, surface_w, j);
        if j < i {
            assert(tab_x(j) + TAB_W < tab_x(i)) by (nonlinear_arith)
                requires
                    j < i,
            ;
        } else {
            assert(tab_x(i) + TAB_W < tab_x(j)) by (nonlinear_arith)
                requires
                    i < j,
            ;
        }
    }
    assert(first_hit_tab(tabs, x, y, i));
    let c = choose|k: int| first_hit_tab(tabs, x, y, k);
    assert(c == i);
}

/// The sidebar rows are where `compute` puts them: workspace row `i` at
/// `workspace_row_y(i)`, agent row `j` at `agent_row_y(.., j)`, all within
/// `i32`.
pub open spec fn rows_arranged(layout: ViewLayout) -> bool {
    let nws = layout.workspace_rows@.len() as int;
    &&& forall|i: int| 0 <= i < nws ==> (#[trigger] layout.workspace_rows@[i]).rect == sidebar_row_rect(workspace_row_y(i))
    &&& forall|j: int| 0 <= j < layout.agent_rows@.len() ==> (#[trigger] layout.agent_rows@[j]).rect == sidebar_row_rect(
        agent_row_y(nws, j),
    )
    &&& agent_row_y(nws, layout.agent_rows@.len() as int) <= i32::MAX
}

/// The sidebar rows do what they show: a click in workspace row `i`
/// focuses that workspace, and a click in agent row `j` focuses that
/// agent's terminal.
pub proof fn lemma_rows_do_what_they_show(layout: ViewLayout, focused: Option<String>, i: int, x: int, y: int)
    requires
        rows_arranged(layout),
        0 <= i,
    ensures
        i < layout.workspace_rows@.len() && spec_contains(layout.workspace_rows@[i].rect, x, y) ==> click_command(
            layout,
            focused,
            x,
            y,
        ) == Some(Some(Cmd::FocusWorkspace(layout.workspace_rows@[i].id))),
        i < layout.agent_rows@.len() && spec_contains(layout.agent_rows@[i].rect, x, y) ==> click_command(
            layout,
            focused,
            x,
            y,
        ) == Some(Some(Cmd::FocusTarget(layout.agent_rows@[i].id))),
{
    let ws = layout.workspace_rows@;
    let ag = layout.agent_rows@;
    let nws = ws.len() as int;
    let nag = ag.len() as int;
    assert(agent_row_y(nws, nag) >= workspace_row_y(nws)) by (nonlinear_arith)
        requires
            nag >= 0,
    ;
    assert forall|k: int| 0 <= k <= nws implies 34 <= #[trigger] workspace_row_y(k) <= workspace_row_y(nws) by {
        assert(34 <= workspace_row_y(k) <= workspace_row_y(nws)) by (nonlinear_arith)
            requires
                0 <= k <= nws,
        ;
    }
    assert forall|k: int| 0 <= k <= nag implies workspace_row_y(nws) <= #[trigger] agent_row_y(nws, k) <= agent_row_y(nws, nag) by {
        assert(workspace_row_y(nws) <= agent_row_y(nws, k) <= agent_row_y(nws, nag)) by (nonlinear_arith)
            requires
                0 <= k <= nag,
        ;
    }
    if i < nws && spec_contains(ws[i].rect, x, y) {
        assert forall|k: int| 0 <= k < nws && k != i implies !spec_contains(#[trigger] ws[k].rect, x, y) by {
            if k < i {
                lemma_sidebar_rows_stack(nws, k, i);
            } else {
                lemma_sidebar_rows_stack(nws, i, k);
            }
        }
        assert(first_hit_row(ws, x, y, i));
        let c = choose|k: int| first_hit_row(ws, x, y, k);
        assert(c == i);
    }
    if i < nag && spec_contains(ag[i].rect, x, y) {
        assert forall|k: int| 0 <= k < nws implies !spec_contains(#[trigger] ws[k].rect, x, y) by {
            lemma_sidebar_rows_stack(nws, k, nws);
        }
        assert forall|k: int| 0 <= k < nag && k != i implies !spec_contains(#[trigger] ag[k].rect, x, y) by {
            if k < i {
                lemma_sidebar_rows_stack(nws, k, i);
            } else {
                lemma_sidebar_rows_stack(nws, i, k);
            }
        }
        assert(first_hit_row(ag, x, y, i));
        let c = choose|k: int| first_hit_row(ag, x, y, k);
        assert(c == i);
    }
}

proof fn lemma_first_row_unique(rows: Seq<crate::layout::RowSlot>, x: int, y: int, i: int, j: int)
    requires
        first_hit_row(rows, x, y, i),
        first_hit_row(rows, x, y, j),
    ensures
        i == j,
{
    if i < j {
        assert(!spec_contains(rows[i].rect, x, y));
    }
    if j < i {
        assert(!spec_contains(rows[j].rect, x, y));
    }
}

fn find_row(rows: &Vec<crate::layout::RowSlot>, x: i32, y: i32) -> (i: Option<usize>)
    ensures
        match i {
            Some(k) => first_hit_row(rows@, x as int, y as int, k as int) && !no_row_hit(rows@, x as int, y as int)
                && k == choose|k: int| first_hit_row(rows@, x as int, y as int, k),
            None => no_row_hit(rows@, x as int, y as int),
        },
{
    let n: usize = rows.len();
    let mut i: usize = 0;
    while i < n
        invariant
            n == rows@.len(),
            i <= n,
            forall|j: int| 0 <= j < i ==> !spec_contains(#[trigger] rows@[j].rect, x as int, y as int),
        decreases n - i,
    {
        if rows[i].rect.contains(x, y) {
            proof {
                assert(first_hit_row(rows@, x as int, y as int, i as int));
                let c: int = choose|k: int| first_hit_row(rows@, x as int, y as int, k);
                lemma_first_row_unique(rows@, x as int, y as int, i as int, c);
            }
            return Some(i);
        }
        i += 1;
    }
    None
}

fn find_tab(tabs: &Vec<crate::layout::TabSlot>, x: i32, y: i32) -> (i: Option<usize>)
    ensures
        match i {
            Some(k) => first_hit_tab(tabs@, x as int, y as int, k as int) && !no_tab_hit(tabs@, x as int, y as int)
                && k == choose|k: int| first_hit_tab(tabs@, x as int, y as int, k),
            None => no_tab_hit(tabs@, x as int, y as int),
        },
{
    let n: usize = tabs.len();
    let mut i: usize = 0;
    while i < n
        invariant
            n == tabs@.len(),
            i <= n,
            no_tab_hit_before(tabs@, x as int, y as int, i as int),
        decreases n - i,
    {
        let close: Rect = tabs[i].close;
        let body: Rect = tabs[i].rect;
        let in_close: bool = close.contains(x, y);
        let in_body: bool = body.contains(x, y);
        if in_close || in_body {
            proof {
                assert(first_hit_tab(tabs@, x as int, y as int, i as int));
                let c: int = choose|k: int| first_hit_tab(tabs@, x as int, y as int, k);
                if c < i {
                    assert(!tab_hit(tabs@[c], x as int, y as int));
                }
                if i < c {
                    assert(!tab_hit(tabs@[i as int], x as int, y as int));
                }
            }
            return Some(i);
        }
        assert(!tab_hit(tabs@[i as int], x as int, y as int));
        i += 1;
    }
    None
}

/// Decides what a left click at `(x, y)` on the chrome does.
pub fn chrome_click(layout: &ViewLayout, focused_pane_id: &Option<String>, x: i32, y: i32) -> (click: ChromeClick)
    ensures
        match click_command(*layout, *focused_pane_id, x as int, y as int) {
            None => click is Miss,
            Some(cmd) => click == ChromeClick::Hit(cmd),
        },
{
    if let Some(i) = find_row(&layout.workspace_rows, x, y) {
        return ChromeClick::Hit(Some(Cmd::FocusWorkspace(layout.workspace_rows[i].id.clone())));
    }
    if let Some(i) = find_row(&layout.agent_rows, x, y) {
        return ChromeClick::Hit(Some(Cmd::FocusTarget(layout.agent_rows[i].id.clone())));
    }
    if layout.new_workspace.contains(x, y) {
        return ChromeClick::Hit(Some(Cmd::NewWorkspace));
    }
    if let Some(i) = find_tab(&layout.tabs, x, y) {
        let tab = &layout.tabs[i];
        if tab.close.contains(x, y) {
            return ChromeClick::Hit(Some(Cmd::CloseTab(tab.tab_id.clone())));
        }
        return ChromeClick::Hit(Some(Cmd::FocusTab(tab.tab_id.clone())));
    }
    if layout.new_tab.contains(x, y) {
        return ChromeClick::Hit(Some(Cmd::NewTab));
    }
    if layout.btn_split_right.contains(x, y) {
        return ChromeClick::Hit(match focused_pane_id {
            Some(pane_id) => Some(Cmd::SplitPane { pane_id: pane_id.clone(), dir: SplitDirection::Right }),
            None => None,
        });
    }
    if layout.btn_split_down.contains(x, y) {
        return ChromeClick::Hit(match focused_pane_id {
            Some(pane_id) => Some(Cmd::SplitPane { pane_id: pane_id.clone(), dir: SplitDirection::Down }),
            None => None,
        });
    }
    if layout.btn_close_pane.contains(x, y) {
        return ChromeClick::Hit(match focused_pane_id {
            Some(pane_id) => Some(Cmd::ClosePane(pane_id.clone())),
            None => None,
        });
    }
    ChromeClick::Miss
}

/// Slot `i` is the first with a terminal whose rect (its content area when
/// `content`) contains the point.
pub open spec fn slot_area(slot: PaneSlot, content: bool) -> Rect {
    if content { slot.content } else { slot.rect }
}

pub open spec fn slot_hit(slot: PaneSlot, content: bool, x: int, y: int) -> bool {
    slot.terminal_id@.len() > 0 && spec_contains(slot_area(slot, content), x, y)
}

pub open spec fn is_first_slot_hit(slots: Seq<PaneSlot>, content: bool, x: int, y: int, i: int) -> bool {
    &&& 0 <= i < slots.len()
    &&& slot_hit(slots[i], content, x, y)
    &&& forall|j: int| 0 <= j < i ==> !slot_hit(#[trigger] slots[j], content, x, y)
}

/// The first pane slot with a terminal under the point: under its content
/// area when `content`, else anywhere in its rect (caption included).
pub fn pane_slot_at(layout: &ViewLayout, content: bool, x: i32, y: i32) -> (i: Option<usize>)
    ensures
        match i {
            Some(k) => is_first_slot_hit(layout.panes@, content, x as int, y as int, k as int),
            None => forall|j: int|
                0 <= j < layout.panes@.len() ==> !slot_hit(#[trigger] layout.panes@[j], content, x as int, y as int),
        },
{
    let n: usize = layout.panes.len();
    let mut i: usize = 0;
    while i < n
        invariant
            n == layout.panes@.len(),
            i <= n,
            forall|j: int| 0 <= j < i ==> !slot_hit(#[trigger] layout.panes@[j], content, x as int, y as int),
        decreases n - i,
    {
        let slot = &layout.panes[i];
        let area: Rect = if content { slot.content } else { slot.rect };
        let inside: bool = area.contains(x, y);
        if inside && !slot.terminal_id.as_str().is_empty() {
            return Some(i);
        }
        assert(!slot_hit(layout.panes@[i as int], content, x as int, y as int));
        i += 1;
    }
    None
}

/// The cell of a pane's grid under a pixel of its content area, counted
/// from the content's top-left corner and stored as `u16` like the
/// protocol's coordinates.
pub open spec fn spec_mouse_cell(content: Rect, x: int, y: int, cell_w: int, cell_h: int) -> (u16, u16) {
    (
        (if (x - content.x) / cell_w > 0 { (x - content.x) / cell_w } else { 0 }) as u16,
        (if (y - content.y) / cell_h > 0 { (y - content.y) / cell_h } else { 0 }) as u16,
    )
}

/// The mouse position, in cells, within `content` (which contains it).
pub fn mouse_cell(content: Rect, x: i32, y: i32, cell_w: i32, cell_h: i32) -> (cell: (u16, u16))
    requires
        spec_contains(content, x as int, y as int),
        cell_w > 0,
        cell_h > 0,
        fits_i32(x - content.x),
        fits_i32(y - content.y),
    ensures
        cell == spec_mouse_cell(content, x as int, y as int, cell_w as int, cell_h as int),
{
    let col: i32 = (x - content.x) / cell_w;
    let row: i32 = (y - content.y) / cell_h;
    (
        #[verifier::truncate] ((if col > 0 { col } else { 0 }) as u16),
        #[verifier::truncate] ((if row > 0 { row } else { 0 }) as u16),
    )
}

/// One less than `n`, floored at zero.
pub open spec fn sat_dec(n: u16) -> int {
    if n > 0 { n - 1 } else { 0 }
}

/// The cell under a pixel of a pane's content area, clamped to a grid of
/// `max_cols` x `max_rows` cells.
pub open spec fn spec_clamped_cell(content: Rect, max_cols: u16, max_rows: u16, x: int, y: int, cell_w: int, cell_h: int) -> (u16, u16) {
    let (col, row) = spec_mouse_cell(content, x, y, cell_w, cell_h);
    (
        (if col < sat_dec(max_cols) { col as int } else { sat_dec(max_cols) }) as u16,
        (if row < sat_dec(max_rows) { row as int } else { sat_dec(max_rows) }) as u16,
    )
}

pub fn clamped_cell(content: Rect, max_cols: u16, max_rows: u16, x: i32, y: i32, cell_w: i32, cell_h: i32) -> (cell: (u16, u16))
    requires
        spec_contains(content, x as int, y as int),
        cell_w > 0,
        cell_h > 0,
        fits_i32(x - content.x),
        fits_i32(y - content.y),
    ensures
        cell == spec_clamped_cell(content, max_cols, max_rows, x as int, y as int, cell_w as int, cell_h as int),
{
    let (col, row) = mouse_cell(content, x, y, cell_w, cell_h);
    let last_col: u16 = if max_cols > 0 { max_cols - 1 } else { 0 };
    let last_row: u16 = if max_rows > 0 { max_rows - 1 } else { 0 };
    (if col < last_col { col } else { last_col }, if row < last_row { row } else { last_row })
}

/// The terminal grid a pane's content area holds: whole cells, at least one
/// in each direction.
pub open spec fn spec_grid_size(content: Rect, cell_w: int, cell_h: int) -> (u16, u16) {
    let cols = div_trunc(content.w as int, cell_w);
    let rows = div_trunc(content.h as int, cell_h);
    ((if cols > 1 { cols } else { 1 }) as u16, (if rows > 1 { rows } else { 1 }) as u16)
}

pub fn grid_size(content: Rect, cell_w: i32, cell_h: i32) -> (size: (u16, u16))
    requires
        cell_w > 0,
        cell_h > 0,
    ensures
        size == spec_grid_size(content, cell_w as int, cell_h as int),
{
    let cols: i32 = content.w / cell_w;
    let rows: i32 = content.h / cell_h;
    (
        #[verifier::truncate] ((if cols > 1 { cols } else { 1 }) as u16),
        #[verifier::truncate] ((if rows > 1 { rows } else { 1 }) as u16),
    )
}

/// An in-progress or completed text selection within a pane.
#[derive(Debug)]
pub struct Selection {
    pub terminal_id: String,
    pub anchor: (u16, u16),
    pub head: (u16, u16),
}

/// The mouse selection: the current selection, and whether a drag is in
/// progress.
#[derive(Debug)]
pub struct SelectionState {
    pub selection: Option<Selection>,
    pub selecting: bool,
}

/// What releasing the left button does to the selection.
#[derive(Debug, Clone, Copy, PartialEq, Eq, Structural)]
pub enum FinishAction {
    /// No drag was in progress.
    Nothing,
    /// A plain click: the empty selection was cleared.
    Cleared,
    /// A drag: the selection stays and its text is copied.
    Copy,
}

impl SelectionState {
    pub fn new() -> (s: Self)
        ensures
            s.selection is None,
            !s.selecting,
    {
        SelectionState { selection: None, selecting: false }
    }

    /// Drops the selection and ends any drag; returns whether a selection
    /// was shown (so the window needs a redraw).
    pub fn clear(&mut self) -> (had: bool)
        ensures
            had == old(self).selection is Some,
            final(self).selection is None,
            !final(self).selecting,
    {
        let had = self.selection.is_some();
        self.selection = None;
        self.selecting = false;
        had
    }

    /// Starts a drag at the cell under the pointer, or clears the selection
    /// when the pointer is over no pane.
    pub fn begin(&mut self, hit: Option<(String, u16, u16)>)
        ensures
            begin_post(*final(self), hit),
    {
        match hit {
            Some((terminal_id, col, row)) => {
                self.selection = Some(Selection { terminal_id, anchor: (col, row), head: (col, row) });
                self.selecting = true;
            },
            None => {
                self.clear();
            },
        }
    }

    /// Moves the selection's head to the cell under the pointer when it is
    /// over the selected pane; returns whether the head moved there.
    pub fn update(&mut self, hit: Option<(String, u16, u16)>) -> (moved: bool)
        ensures
            final(self).selecting == old(self).selecting,
            moved == (hit is Some && old(self).selection is Some && (hit->0).0@ == old(self).selection->0.terminal_id@),
            moved ==> (final(self).selection matches Some(sel) && sel.terminal_id == old(self).selection->0.terminal_id
                && sel.anchor == old(self).selection->0.anchor && sel.head == ((hit->0).1, (hit->0).2)),
            !moved ==> final(self).selection == old(self).selection,
    {
        let (terminal_id, col, row) = match hit {
            Some(h) => h,
            None => return false,
        };
        match &mut self.selection {
            Some(sel) => {
                if sel.terminal_id == terminal_id {
                    sel.head = (col, row);
                    true
                } else {
                    false
                }
            },
            None => false,
        }
    }

    /// Ends a drag: a drag that never moved is a plain click and clears the
    /// selection; otherwise the selection stays to be copied.
    pub fn finish(&mut self) -> (action: FinishAction)
        ensures
            finish_post(*old(self), *final(self), action),
    {
        if !self.selecting {
            return FinishAction::Nothing;
        }
        self.selecting = false;
        let plain_click: bool = match &self.selection {
            Some(sel) => sel.anchor.0 == sel.head.0 && sel.anchor.1 == sel.head.1,
            None => return FinishAction::Nothing,
        };
        if plain_click {
            self.clear();
            FinishAction::Cleared
        } else {
            FinishAction::Copy
        }
    }
}

/// The state right after a drag begins at `hit`, or after the selection
/// was cleared when the pointer was over no pane.
pub open spec fn begin_post(after: SelectionState, hit: Option<(String, u16, u16)>) -> bool {
    match hit {
        Some((terminal_id, col, row)) => after.selecting && (after.selection matches Some(sel) && sel.terminal_id
            == terminal_id && sel.anchor == (col, row) && sel.head == (col, row)),
        None => after.selection is None && !after.selecting,
    }
}

/// How ending a drag changes the selection state.
pub open spec fn finish_post(before: SelectionState, after: SelectionState, action: FinishAction) -> bool {
    &&& !after.selecting
    &&& !before.selecting ==> action == FinishAction::Nothing && after.selection == before.selection
    &&& before.selecting ==> match before.selection {
        None => action == FinishAction::Nothing && after.selection is None,
        Some(sel) => if sel.anchor == sel.head {
            action == FinishAction::Cleared && after.selection is None
        } else {
            action == FinishAction::Copy && after.selection == before.selection
        },
    }
}

/// A click without a drag (press then release with no pointer movement in
/// between) never leaves a selection behind and copies nothing.
pub proof fn lemma_click_leaves_no_selection(
    begun: SelectionState,
    finished: SelectionState,
    hit: Option<(String, u16, u16)>,
    action: FinishAction,
)
    requires
        begin_post(begun, hit),
        finish_post(begun, finished, action),
    ensures
        finished.selection is None,
        action != FinishAction::Copy,
{
}

/// A drag that moved the head to another cell of the same pane keeps its
/// selection and copies it on release.
pub proof fn lemma_drag_copies(before: SelectionState, after: SelectionState, action: FinishAction)
    requires
        before.selecting,
        before.selection matches Some(sel) && sel.anchor != sel.head,
        finish_post(before, after, action),
    ensures
        action == FinishAction::Copy,
        after.selection == before.selection,
{
}

/// Some pane slot of the layout shows the terminal `terminal_id`.
pub open spec fn spec_is_visible(slots: Seq<PaneSlot>, terminal_id: Seq<char>) -> bool {
    exists|i: int| 0 <= i < slots.len() && (#[trigger] slots[i]).terminal_id@ == terminal_id
}

/// Whether the terminal is shown in the active tab (so a new frame for it
/// needs a repaint).
pub fn is_visible(layout: &ViewLayout, terminal_id: &str) -> (b: bool)
    ensures
        b == spec_is_visible(layout.panes@, terminal_id@),
{
    let n: usize = layout.panes.len();
    let mut i: usize = 0;
    while i < n
        invariant
            n == layout.panes@.len(),
            i <= n,
            forall|j: int| 0 <= j < i ==> (#[trigger] layout.panes@[j]).terminal_id@ != terminal_id@,
        decreases n - i,
    {
        if crate::args::str_eq(layout.panes[i].terminal_id.as_str(), terminal_id) {
            return true;
        }
        i += 1;
    }
    false
}

/// The terminal grids of the first `n` pane slots that show a terminal:
/// each terminal id with the columns and rows its content area holds.
pub open spec fn spec_pane_grids(slots: Seq<PaneSlot>, cell_w: int, cell_h: int, n: nat) -> Seq<(Seq<char>, u16, u16)>
    decreases n,
{
    if n == 0 {
        seq![]
    } else {
        let prev = spec_pane_grids(slots, cell_w, cell_h, (n - 1) as nat);
        let slot = slots[n - 1];
        if slot.terminal_id@.len() > 0 {
            let size = spec_grid_size(slot.content, cell_w, cell_h);
            prev.push((slot.terminal_id@, size.0, size.1))
        } else {
            prev
        }
    }
}

/// The values of a list of terminal grids.
pub open spec fn grids_view(v: Seq<(String, u16, u16)>) -> Seq<(Seq<char>, u16, u16)> {
    v.map_values(|g: (String, u16, u16)| (g.0@, g.1, g.2))
}

/// The terminal connection each visible pane needs, in layout order: its
/// terminal id and the grid its content area holds. Slots without a
/// terminal need none.
pub fn pane_grids(layout: &ViewLayout, cell_w: i32, cell_h: i32) -> (grids: Vec<(String, u16, u16)>)
    requires
        cell_w > 0,
        cell_h > 0,
    ensures
        grids_view(grids@) == spec_pane_grids(layout.panes@, cell_w as int, cell_h as int, layout.panes@.len()),
{
    let mut out: Vec<(String, u16, u16)> = Vec::new();
    let n: usize = layout.panes.len();
    let mut i: usize = 0;
    while i < n
        invariant
            n == layout.panes@.len(),
            i <= n,
            cell_w > 0,
            cell_h > 0,
            grids_view(out@) == spec_pane_grids(layout.panes@, cell_w as int, cell_h as int, i as nat),
        decreases n - i,
    {
        let slot = &layout.panes[i];
        if slot.terminal_id.as_str().unicode_len() > 0 {
            let (cols, rows) = grid_size(slot.content, cell_w, cell_h);
            let ghost before = out@;
            out.push((slot.terminal_id.clone(), cols, rows));
            proof {
                assert(grids_view(out@) =~= grids_view(before).push((slot.terminal_id@, cols, rows)));
            }
        }
        i += 1;
    }
    out
}

/// The text holds something besides whitespace, so copying it is worth
/// doing.
pub open spec fn spec_worth_copying(text: Seq<char>) -> bool {
    exists|i: int| 0 <= i < text.len() && !spec_is_whitespace(#[trigger] text[i])
}

/// Whether a selection's text should reach the clipboard: not when it is
/// empty or all whitespace.
pub fn worth_copying(text: &str) -> (b: bool)
    ensures
        b == spec_worth_copying(text@),
{
    let n: usize = text.unicode_len();
    let mut i: usize = 0;
    while i < n
        invariant
            n == text@.len(),
            i <= n,
            forall|j: int| 0 <= j < i ==> spec_is_whitespace(#[trigger] text@[j]),
        decreases n - i,
    {
        if !is_whitespace(text.get_char(i)) {
            return true;
        }
        i += 1;
    }
    false
}

/// The text a right click pastes: the system clipboard's when it has any,
/// else the last text copied here when it is not empty, else nothing.
pub open spec fn spec_paste_text(system: Option<Seq<char>>, last_copied: Option<Seq<char>>) -> Option<Seq<char>> {
    match system {
        Some(s) if s.len() > 0 => Some(s),
        _ => match last_copied {
            Some(l) if l.len() > 0 => Some(l),
            _ => None,
        },
    }
}

pub fn paste_text(system: Option<String>, last_copied: &Option<String>) -> (text: Option<String>)
    ensures
        crate::worker::opt_view(text) == spec_paste_text(crate::worker::opt_view(system), crate::worker::opt_view(*last_copied)),
{
    if let Some(s) = system {
        if s.as_str().unicode_len() > 0 {
            return Some(s);
        }
    }
    match last_copied {
        Some(l) => {
            if l.as_str().unicode_len() > 0 {
                Some(l.clone())
            } else {
                None
            }
        },
        None => None,
    }
}

/// What a mouse button press or release over the window does.
#[derive(Debug, Clone, Copy, PartialEq, Eq, Structural)]
pub enum PointerAction {
    /// Left press: try the chrome first, else focus the pane under the
    /// pointer and start a selection there.
    ClickOrSelect,
    /// Left release: end the selection drag.
    FinishSelection,
    /// Right press: paste into the focused pane.
    Paste,
    /// Anything else is ignored.
    Nothing,
}

pub fn pointer_action(button: ClientMouseButton, pressed: bool) -> (a: PointerAction)
    ensures
        a == match (button, pressed) {
            (ClientMouseButton::Left, true) => PointerAction::ClickOrSelect,
            (ClientMouseButton::Left, false) => PointerAction::FinishSelection,
            (ClientMouseButton::Right, true) => PointerAction::Paste,
            _ => PointerAction::Nothing,
        },
{
    match (button, pressed) {
        (ClientMouseButton::Left, true) => PointerAction::ClickOrSelect,
        (ClientMouseButton::Left, false) => PointerAction::FinishSelection,
        (ClientMouseButton::Right, true) => PointerAction::Paste,
        _ => PointerAction::Nothing,
    }
}

} // verus!
