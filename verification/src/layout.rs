//! Pixel layout for the native chrome and panes.
//!
//! Produces the rectangles for the sidebar, tab strip, toolbar, and each
//! terminal pane, plus the hit regions used for click handling. Pane rects are
//! derived proportionally from the server's `PaneLayoutSnapshot` (split tree),
//! so the relative tiling matches herdr regardless of the server's absolute
//! cell geometry.

use vstd::prelude::*;
use crate::model::{derefs, has_pane_with_id, is_first_pane_with_id, UiModel};
use crate::schema::{LayoutPane, PaneInfo};

verus! {

pub const SIDEBAR_W: i32 = 230;
pub const TABBAR_H: i32 = 38;
pub const PANE_GAP: i32 = 6;
pub const CAPTION_H: i32 = 22;
/// Height of two-line sidebar rows (workspaces and agents).
pub const ROW2_H: i32 = 44;
pub const TAB_W: i32 = 150;
pub const BTN_W: i32 = 36;

/// Horizontal padding of sidebar rows.
pub const SIDEBAR_PAD: i32 = 10;
/// Top of the first workspace row, below the "spaces" header.
pub const FIRST_ROW_Y: i32 = 34;
/// Space taken by the agents section header.
pub const AGENTS_HEADER_H: i32 = 36;

#[derive(Debug, Clone, Copy, PartialEq, Eq, Structural)]
pub struct Rect {
    pub x: i32,
    pub y: i32,
    pub w: i32,
    pub h: i32,
}

impl Default for Rect {
    fn default() -> (r: Self)
        ensures
            r == (Rect { x: 0, y: 0, w: 0, h: 0 }),
    {
        Rect::new(0, 0, 0, 0)
    }
}

/// Whether the pixel `(px, py)` lies in `r`, whose left and top edges are
/// inside and whose right and bottom edges are outside.
pub open spec fn spec_contains(r: Rect, px: int, py: int) -> bool {
    r.x <= px < r.x + r.w && r.y <= py < r.y + r.h
}

/// `r` shrunk by `d` on every side, with the size floored at zero.
pub open spec fn spec_inset(r: Rect, d: int) -> Rect {
    Rect {
        x: (r.x + d) as i32,
        y: (r.y + d) as i32,
        w: (if r.w - 2 * d > 0 { r.w - 2 * d } else { 0 }) as i32,
        h: (if r.h - 2 * d > 0 { r.h - 2 * d } else { 0 }) as i32,
    }
}

/// The values of `inset` fit in `i32`.
pub open spec fn inset_fits(r: Rect, d: int) -> bool {
    &&& i32::MIN <= r.x + d <= i32::MAX
    &&& i32::MIN <= r.y + d <= i32::MAX
    &&& i32::MIN <= r.w - 2 * d
    &&& i32::MIN <= r.h - 2 * d
    &&& r.w - 2 * d <= i32::MAX
    &&& r.h - 2 * d <= i32::MAX
}

impl Rect {
    pub fn new(x: i32, y: i32, w: i32, h: i32) -> (r: Self)
        ensures
            r == (Rect { x, y, w, h }),
    {
        Rect { x, y, w, h }
    }

    /// Half-open containment test. The edges are summed without overflow.
    pub fn contains(&self, px: i32, py: i32) -> (b: bool)
        ensures
            b == spec_contains(*self, px as int, py as int),
    {
        let right: i64 = self.x as i64 + self.w as i64;
        let bottom: i64 = self.y as i64 + self.h as i64;
        px >= self.x && (px as i64) < right && py >= self.y && (py as i64) < bottom
    }

    pub fn inset(&self, d: i32) -> (r: Rect)
        requires
            inset_fits(*self, d as int),
        ensures
            r == spec_inset(*self, d as int),
    {
        let w: i64 = self.w as i64 - 2 * (d as i64);
        let h: i64 = self.h as i64 - 2 * (d as i64);
        Rect::new(
            self.x + d,
            self.y + d,
            if w > 0 { w as i32 } else { 0 },
            if h > 0 { h as i32 } else { 0 },
        )
    }
}


#[derive(Debug, Clone)]
pub struct RowSlot {
    pub id: String,
    pub rect: Rect,
    pub focused: bool,
}

#[derive(Debug, Clone)]
pub struct TabSlot {
    pub tab_id: String,
    pub rect: Rect,
    pub close: Rect,
    pub focused: bool,
}

#[derive(Debug, Clone)]
pub struct PaneSlot {
    pub pane_id: String,
    pub terminal_id: String,
    pub rect: Rect,
    pub content: Rect,
    pub focused: bool,
}

/// A pane slot as values: pane id, terminal id, outer rect, content rect, focus.
pub type PaneSlotView = (Seq<char>, Seq<char>, Rect, Rect, bool);

impl View for PaneSlot {
    type V = PaneSlotView;

    open spec fn view(&self) -> PaneSlotView {
        (self.pane_id@, self.terminal_id@, self.rect, self.content, self.focused)
    }
}

#[derive(Debug, Clone)]
pub struct ViewLayout {
    pub sidebar: Rect,
    pub tabbar: Rect,
    pub workspace_rows: Vec<RowSlot>,
    pub agent_rows: Vec<RowSlot>,
    pub new_workspace: Rect,
    pub tabs: Vec<TabSlot>,
    pub new_tab: Rect,
    pub btn_split_right: Rect,
    pub btn_split_down: Rect,
    pub btn_settings: Rect,
    pub btn_close_pane: Rect,
    pub panes: Vec<PaneSlot>,
}

pub open spec fn zero_rect() -> Rect {
    Rect { x: 0, y: 0, w: 0, h: 0 }
}

impl Default for ViewLayout {
    fn default() -> (l: Self)
        ensures
            l.sidebar == zero_rect(),
            l.tabbar == zero_rect(),
            l.workspace_rows@.len() == 0,
            l.agent_rows@.len() == 0,
            l.new_workspace == zero_rect(),
            l.tabs@.len() == 0,
            l.new_tab == zero_rect(),
            l.btn_split_right == zero_rect(),
            l.btn_split_down == zero_rect(),
            l.btn_settings == zero_rect(),
            l.btn_close_pane == zero_rect(),
            l.panes@.len() == 0,
    {
        ViewLayout {
            sidebar: Rect::default(),
            tabbar: Rect::default(),
            workspace_rows: Vec::new(),
            agent_rows: Vec::new(),
            new_workspace: Rect::default(),
            tabs: Vec::new(),
            new_tab: Rect::default(),
            btn_split_right: Rect::default(),
            btn_split_down: Rect::default(),
            btn_settings: Rect::default(),
            btn_close_pane: Rect::default(),
            panes: Vec::new(),
        }
    }
}

// ---------------------------------------------------------------------------
// Specification of the layout
// ---------------------------------------------------------------------------

/// The rect of a two-line sidebar row whose top edge is at `y`.
pub open spec fn sidebar_row_rect(y: int) -> Rect {
    Rect { x: SIDEBAR_PAD, y: y as i32, w: (SIDEBAR_W - 2 * SIDEBAR_PAD) as i32, h: ROW2_H }
}

/// Top edge of the `i`-th workspace row.
pub open spec fn workspace_row_y(i: int) -> int {
    FIRST_ROW_Y + i * (ROW2_H + 2)
}

/// Top edge of the `j`-th agent row, below `n_workspaces` workspace rows and
/// the agents header.
pub open spec fn agent_row_y(n_workspaces: int, j: int) -> int {
    workspace_row_y(n_workspaces) + AGENTS_HEADER_H + j * (ROW2_H + 2)
}

/// `id` is the value of the optional id `selected`.
pub open spec fn is_selected(selected: Option<String>, id: Seq<char>) -> bool {
    selected matches Some(s) && s@ == id
}

/// The left edge of the pane toolbar: right of it sit four toolbar buttons.
pub open spec fn toolbar_left(surface_w: int) -> int {
    surface_w - 8 - BTN_W * 4 - 8
}

/// Left edge of the `i`-th tab.
pub open spec fn tab_x(i: int) -> int {
    SIDEBAR_W + 8 + i * (TAB_W + 4)
}

/// The `i`-th tab fits left of the toolbar.
pub open spec fn tab_fits(surface_w: int, i: int) -> bool {
    tab_x(i) + TAB_W <= toolbar_left(surface_w)
}

/// Tabs are laid out left to right at a fixed width; `count` of the
/// `n` tabs are shown exactly when the first `count` fit and, unless all are
/// shown, the next one does not.
pub open spec fn shown_tab_count(surface_w: int, n: int, count: int) -> bool {
    &&& 0 <= count <= n
    &&& forall|i: int| 0 <= i < count ==> tab_fits(surface_w, i)
    &&& count < n ==> !tab_fits(surface_w, count)
}

/// A toolbar button `k` slots left of the right edge of the tab bar.
pub open spec fn toolbar_button(surface_w: int, k: int) -> Rect {
    Rect {
        x: (surface_w - 8 - BTN_W * k) as i32,
        y: 5,
        w: (BTN_W - 4) as i32,
        h: (TABBAR_H - 10) as i32,
    }
}

/// The area the pane grid is drawn into.
pub open spec fn content_rect(surface_w: int, surface_h: int) -> Rect {
    Rect {
        x: SIDEBAR_W,
        y: TABBAR_H,
        w: (surface_w - SIDEBAR_W) as i32,
        h: (surface_h - TABBAR_H) as i32,
    }
}

/// The pane grid area after the outer gap.
pub open spec fn pane_area(surface_w: int, surface_h: int) -> Rect {
    spec_inset(content_rect(surface_w, surface_h), PANE_GAP as int)
}

/// `d / a` of `w`, rounded to the nearest integer with halves rounded up.
pub open spec fn scale(d: int, w: int, a: int) -> int {
    (2 * d * w + a) / (2 * a)
}

/// How far `v` lies past `origin`, floored at zero.
pub open spec fn offset_from(v: u16, origin: u16) -> int {
    if v >= origin { v - origin } else { 0 }
}

/// The pixel rect (as integers) of a snapshot pane, scaled from the
/// snapshot's cell area into the pane area `inner`.
pub open spec fn snapshot_rect_values(model: UiModel, inner: Rect, p: LayoutPane) -> (int, int, int, int) {
    let area = model.layout->0.area;
    (
        inner.x + scale(offset_from(p.rect.x, area.x), inner.w as int, area.width as int),
        inner.y + scale(offset_from(p.rect.y, area.y), inner.h as int, area.height as int),
        scale(p.rect.width as int, inner.w as int, area.width as int) - PANE_GAP,
        scale(p.rect.height as int, inner.h as int, area.height as int) - PANE_GAP,
    )
}

pub open spec fn fits_i32(v: int) -> bool {
    i32::MIN <= v <= i32::MAX
}

/// The snapshot's usable: it has a non-empty area and at least one pane.
pub open spec fn snapshot_usable(model: UiModel) -> bool {
    &&& model.layout is Some
    &&& model.layout->0.area.width > 0
    &&& model.layout->0.area.height > 0
    &&& model.layout->0.panes@.len() > 0
}

/// The terminal id of the first pane of `panes` with id `pane_id`, or the
/// empty id when there is none.
pub open spec fn terminal_for(panes: Seq<PaneInfo>, pane_id: Seq<char>) -> Seq<char> {
    if has_pane_with_id(panes, pane_id) {
        panes[choose|i: int| is_first_pane_with_id(panes, pane_id, i)].terminal_id@
    } else {
        Seq::empty()
    }
}

/// A candidate pane slot; `push_pane` keeps it only when it is wider than
/// zero and taller than its caption.
pub open spec fn slot_view(pane_id: Seq<char>, terminal_id: Seq<char>, rect: Rect, focused: bool) -> PaneSlotView {
    (
        pane_id,
        terminal_id,
        rect,
        Rect {
            x: (rect.x + 1) as i32,
            y: (rect.y + CAPTION_H) as i32,
            w: (rect.w - 2) as i32,
            h: (rect.h - CAPTION_H - 1) as i32,
        },
        focused,
    )
}

pub open spec fn slot_kept(s: PaneSlotView) -> bool {
    s.2.w > 0 && s.2.h > CAPTION_H
}

/// The candidate slot of a snapshot pane.
pub open spec fn snapshot_slot(model: UiModel, inner: Rect, p: LayoutPane) -> PaneSlotView {
    let v = snapshot_rect_values(model, inner, p);
    slot_view(
        p.pane_id@,
        terminal_for(model.spec_active_panes(), p.pane_id@),
        Rect { x: v.0 as i32, y: v.1 as i32, w: v.2 as i32, h: v.3 as i32 },
        p.focused || is_selected(model.focused_pane_id, p.pane_id@),
    )
}

/// The candidate slot of the `i`-th of `n` active panes stacked evenly.
pub open spec fn stacked_slot(model: UiModel, inner: Rect, pane: PaneInfo, i: int, n: int) -> PaneSlotView {
    let cell_h: int = (inner.h as int) / n;
    slot_view(
        pane.pane_id@,
        pane.terminal_id@,
        Rect {
            x: inner.x,
            y: (inner.y + i * cell_h) as i32,
            w: inner.w,
            h: (cell_h - PANE_GAP) as i32,
        },
        is_selected(model.focused_pane_id, pane.pane_id@),
    )
}

/// The pane slots: none without active panes; the snapshot's panes scaled
/// into the pane area when the snapshot is usable; otherwise the active panes
/// stacked evenly. Slots too small for their caption are dropped.
pub open spec fn spec_pane_slots(model: UiModel, surface_w: int, surface_h: int) -> Seq<PaneSlotView> {
    let active = model.spec_active_panes();
    let inner = pane_area(surface_w, surface_h);
    if active.len() == 0 {
        Seq::empty()
    } else if snapshot_usable(model) {
        model.layout->0.panes@.map_values(|p: LayoutPane| snapshot_slot(model, inner, p)).filter(
            |s: PaneSlotView| slot_kept(s),
        )
    } else {
        active.map(|i: int, p: PaneInfo| stacked_slot(model, inner, p, i, active.len() as int)).filter(
            |s: PaneSlotView| slot_kept(s),
        )
    }
}

/// The sizes and model that `compute` handles without overflowing `i32`.
pub open spec fn compute_fits(model: UiModel, surface_w: int, surface_h: int) -> bool {
    let inner = pane_area(surface_w, surface_h);
    &&& i32::MIN + 242 <= surface_w <= i32::MAX
    &&& i32::MIN + 50 <= surface_h <= i32::MAX
    &&& agent_row_y(model.workspaces@.len() as int, model.agents@.len() as int) <= i32::MAX
    &&& model.spec_active_panes().len() <= i32::MAX
    &&& snapshot_usable(model) ==> forall|k: int|
        0 <= k < model.layout->0.panes@.len() ==> {
            let v = #[trigger] snapshot_rect_values(model, inner, model.layout->0.panes@[k]);
            &&& fits_i32(v.0)
            &&& fits_i32(v.1)
            &&& fits_i32(v.2)
            &&& fits_i32(v.3)
            &&& (v.2 > 0 && v.3 > CAPTION_H) ==> v.0 + 1 <= i32::MAX && v.1 + CAPTION_H <= i32::MAX
        }
}

/// Row `row` shows the item `id` at `rect`, highlighted when `focused`.
pub open spec fn row_is(row: RowSlot, id: Seq<char>, rect: Rect, focused: bool) -> bool {
    row.id@ == id && row.rect == rect && row.focused == focused
}

/// The rect of the "new tab" button after `count` tabs, or the empty rect
/// when it would reach into the toolbar.
pub open spec fn new_tab_rect(surface_w: int, count: int) -> Rect {
    let x = tab_x(count);
    if x + (TABBAR_H - 10) > toolbar_left(surface_w) {
        zero_rect()
    } else {
        Rect { x: x as i32, y: 5, w: (TABBAR_H - 10) as i32, h: (TABBAR_H - 10) as i32 }
    }
}

/// The slot of the `i`-th tab: its rect, and its close box near the right edge.
pub open spec fn tab_is(slot: TabSlot, tab_id: Seq<char>, i: int, focused: bool) -> bool {
    &&& slot.tab_id@ == tab_id
    &&& slot.rect == Rect { x: tab_x(i) as i32, y: 5, w: TAB_W, h: (TABBAR_H - 10) as i32 }
    &&& slot.close == Rect { x: (tab_x(i) + TAB_W - 22) as i32, y: 11, w: 16, h: 16 }
    &&& slot.focused == focused
}

pub open spec fn slot_views(slots: Seq<PaneSlot>) -> Seq<PaneSlotView> {
    slots.map_values(|s: PaneSlot| s@)
}

// ---------------------------------------------------------------------------
// Computation
// ---------------------------------------------------------------------------

/// Computes every rect of the native UI for a surface of the given size.
pub fn compute(model: &UiModel, surface_w: i32, surface_h: i32) -> (layout: ViewLayout)
    requires
        compute_fits(*model, surface_w as int, surface_h as int),
    ensures
        layout.sidebar == (Rect { x: 0, y: 0, w: SIDEBAR_W, h: surface_h }),
        layout.tabbar == (Rect { x: SIDEBAR_W, y: 0, w: (surface_w - SIDEBAR_W) as i32, h: TABBAR_H }),
        layout.workspace_rows@.len() == model.workspaces@.len(),
        forall|i: int| 0 <= i < model.workspaces@.len() ==> row_is(
            #[trigger] layout.workspace_rows@[i],
            model.workspaces@[i].workspace_id@,
            sidebar_row_rect(workspace_row_y(i)),
            is_selected(model.active_workspace_id, model.workspaces@[i].workspace_id@),
        ),
        layout.agent_rows@.len() == model.agents@.len(),
        forall|j: int| 0 <= j < model.agents@.len() ==> row_is(
            #[trigger] layout.agent_rows@[j],
            model.agents@[j].terminal_id@,
            sidebar_row_rect(agent_row_y(model.workspaces@.len() as int, j)),
            is_selected(model.focused_pane_id, model.agents@[j].pane_id@),
        ),
        layout.new_workspace == (Rect {
            x: SIDEBAR_PAD,
            y: (surface_h - 38) as i32,
            w: (SIDEBAR_W - 2 * SIDEBAR_PAD) as i32,
            h: 28,
        }),
        shown_tab_count(surface_w as int, model.tabs@.len() as int, layout.tabs@.len() as int),
        forall|i: int| 0 <= i < layout.tabs@.len() ==> tab_is(
            #[trigger] layout.tabs@[i],
            model.tabs@[i].tab_id@,
            i,
            is_selected(model.active_tab_id, model.tabs@[i].tab_id@),
        ),
        layout.new_tab == new_tab_rect(surface_w as int, layout.tabs@.len() as int),
        layout.btn_close_pane == toolbar_button(surface_w as int, 1),
        layout.btn_settings == toolbar_button(surface_w as int, 2),
        layout.btn_split_down == toolbar_button(surface_w as int, 3),
        layout.btn_split_right == toolbar_button(surface_w as int, 4),
        slot_views(layout.panes@) == spec_pane_slots(*model, surface_w as int, surface_h as int),
        crate::native::chrome_arranged(layout, surface_w as int),
        crate::native::rows_arranged(layout),
{
    let sidebar = Rect::new(0, 0, SIDEBAR_W, surface_h);
    let tabbar = Rect::new(SIDEBAR_W, 0, surface_w - SIDEBAR_W, TABBAR_H);
    let content = Rect::new(SIDEBAR_W, TABBAR_H, surface_w - SIDEBAR_W, surface_h - TABBAR_H);

    let (workspace_rows, agent_rows, new_workspace) = layout_sidebar(model, surface_h);
    let (tabs, new_tab, buttons) = layout_tabbar(model, tabbar);
    let panes = layout_panes(model, content);
    ViewLayout {
        sidebar,
        tabbar,
        workspace_rows,
        agent_rows,
        new_workspace,
        tabs,
        new_tab,
        btn_split_right: buttons.3,
        btn_split_down: buttons.2,
        btn_settings: buttons.1,
        btn_close_pane: buttons.0,
        panes,
    }
}

fn layout_sidebar(model: &UiModel, surface_h: i32) -> (r: (Vec<RowSlot>, Vec<RowSlot>, Rect))
    requires
        i32::MIN + 38 <= surface_h,
        agent_row_y(model.workspaces@.len() as int, model.agents@.len() as int) <= i32::MAX,
    ensures
        r.0@.len() == model.workspaces@.len(),
        forall|i: int| 0 <= i < model.workspaces@.len() ==> row_is(
            #[trigger] r.0@[i],
            model.workspaces@[i].workspace_id@,
            sidebar_row_rect(workspace_row_y(i)),
            is_selected(model.active_workspace_id, model.workspaces@[i].workspace_id@),
        ),
        r.1@.len() == model.agents@.len(),
        forall|j: int| 0 <= j < model.agents@.len() ==> row_is(
            #[trigger] r.1@[j],
            model.agents@[j].terminal_id@,
            sidebar_row_rect(agent_row_y(model.workspaces@.len() as int, j)),
            is_selected(model.focused_pane_id, model.agents@[j].pane_id@),
        ),
        r.2 == (Rect {
            x: SIDEBAR_PAD,
            y: (surface_h - 38) as i32,
            w: (SIDEBAR_W - 2 * SIDEBAR_PAD) as i32,
            h: 28,
        }),
{
    let pad: i32 = SIDEBAR_PAD;
    let row_w: i32 = SIDEBAR_W - pad * 2;
    let mut y: i32 = FIRST_ROW_Y;
    let n_ws: usize = model.workspaces.len();
    let n_agents: usize = model.agents.len();
    let ghost last_y: int = agent_row_y(n_ws as int, n_agents as int);

    let mut workspace_rows: Vec<RowSlot> = Vec::new();
    let mut i: usize = 0;
    while i < n_ws
        invariant
            n_ws == model.workspaces@.len(),
            n_agents == model.agents@.len(),
            last_y == agent_row_y(n_ws as int, n_agents as int),
            last_y <= i32::MAX,
            pad == SIDEBAR_PAD,
            row_w == SIDEBAR_W - 2 * SIDEBAR_PAD,
            i <= n_ws,
            y == workspace_row_y(i as int),
            workspace_rows@.len() == i,
            forall|k: int| 0 <= k < i ==> row_is(
                #[trigger] workspace_rows@[k],
                model.workspaces@[k].workspace_id@,
                sidebar_row_rect(workspace_row_y(k)),
                is_selected(model.active_workspace_id, model.workspaces@[k].workspace_id@),
            ),
        decreases n_ws - i,
    {
        let ws = &model.workspaces[i];
        let focused = match &model.active_workspace_id {
            Some(active) => *active == ws.workspace_id,
            None => false,
        };
        let row = RowSlot { id: ws.workspace_id.clone(), rect: Rect::new(pad, y, row_w, ROW2_H), focused };
        assert(row_is(
            row,
            model.workspaces@[i as int].workspace_id@,
            sidebar_row_rect(workspace_row_y(i as int)),
            is_selected(model.active_workspace_id, model.workspaces@[i as int].workspace_id@),
        ));
        workspace_rows.push(row);
        y = y + ROW2_H + 2;
        i += 1;
    }

    // The agents section header sits below the workspaces; rows follow.
    y = y + AGENTS_HEADER_H;
    let mut agent_rows: Vec<RowSlot> = Vec::new();
    let mut j: usize = 0;
    while j < n_agents
        invariant
            n_ws == model.workspaces@.len(),
            n_agents == model.agents@.len(),
            last_y == agent_row_y(n_ws as int, n_agents as int),
            last_y <= i32::MAX,
            pad == SIDEBAR_PAD,
            row_w == SIDEBAR_W - 2 * SIDEBAR_PAD,
            j <= n_agents,
            y == agent_row_y(n_ws as int, j as int),
            agent_rows@.len() == j,
            forall|k: int| 0 <= k < j ==> row_is(
                #[trigger] agent_rows@[k],
                model.agents@[k].terminal_id@,
                sidebar_row_rect(agent_row_y(n_ws as int, k)),
                is_selected(model.focused_pane_id, model.agents@[k].pane_id@),
            ),
        decreases n_agents - j,
    {
        let agent = &model.agents[j];
        let focused = match &model.focused_pane_id {
            Some(focused_pane) => *focused_pane == agent.pane_id,
            None => false,
        };
        let row = RowSlot { id: agent.terminal_id.clone(), rect: Rect::new(pad, y, row_w, ROW2_H), focused };
        assert(row_is(
            row,
            model.agents@[j as int].terminal_id@,
            sidebar_row_rect(agent_row_y(n_ws as int, j as int)),
            is_selected(model.focused_pane_id, model.agents@[j as int].pane_id@),
        ));
        agent_rows.push(row);
        y = y + ROW2_H + 2;
        j += 1;
    }

    let new_workspace = Rect::new(pad, surface_h - 38, row_w, 28);
    (workspace_rows, agent_rows, new_workspace)
}

/// Lays out the tab strip and the right-aligned pane toolbar. The buttons
/// come back as close-pane, settings, split-down, split-right.
fn layout_tabbar(model: &UiModel, tabbar: Rect) -> (r: (Vec<TabSlot>, Rect, (Rect, Rect, Rect, Rect)))
    requires
        tabbar.x == SIDEBAR_W,
        i32::MIN + 242 <= tabbar.x + tabbar.w <= i32::MAX,
    ensures
        shown_tab_count(tabbar.x + tabbar.w, model.tabs@.len() as int, r.0@.len() as int),
        forall|i: int| 0 <= i < r.0@.len() ==> tab_is(
            #[trigger] r.0@[i],
            model.tabs@[i].tab_id@,
            i,
            is_selected(model.active_tab_id, model.tabs@[i].tab_id@),
        ),
        r.1 == new_tab_rect(tabbar.x + tabbar.w, r.0@.len() as int),
        r.2.0 == toolbar_button(tabbar.x + tabbar.w, 1),
        r.2.1 == toolbar_button(tabbar.x + tabbar.w, 2),
        r.2.2 == toolbar_button(tabbar.x + tabbar.w, 3),
        r.2.3 == toolbar_button(tabbar.x + tabbar.w, 4),
{
    let ghost surface_w: int = tabbar.x + tabbar.w;
    let mut x: i32 = SIDEBAR_W + 8;
    let tab_h: i32 = TABBAR_H - 10;
    let tab_y: i32 = 5;
    let right: i32 = tabbar.x + tabbar.w - 8;
    let tool_left: i32 = right - BTN_W * 4 - 8;
    let n: usize = model.tabs.len();
    let mut tabs: Vec<TabSlot> = Vec::new();
    let mut i: usize = 0;
    while i < n
        invariant_except_break
            i <= n,
        invariant
            n == model.tabs@.len(),
            tool_left == toolbar_left(surface_w),
            tool_left >= i32::MIN + 82,
            tab_h == TABBAR_H - 10,
            tab_y == 5,
            x == tab_x(i as int),
            i > 0 ==> tab_fits(surface_w, i - 1),
            surface_w <= i32::MAX,
            tabs@.len() == i,
            i <= n,
            forall|k: int| 0 <= k < i ==> tab_fits(surface_w, k),
            forall|k: int| 0 <= k < i ==> tab_is(
                #[trigger] tabs@[k],
                model.tabs@[k].tab_id@,
                k,
                is_selected(model.active_tab_id, model.tabs@[k].tab_id@),
            ),
        ensures
            i == n || !tab_fits(surface_w, i as int),
        decreases n - i,
    {
        if x + TAB_W > tool_left {
            break;
        }
        let tab = &model.tabs[i];
        let rect = Rect::new(x, tab_y, TAB_W, tab_h);
        let close = Rect::new(x + TAB_W - 22, tab_y + (tab_h - 16) / 2, 16, 16);
        let focused = match &model.active_tab_id {
            Some(active) => *active == tab.tab_id,
            None => false,
        };
        tabs.push(TabSlot { tab_id: tab.tab_id.clone(), rect, close, focused });
        x = x + TAB_W + 4;
        i += 1;
    }
    let mut new_tab = Rect::new(x, tab_y, tab_h, tab_h);
    if new_tab.x + new_tab.w > tool_left {
        new_tab = Rect::new(0, 0, 0, 0);
    }

    let close_pane = Rect::new(right - BTN_W, tab_y, BTN_W - 4, tab_h);
    let settings = Rect::new(right - BTN_W * 2, tab_y, BTN_W - 4, tab_h);
    let split_down = Rect::new(right - BTN_W * 3, tab_y, BTN_W - 4, tab_h);
    let split_right = Rect::new(right - BTN_W * 4, tab_y, BTN_W - 4, tab_h);
    (tabs, new_tab, (close_pane, settings, split_down, split_right))
}


/// The terminal id of the first of `active` whose pane id is `pane_id`, or
/// the empty id.
fn find_terminal(active: &Vec<&PaneInfo>, pane_id: &String) -> (t: String)
    ensures
        t@ == terminal_for(derefs(active@), pane_id@),
{
    let ghost panes = derefs(active@);
    let n: usize = active.len();
    let mut i: usize = 0;
    while i < n
        invariant
            n == active@.len(),
            panes == derefs(active@),
            i <= n,
            forall|j: int| 0 <= j < i ==> #[trigger] panes[j].pane_id@ != pane_id@,
        decreases n - i,
    {
        if active[i].pane_id == *pane_id {
            proof {
                assert(panes[i as int] == *active@[i as int]);
                assert(is_first_pane_with_id(panes, pane_id@, i as int));
                let c: int = choose|c: int| is_first_pane_with_id(panes, pane_id@, c);
                if c < i {
                    assert(panes[c].pane_id@ != pane_id@);
                }
                if i < c {
                    assert(panes[i as int].pane_id@ != pane_id@);
                }
            }
            return active[i].terminal_id.clone();
        }
        i += 1;
    }
    proof {
        if has_pane_with_id(panes, pane_id@) {
            let k: int = choose|k: int| 0 <= k < panes.len() && #[trigger] panes[k].pane_id@ == pane_id@;
            assert(panes[k].pane_id@ != pane_id@);
        }
    }
    String::new()
}

/// `d / a` of `w`, rounded half up.
fn scale_to(d: i64, w: i64, a: i64) -> (r: i64)
    requires
        0 <= d <= 0xFFFF,
        0 <= w <= i32::MAX,
        1 <= a <= 0xFFFF,
    ensures
        r == scale(d as int, w as int, a as int),
        0 <= r,
{
    proof {
        assert(0 <= 2 * d * w <= 2 * 0xFFFF * 0x7FFF_FFFF) by (nonlinear_arith)
            requires
                0 <= d <= 0xFFFF,
                0 <= w <= 0x7FFF_FFFF,
        ;
    }
    (2 * d * w + a) / (2 * a)
}

/// Appends the slot for `rect` unless it is too small to show its caption.
fn push_pane(panes: &mut Vec<PaneSlot>, pane_id: String, terminal_id: String, rect: Rect, focused: bool)
    requires
        (rect.w > 0 && rect.h > CAPTION_H) ==> rect.x + 1 <= i32::MAX && rect.y + CAPTION_H <= i32::MAX,
    ensures
        slot_views(final(panes)@) == if slot_kept(slot_view(pane_id@, terminal_id@, rect, focused)) {
            slot_views(old(panes)@).push(slot_view(pane_id@, terminal_id@, rect, focused))
        } else {
            slot_views(old(panes)@)
        },
{
    if rect.w <= 0 || rect.h <= CAPTION_H {
        return;
    }
    let content = Rect::new(rect.x + 1, rect.y + CAPTION_H, rect.w - 2, rect.h - CAPTION_H - 1);
    panes.push(PaneSlot { pane_id, terminal_id, rect, content, focused });
    proof {
        assert(slot_views(final(panes)@) =~= slot_views(old(panes)@).push(
            slot_view(pane_id@, terminal_id@, rect, focused),
        ));
    }
}

/// Lays out the active tab's panes inside `content`.
fn layout_panes(model: &UiModel, content: Rect) -> (panes: Vec<PaneSlot>)
    requires
        content == content_rect(content.x + content.w, content.y + content.h),
        compute_fits(*model, content.x + content.w, content.y + content.h),
    ensures
        slot_views(panes@) == spec_pane_slots(*model, content.x + content.w, content.y + content.h),
{
    let ghost surface_w: int = content.x + content.w;
    let ghost surface_h: int = content.y + content.h;
    let mut out: Vec<PaneSlot> = Vec::new();
    let active = model.active_panes();
    if active.len() == 0 {
        proof {
            assert(slot_views(out@) =~= Seq::<PaneSlotView>::empty());
        }
        return out;
    }
    let inner = content.inset(PANE_GAP);
    assert(inner == pane_area(surface_w, surface_h));

    if let Some(snapshot) = &model.layout {
        let area = snapshot.area;
        if area.width > 0 && area.height > 0 && snapshot.panes.len() > 0 {
            let ghost cands = snapshot.panes@.map_values(|p: LayoutPane| snapshot_slot(*model, inner, p));
            let n: usize = snapshot.panes.len();
            let mut k: usize = 0;
            while k < n
                invariant
                    n == snapshot.panes@.len(),
                    model.layout == Some(*snapshot),
                    area == snapshot.area,
                    area.width > 0,
                    area.height > 0,
                    snapshot_usable(*model),
                    inner == pane_area(surface_w, surface_h),
                    compute_fits(*model, surface_w, surface_h),
                    derefs(active@) == model.spec_active_panes(),
                    cands == snapshot.panes@.map_values(|p: LayoutPane| snapshot_slot(*model, inner, p)),
                    k <= n,
                    slot_views(out@) == cands.take(k as int).filter(|s: PaneSlotView| slot_kept(s)),
                decreases n - k,
            {
                let p = &snapshot.panes[k];
                let ghost v = snapshot_rect_values(*model, inner, *p);
                proof {
                    let _ = snapshot_rect_values(*model, inner, model.layout->0.panes@[k as int]);
                }
                let dx: i64 = if p.rect.x >= area.x { (p.rect.x - area.x) as i64 } else { 0 };
                let dy: i64 = if p.rect.y >= area.y { (p.rect.y - area.y) as i64 } else { 0 };
                let rect = Rect::new(
                    (inner.x as i64 + scale_to(dx, inner.w as i64, area.width as i64)) as i32,
                    (inner.y as i64 + scale_to(dy, inner.h as i64, area.height as i64)) as i32,
                    (scale_to(p.rect.width as i64, inner.w as i64, area.width as i64) - PANE_GAP as i64) as i32,
                    (scale_to(p.rect.height as i64, inner.h as i64, area.height as i64) - PANE_GAP as i64) as i32,
                );
                let terminal_id = find_terminal(&active, &p.pane_id);
                let focused = p.focused || match &model.focused_pane_id {
                    Some(f) => *f == p.pane_id,
                    None => false,
                };
                push_pane(&mut out, p.pane_id.clone(), terminal_id, rect, focused);
                proof {
                    reveal_with_fuel(Seq::<_>::filter, 1);
                    assert(cands.take(k + 1).drop_last() =~= cands.take(k as int));
                    assert(cands[k as int] == snapshot_slot(*model, inner, *p));
                }
                k += 1;
            }
            proof {
                assert(cands.take(n as int) =~= cands);
            }
            return out;
        }
    }

    // Fallback: stack panes evenly when no usable layout snapshot exists.
    let n: usize = active.len();
    let n32: i32 = n as i32;
    let cell_h: i32 = inner.h / n32;
    let ghost act = model.spec_active_panes();
    let ghost cands = act.map(|i: int, p: PaneInfo| stacked_slot(*model, inner, p, i, act.len() as int));
    let mut i: usize = 0;
    while i < n
        invariant
            n == active@.len(),
            n32 == n,
            n > 0,
            act == model.spec_active_panes(),
            derefs(active@) == act,
            !snapshot_usable(*model),
            inner == pane_area(surface_w, surface_h),
            compute_fits(*model, surface_w, surface_h),
            cell_h == inner.h / n32,
            cands == act.map(|i: int, p: PaneInfo| stacked_slot(*model, inner, p, i, act.len() as int)),
            i <= n,
            slot_views(out@) == cands.take(i as int).filter(|s: PaneSlotView| slot_kept(s)),
        decreases n - i,
    {
        let pane = active[i];
        proof {
            assert(act[i as int] == *active@[i as int]);
            assert(0 <= i * cell_h <= inner.h) by (nonlinear_arith)
                requires
                    0 <= i < n,
                    cell_h == (inner.h as int) / (n as int),
                    inner.h >= 0,
                    n > 0,
            ;
        }
        let rect = Rect::new(inner.x, inner.y + (i as i32) * cell_h, inner.w, cell_h - PANE_GAP);
        let focused = match &model.focused_pane_id {
            Some(f) => *f == pane.pane_id,
            None => false,
        };
        proof {
            if rect.w > 0 && rect.h > CAPTION_H {
                assert(i * cell_h + cell_h <= inner.h) by (nonlinear_arith)
                    requires
                        0 <= i < n,
                        cell_h == (inner.h as int) / (n as int),
                        inner.h >= 0,
                        n > 0,
                ;
            }
        }
        push_pane(&mut out, pane.pane_id.clone(), pane.terminal_id.clone(), rect, focused);
        proof {
            reveal_with_fuel(Seq::<_>::filter, 1);
            assert(cands.take(i + 1).drop_last() =~= cands.take(i as int));
            assert(cands[i as int] == stacked_slot(*model, inner, act[i as int], i as int, n as int));
        }
        i += 1;
    }
    proof {
        assert(cands.take(n as int) =~= cands);
    }
    out
}

/// Sidebar rows stack top to bottom without overlapping: each workspace
/// row ends above the next one starts, and every agent row lies below
/// every workspace row and above the next agent row.
pub proof fn lemma_sidebar_rows_stack(n_workspaces: int, i: int, j: int)
    requires
        0 <= i < j,
        n_workspaces >= 0,
    ensures
        workspace_row_y(i) + ROW2_H < workspace_row_y(j),
        agent_row_y(n_workspaces, i) + ROW2_H < agent_row_y(n_workspaces, j),
        i < n_workspaces ==> workspace_row_y(i) + ROW2_H < agent_row_y(n_workspaces, 0),
{
    assert(i * (ROW2_H + 2) + (ROW2_H + 2) <= j * (ROW2_H + 2)) by (nonlinear_arith)
        requires
            0 <= i < j,
    ;
    if i < n_workspaces {
        assert(i * (ROW2_H + 2) + (ROW2_H + 2) <= n_workspaces * (ROW2_H + 2)) by (nonlinear_arith)
            requires
                0 <= i < n_workspaces,
        ;
    }
}

/// Tabs stop before the toolbar: every shown tab ends left of the toolbar,
/// clear of all four toolbar buttons.
pub proof fn lemma_tabs_clear_toolbar(surface_w: int, n: int, count: int, i: int, k: int)
    requires
        shown_tab_count(surface_w, n, count),
        surface_w <= i32::MAX,
        0 <= i < count,
        1 <= k <= 4,
    ensures
        tab_x(i) + TAB_W <= toolbar_left(surface_w),
        tab_x(i) + TAB_W < toolbar_button(surface_w, k).x,
{
    assert(tab_fits(surface_w, i));
}

} // verus!
