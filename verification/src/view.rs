//! What the native chrome paints, as an ordered list of paint operations.
//!
//! Each chrome part (sidebar, tab bar, pane captions and borders, the
//! settings popup) becomes a list of [`Paint`]s: fills, outlines, status
//! dots, text runs and single glyphs, in the order they are drawn. Text
//! and glyphs are rasterized by whoever carries the list out; everything
//! this module decides (what is drawn, where, in which color, with which
//! label) is stated over [`PaintView`], the list's mathematical value.

use vstd::prelude::*;
use crate::args::str_eq;
use crate::chrome::{
    caption_label, selection_rects, selection_rects_fit, spec_caption_label, spec_selection_rects, spec_status_color,
    spec_status_text, status_color, status_text, Highlight,
};
use crate::selection::spec_ordered;
use crate::color::Rgb;
use crate::draw::{spec_truncate_cells, truncate_cells};
use crate::font::Style;
use crate::layout::{fits_i32, PaneSlot, Rect, RowSlot, TabSlot, ViewLayout, CAPTION_H};
use crate::model::UiModel;
use crate::schema::{AgentInfo, PaneInfo, TabInfo, WorkspaceInfo};
use crate::selection::push_char;
use crate::settings::{div_trunc, font_size_choice, font_size_choices, settings_fits, spec_settings_layout, SettingsOverlay, SettingsSection};
use crate::theme::ChromePalette;

verus! {

/// One drawing operation of the chrome.
#[derive(Debug)]
pub enum Paint {
    /// Sets every pixel of the surface.
    Clear { color: Rgb },
    /// Fills the part of a rect that lies on the surface.
    Fill { rect: Rect, color: Rgb },
    /// Blends a color over a rect with a fixed coverage.
    FillAlpha { rect: Rect, color: Rgb, alpha: u8 },
    /// Outlines a rect with `Canvas::stroke_rect`, passing `thickness` on.
    Stroke { rect: Rect, thickness: i32, color: Rgb },
    /// A filled disc.
    Dot { cx: i32, cy: i32, radius: i32, color: Rgb },
    /// A left-aligned text run from `(x, y)`, one cell per character,
    /// stopping before it would pass `max_x`.
    Text { x: i32, y: i32, text: String, style: Style, color: Rgb, max_x: i32 },
    /// One glyph in the cell whose top-left corner is `(x, y)`.
    Glyph { x: i32, y: i32, ch: char, style: Style, color: Rgb },
    /// The terminal content of pane slot `slot` of the layout.
    PaneContent { slot: usize },
}

/// The mathematical value of a [`Paint`]: text runs as character sequences.
pub enum PaintView {
    Clear { color: Rgb },
    Fill { rect: Rect, color: Rgb },
    FillAlpha { rect: Rect, color: Rgb, alpha: u8 },
    Stroke { rect: Rect, thickness: i32, color: Rgb },
    Dot { cx: i32, cy: i32, radius: i32, color: Rgb },
    Text { x: i32, y: i32, text: Seq<char>, style: Style, color: Rgb, max_x: i32 },
    Glyph { x: i32, y: i32, ch: char, style: Style, color: Rgb },
    PaneContent { slot: usize },
}

impl View for Paint {
    type V = PaintView;

    open spec fn view(&self) -> PaintView {
        match self {
            Paint::Clear { color } => PaintView::Clear { color: *color },
            Paint::Fill { rect, color } => PaintView::Fill { rect: *rect, color: *color },
            Paint::FillAlpha { rect, color, alpha } => PaintView::FillAlpha { rect: *rect, color: *color, alpha: *alpha },
            Paint::Stroke { rect, thickness, color } => PaintView::Stroke {
                rect: *rect,
                thickness: *thickness,
                color: *color,
            },
            Paint::Dot { cx, cy, radius, color } => PaintView::Dot { cx: *cx, cy: *cy, radius: *radius, color: *color },
            Paint::Text { x, y, text, style, color, max_x } => PaintView::Text {
                x: *x,
                y: *y,
                text: text@,
                style: *style,
                color: *color,
                max_x: *max_x,
            },
            Paint::Glyph { x, y, ch, style, color } => PaintView::Glyph {
                x: *x,
                y: *y,
                ch: *ch,
                style: *style,
                color: *color,
            },
            Paint::PaneContent { slot } => PaintView::PaneContent { slot: *slot },
        }
    }
}

/// The values of a list of paints.
pub open spec fn paints_view(ps: Seq<Paint>) -> Seq<PaintView> {
    ps.map_values(|p: Paint| p@)
}

/// Appends one paint.
fn emit(ops: &mut Vec<Paint>, p: Paint)
    ensures
        paints_view(final(ops)@) == paints_view(old(ops)@).push(p@),
{
    let ghost v = p@;
    ops.push(p);
    assert(paints_view(ops@) =~= paints_view(old(ops)@).push(v));
}

/// Appends a list of paints.
fn emit_all(ops: &mut Vec<Paint>, more: Vec<Paint>)
    ensures
        paints_view(final(ops)@) == paints_view(old(ops)@) + paints_view(more@),
{
    let ghost m = more@;
    let mut more = more;
    ops.append(&mut more);
    assert(paints_view(ops@) =~= paints_view(old(ops)@) + paints_view(m));
}

/// The rect `(x, y, w, h)`.
pub open spec fn rect(x: int, y: int, w: int, h: int) -> Rect {
    Rect { x: x as i32, y: y as i32, w: w as i32, h: h as i32 }
}

/// The first element of `s` whose key is `id`.
pub open spec fn find_by<T>(s: Seq<T>, key: spec_fn(T) -> Seq<char>, id: Seq<char>) -> Option<T>
    decreases s.len(),
{
    if s.len() == 0 {
        None
    } else if key(s[0]) == id {
        Some(s[0])
    } else {
        find_by(s.drop_first(), key, id)
    }
}

/// The first match at or after `i` is the first match of the suffix from
/// `i`; a mismatch at `i` moves it on by one.
proof fn lemma_find_step<T>(s: Seq<T>, key: spec_fn(T) -> Seq<char>, id: Seq<char>, i: int)
    requires
        0 <= i < s.len(),
    ensures
        key(s[i]) == id ==> find_by(s.subrange(i, s.len() as int), key, id) == Some(s[i]),
        key(s[i]) != id ==> find_by(s.subrange(i, s.len() as int), key, id) == find_by(
            s.subrange(i + 1, s.len() as int),
            key,
            id,
        ),
{
    assert(s.subrange(i, s.len() as int).drop_first() =~= s.subrange(i + 1, s.len() as int));
}

pub open spec fn workspace_key() -> spec_fn(WorkspaceInfo) -> Seq<char> {
    |w: WorkspaceInfo| w.workspace_id@
}

pub open spec fn agent_key() -> spec_fn(AgentInfo) -> Seq<char> {
    |a: AgentInfo| a.terminal_id@
}

pub open spec fn tab_key() -> spec_fn(TabInfo) -> Seq<char> {
    |t: TabInfo| t.tab_id@
}

pub open spec fn pane_key() -> spec_fn(PaneInfo) -> Seq<char> {
    |p: PaneInfo| p.pane_id@
}

/// The first workspace with id `id`.
pub fn workspace_by_id<'a>(s: &'a Vec<WorkspaceInfo>, id: &str) -> (r: Option<&'a WorkspaceInfo>)
    ensures
        find_by(s@, workspace_key(), id@) == match r {
            Some(x) => Some(*x),
            None => None,
        },
{
    let n: usize = s.len();
    let mut i: usize = 0;
    proof {
        assert(s@.subrange(0, n as int) =~= s@);
    }
    while i < n
        invariant
            n == s@.len(),
            i <= n,
            find_by(s@, workspace_key(), id@) == find_by(s@.subrange(i as int, n as int), workspace_key(), id@),
        decreases n - i,
    {
        proof {
            lemma_find_step(s@, workspace_key(), id@, i as int);
        }
        if str_eq(s[i].workspace_id.as_str(), id) {
            return Some(&s[i]);
        }
        i += 1;
    }
    proof {
        assert(s@.subrange(n as int, n as int).len() == 0);
    }
    None
}

/// The first agent on terminal `id`.
pub fn agent_by_terminal<'a>(s: &'a Vec<AgentInfo>, id: &str) -> (r: Option<&'a AgentInfo>)
    ensures
        find_by(s@, agent_key(), id@) == match r {
            Some(x) => Some(*x),
            None => None,
        },
{
    let n: usize = s.len();
    let mut i: usize = 0;
    proof {
        assert(s@.subrange(0, n as int) =~= s@);
    }
    while i < n
        invariant
            n == s@.len(),
            i <= n,
            find_by(s@, agent_key(), id@) == find_by(s@.subrange(i as int, n as int), agent_key(), id@),
        decreases n - i,
    {
        proof {
            lemma_find_step(s@, agent_key(), id@, i as int);
        }
        if str_eq(s[i].terminal_id.as_str(), id) {
            return Some(&s[i]);
        }
        i += 1;
    }
    proof {
        assert(s@.subrange(n as int, n as int).len() == 0);
    }
    None
}

/// The first tab with id `id`.
pub fn tab_by_id<'a>(s: &'a Vec<TabInfo>, id: &str) -> (r: Option<&'a TabInfo>)
    ensures
        find_by(s@, tab_key(), id@) == match r {
            Some(x) => Some(*x),
            None => None,
        },
{
    let n: usize = s.len();
    let mut i: usize = 0;
    proof {
        assert(s@.subrange(0, n as int) =~= s@);
    }
    while i < n
        invariant
            n == s@.len(),
            i <= n,
            find_by(s@, tab_key(), id@) == find_by(s@.subrange(i as int, n as int), tab_key(), id@),
        decreases n - i,
    {
        proof {
            lemma_find_step(s@, tab_key(), id@, i as int);
        }
        if str_eq(s[i].tab_id.as_str(), id) {
            return Some(&s[i]);
        }
        i += 1;
    }
    proof {
        assert(s@.subrange(n as int, n as int).len() == 0);
    }
    None
}

/// The first pane with id `id`.
pub fn pane_by_id<'a>(s: &'a Vec<PaneInfo>, id: &str) -> (r: Option<&'a PaneInfo>)
    ensures
        find_by(s@, pane_key(), id@) == match r {
            Some(x) => Some(*x),
            None => None,
        },
{
    let n: usize = s.len();
    let mut i: usize = 0;
    proof {
        assert(s@.subrange(0, n as int) =~= s@);
    }
    while i < n
        invariant
            n == s@.len(),
            i <= n,
            find_by(s@, pane_key(), id@) == find_by(s@.subrange(i as int, n as int), pane_key(), id@),
        decreases n - i,
    {
        proof {
            lemma_find_step(s@, pane_key(), id@, i as int);
        }
        if str_eq(s[i].pane_id.as_str(), id) {
            return Some(&s[i]);
        }
        i += 1;
    }
    proof {
        assert(s@.subrange(n as int, n as int).len() == 0);
    }
    None
}

/// The character of decimal digit `d`.
pub open spec fn digit_char(d: int) -> char {
    if d == 0 {
        '0'
    } else if d == 1 {
        '1'
    } else if d == 2 {
        '2'
    } else if d == 3 {
        '3'
    } else if d == 4 {
        '4'
    } else if d == 5 {
        '5'
    } else if d == 6 {
        '6'
    } else if d == 7 {
        '7'
    } else if d == 8 {
        '8'
    } else {
        '9'
    }
}

/// The decimal digits of `n`, most significant first, without leading
/// zeros (`0` is `"0"`).
pub open spec fn spec_decimal(n: nat) -> Seq<char>
    decreases n,
{
    if n < 10 {
        seq![digit_char(n as int)]
    } else {
        spec_decimal(n / 10).push(digit_char((n % 10) as int))
    }
}

/// The decimal digit character of `d`.
pub(crate) fn digit(d: u32) -> (c: char)
    requires
        d < 10,
    ensures
        c == digit_char(d as int),
{
    match d {
        0 => '0',
        1 => '1',
        2 => '2',
        3 => '3',
        4 => '4',
        5 => '5',
        6 => '6',
        7 => '7',
        8 => '8',
        _ => '9',
    }
}

/// `n` written in decimal.
pub fn decimal_string(n: u32) -> (s: String)
    ensures
        s@ == spec_decimal(n as nat),
    decreases n,
{
    let c = digit(n % 10);
    let mut s = if n < 10 { String::new() } else { decimal_string(n / 10) };
    push_char(&mut s, c);
    proof {
        if n < 10 {
            assert(s@ =~= seq![digit_char(n as int)]);
        }
    }
    s
}

/// `a`, a middle dot between spaces, then `b`.
pub open spec fn dotted(a: Seq<char>, b: Seq<char>) -> Seq<char> {
    a + " · "@ + b
}

/// `a · b` as a string.
pub fn join_dotted(a: &str, b: &str) -> (s: String)
    ensures
        s@ == dotted(a@, b@),
{
    let mut s = String::from_str(a);
    let sep = " · ";
    s.append(sep);
    s.append(b);
    s
}

/// Cell metrics of a chrome font: positive.
pub open spec fn cell_metrics_ok(cell_w: int, cell_h: int) -> bool {
    cell_w >= 1 && cell_h >= 1
}

/// The top of a one-line label centered vertically in `r` is a valid
/// coordinate, and so is the slack it is computed from.
pub open spec fn centered_y_fits(r: Rect, cell_h: int) -> bool {
    fits_i32(r.h - cell_h) && fits_i32(r.y + div_trunc(r.h - cell_h, 2))
}

/// The left of a glyph centered horizontally in `r` is a valid coordinate,
/// and so is the slack it is computed from.
pub open spec fn centered_x_fits(r: Rect, cell_w: int) -> bool {
    fits_i32(r.w - cell_w) && fits_i32(r.x + div_trunc(r.w - cell_w, 2))
}

/// How many cells of `cell_w` pixels fit in `w` pixels less `pad`, at
/// least one; the division truncates toward zero.
pub open spec fn cells_for(w: int, pad: int, cell_w: int) -> int {
    let c = div_trunc(w - pad, cell_w);
    if c > 1 { c } else { 1 }
}

fn cells_for_exec(w: i32, pad: i32, cell_w: i32) -> (c: usize)
    requires
        i32::MIN <= w - pad,
        0 <= pad <= 100,
        cell_w >= 1,
    ensures
        c as int == cells_for(w as int, pad as int, cell_w as int),
{
    let q: i32 = (w - pad) / cell_w;
    if q > 1 { q as usize } else { 1 }
}

/// A text run paint.
pub open spec fn text_paint(x: int, y: int, text: Seq<char>, style: Style, color: Rgb, max_x: int) -> PaintView {
    PaintView::Text { x: x as i32, y: y as i32, text, style, color, max_x: max_x as i32 }
}

/// A fill paint.
pub open spec fn fill_paint(r: Rect, color: Rgb) -> PaintView {
    PaintView::Fill { rect: r, color }
}

/// The focus highlight of a sidebar row: a surface fill and an accent bar
/// on its left edge.
pub open spec fn row_highlight(pal: ChromePalette, row: RowSlot) -> Seq<PaintView> {
    let r = row.rect;
    if row.focused {
        seq![fill_paint(r, pal.surface0), fill_paint(rect(r.x as int, r.y as int, 3, r.h as int), pal.accent)]
    } else {
        seq![]
    }
}

/// A workspace row of the sidebar: its highlight, status dot and label,
/// then its branch (if non-empty) or else its worktree repo on a second
/// line.
pub open spec fn workspace_row_paints(
    pal: ChromePalette,
    row: RowSlot,
    ws: WorkspaceInfo,
    cell_w: int,
    cell_h: int,
    label_max: int,
) -> Seq<PaintView> {
    let r = row.rect;
    let line1 = r.y + 6;
    let line2 = line1 + cell_h + 2;
    let cells = cells_for(r.w as int, 30, cell_w);
    let fg = if row.focused { pal.text } else { pal.subtext };
    let sub: Seq<PaintView> = if ws.branch is Some && ws.branch->Some_0@.len() > 0 {
        seq![text_paint(r.x + 26, line2, spec_truncate_cells(ws.branch->Some_0@, cells), Style::Regular, pal.overlay, label_max)]
    } else if ws.worktree_repo is Some {
        seq![text_paint(r.x + 26, line2, spec_truncate_cells(ws.worktree_repo->Some_0@, cells), Style::Regular, pal.overlay, label_max)]
    } else {
        seq![]
    };
    row_highlight(pal, row) + seq![
        PaintView::Dot {
            cx: (r.x + 14) as i32,
            cy: (line1 + cell_h / 2) as i32,
            radius: 4,
            color: spec_status_color(pal, ws.agent_status),
        },
        text_paint(r.x + 26, line1, spec_truncate_cells(ws.label@, cells), Style::Bold, fg, label_max),
    ] + sub
}

/// The paints of the first `n` workspace rows, skipping rows whose
/// workspace is unknown.
pub open spec fn workspace_rows_paints(
    pal: ChromePalette,
    wss: Seq<WorkspaceInfo>,
    rows: Seq<RowSlot>,
    cell_w: int,
    cell_h: int,
    label_max: int,
    n: nat,
) -> Seq<PaintView>
    decreases n,
{
    if n == 0 {
        seq![]
    } else {
        let prev = workspace_rows_paints(pal, wss, rows, cell_w, cell_h, label_max, (n - 1) as nat);
        let row = rows[n - 1];
        match find_by(wss, workspace_key(), row.id@) {
            Some(ws) => prev + workspace_row_paints(pal, row, ws, cell_w, cell_h, label_max),
            None => prev,
        }
    }
}

/// The title of an agent row: its workspace's label and number, or the
/// workspace id when the workspace is unknown.
pub open spec fn agent_title(wss: Seq<WorkspaceInfo>, agent: AgentInfo) -> Seq<char> {
    match find_by(wss, workspace_key(), agent.workspace_id@) {
        Some(ws) => dotted(ws.label@, spec_decimal(ws.number as nat)),
        None => agent.workspace_id@,
    }
}

/// The name an agent row shows: its name, else the displayed agent, else
/// the agent, else `agent`.
pub open spec fn agent_name(agent: AgentInfo) -> Seq<char> {
    match agent.name {
        Some(n) => n@,
        None => match agent.display_agent {
            Some(d) => d@,
            None => match agent.agent {
                Some(a) => a@,
                None => "agent"@,
            },
        },
    }
}

/// An agent row of the sidebar: its highlight, status dot, title, and a
/// second line with the status word and the agent's name in the status
/// color.
pub open spec fn agent_row_paints(
    pal: ChromePalette,
    row: RowSlot,
    agent: AgentInfo,
    wss: Seq<WorkspaceInfo>,
    cell_w: int,
    cell_h: int,
    label_max: int,
) -> Seq<PaintView> {
    let r = row.rect;
    let line1 = r.y + 6;
    let line2 = line1 + cell_h + 2;
    let cells = cells_for(r.w as int, 30, cell_w);
    let fg = if row.focused { pal.text } else { pal.subtext };
    let status = spec_status_color(pal, agent.agent_status);
    row_highlight(pal, row) + seq![
        PaintView::Dot { cx: (r.x + 14) as i32, cy: (line1 + cell_h / 2) as i32, radius: 4, color: status },
        text_paint(r.x + 26, line1, spec_truncate_cells(agent_title(wss, agent), cells), Style::Bold, fg, label_max),
        text_paint(
            r.x + 26,
            line2,
            spec_truncate_cells(dotted(spec_status_text(agent.agent_status), agent_name(agent)), cells),
            Style::Regular,
            status,
            label_max,
        ),
    ]
}

/// The paints of the first `n` agent rows, skipping rows whose agent is
/// unknown.
pub open spec fn agent_rows_paints(
    pal: ChromePalette,
    model: UiModel,
    rows: Seq<RowSlot>,
    cell_w: int,
    cell_h: int,
    label_max: int,
    n: nat,
) -> Seq<PaintView>
    decreases n,
{
    if n == 0 {
        seq![]
    } else {
        let prev = agent_rows_paints(pal, model, rows, cell_w, cell_h, label_max, (n - 1) as nat);
        let row = rows[n - 1];
        match find_by(model.agents@, agent_key(), row.id@) {
            Some(agent) => prev + agent_row_paints(pal, row, agent, model.workspaces@, cell_w, cell_h, label_max),
            None => prev,
        }
    }
}

/// The sidebar: its background and right border, the `SPACES` header, the
/// workspace rows, the `AGENTS` header above the first agent row, the
/// agent rows, and the new-space button.
pub open spec fn spec_sidebar_paints(
    pal: ChromePalette,
    model: UiModel,
    layout: ViewLayout,
    cell_w: int,
    cell_h: int,
) -> Seq<PaintView> {
    let sb = layout.sidebar;
    let label_max = sb.x + sb.w - 10;
    let head = seq![
        fill_paint(sb, pal.mantle),
        fill_paint(rect(sb.x + sb.w - 1, sb.y as int, 1, sb.h as int), pal.crust),
        text_paint(10, 10, "SPACES"@, Style::Bold, pal.overlay, label_max),
    ];
    let ws_rows = workspace_rows_paints(
        pal,
        model.workspaces@,
        layout.workspace_rows@,
        cell_w,
        cell_h,
        label_max,
        layout.workspace_rows@.len(),
    );
    let agents_head = if layout.agent_rows@.len() > 0 {
        seq![text_paint(10, layout.agent_rows@[0].rect.y - 24, "AGENTS"@, Style::Bold, pal.overlay, label_max)]
    } else {
        seq![]
    };
    let agent_rows = agent_rows_paints(pal, model, layout.agent_rows@, cell_w, cell_h, label_max, layout.agent_rows@.len());
    let nw = layout.new_workspace;
    let tail = seq![
        fill_paint(nw, pal.surface0),
        text_paint(nw.x + 10, nw.y + div_trunc(nw.h - cell_h, 2), "+ new space"@, Style::Regular, pal.text, nw.x + nw.w),
    ];
    head + ws_rows + agents_head + agent_rows + tail
}

/// The coordinates a sidebar row paints at are valid: its label column,
/// its second line, and the width left for its labels.
pub open spec fn row_fits(r: Rect, cell_h: int) -> bool {
    &&& r.x + 26 <= i32::MAX
    &&& r.y + 8 + cell_h <= i32::MAX
    &&& i32::MIN <= r.w - 30
}

/// Every coordinate the sidebar paints at is a valid `i32`, with positive
/// cell metrics.
pub open spec fn sidebar_fits(layout: ViewLayout, cell_w: int, cell_h: int) -> bool {
    let sb = layout.sidebar;
    let nw = layout.new_workspace;
    &&& cell_metrics_ok(cell_w, cell_h)
    &&& i32::MIN + 10 <= sb.x + sb.w <= i32::MAX
    &&& forall|i: int| 0 <= i < layout.workspace_rows@.len() ==> row_fits(#[trigger] layout.workspace_rows@[i].rect, cell_h)
    &&& forall|i: int| 0 <= i < layout.agent_rows@.len() ==> row_fits(#[trigger] layout.agent_rows@[i].rect, cell_h)
    &&& layout.agent_rows@.len() > 0 ==> i32::MIN + 24 <= layout.agent_rows@[0].rect.y
    &&& nw.x + 10 <= i32::MAX
    &&& centered_y_fits(nw, cell_h)
    &&& fits_i32(nw.x + nw.w)
}

fn row_highlight_exec(ops: &mut Vec<Paint>, pal: &ChromePalette, row: &RowSlot)
    ensures
        paints_view(final(ops)@) == paints_view(old(ops)@) + row_highlight(*pal, *row),
{
    let r = row.rect;
    if row.focused {
        emit(ops, Paint::Fill { rect: r, color: pal.surface0 });
        emit(ops, Paint::Fill { rect: Rect::new(r.x, r.y, 3, r.h), color: pal.accent });
    }
    assert(paints_view(ops@) =~= paints_view(old(ops)@) + row_highlight(*pal, *row));
}

fn workspace_row(pal: &ChromePalette, row: &RowSlot, ws: &WorkspaceInfo, cell_w: i32, cell_h: i32, label_max: i32) -> (ops: Vec<Paint>)
    requires
        row_fits(row.rect, cell_h as int),
        cell_metrics_ok(cell_w as int, cell_h as int),
    ensures
        paints_view(ops@) == workspace_row_paints(*pal, *row, *ws, cell_w as int, cell_h as int, label_max as int),
{
    let mut ops: Vec<Paint> = Vec::new();
    row_highlight_exec(&mut ops, pal, row);
    let r = row.rect;
    let line1: i32 = r.y + 6;
    let line2: i32 = line1 + cell_h + 2;
    let cells = cells_for_exec(r.w, 30, cell_w);
    let fg = if row.focused { pal.text } else { pal.subtext };
    emit(&mut ops, Paint::Dot { cx: r.x + 14, cy: line1 + cell_h / 2, radius: 4, color: status_color(pal, ws.agent_status) });
    emit(&mut ops, Paint::Text {
        x: r.x + 26,
        y: line1,
        text: truncate_cells(ws.label.as_str(), cells),
        style: Style::Bold,
        color: fg,
        max_x: label_max,
    });
    let mut shown_branch = false;
    if let Some(branch) = &ws.branch {
        if branch.as_str().unicode_len() > 0 {
            emit(&mut ops, Paint::Text {
                x: r.x + 26,
                y: line2,
                text: truncate_cells(branch.as_str(), cells),
                style: Style::Regular,
                color: pal.overlay,
                max_x: label_max,
            });
            shown_branch = true;
        }
    }
    if !shown_branch {
        if let Some(repo) = &ws.worktree_repo {
            emit(&mut ops, Paint::Text {
                x: r.x + 26,
                y: line2,
                text: truncate_cells(repo.as_str(), cells),
                style: Style::Regular,
                color: pal.overlay,
                max_x: label_max,
            });
        }
    }
    assert(paints_view(ops@) =~= workspace_row_paints(*pal, *row, *ws, cell_w as int, cell_h as int, label_max as int));
    ops
}

/// The name an agent row shows.
fn agent_name_exec(agent: &AgentInfo) -> (s: &str)
    ensures
        s@ == agent_name(*agent),
{
    if let Some(n) = &agent.name {
        return n.as_str();
    }
    if let Some(d) = &agent.display_agent {
        return d.as_str();
    }
    if let Some(a) = &agent.agent {
        return a.as_str();
    }
    "agent"
}

fn agent_row(
    pal: &ChromePalette,
    row: &RowSlot,
    agent: &AgentInfo,
    wss: &Vec<WorkspaceInfo>,
    cell_w: i32,
    cell_h: i32,
    label_max: i32,
) -> (ops: Vec<Paint>)
    requires
        row_fits(row.rect, cell_h as int),
        cell_metrics_ok(cell_w as int, cell_h as int),
    ensures
        paints_view(ops@) == agent_row_paints(*pal, *row, *agent, wss@, cell_w as int, cell_h as int, label_max as int),
{
    let mut ops: Vec<Paint> = Vec::new();
    row_highlight_exec(&mut ops, pal, row);
    let r = row.rect;
    let line1: i32 = r.y + 6;
    let line2: i32 = line1 + cell_h + 2;
    let status = status_color(pal, agent.agent_status);
    emit(&mut ops, Paint::Dot { cx: r.x + 14, cy: line1 + cell_h / 2, radius: 4, color: status });
    let title = match workspace_by_id(wss, agent.workspace_id.as_str()) {
        Some(ws) => {
            let number = decimal_string(ws.number);
            join_dotted(ws.label.as_str(), number.as_str())
        },
        None => agent.workspace_id.clone(),
    };
    let cells = cells_for_exec(r.w, 30, cell_w);
    let fg = if row.focused { pal.text } else { pal.subtext };
    emit(&mut ops, Paint::Text {
        x: r.x + 26,
        y: line1,
        text: truncate_cells(title.as_str(), cells),
        style: Style::Bold,
        color: fg,
        max_x: label_max,
    });
    let detail = join_dotted(status_text(agent.agent_status), agent_name_exec(agent));
    emit(&mut ops, Paint::Text {
        x: r.x + 26,
        y: line2,
        text: truncate_cells(detail.as_str(), cells),
        style: Style::Regular,
        color: status,
        max_x: label_max,
    });
    assert(paints_view(ops@) =~= agent_row_paints(*pal, *row, *agent, wss@, cell_w as int, cell_h as int, label_max as int));
    ops
}

/// Paints the sidebar: background, headers, workspace and agent rows, and
/// the new-space button.
pub fn sidebar_paints(palette: &ChromePalette, model: &UiModel, layout: &ViewLayout, cell_w: i32, cell_h: i32) -> (ops: Vec<Paint>)
    requires
        sidebar_fits(*layout, cell_w as int, cell_h as int),
    ensures
        paints_view(ops@) == spec_sidebar_paints(*palette, *model, *layout, cell_w as int, cell_h as int),
{
    let ghost pal = *palette;
    let ghost cw = cell_w as int;
    let ghost ch = cell_h as int;
    let mut ops: Vec<Paint> = Vec::new();
    let sb = layout.sidebar;
    let label_max: i32 = sb.x + sb.w - 10;
    emit(&mut ops, Paint::Fill { rect: sb, color: palette.mantle });
    emit(&mut ops, Paint::Fill { rect: Rect::new(sb.x + sb.w - 1, sb.y, 1, sb.h), color: palette.crust });
    emit(&mut ops, Paint::Text {
        x: 10,
        y: 10,
        text: String::from_str("SPACES"),
        style: Style::Bold,
        color: palette.overlay,
        max_x: label_max,
    });
    let ghost head = paints_view(ops@);
    let n: usize = layout.workspace_rows.len();
    let mut i: usize = 0;
    while i < n
        invariant
            sidebar_fits(*layout, cw, ch),
            cw == cell_w,
            ch == cell_h,
            pal == *palette,
            n == layout.workspace_rows@.len(),
            i <= n,
            label_max == layout.sidebar.x + layout.sidebar.w - 10,
            paints_view(ops@) == head + workspace_rows_paints(
                pal,
                model.workspaces@,
                layout.workspace_rows@,
                cw,
                ch,
                label_max as int,
                i as nat,
            ),
        decreases n - i,
    {
        let row = &layout.workspace_rows[i];
        proof {
            assert(row_fits(layout.workspace_rows@[i as int].rect, ch));
        }
        let ghost before = paints_view(ops@);
        match workspace_by_id(&model.workspaces, row.id.as_str()) {
            Some(ws) => {
                let more = workspace_row(palette, row, ws, cell_w, cell_h, label_max);
                let ghost rp = paints_view(more@);
                emit_all(&mut ops, more);
                proof {
                    let prev = workspace_rows_paints(pal, model.workspaces@, layout.workspace_rows@, cw, ch, label_max as int, i as nat);
                    assert(head + prev + rp =~= head + (prev + rp));
                }
            },
            None => {},
        }
        i += 1;
    }
    let ghost after_ws = paints_view(ops@);
    if layout.agent_rows.len() > 0 {

        emit(&mut ops, Paint::Text {
            x: 10,
            y: layout.agent_rows[0].rect.y - 24,
            text: String::from_str("AGENTS"),
            style: Style::Bold,
            color: palette.overlay,
            max_x: label_max,
        });
    }
    let ghost mid = paints_view(ops@);
    let m: usize = layout.agent_rows.len();
    let mut j: usize = 0;
    while j < m
        invariant
            sidebar_fits(*layout, cw, ch),
            cw == cell_w,
            ch == cell_h,
            pal == *palette,
            m == layout.agent_rows@.len(),
            j <= m,
            label_max == layout.sidebar.x + layout.sidebar.w - 10,
            paints_view(ops@) == mid + agent_rows_paints(
                pal,
                *model,
                layout.agent_rows@,
                cw,
                ch,
                label_max as int,
                j as nat,
            ),
        decreases m - j,
    {
        let row = &layout.agent_rows[j];
        proof {
            assert(row_fits(layout.agent_rows@[j as int].rect, ch));
        }
        match agent_by_terminal(&model.agents, row.id.as_str()) {
            Some(agent) => {
                let more = agent_row(palette, row, agent, &model.workspaces, cell_w, cell_h, label_max);
                let ghost rp = paints_view(more@);
                emit_all(&mut ops, more);
                proof {
                    let prev = agent_rows_paints(pal, *model, layout.agent_rows@, cw, ch, label_max as int, j as nat);
                    assert(mid + prev + rp =~= mid + (prev + rp));
                }
            },
            None => {},
        }
        j += 1;
    }
    let nw = layout.new_workspace;
    emit(&mut ops, Paint::Fill { rect: nw, color: palette.surface0 });
    emit(&mut ops, Paint::Text {
        x: nw.x + 10,
        y: nw.y + (nw.h - cell_h) / 2,
        text: String::from_str("+ new space"),
        style: Style::Regular,
        color: palette.text,
        max_x: nw.x + nw.w,
    });
    assert(paints_view(ops@) =~= spec_sidebar_paints(*palette, *model, *layout, cw, ch));
    ops
}

/// The top of a one-line label centered vertically in `r`.
pub open spec fn text_y(r: Rect, cell_h: int) -> int {
    r.y + div_trunc(r.h - cell_h, 2)
}

/// A glyph paint.
pub open spec fn glyph_paint(x: int, y: int, ch: char, style: Style, color: Rgb) -> PaintView {
    PaintView::Glyph { x: x as i32, y: y as i32, ch, style, color }
}

/// One tab of the tab bar: its background, an accent line when focused,
/// its label when the tab is known, and its close glyph.
pub open spec fn tab_paints(pal: ChromePalette, tab: TabSlot, tabs: Seq<TabInfo>, cell_w: int, cell_h: int) -> Seq<PaintView> {
    let r = tab.rect;
    let bg = if tab.focused { pal.base } else { pal.surface0 };
    let fg = if tab.focused { pal.text } else { pal.subtext };
    let accent = if tab.focused {
        seq![fill_paint(rect(r.x as int, r.y as int, r.w as int, 2), pal.accent)]
    } else {
        seq![]
    };
    let label = match find_by(tabs, tab_key(), tab.tab_id@) {
        Some(info) => seq![
            text_paint(
                r.x + 10,
                text_y(r, cell_h),
                spec_truncate_cells(info.label@, cells_for(r.w as int, 36, cell_w)),
                Style::Regular,
                fg,
                tab.close.x as int,
            ),
        ],
        None => seq![],
    };
    seq![fill_paint(r, bg)] + accent + label + seq![
        glyph_paint(tab.close.x as int, tab.close.y as int, '×', Style::Regular, pal.subtext),
    ]
}

/// The paints of the first `n` tabs.
pub open spec fn tabs_paints(pal: ChromePalette, slots: Seq<TabSlot>, tabs: Seq<TabInfo>, cell_w: int, cell_h: int, n: nat) -> Seq<PaintView>
    decreases n,
{
    if n == 0 {
        seq![]
    } else {
        tabs_paints(pal, slots, tabs, cell_w, cell_h, (n - 1) as nat) + tab_paints(pal, slots[n - 1], tabs, cell_w, cell_h)
    }
}

/// A split button: its background and a window icon divided down the
/// middle (`vertical`) or across it.
pub open spec fn split_button_paints(pal: ChromePalette, r: Rect, vertical: bool) -> Seq<PaintView> {
    let ix = r.x + div_trunc(r.w as int, 2) - 7;
    let iy = r.y + div_trunc(r.h as int, 2) - 6;
    seq![
        fill_paint(r, pal.surface0),
        PaintView::Stroke { rect: rect(ix, iy, 14, 12), thickness: 1, color: pal.text },
        if vertical {
            fill_paint(rect(ix + 7, iy, 1, 12), pal.text)
        } else {
            fill_paint(rect(ix, iy + 6, 14, 1), pal.text)
        },
    ]
}

/// The teeth of the settings gear: a 3x3 fill centered at each offset from
/// `(cx, cy)`.
pub open spec fn gear_paints(cx: int, cy: int, gear: Seq<(i32, i32)>, color: Rgb) -> Seq<PaintView> {
    Seq::new(gear.len(), |k: int| fill_paint(rect(cx + gear[k].0 - 1, cy + gear[k].1 - 1, 3, 3), color))
}

/// The settings button: its background, a square outline, the gear teeth
/// at the given offsets from the center, and a center fill.
pub open spec fn settings_button_paints(pal: ChromePalette, r: Rect, gear: Seq<(i32, i32)>) -> Seq<PaintView> {
    let cx = r.x + div_trunc(r.w as int, 2);
    let cy = r.y + div_trunc(r.h as int, 2);
    seq![
        fill_paint(r, pal.surface0),
        PaintView::Stroke { rect: rect(cx - 6, cy - 6, 12, 12), thickness: 1, color: pal.text },
    ] + gear_paints(cx, cy, gear, pal.text) + seq![fill_paint(rect(cx - 2, cy - 2, 4, 4), pal.text)]
}

/// The tab bar: background and bottom border, the tabs, the new-tab
/// button, the split, settings and close-pane buttons.
pub open spec fn spec_tabbar_paints(
    pal: ChromePalette,
    model: UiModel,
    layout: ViewLayout,
    cell_w: int,
    cell_h: int,
    gear: Seq<(i32, i32)>,
) -> Seq<PaintView> {
    let tb = layout.tabbar;
    let nt = layout.new_tab;
    let cp = layout.btn_close_pane;
    seq![fill_paint(tb, pal.crust), fill_paint(rect(tb.x as int, tb.y + tb.h - 1, tb.w as int, 1), pal.mantle)]
        + tabs_paints(pal, layout.tabs@, model.tabs@, cell_w, cell_h, layout.tabs@.len())
        + seq![
            fill_paint(nt, pal.surface0),
            glyph_paint(nt.x + div_trunc(nt.w - cell_w, 2), text_y(nt, cell_h), '+', Style::Bold, pal.text),
        ]
        + split_button_paints(pal, layout.btn_split_right, true)
        + split_button_paints(pal, layout.btn_split_down, false)
        + settings_button_paints(pal, layout.btn_settings, gear)
        + seq![
            fill_paint(cp, pal.surface0),
            glyph_paint(cp.x + div_trunc(cp.w - cell_w, 2), text_y(cp, cell_h), '×', Style::Bold, pal.text),
        ]
}

/// The coordinates a tab paints at are valid: its label's left edge and
/// top, and the width left for the label.
pub open spec fn tab_fits(r: Rect, cell_h: int) -> bool {
    &&& r.x + 10 <= i32::MAX
    &&& centered_y_fits(r, cell_h)
    &&& i32::MIN <= r.w - 36
}

/// The icon of a split button lies at valid coordinates.
pub open spec fn split_fits(r: Rect) -> bool {
    let cx = r.x + div_trunc(r.w as int, 2);
    let cy = r.y + div_trunc(r.h as int, 2);
    fits_i32(cx) && fits_i32(cx - 7) && fits_i32(cy) && fits_i32(cy - 6)
}

/// The settings gear, with its teeth at the offsets in `gear`, lies at
/// valid coordinates.
pub open spec fn gear_fits(r: Rect, gear: Seq<(i32, i32)>) -> bool {
    let cx = r.x + div_trunc(r.w as int, 2);
    let cy = r.y + div_trunc(r.h as int, 2);
    &&& fits_i32(cx) && fits_i32(cx - 6) && fits_i32(cy) && fits_i32(cy - 6)
    &&& forall|k: int| 0 <= k < gear.len() ==> {
        &&& fits_i32(cx + (#[trigger] gear[k]).0)
        &&& fits_i32(cx + gear[k].0 - 1)
        &&& fits_i32(cy + gear[k].1)
        &&& fits_i32(cy + gear[k].1 - 1)
    }
}

/// Every coordinate the tab bar paints at is a valid `i32`, with positive
/// cell metrics.
pub open spec fn tabbar_fits(layout: ViewLayout, cell_w: int, cell_h: int, gear: Seq<(i32, i32)>) -> bool {
    let tb = layout.tabbar;
    &&& cell_metrics_ok(cell_w, cell_h)
    &&& fits_i32(tb.y + tb.h) && fits_i32(tb.y + tb.h - 1)
    &&& forall|i: int| 0 <= i < layout.tabs@.len() ==> tab_fits(#[trigger] layout.tabs@[i].rect, cell_h)
    &&& centered_x_fits(layout.new_tab, cell_w) && centered_y_fits(layout.new_tab, cell_h)
    &&& split_fits(layout.btn_split_right)
    &&& split_fits(layout.btn_split_down)
    &&& gear_fits(layout.btn_settings, gear)
    &&& centered_x_fits(layout.btn_close_pane, cell_w) && centered_y_fits(layout.btn_close_pane, cell_h)
}

fn tab_paints_exec(pal: &ChromePalette, tab: &TabSlot, tabs: &Vec<TabInfo>, cell_w: i32, cell_h: i32) -> (ops: Vec<Paint>)
    requires
        tab_fits(tab.rect, cell_h as int),
        cell_metrics_ok(cell_w as int, cell_h as int),
    ensures
        paints_view(ops@) == tab_paints(*pal, *tab, tabs@, cell_w as int, cell_h as int),
{
    let mut ops: Vec<Paint> = Vec::new();
    let r = tab.rect;
    let bg = if tab.focused { pal.base } else { pal.surface0 };
    emit(&mut ops, Paint::Fill { rect: r, color: bg });
    if tab.focused {
        emit(&mut ops, Paint::Fill { rect: Rect::new(r.x, r.y, r.w, 2), color: pal.accent });
    }
    match tab_by_id(tabs, tab.tab_id.as_str()) {
        Some(info) => {
            let cells = cells_for_exec(r.w, 36, cell_w);
            let fg = if tab.focused { pal.text } else { pal.subtext };
            emit(&mut ops, Paint::Text {
                x: r.x + 10,
                y: r.y + (r.h - cell_h) / 2,
                text: truncate_cells(info.label.as_str(), cells),
                style: Style::Regular,
                color: fg,
                max_x: tab.close.x,
            });
        },
        None => {},
    }
    emit(&mut ops, Paint::Glyph { x: tab.close.x, y: tab.close.y, ch: '×', style: Style::Regular, color: pal.subtext });
    assert(paints_view(ops@) =~= tab_paints(*pal, *tab, tabs@, cell_w as int, cell_h as int));
    ops
}

fn split_button(ops: &mut Vec<Paint>, pal: &ChromePalette, r: Rect, vertical: bool)
    requires
        split_fits(r),
    ensures
        paints_view(final(ops)@) == paints_view(old(ops)@) + split_button_paints(*pal, r, vertical),
{
    emit(ops, Paint::Fill { rect: r, color: pal.surface0 });
    let ix: i32 = r.x + r.w / 2 - 7;
    let iy: i32 = r.y + r.h / 2 - 6;
    emit(ops, Paint::Stroke { rect: Rect::new(ix, iy, 14, 12), thickness: 1, color: pal.text });
    if vertical {
        emit(ops, Paint::Fill { rect: Rect::new(ix + 7, iy, 1, 12), color: pal.text });
    } else {
        emit(ops, Paint::Fill { rect: Rect::new(ix, iy + 6, 14, 1), color: pal.text });
    }
    assert(paints_view(ops@) =~= paints_view(old(ops)@) + split_button_paints(*pal, r, vertical));
}

fn settings_button(ops: &mut Vec<Paint>, pal: &ChromePalette, r: Rect, gear: &Vec<(i32, i32)>)
    requires
        gear_fits(r, gear@),
    ensures
        paints_view(final(ops)@) == paints_view(old(ops)@) + settings_button_paints(*pal, r, gear@),
{
    let ghost start = paints_view(ops@);
    emit(ops, Paint::Fill { rect: r, color: pal.surface0 });
    let cx: i32 = r.x + r.w / 2;
    let cy: i32 = r.y + r.h / 2;
    emit(ops, Paint::Stroke { rect: Rect::new(cx - 6, cy - 6, 12, 12), thickness: 1, color: pal.text });
    let ghost base = paints_view(ops@);
    let n: usize = gear.len();
    let mut k: usize = 0;
    while k < n
        invariant
            n == gear@.len(),
            k <= n,
            gear_fits(r, gear@),
            cx == r.x + div_trunc(r.w as int, 2),
            cy == r.y + div_trunc(r.h as int, 2),
            paints_view(ops@) == base + gear_paints(cx as int, cy as int, gear@.take(k as int), pal.text),
        decreases n - k,
    {
        let (dx, dy) = gear[k];
        proof {
            let g = gear@[k as int];
            assert(fits_i32(cx + g.0) && fits_i32(cx + g.0 - 1) && fits_i32(cy + g.1) && fits_i32(cy + g.1 - 1));
        }
        emit(ops, Paint::Fill { rect: Rect::new(cx + dx - 1, cy + dy - 1, 3, 3), color: pal.text });
        proof {
            assert(gear_paints(cx as int, cy as int, gear@.take(k + 1), pal.text) =~= gear_paints(
                cx as int,
                cy as int,
                gear@.take(k as int),
                pal.text,
            ).push(fill_paint(rect(cx + dx - 1, cy + dy - 1, 3, 3), pal.text)));
        }
        k += 1;
    }
    emit(ops, Paint::Fill { rect: Rect::new(cx - 2, cy - 2, 4, 4), color: pal.text });
    proof {
        assert(gear@.take(n as int) =~= gear@);
    }
    assert(paints_view(ops@) =~= start + settings_button_paints(*pal, r, gear@));
}

/// Paints the tab bar: background, tabs, and the new-tab, split, settings
/// and close-pane buttons. `gear` holds the offsets of the settings gear's
/// teeth from the button's center.
pub fn tabbar_paints(
    palette: &ChromePalette,
    model: &UiModel,
    layout: &ViewLayout,
    cell_w: i32,
    cell_h: i32,
    gear: &Vec<(i32, i32)>,
) -> (ops: Vec<Paint>)
    requires
        tabbar_fits(*layout, cell_w as int, cell_h as int, gear@),
    ensures
        paints_view(ops@) == spec_tabbar_paints(*palette, *model, *layout, cell_w as int, cell_h as int, gear@),
{
    let ghost pal = *palette;
    let ghost cw = cell_w as int;
    let ghost ch = cell_h as int;
    let mut ops: Vec<Paint> = Vec::new();
    let tb = layout.tabbar;
    emit(&mut ops, Paint::Fill { rect: tb, color: palette.crust });
    emit(&mut ops, Paint::Fill { rect: Rect::new(tb.x, tb.y + tb.h - 1, tb.w, 1), color: palette.mantle });
    let ghost head = paints_view(ops@);
    let n: usize = layout.tabs.len();
    let mut i: usize = 0;
    while i < n
        invariant
            tabbar_fits(*layout, cw, ch, gear@),
            cw == cell_w,
            ch == cell_h,
            pal == *palette,
            n == layout.tabs@.len(),
            i <= n,
            paints_view(ops@) == head + tabs_paints(pal, layout.tabs@, model.tabs@, cw, ch, i as nat),
        decreases n - i,
    {
        proof {
            assert(tab_fits(layout.tabs@[i as int].rect, ch));
        }
        let more = tab_paints_exec(palette, &layout.tabs[i], &model.tabs, cell_w, cell_h);
        let ghost rp = paints_view(more@);
        emit_all(&mut ops, more);
        proof {
            let prev = tabs_paints(pal, layout.tabs@, model.tabs@, cw, ch, i as nat);
            assert(head + prev + rp =~= head + (prev + rp));
        }
        i += 1;
    }
    let ghost tabs_done = paints_view(ops@);
    let nt = layout.new_tab;
    emit(&mut ops, Paint::Fill { rect: nt, color: palette.surface0 });
    emit(&mut ops, Paint::Glyph {
        x: nt.x + (nt.w - cell_w) / 2,
        y: nt.y + (nt.h - cell_h) / 2,
        ch: '+',
        style: Style::Bold,
        color: palette.text,
    });
    let ghost new_tab_done = paints_view(ops@);
    split_button(&mut ops, palette, layout.btn_split_right, true);
    split_button(&mut ops, palette, layout.btn_split_down, false);
    settings_button(&mut ops, palette, layout.btn_settings, gear);
    let ghost buttons_done = paints_view(ops@);
    let cp = layout.btn_close_pane;
    emit(&mut ops, Paint::Fill { rect: cp, color: palette.surface0 });
    emit(&mut ops, Paint::Glyph {
        x: cp.x + (cp.w - cell_w) / 2,
        y: cp.y + (cp.h - cell_h) / 2,
        ch: '×',
        style: Style::Bold,
        color: palette.text,
    });
    assert(paints_view(ops@) =~= spec_tabbar_paints(*palette, *model, *layout, cw, ch, gear@));
    ops
}

/// One pane slot: its caption strip and content background, its status
/// dot and caption label when the pane is known, the pane's terminal
/// content, and its border (accented, with thickness 2, when focused).
pub open spec fn pane_slot_paints(
    pal: ChromePalette,
    slot: PaneSlot,
    k: int,
    panes: Seq<PaneInfo>,
    cell_w: int,
    cell_h: int,
) -> Seq<PaintView> {
    let r = slot.rect;
    let caption_bg = if slot.focused { pal.surface1 } else { pal.surface0 };
    let fg = if slot.focused { pal.text } else { pal.subtext };
    let caption = seq![fill_paint(rect(r.x as int, r.y as int, r.w as int, CAPTION_H as int), caption_bg), fill_paint(slot.content, pal.base)];
    let label = match find_by(panes, pane_key(), slot.pane_id@) {
        Some(p) => seq![
            PaintView::Dot {
                cx: (r.x + 12) as i32,
                cy: (r.y + CAPTION_H / 2) as i32,
                radius: 4,
                color: spec_status_color(pal, p.agent_status),
            },
            text_paint(
                r.x + 24,
                r.y + div_trunc(CAPTION_H - cell_h, 2),
                spec_truncate_cells(spec_caption_label(p), cells_for(r.w as int, 30, cell_w)),
                Style::Bold,
                fg,
                r.x + r.w,
            ),
        ],
        None => seq![],
    };
    caption + label + seq![
        PaintView::PaneContent { slot: k as usize },
        PaintView::Stroke {
            rect: r,
            thickness: if slot.focused { 2 } else { 1 },
            color: if slot.focused { pal.accent } else { pal.surface0 },
        },
    ]
}

/// The paints of the first `n` pane slots.
pub open spec fn spec_panes_paints(pal: ChromePalette, slots: Seq<PaneSlot>, panes: Seq<PaneInfo>, cell_w: int, cell_h: int, n: nat) -> Seq<PaintView>
    decreases n,
{
    if n == 0 {
        seq![]
    } else {
        spec_panes_paints(pal, slots, panes, cell_w, cell_h, (n - 1) as nat) + pane_slot_paints(
            pal,
            slots[n - 1],
            n - 1,
            panes,
            cell_w,
            cell_h,
        )
    }
}

/// The coordinates a pane slot's caption paints at are valid: the dot,
/// the label's left edge and top, the width left for it, and the slot's
/// right edge.
pub open spec fn slot_fits(r: Rect, cell_h: int) -> bool {
    &&& r.x + 24 <= i32::MAX
    &&& r.y + CAPTION_H / 2 <= i32::MAX
    &&& fits_i32(r.y + div_trunc(CAPTION_H - cell_h, 2))
    &&& i32::MIN <= r.w - 30
    &&& fits_i32(r.x + r.w)
}

/// Every coordinate the pane slots paint at is a valid `i32`, with
/// positive cell metrics.
pub open spec fn panes_fit(layout: ViewLayout, cell_w: int, cell_h: int) -> bool {
    &&& cell_metrics_ok(cell_w, cell_h)
    &&& forall|i: int| 0 <= i < layout.panes@.len() ==> slot_fits(#[trigger] layout.panes@[i].rect, cell_h)
}

fn pane_slot_exec(pal: &ChromePalette, slot: &PaneSlot, k: usize, panes: &Vec<PaneInfo>, cell_w: i32, cell_h: i32) -> (ops: Vec<Paint>)
    requires
        slot_fits(slot.rect, cell_h as int),
        cell_metrics_ok(cell_w as int, cell_h as int),
    ensures
        paints_view(ops@) == pane_slot_paints(*pal, *slot, k as int, panes@, cell_w as int, cell_h as int),
{
    let mut ops: Vec<Paint> = Vec::new();
    let r = slot.rect;
    let caption_bg = if slot.focused { pal.surface1 } else { pal.surface0 };
    emit(&mut ops, Paint::Fill { rect: Rect::new(r.x, r.y, r.w, CAPTION_H), color: caption_bg });
    emit(&mut ops, Paint::Fill { rect: slot.content, color: pal.base });
    match pane_by_id(panes, slot.pane_id.as_str()) {
        Some(p) => {
            emit(&mut ops, Paint::Dot {
                cx: r.x + 12,
                cy: r.y + CAPTION_H / 2,
                radius: 4,
                color: status_color(pal, p.agent_status),
            });
            let cells = cells_for_exec(r.w, 30, cell_w);
            let label = caption_label(p);
            let fg = if slot.focused { pal.text } else { pal.subtext };
            emit(&mut ops, Paint::Text {
                x: r.x + 24,
                y: r.y + (CAPTION_H - cell_h) / 2,
                text: truncate_cells(label.as_str(), cells),
                style: Style::Bold,
                color: fg,
                max_x: r.x + r.w,
            });
        },
        None => {},
    }
    emit(&mut ops, Paint::PaneContent { slot: k });
    emit(&mut ops, Paint::Stroke {
        rect: r,
        thickness: if slot.focused { 2 } else { 1 },
        color: if slot.focused { pal.accent } else { pal.surface0 },
    });
    assert(paints_view(ops@) =~= pane_slot_paints(*pal, *slot, k as int, panes@, cell_w as int, cell_h as int));
    ops
}

/// Paints every pane slot of the layout: caption, content background,
/// the pane's terminal content, and border.
pub fn panes_paints(palette: &ChromePalette, model: &UiModel, layout: &ViewLayout, cell_w: i32, cell_h: i32) -> (ops: Vec<Paint>)
    requires
        panes_fit(*layout, cell_w as int, cell_h as int),
    ensures
        paints_view(ops@) == spec_panes_paints(*palette, layout.panes@, model.panes@, cell_w as int, cell_h as int, layout.panes@.len()),
{
    let ghost pal = *palette;
    let ghost cw = cell_w as int;
    let ghost ch = cell_h as int;
    let mut ops: Vec<Paint> = Vec::new();
    let n: usize = layout.panes.len();
    let mut i: usize = 0;
    while i < n
        invariant
            panes_fit(*layout, cw, ch),
            cw == cell_w,
            ch == cell_h,
            pal == *palette,
            n == layout.panes@.len(),
            i <= n,
            paints_view(ops@) == spec_panes_paints(pal, layout.panes@, model.panes@, cw, ch, i as nat),
        decreases n - i,
    {
        proof {
            assert(slot_fits(layout.panes@[i as int].rect, ch));
        }
        let more = pane_slot_exec(palette, &layout.panes[i], i, &model.panes, cell_w, cell_h);
        emit_all(&mut ops, more);
        i += 1;
    }
    ops
}

/// The selection highlight as paints: each highlight rect blended with the
/// accent color at coverage 130.
pub open spec fn spec_selection_paints(pal: ChromePalette, rects: Seq<Rect>) -> Seq<PaintView> {
    rects.map_values(|r: Rect| PaintView::FillAlpha { rect: r, color: pal.accent, alpha: 130 })
}

/// Paints the selection `hl` over a pane's content: one translucent accent
/// band per selected row, as `selection_rects` lays them out.
pub fn selection_paints(
    palette: &ChromePalette,
    content: Rect,
    width: u16,
    height: u16,
    cell_w: i32,
    cell_h: i32,
    hl: &Highlight,
) -> (ops: Vec<Paint>)
    requires
        ({
            let (start, end) = spec_ordered(hl.start, hl.end);
            selection_rects_fit(content, width as int, height as int, cell_w as int, cell_h as int, start, end)
        }),
    ensures
        ({
            let (start, end) = spec_ordered(hl.start, hl.end);
            paints_view(ops@) == spec_selection_paints(
                *palette,
                spec_selection_rects(content, width as int, height as int, cell_w as int, cell_h as int, start, end),
            )
        }),
{
    let rects = selection_rects(content, width, height, cell_w, cell_h, hl);
    let mut ops: Vec<Paint> = Vec::new();
    let n: usize = rects.len();
    let mut i: usize = 0;
    while i < n
        invariant
            n == rects@.len(),
            i <= n,
            paints_view(ops@) == spec_selection_paints(*palette, rects@.subrange(0, i as int)),
        decreases n - i,
    {
        emit(&mut ops, Paint::FillAlpha { rect: rects[i], color: palette.accent, alpha: 130 });
        proof {
            assert(rects@.subrange(0, i + 1) =~= rects@.subrange(0, i as int).push(rects@[i as int]));
            assert(spec_selection_paints(*palette, rects@.subrange(0, i + 1)) =~= spec_selection_paints(
                *palette,
                rects@.subrange(0, i as int),
            ).push(PaintView::FillAlpha { rect: rects@[i as int], color: palette.accent, alpha: 130 }));
        }
        i += 1;
    }
    assert(rects@.subrange(0, n as int) =~= rects@);
    ops
}

/// A tab of the settings popup: its background, an accent line when
/// active, and its bold label.
pub open spec fn settings_tab_paints(pal: ChromePalette, r: Rect, label: Seq<char>, active: bool, cell_h: int) -> Seq<PaintView> {
    let bg = if active { pal.surface1 } else { pal.surface0 };
    let fg = if active { pal.text } else { pal.subtext };
    seq![fill_paint(r, bg)] + (if active {
        seq![fill_paint(rect(r.x as int, r.y as int, r.w as int, 2), pal.accent)]
    } else {
        seq![]
    }) + seq![text_paint(r.x + 10, text_y(r, cell_h), label, Style::Bold, fg, r.x + r.w)]
}

/// A row of the settings list: a highlight when selected, then its label,
/// bold and in the accent color when it is the active choice.
pub open spec fn choice_row_paints(
    pal: ChromePalette,
    x: int,
    y: int,
    w: int,
    h: int,
    label: Seq<char>,
    selected: bool,
    active: bool,
    cell_w: int,
    cell_h: int,
) -> Seq<PaintView> {
    let highlight = if selected {
        seq![fill_paint(rect(x, y, w, h), pal.surface0), fill_paint(rect(x, y, 3, h), pal.accent)]
    } else {
        seq![]
    };
    let fg = if active { pal.accent } else if selected { pal.text } else { pal.subtext };
    highlight + seq![
        text_paint(
            x + 12,
            y + div_trunc(h - cell_h, 2),
            spec_truncate_cells(label, cells_for(w, 24, cell_w)),
            if active { Style::Bold } else { Style::Regular },
            fg,
            x + w,
        ),
    ]
}

/// A button of the settings popup.
pub open spec fn settings_button_row(pal: ChromePalette, r: Rect, label: Seq<char>, enabled: bool, cell_h: int) -> Seq<PaintView> {
    seq![
        fill_paint(r, if enabled { pal.surface1 } else { pal.surface0 }),
        text_paint(r.x + 10, text_y(r, cell_h), label, Style::Regular, if enabled { pal.text } else { pal.overlay }, r.x + r.w),
    ]
}

/// The label of a font size given in tenths of a pixel: whole pixels and
/// `px`.
pub open spec fn font_size_label(size: u32) -> Seq<char> {
    spec_decimal((size / 10) as nat) + "px"@
}

/// The label of entry `idx` of the list of `section`, and whether it is
/// the active draft.
pub open spec fn choice_entry(s: SettingsOverlay, idx: int) -> (Seq<char>, bool) {
    match s.section {
        SettingsSection::Theme => (s.themes@[idx]@, s.draft_theme@ == s.themes@[idx]@),
        SettingsSection::FontSize => (font_size_label(font_size_choices()[idx]), font_size_choices()[idx] == s.draft_font_size),
    }
}

/// Rows `first .. first + n` of the settings list, drawn from the top of
/// `list`, `row_h` pixels apart.
pub open spec fn choice_rows_paints(
    pal: ChromePalette,
    s: SettingsOverlay,
    list: Rect,
    row_h: int,
    first: int,
    cell_w: int,
    cell_h: int,
    n: nat,
) -> Seq<PaintView>
    decreases n,
{
    if n == 0 {
        seq![]
    } else {
        let j = n - 1;
        let idx = first + j;
        let entry = choice_entry(s, idx);
        choice_rows_paints(pal, s, list, row_h, first, cell_w, cell_h, (n - 1) as nat) + choice_row_paints(
            pal,
            list.x as int,
            list.y + j * row_h,
            list.w as int,
            row_h,
            entry.0,
            idx == s.selected,
            entry.1,
            cell_w,
            cell_h,
        )
    }
}

/// `a - b`, or zero when `b` is larger.
pub open spec fn sat_sub(a: int, b: int) -> int {
    if a > b { a - b } else { 0 }
}

/// How many list rows fit, the first row shown (scrolled so the selection
/// stays in view), and how many rows are drawn.
pub open spec fn list_window(s: SettingsOverlay, list: Rect, row_h: int) -> (int, int, int) {
    let visible = if div_trunc(list.h as int, row_h) > 1 { div_trunc(list.h as int, row_h) } else { 1 };
    let scroll = sat_sub(s.selected as int, sat_sub(visible, 1));
    let count = s.spec_item_count(s.section);
    let shown = if scroll < count {
        if count - scroll < visible { count - scroll } else { visible }
    } else {
        0
    };
    (visible, scroll, shown)
}

/// The settings popup over a `surface_w` x `surface_h` surface: a dark
/// veil, the popup panel and title, the two section tabs, the visible
/// rows of the current list, and the apply and close buttons.
pub open spec fn spec_settings_paints(
    pal: ChromePalette,
    s: SettingsOverlay,
    surface_w: int,
    surface_h: int,
    cell_w: int,
    cell_h: int,
) -> Seq<PaintView> {
    let l = spec_settings_layout(surface_w, surface_h);
    let p = l.rect;
    let row_h = cell_h + 8;
    let window = list_window(s, l.list, row_h);
    seq![
        PaintView::FillAlpha { rect: rect(0, 0, surface_w, surface_h), color: (0u8, 0u8, 0u8), alpha: 140 },
        fill_paint(p, pal.mantle),
        PaintView::Stroke { rect: p, thickness: 2, color: pal.accent },
        text_paint(p.x + 16, p.y + 12, "settings"@, Style::Bold, pal.text, p.x + p.w),
    ] + settings_tab_paints(pal, l.tab_theme, "theme"@, s.section == SettingsSection::Theme, cell_h)
        + settings_tab_paints(pal, l.tab_font, "font size"@, s.section == SettingsSection::FontSize, cell_h)
        + choice_rows_paints(pal, s, l.list, row_h, window.1, cell_w, cell_h, window.2 as nat)
        + settings_button_row(pal, l.apply, "apply"@, s.spec_has_unsaved_changes(), cell_h)
        + settings_button_row(pal, l.close, "close"@, true, cell_h)
}

/// A labelled control (a tab or a button) paints at valid coordinates:
/// its label's left edge and top, and its right edge.
pub open spec fn button_fits(r: Rect, cell_h: int) -> bool {
    &&& r.x + 10 <= i32::MAX
    &&& centered_y_fits(r, cell_h)
    &&& fits_i32(r.x + r.w)
}

/// The settings popup can be laid out on the surface, and its list rows,
/// `cell_h + 8` pixels tall, have a valid height; the cell metrics are
/// positive.
pub open spec fn settings_paints_fit(surface_w: int, surface_h: int, cell_w: int, cell_h: int) -> bool {
    &&& cell_metrics_ok(cell_w, cell_h)
    &&& cell_h + 8 <= i32::MAX
    &&& settings_fits(surface_w, surface_h)
}

fn settings_tab_exec(ops: &mut Vec<Paint>, pal: &ChromePalette, r: Rect, label: &str, active: bool, cell_h: i32)
    requires
        button_fits(r, cell_h as int),
    ensures
        paints_view(final(ops)@) == paints_view(old(ops)@) + settings_tab_paints(*pal, r, label@, active, cell_h as int),
{
    let bg = if active { pal.surface1 } else { pal.surface0 };
    let fg = if active { pal.text } else { pal.subtext };
    emit(ops, Paint::Fill { rect: r, color: bg });
    if active {
        emit(ops, Paint::Fill { rect: Rect::new(r.x, r.y, r.w, 2), color: pal.accent });
    }
    emit(ops, Paint::Text {
        x: r.x + 10,
        y: r.y + (r.h - cell_h) / 2,
        text: String::from_str(label),
        style: Style::Bold,
        color: fg,
        max_x: r.x + r.w,
    });
    assert(paints_view(ops@) =~= paints_view(old(ops)@) + settings_tab_paints(*pal, r, label@, active, cell_h as int));
}

fn choice_row_exec(
    ops: &mut Vec<Paint>,
    pal: &ChromePalette,
    x: i32,
    y: i32,
    w: i32,
    h: i32,
    label: &str,
    selected: bool,
    active: bool,
    cell_w: i32,
    cell_h: i32,
)
    requires
        x + 12 <= i32::MAX,
        fits_i32(x + w),
        i32::MIN <= w - 24,
        fits_i32(h - cell_h),
        fits_i32(y + div_trunc(h - cell_h, 2)),
        cell_metrics_ok(cell_w as int, cell_h as int),
    ensures
        paints_view(final(ops)@) == paints_view(old(ops)@) + choice_row_paints(
            *pal,
            x as int,
            y as int,
            w as int,
            h as int,
            label@,
            selected,
            active,
            cell_w as int,
            cell_h as int,
        ),
{
    if selected {
        emit(ops, Paint::Fill { rect: Rect::new(x, y, w, h), color: pal.surface0 });
        emit(ops, Paint::Fill { rect: Rect::new(x, y, 3, h), color: pal.accent });
    }
    let fg = if active { pal.accent } else if selected { pal.text } else { pal.subtext };
    let cells = cells_for_exec(w, 24, cell_w);
    emit(ops, Paint::Text {
        x: x + 12,
        y: y + (h - cell_h) / 2,
        text: truncate_cells(label, cells),
        style: if active { Style::Bold } else { Style::Regular },
        color: fg,
        max_x: x + w,
    });
    assert(paints_view(ops@) =~= paints_view(old(ops)@) + choice_row_paints(
        *pal,
        x as int,
        y as int,
        w as int,
        h as int,
        label@,
        selected,
        active,
        cell_w as int,
        cell_h as int,
    ));
}

fn settings_button_exec(ops: &mut Vec<Paint>, pal: &ChromePalette, r: Rect, label: &str, enabled: bool, cell_h: i32)
    requires
        button_fits(r, cell_h as int),
    ensures
        paints_view(final(ops)@) == paints_view(old(ops)@) + settings_button_row(*pal, r, label@, enabled, cell_h as int),
{
    emit(ops, Paint::Fill { rect: r, color: if enabled { pal.surface1 } else { pal.surface0 } });
    emit(ops, Paint::Text {
        x: r.x + 10,
        y: r.y + (r.h - cell_h) / 2,
        text: String::from_str(label),
        style: Style::Regular,
        color: if enabled { pal.text } else { pal.overlay },
        max_x: r.x + r.w,
    });
    assert(paints_view(ops@) =~= paints_view(old(ops)@) + settings_button_row(*pal, r, label@, enabled, cell_h as int));
}

/// The label of a font size in tenths of a pixel.
pub fn font_size_label_exec(size: u32) -> (s: String)
    ensures
        s@ == font_size_label(size),
{
    let mut s = decimal_string(size / 10);
    s.append("px");
    s
}

/// The settings list paints at valid coordinates: it is at least 100
/// pixels tall, and its rows' labels and right edge lie within `i32`.
pub open spec fn list_fits(list: Rect) -> bool {
    &&& list.h >= 100
    &&& list.x + 12 <= i32::MAX
    &&& fits_i32(list.x + list.w)
    &&& i32::MIN <= list.w - 24
    &&& list.y + list.h + 4 <= i32::MAX
}

/// Entry `idx` of the current settings list: its label and whether it is
/// the active draft.
fn choice_entry_exec(settings: &SettingsOverlay, idx: usize) -> (entry: (String, bool))
    requires
        idx < settings.spec_item_count(settings.section),
    ensures
        entry.0@ == choice_entry(*settings, idx as int).0,
        entry.1 == choice_entry(*settings, idx as int).1,
{
    match settings.section {
        SettingsSection::Theme => {
            let name = &settings.themes[idx];
            (name.clone(), settings.draft_theme == *name)
        },
        SettingsSection::FontSize => {
            let size: u32 = match font_size_choice(idx) {
                Some(sz) => sz,
                None => 0,
            };
            (font_size_label_exec(size), size == settings.draft_font_size)
        },
    }
}

/// Paints rows `scroll .. scroll + shown` of the settings list.
fn choice_rows_exec(
    ops: &mut Vec<Paint>,
    palette: &ChromePalette,
    settings: &SettingsOverlay,
    list: Rect,
    row_h: i32,
    visible: usize,
    scroll: usize,
    shown: usize,
    count: usize,
    cell_w: i32,
    cell_h: i32,
)
    requires
        count == settings.spec_item_count(settings.section),
        cell_metrics_ok(cell_w as int, cell_h as int),
        list_fits(list),
        row_h == cell_h + 8,
        visible as int == (if div_trunc(list.h as int, row_h as int) > 1 { div_trunc(list.h as int, row_h as int) } else { 1 }),
        shown <= visible,
        shown > 0 ==> scroll + shown <= settings.spec_item_count(settings.section),
    ensures
        paints_view(final(ops)@) == paints_view(old(ops)@) + choice_rows_paints(
            *palette,
            *settings,
            list,
            row_h as int,
            scroll as int,
            cell_w as int,
            cell_h as int,
            shown as nat,
        ),
{
    let ghost pal = *palette;
    let ghost cw = cell_w as int;
    let ghost ch = cell_h as int;
    let ghost head = paints_view(ops@);
    let sel: usize = settings.selected;
    let mut j: usize = 0;
    while j < shown
        invariant
            cw == cell_w,
            ch == cell_h,
            pal == *palette,
            sel == settings.selected,
            count == settings.spec_item_count(settings.section),
            cell_metrics_ok(cw, ch),
            list_fits(list),
            row_h == cell_h + 8,
            visible as int == (if div_trunc(list.h as int, row_h as int) > 1 { div_trunc(list.h as int, row_h as int) } else { 1 }),
            shown <= visible,
            shown > 0 ==> scroll + shown <= settings.spec_item_count(settings.section),
            j <= shown,
            paints_view(ops@) == head + choice_rows_paints(pal, *settings, list, row_h as int, scroll as int, cw, ch, j as nat),
        decreases shown - j,
    {
        let idx: usize = scroll + j;
        proof {
            let (jj, rh, lh, vis) = (j as int, row_h as int, list.h as int, visible as int);
            assert(0 <= jj * rh <= lh) by (nonlinear_arith)
                requires
                    0 <= jj < vis,
                    rh >= 9,
                    lh >= 100,
                    vis == (if lh / rh > 1 { lh / rh } else { 1 }),
            ;
        }
        let y: i32 = list.y + (j as i32) * row_h;
        let (label, active) = choice_entry_exec(settings, idx);
        let ghost before = paints_view(ops@);
        choice_row_exec(ops, palette, list.x, y, list.w, row_h, label.as_str(), idx == sel, active, cell_w, cell_h);
        proof {
            let prev = choice_rows_paints(pal, *settings, list, row_h as int, scroll as int, cw, ch, j as nat);
            let rp = choice_row_paints(
                pal,
                list.x as int,
                y as int,
                list.w as int,
                row_h as int,
                label@,
                idx == sel,
                active,
                cw,
                ch,
            );
            assert(head + prev + rp =~= head + (prev + rp));
        }
        j += 1;
    }
}

/// Wherever the popup fits on the surface, its controls and list paint at
/// valid coordinates.
proof fn lemma_settings_layout_fits(surface_w: int, surface_h: int, cell_h: int)
    requires
        settings_fits(surface_w, surface_h),
        1 <= cell_h <= i32::MAX - 8,
    ensures
        ({
            let l = spec_settings_layout(surface_w, surface_h);
            &&& l.rect.x + 16 <= i32::MAX
            &&& l.rect.y + 12 <= i32::MAX
            &&& fits_i32(l.rect.x + l.rect.w)
            &&& button_fits(l.tab_theme, cell_h)
            &&& button_fits(l.tab_font, cell_h)
            &&& button_fits(l.apply, cell_h)
            &&& button_fits(l.close, cell_h)
            &&& list_fits(l.list)
        }),
{
}

/// Paints the settings popup over a `surface_w` x `surface_h` surface.
#[verifier::spinoff_prover]
#[verifier::rlimit(40)]
pub fn settings_paints(
    palette: &ChromePalette,
    settings: &SettingsOverlay,
    surface_w: i32,
    surface_h: i32,
    cell_w: i32,
    cell_h: i32,
) -> (ops: Vec<Paint>)
    requires
        settings_paints_fit(surface_w as int, surface_h as int, cell_w as int, cell_h as int),
    ensures
        paints_view(ops@) == spec_settings_paints(
            *palette,
            *settings,
            surface_w as int,
            surface_h as int,
            cell_w as int,
            cell_h as int,
        ),
{
    proof {
        lemma_settings_layout_fits(surface_w as int, surface_h as int, cell_h as int);
    }
    let mut ops: Vec<Paint> = Vec::new();
    emit(&mut ops, Paint::FillAlpha { rect: Rect::new(0, 0, surface_w, surface_h), color: (0, 0, 0), alpha: 140 });
    let l = crate::settings::layout(surface_w, surface_h);
    let p = l.rect;
    emit(&mut ops, Paint::Fill { rect: p, color: palette.mantle });
    emit(&mut ops, Paint::Stroke { rect: p, thickness: 2, color: palette.accent });
    emit(&mut ops, Paint::Text {
        x: p.x + 16,
        y: p.y + 12,
        text: String::from_str("settings"),
        style: Style::Bold,
        color: palette.text,
        max_x: p.x + p.w,
    });
    settings_tab_exec(&mut ops, palette, l.tab_theme, "theme", settings.section == SettingsSection::Theme, cell_h);
    settings_tab_exec(&mut ops, palette, l.tab_font, "font size", settings.section == SettingsSection::FontSize, cell_h);
    let list = l.list;
    let row_h: i32 = cell_h + 8;
    let q: i32 = list.h / row_h;
    let visible: usize = if q > 1 { q as usize } else { 1 };
    let sel: usize = settings.selected;
    let scroll: usize = if sel > visible - 1 { sel - (visible - 1) } else { 0 };
    let count: usize = settings.item_count();
    let shown: usize = if scroll < count {
        if count - scroll < visible { count - scroll } else { visible }
    } else {
        0
    };
    proof {
        let window = list_window(*settings, list, row_h as int);
        assert(window == (visible as int, scroll as int, shown as int));
    }
    choice_rows_exec(&mut ops, palette, settings, list, row_h, visible, scroll, shown, count, cell_w, cell_h);
    settings_button_exec(&mut ops, palette, l.apply, "apply", settings.has_unsaved_changes(), cell_h);
    settings_button_exec(&mut ops, palette, l.close, "close", true, cell_h);
    assert(paints_view(ops@) =~= spec_settings_paints(
        *palette,
        *settings,
        surface_w as int,
        surface_h as int,
        cell_w as int,
        cell_h as int,
    ));
    ops
}

/// The whole chrome: the surface cleared to the base color, then the
/// sidebar, the tab bar, the pane slots, and the settings popup when it is
/// open.
pub open spec fn spec_chrome_paints(
    pal: ChromePalette,
    model: UiModel,
    layout: ViewLayout,
    settings: SettingsOverlay,
    surface_w: int,
    surface_h: int,
    cell_w: int,
    cell_h: int,
    gear: Seq<(i32, i32)>,
) -> Seq<PaintView> {
    seq![PaintView::Clear { color: pal.base }] + spec_sidebar_paints(pal, model, layout, cell_w, cell_h)
        + spec_tabbar_paints(pal, model, layout, cell_w, cell_h, gear)
        + spec_panes_paints(pal, layout.panes@, model.panes@, cell_w, cell_h, layout.panes@.len())
        + if settings.open {
        spec_settings_paints(pal, settings, surface_w, surface_h, cell_w, cell_h)
    } else {
        seq![]
    }
}

/// The inputs every part of the chrome can be painted from.
pub open spec fn chrome_fits(
    layout: ViewLayout,
    settings_open: bool,
    surface_w: int,
    surface_h: int,
    cell_w: int,
    cell_h: int,
    gear: Seq<(i32, i32)>,
) -> bool {
    &&& sidebar_fits(layout, cell_w, cell_h)
    &&& tabbar_fits(layout, cell_w, cell_h, gear)
    &&& panes_fit(layout, cell_w, cell_h)
    &&& settings_open ==> settings_paints_fit(surface_w, surface_h, cell_w, cell_h)
}

/// Paints the whole native UI: clear, sidebar, tab bar, panes, and the
/// settings popup when open.
pub fn chrome_paints(
    palette: &ChromePalette,
    model: &UiModel,
    layout: &ViewLayout,
    settings: &SettingsOverlay,
    surface_w: i32,
    surface_h: i32,
    cell_w: i32,
    cell_h: i32,
    gear: &Vec<(i32, i32)>,
) -> (ops: Vec<Paint>)
    requires
        chrome_fits(*layout, settings.open, surface_w as int, surface_h as int, cell_w as int, cell_h as int, gear@),
    ensures
        paints_view(ops@) == spec_chrome_paints(
            *palette,
            *model,
            *layout,
            *settings,
            surface_w as int,
            surface_h as int,
            cell_w as int,
            cell_h as int,
            gear@,
        ),
{
    let mut ops: Vec<Paint> = Vec::new();
    emit(&mut ops, Paint::Clear { color: palette.base });
    emit_all(&mut ops, sidebar_paints(palette, model, layout, cell_w, cell_h));
    emit_all(&mut ops, tabbar_paints(palette, model, layout, cell_w, cell_h, gear));
    emit_all(&mut ops, panes_paints(palette, model, layout, cell_w, cell_h));
    if settings.open {
        emit_all(&mut ops, settings_paints(palette, settings, surface_w, surface_h, cell_w, cell_h));
    }
    assert(paints_view(ops@) =~= spec_chrome_paints(
        *palette,
        *model,
        *layout,
        *settings,
        surface_w as int,
        surface_h as int,
        cell_w as int,
        cell_h as int,
        gear@,
    ));
    ops
}

fn fits64(v: i64) -> (b: bool)
    ensures
        b == fits_i32(v as int),
{
    -0x8000_0000 <= v && v <= 0x7FFF_FFFF
}

fn centered_y_check(r: Rect, cell_h: i32) -> (b: bool)
    ensures
        b == centered_y_fits(r, cell_h as int),
{
    let slack: i64 = r.h as i64 - cell_h as i64;
    fits64(slack) && fits64(r.y as i64 + slack / 2)
}

fn centered_x_check(r: Rect, cell_w: i32) -> (b: bool)
    ensures
        b == centered_x_fits(r, cell_w as int),
{
    let slack: i64 = r.w as i64 - cell_w as i64;
    fits64(slack) && fits64(r.x as i64 + slack / 2)
}

fn row_check(r: Rect, cell_h: i32) -> (b: bool)
    ensures
        b == row_fits(r, cell_h as int),
{
    r.x as i64 + 26 <= 0x7FFF_FFFF && r.y as i64 + 8 + cell_h as i64 <= 0x7FFF_FFFF && r.w as i64 - 30 >= -0x8000_0000
}

fn rows_check(rows: &Vec<RowSlot>, cell_h: i32) -> (b: bool)
    ensures
        b == forall|i: int| 0 <= i < rows@.len() ==> row_fits(#[trigger] rows@[i].rect, cell_h as int),
{
    let mut i: usize = 0;
    while i < rows.len()
        invariant
            i <= rows@.len(),
            forall|k: int| 0 <= k < i ==> row_fits(#[trigger] rows@[k].rect, cell_h as int),
        decreases rows@.len() - i,
    {
        if !row_check(rows[i].rect, cell_h) {
            return false;
        }
        i += 1;
    }
    true
}

fn sidebar_check(layout: &ViewLayout, cell_w: i32, cell_h: i32) -> (b: bool)
    ensures
        b == sidebar_fits(*layout, cell_w as int, cell_h as int),
{
    let sb = layout.sidebar;
    let nw = layout.new_workspace;
    let right: i64 = sb.x as i64 + sb.w as i64;
    let agents_ok = layout.agent_rows.len() == 0 || layout.agent_rows[0].rect.y as i64 >= -0x8000_0000 + 24;
    cell_w >= 1 && cell_h >= 1 && -0x8000_0000 + 10 <= right && right <= 0x7fff_ffff && rows_check(
        &layout.workspace_rows,
        cell_h,
    ) && rows_check(&layout.agent_rows, cell_h) && agents_ok && nw.x as i64 + 10 <= 0x7FFF_FFFF && centered_y_check(
        nw,
        cell_h,
    ) && fits64(nw.x as i64 + nw.w as i64)
}

fn tabs_check(tabs: &Vec<TabSlot>, cell_h: i32) -> (b: bool)
    ensures
        b == forall|i: int| 0 <= i < tabs@.len() ==> tab_fits(#[trigger] tabs@[i].rect, cell_h as int),
{
    let mut i: usize = 0;
    while i < tabs.len()
        invariant
            i <= tabs@.len(),
            forall|k: int| 0 <= k < i ==> tab_fits(#[trigger] tabs@[k].rect, cell_h as int),
        decreases tabs@.len() - i,
    {
        let r = tabs[i].rect;
        if !(r.x as i64 + 10 <= 0x7FFF_FFFF && centered_y_check(r, cell_h) && r.w as i64 - 36 >= -0x8000_0000) {
            return false;
        }
        i += 1;
    }
    true
}

fn split_check(r: Rect) -> (b: bool)
    ensures
        b == split_fits(r),
{
    let cx: i64 = r.x as i64 + r.w as i64 / 2;
    let cy: i64 = r.y as i64 + r.h as i64 / 2;
    fits64(cx) && fits64(cx - 7) && fits64(cy) && fits64(cy - 6)
}

fn gear_check(r: Rect, gear: &Vec<(i32, i32)>) -> (b: bool)
    ensures
        b == gear_fits(r, gear@),
{
    let cx: i64 = r.x as i64 + r.w as i64 / 2;
    let cy: i64 = r.y as i64 + r.h as i64 / 2;
    if !(fits64(cx) && fits64(cx - 6) && fits64(cy) && fits64(cy - 6)) {
        return false;
    }
    let mut k: usize = 0;
    while k < gear.len()
        invariant
            k <= gear@.len(),
            cx == r.x + div_trunc(r.w as int, 2),
            cy == r.y + div_trunc(r.h as int, 2),
            forall|j: int| 0 <= j < k ==> {
                &&& fits_i32(cx + (#[trigger] gear@[j]).0)
                &&& fits_i32(cx + gear@[j].0 - 1)
                &&& fits_i32(cy + gear@[j].1)
                &&& fits_i32(cy + gear@[j].1 - 1)
            },
        decreases gear@.len() - k,
    {
        let (dx, dy) = gear[k];
        let gx: i64 = cx + dx as i64;
        let gy: i64 = cy + dy as i64;
        if !(fits64(gx) && fits64(gx - 1) && fits64(gy) && fits64(gy - 1)) {
            return false;
        }
        k += 1;
    }
    true
}

fn tabbar_check(layout: &ViewLayout, cell_w: i32, cell_h: i32, gear: &Vec<(i32, i32)>) -> (b: bool)
    ensures
        b == tabbar_fits(*layout, cell_w as int, cell_h as int, gear@),
{
    let tb = layout.tabbar;
    let bottom: i64 = tb.y as i64 + tb.h as i64;
    cell_w >= 1 && cell_h >= 1 && fits64(bottom) && fits64(bottom - 1) && tabs_check(&layout.tabs, cell_h)
        && centered_x_check(layout.new_tab, cell_w) && centered_y_check(layout.new_tab, cell_h) && split_check(
        layout.btn_split_right,
    ) && split_check(layout.btn_split_down) && gear_check(layout.btn_settings, gear) && centered_x_check(
        layout.btn_close_pane,
        cell_w,
    ) && centered_y_check(layout.btn_close_pane, cell_h)
}

fn slots_check(slots: &Vec<PaneSlot>, cell_h: i32) -> (b: bool)
    ensures
        b == forall|i: int| 0 <= i < slots@.len() ==> slot_fits(#[trigger] slots@[i].rect, cell_h as int),
{
    let mut i: usize = 0;
    while i < slots.len()
        invariant
            i <= slots@.len(),
            forall|k: int| 0 <= k < i ==> slot_fits(#[trigger] slots@[k].rect, cell_h as int),
        decreases slots@.len() - i,
    {
        let r = slots[i].rect;
        let ok = r.x as i64 + 24 <= 0x7FFF_FFFF && r.y as i64 + 11 <= 0x7FFF_FFFF && fits64(
            r.y as i64 + (22 - cell_h as i64) / 2,
        ) && r.w as i64 - 30 >= -0x8000_0000 && fits64(r.x as i64 + r.w as i64);
        if !ok {
            return false;
        }
        i += 1;
    }
    true
}

/// Whether `chrome_paints` can take the layout, surface, metrics and gear:
/// exactly `chrome_fits`.
pub fn chrome_fits_check(
    layout: &ViewLayout,
    settings_open: bool,
    surface_w: i32,
    surface_h: i32,
    cell_w: i32,
    cell_h: i32,
    gear: &Vec<(i32, i32)>,
) -> (b: bool)
    ensures
        b == chrome_fits(*layout, settings_open, surface_w as int, surface_h as int, cell_w as int, cell_h as int, gear@),
{
    let sidebar = sidebar_check(layout, cell_w, cell_h);
    let tabbar = tabbar_check(layout, cell_w, cell_h, gear);
    let panes = cell_w >= 1 && cell_h >= 1 && slots_check(&layout.panes, cell_h);
    let surface = cell_w >= 1 && cell_h >= 1 && cell_h as i64 + 8 <= 0x7FFF_FFFF && -0x8000_0000 + 320 <= surface_w as i64
        && -0x8000_0000 + 240 <= surface_h as i64;
    sidebar && tabbar && panes && (!settings_open || surface)
}

} // verus!
