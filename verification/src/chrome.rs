//! Decisions behind drawing the native chrome: agent status colors and
//! words, pane caption labels, and the cell rectangles a text selection
//! highlights.

use vstd::prelude::*;
use crate::color::Rgb;
use crate::layout::{fits_i32, Rect};
use crate::schema::{AgentStatus, PaneInfo};
use crate::selection::{spec_ordered, ordered, CellPos};
use crate::theme::ChromePalette;

verus! {

/// A text selection to highlight within one pane.
#[derive(Debug)]
pub struct Highlight {
    pub terminal_id: String,
    pub start: CellPos,
    pub end: CellPos,
}

pub open spec fn spec_status_color(palette: ChromePalette, status: AgentStatus) -> Rgb {
    match status {
        AgentStatus::Blocked => palette.red,
        AgentStatus::Working => palette.yellow,
        AgentStatus::Done => palette.blue,
        AgentStatus::Idle => palette.green,
        AgentStatus::Unknown => palette.overlay,
    }
}

/// The dot color of an agent status.
pub fn status_color(palette: &ChromePalette, status: AgentStatus) -> (c: Rgb)
    ensures
        c == spec_status_color(*palette, status),
{
    match status {
        AgentStatus::Blocked => palette.red,
        AgentStatus::Working => palette.yellow,
        AgentStatus::Done => palette.blue,
        AgentStatus::Idle => palette.green,
        AgentStatus::Unknown => palette.overlay,
    }
}

/// The word shown for an agent status; an unknown status reads as idle.
pub open spec fn spec_status_text(status: AgentStatus) -> Seq<char> {
    match status {
        AgentStatus::Blocked => "blocked"@,
        AgentStatus::Working => "working"@,
        AgentStatus::Done => "done"@,
        AgentStatus::Idle => "idle"@,
        AgentStatus::Unknown => "idle"@,
    }
}

pub fn status_text(status: AgentStatus) -> (s: &'static str)
    ensures
        s@ == spec_status_text(status),
{
    match status {
        AgentStatus::Blocked => "blocked",
        AgentStatus::Working => "working",
        AgentStatus::Done => "done",
        AgentStatus::Idle => "idle",
        AgentStatus::Unknown => "idle",
    }
}

/// A pane's caption: its label, else the displayed agent, else the agent,
/// else its title, else `shell`.
pub open spec fn spec_caption_label(pane: PaneInfo) -> Seq<char> {
    match pane.label {
        Some(l) => l@,
        None => match pane.display_agent {
            Some(d) => d@,
            None => match pane.agent {
                Some(a) => a@,
                None => match pane.title {
                    Some(t) => t@,
                    None => "shell"@,
                },
            },
        },
    }
}

pub fn caption_label(pane: &PaneInfo) -> (s: String)
    ensures
        s@ == spec_caption_label(*pane),
{
    if let Some(l) = &pane.label {
        return l.clone();
    }
    if let Some(d) = &pane.display_agent {
        return d.clone();
    }
    if let Some(a) = &pane.agent {
        return a.clone();
    }
    if let Some(t) = &pane.title {
        return t.clone();
    }
    String::from_str("shell")
}

/// The first column highlighted on `row` of a selection.
pub open spec fn highlight_lo(start: CellPos, row: int) -> int {
    if row == start.1 { start.0 as int } else { 0 }
}

/// The last column highlighted on `row` of a selection in a frame `width`
/// cells wide.
pub open spec fn highlight_hi(end: CellPos, width: int, row: int) -> int {
    if row == end.1 { end.0 as int } else if width > 0 { width - 1 } else { 0 }
}

/// The pixel rect highlighting columns `lo..=hi` of `row`.
pub open spec fn highlight_rect(content: Rect, cell_w: int, cell_h: int, row: int, lo: int, hi: int) -> Rect {
    Rect {
        x: (content.x + lo * cell_w) as i32,
        y: (content.y + row * cell_h) as i32,
        w: ((hi - lo + 1) * cell_w) as i32,
        h: cell_h as i32,
    }
}

/// The highlight rects of a selection: one per row from the start row to
/// the end row that lies inside the frame and has a non-empty column span.
pub open spec fn spec_selection_rects(
    content: Rect,
    width: int,
    height: int,
    cell_w: int,
    cell_h: int,
    start: CellPos,
    end: CellPos,
) -> Seq<Rect>
{
    spec_selection_rects_upto(content, width, height, cell_w, cell_h, start, end, end.1 as int)
}

/// The highlight rects of the selected rows up to `last`.
pub open spec fn spec_selection_rects_upto(
    content: Rect,
    width: int,
    height: int,
    cell_w: int,
    cell_h: int,
    start: CellPos,
    end: CellPos,
    last: int,
) -> Seq<Rect>
    decreases last - start.1 + 1,
{
    if last < start.1 || last >= height {
        if last < start.1 {
            Seq::empty()
        } else {
            spec_selection_rects_upto(content, width, height, cell_w, cell_h, start, end, last - 1)
        }
    } else {
        let before = spec_selection_rects_upto(content, width, height, cell_w, cell_h, start, end, last - 1);
        let lo = highlight_lo(start, last);
        let hi = highlight_hi(end, width, last);
        if hi < lo {
            before
        } else {
            before.push(highlight_rect(content, cell_w, cell_h, last, lo, hi))
        }
    }
}

/// The values of every highlight rect fit in `i32`.
pub open spec fn selection_rects_fit(
    content: Rect,
    width: int,
    height: int,
    cell_w: int,
    cell_h: int,
    start: CellPos,
    end: CellPos,
) -> bool {
    forall|row: int|
        start.1 <= row <= end.1 && row < height ==> {
            let lo = highlight_lo(start, row);
            let hi = highlight_hi(end, width, row);
            &&& fits_i32(lo * cell_w)
            &&& fits_i32(content.x + lo * cell_w)
            &&& fits_i32(#[trigger] (row * cell_h))
            &&& fits_i32(content.y + row * cell_h)
            &&& hi - lo + 1 <= u16::MAX
            &&& fits_i32((hi - lo + 1) * cell_w)
        }
}

/// The rects that highlight the selection between `hl.start` and `hl.end`
/// in a pane showing a `width` x `height` frame with `cell_w` x `cell_h`
/// pixel cells at `content`.
pub fn selection_rects(content: Rect, width: u16, height: u16, cell_w: i32, cell_h: i32, hl: &Highlight) -> (rects: Vec<Rect>)
    requires
        ({
            let (start, end) = spec_ordered(hl.start, hl.end);
            selection_rects_fit(content, width as int, height as int, cell_w as int, cell_h as int, start, end)
        }),
    ensures
        ({
            let (start, end) = spec_ordered(hl.start, hl.end);
            rects@ == spec_selection_rects(content, width as int, height as int, cell_w as int, cell_h as int, start, end)
        }),
{
    let (start, end) = ordered(hl.start, hl.end);
    let mut rects: Vec<Rect> = Vec::new();
    let mut row: u32 = start.1 as u32;
    while row <= end.1 as u32
        invariant_except_break
            row <= end.1 + 1,
        invariant
            start.1 <= row,
            (start, end) == spec_ordered(hl.start, hl.end),
            selection_rects_fit(content, width as int, height as int, cell_w as int, cell_h as int, start, end),
            rects@ == spec_selection_rects_upto(
                content,
                width as int,
                height as int,
                cell_w as int,
                cell_h as int,
                start,
                end,
                row - 1,
            ),
        ensures
            rects@ == spec_selection_rects(content, width as int, height as int, cell_w as int, cell_h as int, start, end),
        decreases end.1 + 1 - row,
    {
        if row >= height as u32 {
            proof {
                lemma_rows_past_bottom(content, width as int, height as int, cell_w as int, cell_h as int, start, end, row as int);
            }
            break;
        }
        let r: u16 = row as u16;
        let col_lo: u16 = if r == start.1 { start.0 } else { 0 };
        let col_hi: u16 = if r == end.1 {
            end.0
        } else if width > 0 {
            width - 1
        } else {
            0
        };
        if col_hi >= col_lo {
            proof {
                let _ = row as int * cell_h;
            }
            let x: i32 = content.x + col_lo as i32 * cell_w;
            let w: i32 = (col_hi - col_lo + 1) as i32 * cell_w;
            let y: i32 = content.y + row as i32 * cell_h;
            rects.push(Rect::new(x, y, w, cell_h));
        }
        row += 1;
    }
    rects
}

/// Rows at or below the frame's bottom add no highlight.
proof fn lemma_rows_past_bottom(
    content: Rect,
    width: int,
    height: int,
    cell_w: int,
    cell_h: int,
    start: CellPos,
    end: CellPos,
    row: int,
)
    requires
        height <= row,
        start.1 <= row,
    ensures
        forall|last: int|
            row - 1 <= last ==> #[trigger] spec_selection_rects_upto(content, width, height, cell_w, cell_h, start, end, last)
                == spec_selection_rects_upto(content, width, height, cell_w, cell_h, start, end, row - 1),
{
    assert forall|last: int|
        row - 1 <= last implies #[trigger] spec_selection_rects_upto(content, width, height, cell_w, cell_h, start, end, last)
            == spec_selection_rects_upto(content, width, height, cell_w, cell_h, start, end, row - 1) by {
        lemma_rows_past_bottom_at(content, width, height, cell_w, cell_h, start, end, row, last);
    }
}

proof fn lemma_rows_past_bottom_at(
    content: Rect,
    width: int,
    height: int,
    cell_w: int,
    cell_h: int,
    start: CellPos,
    end: CellPos,
    row: int,
    last: int,
)
    requires
        height <= row,
        start.1 <= row,
        row - 1 <= last,
    ensures
        spec_selection_rects_upto(content, width, height, cell_w, cell_h, start, end, last)
            == spec_selection_rects_upto(content, width, height, cell_w, cell_h, start, end, row - 1),
    decreases last - row + 1,
{
    if last > row - 1 {
        lemma_rows_past_bottom_at(content, width, height, cell_w, cell_h, start, end, row, last - 1);
    }
}

/// An agent's status shows consistently: blocked in red, working in
/// yellow, done in blue, idle in green, each with its own word; an unknown
/// status reads as idle but keeps the neutral overlay color.
pub proof fn lemma_status_shows_consistently(palette: ChromePalette)
    ensures
        spec_status_color(palette, AgentStatus::Blocked) == palette.red && spec_status_text(AgentStatus::Blocked) == "blocked"@,
        spec_status_color(palette, AgentStatus::Working) == palette.yellow && spec_status_text(AgentStatus::Working) == "working"@,
        spec_status_color(palette, AgentStatus::Done) == palette.blue && spec_status_text(AgentStatus::Done) == "done"@,
        spec_status_color(palette, AgentStatus::Idle) == palette.green && spec_status_text(AgentStatus::Idle) == "idle"@,
        spec_status_color(palette, AgentStatus::Unknown) == palette.overlay && spec_status_text(AgentStatus::Unknown) == "idle"@,
{
}

/// A pane's own label always names it; without one, the displayed agent,
/// then the agent, then the title; a pane with none of them is a shell.
pub proof fn lemma_caption_prefers_the_label(pane: PaneInfo)
    ensures
        pane.label matches Some(l) ==> spec_caption_label(pane) == l@,
        pane.label is None ==> (pane.display_agent matches Some(d) ==> spec_caption_label(pane) == d@),
        (pane.label is None && pane.display_agent is None) ==> (pane.agent matches Some(a) ==> spec_caption_label(pane) == a@),
        (pane.label is None && pane.display_agent is None && pane.agent is None) ==> (pane.title matches Some(t)
            ==> spec_caption_label(pane) == t@),
        pane.label is None && pane.display_agent is None && pane.agent is None && pane.title is None
            ==> spec_caption_label(pane) == "shell"@,
{
}

} // verus!
