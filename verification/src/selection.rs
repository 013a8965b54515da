//! Text selections within a pane: ordering the two endpoints and extracting
//! the selected text from a frame.

use vstd::prelude::*;
use crate::frame::{CellData, FrameData};

verus! {

/// A cell address as `(column, row)`.
pub type CellPos = (u16, u16);

/// `a` comes no later than `b` in reading order (row, then column).
pub open spec fn reads_before(a: CellPos, b: CellPos) -> bool {
    a.1 < b.1 || (a.1 == b.1 && a.0 <= b.0)
}

pub open spec fn spec_ordered(a: CellPos, b: CellPos) -> (CellPos, CellPos) {
    if reads_before(a, b) { (a, b) } else { (b, a) }
}

/// Orders two cell coordinates into reading order (start <= end).
pub fn ordered(a: CellPos, b: CellPos) -> (r: (CellPos, CellPos))
    ensures
        r == spec_ordered(a, b),
{
    if a.1 < b.1 || (a.1 == b.1 && a.0 <= b.0) {
        (a, b)
    } else {
        (b, a)
    }
}

/// Ordering does not depend on which endpoint came first, and its result
/// is in reading order.
pub proof fn lemma_ordered_symmetric(a: CellPos, b: CellPos)
    ensures
        spec_ordered(a, b) == spec_ordered(b, a),
        reads_before(spec_ordered(a, b).0, spec_ordered(a, b).1),
{
}

/// Unicode `White_Space`, the set `char::is_whitespace` tests.
pub open spec fn spec_is_whitespace(c: char) -> bool {
    ||| ('\u{9}' <= c <= '\u{d}')
    ||| c == ' '
    ||| c == '\u{85}'
    ||| c == '\u{a0}'
    ||| c == '\u{1680}'
    ||| ('\u{2000}' <= c <= '\u{200a}')
    ||| c == '\u{2028}'
    ||| c == '\u{2029}'
    ||| c == '\u{202f}'
    ||| c == '\u{205f}'
    ||| c == '\u{3000}'
}

pub fn is_whitespace(c: char) -> (b: bool)
    ensures
        b == spec_is_whitespace(c),
{
    ('\u{9}' <= c && c <= '\u{d}') || c == ' ' || c == '\u{85}' || c == '\u{a0}' || c == '\u{1680}'
        || ('\u{2000}' <= c && c <= '\u{200a}') || c == '\u{2028}' || c == '\u{2029}' || c == '\u{202f}'
        || c == '\u{205f}' || c == '\u{3000}'
}

/// `s` without its trailing whitespace.
pub open spec fn spec_trim_end(s: Seq<char>) -> Seq<char>
    decreases s.len(),
{
    if s.len() > 0 && spec_is_whitespace(s.last()) {
        spec_trim_end(s.drop_last())
    } else {
        s
    }
}

/// The lines joined with `'\n'` between them.
pub open spec fn spec_join_lines(lines: Seq<Seq<char>>) -> Seq<char>
    decreases lines.len(),
{
    if lines.len() == 0 {
        Seq::empty()
    } else if lines.len() == 1 {
        lines[0]
    } else {
        spec_join_lines(lines.drop_last()) + seq!['\n'] + lines.last()
    }
}

/// The symbols of the cells `base + lo ..= base + hi` that exist, concatenated.
pub open spec fn cells_text(cells: Seq<CellData>, base: int, lo: int, hi: int) -> Seq<char>
    decreases hi - lo + 1,
{
    if hi < lo {
        Seq::empty()
    } else {
        cells_text(cells, base, lo, hi - 1) + if 0 <= base + hi < cells.len() {
            cells[base + hi].symbol@
        } else {
            Seq::empty()
        }
    }
}

/// The last row a selection reaches, clamped to the frame.
pub open spec fn last_selected_row(frame: FrameData, end: CellPos) -> int {
    let bottom: int = if frame.height > 0 { frame.height - 1 } else { 0 };
    if end.1 < bottom { end.1 as int } else { bottom }
}

/// The `k`-th line of the selection from `start` to `end` (in reading
/// order): from the start column on the first row, to the end column on
/// the last row, whole rows between, with trailing whitespace removed.
pub open spec fn selection_line(frame: FrameData, start: CellPos, end: CellPos, k: int) -> Seq<char> {
    let row: int = start.1 + k;
    let lo: int = if row == start.1 { start.0 as int } else { 0 };
    let hi: int = if row == end.1 { end.0 as int } else if frame.width > 0 { frame.width - 1 } else { 0 };
    spec_trim_end(cells_text(frame.cells@, row * frame.width, lo, hi))
}

/// The selected lines, one per selected row of the frame.
pub open spec fn selection_lines(frame: FrameData, anchor: CellPos, head: CellPos) -> Seq<Seq<char>> {
    let (start, end) = spec_ordered(anchor, head);
    let n: int = last_selected_row(frame, end) - start.1 + 1;
    Seq::new(if n > 0 { n as nat } else { 0 }, |k: int| selection_line(frame, start, end, k))
}

/// The text of the selection between `anchor` and `head`.
pub open spec fn spec_selection_text(frame: FrameData, anchor: CellPos, head: CellPos) -> Seq<char> {
    spec_join_lines(selection_lines(frame, anchor, head))
}

/// Calls std's `String::push`, which appends one character; the contract
/// claims exactly that: the string's characters become the old ones
/// followed by `c`.
#[verifier::external_body]
pub(crate) fn push_char(s: &mut String, c: char)
    ensures
        final(s)@ == old(s)@.push(c),
{
    s.push(c);
}

/// The length of `s` without its trailing whitespace.
fn trimmed_len(s: &str) -> (n: usize)
    ensures
        n <= s@.len(),
        s@.take(n as int) == spec_trim_end(s@),
{
    let mut n: usize = s.unicode_len();
    proof {
        assert(s@.take(n as int) =~= s@);
    }
    while n > 0 && is_whitespace(s.get_char(n - 1))
        invariant
            n <= s@.len(),
            spec_trim_end(s@.take(n as int)) == spec_trim_end(s@),
        decreases n,
    {
        proof {
            assert(s@.take(n as int).drop_last() =~= s@.take(n - 1));
        }
        n -= 1;
    }
    n
}

/// The symbols of cells `base + lo ..= base + hi` that exist, concatenated.
fn collect_cells(cells: &Vec<CellData>, base: usize, lo: u16, hi: u16) -> (s: String)
    requires
        base <= 0xFFFF * 0xFFFF,
    ensures
        s@ == cells_text(cells@, base as int, lo as int, hi as int),
{
    let mut s = String::new();
    proof {
        assert(s@ =~= cells_text(cells@, base as int, lo as int, lo - 1));
    }
    if hi < lo {
        return s;
    }
    let mut col: u32 = lo as u32;
    while col <= hi as u32
        invariant
            lo <= col <= hi as u32 + 1,
            s@ == cells_text(cells@, base as int, lo as int, col - 1),
            base <= 0xFFFF * 0xFFFF,
        decreases hi as u32 + 1 - col,
    {
        let idx: usize = base + col as usize;
        if idx < cells.len() {
            s.append(cells[idx].symbol.as_str());
        }
        col += 1;
    }
    s
}

/// Extracts the text covered by a selection from a rendered frame.
pub fn selection_text(frame: &FrameData, anchor: CellPos, head: CellPos) -> (text: String)
    ensures
        text@ == spec_selection_text(*frame, anchor, head),
{
    let (start, end) = ordered(anchor, head);
    let width: usize = frame.width as usize;
    let bottom: u16 = if frame.height > 0 { frame.height - 1 } else { 0 };
    let last: u16 = if end.1 < bottom { end.1 } else { bottom };
    let ghost lines = selection_lines(*frame, anchor, head);
    let mut text = String::new();
    if start.1 > last {
        proof {
            assert(lines.len() == 0);
        }
        return text;
    }
    let mut row: u32 = start.1 as u32;
    while row <= last as u32
        invariant
            start.1 <= row <= last as u32 + 1,
            width == frame.width,
            last == last_selected_row(*frame, end),
            (start, end) == spec_ordered(anchor, head),
            lines == selection_lines(*frame, anchor, head),
            lines.len() == last - start.1 + 1,
            text@ == spec_join_lines(lines.take(row - start.1)),
        decreases last as u32 + 1 - row,
    {
        let r: u16 = row as u16;
        let col_lo: u16 = if r == start.1 { start.0 } else { 0 };
        let col_hi: u16 = if r == end.1 {
            end.0
        } else if frame.width > 0 {
            frame.width - 1
        } else {
            0
        };
        proof {
            assert(row * width <= 0xFFFF * 0xFFFF) by (nonlinear_arith)
                requires
                    row <= 0xFFFF,
                    width <= 0xFFFF,
            ;
        }
        let line = collect_cells(&frame.cells, row as usize * width, col_lo, col_hi);
        let keep: usize = trimmed_len(line.as_str());
        let trimmed = line.as_str().substring_char(0, keep);
        let ghost k: int = row - start.1;
        proof {
            assert(trimmed@ == lines[k]);
            assert(lines.take(k + 1).drop_last() =~= lines.take(k));
            assert(lines.take(k + 1).last() == lines[k]);
        }
        if row > start.1 as u32 {
            push_char(&mut text, '\n');
        }
        text.append(trimmed);
        proof {
            if k == 0 {
                assert(text@ =~= spec_join_lines(lines.take(k + 1)));
            } else {
                assert(text@ =~= spec_join_lines(lines.take(k + 1)));
            }
        }
        row += 1;
    }
    proof {
        assert(lines.take(row - start.1) =~= lines);
    }
    text
}

/// Selecting from `a` to `b` gives the same text as selecting from `b` to `a`.
pub proof fn lemma_selection_text_symmetric(frame: FrameData, a: CellPos, b: CellPos)
    ensures
        spec_selection_text(frame, a, b) == spec_selection_text(frame, b, a),
{
    lemma_ordered_symmetric(a, b);
}

/// Trimming the end removes exactly the trailing whitespace: the result is
/// a prefix of the text that is empty or ends in a non-whitespace
/// character, and every character cut off is whitespace.
pub proof fn lemma_trim_end_cuts_only_whitespace(s: Seq<char>)
    ensures
        spec_trim_end(s).len() <= s.len(),
        spec_trim_end(s) == s.take(spec_trim_end(s).len() as int),
        spec_trim_end(s).len() == 0 || !spec_is_whitespace(spec_trim_end(s).last()),
        forall|i: int| spec_trim_end(s).len() <= i < s.len() ==> spec_is_whitespace(#[trigger] s[i]),
    decreases s.len(),
{
    if s.len() > 0 && spec_is_whitespace(s.last()) {
        let d = s.drop_last();
        lemma_trim_end_cuts_only_whitespace(d);
        assert(d.take(spec_trim_end(d).len() as int) =~= s.take(spec_trim_end(d).len() as int));
        assert forall|i: int| spec_trim_end(s).len() <= i < s.len() implies spec_is_whitespace(#[trigger] s[i]) by {
            if i < d.len() {
                assert(s[i] == d[i]);
            }
        }
    } else {
        assert(s.take(s.len() as int) =~= s);
    }
}

} // verus!
