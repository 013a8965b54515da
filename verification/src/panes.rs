//! The table of per-pane terminal streams.
//!
//! Each visible pane is backed by its own connection attached to one
//! terminal. This table records, per terminal, the grid its connection was
//! opened or last resized to and the latest frame received; it decides when
//! a connection must be opened or resized. The connections themselves live
//! with the caller, keyed by the same terminal ids.

use vstd::prelude::*;
use vstd::hash_set::StringHashSet;
use crate::args::str_eq;
use crate::connection::Geometry;
use crate::frame::FrameData;

verus! {

/// One terminal's stream: its grid and the latest frame, if any.
#[derive(Debug)]
pub struct PaneEntry {
    pub terminal_id: String,
    pub cols: u16,
    pub rows: u16,
    pub frame: Option<FrameData>,
}

/// The value of an entry.
pub open spec fn entry_view(e: PaneEntry) -> (Seq<char>, u16, u16, Option<FrameData>) {
    (e.terminal_id@, e.cols, e.rows, e.frame)
}

/// No terminal appears twice.
pub open spec fn ids_distinct(s: Seq<(Seq<char>, u16, u16, Option<FrameData>)>) -> bool {
    forall|i: int, j: int| 0 <= i < j < s.len() ==> (#[trigger] s[i]).0 != (#[trigger] s[j]).0
}

/// The position of terminal `id` in the table, if it has an entry.
pub open spec fn position(s: Seq<(Seq<char>, u16, u16, Option<FrameData>)>, id: Seq<char>) -> Option<int> {
    if exists|i: int| 0 <= i < s.len() && (#[trigger] s[i]).0 == id {
        Some(choose|i: int| 0 <= i < s.len() && (#[trigger] s[i]).0 == id)
    } else {
        None
    }
}

/// The entries of terminals in `visible`, in order.
pub open spec fn kept(s: Seq<(Seq<char>, u16, u16, Option<FrameData>)>, visible: Set<Seq<char>>) -> Seq<
    (Seq<char>, u16, u16, Option<FrameData>),
> {
    s.filter(|e: (Seq<char>, u16, u16, Option<FrameData>)| visible.contains(e.0))
}

/// What keeping a pane's stream in step with its grid takes.
#[derive(Debug, Clone, Copy, PartialEq, Eq, Structural)]
pub enum PaneAction {
    /// No stream yet: attach one with this geometry.
    Open(Geometry),
    /// The stream's grid changed: tell the server this geometry.
    Resize(Geometry),
    /// The stream is already open at this grid.
    Nothing,
}

/// Streams for visible terminals, keyed by terminal id.
#[derive(Debug)]
pub struct PaneTable {
    cell_w: u32,
    cell_h: u32,
    entries: Vec<PaneEntry>,
}

/// `v` raised to at least one.
pub open spec fn at_least_one(v: u16) -> u16 {
    if v > 1 { v } else { 1 }
}

impl PaneTable {
    /// The entries, in the order their streams were opened.
    pub closed spec fn view(&self) -> Seq<(Seq<char>, u16, u16, Option<FrameData>)> {
        self.entries@.map_values(|e: PaneEntry| entry_view(e))
    }

    pub closed spec fn spec_cell_w(&self) -> u32 {
        self.cell_w
    }

    pub closed spec fn spec_cell_h(&self) -> u32 {
        self.cell_h
    }

    /// The geometry of a `cols` x `rows` grid of this table's cells.
    pub open spec fn geometry(&self, cols: u16, rows: u16) -> Geometry {
        Geometry { cols, rows, cell_width_px: self.spec_cell_w(), cell_height_px: self.spec_cell_h() }
    }

    /// The table is well formed: no terminal has two entries.
    pub open spec fn wf(&self) -> bool {
        ids_distinct(self@)
    }

    /// An empty table for cells of `cell_w` x `cell_h` pixels.
    pub fn new(cell_w: u32, cell_h: u32) -> (t: Self)
        ensures
            t@ == Seq::<(Seq<char>, u16, u16, Option<FrameData>)>::empty(),
            t.wf(),
            t.spec_cell_w() == cell_w,
            t.spec_cell_h() == cell_h,
    {
        let t = PaneTable { cell_w, cell_h, entries: Vec::new() };
        assert(t@ =~= Seq::<(Seq<char>, u16, u16, Option<FrameData>)>::empty());
        t
    }

    /// The position of `terminal_id`'s entry.
    fn find(&self, terminal_id: &str) -> (i: Option<usize>)
        requires
            self.wf(),
        ensures
            match i {
                Some(k) => position(self@, terminal_id@) == Some(k as int) && k < self@.len(),
                None => position(self@, terminal_id@) is None,
            },
    {
        let n: usize = self.entries.len();
        let mut i: usize = 0;
        while i < n
            invariant
                self.wf(),
                n == self.entries@.len(),
                n == self@.len(),
                i <= n,
                forall|j: int| 0 <= j < i ==> (#[trigger] self@[j]).0 != terminal_id@,
            decreases n - i,
        {
            if str_eq(self.entries[i].terminal_id.as_str(), terminal_id) {
                proof {
                    assert(self@[i as int].0 == terminal_id@);
                    let c = choose|c: int| 0 <= c < self@.len() && (#[trigger] self@[c]).0 == terminal_id@;
                    if c < i {
                        assert(self@[c].0 != terminal_id@);
                    }
                    if c > i {
                        assert(self@[i as int].0 != self@[c].0);
                    }
                }
                return Some(i);
            }
            assert(self@[i as int].0 != terminal_id@);
            i += 1;
        }
        None
    }

    /// Decides what the stream of `terminal_id` needs for a `cols` x `rows`
    /// grid (each raised to at least one): an existing stream whose grid
    /// changed is resized (and its entry updated), an existing stream at
    /// that grid needs nothing, and a terminal without a stream gets one
    /// opened.
    pub fn plan(&mut self, terminal_id: &str, cols: u16, rows: u16) -> (action: PaneAction)
        requires
            old(self).wf(),
        ensures
            final(self).wf(),
            final(self).spec_cell_w() == old(self).spec_cell_w(),
            final(self).spec_cell_h() == old(self).spec_cell_h(),
            ({
                let c = at_least_one(cols);
                let r = at_least_one(rows);
                match position(old(self)@, terminal_id@) {
                    Some(i) => if old(self)@[i].1 != c || old(self)@[i].2 != r {
                        &&& action == PaneAction::Resize(old(self).geometry(c, r))
                        &&& final(self)@ == old(self)@.update(i, (terminal_id@, c, r, old(self)@[i].3))
                    } else {
                        &&& action == PaneAction::Nothing
                        &&& final(self)@ == old(self)@
                    },
                    None => {
                        &&& action == PaneAction::Open(old(self).geometry(c, r))
                        &&& final(self)@ == old(self)@
                    },
                }
            }),
    {
        let c: u16 = if cols > 1 { cols } else { 1 };
        let r: u16 = if rows > 1 { rows } else { 1 };
        let geometry = Geometry { cols: c, rows: r, cell_width_px: self.cell_w, cell_height_px: self.cell_h };
        match self.find(terminal_id) {
            Some(i) => {
                if self.entries[i].cols != c || self.entries[i].rows != r {
                    let ghost before = self@;
                    let mut entry = self.entries.remove(i);
                    entry.cols = c;
                    entry.rows = r;
                    self.entries.insert(i, entry);
                    proof {
                        assert(self@ =~= before.update(i as int, (terminal_id@, c, r, before[i as int].3)));
                    }
                    PaneAction::Resize(geometry)
                } else {
                    PaneAction::Nothing
                }
            },
            None => PaneAction::Open(geometry),
        }
    }

    /// Records a stream opened for `terminal_id` at a `cols` x `rows` grid,
    /// with no frame yet.
    pub fn opened(&mut self, terminal_id: String, cols: u16, rows: u16)
        requires
            old(self).wf(),
            position(old(self)@, terminal_id@) is None,
        ensures
            final(self).wf(),
            final(self)@ == old(self)@.push((terminal_id@, cols, rows, None::<FrameData>)),
            final(self).spec_cell_w() == old(self).spec_cell_w(),
            final(self).spec_cell_h() == old(self).spec_cell_h(),
    {
        let ghost before = self@;
        let ghost id = terminal_id@;
        self.entries.push(PaneEntry { terminal_id, cols, rows, frame: None });
        proof {
            assert(self@ =~= before.push((id, cols, rows, None::<FrameData>)));
            assert forall|i: int, j: int| 0 <= i < j < self@.len() implies (#[trigger] self@[i]).0 != (#[trigger] self@[j]).0 by {
                if j == before.len() {
                    assert(self@[i] == before[i]);
                }
            }
        }
    }

    /// Drops the streams of terminals not in `visible`.
    pub fn retain_visible(&mut self, visible: &StringHashSet)
        requires
            old(self).wf(),
        ensures
            final(self).wf(),
            final(self)@ == kept(old(self)@, visible@),
            final(self).spec_cell_w() == old(self).spec_cell_w(),
            final(self).spec_cell_h() == old(self).spec_cell_h(),
    {
        let ghost before = self@;
        let mut old_entries: Vec<PaneEntry> = Vec::new();
        std::mem::swap(&mut old_entries, &mut self.entries);
        assert(old_entries@.map_values(|e: PaneEntry| entry_view(e)) == before);
        let mut kept_entries: Vec<PaneEntry> = Vec::new();
        let mut rest = old_entries;
        let n: usize = rest.len();
        let mut i: usize = 0;
        while i < n
            invariant
                n == before.len(),
                rest@.len() == n - i,
                i <= n,
                forall|k: int| 0 <= k < n - i ==> entry_view(#[trigger] rest@[k]) == before[i + k],
                kept_entries@.map_values(|e: PaneEntry| entry_view(e)) == kept(before.take(i as int), visible@),
            decreases n - i,
        {
            let ghost rest_before = rest@;
            let entry = rest.remove(0);
            proof {
                assert(entry_view(entry) == before[i as int]);
                assert forall|k: int| 0 <= k < n - (i + 1) implies entry_view(#[trigger] rest@[k]) == before[i + 1 + k] by {
                    assert(rest@[k] == rest_before[k + 1]);
                }
                reveal_with_fuel(Seq::<_>::filter, 1);
                assert(before.take(i + 1).drop_last() =~= before.take(i as int));
                assert(before.take(i + 1).last() == before[i as int]);
            }
            let ghost prev = kept_entries@;
            if visible.contains(entry.terminal_id.as_str()) {
                kept_entries.push(entry);
                proof {
                    assert(kept_entries@.map_values(|e: PaneEntry| entry_view(e)) =~= prev.map_values(
                        |e: PaneEntry| entry_view(e),
                    ).push(before[i as int]));
                }
            }
            i += 1;
        }
        proof {
            assert(before.take(n as int) =~= before);
        }
        self.entries = kept_entries;
        proof {
            lemma_kept_distinct(before, visible@);
        }
    }

    /// Stores the latest frame of `terminal_id`'s stream; a terminal
    /// without a stream is ignored.
    pub fn set_frame(&mut self, terminal_id: &str, frame: FrameData)
        requires
            old(self).wf(),
        ensures
            final(self).wf(),
            final(self)@ == match position(old(self)@, terminal_id@) {
                Some(i) => old(self)@.update(i, (old(self)@[i].0, old(self)@[i].1, old(self)@[i].2, Some(frame))),
                None => old(self)@,
            },
            final(self).spec_cell_w() == old(self).spec_cell_w(),
            final(self).spec_cell_h() == old(self).spec_cell_h(),
    {
        if let Some(i) = self.find(terminal_id) {
            let ghost before = self@;
            let mut entry = self.entries.remove(i);
            entry.frame = Some(frame);
            self.entries.insert(i, entry);
            proof {
                assert(self@ =~= before.update(
                    i as int,
                    (before[i as int].0, before[i as int].1, before[i as int].2, Some(frame)),
                ));
            }
        }
    }

    /// Drops the stream of `terminal_id`, if any.
    pub fn remove(&mut self, terminal_id: &str)
        requires
            old(self).wf(),
        ensures
            final(self).wf(),
            final(self)@ == match position(old(self)@, terminal_id@) {
                Some(i) => old(self)@.remove(i),
                None => old(self)@,
            },
            final(self).spec_cell_w() == old(self).spec_cell_w(),
            final(self).spec_cell_h() == old(self).spec_cell_h(),
    {
        if let Some(i) = self.find(terminal_id) {
            let ghost before = self@;
            let _ = self.entries.remove(i);
            proof {
                assert(self@ =~= before.remove(i as int));
                assert forall|a: int, b: int| 0 <= a < b < self@.len() implies (#[trigger] self@[a]).0 != (#[trigger] self@[b]).0 by {
                    let a0 = if a < i { a } else { a + 1 };
                    let b0 = if b < i { b } else { b + 1 };
                    assert(self@[a] == before[a0]);
                    assert(self@[b] == before[b0]);
                }
            }
        }
    }

    /// The latest frame of `terminal_id`'s stream.
    pub fn frame(&self, terminal_id: &str) -> (f: Option<&FrameData>)
        requires
            self.wf(),
        ensures
            match position(self@, terminal_id@) {
                Some(i) => match f {
                    Some(fr) => self@[i].3 == Some(*fr),
                    None => self@[i].3 is None,
                },
                None => f is None,
            },
    {
        match self.find(terminal_id) {
            Some(i) => {
                proof {
                    assert(self@[i as int] == entry_view(self.entries@[i as int]));
                }
                match &self.entries[i].frame {
                    Some(fr) => Some(fr),
                    None => None,
                }
            },
            None => None,
        }
    }

    /// Whether `terminal_id` has a stream (so its input can be sent).
    pub fn has(&self, terminal_id: &str) -> (b: bool)
        requires
            self.wf(),
        ensures
            b == (position(self@, terminal_id@) is Some),
    {
        self.find(terminal_id).is_some()
    }
}

/// Keeping a subset of distinct entries keeps them distinct.
proof fn lemma_kept_distinct(s: Seq<(Seq<char>, u16, u16, Option<FrameData>)>, visible: Set<Seq<char>>)
    requires
        ids_distinct(s),
    ensures
        ids_distinct(kept(s, visible)),
    decreases s.len(),
{
    reveal_with_fuel(Seq::<_>::filter, 1);
    if s.len() > 0 {
        let rest = s.drop_last();
        assert(ids_distinct(rest));
        lemma_kept_distinct(rest, visible);
        lemma_kept_subset(rest, visible);
        let k = kept(rest, visible);
        if visible.contains(s.last().0) {
            assert forall|i: int, j: int| 0 <= i < j < k.push(s.last()).len() implies (#[trigger] k.push(s.last())[i]).0
                != (#[trigger] k.push(s.last())[j]).0 by {
                if j == k.len() {
                    let m = choose|m: int| 0 <= m < rest.len() && rest[m] == k[i];
                    assert(s[m] == rest[m]);
                    assert(s[s.len() - 1] == s.last());
                }
            }
        }
    }
}

/// Every kept entry is an entry of the table.
proof fn lemma_kept_subset(s: Seq<(Seq<char>, u16, u16, Option<FrameData>)>, visible: Set<Seq<char>>)
    ensures
        forall|i: int| 0 <= i < kept(s, visible).len() ==> exists|m: int| 0 <= m < s.len() && s[m] == #[trigger] kept(s, visible)[i],
    decreases s.len(),
{
    reveal_with_fuel(Seq::<_>::filter, 1);
    if s.len() > 0 {
        let rest = s.drop_last();
        lemma_kept_subset(rest, visible);
        let k = kept(rest, visible);
        assert forall|i: int| 0 <= i < kept(s, visible).len() implies exists|m: int| 0 <= m < s.len() && s[m] == #[trigger] kept(s, visible)[i] by {
            if i < k.len() {
                let m = choose|m: int| 0 <= m < rest.len() && rest[m] == k[i];
                assert(s[m] == rest[m]);
            } else {
                assert(s[s.len() - 1] == kept(s, visible)[i]);
            }
        }
    }
}

/// A stream just opened is found again at the end of the table, so
/// planning the same grid for it afterwards needs nothing, and the table
/// still holds each terminal once.
pub proof fn lemma_opened_is_found(
    s: Seq<(Seq<char>, u16, u16, Option<FrameData>)>,
    id: Seq<char>,
    cols: u16,
    rows: u16,
)
    requires
        ids_distinct(s),
        position(s, id) is None,
    ensures
        position(s.push((id, cols, rows, None::<FrameData>)), id) == Some(s.len() as int),
        ids_distinct(s.push((id, cols, rows, None::<FrameData>))),
{
    let t = s.push((id, cols, rows, None::<FrameData>));
    assert(t[s.len() as int].0 == id);
    let c = choose|i: int| 0 <= i < t.len() && (#[trigger] t[i]).0 == id;
    if c < s.len() {
        assert(t[c] == s[c]);
    }
    assert forall|i: int, j: int| 0 <= i < j < t.len() implies (#[trigger] t[i]).0 != (#[trigger] t[j]).0 by {
        if j == s.len() {
            assert(t[i] == s[i]);
        } else {
            assert(t[i] == s[i] && t[j] == s[j]);
        }
    }
}

/// In a table without repeated ids, the entry that carries `id` is the one
/// `position` finds.
proof fn lemma_position_is_the_entry(s: Seq<(Seq<char>, u16, u16, Option<FrameData>)>, id: Seq<char>, i: int)
    requires
        ids_distinct(s),
        0 <= i < s.len(),
        s[i].0 == id,
    ensures
        position(s, id) == Some(i),
{
    let c = choose|k: int| 0 <= k < s.len() && (#[trigger] s[k]).0 == id;
    if c < i {
        assert(s[c].0 != s[i].0);
    } else if c > i {
        assert(s[i].0 != s[c].0);
    }
}

/// The frame stored for a terminal with a stream (`set_frame`) is the frame
/// read back for it (`frame`); every other terminal keeps its entry, and
/// the table still holds each terminal once.
pub proof fn lemma_frame_reads_back(s: Seq<(Seq<char>, u16, u16, Option<FrameData>)>, id: Seq<char>, frame: FrameData)
    requires
        ids_distinct(s),
        position(s, id) is Some,
    ensures
        ({
            let i = position(s, id)->0;
            let t = s.update(i, (s[i].0, s[i].1, s[i].2, Some(frame)));
            &&& ids_distinct(t)
            &&& position(t, id) == Some(i)
            &&& t[i].3 == Some(frame)
            &&& forall|k: int| 0 <= k < s.len() && k != i ==> t[k] == s[k]
            &&& forall|other: Seq<char>| position(t, other) == position(s, other)
        }),
{
    let i = position(s, id)->0;
    let t = s.update(i, (s[i].0, s[i].1, s[i].2, Some(frame)));
    assert forall|a: int, b: int| 0 <= a < b < t.len() implies (#[trigger] t[a]).0 != (#[trigger] t[b]).0 by {
        assert(t[a].0 == s[a].0 && t[b].0 == s[b].0);
    }
    lemma_position_is_the_entry(t, id, i);
    assert forall|other: Seq<char>| position(t, other) == position(s, other) by {
        if exists|k: int| 0 <= k < s.len() && (#[trigger] s[k]).0 == other {
            let k = choose|k: int| 0 <= k < s.len() && (#[trigger] s[k]).0 == other;
            lemma_position_is_the_entry(s, other, k);
            assert(t[k].0 == other);
            lemma_position_is_the_entry(t, other, k);
        } else {
            assert forall|k: int| 0 <= k < t.len() implies (#[trigger] t[k]).0 != other by {
                assert(t[k].0 == s[k].0);
            }
        }
    }
}

/// After a terminal's stream is removed (`remove`), the table has no entry
/// for it, and still holds each other terminal once.
pub proof fn lemma_removed_is_gone(s: Seq<(Seq<char>, u16, u16, Option<FrameData>)>, id: Seq<char>)
    requires
        ids_distinct(s),
        position(s, id) is Some,
    ensures
        position(s.remove(position(s, id)->0), id) is None,
        ids_distinct(s.remove(position(s, id)->0)),
{
    let i = position(s, id)->0;
    let t = s.remove(i);
    assert forall|k: int| 0 <= k < t.len() implies (#[trigger] t[k]).0 != id by {
        if k < i {
            assert(t[k] == s[k]);
            assert(s[k].0 != s[i].0);
        } else {
            assert(t[k] == s[k + 1]);
            assert(s[i].0 != s[k + 1].0);
        }
    }
    assert forall|a: int, b: int| 0 <= a < b < t.len() implies (#[trigger] t[a]).0 != (#[trigger] t[b]).0 by {
        let sa = if a < i { a } else { a + 1 };
        let sb = if b < i { b } else { b + 1 };
        assert(t[a] == s[sa] && t[b] == s[sb]);
    }
}

/// After keeping the visible terminals (`retain_visible`), a terminal has
/// an entry exactly when it had one before and is visible.
pub proof fn lemma_kept_are_the_visible(
    s: Seq<(Seq<char>, u16, u16, Option<FrameData>)>,
    visible: Set<Seq<char>>,
    id: Seq<char>,
)
    requires
        ids_distinct(s),
    ensures
        (position(kept(s, visible), id) is Some) == (position(s, id) is Some && visible.contains(id)),
{
    let pred = |e: (Seq<char>, u16, u16, Option<FrameData>)| visible.contains(e.0);
    let k = kept(s, visible);
    assert(k == s.filter(pred));
    if position(k, id) is Some {
        let j = choose|j: int| 0 <= j < k.len() && (#[trigger] k[j]).0 == id;
        s.lemma_filter_pred(pred, j);
        lemma_kept_subset(s, visible);
        let m = choose|m: int| 0 <= m < s.len() && s[m] == #[trigger] kept(s, visible)[j];
        assert(s[m].0 == id);
    }
    if position(s, id) is Some && visible.contains(id) {
        let i = position(s, id)->0;
        s.lemma_filter_contains(pred, i);
        let j = choose|j: int| 0 <= j < k.len() && k[j] == s[i];
        assert(k[j].0 == id);
    }
}

} // verus!
