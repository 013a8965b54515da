//! UI-side state model for the native chrome.
//!
//! This mirrors the slice of server state the native widgets need: the
//! workspace list, the active workspace's tabs, the active workspace's panes,
//! every pane of every workspace, the agent list, and the active tab's layout
//! snapshot.

use vstd::prelude::*;
use vstd::hash_set::StringHashSet;
use crate::schema::{AgentInfo, LayoutPane, PaneInfo, PaneLayoutSnapshot, TabInfo, WorkspaceInfo};

verus! {

#[derive(Debug, Clone)]
pub struct UiModel {
    pub workspaces: Vec<WorkspaceInfo>,
    pub tabs: Vec<TabInfo>,
    /// Panes in the focused workspace (all tabs).
    pub panes: Vec<PaneInfo>,
    /// Panes across every workspace, used to keep per-pane attach streams alive
    /// while another workspace is focused.
    pub all_panes: Vec<PaneInfo>,
    pub agents: Vec<AgentInfo>,
    pub layout: Option<PaneLayoutSnapshot>,
    pub active_workspace_id: Option<String>,
    pub active_tab_id: Option<String>,
    pub focused_pane_id: Option<String>,
}

impl Default for UiModel {
    fn default() -> (m: Self)
        ensures
            m.workspaces@.len() == 0,
            m.tabs@.len() == 0,
            m.panes@.len() == 0,
            m.all_panes@.len() == 0,
            m.agents@.len() == 0,
            m.layout is None,
            m.active_workspace_id is None,
            m.active_tab_id is None,
            m.focused_pane_id is None,
    {
        UiModel {
            workspaces: Vec::new(),
            tabs: Vec::new(),
            panes: Vec::new(),
            all_panes: Vec::new(),
            agents: Vec::new(),
            layout: None,
            active_workspace_id: None,
            active_tab_id: None,
            focused_pane_id: None,
        }
    }
}

/// The values a sequence of references points to.
pub open spec fn derefs<T>(s: Seq<&T>) -> Seq<T> {
    s.map_values(|r: &T| *r)
}

/// The non-empty terminal ids carried by `panes`.
pub open spec fn terminal_id_set(panes: Seq<PaneInfo>) -> Set<Seq<char>> {
    Set::new(
        |t: Seq<char>|
            t.len() > 0 && exists|i: int| 0 <= i < panes.len() && #[trigger] panes[i].terminal_id@ == t,
    )
}

/// Whether `pane` belongs to the tab `tab_id`.
pub open spec fn in_tab(tab_id: Seq<char>) -> spec_fn(PaneInfo) -> bool {
    |p: PaneInfo| p.tab_id@ == tab_id
}

/// `i` is the first index of `panes` whose pane id is `pane_id`.
pub open spec fn is_first_pane_with_id(panes: Seq<PaneInfo>, pane_id: Seq<char>, i: int) -> bool {
    &&& 0 <= i < panes.len()
    &&& panes[i].pane_id@ == pane_id
    &&& forall|j: int| 0 <= j < i ==> #[trigger] panes[j].pane_id@ != pane_id
}

/// Some pane of `panes` has the pane id `pane_id`.
pub open spec fn has_pane_with_id(panes: Seq<PaneInfo>, pane_id: Seq<char>) -> bool {
    exists|i: int| 0 <= i < panes.len() && #[trigger] panes[i].pane_id@ == pane_id
}

/// The panes whose id is `pane_id`.
pub open spec fn with_pane_id(pane_id: Seq<char>) -> spec_fn(PaneInfo) -> bool {
    |p: PaneInfo| p.pane_id@ == pane_id
}

/// Some pane of the layout has id `pane_id`.
pub open spec fn listed_in(layout: Seq<LayoutPane>, pane_id: Seq<char>) -> bool {
    exists|j: int| 0 <= j < layout.len() && #[trigger] layout[j].pane_id@ == pane_id
}

/// The panes that no pane of the layout names.
pub open spec fn unlisted(layout: Seq<LayoutPane>) -> spec_fn(PaneInfo) -> bool {
    |p: PaneInfo| !listed_in(layout, p.pane_id@)
}

/// Layout pane `j` is the first of the layout with its id.
pub open spec fn first_listing(layout: Seq<LayoutPane>, j: int) -> bool {
    forall|k: int| 0 <= k < j ==> #[trigger] layout[k].pane_id@ != layout[j].pane_id@
}

/// The panes named by the first `n` layout panes, in layout order (a
/// repeated name adds nothing).
pub open spec fn listed_panes(panes: Seq<PaneInfo>, layout: Seq<LayoutPane>, n: nat) -> Seq<PaneInfo>
    decreases n,
{
    if n == 0 {
        seq![]
    } else {
        listed_panes(panes, layout, (n - 1) as nat) + if first_listing(layout, n - 1) {
            panes.filter(with_pane_id(layout[n - 1].pane_id@))
        } else {
            seq![]
        }
    }
}

/// `panes` reordered by the layout: the panes it lists in its order, then
/// the rest in their own order.
pub open spec fn in_layout_order(panes: Seq<PaneInfo>, layout: Seq<LayoutPane>) -> Seq<PaneInfo> {
    listed_panes(panes, layout, layout.len()) + panes.filter(unlisted(layout))
}

impl UiModel {
    /// The panes of the active tab (all panes when no tab is active), in
    /// server order.
    pub open spec fn spec_tab_panes(&self) -> Seq<PaneInfo> {
        match self.active_tab_id {
            None => self.panes@,
            Some(tab_id) => self.panes@.filter(in_tab(tab_id@)),
        }
    }

    /// The panes of the active tab in layout order when a layout snapshot
    /// is available: the panes the layout lists, in the layout's order, then
    /// the ones it does not list, in server order. Without a snapshot, in
    /// server order.
    pub open spec fn spec_active_panes(&self) -> Seq<PaneInfo> {
        match self.layout {
            None => self.spec_tab_panes(),
            Some(l) => in_layout_order(self.spec_tab_panes(), l.panes@),
        }
    }

    /// Terminal ids whose attach streams should stay open across workspace focus changes.
    pub fn retained_terminal_ids(&self) -> (ids: StringHashSet)
        ensures
            ids@ == terminal_id_set(self.all_panes@),
    {
        let mut ids = StringHashSet::new();
        let n: usize = self.all_panes.len();
        let mut i: usize = 0;
        while i < n
            invariant
                n == self.all_panes@.len(),
                i <= n,
                ids@ == terminal_id_set(self.all_panes@.take(i as int)),
            decreases n - i,
        {
            let terminal_id = &self.all_panes[i].terminal_id;
            let ghost before = ids@;
            if !terminal_id.as_str().is_empty() {
                ids.insert(terminal_id.clone());
            }
            proof {
                let prev = self.all_panes@.take(i as int);
                let next = self.all_panes@.take(i + 1);
                assert forall|t: Seq<char>| #[trigger] ids@.contains(t) == terminal_id_set(next).contains(t) by {
                    if terminal_id_set(next).contains(t) {
                        let k: int = choose|k: int| 0 <= k < next.len() && #[trigger] next[k].terminal_id@ == t;
                        if k < i {
                            assert(prev[k] == next[k]);
                        }
                    }
                    if terminal_id_set(prev).contains(t) {
                        let k: int = choose|k: int| 0 <= k < prev.len() && #[trigger] prev[k].terminal_id@ == t;
                        assert(prev[k] == next[k]);
                    }
                    if t == terminal_id@ && t.len() > 0 {
                        assert(next[i as int].terminal_id@ == t);
                    }
                }
                assert(ids@ =~= terminal_id_set(next));
            }
            i += 1;
        }
        proof {
            assert(self.all_panes@.take(n as int) =~= self.all_panes@);
        }
        ids
    }

    /// The panes of the active tab, in server order.
    fn tab_panes(&self) -> (panes: Vec<&PaneInfo>)
        ensures
            derefs(panes@) == self.spec_tab_panes(),
    {
        let mut out: Vec<&PaneInfo> = Vec::new();
        let n: usize = self.panes.len();
        let mut i: usize = 0;
        while i < n
            invariant
                n == self.panes@.len(),
                i <= n,
                derefs(out@) == match self.active_tab_id {
                    None => self.panes@.take(i as int),
                    Some(tab_id) => self.panes@.take(i as int).filter(in_tab(tab_id@)),
                },
            decreases n - i,
        {
            let pane = &self.panes[i];
            proof {
                reveal_with_fuel(Seq::<_>::filter, 1);
                assert(self.panes@.take(i + 1).drop_last() =~= self.panes@.take(i as int));
            }
            match &self.active_tab_id {
                None => {
                    out.push(pane);
                },
                Some(tab_id) => {
                    if pane.tab_id == *tab_id {
                        out.push(pane);
                    }
                },
            }
            proof {
                assert(derefs(out@) =~= match self.active_tab_id {
                    None => self.panes@.take(i + 1),
                    Some(tab_id) => self.panes@.take(i + 1).filter(in_tab(tab_id@)),
                });
            }
            i += 1;
        }
        proof {
            assert(self.panes@.take(n as int) =~= self.panes@);
        }
        out
    }

    /// Panes belonging to the active tab, in layout order when available.
    pub fn active_panes(&self) -> (panes: Vec<&PaneInfo>)
        ensures
            derefs(panes@) == self.spec_active_panes(),
    {
        let base = self.tab_panes();
        match &self.layout {
            None => base,
            Some(l) => {
                let mut out: Vec<&PaneInfo> = Vec::new();
                let m: usize = l.panes.len();
                let mut j: usize = 0;
                while j < m
                    invariant
                        m == l.panes@.len(),
                        j <= m,
                        derefs(out@) == listed_panes(derefs(base@), l.panes@, j as nat),
                    decreases m - j,
                {
                    let id = &l.panes[j].pane_id;
                    if first_listing_exec(&l.panes, j) {
                        let more = with_id(&base, id);
                        append_refs(&mut out, &more);
                    } else {
                        proof {
                            assert(listed_panes(derefs(base@), l.panes@, (j + 1) as nat) =~= listed_panes(
                                derefs(base@),
                                l.panes@,
                                j as nat,
                            ));
                        }
                    }
                    j += 1;
                }
                let rest = unlisted_of(&base, &l.panes);
                append_refs(&mut out, &rest);
                out
            },
        }
    }

    /// The terminal id attached to the currently focused pane, if any.
    pub fn focused_terminal_id(&self) -> (t: Option<&str>)
        ensures
            t is Some <==> (self.focused_pane_id is Some && has_pane_with_id(
                self.panes@,
                self.focused_pane_id->0@,
            )),
            t matches Some(t) ==> exists|i: int|
                is_first_pane_with_id(self.panes@, self.focused_pane_id->0@, i)
                    && t@ == #[trigger] self.panes@[i].terminal_id@,
    {
        let pane_id = match &self.focused_pane_id {
            None => return None,
            Some(id) => id,
        };
        let n: usize = self.panes.len();
        let mut i: usize = 0;
        while i < n
            invariant
                n == self.panes@.len(),
                i <= n,
                self.focused_pane_id == Some(*pane_id),
                forall|j: int| 0 <= j < i ==> #[trigger] self.panes@[j].pane_id@ != pane_id@,
            decreases n - i,
        {
            if self.panes[i].pane_id == *pane_id {
                let t = self.panes[i].terminal_id.as_str();
                proof {
                    assert(is_first_pane_with_id(self.panes@, pane_id@, i as int));
                }
                return Some(t);
            }
            i += 1;
        }
        None
    }
}

/// Whether layout pane `j` is the first with its id.
fn first_listing_exec(layout: &Vec<LayoutPane>, j: usize) -> (b: bool)
    requires
        j < layout@.len(),
    ensures
        b == first_listing(layout@, j as int),
{
    let mut k: usize = 0;
    while k < j
        invariant
            j < layout@.len(),
            k <= j,
            forall|q: int| 0 <= q < k ==> #[trigger] layout@[q].pane_id@ != layout@[j as int].pane_id@,
        decreases j - k,
    {
        if layout[k].pane_id == layout[j].pane_id {
            return false;
        }
        k += 1;
    }
    true
}

/// Whether some layout pane has id `pane_id`.
fn listed_exec(layout: &Vec<LayoutPane>, pane_id: &String) -> (b: bool)
    ensures
        b == listed_in(layout@, pane_id@),
{
    let mut k: usize = 0;
    while k < layout.len()
        invariant
            k <= layout@.len(),
            forall|q: int| 0 <= q < k ==> #[trigger] layout@[q].pane_id@ != pane_id@,
        decreases layout@.len() - k,
    {
        if layout[k].pane_id == *pane_id {
            return true;
        }
        k += 1;
    }
    false
}

/// The panes of `panes` with id `pane_id`, in order.
fn with_id<'a>(panes: &Vec<&'a PaneInfo>, pane_id: &String) -> (out: Vec<&'a PaneInfo>)
    ensures
        derefs(out@) == derefs(panes@).filter(with_pane_id(pane_id@)),
{
    let mut out: Vec<&PaneInfo> = Vec::new();
    let n: usize = panes.len();
    let mut i: usize = 0;
    while i < n
        invariant
            n == panes@.len(),
            i <= n,
            derefs(out@) == derefs(panes@).take(i as int).filter(with_pane_id(pane_id@)),
        decreases n - i,
    {
        proof {
            reveal_with_fuel(Seq::<_>::filter, 1);
            assert(derefs(panes@).take(i + 1).drop_last() =~= derefs(panes@).take(i as int));
        }
        if panes[i].pane_id == *pane_id {
            out.push(panes[i]);
        }
        proof {
            assert(derefs(out@) =~= derefs(panes@).take(i + 1).filter(with_pane_id(pane_id@)));
        }
        i += 1;
    }
    proof {
        assert(derefs(panes@).take(n as int) =~= derefs(panes@));
    }
    out
}

/// The panes of `panes` that no layout pane names, in order.
fn unlisted_of<'a>(panes: &Vec<&'a PaneInfo>, layout: &Vec<LayoutPane>) -> (out: Vec<&'a PaneInfo>)
    ensures
        derefs(out@) == derefs(panes@).filter(unlisted(layout@)),
{
    let mut out: Vec<&PaneInfo> = Vec::new();
    let n: usize = panes.len();
    let mut i: usize = 0;
    while i < n
        invariant
            n == panes@.len(),
            i <= n,
            derefs(out@) == derefs(panes@).take(i as int).filter(unlisted(layout@)),
        decreases n - i,
    {
        proof {
            reveal_with_fuel(Seq::<_>::filter, 1);
            assert(derefs(panes@).take(i + 1).drop_last() =~= derefs(panes@).take(i as int));
        }
        if !listed_exec(layout, &panes[i].pane_id) {
            out.push(panes[i]);
        }
        proof {
            assert(derefs(out@) =~= derefs(panes@).take(i + 1).filter(unlisted(layout@)));
        }
        i += 1;
    }
    proof {
        assert(derefs(panes@).take(n as int) =~= derefs(panes@));
    }
    out
}

/// Appends the references of `more` to `out`.
fn append_refs<'a>(out: &mut Vec<&'a PaneInfo>, more: &Vec<&'a PaneInfo>)
    ensures
        derefs(final(out)@) == derefs(old(out)@) + derefs(more@),
{
    let ghost before = out@;
    let mut k: usize = 0;
    while k < more.len()
        invariant
            k <= more@.len(),
            out@ == before + more@.take(k as int),
        decreases more@.len() - k,
    {
        out.push(more[k]);
        proof {
            assert(out@ =~= before + more@.take(k + 1));
        }
        k += 1;
    }
    proof {
        assert(more@.take(more@.len() as int) =~= more@);
        assert(derefs(out@) =~= derefs(before) + derefs(more@));
    }
}

/// Some of the first `n` layout panes has id `pane_id`.
pub open spec fn listed_before(layout: Seq<LayoutPane>, n: int, pane_id: Seq<char>) -> bool {
    exists|j: int| 0 <= j < n && #[trigger] layout[j].pane_id@ == pane_id
}

/// Filtering by two predicates that never hold together gives, between
/// the two filters, the elements of the filter by either.
proof fn lemma_filter_split(s: Seq<PaneInfo>, a: spec_fn(PaneInfo) -> bool, b: spec_fn(PaneInfo) -> bool)
    requires
        forall|p: PaneInfo| !(#[trigger] a(p) && b(p)),
    ensures
        s.filter(|p: PaneInfo| a(p) || b(p)).to_multiset() =~= s.filter(a).to_multiset().add(s.filter(b).to_multiset()),
    decreases s.len(),
{
    broadcast use vstd::seq_lib::group_to_multiset_ensures, vstd::multiset::group_multiset_axioms;

    reveal_with_fuel(Seq::<_>::filter, 1);
    let ab = |p: PaneInfo| a(p) || b(p);
    if s.len() == 0 {
        assert(s.filter(ab) =~= Seq::<PaneInfo>::empty());
        assert(s.filter(a) =~= Seq::<PaneInfo>::empty());
        assert(s.filter(b) =~= Seq::<PaneInfo>::empty());
    } else {
        lemma_filter_split(s.drop_last(), a, b);
    }
}

/// The first `n` layout panes pick, in some order, exactly the panes that
/// one of them names.
proof fn lemma_listed_panes_multiset(panes: Seq<PaneInfo>, layout: Seq<LayoutPane>, n: nat)
    requires
        n <= layout.len(),
    ensures
        listed_panes(panes, layout, n).to_multiset() =~= panes.filter(
            |p: PaneInfo| listed_before(layout, n as int, p.pane_id@),
        ).to_multiset(),
    decreases n,
{
    broadcast use vstd::seq_lib::group_to_multiset_ensures, vstd::multiset::group_multiset_axioms;

    let now = |p: PaneInfo| listed_before(layout, n as int, p.pane_id@);
    if n == 0 {
        assert(panes.filter(now) =~= panes.filter(|p: PaneInfo| false)) by {
            assert(now =~= (|p: PaneInfo| false));
        }
        lemma_filter_none(panes);
    } else {
        let m = (n - 1) as nat;
        lemma_listed_panes_multiset(panes, layout, m);
        let prev = |p: PaneInfo| listed_before(layout, m as int, p.pane_id@);
        let id = layout[m as int].pane_id@;
        vstd::seq_lib::lemma_multiset_commutative(
            listed_panes(panes, layout, m),
            if first_listing(layout, m as int) { panes.filter(with_pane_id(id)) } else { seq![] },
        );
        if first_listing(layout, m as int) {
            assert forall|p: PaneInfo| !(#[trigger] prev(p) && with_pane_id(id)(p)) by {
                if prev(p) && with_pane_id(id)(p) {
                    let j = choose|j: int| 0 <= j < m && #[trigger] layout[j].pane_id@ == p.pane_id@;
                    assert(layout[j].pane_id@ != layout[m as int].pane_id@);
                }
            }
            lemma_filter_split(panes, prev, with_pane_id(id));
            assert(now =~= (|p: PaneInfo| prev(p) || with_pane_id(id)(p))) by {
                assert forall|p: PaneInfo| #[trigger] now(p) == (prev(p) || with_pane_id(id)(p)) by {
                    if now(p) {
                        let j = choose|j: int| 0 <= j < n && #[trigger] layout[j].pane_id@ == p.pane_id@;
                        if j < m {
                            assert(prev(p));
                        }
                    }
                    if prev(p) {
                        let j = choose|j: int| 0 <= j < m && #[trigger] layout[j].pane_id@ == p.pane_id@;
                        assert(layout[j].pane_id@ == p.pane_id@);
                    }
                    if with_pane_id(id)(p) {
                        assert(layout[m as int].pane_id@ == p.pane_id@);
                    }
                }
            }
        } else {
            let k = choose|k: int| 0 <= k < m && #[trigger] layout[k].pane_id@ == layout[m as int].pane_id@;
            assert(now =~= prev) by {
                assert forall|p: PaneInfo| #[trigger] now(p) == prev(p) by {
                    if now(p) {
                        let j = choose|j: int| 0 <= j < n && #[trigger] layout[j].pane_id@ == p.pane_id@;
                        if j == m {
                            assert(layout[k].pane_id@ == p.pane_id@);
                        }
                    }
                    if prev(p) {
                        let j = choose|j: int| 0 <= j < m && #[trigger] layout[j].pane_id@ == p.pane_id@;
                        assert(layout[j].pane_id@ == p.pane_id@);
                    }
                }
            }
            assert(Seq::<PaneInfo>::empty().to_multiset() =~= vstd::multiset::Multiset::<PaneInfo>::empty());
        }
    }
}

/// Filtering by a predicate that never holds keeps nothing.
proof fn lemma_filter_none(s: Seq<PaneInfo>)
    ensures
        s.filter(|p: PaneInfo| false) =~= Seq::<PaneInfo>::empty(),
    decreases s.len(),
{
    reveal_with_fuel(Seq::<_>::filter, 1);
    if s.len() > 0 {
        lemma_filter_none(s.drop_last());
    }
}

/// Putting panes in layout order only reorders them: every pane keeps its
/// number of occurrences, so the active panes are the active tab's panes,
/// each exactly once.
pub proof fn lemma_layout_order_reorders(panes: Seq<PaneInfo>, layout: Seq<LayoutPane>)
    ensures
        in_layout_order(panes, layout).to_multiset() =~= panes.to_multiset(),
{
    broadcast use vstd::seq_lib::group_to_multiset_ensures, vstd::multiset::group_multiset_axioms;

    let n = layout.len();
    lemma_listed_panes_multiset(panes, layout, n);
    let listed = |p: PaneInfo| listed_before(layout, n as int, p.pane_id@);
    assert(unlisted(layout) =~= (|p: PaneInfo| !listed(p))) by {
        assert forall|p: PaneInfo| #[trigger] unlisted(layout)(p) == !listed(p) by {
            if listed(p) {
                let j = choose|j: int| 0 <= j < n && #[trigger] layout[j].pane_id@ == p.pane_id@;
                assert(listed_in(layout, p.pane_id@));
            }
            if listed_in(layout, p.pane_id@) {
                let j = choose|j: int| 0 <= j < layout.len() && #[trigger] layout[j].pane_id@ == p.pane_id@;
                assert(listed(p));
            }
        }
    }
    let rest = |p: PaneInfo| !listed(p);
    assert(panes.filter(unlisted(layout)) == panes.filter(rest));
    vstd::seq_lib::lemma_multiset_commutative(listed_panes(panes, layout, n), panes.filter(unlisted(layout)));
    lemma_filter_split(panes, listed, rest);
    let either = |p: PaneInfo| listed(p) || rest(p);
    assert(either =~= (|p: PaneInfo| true));
    lemma_filter_all(panes);
    assert(panes.filter(either) == panes);
    assert(in_layout_order(panes, layout).to_multiset() =~= panes.filter(listed).to_multiset().add(
        panes.filter(rest).to_multiset(),
    ));
}

/// Filtering by a predicate that always holds keeps everything.
proof fn lemma_filter_all(s: Seq<PaneInfo>)
    ensures
        s.filter(|p: PaneInfo| true) =~= s,
    decreases s.len(),
{
    reveal_with_fuel(Seq::<_>::filter, 1);
    if s.len() > 0 {
        lemma_filter_all(s.drop_last());
        assert(s.drop_last().push(s.last()) =~= s);
    }
}

} // verus!
