//! Decisions of the mirror window, which shows the server's whole composited
//! screen: how many cells fit the window, and which mouse buttons are held
//! while the pointer moves.

use vstd::prelude::*;
use crate::protocol::{ClientMouseButton, ClientMouseKind};

verus! {

/// Whole cells of `cell` pixels in `pixels`, at least one and at most
/// `u16::MAX`.
pub open spec fn fit_cells(pixels: int, cell: int) -> u16 {
    let c: int = if cell > 1 { cell } else { 1 };
    let n: int = pixels / c;
    (if n < 1 { 1 } else if n > 0xFFFF { 0xFFFF } else { n }) as u16
}

/// The terminal grid that fills a `width` x `height` pixel window.
pub fn cols_rows(width: u32, height: u32, cell_w: usize, cell_h: usize) -> (grid: (u16, u16))
    requires
        cell_w <= u32::MAX,
        cell_h <= u32::MAX,
    ensures
        grid == (fit_cells(width as int, cell_w as int), fit_cells(height as int, cell_h as int)),
{
    let cw: u32 = (if cell_w > 1 { cell_w } else { 1 }) as u32;
    let ch: u32 = (if cell_h > 1 { cell_h } else { 1 }) as u32;
    let cols: u32 = width / cw;
    let rows: u32 = height / ch;
    (
        (if cols < 1 { 1 } else if cols > 0xFFFF { 0xFFFF } else { cols }) as u16,
        (if rows < 1 { 1 } else if rows > 0xFFFF { 0xFFFF } else { rows }) as u16,
    )
}

/// The grid to report after the window is resized to `width` x `height`:
/// the grid that now fits, when it differs from `current`; nothing when it
/// is unchanged.
pub fn resized_grid(current: (u16, u16), width: u32, height: u32, cell_w: usize, cell_h: usize) -> (grid: Option<(u16, u16)>)
    requires
        cell_w <= u32::MAX,
        cell_h <= u32::MAX,
    ensures
        ({
            let fits = (fit_cells(width as int, cell_w as int), fit_cells(height as int, cell_h as int));
            grid == if fits == current { None } else { Some(fits) }
        }),
{
    let (cols, rows) = cols_rows(width, height, cell_w, cell_h);
    if cols == current.0 && rows == current.1 {
        None
    } else {
        Some((cols, rows))
    }
}

/// The held buttons after `button` is pressed: appended unless already
/// held.
pub open spec fn pressed(held: Seq<ClientMouseButton>, button: ClientMouseButton) -> Seq<ClientMouseButton> {
    if held.contains(button) {
        held
    } else {
        held.push(button)
    }
}

/// The held buttons after `button` is released: every copy removed, the
/// rest in order.
pub open spec fn released(held: Seq<ClientMouseButton>, button: ClientMouseButton) -> Seq<ClientMouseButton> {
    held.filter(|b: ClientMouseButton| b != button)
}

/// The mouse buttons held down, in the order they were pressed; each at
/// most once.
#[derive(Debug)]
pub struct ButtonTracker {
    held: Vec<ClientMouseButton>,
}

impl ButtonTracker {
    pub closed spec fn held(&self) -> Seq<ClientMouseButton> {
        self.held@
    }

    pub fn new() -> (t: Self)
        ensures
            t.held() == Seq::<ClientMouseButton>::empty(),
    {
        ButtonTracker { held: Vec::new() }
    }

    /// Records a press; a button already held is not added again.
    pub fn press(&mut self, button: ClientMouseButton)
        ensures
            final(self).held() == pressed(old(self).held(), button),
    {
        let n: usize = self.held.len();
        let mut i: usize = 0;
        while i < n
            invariant
                n == self.held@.len(),
                self.held@ == old(self).held@,
                i <= n,
                forall|j: int| 0 <= j < i ==> self.held@[j] != button,
            decreases n - i,
        {
            if self.held[i] == button {
                return;
            }
            i += 1;
        }
        self.held.push(button);
    }

    /// Records a release: the button is no longer held.
    pub fn release(&mut self, button: ClientMouseButton)
        ensures
            final(self).held() == released(old(self).held(), button),
    {
        let mut kept: Vec<ClientMouseButton> = Vec::new();
        let n: usize = self.held.len();
        let mut i: usize = 0;
        while i < n
            invariant
                n == self.held@.len(),
                self.held@ == old(self).held@,
                i <= n,
                kept@ == released(self.held@.take(i as int), button),
            decreases n - i,
        {
            let b = self.held[i];
            proof {
                reveal_with_fuel(Seq::<_>::filter, 1);
                assert(self.held@.take(i + 1).drop_last() =~= self.held@.take(i as int));
            }
            if b != button {
                kept.push(b);
            }
            i += 1;
        }
        proof {
            assert(self.held@.take(n as int) =~= self.held@);
        }
        self.held = kept;
    }

    /// The kind of a pointer motion: a drag with the earliest-pressed held
    /// button, else a plain move.
    pub fn motion_kind(&self) -> (kind: ClientMouseKind)
        ensures
            kind == if self.held().len() > 0 {
                ClientMouseKind::Drag(self.held()[0])
            } else {
                ClientMouseKind::Moved
            },
    {
        if self.held.len() > 0 {
            ClientMouseKind::Drag(self.held[0])
        } else {
            ClientMouseKind::Moved
        }
    }
}

/// The grid fills the window: between one and `u16::MAX` cells, no more
/// whole cells than fit (beyond the one-cell minimum), and as many as fit
/// (up to `u16::MAX`).
pub proof fn lemma_grid_fits_window(pixels: int, cell: int)
    requires
        pixels >= 0,
    ensures
        1 <= fit_cells(pixels, cell) <= 0xFFFF,
        ({
            let c: int = if cell > 1 { cell } else { 1 };
            let n = fit_cells(pixels, cell) as int;
            &&& (n == 1 || n * c <= pixels)
            &&& (n == 0xFFFF || (n + 1) * c > pixels)
        }),
{
    let c: int = if cell > 1 { cell } else { 1 };
    let q = pixels / c;
    vstd::arithmetic::div_mod::lemma_fundamental_div_mod(pixels, c);
    assert(q * c <= pixels && (q + 1) * c > pixels) by (nonlinear_arith)
        requires
            pixels == c * q + pixels % c,
            0 <= pixels % c < c,
    ;
    let n = fit_cells(pixels, cell) as int;
    if 1 <= q <= 0xFFFF {
        assert(n == q);
    } else if q > 0xFFFF {
        assert(n == 0xFFFF);
        assert(n * c <= q * c) by (nonlinear_arith)
            requires
                n <= q,
                c >= 1,
        ;
    } else {
        assert(n == 1);
        assert((n + 1) * c > pixels) by (nonlinear_arith)
            requires
                q < 1,
                (q + 1) * c > pixels,
                q >= 0,
                n == 1,
                c >= 1,
        ;
    }
}

/// Each button is held at most once: pressing keeps the held buttons
/// distinct and holds the button, releasing keeps them distinct and
/// frees it, and releasing a freshly pressed button restores what was
/// held before.
pub proof fn lemma_press_release(held: Seq<ClientMouseButton>, button: ClientMouseButton)
    requires
        held.no_duplicates(),
    ensures
        pressed(held, button).no_duplicates(),
        pressed(held, button).contains(button),
        released(held, button).no_duplicates(),
        !released(held, button).contains(button),
        !held.contains(button) ==> released(pressed(held, button), button) == held,
{
    let p = pressed(held, button);
    if !held.contains(button) {
        assert(p[p.len() - 1] == button);
        assert forall|i: int, j: int| 0 <= i < p.len() && 0 <= j < p.len() && i != j implies p[i] != p[j] by {
            if i < held.len() && j < held.len() {
            } else if i == held.len() {
                assert(held[j] == p[j]);
            } else {
                assert(held[i] == p[i]);
            }
        }
    }
    assert(p.contains(button)) by {
        if held.contains(button) {
        } else {
            assert(p[p.len() - 1] == button);
        }
    }
    lemma_released(held, button);
    if !held.contains(button) {
        lemma_released(p, button);
        assert(p.drop_last() =~= held);
        reveal(Seq::<_>::filter);
        assert(released(p, button) == released(held, button));
    }
}

/// What releasing keeps: only buttons that were held, never `button`,
/// without duplicates when there were none, and everything when `button`
/// was not held.
proof fn lemma_released(s: Seq<ClientMouseButton>, button: ClientMouseButton)
    ensures
        !released(s, button).contains(button),
        forall|x: ClientMouseButton| #[trigger] released(s, button).contains(x) ==> s.contains(x),
        s.no_duplicates() ==> released(s, button).no_duplicates(),
        !s.contains(button) ==> released(s, button) == s,
    decreases s.len(),
{
    reveal(Seq::<_>::filter);
    if s.len() > 0 {
        let rest = s.drop_last();
        let last = s.last();
        lemma_released(rest, button);
        let r = released(rest, button);
        assert(released(s, button) == if last != button { r.push(last) } else { r });
        assert forall|x: ClientMouseButton| #[trigger] released(s, button).contains(x) implies s.contains(x) by {
            if last != button {
                let k = choose|k: int| 0 <= k < r.push(last).len() && r.push(last)[k] == x;
                if k < r.len() {
                    assert(r.contains(x));
                    assert(rest.contains(x));
                    let j = choose|j: int| 0 <= j < rest.len() && rest[j] == x;
                    assert(s[j] == x);
                } else {
                    assert(s[s.len() - 1] == x);
                }
            } else {
                assert(r.contains(x));
                let j = choose|j: int| 0 <= j < rest.len() && rest[j] == x;
                assert(s[j] == x);
            }
        }
        if last != button {
            assert(!r.push(last).contains(button)) by {
                if r.push(last).contains(button) {
                    let k = choose|k: int| 0 <= k < r.push(last).len() && r.push(last)[k] == button;
                    if k < r.len() {
                        assert(r.contains(button));
                    }
                }
            }
        }
        if s.no_duplicates() {
            assert(rest.no_duplicates());
            if last != button {
                assert(!r.contains(last)) by {
                    if r.contains(last) {
                        assert(rest.contains(last));
                        let j = choose|j: int| 0 <= j < rest.len() && rest[j] == last;
                        assert(s[j] == s[s.len() - 1]);
                    }
                }
                assert forall|i: int, j: int| 0 <= i < r.push(last).len() && 0 <= j < r.push(last).len() && i != j implies r.push(last)[i] != r.push(last)[j] by {
                    if i < r.len() && j < r.len() {
                    } else if i == r.len() {
                        assert(r.contains(r[j]));
                    } else {
                        assert(r.contains(r[i]));
                    }
                }
            }
        }
        if !s.contains(button) {
            assert(!rest.contains(button)) by {
                if rest.contains(button) {
                    let j = choose|j: int| 0 <= j < rest.len() && rest[j] == button;
                    assert(s[j] == button);
                }
            }
            assert(last != button) by {
                assert(s[s.len() - 1] == last);
            }
            assert(rest.push(last) =~= s);
        }
    } else {
        assert(released(s, button) =~= s);
    }
}

} // verus!
