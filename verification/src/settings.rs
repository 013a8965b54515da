//! Settings overlay for the native GUI client: the theme and font-size
//! pickers, their draft/saved state, and the popup's geometry and hit regions.
//!
//! Font sizes are held in tenths of a pixel (`150` is 15.0 px), the precision
//! in which they are written to the configuration file.

use vstd::prelude::*;
use crate::layout::{Rect, spec_contains};
use crate::selection::push_char;
use crate::view::{decimal_string, digit, digit_char, spec_decimal};

verus! {

/// Number of font-size choices.
pub const FONT_SIZE_CHOICE_COUNT: usize = 9;

/// The offered font sizes, in tenths of a pixel.
pub open spec fn font_size_choices() -> Seq<u32> {
    seq![120u32, 130, 140, 150, 160, 170, 180, 200, 220]
}

/// The `i`-th offered font size, in tenths of a pixel.
pub fn font_size_choice(i: usize) -> (size: Option<u32>)
    ensures
        size == if i < font_size_choices().len() { Some(font_size_choices()[i as int]) } else { None::<u32> },
{
    match i {
        0 => Some(120),
        1 => Some(130),
        2 => Some(140),
        3 => Some(150),
        4 => Some(160),
        5 => Some(170),
        6 => Some(180),
        7 => Some(200),
        8 => Some(220),
        _ => None,
    }
}

/// Smallest and largest font size the configuration accepts, in tenths.
pub const MIN_FONT_SIZE: u32 = 100;
pub const MAX_FONT_SIZE: u32 = 280;

#[derive(Debug, Clone, Copy, PartialEq, Eq, Structural)]
pub enum SettingsSection {
    Theme,
    FontSize,
}

/// A character folded to ASCII lower case.
pub open spec fn ascii_lower(c: char) -> int {
    if 'A' <= c <= 'Z' { c as int + 32 } else { c as int }
}

/// The two strings are equal up to ASCII case.
pub open spec fn spec_eq_ignore_ascii_case(a: Seq<char>, b: Seq<char>) -> bool {
    a.len() == b.len() && forall|i: int| 0 <= i < a.len() ==> ascii_lower(#[trigger] a[i]) == ascii_lower(b[i])
}

fn lower_code(c: char) -> (v: u32)
    ensures
        v == ascii_lower(c),
{
    let v: u32 = c as u32;
    if 'A' <= c && c <= 'Z' {
        v + 32
    } else {
        v
    }
}

/// Compares two strings, ignoring ASCII case.
pub fn eq_ignore_ascii_case(a: &str, b: &str) -> (eq: bool)
    ensures
        eq == spec_eq_ignore_ascii_case(a@, b@),
{
    let n: usize = a.unicode_len();
    if n != b.unicode_len() {
        return false;
    }
    let mut i: usize = 0;
    while i < n
        invariant
            n == a@.len(),
            n == b@.len(),
            i <= n,
            forall|k: int| 0 <= k < i ==> ascii_lower(#[trigger] a@[k]) == ascii_lower(b@[k]),
        decreases n - i,
    {
        if lower_code(a.get_char(i)) != lower_code(b.get_char(i)) {
            return false;
        }
        i += 1;
    }
    true
}

/// `i` is the first theme whose name matches `name` up to ASCII case.
pub open spec fn is_first_theme_match(themes: Seq<String>, name: Seq<char>, i: int) -> bool {
    &&& 0 <= i < themes.len()
    &&& spec_eq_ignore_ascii_case(themes[i]@, name)
    &&& forall|j: int| 0 <= j < i ==> !spec_eq_ignore_ascii_case(#[trigger] themes[j]@, name)
}

/// The position of the theme `name` in `themes` (matched up to ASCII case),
/// or `0` when no theme matches.
pub open spec fn spec_theme_index(themes: Seq<String>, name: Seq<char>) -> int {
    if exists|i: int| is_first_theme_match(themes, name, i) {
        choose|i: int| is_first_theme_match(themes, name, i)
    } else {
        0
    }
}

proof fn lemma_first_theme_match_unique(themes: Seq<String>, name: Seq<char>, i: int, j: int)
    requires
        is_first_theme_match(themes, name, i),
        is_first_theme_match(themes, name, j),
    ensures
        i == j,
{
    if i < j {
        assert(!spec_eq_ignore_ascii_case(themes[i]@, name));
    }
    if j < i {
        assert(!spec_eq_ignore_ascii_case(themes[j]@, name));
    }
}

pub fn theme_index(themes: &Vec<String>, name: &str) -> (i: usize)
    ensures
        i == spec_theme_index(themes@, name@),
{
    let n: usize = themes.len();
    let mut i: usize = 0;
    while i < n
        invariant
            n == themes@.len(),
            i <= n,
            forall|j: int| 0 <= j < i ==> !spec_eq_ignore_ascii_case(#[trigger] themes@[j]@, name@),
        decreases n - i,
    {
        if eq_ignore_ascii_case(themes[i].as_str(), name) {
            proof {
                assert(is_first_theme_match(themes@, name@, i as int));
                let c: int = choose|c: int| is_first_theme_match(themes@, name@, c);
                lemma_first_theme_match_unique(themes@, name@, i as int, c);
            }
            return i;
        }
        i += 1;
    }
    proof {
        if exists|k: int| is_first_theme_match(themes@, name@, k) {
            let k: int = choose|k: int| is_first_theme_match(themes@, name@, k);
            assert(!spec_eq_ignore_ascii_case(themes@[k]@, name@));
        }
    }
    0
}

/// The position of `size` among the offered font sizes, or `3` (15 px)
/// when it is not offered.
pub open spec fn spec_font_size_index(size: u32) -> int {
    if font_size_choices().contains(size) {
        font_size_choices().index_of(size)
    } else {
        3
    }
}

pub fn font_size_index(size: u32) -> (i: usize)
    ensures
        i == spec_font_size_index(size),
        i < FONT_SIZE_CHOICE_COUNT,
{
    let mut i: usize = 0;
    while i < FONT_SIZE_CHOICE_COUNT
        invariant
            i <= FONT_SIZE_CHOICE_COUNT,
            forall|j: int| 0 <= j < i ==> font_size_choices()[j] != size,
        decreases FONT_SIZE_CHOICE_COUNT - i,
    {
        if font_size_choice(i) == Some(size) {
            proof {
                let s: Seq<u32> = font_size_choices();
                assert(s[i as int] == size);
                assert(s.contains(size));
                let k: int = s.index_of(size);
                assert(0 <= k < s.len() && s[k] == size);
                assert(s[0] == 120 && s[1] == 130 && s[2] == 140 && s[3] == 150 && s[4] == 160
                    && s[5] == 170 && s[6] == 180 && s[7] == 200 && s[8] == 220);
                assert(k == i);
            }
            return i;
        }
        i += 1;
    }
    proof {
        if font_size_choices().contains(size) {
            let k: int = choose|k: int| 0 <= k < font_size_choices().len() && font_size_choices()[k] == size;
            assert(font_size_choices()[k] != size);
        }
    }
    3
}

#[derive(Debug, Clone)]
pub struct SettingsOverlay {
    pub open: bool,
    pub section: SettingsSection,
    pub selected: usize,
    pub draft_theme: String,
    /// Draft font size, in tenths of a pixel.
    pub draft_font_size: u32,
    pub saved_theme: String,
    /// Saved font size, in tenths of a pixel.
    pub saved_font_size: u32,
    /// The names of the themes on offer, in display order.
    pub themes: Vec<String>,
}

/// The entry below `selected` in a list of `count`, stopping at the last;
/// an empty list keeps the selection.
pub open spec fn next_selected(selected: int, count: int) -> int {
    if count > 0 {
        if selected + 1 < count { selected + 1 } else { count - 1 }
    } else {
        selected
    }
}

/// The entry above `selected`, stopping at the first.
pub open spec fn prev_selected(selected: int) -> int {
    if selected > 0 { selected - 1 } else { 0 }
}

/// Moving through a list never leaves it: from an entry of a list of
/// `count`, moving up or down lands on an entry of the same list, and
/// moving down from the last entry or up from the first stays put.
pub proof fn lemma_moves_stay_in_list(selected: int, count: int)
    requires
        0 <= selected < count,
    ensures
        0 <= next_selected(selected, count) < count,
        0 <= prev_selected(selected) < count,
        selected == count - 1 ==> next_selected(selected, count) == selected,
        selected == 0 ==> prev_selected(selected) == selected,
{
}

/// `v` clamped into `[lo, hi]`.
pub open spec fn clamp(v: int, lo: int, hi: int) -> int {
    if v < lo { lo } else if v > hi { hi } else { v }
}

/// What `apply_selection` does: the drafts become `save_target_view`,
/// nothing else changes.
pub open spec fn apply_post(before: SettingsOverlay, after: SettingsOverlay) -> bool {
    &&& after.draft_theme@ == before.save_target_view().0
    &&& after.draft_font_size == before.save_target_view().1
    &&& after == (SettingsOverlay {
        draft_theme: after.draft_theme,
        draft_font_size: after.draft_font_size,
        ..before
    })
}

/// What `cancel` does: the drafts return to the saved values, the list
/// selects the saved entry of the current section, and the overlay closes.
pub open spec fn cancel_post(before: SettingsOverlay, after: SettingsOverlay) -> bool {
    &&& after.draft_theme@ == before.saved_theme@
    &&& after.draft_font_size == before.saved_font_size
    &&& after.selected == before.entry_for(before.section, before.saved_theme@, before.saved_font_size)
    &&& !after.open
    &&& !after.spec_has_unsaved_changes()
    &&& after == (SettingsOverlay {
        draft_theme: after.draft_theme,
        draft_font_size: after.draft_font_size,
        selected: after.selected,
        open: false,
        ..before
    })
}

/// Cancelling undoes applying: after `apply_selection` then `cancel`, the
/// drafts and the saved values are those saved before, and nothing is
/// unsaved.
pub proof fn lemma_cancel_undoes_apply(start: SettingsOverlay, applied: SettingsOverlay, cancelled: SettingsOverlay)
    requires
        apply_post(start, applied),
        cancel_post(applied, cancelled),
    ensures
        cancelled.draft_theme@ == start.saved_theme@,
        cancelled.draft_font_size == start.saved_font_size,
        cancelled.saved_theme == start.saved_theme,
        cancelled.saved_font_size == start.saved_font_size,
        cancelled.themes == start.themes,
        cancelled.section == start.section,
        !cancelled.spec_has_unsaved_changes(),
        !cancelled.open,
{
}

impl SettingsOverlay {
    /// The drafts after applying the selected entry.
    pub open spec fn save_target_view(&self) -> (Seq<char>, u32) {
        (
            if self.section == SettingsSection::Theme && self.selected < self.themes@.len() {
                self.themes@[self.selected as int]@
            } else {
                self.draft_theme@
            },
            if self.section == SettingsSection::FontSize && self.selected < font_size_choices().len() {
                font_size_choices()[self.selected as int]
            } else {
                self.draft_font_size
            },
        )
    }

    /// The drafts differ from what was last saved.
    pub open spec fn spec_has_unsaved_changes(&self) -> bool {
        self.draft_theme@ != self.saved_theme@ || self.draft_font_size != self.saved_font_size
    }

    /// Number of entries in the list of `section`.
    pub open spec fn spec_item_count(&self, section: SettingsSection) -> int {
        match section {
            SettingsSection::Theme => self.themes@.len() as int,
            SettingsSection::FontSize => font_size_choices().len() as int,
        }
    }

    /// The list entry of `section` that shows the given draft values.
    pub open spec fn entry_for(&self, section: SettingsSection, theme: Seq<char>, font_size: u32) -> int {
        match section {
            SettingsSection::Theme => spec_theme_index(self.themes@, theme),
            SettingsSection::FontSize => spec_font_size_index(font_size),
        }
    }

    /// Opens closed on the theme list at the configured theme (`catppuccin`
    /// when none is configured) and the configured font size clamped to
    /// 10..=28 px, with nothing unsaved.
    pub fn from_config(themes: Vec<String>, theme: Option<String>, font_size: u32) -> (s: Self)
        ensures
            !s.open,
            s.section == SettingsSection::Theme,
            s.themes@ == themes@,
            s.draft_theme@ == (match theme {
                Some(t) => t@,
                None => "catppuccin"@,
            }),
            s.saved_theme@ == s.draft_theme@,
            s.draft_font_size == clamp(font_size as int, MIN_FONT_SIZE as int, MAX_FONT_SIZE as int),
            s.saved_font_size == s.draft_font_size,
            s.selected == spec_theme_index(themes@, s.draft_theme@),
            !s.spec_has_unsaved_changes(),
    {
        let theme = match theme {
            Some(t) => t,
            None => String::from_str("catppuccin"),
        };
        let font_size: u32 = if font_size < MIN_FONT_SIZE {
            MIN_FONT_SIZE
        } else if font_size > MAX_FONT_SIZE {
            MAX_FONT_SIZE
        } else {
            font_size
        };
        let selected = theme_index(&themes, theme.as_str());
        SettingsOverlay {
            open: false,
            section: SettingsSection::Theme,
            selected,
            draft_theme: theme.clone(),
            draft_font_size: font_size,
            saved_theme: theme,
            saved_font_size: font_size,
            themes,
        }
    }

    pub fn has_unsaved_changes(&self) -> (b: bool)
        ensures
            b == self.spec_has_unsaved_changes(),
    {
        !(self.draft_theme == self.saved_theme) || self.draft_font_size != self.saved_font_size
    }

    pub fn item_count(&self) -> (n: usize)
        ensures
            n == self.spec_item_count(self.section),
    {
        match self.section {
            SettingsSection::Theme => self.themes.len(),
            SettingsSection::FontSize => FONT_SIZE_CHOICE_COUNT,
        }
    }

    /// Moves the selection up one entry, stopping at the first.
    pub fn move_prev(&mut self)
        ensures
            final(self).selected == prev_selected(old(self).selected as int),
            *final(self) == (SettingsOverlay { selected: final(self).selected, ..*old(self) }),
    {
        self.selected = if self.selected > 0 { self.selected - 1 } else { 0 };
    }

    /// Moves the selection down one entry, stopping at the last; nothing
    /// moves in an empty list.
    pub fn move_next(&mut self)
        requires
            old(self).spec_item_count(old(self).section) > 0 ==> old(self).selected < usize::MAX,
        ensures
            final(self).selected == next_selected(old(self).selected as int, old(self).spec_item_count(old(self).section)),
            *final(self) == (SettingsOverlay { selected: final(self).selected, ..*old(self) }),
    {
        let count = self.item_count();
        if count > 0 {
            let next: usize = self.selected + 1;
            self.selected = if next < count { next } else { count - 1 };
        }
    }

    /// Switches to `section`, selecting the entry that shows the draft.
    pub fn select_tab(&mut self, section: SettingsSection)
        ensures
            final(self).section == section,
            final(self).selected == old(self).entry_for(section, old(self).draft_theme@, old(self).draft_font_size),
            *final(self) == (SettingsOverlay {
                section: final(self).section,
                selected: final(self).selected,
                ..*old(self)
            }),
    {
        self.section = section;
        self.selected = match section {
            SettingsSection::Theme => theme_index(&self.themes, self.draft_theme.as_str()),
            SettingsSection::FontSize => font_size_index(self.draft_font_size),
        };
    }

    /// Takes the selected entry of the current list as the draft; an
    /// out-of-range selection changes nothing.
    pub fn apply_selection(&mut self)
        ensures
            apply_post(*old(self), *final(self)),
    {
        match self.section {
            SettingsSection::Theme => {
                if self.selected < self.themes.len() {
                    self.draft_theme = self.themes[self.selected].clone();
                }
            },
            SettingsSection::FontSize => {
                if let Some(size) = font_size_choice(self.selected) {
                    self.draft_font_size = size;
                }
            },
        }
    }

    /// The theme and font size that saving writes: the drafts after the
    /// selected entry is applied.
    pub fn save_target(&self) -> (target: (String, u32))
        ensures
            target.0@ == if self.section == SettingsSection::Theme && self.selected < self.themes@.len() {
                self.themes@[self.selected as int]@
            } else {
                self.draft_theme@
            },
            target.1 == if self.section == SettingsSection::FontSize && self.selected < font_size_choices().len() {
                font_size_choices()[self.selected as int]
            } else {
                self.draft_font_size
            },
    {
        let theme = if self.section == SettingsSection::Theme && self.selected < self.themes.len() {
            self.themes[self.selected].clone()
        } else {
            self.draft_theme.clone()
        };
        let size: u32 = if self.section == SettingsSection::FontSize {
            match font_size_choice(self.selected) {
                Some(size) => size,
                None => self.draft_font_size,
            }
        } else {
            self.draft_font_size
        };
        (theme, size)
    }

    /// Applies the selected entry, then, when the configuration file took
    /// the values of `save_target` (`written`), makes the drafts the saved
    /// values. Returns `written`.
    pub fn save(&mut self, written: bool) -> (saved: bool)
        ensures
            saved == written,
            final(self).draft_theme@ == old(self).save_target_view().0,
            final(self).draft_font_size == old(self).save_target_view().1,
            written ==> final(self).saved_theme@ == final(self).draft_theme@
                && final(self).saved_font_size == final(self).draft_font_size
                && !final(self).spec_has_unsaved_changes(),
            !written ==> final(self).saved_theme == old(self).saved_theme
                && final(self).saved_font_size == old(self).saved_font_size,
            final(self).open == old(self).open,
            final(self).section == old(self).section,
            final(self).selected == old(self).selected,
            final(self).themes == old(self).themes,
    {
        self.apply_selection();
        if !written {
            return false;
        }
        self.saved_theme = self.draft_theme.clone();
        self.saved_font_size = self.draft_font_size;
        true
    }

    /// Discards the drafts, selects the saved entry of the current list,
    /// and closes the overlay.
    pub fn cancel(&mut self)
        ensures
            cancel_post(*old(self), *final(self)),
    {
        self.draft_theme = self.saved_theme.clone();
        self.draft_font_size = self.saved_font_size;
        self.selected = match self.section {
            SettingsSection::Theme => theme_index(&self.themes, self.saved_theme.as_str()),
            SettingsSection::FontSize => font_size_index(self.saved_font_size),
        };
        self.open = false;
    }

    /// Keeps the drafts as the saved values and closes the overlay.
    pub fn close_saved(&mut self)
        ensures
            final(self).saved_theme@ == old(self).draft_theme@,
            final(self).saved_font_size == old(self).draft_font_size,
            !final(self).open,
            !final(self).spec_has_unsaved_changes(),
            *final(self) == (SettingsOverlay {
                saved_theme: final(self).saved_theme,
                saved_font_size: final(self).saved_font_size,
                open: false,
                ..*old(self)
            }),
    {
        self.saved_theme = self.draft_theme.clone();
        self.saved_font_size = self.draft_font_size;
        self.open = false;
    }
}

#[derive(Debug, Clone, Copy, PartialEq, Eq, Structural)]
pub struct SettingsLayout {
    pub rect: Rect,
    pub close: Rect,
    pub apply: Rect,
    pub tab_theme: Rect,
    pub tab_font: Rect,
    pub list: Rect,
}

/// Integer division rounding toward zero, as `i32` division does.
pub open spec fn div_trunc(a: int, b: int) -> int {
    if a >= 0 { a / b } else { -((-a) / b) }
}

/// Width of the settings popup: 520 px, shrunk to leave a 20 px margin on
/// each side of the surface, but never below 320 px.
pub open spec fn popup_width(surface_w: int) -> int {
    let w: int = if surface_w - 40 < 520 { surface_w - 40 } else { 520 };
    if w < 320 { 320 } else { w }
}

/// Height of the settings popup: 360 px, shrunk to leave a 20 px margin,
/// but never below 240 px.
pub open spec fn popup_height(surface_h: int) -> int {
    let h: int = if surface_h - 40 < 360 { surface_h - 40 } else { 360 };
    if h < 240 { 240 } else { h }
}

pub open spec fn mk_rect(x: int, y: int, w: int, h: int) -> Rect {
    Rect { x: x as i32, y: y as i32, w: w as i32, h: h as i32 }
}

/// The settings popup, centered on the surface: a header with the two
/// section tabs, the entry list, and a footer with the apply and close
/// buttons at the bottom right.
pub open spec fn spec_settings_layout(surface_w: int, surface_h: int) -> SettingsLayout {
    let pw: int = popup_width(surface_w);
    let ph: int = popup_height(surface_h);
    let x: int = div_trunc(surface_w - pw, 2);
    let y: int = div_trunc(surface_h - ph, 2);
    let pad: int = 16;
    let footer_h: int = 34;
    let header_h: int = 72;
    let close_x: int = x + pw - pad - 72;
    let tab_w: int = div_trunc(pw - pad * 2 - 8, 2);
    SettingsLayout {
        rect: mk_rect(x, y, pw, ph),
        close: mk_rect(close_x, y + ph - footer_h, 72, 24),
        apply: mk_rect(close_x - 8 - 72, y + ph - footer_h, 72, 24),
        tab_theme: mk_rect(x + pad, y + 40, tab_w, 24),
        tab_font: mk_rect(x + pad + tab_w + 8, y + 40, tab_w, 24),
        list: mk_rect(x + pad, y + header_h, pw - pad * 2, ph - header_h - footer_h - pad),
    }
}

/// Surface sizes for which the popup geometry fits in `i32`.
pub open spec fn settings_fits(surface_w: int, surface_h: int) -> bool {
    i32::MIN + 320 <= surface_w <= i32::MAX && i32::MIN + 240 <= surface_h <= i32::MAX
}

/// `a` lies within `b`.
pub open spec fn rect_within(a: Rect, b: Rect) -> bool {
    b.x <= a.x && a.x + a.w <= b.x + b.w && b.y <= a.y && a.y + a.h <= b.y + b.h
}

/// `a` and `b` share no pixel.
pub open spec fn rects_apart(a: Rect, b: Rect) -> bool {
    a.x + a.w <= b.x || b.x + b.w <= a.x || a.y + a.h <= b.y || b.y + b.h <= a.y
}

/// Every control of the settings popup lies inside it, and no two
/// controls overlap, on every surface the popup fits: a click on a control
/// never dismisses the popup and reaches that control alone.
pub proof fn lemma_popup_controls_apart(surface_w: int, surface_h: int)
    requires
        settings_fits(surface_w, surface_h),
    ensures
        ({
            let l = spec_settings_layout(surface_w, surface_h);
            &&& rect_within(l.close, l.rect)
            &&& rect_within(l.apply, l.rect)
            &&& rect_within(l.tab_theme, l.rect)
            &&& rect_within(l.tab_font, l.rect)
            &&& rect_within(l.list, l.rect)
            &&& rects_apart(l.close, l.apply)
            &&& rects_apart(l.close, l.tab_theme)
            &&& rects_apart(l.close, l.tab_font)
            &&& rects_apart(l.close, l.list)
            &&& rects_apart(l.apply, l.tab_theme)
            &&& rects_apart(l.apply, l.tab_font)
            &&& rects_apart(l.apply, l.list)
            &&& rects_apart(l.tab_theme, l.tab_font)
            &&& rects_apart(l.tab_theme, l.list)
            &&& rects_apart(l.tab_font, l.list)
        }),
{
    let pw = popup_width(surface_w);
    let ph = popup_height(surface_h);
    let x = div_trunc(surface_w - pw, 2);
    let y = div_trunc(surface_h - ph, 2);
    let tab_w = div_trunc(pw - 40, 2);
    assert(320 <= pw <= 520 && 240 <= ph <= 360);
    assert(i32::MIN / 2 <= x <= i32::MAX / 2);
    assert(i32::MIN / 2 <= y <= i32::MAX / 2);
    assert(140 <= tab_w <= 240);
}

pub fn layout(surface_w: i32, surface_h: i32) -> (l: SettingsLayout)
    requires
        settings_fits(surface_w as int, surface_h as int),
    ensures
        l == spec_settings_layout(surface_w as int, surface_h as int),
{
    let shrunk_w: i32 = surface_w - 40;
    let popup_w: i32 = if shrunk_w < 520 { if shrunk_w < 320 { 320 } else { shrunk_w } } else { 520 };
    let shrunk_h: i32 = surface_h - 40;
    let popup_h: i32 = if shrunk_h < 360 { if shrunk_h < 240 { 240 } else { shrunk_h } } else { 360 };
    let x: i32 = (surface_w - popup_w) / 2;
    let y: i32 = (surface_h - popup_h) / 2;
    let rect = Rect::new(x, y, popup_w, popup_h);
    let pad: i32 = 16;
    let footer_h: i32 = 34;
    let header_h: i32 = 72;
    let close = Rect::new(rect.x + rect.w - pad - 72, rect.y + rect.h - footer_h, 72, 24);
    let apply = Rect::new(close.x - 8 - 72, close.y, 72, 24);
    let tab_y: i32 = rect.y + 40;
    let tab_w: i32 = (popup_w - pad * 2 - 8) / 2;
    SettingsLayout {
        rect,
        close,
        apply,
        tab_theme: Rect::new(rect.x + pad, tab_y, tab_w, 24),
        tab_font: Rect::new(rect.x + pad + tab_w + 8, tab_y, tab_w, 24),
        list: Rect::new(
            rect.x + pad,
            rect.y + header_h,
            rect.w - pad * 2,
            rect.h - header_h - footer_h - pad,
        ),
    }
}

#[derive(Debug, Clone, Copy, PartialEq, Eq, Structural)]
pub enum SettingsHit {
    Close,
    Apply,
    Tab(SettingsSection),
    ListItem(usize),
    Dismiss,
}

/// Height of a list row for hit testing.
pub const LIST_ROW_H: i32 = 24;

/// What a click at `(x, y)` on the open overlay hits: the buttons and tabs
/// first, then a list row, then anything outside the popup dismisses it;
/// the rest of the popup hits nothing.
pub open spec fn spec_hit_test(x: int, y: int, surface_w: int, surface_h: int) -> Option<SettingsHit> {
    let l: SettingsLayout = spec_settings_layout(surface_w, surface_h);
    if spec_contains(l.close, x, y) {
        Some(SettingsHit::Close)
    } else if spec_contains(l.apply, x, y) {
        Some(SettingsHit::Apply)
    } else if spec_contains(l.tab_theme, x, y) {
        Some(SettingsHit::Tab(SettingsSection::Theme))
    } else if spec_contains(l.tab_font, x, y) {
        Some(SettingsHit::Tab(SettingsSection::FontSize))
    } else if spec_contains(l.list, x, y) {
        Some(SettingsHit::ListItem(((y - l.list.y) / LIST_ROW_H as int) as usize))
    } else if !spec_contains(l.rect, x, y) {
        Some(SettingsHit::Dismiss)
    } else {
        None
    }
}

pub fn hit_test(x: i32, y: i32, surface_w: i32, surface_h: i32) -> (hit: Option<SettingsHit>)
    requires
        settings_fits(surface_w as int, surface_h as int),
    ensures
        hit == spec_hit_test(x as int, y as int, surface_w as int, surface_h as int),
{
    let layout = layout(surface_w, surface_h);
    if layout.close.contains(x, y) {
        return Some(SettingsHit::Close);
    }
    if layout.apply.contains(x, y) {
        return Some(SettingsHit::Apply);
    }
    if layout.tab_theme.contains(x, y) {
        return Some(SettingsHit::Tab(SettingsSection::Theme));
    }
    if layout.tab_font.contains(x, y) {
        return Some(SettingsHit::Tab(SettingsSection::FontSize));
    }
    let list = layout.list;
    if list.contains(x, y) {
        let row: i32 = (y - list.y) / LIST_ROW_H;
        let idx: usize = if row > 0 { row as usize } else { 0 };
        return Some(SettingsHit::ListItem(idx));
    }
    if !layout.rect.contains(x, y) {
        return Some(SettingsHit::Dismiss);
    }
    None
}

/// The values saving writes to the configuration file: the theme name as a
/// quoted string for `[theme] name`, and the font size clamped to the
/// accepted range and written with one decimal for `[gui] font_size`.
pub open spec fn spec_config_values(theme: Seq<char>, font_size: u32) -> (Seq<char>, Seq<char>) {
    let c: int = clamp(font_size as int, MIN_FONT_SIZE as int, MAX_FONT_SIZE as int);
    (seq!['"'] + theme + seq!['"'], spec_decimal((c / 10) as nat) + seq!['.', digit_char(c % 10)])
}

/// The configuration values of a saved theme and font size (tenths of a
/// pixel), as `spec_config_values` gives them.
pub fn config_values(theme: &str, font_size: u32) -> (v: (String, String))
    ensures
        v.0@ == spec_config_values(theme@, font_size).0,
        v.1@ == spec_config_values(theme@, font_size).1,
{
    let mut name = String::new();
    push_char(&mut name, '"');
    name.append(theme);
    push_char(&mut name, '"');
    let c: u32 = if font_size < MIN_FONT_SIZE {
        MIN_FONT_SIZE
    } else if font_size > MAX_FONT_SIZE {
        MAX_FONT_SIZE
    } else {
        font_size
    };
    let mut size = decimal_string(c / 10);
    push_char(&mut size, '.');
    push_char(&mut size, digit(c % 10));
    proof {
        assert(name@ =~= seq!['"'] + theme@ + seq!['"']);
        assert(size@ =~= spec_decimal((c / 10) as nat) + seq!['.', digit_char((c % 10) as int)]);
    }
    (name, size)
}

/// The offered font sizes run from 12 to 22 px in increasing order, all
/// within the accepted range; looking a size up finds the entry holding
/// it, and a size not offered selects the fourth entry (15 px).
pub proof fn lemma_font_sizes_are_ordered(i: int, j: int, size: u32)
    requires
        0 <= i < j < FONT_SIZE_CHOICE_COUNT,
    ensures
        font_size_choices().len() == FONT_SIZE_CHOICE_COUNT,
        font_size_choices()[i] < font_size_choices()[j],
        MIN_FONT_SIZE <= font_size_choices()[i] && font_size_choices()[j] <= MAX_FONT_SIZE,
        font_size_choices()[0] == 120 && font_size_choices()[FONT_SIZE_CHOICE_COUNT - 1] == 220,
        font_size_choices().contains(size) ==> font_size_choices()[spec_font_size_index(size)] == size,
        !font_size_choices().contains(size) ==> font_size_choices()[spec_font_size_index(size)] == 150,
{
    if font_size_choices().contains(size) {
        let k = font_size_choices().index_of(size);
        assert(font_size_choices()[k] == size);
    }
}

/// Looking a theme up ignores ASCII case: it finds the first theme whose
/// name matches, and the first theme when none does.
pub proof fn lemma_theme_lookup_finds_a_match(themes: Seq<String>, name: Seq<char>)
    ensures
        (exists|i: int| 0 <= i < themes.len() && spec_eq_ignore_ascii_case(#[trigger] themes[i]@, name)) ==> {
            let k = spec_theme_index(themes, name);
            &&& 0 <= k < themes.len()
            &&& spec_eq_ignore_ascii_case(themes[k]@, name)
            &&& forall|j: int| 0 <= j < k ==> !spec_eq_ignore_ascii_case(#[trigger] themes[j]@, name)
        },
        !(exists|i: int| 0 <= i < themes.len() && spec_eq_ignore_ascii_case(#[trigger] themes[i]@, name))
            ==> spec_theme_index(themes, name) == 0,
{
    if exists|i: int| 0 <= i < themes.len() && spec_eq_ignore_ascii_case(#[trigger] themes[i]@, name) {
        let i = choose|i: int| 0 <= i < themes.len() && spec_eq_ignore_ascii_case(#[trigger] themes[i]@, name);
        lemma_some_first_match(themes, name, i);
    }
}

/// A theme that matches makes some theme the first match.
proof fn lemma_some_first_match(themes: Seq<String>, name: Seq<char>, i: int)
    requires
        0 <= i < themes.len(),
        spec_eq_ignore_ascii_case(themes[i]@, name),
    ensures
        exists|k: int| is_first_theme_match(themes, name, k),
    decreases i,
{
    if exists|j: int| 0 <= j < i && spec_eq_ignore_ascii_case(#[trigger] themes[j]@, name) {
        let j = choose|j: int| 0 <= j < i && spec_eq_ignore_ascii_case(#[trigger] themes[j]@, name);
        lemma_some_first_match(themes, name, j);
    } else {
        assert(is_first_theme_match(themes, name, i));
    }
}

} // verus!
