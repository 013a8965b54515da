use herdr_gui::settings::{
    config_values, eq_ignore_ascii_case, font_size_index, hit_test, layout, theme_index, SettingsHit, SettingsOverlay, SettingsSection,
};

fn themes() -> Vec<String> {
    vec!["catppuccin".into(), "dracula".into(), "nord".into()]
}

#[test]
fn settings_overlay_tracks_unsaved_changes() {
    let mut settings = SettingsOverlay::from_config(themes(), None, 150);
    assert!(!settings.has_unsaved_changes());
    settings.draft_theme = "dracula".to_string();
    assert!(settings.has_unsaved_changes());
}

#[test]
fn from_config_defaults_and_clamps() {
    let s = SettingsOverlay::from_config(themes(), Some("Nord".into()), 400);
    assert_eq!(s.draft_theme, "Nord");
    assert_eq!(s.selected, 2);
    assert_eq!(s.draft_font_size, 280);
    let s = SettingsOverlay::from_config(themes(), None, 20);
    assert_eq!(s.draft_theme, "catppuccin");
    assert_eq!(s.draft_font_size, 100);
    assert!(!s.open);
}

#[test]
fn selection_moves_within_the_list() {
    let mut s = SettingsOverlay::from_config(themes(), None, 150);
    s.move_prev();
    assert_eq!(s.selected, 0);
    s.move_next();
    s.move_next();
    s.move_next();
    assert_eq!(s.selected, 2);
    s.select_tab(SettingsSection::FontSize);
    assert_eq!(s.item_count(), 9);
    assert_eq!(s.selected, 3);
    s.move_next();
    s.apply_selection();
    assert_eq!(s.draft_font_size, 160);
    assert!(s.has_unsaved_changes());
}

#[test]
fn cancel_restores_saved_values() {
    let mut s = SettingsOverlay::from_config(themes(), None, 150);
    s.open = true;
    s.move_next();
    s.apply_selection();
    assert_eq!(s.draft_theme, "dracula");
    s.cancel();
    assert_eq!(s.draft_theme, "catppuccin");
    assert_eq!(s.selected, 0);
    assert!(!s.open);
    assert!(!s.has_unsaved_changes());
}

#[test]
fn save_commits_only_when_written() {
    let mut s = SettingsOverlay::from_config(themes(), None, 150);
    s.move_next();
    assert_eq!(s.save_target(), ("dracula".to_string(), 150));
    assert!(!s.save(false));
    assert_eq!(s.draft_theme, "dracula");
    assert_eq!(s.saved_theme, "catppuccin");
    assert!(s.save(true));
    assert_eq!(s.saved_theme, "dracula");
    assert!(!s.has_unsaved_changes());
}

#[test]
fn close_saved_keeps_drafts() {
    let mut s = SettingsOverlay::from_config(themes(), None, 150);
    s.open = true;
    s.draft_font_size = 200;
    s.close_saved();
    assert_eq!(s.saved_font_size, 200);
    assert!(!s.open);
    assert!(!s.has_unsaved_changes());
}

#[test]
fn theme_and_font_lookup() {
    assert!(eq_ignore_ascii_case("DrAcUla", "dracula"));
    assert!(!eq_ignore_ascii_case("dracul", "dracula"));
    assert_eq!(theme_index(&themes(), "NORD"), 2);
    assert_eq!(theme_index(&themes(), "solarized"), 0);
    assert_eq!(font_size_index(220), 8);
    assert_eq!(font_size_index(155), 3);
}

#[test]
fn popup_is_centered_and_clamped() {
    let l = layout(1000, 700);
    assert_eq!((l.rect.x, l.rect.y, l.rect.w, l.rect.h), (240, 170, 520, 360));
    assert_eq!((l.close.x, l.close.y), (672, 496));
    assert_eq!((l.apply.x, l.apply.y), (592, 496));
    assert_eq!((l.tab_theme.x, l.tab_theme.w), (256, 240));
    assert_eq!(l.tab_font.x, 504);
    assert_eq!((l.list.x, l.list.y, l.list.w, l.list.h), (256, 242, 488, 238));
    // A tiny surface keeps the minimum popup size, centered toward zero.
    let small = layout(100, 100);
    assert_eq!((small.rect.x, small.rect.y, small.rect.w, small.rect.h), (-110, -70, 320, 240));
}

#[test]
fn hit_test_regions() {
    assert_eq!(hit_test(680, 500, 1000, 700), Some(SettingsHit::Close));
    assert_eq!(hit_test(600, 500, 1000, 700), Some(SettingsHit::Apply));
    assert_eq!(hit_test(260, 215, 1000, 700), Some(SettingsHit::Tab(SettingsSection::Theme)));
    assert_eq!(hit_test(510, 215, 1000, 700), Some(SettingsHit::Tab(SettingsSection::FontSize)));
    assert_eq!(hit_test(300, 242 + 50, 1000, 700), Some(SettingsHit::ListItem(2)));
    assert_eq!(hit_test(5, 5, 1000, 700), Some(SettingsHit::Dismiss));
    assert_eq!(hit_test(245, 175, 1000, 700), None);
}

#[test]
fn config_values_quote_the_theme_and_clamp_the_size() {
    assert_eq!(config_values("dracula", 150), ("\"dracula\"".to_string(), "15.0".to_string()));
    assert_eq!(config_values("nord", 145), ("\"nord\"".to_string(), "14.5".to_string()));
    assert_eq!(config_values("x", 40).1, "10.0");
    assert_eq!(config_values("x", 1000).1, "28.0");
}
