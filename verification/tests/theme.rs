use herdr_gui::chrome::{caption_label, status_color, status_text};
use herdr_gui::schema::{AgentStatus, PaneInfo};
use herdr_gui::theme::{color_to_rgb, darker, ChromePalette, Color, Palette};

fn palette() -> Palette {
    Palette {
        surface_dim: Color::Rgb(30, 30, 46),
        panel_bg: Color::Rgb(24, 24, 37),
        surface0: Color::Rgb(49, 50, 68),
        surface1: Color::Rgb(69, 71, 90),
        text: Color::Rgb(205, 214, 244),
        subtext0: Color::Rgb(166, 173, 200),
        overlay0: Color::Rgb(108, 112, 134),
        accent: Color::Rgb(137, 180, 250),
        red: Color::Red,
        yellow: Color::Yellow,
        blue: Color::Indexed(4),
        green: Color::Reset,
    }
}

#[test]
fn chrome_palette_from_palette() {
    let p = ChromePalette::from_palette(&palette());
    assert_eq!(p.accent, (137, 180, 250));
    assert_eq!(p.mantle, (24, 24, 37));
    assert_eq!(p.crust, (19, 19, 29));
    assert_eq!(p.red, (205, 49, 49));
    assert_eq!(p.blue, (205, 214, 244));
    assert_eq!(p.green, (205, 214, 244));
}

#[test]
fn named_colors_and_darkening() {
    assert_eq!(color_to_rgb(Color::LightBlue), (59, 142, 234));
    assert_eq!(darker(Color::White), Color::Rgb(183, 183, 183));
    assert_eq!(darker(Color::Rgb(255, 10, 0)), Color::Rgb(204, 8, 0));
}

#[test]
fn status_words_and_colors() {
    let p = ChromePalette::from_palette(&palette());
    assert_eq!(status_text(AgentStatus::Unknown), "idle");
    assert_eq!(status_text(AgentStatus::Blocked), "blocked");
    assert_eq!(status_color(&p, AgentStatus::Working), p.yellow);
    assert_eq!(status_color(&p, AgentStatus::Unknown), p.overlay);
}

#[test]
fn caption_prefers_label_then_agent_then_title() {
    let mut pane = PaneInfo {
        pane_id: "p".into(),
        terminal_id: "t".into(),
        workspace_id: "w".into(),
        tab_id: "tab".into(),
        focused: false,
        label: None,
        agent: None,
        title: None,
        display_agent: None,
        agent_status: AgentStatus::Idle,
    };
    assert_eq!(caption_label(&pane), "shell");
    pane.title = Some("vim".into());
    assert_eq!(caption_label(&pane), "vim");
    pane.agent = Some("codex".into());
    assert_eq!(caption_label(&pane), "codex");
    pane.display_agent = Some("Codex".into());
    assert_eq!(caption_label(&pane), "Codex");
    pane.label = Some("build".into());
    assert_eq!(caption_label(&pane), "build");
}

/// The built-in default theme's colors.
fn catppuccin() -> Palette {
    Palette {
        surface_dim: Color::Rgb(30, 30, 46),
        panel_bg: Color::Rgb(24, 24, 37),
        surface0: Color::Rgb(49, 50, 68),
        surface1: Color::Rgb(69, 71, 90),
        text: Color::Rgb(205, 214, 244),
        subtext0: Color::Rgb(166, 173, 200),
        overlay0: Color::Rgb(108, 112, 134),
        accent: Color::Rgb(137, 180, 250),
        red: Color::Rgb(243, 139, 168),
        yellow: Color::Rgb(249, 226, 175),
        blue: Color::Rgb(137, 180, 250),
        green: Color::Rgb(166, 227, 161),
    }
}

#[test]
fn builds_palette_from_default_config() {
    // The default configuration names no theme, so the default theme is used.
    let p = ChromePalette::from_config(None, catppuccin());
    assert_eq!(p.accent, (137, 180, 250));
}

#[test]
fn configured_theme_wins_over_the_default() {
    let p = ChromePalette::from_config(Some(palette()), catppuccin());
    assert_eq!(p.base, (30, 30, 46));
    assert_eq!(p.red, (205, 49, 49));
}
