use herdr_gui::font::Style;
use herdr_gui::layout::{compute, Rect, CAPTION_H};
use herdr_gui::model::UiModel;
use herdr_gui::schema::{AgentInfo, AgentStatus, PaneInfo, TabInfo, WorkspaceInfo};
use herdr_gui::settings::{layout as settings_layout, SettingsOverlay, SettingsSection};
use herdr_gui::theme::ChromePalette;
use herdr_gui::view::{
    agent_by_terminal, chrome_paints, decimal_string, font_size_label_exec, join_dotted, pane_by_id, panes_paints,
    selection_paints, settings_paints, sidebar_paints, tab_by_id, tabbar_paints, workspace_by_id, Paint,
};

const CW: i32 = 8;
const CH: i32 = 16;

fn pal() -> ChromePalette {
    ChromePalette {
        base: (1, 0, 0),
        mantle: (2, 0, 0),
        crust: (3, 0, 0),
        surface0: (4, 0, 0),
        surface1: (5, 0, 0),
        text: (6, 0, 0),
        subtext: (7, 0, 0),
        overlay: (8, 0, 0),
        accent: (9, 0, 0),
        red: (10, 0, 0),
        yellow: (11, 0, 0),
        blue: (12, 0, 0),
        green: (13, 0, 0),
    }
}

fn ws(id: &str, number: u32, branch: Option<&str>, repo: Option<&str>) -> WorkspaceInfo {
    WorkspaceInfo {
        workspace_id: id.into(),
        number,
        label: format!("space {id}"),
        focused: false,
        active_tab_id: String::new(),
        branch: branch.map(|b| b.to_string()),
        worktree_repo: repo.map(|r| r.to_string()),
        agent_status: AgentStatus::Working,
    }
}

fn pane(id: &str, terminal_id: &str, label: Option<&str>) -> PaneInfo {
    PaneInfo {
        pane_id: id.into(),
        terminal_id: terminal_id.into(),
        workspace_id: "a".into(),
        tab_id: "tab".into(),
        focused: false,
        label: label.map(|l| l.to_string()),
        agent: None,
        title: None,
        display_agent: None,
        agent_status: AgentStatus::Blocked,
    }
}

fn text_of(p: &Paint) -> (i32, i32, String, Style, (u8, u8, u8), i32) {
    match p {
        Paint::Text { x, y, text, style, color, max_x } => (*x, *y, text.clone(), *style, *color, *max_x),
        other => panic!("expected text, got {other:?}"),
    }
}

fn fill_of(p: &Paint) -> (Rect, (u8, u8, u8)) {
    match p {
        Paint::Fill { rect, color } => (*rect, *color),
        other => panic!("expected fill, got {other:?}"),
    }
}

#[test]
fn decimal_and_dotted_labels() {
    assert_eq!(decimal_string(0), "0");
    assert_eq!(decimal_string(7), "7");
    assert_eq!(decimal_string(4096), "4096");
    assert_eq!(decimal_string(u32::MAX), "4294967295");
    assert_eq!(join_dotted("work", "3"), "work · 3");
    assert_eq!(font_size_label_exec(150), "15px");
}

#[test]
fn finders_return_the_first_match() {
    let wss = vec![ws("a", 1, None, None), ws("b", 2, None, None), ws("b", 3, None, None)];
    assert_eq!(workspace_by_id(&wss, "b").map(|w| w.number), Some(2));
    assert!(workspace_by_id(&wss, "c").is_none());
    let tabs = vec![TabInfo { tab_id: "t".into(), workspace_id: "a".into(), label: "one".into(), focused: false }];
    assert_eq!(tab_by_id(&tabs, "t").map(|t| t.label.clone()), Some("one".to_string()));
    assert!(tab_by_id(&tabs, "u").is_none());
    let panes = vec![pane("p0", "t0", None)];
    assert!(pane_by_id(&panes, "p0").is_some());
    let agents: Vec<AgentInfo> = vec![];
    assert!(agent_by_terminal(&agents, "t0").is_none());
}

#[test]
fn sidebar_paints_rows_in_order() {
    let mut second = ws("b", 2, Some(""), Some("repo"));
    second.label = "a rather long workspace label".into();
    let model = UiModel {
        workspaces: vec![ws("a", 1, Some("main"), None), second],
        agents: vec![AgentInfo {
            terminal_id: "term".into(),
            pane_id: "p".into(),
            workspace_id: "a".into(),
            name: None,
            agent: Some("codex".into()),
            display_agent: None,
            agent_status: AgentStatus::Done,
        }],
        active_workspace_id: Some("a".into()),
        ..UiModel::default()
    };
    let layout = compute(&model, 1000, 700);
    let ops = sidebar_paints(&pal(), &model, &layout, CW, CH);
    let sb = layout.sidebar;
    let label_max = sb.x + sb.w - 10;
    assert_eq!(fill_of(&ops[0]), (sb, (2, 0, 0)));
    assert_eq!(fill_of(&ops[1]), (Rect::new(sb.x + sb.w - 1, sb.y, 1, sb.h), (3, 0, 0)));
    assert_eq!(text_of(&ops[2]), (10, 10, "SPACES".to_string(), Style::Bold, (8, 0, 0), label_max));

    // The focused first row: highlight, accent bar, dot, label, branch.
    let r = layout.workspace_rows[0].rect;
    assert_eq!(fill_of(&ops[3]), (r, (4, 0, 0)));
    assert_eq!(fill_of(&ops[4]), (Rect::new(r.x, r.y, 3, r.h), (9, 0, 0)));
    match &ops[5] {
        Paint::Dot { cx, cy, radius, color } => {
            assert_eq!((*cx, *cy, *radius, *color), (r.x + 14, r.y + 6 + CH / 2, 4, (11, 0, 0)));
        }
        other => panic!("expected dot, got {other:?}"),
    }
    assert_eq!(text_of(&ops[6]), (r.x + 26, r.y + 6, "space a".to_string(), Style::Bold, (6, 0, 0), label_max));
    assert_eq!(text_of(&ops[7]), (r.x + 26, r.y + 6 + CH + 2, "main".to_string(), Style::Regular, (8, 0, 0), label_max));

    // The second row: no highlight; an empty branch falls back to the repo;
    // the label is cut to (210 - 30) / 8 = 22 cells.
    let r2 = layout.workspace_rows[1].rect;
    assert!(matches!(ops[8], Paint::Dot { .. }));
    assert_eq!(text_of(&ops[9]).2, "a rather long workspa…");
    assert_eq!(text_of(&ops[9]).4, (7, 0, 0));
    assert_eq!(text_of(&ops[10]), (r2.x + 26, r2.y + 6 + CH + 2, "repo".to_string(), Style::Regular, (8, 0, 0), label_max));

    // The agents header sits 24 px above the first agent row.
    let ar = layout.agent_rows[0].rect;
    assert_eq!(text_of(&ops[11]), (10, ar.y - 24, "AGENTS".to_string(), Style::Bold, (8, 0, 0), label_max));
    assert!(matches!(ops[12], Paint::Dot { .. }));
    assert_eq!(text_of(&ops[13]).2, "space a · 1");
    assert_eq!(text_of(&ops[14]).2, "done · codex");
    assert_eq!(text_of(&ops[14]).4, (12, 0, 0));

    let nw = layout.new_workspace;
    assert_eq!(fill_of(&ops[15]), (nw, (4, 0, 0)));
    assert_eq!(text_of(&ops[16]), (nw.x + 10, nw.y + (nw.h - CH) / 2, "+ new space".to_string(), Style::Regular, (6, 0, 0), nw.x + nw.w));
    assert_eq!(ops.len(), 17);
}

#[test]
fn tabbar_paints_tabs_and_buttons() {
    let model = UiModel {
        tabs: vec![TabInfo { tab_id: "t0".into(), workspace_id: "a".into(), label: "shell".into(), focused: true }],
        active_tab_id: Some("t0".into()),
        ..UiModel::default()
    };
    let layout = compute(&model, 1000, 700);
    let gear = vec![(0, -7), (6, -2)];
    let ops = tabbar_paints(&pal(), &model, &layout, CW, CH, &gear);
    let tb = layout.tabbar;
    assert_eq!(fill_of(&ops[0]), (tb, (3, 0, 0)));
    assert_eq!(fill_of(&ops[1]), (Rect::new(tb.x, tb.y + tb.h - 1, tb.w, 1), (2, 0, 0)));
    let tab = &layout.tabs[0];
    assert_eq!(fill_of(&ops[2]), (tab.rect, (1, 0, 0)));
    assert_eq!(fill_of(&ops[3]), (Rect::new(tab.rect.x, tab.rect.y, tab.rect.w, 2), (9, 0, 0)));
    assert_eq!(text_of(&ops[4]).2, "shell");
    assert_eq!(text_of(&ops[4]).5, tab.close.x);
    match &ops[5] {
        Paint::Glyph { x, y, ch, .. } => assert_eq!((*x, *y, *ch), (tab.close.x, tab.close.y, '×')),
        other => panic!("expected glyph, got {other:?}"),
    }
    let nt = layout.new_tab;
    assert_eq!(fill_of(&ops[6]), (nt, (4, 0, 0)));
    match &ops[7] {
        Paint::Glyph { x, ch, style, .. } => assert_eq!((*x, *ch, *style), (nt.x + (nt.w - CW) / 2, '+', Style::Bold)),
        other => panic!("expected glyph, got {other:?}"),
    }
    // Split right: fill, icon outline, vertical divider.
    let sr = layout.btn_split_right;
    let (ix, iy) = (sr.x + sr.w / 2 - 7, sr.y + sr.h / 2 - 6);
    assert_eq!(fill_of(&ops[10]), (Rect::new(ix + 7, iy, 1, 12), (6, 0, 0)));
    // Split down divides across.
    let sd = layout.btn_split_down;
    let (jx, jy) = (sd.x + sd.w / 2 - 7, sd.y + sd.h / 2 - 6);
    assert_eq!(fill_of(&ops[13]), (Rect::new(jx, jy + 6, 14, 1), (6, 0, 0)));
    // Settings: fill, outline, two teeth, center.
    let st = layout.btn_settings;
    let (cx, cy) = (st.x + st.w / 2, st.y + st.h / 2);
    assert_eq!(fill_of(&ops[16]), (Rect::new(cx - 1, cy - 8, 3, 3), (6, 0, 0)));
    assert_eq!(fill_of(&ops[17]), (Rect::new(cx + 5, cy - 3, 3, 3), (6, 0, 0)));
    assert_eq!(fill_of(&ops[18]), (Rect::new(cx - 2, cy - 2, 4, 4), (6, 0, 0)));
    assert_eq!(fill_of(&ops[19]), (layout.btn_close_pane, (4, 0, 0)));
    assert!(matches!(ops[20], Paint::Glyph { ch: '×', style: Style::Bold, .. }));
    assert_eq!(ops.len(), 21);
}

#[test]
fn pane_slots_paint_caption_content_and_border() {
    let model = UiModel {
        panes: vec![pane("p0", "t0", Some("build")), pane("p1", "t1", None)],
        active_tab_id: Some("tab".into()),
        focused_pane_id: Some("p1".into()),
        ..UiModel::default()
    };
    let layout = compute(&model, 1030, 738);
    let ops = panes_paints(&pal(), &model, &layout, CW, CH);
    let s0 = &layout.panes[0];
    assert_eq!(fill_of(&ops[0]), (Rect::new(s0.rect.x, s0.rect.y, s0.rect.w, CAPTION_H), (4, 0, 0)));
    assert_eq!(fill_of(&ops[1]), (s0.content, (1, 0, 0)));
    assert!(matches!(ops[2], Paint::Dot { color: (10, 0, 0), .. }));
    assert_eq!(text_of(&ops[3]), (s0.rect.x + 24, s0.rect.y + (CAPTION_H - CH) / 2, "build".to_string(), Style::Bold, (7, 0, 0), s0.rect.x + s0.rect.w));
    assert!(matches!(ops[4], Paint::PaneContent { slot: 0 }));
    assert!(matches!(ops[5], Paint::Stroke { thickness: 1, color: (4, 0, 0), .. }));
    // The focused second pane: brighter caption, "shell" fallback, accent border.
    assert_eq!(fill_of(&ops[6]).1, (5, 0, 0));
    assert_eq!(text_of(&ops[9]).2, "shell");
    assert!(matches!(ops[10], Paint::PaneContent { slot: 1 }));
    assert!(matches!(ops[11], Paint::Stroke { thickness: 2, color: (9, 0, 0), .. }));
    assert_eq!(ops.len(), 12);
}

#[test]
fn settings_popup_paints_rows_and_buttons() {
    let themes: Vec<String> = vec!["catppuccin".into(), "dracula".into(), "nord".into()];
    let mut s = SettingsOverlay::from_config(themes, None, 150);
    s.open = true;
    s.selected = 1;
    let ops = settings_paints(&pal(), &s, 1000, 700, CW, CH);
    let l = settings_layout(1000, 700);
    match &ops[0] {
        Paint::FillAlpha { rect, color, alpha } => assert_eq!((*rect, *color, *alpha), (Rect::new(0, 0, 1000, 700), (0, 0, 0), 140)),
        other => panic!("expected veil, got {other:?}"),
    }
    assert_eq!(fill_of(&ops[1]), (l.rect, (2, 0, 0)));
    assert_eq!(text_of(&ops[3]).2, "settings");
    // Active theme tab: fill, accent line, label; font tab: fill, label.
    assert_eq!(fill_of(&ops[4]), (l.tab_theme, (5, 0, 0)));
    assert_eq!(text_of(&ops[6]).2, "theme");
    assert_eq!(fill_of(&ops[7]), (l.tab_font, (4, 0, 0)));
    assert_eq!(text_of(&ops[8]).2, "font size");
    // Rows: catppuccin (active draft), dracula (selected), nord.
    let row_h = CH + 8;
    let t = text_of(&ops[9]);
    assert_eq!((t.0, t.1, t.2.as_str(), t.3, t.4), (l.list.x + 12, l.list.y + (row_h - CH) / 2, "catppuccin", Style::Bold, (9, 0, 0)));
    assert_eq!(fill_of(&ops[10]), (Rect::new(l.list.x, l.list.y + row_h, l.list.w, row_h), (4, 0, 0)));
    assert_eq!(text_of(&ops[12]).2, "dracula");
    assert_eq!(text_of(&ops[12]).4, (6, 0, 0));
    assert_eq!(text_of(&ops[13]).2, "nord");
    // Apply is disabled with nothing unsaved; close is always enabled.
    assert_eq!(fill_of(&ops[14]), (l.apply, (4, 0, 0)));
    assert_eq!(text_of(&ops[15]).4, (8, 0, 0));
    assert_eq!(fill_of(&ops[16]), (l.close, (5, 0, 0)));
    assert_eq!(ops.len(), 18);
}

#[test]
fn settings_font_list_scrolls_to_the_selection() {
    let mut s = SettingsOverlay::from_config(vec!["catppuccin".into()], None, 200);
    s.open = true;
    s.select_tab(SettingsSection::FontSize);
    s.selected = 8;
    // A 300 px tall surface shrinks the popup to 260 px; its list is
    // 260 - 122 = 138 px tall, room for 5 rows of 24 px, so the list
    // scrolls to show entries 4..=8.
    let ops = settings_paints(&pal(), &s, 1000, 300, CW, CH);
    let labels: Vec<String> = ops
        .iter()
        .filter_map(|p| match p {
            Paint::Text { text, .. } => Some(text.clone()),
            _ => None,
        })
        .collect();
    assert_eq!(labels[3], "16px");
    assert_eq!(labels[7], "22px");
    assert!(!labels.contains(&"15px".to_string()));
    assert!(labels.iter().any(|l| l == "20px"));
}

#[test]
fn chrome_paints_clear_then_parts() {
    let model = UiModel::default();
    let layout = compute(&model, 1000, 700);
    let mut s = SettingsOverlay::from_config(vec!["catppuccin".into()], None, 150);
    let gear = vec![(0, -7)];
    let ops = chrome_paints(&pal(), &model, &layout, &s, 1000, 700, CW, CH, &gear);
    assert!(matches!(ops[0], Paint::Clear { color: (1, 0, 0) }));
    let closed = ops.len();
    s.open = true;
    let ops = chrome_paints(&pal(), &model, &layout, &s, 1000, 700, CW, CH, &gear);
    assert!(ops.len() > closed);
    assert!(matches!(ops[closed], Paint::FillAlpha { .. }));
}

#[test]
fn selection_is_painted_as_accent_bands() {
    let hl = herdr_gui::chrome::Highlight { terminal_id: "t".into(), start: (2, 0), end: (4, 1) };
    let ops = selection_paints(&pal(), Rect::new(10, 20, 200, 100), 6, 3, CW, CH, &hl);
    let bands: Vec<(Rect, (u8, u8, u8), u8)> = ops
        .iter()
        .map(|p| match p {
            Paint::FillAlpha { rect, color, alpha } => (*rect, *color, *alpha),
            other => panic!("not a band: {other:?}"),
        })
        .collect();
    // Row 0 from column 2 to the last column (5), row 1 up to column 4.
    assert_eq!(
        bands,
        vec![(Rect::new(26, 20, 32, CH), (9, 0, 0), 130), (Rect::new(10, 36, 40, CH), (9, 0, 0), 130)]
    );
}
