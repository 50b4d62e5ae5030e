//! The sidebar.

use cmux::model::{AgentState, Rect, Rgb};
use cmux::paint::{truncate, Color, Paint, Style};
use cmux::sidebar::{
    active_row_background, agent_glyph_color, branch_prefix, draw, drop_marker, entry, label,
    rail_color, rail_pulse, sidebar_hits, subtitle, title_room, Entry, Hit, SidebarTheme,
};
use cmux::tree::WorkspaceView;

const THEME_RAIL: Color = Color::Indexed(1);

#[test]
fn active_row_background_prefers_workspace_color() {
    assert_eq!(active_row_background(Some(Color::Blue), Color::Black), Color::Blue);
    assert_eq!(active_row_background(None, Color::Black), Color::Black);
}

#[test]
fn rail_color_prefers_workspace_color_whether_active_or_not() {
    assert_eq!(rail_color(Some(Color::Red), false, THEME_RAIL), Some(Color::Red));
    assert_eq!(rail_color(Some(Color::Red), true, THEME_RAIL), Some(Color::Red));
}

#[test]
fn rail_color_falls_back_to_theme_color_when_active_without_workspace_color() {
    assert_eq!(rail_color(None, true, THEME_RAIL), Some(THEME_RAIL));
}

#[test]
fn rail_color_hidden_when_inactive_without_workspace_color() {
    assert_eq!(rail_color(None, false, THEME_RAIL), None);
}

#[test]
fn a_flash_outshines_the_rail() {
    assert_eq!(rail_pulse(true, Some(Color::Red), false, THEME_RAIL), Some(Color::White));
    assert_eq!(rail_pulse(false, None, false, THEME_RAIL), None);
}

#[test]
fn agents_have_dots() {
    assert_eq!(agent_glyph_color(AgentState::Working), Color::Yellow);
    assert_eq!(agent_glyph_color(AgentState::Blocked), Color::Red);
    assert_eq!(agent_glyph_color(AgentState::Done), Color::Indexed(242));
    assert_eq!(agent_glyph_color(AgentState::Idle), Color::Indexed(242));
    assert_eq!(agent_glyph_color(AgentState::Unknown), Color::Indexed(242));
}

#[test]
fn rows_can_be_clicked() {
    let hits = sidebar_hits(&vec![11, 12, 13], 20, 8);
    let row = |y: u16| Rect { x: 0, y, width: 19, height: 1 };
    assert_eq!(
        hits,
        vec![
            (row(2), Hit::Workspace { index: 0, id: 11 }),
            (row(3), Hit::Workspace { index: 0, id: 11 }),
            (row(5), Hit::Workspace { index: 1, id: 12 }),
            (row(6), Hit::Workspace { index: 1, id: 12 }),
            (Rect { x: 19, y: 0, width: 1, height: 8 }, Hit::SidebarResize),
        ]
    );
    let hits = sidebar_hits(&vec![11], 20, 8);
    assert_eq!(hits[2], (row(5), Hit::NewWorkspace));
    assert!(sidebar_hits(&vec![11], 2, 8).is_empty());
    assert!(sidebar_hits(&vec![11], 20, 0).is_empty());
}

#[test]
fn a_dragged_workspace_has_a_mark() {
    assert_eq!(drop_marker(0, 10), Some(1));
    assert_eq!(drop_marker(2, 10), Some(7));
    assert_eq!(drop_marker(3, 10), None);
}

fn workspace(icon: Option<&str>) -> WorkspaceView {
    WorkspaceView {
        id: 1,
        short_id: "a".to_string(),
        name: "work".to_string(),
        color: None,
        icon: icon.map(|i| i.to_string()),
        screens: Vec::new(),
        active_screen: 0,
    }
}

#[test]
fn what_stands_in_the_rows() {
    assert_eq!(label(&workspace(Some("*"))), "* work");
    assert_eq!(label(&workspace(None)), "work");
    let prefix = branch_prefix(&Some("main".to_string()));
    assert_eq!(prefix, "main · ");
    assert_eq!(branch_prefix(&None), "");
    assert_eq!(title_room(30, &prefix, 1), 20);
    assert_eq!(title_room(30, &prefix, 2), 10);
    assert_eq!(title_room(5, &prefix, 2), 0);
    assert_eq!(subtitle(&prefix, "vim", 1), "main · vim");
    assert_eq!(subtitle("", "vim", 3), "vim (3 screens)");
    assert_eq!(truncate("abcdef", 4), "abc…");
    assert_eq!(truncate("abcd", 4), "abcd");
    assert_eq!(truncate("abcd", 0), "");
}

#[test]
fn a_workspace_becomes_an_entry() {
    let mut ws = workspace(Some("*"));
    ws.color = Some(Rgb { r: 1, g: 2, b: 3 });
    let e = entry(&ws, &Some("main".to_string()), 14, true, false, true);
    assert_eq!((e.label.as_str(), e.subtitle.as_str()), ("* work", "main · she…"));
    assert_eq!((e.color, e.agent_state), (Some(Color::Rgb(1, 2, 3)), None));
    assert!(e.active && !e.flashing && e.dragged);
    let e = entry(&workspace(None), &None, 20, false, true, false);
    assert_eq!((e.label.as_str(), e.subtitle.as_str(), e.color), ("work", "shell", None));
}

#[test]
fn the_sidebar_is_drawn() {
    let theme =
        SidebarTheme { rail: THEME_RAIL, active_bg: Color::Black, border_active: Color::Green };
    let entry = |active: bool| Entry {
        label: "work".to_string(),
        subtitle: "vim".to_string(),
        color: None,
        active,
        flashing: false,
        dragged: false,
        agent_state: Some(AgentState::Working),
    };
    let paints = draw(&vec![entry(true), entry(false)], Some(1), 20, 12, theme);
    let plain = Style { fg: None, bg: None, bold: false, dim: false };
    assert!(matches!(
        &paints[0],
        Paint::Fill { area: Rect { x: 0, y: 0, width: 19, height: 12 }, symbol: " ", style }
            if *style == plain
    ));
    assert!(matches!(
        &paints[3],
        Paint::Restyle { area: Rect { x: 0, y: 2, width: 19, height: 2 }, style }
            if style.bg == Some(Color::Black) && style.bold
    ));
    assert!(matches!(
        &paints[4],
        Paint::Fill { symbol: "▎", style, .. } if style.fg == Some(THEME_RAIL)
    ));
    assert!(matches!(
        &paints[5],
        Paint::Text { x: 1, y: 2, text, room: 18, .. } if text == "work"
    ));
    assert!(matches!(
        &paints[6],
        Paint::Fill { symbol: "●", style, .. } if style.fg == Some(Color::Yellow) && !style.dim
    ));
    assert!(paints.iter().any(|p| matches!(
        p,
        Paint::Fill { area: Rect { x: 0, y: 4, width: 19, height: 1 }, symbol: "─", .. }
    )));
    assert!(paints.iter().any(|p| matches!(
        p,
        Paint::Text { x: 0, y: 8, text, .. } if text == " + new workspace"
    )));
    assert!(draw(&vec![entry(true)], None, 2, 12, theme).is_empty());
}
