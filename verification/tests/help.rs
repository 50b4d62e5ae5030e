//! The help overlay.

use cmux::finder::fuzzy_score;
use cmux::help::{
    build_entries, draw, help_rect, help_row_at, rows_visible, Action, HelpCategory, HelpEntry,
    HelpState, ROWS_TOP_OFFSET,
};
use cmux::model::Rect;
use cmux::paint::Paint;

const LABELS: [&str; 7] =
    ["Session", "Workspace", "Screen", "Pane", "Tab", "Browser", "General"];

fn binding(rank: usize, chord: &str, name: &str, key: &str, description: &str) -> HelpEntry {
    HelpEntry {
        chord: chord.to_string(),
        action: Action { display_name: name.to_string(), config_key: key.to_string() },
        description: description.to_string(),
        category: HelpCategory { rank, label: LABELS[rank].to_string() },
    }
}

/// The bindings in no order.
fn bindings() -> Vec<HelpEntry> {
    vec![
        binding(6, "?", "Show help", "show-help", "Show every key binding"),
        binding(4, "c", "New tab", "new-tab", "Open a tab in the pane"),
        binding(1, "W", "New workspace", "new-workspace", "Open a workspace"),
        binding(1, "$", "Rename workspace", "rename-workspace", "Give the workspace a name"),
        binding(3, "%", "Split right", "split-right", "Split the pane to the right"),
        binding(3, "\"", "Split down", "split-down", "Split the pane downwards"),
        binding(0, "d", "Quit", "quit", "Leave the session"),
        binding(5, "B", "New browser tab", "new-browser-tab", "Open a browser tab"),
        binding(2, "S", "New screen", "new-screen", "Open a screen"),
    ]
}

#[test]
fn help_entries_match_every_registered_binding() {
    let keys = bindings();
    let entries = build_entries(&keys);
    assert_eq!(entries.len(), keys.len());
    assert!(entries.iter().all(|entry| !entry.description.is_empty()));
}

#[test]
fn help_filter_matches_action_name_or_chord() {
    let mut state = HelpState::new(build_entries(&bindings()));
    state.set_query("new");
    assert!(state.ranked().iter().any(|(index, _)| {
        let entry = &state.items[*index];
        fuzzy_score(state.input.as_str(), entry.action.display_name()).is_some()
            || fuzzy_score(state.input.as_str(), &entry.chord).is_some()
    }));

    state.set_query("?");
    assert!(state.ranked().iter().any(|(index, _)| state.items[*index].chord == "?"));
}

#[test]
fn entries_are_grouped_by_category_and_chord() {
    let entries = build_entries(&bindings());
    let mut previous: Option<(usize, String)> = None;
    for entry in entries {
        let current = (entry.category.rank, entry.chord.clone());
        if let Some(previous) = &previous {
            assert!(*previous <= current, "entries are not grouped: {previous:?} > {current:?}");
        }
        previous = Some(current);
    }
}

#[test]
fn navigation_and_hit_testing_clamp_to_the_visible_list() {
    let screen = Rect { x: 0, y: 0, width: 100, height: 40 };
    let visible = rows_visible(screen);
    assert!(visible > 0);
    let mut state = HelpState::new(build_entries(&bindings()));
    state.move_cursor(isize::MAX, visible);
    assert_eq!(state.cursor, state.ranked().len() - 1);
    state.move_cursor(isize::MIN, visible);
    assert_eq!(state.cursor, 0);

    let rect = help_rect(screen).unwrap();
    let rows_y = rect.y + ROWS_TOP_OFFSET;
    assert_eq!(help_row_at(screen, rect.x + 2, rows_y, 0), Some(0));
    assert_eq!(help_row_at(screen, rect.x + 2, rows_y + 1, 5), Some(6));
    assert_eq!(help_row_at(screen, rect.x + 2, rect.y + 1, 0), None);
    assert!(help_rect(Rect { x: 0, y: 0, width: 50, height: 10 }).is_none());
    assert!(help_rect(Rect { x: 0, y: 65534, width: 100, height: 1 }).is_none());
}

#[test]
fn scrolling_takes_the_cursor_along() {
    let mut state = HelpState::new(build_entries(&bindings()));
    state.scroll_by(2, 4);
    assert_eq!((state.scroll, state.cursor), (2, 2));
    state.scroll_by(100, 4);
    assert_eq!(state.scroll, 5);
    state.scroll_by(-100, 4);
    assert_eq!((state.scroll, state.cursor), (0, 3));
    for (cursor, scroll) in [(99, 0), (0, 99), (3, 1), (99, 99)] {
        state.cursor = cursor;
        state.scroll = scroll;
        state.clamp(4);
        let once = (state.scroll, state.cursor);
        state.clamp(4);
        assert_eq!((state.scroll, state.cursor), once);
    }
    state.set_query("no such thing");
    state.clamp(4);
    assert_eq!((state.scroll, state.cursor), (0, 0));
}

#[test]
fn the_help_is_drawn_into_its_box() {
    let screen = Rect { x: 0, y: 0, width: 100, height: 40 };
    let mut state = HelpState::new(build_entries(&bindings()));
    let labels: Vec<String> = LABELS.iter().map(|l| l.to_string()).collect();
    let drawing = draw(&mut state, screen, &labels).unwrap();
    assert_eq!(drawing.cursor, (5 + 10, 5 + 2));
    let texts: Vec<String> = drawing
        .paints
        .iter()
        .filter_map(|p| match p {
            Paint::Text { text, .. } => Some(text.clone()),
            _ => None,
        })
        .collect();
    assert_eq!(texts[0], "Help");
    assert_eq!(texts[1], "/ filter  j/k move  PgUp/PgDn page  Esc/q close");
    assert_eq!(texts[4], "Session  Workspace  Screen  Pane  Tab  Browser  General");
    assert_eq!(texts[5], "Session");
    assert_eq!(texts[6], "d");
    assert_eq!(texts[7], "Quit");
    assert_eq!(texts[8], "Leave the session");

    state.set_query("no such thing");
    let drawing = draw(&mut state, screen, &labels).unwrap();
    assert!(drawing.paints.iter().any(
        |p| matches!(p, Paint::Text { text, .. } if text == "No bindings match the filter")
    ));
    assert!(draw(&mut state, Rect { x: 0, y: 0, width: 50, height: 10 }, &labels).is_none());
}
