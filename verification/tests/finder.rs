//! The finder.

use cmux::finder::{
    build_items, draw, finder_rect, finder_row_at, fuzzy_score, FinderItem, FinderState,
    FinderTarget, StateFilter, ROWS_TOP_OFFSET,
};
use cmux::input::TextInput;
use cmux::model::{AgentState, Node, Rect, SurfaceKind};
use cmux::paint::Paint;
use cmux::tree::{PaneView, ScreenView, TabView, TreeView, WorkspaceView};

fn item(label: &str, state: Option<AgentState>, target: FinderTarget) -> FinderItem {
    FinderItem { target, label: label.to_string(), agent_session: None, agent_state: state }
}

fn item_with_session(
    label: &str,
    state: Option<AgentState>,
    target: FinderTarget,
    session: &str,
) -> FinderItem {
    FinderItem {
        target,
        label: label.to_string(),
        agent_session: Some(session.to_string()),
        agent_state: state,
    }
}

fn surf(id: u64) -> FinderTarget {
    FinderTarget::Surface(id)
}

#[test]
fn fuzzy_score_none_for_no_subsequence() {
    assert_eq!(fuzzy_score("cb", "crew-editor"), None);
    assert_eq!(fuzzy_score("x", "crew-builder"), None);
    assert!(fuzzy_score("cb", "crew-builder").is_some());
    assert_eq!(fuzzy_score("", "anything"), Some(0));
    assert_eq!(fuzzy_score("", ""), Some(0));
}

#[test]
fn ranks_cb_builder_before_reviewer() {
    let items = vec![item("crew-builder", None, surf(1)), item("crew-editor", None, surf(2))];
    let mut finder = FinderState::new(items);
    finder.input = TextInput::new("cb".to_string());
    let ranked = finder.ranked();
    assert_eq!(ranked.len(), 1);
    assert_eq!(finder.items[ranked[0].0].label, "crew-builder");
}

fn agents() -> Vec<FinderItem> {
    vec![
        item("working-agent", Some(AgentState::Working), surf(1)),
        item("blocked-agent", Some(AgentState::Blocked), surf(2)),
        item("idle-agent", Some(AgentState::Idle), surf(3)),
        item("done-agent", Some(AgentState::Done), surf(4)),
        item("workspace-one", None, FinderTarget::Workspace(1)),
        item("pane-one", None, FinderTarget::Pane(1)),
    ]
}

#[test]
fn state_filter_excludes_nonmatching() {
    let mut working = FinderState::new(agents());
    working.state_filter = StateFilter::Working;
    let ranked = working.ranked();
    assert_eq!(ranked.len(), 1);
    assert_eq!(working.items[ranked[0].0].label, "working-agent");

    let mut blocked = FinderState::new(agents());
    blocked.state_filter = StateFilter::Blocked;
    let ranked = blocked.ranked();
    assert_eq!(ranked.len(), 1);
    assert_eq!(blocked.items[ranked[0].0].label, "blocked-agent");

    let mut all = FinderState::new(agents());
    all.state_filter = StateFilter::All;
    assert_eq!(all.ranked().len(), agents().len());
}

#[test]
fn empty_query_keeps_all_in_tree_order() {
    let items = || {
        vec![
            item("alpha", None, surf(1)),
            item("beta", None, surf(2)),
            item("gamma", None, surf(3)),
        ]
    };
    let finder = FinderState::new(items());
    let ranked = finder.ranked();
    assert_eq!(ranked.len(), items().len());
    for (i, (item_i, _)) in ranked.iter().enumerate() {
        assert_eq!(*item_i, i, "tree order not preserved at row {i}");
    }
}

#[test]
fn agent_session_id_is_searchable() {
    let items = || {
        vec![
            item_with_session("shell", Some(AgentState::Working), surf(1), "agent-7f3a-session"),
            item_with_session("shell", Some(AgentState::Idle), surf(2), "agent-7f3b-session"),
        ]
    };
    let mut finder = FinderState::new(items());
    finder.input = TextInput::new("7f3b".to_string());
    let ranked = finder.ranked();
    assert_eq!(ranked.len(), 1, "only the surface whose session id contains the query matches");
    assert_eq!(finder.items[ranked[0].0].agent_session.as_deref(), Some("agent-7f3b-session"));
    assert_eq!(finder.items[ranked[0].0].target, surf(2));

    finder.input = TextInput::new(String::new());
    assert_eq!(finder.ranked().len(), items().len());
}

#[test]
fn finder_rect_is_centered_and_too_small_yields_none() {
    let screen = Rect { x: 10, y: 0, width: 100, height: 40 };
    let rect = finder_rect(screen).unwrap();
    assert_eq!(rect.width, 60);
    assert_eq!(rect.height, 14);
    assert_eq!(rect.x, (100 - 60) / 2);
    assert_eq!(rect.y, (40 - 14) / 2);

    let tiny = Rect { x: 0, y: 0, width: 100, height: 3 };
    assert!(finder_rect(tiny).is_none());
}

#[test]
fn finder_row_at_maps_click_to_results_row() {
    let screen = Rect { x: 10, y: 0, width: 100, height: 40 };
    let rect = finder_rect(screen).unwrap();
    let rows_y = rect.y + ROWS_TOP_OFFSET;

    assert_eq!(finder_row_at(screen, rect.x + 5, rect.y + 1), None);
    assert_eq!(finder_row_at(screen, rect.x + 5, rect.y + 2), None);
    assert_eq!(finder_row_at(screen, rect.x + 5, rows_y), Some(0));
    assert_eq!(finder_row_at(screen, rect.x + 5, rows_y + 1), Some(1));
    assert_eq!(finder_row_at(screen, 0, 0), None);
    let bottom_border = rect.y + rect.height - 1;
    assert_eq!(finder_row_at(screen, rect.x + 5, bottom_border), None);
}

#[test]
fn letters_that_stand_together_score_better() {
    let close = fuzzy_score("ab", "abc").unwrap();
    let apart = fuzzy_score("ab", "axxb").unwrap();
    assert!(close < apart, "{close} {apart}");
    assert_eq!(fuzzy_score("AB", "abc"), Some(close));
}

#[test]
fn the_cursor_stays_in_the_list() {
    let mut finder = FinderState::new(agents());
    finder.move_cursor(-1);
    assert_eq!(finder.cursor, 0);
    finder.move_cursor(2);
    assert_eq!(finder.cursor, 2);
    finder.move_cursor(100);
    assert_eq!(finder.cursor, 5);
    finder.move_cursor(1);
    assert_eq!(finder.cursor, 5);
    assert_eq!(finder.selected(), Some(FinderTarget::Pane(1)));
    finder.move_cursor(isize::MIN);
    assert_eq!(finder.cursor, 0);
    finder.input = TextInput::new("zzz".to_string());
    assert_eq!(finder.selected(), None);
    finder.move_cursor(1);
    assert_eq!(finder.cursor, 0);
}

fn tree() -> TreeView {
    TreeView {
        workspaces: vec![WorkspaceView {
            id: 1,
            short_id: "a".to_string(),
            name: "work".to_string(),
            color: None,
            icon: None,
            screens: vec![ScreenView {
                id: 2,
                short_id: "b".to_string(),
                name: None,
                layout: Node::Leaf(3),
                active_pane: 3,
                panes: vec![PaneView {
                    id: 3,
                    short_id: "c".to_string(),
                    name: Some("build".to_string()),
                    tabs: vec![TabView {
                        surface: 4,
                        short_id: "d".to_string(),
                        name: None,
                        title: "vim".to_string(),
                        cwd: None,
                        agent_state: Some(AgentState::Working),
                        agent_session: None,
                        kind: SurfaceKind::Pty,
                        browser_source: None,
                        browser_frames_stalled: false,
                    }],
                    active_tab: 0,
                }],
            }],
            active_screen: 0,
        }],
        active_workspace: 0,
    }
}

#[test]
fn the_rows_of_a_tree_come_from_the_outside_in() {
    let items = build_items(&tree());
    let labels: Vec<&str> = items.iter().map(|i| i.label.as_str()).collect();
    assert_eq!(labels, vec!["#a work", "#c build", "#d vim"]);
    assert_eq!(items[2].target, FinderTarget::Surface(4));
    assert_eq!(items[2].agent_state, Some(AgentState::Working));
}

#[test]
fn the_finder_is_drawn_into_its_box() {
    let screen = Rect { x: 0, y: 0, width: 100, height: 40 };
    let mut finder = FinderState::new(agents());
    finder.input = TextInput::new("agent".to_string());
    let drawing = draw(&finder, screen).unwrap();
    assert_eq!(drawing.cursor, (20 + 2 + 5, 13 + 2));
    let texts: Vec<String> = drawing
        .paints
        .iter()
        .filter_map(|p| match p {
            Paint::Text { text, .. } => Some(text.clone()),
            _ => None,
        })
        .collect();
    assert_eq!(texts[0], "Find");
    assert_eq!(texts[1], "[all: B W I D A]");
    assert_eq!(texts[2], "agent");
    assert_eq!(texts.len(), 3 + 2 * 4);
    for p in &drawing.paints {
        let (x, y, w, h) = match p {
            Paint::Fill { area, .. } | Paint::Restyle { area, .. } => {
                (area.x, area.y, area.width as usize, area.height)
            }
            Paint::Text { x, y, room, .. } => (*x, *y, *room, 1),
        };
        assert!(x >= 20 && x as usize + w <= 80, "{p:?}");
        assert!(y >= 13 && y + h <= 27, "{p:?}");
    }
    assert!(draw(&finder, Rect { x: 0, y: 0, width: 20, height: 20 }).is_none());
}

#[test]
fn a_longer_query_scores_no_less() {
    assert_eq!(fuzzy_score("ab", "a-b--c"), Some(1));
    assert_eq!(fuzzy_score("abc", "a-b--c"), Some(3));
    assert_eq!(fuzzy_score("ab", "a-b--c, and more"), Some(1));
}
