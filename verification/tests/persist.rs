//! Snapshots of a session.

use cmux::json::{parse, render_pretty};
use cmux::model::{Node, Pane, Screen, SplitDir, State, Surface, SurfaceKind, Workspace};
use cmux::persist::{
    capture, shell_quote, workspaces, LayoutSnapshot, PaneSnapshot, RestoreLayout, ScreenSnapshot,
    SessionSnapshot, TabSnapshot, WorkspaceSnapshot,
};

fn half() -> serde_json::Number {
    serde_json::Number::from_f64(0.5).unwrap()
}

fn tab(cwd: &str) -> TabSnapshot {
    TabSnapshot { name: None, cwd: Some(cwd.to_string()) }
}

fn sample() -> SessionSnapshot {
    SessionSnapshot {
        active_workspace: 0,
        workspaces: vec![WorkspaceSnapshot {
            name: "work".to_string(),
            active_screen: 0,
            screens: vec![ScreenSnapshot {
                name: None,
                active_pane_index: 1,
                layout: LayoutSnapshot::Split {
                    dir: SplitDir::Right,
                    ratio: half(),
                    a: Box::new(LayoutSnapshot::Leaf(0)),
                    b: Box::new(LayoutSnapshot::Leaf(1)),
                },
                panes: vec![
                    PaneSnapshot { name: None, active_tab_index: 0, tabs: vec![tab("/a")] },
                    PaneSnapshot {
                        name: Some("logs".to_string()),
                        active_tab_index: 0,
                        tabs: vec![tab("/b")],
                    },
                ],
            }],
        }],
    }
}

/// The document in a text, where it is one.
fn load(text: &str) -> Option<SessionSnapshot> {
    SessionSnapshot::load(&parse(text).ok()?)
}

/// The text of the document.
fn save(snapshot: &SessionSnapshot) -> String {
    render_pretty(&snapshot.save())
}

#[test]
fn shell_quote_handles_spaces_and_single_quotes() {
    assert_eq!(shell_quote("/home/matc/Projects/cmux-linux"), "'/home/matc/Projects/cmux-linux'");
    assert_eq!(shell_quote("/tmp/a b"), "'/tmp/a b'");
    assert_eq!(shell_quote("/tmp/it's"), "'/tmp/it'\\''s'");
}

#[test]
fn round_trips_through_json() {
    let json = save(&sample());
    let restored = load(&json).unwrap();
    let (workspaces, active_workspace) = workspaces(&restored);
    assert_eq!(active_workspace, 0);
    assert_eq!(workspaces.len(), 1);
    assert_eq!(workspaces[0].name, "work");
    assert_eq!(workspaces[0].screens[0].panes.len(), 2);
    assert_eq!(workspaces[0].screens[0].panes[1].name.as_deref(), Some("logs"));
    assert!(matches!(workspaces[0].screens[0].layout, RestoreLayout::Split { .. }));
}

#[test]
fn what_is_saved_is_loaded() {
    let s = sample();
    let loaded = load(&save(&s)).unwrap();
    assert_eq!(format!("{loaded:?}"), format!("{s:?}"));
}

#[test]
fn texts_that_hold_no_snapshot_are_not_loaded() {
    assert!(load("").is_none());
    assert!(load("{").is_none());
    assert!(load("[1]").is_none());
    assert!(load("{\"workspaces\": 3, \"active_workspace\": 0}").is_none());
}

#[test]
fn capture_keeps_layout_names_and_selections() {
    let state = State {
        workspaces: vec![Workspace {
            id: 7,
            name: "work".to_string(),
            color: None,
            icon: None,
            screens: vec![Screen {
                id: 1,
                name: Some("main".to_string()),
                root: Node::Split {
                    dir: SplitDir::Down,
                    ratio: half(),
                    a: Box::new(Node::Leaf(30)),
                    b: Box::new(Node::Leaf(20)),
                },
                active_pane: 20,
            }],
            active_screen: 0,
        }],
        panes: vec![
            Pane { id: 20, name: Some("logs".to_string()), tabs: vec![5], active_tab: 0 },
            Pane { id: 30, name: None, tabs: vec![6], active_tab: 0 },
        ],
        surfaces: vec![surface(5, "/b"), surface(6, "/a")],
        active_workspace: 0,
    };
    let s = capture(&state);
    assert!(!s.is_empty());
    let screen = &s.workspaces[0].screens[0];
    assert_eq!(screen.active_pane_index, 1);
    assert_eq!(screen.panes[0].tabs[0].cwd.as_deref(), Some("/a"));
    assert_eq!(screen.panes[1].name.as_deref(), Some("logs"));
    match &screen.layout {
        LayoutSnapshot::Split { dir, ratio, a, b } => {
            assert_eq!(*dir, SplitDir::Down);
            assert_eq!(ratio.as_f64(), Some(0.5));
            assert!(matches!(**a, LayoutSnapshot::Leaf(0)));
            assert!(matches!(**b, LayoutSnapshot::Leaf(1)));
        }
        other => panic!("expected a split, got {other:?}"),
    }
}

fn surface(id: u64, cwd: &str) -> Surface {
    Surface {
        id,
        name: None,
        title: String::new(),
        cwd: Some(cwd.to_string()),
        kind: SurfaceKind::Pty,
        agent_report: None,
        browser_source: None,
        browser_frames_stalled: None,
        command: None,
        env: Vec::new(),
    }
}

#[test]
fn an_empty_session_has_an_empty_snapshot() {
    let state =
        State { workspaces: Vec::new(), panes: Vec::new(), surfaces: Vec::new(), active_workspace: 0 };
    assert!(capture(&state).is_empty());
}

#[test]
fn every_ratio_is_saved_and_loaded() {
    for ratio in [0.1 + 0.2, 0.3f32 as f64, 1e-300, 0.12345678901234567, 1.0 / 3.0] {
        let mut s = sample();
        s.workspaces[0].screens[0].layout = LayoutSnapshot::Split {
            dir: SplitDir::Down,
            ratio: serde_json::Number::from_f64(ratio).unwrap(),
            a: Box::new(LayoutSnapshot::Leaf(0)),
            b: Box::new(LayoutSnapshot::Leaf(1)),
        };
        let loaded = load(&save(&s)).unwrap();
        assert_eq!(format!("{loaded:?}"), format!("{s:?}"));
    }
}

fn deep(splits: usize) -> SessionSnapshot {
    let mut layout = LayoutSnapshot::Leaf(0);
    for _ in 0..splits {
        layout = LayoutSnapshot::Split {
            dir: SplitDir::Right,
            ratio: half(),
            a: Box::new(layout),
            b: Box::new(LayoutSnapshot::Leaf(1)),
        };
    }
    let mut s = sample();
    s.workspaces[0].screens[0].layout = layout;
    s
}

#[test]
fn layouts_are_loaded_as_deep_as_json_is_read() {
    let s = deep(60);
    let loaded = load(&save(&s)).unwrap();
    assert_eq!(format!("{loaded:?}"), format!("{s:?}"));
    assert!(load(&save(&deep(61))).is_none());
    let s = deep(61);
    let loaded = SessionSnapshot::load(&s.save()).unwrap();
    assert_eq!(format!("{loaded:?}"), format!("{s:?}"));
}

#[test]
fn snapshots_may_hold_lists_for_records() {
    let s = load("[[[\"work\",[[null,{\"Leaf\":0},[[null,[[null,\"/a\"]],0]],0]],0]],0]").unwrap();
    assert_eq!(s.workspaces[0].name, "work");
    assert_eq!(s.workspaces[0].screens[0].panes[0].tabs[0].cwd.as_deref(), Some("/a"));
    assert!(load("[[],0,0]").is_none());
}
