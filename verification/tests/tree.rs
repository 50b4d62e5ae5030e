//! The tree of a session.

use cmux::json::{parse, Json};
use cmux::model::{
    AgentReport, AgentState, Node, Pane, Rgb, Screen, State, Surface, SurfaceKind, Workspace,
};
use cmux::tree::{parse_color, parse_tree, short_id_order, tree_from_state, ScreenView};

fn json(text: &str) -> Json {
    parse(text).unwrap()
}

#[test]
fn parse_tree_reads_workspace_color_as_rgb() {
    let data = json(
        r##"{
            "workspaces": [
                {"id": 1, "name": "red", "color": "#ff0000", "active": true, "screens": []},
                {"id": 2, "name": "none", "color": null, "active": false, "screens": []}
            ]
        }"##,
    );
    let tree = parse_tree(&data);
    assert_eq!(tree.workspaces[0].color, Some(Rgb { r: 0xff, g: 0x00, b: 0x00 }));
    assert_eq!(tree.workspaces[1].color, None);
}

#[test]
fn parse_tree_treats_missing_color_key_as_none() {
    let data = json(
        r#"{"workspaces": [{"id": 1, "name": "no-color-key", "active": true, "screens": []}]}"#,
    );
    let tree = parse_tree(&data);
    assert_eq!(tree.workspaces[0].color, None);
}

#[test]
fn parse_tree_reads_panes_and_tabs() {
    let data = json(
        r#"{"workspaces": [
            {"id": 1, "name": "a", "active": false, "screens": []},
            {"id": 2, "name": "b", "active": true, "screens": [
                {"id": 3, "active": true, "active_pane": 5, "layout": {"type": "leaf", "pane": 5},
                 "panes": [{"id": 5, "name": "p", "active_tab": 0, "tabs": [
                    {"surface": 9, "title": "vim", "cwd": "/x", "kind": "pty",
                     "agent_state": "working", "agent_session": "s1"}]}]}]}]}"#,
    );
    let tree = parse_tree(&data);
    assert_eq!(tree.active_workspace, 1);
    assert_eq!(tree.active_workspace().unwrap().name, "b");
    let pane = tree.pane(5).unwrap();
    assert_eq!(pane.display_name(), "p");
    assert_eq!(pane.active_cwd(), Some("/x"));
    assert_eq!(tree.active_surface(), Some(9));
    assert_eq!(tree.surface_kind(9), SurfaceKind::Pty);
    assert_eq!(tree.surface_kind(77), SurfaceKind::Pty);
    assert!(tree.pane(6).is_none());
    assert_eq!(pane.active_agent_state(), Some(AgentState::Working));
    assert_eq!(pane.tabs[0].agent_session.as_deref(), Some("s1"));
}

#[test]
fn colours_are_read_from_six_digits() {
    assert_eq!(parse_color("#00ff7f"), Some(Rgb { r: 0, g: 255, b: 127 }));
    assert_eq!(parse_color("#00FF7F"), Some(Rgb { r: 0, g: 255, b: 127 }));
    assert_eq!(parse_color("#00ff7"), None);
    assert_eq!(parse_color("00ff7fa"), None);
    assert_eq!(parse_color("#00gg7f"), None);
}

#[test]
fn screens_are_named_by_their_place() {
    let screen = |name: Option<&str>| ScreenView {
        id: 1,
        short_id: "a".to_string(),
        name: name.map(|n| n.to_string()),
        layout: Node::Leaf(1),
        active_pane: 1,
        panes: Vec::new(),
    };
    assert_eq!(screen(None).display_name(2), "screen 3");
    assert_eq!(screen(Some("")).display_name(0), "screen 1");
    assert_eq!(screen(Some("logs")).display_name(0), "logs");
}

fn state() -> State {
    State {
        workspaces: vec![Workspace {
            id: 1,
            name: "work".to_string(),
            color: Some(Rgb { r: 1, g: 2, b: 3 }),
            icon: None,
            screens: vec![Screen { id: 2, name: None, root: Node::Leaf(3), active_pane: 3 }],
            active_screen: 0,
        }],
        panes: vec![Pane { id: 3, name: None, tabs: vec![4, 5], active_tab: 0 }],
        surfaces: vec![Surface {
            id: 4,
            name: None,
            title: "vim".to_string(),
            cwd: Some("/x".to_string()),
            kind: SurfaceKind::Browser,
            agent_report: Some(AgentReport {
                state: AgentState::Working,
                session: Some("s1".to_string()),
            }),
            browser_source: None,
            browser_frames_stalled: Some(true),
            command: None,
            env: Vec::new(),
        }],
        active_workspace: 0,
    }
}

#[test]
fn a_state_becomes_a_tree() {
    assert_eq!(short_id_order(&state()), vec![1, 2, 3, 4]);
    let shorts = vec![(1, "a".to_string()), (4, "b".to_string())];
    let tree = tree_from_state(&state(), &shorts);
    let ws = &tree.workspaces[0];
    assert_eq!((ws.short_id.as_str(), ws.color), ("a", Some(Rgb { r: 1, g: 2, b: 3 })));
    let pane = tree.pane(3).unwrap();
    assert_eq!((pane.short_id.as_str(), pane.tabs.len()), ("", 2));
    let tab = &pane.tabs[0];
    assert_eq!((tab.short_id.as_str(), tab.title.as_str()), ("b", "vim"));
    assert_eq!(tab.agent_state, Some(AgentState::Working));
    assert_eq!(tab.agent_session.as_deref(), Some("s1"));
    assert!(tab.browser_frames_stalled);
    let gone = &pane.tabs[1];
    assert_eq!((gone.surface, gone.title.as_str(), gone.kind), (5, "", SurfaceKind::Pty));
    assert!(!gone.browser_frames_stalled);
}

#[test]
fn a_tab_is_labelled_with_its_workspace() {
    let tree = tree_from_state(&state(), &Vec::new());
    assert_eq!(tree.tab_label(4).as_deref(), Some("work · vim"));
    assert_eq!(tree.tab_label(9), None);
}
