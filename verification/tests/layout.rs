//! Layout documents.

use cmux::json::{parse, render, render_pretty};
use cmux::layout_doc::{
    capture_workspace, color_name, LayoutDir, LayoutDocument, LayoutNode, LayoutPane, LayoutScreen,
    LayoutTab, LayoutWorkspace, LAYOUT_SCHEMA_VERSION,
};
use cmux::model::{
    Node, Pane, Rgb, Screen, SplitDir, State, Surface, SurfaceKind, Workspace,
};

const VERSION: &str = "0.1.0-test";

fn number(x: f64) -> serde_json::Number {
    serde_json::Number::from_f64(x).unwrap()
}

fn env(pairs: &[(&str, &str)]) -> Vec<(String, String)> {
    pairs.iter().map(|(k, v)| (k.to_string(), v.to_string())).collect()
}

fn surface(id: u64, name: Option<&str>) -> Surface {
    Surface {
        id,
        name: name.map(|n| n.to_string()),
        title: String::new(),
        cwd: None,
        kind: SurfaceKind::Pty,
        agent_report: None,
        browser_source: None,
        browser_frames_stalled: None,
        command: Some(vec!["/bin/cat".to_string()]),
        env: env(&[
            ("CMUX_MUX_SOCKET", "/tmp/cmux-layout-test.sock"),
            ("CMUX_SOCKET_PATH", "/tmp/cmux-layout-test.sock"),
            ("FLEET_TIER", "A"),
        ]),
    }
}

fn pane(id: u64, name: Option<&str>, tabs: &[u64]) -> Pane {
    Pane { id, name: name.map(|n| n.to_string()), tabs: tabs.to_vec(), active_tab: 0 }
}

fn split(ratio: f64) -> Node {
    Node::Split {
        dir: SplitDir::Right,
        ratio: number(ratio),
        a: Box::new(Node::Leaf(1)),
        b: Box::new(Node::Leaf(2)),
    }
}

fn screen(id: u64, root: Node, active_pane: u64) -> Screen {
    Screen { id, name: None, root, active_pane }
}

fn fleet(screens: Vec<Screen>, active_screen: usize, panes: Vec<Pane>, surfaces: Vec<Surface>) -> State {
    State {
        workspaces: vec![Workspace {
            id: 1,
            name: "fleet".to_string(),
            color: None,
            icon: None,
            screens,
            active_screen,
        }],
        panes,
        surfaces,
        active_workspace: 0,
    }
}

fn one_pane() -> State {
    fleet(
        vec![screen(1, Node::Leaf(1), 1)],
        0,
        vec![pane(1, None, &[1])],
        vec![surface(1, None)],
    )
}

fn sample_tab() -> LayoutTab {
    LayoutTab::Pty { name: None, cwd: None, command: None, env: Vec::new() }
}

fn sample_pane() -> LayoutPane {
    LayoutPane { name: None, active_tab: 0, tabs: vec![sample_tab()] }
}

fn document(name: &str, layout: LayoutNode, panes: Vec<LayoutPane>) -> LayoutDocument {
    LayoutDocument {
        schema_version: LAYOUT_SCHEMA_VERSION,
        cmux_version: VERSION.to_string(),
        workspace: LayoutWorkspace {
            name: name.to_string(),
            color: None,
            icon: None,
            active_screen: 0,
            screens: vec![LayoutScreen { name: None, active_pane: 0, layout, panes }],
        },
    }
}

fn sample_doc() -> LayoutDocument {
    document("sample", LayoutNode::Leaf { pane: 0 }, vec![sample_pane()])
}

fn error_of(doc: &LayoutDocument) -> String {
    doc.validate().unwrap_err().to_string()
}

#[test]
fn layout_doc_round_trips_through_json() {
    let state = fleet(
        vec![screen(1, split(0.5), 1)],
        0,
        vec![pane(1, Some("build"), &[1]), pane(2, None, &[2])],
        vec![surface(1, None), surface(2, None)],
    );
    let doc = capture_workspace(&state, 0, VERSION).unwrap();
    assert_eq!(doc.schema_version, LAYOUT_SCHEMA_VERSION);
    assert_eq!(doc.cmux_version, VERSION);

    let json = render_pretty(&doc.to_json());
    assert!(json.contains("\"schema_version\": 1"), "json was: {json}");
    let restored = LayoutDocument::from_json_str(&json).unwrap();
    assert_eq!(format!("{restored:?}"), format!("{doc:?}"));
}

#[test]
fn layout_doc_rejects_unknown_schema_version() {
    let mut doc = capture_workspace(&one_pane(), 0, VERSION).unwrap();
    doc.schema_version = 2;

    let err = error_of(&doc);
    assert!(err.contains("schema_version"), "error was: {err}");
    assert!(err.contains('2'), "error should name the bad version: {err}");

    doc.schema_version = LAYOUT_SCHEMA_VERSION;
    let json = render(&doc.to_json()).replace("\"schema_version\":1", "\"schema_version\":7");
    let err = LayoutDocument::from_json_str(&json).unwrap_err().to_string();
    assert!(err.contains("schema_version"), "error was: {err}");
}

#[test]
fn layout_doc_rejects_leaf_index_out_of_range() {
    let doc = document("bad", LayoutNode::Leaf { pane: 3 }, vec![sample_pane(), sample_pane()]);
    let err = error_of(&doc);
    assert!(err.contains('3'), "error should name the bad index: {err}");
    assert!(err.contains("out of range"), "error was: {err}");
}

#[test]
fn layout_doc_rejects_unknown_tab_kind() {
    let json = r#"{
            "schema_version": 1,
            "cmux_version": "test",
            "workspace": {
                "name": "w",
                "active_screen": 0,
                "screens": [{
                    "active_pane": 0,
                    "layout": {"type": "leaf", "pane": 0},
                    "panes": [{"tabs": [{"kind": "matrix"}]}]
                }]
            }
        }"#;
    let err = LayoutDocument::from_json_str(json).unwrap_err().to_string();
    assert!(err.contains("matrix"), "error should name the unknown kind: {err}");
}

#[test]
fn layout_doc_capture_includes_split_geometry_names_and_selections() {
    let state = fleet(
        vec![screen(1, split(0.7), 1), screen(2, Node::Leaf(3), 3)],
        1,
        vec![pane(1, Some("build"), &[1]), pane(2, None, &[2]), pane(3, None, &[3])],
        vec![surface(1, Some("api")), surface(2, None), surface(3, None)],
    );
    let doc = capture_workspace(&state, 0, VERSION).unwrap();
    let ws = &doc.workspace;
    assert_eq!(ws.name, "fleet");
    assert_eq!(ws.screens.len(), 2);
    assert_eq!(ws.active_screen, 1, "capture should record the active screen");

    let sc = &ws.screens[0];
    match &sc.layout {
        LayoutNode::Split { dir, ratio, a, b } => {
            assert_eq!(*dir, LayoutDir::Right);
            let ratio = ratio.as_f64().unwrap();
            assert!((ratio - 0.7).abs() < 1e-6, "ratio was {ratio}");
            assert!(matches!(**a, LayoutNode::Leaf { pane: 0 }));
            assert!(matches!(**b, LayoutNode::Leaf { pane: 1 }));
        }
        other => panic!("expected a split root, got {other:?}"),
    }
    assert_eq!(sc.panes[0].name.as_deref(), Some("build"));
    assert_eq!(sc.active_pane, 0, "focused pane is pane 0");
    match &sc.panes[0].tabs[0] {
        LayoutTab::Pty { name, .. } => assert_eq!(name.as_deref(), Some("api")),
    }
}

#[test]
fn layout_doc_capture_records_command_and_env_dropping_cmux_auto_vars() {
    let mut second = surface(2, None);
    second.command =
        Some(vec!["/bin/sh".to_string(), "-c".to_string(), "sleep 30".to_string()]);
    second.env.push(("FLEET_WORKER".to_string(), "9".to_string()));
    second.cwd = Some("/tmp".to_string());
    let state = fleet(
        vec![screen(1, Node::Leaf(1), 1)],
        0,
        vec![pane(1, None, &[1, 2])],
        vec![surface(1, None), second],
    );
    let doc = capture_workspace(&state, 0, VERSION).unwrap();
    let tabs = &doc.workspace.screens[0].panes[0].tabs;
    assert_eq!(tabs.len(), 2, "pane should have the workspace tab + the override tab");
    match &tabs[1] {
        LayoutTab::Pty { command, env, cwd, .. } => {
            assert_eq!(
                command.as_deref(),
                Some(["/bin/sh".to_string(), "-c".to_string(), "sleep 30".to_string()].as_slice()),
                "recorded argv should round-trip"
            );
            let get = |key: &str| env.iter().find(|(k, _)| k == key).map(|(_, v)| v.as_str());
            assert_eq!(get("FLEET_TIER"), Some("A"));
            assert_eq!(get("FLEET_WORKER"), Some("9"));
            assert!(get("CMUX_MUX_SOCKET").is_none(), "auto socket env must not be exported");
            assert!(get("CMUX_SOCKET_PATH").is_none(), "auto socket env must not be exported");
            assert_eq!(cwd.as_deref(), Some("/tmp"));
        }
    }
}

#[test]
fn layout_doc_rejects_bad_ratio() {
    for bad in [1.5f32, 0.0, -0.25, 1.0] {
        let mut doc = sample_doc();
        doc.workspace.screens[0].layout = LayoutNode::Split {
            dir: LayoutDir::Right,
            ratio: number(bad as f64),
            a: Box::new(LayoutNode::Leaf { pane: 0 }),
            b: Box::new(LayoutNode::Leaf { pane: 1 }),
        };
        doc.workspace.screens[0].panes.push(sample_pane());
        let err = error_of(&doc);
        assert!(err.contains("ratio"), "ratio {bad} should be rejected, got: {err}");
    }
}

#[test]
fn a_ratio_between_the_ends_is_accepted() {
    for good in [0.001, 0.3, 0.5, 0.999] {
        let mut doc = sample_doc();
        doc.workspace.screens[0].layout = LayoutNode::Split {
            dir: LayoutDir::Down,
            ratio: number(good),
            a: Box::new(LayoutNode::Leaf { pane: 0 }),
            b: Box::new(LayoutNode::Leaf { pane: 1 }),
        };
        doc.workspace.screens[0].panes.push(sample_pane());
        assert!(doc.validate().is_ok(), "ratio {good}");
    }
}

#[test]
fn what_is_captured_is_without_fault() {
    let state = fleet(
        vec![screen(1, split(0.25), 2)],
        0,
        vec![pane(1, None, &[1]), pane(2, None, &[2])],
        vec![surface(1, None), surface(2, None)],
    );
    let doc = capture_workspace(&state, 0, VERSION).unwrap();
    assert!(doc.validate().is_ok());
    assert_eq!(doc.workspace.screens[0].active_pane, 1);
    assert!(capture_workspace(&state, 1, VERSION).is_none());
}

#[test]
fn a_text_that_is_no_json_is_no_document() {
    let err = LayoutDocument::from_json_str("{").unwrap_err().to_string();
    assert!(err.starts_with("layout document: "), "error was: {err}");
    let err = LayoutDocument::from_json_str("[]").unwrap_err().to_string();
    assert!(!err.is_empty());
}

#[test]
fn a_document_keeps_its_workspace_fields_in_json() {
    let mut doc = sample_doc();
    doc.workspace.icon = Some("*".to_string());
    doc.workspace.color = Some(color_name(Rgb { r: 255, g: 10, b: 0 }));
    let json = doc.to_json();
    let ws = json.get("workspace").unwrap();
    assert_eq!(ws.get("icon").unwrap().as_chars(), Some("*"));
    assert_eq!(ws.get("color").unwrap().as_chars(), Some("#ff0a00"));
    let again = parse(&render(&json)).unwrap();
    let back = LayoutDocument::from_json(&again).unwrap();
    assert_eq!(format!("{back:?}"), format!("{doc:?}"));
}
