//! The session manager.

use cmux::input::{KeyCode, KeyEvent, TextInput};
use cmux::session_manager::{
    current_index, passes_filter, prefetch_targets, Column, SessionManagerAction,
    SessionManagerState, WorkspaceColumn,
};
use cmux::sessions::DiscoveredSession;
use cmux::tree::{TreeView, WorkspaceView};

fn mk_session(name: &str, socket: &str, live: bool) -> DiscoveredSession {
    DiscoveredSession {
        session: name.to_string(),
        socket_path: socket.to_string(),
        pid: Some(1000),
        live,
        mtime: Some(0),
    }
}

fn mk_tree(n: usize) -> TreeView {
    let workspaces = (0..n)
        .map(|i| WorkspaceView {
            id: i as u64,
            short_id: format!("w{i}"),
            name: format!("w{i}"),
            color: None,
            icon: None,
            screens: Vec::new(),
            active_screen: 0,
        })
        .collect();
    TreeView { workspaces, active_workspace: 0 }
}

fn three() -> Vec<DiscoveredSession> {
    vec![
        mk_session("alpha", "/run/a.sock", true),
        mk_session("beta", "/run/b.sock", true),
        mk_session("gamma", "/run/c.sock", true),
    ]
}

fn key(code: KeyCode) -> KeyEvent {
    KeyEvent::new(code, false)
}

#[test]
fn t1_current_index_tags_running_session() {
    let sessions = three();
    assert_eq!(current_index(&sessions, "/run/b.sock"), Some(1));
    assert_eq!(current_index(&sessions, "/run/zzz.sock"), None);
}

#[test]
fn t2_passes_filter_matches_session_or_workspace_title() {
    assert!(passes_filter("", "alpha", &[]), "empty query always passes");
    assert!(passes_filter("ALP", "alpha", &[]), "session name matches (case-insensitive)");
    assert!(!passes_filter("xyz", "alpha", &[]), "non-matching session rejects");
    assert!(
        passes_filter("build", "alpha", &["main".into(), "build-ci".into()]),
        "workspace title matches"
    );
    assert!(
        !passes_filter("nomatch", "alpha", &["main".into(), "build-ci".into()]),
        "non-matching workspace rejects"
    );
}

#[test]
fn t3_prefetch_targets_returns_focus_plus_lookahead() {
    assert_eq!(prefetch_targets(1, 1, 4), vec![1, 2]);
    assert_eq!(prefetch_targets(3, 1, 4), vec![3]);
    assert_eq!(prefetch_targets(0, 5, 2), vec![0, 1]);
}

#[test]
fn t4_filtered_sessions_excludes_non_matches() {
    let mut state = SessionManagerState::new("/run/a.sock".to_string(), three());
    state.filter = Some(TextInput::new("gam".to_string()));
    assert_eq!(state.filtered_sessions(), vec![2], "only gamma matches 'gam'");
}

#[test]
fn t5_unreachable_row_is_selectable_for_kill_but_not_attach() {
    let sessions = vec![
        mk_session("live", "/run/live.sock", true),
        mk_session("dead", "/run/dead.sock", false),
    ];
    let mut state = SessionManagerState::new("/run/live.sock".to_string(), sessions);
    state.left_sel = 1;
    let action = state.handle_key(key(KeyCode::Enter));
    assert!(
        matches!(action, SessionManagerAction::SetStatus(_)),
        "Enter on unreachable must SetStatus, got {action:?}"
    );
}

#[test]
fn t6_enter_on_current_session_workspace_focuses_in_place() {
    let sessions = vec![mk_session("own", "/run/own.sock", true)];
    let mut state = SessionManagerState::new("/run/own.sock".to_string(), sessions);
    state.set_workspaces("/run/own.sock".to_string(), WorkspaceColumn::Ready(mk_tree(2)));
    state.focus = Column::Right;
    state.right_sel = 1;
    let action = state.handle_key(key(KeyCode::Enter));
    assert!(
        matches!(action, SessionManagerAction::FocusWorkspaceInPlace { index } if index == 1),
        "Enter on current-session workspace must focus in place, got {action:?}"
    );
}

#[test]
fn t7_enter_on_other_session_workspace_emits_reattach() {
    let sessions = vec![
        mk_session("own", "/run/own.sock", true),
        mk_session("other", "/run/other.sock", true),
    ];
    let mut state = SessionManagerState::new("/run/own.sock".to_string(), sessions);
    state.left_sel = 1;
    state.set_workspaces("/run/other.sock".to_string(), WorkspaceColumn::Ready(mk_tree(3)));
    state.focus = Column::Right;
    state.right_sel = 2;
    let action = state.handle_key(key(KeyCode::Enter));
    assert!(
        matches!(
            action,
            SessionManagerAction::AttachOtherSessionWorkspace { ref socket, index }
                if socket == "/run/other.sock" && index == 2
        ),
        "Enter on other-session workspace must emit reattach, got {action:?}"
    );
}

#[test]
fn t8_close_keys_q_esc_restore_focus() {
    for code in [KeyCode::Char('q'), KeyCode::Esc] {
        let mut state = SessionManagerState::new(
            "/run/own.sock".to_string(),
            vec![mk_session("own", "/run/own.sock", true)],
        );
        let action = state.handle_key(key(code));
        assert!(
            matches!(action, SessionManagerAction::Close),
            "close key must Close, got {action:?}"
        );
    }
}

#[test]
fn t9_rename_flow_reuses_rename_session_at_contract() {
    let sessions = vec![
        mk_session("own", "/run/own.sock", true),
        mk_session("live", "/run/live.sock", true),
    ];
    let mut state = SessionManagerState::new("/run/own.sock".to_string(), sessions);
    state.left_sel = 1;
    let enter = state.handle_key(key(KeyCode::Char('r')));
    assert!(
        matches!(enter, SessionManagerAction::Redraw),
        "r must enter rename mode (Redraw), got {enter:?}"
    );
    state.handle_key(KeyEvent::new(KeyCode::Char('u'), true));
    state.handle_key(key(KeyCode::Char('b')));
    state.handle_key(key(KeyCode::Char('a')));
    state.handle_key(key(KeyCode::Char('r')));
    let commit = state.handle_key(key(KeyCode::Enter));
    assert!(
        matches!(
            commit,
            SessionManagerAction::RenameSession { ref socket, ref new_name }
                if socket == "/run/live.sock" && new_name == "bar"
        ),
        "Enter in rename mode must commit RenameSession, got {commit:?}"
    );
}

#[test]
fn a_session_is_fetched_once() {
    let mut state = SessionManagerState::new("/run/a.sock".to_string(), three());
    let first = state.fetch_requests();
    assert!(!first.is_empty());
    assert!(state.fetch_requests().is_empty());
    for socket in first {
        state.set_workspaces(socket, WorkspaceColumn::Unreachable);
    }
    assert!(state.fetch_requests().is_empty());
}

#[test]
fn enter_on_a_session_that_answers_attaches_to_it() {
    let mut state = SessionManagerState::new("/run/a.sock".to_string(), three());
    state.left_sel = 2;
    let action = state.handle_key(key(KeyCode::Enter));
    assert!(
        matches!(action, SessionManagerAction::AttachSession { ref socket } if socket == "/run/c.sock"),
        "{action:?}"
    );
}

#[test]
fn titles_with_capitals_outside_of_ascii_are_found_in_small_letters() {
    assert!(passes_filter("über", "ÜBERSICHT", &[]));
    assert!(!passes_filter("übel", "ÜBERSICHT", &[]));
}

#[test]
fn sockets_are_compared_as_paths() {
    let sessions = three();
    assert_eq!(current_index(&sessions, "/run//b.sock"), Some(1));
    assert_eq!(current_index(&sessions, "/run/./b.sock"), Some(1));
    assert_eq!(current_index(&sessions, "run/b.sock"), None);
    assert_eq!(current_index(&sessions, "/run/../b.sock"), None);
    let mut state = SessionManagerState::new("/run//a.sock".to_string(), three());
    let action = state.handle_key(key(KeyCode::Enter));
    assert!(
        matches!(action, SessionManagerAction::SetStatus(ref s) if s == "already attached to this session"),
        "{action:?}"
    );
    state.set_workspaces("/run/./a.sock".to_string(), WorkspaceColumn::Ready(mk_tree(1)));
    assert!(state.focused_workspaces().is_some());
}

#[test]
fn the_session_to_attach_to_is_taken_once() {
    let mut state = SessionManagerState::new("/run/a.sock".to_string(), three());
    assert_eq!(state.take_reattach_target(), None);
    state.pending_reattach = Some("/run/b.sock".to_string());
    assert_eq!(state.take_reattach_target().as_deref(), Some("/run/b.sock"));
    assert_eq!(state.take_reattach_target(), None);
}
