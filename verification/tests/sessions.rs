//! Sessions: finding, listing, ending and renaming them, and the picker.

use cmux::answers::OneShotOutcome;
use cmux::cli::GlobalArgs;
use cmux::flags::FlagMap;
use cmux::input::{KeyCode, KeyEvent, TextInput};
use cmux::json::parse;
use cmux::session_picker::{
    list_title, prompt, refresh, row_label, Action, Mode, PickerOutcome, PickerState,
};
use cmux::sessions::{
    discover_sessions, kill_result, kill_session_at, kill_stale, kill_target, killed_ending, read_pid,
    rename_check, rename_request_names, rename_session_at, resolve_socket, run_attach_session_list_json,
    run_kill_session, run_list_sessions, run_rename_session, select_request,
    select_workspace_remote,
    session_of_file, validate_session_name, DiscoveredSession, KillAction, KillState, Sight,
    SocketChoice, SocketFile,
};

fn session(name: &str, live: bool, mtime: Option<u64>) -> DiscoveredSession {
    DiscoveredSession {
        session: name.to_string(),
        socket_path: format!("/run/{name}.sock"),
        pid: if live { Some(42) } else { None },
        live,
        mtime,
    }
}

fn some(s: &str) -> Option<String> {
    Some(s.to_string())
}

#[test]
fn sockets_are_found_among_files() {
    assert_eq!(session_of_file("main.sock").as_deref(), Some("main"));
    assert_eq!(session_of_file("main.pid"), None);
    assert_eq!(read_pid(" 42\n"), Some(42));
    assert_eq!(read_pid("x"), None);
    let file = |name: &str, pid: Option<&str>, pid_changed: Option<u64>| SocketFile {
        name: name.to_string(),
        path: format!("/run/{name}"),
        pid_text: pid.map(|p| p.to_string()),
        live: true,
        pid_changed,
        changed: Some(9),
    };
    let found = discover_sessions(&vec![
        file("b.sock", Some("7\n"), Some(5)),
        file("b.pid", None, None),
        file("a.sock", None, None),
    ]);
    assert_eq!(found.len(), 2);
    assert_eq!((found[0].session.as_str(), found[0].pid, found[0].mtime), ("b", Some(7), Some(5)));
    assert_eq!((found[1].session.as_str(), found[1].pid, found[1].mtime), ("a", None, Some(9)));
    assert_eq!(found[1].socket_path, "/run/a.sock");
}

#[test]
fn sessions_are_listed_by_name() {
    let found = vec![session("b", true, None), session("a", false, None)];
    assert_eq!(run_list_sessions(&found, false).out, "a - stale\nb 42 live\n");
    let j = parse(run_list_sessions(&found, true).out.trim()).unwrap();
    let text = cmux::json::render(&j);
    assert!(!text.contains("socket_path"), "{text}");
    let j = run_attach_session_list_json(&found).out;
    assert!(j.contains("\"socket_path\":\"/run/a.sock\""), "{j}");
    assert!(j.find("/run/a.sock").unwrap() < j.find("/run/b.sock").unwrap());
}

#[test]
fn a_session_is_asked_before_it_is_killed() {
    let here = |ours: bool, alive: bool, late: bool| Sight { ours, alive, late };
    let (s, action) = kill_session_at(KillState::Begin, Some(42), here(true, true, false));
    assert!(matches!(s, KillState::Terminating));
    assert!(matches!(action, KillAction::SendTerm(42)));
    let (s, action) = kill_session_at(s, Some(42), here(true, true, true));
    assert!(matches!(s, KillState::Killing | KillState::Done));
    assert!(matches!(action, KillAction::SendKill(42)));
    assert!(kill_result(Some(42), true));
    assert!(!kill_result(Some(42), false));
    assert!(!kill_result(None, false));
    let (s, action) = kill_session_at(KillState::Begin, Some(42), here(false, true, false));
    assert!(matches!(s, KillState::Done));
    assert!(matches!(action, KillAction::RemoveFiles));
    let (s, action) = kill_session_at(KillState::Begin, None, here(false, false, false));
    assert!(matches!(s, KillState::Done));
    assert!(matches!(action, KillAction::RemoveFiles));
}

#[test]
fn stale_sessions_are_cleaned() {
    let found = vec![session("b", false, None), session("l", true, None), session("a", false, None)];
    assert_eq!(kill_stale(&found), vec!["/run/a.sock".to_string(), "/run/b.sock".to_string()]);
    assert_eq!(killed_ending(true, Some(2)).out, "{\"cleaned\":2,\"ok\":true}\n");
    assert_eq!(killed_ending(true, None).out, "{\"ok\":true}\n");
    assert_eq!(killed_ending(false, Some(2)).out, "");
}

#[test]
fn which_session_is_killed() {
    let global = GlobalArgs { session: some("g"), socket: None, json: false };
    let mut flags = FlagMap::new();
    assert_eq!(kill_target(&global, &flags).unwrap(), "g");
    flags.insert("session", "f");
    assert_eq!(kill_target(&global, &flags).unwrap(), "f");
    let none = GlobalArgs { session: None, socket: None, json: false };
    let e = kill_target(&none, &FlagMap::new()).unwrap_err();
    assert_eq!((e.code, e.err.as_deref()), (2, Some("cmux: --session is required")));
    let e = run_kill_session("x", false, false).unwrap();
    assert_eq!((e.code, e.err.as_deref()), (1, Some("cmux: session \"x\" not found")));
    assert!(run_kill_session("x", false, true).is_none());
}

#[test]
fn sessions_are_renamed() {
    let mut flags = FlagMap::new();
    assert_eq!(rename_request_names(&flags).unwrap_err().code, 2);
    flags.insert("old", "a");
    flags.insert("new", "b");
    assert_eq!(rename_request_names(&flags).unwrap(), ("a".to_string(), "b".to_string()));
    assert_eq!(rename_check("a", "b", false, false).unwrap().code, 1);
    assert_eq!(rename_check("a", "b", true, true).unwrap().code, 2);
    assert!(rename_check("a", "b", true, false).is_none());
    assert!(validate_session_name("").is_err());
    assert!(validate_session_name("a/b").is_err());
    assert!(validate_session_name("ok-1").is_ok());
    let answer = || {
        OneShotOutcome::Answer(
            parse("{\"ok\":true,\"data\":{\"socket_path\":\"/run/b.sock\",\"pid\":42}}").unwrap(),
        )
    };
    assert_eq!(rename_session_at(answer()).unwrap(), "/run/b.sock");
    assert_eq!(run_rename_session(answer(), "b", false).code, 0);
    let e = run_rename_session(OneShotOutcome::ServerErr("taken".to_string()), "b", false);
    assert_eq!(e.code, 1);
    let e = run_rename_session(OneShotOutcome::ConnectErr("gone".to_string()), "b", false);
    assert_eq!(e.code, 3);
    assert!(select_workspace_remote(answer()).is_ok());
    assert!(select_workspace_remote(OneShotOutcome::ServerErr("no".to_string())).is_err());
}

#[test]
fn where_the_socket_lies() {
    let global = |session: Option<&str>, socket: Option<&str>| GlobalArgs {
        session: session.map(|s| s.to_string()),
        socket: socket.map(|s| s.to_string()),
        json: false,
    };
    assert!(matches!(
        resolve_socket(&global(None, Some("/x")), &some("/v")),
        SocketChoice::Path(p) if p == "/x"
    ));
    assert!(matches!(
        resolve_socket(&global(None, None), &some("/v")),
        SocketChoice::Path(p) if p == "/v"
    ));
    assert!(matches!(
        resolve_socket(&global(Some("s"), None), &some("")),
        SocketChoice::Session(s) if s == "s"
    ));
    assert!(matches!(
        resolve_socket(&global(None, None), &None),
        SocketChoice::Session(s) if s == "main"
    ));
}

// ---- the picker

fn key(code: KeyCode) -> KeyEvent {
    KeyEvent::new(code, false)
}

fn picker() -> PickerState {
    PickerState::new(refresh(&vec![
        session("old", true, Some(1)),
        session("dead", false, Some(2)),
        session("new", true, Some(3)),
    ]))
}

#[test]
fn the_newest_session_comes_first() {
    let names: Vec<String> = picker().sessions.iter().map(|s| s.session.clone()).collect();
    assert_eq!(names, vec!["new".to_string(), "dead".to_string(), "old".to_string()]);
}

#[test]
fn sessions_are_picked_with_keys() {
    let mut p = picker();
    assert!(matches!(
        p.dispatch(key(KeyCode::Enter)),
        Action::Attach { name, .. } if name == "new"
    ));
    let mut p = picker();
    p.dispatch(key(KeyCode::Char('j')));
    assert_eq!(p.selected, Some(1));
    assert!(!matches!(p.dispatch(key(KeyCode::Enter)), Action::Attach { .. }));
    assert!(matches!(p.dispatch(key(KeyCode::Char('q'))), Action::Quit));
    let mut p = picker();
    assert!(matches!(p.dispatch(KeyEvent::new(KeyCode::Char('c'), true)), Action::CtrlC));
}

#[test]
fn killing_is_asked_for() {
    let mut p = picker();
    p.dispatch(key(KeyCode::Char('x')));
    assert!(matches!(&p.mode, Mode::ConfirmKill { name, .. } if name == "new"));
    assert_eq!(prompt(&p.mode, 80), "Kill new?  y/N  (any other key cancels)");
    assert!(!matches!(p.dispatch(key(KeyCode::Char('n'))), Action::Kill { .. }));
    assert!(matches!(&p.mode, Mode::Browse));
    p.dispatch(key(KeyCode::Char('x')));
    assert!(matches!(p.dispatch(key(KeyCode::Char('y'))), Action::Kill { index: 0 }));
    p.dispatch(key(KeyCode::Char('s')));
    assert_eq!(prompt(&p.mode, 80), "Kill 1 stale session(s)?  y/N  (any other key cancels)");
}

#[test]
fn how_the_picker_ends() {
    assert_eq!(PickerOutcome::Quit { destructive: true }.exit_code(), Some(1));
    assert_eq!(PickerOutcome::Quit { destructive: false }.exit_code(), Some(0));
    assert_eq!(PickerOutcome::CtrlC.exit_code(), Some(2));
}

#[test]
fn what_the_picker_shows() {
    assert_eq!(row_label(&session("a", true, None)), "a");
    assert_eq!(row_label(&session("a", false, None)), "[unreachable] a");
    assert_eq!(list_title(&Vec::new()), " cmux sessions — none found (n new, q to quit) ");
    assert_eq!(
        prompt(&Mode::NewSession(TextInput::new("abcdef".to_string())), 4),
        "new session name: cdef"
    );
}

#[test]
fn a_workspace_of_another_session_is_asked_for_by_its_index() {
    assert_eq!(
        cmux::json::render(&select_request(2)),
        "{\"cmd\":\"select-workspace\",\"id\":1,\"index\":2}"
    );
}
