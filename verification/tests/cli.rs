//! Command lines, requests, answers and what is printed of them.

use cmux::answers::{
    one_shot_rpc, run_one_response, run_stream, Ending, OneShotOutcome, Read, Reply, StreamRead,
    StreamStep,
};
use cmux::args::{
    may_be_plugin, newest_workspace, parse_args, picked_session, plugin_socket,
    resolve_local_overlay, route, show_local_config_resolution, start, surface_setup,
    workspace_named, Route, Start, Tool, USAGE,
};
use cmux::cli::{
    is_cli_invocation, parse, rewrite_agent_pattern_alias, rewrite_pane_worktree_alias, run,
    run_command, CliArgs, Handler, Parsed,
};
use cmux::json::{render, Json};
use cmux::layout_doc::LayoutDocument;
use cmux::layout_verbs::{
    apply_request, export_flags, read_export_entry, refuse_symlink, run_layout_export,
    run_layout_export_all, temp_path, Contents, ExportStep,
};
use cmux::model::{State, Workspace};
use cmux::prompt::parse_prompt_frontmatter;
use cmux::requests::{need, request_line, request_of, Fetched, Need};
use cmux::verbs::{verb_by_name, Verb};

fn words(line: &str) -> Vec<String> {
    line.split(' ').filter(|w| !w.is_empty()).map(|w| w.to_string()).collect()
}

fn command(line: &str) -> CliArgs {
    match parse(&words(line)) {
        Ok(Parsed::Command(c)) => c,
        other => panic!("{line}: {other:?}"),
    }
}

fn refusal(line: &str) -> String {
    match parse(&words(line)) {
        Err(e) => e.0,
        Ok(Parsed::Command(c)) => request_of(&c, &Fetched::Nothing).unwrap_err().0,
        other => panic!("{line}: {other:?}"),
    }
}

fn request(line: &str) -> String {
    request_with(line, Fetched::Nothing)
}

fn request_with(line: &str, fetched: Fetched) -> String {
    render(&request_of(&command(line), &fetched).unwrap())
}

fn json(text: &str) -> Json {
    cmux::json::parse(text).unwrap()
}

// ---- the front of a prompt file

#[test]
fn prompt_frontmatter_parses_branch_and_label() {
    let text = "---\nbranch: feat-auth\nlabel: auth pane\n---\nFix the login flow.\n";
    let (branch, label) = parse_prompt_frontmatter(text).unwrap();
    assert_eq!(branch.as_deref(), Some("feat-auth"));
    assert_eq!(label.as_deref(), Some("auth pane"));

    let text = "---\r\nbranch: x\r\n\r\n---\r\nbody";
    let (branch, label) = parse_prompt_frontmatter(text).unwrap();
    assert_eq!(branch.as_deref(), Some("x"));
    assert_eq!(label, None);
}

#[test]
fn prompt_frontmatter_absent_when_file_has_no_block() {
    let (branch, label) = parse_prompt_frontmatter("just a prompt body\n").unwrap();
    assert_eq!(branch, None);
    assert_eq!(label, None);
}

#[test]
fn prompt_frontmatter_rejects_malformed_blocks() {
    assert!(parse_prompt_frontmatter("---\nbranch: x\nbody").is_err());
    assert!(parse_prompt_frontmatter("---\ncommit: abc\n---\nb").is_err());
    assert!(parse_prompt_frontmatter("---\nbranch: a\nbranch: b\n---\nb").is_err());
    assert!(parse_prompt_frontmatter("---\nbranch:\n---\nb").is_err());
    assert!(parse_prompt_frontmatter("---\nfeat-auth\n---\nb").is_err());
}

// ---- lines

#[test]
fn lines_that_call_a_verb() {
    assert!(is_cli_invocation(&words("identify")));
    assert!(is_cli_invocation(&words("--socket /x --json list-workspaces")));
    assert!(is_cli_invocation(&words("--help")));
    assert!(!is_cli_invocation(&words("--headless")));
    assert!(!is_cli_invocation(&words("attach")));
    assert!(!is_cli_invocation(&[]));
}

#[test]
fn flags_are_read() {
    let c = command("--session s --json send --surface 3 --text hi --send-cr --socket /x");
    assert_eq!(c.verb, Verb::Send);
    assert_eq!(c.global.session.as_deref(), Some("s"));
    assert_eq!(c.global.socket.as_deref(), Some("/x"));
    assert!(c.global.json);
    assert_eq!(c.flags.optional("surface").as_deref(), Some("3"));
    assert_eq!(c.flags.optional("text").as_deref(), Some("hi"));
    assert_eq!(c.flags.optional_bool("send-cr"), Some(true));
    assert_eq!(command("send --surface 3 --send-cr=false").flags.optional_bool("send-cr"), Some(false));
    assert!(refusal("send --surface 3 --text=hi").contains("--text=hi"));
    assert!(refusal("send --surface 3 --surface 4").contains("duplicate flag"));
    assert!(refusal("identify extra").contains("unexpected argument \"extra\""));
    assert!(matches!(parse(&words("identify help")), Ok(Parsed::Help)));
}

#[test]
fn lines_that_are_refused() {
    assert!(refusal("identify --what 1").contains("--what"));
    assert!(refusal("send --surface").contains("--surface"));
    assert!(refusal("send --surface x --text a").contains("surface"));
    assert!(refusal("close-pane").contains("pane"));
    assert!(refusal("select-tab").len() > 0);
    assert!(refusal("send --surface 3 --text a --shell tcsh").contains("--shell"));
    let e = run(&words("identify --what 1"), "usage").unwrap_err();
    assert_eq!(e.code, 2);
    assert!(e.err.unwrap().starts_with("cmux: "));
    let e = run(&words("--help"), "usage").unwrap_err();
    assert_eq!((e.code, e.out.as_str()), (0, "usage"));
}

#[test]
fn other_spellings_of_verbs() {
    let mut line = words("--json pane worktree create --pane 3");
    rewrite_pane_worktree_alias(&mut line);
    assert_eq!(line, words("--json pane-worktree-create --pane 3"));
    let again = line.clone();
    rewrite_pane_worktree_alias(&mut line);
    assert_eq!(line, again);

    let mut line = words("agent-pattern add mine --pattern x");
    rewrite_agent_pattern_alias(&mut line);
    assert_eq!(line, words("agent-pattern-add --name mine --pattern x"));
    let mut line = words("agent-pattern list");
    rewrite_agent_pattern_alias(&mut line);
    assert_eq!(line, words("agent-pattern-list"));
    let mut line = words("pane worktree what");
    rewrite_pane_worktree_alias(&mut line);
    assert_eq!(line, words("pane worktree what"));
}

#[test]
fn verbs_about_sessions_and_layouts_are_not_sent() {
    assert_eq!(run_command(Verb::ListSessions), Handler::ListSessions);
    assert_eq!(run_command(Verb::KillStale), Handler::KillStale);
    assert_eq!(run_command(Verb::LayoutExportAll), Handler::LayoutExportAll);
    assert_eq!(run_command(Verb::Identify), Handler::Session);
    for name in ["identify", "send", "rename-session", "layout-apply", "detect-agents"] {
        assert_eq!(verb_by_name(name).unwrap().name(), name);
    }
    assert!(verb_by_name("what").is_none());
}

// ---- requests

#[test]
fn requests_name_their_verb_and_number() {
    assert_eq!(request("identify"), "{\"cmd\":\"identify\",\"id\":1}");
    assert_eq!(
        request("send --surface 7 --text hi"),
        "{\"cmd\":\"send\",\"id\":1,\"surface\":7,\"text\":\"hi\"}"
    );
    assert_eq!(
        request("rename-pane --pane 2 --name x"),
        "{\"cmd\":\"rename-pane\",\"id\":1,\"name\":\"x\",\"pane\":2}"
    );
    assert_eq!(
        request("select-workspace --delta -1"),
        "{\"cmd\":\"select-workspace\",\"delta\":-1,\"id\":1}"
    );
    assert_eq!(request_line(&json("{\"a\":1}")), "{\"a\":1}\n");
}

#[test]
fn requests_say_what_they_need() {
    assert!(matches!(need(Verb::Identify, &command("identify").flags), Need::Nothing));
    assert!(matches!(need(Verb::Send, &command("send --surface 1").flags), Need::Stdin));
    assert!(matches!(
        need(Verb::SetRatio, &command("set-ratio --pane 1 --dir right --ratio 0.3").flags),
        Need::Ratio(r) if r == "0.3"
    ));
    let text = request_with("send --surface 1", Fetched::Text("from stdin".to_string()));
    assert!(text.contains("from stdin"), "{text}");
    let ratio = request_with(
        "set-ratio --pane 1 --dir right --ratio 0.5",
        Fetched::Text("0.5".to_string()),
    );
    assert!(ratio.contains("\"ratio\":0.5"), "{ratio}");
}

#[test]
fn variables_and_commands_for_a_tab() {
    let mut line = words("new-tab --pane 1 --env A=1,B=2 --exec");
    line.extend(["--".to_string(), "sh".to_string(), "-c".to_string(), "a b".to_string()]);
    let c = match parse(&line) {
        Ok(Parsed::Command(c)) => c,
        other => panic!("{other:?}"),
    };
    let text = render(&request_of(&c, &Fetched::Nothing).unwrap());
    assert!(text.contains("\"command\":[\"sh\",\"-c\",\"a b\"]"), "{text}");
    assert!(text.contains("\"env\":{\"A\":\"1\",\"B\":\"2\"}"), "{text}");
    assert_eq!(
        refusal("new-tab --pane 1 --env A"),
        "--env entries must be K=V (got \"A\")"
    );
    assert_eq!(refusal("new-tab --pane 1 --env =1"), "--env keys cannot be empty");
}

// ---- answers

fn done(line: &str, json_output: bool, verb: Verb) -> Ending {
    match run_one_response(&Read::Line(line.to_string()), json_output, verb) {
        Reply::Done(e) => e,
        other => panic!("{other:?}"),
    }
}

#[test]
fn answers_are_printed_or_refused() {
    let line = "{\"ok\":true,\"data\":{\"session\":\"main\",\"protocol\":6,\"pid\":42}}";
    let e = done(line, false, Verb::Identify);
    assert_eq!((e.code, e.out.as_str()), (0, "cmux session=main protocol=6 pid=42\n"));
    let e = done("{\"ok\":true,\"data\":{\"b\":1,\"a\":[]}}", true, Verb::Identify);
    assert_eq!(e.out, "{\"a\":[],\"b\":1}\n");
    let e = done("{\"ok\":false,\"error\":\"unknown surface 999\"}", false, Verb::ReadScreen);
    assert_eq!((e.code, e.err.as_deref()), (1, Some("unknown surface 999")));
    let e = done("{\"id\":1}", false, Verb::ReadScreen);
    assert_eq!((e.code, e.err.as_deref()), (1, Some("unknown error")));
    let e = done("no json", false, Verb::ReadScreen);
    assert_eq!(e.code, 3);
    assert!(e.err.unwrap().starts_with("bad response: "));
    let again = run_one_response(&Read::Line("{\"event\":\"x\"}".to_string()), false, Verb::Identify);
    assert!(matches!(again, Reply::Again));
    let closed = run_one_response(&Read::Closed, false, Verb::Identify);
    assert!(matches!(
        closed,
        Reply::Done(e) if e.code == 3 && e.err.as_deref() == Some("transport closed before response")
    ));
}

#[test]
fn agents_are_listed_one_a_line() {
    let data = "{\"ok\":true,\"data\":{\"agents\":[{\"surface\":3,\"state\":\"working\",\"source\":\"hook\",\"session\":\"sess-abc\"}]}}";
    assert_eq!(done(data, false, Verb::ListAgents).out.trim(), "3 working hook sess-abc");
    let data = "{\"ok\":true,\"data\":{\"agents\":[{\"surface\":4,\"agent\":\"codex\"}]}}";
    assert_eq!(done(data, false, Verb::ListAgents).out, "4 unknown ? - codex -\n");
    let data = "{\"ok\":true,\"data\":{\"surface\":5,\"agent\":\"codex\",\"confidence\":\"medium\",\"evidence\":\"codex>\"}}";
    assert_eq!(done(data, false, Verb::DetectAgent).out, "5 codex medium codex>\n");
    let data = "{\"ok\":true,\"data\":{\"surface\":12}}";
    assert_eq!(done(data, false, Verb::NewWorkspace).out, "12\n");
    assert_eq!(done(data, false, Verb::CloseSurface).out, "");
}

#[test]
fn a_stream_shows_its_events() {
    let got = |line: &str| run_stream(line, &StreamRead::Got);
    assert!(matches!(got("{\"event\":\"tree-changed\"}\r\n"), StreamStep::Show(s) if s == "{\"event\":\"tree-changed\"}"));
    assert!(matches!(got("{\"id\":1,\"ok\":true}\n"), StreamStep::Drop));
    assert!(matches!(got("{\"id\":9,\"ok\":false}\n"), StreamStep::Drop));
    assert!(matches!(
        got("{\"id\":1,\"ok\":false,\"error\":\"no\"}\n"),
        StreamStep::Done(e) if e.code == 1 && e.err.as_deref() == Some("no")
    ));
    assert!(matches!(got("{\"event\""), StreamStep::Done(e) if e.code == 3));
    assert!(matches!(run_stream("{", &StreamRead::Pending), StreamStep::Keep));
    assert!(matches!(run_stream("", &StreamRead::Closed), StreamStep::Done(e) if e.code == 0));
}

#[test]
fn one_shot_requests() {
    let read = |line: &str| one_shot_rpc(&Read::Line(line.to_string()));
    assert!(matches!(read("{\"ok\":true,\"data\":{}}"), Some(OneShotOutcome::Answer(_))));
    assert!(matches!(
        read("{\"ok\":false,\"error\":\"e\"}"),
        Some(OneShotOutcome::ServerErr(e)) if e == "e"
    ));
    assert!(read("{\"event\":\"x\"}").is_none());
    assert!(matches!(one_shot_rpc(&Read::Closed), Some(OneShotOutcome::ServerErr(_))));
}

#[test]
fn a_tree_is_printed() {
    let data = "{\"ok\":true,\"data\":{\"workspaces\":[{\"id\":1,\"name\":\"w\",\"active\":true,\"screens\":[]}]}}";
    let e = done(data, false, Verb::ListWorkspaces);
    assert!(e.out.starts_with("workspace id=1 "), "{}", e.out);
}

// ---- layout files

#[test]
fn layouts_are_exported() {
    let flags = command("layout-export --workspace w --output /o.json").flags;
    assert_eq!(export_flags(&flags).unwrap(), ("w".to_string(), "/o.json".to_string()));
    let text = run_layout_export(OneShotOutcome::Answer(json("{\"ok\":true,\"data\":{\"a\":1}}")));
    assert_eq!(text.unwrap(), "{\n  \"a\": 1\n}");
    let e = run_layout_export(OneShotOutcome::ServerErr("no".to_string())).unwrap_err();
    assert_eq!(e.code, 1);
    let e = run_layout_export(OneShotOutcome::ConnectErr("no".to_string())).unwrap_err();
    assert_eq!(e.code, 3);
    assert_eq!(temp_path("/o/x.json"), "/o/x.json.tmp");
    assert_eq!(temp_path("/o/x"), "/o/x.json.tmp");
    let e = refuse_symlink("/o", true).unwrap();
    assert!(e.err.unwrap().contains("refusing to write through symlink /o"));
}

#[test]
fn exported_files_stay_in_their_directory() {
    let entry = |name: &str| format!("{{\"filename\":\"{name}\",\"document\":{{\"a\":1}}}}");
    let file = read_export_entry(&json(&entry("w.json"))).unwrap();
    assert_eq!((file.name.as_str(), file.contents.as_str()), ("w.json", "{\n  \"a\": 1\n}"));
    for bad in ["", ".", "..", "../w.json", "a/b", "a\\\\b"] {
        assert_eq!(read_export_entry(&json(&entry(bad))).unwrap_err().code, 1, "{bad}");
    }
    assert!(read_export_entry(&json("{}")).is_err());
    let answer = |files: &str| {
        OneShotOutcome::Answer(json(&format!("{{\"ok\":true,\"data\":{{\"files\":[{files}]}}}}")))
    };
    let none = Vec::new();
    assert!(matches!(
        run_layout_export_all(&answer(""), &none, false),
        ExportStep::Done(e) if e.code == 1 && e.err.as_deref() == Some("cmux: no workspaces to export")
    ));
    assert!(matches!(
        run_layout_export_all(&answer(&entry("w.json")), &none, false),
        ExportStep::Write(f) if f.name == "w.json"
    ));
    let written = vec!["/d/w.json".to_string()];
    assert!(matches!(
        run_layout_export_all(&answer(&entry("w.json")), &written, false),
        ExportStep::Done(e) if e.out == "/d/w.json\n"
    ));
    assert!(matches!(
        run_layout_export_all(&answer(&entry("w.json")), &written, true),
        ExportStep::Done(e) if e.out == "{\"files\":[\"/d/w.json\"]}\n"
    ));
}

#[test]
fn layouts_are_checked_before_they_are_applied() {
    let unread = Contents::Text(Err("EOF while parsing an object".to_string()));
    let e = apply_request(&unread, "/i", "w").unwrap_err();
    let said = "cmux: parsing layout \"/i\": EOF while parsing an object";
    assert_eq!((e.code, e.err.as_deref()), (2, Some(said)));
    let e = apply_request(&Contents::Failed("denied".to_string()), "/i", "w").unwrap_err();
    assert_eq!((e.code, e.err.as_deref()), (2, Some("cmux: reading layout \"/i\": denied")));
    let text = "{\"cmux_version\":\"1\",\"schema_version\":7,\"workspace\":{\"active_screen\":0,\"color\":null,\"icon\":null,\"name\":\"n\",\"screens\":[]}}";
    let document = LayoutDocument::from_json(&cmux::json::parse(text).unwrap()).unwrap();
    let request = apply_request(&Contents::Text(Ok(document)), "/i", "w").unwrap();
    assert_eq!(
        render(&request),
        format!("{{\"cmd\":\"layout-apply\",\"document\":{text},\"id\":1,\"workspace\":\"w\"}}")
    );
}

// ---- the program itself

#[test]
fn options_of_a_session() {
    let a = parse_args(&words("attach --session s --socket /x --term t --config /c --json --session-list"), "1.0").unwrap();
    assert!(a.attach && a.json && a.session_list && !a.headless);
    assert_eq!((a.session.as_str(), a.socket.as_deref()), ("s", Some("/x")));
    assert_eq!((a.term.as_deref(), a.config.as_deref()), (Some("t"), Some("/c")));
    assert!(matches!(start(&a), Start::ListSessions(g) if g.socket.as_deref() == Some("/x")));
    let a = parse_args(&[], "1.0").unwrap();
    assert_eq!(a.session, "main");
    assert!(matches!(start(&a), Start::Serve));
    let a = parse_args(&words("attach"), "1.0").unwrap();
    assert!(matches!(start(&a), Start::Attach));
    let a = parse_args(&words("attach --show-local-config-resolution --session-list"), "1.0").unwrap();
    assert!(matches!(start(&a), Start::ShowLocalConfig));
}

#[test]
fn lines_that_start_no_session() {
    let e = parse_args(&words("--headless -V"), "1.2.3").unwrap_err();
    assert_eq!((e.code, e.out.as_str()), (0, "cmux 1.2.3\n"));
    let e = parse_args(&words("--help"), "1").unwrap_err();
    assert_eq!((e.code, e.out.as_str()), (0, USAGE));
    let e = parse_args(&words("--session"), "1").unwrap_err();
    assert_eq!(e.code, 2);
    assert!(e.err.unwrap().starts_with("cmux: --session needs a value\n\ncmux - terminal"));
    let e = parse_args(&words("x\"y"), "1").unwrap_err();
    assert!(e.err.unwrap().starts_with("cmux: unknown argument \"x\\\"y\"\n\n"));
}

#[test]
fn lines_find_their_way() {
    let to = |line: &str, plugin: bool| route(&words(line), plugin, "1.0");
    assert!(matches!(to("help", false), Route::End(e) if e.code == 0 && e.out == USAGE));
    assert!(matches!(to("grok install-hooks", true), Route::Tool(Tool::Grok)));
    assert!(matches!(to("theme list", false), Route::ThemeList));
    assert!(matches!(to("theme", false), Route::End(e) if e.code == 2));
    assert!(matches!(to("fleet ping", true), Route::Tool(Tool::PluginCall)));
    assert!(matches!(to("ssh host", true), Route::Tool(Tool::Ssh)));
    assert!(matches!(to("socket-watchdog", true), Route::Tool(Tool::SocketWatchdog)));
    assert!(matches!(to("fleet ping", false), Route::End(e) if e.code == 2));
    assert!(matches!(to("pane worktree list", false), Route::Cli(a) if a == words("pane-worktree-list")));
    assert!(matches!(
        to("--json workspace-color w red", false),
        Route::Cli(a) if a == words("--json workspace-color --name w --color red")
    ));
    assert!(matches!(to("workspace-color w", false), Route::End(e) if e.code == 2));
    assert!(matches!(to("attach", false), Route::Session(a) if a.attach));
    assert!(matches!(to("", false), Route::Session(_)));
    assert!(may_be_plugin("fleet") && !may_be_plugin("--x") && !may_be_plugin("ssh"));
}

#[test]
fn plugins_find_the_socket() {
    let line = words("fleet ping --socket /s");
    let home = Some("/home/u".to_string());
    assert_eq!(plugin_socket(&Some("/v".to_string()), &line, &home), "/v");
    assert_eq!(plugin_socket(&None, &line, &home), "/s");
    assert_eq!(
        plugin_socket(&None, &words("fleet --socket"), &home),
        "/home/u/.local/share/cmux/cmux-main.sock"
    );
    assert_eq!(plugin_socket(&None, &[], &None), "/tmp/cmux-main.sock");
}

#[test]
fn local_configuration_is_reported() {
    let path = Some("/c.toml".to_string());
    assert_eq!(
        resolve_local_overlay(&path, Some(3)),
        "cmux: applying local config from /c.toml (overrides 3 keys)"
    );
    assert_eq!(resolve_local_overlay(&path, None), "cmux: no local config found at /c.toml");
    let e = show_local_config_resolution(&path, Some(3));
    assert_eq!((e.code, e.out.as_str()), (0, "cmux: local config resolves to /c.toml (overrides 3 keys)\n"));
    let e = show_local_config_resolution(&None, None);
    assert_eq!((e.code, e.err.as_deref()), (0, Some("cmux: no local config found")));
}

#[test]
fn sessions_are_served_at_a_socket() {
    let a = parse_args(&words("--term xterm"), "1").unwrap();
    let setup = surface_setup(&a, "/run/main.sock");
    assert_eq!((setup.term.as_deref(), setup.socket_path.as_str()), (Some("xterm"), "/run/main.sock"));
    assert_eq!(
        setup.extra_env,
        vec![("CMUX_MUX_SOCKET".to_string(), "/run/main.sock".to_string())]
    );
    let mut a = parse_args(&words("attach --session-list"), "1").unwrap();
    picked_session(&mut a, "/run/x.sock", "x");
    assert_eq!(surface_setup(&a, "/run/main.sock").socket_path, "/run/x.sock");
    assert!(matches!(start(&a), Start::Attach));
}

#[test]
fn configured_workspaces_are_found_again() {
    let workspace = |id: u64, name: &str| Workspace {
        id,
        name: name.to_string(),
        color: None,
        icon: None,
        screens: Vec::new(),
        active_screen: 0,
    };
    let mut state = State {
        workspaces: Vec::new(),
        panes: Vec::new(),
        surfaces: Vec::new(),
        active_workspace: 0,
    };
    assert_eq!(newest_workspace(&state), None);
    state.workspaces = vec![workspace(4, "a"), workspace(6, "b"), workspace(5, "b")];
    assert_eq!(workspace_named(&state, "b"), Some(6));
    assert_eq!(workspace_named(&state, "c"), None);
    assert_eq!(newest_workspace(&state), Some(5));
}

#[test]
fn what_stands_behind_the_block_is_not_looked_at() {
    let front = "---\nbranch: x\n---\n";
    for behind in ["", "body", "---\nlabel: y\n---\n", "no colon\n"] {
        let (branch, label) = parse_prompt_frontmatter(&format!("{front}{behind}")).unwrap();
        assert_eq!((branch.as_deref(), label), (Some("x"), None));
    }
}
