//! Clipboard, notifications, git, watchdog, themes, the fleet adapter and the version.

use cmux::clipboard::{
    image_paste_payload, looks_like_png, paste_dir, read_clipboard_bytes, read_commands,
    read_image_png, read_text, run_capture, write_paste_image, Wanted,
};
use cmux::desktop_notify::send;
use cmux::fleet::{
    dispatch, eq, plugin_main, read_argv1, read_token_into, send_request, send_request_bytes,
    unpack, Step,
};
use cmux::git_info::{
    branch_for_path, find_git_dir, read_branch, Candidate, GitInfoCache, Known, TTL,
};
use cmux::notify::{desktop_notifications, OscWatcher};
use cmux::osc::OscParser;
use cmux::socket_watchdog::{cleanup_files, run, spawn, watch_until_dead};
use cmux::theme::{run_list, ThemeFile};
use cmux::version::{
    git, git_dir, link_name, normalise, probe_system_includes, resolve_version, zig_command,
    zig_target_for_rust_target, Sources,
};

fn words(list: &[&str]) -> Vec<String> {
    list.iter().map(|w| w.to_string()).collect()
}

fn some(s: &str) -> Option<String> {
    Some(s.to_string())
}

#[test]
fn looks_like_png_detects_signature() {
    let mut bytes = b"\x89PNG\r\n\x1a\n".to_vec();
    bytes.extend_from_slice(&[0u8; 16]);
    assert!(looks_like_png(&bytes));
    assert!(!looks_like_png(b"not a png"));
    assert!(!looks_like_png(b""));
}

#[test]
fn image_paste_payload_none_when_no_image_tool_or_empty() {
    assert_eq!(image_paste_payload(&None, &None), None);
    let _ = image_paste_payload(&read_image_png(None, None), &None);
}

#[test]
fn write_paste_image_roundtrips() {
    let mut bytes = b"\x89PNG\r\n\x1a\n".to_vec();
    bytes.extend_from_slice(b"fake-png-body");
    let dir = paste_dir(&None, "/tmp");
    assert_eq!(write_paste_image(&dir, 42, 1700000000000000001, &bytes), "/tmp/cmux-pastes/paste-42-1700000000000000001.png");
    assert_eq!(write_paste_image("/d", 1, 0, b"jpeg"), "/d/paste-1-0.jpg");
    assert_eq!(paste_dir(&some("/run/u"), "/tmp"), "/run/u/cmux/pastes");
    assert_eq!(paste_dir(&some(""), "/tmp"), "/tmp/cmux-pastes");
}

#[test]
fn what_the_clipboard_gives() {
    let png = b"\x89PNG\r\n\x1a\n".to_vec();
    assert_eq!(read_image_png(Some(png.clone()), Some(vec![1])), Some(png.clone()));
    assert_eq!(read_image_png(Some(vec![9]), Some(vec![1])), Some(vec![1]));
    assert_eq!(read_image_png(Some(vec![9]), Some(Vec::new())), None);
    assert_eq!(read_text(Some("héllo".as_bytes().to_vec())).as_deref(), Some("héllo"));
    assert_eq!(read_text(Some(vec![0xff, 0xfe])), None);
    assert_eq!(read_text(Some(Vec::new())), None);
    assert_eq!(read_text(None), None);
    assert_eq!(run_capture(true, vec![1]), Some(vec![1]));
    assert_eq!(run_capture(false, vec![1]), None);
    assert_eq!(run_capture(true, Vec::new()), None);
    assert_eq!(read_clipboard_bytes(None, Some(vec![2])), Some(vec![2]));
    assert_eq!(read_clipboard_bytes(Some(vec![1]), Some(vec![2])), Some(vec![1]));
    assert_eq!(
        image_paste_payload(&Some(png), &some("/d/x.png")).as_deref(),
        Some("@/d/x.png")
    );
    let (wl, x) = read_commands(Wanted::Png);
    assert_eq!(wl, words(&["wl-paste", "--type", "image/png"]));
    assert_eq!(x, words(&["xclip", "-selection", "clipboard", "-t", "image/png", "-o"]));
    assert_eq!(read_commands(Wanted::Text).0, words(&["wl-paste", "--no-newline"]));
    assert_eq!(read_commands(Wanted::Jpeg).0, words(&["wl-paste", "--type", "image/jpeg"]));
}

fn payloads(w: &mut OscWatcher, bytes: &[u8]) -> Vec<(String, u8)> {
    w.feed(bytes)
        .into_iter()
        .map(|c| (String::from_utf8(c.payload).unwrap(), c.terminator))
        .collect()
}

#[test]
fn detects_bel_terminated_osc9() {
    let mut watcher = OscWatcher::new();
    let found = payloads(&mut watcher, b"before \x1b]9;Build failed\x07 after");
    assert_eq!(found, vec![("9;Build failed".to_string(), 0x07)]);
}

#[test]
fn detects_st_terminated_osc777_with_title() {
    let mut watcher = OscWatcher::new();
    let found = payloads(&mut watcher, b"\x1b]777;notify;Tests;3 failed\x1b\\");
    assert_eq!(found, vec![("777;notify;Tests;3 failed".to_string(), 0x5c)]);
}

#[test]
fn ignores_non_notification_osc_sequences() {
    let mut watcher = OscWatcher::new();
    let found = payloads(&mut watcher, b"\x1b]0;my shell\x07");
    assert_eq!(found, vec![("0;my shell".to_string(), 0x07)]);
    assert!(desktop_notifications(&vec![None]).is_empty());
}

#[test]
fn sequence_split_across_multiple_feed_calls() {
    let mut watcher = OscWatcher::new();
    assert!(watcher.feed(b"\x1b]9;Hello ").is_empty());
    let found = payloads(&mut watcher, b"world\x07");
    assert_eq!(found, vec![("9;Hello world".to_string(), 0x07)]);
}

#[test]
fn unrelated_escape_sequences_do_not_confuse_the_scanner() {
    let mut watcher = OscWatcher::new();
    let found = payloads(&mut watcher, b"\x1b[2J\x1b]9;after clear\x07");
    assert_eq!(found, vec![("9;after clear".to_string(), 0x07)]);
}

#[test]
fn multiple_notifications_in_one_chunk() {
    let mut watcher = OscWatcher::new();
    let found = payloads(&mut watcher, b"\x1b]9;first\x07 middle \x1b]9;second\x07");
    assert_eq!(
        found,
        vec![("9;first".to_string(), 0x07), ("9;second".to_string(), 0x07)]
    );
}

#[test]
fn reset_discards_partial_sequence() {
    let mut parser = OscParser::new();
    for byte in "9;partial".bytes() {
        parser.next(byte);
    }
    parser.reset();
    for byte in "9;fresh".bytes() {
        parser.next(byte);
    }
    let command = parser.end(0x07);
    assert_eq!(command.payload, b"9;fresh");
}

#[test]
fn an_escape_inside_drops_the_sequence() {
    let mut w = OscWatcher::new();
    assert_eq!(payloads(&mut w, b"\x1b]9;bad\x1bX rest\x07"), vec![]);
    assert_eq!(payloads(&mut w, b"\x1b]9;good\x07"), vec![("9;good".to_string(), 0x07)]);
}

#[test]
fn a_sequence_may_come_in_chunks() {
    let bytes = b"x\x1b]9;Hello world\x1b\\y\x1b]0;t\x07";
    let whole = payloads(&mut OscWatcher::new(), bytes);
    for cut in 0..bytes.len() {
        let mut w = OscWatcher::new();
        let mut parts = payloads(&mut w, &bytes[..cut]);
        parts.extend(payloads(&mut w, &bytes[cut..]));
        assert_eq!(parts, whole, "cut at {cut}");
    }
}

#[test]
fn notifications_go_to_the_desktop() {
    let read = vec![None, Some(("t".to_string(), "b".to_string())), None];
    assert_eq!(desktop_notifications(&read), vec![("t".to_string(), "b".to_string())]);
    assert_eq!(
        send("pane", "", "done"),
        words(&["notify-send", "--app-name=cmux-mux", "pane", "done"])
    );
    assert_eq!(send("pane", "Tests", "3 failed")[2], "pane: Tests");
}

#[test]
fn reads_branch_from_head() {
    let found = vec![("/w/repo".to_string(), Candidate::Directory)];
    let dir = find_git_dir(&found);
    assert_eq!(dir.as_deref(), Some("/w/repo/.git"));
    assert_eq!(
        branch_for_path(&dir, &some("ref: refs/heads/feature/thing\n")),
        some("feature/thing")
    );
}

#[test]
fn detached_head_shows_short_sha() {
    let dir = some("/w/repo/.git");
    assert_eq!(
        branch_for_path(&dir, &some("a78fe53efaaea56b80d47569d85e0d7b76512aa7\n")),
        some("@a78fe53")
    );
}

#[test]
fn worktree_gitdir_pointer_resolves() {
    let text = some("gitdir: /base/main-repo-git/worktrees/feature\n");
    let found = vec![("/base/worktree".to_string(), Candidate::File(text))];
    let dir = find_git_dir(&found);
    assert_eq!(dir.as_deref(), Some("/base/main-repo-git/worktrees/feature"));
    assert_eq!(
        branch_for_path(&dir, &some("ref: refs/heads/worktree-branch\n")),
        some("worktree-branch")
    );
}

#[test]
fn non_git_directory_returns_none() {
    let found =
        vec![("/tmp".to_string(), Candidate::Missing), ("/".to_string(), Candidate::Missing)];
    assert_eq!(branch_for_path(&find_git_dir(&found), &None), None);
}

#[test]
fn repositories_around_a_directory() {
    let around = vec![
        ("/a/b".to_string(), Candidate::Missing),
        ("/a".to_string(), Candidate::File(some("gitdir: ../git"))),
        ("/".to_string(), Candidate::Directory),
    ];
    assert_eq!(find_git_dir(&around).as_deref(), Some("/a/../git"));
    let odd = vec![("/a".to_string(), Candidate::File(some("what")))];
    assert_eq!(find_git_dir(&odd), None);
    let unread = vec![("/a".to_string(), Candidate::File(None))];
    assert_eq!(find_git_dir(&unread), None);
    assert_eq!(read_branch("abc123"), None);
    assert_eq!(read_branch("ref: refs/tags/v1"), None);
}

#[test]
fn branches_are_remembered_for_a_while() {
    let mut cache = GitInfoCache::new();
    assert!(matches!(cache.branch_for("/a", 5), Known::Unknown));
    cache.remember("/a", 5, &some("main"));
    cache.remember("/b", 5, &None);
    assert!(matches!(cache.branch_for("/a", 5 + TTL - 1), Known::Branch(Some(b)) if b == "main"));
    assert!(matches!(cache.branch_for("/a", 5 + TTL), Known::Unknown));
    assert!(matches!(cache.branch_for("/b", 6), Known::Branch(None)));
    cache.remember("/a", 9, &some("dev"));
    assert_eq!(cache.entries.len(), 2);
    assert!(matches!(cache.branch_for("/a", 9), Known::Branch(Some(b)) if b == "dev"));
}

#[test]
fn the_watchdog_reads_what_it_is_spawned_with() {
    let line = spawn(4242, "/run/s.sock");
    assert_eq!(line, words(&["socket-watchdog", "--pid", "4242", "--socket", "/run/s.sock"]));
    let w = run(&line[1..]).unwrap();
    assert_eq!((w.pid, w.socket.as_str()), (4242, "/run/s.sock"));
    let message = |list: &[&str]| {
        let e = run(&words(list)).unwrap_err();
        (e.code, e.err.unwrap())
    };
    let says = |code: i32, rest: &str| (code, format!("cmux socket-watchdog: {rest}"));
    assert_eq!(message(&[]), says(2, "--pid is required"));
    assert_eq!(message(&["--pid", "2"]), says(2, "--socket is required"));
    assert_eq!(message(&["--pid"]), says(2, "--pid needs a value"));
    assert_eq!(message(&["--socket"]), says(2, "--socket needs a value"));
    assert_eq!(message(&["--pid", "1"]), says(2, "invalid --pid 1"));
    assert_eq!(message(&["--pid", "x"]), says(2, "invalid --pid x"));
    let (code, text) = message(&["--what"]);
    assert_eq!(code, 2);
    assert!(text.starts_with("cmux socket-watchdog: unknown argument --what\ncmux socket-watchdog "));
    assert_eq!(message(&["--help"]).0, 0);
}

#[test]
fn the_watchdog_waits_for_the_end() {
    assert!(watch_until_dead(true, true));
    assert!(!watch_until_dead(true, false));
    assert!(!watch_until_dead(false, true));
    assert_eq!(
        cleanup_files("/run/sess.sock"),
        ("/run/sess.sock".to_string(), "/run/sess.pid".to_string())
    );
    assert_eq!(cleanup_files("/run.d/sess").1, "/run.d/sess.pid");
    assert_eq!(cleanup_files("/run/.hidden").1, "/run/.hidden.pid");
}

#[test]
fn themes_are_listed_by_name() {
    let file = |stem: &str, ext: Option<&str>, path: &str| ThemeFile {
        stem: stem.to_string(),
        extension: ext.map(|e| e.to_string()),
        path: path.to_string(),
    };
    let files = vec![
        file("nord", Some("toml"), "themes/nord.toml"),
        file("README", Some("md"), "themes/README.md"),
        file("dracula", Some("TOML"), "themes/dracula.TOML"),
        file("none", None, "themes/none"),
    ];
    let e = run_list(&Some(files));
    assert_eq!((e.code, e.out.as_str()), (0, "dracula  themes/dracula.TOML\nnord  themes/nord.toml\n"));
    let e = run_list(&None);
    assert_eq!(e.code, 1);
}

fn sent(verb: &[u8]) -> String {
    match dispatch(verb) {
        Step::Send(b) => String::from_utf8(b).unwrap(),
        other => panic!("{other:?}"),
    }
}

#[test]
fn the_fleet_adapter_knows_its_verbs() {
    assert_eq!(sent(b"ping"), "{\"id\":0,\"verb\":\"identify\",\"args\":{}}");
    assert_eq!(sent(b"status"), "{\"id\":0,\"verb\":\"list-workspaces\",\"args\":{}}");
    assert_eq!(
        sent(b"deploy"),
        "{\"id\":0,\"verb\":\"new-workspace\",\"args\":{\"name\":\"fleet-scout\"}}"
    );
    assert_eq!(
        sent(b"dispatch"),
        "{\"id\":0,\"verb\":\"new-workspace\",\"args\":{\"name\":\"fleet-worker\"}}"
    );
    assert_eq!(
        sent(b"rollback"),
        "{\"id\":0,\"verb\":\"close-workspace\",\"args\":{\"name\":\"fleet-scout\"}}"
    );
    assert!(matches!(dispatch(b"pin"), Step::Fail { words: "unknown verb", code: 1 }));
    assert!(matches!(
        send_request(vec![0; 513]),
        Step::Fail { words: "request too large", code: 1 }
    ));
    assert!(matches!(send_request(vec![0; 512]), Step::Send(_)));
    assert!(matches!(plugin_main(&None), Step::Fail { code: 2, .. }));
    assert!(matches!(plugin_main(&Some(Vec::new())), Step::Fail { code: 2, .. }));
    assert!(matches!(plugin_main(&Some(b"ping".to_vec())), Step::Send(_)));
    assert!(eq(b"ab", b"ab") && !eq(b"ab", b"ac") && !eq(b"ab", b"abc"));
    assert_eq!(send_request_bytes(-1), Some(("cmux_call failed", 1)));
    assert_eq!(send_request_bytes(0), None);
}

#[test]
fn the_fleet_adapter_reads_its_verb() {
    let buffer = b"fleet\0ping\0more\0";
    assert_eq!(read_argv1(3, 16, buffer, 6, 64), Some(b"ping".to_vec()));
    assert_eq!(read_argv1(1, 16, buffer, 6, 64), None);
    assert_eq!(read_argv1(3, -1, buffer, 6, 64), None);
    assert_eq!(read_argv1(3, 600, buffer, 6, 1000), None);
    assert_eq!(read_argv1(3, 16, buffer, 6, 8), None);
    assert_eq!(unpack(0x0000_0012_0000_0040), (0x12, 0x40));
    assert_eq!(read_token_into(32), 32);
    assert_eq!(read_token_into(65), 64);
}

fn sources() -> Sources {
    Sources {
        explicit: None,
        described: None,
        commit: None,
        manifest: some("0.1.0"),
        status: None,
    }
}

#[test]
fn the_version_has_tiers() {
    assert_eq!(resolve_version(&sources()), "0.1.0");
    assert_eq!(resolve_version(&Sources { manifest: None, ..sources() }), "unknown");
    assert_eq!(
        resolve_version(&Sources { commit: some("abc1234"), ..sources() }),
        "0.1.0-gabc1234"
    );
    let tagged = Sources {
        described: some("v0.17.2-14-gabc1234"),
        commit: some("abc1234"),
        status: some(" M src/x.rs"),
        ..sources()
    };
    assert_eq!(resolve_version(&tagged), "0.17.2-14-gabc1234-dirty");
    assert_eq!(
        resolve_version(&Sources { explicit: some(" v0.18.0\n"), ..tagged }),
        "0.18.0"
    );
    assert_eq!(normalise("0.2.0"), "0.2.0");
    assert_eq!(cmux::version::env(&some("  ")), None);
    assert_eq!(cmux::version::env(&some("x")), some("x"));
    assert_eq!(git(true, " out \n").as_deref(), Some("out"));
    assert_eq!(git(true, "\n"), None);
    assert_eq!(git(false, "out"), None);
    assert_eq!(git_dir(&some(".git"), "/m").as_deref(), Some("/m/.git"));
    assert_eq!(git_dir(&some("/r/.git"), "/m").as_deref(), Some("/r/.git"));
    assert_eq!(git_dir(&None, "/m"), None);
}

#[test]
fn the_terminal_library_is_built_for_the_target() {
    assert_eq!(zig_target_for_rust_target("x86_64-pc-windows-msvc"), Some("x86_64-windows-msvc"));
    assert_eq!(zig_target_for_rust_target("x86_64-unknown-linux-gnu"), None);
    let line = zig_command("x86_64-pc-windows-gnu", "x86_64-unknown-linux-gnu", &some("baseline"), "/o");
    assert_eq!(
        line,
        words(&[
            "build",
            "-Demit-lib-vt=true",
            "-Demit-xcframework=false",
            "-Doptimize=ReleaseFast",
            "-Dtarget=x86_64-windows-gnu",
            "-Dcpu=baseline",
            "--prefix",
            "/o",
        ])
    );
    assert_eq!(zig_command("a", "a", &None, "/o").len(), 6);
    assert_eq!(link_name("x86_64-pc-windows-gnu"), "ghostty-vt-static");
    assert_eq!(link_name("x86_64-unknown-linux-gnu"), "ghostty-vt");
    let said = "junk\n#include \"...\" search starts here:\n#include <...> search starts here:\n /usr/lib/gcc \n\n /usr/include\nEnd of search list.\n /not\n";
    assert_eq!(probe_system_includes(said), words(&["/usr/lib/gcc", "/usr/include"]));
    assert!(probe_system_includes("nothing").is_empty());
}
