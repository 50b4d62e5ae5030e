//! The command line of the program itself: what it starts, and with which options.

use vstd::prelude::*;

use crate::answers::{failed, failure, succeeded, success, Ending, EndingV};
use crate::cli::{
    command_from, command_index, first_from, is_cli_invocation, pattern_rewritten,
    rewrite_agent_pattern_alias, rewrite_pane_worktree_alias, worktree_rewritten, FirstCommand,
    GlobalArgs, GlobalV,
};
use crate::model::{State, Workspace, WorkspaceId};
use crate::text::{
    append_decimal, copy_opt, copy_texts, debug_quoted, decimal, opt_text, owned, path_join,
    path_joined, quoted, same, starts_with, texts,
};

verus! {

pub const USAGE: &'static str = "\
cmux - terminal multiplexer backed by libghostty-vt

USAGE:
  cmux [OPTIONS]           Start a session (TUI + control socket)
  cmux attach [OPTIONS]    Attach to an existing session's socket
  cmux <verb> [OPTIONS]    Run one control-socket command
  cmux workspace-color <name> <color>  Set a named workspace colour
  cmux antigravity install-hooks  Antigravity CLI hook integration (see below)
  cmux codex install-hooks        Codex CLI hook integration (see below)
  cmux pi install-hooks           Pi agent extension integration (see below)
  cmux aider install-hooks        Aider wrapper integration (see below)
  cmux grok install-hooks         Grok CLI hook integration (see below)
  cmux opencode install-hooks     opencode plugin integration (see below)
  cmux agents <list|install>     Manage all agent hook integrations (see below)
  cmux plugin <subcommand> Manage cmux-plugin.toml manifests (see below)
  cmux ssh <host> [OPTS]   Open a remote workspace over SSH (see below)

OPTIONS:
  --session <name>   Session name (default: main). Determines the socket path.
  --socket <path>    Explicit control socket path.
  --headless         Run only the control socket, no TUI.
  --term <value>     TERM for child shells (default: xterm-256color).
  --apply-local-config
                    Attach only: overlay the local mux.local.toml/mux.json
                    (theme, tabs, sidebar, keys) on top of the server config.
  --config <path>    Attach only: explicit local overlay file (overrides
                    $CMUX_LOCAL_CONFIG and the XDG defaults).
  --show-local-config-resolution
                    Attach only: print which local config would apply and
                    how many keys it overrides, then exit without attaching.
  --print-resolved-config
                    Attach only: fetch the server's resolved presentation
                    chrome, layer the local overlay on top (requires
                    --apply-local-config), print the merged chrome as JSON,
                    and exit without starting the TUI. For inspecting
                    overlay layering without a live terminal.
  --session-list     Attach only: discover sessions and either print them
                    (--json) or open the interactive picker instead of
                    attaching directly.
  --json             With --session-list: print the discovered sessions as
                    JSON (one object per session, including socket_path)
                    and exit without attaching.
  -V, --version      Print the cmux version and exit.
  -h, --help         Show this help.

SESSION PICKER  (cmux attach --session-list, without --json)
  Lists every discovered cmux session (newest first) and lets you pick one
  to attach in-process. Stale (unconnectable) sessions are shown grey and
  labelled [unreachable]. Exit codes: 0 clean quit, 1 after a destructive
  kill + quit, 2 Ctrl-C, 0 on attach (then the normal attach/detach flow).
    ↑/↓ or j/k  move focus        Enter  attach to focused (live only)
    x  kill focused session (y/N)    s  kill every stale session (y/N)
    n  new session (inline name)     r  rename (stub; L2 will wire it in)
    q / Esc  quit                    Ctrl-C  abort (exit 2)

KEYS (prefix: Ctrl-b)
  c  new tab in pane   B    new browser tab    n/p  next/prev tab
  1-9  select tab
  %  split right       \"  split down          x    close tab
  ,  rename pane       $    rename workspace
  Tab  next screen     S    new screen
  h/j/k/l or arrows    move focus              d    quit (attach: detach)
  w  next workspace    W    new workspace       s    toggle sidebar
  <  browser back      >    browser forward     r/u  browser reload/edit URL
  ?  show key binding help
  Ctrl-b  send a literal Ctrl-b

MOUSE
  Right-click a pane for rename/new tab/split/close; right-click a
  sidebar workspace or a status-bar screen for rename/close. Click
  tab-bar entries to switch tabs (+ for a new tab), and status-bar
  screen entries to switch screens (+ for a new screen).

CLI VERBS
  identify, list-workspaces, send, read-screen, vt-state, new-tab,
  new-browser-tab, new-workspace, new-screen, split, set-ratio,
  set-default-colors, close-surface, close-pane, close-screen,
  close-workspace, rename-pane, rename-surface, rename-screen,
  rename-workspace, set-workspace-color, set-status, workspace-color,
  trigger-flash, resize-surface,
  focus-pane, select-tab, select-screen, select-workspace, move-tab,
  move-workspace, scroll-surface, subscribe, attach-surface, report-agent,
  list-agents, browser-reload, list-sessions, kill-session, kill-stale,
  theme list

SEND
  cmux send --surface <id> --text <text> [--shell auto|fish|bash|zsh|sh|nu|raw]
      Writes input to a PTY surface (stdin is used when neither --text nor
      --bytes is given). --shell enables shell-aware sanitisation (issue
      #35): with fish/bash/zsh/nu, a leading newline is prefixed when the
      text starts with a shell metacharacter ($, !, quote, bracket, ~, #)
      or contains an unclosed quote, so '$ pwd\n' is typed literally
      instead of being interpreted by the shell's line editor. auto
      resolves the pane's shell from /proc on Linux. Default: raw
      (verbatim passthrough, unchanged from before).

ANTIGRAVITY CLI INTEGRATION
  cmux antigravity install-hooks [--uninstall] [--global]
      Installs hooks into .agents/hooks.json (or ~/.gemini/config/hooks.json if --global)
      to automatically report state changes to cmux.
  cmux antigravity install-skill [--uninstall] [--global]
      Installs the orchestration skill to .agents/skills/cmux-orchestration/SKILL.md
      (or ~/.gemini/antigravity-cli/skills/cmux-orchestration/SKILL.md if --global).

CODEX CLI INTEGRATION
  cmux codex install-hooks [--uninstall] [--global]
      Installs hooks into .codex/hooks.json (or ~/.codex/hooks.json if --global) and
      enables hooks feature in config.toml to report state to cmux.
  cmux codex install-skill [--uninstall] [--global]
      Installs the orchestration skill to .agents/skills/cmux-orchestration/SKILL.md
      (or ~/.codex/skills/cmux-orchestration/SKILL.md if --global).

PI AGENT INTEGRATION
  cmux pi install-hooks [--uninstall] [--global]
      Installs TypeScript extensions into .pi/extensions/ (or ~/.pi/agent/extensions/
      if --global) to report state changes.
  cmux pi install-skill [--uninstall] [--global]
      Appends the orchestration skill to .pi/APPEND_SYSTEM.md
      (or ~/.pi/agent/APPEND_SYSTEM.md if --global).

AIDER INTEGRATION
  cmux aider install-hooks [--uninstall] [--global]
      Creates a wrapper script at .bin/aider (or ~/.local/bin/aider if --global)
      that wraps the real aider binary to report working/done state.

GROK CLI INTEGRATION
  cmux grok install-hooks [--uninstall] [--global]
      Installs hooks into .grok/hooks.json (or ~/.grok/hooks.json if --global)
      to automatically report state changes to cmux.
  cmux grok install-skill [--uninstall] [--global]
      Installs the orchestration skill to .agents/skills/cmux-orchestration/SKILL.md
      (or ~/.grok/skills/cmux-orchestration/SKILL.md if --global).

AGENT HOOK INTEGRATION
  cmux agents list [--global]
      Lists installed status, version, timestamp, and path for all six agents.
  cmux agents install --all [--uninstall] [--global]
      Installs or removes every registered agent hook, continuing after failures.
  cmux agents install --only <agent> [--uninstall] [--global]
      Installs or removes one registered agent hook.

PLUGIN LOADER (manifest + registry only; no execution yet)
  cmux plugin list                       List installed plugins (read-only)
  cmux plugin install <manifest-path>    Install a plugin from a cmux-plugin.toml
  cmux plugin uninstall <name>           Remove an installed plugin
  cmux plugin enable <name>              Mark a plugin enabled
  cmux plugin disable <name>             Mark a plugin disabled

      These verbs only manage on-disk manifest state and a small JSON
      registry under ~/.local/share/cmux/plugins.json. Plugin *execution*
      (proxying `cmux <plugin-name> <verb>` to a running plugin process,
      WASM/WASI sandboxing) is NOT implemented by this verb group and is
      deferred to a follow-up PR.

REMOTE (SSH) WORKSPACES
  cmux ssh <host> [--name <workspace-name>] [--session <mux-session>]
      Opens a workspace whose tab is a shell on <host> instead of local.
      Builds and caches a cmuxd-remote binary for the remote's OS/arch
      the first time (needs Go on PATH), uploads it, and starts it in
      persistent mode: closing the tab detaches without killing the
      remote shell, and this session's own daemon restarting reattaches
      to it automatically (see mux/docs/getting-started.md).
";

// ---- options ------------------------------------------------------------------------------

/// The options with which a session is started or attached to.
#[derive(Debug)]
pub struct Args {
    pub attach: bool,
    pub session: String,
    pub socket: Option<String>,
    pub headless: bool,
    pub term: Option<String>,
    pub apply_local_config: bool,
    pub show_local_config_resolution: bool,
    pub print_resolved_config: bool,
    pub config: Option<String>,
    pub session_list: bool,
    pub json: bool,
}

pub struct ArgsV {
    pub attach: bool,
    pub session: Seq<char>,
    pub socket: Option<Seq<char>>,
    pub headless: bool,
    pub term: Option<Seq<char>>,
    pub apply_local_config: bool,
    pub show_local_config_resolution: bool,
    pub print_resolved_config: bool,
    pub config: Option<Seq<char>>,
    pub session_list: bool,
    pub json: bool,
}

impl View for Args {
    type V = ArgsV;

    open spec fn view(&self) -> ArgsV {
        ArgsV {
            attach: self.attach,
            session: self.session@,
            socket: opt_text(self.socket),
            headless: self.headless,
            term: opt_text(self.term),
            apply_local_config: self.apply_local_config,
            show_local_config_resolution: self.show_local_config_resolution,
            print_resolved_config: self.print_resolved_config,
            config: opt_text(self.config),
            session_list: self.session_list,
            json: self.json,
        }
    }
}

/// The options of a line without any.
pub open spec fn no_options() -> ArgsV {
    ArgsV {
        attach: false,
        session: "main"@,
        socket: None,
        headless: false,
        term: None,
        apply_local_config: false,
        show_local_config_resolution: false,
        print_resolved_config: false,
        config: None,
        session_list: false,
        json: false,
    }
}

pub open spec fn usage_exit(message: Seq<char>) -> EndingV {
    failure(2, "cmux: "@ + message + "\n\n"@ + USAGE@)
}

fn exit_with_usage(message: &str) -> (e: Ending)
    ensures
        e@ == usage_exit(message@),
{
    let mut m: String = "cmux: ".to_string();
    m.append(message);
    m.append("\n\n");
    m.append(USAGE);
    failed(2, m)
}

pub open spec fn version_text(version: Seq<char>) -> Seq<char> {
    "cmux "@ + version + "\n"@
}

/// Whether an option takes a value.
pub open spec fn takes_value(word: Seq<char>) -> bool {
    word == "--session"@ || word == "--socket"@ || word == "--term"@ || word == "--config"@
}

/// The options with one more that takes a value.
pub open spec fn with_value(a: ArgsV, word: Seq<char>, value: Seq<char>) -> ArgsV {
    if word == "--session"@ {
        ArgsV { session: value, ..a }
    } else if word == "--socket"@ {
        ArgsV { socket: Some(value), ..a }
    } else if word == "--term"@ {
        ArgsV { term: Some(value), ..a }
    } else {
        ArgsV { config: Some(value), ..a }
    }
}

/// The options with one more that takes none.
pub open spec fn with_switch(a: ArgsV, word: Seq<char>) -> Option<ArgsV> {
    if word == "--headless"@ {
        Some(ArgsV { headless: true, ..a })
    } else if word == "--session-list"@ {
        Some(ArgsV { session_list: true, ..a })
    } else if word == "--json"@ {
        Some(ArgsV { json: true, ..a })
    } else if word == "--apply-local-config"@ {
        Some(ArgsV { apply_local_config: true, ..a })
    } else if word == "--show-local-config-resolution"@ {
        Some(ArgsV { show_local_config_resolution: true, ..a })
    } else if word == "--print-resolved-config"@ {
        Some(ArgsV { print_resolved_config: true, ..a })
    } else {
        None
    }
}

/// Reads the words from word `i` on, with what the words before it said. The first word that
/// asks for help or the version, or that is not understood, ends the reading.
pub open spec fn read_args(args: Seq<Seq<char>>, i: int, a: ArgsV, version: Seq<char>) -> Result<
    ArgsV,
    EndingV,
>
    decreases args.len() - i,
{
    if i < 0 || i >= args.len() {
        Ok(a)
    } else if takes_value(args[i]) {
        if i + 1 >= args.len() {
            Err(usage_exit(args[i] + " needs a value"@))
        } else {
            read_args(args, i + 2, with_value(a, args[i], args[i + 1]), version)
        }
    } else if args[i] == "-h"@ || args[i] == "--help"@ {
        Err(success(USAGE@))
    } else if args[i] == "-V"@ || args[i] == "--version"@ {
        Err(success(version_text(version)))
    } else {
        match with_switch(a, args[i]) {
            Some(b) => read_args(args, i + 1, b, version),
            None => Err(usage_exit("unknown argument "@ + quoted(args[i]))),
        }
    }
}

/// The options of a line; `attach` counts only as the first word.
pub open spec fn options(args: Seq<Seq<char>>, version: Seq<char>) -> Result<ArgsV, EndingV> {
    if args.len() > 0 && args[0] == "attach"@ {
        read_args(args, 1, ArgsV { attach: true, ..no_options() }, version)
    } else {
        read_args(args, 0, no_options(), version)
    }
}

pub open spec fn args_or_ending(r: Result<Args, Ending>) -> Result<ArgsV, EndingV> {
    match r {
        Ok(a) => Ok(a@),
        Err(e) => Err(e@),
    }
}

impl Args {
    fn set_value(&mut self, word: &str, value: &str)
        requires
            takes_value(word@),
        ensures
            final(self)@ == with_value(old(self)@, word@, value@),
    {
        if same(word, "--session") {
            self.session = owned(value);
        } else if same(word, "--socket") {
            self.socket = Some(owned(value));
        } else if same(word, "--term") {
            self.term = Some(owned(value));
        } else {
            self.config = Some(owned(value));
        }
    }

    fn set_switch(&mut self, word: &str) -> (known: bool)
        ensures
            known == (with_switch(old(self)@, word@) is Some),
            known ==> final(self)@ == with_switch(old(self)@, word@)->0,
    {
        if same(word, "--headless") {
            self.headless = true;
        } else if same(word, "--session-list") {
            self.session_list = true;
        } else if same(word, "--json") {
            self.json = true;
        } else if same(word, "--apply-local-config") {
            self.apply_local_config = true;
        } else if same(word, "--show-local-config-resolution") {
            self.show_local_config_resolution = true;
        } else if same(word, "--print-resolved-config") {
            self.print_resolved_config = true;
        } else {
            return false;
        }
        true
    }
}

fn value_option(word: &str) -> (r: bool)
    ensures
        r == takes_value(word@),
{
    same(word, "--session") || same(word, "--socket") || same(word, "--term") || same(
        word,
        "--config",
    )
}

/// Reads the options of the program, or says how it ends without starting anything.
#[verifier::loop_isolation(false)]
pub fn parse_args(args: &[String], version: &str) -> (r: Result<Args, Ending>)
    ensures
        args_or_ending(r) == options(texts(args@), version@),
{
    let ghost words = texts(args@);
    let mut a: Args = Args {
        attach: false,
        session: "main".to_string(),
        socket: None,
        headless: false,
        term: None,
        apply_local_config: false,
        show_local_config_resolution: false,
        print_resolved_config: false,
        config: None,
        session_list: false,
        json: false,
    };
    let mut i: usize = 0;
    if args.len() > 0 {
        assert(words[0] == args@[0]@);
        if same(args[0].as_str(), "attach") {
            a.attach = true;
            i = 1;
        }
    }
    while i < args.len()
        invariant
            words == texts(args@),
            options(words, version@) == read_args(words, i as int, a@, version@),
        decreases args.len() - i,
    {
        let word: &str = args[i].as_str();
        assert(words[i as int] == word@);
        if value_option(word) {
            if args.len() - i < 2 {
                let mut m: String = owned(word);
                m.append(" needs a value");
                return Err(exit_with_usage(m.as_str()));
            }
            assert(words[i + 1] == args@[i + 1]@);
            a.set_value(word, args[i + 1].as_str());
            i = i + 2;
        } else if same(word, "-h") || same(word, "--help") {
            return Err(succeeded(owned(USAGE)));
        } else if same(word, "-V") || same(word, "--version") {
            let mut m: String = "cmux ".to_string();
            m.append(version);
            m.append("\n");
            return Err(succeeded(m));
        } else if a.set_switch(word) {
            i = i + 1;
        } else {
            let mut m: String = "unknown argument ".to_string();
            m.append(debug_quoted(word).as_str());
            return Err(exit_with_usage(m.as_str()));
        }
    }
    Ok(a)
}

// ---- what is started ----------------------------------------------------------------------

/// What a session is started for.
#[derive(Debug)]
pub enum Start {
    /// Say which local configuration would apply.
    ShowLocalConfig,
    /// List the sessions as JSON.
    ListSessions(GlobalArgs),
    /// Let the user pick a session, then go on.
    Pick(GlobalArgs),
    Attach,
    Serve,
}

pub enum StartV {
    ShowLocalConfig,
    ListSessions(GlobalV),
    Pick(GlobalV),
    Attach,
    Serve,
}

impl View for Start {
    type V = StartV;

    open spec fn view(&self) -> StartV {
        match self {
            Start::ShowLocalConfig => StartV::ShowLocalConfig,
            Start::ListSessions(g) => StartV::ListSessions(g@),
            Start::Pick(g) => StartV::Pick(g@),
            Start::Attach => StartV::Attach,
            Start::Serve => StartV::Serve,
        }
    }
}

/// What the options start.
pub open spec fn started(a: ArgsV) -> StartV {
    let global = GlobalV { session: Some(a.session), socket: a.socket, json: a.json };
    if a.show_local_config_resolution {
        StartV::ShowLocalConfig
    } else if a.session_list && a.json {
        StartV::ListSessions(global)
    } else if a.session_list {
        StartV::Pick(global)
    } else if a.attach {
        StartV::Attach
    } else {
        StartV::Serve
    }
}

pub fn start(a: &Args) -> (r: Start)
    ensures
        r@ == started(a@),
{
    if a.show_local_config_resolution {
        return Start::ShowLocalConfig;
    }
    if a.session_list {
        let global: GlobalArgs = GlobalArgs {
            session: Some(owned(a.session.as_str())),
            socket: copy_opt(&a.socket),
            json: a.json,
        };
        if a.json {
            return Start::ListSessions(global);
        }
        return Start::Pick(global);
    }
    if a.attach {
        Start::Attach
    } else {
        Start::Serve
    }
}

/// Goes on with a session that was picked: at the very socket where it was found.
pub fn picked_session(a: &mut Args, socket: &str, name: &str)
    ensures
        final(a)@ == (ArgsV {
            socket: Some(socket@),
            session: name@,
            session_list: false,
            ..old(a)@
        }),
{
    a.socket = Some(owned(socket));
    a.session = owned(name);
    a.session_list = false;
}

// ---- local configuration ------------------------------------------------------------------

/// What is said of the local configuration: its path, where there is one, and how many keys it
/// sets, where it could be read.
pub open spec fn local_config_text(
    front: Seq<char>,
    path: Option<Seq<char>>,
    keys: Option<u64>,
) -> Seq<char> {
    match (path, keys) {
        (Some(p), Some(n)) => front + p + " (overrides "@ + decimal(n as nat) + " keys)"@,
        (Some(p), None) => "cmux: no local config found at "@ + p,
        (None, _) => "cmux: no local config found"@,
    }
}

fn local_config_line(front: &str, path: &Option<String>, keys: Option<u64>) -> (r: String)
    ensures
        r@ == local_config_text(front@, opt_text(*path), keys),
{
    match (path, keys) {
        (Some(p), Some(n)) => {
            let mut m: String = owned(front);
            m.append(p.as_str());
            m.append(" (overrides ");
            append_decimal(&mut m, n);
            m.append(" keys)");
            m
        },
        (Some(p), None) => {
            let mut m: String = "cmux: no local config found at ".to_string();
            m.append(p.as_str());
            m
        },
        (None, _) => "cmux: no local config found".to_string(),
    }
}

/// What is said when the local configuration is applied.
pub fn resolve_local_overlay(path: &Option<String>, keys: Option<u64>) -> (r: String)
    ensures
        r@ == local_config_text("cmux: applying local config from "@, opt_text(*path), keys),
{
    local_config_line("cmux: applying local config from ", path, keys)
}

/// What is printed of the local configuration when only that is asked for. It is no failure that
/// there is none.
pub fn show_local_config_resolution(path: &Option<String>, keys: Option<u64>) -> (e: Ending)
    ensures
        e@ == {
            let text = local_config_text(
                "cmux: local config resolves to "@,
                opt_text(*path),
                keys,
            );
            if path is Some && keys is Some {
                success(text + "\n"@)
            } else {
                failure(0, text)
            }
        },
{
    let mut text: String = local_config_line("cmux: local config resolves to ", path, keys);
    if path.is_some() && keys.is_some() {
        text.append("\n");
        succeeded(text)
    } else {
        failed(0, text)
    }
}

// ---- serving ------------------------------------------------------------------------------

/// What the surfaces of a session are started with, and where the session is reached.
#[derive(Debug)]
pub struct SurfaceSetup {
    pub term: Option<String>,
    pub socket_path: String,
    pub extra_env: Vec<(String, String)>,
}

/// The socket of a session: the one that was given, else the usual one for its name.
pub open spec fn served_at(a: ArgsV, usual: Seq<char>) -> Seq<char> {
    match a.socket {
        Some(path) => path,
        None => usual,
    }
}

/// What a session is served with; what runs in it finds the socket in a variable.
pub fn surface_setup(a: &Args, usual_socket: &str) -> (r: SurfaceSetup)
    ensures
        opt_text(r.term) == a@.term,
        r.socket_path@ == served_at(a@, usual_socket@),
        r.extra_env.len() == 1,
        r.extra_env@[0].0@ == "CMUX_MUX_SOCKET"@,
        r.extra_env@[0].1@ == served_at(a@, usual_socket@),
{
    let socket_path: String = match &a.socket {
        Some(path) => owned(path.as_str()),
        None => owned(usual_socket),
    };
    let shown: String = owned(socket_path.as_str());
    let extra_env: Vec<(String, String)> = vec![("CMUX_MUX_SOCKET".to_string(), shown)];
    SurfaceSetup { term: copy_opt(&a.term), socket_path, extra_env }
}

// ---- configured workspaces ----------------------------------------------------------------

/// The first workspace of that name, from position `from` on.
pub open spec fn named_from(ws: Seq<Workspace>, name: Seq<char>, from: int) -> Option<WorkspaceId>
    decreases ws.len() - from,
{
    if from < 0 || from >= ws.len() {
        None
    } else if ws[from].name@ == name {
        Some(ws[from].id)
    } else {
        named_from(ws, name, from + 1)
    }
}

/// The workspace that a configured one is, where it is there already.
pub fn workspace_named(state: &State, name: &str) -> (r: Option<WorkspaceId>)
    ensures
        r == named_from(state.workspaces@, name@, 0),
{
    let mut i: usize = 0;
    while i < state.workspaces.len()
        invariant
            i <= state.workspaces.len(),
            named_from(state.workspaces@, name@, 0) == named_from(
                state.workspaces@,
                name@,
                i as int,
            ),
        decreases state.workspaces.len() - i,
    {
        if same(state.workspaces[i].name.as_str(), name) {
            return Some(state.workspaces[i].id);
        }
        i = i + 1;
    }
    None
}

/// The workspace that was made last.
pub fn newest_workspace(state: &State) -> (r: Option<WorkspaceId>)
    ensures
        r == if state.workspaces@.len() == 0 {
            None
        } else {
            Some(state.workspaces@.last().id)
        },
{
    if state.workspaces.len() == 0 {
        None
    } else {
        Some(state.workspaces[state.workspaces.len() - 1].id)
    }
}

// ---- routes -------------------------------------------------------------------------------

/// A part of the program with a command line of its own, which starts behind the first word.
#[derive(Clone, Copy, Debug, PartialEq, Eq, Structural)]
pub enum Tool {
    Antigravity,
    Codex,
    Pi,
    Aider,
    Grok,
    Opencode,
    Agents,
    Plugin,
    /// A plugin that is called by its name.
    PluginCall,
    Ssh,
    SocketWatchdog,
}

/// Where a command line goes.
#[derive(Debug)]
pub enum Route {
    End(Ending),
    Tool(Tool),
    ThemeList,
    /// A verb for the control socket, with the whole line.
    Cli(Vec<String>),
    Session(Args),
}

pub enum RouteV {
    End(EndingV),
    Tool(Tool),
    ThemeList,
    Cli(Seq<Seq<char>>),
    Session(ArgsV),
}

impl View for Route {
    type V = RouteV;

    open spec fn view(&self) -> RouteV {
        match self {
            Route::End(e) => RouteV::End(e@),
            Route::Tool(t) => RouteV::Tool(*t),
            Route::ThemeList => RouteV::ThemeList,
            Route::Cli(a) => RouteV::Cli(texts(a@)),
            Route::Session(a) => RouteV::Session(a@),
        }
    }
}

/// The part of the program that the first word names before plugins are looked at.
pub open spec fn tool_of(first: Seq<char>) -> Option<Tool> {
    if first == "antigravity"@ {
        Some(Tool::Antigravity)
    } else if first == "codex"@ {
        Some(Tool::Codex)
    } else if first == "pi"@ {
        Some(Tool::Pi)
    } else if first == "aider"@ {
        Some(Tool::Aider)
    } else if first == "grok"@ {
        Some(Tool::Grok)
    } else if first == "opencode"@ {
        Some(Tool::Opencode)
    } else if first == "agents"@ {
        Some(Tool::Agents)
    } else if first == "plugin"@ {
        Some(Tool::Plugin)
    } else {
        None
    }
}

fn tool_named(first: &str) -> (r: Option<Tool>)
    ensures
        r == tool_of(first@),
{
    if same(first, "antigravity") {
        Some(Tool::Antigravity)
    } else if same(first, "codex") {
        Some(Tool::Codex)
    } else if same(first, "pi") {
        Some(Tool::Pi)
    } else if same(first, "aider") {
        Some(Tool::Aider)
    } else if same(first, "grok") {
        Some(Tool::Grok)
    } else if same(first, "opencode") {
        Some(Tool::Opencode)
    } else if same(first, "agents") {
        Some(Tool::Agents)
    } else if same(first, "plugin") {
        Some(Tool::Plugin)
    } else {
        None
    }
}

/// Whether the first word may name a plugin.
pub open spec fn nameable(first: Seq<char>) -> bool {
    !"-"@.is_prefix_of(first) && first != "workspace-color"@ && first != "agents"@ && first
        != "ssh"@ && first != "socket-watchdog"@
}

pub fn may_be_plugin(first: &str) -> (r: bool)
    ensures
        r == nameable(first@),
{
    !starts_with(first, "-") && !same(first, "workspace-color") && !same(first, "agents")
        && !same(first, "ssh") && !same(first, "socket-watchdog")
}

/// The line of `workspace-color <name> <color>`, with its flags written out.
pub open spec fn color_line(args: Seq<Seq<char>>, i: int) -> RouteV {
    if args.len() != i + 3 {
        RouteV::End(failure(2, "cmux: usage: cmux workspace-color <name> <color>"@))
    } else {
        RouteV::Cli(
            args.take(i) + seq![
                "workspace-color"@,
                "--name"@,
                args[i + 1],
                "--color"@,
                args[i + 2],
            ],
        )
    }
}

/// Where a line goes that names no part of the program and no plugin.
pub open spec fn verb_or_session(args: Seq<Seq<char>>, version: Seq<char>) -> RouteV {
    let i = command_from(args, 0);
    let flat = pattern_rewritten(worktree_rewritten(args));
    if i < args.len() && args[i] == "workspace-color"@ {
        color_line(args, i)
    } else if first_from(flat, 0) != FirstCommand::Other {
        RouteV::Cli(flat)
    } else {
        match options(args, version) {
            Ok(a) => RouteV::Session(a),
            Err(e) => RouteV::End(e),
        }
    }
}

/// Where a command line goes. `is_plugin` says whether the first word names an enabled plugin.
pub open spec fn routed(args: Seq<Seq<char>>, is_plugin: bool, version: Seq<char>) -> RouteV {
    if args.len() == 0 {
        verb_or_session(args, version)
    } else if args[0] == "help"@ {
        RouteV::End(success(USAGE@))
    } else if args[0] == "theme"@ {
        if args.len() > 1 && args[1] == "list"@ {
            RouteV::ThemeList
        } else {
            RouteV::End(failure(2, "cmux: usage: cmux theme list"@))
        }
    } else {
        match tool_of(args[0]) {
            Some(t) => RouteV::Tool(t),
            None => if nameable(args[0]) && is_plugin {
                RouteV::Tool(Tool::PluginCall)
            } else if args[0] == "ssh"@ {
                RouteV::Tool(Tool::Ssh)
            } else if args[0] == "socket-watchdog"@ {
                RouteV::Tool(Tool::SocketWatchdog)
            } else {
                verb_or_session(args, version)
            },
        }
    }
}

fn route_verb(args: &Vec<String>, version: &str) -> (r: Route)
    ensures
        r@ == verb_or_session(texts(args@), version@),
{
    let ghost words = texts(args@);
    let i: usize = command_index(args.as_slice());
    if i < args.len() {
        assert(words[i as int] == args@[i as int]@);
        if same(args[i].as_str(), "workspace-color") {
            if args.len() - i != 3 {
                return Route::End(
                    failed(2, "cmux: usage: cmux workspace-color <name> <color>".to_string()),
                );
            }
            let mut line: Vec<String> = Vec::new();
            let mut k: usize = 0;
            while k < i
                invariant
                    k <= i < args.len(),
                    line.len() == k,
                    forall|j: int| 0 <= j < k ==> (#[trigger] line@[j])@ == args@[j]@,
                decreases i - k,
            {
                line.push(owned(args[k].as_str()));
                k = k + 1;
            }
            line.push("workspace-color".to_string());
            line.push("--name".to_string());
            line.push(owned(args[i + 1].as_str()));
            line.push("--color".to_string());
            line.push(owned(args[i + 2].as_str()));
            proof {
                let goal = words.take(i as int) + seq![
                    "workspace-color"@,
                    "--name"@,
                    words[i + 1],
                    "--color"@,
                    words[i + 2],
                ];
                assert forall|j: int| 0 <= j < goal.len() implies texts(line@)[j] == goal[j] by {
                    if j < i {
                        assert(line@[j]@ == args@[j]@);
                    }
                }
                assert(texts(line@) =~= goal);
            }
            return Route::Cli(line);
        }
    }
    let mut flat: Vec<String> = copy_texts(args);
    rewrite_pane_worktree_alias(&mut flat);
    rewrite_agent_pattern_alias(&mut flat);
    if is_cli_invocation(flat.as_slice()) {
        return Route::Cli(flat);
    }
    match parse_args(args.as_slice(), version) {
        Ok(a) => Route::Session(a),
        Err(e) => Route::End(e),
    }
}

/// Where a command line goes. `is_plugin` says whether the first word names an enabled plugin; it
/// counts only where the word may name one.
pub fn route(args: &Vec<String>, is_plugin: bool, version: &str) -> (r: Route)
    ensures
        r@ == routed(texts(args@), is_plugin, version@),
{
    if args.len() == 0 {
        return route_verb(args, version);
    }
    let ghost words = texts(args@);
    let first: &str = args[0].as_str();
    assert(words[0] == first@);
    if same(first, "help") {
        return Route::End(succeeded(owned(USAGE)));
    }
    if same(first, "theme") {
        if args.len() > 1 {
            assert(words[1] == args@[1]@);
            if same(args[1].as_str(), "list") {
                return Route::ThemeList;
            }
        }
        return Route::End(failed(2, "cmux: usage: cmux theme list".to_string()));
    }
    if let Some(t) = tool_named(first) {
        return Route::Tool(t);
    }
    if may_be_plugin(first) && is_plugin {
        return Route::Tool(Tool::PluginCall);
    }
    if same(first, "ssh") {
        return Route::Tool(Tool::Ssh);
    }
    if same(first, "socket-watchdog") {
        return Route::Tool(Tool::SocketWatchdog);
    }
    route_verb(args, version)
}

/// A line that starts with a flag is never taken for a plugin's.
pub proof fn law_flags_are_no_plugin(args: Seq<Seq<char>>, version: Seq<char>)
    requires
        args.len() > 0,
        "-"@.is_prefix_of(args[0]),
    ensures
        routed(args, true, version) == routed(args, false, version),
{
}

// ---- the socket of a plugin ---------------------------------------------------------------

/// The value behind the first `--socket` from word `i` on that has a word behind it.
pub open spec fn socket_flag(args: Seq<Seq<char>>, i: int) -> Option<Seq<char>>
    decreases args.len() - i,
{
    if i < 0 || i + 1 >= args.len() {
        None
    } else if args[i] == "--socket"@ {
        Some(args[i + 1])
    } else {
        socket_flag(args, i + 1)
    }
}

/// The socket that a plugin talks to: the one of the session it runs in, else the one of the
/// command line, else the usual one.
pub open spec fn plugin_socket_of(
    variable: Option<Seq<char>>,
    args: Seq<Seq<char>>,
    home: Option<Seq<char>>,
) -> Seq<char> {
    match (variable, socket_flag(args, 0), home) {
        (Some(path), _, _) => path,
        (None, Some(path), _) => path,
        (None, None, Some(h)) => if h.len() > 0 {
            path_joined(h, ".local/share/cmux/cmux-main.sock"@)
        } else {
            "/tmp/cmux-main.sock"@
        },
        (None, None, None) => "/tmp/cmux-main.sock"@,
    }
}

#[verifier::loop_isolation(false)]
pub fn plugin_socket(variable: &Option<String>, args: &[String], home: &Option<String>) -> (r:
    String)
    ensures
        r@ == plugin_socket_of(opt_text(*variable), texts(args@), opt_text(*home)),
{
    if let Some(path) = variable {
        return owned(path.as_str());
    }
    let ghost words = texts(args@);
    let mut i: usize = 0;
    while args.len() - i > 1
        invariant
            i <= args.len(),
            words == texts(args@),
            socket_flag(words, 0) == socket_flag(words, i as int),
        decreases args.len() - i,
    {
        assert(words[i as int] == args@[i as int]@ && words[i + 1] == args@[i + 1]@);
        if same(args[i].as_str(), "--socket") {
            return owned(args[i + 1].as_str());
        }
        i = i + 1;
    }
    if let Some(h) = home {
        if !h.as_str().is_empty() {
            return path_join(h.as_str(), ".local/share/cmux/cmux-main.sock");
        }
    }
    "/tmp/cmux-main.sock".to_string()
}

/// A number by which the words of a command line are told apart.
spec fn mark(s: Seq<char>) -> int {
    s.len() * 1000000 + (if s.len() > 2 {
        s[2] as int
    } else {
        33
    }) * 1000 + s[s.len() - 1] as int
}

proof fn lemma_marks()
    ensures
        mark("--session"@) == 9115110,
        mark("--socket"@) == 8115116,
        mark("--term"@) == 6116109,
        mark("--config"@) == 8099103,
        mark("--headless"@) == 10104115,
        mark("--session-list"@) == 14115116,
        mark("--json"@) == 6106110,
        mark("--apply-local-config"@) == 20097103,
        mark("--show-local-config-resolution"@) == 30115110,
        mark("--print-resolved-config"@) == 23112103,
        mark("-h"@) == 2033104,
        mark("--help"@) == 6104112,
        mark("-V"@) == 2033086,
        mark("--version"@) == 9118110,
        mark("attach"@) == 6116104,
{
    reveal_strlit("--session");
    reveal_strlit("--socket");
    reveal_strlit("--term");
    reveal_strlit("--config");
    reveal_strlit("--headless");
    reveal_strlit("--session-list");
    reveal_strlit("--json");
    reveal_strlit("--apply-local-config");
    reveal_strlit("--show-local-config-resolution");
    reveal_strlit("--print-resolved-config");
    reveal_strlit("-h");
    reveal_strlit("--help");
    reveal_strlit("-V");
    reveal_strlit("--version");
    reveal_strlit("attach");
    assert("--session"@.len() == 9 && "--session"@[2] == 's' && "--session"@[8] == 'n');
    assert("--socket"@.len() == 8 && "--socket"@[2] == 's' && "--socket"@[7] == 't');
    assert("--term"@.len() == 6 && "--term"@[2] == 't' && "--term"@[5] == 'm');
    assert("--config"@.len() == 8 && "--config"@[2] == 'c' && "--config"@[7] == 'g');
    assert("--headless"@.len() == 10 && "--headless"@[2] == 'h' && "--headless"@[9] == 's');
    assert("--session-list"@.len() == 14 && "--session-list"@[2] == 's' && "--session-list"@[13] == 't');
    assert("--json"@.len() == 6 && "--json"@[2] == 'j' && "--json"@[5] == 'n');
    assert("--apply-local-config"@.len() == 20 && "--apply-local-config"@[2] == 'a' && "--apply-local-config"@[19] == 'g');
    assert("--show-local-config-resolution"@.len() == 30 && "--show-local-config-resolution"@[2] == 's' && "--show-local-config-resolution"@[29] == 'n');
    assert("--print-resolved-config"@.len() == 23 && "--print-resolved-config"@[2] == 'p' && "--print-resolved-config"@[22] == 'g');
    assert("-h"@.len() == 2 && "-h"@[1] == 'h');
    assert("--help"@.len() == 6 && "--help"@[2] == 'h' && "--help"@[5] == 'p');
    assert("-V"@.len() == 2 && "-V"@[1] == 'V');
    assert("--version"@.len() == 9 && "--version"@[2] == 'v' && "--version"@[8] == 'n');
    assert("attach"@.len() == 6 && "attach"@[2] == 't' && "attach"@[5] == 'h');
}

/// What is read up to the end of a line stays so where more words follow.
proof fn lemma_read_on(
    x: Seq<Seq<char>>,
    y: Seq<Seq<char>>,
    i: int,
    from: ArgsV,
    a: ArgsV,
    version: Seq<char>,
)
    requires
        0 <= i <= x.len(),
        read_args(x, i, from, version) == Ok::<ArgsV, EndingV>(a),
    ensures
        read_args(x + y, i, from, version) == read_args(x + y, x.len() as int, a, version),
    decreases x.len() - i,
{
    if i < x.len() {
        assert((x + y)[i] == x[i]);
        if takes_value(x[i]) {
            assert((x + y)[i + 1] == x[i + 1]);
            lemma_read_on(x, y, i + 2, with_value(from, x[i], x[i + 1]), a, version);
        } else {
            lemma_read_on(x, y, i + 1, with_switch(from, x[i])->0, a, version);
        }
    }
}

/// The options of a line: none gives what holds without any; an option that is put behind a line
/// changes the one thing that it names, and the later of two counts. A word that is no option, or
/// an option without its value, is refused; help and the version are told instead.
#[verifier::rlimit(40)]
pub proof fn law_option_added(
    x: Seq<Seq<char>>,
    a: ArgsV,
    v: Seq<char>,
    word: Seq<char>,
    version: Seq<char>,
)
    requires
        options(x, version) == Ok::<ArgsV, EndingV>(a),
        x.len() > 0 || word != "attach"@,
    ensures
        options(x + seq!["--session"@, v], version) == Ok::<ArgsV, EndingV>(
            ArgsV { session: v, ..a },
        ),
        options(x + seq!["--socket"@, v], version) == Ok::<ArgsV, EndingV>(
            ArgsV { socket: Some(v), ..a },
        ),
        options(x + seq!["--term"@, v], version) == Ok::<ArgsV, EndingV>(
            ArgsV { term: Some(v), ..a },
        ),
        options(x + seq!["--config"@, v], version) == Ok::<ArgsV, EndingV>(
            ArgsV { config: Some(v), ..a },
        ),
        options(x + seq!["--headless"@], version) == Ok::<ArgsV, EndingV>(
            ArgsV { headless: true, ..a },
        ),
        options(x + seq!["--session-list"@], version) == Ok::<ArgsV, EndingV>(
            ArgsV { session_list: true, ..a },
        ),
        options(x + seq!["--json"@], version) == Ok::<ArgsV, EndingV>(ArgsV { json: true, ..a }),
        options(x + seq!["--apply-local-config"@], version) == Ok::<ArgsV, EndingV>(
            ArgsV { apply_local_config: true, ..a },
        ),
        options(x + seq!["--show-local-config-resolution"@], version) == Ok::<ArgsV, EndingV>(
            ArgsV { show_local_config_resolution: true, ..a },
        ),
        options(x + seq!["--print-resolved-config"@], version) == Ok::<ArgsV, EndingV>(
            ArgsV { print_resolved_config: true, ..a },
        ),
        options(x + seq!["--help"@], version) == Err::<ArgsV, EndingV>(success(USAGE@)),
        options(x + seq!["--version"@], version) matches Err(e) && e.code == 0 && e.out == "cmux "@
            + version + "\n"@,
        options(x + seq!["--term"@], version) matches Err(e) && e.code == 2,
        !"-"@.is_prefix_of(word) ==> (options(x + seq![word], version) matches Err(e) && e.code
            == 2),
{
    lemma_marks();
    lemma_added(x, a, "--session"@, v, version);
    lemma_added(x, a, "--socket"@, v, version);
    lemma_added(x, a, "--term"@, v, version);
    lemma_added(x, a, "--config"@, v, version);
    lemma_put(x, a, "--headless"@, version);
    lemma_put(x, a, "--session-list"@, version);
    lemma_put(x, a, "--json"@, version);
    lemma_put(x, a, "--apply-local-config"@, version);
    lemma_put(x, a, "--show-local-config-resolution"@, version);
    lemma_put(x, a, "--print-resolved-config"@, version);
    lemma_put(x, a, "--help"@, version);
    lemma_put(x, a, "--version"@, version);
    lemma_put(x, a, "--term"@, version);
    if !"-"@.is_prefix_of(word) {
        lemma_put(x, a, word, version);
        lemma_no_dash(word);
    }
}

proof fn lemma_no_dash(word: Seq<char>)
    requires
        !"-"@.is_prefix_of(word),
    ensures
        !takes_value(word) && word != "-h"@ && word != "--help"@ && word != "-V"@ && word
            != "--version"@,
        forall|a: ArgsV| #[trigger] with_switch(a, word) is None,
{
    reveal_strlit("-");
    reveal_strlit("--session");
    reveal_strlit("--socket");
    reveal_strlit("--term");
    reveal_strlit("--config");
    reveal_strlit("--headless");
    reveal_strlit("--session-list");
    reveal_strlit("--json");
    reveal_strlit("--apply-local-config");
    reveal_strlit("--show-local-config-resolution");
    reveal_strlit("--print-resolved-config");
    reveal_strlit("-h");
    reveal_strlit("--help");
    reveal_strlit("-V");
    reveal_strlit("--version");
    reveal_strlit("attach");
    assert("-"@ =~= seq!['-']);
    if word.len() > 0 && word[0] == '-' {
        assert(word.subrange(0, 1) =~= "-"@);
    }
    assert("--session"@[0] == '-');
    assert("--socket"@[0] == '-');
    assert("--term"@[0] == '-');
    assert("--config"@[0] == '-');
    assert("--headless"@[0] == '-');
    assert("--session-list"@[0] == '-');
    assert("--json"@[0] == '-');
    assert("--apply-local-config"@[0] == '-');
    assert("--show-local-config-resolution"@[0] == '-');
    assert("--print-resolved-config"@[0] == '-');
    assert("-h"@[0] == '-');
    assert("--help"@[0] == '-');
    assert("-V"@[0] == '-');
    assert("--version"@[0] == '-');
}

/// A word behind a line is read where the line ends.
proof fn lemma_put(x: Seq<Seq<char>>, a: ArgsV, word: Seq<char>, version: Seq<char>)
    requires
        options(x, version) == Ok::<ArgsV, EndingV>(a),
        x.len() > 0 || word != "attach"@,
    ensures
        ({
            let all = x + seq![word];
            let n = x.len() as int;
            &&& options(all, version) == read_args(all, n, a, version)
            &&& all[n] == word && all.len() == n + 1
            &&& with_switch(a, word) matches Some(b) ==> !takes_value(word) && word != "-h"@ && word
                != "--help"@ && word != "-V"@ && word != "--version"@ ==> options(all, version)
                == Ok::<ArgsV, EndingV>(b)
        }),
{
    let all = x + seq![word];
    assert(x.len() > 0 ==> all[0] == x[0]);
    assert(all[x.len() as int] == word);
    if x.len() > 0 && x[0] == "attach"@ {
        lemma_read_on(x, seq![word], 1, ArgsV { attach: true, ..no_options() }, a, version);
    } else {
        lemma_read_on(x, seq![word], 0, no_options(), a, version);
    }
    if let Some(b) = with_switch(a, word) {
        assert(read_args(all, all.len() as int, b, version) == Ok::<ArgsV, EndingV>(b));
    }
}

proof fn lemma_added(
    x: Seq<Seq<char>>,
    a: ArgsV,
    word: Seq<char>,
    v: Seq<char>,
    version: Seq<char>,
)
    requires
        options(x, version) == Ok::<ArgsV, EndingV>(a),
        takes_value(word),
        word != "attach"@,
    ensures
        options(x + seq![word, v], version) == Ok::<ArgsV, EndingV>(with_value(a, word, v)),
{
    let y = seq![word, v];
    let all = x + y;
    let n = x.len() as int;
    assert(n > 0 ==> all[0] == x[0]);
    assert(all[n] == word && all[n + 1] == v);
    if x.len() > 0 && x[0] == "attach"@ {
        lemma_read_on(x, y, 1, ArgsV { attach: true, ..no_options() }, a, version);
    } else {
        lemma_read_on(x, y, 0, no_options(), a, version);
    }
    assert(read_args(all, n, a, version) == read_args(
        all,
        n + 2,
        with_value(a, word, v),
        version,
    ));
}

/// A line without options, and one that only attaches.
pub proof fn law_no_options(version: Seq<char>)
    ensures
        options(seq![], version) matches Ok(a) && {
            &&& a.session == "main"@
            &&& a.socket is None && a.term is None && a.config is None
            &&& !a.attach && !a.headless && !a.session_list && !a.json
            &&& !a.apply_local_config && !a.show_local_config_resolution
            &&& !a.print_resolved_config
            &&& options(seq!["attach"@], version) == Ok::<ArgsV, EndingV>(
                ArgsV { attach: true, ..a },
            )
        },
{
}

/// What a line starts: what is asked for about the local configuration goes before the list of
/// sessions, the list before attaching, and attaching before serving.
pub proof fn law_started(a: ArgsV)
    ensures
        started(a) is ShowLocalConfig <==> a.show_local_config_resolution,
        a.session_list && !a.show_local_config_resolution ==> (a.json ==> (started(a)
            matches StartV::ListSessions(g) && g.session == Some(a.session) && g.socket
            == a.socket)) && (!a.json ==> (started(a) matches StartV::Pick(g) && g.session == Some(
            a.session,
        ) && g.socket == a.socket)),
        started(a) is Attach <==> a.attach && !a.session_list && !a.show_local_config_resolution,
        started(a) is Serve <==> !a.attach && !a.session_list && !a.show_local_config_resolution,
        a.socket matches Some(path) ==> served_at(a, seq![]) == path,
        a.socket is None ==> forall|usual: Seq<char>| #[trigger] served_at(a, usual) == usual,
{
}

/// The workspace of a name is the first that has it.
pub proof fn law_workspace_named(ws: Seq<Workspace>, name: Seq<char>, from: int)
    requires
        0 <= from <= ws.len(),
    ensures
        named_from(ws, name, from) matches Some(id) ==> exists|i: int|
            from <= i < ws.len() && (#[trigger] ws[i]).name@ == name && ws[i].id == id && forall|
                k: int,
            |
                from <= k < i ==> (#[trigger] ws[k]).name@ != name,
        named_from(ws, name, from) is None ==> forall|k: int|
            from <= k < ws.len() ==> (#[trigger] ws[k]).name@ != name,
    decreases ws.len() - from,
{
    if from < ws.len() {
        law_workspace_named(ws, name, from + 1);
        if ws[from].name@ == name {
            assert(named_from(ws, name, from) == Some(ws[from].id));
            assert(ws[from].name@ == name && forall|k: int|
                from <= k < from ==> (#[trigger] ws[k]).name@ != name);
        } else if named_from(ws, name, from) is Some {
            let id = named_from(ws, name, from)->0;
            let i = choose|i: int|
                from + 1 <= i < ws.len() && (#[trigger] ws[i]).name@ == name && ws[i].id == id
                    && forall|k: int| from + 1 <= k < i ==> (#[trigger] ws[k]).name@ != name;
            assert(ws[i].name@ == name);
        }
    }
}

/// The tool that each word calls, with whatever stands behind it; the list of themes, and help.
pub proof fn law_tools_called(rest: Seq<Seq<char>>, is_plugin: bool, version: Seq<char>)
    ensures
        ({
            let calls = |word: Seq<char>| routed(seq![word] + rest, is_plugin, version);
            &&& calls("antigravity"@) == RouteV::Tool(Tool::Antigravity)
            &&& calls("codex"@) == RouteV::Tool(Tool::Codex)
            &&& calls("pi"@) == RouteV::Tool(Tool::Pi)
            &&& calls("aider"@) == RouteV::Tool(Tool::Aider)
            &&& calls("grok"@) == RouteV::Tool(Tool::Grok)
            &&& calls("opencode"@) == RouteV::Tool(Tool::Opencode)
            &&& calls("agents"@) == RouteV::Tool(Tool::Agents)
            &&& calls("plugin"@) == RouteV::Tool(Tool::Plugin)
            &&& calls("ssh"@) == RouteV::Tool(Tool::Ssh)
            &&& calls("socket-watchdog"@) == RouteV::Tool(Tool::SocketWatchdog)
            &&& calls("help"@) == RouteV::End(success(USAGE@))
            &&& rest.len() > 0 && rest[0] == "list"@ ==> calls("theme"@) is ThemeList
            &&& rest.len() == 0 || rest[0] != "list"@ ==> (calls("theme"@) matches RouteV::End(e)
                && e.code == 2)
        }),
{
    reveal_strlit("antigravity");
    reveal_strlit("codex");
    reveal_strlit("pi");
    reveal_strlit("aider");
    reveal_strlit("grok");
    reveal_strlit("opencode");
    reveal_strlit("agents");
    reveal_strlit("plugin");
    reveal_strlit("ssh");
    reveal_strlit("socket-watchdog");
    reveal_strlit("help");
    reveal_strlit("theme");
    assert("antigravity"@.len() == 11 && "antigravity"@[0] == 'a' && "antigravity"@[1] == 'n');
    assert((seq!["antigravity"@] + rest)[0] == "antigravity"@);
    assert("codex"@.len() == 5 && "codex"@[0] == 'c' && "codex"@[1] == 'o');
    assert((seq!["codex"@] + rest)[0] == "codex"@);
    assert("pi"@.len() == 2 && "pi"@[0] == 'p' && "pi"@[1] == 'i');
    assert((seq!["pi"@] + rest)[0] == "pi"@);
    assert("aider"@.len() == 5 && "aider"@[0] == 'a' && "aider"@[1] == 'i');
    assert((seq!["aider"@] + rest)[0] == "aider"@);
    assert("grok"@.len() == 4 && "grok"@[0] == 'g' && "grok"@[1] == 'r');
    assert((seq!["grok"@] + rest)[0] == "grok"@);
    assert("opencode"@.len() == 8 && "opencode"@[0] == 'o' && "opencode"@[1] == 'p');
    assert((seq!["opencode"@] + rest)[0] == "opencode"@);
    assert("agents"@.len() == 6 && "agents"@[0] == 'a' && "agents"@[1] == 'g');
    assert((seq!["agents"@] + rest)[0] == "agents"@);
    assert("plugin"@.len() == 6 && "plugin"@[0] == 'p' && "plugin"@[1] == 'l');
    assert((seq!["plugin"@] + rest)[0] == "plugin"@);
    assert("ssh"@.len() == 3 && "ssh"@[0] == 's' && "ssh"@[1] == 's');
    assert((seq!["ssh"@] + rest)[0] == "ssh"@);
    assert("socket-watchdog"@.len() == 15 && "socket-watchdog"@[0] == 's' && "socket-watchdog"@[1] == 'o');
    assert((seq!["socket-watchdog"@] + rest)[0] == "socket-watchdog"@);
    assert("help"@.len() == 4 && "help"@[0] == 'h' && "help"@[1] == 'e');
    assert((seq!["help"@] + rest)[0] == "help"@);
    assert("theme"@.len() == 5 && "theme"@[0] == 't' && "theme"@[1] == 'h');
    assert((seq!["theme"@] + rest)[0] == "theme"@);
    let themed = seq!["theme"@] + rest;
    assert(rest.len() > 0 ==> themed[1] == rest[0]);
}

/// A name and a colour behind `workspace-color` become the flags of the verb; with any other number
/// of words the line is refused.
pub proof fn law_color_line(args: Seq<Seq<char>>, i: int, name: Seq<char>, color: Seq<char>)
    requires
        0 <= i < args.len(),
    ensures
        args.skip(i + 1) == seq![name, color] ==> (color_line(args, i) matches RouteV::Cli(line)
            && line == args.take(i) + seq!["workspace-color"@, "--name"@, name, "--color"@, color]),
        args.len() != i + 3 ==> (color_line(args, i) matches RouteV::End(e) && e.code == 2),
{
    if args.skip(i + 1) == seq![name, color] {
        assert(args.skip(i + 1).len() == 2);
        assert(args.skip(i + 1)[0] == args[i + 1] && args.skip(i + 1)[1] == args[i + 2]);
    }
}

/// The socket that a plugin is given: the one that the environment names, else the first that the
/// line names, else the usual one below the home directory.
pub proof fn law_plugin_socket(
    variable: Option<Seq<char>>,
    front: Seq<Seq<char>>,
    path: Seq<char>,
    rest: Seq<Seq<char>>,
    home: Seq<char>,
)
    requires
        forall|k: int| 0 <= k < front.len() ==> #[trigger] front[k] != "--socket"@,
        home.len() > 0,
    ensures
        variable matches Some(p) ==> plugin_socket_of(variable, front, Some(home)) == p,
        plugin_socket_of(None, front + seq!["--socket"@, path] + rest, Some(home)) == path,
        plugin_socket_of(None, front, Some(home)) == path_joined(
            home,
            ".local/share/cmux/cmux-main.sock"@,
        ),
        plugin_socket_of(None, front, None) == "/tmp/cmux-main.sock"@,
{
    lemma_socket_named(front, front + seq!["--socket"@, path] + rest, path, 0);
    lemma_no_socket(front, 0);
}

proof fn lemma_socket_named(
    front: Seq<Seq<char>>,
    args: Seq<Seq<char>>,
    path: Seq<char>,
    i: int,
)
    requires
        0 <= i <= front.len(),
        args.len() >= front.len() + 2,
        args[front.len() as int] == "--socket"@,
        args[front.len() as int + 1] == path,
        forall|k: int| 0 <= k < front.len() ==> #[trigger] front[k] != "--socket"@ && args[k]
            == front[k],
    ensures
        socket_flag(args, i) == Some(path),
    decreases front.len() - i,
{
    if i < front.len() {
        assert(front[i] != "--socket"@);
        lemma_socket_named(front, args, path, i + 1);
    }
}

proof fn lemma_no_socket(args: Seq<Seq<char>>, i: int)
    requires
        0 <= i,
        forall|k: int| 0 <= k < args.len() ==> #[trigger] args[k] != "--socket"@,
    ensures
        socket_flag(args, i) is None,
    decreases args.len() - i,
{
    if i + 1 < args.len() {
        assert(args[i] != "--socket"@);
        lemma_no_socket(args, i + 1);
    }
}

} // verus!
