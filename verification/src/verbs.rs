//! The verbs of the control socket: their names, their flags, and which of them keep listening.

use vstd::prelude::*;

use crate::text::same;

verus! {

/// A verb of the command line.
#[derive(Clone, Copy, Debug, PartialEq, Eq, Structural)]
pub enum Verb {
    Identify,
    ListWorkspaces,
    GetResolvedConfig,
    Send,
    ReadScreen,
    VtState,
    NewTab,
    NewBrowserTab,
    NewWorkspace,
    NewScreen,
    Split,
    SetRatio,
    SetDefaultColors,
    CloseSurface,
    ClosePane,
    CloseScreen,
    CloseWorkspace,
    RenamePane,
    RenameSurface,
    RenameScreen,
    RenameWorkspace,
    SetWorkspaceColor,
    SetStatus,
    WorkspaceColor,
    TriggerFlash,
    ResizeSurface,
    FocusPane,
    SelectTab,
    SelectScreen,
    SelectWorkspace,
    MoveTab,
    MoveWorkspace,
    ScrollSurface,
    Subscribe,
    AttachSurface,
    ReportAgent,
    ListAgents,
    PaneWorktreeCreate,
    PaneWorktreeList,
    PaneWorktreeRemove,
    DetectAgent,
    DetectAgents,
    AgentPatternAdd,
    AgentPatternList,
    AgentPatternRemove,
    AgentRead,
    BrowserReload,
    ListSessions,
    KillSession,
    KillStale,
    RenameSession,
    LayoutExport,
    LayoutApply,
    LayoutExportAll,
}

/// The name under which a verb is called, and under which the socket knows it.
pub open spec fn verb_name(v: Verb) -> Seq<char> {
    match v {
        Verb::Identify => "identify"@,
        Verb::ListWorkspaces => "list-workspaces"@,
        Verb::GetResolvedConfig => "get-resolved-config"@,
        Verb::Send => "send"@,
        Verb::ReadScreen => "read-screen"@,
        Verb::VtState => "vt-state"@,
        Verb::NewTab => "new-tab"@,
        Verb::NewBrowserTab => "new-browser-tab"@,
        Verb::NewWorkspace => "new-workspace"@,
        Verb::NewScreen => "new-screen"@,
        Verb::Split => "split"@,
        Verb::SetRatio => "set-ratio"@,
        Verb::SetDefaultColors => "set-default-colors"@,
        Verb::CloseSurface => "close-surface"@,
        Verb::ClosePane => "close-pane"@,
        Verb::CloseScreen => "close-screen"@,
        Verb::CloseWorkspace => "close-workspace"@,
        Verb::RenamePane => "rename-pane"@,
        Verb::RenameSurface => "rename-surface"@,
        Verb::RenameScreen => "rename-screen"@,
        Verb::RenameWorkspace => "rename-workspace"@,
        Verb::SetWorkspaceColor => "set-workspace-color"@,
        Verb::SetStatus => "set-status"@,
        Verb::WorkspaceColor => "workspace-color"@,
        Verb::TriggerFlash => "trigger-flash"@,
        Verb::ResizeSurface => "resize-surface"@,
        Verb::FocusPane => "focus-pane"@,
        Verb::SelectTab => "select-tab"@,
        Verb::SelectScreen => "select-screen"@,
        Verb::SelectWorkspace => "select-workspace"@,
        Verb::MoveTab => "move-tab"@,
        Verb::MoveWorkspace => "move-workspace"@,
        Verb::ScrollSurface => "scroll-surface"@,
        Verb::Subscribe => "subscribe"@,
        Verb::AttachSurface => "attach-surface"@,
        Verb::ReportAgent => "report-agent"@,
        Verb::ListAgents => "list-agents"@,
        Verb::PaneWorktreeCreate => "pane-worktree-create"@,
        Verb::PaneWorktreeList => "pane-worktree-list"@,
        Verb::PaneWorktreeRemove => "pane-worktree-remove"@,
        Verb::DetectAgent => "detect-agent"@,
        Verb::DetectAgents => "detect-agents"@,
        Verb::AgentPatternAdd => "agent-pattern-add"@,
        Verb::AgentPatternList => "agent-pattern-list"@,
        Verb::AgentPatternRemove => "agent-pattern-remove"@,
        Verb::AgentRead => "agent-read"@,
        Verb::BrowserReload => "browser-reload"@,
        Verb::ListSessions => "list-sessions"@,
        Verb::KillSession => "kill-session"@,
        Verb::KillStale => "kill-stale"@,
        Verb::RenameSession => "rename-session"@,
        Verb::LayoutExport => "layout-export"@,
        Verb::LayoutApply => "layout-apply"@,
        Verb::LayoutExportAll => "layout-export-all"@,
    }
}

/// The verb of that name.
pub open spec fn verb_of(name: Seq<char>) -> Option<Verb> {
    if exists|v: Verb| verb_name(v) == name {
        Some(choose|v: Verb| verb_name(v) == name)
    } else {
        None
    }
}

/// The flags that a verb takes.
pub open spec fn verb_allows(v: Verb, flag: Seq<char>) -> bool {
    match v {
        Verb::Identify | Verb::ListWorkspaces | Verb::GetResolvedConfig
        | Verb::Subscribe | Verb::DetectAgents | Verb::AgentPatternList
        | Verb::ListSessions | Verb::KillStale => false,
        Verb::Send => {
            ||| flag == "surface"@
            ||| flag == "text"@
            ||| flag == "bytes"@
            ||| flag == "send-cr"@
            ||| flag == "shell"@
        },
        Verb::ReadScreen | Verb::VtState | Verb::CloseSurface | Verb::AttachSurface
        | Verb::DetectAgent | Verb::BrowserReload => flag == "surface"@,
        Verb::NewTab => {
            ||| flag == "pane"@
            ||| flag == "cwd"@
            ||| flag == "cols"@
            ||| flag == "rows"@
            ||| flag == "branch"@
            ||| flag == "label"@
            ||| flag == "prompt-file"@
            ||| flag == "exec"@
            ||| flag == "env"@
        },
        Verb::NewBrowserTab => {
            ||| flag == "url"@
            ||| flag == "pane"@
            ||| flag == "cols"@
            ||| flag == "rows"@
        },
        Verb::NewWorkspace => {
            ||| flag == "name"@
            ||| flag == "cols"@
            ||| flag == "rows"@
        },
        Verb::NewScreen => {
            ||| flag == "workspace"@
            ||| flag == "cols"@
            ||| flag == "rows"@
        },
        Verb::Split => {
            ||| flag == "pane"@
            ||| flag == "dir"@
            ||| flag == "cols"@
            ||| flag == "rows"@
            ||| flag == "branch"@
            ||| flag == "label"@
            ||| flag == "exec"@
            ||| flag == "env"@
        },
        Verb::SetRatio => {
            ||| flag == "pane"@
            ||| flag == "dir"@
            ||| flag == "ratio"@
        },
        Verb::SetDefaultColors => flag == "fg"@ || flag == "bg"@,
        Verb::ClosePane | Verb::FocusPane | Verb::PaneWorktreeList => flag == "pane"@,
        Verb::CloseScreen => flag == "screen"@,
        Verb::CloseWorkspace => flag == "workspace"@,
        Verb::RenamePane => flag == "pane"@ || flag == "name"@,
        Verb::RenameSurface => flag == "surface"@ || flag == "name"@,
        Verb::RenameScreen => flag == "screen"@ || flag == "name"@,
        Verb::RenameWorkspace => flag == "workspace"@ || flag == "name"@,
        Verb::SetWorkspaceColor => {
            ||| flag == "workspace"@
            ||| flag == "color"@
            ||| flag == "colour"@
        },
        Verb::SetStatus => flag == "icon"@ || flag == "workspace"@,
        Verb::WorkspaceColor => flag == "name"@ || flag == "color"@,
        Verb::TriggerFlash => flag == "workspace"@ || flag == "surface"@,
        Verb::ResizeSurface => {
            ||| flag == "surface"@
            ||| flag == "cols"@
            ||| flag == "rows"@
        },
        Verb::SelectTab => {
            ||| flag == "pane"@
            ||| flag == "index"@
            ||| flag == "delta"@
        },
        Verb::SelectScreen | Verb::SelectWorkspace => flag == "index"@ || flag == "delta"@,
        Verb::MoveTab => {
            ||| flag == "surface"@
            ||| flag == "pane"@
            ||| flag == "index"@
        },
        Verb::MoveWorkspace => flag == "workspace"@ || flag == "index"@,
        Verb::ScrollSurface => flag == "surface"@ || flag == "delta"@,
        Verb::ReportAgent => {
            ||| flag == "surface"@
            ||| flag == "state"@
            ||| flag == "source"@
            ||| flag == "agent-session"@
            ||| flag == "agent"@
            ||| flag == "message"@
        },
        Verb::ListAgents => flag == "surface"@ || flag == "state"@,
        Verb::PaneWorktreeCreate => {
            ||| flag == "pane"@
            ||| flag == "branch"@
            ||| flag == "label"@
        },
        Verb::PaneWorktreeRemove => flag == "pane"@ || flag == "branch"@,
        Verb::AgentPatternAdd => {
            ||| flag == "name"@
            ||| flag == "pattern"@
            ||| flag == "kind"@
            ||| flag == "confidence"@
            ||| flag == "case-insensitive"@
        },
        Verb::AgentPatternRemove => flag == "name"@,
        Verb::AgentRead => {
            ||| flag == "target"@
            ||| flag == "source"@
            ||| flag == "lines"@
        },
        Verb::KillSession => flag == "session"@,
        Verb::RenameSession => flag == "old"@ || flag == "new"@,
        Verb::LayoutExport => flag == "workspace"@ || flag == "output"@,
        Verb::LayoutApply => flag == "input"@ || flag == "workspace"@,
        Verb::LayoutExportAll => flag == "output-dir"@,
    }
}

/// The flags that need no value behind them.
pub open spec fn verb_switch(v: Verb, flag: Seq<char>) -> bool {
    match v {
        Verb::Send => flag == "send-cr"@,
        Verb::AgentPatternAdd => flag == "case-insensitive"@,
        _ => false,
    }
}

/// Whether the socket keeps sending after its first answer.
pub open spec fn verb_streams(v: Verb) -> bool {
    v == Verb::Subscribe || v == Verb::AttachSurface
}

/// No two verbs share a name.
pub proof fn law_verb_names_distinct(a: Verb, b: Verb)
    requires
        verb_name(a) == verb_name(b),
    ensures
        a == b,
{
    reveal_strlit("identify");
    reveal_strlit("list-workspaces");
    reveal_strlit("get-resolved-config");
    reveal_strlit("send");
    reveal_strlit("read-screen");
    reveal_strlit("vt-state");
    reveal_strlit("new-tab");
    reveal_strlit("new-browser-tab");
    reveal_strlit("new-workspace");
    reveal_strlit("new-screen");
    reveal_strlit("split");
    reveal_strlit("set-ratio");
    reveal_strlit("set-default-colors");
    reveal_strlit("close-surface");
    reveal_strlit("close-pane");
    reveal_strlit("close-screen");
    reveal_strlit("close-workspace");
    reveal_strlit("rename-pane");
    reveal_strlit("rename-surface");
    reveal_strlit("rename-screen");
    reveal_strlit("rename-workspace");
    reveal_strlit("set-workspace-color");
    reveal_strlit("set-status");
    reveal_strlit("workspace-color");
    reveal_strlit("trigger-flash");
    reveal_strlit("resize-surface");
    reveal_strlit("focus-pane");
    reveal_strlit("select-tab");
    reveal_strlit("select-screen");
    reveal_strlit("select-workspace");
    reveal_strlit("move-tab");
    reveal_strlit("move-workspace");
    reveal_strlit("scroll-surface");
    reveal_strlit("subscribe");
    reveal_strlit("attach-surface");
    reveal_strlit("report-agent");
    reveal_strlit("list-agents");
    reveal_strlit("pane-worktree-create");
    reveal_strlit("pane-worktree-list");
    reveal_strlit("pane-worktree-remove");
    reveal_strlit("detect-agent");
    reveal_strlit("detect-agents");
    reveal_strlit("agent-pattern-add");
    reveal_strlit("agent-pattern-list");
    reveal_strlit("agent-pattern-remove");
    reveal_strlit("agent-read");
    reveal_strlit("browser-reload");
    reveal_strlit("list-sessions");
    reveal_strlit("kill-session");
    reveal_strlit("kill-stale");
    reveal_strlit("rename-session");
    reveal_strlit("layout-export");
    reveal_strlit("layout-apply");
    reveal_strlit("layout-export-all");
    assert("identify"@.len() == 8 && "identify"@[0] == 'i');
    assert("list-workspaces"@.len() == 15 && "list-workspaces"@[0] == 'l');
    assert("get-resolved-config"@.len() == 19 && "get-resolved-config"@[0] == 'g');
    assert("send"@.len() == 4);
    assert("read-screen"@.len() == 11 && "read-screen"@[2] == 'a');
    assert("vt-state"@.len() == 8 && "vt-state"@[0] == 'v');
    assert("new-tab"@.len() == 7);
    assert("new-browser-tab"@.len() == 15 && "new-browser-tab"@[0] == 'n');
    assert("new-workspace"@.len() == 13 && "new-workspace"@[2] == 'w');
    assert("new-screen"@.len() == 10 && "new-screen"@[0] == 'n' && "new-screen"@[2] == 'w');
    assert("split"@.len() == 5);
    assert("set-ratio"@.len() == 9 && "set-ratio"@[1] == 'e');
    assert("set-default-colors"@.len() == 18 && "set-default-colors"@[0] == 's');
    assert("close-surface"@.len() == 13 && "close-surface"@[2] == 'o');
    assert("close-pane"@.len() == 10 && "close-pane"@[0] == 'c' && "close-pane"@[2] == 'o');
    assert("close-screen"@.len() == 12 && "close-screen"@[0] == 'c');
    assert("close-workspace"@.len() == 15 && "close-workspace"@[0] == 'c');
    assert("rename-pane"@.len() == 11 && "rename-pane"@[2] == 'n');
    assert("rename-surface"@.len() == 14 && "rename-surface"@[2] == 'n' && "rename-surface"@[8] == 'u');
    assert("rename-screen"@.len() == 13 && "rename-screen"@[2] == 'n');
    assert("rename-workspace"@.len() == 16 && "rename-workspace"@[0] == 'r');
    assert("set-workspace-color"@.len() == 19 && "set-workspace-color"@[0] == 's');
    assert("set-status"@.len() == 10 && "set-status"@[0] == 's' && "set-status"@[2] == 't');
    assert("workspace-color"@.len() == 15 && "workspace-color"@[0] == 'w');
    assert("trigger-flash"@.len() == 13 && "trigger-flash"@[2] == 'i');
    assert("resize-surface"@.len() == 14 && "resize-surface"@[2] == 's' && "resize-surface"@[8] == 'u');
    assert("focus-pane"@.len() == 10 && "focus-pane"@[0] == 'f' && "focus-pane"@[2] == 'c');
    assert("select-tab"@.len() == 10 && "select-tab"@[0] == 's' && "select-tab"@[2] == 'l');
    assert("select-screen"@.len() == 13 && "select-screen"@[2] == 'l');
    assert("select-workspace"@.len() == 16 && "select-workspace"@[0] == 's');
    assert("move-tab"@.len() == 8 && "move-tab"@[0] == 'm');
    assert("move-workspace"@.len() == 14 && "move-workspace"@[2] == 'v' && "move-workspace"@[8] == 'k');
    assert("scroll-surface"@.len() == 14 && "scroll-surface"@[2] == 'r' && "scroll-surface"@[8] == 'u');
    assert("subscribe"@.len() == 9 && "subscribe"@[1] == 'u');
    assert("attach-surface"@.len() == 14 && "attach-surface"@[2] == 't' && "attach-surface"@[8] == 'u');
    assert("report-agent"@.len() == 12 && "report-agent"@[0] == 'r');
    assert("list-agents"@.len() == 11 && "list-agents"@[2] == 's');
    assert("pane-worktree-create"@.len() == 20 && "pane-worktree-create"@[0] == 'p' && "pane-worktree-create"@[14] == 'c');
    assert("pane-worktree-list"@.len() == 18 && "pane-worktree-list"@[0] == 'p');
    assert("pane-worktree-remove"@.len() == 20 && "pane-worktree-remove"@[0] == 'p' && "pane-worktree-remove"@[14] == 'r');
    assert("detect-agent"@.len() == 12 && "detect-agent"@[0] == 'd');
    assert("detect-agents"@.len() == 13 && "detect-agents"@[2] == 't');
    assert("agent-pattern-add"@.len() == 17 && "agent-pattern-add"@[0] == 'a');
    assert("agent-pattern-list"@.len() == 18 && "agent-pattern-list"@[0] == 'a');
    assert("agent-pattern-remove"@.len() == 20 && "agent-pattern-remove"@[0] == 'a' && "agent-pattern-remove"@[14] == 'r');
    assert("agent-read"@.len() == 10 && "agent-read"@[0] == 'a' && "agent-read"@[2] == 'e');
    assert("browser-reload"@.len() == 14 && "browser-reload"@[2] == 'o' && "browser-reload"@[8] == 'r');
    assert("list-sessions"@.len() == 13 && "list-sessions"@[2] == 's');
    assert("kill-session"@.len() == 12 && "kill-session"@[0] == 'k');
    assert("kill-stale"@.len() == 10 && "kill-stale"@[0] == 'k' && "kill-stale"@[2] == 'l');
    assert("rename-session"@.len() == 14 && "rename-session"@[2] == 'n' && "rename-session"@[8] == 'e');
    assert("layout-export"@.len() == 13 && "layout-export"@[2] == 'y');
    assert("layout-apply"@.len() == 12 && "layout-apply"@[0] == 'l');
    assert("layout-export-all"@.len() == 17 && "layout-export-all"@[0] == 'l');
}

/// A verb is found under its own name.
pub proof fn law_verb_of_name(v: Verb)
    ensures
        verb_of(verb_name(v)) == Some(v),
{
    let found = choose|u: Verb| verb_name(u) == verb_name(v);
    law_verb_names_distinct(found, v);
}

impl Verb {
    pub fn name(self) -> (r: &'static str)
        ensures
            r@ == verb_name(self),
    {
        match self {
            Verb::Identify => "identify",
            Verb::ListWorkspaces => "list-workspaces",
            Verb::GetResolvedConfig => "get-resolved-config",
            Verb::Send => "send",
            Verb::ReadScreen => "read-screen",
            Verb::VtState => "vt-state",
            Verb::NewTab => "new-tab",
            Verb::NewBrowserTab => "new-browser-tab",
            Verb::NewWorkspace => "new-workspace",
            Verb::NewScreen => "new-screen",
            Verb::Split => "split",
            Verb::SetRatio => "set-ratio",
            Verb::SetDefaultColors => "set-default-colors",
            Verb::CloseSurface => "close-surface",
            Verb::ClosePane => "close-pane",
            Verb::CloseScreen => "close-screen",
            Verb::CloseWorkspace => "close-workspace",
            Verb::RenamePane => "rename-pane",
            Verb::RenameSurface => "rename-surface",
            Verb::RenameScreen => "rename-screen",
            Verb::RenameWorkspace => "rename-workspace",
            Verb::SetWorkspaceColor => "set-workspace-color",
            Verb::SetStatus => "set-status",
            Verb::WorkspaceColor => "workspace-color",
            Verb::TriggerFlash => "trigger-flash",
            Verb::ResizeSurface => "resize-surface",
            Verb::FocusPane => "focus-pane",
            Verb::SelectTab => "select-tab",
            Verb::SelectScreen => "select-screen",
            Verb::SelectWorkspace => "select-workspace",
            Verb::MoveTab => "move-tab",
            Verb::MoveWorkspace => "move-workspace",
            Verb::ScrollSurface => "scroll-surface",
            Verb::Subscribe => "subscribe",
            Verb::AttachSurface => "attach-surface",
            Verb::ReportAgent => "report-agent",
            Verb::ListAgents => "list-agents",
            Verb::PaneWorktreeCreate => "pane-worktree-create",
            Verb::PaneWorktreeList => "pane-worktree-list",
            Verb::PaneWorktreeRemove => "pane-worktree-remove",
            Verb::DetectAgent => "detect-agent",
            Verb::DetectAgents => "detect-agents",
            Verb::AgentPatternAdd => "agent-pattern-add",
            Verb::AgentPatternList => "agent-pattern-list",
            Verb::AgentPatternRemove => "agent-pattern-remove",
            Verb::AgentRead => "agent-read",
            Verb::BrowserReload => "browser-reload",
            Verb::ListSessions => "list-sessions",
            Verb::KillSession => "kill-session",
            Verb::KillStale => "kill-stale",
            Verb::RenameSession => "rename-session",
            Verb::LayoutExport => "layout-export",
            Verb::LayoutApply => "layout-apply",
            Verb::LayoutExportAll => "layout-export-all",
        }
    }

    pub fn allows(self, flag: &str) -> (r: bool)
        ensures
            r == verb_allows(self, flag@),
    {
        match self {
            Verb::Identify | Verb::ListWorkspaces | Verb::GetResolvedConfig
            | Verb::Subscribe | Verb::DetectAgents | Verb::AgentPatternList
            | Verb::ListSessions | Verb::KillStale => false,
            Verb::Send => {
                same(flag, "surface") || same(flag, "text") || same(flag, "bytes")
                    || same(flag, "send-cr") || same(flag, "shell")
            },
            Verb::ReadScreen | Verb::VtState | Verb::CloseSurface | Verb::AttachSurface
            | Verb::DetectAgent | Verb::BrowserReload => same(flag, "surface"),
            Verb::NewTab => {
                same(flag, "pane") || same(flag, "cwd") || same(flag, "cols")
                    || same(flag, "rows") || same(flag, "branch") || same(flag, "label")
                    || same(flag, "prompt-file") || same(flag, "exec") || same(flag, "env")
            },
            Verb::NewBrowserTab => {
                same(flag, "url") || same(flag, "pane") || same(flag, "cols")
                    || same(flag, "rows")
            },
            Verb::NewWorkspace => {
                same(flag, "name") || same(flag, "cols") || same(flag, "rows")
            },
            Verb::NewScreen => {
                same(flag, "workspace") || same(flag, "cols") || same(flag, "rows")
            },
            Verb::Split => {
                same(flag, "pane") || same(flag, "dir") || same(flag, "cols")
                    || same(flag, "rows") || same(flag, "branch") || same(flag, "label")
                    || same(flag, "exec") || same(flag, "env")
            },
            Verb::SetRatio => {
                same(flag, "pane") || same(flag, "dir") || same(flag, "ratio")
            },
            Verb::SetDefaultColors => same(flag, "fg") || same(flag, "bg"),
            Verb::ClosePane | Verb::FocusPane | Verb::PaneWorktreeList => same(flag, "pane"),
            Verb::CloseScreen => same(flag, "screen"),
            Verb::CloseWorkspace => same(flag, "workspace"),
            Verb::RenamePane => same(flag, "pane") || same(flag, "name"),
            Verb::RenameSurface => same(flag, "surface") || same(flag, "name"),
            Verb::RenameScreen => same(flag, "screen") || same(flag, "name"),
            Verb::RenameWorkspace => same(flag, "workspace") || same(flag, "name"),
            Verb::SetWorkspaceColor => {
                same(flag, "workspace") || same(flag, "color") || same(flag, "colour")
            },
            Verb::SetStatus => same(flag, "icon") || same(flag, "workspace"),
            Verb::WorkspaceColor => same(flag, "name") || same(flag, "color"),
            Verb::TriggerFlash => same(flag, "workspace") || same(flag, "surface"),
            Verb::ResizeSurface => {
                same(flag, "surface") || same(flag, "cols") || same(flag, "rows")
            },
            Verb::SelectTab => {
                same(flag, "pane") || same(flag, "index") || same(flag, "delta")
            },
            Verb::SelectScreen | Verb::SelectWorkspace => same(flag, "index") || same(flag, "delta"),
            Verb::MoveTab => {
                same(flag, "surface") || same(flag, "pane") || same(flag, "index")
            },
            Verb::MoveWorkspace => same(flag, "workspace") || same(flag, "index"),
            Verb::ScrollSurface => same(flag, "surface") || same(flag, "delta"),
            Verb::ReportAgent => {
                same(flag, "surface") || same(flag, "state") || same(flag, "source")
                    || same(flag, "agent-session") || same(flag, "agent")
                    || same(flag, "message")
            },
            Verb::ListAgents => same(flag, "surface") || same(flag, "state"),
            Verb::PaneWorktreeCreate => {
                same(flag, "pane") || same(flag, "branch") || same(flag, "label")
            },
            Verb::PaneWorktreeRemove => same(flag, "pane") || same(flag, "branch"),
            Verb::AgentPatternAdd => {
                same(flag, "name") || same(flag, "pattern") || same(flag, "kind")
                    || same(flag, "confidence") || same(flag, "case-insensitive")
            },
            Verb::AgentPatternRemove => same(flag, "name"),
            Verb::AgentRead => {
                same(flag, "target") || same(flag, "source") || same(flag, "lines")
            },
            Verb::KillSession => same(flag, "session"),
            Verb::RenameSession => same(flag, "old") || same(flag, "new"),
            Verb::LayoutExport => same(flag, "workspace") || same(flag, "output"),
            Verb::LayoutApply => same(flag, "input") || same(flag, "workspace"),
            Verb::LayoutExportAll => same(flag, "output-dir"),
        }
    }

    pub fn is_switch(self, flag: &str) -> (r: bool)
        ensures
            r == verb_switch(self, flag@),
    {
        match self {
            Verb::Send => same(flag, "send-cr"),
            Verb::AgentPatternAdd => same(flag, "case-insensitive"),
            _ => false,
        }
    }

    pub fn streams(self) -> (r: bool)
        ensures
            r == verb_streams(self),
    {
        self == Verb::Subscribe || self == Verb::AttachSurface
    }
}

/// Every verb, in the order in which they are looked up.
fn all_verbs() -> (r: Vec<Verb>)
    ensures
        forall|v: Verb| r@.contains(v),
{
    let r: Vec<Verb> = vec![
        Verb::Identify,
        Verb::ListWorkspaces,
        Verb::GetResolvedConfig,
        Verb::Send,
        Verb::ReadScreen,
        Verb::VtState,
        Verb::NewTab,
        Verb::NewBrowserTab,
        Verb::NewWorkspace,
        Verb::NewScreen,
        Verb::Split,
        Verb::SetRatio,
        Verb::SetDefaultColors,
        Verb::CloseSurface,
        Verb::ClosePane,
        Verb::CloseScreen,
        Verb::CloseWorkspace,
        Verb::RenamePane,
        Verb::RenameSurface,
        Verb::RenameScreen,
        Verb::RenameWorkspace,
        Verb::SetWorkspaceColor,
        Verb::SetStatus,
        Verb::WorkspaceColor,
        Verb::TriggerFlash,
        Verb::ResizeSurface,
        Verb::FocusPane,
        Verb::SelectTab,
        Verb::SelectScreen,
        Verb::SelectWorkspace,
        Verb::MoveTab,
        Verb::MoveWorkspace,
        Verb::ScrollSurface,
        Verb::Subscribe,
        Verb::AttachSurface,
        Verb::ReportAgent,
        Verb::ListAgents,
        Verb::PaneWorktreeCreate,
        Verb::PaneWorktreeList,
        Verb::PaneWorktreeRemove,
        Verb::DetectAgent,
        Verb::DetectAgents,
        Verb::AgentPatternAdd,
        Verb::AgentPatternList,
        Verb::AgentPatternRemove,
        Verb::AgentRead,
        Verb::BrowserReload,
        Verb::ListSessions,
        Verb::KillSession,
        Verb::KillStale,
        Verb::RenameSession,
        Verb::LayoutExport,
        Verb::LayoutApply,
        Verb::LayoutExportAll,
    ];
    proof {
        assert forall|v: Verb| r@.contains(v) by {
            match v {
                Verb::Identify => assert(r@[0] == v),
                Verb::ListWorkspaces => assert(r@[1] == v),
                Verb::GetResolvedConfig => assert(r@[2] == v),
                Verb::Send => assert(r@[3] == v),
                Verb::ReadScreen => assert(r@[4] == v),
                Verb::VtState => assert(r@[5] == v),
                Verb::NewTab => assert(r@[6] == v),
                Verb::NewBrowserTab => assert(r@[7] == v),
                Verb::NewWorkspace => assert(r@[8] == v),
                Verb::NewScreen => assert(r@[9] == v),
                Verb::Split => assert(r@[10] == v),
                Verb::SetRatio => assert(r@[11] == v),
                Verb::SetDefaultColors => assert(r@[12] == v),
                Verb::CloseSurface => assert(r@[13] == v),
                Verb::ClosePane => assert(r@[14] == v),
                Verb::CloseScreen => assert(r@[15] == v),
                Verb::CloseWorkspace => assert(r@[16] == v),
                Verb::RenamePane => assert(r@[17] == v),
                Verb::RenameSurface => assert(r@[18] == v),
                Verb::RenameScreen => assert(r@[19] == v),
                Verb::RenameWorkspace => assert(r@[20] == v),
                Verb::SetWorkspaceColor => assert(r@[21] == v),
                Verb::SetStatus => assert(r@[22] == v),
                Verb::WorkspaceColor => assert(r@[23] == v),
                Verb::TriggerFlash => assert(r@[24] == v),
                Verb::ResizeSurface => assert(r@[25] == v),
                Verb::FocusPane => assert(r@[26] == v),
                Verb::SelectTab => assert(r@[27] == v),
                Verb::SelectScreen => assert(r@[28] == v),
                Verb::SelectWorkspace => assert(r@[29] == v),
                Verb::MoveTab => assert(r@[30] == v),
                Verb::MoveWorkspace => assert(r@[31] == v),
                Verb::ScrollSurface => assert(r@[32] == v),
                Verb::Subscribe => assert(r@[33] == v),
                Verb::AttachSurface => assert(r@[34] == v),
                Verb::ReportAgent => assert(r@[35] == v),
                Verb::ListAgents => assert(r@[36] == v),
                Verb::PaneWorktreeCreate => assert(r@[37] == v),
                Verb::PaneWorktreeList => assert(r@[38] == v),
                Verb::PaneWorktreeRemove => assert(r@[39] == v),
                Verb::DetectAgent => assert(r@[40] == v),
                Verb::DetectAgents => assert(r@[41] == v),
                Verb::AgentPatternAdd => assert(r@[42] == v),
                Verb::AgentPatternList => assert(r@[43] == v),
                Verb::AgentPatternRemove => assert(r@[44] == v),
                Verb::AgentRead => assert(r@[45] == v),
                Verb::BrowserReload => assert(r@[46] == v),
                Verb::ListSessions => assert(r@[47] == v),
                Verb::KillSession => assert(r@[48] == v),
                Verb::KillStale => assert(r@[49] == v),
                Verb::RenameSession => assert(r@[50] == v),
                Verb::LayoutExport => assert(r@[51] == v),
                Verb::LayoutApply => assert(r@[52] == v),
                Verb::LayoutExportAll => assert(r@[53] == v),
            }
        }
    }
    r
}

pub fn verb_by_name(name: &str) -> (r: Option<Verb>)
    ensures
        r == verb_of(name@),
{
    let verbs: Vec<Verb> = all_verbs();
    let mut i: usize = 0;
    while i < verbs.len()
        invariant
            i <= verbs.len(),
            forall|k: int| 0 <= k < i ==> verb_name(#[trigger] verbs@[k]) != name@,
        decreases verbs.len() - i,
    {
        if same(verbs[i].name(), name) {
            proof {
                law_verb_of_name(verbs@[i as int]);
            }
            return Some(verbs[i]);
        }
        i = i + 1;
    }
    proof {
        assert forall|v: Verb| verb_name(v) != name@ by {
            assert(verbs@.contains(v));
        }
    }
    None
}

/// No verb starts with a dash.
pub proof fn lemma_verb_plain(v: Verb)
    ensures
        !"--"@.is_prefix_of(verb_name(v)),
{
    reveal_strlit("--");
    assert("--"@.len() == 2);
    assert("--"@[0] == '-');
    match v {
        Verb::Identify => {
            reveal_strlit("identify");
            assert("identify"@[0] == 'i');
        },
        Verb::ListWorkspaces => {
            reveal_strlit("list-workspaces");
            assert("list-workspaces"@[0] == 'l');
        },
        Verb::GetResolvedConfig => {
            reveal_strlit("get-resolved-config");
            assert("get-resolved-config"@[0] == 'g');
        },
        Verb::Send => {
            reveal_strlit("send");
            assert("send"@[0] == 's');
        },
        Verb::ReadScreen => {
            reveal_strlit("read-screen");
            assert("read-screen"@[0] == 'r');
        },
        Verb::VtState => {
            reveal_strlit("vt-state");
            assert("vt-state"@[0] == 'v');
        },
        Verb::NewTab => {
            reveal_strlit("new-tab");
            assert("new-tab"@[0] == 'n');
        },
        Verb::NewBrowserTab => {
            reveal_strlit("new-browser-tab");
            assert("new-browser-tab"@[0] == 'n');
        },
        Verb::NewWorkspace => {
            reveal_strlit("new-workspace");
            assert("new-workspace"@[0] == 'n');
        },
        Verb::NewScreen => {
            reveal_strlit("new-screen");
            assert("new-screen"@[0] == 'n');
        },
        Verb::Split => {
            reveal_strlit("split");
            assert("split"@[0] == 's');
        },
        Verb::SetRatio => {
            reveal_strlit("set-ratio");
            assert("set-ratio"@[0] == 's');
        },
        Verb::SetDefaultColors => {
            reveal_strlit("set-default-colors");
            assert("set-default-colors"@[0] == 's');
        },
        Verb::CloseSurface => {
            reveal_strlit("close-surface");
            assert("close-surface"@[0] == 'c');
        },
        Verb::ClosePane => {
            reveal_strlit("close-pane");
            assert("close-pane"@[0] == 'c');
        },
        Verb::CloseScreen => {
            reveal_strlit("close-screen");
            assert("close-screen"@[0] == 'c');
        },
        Verb::CloseWorkspace => {
            reveal_strlit("close-workspace");
            assert("close-workspace"@[0] == 'c');
        },
        Verb::RenamePane => {
            reveal_strlit("rename-pane");
            assert("rename-pane"@[0] == 'r');
        },
        Verb::RenameSurface => {
            reveal_strlit("rename-surface");
            assert("rename-surface"@[0] == 'r');
        },
        Verb::RenameScreen => {
            reveal_strlit("rename-screen");
            assert("rename-screen"@[0] == 'r');
        },
        Verb::RenameWorkspace => {
            reveal_strlit("rename-workspace");
            assert("rename-workspace"@[0] == 'r');
        },
        Verb::SetWorkspaceColor => {
            reveal_strlit("set-workspace-color");
            assert("set-workspace-color"@[0] == 's');
        },
        Verb::SetStatus => {
            reveal_strlit("set-status");
            assert("set-status"@[0] == 's');
        },
        Verb::WorkspaceColor => {
            reveal_strlit("workspace-color");
            assert("workspace-color"@[0] == 'w');
        },
        Verb::TriggerFlash => {
            reveal_strlit("trigger-flash");
            assert("trigger-flash"@[0] == 't');
        },
        Verb::ResizeSurface => {
            reveal_strlit("resize-surface");
            assert("resize-surface"@[0] == 'r');
        },
        Verb::FocusPane => {
            reveal_strlit("focus-pane");
            assert("focus-pane"@[0] == 'f');
        },
        Verb::SelectTab => {
            reveal_strlit("select-tab");
            assert("select-tab"@[0] == 's');
        },
        Verb::SelectScreen => {
            reveal_strlit("select-screen");
            assert("select-screen"@[0] == 's');
        },
        Verb::SelectWorkspace => {
            reveal_strlit("select-workspace");
            assert("select-workspace"@[0] == 's');
        },
        Verb::MoveTab => {
            reveal_strlit("move-tab");
            assert("move-tab"@[0] == 'm');
        },
        Verb::MoveWorkspace => {
            reveal_strlit("move-workspace");
            assert("move-workspace"@[0] == 'm');
        },
        Verb::ScrollSurface => {
            reveal_strlit("scroll-surface");
            assert("scroll-surface"@[0] == 's');
        },
        Verb::Subscribe => {
            reveal_strlit("subscribe");
            assert("subscribe"@[0] == 's');
        },
        Verb::AttachSurface => {
            reveal_strlit("attach-surface");
            assert("attach-surface"@[0] == 'a');
        },
        Verb::ReportAgent => {
            reveal_strlit("report-agent");
            assert("report-agent"@[0] == 'r');
        },
        Verb::ListAgents => {
            reveal_strlit("list-agents");
            assert("list-agents"@[0] == 'l');
        },
        Verb::PaneWorktreeCreate => {
            reveal_strlit("pane-worktree-create");
            assert("pane-worktree-create"@[0] == 'p');
        },
        Verb::PaneWorktreeList => {
            reveal_strlit("pane-worktree-list");
            assert("pane-worktree-list"@[0] == 'p');
        },
        Verb::PaneWorktreeRemove => {
            reveal_strlit("pane-worktree-remove");
            assert("pane-worktree-remove"@[0] == 'p');
        },
        Verb::DetectAgent => {
            reveal_strlit("detect-agent");
            assert("detect-agent"@[0] == 'd');
        },
        Verb::DetectAgents => {
            reveal_strlit("detect-agents");
            assert("detect-agents"@[0] == 'd');
        },
        Verb::AgentPatternAdd => {
            reveal_strlit("agent-pattern-add");
            assert("agent-pattern-add"@[0] == 'a');
        },
        Verb::AgentPatternList => {
            reveal_strlit("agent-pattern-list");
            assert("agent-pattern-list"@[0] == 'a');
        },
        Verb::AgentPatternRemove => {
            reveal_strlit("agent-pattern-remove");
            assert("agent-pattern-remove"@[0] == 'a');
        },
        Verb::AgentRead => {
            reveal_strlit("agent-read");
            assert("agent-read"@[0] == 'a');
        },
        Verb::BrowserReload => {
            reveal_strlit("browser-reload");
            assert("browser-reload"@[0] == 'b');
        },
        Verb::ListSessions => {
            reveal_strlit("list-sessions");
            assert("list-sessions"@[0] == 'l');
        },
        Verb::KillSession => {
            reveal_strlit("kill-session");
            assert("kill-session"@[0] == 'k');
        },
        Verb::KillStale => {
            reveal_strlit("kill-stale");
            assert("kill-stale"@[0] == 'k');
        },
        Verb::RenameSession => {
            reveal_strlit("rename-session");
            assert("rename-session"@[0] == 'r');
        },
        Verb::LayoutExport => {
            reveal_strlit("layout-export");
            assert("layout-export"@[0] == 'l');
        },
        Verb::LayoutApply => {
            reveal_strlit("layout-apply");
            assert("layout-apply"@[0] == 'l');
        },
        Verb::LayoutExportAll => {
            reveal_strlit("layout-export-all");
            assert("layout-export-all"@[0] == 'l');
        },
    }
    if "--"@.is_prefix_of(verb_name(v)) {
        assert(verb_name(v).subrange(0, 2)[0] == '-');
    }
}

/// The verb that each name calls, and that no other name calls one.
pub proof fn law_verbs_called(name: Seq<char>)
    ensures
        verb_of("identify"@) == Some(Verb::Identify),
        verb_of("list-workspaces"@) == Some(Verb::ListWorkspaces),
        verb_of("get-resolved-config"@) == Some(Verb::GetResolvedConfig),
        verb_of("send"@) == Some(Verb::Send),
        verb_of("read-screen"@) == Some(Verb::ReadScreen),
        verb_of("vt-state"@) == Some(Verb::VtState),
        verb_of("new-tab"@) == Some(Verb::NewTab),
        verb_of("new-browser-tab"@) == Some(Verb::NewBrowserTab),
        verb_of("new-workspace"@) == Some(Verb::NewWorkspace),
        verb_of("new-screen"@) == Some(Verb::NewScreen),
        verb_of("split"@) == Some(Verb::Split),
        verb_of("set-ratio"@) == Some(Verb::SetRatio),
        verb_of("set-default-colors"@) == Some(Verb::SetDefaultColors),
        verb_of("close-surface"@) == Some(Verb::CloseSurface),
        verb_of("close-pane"@) == Some(Verb::ClosePane),
        verb_of("close-screen"@) == Some(Verb::CloseScreen),
        verb_of("close-workspace"@) == Some(Verb::CloseWorkspace),
        verb_of("rename-pane"@) == Some(Verb::RenamePane),
        verb_of("rename-surface"@) == Some(Verb::RenameSurface),
        verb_of("rename-screen"@) == Some(Verb::RenameScreen),
        verb_of("rename-workspace"@) == Some(Verb::RenameWorkspace),
        verb_of("set-workspace-color"@) == Some(Verb::SetWorkspaceColor),
        verb_of("set-status"@) == Some(Verb::SetStatus),
        verb_of("workspace-color"@) == Some(Verb::WorkspaceColor),
        verb_of("trigger-flash"@) == Some(Verb::TriggerFlash),
        verb_of("resize-surface"@) == Some(Verb::ResizeSurface),
        verb_of("focus-pane"@) == Some(Verb::FocusPane),
        verb_of("select-tab"@) == Some(Verb::SelectTab),
        verb_of("select-screen"@) == Some(Verb::SelectScreen),
        verb_of("select-workspace"@) == Some(Verb::SelectWorkspace),
        verb_of("move-tab"@) == Some(Verb::MoveTab),
        verb_of("move-workspace"@) == Some(Verb::MoveWorkspace),
        verb_of("scroll-surface"@) == Some(Verb::ScrollSurface),
        verb_of("subscribe"@) == Some(Verb::Subscribe),
        verb_of("attach-surface"@) == Some(Verb::AttachSurface),
        verb_of("report-agent"@) == Some(Verb::ReportAgent),
        verb_of("list-agents"@) == Some(Verb::ListAgents),
        verb_of("pane-worktree-create"@) == Some(Verb::PaneWorktreeCreate),
        verb_of("pane-worktree-list"@) == Some(Verb::PaneWorktreeList),
        verb_of("pane-worktree-remove"@) == Some(Verb::PaneWorktreeRemove),
        verb_of("detect-agent"@) == Some(Verb::DetectAgent),
        verb_of("detect-agents"@) == Some(Verb::DetectAgents),
        verb_of("agent-pattern-add"@) == Some(Verb::AgentPatternAdd),
        verb_of("agent-pattern-list"@) == Some(Verb::AgentPatternList),
        verb_of("agent-pattern-remove"@) == Some(Verb::AgentPatternRemove),
        verb_of("agent-read"@) == Some(Verb::AgentRead),
        verb_of("browser-reload"@) == Some(Verb::BrowserReload),
        verb_of("list-sessions"@) == Some(Verb::ListSessions),
        verb_of("kill-session"@) == Some(Verb::KillSession),
        verb_of("kill-stale"@) == Some(Verb::KillStale),
        verb_of("rename-session"@) == Some(Verb::RenameSession),
        verb_of("layout-export"@) == Some(Verb::LayoutExport),
        verb_of("layout-apply"@) == Some(Verb::LayoutApply),
        verb_of("layout-export-all"@) == Some(Verb::LayoutExportAll),
        verb_of(name) matches Some(v) ==> verb_name(v) == name,
{
    law_verb_of_name(Verb::Identify);
    law_verb_of_name(Verb::ListWorkspaces);
    law_verb_of_name(Verb::GetResolvedConfig);
    law_verb_of_name(Verb::Send);
    law_verb_of_name(Verb::ReadScreen);
    law_verb_of_name(Verb::VtState);
    law_verb_of_name(Verb::NewTab);
    law_verb_of_name(Verb::NewBrowserTab);
    law_verb_of_name(Verb::NewWorkspace);
    law_verb_of_name(Verb::NewScreen);
    law_verb_of_name(Verb::Split);
    law_verb_of_name(Verb::SetRatio);
    law_verb_of_name(Verb::SetDefaultColors);
    law_verb_of_name(Verb::CloseSurface);
    law_verb_of_name(Verb::ClosePane);
    law_verb_of_name(Verb::CloseScreen);
    law_verb_of_name(Verb::CloseWorkspace);
    law_verb_of_name(Verb::RenamePane);
    law_verb_of_name(Verb::RenameSurface);
    law_verb_of_name(Verb::RenameScreen);
    law_verb_of_name(Verb::RenameWorkspace);
    law_verb_of_name(Verb::SetWorkspaceColor);
    law_verb_of_name(Verb::SetStatus);
    law_verb_of_name(Verb::WorkspaceColor);
    law_verb_of_name(Verb::TriggerFlash);
    law_verb_of_name(Verb::ResizeSurface);
    law_verb_of_name(Verb::FocusPane);
    law_verb_of_name(Verb::SelectTab);
    law_verb_of_name(Verb::SelectScreen);
    law_verb_of_name(Verb::SelectWorkspace);
    law_verb_of_name(Verb::MoveTab);
    law_verb_of_name(Verb::MoveWorkspace);
    law_verb_of_name(Verb::ScrollSurface);
    law_verb_of_name(Verb::Subscribe);
    law_verb_of_name(Verb::AttachSurface);
    law_verb_of_name(Verb::ReportAgent);
    law_verb_of_name(Verb::ListAgents);
    law_verb_of_name(Verb::PaneWorktreeCreate);
    law_verb_of_name(Verb::PaneWorktreeList);
    law_verb_of_name(Verb::PaneWorktreeRemove);
    law_verb_of_name(Verb::DetectAgent);
    law_verb_of_name(Verb::DetectAgents);
    law_verb_of_name(Verb::AgentPatternAdd);
    law_verb_of_name(Verb::AgentPatternList);
    law_verb_of_name(Verb::AgentPatternRemove);
    law_verb_of_name(Verb::AgentRead);
    law_verb_of_name(Verb::BrowserReload);
    law_verb_of_name(Verb::ListSessions);
    law_verb_of_name(Verb::KillSession);
    law_verb_of_name(Verb::KillStale);
    law_verb_of_name(Verb::RenameSession);
    law_verb_of_name(Verb::LayoutExport);
    law_verb_of_name(Verb::LayoutApply);
    law_verb_of_name(Verb::LayoutExportAll);
}

/// A socket keeps sending what happens in a session, and what a surface shows; to every other verb
/// it answers once. A flag that needs no value is one that the verb takes.
pub proof fn law_streams_and_switches(v: Verb, flag: Seq<char>)
    ensures
        verb_streams(v) <==> verb_name(v) == "subscribe"@ || verb_name(v) == "attach-surface"@,
        verb_switch(v, flag) ==> verb_allows(v, flag) && (flag == "send-cr"@ || flag
            == "case-insensitive"@),
        verb_allows(v, flag) && (flag == "send-cr"@ || flag == "case-insensitive"@) ==> verb_switch(
            v,
            flag,
        ),
{
    law_verbs_called(verb_name(v));
    law_verb_of_name(v);
    reveal_strlit("send-cr");
    reveal_strlit("case-insensitive");
    assert("send-cr"@.len() == 7 && "send-cr"@[1] == 'e' && "send-cr"@[6] == 'r');
    assert("case-insensitive"@.len() == 16);
    lemma_other_names();
}

proof fn lemma_other_names()
    ensures
        "surface"@.len() == 7,
        "surface"@[1] == 'u' && "surface"@[6] == 'e',
        "text"@.len() == 4,
        "bytes"@.len() == 5,
        "shell"@.len() == 5,
        "pane"@.len() == 4,
        "cwd"@.len() == 3,
        "cols"@.len() == 4,
        "rows"@.len() == 4,
        "branch"@.len() == 6,
        "label"@.len() == 5,
        "prompt-file"@.len() == 11,
        "exec"@.len() == 4,
        "env"@.len() == 3,
        "url"@.len() == 3,
        "name"@.len() == 4,
        "workspace"@.len() == 9,
        "dir"@.len() == 3,
        "ratio"@.len() == 5,
        "fg"@.len() == 2,
        "bg"@.len() == 2,
        "screen"@.len() == 6,
        "color"@.len() == 5,
        "colour"@.len() == 6,
        "icon"@.len() == 4,
        "index"@.len() == 5,
        "delta"@.len() == 5,
        "state"@.len() == 5,
        "source"@.len() == 6,
        "agent-session"@.len() == 13,
        "agent"@.len() == 5,
        "message"@.len() == 7,
        "message"@[1] == 'e' && "message"@[6] == 'e',
        "pattern"@.len() == 7,
        "pattern"@[1] == 'a' && "pattern"@[6] == 'n',
        "kind"@.len() == 4,
        "confidence"@.len() == 10,
        "target"@.len() == 6,
        "lines"@.len() == 5,
        "session"@.len() == 7,
        "session"@[1] == 'e' && "session"@[6] == 'n',
        "old"@.len() == 3,
        "new"@.len() == 3,
        "output"@.len() == 6,
        "input"@.len() == 5,
        "output-dir"@.len() == 10,
{
    reveal_strlit("surface");
    reveal_strlit("text");
    reveal_strlit("bytes");
    reveal_strlit("shell");
    reveal_strlit("pane");
    reveal_strlit("cwd");
    reveal_strlit("cols");
    reveal_strlit("rows");
    reveal_strlit("branch");
    reveal_strlit("label");
    reveal_strlit("prompt-file");
    reveal_strlit("exec");
    reveal_strlit("env");
    reveal_strlit("url");
    reveal_strlit("name");
    reveal_strlit("workspace");
    reveal_strlit("dir");
    reveal_strlit("ratio");
    reveal_strlit("fg");
    reveal_strlit("bg");
    reveal_strlit("screen");
    reveal_strlit("color");
    reveal_strlit("colour");
    reveal_strlit("icon");
    reveal_strlit("index");
    reveal_strlit("delta");
    reveal_strlit("state");
    reveal_strlit("source");
    reveal_strlit("agent-session");
    reveal_strlit("agent");
    reveal_strlit("message");
    reveal_strlit("pattern");
    reveal_strlit("kind");
    reveal_strlit("confidence");
    reveal_strlit("target");
    reveal_strlit("lines");
    reveal_strlit("session");
    reveal_strlit("old");
    reveal_strlit("new");
    reveal_strlit("output");
    reveal_strlit("input");
    reveal_strlit("output-dir");
    assert("surface"@.len() == 7 && "surface"@[1] == 'u' && "surface"@[6] == 'e');
    assert("text"@.len() == 4);
    assert("bytes"@.len() == 5);
    assert("shell"@.len() == 5);
    assert("pane"@.len() == 4);
    assert("cwd"@.len() == 3);
    assert("cols"@.len() == 4);
    assert("rows"@.len() == 4);
    assert("branch"@.len() == 6);
    assert("label"@.len() == 5);
    assert("prompt-file"@.len() == 11);
    assert("exec"@.len() == 4);
    assert("env"@.len() == 3);
    assert("url"@.len() == 3);
    assert("name"@.len() == 4);
    assert("workspace"@.len() == 9);
    assert("dir"@.len() == 3);
    assert("ratio"@.len() == 5);
    assert("fg"@.len() == 2);
    assert("bg"@.len() == 2);
    assert("screen"@.len() == 6);
    assert("color"@.len() == 5);
    assert("colour"@.len() == 6);
    assert("icon"@.len() == 4);
    assert("index"@.len() == 5);
    assert("delta"@.len() == 5);
    assert("state"@.len() == 5);
    assert("source"@.len() == 6);
    assert("agent-session"@.len() == 13);
    assert("agent"@.len() == 5);
    assert("message"@.len() == 7 && "message"@[1] == 'e' && "message"@[6] == 'e');
    assert("pattern"@.len() == 7 && "pattern"@[1] == 'a' && "pattern"@[6] == 'n');
    assert("kind"@.len() == 4);
    assert("confidence"@.len() == 10);
    assert("target"@.len() == 6);
    assert("lines"@.len() == 5);
    assert("session"@.len() == 7 && "session"@[1] == 'e' && "session"@[6] == 'n');
    assert("old"@.len() == 3);
    assert("new"@.len() == 3);
    assert("output"@.len() == 6);
    assert("input"@.len() == 5);
    assert("output-dir"@.len() == 10);
}

/// Every verb's name but `send` has five letters or more.
pub proof fn lemma_verb_long(v: Verb)
    ensures
        verb_name(v).len() >= 5 || verb_name(v) == "send"@,
{
    reveal_strlit("identify");
    reveal_strlit("list-workspaces");
    reveal_strlit("get-resolved-config");
    reveal_strlit("send");
    reveal_strlit("read-screen");
    reveal_strlit("vt-state");
    reveal_strlit("new-tab");
    reveal_strlit("new-browser-tab");
    reveal_strlit("new-workspace");
    reveal_strlit("new-screen");
    reveal_strlit("split");
    reveal_strlit("set-ratio");
    reveal_strlit("set-default-colors");
    reveal_strlit("close-surface");
    reveal_strlit("close-pane");
    reveal_strlit("close-screen");
    reveal_strlit("close-workspace");
    reveal_strlit("rename-pane");
    reveal_strlit("rename-surface");
    reveal_strlit("rename-screen");
    reveal_strlit("rename-workspace");
    reveal_strlit("set-workspace-color");
    reveal_strlit("set-status");
    reveal_strlit("workspace-color");
    reveal_strlit("trigger-flash");
    reveal_strlit("resize-surface");
    reveal_strlit("focus-pane");
    reveal_strlit("select-tab");
    reveal_strlit("select-screen");
    reveal_strlit("select-workspace");
    reveal_strlit("move-tab");
    reveal_strlit("move-workspace");
    reveal_strlit("scroll-surface");
    reveal_strlit("subscribe");
    reveal_strlit("attach-surface");
    reveal_strlit("report-agent");
    reveal_strlit("list-agents");
    reveal_strlit("pane-worktree-create");
    reveal_strlit("pane-worktree-list");
    reveal_strlit("pane-worktree-remove");
    reveal_strlit("detect-agent");
    reveal_strlit("detect-agents");
    reveal_strlit("agent-pattern-add");
    reveal_strlit("agent-pattern-list");
    reveal_strlit("agent-pattern-remove");
    reveal_strlit("agent-read");
    reveal_strlit("browser-reload");
    reveal_strlit("list-sessions");
    reveal_strlit("kill-session");
    reveal_strlit("kill-stale");
    reveal_strlit("rename-session");
    reveal_strlit("layout-export");
    reveal_strlit("layout-apply");
    reveal_strlit("layout-export-all");
    assert("identify"@.len() == 8);
    assert("list-workspaces"@.len() == 15);
    assert("get-resolved-config"@.len() == 19);
    assert("send"@.len() == 4);
    assert("read-screen"@.len() == 11);
    assert("vt-state"@.len() == 8);
    assert("new-tab"@.len() == 7);
    assert("new-browser-tab"@.len() == 15);
    assert("new-workspace"@.len() == 13);
    assert("new-screen"@.len() == 10);
    assert("split"@.len() == 5);
    assert("set-ratio"@.len() == 9);
    assert("set-default-colors"@.len() == 18);
    assert("close-surface"@.len() == 13);
    assert("close-pane"@.len() == 10);
    assert("close-screen"@.len() == 12);
    assert("close-workspace"@.len() == 15);
    assert("rename-pane"@.len() == 11);
    assert("rename-surface"@.len() == 14);
    assert("rename-screen"@.len() == 13);
    assert("rename-workspace"@.len() == 16);
    assert("set-workspace-color"@.len() == 19);
    assert("set-status"@.len() == 10);
    assert("workspace-color"@.len() == 15);
    assert("trigger-flash"@.len() == 13);
    assert("resize-surface"@.len() == 14);
    assert("focus-pane"@.len() == 10);
    assert("select-tab"@.len() == 10);
    assert("select-screen"@.len() == 13);
    assert("select-workspace"@.len() == 16);
    assert("move-tab"@.len() == 8);
    assert("move-workspace"@.len() == 14);
    assert("scroll-surface"@.len() == 14);
    assert("subscribe"@.len() == 9);
    assert("attach-surface"@.len() == 14);
    assert("report-agent"@.len() == 12);
    assert("list-agents"@.len() == 11);
    assert("pane-worktree-create"@.len() == 20);
    assert("pane-worktree-list"@.len() == 18);
    assert("pane-worktree-remove"@.len() == 20);
    assert("detect-agent"@.len() == 12);
    assert("detect-agents"@.len() == 13);
    assert("agent-pattern-add"@.len() == 17);
    assert("agent-pattern-list"@.len() == 18);
    assert("agent-pattern-remove"@.len() == 20);
    assert("agent-read"@.len() == 10);
    assert("browser-reload"@.len() == 14);
    assert("list-sessions"@.len() == 13);
    assert("kill-session"@.len() == 12);
    assert("kill-stale"@.len() == 10);
    assert("rename-session"@.len() == 14);
    assert("layout-export"@.len() == 13);
    assert("layout-apply"@.len() == 12);
    assert("layout-export-all"@.len() == 17);
}

} // verus!
