//! The hooks of the `grok` agent: a file of their own, and what an older layout left behind.

use vstd::prelude::*;

use crate::answers::{Ending, EndingV};
use crate::antigravity_hook::{hooks_from, others, AntigravityHooksConfig, HookV};
use crate::hooks::{
    parse_hook_args, path_failed, path_fault, place, placed, requested, said, say, usage_failure,
    HookRequest, Outcome,
};
use crate::json::{
    empty_object, json_view, list_view, pretty_text, render_pretty, unsigned, Json, JsonV,
};
use crate::text::{opt_text, owned, texts};

verus! {

pub const USAGE: &'static str =
    "cmux: usage: cmux grok <install-hooks|install-skill> [--uninstall] [--global]";

/// What is said behind the path where hooks would be written through a symbolic link.
pub const HOOKS_ADVICE: &'static str = " Remove it manually if you want to install the hooks.";

/// What is said behind the path where the skill would be written through a symbolic link.
pub const SKILL_ADVICE: &'static str =
    "                      Remove it manually if you want to install the skill.";

/// The file of the hooks.
pub fn config_path(global: bool, home: &Option<String>) -> (r: Option<String>)
    ensures
        opt_text(r) == placed(
            global,
            opt_text(*home),
            ".grok/hooks/cmux-agent-state.json"@,
            ".grok/hooks/cmux-agent-state.json"@,
        ),
{
    place(
        global,
        home,
        ".grok/hooks/cmux-agent-state.json",
        ".grok/hooks/cmux-agent-state.json",
    )
}

/// The file that the older layout had.
pub fn legacy_config_path(global: bool, home: &Option<String>) -> (r: Option<String>)
    ensures
        opt_text(r) == placed(
            global,
            opt_text(*home),
            ".grok/hooks.json"@,
            ".grok/hooks.json"@,
        ),
{
    place(global, home, ".grok/hooks.json", ".grok/hooks.json")
}

pub fn skill_path(global: bool, home: &Option<String>) -> (r: Option<String>)
    ensures
        opt_text(r) == placed(
            global,
            opt_text(*home),
            ".grok/skills/cmux-orchestration/SKILL.md"@,
            ".agents/skills/cmux-orchestration/SKILL.md"@,
        ),
{
    place(
        global,
        home,
        ".grok/skills/cmux-orchestration/SKILL.md",
        ".agents/skills/cmux-orchestration/SKILL.md",
    )
}

/// What `cmux grok` with these words asks for.
pub fn run(args: &[String]) -> (r: Result<HookRequest, Ending>)
    ensures
        match r {
            Ok(q) => requested(texts(args@), true) == Some(q),
            Err(e) => requested(texts(args@), true) is None && e@ == usage_failure(USAGE@),
        },
{
    parse_hook_args(args, true, USAGE)
}

// ---- the hooks ----------------------------------------------------------------------------

/// The command that reports a state, where there is a surface to report it for.
pub open spec fn reports(state: Seq<char>) -> Seq<char> {
    "test -n \"$CMUX_MUX_SURFACE\" && cmux report-agent --surface \"$CMUX_MUX_SURFACE\" --state "@
        + state + " --source hook || true"@
}

pub fn report_command(state: &str) -> (r: String)
    ensures
        r@ == reports(state@),
{
    let mut r: String = owned(
        "test -n \"$CMUX_MUX_SURFACE\" && cmux report-agent --surface \"$CMUX_MUX_SURFACE\" --state ",
    );
    r.append(state);
    r.append(" --source hook || true");
    r
}

/// A list of one command that reports a state.
pub open spec fn commands(state: Seq<char>) -> JsonV {
    JsonV::List(
        seq![
            empty_object().with("type"@, JsonV::Text("command"@)).with(
                "command"@,
                JsonV::Text(reports(state)),
            ).with("timeout"@, unsigned(5)),
        ],
    )
}

/// The hooks of an event that report a state.
pub open spec fn group(state: Seq<char>) -> JsonV {
    JsonV::List(seq![empty_object().with("hooks"@, commands(state))])
}

/// The hooks of an event that report a state where the matcher matches.
pub open spec fn matched_group(matcher: Seq<char>, state: Seq<char>) -> JsonV {
    JsonV::List(
        seq![
            empty_object().with("matcher"@, JsonV::Text(matcher)).with("hooks"@, commands(state)),
        ],
    )
}

/// The file of the hooks.
pub open spec fn native_hooks() -> JsonV {
    empty_object().with(
        "hooks"@,
        empty_object().with("SessionStart"@, group("working"@)).with(
            "PreToolUse"@,
            group("working"@),
        ).with("PostToolUse"@, group("idle"@)).with(
            "Notification"@,
            matched_group("idle_prompt|permission_prompt"@, "blocked"@),
        ).with("Stop"@, group("done"@)).with("SubagentStart"@, group("working"@)).with(
            "SubagentStop"@,
            group("idle"@),
        ),
    )
}

fn one(j: Json) -> (r: Json)
    ensures
        r@ == JsonV::List(seq![j@]),
{
    let list: Vec<Json> = vec![j];
    assert(list_view(list@) =~= seq![json_view(j)]);
    Json::List(list)
}

fn write_commands(state: &str) -> (r: Json)
    ensures
        r@ == commands(state@),
{
    let mut c: Json = Json::object();
    c.set("type", Json::text("command"));
    c.set("command", Json::text(report_command(state).as_str()));
    c.set("timeout", Json::unsigned(5));
    one(c)
}

fn write_group(state: &str) -> (r: Json)
    ensures
        r@ == group(state@),
{
    let mut g: Json = Json::object();
    g.set("hooks", write_commands(state));
    one(g)
}

pub fn grok_native_hooks() -> (r: Json)
    ensures
        r@ == native_hooks(),
{
    let mut matched: Json = Json::object();
    matched.set("matcher", Json::text("idle_prompt|permission_prompt"));
    matched.set("hooks", write_commands("blocked"));
    let mut hooks: Json = Json::object();
    hooks.set("SessionStart", write_group("working"));
    hooks.set("PreToolUse", write_group("working"));
    hooks.set("PostToolUse", write_group("idle"));
    hooks.set("Notification", one(matched));
    hooks.set("Stop", write_group("done"));
    hooks.set("SubagentStart", write_group("working"));
    hooks.set("SubagentStop", write_group("idle"));
    let mut r: Json = Json::object();
    r.set("hooks", hooks);
    r
}

/// What is written to the file of the hooks.
pub fn hooks_text() -> (r: String)
    ensures
        r@ == pretty_text(native_hooks()),
{
    render_pretty(&grok_native_hooks())
}

// ---- the older layout ---------------------------------------------------------------------

/// What is to be done with the older file.
#[derive(Debug)]
pub enum LegacyAction {
    Leave,
    Remove,
    Save(AntigravityHooksConfig),
}

pub enum LegacyActionV {
    Leave,
    Remove,
    Save(Seq<HookV>),
}

impl View for LegacyAction {
    type V = LegacyActionV;

    open spec fn view(&self) -> LegacyActionV {
        match self {
            LegacyAction::Leave => LegacyActionV::Leave,
            LegacyAction::Remove => LegacyActionV::Remove,
            LegacyAction::Save(c) => LegacyActionV::Save(c@),
        }
    }
}

/// The hooks that the JSON of the older file holds, where it has a list of them.
pub open spec fn legacy_hooks(j: JsonV) -> Option<Seq<HookV>> {
    if j.part("hooks"@, 0, 1) is None {
        None
    } else {
        hooks_from(j)
    }
}

pub fn read_legacy(j: &Json) -> (r: Option<AntigravityHooksConfig>)
    ensures
        match r {
            Some(c) => legacy_hooks(j@) == Some(c@),
            None => legacy_hooks(j@) is None,
        },
{
    if j.part("hooks", 0, 1).is_none() {
        return None;
    }
    AntigravityHooksConfig::from_json(j)
}

/// What is to be done with the older file, and whether that takes hooks of this program out of
/// it. A file that is not understood, or that has no list of hooks, is left alone; one without
/// other hooks is removed.
pub open spec fn legacy_cleaning(read: Option<Seq<HookV>>) -> (LegacyActionV, bool) {
    match read {
        None => (LegacyActionV::Leave, false),
        Some(hooks) => {
            let kept = others(hooks);
            if kept.len() == 0 {
                (LegacyActionV::Remove, hooks.len() > 0)
            } else if kept.len() != hooks.len() {
                (LegacyActionV::Save(kept), true)
            } else {
                (LegacyActionV::Leave, false)
            }
        },
    }
}

/// What is to be done with the older file. `read` is the list of hooks in it, where it could be
/// read and has one.
pub fn clean_legacy(read: Option<AntigravityHooksConfig>) -> (r: (LegacyAction, bool))
    ensures
        (r.0@, r.1) == legacy_cleaning(
            match read {
                Some(c) => Some(c@),
                None => None,
            },
        ),
{
    match read {
        None => (LegacyAction::Leave, false),
        Some(config) => {
            let mut config: AntigravityHooksConfig = config;
            let before: usize = config.hooks.len();
            config.remove_reports();
            if config.hooks.len() == 0 {
                (LegacyAction::Remove, before > 0)
            } else if config.hooks.len() != before {
                (LegacyAction::Save(config), true)
            } else {
                (LegacyAction::Leave, false)
            }
        },
    }
}

proof fn lemma_others_length(hooks: Seq<HookV>)
    ensures
        others(hooks).len() <= hooks.len(),
        others(hooks).len() == hooks.len() ==> others(hooks) == hooks,
    decreases hooks.len(),
{
    if hooks.len() > 0 {
        lemma_others_length(hooks.drop_last());
        if others(hooks).len() == hooks.len() {
            assert(others(hooks) =~= hooks);
        }
    } else {
        assert(others(hooks) =~= hooks);
    }
}

/// The hooks that an action leaves in a file that held these.
pub open spec fn hooks_left(hooks: Seq<HookV>, action: LegacyActionV) -> Seq<HookV> {
    match action {
        LegacyActionV::Leave => hooks,
        LegacyActionV::Remove => seq![],
        LegacyActionV::Save(kept) => kept,
    }
}

/// Whatever is done with the older file, the hooks of others stay, in their order, and no other
/// hook does.
pub proof fn law_cleaning_keeps_others(hooks: Seq<HookV>)
    ensures
        hooks_left(hooks, legacy_cleaning(Some(hooks)).0) == others(hooks),
        legacy_cleaning(Some(hooks)).1 <==> others(hooks) != hooks,
{
    lemma_others_length(hooks);
    if others(hooks).len() == 0 {
        assert(others(hooks) =~= seq![]);
    }
}

// ---- endings ------------------------------------------------------------------------------

/// How the removal of the hooks ends. The older file is looked at only where the removal of the
/// new one did not fail.
pub open spec fn uninstall_end(o: Option<Outcome>, cleaned: bool, path: Seq<char>) -> EndingV {
    match o {
        Some(Outcome::Failed(why)) => path_fault("removing"@, path, why@),
        _ => if o is Some || cleaned {
            said("Successfully removed cmux hooks from "@, path)
        } else {
            said("No Grok hooks file found at "@, path)
        },
    }
}

pub fn uninstall_ending(o: &Option<Outcome>, cleaned: bool, path: &str) -> (e: Ending)
    ensures
        e@ == uninstall_end(*o, cleaned, path@),
{
    match o {
        Some(Outcome::Failed(why)) => path_failed("removing", path, why.as_str()),
        _ => {
            if o.is_some() || cleaned {
                say("Successfully removed cmux hooks from ", path)
            } else {
                say("No Grok hooks file found at ", path)
            }
        },
    }
}

/// How the installation ends where the directory of the hooks cannot be made.
pub fn directory_failed(parent: &str, why: &str) -> (e: Ending)
    ensures
        e@ == path_fault("creating"@, parent@, why@),
{
    path_failed("creating", parent, why)
}

/// The command of the one hook of an event.
pub open spec fn command_at(hooks: JsonV, event: Seq<char>) -> Option<JsonV> {
    match hooks.field("hooks"@) {
        Some(all) => match all.field(event) {
            Some(JsonV::List(groups)) => match groups[0].field("hooks"@) {
                Some(JsonV::List(list)) => list[0].field("command"@),
                _ => None,
            },
            _ => None,
        },
        None => None,
    }
}

/// What is reported at each event: that the agent works when it starts, is about to use a tool or
/// starts another; that it is idle after a tool or another agent; that it is blocked when it asks;
/// and that it is done when it stops.
pub proof fn law_native_hooks()
    ensures
        command_at(native_hooks(), "SessionStart"@) == Some(JsonV::Text(reports("working"@))),
        command_at(native_hooks(), "PreToolUse"@) == Some(JsonV::Text(reports("working"@))),
        command_at(native_hooks(), "PostToolUse"@) == Some(JsonV::Text(reports("idle"@))),
        command_at(native_hooks(), "Notification"@) == Some(JsonV::Text(reports("blocked"@))),
        command_at(native_hooks(), "Stop"@) == Some(JsonV::Text(reports("done"@))),
        command_at(native_hooks(), "SubagentStart"@) == Some(JsonV::Text(reports("working"@))),
        command_at(native_hooks(), "SubagentStop"@) == Some(JsonV::Text(reports("idle"@))),
{
    reveal_strlit("SessionStart");
    reveal_strlit("PreToolUse");
    reveal_strlit("PostToolUse");
    reveal_strlit("Notification");
    reveal_strlit("Stop");
    reveal_strlit("SubagentStart");
    reveal_strlit("SubagentStop");
    reveal_strlit("type");
    reveal_strlit("command");
    reveal_strlit("timeout");
    reveal_strlit("matcher");
    reveal_strlit("hooks");
    assert("SessionStart"@.len() == 12 && "SessionStart"@[1] == 'e');
    assert("Notification"@.len() == 12 && "Notification"@[1] == 'o');
    assert("SubagentStop"@.len() == 12 && "SubagentStop"@[1] == 'u');
    assert("PreToolUse"@.len() == 10 && "PostToolUse"@.len() == 11);
    assert("Stop"@.len() == 4 && "SubagentStart"@.len() == 13);
    assert("type"@.len() == 4 && "command"@.len() == 7 && "timeout"@.len() == 7);
    assert("command"@[0] == 'c' && "timeout"@[0] == 't');
    assert("matcher"@.len() == 7 && "hooks"@.len() == 5);
    lemma_command("working"@);
    lemma_command("idle"@);
    lemma_command("blocked"@);
    lemma_command("done"@);
}

proof fn lemma_command(state: Seq<char>)
    ensures
        commands(state) matches JsonV::List(list) && list[0].field("command"@) == Some(
            JsonV::Text(reports(state)),
        ),
{
    reveal_strlit("type");
    reveal_strlit("command");
    reveal_strlit("timeout");
    assert("type"@.len() == 4 && "command"@.len() == 7 && "timeout"@.len() == 7);
    assert("command"@[0] == 'c' && "timeout"@[0] == 't');
}

/// What is said when the hooks were taken away: that they were where a file was removed or an older
/// one cleaned, else that there were none.
pub proof fn law_grok_removed(path: Seq<char>, cleaned: bool, why: String)
    ensures
        uninstall_end(Some(Outcome::Done), cleaned, path).out
            == "Successfully removed cmux hooks from "@ + path + "\n"@,
        uninstall_end(None, true, path) == uninstall_end(Some(Outcome::Done), false, path),
        uninstall_end(None, false, path).out == "No Grok hooks file found at "@ + path + "\n"@,
        uninstall_end(Some(Outcome::Failed(why)), cleaned, path).code == 1,
        legacy_cleaning(None) == (LegacyActionV::Leave, false),
{
}

} // verus!
