//! The hooks of the `antigravity` agent: a list in a file that other hooks share.

use vstd::prelude::*;

use crate::answers::{failed, failure, Ending, EndingV};
use crate::hooks::{
    parse_hook_args, path_failed, path_fault, place, placed, requested, said, say, usage_failure,
    HookRequest,
};
use crate::json::{all_some, empty_object, json_view, list_view, Json, JsonV};
use crate::text::{contains, occurs, opt_text, owned, texts};

verus! {

pub const USAGE: &'static str =
    "cmux: usage: cmux antigravity <install-hooks|install-skill> [--uninstall] [--global]";

/// What the commands of this program start with, and by which they are known.
pub const REPORT: &'static str = "cmux report-agent";

#[derive(Debug)]
pub struct AntigravityHook {
    pub event: String,
    pub command: String,
}

#[derive(Debug)]
pub struct AntigravityHooksConfig {
    pub hooks: Vec<AntigravityHook>,
}

pub struct HookV {
    pub event: Seq<char>,
    pub command: Seq<char>,
}

impl View for AntigravityHook {
    type V = HookV;

    open spec fn view(&self) -> HookV {
        HookV { event: self.event@, command: self.command@ }
    }
}

impl View for AntigravityHooksConfig {
    type V = Seq<HookV>;

    open spec fn view(&self) -> Seq<HookV> {
        self.hooks@.map_values(|h: AntigravityHook| h@)
    }
}

impl Default for AntigravityHooksConfig {
    fn default() -> (r: AntigravityHooksConfig)
        ensures
            r@ == Seq::<HookV>::empty(),
    {
        let r: AntigravityHooksConfig = AntigravityHooksConfig { hooks: Vec::new() };
        assert(r@ =~= Seq::<HookV>::empty());
        r
    }
}

pub fn config_path(global: bool, home: &Option<String>) -> (r: Option<String>)
    ensures
        opt_text(r) == placed(
            global,
            opt_text(*home),
            ".gemini/config/hooks.json"@,
            ".agents/hooks.json"@,
        ),
{
    place(global, home, ".gemini/config/hooks.json", ".agents/hooks.json")
}

pub fn skill_path(global: bool, home: &Option<String>) -> (r: Option<String>)
    ensures
        opt_text(r) == placed(
            global,
            opt_text(*home),
            ".gemini/antigravity-cli/skills/cmux-orchestration/SKILL.md"@,
            ".agents/skills/cmux-orchestration/SKILL.md"@,
        ),
{
    place(
        global,
        home,
        ".gemini/antigravity-cli/skills/cmux-orchestration/SKILL.md",
        ".agents/skills/cmux-orchestration/SKILL.md",
    )
}

/// What `cmux antigravity` with these words asks for.
pub fn run(args: &[String]) -> (r: Result<HookRequest, Ending>)
    ensures
        match r {
            Ok(q) => requested(texts(args@), true) == Some(q),
            Err(e) => requested(texts(args@), true) is None && e@ == usage_failure(USAGE@),
        },
{
    parse_hook_args(args, true, USAGE)
}

// ---- the list -----------------------------------------------------------------------------

/// The hooks that are not this program's.
pub open spec fn others(hooks: Seq<HookV>) -> Seq<HookV>
    decreases hooks.len(),
{
    if hooks.len() == 0 {
        seq![]
    } else if occurs(hooks.last().command, REPORT@) {
        others(hooks.drop_last())
    } else {
        others(hooks.drop_last()).push(hooks.last())
    }
}

/// The command that reports a state.
pub open spec fn report_command(state: Seq<char>) -> Seq<char> {
    REPORT@ + " --surface \"$CMUX_MUX_SURFACE\" --state "@ + state + " --source antigravity"@
}

pub open spec fn report_hook(event: Seq<char>, state: Seq<char>) -> HookV {
    HookV { event, command: report_command(state) }
}

/// The list with this program's hooks at its end, in place of those that were in it.
pub open spec fn merged(hooks: Seq<HookV>) -> Seq<HookV> {
    others(hooks).push(report_hook("PreToolUse"@, "working"@)).push(
        report_hook("PostToolUse"@, "idle"@),
    ).push(report_hook("Stop"@, "done"@))
}

proof fn lemma_report_known(event: Seq<char>, state: Seq<char>)
    ensures
        occurs(report_hook(event, state).command, REPORT@),
{
    let c = report_command(state);
    assert(c.subrange(0, REPORT@.len() as int) =~= REPORT@);
    assert(crate::text::stands_at(c, REPORT@, 0));
}

/// The hooks of others are what is left of the merged list.
proof fn lemma_others_of_merged(hooks: Seq<HookV>)
    ensures
        others(merged(hooks)) == others(others(hooks)),
{
    lemma_report_known("PreToolUse"@, "working"@);
    lemma_report_known("PostToolUse"@, "idle"@);
    lemma_report_known("Stop"@, "done"@);
    let a = others(hooks);
    let b = a.push(report_hook("PreToolUse"@, "working"@));
    let c = b.push(report_hook("PostToolUse"@, "idle"@));
    let d = c.push(report_hook("Stop"@, "done"@));
    assert(d.drop_last() =~= c);
    assert(c.drop_last() =~= b);
    assert(b.drop_last() =~= a);
    assert(others(b) == others(a));
    assert(others(c) == others(b));
    assert(others(d) == others(c));
}

proof fn lemma_others_twice(hooks: Seq<HookV>)
    ensures
        others(others(hooks)) == others(hooks),
    decreases hooks.len(),
{
    if hooks.len() > 0 {
        lemma_others_twice(hooks.drop_last());
        if !occurs(hooks.last().command, REPORT@) {
            assert(others(hooks).drop_last() =~= others(hooks.drop_last()));
        }
    }
}

/// Installing twice is installing once, and uninstalling takes out what was installed and
/// nothing else.
pub proof fn law_hooks_merge(hooks: Seq<HookV>)
    ensures
        merged(merged(hooks)) == merged(hooks),
        others(merged(hooks)) == others(hooks),
        forall|h: HookV|
            !occurs(h.command, REPORT@) ==> (#[trigger] others(hooks).contains(h)
                <==> hooks.contains(h)),
{
    lemma_others_of_merged(hooks);
    lemma_others_twice(hooks);
    lemma_others_kept(hooks);
}

proof fn lemma_others_kept(hooks: Seq<HookV>)
    ensures
        forall|h: HookV|
            !occurs(h.command, REPORT@) ==> (#[trigger] others(hooks).contains(h)
                <==> hooks.contains(h)),
    decreases hooks.len(),
{
    if hooks.len() > 0 {
        let front = hooks.drop_last();
        lemma_others_kept(front);
        let rest = others(front);
        let all = others(hooks);
        assert forall|h: HookV| !occurs(h.command, REPORT@) implies (#[trigger] all.contains(h)
            <==> hooks.contains(h)) by {
            assert(rest.contains(h) <==> front.contains(h));
            if all.contains(h) {
                let i = choose|i: int| 0 <= i < all.len() && all[i] == h;
                if i < rest.len() {
                    assert(rest[i] == h);
                    let k = choose|k: int| 0 <= k < front.len() && front[k] == h;
                    assert(hooks[k] == h);
                } else {
                    assert(hooks[hooks.len() - 1] == h);
                }
            }
            if hooks.contains(h) {
                let k = choose|k: int| 0 <= k < hooks.len() && hooks[k] == h;
                if k < front.len() {
                    assert(front[k] == h);
                    assert(rest.contains(h));
                    let i = choose|i: int| 0 <= i < rest.len() && rest[i] == h;
                    assert(all[i] == h);
                } else {
                    assert(all[rest.len() as int] == h);
                }
            }
        }
    }
}

impl AntigravityHooksConfig {
    /// Takes this program's hooks out of the list.
    pub fn remove_reports(&mut self)
        ensures
            final(self)@ == others(old(self)@),
    {
        let ghost all = self@;
        let mut out: Vec<AntigravityHook> = Vec::new();
        let mut i: usize = 0;
        assert(out@.map_values(|h: AntigravityHook| h@) =~= others(all.take(0)));
        while i < self.hooks.len()
            invariant
                i <= self.hooks.len(),
                *self == *old(self),
                all == self@,
                out@.map_values(|h: AntigravityHook| h@) == others(all.take(i as int)),
            decreases self.hooks.len() - i,
        {
            let h: &AntigravityHook = &self.hooks[i];
            proof {
                assert(all[i as int] == h@);
                assert(all.take(i + 1).drop_last() =~= all.take(i as int));
            }
            if !contains(h.command.as_str(), REPORT) {
                let ghost before = out@;
                let copy: AntigravityHook = AntigravityHook {
                    event: owned(h.event.as_str()),
                    command: owned(h.command.as_str()),
                };
                out.push(copy);
                assert(out@.map_values(|h: AntigravityHook| h@) =~= before.map_values(
                    |h: AntigravityHook| h@,
                ).push(copy@));
            }
            i = i + 1;
        }
        assert(all.take(all.len() as int) =~= all);
        self.hooks = out;
    }

    fn add(&mut self, event: &str, state: &str)
        ensures
            final(self)@ == old(self)@.push(report_hook(event@, state@)),
    {
        let ghost before = self@;
        let mut command: String = owned(REPORT);
        command.append(" --surface \"$CMUX_MUX_SURFACE\" --state ");
        command.append(state);
        command.append(" --source antigravity");
        self.hooks.push(AntigravityHook { event: owned(event), command });
        assert(self@ =~= before.push(report_hook(event@, state@)));
    }

    /// Puts this program's hooks at the end of the list, in place of those that were in it.
    pub fn merge_reports(&mut self)
        ensures
            final(self)@ == merged(old(self)@),
    {
        self.remove_reports();
        self.add("PreToolUse", "working");
        self.add("PostToolUse", "idle");
        self.add("Stop", "done");
    }
}

// ---- the hooks as JSON, and in a file -----------------------------------------------------

pub open spec fn hook_json(h: HookV) -> JsonV {
    empty_object().with("event"@, JsonV::Text(h.event)).with("command"@, JsonV::Text(h.command))
}

pub open spec fn hook_from(j: JsonV) -> Option<HookV> {
    match (j.part_chars("event"@, 0, 2), j.part_chars("command"@, 1, 2)) {
        (Some(event), Some(command)) => Some(HookV { event, command }),
        _ => None,
    }
}

pub open spec fn hooks_json(hooks: Seq<HookV>) -> JsonV {
    empty_object().with("hooks"@, JsonV::List(hooks.map_values(|h: HookV| hook_json(h))))
}

/// The list that a value is the JSON of; a record without one holds an empty list.
pub open spec fn hooks_from(j: JsonV) -> Option<Seq<HookV>> {
    if !j.is_record(1) {
        None
    } else {
        match j.part("hooks"@, 0, 1) {
            None => Some(seq![]),
            Some(JsonV::List(items)) => all_some(items.map_values(|h: JsonV| hook_from(h))),
            Some(_) => None,
        }
    }
}

/// The list is read back as it was written.
pub proof fn law_hooks_json(hooks: Seq<HookV>)
    ensures
        hooks_from(hooks_json(hooks)) == Some(hooks),
{
    reveal_strlit("event");
    reveal_strlit("command");
    assert("event"@.len() == 5 && "command"@.len() == 7);
    let items = hooks.map_values(|h: HookV| hook_json(h));
    let back = items.map_values(|h: JsonV| hook_from(h));
    assert forall|i: int| 0 <= i < hooks.len() implies back[i] == Some(hooks[i]) by {
        let j = hook_json(hooks[i]);
        assert(j.field_chars("event"@) == Some(hooks[i].event));
        assert(j.field_chars("command"@) == Some(hooks[i].command));
    }
    assert(back.map_values(|x: Option<HookV>| x->0) =~= hooks);
    assert(hooks_json(hooks).field("hooks"@) == Some(JsonV::List(items)));
}

impl AntigravityHooksConfig {
    /// The hooks as JSON, which gives them back.
    pub fn to_json(&self) -> (r: Json)
        ensures
            r@ == hooks_json(self@),
            hooks_from(r@) == Some(self@),
    {
        proof {
            law_hooks_json(self@);
        }
        let mut list: Vec<Json> = Vec::new();
        let mut i: usize = 0;
        while i < self.hooks.len()
            invariant
                i <= self.hooks.len(),
                list.len() == i,
                forall|k: int|
                    0 <= k < i ==> json_view(#[trigger] list@[k]) == hook_json(self.hooks@[k]@),
            decreases self.hooks.len() - i,
        {
            let mut one: Json = Json::object();
            one.set("event", Json::text(self.hooks[i].event.as_str()));
            one.set("command", Json::text(self.hooks[i].command.as_str()));
            list.push(one);
            i = i + 1;
        }
        assert(list_view(list@) =~= self@.map_values(|h: HookV| hook_json(h)));
        let mut out: Json = Json::object();
        out.set("hooks", Json::List(list));
        out
    }

    #[verifier::loop_isolation(false)]
    pub fn from_json(j: &Json) -> (r: Option<AntigravityHooksConfig>)
        ensures
            match r {
                Some(c) => hooks_from(j@) == Some(c@),
                None => hooks_from(j@) is None,
            },
    {
        if !j.is_record(1) {
            return None;
        }
        match j.part("hooks", 0, 1) {
            None => {
                let c: AntigravityHooksConfig = AntigravityHooksConfig { hooks: Vec::new() };
                assert(c@ =~= seq![]);
                Some(c)
            },
            Some(Json::List(items)) => {
                let ghost found = list_view(items@).map_values(|h: JsonV| hook_from(h));
                let mut hooks: Vec<AntigravityHook> = Vec::new();
                let mut i: usize = 0;
                while i < items.len()
                    invariant
                        i <= items.len(),
                        hooks.len() == i,
                        found == list_view(items@).map_values(|h: JsonV| hook_from(h)),
                        forall|k: int| 0 <= k < i ==> #[trigger] found[k] == Some(hooks@[k]@),
                    decreases items.len() - i,
                {
                    assert(found[i as int] == hook_from(items@[i as int]@));
                    match (
                        items[i].part_chars("event", 0, 2),
                        items[i].part_chars("command", 1, 2),
                    ) {
                        (Some(event), Some(command)) => {
                            hooks.push(
                                AntigravityHook { event: owned(event), command: owned(command) },
                            );
                        },
                        _ => {
                            return None;
                        },
                    }
                    i = i + 1;
                }
                let c: AntigravityHooksConfig = AntigravityHooksConfig { hooks };
                assert(found.map_values(|x: Option<HookV>| x->0) =~= c@);
                Some(c)
            },
            Some(_) => None,
        }
    }
}

/// What came of reading the file of the hooks: the hooks that its text is the JSON of, or why it
/// is of none; or why there is no text.
#[derive(Debug)]
pub enum HookFile {
    Missing,
    Text(Result<AntigravityHooksConfig, String>),
    Failed(String),
}

/// What is said of a file that holds no hooks.
pub open spec fn malformed(path: Seq<char>, why: Seq<char>) -> EndingV {
    failure(1, "error: malformed Antigravity config at "@ + path + ": "@ + why)
}

fn malformed_ending(path: &str, why: &str) -> (e: Ending)
    ensures
        e@ == malformed(path@, why@),
{
    let mut m: String = "error: malformed Antigravity config at ".to_string();
    m.append(path);
    m.append(": ");
    m.append(why);
    failed(1, m)
}

/// What came of reading the hooks in a text.
pub open spec fn read_view(read: Result<AntigravityHooksConfig, String>) -> Result<
    Seq<HookV>,
    Seq<char>,
> {
    match read {
        Ok(c) => Ok(c@),
        Err(why) => Err(why@),
    }
}

/// What the hooks in a file become, or how the command ends without writing. A file that is not
/// understood is never written over.
pub open spec fn change(
    read: Result<Seq<HookV>, Seq<char>>,
    path: Seq<char>,
    uninstall: bool,
) -> Result<Seq<HookV>, EndingV> {
    match read {
        Err(why) => Err(malformed(path, why)),
        Ok(hooks) => Ok(
            if uninstall {
                others(hooks)
            } else {
                merged(hooks)
            },
        ),
    }
}

pub open spec fn hooks_or_ending(r: Result<AntigravityHooksConfig, Ending>) -> Result<
    Seq<HookV>,
    EndingV,
> {
    match r {
        Ok(c) => Ok(c@),
        Err(e) => Err(e@),
    }
}

/// The hooks that are written to the file, or how the command ends without writing.
pub fn run_install(file: HookFile, path: &str, uninstall: bool) -> (r: Result<
    AntigravityHooksConfig,
    Ending,
>)
    ensures
        hooks_or_ending(r) == match file {
            HookFile::Missing => if uninstall {
                Err(said("No Antigravity hooks file found at "@, path@))
            } else {
                Ok(merged(seq![]))
            },
            HookFile::Failed(why) => Err(path_fault("reading"@, path@, why@)),
            HookFile::Text(read) => change(read_view(read), path@, uninstall),
        },
{
    match file {
        HookFile::Missing => {
            if uninstall {
                return Err(say("No Antigravity hooks file found at ", path));
            }
            let mut config: AntigravityHooksConfig = AntigravityHooksConfig { hooks: Vec::new() };
            assert(config@ =~= seq![]);
            config.merge_reports();
            Ok(config)
        },
        HookFile::Failed(why) => Err(path_failed("reading", path, why.as_str())),
        HookFile::Text(Err(why)) => Err(malformed_ending(path, why.as_str())),
        HookFile::Text(Ok(config)) => {
            let mut config: AntigravityHooksConfig = config;
            if uninstall {
                config.remove_reports();
            } else {
                config.merge_reports();
            }
            Ok(config)
        },
    }
}

/// What is reported of an agent: that it works when it is about to use a tool, that it is idle
/// after that, and that it is done when it stops, behind the hooks that are not reports.
pub proof fn law_reports_merged(hooks: Seq<HookV>, state: Seq<char>)
    ensures
        ({
            let now = merged(hooks);
            let n = others(hooks).len() as int;
            &&& now.len() == n + 3
            &&& others(hooks).is_prefix_of(now)
            &&& now[n].event == "PreToolUse"@ && now[n].command == report_command("working"@)
            &&& now[n + 1].event == "PostToolUse"@ && now[n + 1].command == report_command("idle"@)
            &&& now[n + 2].event == "Stop"@ && now[n + 2].command == report_command("done"@)
        }),
        report_command(state) == "cmux report-agent"@
            + " --surface \"$CMUX_MUX_SURFACE\" --state "@ + state + " --source antigravity"@,
{
    let n = others(hooks).len() as int;
    assert(merged(hooks).take(n) =~= others(hooks));
}

/// A hook is a report where its command starts a report of this program; the others stay in order.
pub proof fn law_others_kept(list: Seq<HookV>, h: HookV)
    ensures
        others(seq![]).len() == 0,
        occurs(h.command, "cmux report-agent"@) ==> others(list.push(h)) == others(list),
        !occurs(h.command, "cmux report-agent"@) ==> others(list.push(h)) == others(list).push(h),
{
    assert(list.push(h).drop_last() =~= list);
}

/// A hook is written with its event and its command in the fields of their names, in order.
pub proof fn law_hooks_written(hooks: Seq<HookV>, i: int)
    requires
        0 <= i < hooks.len(),
    ensures
        hooks_json(hooks).field("hooks"@) matches Some(JsonV::List(items)) && items.len()
            == hooks.len() && items[i].field("event"@) == Some(JsonV::Text(hooks[i].event))
            && items[i].field("command"@) == Some(JsonV::Text(hooks[i].command)),
{
    reveal_strlit("event");
    reveal_strlit("command");
    assert("event"@.len() == 5 && "command"@.len() == 7);
    let items = hooks.map_values(|h: HookV| hook_json(h));
    assert(hooks_json(hooks).field("hooks"@) == Some(JsonV::List(items)));
    assert(items[i] == hook_json(hooks[i]));
}

/// Installing merges the reports in, taking away leaves the others, and what cannot be understood
/// is refused.
pub proof fn law_antigravity_install(hooks: Seq<HookV>, path: Seq<char>, why: Seq<char>, un: bool)
    ensures
        change(Ok(hooks), path, false) == Ok::<Seq<HookV>, EndingV>(merged(hooks)),
        change(Ok(hooks), path, true) == Ok::<Seq<HookV>, EndingV>(others(hooks)),
        change(Err(why), path, un) matches Err(e) && e.code == 1,
{
}

/// A hook is read from a list too: its event before its command.
pub proof fn law_hook_list_read(event: Seq<char>, command: Seq<char>)
    ensures
        hook_from(JsonV::List(seq![JsonV::Text(event), JsonV::Text(command)])) == Some(
            HookV { event, command },
        ),
{
}

} // verus!
