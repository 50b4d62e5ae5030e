//! The hooks of the `codex` agent: lists by event in one file, and a switch in another.

use vstd::prelude::*;

use crate::answers::{failed, failure, Ending, EndingV};
use crate::hooks::{
    parse_hook_args, path_failed, path_fault, place, placed, requested, usage_failure, HookRequest,
};
use crate::json::{all_some, empty_object, json_view, list_view, text_or_null, Json, JsonV};
use crate::text::{
    contains, copy_opt, ends_with, join, joined, lemma_line_within, lemma_lines_behind,
    lemma_lines_joined, lemma_one_line, lines, lines_of, occurs, opt_text, owned, path_join,
    path_joined, same, texts, trim, trimmed,
};

verus! {

pub const USAGE: &'static str =
    "cmux-mux: usage: cmux-mux codex <install-hooks|install-skill> [--uninstall] [--global]";

/// What the commands of this program start with, and by which they are known.
pub const REPORT: &'static str = "cmux-mux report-agent";

#[derive(Debug)]
pub struct CodexHook {
    pub command: String,
    pub status_message: Option<String>,
}

/// The hooks of each event; of two entries for one event the later counts.
#[derive(Debug)]
pub struct CodexHooksConfig {
    pub hooks: Vec<(String, Vec<CodexHook>)>,
}

pub struct HookV {
    pub command: Seq<char>,
    pub status_message: Option<Seq<char>>,
}

pub type HooksV = Map<Seq<char>, Seq<HookV>>;

impl View for CodexHook {
    type V = HookV;

    open spec fn view(&self) -> HookV {
        HookV { command: self.command@, status_message: opt_text(self.status_message) }
    }
}

pub open spec fn hook_list(s: Seq<CodexHook>) -> Seq<HookV> {
    s.map_values(|h: CodexHook| h@)
}

pub open spec fn events_view(s: Seq<(String, Vec<CodexHook>)>) -> HooksV
    decreases s.len(),
{
    if s.len() == 0 {
        Map::empty()
    } else {
        events_view(s.drop_last()).insert(s.last().0@, hook_list(s.last().1@))
    }
}

impl View for CodexHooksConfig {
    type V = HooksV;

    open spec fn view(&self) -> HooksV {
        events_view(self.hooks@)
    }
}

impl CodexHooksConfig {
    /// Whether no two entries are for one event.
    pub open spec fn wf(self) -> bool {
        forall|i: int, j: int|
            0 <= i < j < self.hooks.len() ==> (#[trigger] self.hooks@[i]).0@ != (
            #[trigger] self.hooks@[j]).0@
    }
}

impl Default for CodexHooksConfig {
    fn default() -> (r: CodexHooksConfig)
        ensures
            r@ == Map::<Seq<char>, Seq<HookV>>::empty(),
            r.wf(),
    {
        CodexHooksConfig { hooks: Vec::new() }
    }
}

// ---- paths --------------------------------------------------------------------------------

/// The two files; without a home directory there are none, not even for a project.
pub open spec fn paths_of(global: bool, home: Option<Seq<char>>) -> Option<(Seq<char>, Seq<char>)> {
    match home {
        None => None,
        Some(h) => if global {
            Some((path_joined(h, ".codex/hooks.json"@), path_joined(h, ".codex/config.toml"@)))
        } else {
            Some((".codex/hooks.json"@, ".codex/config.toml"@))
        },
    }
}

pub fn paths(global: bool, home: &Option<String>) -> (r: Option<(String, String)>)
    ensures
        match r {
            Some((a, b)) => paths_of(global, opt_text(*home)) == Some((a@, b@)),
            None => paths_of(global, opt_text(*home)) is None,
        },
{
    match home {
        None => None,
        Some(h) => {
            if global {
                let hooks: String = path_join(h.as_str(), ".codex/hooks.json");
                let config: String = path_join(h.as_str(), ".codex/config.toml");
                Some((hooks, config))
            } else {
                Some((".codex/hooks.json".to_string(), ".codex/config.toml".to_string()))
            }
        },
    }
}

pub fn skill_path(global: bool, home: &Option<String>) -> (r: Option<String>)
    ensures
        opt_text(r) == placed(
            global,
            opt_text(*home),
            ".codex/skills/cmux-orchestration/SKILL.md"@,
            ".agents/skills/cmux-orchestration/SKILL.md"@,
        ),
{
    place(
        global,
        home,
        ".codex/skills/cmux-orchestration/SKILL.md",
        ".agents/skills/cmux-orchestration/SKILL.md",
    )
}

/// What `cmux codex` with these words asks for.
pub fn run(args: &[String]) -> (r: Result<HookRequest, Ending>)
    ensures
        match r {
            Ok(q) => requested(texts(args@), true) == Some(q),
            Err(e) => requested(texts(args@), true) is None && e@ == usage_failure(USAGE@),
        },
{
    parse_hook_args(args, true, USAGE)
}

// ---- the switch ---------------------------------------------------------------------------

/// The line that switches the hooks on.
pub const SWITCH: &'static str = "codex_hooks = true";

pub const SECTION: &'static str = "[features]";

/// Whether one of the lines is this one, but for white space around it.
pub open spec fn has_line(lines: Seq<Seq<char>>, line: Seq<char>) -> bool {
    exists|i: int| 0 <= i < lines.len() && trimmed(#[trigger] lines[i]) == line
}

/// The first line from `from` on that is this one, but for white space around it.
pub open spec fn line_at(lines: Seq<Seq<char>>, line: Seq<char>, from: int) -> Option<int>
    decreases lines.len() - from,
{
    if from < 0 || from >= lines.len() {
        None
    } else if trimmed(lines[from]) == line {
        Some(from)
    } else {
        line_at(lines, line, from + 1)
    }
}

/// The text with a line feed at its end.
pub open spec fn ended(s: Seq<char>) -> Seq<char> {
    if "\n"@.is_suffix_of(s) {
        s
    } else {
        s + "\n"@
    }
}

/// The configuration with the switch: behind the header of its section, or in a section of its
/// own at the end. Nothing where it is there already.
pub open spec fn switched(content: Seq<char>) -> Option<Seq<char>> {
    let all = lines_of(content);
    if has_line(all, SWITCH@) {
        None
    } else {
        match line_at(all, SECTION@, 0) {
            Some(i) => Some(ended(joined(all.insert(i + 1, SWITCH@), "\n"@))),
            None => {
                let front = if content.len() == 0 {
                    content
                } else {
                    ended(content)
                };
                Some(front + "\n[features]\ncodex_hooks = true\n"@)
            },
        }
    }
}

proof fn lemma_line_at(lines: Seq<Seq<char>>, line: Seq<char>, from: int)
    requires
        0 <= from,
    ensures
        match line_at(lines, line, from) {
            Some(i) => from <= i < lines.len() && trimmed(lines[i]) == line,
            None => forall|i: int| from <= i < lines.len() ==> trimmed(#[trigger] lines[i]) != line,
        },
    decreases lines.len() - from,
{
    if from < lines.len() && trimmed(lines[from]) != line {
        lemma_line_at(lines, line, from + 1);
    }
}

fn find_line(all: &Vec<String>, line: &str) -> (r: Option<usize>)
    ensures
        match r {
            Some(i) => line_at(texts(all@), line@, 0) == Some(i as int) && i < all.len(),
            None => line_at(texts(all@), line@, 0) is None,
        },
        r is Some == has_line(texts(all@), line@),
{
    proof {
        lemma_line_at(texts(all@), line@, 0);
    }
    let mut i: usize = 0;
    while i < all.len()
        invariant
            i <= all.len(),
            line_at(texts(all@), line@, 0) == line_at(texts(all@), line@, i as int),
            match line_at(texts(all@), line@, 0) {
                Some(k) => has_line(texts(all@), line@),
                None => !has_line(texts(all@), line@),
            },
        decreases all.len() - i,
    {
        assert(texts(all@)[i as int] == all@[i as int]@);
        if same(trim(all[i].as_str()).as_str(), line) {
            return Some(i);
        }
        i = i + 1;
    }
    None
}

/// The configuration with the switch; nothing where it is there already.
pub fn enable_switch(content: &str) -> (r: Option<String>)
    ensures
        opt_text(r) == switched(content@),
{
    let mut all: Vec<String> = lines(content);
    if find_line(&all, SWITCH).is_some() {
        return None;
    }
    match find_line(&all, SECTION) {
        Some(i) => {
            let ghost before = all@;
            let switch: String = owned(SWITCH);
            all.insert(i + 1, switch);
            proof {
                assert(texts(all@) =~= texts(before).insert(i + 1, SWITCH@));
            }
            let mut out: String = join(&all, "\n");
            if !ends_with(out.as_str(), "\n") {
                out.append("\n");
            }
            Some(out)
        },
        None => {
            let mut out: String = owned(content);
            if !out.as_str().is_empty() && !ends_with(out.as_str(), "\n") {
                out.append("\n");
            }
            out.append("\n[features]\ncodex_hooks = true\n");
            Some(out)
        },
    }
}

/// The switch is its own line, without white space around it.
proof fn lemma_switch()
    ensures
        SWITCH@.len() > 0,
        trimmed(SWITCH@) == SWITCH@,
        !SWITCH@.contains('\n'),
        SWITCH@.last() != '\r',
{
    reveal_strlit("codex_hooks = true");
    assert(SWITCH@.len() == 18);
    assert(SWITCH@[0] == 'c');
    assert(SWITCH@[17] == 'e');
    assert forall|k: int| 0 <= k < 18 implies SWITCH@[k] != '\n' by {}
}

/// Once the switch is in the configuration it is found there, and nothing is changed again.
pub proof fn law_switched_once(content: Seq<char>)
    ensures
        match switched(content) {
            Some(text) => switched(text) is None,
            None => has_line(lines_of(content), SWITCH@),
        },
{
    if let Some(text) = switched(content) {
        let all = lines_of(content);
        reveal_strlit("\n");
        assert("\n"@ =~= seq!['\n']);
        lemma_switch();
        lemma_line_at(all, SECTION@, 0);
        match line_at(all, SECTION@, 0) {
            Some(i) => {
                let list = all.insert(i + 1, SWITCH@);
                assert(list[i + 1] == SWITCH@);
                assert forall|k: int| 0 <= k < list.len() implies !(#[trigger] list[k]).contains(
                    '\n',
                ) by {
                    if k <= i {
                        lemma_line_within(content, k, seq![]);
                        assert(list[k] == all[k]);
                    } else if k > i + 1 {
                        lemma_line_within(content, k - 1, seq![]);
                        assert(list[k] == all[k - 1]);
                    }
                }
                let whole = joined(list, "\n"@);
                if "\n"@.is_suffix_of(whole) {
                    lemma_lines_joined(list);
                    assert(lines_of(text)[i + 1] == SWITCH@);
                } else {
                    assert forall|k: int| 0 <= k < list.push(seq![]).len() implies !(
                    #[trigger] list.push(seq![])[k]).contains('\n') by {
                        if k < list.len() {
                            assert(list.push(seq![])[k] == list[k]);
                        }
                    }
                    let longer = list.push(seq![]);
                    lemma_lines_joined(longer);
                    assert(longer.drop_last() =~= list);
                    assert(joined(longer, "\n"@) =~= whole + "\n"@);
                    assert(lines_of(text)[i + 1] == SWITCH@);
                }
                assert(trimmed(lines_of(text)[i + 1]) == SWITCH@);
            },
            None => {
                let front = if content.len() == 0 {
                    content
                } else {
                    ended(content)
                };
                let tail = "\n[features]\ncodex_hooks = true\n"@;
                reveal_strlit("\n[features]\ncodex_hooks = true\n");
                reveal_strlit("codex_hooks = true");
                let head = tail.subrange(0, 12);
                assert(tail.len() == 31);
                assert(tail =~= head + (SWITCH@ + seq!['\n']));
                assert(head.last() == '\n');
                if front.len() > 0 {
                    assert(front.last() == '\n') by {
                        if "\n"@.is_suffix_of(content) {
                            assert(content.subrange(content.len() - 1, content.len() as int)[0]
                                == '\n');
                        }
                    }
                }
                lemma_lines_behind(front, tail);
                lemma_lines_behind(head, SWITCH@ + seq!['\n']);
                lemma_one_line(SWITCH@);
                let found = lines_of(text);
                assert(found.last() == SWITCH@);
                assert(trimmed(found[found.len() - 1]) == SWITCH@);
            },
        }
    }
}

// ---- the lists ----------------------------------------------------------------------------

/// The hooks that are not this program's.
pub open spec fn others(hooks: Seq<HookV>) -> Seq<HookV>
    decreases hooks.len(),
{
    if hooks.len() == 0 {
        seq![]
    } else if occurs(hooks.last().command, REPORT@) {
        others(hooks.drop_last())
    } else {
        others(hooks.drop_last()).push(hooks.last())
    }
}

/// The hooks of every event without this program's.
pub open spec fn cleared(m: HooksV) -> HooksV {
    m.map_values(|l: Seq<HookV>| others(l))
}

/// The hooks without this program's, and without the events that have none left.
pub open spec fn removed(m: HooksV) -> HooksV {
    Map::new(
        |k: Seq<char>| m.dom().contains(k) && others(m[k]).len() > 0,
        |k: Seq<char>| others(m[k]),
    )
}

/// The hooks of an event, none where it has none.
pub open spec fn hooks_of(m: HooksV, event: Seq<char>) -> Seq<HookV> {
    if m.dom().contains(event) {
        m[event]
    } else {
        seq![]
    }
}

pub open spec fn added(m: HooksV, event: Seq<char>, h: HookV) -> HooksV {
    m.insert(event, hooks_of(m, event).push(h))
}

/// The hook that reports a state.
pub open spec fn report_hook(state: Seq<char>) -> HookV {
    HookV {
        command: REPORT@ + " --surface \"$CMUX_MUX_SURFACE\" --state "@ + state
            + " --source codex"@,
        status_message: Some("Reporting state to cmux"@),
    }
}

/// The hooks with this program's behind the others of their events, in place of those that were
/// there.
pub open spec fn merged(m: HooksV) -> HooksV {
    let a = added(cleared(m), "PreToolUse"@, report_hook("working"@));
    let b = added(a, "PostToolUse"@, report_hook("idle"@));
    added(b, "Stop"@, report_hook("done"@))
}

fn copy_hook(h: &CodexHook) -> (r: CodexHook)
    ensures
        r@ == h@,
{
    CodexHook { command: owned(h.command.as_str()), status_message: copy_opt(&h.status_message) }
}

fn keep_others(list: &Vec<CodexHook>) -> (out: Vec<CodexHook>)
    ensures
        hook_list(out@) == others(hook_list(list@)),
{
    let ghost all = hook_list(list@);
    let mut out: Vec<CodexHook> = Vec::new();
    let mut i: usize = 0;
    assert(hook_list(out@) =~= others(all.take(0)));
    while i < list.len()
        invariant
            i <= list.len(),
            all == hook_list(list@),
            hook_list(out@) == others(all.take(i as int)),
        decreases list.len() - i,
    {
        proof {
            assert(all[i as int] == list@[i as int]@);
            assert(all.take(i + 1).drop_last() =~= all.take(i as int));
        }
        if !contains(list[i].command.as_str(), REPORT) {
            let ghost before = out@;
            let h: CodexHook = copy_hook(&list[i]);
            out.push(h);
            assert(hook_list(out@) =~= hook_list(before).push(h@));
        }
        i = i + 1;
    }
    assert(all.take(all.len() as int) =~= all);
    out
}

/// The names of the entries are the domain of the map.
proof fn lemma_events_dom(s: Seq<(String, Vec<CodexHook>)>, event: Seq<char>)
    ensures
        events_view(s).dom().contains(event) == exists|k: int|
            0 <= k < s.len() && (#[trigger] s[k]).0@ == event,
    decreases s.len(),
{
    if s.len() > 0 {
        let front = s.drop_last();
        lemma_events_dom(front, event);
        if exists|k: int| 0 <= k < front.len() && (#[trigger] front[k]).0@ == event {
            let k = choose|k: int| 0 <= k < front.len() && (#[trigger] front[k]).0@ == event;
            assert(s[k].0@ == event);
        }
        if exists|k: int| 0 <= k < s.len() && (#[trigger] s[k]).0@ == event {
            let k = choose|k: int| 0 <= k < s.len() && (#[trigger] s[k]).0@ == event;
            if k < front.len() {
                assert(front[k].0@ == event);
            }
        }
    }
}

proof fn lemma_events_finite(s: Seq<(String, Vec<CodexHook>)>)
    ensures
        events_view(s).dom().finite(),
    decreases s.len(),
{
    if s.len() > 0 {
        lemma_events_finite(s.drop_last());
    }
}

impl CodexHooksConfig {
    /// Takes this program's hooks out of every event.
    pub fn clear_reports(&mut self)
        requires
            old(self).wf(),
        ensures
            final(self)@ == cleared(old(self)@),
            final(self).wf(),
    {
        let ghost all = self.hooks@;
        let mut out: Vec<(String, Vec<CodexHook>)> = Vec::new();
        let mut i: usize = 0;
        assert(events_view(out@) =~= cleared(events_view(all.take(0))));
        while i < self.hooks.len()
            invariant
                i <= self.hooks.len(),
                *self == *old(self),
                self.wf(),
                all == self.hooks@,
                events_view(out@) == cleared(events_view(all.take(i as int))),
                out.len() <= i,
                forall|a: int, b: int|
                    0 <= a < b < out.len() ==> (#[trigger] out@[a]).0@ != (#[trigger] out@[b]).0@,
                forall|a: int, b: int|
                    0 <= a < out.len() && i <= b < all.len() ==> (#[trigger] out@[a]).0@ != (
                    #[trigger] all[b]).0@,
            decreases self.hooks.len() - i,
        {
            let ghost before = out@;
            let name: String = owned(self.hooks[i].0.as_str());
            let kept: Vec<CodexHook> = keep_others(&self.hooks[i].1);
            assert(name@ == all[i as int].0@);
            out.push((name, kept));
            proof {
                assert(out@.drop_last() =~= before);
                assert(all.take(i + 1).drop_last() =~= all.take(i as int));
                assert(events_view(out@) =~= cleared(events_view(all.take(i + 1))));
            }
            i = i + 1;
        }
        assert(all.take(all.len() as int) =~= all);
        self.hooks = out;
    }

    /// Takes this program's hooks out of every event, and out of the file the events that have
    /// no other.
    pub fn remove_reports(&mut self)
        requires
            old(self).wf(),
        ensures
            final(self)@ == removed(old(self)@),
            final(self).wf(),
    {
        let ghost all = self.hooks@;
        let mut out: Vec<(String, Vec<CodexHook>)> = Vec::new();
        let mut i: usize = 0;
        assert(events_view(out@) =~= removed(events_view(all.take(0))));
        while i < self.hooks.len()
            invariant
                i <= self.hooks.len(),
                *self == *old(self),
                self.wf(),
                all == self.hooks@,
                events_view(out@) == removed(events_view(all.take(i as int))),
                out.len() <= i,
                forall|a: int, b: int|
                    0 <= a < b < out.len() ==> (#[trigger] out@[a]).0@ != (#[trigger] out@[b]).0@,
                forall|a: int, b: int|
                    0 <= a < out.len() && i <= b < all.len() ==> (#[trigger] out@[a]).0@ != (
                    #[trigger] all[b]).0@,
            decreases self.hooks.len() - i,
        {
            let ghost before = out@;
            let kept: Vec<CodexHook> = keep_others(&self.hooks[i].1);
            proof {
                assert(all.take(i + 1).drop_last() =~= all.take(i as int));
                lemma_events_dom(all.take(i as int), all[i as int].0@);
                if events_view(all.take(i as int)).dom().contains(all[i as int].0@) {
                    let was = all.take(i as int);
                    let k = choose|k: int|
                        0 <= k < was.len() && (#[trigger] was[k]).0@ == all[i as int].0@;
                    assert(self.hooks@[k].0@ != self.hooks@[i as int].0@);
                }
            }
            if kept.len() > 0 {
                let name: String = owned(self.hooks[i].0.as_str());
                assert(name@ == all[i as int].0@);
                out.push((name, kept));
                assert(out@.drop_last() =~= before);
            }
            proof {
                assert(hook_list(kept@).len() == kept.len());
                assert(events_view(out@) =~= removed(events_view(all.take(i + 1))));
            }
            i = i + 1;
        }
        assert(all.take(all.len() as int) =~= all);
        self.hooks = out;
    }

    /// The hooks of an event, none where it has none.
    fn list_of(&self, event: &str) -> (out: Vec<CodexHook>)
        ensures
            hook_list(out@) == hooks_of(self@, event@),
    {
        let mut i: usize = self.hooks.len();
        let ghost all = events_view(self.hooks@);
        assert(self.hooks@.take(i as int) =~= self.hooks@);
        while i > 0
            invariant
                i <= self.hooks.len(),
                all == events_view(self.hooks@),
                all.dom().contains(event@) == events_view(
                    self.hooks@.take(i as int),
                ).dom().contains(event@),
                events_view(self.hooks@.take(i as int)).dom().contains(event@) ==> all[event@]
                    == events_view(self.hooks@.take(i as int))[event@],
            decreases i,
        {
            proof {
                assert(self.hooks@.take(i as int).drop_last() =~= self.hooks@.take(i - 1));
            }
            i = i - 1;
            if same(self.hooks[i].0.as_str(), event) {
                return copy_list(&self.hooks[i].1);
            }
        }
        let out: Vec<CodexHook> = Vec::new();
        assert(hook_list(out@) =~= seq![]);
        out
    }

    /// Takes the entry of an event out.
    fn drop_event(&mut self, event: &str)
        requires
            old(self).wf(),
        ensures
            final(self)@ == old(self)@.remove(event@),
            final(self).wf(),
            forall|k: int| 0 <= k < final(self).hooks.len() ==> (#[trigger] final(self).hooks@[k]).0@ != event@,
    {
        let ghost all = self.hooks@;
        let mut out: Vec<(String, Vec<CodexHook>)> = Vec::new();
        let mut i: usize = 0;
        assert(events_view(out@) =~= events_view(all.take(0)).remove(event@));
        while i < self.hooks.len()
            invariant
                i <= self.hooks.len(),
                *self == *old(self),
                self.wf(),
                all == self.hooks@,
                events_view(out@) == events_view(all.take(i as int)).remove(event@),
                forall|k: int| 0 <= k < out.len() ==> (#[trigger] out@[k]).0@ != event@,
                out.len() <= i,
                forall|a: int, b: int|
                    0 <= a < b < out.len() ==> (#[trigger] out@[a]).0@ != (#[trigger] out@[b]).0@,
                forall|a: int, b: int|
                    0 <= a < out.len() && i <= b < all.len() ==> (#[trigger] out@[a]).0@ != (
                    #[trigger] all[b]).0@,
            decreases self.hooks.len() - i,
        {
            let ghost before = out@;
            if !same(self.hooks[i].0.as_str(), event) {
                let name: String = owned(self.hooks[i].0.as_str());
                assert(name@ == all[i as int].0@);
                out.push((name, copy_list(&self.hooks[i].1)));
                assert(out@.drop_last() =~= before);
            }
            proof {
                assert(all.take(i + 1).drop_last() =~= all.take(i as int));
                assert(events_view(out@) =~= events_view(all.take(i + 1)).remove(event@));
            }
            i = i + 1;
        }
        assert(all.take(all.len() as int) =~= all);
        self.hooks = out;
    }

    fn add(&mut self, event: &str, state: &str)
        requires
            old(self).wf(),
        ensures
            final(self)@ == added(old(self)@, event@, report_hook(state@)),
            final(self).wf(),
    {
        let mut list: Vec<CodexHook> = self.list_of(event);
        let mut command: String = owned(REPORT);
        command.append(" --surface \"$CMUX_MUX_SURFACE\" --state ");
        command.append(state);
        command.append(" --source codex");
        let h: CodexHook = CodexHook {
            command,
            status_message: Some("Reporting state to cmux".to_string()),
        };
        let ghost before = list@;
        list.push(h);
        assert(hook_list(list@) =~= hook_list(before).push(h@));
        self.drop_event(event);
        let ghost was = self.hooks@;
        self.hooks.push((owned(event), list));
        assert(self.hooks@.drop_last() =~= was);
        assert(self@ =~= added(old(self)@, event@, report_hook(state@)));
    }

    /// Puts this program's hooks behind the others of their events, in place of those that were
    /// there.
    pub fn merge_reports(&mut self)
        requires
            old(self).wf(),
        ensures
            final(self)@ == merged(old(self)@),
            final(self).wf(),
    {
        self.clear_reports();
        self.add("PreToolUse", "working");
        self.add("PostToolUse", "idle");
        self.add("Stop", "done");
    }
}

fn copy_list(list: &Vec<CodexHook>) -> (out: Vec<CodexHook>)
    ensures
        hook_list(out@) == hook_list(list@),
{
    let mut out: Vec<CodexHook> = Vec::new();
    let mut i: usize = 0;
    while i < list.len()
        invariant
            i <= list.len(),
            out.len() == i,
            forall|k: int| 0 <= k < i ==> (#[trigger] out@[k])@ == list@[k]@,
        decreases list.len() - i,
    {
        out.push(copy_hook(&list[i]));
        i = i + 1;
    }
    assert(hook_list(out@) =~= hook_list(list@));
    out
}

proof fn lemma_report_known(state: Seq<char>)
    ensures
        occurs(report_hook(state).command, REPORT@),
{
    let c = report_hook(state).command;
    assert(c.subrange(0, REPORT@.len() as int) =~= REPORT@);
    assert(crate::text::stands_at(c, REPORT@, 0));
}

proof fn lemma_others_twice(hooks: Seq<HookV>)
    ensures
        others(others(hooks)) == others(hooks),
    decreases hooks.len(),
{
    if hooks.len() > 0 {
        lemma_others_twice(hooks.drop_last());
        if !occurs(hooks.last().command, REPORT@) {
            assert(others(hooks).drop_last() =~= others(hooks.drop_last()));
        }
    }
}

proof fn lemma_others_push(hooks: Seq<HookV>, state: Seq<char>)
    ensures
        others(hooks.push(report_hook(state))) == others(hooks),
{
    lemma_report_known(state);
    assert(hooks.push(report_hook(state)).drop_last() =~= hooks);
}

/// The three events differ.
proof fn lemma_events_differ()
    ensures
        "PreToolUse"@ != "PostToolUse"@,
        "PreToolUse"@ != "Stop"@,
        "PostToolUse"@ != "Stop"@,
{
    reveal_strlit("PreToolUse");
    reveal_strlit("PostToolUse");
    reveal_strlit("Stop");
    assert("PreToolUse"@.len() == 10 && "PostToolUse"@.len() == 11 && "Stop"@.len() == 4);
}

/// What the others of an event are after a merge: what they were before.
proof fn lemma_merged_others(m: HooksV, event: Seq<char>)
    ensures
        others(hooks_of(merged(m), event)) == others(hooks_of(m, event)),
        merged(m).dom().contains(event) <==> m.dom().contains(event) || event == "PreToolUse"@
            || event == "PostToolUse"@ || event == "Stop"@,
{
    lemma_events_differ();
    let base = hooks_of(cleared(m), event);
    assert(base =~= others(hooks_of(m, event)));
    lemma_others_twice(hooks_of(m, event));
    lemma_others_push(base, "working"@);
    lemma_others_push(base, "idle"@);
    lemma_others_push(base, "done"@);
}

/// Installing twice is installing once; uninstalling after installing leaves what uninstalling
/// alone would; and the hooks of others stay, in their order.
pub proof fn law_hooks_merge(m: HooksV)
    ensures
        merged(merged(m)) == merged(m),
        removed(merged(m)) == removed(m),
        forall|event: Seq<char>|
            others(#[trigger] hooks_of(merged(m), event)) == others(hooks_of(m, event)),
{
    assert forall|event: Seq<char>| others(#[trigger] hooks_of(merged(m), event)) == others(
        hooks_of(m, event),
    ) by {
        lemma_merged_others(m, event);
    }
    assert(removed(merged(m)) =~= removed(m)) by {
        assert forall|event: Seq<char>|
            #![trigger removed(merged(m)).dom().contains(event)]
            #![trigger removed(m).dom().contains(event)]
            {
                &&& removed(merged(m)).dom().contains(event) <==> removed(m).dom().contains(event)
                &&& removed(m).dom().contains(event) ==> removed(merged(m))[event]
                    == removed(m)[event]
            } by {
            lemma_merged_others(m, event);
            assert(others(Seq::<HookV>::empty()) =~= seq![]);
        }
    }
    lemma_events_differ();
    let c1 = cleared(m);
    let c2 = cleared(merged(m));
    assert forall|event: Seq<char>| hooks_of(c2, event) == hooks_of(c1, event) by {
        lemma_merged_others(m, event);
        assert(others(Seq::<HookV>::empty()) =~= seq![]);
    }
    assert(merged(merged(m)) =~= merged(m)) by {
        assert forall|event: Seq<char>|
            #![trigger merged(merged(m)).dom().contains(event)]
            #![trigger merged(m).dom().contains(event)]
            {
                &&& merged(merged(m)).dom().contains(event) <==> merged(m).dom().contains(event)
                &&& merged(m).dom().contains(event) ==> merged(merged(m))[event]
                    == merged(m)[event]
            } by {
            lemma_merged_others(m, event);
            lemma_merged_others(merged(m), event);
            assert(hooks_of(c2, event) == hooks_of(c1, event));
        }
    }
}

// ---- the file -----------------------------------------------------------------------------

pub open spec fn hook_json(h: HookV) -> JsonV {
    empty_object().with("command"@, JsonV::Text(h.command)).with(
        "statusMessage"@,
        text_or_null(h.status_message),
    )
}

pub open spec fn hook_from(j: JsonV) -> Option<HookV> {
    match (j.part_chars("command"@, 0, 2), j.part_opt_chars("statusMessage"@, 1, 2)) {
        (Some(command), Some(status_message)) => Some(HookV { command, status_message }),
        _ => None,
    }
}

pub open spec fn list_json(l: Seq<HookV>) -> JsonV {
    JsonV::List(l.map_values(|h: HookV| hook_json(h)))
}

pub open spec fn list_from(j: JsonV) -> Option<Seq<HookV>> {
    match j {
        JsonV::List(items) => all_some(items.map_values(|h: JsonV| hook_from(h))),
        _ => None,
    }
}

pub open spec fn hooks_json(m: HooksV) -> JsonV {
    empty_object().with("hooks"@, JsonV::Object(m.map_values(|l: Seq<HookV>| list_json(l))))
}

/// The lists that the fields of an object are the JSON of.
pub open spec fn lists_of(v: JsonV) -> HooksV {
    Map::new(|k: Seq<char>| v.field(k) is Some, |k: Seq<char>| list_from(v.field(k)->0)->0)
}

/// The hooks that a value is the JSON of; a record without any holds none.
pub open spec fn hooks_from(j: JsonV) -> Option<HooksV> {
    if !j.is_record(1) {
        None
    } else {
        match j.part("hooks"@, 0, 1) {
            None => Some(Map::empty()),
            Some(v) => if v is Object && forall|k: Seq<char>| #[trigger]
                v.field(k) is Some ==> list_from(v.field(k)->0) is Some {
                Some(lists_of(v))
            } else {
                None
            },
        }
    }
}

/// The hooks are read back as they were written.
pub proof fn law_hooks_json(m: HooksV)
    requires
        m.dom().finite(),
    ensures
        hooks_from(hooks_json(m)) == Some(m),
{
    let v = JsonV::Object(m.map_values(|l: Seq<HookV>| list_json(l)));
    assert(v->Object_0.dom() =~= m.dom());
    assert(hooks_json(m).field("hooks"@) == Some(v));
    assert forall|k: Seq<char>| #[trigger] v.field(k) is Some implies list_from(v.field(k)->0)
        == Some(m[k]) by {
        lemma_list_back(m[k]);
    }
    assert(lists_of(v) =~= m);
}

proof fn lemma_list_back(l: Seq<HookV>)
    ensures
        list_from(list_json(l)) == Some(l),
{
    reveal_strlit("command");
    reveal_strlit("statusMessage");
    assert("command"@.len() == 7 && "statusMessage"@.len() == 13);
    let items = l.map_values(|h: HookV| hook_json(h));
    let back = items.map_values(|h: JsonV| hook_from(h));
    assert forall|i: int| 0 <= i < l.len() implies back[i] == Some(l[i]) by {
        let j = hook_json(l[i]);
        assert(j.field_chars("command"@) == Some(l[i].command));
        assert(j.field_opt_chars("statusMessage"@) == Some(l[i].status_message));
    }
    assert(back.map_values(|x: Option<HookV>| x->0) =~= l);
}

fn write_list(list: &Vec<CodexHook>) -> (r: Json)
    ensures
        r@ == list_json(hook_list(list@)),
{
    let mut out: Vec<Json> = Vec::new();
    let mut i: usize = 0;
    while i < list.len()
        invariant
            i <= list.len(),
            out.len() == i,
            forall|k: int| 0 <= k < i ==> json_view(#[trigger] out@[k]) == hook_json(list@[k]@),
        decreases list.len() - i,
    {
        let mut one: Json = Json::object();
        one.set("command", Json::text(list[i].command.as_str()));
        one.set("statusMessage", Json::text_or_null(&list[i].status_message));
        out.push(one);
        i = i + 1;
    }
    assert(list_view(out@) =~= hook_list(list@).map_values(|h: HookV| hook_json(h)));
    Json::List(out)
}

#[verifier::loop_isolation(false)]
fn read_list(j: &Json) -> (r: Option<Vec<CodexHook>>)
    ensures
        match r {
            Some(l) => list_from(j@) == Some(hook_list(l@)),
            None => list_from(j@) is None,
        },
{
    match j {
        Json::List(items) => {
            let ghost found = list_view(items@).map_values(|h: JsonV| hook_from(h));
            let mut out: Vec<CodexHook> = Vec::new();
            let mut i: usize = 0;
            while i < items.len()
                invariant
                    i <= items.len(),
                    out.len() == i,
                    found == list_view(items@).map_values(|h: JsonV| hook_from(h)),
                    forall|k: int| 0 <= k < i ==> #[trigger] found[k] == Some(out@[k]@),
                decreases items.len() - i,
            {
                assert(found[i as int] == hook_from(items@[i as int]@));
                match (
                    items[i].part_chars("command", 0, 2),
                    items[i].part_opt_chars("statusMessage", 1, 2),
                ) {
                    (Some(command), Some(status_message)) => {
                        out.push(CodexHook { command: owned(command), status_message });
                    },
                    _ => {
                        return None;
                    },
                }
                i = i + 1;
            }
            assert(found.map_values(|x: Option<HookV>| x->0) =~= hook_list(out@));
            Some(out)
        },
        _ => None,
    }
}

impl CodexHooksConfig {
    /// The hooks as JSON, which gives them back.
    pub fn to_json(&self) -> (r: Json)
        ensures
            r@ == hooks_json(self@),
            hooks_from(r@) == Some(self@),
    {
        proof {
            lemma_events_finite(self.hooks@);
            law_hooks_json(self@);
        }
        let mut inner: Json = Json::object();
        let ghost all = self.hooks@;
        let mut i: usize = 0;
        assert(inner@ == JsonV::Object(
            events_view(all.take(0)).map_values(|l: Seq<HookV>| list_json(l)),
        )) by {
            assert(events_view(all.take(0)).map_values(|l: Seq<HookV>| list_json(l)) =~= Map::<
                Seq<char>,
                JsonV,
            >::empty());
        }
        while i < self.hooks.len()
            invariant
                i <= self.hooks.len(),
                all == self.hooks@,
                inner@ == JsonV::Object(
                    events_view(all.take(i as int)).map_values(|l: Seq<HookV>| list_json(l)),
                ),
            decreases self.hooks.len() - i,
        {
            let ghost before = events_view(all.take(i as int));
            let ghost after = events_view(all.take(i + 1));
            proof {
                assert(all.take(i + 1).drop_last() =~= all.take(i as int));
            }
            inner.set(self.hooks[i].0.as_str(), write_list(&self.hooks[i].1));
            proof {
                assert(after.map_values(|l: Seq<HookV>| list_json(l)) =~= before.map_values(
                    |l: Seq<HookV>| list_json(l),
                ).insert(all[i as int].0@, list_json(hook_list(all[i as int].1@))));
            }
            i = i + 1;
        }
        assert(all.take(all.len() as int) =~= all);
        let mut out: Json = Json::object();
        out.set("hooks", inner);
        out
    }

    #[verifier::loop_isolation(false)]
    pub fn from_json(j: &Json) -> (r: Option<CodexHooksConfig>)
        ensures
            match r {
                Some(c) => hooks_from(j@) == Some(c@) && c.wf(),
                None => hooks_from(j@) is None,
            },
    {
        if !j.is_record(1) {
            return None;
        }
        let v: &Json = match j.part("hooks", 0, 1) {
            None => {
                return Some(CodexHooksConfig { hooks: Vec::new() });
            },
            Some(v) => v,
        };
        match v {
            Json::Object(_) => {},
            _ => {
                return None;
            },
        }
        let names: Vec<String> = v.names();
        let ghost all = texts(names@);
        let mut out: Vec<(String, Vec<CodexHook>)> = Vec::new();
        let mut i: usize = 0;
        while i < names.len()
            invariant
                i <= names.len(),
                all == texts(names@),
                out.len() == i,
                forall|k: int| 0 <= k < i ==> (#[trigger] out@[k]).0@ == all[k],
                forall|k: int|
                    0 <= k < i ==> v@.field(#[trigger] all[k]) is Some && list_from(
                        v@.field(all[k])->0,
                    ) is Some,
                forall|k: Seq<char>| #[trigger]
                    events_view(out@).dom().contains(k) <==> all.take(i as int).contains(k),
                forall|k: Seq<char>| #[trigger]
                    events_view(out@).dom().contains(k) ==> v@.field(k) is Some && list_from(
                        v@.field(k)->0,
                    ) == Some(events_view(out@)[k]),
            decreases names.len() - i,
        {
            let ghost before = out@;
            proof {
                assert(all[i as int] == names@[i as int]@);
                assert(all.contains(all[i as int]));
                assert forall|k: Seq<char>| #[trigger]
                    all.take(i + 1).contains(k) <==> all.take(i as int).contains(k) || k
                        == all[i as int] by {
                    let now = all.take(i + 1);
                    let was = all.take(i as int);
                    if was.contains(k) {
                        let p = choose|p: int| 0 <= p < was.len() && was[p] == k;
                        assert(now[p] == k);
                    }
                    if k == all[i as int] {
                        assert(now[i as int] == k);
                    }
                    if now.contains(k) && k != all[i as int] {
                        let p = choose|p: int| 0 <= p < now.len() && now[p] == k;
                        assert(was[p] == k);
                    }
                }
            }
            let list: Vec<CodexHook> = match v.get(names[i].as_str()) {
                Some(l) => match read_list(l) {
                    Some(list) => list,
                    None => {
                        return None;
                    },
                },
                None => {
                    return None;
                },
            };
            out.push((owned(names[i].as_str()), list));
            proof {
                assert(out@.drop_last() =~= before);
                assert(events_view(out@) == events_view(before).insert(
                    all[i as int],
                    hook_list(list@),
                ));
                assert forall|k: Seq<char>| #[trigger]
                    events_view(out@).dom().contains(k) <==> all.take(i + 1).contains(k) by {
                    assert(events_view(before).dom().contains(k) <==> all.take(i as int).contains(
                        k,
                    ));
                    assert(all.take(i + 1).contains(k) <==> all.take(i as int).contains(k) || k
                        == all[i as int]);
                }
                assert forall|k: Seq<char>| #[trigger]
                    events_view(out@).dom().contains(k) implies v@.field(k) is Some && list_from(
                    v@.field(k)->0,
                ) == Some(events_view(out@)[k]) by {
                    if k != all[i as int] {
                        assert(events_view(before).dom().contains(k));
                    }
                }
            }
            i = i + 1;
        }
        let c: CodexHooksConfig = CodexHooksConfig { hooks: out };
        proof {
            assert(all.take(all.len() as int) =~= all);
            assert forall|k: Seq<char>| #[trigger] v@.field(k) is Some implies list_from(
                v@.field(k)->0,
            ) is Some by {
                assert(all.contains(k));
                assert(events_view(out@).dom().contains(k));
            }
            assert(lists_of(v@) =~= c@) by {
                assert forall|k: Seq<char>| lists_of(v@).dom().contains(k) <==> c@.dom().contains(
                    k,
                ) by {
                    assert(all.contains(k) <==> v@.field(k) is Some);
                    assert(events_view(out@).dom().contains(k) <==> all.take(
                        all.len() as int,
                    ).contains(k));
                }
                assert forall|k: Seq<char>| lists_of(v@).dom().contains(k) implies lists_of(v@)[k]
                    == c@[k] by {
                    assert(events_view(out@).dom().contains(k));
                }
            }
            assert forall|a: int, b: int| 0 <= a < b < c.hooks.len() implies (
            #[trigger] c.hooks@[a]).0@ != (#[trigger] c.hooks@[b]).0@ by {
                assert(all[a] != all[b]);
            }
        }
        Some(c)
    }
}

/// What came of reading the file of the hooks: the hooks that its text is the JSON of, or why it
/// is of none; or why there is no text.
#[derive(Debug)]
pub enum HookFile {
    Missing,
    Text(Result<CodexHooksConfig, String>),
    Failed(String),
}

pub open spec fn malformed(path: Seq<char>, why: Seq<char>) -> EndingV {
    failure(1, "error: malformed Codex hooks config at "@ + path + ": "@ + why)
}

fn malformed_ending(path: &str, why: &str) -> (e: Ending)
    ensures
        e@ == malformed(path@, why@),
{
    let mut m: String = "error: malformed Codex hooks config at ".to_string();
    m.append(path);
    m.append(": ");
    m.append(why);
    failed(1, m)
}

/// What came of reading the hooks in a text.
pub open spec fn read_view(read: Result<CodexHooksConfig, String>) -> Result<HooksV, Seq<char>> {
    match read {
        Ok(c) => Ok(c@),
        Err(why) => Err(why@),
    }
}

/// What the hooks in a file become, or how the command ends without writing. To install, the file
/// has to be understood; to uninstall, one that is not counts as one without hooks.
pub open spec fn change(
    read: Result<HooksV, Seq<char>>,
    path: Seq<char>,
    uninstall: bool,
) -> Result<HooksV, EndingV> {
    match read {
        Err(why) => if uninstall {
            Ok(Map::empty())
        } else {
            Err(malformed(path, why))
        },
        Ok(m) => Ok(
            if uninstall {
                removed(m)
            } else {
                merged(m)
            },
        ),
    }
}

pub open spec fn hooks_or_ending(r: Result<Option<CodexHooksConfig>, Ending>) -> Result<
    Option<HooksV>,
    EndingV,
> {
    match r {
        Ok(Some(c)) => Ok(Some(c@)),
        Ok(None) => Ok(None),
        Err(e) => Err(e@),
    }
}

/// What is written to the file of the hooks: nothing where there is no file to uninstall from.
pub open spec fn installing(file: HookFile, path: Seq<char>, uninstall: bool) -> Result<
    Option<HooksV>,
    EndingV,
> {
    match file {
        HookFile::Missing => if uninstall {
            Ok(None)
        } else {
            Ok(Some(merged(Map::empty())))
        },
        HookFile::Failed(why) => Err(path_fault("reading"@, path, why@)),
        HookFile::Text(read) => match change(read_view(read), path, uninstall) {
            Ok(m) => Ok(Some(m)),
            Err(e) => Err(e),
        },
    }
}

/// The hooks that are written to the file, or how the command ends without writing.
pub fn run_install(file: HookFile, path: &str, uninstall: bool) -> (r: Result<
    Option<CodexHooksConfig>,
    Ending,
>)
    requires
        file matches HookFile::Text(Ok(c)) ==> c.wf(),
    ensures
        hooks_or_ending(r) == installing(file, path@, uninstall),
        r matches Ok(Some(c)) ==> c.wf(),
{
    match file {
        HookFile::Missing => {
            if uninstall {
                return Ok(None);
            }
            let mut config: CodexHooksConfig = CodexHooksConfig { hooks: Vec::new() };
            config.merge_reports();
            Ok(Some(config))
        },
        HookFile::Failed(why) => Err(path_failed("reading", path, why.as_str())),
        HookFile::Text(Err(why)) => {
            if uninstall {
                Ok(Some(CodexHooksConfig { hooks: Vec::new() }))
            } else {
                Err(malformed_ending(path, why.as_str()))
            }
        },
        HookFile::Text(Ok(config)) => {
            let mut config: CodexHooksConfig = config;
            if uninstall {
                config.remove_reports();
            } else {
                config.merge_reports();
            }
            Ok(Some(config))
        },
    }
}

/// What is reported of an agent: that it works when it is about to use a tool, that it is idle
/// after that, and that it is done when it stops. Behind the other hooks of the event stands one
/// report, and every other event keeps what is not a report.
pub proof fn law_reports_merged(m: HooksV, event: Seq<char>)
    ensures
        hooks_of(merged(m), "PreToolUse"@) == others(hooks_of(m, "PreToolUse"@)).push(
            report_hook("working"@),
        ),
        hooks_of(merged(m), "PostToolUse"@) == others(hooks_of(m, "PostToolUse"@)).push(
            report_hook("idle"@),
        ),
        hooks_of(merged(m), "Stop"@) == others(hooks_of(m, "Stop"@)).push(report_hook("done"@)),
        event != "PreToolUse"@ && event != "PostToolUse"@ && event != "Stop"@ ==> hooks_of(
            merged(m),
            event,
        ) == others(hooks_of(m, event)),
        hooks_of(removed(m), event) == others(hooks_of(m, event)),
        removed(m).dom().contains(event) ==> removed(m)[event].len() > 0,
{
    reveal_strlit("PreToolUse");
    reveal_strlit("PostToolUse");
    reveal_strlit("Stop");
    assert("PreToolUse"@.len() == 10 && "PostToolUse"@.len() == 11 && "Stop"@.len() == 4);
    assert(others(seq![]) =~= seq![]);
    assert(hooks_of(removed(m), event) =~= others(hooks_of(m, event)));
}

/// A report names the state behind `--state` and the agent as its source.
pub proof fn law_report(state: Seq<char>)
    ensures
        report_hook(state).command == "cmux-mux report-agent"@
            + " --surface \"$CMUX_MUX_SURFACE\" --state "@ + state + " --source codex"@,
        report_hook(state).status_message == Some("Reporting state to cmux"@),
{
}

/// A hook is a report where its command starts a report of this program; the others stay in order.
pub proof fn law_others_kept(list: Seq<HookV>, h: HookV)
    ensures
        others(seq![]).len() == 0,
        occurs(h.command, "cmux-mux report-agent"@) ==> others(list.push(h)) == others(list),
        !occurs(h.command, "cmux-mux report-agent"@) ==> others(list.push(h)) == others(list).push(
            h,
        ),
{
    assert(list.push(h).drop_last() =~= list);
}

/// A hook is written with its command and its message in the fields of their names, below its
/// event, in order.
pub proof fn law_hooks_written(m: HooksV, event: Seq<char>, i: int)
    requires
        m.dom().finite(),
        m.dom().contains(event),
        0 <= i < m[event].len(),
    ensures
        hooks_json(m).field("hooks"@) matches Some(all) && all.field(event) matches Some(
            JsonV::List(items),
        ) && items.len() == m[event].len() && items[i].field("command"@) == Some(
            JsonV::Text(m[event][i].command),
        ) && items[i].field("statusMessage"@) == Some(text_or_null(m[event][i].status_message)),
{
    reveal_strlit("command");
    reveal_strlit("statusMessage");
    assert("command"@.len() == 7 && "statusMessage"@.len() == 13);
    let all = JsonV::Object(m.map_values(|l: Seq<HookV>| list_json(l)));
    assert(hooks_json(m).field("hooks"@) == Some(all));
    assert(m.map_values(|l: Seq<HookV>| list_json(l)).dom() =~= m.dom());
    assert(all.field(event) == Some(list_json(m[event])));
    let items = m[event].map_values(|h: HookV| hook_json(h));
    assert(items[i] == hook_json(m[event][i]));
}

/// Where the two files are: below the home directory for every project, else in the project.
pub proof fn law_codex_paths(home: Seq<char>)
    ensures
        paths_of(true, Some(home)) == Some(
            (
                path_joined(home, ".codex/hooks.json"@),
                path_joined(home, ".codex/config.toml"@),
            ),
        ),
        paths_of(false, Some(home)) == Some((".codex/hooks.json"@, ".codex/config.toml"@)),
        paths_of(true, None) is None,
{
}

/// What is written: a file that is not there is made on installing and left alone on taking away;
/// what cannot be understood is refused on installing and replaced on taking away.
pub proof fn law_codex_install(m: HooksV, why: Seq<char>, path: Seq<char>, none: HookFile)
    requires
        none is Missing,
    ensures
        installing(none, path, true) == Ok::<Option<HooksV>, EndingV>(None),
        installing(none, path, false) matches Ok(Some(now)) && hooks_of(now, "Stop"@) == seq![
            report_hook("done"@),
        ],
        change(Ok(m), path, false) == Ok::<HooksV, EndingV>(merged(m)),
        change(Ok(m), path, true) == Ok::<HooksV, EndingV>(removed(m)),
        change(Err(why), path, false) matches Err(e) && e.code == 1,
        change(Err(why), path, true) == Ok::<HooksV, EndingV>(Map::empty()),
{
    law_reports_merged(Map::empty(), "Stop"@);
    assert(others(seq![]) =~= seq![]);
    assert(hooks_of(Map::empty(), "Stop"@) =~= seq![]);
    assert(others(seq![]).push(report_hook("done"@)) =~= seq![report_hook("done"@)]);
}

/// A hook is read from a list too: its command before its message.
pub proof fn law_hook_list_read(command: Seq<char>, message: Seq<char>)
    ensures
        hook_from(JsonV::List(seq![JsonV::Text(command), JsonV::Text(message)])) == Some(
            HookV { command, status_message: Some(message) },
        ),
        hook_from(JsonV::List(seq![JsonV::Text(command)])) == Some(
            HookV { command, status_message: None },
        ),
{
}

} // verus!
