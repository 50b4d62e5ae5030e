//! The plugin and the skills for `opencode`.

use vstd::prelude::*;

use crate::answers::{succeeded, success, Ending, EndingV};
use crate::hooks::{
    parse_hook_args, path_failed, path_fault, place, placed, requested, said, say,
    strip_marked_block, stripped, usage_failure, write_end, write_ending, HookRequest, Outcome,
};
use crate::text::{append_decimal, decimal, opt_text, same, texts, trim, trimmed};

verus! {

pub const USAGE: &'static str =
    "mtyx: usage: mtyx opencode <install-hooks|install-skill> [--uninstall] [--global]";

/// The plugin, between its marks.
pub const MTYX_PLUGIN: &'static str = r#"// MTYX-START
// mtyx agent-state reporting plugin for opencode
// Installed by: mtyx opencode install-hooks
// Removed by: mtyx opencode install-hooks --uninstall
import { exec } from "node:child_process"

function reportAgent(state: string) {
  const surface = process.env.MTYX_MUX_SURFACE
  if (!surface) return
  exec(`mtyx report-agent --surface ${surface} --state ${state} --source hook`)
}

export default async () => {
  return {
    "tool.execute.before": async () => {
      reportAgent("working")
    },
    "tool.execute.after": async () => {
      reportAgent("idle")
    },
  }
}
// MTYX-END
"#;

pub const PLUGIN_START: &'static str = "MTYX-START";

pub const PLUGIN_END: &'static str = "MTYX-END";

pub fn plugin_path(global: bool, home: &Option<String>) -> (r: Option<String>)
    ensures
        opt_text(r) == placed(
            global,
            opt_text(*home),
            ".config/opencode/plugin/mtyx.ts"@,
            ".opencode/plugin/mtyx.ts"@,
        ),
{
    place(global, home, ".config/opencode/plugin/mtyx.ts", ".opencode/plugin/mtyx.ts")
}

pub fn skill_path(global: bool, home: &Option<String>) -> (r: Option<String>)
    ensures
        opt_text(r) == placed(
            global,
            opt_text(*home),
            ".config/opencode/skills/mtyx-orchestration/SKILL.md"@,
            ".opencode/skills/mtyx-orchestration/SKILL.md"@,
        ),
{
    place(
        global,
        home,
        ".config/opencode/skills/mtyx-orchestration/SKILL.md",
        ".opencode/skills/mtyx-orchestration/SKILL.md",
    )
}

pub fn hotfix_skill_path(global: bool, home: &Option<String>) -> (r: Option<String>)
    ensures
        opt_text(r) == placed(
            global,
            opt_text(*home),
            ".config/opencode/skills/mtyx-hotfix-race/SKILL.md"@,
            ".opencode/skills/mtyx-hotfix-race/SKILL.md"@,
        ),
{
    place(
        global,
        home,
        ".config/opencode/skills/mtyx-hotfix-race/SKILL.md",
        ".opencode/skills/mtyx-hotfix-race/SKILL.md",
    )
}

/// What `opencode` with these words asks for.
pub fn run(args: &[String]) -> (r: Result<HookRequest, Ending>)
    ensures
        match r {
            Ok(q) => requested(texts(args@), true) == Some(q),
            Err(e) => requested(texts(args@), true) is None && e@ == usage_failure(USAGE@),
        },
{
    parse_hook_args(args, true, USAGE)
}

/// The file after the plugin is taken out of it; nothing where it held the plugin alone, and is
/// to be removed.
pub open spec fn without_plugin(content: Seq<char>) -> Option<Seq<char>> {
    if trimmed(content) == trimmed(MTYX_PLUGIN@) {
        None
    } else {
        Some(stripped(content, PLUGIN_START@, PLUGIN_END@))
    }
}

pub fn remove_plugin(content: &str) -> (r: Option<String>)
    ensures
        opt_text(r) == without_plugin(content@),
{
    if same(trim(content).as_str(), trim(MTYX_PLUGIN).as_str()) {
        None
    } else {
        Some(strip_marked_block(content, PLUGIN_START, PLUGIN_END))
    }
}

pub fn install_ending(o: &Outcome, path: &str) -> (e: Ending)
    ensures
        e@ == write_end(*o, "Successfully installed mtyx plugin into "@, path@),
{
    write_ending(o, "Successfully installed mtyx plugin into ", path)
}

/// What is said behind the path where the plugin would be written through a symbolic link.
pub const PLUGIN_ADVICE: &'static str =
    "\n                     Remove it manually if you want to install the plugin.";

/// What is said behind the path where a skill would be written through a symbolic link.
pub const SKILL_ADVICE: &'static str =
    "\n                         Remove it manually if you want to install the skill.";

/// What came of reading the file of the plugin, and of removing or writing it where it was read.
#[derive(Debug)]
pub enum PluginFile {
    Missing,
    Unreadable(String),
    Removed(Outcome),
    Written(Outcome),
}

/// How the removal of the plugin ends.
pub fn uninstall_ending(f: &PluginFile, path: &str) -> (e: Ending)
    ensures
        e@ == match *f {
            PluginFile::Missing => said("No opencode plugin found at "@, path@),
            PluginFile::Unreadable(why) => path_fault("reading"@, path@, why@),
            PluginFile::Removed(Outcome::Failed(why)) => path_fault("removing"@, path@, why@),
            PluginFile::Removed(Outcome::Done) => said(
                "Successfully removed mtyx plugin from "@,
                path@,
            ),
            PluginFile::Written(o) => write_end(o, "Successfully removed mtyx plugin from "@, path@),
        },
{
    match f {
        PluginFile::Missing => say("No opencode plugin found at ", path),
        PluginFile::Unreadable(why) => path_failed("reading", path, why.as_str()),
        PluginFile::Removed(Outcome::Failed(why)) => path_failed("removing", path, why.as_str()),
        PluginFile::Removed(Outcome::Done) => say("Successfully removed mtyx plugin from ", path),
        PluginFile::Written(o) => write_ending(o, "Successfully removed mtyx plugin from ", path),
    }
}

/// What came of the removal of one skill.
#[derive(Debug)]
pub enum SkillRemoval {
    Missing,
    Removed,
    Failed { path: String, why: String },
}

/// How the removal of the skills ends, from one of them on: with the first failure, or with how
/// many were removed.
pub open spec fn removals(tried: Seq<SkillRemoval>, i: int, removed: nat) -> EndingV
    decreases tried.len() - i,
{
    if i < 0 || i >= tried.len() {
        success("Removed "@ + decimal(removed) + " mtyx skill(s) from opencode\n"@)
    } else {
        match tried[i] {
            SkillRemoval::Missing => removals(tried, i + 1, removed),
            SkillRemoval::Removed => removals(tried, i + 1, removed + 1),
            SkillRemoval::Failed { path, why } => path_fault("removing"@, path@, why@),
        }
    }
}

pub fn skills_removed(tried: &Vec<SkillRemoval>) -> (e: Ending)
    ensures
        e@ == removals(tried@, 0, 0),
{
    let mut removed: u64 = 0;
    let mut i: usize = 0;
    while i < tried.len()
        invariant
            i <= tried.len(),
            removed <= i,
            removals(tried@, 0, 0) == removals(tried@, i as int, removed as nat),
        decreases tried.len() - i,
    {
        match &tried[i] {
            SkillRemoval::Missing => {},
            SkillRemoval::Removed => {
                removed = removed + 1;
            },
            SkillRemoval::Failed { path, why } => {
                return path_failed("removing", path.as_str(), why.as_str());
            },
        }
        i = i + 1;
    }
    let mut m: String = "Removed ".to_string();
    append_decimal(&mut m, removed);
    m.append(" mtyx skill(s) from opencode\n");
    succeeded(m)
}

/// How many of the skills were installed.
pub open spec fn successes(done: Seq<bool>) -> nat
    decreases done.len(),
{
    if done.len() == 0 {
        0
    } else {
        successes(done.drop_last()) + if done.last() {
            1nat
        } else {
            0nat
        }
    }
}

/// How the installation of the skills ends: well, where at least one was installed.
pub fn skills_installed(done: &Vec<bool>) -> (e: Ending)
    ensures
        e@ == (EndingV {
            code: if successes(done@) > 0 {
                0i32
            } else {
                1i32
            },
            ..success(
                "Successfully installed "@ + decimal(successes(done@))
                    + " mtyx skill(s) into opencode\n"@,
            )
        }),
{
    let mut installed: u64 = 0;
    let mut i: usize = 0;
    while i < done.len()
        invariant
            i <= done.len(),
            installed <= i,
            installed == successes(done@.take(i as int)),
        decreases done.len() - i,
    {
        proof {
            assert(done@.take(i + 1).drop_last() =~= done@.take(i as int));
        }
        if done[i] {
            installed = installed + 1;
        }
        i = i + 1;
    }
    assert(done@.take(done.len() as int) =~= done@);
    let mut m: String = "Successfully installed ".to_string();
    append_decimal(&mut m, installed);
    m.append(" mtyx skill(s) into opencode\n");
    let mut e: Ending = succeeded(m);
    if installed == 0 {
        e.code = 1;
    }
    e
}

/// As many skills are counted as were removed, where none failed to be.
pub proof fn law_skills_counted(tried: Seq<SkillRemoval>, n: nat)
    requires
        forall|i: int| 0 <= i < tried.len() ==> (#[trigger] tried[i]) is Removed || tried[i]
            is Missing,
        n == tried.filter(|r: SkillRemoval| r is Removed).len(),
    ensures
        removals(tried, 0, 0) == success("Removed "@ + decimal(n) + " mtyx skill(s) from opencode\n"@),
{
    lemma_removed(tried, 0, 0);
    assert(tried.skip(0) =~= tried);
}

proof fn lemma_removed(tried: Seq<SkillRemoval>, i: int, done: nat)
    requires
        0 <= i <= tried.len(),
        forall|i: int| 0 <= i < tried.len() ==> (#[trigger] tried[i]) is Removed || tried[i]
            is Missing,
    ensures
        removals(tried, i, done) == success(
            "Removed "@ + decimal(
                done + tried.skip(i).filter(|r: SkillRemoval| r is Removed).len(),
            ) + " mtyx skill(s) from opencode\n"@,
        ),
    decreases tried.len() - i,
{
    let is_removed = |r: SkillRemoval| r is Removed;
    if i < tried.len() {
        let next = if tried[i] is Removed {
            done + 1
        } else {
            done
        };
        lemma_removed(tried, i + 1, next);
        assert(removals(tried, i, done) == removals(tried, i + 1, next)) by {
            assert(tried[i] is Removed || tried[i] is Missing);
        }
        let one = seq![tried[i]];
        let rest = tried.skip(i + 1);
        assert(tried.skip(i) =~= one + rest);
        Seq::filter_distributes_over_add(one, rest, is_removed);
        assert(one.filter(is_removed).len() == if tried[i] is Removed {
            1nat
        } else {
            0nat
        }) by {
            reveal_with_fuel(Seq::filter, 3);
            assert(one.last() == tried[i]);
            assert(one.drop_last() =~= seq![]);
        }
        assert(tried.skip(i).filter(is_removed).len() == one.filter(is_removed).len() + rest.filter(
            is_removed,
        ).len());
    } else {
        reveal(Seq::filter);
        assert(tried.skip(i) =~= seq![]);
        assert(tried.skip(i).filter(is_removed).len() == 0);
    }
}

/// Each skill that was written counts once. The file that holds nothing but the plugin goes whole.
pub proof fn law_successes(done: Seq<bool>, content: Seq<char>)
    ensures
        successes(seq![]) == 0,
        successes(done.push(true)) == successes(done) + 1,
        successes(done.push(false)) == successes(done),
        trimmed(content) == trimmed(MTYX_PLUGIN@) ==> without_plugin(content) is None,
        trimmed(content) != trimmed(MTYX_PLUGIN@) ==> without_plugin(content) == Some(
            stripped(content, PLUGIN_START@, PLUGIN_END@),
        ),
{
    assert(done.push(true).drop_last() =~= done);
    assert(done.push(false).drop_last() =~= done);
}

} // verus!
