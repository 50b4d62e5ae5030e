//! The extension of the `pi` agent, and the skill in the text that it is given.

use vstd::prelude::*;

use crate::answers::Ending;
use crate::hooks::{
    law_block_replaced, parse_hook_args, path_failed, path_fault, place, placed, removal_end,
    removal_ending, replace_marked_block, replaced, requested, said, say, strip_marked_block,
    stripped, usage_failure, write_end, write_ending, HookRequest, Outcome,
};
use crate::text::{occurs, opt_text, texts};

verus! {

pub const USAGE: &'static str =
    "cmux: usage: cmux pi <install-hooks|install-skill> [--uninstall] [--global]";

/// The extension.
pub const EXTENSION: &'static str = r#"import type { ExtensionAPI } from "@earendil-works/pi-coding-agent";
import { execFile } from "child_process";

export default function cmuxExtension(pi: ExtensionAPI) {
  const report = (state: string) => {
    const surface = process.env.CMUX_MUX_SURFACE;
    if (surface) {
      // Use execFile (arg array) instead of exec (shell string) so the
      // surface id is never passed through a shell parser. Defends
      // against future callers that may set CMUX_MUX_SURFACE from
      // untrusted input.
      execFile(
        "cmux",
        ["report-agent", "--surface", surface, "--state", state, "--source", "pi"],
        (err) => {
          // Silent error
        }
      );
    }
  };

  pi.on("tool_call", () => {
    report("working");
  });

  pi.on("session_shutdown", () => {
    report("done");
  });
}
"#;

/// The marks around the skill.
pub const SKILL_START: &'static str = "<!-- CMUX-START -->";

pub const SKILL_END: &'static str = "<!-- CMUX-END -->";

pub fn extension_path(global: bool, home: &Option<String>) -> (r: Option<String>)
    ensures
        opt_text(r) == placed(
            global,
            opt_text(*home),
            ".pi/agent/extensions/cmux.ts"@,
            ".pi/extensions/cmux.ts"@,
        ),
{
    place(global, home, ".pi/agent/extensions/cmux.ts", ".pi/extensions/cmux.ts")
}

pub fn skill_path(global: bool, home: &Option<String>) -> (r: Option<String>)
    ensures
        opt_text(r) == placed(
            global,
            opt_text(*home),
            ".pi/agent/APPEND_SYSTEM.md"@,
            ".pi/APPEND_SYSTEM.md"@,
        ),
{
    place(global, home, ".pi/agent/APPEND_SYSTEM.md", ".pi/APPEND_SYSTEM.md")
}

/// What `cmux pi` with these words asks for.
pub fn run(args: &[String]) -> (r: Result<HookRequest, Ending>)
    ensures
        match r {
            Ok(q) => requested(texts(args@), true) == Some(q),
            Err(e) => requested(texts(args@), true) is None && e@ == usage_failure(USAGE@),
        },
{
    parse_hook_args(args, true, USAGE)
}

pub fn uninstall_ending(o: &Option<Outcome>, path: &str) -> (e: Ending)
    ensures
        e@ == removal_end(
            *o,
            "Successfully removed cmux extension from "@,
            "No cmux extension found at "@,
            path@,
        ),
{
    removal_ending(
        o,
        "Successfully removed cmux extension from ",
        "No cmux extension found at ",
        path,
    )
}

pub fn install_ending(o: &Outcome, path: &str) -> (e: Ending)
    ensures
        e@ == write_end(*o, "Successfully installed cmux extension into "@, path@),
{
    write_ending(o, "Successfully installed cmux extension into ", path)
}

/// The file after the skill is taken out of it; nothing where nothing else is in it, and the
/// file is to be removed.
pub open spec fn without_skill(content: Seq<char>) -> Option<Seq<char>> {
    let kept = stripped(content, SKILL_START@, SKILL_END@);
    if kept.len() == 0 {
        None
    } else {
        Some(kept + "\n"@)
    }
}

pub fn remove_skill(content: &str) -> (r: Option<String>)
    ensures
        opt_text(r) == without_skill(content@),
{
    let mut kept: String = strip_marked_block(content, SKILL_START, SKILL_END);
    if kept.as_str().is_empty() {
        None
    } else {
        kept.append("\n");
        Some(kept)
    }
}

/// What came of reading the file of the skill, and of writing or removing it where it was read.
#[derive(Debug)]
pub enum SkillFile {
    Missing,
    Unreadable(String),
    Removed,
    Written(Outcome),
}

/// How the removal of the skill ends; that the file could not be removed is passed over.
pub fn skill_removal_ending(f: &SkillFile, path: &str) -> (e: Ending)
    ensures
        e@ == match *f {
            SkillFile::Missing => said("No APPEND_SYSTEM.md found at "@, path@),
            SkillFile::Unreadable(why) => path_fault("reading"@, path@, why@),
            SkillFile::Removed => said("Removed empty APPEND_SYSTEM.md at "@, path@),
            SkillFile::Written(o) => write_end(o, "Successfully removed cmux skill from "@, path@),
        },
{
    match f {
        SkillFile::Missing => say("No APPEND_SYSTEM.md found at ", path),
        SkillFile::Unreadable(why) => path_failed("reading", path, why.as_str()),
        SkillFile::Removed => say("Removed empty APPEND_SYSTEM.md at ", path),
        SkillFile::Written(o) => write_ending(o, "Successfully removed cmux skill from ", path),
    }
}

/// The file with the skill at its end, in place of one that it had.
pub fn put_skill(content: &str, skill: &str) -> (r: String)
    ensures
        r@ == replaced(content@, SKILL_START@, SKILL_END@, skill@),
{
    replace_marked_block(content, SKILL_START, SKILL_END, skill)
}

/// Taking the skill out undoes putting it in, and putting it in twice is putting it in once.
pub proof fn law_skill_comes_and_goes(content: Seq<char>, skill: Seq<char>)
    requires
        !occurs(skill, SKILL_END@),
        !occurs(stripped(content, SKILL_START@, SKILL_END@), "\r\n"@),
    ensures
        without_skill(replaced(content, SKILL_START@, SKILL_END@, skill)) == without_skill(content),
        replaced(
            replaced(content, SKILL_START@, SKILL_END@, skill),
            SKILL_START@,
            SKILL_END@,
            skill,
        ) == replaced(content, SKILL_START@, SKILL_END@, skill),
{
    reveal_strlit("<!-- CMUX-START -->");
    reveal_strlit("<!-- CMUX-END -->");
    assert(SKILL_START@.len() == 19 && SKILL_END@.len() == 17);
    assert forall|k: int| 0 <= k < 19 implies SKILL_START@[k] != '\n' by {}
    assert forall|k: int| 0 <= k < 17 implies SKILL_END@[k] != '\n' by {}
    law_block_replaced(content, SKILL_START@, SKILL_END@, skill, skill);
}

/// Without the skill a file holds what it held besides, or is not needed any more.
pub proof fn law_skill_taken(content: Seq<char>)
    ensures
        stripped(content, SKILL_START@, SKILL_END@).len() == 0 ==> without_skill(content) is None,
        stripped(content, SKILL_START@, SKILL_END@).len() > 0 ==> without_skill(content) == Some(
            stripped(content, SKILL_START@, SKILL_END@) + "\n"@,
        ),
{
}

} // verus!
