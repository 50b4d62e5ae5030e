//! The wrapper around `aider` that reports what it does.

use vstd::prelude::*;

use crate::answers::{Ending, EndingV};
use crate::hooks::{
    parse_hook_args, place, placed, removal_end, removal_ending, requested, usage_failure,
    write_end, write_ending, HookRequest, Outcome,
};
use crate::text::{opt_text, texts};

verus! {

pub const USAGE: &'static str =
    "cmux-mux: usage: cmux-mux aider install-hooks [--uninstall] [--global]";

/// The wrapper.
pub const SCRIPT: &'static str = r#"#!/usr/bin/env bash
# cmux aider wrapper

# Find the real aider binary on PATH excluding this script
REAL_AIDER=$(which -a aider 2>/dev/null | grep -v "$0" | head -n 1)

if [ -z "$REAL_AIDER" ]; then
  # Fallback to standard command search if not found specifically
  REAL_AIDER="aider"
fi

if [ -n "${CMUX_MUX_SURFACE:-}" ]; then
  cmux-mux report-agent --surface "$CMUX_MUX_SURFACE" --state working --source aider
fi

# Run the real aider with all arguments
"$REAL_AIDER" "$@"
RESULT=$?

if [ -n "${CMUX_MUX_SURFACE:-}" ]; then
  cmux-mux report-agent --surface "$CMUX_MUX_SURFACE" --state done --source aider
fi

exit $RESULT
"#;

/// Where the wrapper lies.
pub fn wrapper_path(global: bool, home: &Option<String>) -> (r: Option<String>)
    ensures
        opt_text(r) == placed(global, opt_text(*home), ".local/bin/aider"@, ".bin/aider"@),
{
    place(global, home, ".local/bin/aider", ".bin/aider")
}

/// What `cmux aider` with these words asks for.
pub fn run(args: &[String]) -> (r: Result<HookRequest, Ending>)
    ensures
        match r {
            Ok(q) => requested(texts(args@), false) == Some(q),
            Err(e) => requested(texts(args@), false) is None && e@ == usage_failure(USAGE@),
        },
{
    parse_hook_args(args, false, USAGE)
}

/// How the removal of the wrapper ends.
pub fn uninstall_ending(o: &Option<Outcome>, path: &str) -> (e: Ending)
    ensures
        e@ == removal_end(
            *o,
            "Successfully removed aider wrapper from "@,
            "No aider wrapper found at "@,
            path@,
        ),
{
    removal_ending(
        o,
        "Successfully removed aider wrapper from ",
        "No aider wrapper found at ",
        path,
    )
}

/// What is said of a wrapper that only this project has.
pub open spec fn with_note(end: EndingV, global: bool) -> EndingV {
    if end.code == 0 && !global {
        EndingV {
            out: end.out
                + "Note: Remember to run your agent using .bin/aider or prepend .bin to your PATH.\n"@,
            ..end
        }
    } else {
        end
    }
}

/// How the writing of the wrapper ends.
pub fn install_ending(o: &Outcome, path: &str, global: bool) -> (e: Ending)
    ensures
        e@ == with_note(write_end(*o, "Successfully installed aider wrapper at "@, path@), global),
{
    let mut e: Ending = write_ending(o, "Successfully installed aider wrapper at ", path);
    if e.code == 0 && !global {
        e.out.append(
            "Note: Remember to run your agent using .bin/aider or prepend .bin to your PATH.\n",
        );
    }
    e
}

/// How the wrapper is found is said only where it was written for one project.
pub proof fn law_note(end: EndingV, global: bool)
    ensures
        end.out.is_prefix_of(with_note(end, global).out),
        with_note(end, true) == end,
        end.code != 0 ==> with_note(end, global) == end,
        end.code == 0 ==> with_note(end, false).out == end.out
            + "Note: Remember to run your agent using .bin/aider or prepend .bin to your PATH.\n"@,
        with_note(end, global).code == end.code && with_note(end, global).err == end.err,
{
    let s = end.out
        + "Note: Remember to run your agent using .bin/aider or prepend .bin to your PATH.\n"@;
    assert(s.take(end.out.len() as int) =~= end.out);
    assert(end.out.take(end.out.len() as int) =~= end.out);
}

} // verus!
