//! What the hook installers of all agents share: their command lines, their paths, the blocks
//! they mark in files of the user, and what they say.

use vstd::prelude::*;

use crate::answers::{failed, failure, succeeded, success, Ending, EndingV};
use crate::text::{
    contains, join, joined, lemma_joined_occurs, lemma_line_within, lemma_lines_behind,
    lemma_lines_ended, lemma_lines_rejoined, lemma_occurs_within, lemma_one_line, lines, lines_of,
    occurs, opt_text, owned, path_join, path_joined, same, texts, trim_end, trimmed_end,
};

verus! {

// ---- command lines ------------------------------------------------------------------------

/// What an installer is asked to install.
#[derive(Clone, Copy, Debug, PartialEq, Eq, Structural)]
pub enum HookPart {
    Hooks,
    Skill,
}

/// What an installer is asked to do.
#[derive(Clone, Copy, Debug, PartialEq, Eq, Structural)]
pub struct HookRequest {
    pub part: HookPart,
    pub uninstall: bool,
    pub global: bool,
}

/// The words of an installer: the part first, and among the words behind it the two flags. Other
/// words behind it are passed over.
pub open spec fn requested(args: Seq<Seq<char>>, with_skill: bool) -> Option<HookRequest> {
    let uninstall = args.skip(1).contains("--uninstall"@);
    let global = args.skip(1).contains("--global"@);
    if args.len() == 0 {
        None
    } else if args[0] == "install-hooks"@ {
        Some(HookRequest { part: HookPart::Hooks, uninstall, global })
    } else if with_skill && args[0] == "install-skill"@ {
        Some(HookRequest { part: HookPart::Skill, uninstall, global })
    } else {
        None
    }
}

/// How an installer ends that was called in another way.
pub open spec fn usage_failure(usage: Seq<char>) -> EndingV {
    failure(2, usage)
}

fn word_behind_first(args: &[String], word: &str) -> (r: bool)
    requires
        args.len() > 0,
    ensures
        r == texts(args@).skip(1).contains(word@),
{
    let mut i: usize = 1;
    while i < args.len()
        invariant
            1 <= i <= args.len(),
            forall|k: int| 1 <= k < i ==> (#[trigger] texts(args@)[k]) != word@,
        decreases args.len() - i,
    {
        assert(texts(args@)[i as int] == args@[i as int]@);
        if same(args[i].as_str(), word) {
            assert(texts(args@).skip(1)[i - 1] == word@);
            return true;
        }
        i = i + 1;
    }
    proof {
        assert forall|k: int| 0 <= k < texts(args@).skip(1).len() implies texts(args@).skip(1)[k]
            != word@ by {
            assert(texts(args@).skip(1)[k] == texts(args@)[k + 1]);
        }
    }
    false
}

/// Reads the words of an installer; where they say nothing it knows, it ends with its usage.
pub fn parse_hook_args(args: &[String], with_skill: bool, usage: &str) -> (r: Result<
    HookRequest,
    Ending,
>)
    ensures
        match r {
            Ok(q) => requested(texts(args@), with_skill) == Some(q),
            Err(e) => requested(texts(args@), with_skill) is None && e@ == usage_failure(usage@),
        },
{
    if args.len() > 0 {
        let uninstall: bool = word_behind_first(args, "--uninstall");
        let global: bool = word_behind_first(args, "--global");
        assert(texts(args@)[0] == args@[0]@);
        if same(args[0].as_str(), "install-hooks") {
            return Ok(HookRequest { part: HookPart::Hooks, uninstall, global });
        }
        if with_skill && same(args[0].as_str(), "install-skill") {
            return Ok(HookRequest { part: HookPart::Skill, uninstall, global });
        }
    }
    Err(failed(2, owned(usage)))
}

// ---- paths --------------------------------------------------------------------------------

/// A path below the home directory, for all projects, or one below the project's own.
pub open spec fn placed(
    global: bool,
    home: Option<Seq<char>>,
    global_tail: Seq<char>,
    local: Seq<char>,
) -> Option<Seq<char>> {
    if global {
        match home {
            Some(h) => Some(path_joined(h, global_tail)),
            None => None,
        }
    } else {
        Some(local)
    }
}

pub fn place(global: bool, home: &Option<String>, global_tail: &str, local: &str) -> (r: Option<
    String,
>)
    ensures
        opt_text(r) == placed(global, opt_text(*home), global_tail@, local@),
{
    if global {
        match home {
            Some(h) => Some(path_join(h.as_str(), global_tail)),
            None => None,
        }
    } else {
        Some(owned(local))
    }
}

// ---- what is said -------------------------------------------------------------------------

/// `error` with what was done, the path, and why it failed.
pub open spec fn path_fault(what: Seq<char>, path: Seq<char>, why: Seq<char>) -> EndingV {
    failure(1, "error "@ + what + " "@ + path + ": "@ + why)
}

pub fn path_failed(what: &str, path: &str, why: &str) -> (e: Ending)
    ensures
        e@ == path_fault(what@, path@, why@),
{
    let mut m: String = "error ".to_string();
    m.append(what);
    m.append(" ");
    m.append(path);
    m.append(": ");
    m.append(why);
    failed(1, m)
}

/// A sentence about a path, as a line.
pub open spec fn said(what: Seq<char>, path: Seq<char>) -> EndingV {
    success(what + path + "\n"@)
}

pub fn say(what: &str, path: &str) -> (e: Ending)
    ensures
        e@ == said(what@, path@),
{
    let mut m: String = owned(what);
    m.append(path);
    m.append("\n");
    succeeded(m)
}

/// What came of an action on a file.
#[derive(Debug)]
pub enum Outcome {
    Done,
    Failed(String),
}

/// How the writing of a file ends.
pub open spec fn write_end(o: Outcome, what: Seq<char>, path: Seq<char>) -> EndingV {
    match o {
        Outcome::Done => said(what, path),
        Outcome::Failed(why) => path_fault("writing"@, path, why@),
    }
}

pub fn write_ending(o: &Outcome, what: &str, path: &str) -> (e: Ending)
    ensures
        e@ == write_end(*o, what@, path@),
{
    match o {
        Outcome::Done => say(what, path),
        Outcome::Failed(why) => path_failed("writing", path, why.as_str()),
    }
}

/// How the removal of a file ends; none was tried where there was no file.
pub open spec fn removal_end(
    o: Option<Outcome>,
    removed: Seq<char>,
    missing: Seq<char>,
    path: Seq<char>,
) -> EndingV {
    match o {
        None => said(missing, path),
        Some(Outcome::Done) => said(removed, path),
        Some(Outcome::Failed(why)) => path_fault("removing"@, path, why@),
    }
}

pub fn removal_ending(o: &Option<Outcome>, removed: &str, missing: &str, path: &str) -> (e: Ending)
    ensures
        e@ == removal_end(*o, removed@, missing@, path@),
{
    match o {
        None => say(missing, path),
        Some(Outcome::Done) => say(removed, path),
        Some(Outcome::Failed(why)) => path_failed("removing", path, why.as_str()),
    }
}

/// A file is never written through a symbolic link.
pub open spec fn symlink_end(path: Seq<char>, advice: Seq<char>) -> EndingV {
    failure(1, "error: refusing to overwrite symlink at "@ + path + "."@ + advice)
}

pub fn refuse_symlink(path: &str, is_symlink: bool, advice: &str) -> (r: Option<Ending>)
    ensures
        match r {
            Some(e) => is_symlink && e@ == symlink_end(path@, advice@),
            None => !is_symlink,
        },
{
    if !is_symlink {
        return None;
    }
    let mut m: String = "error: refusing to overwrite symlink at ".to_string();
    m.append(path);
    m.append(".");
    m.append(advice);
    Some(failed(1, m))
}

/// How the writing of a file of hooks ends.
pub fn hooks_ending(o: &Outcome, uninstall: bool, path: &str) -> (e: Ending)
    ensures
        e@ == write_end(
            *o,
            if uninstall {
                "Successfully removed cmux hooks from "@
            } else {
                "Successfully installed cmux hooks into "@
            },
            path@,
        ),
{
    if uninstall {
        write_ending(o, "Successfully removed cmux hooks from ", path)
    } else {
        write_ending(o, "Successfully installed cmux hooks into ", path)
    }
}

/// How the removal of the skill ends.
pub fn skill_removed(o: &Option<Outcome>, path: &str) -> (e: Ending)
    ensures
        e@ == removal_end(
            *o,
            "Successfully removed cmux skill from "@,
            "No cmux skill found at "@,
            path@,
        ),
{
    removal_ending(o, "Successfully removed cmux skill from ", "No cmux skill found at ", path)
}

/// How the installation of the skill ends.
pub fn skill_installed(o: &Outcome, path: &str) -> (e: Ending)
    ensures
        e@ == write_end(*o, "Successfully installed cmux skill into "@, path@),
{
    write_ending(o, "Successfully installed cmux skill into ", path)
}

/// How an installer ends that needs the home directory and finds none.
pub fn homeless(what: &str) -> (e: Ending)
    ensures
        e@ == failure(1, "error: could not resolve home directory"@ + what@),
{
    let mut m: String = "error: could not resolve home directory".to_string();
    m.append(what);
    failed(1, m)
}

// ---- marked blocks ------------------------------------------------------------------------

/// The lines outside of the marked blocks, from line `i` on: a block goes from a line with the
/// start mark to the next with the end mark, or to the end.
pub open spec fn outside(
    lines: Seq<Seq<char>>,
    start: Seq<char>,
    end: Seq<char>,
    i: int,
    within: bool,
) -> Seq<Seq<char>>
    decreases lines.len() - i,
{
    if i < 0 || i >= lines.len() {
        seq![]
    } else if within {
        outside(lines, start, end, i + 1, !occurs(lines[i], end))
    } else if occurs(lines[i], start) {
        outside(lines, start, end, i + 1, true)
    } else {
        seq![lines[i]] + outside(lines, start, end, i + 1, false)
    }
}

/// A text without its marked blocks, and without the white space at its end.
pub open spec fn stripped(content: Seq<char>, start: Seq<char>, end: Seq<char>) -> Seq<char> {
    trimmed_end(joined(outside(lines_of(content), start, end, 0, false), "\n"@))
}

/// A text with one marked block at its end, in place of those it had.
pub open spec fn replaced(
    content: Seq<char>,
    start: Seq<char>,
    end: Seq<char>,
    block: Seq<char>,
) -> Seq<char> {
    let kept = stripped(content, start, end);
    let front = if kept.len() == 0 {
        kept
    } else {
        kept + "\n"@
    };
    front + start + "\n"@ + block + "\n"@ + end + "\n"@
}

pub fn strip_marked_block(content: &str, start: &str, end: &str) -> (r: String)
    ensures
        r@ == stripped(content@, start@, end@),
{
    let all: Vec<String> = lines(content);
    let ghost view = texts(all@);
    let mut kept: Vec<String> = Vec::new();
    let mut within: bool = false;
    let mut i: usize = 0;
    assert(texts(kept@) + outside(view, start@, end@, 0, false) =~= outside(
        view,
        start@,
        end@,
        0,
        false,
    ));
    while i < all.len()
        invariant
            i <= all.len(),
            view == texts(all@),
            texts(kept@) + outside(view, start@, end@, i as int, within) == outside(
                view,
                start@,
                end@,
                0,
                false,
            ),
        decreases all.len() - i,
    {
        let line: &str = all[i].as_str();
        assert(view[i as int] == line@);
        if within {
            within = !contains(line, end);
        } else if contains(line, start) {
            within = true;
        } else {
            let ghost before = kept@;
            let copy: String = owned(line);
            kept.push(copy);
            proof {
                let rest = outside(view, start@, end@, i + 1, false);
                assert(texts(kept@) =~= texts(before).push(copy@));
                assert(texts(before) + (seq![line@] + rest) =~= texts(kept@) + rest);
            }
        }
        i = i + 1;
    }
    proof {
        assert(texts(kept@) + seq![] =~= texts(kept@));
    }
    let text: String = join(&kept, "\n");
    trim_end(text.as_str())
}

pub fn replace_marked_block(content: &str, start: &str, end: &str, block: &str) -> (r: String)
    ensures
        r@ == replaced(content@, start@, end@, block@),
{
    let mut r: String = strip_marked_block(content, start, end);
    if !r.as_str().is_empty() {
        r.append("\n");
    }
    r.append(start);
    r.append("\n");
    r.append(block);
    r.append("\n");
    r.append(end);
    r.append("\n");
    r
}

/// Lines without the start mark are all outside of blocks.
proof fn lemma_all_outside(
    a: Seq<Seq<char>>,
    b: Seq<Seq<char>>,
    start: Seq<char>,
    end: Seq<char>,
    i: int,
)
    requires
        0 <= i <= a.len(),
        forall|k: int| 0 <= k < a.len() ==> !occurs(#[trigger] a[k], start),
    ensures
        outside(a + b, start, end, i, false) == a.skip(i) + outside(
            a + b,
            start,
            end,
            a.len() as int,
            false,
        ),
    decreases a.len() - i,
{
    let rest = outside(a + b, start, end, a.len() as int, false);
    if i < a.len() {
        lemma_all_outside(a, b, start, end, i + 1);
        assert((a + b)[i] == a[i]);
        assert(seq![a[i]] + (a.skip(i + 1) + rest) =~= a.skip(i) + rest);
    } else {
        assert(a.skip(i) + rest =~= rest);
    }
}

/// Inside of a block, lines are passed over up to the end mark in the last of them.
proof fn lemma_all_within(lines: Seq<Seq<char>>, start: Seq<char>, end: Seq<char>, i: int)
    requires
        0 <= i < lines.len(),
        forall|k: int| i <= k < lines.len() - 1 ==> !occurs(#[trigger] lines[k], end),
        occurs(lines.last(), end),
    ensures
        outside(lines, start, end, i, true) == Seq::<Seq<char>>::empty(),
    decreases lines.len() - i,
{
    if i < lines.len() - 1 {
        assert(!occurs(lines[i], end));
        lemma_all_within(lines, start, end, i + 1);
    } else {
        assert(outside(lines, start, end, i + 1, false) =~= seq![]);
    }
}

/// Every line outside of the blocks is a line of the text without the start mark.
proof fn lemma_outside_unmarked(
    lines: Seq<Seq<char>>,
    start: Seq<char>,
    end: Seq<char>,
    i: int,
    within: bool,
    k: int,
)
    requires
        0 <= i,
        0 <= k < outside(lines, start, end, i, within).len(),
    ensures
        !occurs(outside(lines, start, end, i, within)[k], start),
    decreases lines.len() - i,
{
    if i < lines.len() {
        if within {
            lemma_outside_unmarked(lines, start, end, i + 1, !occurs(lines[i], end), k);
        } else if occurs(lines[i], start) {
            lemma_outside_unmarked(lines, start, end, i + 1, true, k);
        } else if k > 0 {
            lemma_outside_unmarked(lines, start, end, i + 1, false, k - 1);
        }
    }
}

proof fn lemma_trimmed_end(s: Seq<char>)
    ensures
        trimmed_end(s).len() <= s.len(),
        trimmed_end(s) == s.subrange(0, trimmed_end(s).len() as int),
        trimmed_end(s).len() > 0 ==> !crate::text::is_white(trimmed_end(s).last()),
        trimmed_end(trimmed_end(s)) == trimmed_end(s),
    decreases s.len(),
{
    if s.len() > 0 && crate::text::is_white(s.last()) {
        lemma_trimmed_end(s.drop_last());
        let t = trimmed_end(s);
        assert(t =~= s.subrange(0, t.len() as int));
    } else {
        assert(s =~= s.subrange(0, s.len() as int));
    }
}

/// Whether a text can mark a block: it is one line, and a carriage return does not end it.
pub open spec fn is_mark(mark: Seq<char>) -> bool {
    mark.len() > 0 && !mark.contains('\n') && mark.last() != '\r'
}

/// Whether lines are one whole block.
#[verifier::opaque]
spec fn is_block(lines: Seq<Seq<char>>, start: Seq<char>, end: Seq<char>) -> bool {
    &&& lines.len() >= 2
    &&& occurs(lines[0], start)
    &&& occurs(lines.last(), end)
    &&& forall|k: int| 1 <= k < lines.len() - 1 ==> !occurs(#[trigger] lines[k], end)
}

/// Whether no line has the start mark.
#[verifier::opaque]
spec fn unmarked(lines: Seq<Seq<char>>, start: Seq<char>) -> bool {
    forall|k: int| 0 <= k < lines.len() ==> !occurs(#[trigger] lines[k], start)
}

/// No line of a block has an end mark that the block does not have.
proof fn lemma_inner_unended(block: Seq<char>, end: Seq<char>, k: int)
    requires
        is_mark(end),
        !occurs(block, end),
        0 <= k < lines_of(block + seq!['\n']).len(),
    ensures
        !occurs(lines_of(block + seq!['\n'])[k], end),
{
    let body = block + seq!['\n'];
    lemma_line_within(body, k, end);
    if occurs(lines_of(body)[k], end) {
        let i = choose|i: int| crate::text::stands_at(body, end, i);
        if i + end.len() <= block.len() {
            assert(block.subrange(i, i + end.len()) =~= body.subrange(i, i + end.len()));
            assert(crate::text::stands_at(block, end, i));
        } else {
            assert(body.subrange(i, i + end.len())[end.len() - 1] == '\n');
            assert(end[end.len() - 1] == '\n');
        }
    }
}

/// The lines of a marked block, one behind the other.
proof fn lemma_block_split(start: Seq<char>, end: Seq<char>, block: Seq<char>)
    requires
        is_mark(start),
        is_mark(end),
    ensures
        lines_of(start + "\n"@ + block + "\n"@ + end + "\n"@) == seq![start] + (lines_of(
            block + seq!['\n'],
        ) + seq![end]),
{
    reveal_strlit("\n");
    assert("\n"@ =~= seq!['\n']);
    let first = start + seq!['\n'];
    let body = block + seq!['\n'];
    let last = end + seq!['\n'];
    assert(start + "\n"@ + block + "\n"@ + end + "\n"@ =~= first + (body + last));
    lemma_lines_behind(first, body + last);
    lemma_lines_behind(body, last);
    lemma_one_line(start);
    lemma_one_line(end);
}

/// Lines without the end mark between the two marks are a block.
proof fn lemma_is_block(inner: Seq<Seq<char>>, start: Seq<char>, end: Seq<char>)
    requires
        unmarked(inner, end),
    ensures
        is_block(seq![start] + (inner + seq![end]), start, end),
{
    reveal(is_block);
    reveal(unmarked);
    lemma_occurs_itself(start);
    lemma_occurs_itself(end);
    let all = seq![start] + (inner + seq![end]);
    assert(all[0] == start);
    assert(all.last() == end);
    assert forall|k: int| 1 <= k < all.len() - 1 implies !occurs(#[trigger] all[k], end) by {
        assert(all[k] == inner[k - 1]);
    }
}

/// The lines of a marked block.
proof fn lemma_block_lines(start: Seq<char>, end: Seq<char>, block: Seq<char>)
    requires
        is_mark(start),
        is_mark(end),
        !occurs(block, end),
    ensures
        is_block(lines_of(start + "\n"@ + block + "\n"@ + end + "\n"@), start, end),
{
    lemma_block_split(start, end, block);
    let inner = lines_of(block + seq!['\n']);
    assert(unmarked(inner, end)) by {
        reveal(unmarked);
        assert forall|k: int| 0 <= k < inner.len() implies !occurs(#[trigger] inner[k], end) by {
            lemma_inner_unended(block, end, k);
        }
    }
    lemma_is_block(inner, start, end);
}

/// The lines of a text with a block: those that are kept, and those of the block.
proof fn lemma_replaced_lines(
    content: Seq<char>,
    start: Seq<char>,
    end: Seq<char>,
    block: Seq<char>,
)
    ensures
        lines_of(replaced(content, start, end, block)) == lines_of(stripped(content, start, end))
            + lines_of(start + "\n"@ + block + "\n"@ + end + "\n"@),
{
    reveal_strlit("\n");
    assert("\n"@ =~= seq!['\n']);
    let kept = stripped(content, start, end);
    let marked = start + "\n"@ + block + "\n"@ + end + "\n"@;
    let text = replaced(content, start, end, block);
    lemma_trimmed_end(joined(outside(lines_of(content), start, end, 0, false), "\n"@));
    if kept.len() == 0 {
        assert(text =~= marked);
        assert(lines_of(kept) =~= seq![]);
        assert(lines_of(kept) + lines_of(marked) =~= lines_of(marked));
    } else {
        assert(crate::text::is_white('\n') && crate::text::is_white('\r'));
        let front = kept + seq!['\n'];
        assert(text =~= front + marked);
        lemma_lines_behind(front, marked);
        lemma_lines_ended(kept);
    }
}

/// No line that is kept has the start mark.
proof fn lemma_kept_unmarked(content: Seq<char>, start: Seq<char>, end: Seq<char>)
    requires
        is_mark(start),
    ensures
        unmarked(lines_of(stripped(content, start, end)), start),
{
    reveal(unmarked);
    let around = outside(lines_of(content), start, end, 0, false);
    let whole = joined(around, "\n"@);
    let kept = stripped(content, start, end);
    let before = lines_of(kept);
    lemma_trimmed_end(whole);
    assert forall|k: int| 0 <= k < before.len() implies !occurs(#[trigger] before[k], start) by {
        lemma_line_within(kept, k, start);
        if occurs(before[k], start) {
            lemma_occurs_within(whole, 0, kept.len() as int, start);
            lemma_joined_occurs(around, start);
            let j = choose|j: int| 0 <= j < around.len() && occurs(#[trigger] around[j], start);
            lemma_outside_unmarked(lines_of(content), start, end, 0, false, j);
        }
    }
}

/// Of lines without the start mark and a block behind them, the former are outside.
proof fn lemma_block_outside(
    before: Seq<Seq<char>>,
    inner: Seq<Seq<char>>,
    start: Seq<char>,
    end: Seq<char>,
)
    requires
        unmarked(before, start),
        is_block(inner, start, end),
    ensures
        outside(before + inner, start, end, 0, false) == before,
{
    reveal(unmarked);
    reveal(is_block);
    let n = before.len() as int;
    let all = before + inner;
    lemma_all_outside(before, inner, start, end, 0);
    assert(before.skip(0) =~= before);
    assert(all[n] == inner[0]);
    assert forall|k: int| n + 1 <= k < all.len() - 1 implies !occurs(#[trigger] all[k], end) by {
        assert(all[k] == inner[k - n]);
    }
    assert(all.last() == inner.last());
    lemma_all_within(all, start, end, n + 1);
    assert(outside(all, start, end, n, false) == Seq::<Seq<char>>::empty());
    assert(before + Seq::<Seq<char>>::empty() =~= before);
}

proof fn lemma_occurs_itself(s: Seq<char>)
    ensures
        occurs(s, s),
{
    assert(s.subrange(0, s.len() as int) =~= s);
    assert(crate::text::stands_at(s, s, 0));
}

/// The lines outside of the blocks of a text with a block are those that were kept.
proof fn lemma_replaced_outside(
    content: Seq<char>,
    start: Seq<char>,
    end: Seq<char>,
    block: Seq<char>,
)
    requires
        is_mark(start),
        is_mark(end),
        !occurs(block, end),
    ensures
        outside(lines_of(replaced(content, start, end, block)), start, end, 0, false) == lines_of(
            stripped(content, start, end),
        ),
{
    let before = lines_of(stripped(content, start, end));
    let inner = lines_of(start + "\n"@ + block + "\n"@ + end + "\n"@);
    lemma_replaced_lines(content, start, end, block);
    lemma_kept_unmarked(content, start, end);
    lemma_block_lines(start, end, block);
    lemma_block_outside(before, inner, start, end);
}

/// A text that is kept is made of its lines again.
proof fn lemma_kept_again(content: Seq<char>, start: Seq<char>, end: Seq<char>)
    requires
        !occurs(stripped(content, start, end), "\r\n"@),
    ensures
        trimmed_end(joined(lines_of(stripped(content, start, end)), "\n"@)) == stripped(
            content,
            start,
            end,
        ),
{
    lemma_trimmed_end(joined(outside(lines_of(content), start, end, 0, false), "\n"@));
    assert(crate::text::is_white('\n'));
    lemma_lines_rejoined(stripped(content, start, end));
}

/// Stripping takes out the block that was put in, and nothing else; putting a block in twice is
/// putting in the last. The text around the block must not have kept a carriage return before a
/// line feed, for a reader of lines drops it.
pub proof fn law_block_replaced(
    content: Seq<char>,
    start: Seq<char>,
    end: Seq<char>,
    block: Seq<char>,
    other: Seq<char>,
)
    requires
        is_mark(start),
        is_mark(end),
        !occurs(block, end),
        !occurs(stripped(content, start, end), "\r\n"@),
    ensures
        stripped(replaced(content, start, end, block), start, end) == stripped(content, start, end),
        replaced(replaced(content, start, end, block), start, end, other) == replaced(
            content,
            start,
            end,
            other,
        ),
{
    lemma_replaced_outside(content, start, end, block);
    lemma_kept_again(content, start, end);
}

/// What the words of a command ask for: the first word what is installed, and the words behind it
/// whether it is taken away again, and whether for every project; in whatever order they stand.
pub proof fn law_hooks_requested(rest: Seq<Seq<char>>, word: Seq<char>, with_skill: bool)
    ensures
        requested(seq!["install-hooks"@] + rest, with_skill) matches Some(r) && r.part
            == HookPart::Hooks && r.uninstall == rest.contains("--uninstall"@) && r.global
            == rest.contains("--global"@),
        requested(seq!["install-skill"@] + rest, true) matches Some(r) && r.part == HookPart::Skill
            && r.uninstall == rest.contains("--uninstall"@) && r.global == rest.contains(
            "--global"@,
        ),
        requested(seq!["install-skill"@] + rest, false) is None,
        word != "install-hooks"@ && word != "install-skill"@ ==> requested(
            seq![word] + rest,
            with_skill,
        ) is None,
        requested(seq![], with_skill) is None,
{
    reveal_strlit("install-hooks");
    reveal_strlit("install-skill");
    assert("install-hooks"@.len() == 13 && "install-skill"@.len() == 13);
    assert("install-hooks"@[8] == 'h' && "install-skill"@[8] == 's');
    assert((seq!["install-hooks"@] + rest).skip(1) =~= rest);
    assert((seq!["install-skill"@] + rest).skip(1) =~= rest);
    assert((seq![word] + rest)[0] == word);
}

/// Where something is put: below the home directory where it is for every project, and there only
/// with a home directory; else at its own place.
pub proof fn law_placed(home: Option<Seq<char>>, tail: Seq<char>, local: Seq<char>)
    ensures
        placed(false, home, tail, local) == Some(local),
        home matches Some(h) ==> placed(true, home, tail, local) == Some(path_joined(h, tail)),
        home is None ==> placed(true, home, tail, local) is None,
{
}

/// What is said in the end: where it was done, or why it was not.
pub proof fn law_hook_endings(path: Seq<char>, what: Seq<char>, missing: Seq<char>, why: String)
    ensures
        write_end(Outcome::Done, what, path) == success(what + path + "\n"@),
        write_end(Outcome::Failed(why), what, path).code == 1,
        write_end(Outcome::Failed(why), what, path).err matches Some(m) && why@.is_suffix_of(m),
        removal_end(Some(Outcome::Done), what, missing, path) == success(what + path + "\n"@),
        removal_end(None, what, missing, path) == success(missing + path + "\n"@),
        removal_end(Some(Outcome::Failed(why)), what, missing, path).code == 1,
        symlink_end(path, what).code == 1,
{
    let m = "error "@ + "writing"@ + " "@ + path + ": "@ + why@;
    assert(m.skip(m.len() - why@.len()) =~= why@);
}

/// A line outside the marks stays, and one between them goes, the marks too: the lines of a file
/// without a mark all stay, and in front of a mark every line does.
pub proof fn law_outside_kept(
    front: Seq<Seq<char>>,
    inner: Seq<Seq<char>>,
    back: Seq<Seq<char>>,
    start: Seq<char>,
    end: Seq<char>,
    first: Seq<char>,
    last: Seq<char>,
)
    requires
        forall|k: int| 0 <= k < front.len() ==> !occurs(#[trigger] front[k], start),
        forall|k: int| 0 <= k < back.len() ==> !occurs(#[trigger] back[k], start),
        forall|k: int| 0 <= k < inner.len() ==> !occurs(#[trigger] inner[k], end),
        occurs(first, start),
        occurs(last, end),
    ensures
        outside(front, start, end, 0, false) == front,
        outside(front + seq![first] + inner + seq![last] + back, start, end, 0, false) == front
            + back,
{
    let n = front.len() as int;
    lemma_kept(front, start, end, 0, n);
    assert(outside(front, start, end, n, false) =~= seq![]);
    assert(front.subrange(0, n) + Seq::<Seq<char>>::empty() =~= front);
    let all = front + seq![first] + inner + seq![last] + back;
    let m = n + 1 + inner.len() as int;
    assert(all[n] == first);
    assert(all[m] == last);
    assert forall|k: int| 0 <= k < n implies !occurs(#[trigger] all[k], start) by {
        assert(all[k] == front[k]);
    }
    lemma_kept(all, start, end, 0, n);
    assert forall|k: int| n + 1 <= k < m implies !occurs(#[trigger] all[k], end) by {
        assert(all[k] == inner[k - n - 1]);
    }
    lemma_dropped(all, start, end, n + 1, m);
    assert forall|k: int| m + 1 <= k < all.len() implies !occurs(#[trigger] all[k], start) by {
        assert(all[k] == back[k - m - 1]);
    }
    lemma_kept(all, start, end, m + 1, all.len() as int);
    assert(outside(all, start, end, all.len() as int, false) =~= seq![]);
    assert(all.subrange(0, n) =~= front);
    assert(all.subrange(m + 1, all.len() as int) + Seq::<Seq<char>>::empty() =~= back);
}

proof fn lemma_kept(lines: Seq<Seq<char>>, start: Seq<char>, end: Seq<char>, i: int, n: int)
    requires
        0 <= i <= n <= lines.len(),
        forall|k: int| i <= k < n ==> !occurs(#[trigger] lines[k], start),
    ensures
        outside(lines, start, end, i, false) == lines.subrange(i, n) + outside(
            lines,
            start,
            end,
            n,
            false,
        ),
    decreases n - i,
{
    let rest = outside(lines, start, end, n, false);
    if i < n {
        assert(!occurs(lines[i], start));
        lemma_kept(lines, start, end, i + 1, n);
        assert(seq![lines[i]] + (lines.subrange(i + 1, n) + rest) =~= lines.subrange(i, n) + rest);
    } else {
        assert(lines.subrange(i, n) + rest =~= rest);
    }
}

proof fn lemma_dropped(lines: Seq<Seq<char>>, start: Seq<char>, end: Seq<char>, i: int, n: int)
    requires
        0 <= i <= n < lines.len(),
        forall|k: int| i <= k < n ==> !occurs(#[trigger] lines[k], end),
        occurs(lines[n], end),
    ensures
        outside(lines, start, end, i, true) == outside(lines, start, end, n + 1, false),
    decreases n - i,
{
    if i < n {
        assert(!occurs(lines[i], end));
        lemma_dropped(lines, start, end, i + 1, n);
    }
}

/// What is put into a file: the block between its marks, on lines of their own, behind what was
/// kept of the file.
pub proof fn law_block_put(content: Seq<char>, start: Seq<char>, end: Seq<char>, block: Seq<char>)
    ensures
        (start + "\n"@ + block + "\n"@ + end + "\n"@).is_suffix_of(
            replaced(content, start, end, block),
        ),
        stripped(content, start, end).is_prefix_of(replaced(content, start, end, block)),
        stripped(content, start, end).len() == 0 ==> replaced(content, start, end, block) == start
            + "\n"@ + block + "\n"@ + end + "\n"@,
{
    let kept = stripped(content, start, end);
    let all = replaced(content, start, end, block);
    let last = start + "\n"@ + block + "\n"@ + end + "\n"@;
    assert(all.skip(all.len() - last.len()) =~= last);
    assert(all.take(kept.len() as int) =~= kept);
    if kept.len() == 0 {
        assert(all =~= last);
    }
}

/// What is said where a file could not be written or removed: what was tried, on which path, and
/// why it failed.
pub proof fn law_hook_messages(path: Seq<char>, what: Seq<char>, missing: Seq<char>, why: String)
    ensures
        write_end(Outcome::Failed(why), what, path).err == Some(
            "error "@ + "writing"@ + " "@ + path + ": "@ + why@,
        ),
        removal_end(Some(Outcome::Failed(why)), what, missing, path).err == Some(
            "error "@ + "removing"@ + " "@ + path + ": "@ + why@,
        ),
        symlink_end(path, what).err == Some(
            "error: refusing to overwrite symlink at "@ + path + "."@ + what,
        ),
{
}

} // verus!
