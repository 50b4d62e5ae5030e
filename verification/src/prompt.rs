//! The frontmatter of a prompt file: a leading block between two lines of three dashes that may
//! name a branch and a label.

use vstd::prelude::*;

use crate::flags::UsageError;
use crate::text::{
    cut, debug_quoted, lemma_lines, lemma_lines_behind, lines, lines_of, opt_text, quoted, same, split_once, strip_end, stripped_end,
    texts, trim, trimmed,
};

verus! {

/// A line without the carriage returns at its end.
pub open spec fn bare(line: Seq<char>) -> Seq<char> {
    stripped_end(line, '\r')
}

/// The block from line `i` on, with the branch and the label that were read before.
pub open spec fn block_from(
    lines: Seq<Seq<char>>,
    i: int,
    branch: Option<Seq<char>>,
    label: Option<Seq<char>>,
) -> Result<(Option<Seq<char>>, Option<Seq<char>>), Seq<char>>
    decreases lines.len() - i,
{
    if i < 0 || i >= lines.len() {
        Err("unterminated frontmatter block: missing closing `---`"@)
    } else if bare(lines[i]) == "---"@ {
        Ok((branch, label))
    } else if trimmed(bare(lines[i])).len() == 0 {
        block_from(lines, i + 1, branch, label)
    } else {
        match cut(bare(lines[i]), ':') {
            None => Err(
                "malformed frontmatter line "@ + quoted(bare(lines[i]))
                    + ": expected `key: value`"@,
            ),
            Some((key, value)) => if trimmed(value).len() == 0 {
                Err("frontmatter key "@ + quoted(key) + " needs a non-empty value"@)
            } else if trimmed(key) == "branch"@ {
                if branch is Some {
                    Err("duplicate frontmatter key "@ + quoted(key))
                } else {
                    block_from(lines, i + 1, Some(trimmed(value)), label)
                }
            } else if trimmed(key) == "label"@ {
                if label is Some {
                    Err("duplicate frontmatter key "@ + quoted(key))
                } else {
                    block_from(lines, i + 1, branch, Some(trimmed(value)))
                }
            } else {
                Err(
                    "unknown frontmatter key "@ + quoted(trimmed(key))
                        + " (want branch or label)"@,
                )
            },
        }
    }
}

/// The branch and the label that a prompt file names; neither where it does not start with a
/// block.
pub open spec fn frontmatter(text: Seq<char>) -> Result<
    (Option<Seq<char>>, Option<Seq<char>>),
    Seq<char>,
> {
    let lines = lines_of(text);
    if lines.len() > 0 && bare(lines[0]) == "---"@ {
        block_from(lines, 1, None, None)
    } else {
        Ok((None, None))
    }
}

/// A result of `parse_prompt_frontmatter` with its texts.
pub open spec fn frontmatter_result(
    r: Result<(Option<String>, Option<String>), UsageError>,
) -> Result<(Option<Seq<char>>, Option<Seq<char>>), Seq<char>> {
    match r {
        Ok((branch, label)) => Ok((opt_text(branch), opt_text(label))),
        Err(e) => Err(e.0@),
    }
}

/// A message with a quoted text in its middle.
fn quoting(front: &str, text: &str, back: &str) -> (e: UsageError)
    ensures
        e.0@ == front@ + quoted(text@) + back@,
{
    let mut message: String = front.to_string();
    let shown: String = debug_quoted(text);
    message.append(shown.as_str());
    message.append(back);
    UsageError(message)
}

pub fn parse_prompt_frontmatter(text: &str) -> (r: Result<
    (Option<String>, Option<String>),
    UsageError,
>)
    ensures
        frontmatter_result(r) == frontmatter(text@),
{
    let all: Vec<String> = lines(text);
    if all.len() == 0 || !same(strip_end(all[0].as_str(), '\r').as_str(), "---") {
        return Ok((None, None));
    }
    let mut branch: Option<String> = None;
    let mut label: Option<String> = None;
    let mut i: usize = 1;
    while i < all.len()
        invariant
            1 <= i <= all.len(),
            texts(all@) == lines_of(text@),
            frontmatter(text@) == block_from(
                texts(all@),
                i as int,
                opt_text(branch),
                opt_text(label),
            ),
        decreases all.len() - i,
    {
        let line: String = strip_end(all[i].as_str(), '\r');
        assert(line@ == bare(texts(all@)[i as int]));
        if same(line.as_str(), "---") {
            return Ok((branch, label));
        }
        if trim(line.as_str()).as_str().is_empty() {
            i = i + 1;
            continue ;
        }
        match split_once(line.as_str(), ':') {
            None => {
                return Err(
                    quoting(
                        "malformed frontmatter line ",
                        line.as_str(),
                        ": expected `key: value`",
                    ),
                );
            },
            Some((key, value)) => {
                let value: String = trim(value.as_str());
                if value.as_str().is_empty() {
                    return Err(
                        quoting("frontmatter key ", key.as_str(), " needs a non-empty value"),
                    );
                }
                let name: String = trim(key.as_str());
                if same(name.as_str(), "branch") {
                    if branch.is_some() {
                        let e: UsageError = quoting("duplicate frontmatter key ", key.as_str(), "");
                        proof {
                            reveal_strlit("");
                            assert(e.0@ =~= "duplicate frontmatter key "@ + quoted(key@));
                        }
                        return Err(e);
                    }
                    branch = Some(value);
                } else if same(name.as_str(), "label") {
                    if label.is_some() {
                        let e: UsageError = quoting("duplicate frontmatter key ", key.as_str(), "");
                        proof {
                            reveal_strlit("");
                            assert(e.0@ =~= "duplicate frontmatter key "@ + quoted(key@));
                        }
                        return Err(e);
                    }
                    label = Some(value);
                } else {
                    return Err(
                        quoting(
                            "unknown frontmatter key ",
                            name.as_str(),
                            " (want branch or label)",
                        ),
                    );
                }
            },
        }
        i = i + 1;
    }
    Err(UsageError("unterminated frontmatter block: missing closing `---`".to_string()))
}

/// A branch or a label that a prompt file names is never empty.
pub proof fn law_frontmatter_values_not_empty(text: Seq<char>)
    ensures
        frontmatter(text) matches Ok((branch, label)) ==> {
            &&& branch matches Some(b) ==> b.len() > 0
            &&& label matches Some(l) ==> l.len() > 0
        },
{
    lemma_block_values(lines_of(text), 1, None, None);
}

proof fn lemma_block_values(
    lines: Seq<Seq<char>>,
    i: int,
    branch: Option<Seq<char>>,
    label: Option<Seq<char>>,
)
    requires
        branch matches Some(b) ==> b.len() > 0,
        label matches Some(l) ==> l.len() > 0,
    ensures
        block_from(lines, i, branch, label) matches Ok((b, l)) ==> {
            &&& b matches Some(b) ==> b.len() > 0
            &&& l matches Some(l) ==> l.len() > 0
        },
    decreases lines.len() - i,
{
    if 0 <= i < lines.len() && bare(lines[i]) != "---"@ {
        if trimmed(bare(lines[i])).len() == 0 {
            lemma_block_values(lines, i + 1, branch, label);
        } else if let Some((key, value)) = cut(bare(lines[i]), ':') {
            if trimmed(value).len() > 0 {
                if trimmed(key) == "branch"@ {
                    lemma_block_values(lines, i + 1, Some(trimmed(value)), label);
                } else if trimmed(key) == "label"@ {
                    lemma_block_values(lines, i + 1, branch, Some(trimmed(value)));
                }
            }
        }
    }
}

/// Once the block is closed, or where there is none, the text behind it is not looked at: `front`
/// is a prompt file up to the end of a line, and `behind` is any text.
pub proof fn law_text_behind_ignored(front: Seq<char>, behind: Seq<char>)
    requires
        front.len() > 0 && front.last() == '\n',
        frontmatter(front) is Ok,
    ensures
        frontmatter(front + behind) == frontmatter(front),
{
    lemma_lines_behind(front, behind);
    lemma_lines(front);
    assert(front[front.len() - 1] == '\n');
    assert(front.contains('\n'));
    assert(lines_of(front).len() > 0);
    assert((lines_of(front) + lines_of(behind))[0] == lines_of(front)[0]);
    if bare(lines_of(front)[0]) == "---"@ {
        lemma_block_closed(lines_of(front), lines_of(behind), 1, None, None);
    }
}

proof fn lemma_block_closed(
    lines: Seq<Seq<char>>,
    more: Seq<Seq<char>>,
    i: int,
    branch: Option<Seq<char>>,
    label: Option<Seq<char>>,
)
    requires
        block_from(lines, i, branch, label) is Ok,
    ensures
        block_from(lines + more, i, branch, label) == block_from(lines, i, branch, label),
    decreases lines.len() - i,
{
    assert((lines + more)[i] == lines[i]);
    if bare(lines[i]) != "---"@ {
        if trimmed(bare(lines[i])).len() == 0 {
            lemma_block_closed(lines, more, i + 1, branch, label);
        } else if let Some((key, value)) = cut(bare(lines[i]), ':') {
            if trimmed(key) == "branch"@ {
                lemma_block_closed(lines, more, i + 1, Some(trimmed(value)), label);
            } else if trimmed(key) == "label"@ {
                lemma_block_closed(lines, more, i + 1, branch, Some(trimmed(value)));
            }
        }
    }
}

/// A block before a prompt gives the branch and the label that stand behind their keys, whatever
/// the prompt says behind it; a text that does not start with one gives neither.
pub proof fn law_frontmatter_read(
    branch: Seq<char>,
    label: Seq<char>,
    rest: Seq<char>,
    other: Seq<char>,
)
    requires
        branch.len() > 0 && !branch.contains('\n') && !crate::text::is_white(branch[0])
            && !crate::text::is_white(branch.last()),
        label.len() > 0 && !label.contains('\n') && !crate::text::is_white(label[0])
            && !crate::text::is_white(label.last()),
        other.len() > 0 && other[0] != '-',
    ensures
        frontmatter(
            "---"@ + seq!['\n'] + ("branch: "@ + branch + seq!['\n'] + ("label: "@ + label + seq![
                '\n',
            ] + ("---"@ + seq!['\n'] + rest))),
        ) == Ok::<(Option<Seq<char>>, Option<Seq<char>>), Seq<char>>((Some(branch), Some(label))),
        frontmatter("---"@ + seq!['\n'] + ("---"@ + seq!['\n'] + rest)) == Ok::<
            (Option<Seq<char>>, Option<Seq<char>>),
            Seq<char>,
        >((None, None)),
        frontmatter(other) == Ok::<(Option<Seq<char>>, Option<Seq<char>>), Seq<char>>((None, None)),
{
    reveal_strlit("---");
    reveal_strlit("branch: ");
    reveal_strlit("label: ");
    reveal_strlit("branch");
    reveal_strlit("label");
    let dashes = "---"@;
    assert(dashes =~= seq!['-', '-', '-']);
    assert("branch: "@ =~= seq!['b', 'r', 'a', 'n', 'c', 'h', ':', ' ']);
    assert("label: "@ =~= seq!['l', 'a', 'b', 'e', 'l', ':', ' ']);
    assert("branch"@ =~= seq!['b', 'r', 'a', 'n', 'c', 'h']);
    assert("label"@ =~= seq!['l', 'a', 'b', 'e', 'l']);
    let one = "branch: "@ + branch;
    let two = "label: "@ + label;
    lemma_no_newline("branch: "@, branch);
    lemma_no_newline("label: "@, label);
    crate::text::law_lines(dashes, rest);
    let end = dashes + seq!['\n'] + rest;
    crate::text::law_lines(two, end);
    let later = two + seq!['\n'] + end;
    crate::text::law_lines(one, later);
    let block = one + seq!['\n'] + later;
    crate::text::law_lines(dashes, block);
    crate::text::law_lines(dashes, end);
    let lines = lines_of(dashes + seq!['\n'] + block);
    assert(lines[0] == dashes && lines[1] == one && lines[2] == two && lines[3] == dashes);
    let none = lines_of(dashes + seq!['\n'] + end);
    assert(none[0] == dashes && none[1] == dashes);
    assert(one =~= "branch"@ + seq![':', ' '] + branch);
    assert(two =~= "label"@ + seq![':', ' '] + label);
    lemma_key_read("branch"@, one, branch);
    lemma_key_read("label"@, two, label);
    assert(bare(dashes) == dashes);
    reveal_with_fuel(block_from, 4);
    assert(frontmatter(dashes + seq!['\n'] + block) == block_from(lines, 1, None, None));
    assert(one[0] == 'b' && two[0] == 'l');
    assert(block_from(lines, 1, None, None) == block_from(lines, 2, Some(branch), None));
    assert(block_from(lines, 2, Some(branch), None) == block_from(
        lines,
        3,
        Some(branch),
        Some(label),
    ));
    lemma_first_line(other);
}

proof fn lemma_first_line(other: Seq<char>)
    requires
        other.len() > 0,
        other[0] != '-',
    ensures
        lines_of(other).len() > 0 ==> bare(lines_of(other)[0]) != "---"@,
{
    reveal_strlit("---");
    crate::text::lemma_lines(other);
    let lines = lines_of(other);
    if lines.len() > 0 && bare(lines[0]) == "---"@ {
        lemma_bare_starts(lines[0]);
        assert(lines[0].len() > 0 && lines[0][0] == '-');
    }
}

proof fn lemma_bare_starts(line: Seq<char>)
    ensures
        bare(line).len() <= line.len(),
        bare(line).len() > 0 ==> bare(line)[0] == line[0],
    decreases line.len(),
{
    if line.len() > 0 && line.last() == '\r' {
        lemma_bare_starts(line.drop_last());
    }
}

proof fn lemma_no_newline(front: Seq<char>, back: Seq<char>)
    requires
        !back.contains('\n'),
        front == "branch: "@ || front == "label: "@,
    ensures
        !(front + back).contains('\n'),
{
    reveal_strlit("branch: ");
    reveal_strlit("label: ");
    assert("branch: "@ =~= seq!['b', 'r', 'a', 'n', 'c', 'h', ':', ' ']);
    assert("label: "@ =~= seq!['l', 'a', 'b', 'e', 'l', ':', ' ']);
    let s = front + back;
    if s.contains('\n') {
        let i = choose|i: int| 0 <= i < s.len() && s[i] == '\n';
        if i >= front.len() {
            assert(back[i - front.len()] == '\n');
        }
    }
}

/// A line with a key and a value is read as them.
proof fn lemma_key_read(key: Seq<char>, line: Seq<char>, value: Seq<char>)
    requires
        key == "branch"@ || key == "label"@,
        line == key + seq![':', ' '] + value,
        value.len() > 0,
        !crate::text::is_white(value[0]) && !crate::text::is_white(value.last()),
    ensures
        bare(line) == line,
        trimmed(line).len() > 0,
        trimmed(key) == key,
        cut(line, ':') matches Some((k, v)) && k == key && trimmed(v) == value,
{
    reveal_strlit("branch");
    reveal_strlit("label");
    assert("branch"@ =~= seq!['b', 'r', 'a', 'n', 'c', 'h']);
    assert("label"@ =~= seq!['l', 'a', 'b', 'e', 'l']);
    let empty = Seq::<char>::empty();
    assert(line.last() == value.last());
    assert(!key.contains(':'));
    let behind = seq![' '] + value;
    crate::text::law_cut(key, ':', behind);
    assert(key + seq![':'] + behind =~= line);
    crate::text::law_trimmed(seq![' '], value, empty);
    assert(seq![' '] + value + empty =~= behind);
    crate::text::law_trimmed(empty, key, empty);
    assert(empty + key + empty =~= key);
    crate::text::law_trimmed(empty, line, empty);
    assert(empty + line + empty =~= line);
}

/// A block without its end is refused.
pub proof fn law_frontmatter_refused(
    lines: Seq<Seq<char>>,
    i: int,
    branch: Option<Seq<char>>,
    label: Option<Seq<char>>,
)
    requires
        0 <= i <= lines.len(),
        forall|k: int| i <= k < lines.len() ==> bare(#[trigger] lines[k]) != "---"@,
    ensures
        block_from(lines, i, branch, label) is Err,
    decreases lines.len() - i,
{
    if i < lines.len() {
        assert(bare(lines[i]) != "---"@);
        law_frontmatter_refused(lines, i + 1, branch, label);
        if let Some((key, value)) = cut(bare(lines[i]), ':') {
            law_frontmatter_refused(lines, i + 1, Some(trimmed(value)), label);
            law_frontmatter_refused(lines, i + 1, branch, Some(trimmed(value)));
        }
    }
}

} // verus!
