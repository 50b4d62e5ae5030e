//! The listing of the themes that come with the program.

use vstd::prelude::*;

use crate::answers::{failed, failure, succeeded, success, Ending};
use crate::order::{ordering, picked, sort_positions};
use crate::text::{chars_of, code, owned};

verus! {

/// A file among the themes: its name without the extension, the extension, and its path.
#[derive(Debug)]
pub struct ThemeFile {
    pub stem: String,
    pub extension: Option<String>,
    pub path: String,
}

/// A theme: its name and its path.
pub type ThemeV = (Seq<char>, Seq<char>);

/// A letter of ASCII made small, and any other character as it is.
pub open spec fn small(c: char) -> char {
    if 65 <= c as int <= 90 {
        (c as u32 + 32) as char
    } else {
        c
    }
}

/// Whether two texts differ at most in the case of letters of ASCII.
pub open spec fn alike(a: Seq<char>, b: Seq<char>) -> bool {
    a.map_values(|c: char| small(c)) == b.map_values(|c: char| small(c))
}

fn small_code(c: char) -> (n: u32)
    ensures
        n == small(c) as u32,
{
    let n: u32 = code(c);
    if 65 <= n && n <= 90 {
        n + 32
    } else {
        n
    }
}

fn eq_ignore_case(a: &str, b: &str) -> (r: bool)
    ensures
        r == alike(a@, b@),
{
    let x: Vec<char> = chars_of(a);
    let y: Vec<char> = chars_of(b);
    let ghost s = a@.map_values(|c: char| small(c));
    let ghost t = b@.map_values(|c: char| small(c));
    if x.len() != y.len() {
        assert(s.len() != t.len());
        return false;
    }
    let mut i: usize = 0;
    while i < x.len()
        invariant
            i <= x.len(),
            x.len() == y.len(),
            x@ == a@,
            y@ == b@,
            s == a@.map_values(|c: char| small(c)),
            t == b@.map_values(|c: char| small(c)),
            forall|k: int| 0 <= k < i ==> #[trigger] s[k] == t[k],
        decreases x.len() - i,
    {
        assert(s[i as int] == small(x@[i as int]) && t[i as int] == small(y@[i as int]));
        if small_code(x[i]) != small_code(y[i]) {
            assert(s[i as int] != t[i as int]);
            return false;
        }
        i = i + 1;
    }
    assert(s =~= t);
    true
}

pub open spec fn is_theme(f: ThemeFile) -> bool {
    f.extension is Some && alike(f.extension->0@, "toml"@)
}

/// The themes among the files, in their order.
pub open spec fn themes_of(files: Seq<ThemeFile>) -> Seq<ThemeV>
    decreases files.len(),
{
    if files.len() == 0 {
        seq![]
    } else if is_theme(files.last()) {
        themes_of(files.drop_last()).push((files.last().stem@, files.last().path@))
    } else {
        themes_of(files.drop_last())
    }
}

/// Each theme on a line of its own.
pub open spec fn theme_lines(themes: Seq<ThemeV>) -> Seq<char>
    decreases themes.len(),
{
    if themes.len() == 0 {
        seq![]
    } else {
        theme_lines(themes.drop_last()) + (themes.last().0 + "  "@ + themes.last().1 + "\n"@)
    }
}

/// Whether `out` are the themes in the order of their names.
pub open spec fn by_name(themes: Seq<ThemeV>, out: Seq<ThemeV>) -> bool {
    exists|names: Seq<String>, order: Seq<usize>|
        {
            &&& names.len() == themes.len()
            &&& forall|i: int| 0 <= i < themes.len() ==> (#[trigger] names[i])@ == themes[i].0
            &&& #[trigger] ordering(names, order)
            &&& out == picked(themes, order)
        }
}

pub open spec fn no_themes() -> Seq<char> {
    "cmux: themes/ directory not found; is the binary running from the repo root?"@
}

/// Lists the themes in the order of their names; there are no files to look at where the
/// directory cannot be read.
pub fn run_list(files: &Option<Vec<ThemeFile>>) -> (e: Ending)
    ensures
        match *files {
            None => e@ == failure(1, no_themes()),
            Some(files) => exists|out: Seq<ThemeV>|
                #[trigger] by_name(themes_of(files@), out) && e@ == success(theme_lines(out)),
        },
{
    match files {
        None => failed(
            1,
            "cmux: themes/ directory not found; is the binary running from the repo root?".to_string(),
        ),
        Some(files) => succeeded(list_themes(files)),
    }
}

fn list_themes(files: &Vec<ThemeFile>) -> (text: String)
    ensures
        exists|out: Seq<ThemeV>|
            #[trigger] by_name(themes_of(files@), out) && text@ == theme_lines(out),
{
    let ghost themes = themes_of(files@);
    let mut names: Vec<String> = Vec::new();
    let mut paths: Vec<String> = Vec::new();
    let mut i: usize = 0;
    while i < files.len()
        invariant
            i <= files.len(),
            names.len() == paths.len(),
            names.len() == themes_of(files@.take(i as int)).len(),
            forall|k: int|
                0 <= k < names.len() ==> (#[trigger] names@[k])@ == themes_of(
                    files@.take(i as int),
                )[k].0 && paths@[k]@ == themes_of(files@.take(i as int))[k].1,
        decreases files.len() - i,
    {
        proof {
            assert(files@.take(i + 1).drop_last() =~= files@.take(i as int));
        }
        let ghost (was_names, was_paths) = (names@, paths@);
        let theme: bool = match &files[i].extension {
            Some(x) => eq_ignore_case(x.as_str(), "toml"),
            None => false,
        };
        if theme {
            names.push(owned(files[i].stem.as_str()));
            paths.push(owned(files[i].path.as_str()));
        }
        proof {
            let was = themes_of(files@.take(i as int));
            let now = themes_of(files@.take(i + 1));
            assert(now == if theme {
                was.push((files@[i as int].stem@, files@[i as int].path@))
            } else {
                was
            });
            assert forall|k: int| 0 <= k < names.len() implies (#[trigger] names@[k])@ == now[k].0
                && paths@[k]@ == now[k].1 by {
                if k < was_names.len() {
                    assert(was_names[k]@ == was[k].0);
                    assert(names@[k] == was_names[k] && paths@[k] == was_paths[k]);
                }
            }
        }
        i = i + 1;
    }
    assert(files@.take(files.len() as int) =~= files@);
    let order: Vec<usize> = sort_positions(&names);
    let ghost out = picked(themes, order@);
    assert(by_name(themes, out)) by {
        assert(ordering(names@, order@));
    }
    let mut text: String = String::new();
    let mut i: usize = 0;
    assert(text@ =~= theme_lines(out.take(0)));
    while i < order.len()
        invariant
            i <= order.len(),
            out == picked(themes, order@),
            ordering(names@, order@),
            names.len() == themes.len(),
            paths.len() == themes.len(),
            forall|k: int|
                0 <= k < names.len() ==> (#[trigger] names@[k])@ == themes[k].0 && paths@[k]@
                    == themes[k].1,
            text@ == theme_lines(out.take(i as int)),
        decreases order.len() - i,
    {
        let p: usize = order[i];
        assert(order@[i as int] < names.len());
        assert(names@[p as int]@ == themes[p as int].0);
        text.append(names[p].as_str());
        text.append("  ");
        text.append(paths[p].as_str());
        text.append("\n");
        proof {
            assert(out.take(i + 1).drop_last() =~= out.take(i as int));
            assert(out[i as int] == themes[p as int]);
            assert(text@ =~= theme_lines(out.take(i as int)) + (themes[p as int].0 + "  "@
                + themes[p as int].1 + "\n"@));
        }
        i = i + 1;
    }
    assert(out.take(out.len() as int) =~= out);
    text
}

/// A theme is a file whose extension is `toml`, in whatever case it is written; it is called by its
/// name and found at its path. Each has a line of its own, in order.
pub proof fn law_themes(files: Seq<ThemeFile>, f: ThemeFile, list: Seq<ThemeV>, t: ThemeV)
    ensures
        themes_of(seq![]).len() == 0,
        theme_lines(seq![]).len() == 0,
        is_theme(f) ==> themes_of(files.push(f)) == themes_of(files).push((f.stem@, f.path@)),
        !is_theme(f) ==> themes_of(files.push(f)) == themes_of(files),
        f.extension is None ==> !is_theme(f),
        f.extension matches Some(e) ==> (e@ == "toml"@ || e@ == "TOML"@ ==> is_theme(f)),
        f.extension matches Some(e) ==> is_theme(f) ==> e@.len() == 4,
        theme_lines(list.push(t)) == theme_lines(list) + t.0 + "  "@ + t.1 + "\n"@,
{
    reveal_strlit("toml");
    reveal_strlit("TOML");
    assert(files.push(f).drop_last() =~= files);
    assert(list.push(t).drop_last() =~= list);
    assert(theme_lines(list) + (t.0 + "  "@ + t.1 + "\n"@) =~= theme_lines(list) + t.0 + "  "@ + t.1
        + "\n"@);
    let a = "toml"@.map_values(|c: char| small(c));
    let b = "TOML"@.map_values(|c: char| small(c));
    assert("toml"@.len() == 4 && "TOML"@.len() == 4);
    assert(small('T') == 't' && small('O') == 'o' && small('M') == 'm' && small('L') == 'l');
    assert(a =~= b);
    if let Some(e) = f.extension {
        if is_theme(f) {
            assert(e@.map_values(|c: char| small(c)).len() == e@.len());
            assert(a.len() == 4);
        }
    }
}

/// Two texts are alike where each character of the one is that of the other, or the same letter in
/// the other case.
pub proof fn law_alike(a: Seq<char>, b: Seq<char>)
    ensures
        alike(a, b) <==> a.len() == b.len() && forall|i: int|
            0 <= i < a.len() ==> #[trigger] a[i] == b[i] || (65 <= a[i] as int <= 90 && b[i] as int
                == a[i] as int + 32) || (65 <= b[i] as int <= 90 && a[i] as int == b[i] as int + 32),
{
    let x = a.map_values(|c: char| small(c));
    let y = b.map_values(|c: char| small(c));
    if alike(a, b) {
        assert(x.len() == a.len() && y.len() == b.len());
        assert forall|i: int| 0 <= i < a.len() implies #[trigger] a[i] == b[i] || (65 <= a[i] as int
            <= 90 && b[i] as int == a[i] as int + 32) || (65 <= b[i] as int <= 90 && a[i] as int
            == b[i] as int + 32) by {
            assert(x[i] == small(a[i]) && y[i] == small(b[i]));
        }
    } else if a.len() == b.len() && forall|i: int|
        0 <= i < a.len() ==> #[trigger] a[i] == b[i] || (65 <= a[i] as int <= 90 && b[i] as int
            == a[i] as int + 32) || (65 <= b[i] as int <= 90 && a[i] as int == b[i] as int + 32) {
        assert forall|i: int| 0 <= i < a.len() implies x[i] == y[i] by {
            assert(a[i] == a[i]);
            assert(x[i] == small(a[i]) && y[i] == small(b[i]));
        }
        assert(x =~= y);
    }
}

/// Themes by name: all of them, each once, none before one whose name comes first.
pub proof fn law_themes_in_order(themes: Seq<ThemeV>, out: Seq<ThemeV>, i: int, j: int)
    requires
        by_name(themes, out),
        0 <= i < j < out.len(),
    ensures
        out.len() == themes.len(),
        crate::text::text_le(out[i].0, out[j].0),
        exists|from: Seq<int>|
            from.no_duplicates() && #[trigger] from.len() == themes.len() && forall|k: int|
                0 <= k < from.len() ==> 0 <= #[trigger] from[k] < themes.len() && out[k]
                    == themes[from[k]],
{
    let (names, order) = choose|names: Seq<String>, order: Seq<usize>|
        {
            &&& names.len() == themes.len()
            &&& forall|i: int| 0 <= i < themes.len() ==> (#[trigger] names[i])@ == themes[i].0
            &&& #[trigger] ordering(names, order)
            &&& out == picked(themes, order)
        };
    assert(crate::order::comes_first(names, order[i], order[j]));
    assert(names[order[i] as int]@ == themes[order[i] as int].0);
    assert(names[order[j] as int]@ == themes[order[j] as int].0);
    let from = order.map_values(|k: usize| k as int);
    assert(from.no_duplicates()) by {
        assert forall|a: int, b: int|
            0 <= a < from.len() && 0 <= b < from.len() && a != b implies from[a] != from[b] by {
            assert(order[a] != order[b]);
        }
    }
    assert(from.len() == themes.len());
}

} // verus!
