//! The version that is built into the program, and the other decisions of its build.

use vstd::prelude::*;

use crate::text::{
    contains, lines, lines_of, occurs, opt_text, owned, path_join, path_joined, same, starts_with,
    tail, texts, trim, trimmed,
};

verus! {

/// A setting counts only where it holds more than white space.
pub open spec fn setting(value: Option<Seq<char>>) -> Option<Seq<char>> {
    match value {
        Some(v) => if trimmed(v).len() > 0 {
            Some(v)
        } else {
            None
        },
        None => None,
    }
}

pub fn env(value: &Option<String>) -> (r: Option<String>)
    ensures
        opt_text(r) == setting(opt_text(*value)),
{
    match value {
        Some(v) => {
            if trim(v.as_str()).as_str().is_empty() {
                None
            } else {
                Some(owned(v.as_str()))
            }
        },
        None => None,
    }
}

/// What a command said: its output without the white space around it, where it ended well and
/// said something.
pub open spec fn said(success: bool, output: Seq<char>) -> Option<Seq<char>> {
    if success && trimmed(output).len() > 0 {
        Some(trimmed(output))
    } else {
        None
    }
}

pub fn git(success: bool, output: &str) -> (r: Option<String>)
    ensures
        opt_text(r) == said(success, output@),
{
    if !success {
        return None;
    }
    let text: String = trim(output);
    if text.as_str().is_empty() {
        None
    } else {
        Some(text)
    }
}

/// The version that a tag names: `v0.17.2` is `0.17.2`.
pub open spec fn normal(raw: Seq<char>) -> Seq<char> {
    let t = trimmed(raw);
    if "v"@.is_prefix_of(t) {
        t.skip("v"@.len() as int)
    } else {
        t
    }
}

pub fn normalise(raw: &str) -> (r: String)
    ensures
        r@ == normal(raw@),
{
    let t: String = trim(raw);
    if starts_with(t.as_str(), "v") {
        tail(t.as_str(), "v".unicode_len())
    } else {
        t
    }
}

/// What the version is made from: what was set for the build, what `git describe` said, the
/// commit, the version in the manifest, and what `git status` said.
#[derive(Debug)]
pub struct Sources {
    pub explicit: Option<String>,
    pub described: Option<String>,
    pub commit: Option<String>,
    pub manifest: Option<String>,
    pub status: Option<String>,
}

pub open spec fn fallback(manifest: Option<Seq<char>>) -> Seq<char> {
    match manifest {
        Some(m) => m,
        None => "unknown"@,
    }
}

/// Whether tracked files were changed.
pub open spec fn dirty(status: Option<Seq<char>>) -> bool {
    status is Some && status->0.len() > 0
}

pub fn is_dirty(status: &Option<String>) -> (r: bool)
    ensures
        r == dirty(opt_text(*status)),
{
    match status {
        Some(s) => !s.as_str().is_empty(),
        None => false,
    }
}

pub open spec fn marked(version: Seq<char>, dirty: bool) -> Seq<char> {
    if dirty {
        version + "-dirty"@
    } else {
        version
    }
}

/// The version: what was set for the build, as it is; else what the tags say; else the version
/// of the manifest with the commit; else the version of the manifest alone.
pub open spec fn version_of(s: Sources) -> Seq<char> {
    let floor = fallback(opt_text(s.manifest));
    let changed = dirty(opt_text(s.status));
    match (s.explicit, s.described, s.commit) {
        (Some(explicit), _, _) => normal(explicit@),
        (None, Some(described), _) => marked(normal(described@), changed),
        (None, None, Some(commit)) => marked(floor + "-g"@ + commit@, changed),
        (None, None, None) => floor,
    }
}

pub fn resolve_version(s: &Sources) -> (r: String)
    ensures
        r@ == version_of(*s),
{
    if let Some(explicit) = &s.explicit {
        return normalise(explicit.as_str());
    }
    let floor: String = match &s.manifest {
        Some(m) => owned(m.as_str()),
        None => "unknown".to_string(),
    };
    let mut version: String = match &s.described {
        Some(described) => normalise(described.as_str()),
        None => match &s.commit {
            Some(commit) => {
                let mut v: String = floor;
                v.append("-g");
                v.append(commit.as_str());
                v
            },
            None => {
                return floor;
            },
        },
    };
    if is_dirty(&s.status) {
        version.append("-dirty");
    }
    version
}

/// The version starts with what its source names: only what marks a build as no release is put
/// behind it.
pub proof fn law_version_keeps_source(s: Sources)
    ensures
        match (s.explicit, s.described) {
            (Some(explicit), _) => version_of(s) == normal(explicit@),
            (None, Some(described)) => normal(described@).is_prefix_of(version_of(s)),
            (None, None) => fallback(opt_text(s.manifest)).is_prefix_of(version_of(s)),
        },
{
    let floor = fallback(opt_text(s.manifest));
    let changed = dirty(opt_text(s.status));
    if s.explicit is None {
        match s.described {
            Some(d) => {
                let n = normal(d@);
                assert(version_of(s).subrange(0, n.len() as int) =~= n);
            },
            None => {
                assert(version_of(s).subrange(0, floor.len() as int) =~= floor);
            },
        }
    }
}

/// The directory of the repository: what git said, which is relative to the manifest's.
pub fn git_dir(said: &Option<String>, manifest_dir: &str) -> (r: Option<String>)
    ensures
        opt_text(r) == match *said {
            Some(dir) => Some(path_joined(manifest_dir@, dir@)),
            None => None,
        },
{
    match said {
        Some(dir) => Some(path_join(manifest_dir, dir.as_str())),
        None => None,
    }
}

// ---- the terminal library -----------------------------------------------------------------

/// The target of the terminal library for a target of this program; for others it is built for
/// the machine it is built on.
pub open spec fn zig_target(target: Seq<char>) -> Option<Seq<char>> {
    if target == "x86_64-pc-windows-gnu"@ {
        Some("x86_64-windows-gnu"@)
    } else if target == "x86_64-pc-windows-msvc"@ {
        Some("x86_64-windows-msvc"@)
    } else if target == "aarch64-pc-windows-msvc"@ {
        Some("aarch64-windows-msvc"@)
    } else {
        None
    }
}

pub fn zig_target_for_rust_target(target: &str) -> (r: Option<&'static str>)
    ensures
        match r {
            Some(t) => zig_target(target@) == Some(t@),
            None => zig_target(target@) is None,
        },
{
    if same(target, "x86_64-pc-windows-gnu") {
        Some("x86_64-windows-gnu")
    } else if same(target, "x86_64-pc-windows-msvc") {
        Some("x86_64-windows-msvc")
    } else if same(target, "aarch64-pc-windows-msvc") {
        Some("aarch64-windows-msvc")
    } else {
        None
    }
}

/// The words behind `zig` that build the terminal library.
pub open spec fn zig_words(
    target: Seq<char>,
    host: Seq<char>,
    cpu: Option<Seq<char>>,
    prefix: Seq<char>,
) -> Seq<Seq<char>> {
    let base = seq![
        "build"@,
        "-Demit-lib-vt=true"@,
        "-Demit-xcframework=false"@,
        "-Doptimize=ReleaseFast"@,
    ];
    let targeted = if target != host && zig_target(target) is Some {
        base.push("-Dtarget="@ + zig_target(target)->0)
    } else {
        base
    };
    let tuned = match cpu {
        Some(c) => targeted.push("-Dcpu="@ + c),
        None => targeted,
    };
    tuned.push("--prefix"@).push(prefix)
}

pub fn zig_command(target: &str, host: &str, cpu: &Option<String>, prefix: &str) -> (out: Vec<
    String,
>)
    ensures
        texts(out@) == zig_words(target@, host@, opt_text(*cpu), prefix@),
{
    let mut out: Vec<String> = vec![
        "build".to_string(),
        "-Demit-lib-vt=true".to_string(),
        "-Demit-xcframework=false".to_string(),
        "-Doptimize=ReleaseFast".to_string(),
    ];
    assert(texts(out@) =~= seq![
        "build"@,
        "-Demit-lib-vt=true"@,
        "-Demit-xcframework=false"@,
        "-Doptimize=ReleaseFast"@,
    ]);
    if !same(target, host) {
        if let Some(zig) = zig_target_for_rust_target(target) {
            let mut word: String = "-Dtarget=".to_string();
            word.append(zig);
            put(&mut out, word);
        }
    }
    if let Some(c) = cpu {
        let mut word: String = "-Dcpu=".to_string();
        word.append(c.as_str());
        put(&mut out, word);
    }
    put(&mut out, "--prefix".to_string());
    put(&mut out, owned(prefix));
    out
}

fn put(out: &mut Vec<String>, word: String)
    ensures
        texts(final(out)@) == texts(old(out)@).push(word@),
{
    out.push(word);
    assert(texts(out@) =~= texts(old(out)@).push(word@));
}

/// The name that the terminal library is linked under.
pub fn link_name(target: &str) -> (r: &'static str)
    ensures
        r@ == if occurs(target@, "windows"@) {
            "ghostty-vt-static"@
        } else {
            "ghostty-vt"@
        },
{
    if contains(target, "windows") {
        "ghostty-vt-static"
    } else {
        "ghostty-vt"
    }
}

/// The paths that a compiler lists, from line `i` on: those between the line that starts the
/// list, once that was seen, and the line that ends it.
pub open spec fn listed(all: Seq<Seq<char>>, i: int, within: bool) -> Seq<Seq<char>>
    decreases all.len() - i,
{
    if i < 0 || i >= all.len() {
        seq![]
    } else if occurs(all[i], "#include <...>"@) {
        listed(all, i + 1, true)
    } else if occurs(all[i], "End of search list."@) {
        seq![]
    } else if within && trimmed(all[i]).len() > 0 {
        seq![trimmed(all[i])] + listed(all, i + 1, within)
    } else {
        listed(all, i + 1, within)
    }
}

/// The paths that a compiler lists in what it says.
pub fn probe_system_includes(output: &str) -> (out: Vec<String>)
    ensures
        texts(out@) == listed(lines_of(output@), 0, false),
{
    let all: Vec<String> = lines(output);
    let ghost view = texts(all@);
    let ghost goal = listed(view, 0, false);
    let mut out: Vec<String> = Vec::new();
    let mut within: bool = false;
    let mut i: usize = 0;
    assert(texts(out@) + goal =~= goal);
    while i < all.len()
        invariant
            i <= all.len(),
            view == texts(all@),
            texts(out@) + listed(view, i as int, within) == goal,
        ensures
            texts(out@) == goal,
        decreases all.len() - i,
    {
        let line: &str = all[i].as_str();
        assert(view[i as int] == line@);
        if contains(line, "#include <...>") {
            within = true;
        } else if contains(line, "End of search list.") {
            assert(texts(out@) + Seq::<Seq<char>>::empty() =~= texts(out@));
            break ;
        } else if within {
            let path: String = trim(line);
            if !path.as_str().is_empty() {
                let ghost before = texts(out@);
                let ghost rest = listed(view, i + 1, within);
                put(&mut out, path);
                assert(before + (seq![path@] + rest) =~= texts(out@) + rest);
            }
        }
        i = i + 1;
        assert(i < all.len() || texts(out@) + Seq::<Seq<char>>::empty() =~= texts(out@));
    }
    out
}

/// A version is named without the `v` before it and the blanks round it.
pub proof fn law_normal(v: Seq<char>)
    requires
        v.len() > 0,
        !crate::text::is_white(v[0]) && !crate::text::is_white(v.last()),
    ensures
        normal(seq!['v'] + v) == v,
        v[0] != 'v' ==> normal(v) == v,
        normal(seq![' '] + v + seq!['\n']) == normal(v),
{
    reveal_strlit("v");
    assert("v"@ =~= seq!['v']);
    let empty = Seq::<char>::empty();
    let w = seq!['v'] + v;
    crate::text::law_trimmed(empty, w, empty);
    assert(empty + w + empty =~= w);
    assert(w.take(1) =~= "v"@);
    assert(w.skip(1) =~= v);
    crate::text::law_trimmed(empty, v, empty);
    assert(empty + v + empty =~= v);
    crate::text::law_trimmed(seq![' '], v, seq!['\n']);
    if v[0] != 'v' && "v"@.is_prefix_of(v) {
        assert(v.take(1)[0] == 'v');
    }
}

/// Where a version comes from: what is said outright, else what the repository describes, else the
/// commit behind the manifest's version, else the manifest's; what is changed and not committed
/// shows, except where the version is said outright.
pub proof fn law_version_sources(s: Sources)
    ensures
        s.explicit matches Some(x) ==> version_of(s) == normal(x@),
        s.explicit is None ==> (s.described matches Some(d) ==> {
            &&& !dirty(opt_text(s.status)) ==> version_of(s) == normal(d@)
            &&& dirty(opt_text(s.status)) ==> version_of(s) == normal(d@) + "-dirty"@
        }),
        s.explicit is None && s.described is None && s.commit is None ==> (s.manifest matches Some(m)
            ==> version_of(s) == m@),
        s.explicit is None && s.described is None && s.commit is None && s.manifest is None
            ==> version_of(s) == "unknown"@,
        s.explicit is None && s.described is None ==> (s.commit matches Some(c) ==> (s.manifest
            matches Some(m) ==> {
            &&& !dirty(opt_text(s.status)) ==> version_of(s) == m@ + "-g"@ + c@
            &&& dirty(opt_text(s.status)) ==> version_of(s) == m@ + "-g"@ + c@ + "-dirty"@
        })),
{
}

/// A setting counts where it is not blank, as it is; what a program said counts where it succeeded,
/// without the blanks round it.
pub proof fn law_settings(v: Seq<char>, success: bool)
    ensures
        trimmed(v).len() > 0 ==> setting(Some(v)) == Some(v),
        trimmed(v).len() == 0 ==> setting(Some(v)) is None,
        setting(None) is None,
        trimmed(v).len() > 0 ==> said(true, v) == Some(trimmed(v)),
        said(false, v) is None,
        dirty(Some(v)) <==> v.len() > 0,
        !dirty(None),
{
}

/// The directories of a search list: the lines between its two marks, in order, without the blanks
/// round them.
pub proof fn law_search_list(all: Seq<Seq<char>>, i: int, within: bool)
    requires
        0 <= i < all.len(),
        !occurs(all[i], "#include <...>"@),
    ensures
        occurs(all[i], "End of search list."@) ==> listed(all, i, within).len() == 0,
        !occurs(all[i], "End of search list."@) && !within ==> listed(all, i, within) == listed(
            all,
            i + 1,
            false,
        ),
        !occurs(all[i], "End of search list."@) && within && trimmed(all[i]).len() > 0 ==> {
            &&& listed(all, i, within).len() == listed(all, i + 1, true).len() + 1
            &&& listed(all, i, within)[0] == trimmed(all[i])
            &&& listed(all, i, within).skip(1) == listed(all, i + 1, true)
        },
{
    let rest = listed(all, i + 1, within);
    assert((seq![trimmed(all[i])] + rest).skip(1) =~= rest);
}

/// The words with which the terminal library is built: the target only where it is another than the
/// host's and is known, the processor only where it is named, and the place last.
pub proof fn law_zig_words(target: Seq<char>, cpu: Seq<char>, prefix: Seq<char>)
    ensures
        zig_words(target, target, None, prefix).len() == 6,
        zig_words(target, target, None, prefix)[0] == "build"@,
        zig_words(target, target, None, prefix).last() == prefix,
        zig_words(target, target, None, prefix)[4] == "--prefix"@,
        zig_words(target, target, Some(cpu), prefix)[4] == "-Dcpu="@ + cpu,
        zig_target("x86_64-pc-windows-gnu"@) == Some("x86_64-windows-gnu"@),
{
}

} // verus!
