//! The branch of a directory, read from the files of its repository, and remembered for a while.

use vstd::prelude::*;

use crate::text::{
    chars_of, code, copy_opt, head, opt_text, owned, path_join, path_joined, same, starts_with,
    tail, trim, trimmed,
};

verus! {

// ---- finding the repository ---------------------------------------------------------------

/// What stands under the name `.git` in a directory.
#[derive(Debug)]
pub enum Candidate {
    Missing,
    Directory,
    /// A file, with its text where it could be read.
    File(Option<String>),
}

pub enum CandidateV {
    Missing,
    Directory,
    File(Option<Seq<char>>),
}

impl View for Candidate {
    type V = CandidateV;

    open spec fn view(&self) -> CandidateV {
        match self {
            Candidate::Missing => CandidateV::Missing,
            Candidate::Directory => CandidateV::Directory,
            Candidate::File(t) => CandidateV::File(opt_text(*t)),
        }
    }
}

pub type LookedV = (Seq<char>, CandidateV);

pub open spec fn looked(s: Seq<(String, Candidate)>) -> Seq<LookedV> {
    s.map_values(|l: (String, Candidate)| (l.0@, l.1@))
}

/// The directory that the text of a `.git` file in `dir` points at.
pub open spec fn pointed(dir: Seq<char>, text: Seq<char>) -> Option<Seq<char>> {
    let t = trimmed(text);
    if "gitdir:"@.is_prefix_of(t) {
        Some(path_joined(dir, trimmed(t.skip("gitdir:"@.len() as int))))
    } else {
        None
    }
}

pub fn pointed_dir(dir: &str, text: &str) -> (r: Option<String>)
    ensures
        opt_text(r) == pointed(dir@, text@),
{
    let t: String = trim(text);
    let mark: &str = "gitdir:";
    if starts_with(t.as_str(), mark) {
        let rest: String = tail(t.as_str(), mark.unicode_len());
        Some(path_join(dir, trim(rest.as_str()).as_str()))
    } else {
        None
    }
}

/// The repository directory, from a directory and those around it, the innermost first, with
/// what stands under `.git` in each: the first that has it decides.
pub open spec fn located(found: Seq<LookedV>, i: int) -> Option<Seq<char>>
    decreases found.len() - i,
{
    if i < 0 || i >= found.len() {
        None
    } else {
        match found[i].1 {
            CandidateV::Missing => located(found, i + 1),
            CandidateV::Directory => Some(path_joined(found[i].0, ".git"@)),
            CandidateV::File(Some(text)) => pointed(found[i].0, text),
            CandidateV::File(None) => None,
        }
    }
}

pub fn find_git_dir(found: &Vec<(String, Candidate)>) -> (r: Option<String>)
    ensures
        opt_text(r) == located(looked(found@), 0),
{
    let mut i: usize = 0;
    while i < found.len()
        invariant
            i <= found.len(),
            located(looked(found@), 0) == located(looked(found@), i as int),
        decreases found.len() - i,
    {
        assert(looked(found@)[i as int] == (found@[i as int].0@, found@[i as int].1@));
        let dir: &str = found[i].0.as_str();
        match &found[i].1 {
            Candidate::Missing => {},
            Candidate::Directory => {
                return Some(path_join(dir, ".git"));
            },
            Candidate::File(Some(text)) => {
                return pointed_dir(dir, text.as_str());
            },
            Candidate::File(None) => {
                return None;
            },
        }
        i = i + 1;
    }
    None
}

/// What lies around the innermost directory that has a `.git` makes no difference.
pub proof fn law_innermost_decides(found: Seq<LookedV>, more: Seq<LookedV>)
    requires
        exists|i: int| 0 <= i < found.len() && !((#[trigger] found[i]).1 is Missing),
    ensures
        located(found + more, 0) == located(found, 0),
{
    lemma_innermost(found, more, 0);
}

proof fn lemma_innermost(found: Seq<LookedV>, more: Seq<LookedV>, from: int)
    requires
        0 <= from,
        exists|i: int| from <= i < found.len() && !((#[trigger] found[i]).1 is Missing),
    ensures
        located(found + more, from) == located(found, from),
    decreases found.len() - from,
{
    assert((found + more)[from] == found[from]);
    if found[from].1 is Missing {
        let i = choose|i: int| from <= i < found.len() && !((#[trigger] found[i]).1 is Missing);
        assert(from + 1 <= i);
        lemma_innermost(found, more, from + 1);
    }
}

// ---- the branch ---------------------------------------------------------------------------

pub open spec fn is_hex(c: char) -> bool {
    48 <= c as int <= 57 || 65 <= c as int <= 70 || 97 <= c as int <= 102
}

pub open spec fn all_hex(s: Seq<char>) -> bool {
    forall|i: int| 0 <= i < s.len() ==> is_hex(#[trigger] s[i])
}

/// The branch that the text of `HEAD` names, or the start of the commit that it holds.
pub open spec fn branch_in(text: Seq<char>) -> Option<Seq<char>> {
    let h = trimmed(text);
    if "ref: refs/heads/"@.is_prefix_of(h) {
        Some(h.skip("ref: refs/heads/"@.len() as int))
    } else if h.len() >= 7 && all_hex(h) {
        Some("@"@ + h.take(7))
    } else {
        None
    }
}

fn hex_only(s: &str) -> (r: bool)
    ensures
        r == all_hex(s@),
{
    let chars: Vec<char> = chars_of(s);
    let mut i: usize = 0;
    while i < chars.len()
        invariant
            i <= chars.len(),
            chars@ == s@,
            forall|k: int| 0 <= k < i ==> is_hex(#[trigger] s@[k]),
        decreases chars.len() - i,
    {
        let n: u32 = code(chars[i]);
        if !((48 <= n && n <= 57) || (65 <= n && n <= 70) || (97 <= n && n <= 102)) {
            assert(!is_hex(s@[i as int]));
            return false;
        }
        i = i + 1;
    }
    true
}

pub fn read_branch(text: &str) -> (r: Option<String>)
    ensures
        opt_text(r) == branch_in(text@),
{
    let h: String = trim(text);
    let mark: &str = "ref: refs/heads/";
    if starts_with(h.as_str(), mark) {
        Some(tail(h.as_str(), mark.unicode_len()))
    } else if h.as_str().unicode_len() >= 7 && hex_only(h.as_str()) {
        let mut r: String = "@".to_string();
        r.append(head(h.as_str(), 7).as_str());
        Some(r)
    } else {
        None
    }
}

/// The branch of a directory: that of its repository, where the text of its `HEAD` could be read.
pub fn branch_for_path(git_dir: &Option<String>, head_text: &Option<String>) -> (r: Option<String>)
    ensures
        opt_text(r) == match (*git_dir, *head_text) {
            (Some(_), Some(text)) => branch_in(text@),
            _ => None,
        },
{
    match (git_dir, head_text) {
        (Some(_), Some(text)) => read_branch(text.as_str()),
        _ => None,
    }
}

// ---- what is remembered -------------------------------------------------------------------

/// How long a branch is taken for granted, in nanoseconds.
pub const TTL: u64 = 2_000_000_000;

#[derive(Debug)]
pub struct Entry {
    pub cwd: String,
    /// When the branch was read, in nanoseconds of a clock that does not go back.
    pub checked_at: u64,
    pub branch: Option<String>,
}

/// The branches that were read; of two entries for one directory the later counts.
#[derive(Debug)]
pub struct GitInfoCache {
    pub entries: Vec<Entry>,
}

pub type CacheV = Map<Seq<char>, (u64, Option<Seq<char>>)>;

pub open spec fn entries_view(s: Seq<Entry>) -> CacheV
    decreases s.len(),
{
    if s.len() == 0 {
        Map::empty()
    } else {
        entries_view(s.drop_last()).insert(
            s.last().cwd@,
            (s.last().checked_at, opt_text(s.last().branch)),
        )
    }
}

impl View for GitInfoCache {
    type V = CacheV;

    open spec fn view(&self) -> CacheV {
        entries_view(self.entries@)
    }
}

/// What is known of a directory at a time.
#[derive(Debug)]
pub enum Known {
    Branch(Option<String>),
    /// It has to be read.
    Unknown,
}

pub enum KnownV {
    Branch(Option<Seq<char>>),
    Unknown,
}

impl View for Known {
    type V = KnownV;

    open spec fn view(&self) -> KnownV {
        match self {
            Known::Branch(b) => KnownV::Branch(opt_text(*b)),
            Known::Unknown => KnownV::Unknown,
        }
    }
}

/// What is remembered of a directory, for as long as it is taken for granted.
pub open spec fn known(c: CacheV, cwd: Seq<char>, now: u64) -> KnownV {
    if c.dom().contains(cwd) && now - c[cwd].0 < TTL {
        KnownV::Branch(c[cwd].1)
    } else {
        KnownV::Unknown
    }
}

impl Default for GitInfoCache {
    fn default() -> (c: GitInfoCache)
        ensures
            c@ == Map::<Seq<char>, (u64, Option<Seq<char>>)>::empty(),
    {
        GitInfoCache { entries: Vec::new() }
    }
}

impl GitInfoCache {
    pub fn new() -> (c: GitInfoCache)
        ensures
            c@ == Map::<Seq<char>, (u64, Option<Seq<char>>)>::empty(),
    {
        GitInfoCache { entries: Vec::new() }
    }

    /// The branch of a directory, where it was read a short while ago.
    pub fn branch_for(&self, cwd: &str, now: u64) -> (r: Known)
        ensures
            r@ == known(self@, cwd@, now),
    {
        let mut i: usize = self.entries.len();
        let ghost all = self@;
        assert(self.entries@.take(i as int) =~= self.entries@);
        while i > 0
            invariant
                i <= self.entries.len(),
                all == self@,
                all.dom().contains(cwd@) == entries_view(
                    self.entries@.take(i as int),
                ).dom().contains(cwd@),
                all.dom().contains(cwd@) ==> all[cwd@] == entries_view(
                    self.entries@.take(i as int),
                )[cwd@],
            decreases i,
        {
            proof {
                assert(self.entries@.take(i as int).drop_last() =~= self.entries@.take(i - 1));
            }
            i = i - 1;
            let e: &Entry = &self.entries[i];
            if same(e.cwd.as_str(), cwd) {
                if now <= e.checked_at || now - e.checked_at < TTL {
                    return Known::Branch(copy_opt(&e.branch));
                } else {
                    return Known::Unknown;
                }
            }
        }
        Known::Unknown
    }

    /// Remembers what was read of a directory, in place of what was known of it.
    pub fn remember(&mut self, cwd: &str, now: u64, branch: &Option<String>)
        ensures
            final(self)@ == old(self)@.insert(cwd@, (now, opt_text(*branch))),
    {
        let mut kept: Vec<Entry> = Vec::new();
        let mut i: usize = 0;
        let ghost all = self.entries@;
        assert(entries_view(kept@) =~= entries_view(all.take(0)).remove(cwd@));
        while i < self.entries.len()
            invariant
                i <= self.entries.len(),
                *self == *old(self),
                all == self.entries@,
                entries_view(kept@) == entries_view(all.take(i as int)).remove(cwd@),
            decreases self.entries.len() - i,
        {
            let ghost before = kept@;
            let e: &Entry = &self.entries[i];
            proof {
                assert(all.take(i + 1).drop_last() =~= all.take(i as int));
            }
            if !same(e.cwd.as_str(), cwd) {
                kept.push(
                    Entry {
                        cwd: owned(e.cwd.as_str()),
                        checked_at: e.checked_at,
                        branch: copy_opt(&e.branch),
                    },
                );
                assert(kept@.drop_last() =~= before);
            }
            i = i + 1;
            assert(entries_view(kept@) =~= entries_view(all.take(i as int)).remove(cwd@));
        }
        assert(all.take(all.len() as int) =~= all);
        let ghost before = kept@;
        kept.push(Entry { cwd: owned(cwd), checked_at: now, branch: copy_opt(branch) });
        assert(kept@.drop_last() =~= before);
        self.entries = kept;
        assert(self@ =~= old(self)@.insert(cwd@, (now, opt_text(*branch))));
    }
}

/// What was remembered of a directory is known until it is too old, and then no more; what is
/// known of other directories stays.
pub proof fn law_remembered(
    c: CacheV,
    cwd: Seq<char>,
    at: u64,
    branch: Option<Seq<char>>,
    other: Seq<char>,
    now: u64,
)
    ensures
        now < at + TTL ==> known(c.insert(cwd, (at, branch)), cwd, now) == KnownV::Branch(branch),
        now >= at + TTL ==> known(c.insert(cwd, (at, branch)), cwd, now) == KnownV::Unknown,
        other != cwd ==> known(c.insert(cwd, (at, branch)), other, now) == known(c, other, now),
{
}

/// A head that names a branch is that branch, with all its slashes; one that is a commit is shown
/// by its first letters behind an at sign.
pub proof fn law_branch_read(name: Seq<char>, commit: Seq<char>)
    ensures
        name.len() > 0 && !crate::text::is_white(name.last()) ==> branch_in(
            "ref: refs/heads/"@ + name + seq!['\n'],
        ) == Some(name),
        commit.len() >= 7 && all_hex(commit) ==> branch_in(commit + seq!['\n']) == Some(
            "@"@ + commit.take(7),
        ),
        commit.len() < 7 && all_hex(commit) ==> branch_in(commit) is None,
{
    reveal_strlit("ref: refs/heads/");
    let front = "ref: refs/heads/"@;
    assert(front.len() == 16 && front[0] == 'r' && front[3] == ':');
    let empty = Seq::<char>::empty();
    if name.len() > 0 && !crate::text::is_white(name.last()) {
        let s = front + name;
        crate::text::law_trimmed(empty, s, seq!['\n']);
        assert(empty + s + seq!['\n'] =~= front + name + seq!['\n']);
        assert(s.take(16) =~= front);
        assert(s.skip(16) =~= name);
    }
    if commit.len() > 0 && all_hex(commit) {
        assert(is_hex(commit[0]) && is_hex(commit[commit.len() - 1]));
        crate::text::law_trimmed(empty, commit, seq!['\n']);
        crate::text::law_trimmed(empty, commit, empty);
        assert(empty + commit + seq!['\n'] =~= commit + seq!['\n']);
        assert(empty + commit + empty =~= commit);
        if front.is_prefix_of(commit) {
            assert(commit.subrange(0, 16)[0] == 'r');
        }
    } else if commit.len() == 0 {
        crate::text::law_trimmed(empty, empty, empty);
        assert(empty + empty + empty =~= commit);
    }
}

/// A directory holds its repository in `.git`, and a file of that name points to it; the first that
/// is there decides.
pub proof fn law_git_dir(front: Seq<LookedV>, dir: Seq<char>, place: Seq<char>, rest: Seq<LookedV>)
    requires
        forall|k: int| 0 <= k < front.len() ==> (#[trigger] front[k]).1 is Missing,
        place.len() > 0,
        !crate::text::is_white(place[0]) && !crate::text::is_white(place.last()),
    ensures
        located(front, 0) is None,
        located(front + seq![(dir, CandidateV::Directory)] + rest, 0) == Some(
            path_joined(dir, ".git"@),
        ),
        pointed(dir, "gitdir:"@ + seq![' '] + place + seq!['\n']) == Some(path_joined(dir, place)),
        located(front + seq![(dir, CandidateV::File(None))] + rest, 0) is None,
{
    lemma_passed(front, front, 0);
    let a = front + seq![(dir, CandidateV::Directory)] + rest;
    let b = front + seq![(dir, CandidateV::File(None))] + rest;
    lemma_passed(front, a, 0);
    lemma_passed(front, b, 0);
    assert(a[front.len() as int].1 is Directory && a[front.len() as int].0 == dir);
    assert(b[front.len() as int].1 == CandidateV::File(None));
    reveal_strlit("gitdir:");
    let word = "gitdir:"@;
    assert(word.len() == 7 && word[0] == 'g');
    let empty = Seq::<char>::empty();
    let t = word + seq![' '] + place;
    crate::text::law_trimmed(empty, t, seq!['\n']);
    assert(empty + t + seq!['\n'] =~= word + seq![' '] + place + seq!['\n']);
    assert(t.take(7) =~= word);
    assert(t.skip(7) =~= seq![' '] + place + empty);
    crate::text::law_trimmed(seq![' '], place, empty);
}

proof fn lemma_passed(front: Seq<LookedV>, all: Seq<LookedV>, i: int)
    requires
        0 <= i <= front.len() <= all.len(),
        forall|k: int| 0 <= k < front.len() ==> (#[trigger] front[k]).1 is Missing,
        forall|k: int| 0 <= k < front.len() ==> #[trigger] all[k] == front[k],
    ensures
        located(all, i) == located(all, front.len() as int),
    decreases front.len() - i,
{
    if i < front.len() {
        assert(all[i] == front[i] && front[i].1 is Missing);
        lemma_passed(front, all, i + 1);
    }
}

/// The letters of a commit: the digits, and the letters from a to f, small or capital.
pub proof fn law_hex_letters(c: char)
    ensures
        is_hex(c) <==> ('0' as int <= c as int <= '9' as int) || ('a' as int <= c as int
            <= 'f' as int) || ('A' as int <= c as int <= 'F' as int),
{
}

} // verus!
