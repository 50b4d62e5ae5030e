//! Text: the few operations on strings that the rest of the library is stated over.
//!
//! A string is modelled by its sequence of characters. Every operation here has a spec function
//! on such sequences, and an executable function that computes it.

use vstd::prelude::*;

verus! {

/// `String::push` puts one character behind the text.
pub assume_specification[ String::push ](text: &mut String, c: char)
    ensures
        final(text)@ == old(text)@.push(c),
;

/// `==` on `str` holds of two strings with the same characters, and of no others.
pub assume_specification[ <str as PartialEq>::eq ](a: &str, b: &str) -> (r: bool)
    ensures
        r == (a@ == b@),
;

/// What `format!("{:?}", text)` gives: the text in double quotes, with std's escapes.
pub uninterp spec fn quoted(text: Seq<char>) -> Seq<char>;

/// Calls std's `Debug` for `str` through `format!`; the result is a function of the text alone.
#[verifier::external_body]
pub(crate) fn debug_quoted(text: &str) -> (r: String)
    ensures
        r@ == quoted(text@),
{
    format!("{:?}", text)
}

/// What `str::to_lowercase` gives.
pub uninterp spec fn lowered(text: Seq<char>) -> Seq<char>;

/// Calls `str::to_lowercase`, Unicode's lowercase mapping; a function of the text alone.
#[verifier::external_body]
pub(crate) fn to_lower(text: &str) -> (r: String)
    ensures
        r@ == lowered(text@),
{
    text.to_lowercase()
}

/// The characters of each string of a list.
pub open spec fn texts(list: Seq<String>) -> Seq<Seq<char>> {
    list.map_values(|s: String| s@)
}

/// The characters of an optional string.
pub open spec fn opt_text(s: Option<String>) -> Option<Seq<char>> {
    match s {
        Some(t) => Some(t@),
        None => None,
    }
}

/// The characters of a string.
pub fn chars_of(s: &str) -> (out: Vec<char>)
    ensures
        out@ == s@,
{
    let mut out: Vec<char> = Vec::new();
    for c in it: s.chars()
        invariant
            it.seq() == s@,
            out@ == s@.take(it.index() as int),
    {
        out.push(c);
        assert(out@ =~= s@.take(it.index() + 1));
    }
    assert(s@.take(s@.len() as int) =~= s@);
    out
}

/// The code point of a character.
pub fn code(c: char) -> (n: u32)
    ensures
        n == c as int,
{
    c as u32
}

/// Whether two strings hold the same characters.
pub fn same(a: &str, b: &str) -> (r: bool)
    ensures
        r == (a@ == b@),
{
    *a == *b
}

/// An owned copy of a string.
pub fn owned(s: &str) -> (r: String)
    ensures
        r@ == s@,
{
    s.to_string()
}

/// A copy of an optional string.
pub fn copy_opt(s: &Option<String>) -> (r: Option<String>)
    ensures
        opt_text(r) == opt_text(*s),
{
    match s {
        Some(t) => Some(owned(t.as_str())),
        None => None,
    }
}

/// A copy of a list of strings.
pub fn copy_texts(list: &Vec<String>) -> (out: Vec<String>)
    ensures
        texts(out@) == texts(list@),
{
    let mut out: Vec<String> = Vec::new();
    let mut i: usize = 0;
    while i < list.len()
        invariant
            i <= list.len(),
            texts(out@) == texts(list@).take(i as int),
        decreases list.len() - i,
    {
        let ghost before = out@;
        let copy: String = owned(list[i].as_str());
        out.push(copy);
        assert(texts(out@) =~= texts(before).push(copy@));
        i = i + 1;
        assert(texts(out@) =~= texts(list@).take(i as int));
    }
    assert(texts(list@).take(list@.len() as int) =~= texts(list@));
    out
}

/// Whether one of the strings of a list holds these characters.
pub fn list_has(list: &Vec<String>, s: &str) -> (r: bool)
    ensures
        r == texts(list@).contains(s@),
{
    let mut i: usize = 0;
    while i < list.len()
        invariant
            i <= list.len(),
            forall|k: int| 0 <= k < i ==> (#[trigger] texts(list@)[k]) != s@,
        decreases list.len() - i,
    {
        if same(list[i].as_str(), s) {
            assert(texts(list@)[i as int] == s@);
            return true;
        }
        i = i + 1;
    }
    false
}

// ---- white space --------------------------------------------------------------------------

/// The code points with Unicode's White_Space property.
pub open spec fn is_white(c: char) -> bool {
    let n = c as int;
    ||| 9 <= n <= 13
    ||| n == 32
    ||| n == 0x85
    ||| n == 0xA0
    ||| n == 0x1680
    ||| 0x2000 <= n <= 0x200A
    ||| n == 0x2028
    ||| n == 0x2029
    ||| n == 0x202F
    ||| n == 0x205F
    ||| n == 0x3000
}

pub fn white(c: char) -> (r: bool)
    ensures
        r == is_white(c),
{
    let n: u32 = c as u32;
    (9 <= n && n <= 13) || n == 32 || n == 0x85 || n == 0xA0 || n == 0x1680 || (0x2000 <= n && n
        <= 0x200A) || n == 0x2028 || n == 0x2029 || n == 0x202F || n == 0x205F || n == 0x3000
}

/// The text without the white space at its end.
pub open spec fn trimmed_end(s: Seq<char>) -> Seq<char>
    decreases s.len(),
{
    if s.len() > 0 && is_white(s.last()) {
        trimmed_end(s.drop_last())
    } else {
        s
    }
}

/// The text without the white space at its start.
pub open spec fn trimmed_start(s: Seq<char>) -> Seq<char>
    decreases s.len(),
{
    if s.len() > 0 && is_white(s[0]) {
        trimmed_start(s.drop_first())
    } else {
        s
    }
}

/// The text without the white space at its two ends.
pub open spec fn trimmed(s: Seq<char>) -> Seq<char> {
    trimmed_end(trimmed_start(s))
}

/// The text without the characters `c` at its end.
pub open spec fn stripped_end(s: Seq<char>, c: char) -> Seq<char>
    decreases s.len(),
{
    if s.len() > 0 && s.last() == c {
        stripped_end(s.drop_last(), c)
    } else {
        s
    }
}

pub fn trim_end(s: &str) -> (r: String)
    ensures
        r@ == trimmed_end(s@),
{
    let chars: Vec<char> = chars_of(s);
    let mut n: usize = chars.len();
    proof {
        assert(chars@.take(n as int) =~= chars@);
    }
    while n > 0 && white(chars[n - 1])
        invariant
            n <= chars.len(),
            chars@ == s@,
            trimmed_end(s@) == trimmed_end(chars@.take(n as int)),
        decreases n,
    {
        proof {
            assert(chars@.take(n as int).drop_last() =~= chars@.take(n - 1));
        }
        n = n - 1;
    }
    owned(s.substring_char(0, n))
}

pub fn trim_start(s: &str) -> (r: String)
    ensures
        r@ == trimmed_start(s@),
{
    let chars: Vec<char> = chars_of(s);
    let mut i: usize = 0;
    proof {
        assert(chars@.skip(0) =~= chars@);
    }
    while i < chars.len() && white(chars[i])
        invariant
            i <= chars.len(),
            chars@ == s@,
            trimmed_start(s@) == trimmed_start(chars@.skip(i as int)),
        decreases chars.len() - i,
    {
        proof {
            assert(chars@.skip(i as int).drop_first() =~= chars@.skip(i + 1));
        }
        i = i + 1;
    }
    proof {
        assert(chars@.skip(i as int) =~= s@.subrange(i as int, s@.len() as int));
    }
    owned(s.substring_char(i, chars.len()))
}

pub fn trim(s: &str) -> (r: String)
    ensures
        r@ == trimmed(s@),
{
    let front: String = trim_start(s);
    trim_end(front.as_str())
}

pub fn strip_end(s: &str, c: char) -> (r: String)
    ensures
        r@ == stripped_end(s@, c),
{
    let chars: Vec<char> = chars_of(s);
    let mut n: usize = chars.len();
    proof {
        assert(chars@.take(n as int) =~= chars@);
    }
    while n > 0 && chars[n - 1] == c
        invariant
            n <= chars.len(),
            chars@ == s@,
            stripped_end(s@, c) == stripped_end(chars@.take(n as int), c),
        decreases n,
    {
        proof {
            assert(chars@.take(n as int).drop_last() =~= chars@.take(n - 1));
        }
        n = n - 1;
    }
    owned(s.substring_char(0, n))
}

// ---- prefixes, suffixes, occurrences ------------------------------------------------------

/// Whether `p` stands in `s` at position `i`.
pub open spec fn stands_at(s: Seq<char>, p: Seq<char>, i: int) -> bool {
    0 <= i && i + p.len() <= s.len() && s.subrange(i, i + p.len()) == p
}

/// Whether `p` stands somewhere in `s`.
pub open spec fn occurs(s: Seq<char>, p: Seq<char>) -> bool {
    exists|i: int| stands_at(s, p, i)
}

/// Compares the characters of `s` from position `i` on with `p`.
fn matches_at(s: &Vec<char>, p: &Vec<char>, i: usize) -> (r: bool)
    requires
        i + p.len() <= s.len(),
    ensures
        r == stands_at(s@, p@, i as int),
{
    let mut k: usize = 0;
    while k < p.len()
        invariant
            k <= p.len(),
            i + p.len() <= s.len(),
            forall|j: int| 0 <= j < k ==> s@[i + j] == p@[j],
        decreases p.len() - k,
    {
        if s[i + k] != p[k] {
            proof {
                assert(s@.subrange(i as int, i + p@.len())[k as int] != p@[k as int]);
            }
            return false;
        }
        k = k + 1;
    }
    assert(s@.subrange(i as int, i + p@.len()) =~= p@);
    true
}

pub fn starts_with(s: &str, p: &str) -> (r: bool)
    ensures
        r == p@.is_prefix_of(s@),
{
    let a: Vec<char> = chars_of(s);
    let b: Vec<char> = chars_of(p);
    if b.len() > a.len() {
        return false;
    }
    matches_at(&a, &b, 0)
}

pub fn ends_with(s: &str, p: &str) -> (r: bool)
    ensures
        r == p@.is_suffix_of(s@),
{
    let a: Vec<char> = chars_of(s);
    let b: Vec<char> = chars_of(p);
    if b.len() > a.len() {
        return false;
    }
    matches_at(&a, &b, a.len() - b.len())
}

/// The first position at or after `from` at which `p` stands in `s`.
pub open spec fn found_from(s: Seq<char>, p: Seq<char>, from: int) -> Option<int>
    decreases s.len() + 1 - from,
{
    if from < 0 || from + p.len() > s.len() {
        None
    } else if stands_at(s, p, from) {
        Some(from)
    } else {
        found_from(s, p, from + 1)
    }
}

/// The first position at which `p` stands in `s`.
pub open spec fn found(s: Seq<char>, p: Seq<char>) -> Option<int> {
    found_from(s, p, 0)
}

/// A search finds the first place at or after its start, if there is one at all.
pub proof fn lemma_found_from(s: Seq<char>, p: Seq<char>, from: int)
    requires
        0 <= from,
    ensures
        match found_from(s, p, from) {
            Some(i) => from <= i && stands_at(s, p, i) && (forall|j: int|
                from <= j < i ==> !stands_at(s, p, j)),
            None => forall|j: int| from <= j ==> !stands_at(s, p, j),
        },
    decreases s.len() + 1 - from,
{
    if from + p.len() <= s.len() && !stands_at(s, p, from) {
        lemma_found_from(s, p, from + 1);
        assert forall|j: int| from <= j && stands_at(s, p, j) implies from + 1 <= j by {
            if j == from {
                assert(false);
            }
        }
    }
}

/// A text is found exactly where it occurs.
pub proof fn lemma_found(s: Seq<char>, p: Seq<char>)
    ensures
        found(s, p) is Some <==> occurs(s, p),
        match found(s, p) {
            Some(i) => stands_at(s, p, i) && (forall|j: int| 0 <= j < i ==> !stands_at(s, p, j)),
            None => true,
        },
{
    lemma_found_from(s, p, 0);
    if occurs(s, p) {
        let i = choose|i: int| stands_at(s, p, i);
        assert(stands_at(s, p, i));
    }
}

pub fn find(s: &str, p: &str) -> (r: Option<usize>)
    ensures
        match r {
            Some(i) => found(s@, p@) == Some(i as int),
            None => found(s@, p@) is None,
        },
{
    let a: Vec<char> = chars_of(s);
    let b: Vec<char> = chars_of(p);
    if b.len() > a.len() {
        return None;
    }
    let mut i: usize = 0;
    while i <= a.len() - b.len()
        invariant
            a@ == s@,
            b@ == p@,
            b.len() <= a.len(),
            i <= a.len() - b.len() + 1,
            found(s@, p@) == found_from(s@, p@, i as int),
        decreases a.len() - i,
    {
        if matches_at(&a, &b, i) {
            return Some(i);
        }
        if i == a.len() - b.len() {
            assert(found_from(s@, p@, i + 1) is None);
            return None;
        }
        i = i + 1;
    }
    None
}

pub fn contains(s: &str, p: &str) -> (r: bool)
    ensures
        r == occurs(s@, p@),
{
    proof {
        lemma_found(s@, p@);
    }
    find(s, p).is_some()
}

pub fn has_char(s: &str, c: char) -> (r: bool)
    ensures
        r == s@.contains(c),
{
    let a: Vec<char> = chars_of(s);
    let mut i: usize = 0;
    while i < a.len()
        invariant
            i <= a.len(),
            a@ == s@,
            forall|k: int| 0 <= k < i ==> s@[k] != c,
        decreases a.len() - i,
    {
        if a[i] == c {
            return true;
        }
        i = i + 1;
    }
    false
}

/// The text behind its first `n` characters.
pub fn tail(s: &str, n: usize) -> (r: String)
    requires
        n <= s@.len(),
    ensures
        r@ == s@.skip(n as int),
{
    proof {
        assert(s@.skip(n as int) =~= s@.subrange(n as int, s@.len() as int));
    }
    let len: usize = s.unicode_len();
    owned(s.substring_char(n, len))
}

/// The first `n` characters of the text.
pub fn head(s: &str, n: usize) -> (r: String)
    requires
        n <= s@.len(),
    ensures
        r@ == s@.take(n as int),
{
    owned(s.substring_char(0, n))
}

// ---- splitting ----------------------------------------------------------------------------

/// The text before and the text behind the first `c`.
pub open spec fn cut(s: Seq<char>, c: char) -> Option<(Seq<char>, Seq<char>)> {
    if s.contains(c) {
        let i = s.index_of_first(c)->0;
        Some((s.take(i), s.skip(i + 1)))
    } else {
        None
    }
}

pub fn split_once(s: &str, c: char) -> (r: Option<(String, String)>)
    ensures
        match r {
            Some((a, b)) => cut(s@, c) == Some((a@, b@)),
            None => cut(s@, c) is None,
        },
{
    let a: Vec<char> = chars_of(s);
    let mut i: usize = 0;
    while i < a.len()
        invariant
            i <= a.len(),
            a@ == s@,
            forall|k: int| 0 <= k < i ==> s@[k] != c,
        decreases a.len() - i,
    {
        if a[i] == c {
            proof {
                s@.index_of_first_ensures(c);
                assert(s@.index_of_first(c) == Some(i as int));
                assert(s@.skip(i + 1) =~= s@.subrange(i + 1, s@.len() as int));
            }
            let front: String = head(s, i);
            let back: String = tail(s, i + 1);
            return Some((front, back));
        }
        i = i + 1;
    }
    None
}

/// The pieces between the characters `c`.
pub open spec fn pieces(s: Seq<char>, c: char) -> Seq<Seq<char>>
    decreases s.len(),
{
    if s.contains(c) && s.index_of_first(c) is Some && 0 <= s.index_of_first(c)->0 < s.len() {
        let i = s.index_of_first(c)->0;
        seq![s.take(i)] + pieces(s.skip(i + 1), c)
    } else {
        seq![s]
    }
}

/// Unfolds `pieces` by one piece.
pub proof fn lemma_pieces(s: Seq<char>, c: char)
    ensures
        pieces(s, c) == match cut(s, c) {
            Some((front, back)) => seq![front] + pieces(back, c),
            None => seq![s],
        },
{
    if s.contains(c) {
        s.index_of_first_ensures(c);
    }
}

pub fn split(s: &str, c: char) -> (out: Vec<String>)
    ensures
        texts(out@) == pieces(s@, c),
{
    let mut out: Vec<String> = Vec::new();
    let mut rest: String = owned(s);
    assert(texts(out@) + pieces(rest@, c) =~= pieces(s@, c));
    loop
        invariant
            texts(out@) + pieces(rest@, c) == pieces(s@, c),
        decreases rest@.len(),
    {
        proof {
            lemma_pieces(rest@, c);
        }
        match split_once(rest.as_str(), c) {
            Some((front, back)) => {
                let ghost before = out@;
                proof {
                    rest@.index_of_first_ensures(c);
                }
                out.push(front);
                assert(texts(out@) =~= texts(before).push(front@));
                assert(texts(before) + (seq![front@] + pieces(back@, c)) =~= texts(out@) + pieces(
                    back@,
                    c,
                ));
                rest = back;
            },
            None => {
                let ghost before = out@;
                out.push(rest);
                assert(texts(out@) =~= texts(before) + seq![rest@]);
                return out;
            },
        }
    }
}

/// A line without the carriage return that stands before its line feed.
pub open spec fn without_cr(s: Seq<char>) -> Seq<char> {
    if s.len() > 0 && s.last() == '\r' {
        s.drop_last()
    } else {
        s
    }
}

/// The lines of a text: each ends at a line feed, which with a carriage return before it is no
/// part of the line; what follows the last line feed is a line unless it is empty.
pub open spec fn lines_of(s: Seq<char>) -> Seq<Seq<char>>
    decreases s.len(),
{
    if s.contains('\n') && s.index_of_first('\n') is Some && 0 <= s.index_of_first('\n')->0
        < s.len() {
        let i = s.index_of_first('\n')->0;
        seq![without_cr(s.take(i))] + lines_of(s.skip(i + 1))
    } else if s.len() == 0 {
        seq![]
    } else {
        seq![s]
    }
}

/// Unfolds `lines_of` by one line.
pub proof fn lemma_lines(s: Seq<char>)
    ensures
        lines_of(s) == match cut(s, '\n') {
            Some((front, back)) => seq![without_cr(front)] + lines_of(back),
            None => if s.len() == 0 {
                seq![]
            } else {
                seq![s]
            },
        },
{
    if s.contains('\n') {
        s.index_of_first_ensures('\n');
    }
}

pub fn lines(s: &str) -> (out: Vec<String>)
    ensures
        texts(out@) == lines_of(s@),
{
    let mut out: Vec<String> = Vec::new();
    let mut rest: String = owned(s);
    assert(texts(out@) + lines_of(rest@) =~= lines_of(s@));
    loop
        invariant
            texts(out@) + lines_of(rest@) == lines_of(s@),
        decreases rest@.len(),
    {
        proof {
            lemma_lines(rest@);
        }
        let ghost before = out@;
        match split_once(rest.as_str(), '\n') {
            Some((front, back)) => {
                proof {
                    rest@.index_of_first_ensures('\n');
                }
                let len: usize = front.as_str().unicode_len();
                let line: String = if len > 0 && front.as_str().get_char(len - 1) == '\r' {
                    proof {
                        assert(front@.take(len - 1) =~= front@.drop_last());
                    }
                    head(front.as_str(), len - 1)
                } else {
                    front
                };
                out.push(line);
                assert(texts(out@) =~= texts(before).push(line@));
                assert(texts(before) + (seq![line@] + lines_of(back@)) =~= texts(out@) + lines_of(
                    back@,
                ));
                rest = back;
            },
            None => {
                if rest.as_str().unicode_len() > 0 {
                    out.push(rest);
                    assert(texts(out@) =~= texts(before) + seq![rest@]);
                } else {
                    assert(texts(out@) =~= texts(before) + seq![]);
                }
                return out;
            },
        }
    }
}

/// Strings put one behind the other, with `sep` between them.
pub open spec fn joined(list: Seq<Seq<char>>, sep: Seq<char>) -> Seq<char>
    decreases list.len(),
{
    if list.len() == 0 {
        seq![]
    } else if list.len() == 1 {
        list[0]
    } else {
        joined(list.drop_last(), sep) + sep + list.last()
    }
}

pub fn join(list: &Vec<String>, sep: &str) -> (out: String)
    ensures
        out@ == joined(texts(list@), sep@),
{
    let mut out: String = String::new();
    let mut i: usize = 0;
    while i < list.len()
        invariant
            i <= list.len(),
            out@ == joined(texts(list@).take(i as int), sep@),
        decreases list.len() - i,
    {
        proof {
            assert(texts(list@).take(i + 1).drop_last() =~= texts(list@).take(i as int));
        }
        if i > 0 {
            out.append(sep);
        }
        out.append(list[i].as_str());
        proof {
            if i == 0 {
                assert(out@ =~= list@[0]@);
            }
        }
        i = i + 1;
    }
    assert(texts(list@).take(list@.len() as int) =~= texts(list@));
    out
}

/// The first line feed of a text that goes on behind one.
proof fn lemma_first_feed(a: Seq<char>, b: Seq<char>)
    requires
        a.contains('\n'),
    ensures
        match cut(a, '\n') {
            Some((front, back)) => {
                &&& cut(a + b, '\n') == Some((front, back + b))
                &&& back.len() < a.len()
                &&& a == front + seq!['\n'] + back
                &&& !front.contains('\n')
            },
            None => false,
        },
{
    let s = a + b;
    a.index_of_first_ensures('\n');
    let i = a.index_of_first('\n')->0;
    assert(s[i] == '\n');
    s.index_of_first_ensures('\n');
    let j = s.index_of_first('\n')->0;
    if j < i {
        assert(a[j] == '\n');
    }
    if i < j {
        assert(s[i] != '\n');
    }
    assert(s.take(i) =~= a.take(i));
    assert(s.skip(i + 1) =~= a.skip(i + 1) + b);
    assert(a =~= a.take(i) + seq!['\n'] + a.skip(i + 1));
    assert forall|k: int| 0 <= k < a.take(i).len() implies a.take(i)[k] != '\n' by {
        assert(a.take(i)[k] == a[k]);
    }
}

/// A text without a line feed, and what stands behind the line feed that follows it.
proof fn lemma_cut_at(front: Seq<char>, back: Seq<char>)
    requires
        !front.contains('\n'),
    ensures
        cut(front + seq!['\n'] + back, '\n') == Some((front, back)),
{
    let s = front + seq!['\n'] + back;
    let n = front.len() as int;
    assert(s[n] == '\n');
    s.index_of_first_ensures('\n');
    let j = s.index_of_first('\n')->0;
    if j < n {
        assert(front[j] == '\n');
    }
    if n < j {
        assert(s[n] != '\n');
    }
    assert(s.take(n) =~= front);
    assert(s.skip(n + 1) =~= back);
}

/// The lines of a text that ends with a line feed and goes on.
pub proof fn lemma_lines_behind(a: Seq<char>, b: Seq<char>)
    requires
        a.len() == 0 || a.last() == '\n',
    ensures
        lines_of(a + b) == lines_of(a) + lines_of(b),
    decreases a.len(),
{
    if a.len() == 0 {
        assert(a + b =~= b);
        assert(lines_of(a) =~= seq![]);
        assert(lines_of(a) + lines_of(b) =~= lines_of(b));
    } else {
        assert(a[a.len() - 1] == '\n');
        assert(a.contains('\n'));
        lemma_first_feed(a, b);
        lemma_lines(a);
        lemma_lines(a + b);
        let (front, back) = cut(a, '\n')->0;
        if back.len() > 0 {
            assert(a.last() == back.last());
        }
        lemma_lines_behind(back, b);
        let first = seq![without_cr(front)];
        assert(first + (lines_of(back) + lines_of(b)) =~= (first + lines_of(back)) + lines_of(b));
    }
}

/// A line feed at the end of a text changes its lines only where it ends an empty line or stands
/// behind a carriage return.
pub proof fn lemma_lines_ended(s: Seq<char>)
    requires
        s.len() > 0,
        s.last() != '\n',
        s.last() != '\r',
    ensures
        lines_of(s + seq!['\n']) == lines_of(s),
    decreases s.len(),
{
    let t = s + seq!['\n'];
    lemma_lines(s);
    lemma_lines(t);
    if s.contains('\n') {
        lemma_first_feed(s, seq!['\n']);
        let (front, back) = cut(s, '\n')->0;
        if back.len() == 0 {
            assert(s.last() == '\n');
        }
        assert(s.last() == back.last());
        lemma_lines_ended(back);
    } else {
        lemma_cut_at(s, seq![]);
        assert(t =~= s + seq!['\n'] + Seq::<char>::empty());
        lemma_lines(Seq::<char>::empty());
        assert(lines_of(t) =~= seq![s]);
    }
}

/// One line with a line feed behind it.
pub proof fn lemma_one_line(s: Seq<char>)
    requires
        !s.contains('\n'),
    ensures
        lines_of(s + seq!['\n']) == seq![without_cr(s)],
{
    let t = s + seq!['\n'];
    lemma_cut_at(s, seq![]);
    assert(t =~= s + seq!['\n'] + Seq::<char>::empty());
    lemma_lines(t);
    lemma_lines(Seq::<char>::empty());
    assert(lines_of(t) =~= seq![without_cr(s)]);
}

/// What stands in a part of a text stands in the text.
pub proof fn lemma_occurs_within(s: Seq<char>, from: int, to: int, p: Seq<char>)
    requires
        0 <= from <= to <= s.len(),
        occurs(s.subrange(from, to), p),
    ensures
        occurs(s, p),
{
    let part = s.subrange(from, to);
    let i = choose|i: int| stands_at(part, p, i);
    assert(s.subrange(from + i, from + i + p.len()) =~= part.subrange(i, i + p.len()));
    assert(stands_at(s, p, from + i));
}

/// What stands in a line of a text stands in the text, and a line has no line feed.
pub proof fn lemma_line_within(s: Seq<char>, k: int, p: Seq<char>)
    requires
        0 <= k < lines_of(s).len(),
    ensures
        occurs(lines_of(s)[k], p) ==> occurs(s, p),
        !lines_of(s)[k].contains('\n'),
    decreases s.len(),
{
    lemma_lines(s);
    if s.contains('\n') {
        lemma_first_feed(s, seq![]);
        let (front, back) = cut(s, '\n')->0;
        if k == 0 {
            let line = without_cr(front);
            assert(line =~= s.subrange(0, line.len() as int));
            if occurs(line, p) {
                lemma_occurs_within(s, 0, line.len() as int, p);
            }
            assert forall|j: int| 0 <= j < line.len() implies line[j] != '\n' by {
                assert(line[j] == front[j]);
            }
        } else {
            lemma_line_within(back, k - 1, p);
            assert(lines_of(s)[k] == lines_of(back)[k - 1]);
            if occurs(lines_of(s)[k], p) {
                let n = s.len() - back.len();
                assert(s.subrange(n, s.len() as int) =~= back);
                lemma_occurs_within(s, n, s.len() as int, p);
            }
        }
    }
}

/// The first of several strings, and the others behind it.
pub proof fn lemma_joined_first(list: Seq<Seq<char>>, sep: Seq<char>)
    requires
        list.len() >= 2,
    ensures
        joined(list, sep) == list[0] + sep + joined(list.skip(1), sep),
    decreases list.len(),
{
    let rest = list.skip(1);
    if list.len() == 2 {
        assert(list.drop_last() =~= seq![list[0]]);
        assert(rest =~= seq![list[1]]);
        assert(joined(list.drop_last(), sep) == list[0]);
        assert(joined(rest, sep) == list[1]);
    } else {
        lemma_joined_first(list.drop_last(), sep);
        assert(list.drop_last().skip(1) =~= rest.drop_last());
        assert((list[0] + sep + joined(rest.drop_last(), sep)) + sep + list.last() =~= list[0] + sep
            + (joined(rest.drop_last(), sep) + sep + list.last()));
    }
}

/// The lines of lines that were joined: the same, but for carriage returns at their ends and an
/// empty line at the end.
pub proof fn lemma_lines_joined(list: Seq<Seq<char>>)
    requires
        forall|k: int| 0 <= k < list.len() ==> !(#[trigger] list[k]).contains('\n'),
        list.len() > 0,
    ensures
        lines_of(joined(list, "\n"@)) == list.drop_last().map_values(
            |l: Seq<char>| without_cr(l),
        ) + if list.last().len() == 0 {
            seq![]
        } else {
            seq![list.last()]
        },
    decreases list.len(),
{
    reveal_strlit("\n");
    assert("\n"@ =~= seq!['\n']);
    let s = joined(list, "\n"@);
    let goal = list.drop_last().map_values(|l: Seq<char>| without_cr(l)) + if list.last().len() == 0 {
        seq![]
    } else {
        seq![list.last()]
    };
    lemma_lines(s);
    if list.len() == 1 {
        assert(!list[0].contains('\n'));
        assert(lines_of(s) =~= goal);
    } else {
        let rest = list.skip(1);
        assert forall|k: int| 0 <= k < rest.len() implies !(#[trigger] rest[k]).contains('\n') by {
            assert(rest[k] == list[k + 1]);
        }
        lemma_joined_first(list, "\n"@);
        assert(!list[0].contains('\n'));
        lemma_cut_at(list[0], joined(rest, "\n"@));
        lemma_lines_joined(rest);
        assert(rest.last() == list.last());
        assert(lines_of(s) =~= goal);
    }
}

/// What stands in joined lines, and has no line feed, stands in one of them.
pub proof fn lemma_joined_occurs(list: Seq<Seq<char>>, p: Seq<char>)
    requires
        p.len() > 0,
        !p.contains('\n'),
        occurs(joined(list, "\n"@), p),
    ensures
        exists|k: int| 0 <= k < list.len() && occurs(#[trigger] list[k], p),
    decreases list.len(),
{
    reveal_strlit("\n");
    assert("\n"@ =~= seq!['\n']);
    let s = joined(list, "\n"@);
    let i = choose|i: int| stands_at(s, p, i);
    if list.len() == 1 {
        assert(occurs(list[0], p));
    } else if list.len() > 1 {
        let front = joined(list.drop_last(), "\n"@);
        let n = front.len() as int;
        if i + p.len() <= n {
            assert(front.subrange(i, i + p.len()) =~= p);
            assert(stands_at(front, p, i));
            lemma_joined_occurs(list.drop_last(), p);
            let k = choose|k: int|
                0 <= k < list.drop_last().len() && occurs(#[trigger] list.drop_last()[k], p);
            assert(occurs(list[k], p));
        } else if i > n {
            assert(list.last().subrange(i - n - 1, i - n - 1 + p.len()) =~= p);
            assert(stands_at(list.last(), p, i - n - 1));
            assert(occurs(list[list.len() - 1], p));
        } else {
            assert(s[n] == '\n');
            assert(s.subrange(i, i + p.len())[n - i] == '\n');
            assert(p[n - i] == '\n');
        }
    }
}

/// Joining the lines of a text gives it back, where no line ends with a carriage return and the
/// text does not end with a line feed.
pub proof fn lemma_lines_rejoined(s: Seq<char>)
    requires
        !occurs(s, "\r\n"@),
        s.len() == 0 || s.last() != '\n',
    ensures
        joined(lines_of(s), "\n"@) == s,
    decreases s.len(),
{
    reveal_strlit("\n");
    reveal_strlit("\r\n");
    assert("\n"@ =~= seq!['\n']);
    assert("\r\n"@ =~= seq!['\r', '\n']);
    lemma_lines(s);
    if s.contains('\n') {
        lemma_first_feed(s, seq![]);
        let (front, back) = cut(s, '\n')->0;
        if back.len() == 0 {
            assert(s.last() == '\n');
        }
        assert(s.last() == back.last());
        if front.len() > 0 && front.last() == '\r' {
            let n = front.len() - 1;
            assert(s.subrange(n, n + 2) =~= seq!['\r', '\n']);
            assert(stands_at(s, "\r\n"@, n));
        }
        let m = s.len() - back.len();
        assert(s.subrange(m, s.len() as int) =~= back);
        if occurs(back, "\r\n"@) {
            lemma_occurs_within(s, m, s.len() as int, "\r\n"@);
        }
        lemma_lines_rejoined(back);
        lemma_lines(back);
        assert(lines_of(back).len() > 0);
        let all = lines_of(s);
        assert(all.skip(1) =~= lines_of(back));
        lemma_joined_first(all, "\n"@);
        assert(all[0] == front);
    }
}

// ---- order --------------------------------------------------------------------------------

/// The order of std's strings: by the first code point in which they differ, a prefix first.
pub open spec fn text_le(a: Seq<char>, b: Seq<char>) -> bool
    decreases a.len(),
{
    if a.len() == 0 {
        true
    } else if b.len() == 0 {
        false
    } else if a[0] as int != b[0] as int {
        (a[0] as int) < (b[0] as int)
    } else {
        text_le(a.drop_first(), b.drop_first())
    }
}

pub fn le(a: &str, b: &str) -> (r: bool)
    ensures
        r == text_le(a@, b@),
{
    let x: Vec<char> = chars_of(a);
    let y: Vec<char> = chars_of(b);
    let mut i: usize = 0;
    proof {
        assert(x@.skip(0) =~= x@);
        assert(y@.skip(0) =~= y@);
    }
    loop
        invariant
            i <= x.len(),
            i <= y.len(),
            text_le(x@, y@) == text_le(x@.skip(i as int), y@.skip(i as int)),
            x@ == a@,
            y@ == b@,
        decreases x.len() - i,
    {
        if i == x.len() {
            return true;
        }
        if i == y.len() {
            return false;
        }
        let c: u32 = code(x[i]);
        let d: u32 = code(y[i]);
        if c != d {
            return c < d;
        }
        proof {
            assert(x@.skip(i as int).drop_first() =~= x@.skip(i + 1));
            assert(y@.skip(i as int).drop_first() =~= y@.skip(i + 1));
        }
        i = i + 1;
    }
}

/// Of two strings one comes first.
pub proof fn lemma_le_total(a: Seq<char>, b: Seq<char>)
    ensures
        text_le(a, b) || text_le(b, a),
    decreases a.len(),
{
    if a.len() > 0 && b.len() > 0 && a[0] as int == b[0] as int {
        lemma_le_total(a.drop_first(), b.drop_first());
    }
}

pub proof fn lemma_le_trans(a: Seq<char>, b: Seq<char>, c: Seq<char>)
    requires
        text_le(a, b),
        text_le(b, c),
    ensures
        text_le(a, c),
    decreases a.len(),
{
    if a.len() > 0 && b.len() > 0 && c.len() > 0 && a[0] as int == b[0] as int && b[0] as int
        == c[0] as int {
        lemma_le_trans(a.drop_first(), b.drop_first(), c.drop_first());
    }
}

/// Two strings of which each comes no later than the other are the same.
pub proof fn lemma_le_antisymmetric(a: Seq<char>, b: Seq<char>)
    requires
        text_le(a, b),
        text_le(b, a),
    ensures
        a == b,
    decreases a.len(),
{
    if a.len() > 0 && b.len() > 0 {
        lemma_le_antisymmetric(a.drop_first(), b.drop_first());
        assert(a =~= seq![a[0]] + a.drop_first());
        assert(b =~= seq![b[0]] + b.drop_first());
    } else {
        assert(a =~= b);
    }
}

// ---- numbers ------------------------------------------------------------------------------

/// The character of a digit.
pub open spec fn digit(d: int) -> char {
    (48 + d) as char
}

/// A number in decimal, without leading zeros.
pub open spec fn decimal(n: nat) -> Seq<char>
    decreases n,
{
    if n < 10 {
        seq![digit(n as int)]
    } else {
        decimal(n / 10).push(digit((n % 10) as int))
    }
}

fn digit_char(d: u64) -> (c: char)
    requires
        d < 10,
    ensures
        c == digit(d as int),
{
    let b: u8 = 48 + d as u8;
    b as char
}

pub fn append_decimal(out: &mut String, n: u64)
    ensures
        final(out)@ == old(out)@ + decimal(n as nat),
    decreases n,
{
    if n >= 10 {
        append_decimal(out, n / 10);
    }
    out.push(digit_char(n % 10));
    proof {
        if n >= 10 {
            assert(old(out)@ + decimal((n / 10) as nat).push(digit((n % 10) as int)) =~= (old(out)@
                + decimal((n / 10) as nat)).push(digit((n % 10) as int)));
        } else {
            assert(old(out)@ + seq![digit(n as int)] =~= old(out)@.push(digit(n as int)));
        }
    }
}

pub fn decimal_of(n: u64) -> (r: String)
    ensures
        r@ == decimal(n as nat),
{
    let mut out: String = String::new();
    append_decimal(&mut out, n);
    assert(out@ =~= decimal(n as nat));
    out
}

pub open spec fn is_digit(c: char) -> bool {
    48 <= c as int <= 57
}

pub open spec fn all_digits(s: Seq<char>) -> bool {
    forall|i: int| 0 <= i < s.len() ==> is_digit(#[trigger] s[i])
}

/// The number that a sequence of digits writes.
pub open spec fn digits_value(s: Seq<char>) -> nat
    decreases s.len(),
{
    if s.len() == 0 {
        0
    } else {
        (digits_value(s.drop_last()) * 10 + (s.last() as int - 48)) as nat
    }
}

/// The text behind a plus sign, where it starts with one.
pub open spec fn without_plus(s: Seq<char>) -> Seq<char> {
    if s.len() > 0 && s[0] == '+' {
        s.drop_first()
    } else {
        s
    }
}

/// How std reads an unsigned integer of at most `max`: one plus sign at most, then one or more
/// digits.
pub open spec fn read_unsigned(s: Seq<char>, max: int) -> Option<nat> {
    let d = without_plus(s);
    if d.len() > 0 && all_digits(d) && digits_value(d) <= max {
        Some(digits_value(d))
    } else {
        None
    }
}

/// How std reads a signed integer between `min` and `max`: one sign at most, then one or more
/// digits.
pub open spec fn read_signed(s: Seq<char>, min: int, max: int) -> Option<int> {
    if s.len() > 0 && s[0] == '-' {
        let d = s.drop_first();
        if d.len() > 0 && all_digits(d) && -digits_value(d) >= min {
            Some(-digits_value(d))
        } else {
            None
        }
    } else {
        match read_unsigned(s, max) {
            Some(n) => Some(n as int),
            None => None,
        }
    }
}

/// More digits never make a smaller number.
proof fn lemma_digits_grow(s: Seq<char>, n: int)
    requires
        0 <= n <= s.len(),
        all_digits(s),
    ensures
        digits_value(s.take(n)) <= digits_value(s),
    decreases s.len(),
{
    if n == s.len() {
        assert(s.take(n) =~= s);
    } else {
        assert(all_digits(s.drop_last())) by {
            assert forall|i: int| 0 <= i < s.drop_last().len() implies is_digit(
                #[trigger] s.drop_last()[i],
            ) by {
                assert(is_digit(s[i]));
            }
        }
        lemma_digits_grow(s.drop_last(), n);
        assert(s.drop_last().take(n) =~= s.take(n));
        assert(is_digit(s[s.len() - 1]));
    }
}

/// Reads the digits from position `from` on as a number of at most `max`.
fn read_digits(chars: &Vec<char>, from: usize, max: u64) -> (r: Option<u64>)
    requires
        from <= chars.len(),
    ensures
        ({
            let d = chars@.skip(from as int);
            match r {
                Some(n) => d.len() > 0 && all_digits(d) && digits_value(d) == n && n <= max,
                None => d.len() == 0 || !all_digits(d) || digits_value(d) > max,
            }
        }),
{
    let ghost d = chars@.skip(from as int);
    if from == chars.len() {
        return None;
    }
    let mut i: usize = from;
    let mut acc: u64 = 0;
    while i < chars.len()
        invariant
            from <= i <= chars.len(),
            d == chars@.skip(from as int),
            acc == digits_value(d.take(i - from)),
            acc <= max,
            forall|k: int| 0 <= k < i - from ==> is_digit(#[trigger] d[k]),
        decreases chars.len() - i,
    {
        let c: u32 = code(chars[i]);
        assert(d[i - from] == chars@[i as int]);
        if c < 48 || c > 57 {
            assert(!is_digit(d[i - from]));
            return None;
        }
        let v: u64 = (c - 48) as u64;
        let next: u128 = acc as u128 * 10 + v as u128;
        proof {
            assert(d.take(i + 1 - from).drop_last() =~= d.take(i - from));
            assert(digits_value(d.take(i + 1 - from)) == next);
        }
        if next > max as u128 {
            proof {
                if all_digits(d) {
                    lemma_digits_grow(d, i + 1 - from);
                }
            }
            return None;
        }
        acc = next as u64;
        i = i + 1;
    }
    assert(d.take(i - from) =~= d);
    Some(acc)
}

pub fn parse_unsigned(s: &str, max: u64) -> (r: Option<u64>)
    ensures
        match r {
            Some(n) => read_unsigned(s@, max as int) == Some(n as nat),
            None => read_unsigned(s@, max as int) is None,
        },
{
    let chars: Vec<char> = chars_of(s);
    let from: usize = if chars.len() > 0 && chars[0] == '+' {
        1
    } else {
        0
    };
    proof {
        assert(chars@.skip(from as int) =~= without_plus(s@));
    }
    read_digits(&chars, from, max)
}

pub fn parse_signed(s: &str) -> (r: Option<i64>)
    ensures
        match r {
            Some(n) => read_signed(s@, i64::MIN as int, i64::MAX as int) == Some(n as int),
            None => read_signed(s@, i64::MIN as int, i64::MAX as int) is None,
        },
{
    let chars: Vec<char> = chars_of(s);
    if chars.len() > 0 && chars[0] == '-' {
        proof {
            assert(chars@.skip(1) =~= s@.drop_first());
        }
        match read_digits(&chars, 1, 0x8000_0000_0000_0000) {
            Some(n) => {
                if n == 0x8000_0000_0000_0000 {
                    Some(i64::MIN)
                } else {
                    Some(-(n as i64))
                }
            },
            None => None,
        }
    } else {
        match parse_unsigned(s, i64::MAX as u64) {
            Some(n) => Some(n as i64),
            None => None,
        }
    }
}

/// A number is read back from its decimal.
pub proof fn lemma_decimal_read(n: nat, max: int)
    requires
        n <= max,
    ensures
        read_unsigned(decimal(n), max) == Some(n),
{
    lemma_decimal_digits(n);
    assert(without_plus(decimal(n)) == decimal(n)) by {
        assert(is_digit(decimal(n)[0]));
    }
}

pub proof fn lemma_decimal_digits(n: nat)
    ensures
        decimal(n).len() > 0,
        all_digits(decimal(n)),
        digits_value(decimal(n)) == n,
    decreases n,
{
    reveal_with_fuel(digits_value, 2);
    if n < 10 {
        assert(decimal(n).drop_last() =~= seq![]);
    } else {
        lemma_decimal_digits(n / 10);
        assert(decimal(n).drop_last() =~= decimal(n / 10));
    }
}

pub fn append_wide_decimal(out: &mut String, n: u128)
    ensures
        final(out)@ == old(out)@ + decimal(n as nat),
    decreases n,
{
    if n >= 10 {
        append_wide_decimal(out, n / 10);
    }
    out.push(digit_char((n % 10) as u64));
    proof {
        if n >= 10 {
            assert(old(out)@ + decimal((n / 10) as nat).push(digit((n % 10) as int)) =~= (old(out)@
                + decimal((n / 10) as nat)).push(digit((n % 10) as int)));
        } else {
            assert(old(out)@ + seq![digit(n as int)] =~= old(out)@.push(digit(n as int)));
        }
    }
}

// ---- paths --------------------------------------------------------------------------------

/// How std joins two paths on Unix: an absolute second path stands alone, and no second slash is
/// put behind one that is there.
pub open spec fn path_joined(dir: Seq<char>, name: Seq<char>) -> Seq<char> {
    if "/"@.is_prefix_of(name) {
        name
    } else if dir.len() == 0 || "/"@.is_suffix_of(dir) {
        dir + name
    } else {
        dir + "/"@ + name
    }
}

pub fn path_join(dir: &str, name: &str) -> (r: String)
    ensures
        r@ == path_joined(dir@, name@),
{
    if starts_with(name, "/") {
        return owned(name);
    }
    let mut r: String = owned(dir);
    if !(dir.is_empty() || ends_with(dir, "/")) {
        r.append("/");
    }
    r.append(name);
    r
}

/// What a path names: whether it starts at the root, and its parts.
pub struct PathV {
    pub rooted: bool,
    pub parts: Seq<Seq<char>>,
}

/// The parts among the first `n` pieces between the slashes: those that are not empty, and of the
/// single dots only one that starts the path.
pub open spec fn path_parts(list: Seq<Seq<char>>, n: int) -> Seq<Seq<char>>
    decreases n,
{
    if n <= 0 || n > list.len() {
        seq![]
    } else {
        let front = path_parts(list, n - 1);
        let piece = list[n - 1];
        if piece.len() == 0 || (piece == "."@ && n > 1) {
            front
        } else {
            front.push(piece)
        }
    }
}

/// How std compares paths on Unix: by their parts.
pub open spec fn path_of(s: Seq<char>) -> PathV {
    let list = pieces(s, '/');
    PathV { rooted: "/"@.is_prefix_of(s), parts: path_parts(list, list.len() as int) }
}

fn parts_of_path(s: &str) -> (out: Vec<String>)
    ensures
        texts(out@) == path_of(s@).parts,
{
    let list: Vec<String> = split(s, '/');
    let ghost all = texts(list@);
    let mut out: Vec<String> = Vec::new();
    let mut i: usize = 0;
    assert(texts(out@) =~= path_parts(all, 0));
    while i < list.len()
        invariant
            i <= list.len(),
            all == texts(list@),
            texts(out@) == path_parts(all, i as int),
        decreases list.len() - i,
    {
        let ghost before = out@;
        assert(all[i as int] == list@[i as int]@);
        let piece: &str = list[i].as_str();
        if !(piece.is_empty() || (same(piece, ".") && i > 0)) {
            let copy: String = owned(piece);
            out.push(copy);
            assert(texts(out@) =~= texts(before).push(copy@));
        }
        i = i + 1;
    }
    out
}

/// Whether two paths are the same to std.
pub fn same_path(a: &str, b: &str) -> (r: bool)
    ensures
        r == (path_of(a@) == path_of(b@)),
{
    if starts_with(a, "/") != starts_with(b, "/") {
        return false;
    }
    let x: Vec<String> = parts_of_path(a);
    let y: Vec<String> = parts_of_path(b);
    if x.len() != y.len() {
        assert(texts(x@).len() != texts(y@).len());
        return false;
    }
    let mut i: usize = 0;
    while i < x.len()
        invariant
            i <= x.len(),
            x.len() == y.len(),
            texts(x@) == path_of(a@).parts,
            texts(y@) == path_of(b@).parts,
            forall|k: int| 0 <= k < i ==> (#[trigger] texts(x@)[k]) == texts(y@)[k],
        decreases x.len() - i,
    {
        assert(texts(x@)[i as int] == x@[i as int]@ && texts(y@)[i as int] == y@[i as int]@);
        if !same(x[i].as_str(), y[i].as_str()) {
            assert(texts(x@)[i as int] != texts(y@)[i as int]);
            return false;
        }
        i = i + 1;
    }
    assert(texts(x@) =~= texts(y@));
    true
}

/// Where the extension of the last name in a path starts, looked for from place `i` down: at its
/// last dot, if the dot does not start the name.
pub open spec fn extension_at(path: Seq<char>, i: int) -> Option<int>
    decreases i,
{
    if i <= 0 || i >= path.len() || path[i] == '/' {
        None
    } else if path[i] == '.' {
        if path[i - 1] == '/' {
            None
        } else {
            Some(i)
        }
    } else {
        extension_at(path, i - 1)
    }
}

/// A path without what std passes over at its end: slashes, and single dots behind a slash.
pub open spec fn path_trimmed(path: Seq<char>) -> Seq<char>
    decreases path.len(),
{
    if path.len() > 0 && path.last() == '/' {
        path_trimmed(path.drop_last())
    } else if path.len() > 1 && path.last() == '.' && path[path.len() - 2] == '/' {
        path_trimmed(path.drop_last())
    } else {
        path
    }
}

/// Whether a path without such an end has a file name: its last part is there, and is neither the
/// directory itself nor the one above.
pub open spec fn names_file(path: Seq<char>) -> bool {
    path.len() > 0 && path != "."@ && path != ".."@ && !"/.."@.is_suffix_of(path)
}

/// How std gives a path another extension, or one where it has none: the last part of the path
/// decides, what is passed over behind it goes, and a path without a file name stays as it is. The
/// letters of the old extension go first; where two dots are then left of the last part, no file
/// name is.
pub open spec fn extended(path: Seq<char>, extension: Seq<char>) -> Seq<char> {
    let p = path_trimmed(path);
    let end = if extension.len() == 0 {
        seq![]
    } else {
        "."@ + extension
    };
    if !names_file(p) {
        path
    } else {
        match extension_at(p, p.len() - 1) {
            Some(i) => if p == path && !names_file(p.take(i + 1)) {
                p.take(i + 1)
            } else {
                p.take(i) + end
            },
            None => p + end,
        }
    }
}

fn trim_path(path: &str) -> (r: String)
    ensures
        r@ == path_trimmed(path@),
{
    let chars: Vec<char> = chars_of(path);
    let mut n: usize = chars.len();
    assert(path@.take(n as int) =~= path@);
    while n > 0 && (chars[n - 1] == '/' || (n > 1 && chars[n - 1] == '.' && chars[n - 2] == '/'))
        invariant
            n <= chars.len(),
            chars@ == path@,
            path_trimmed(path@) == path_trimmed(path@.take(n as int)),
        decreases n,
    {
        assert(path@.take(n as int).drop_last() =~= path@.take(n - 1));
        n = n - 1;
    }
    head(path, n)
}

fn has_file_name(path: &str) -> (r: bool)
    ensures
        r == names_file(path@),
{
    !(path.is_empty() || same(path, ".") || same(path, "..") || ends_with(path, "/.."))
}

pub fn with_extension(path: &str, extension: &str) -> (r: String)
    ensures
        r@ == extended(path@, extension@),
{
    let p: String = trim_path(path);
    if !has_file_name(p.as_str()) {
        return owned(path);
    }
    let whole: bool = same(p.as_str(), path);
    let mut end: String = String::new();
    if !extension.is_empty() {
        end.append(".");
        end.append(extension);
    }
    let chars: Vec<char> = chars_of(p.as_str());
    let mut i: usize = chars.len();
    while i > 1
        invariant
            i <= chars.len(),
            chars@ == p@,
            p@ == path_trimmed(path@),
            names_file(p@),
            whole == (p@ == path@),
            end@ == if extension@.len() == 0 {
                seq![]
            } else {
                "."@ + extension@
            },
            extension_at(p@, p@.len() - 1) == extension_at(p@, i - 1),
        ensures
            extension_at(p@, p@.len() - 1) is None,
        decreases i,
    {
        let at: usize = i - 1;
        if chars[at] == '/' {
            break ;
        }
        if chars[at] == '.' {
            if chars[at - 1] == '/' {
                break ;
            }
            let cut: String = head(p.as_str(), at + 1);
            if whole && !has_file_name(cut.as_str()) {
                return cut;
            }
            let mut r: String = head(p.as_str(), at);
            r.append(end.as_str());
            return r;
        }
        i = at;
    }
    let mut r: String = p;
    r.append(end.as_str());
    r
}

/// Whether a text holds nothing but blanks.
pub open spec fn blank(s: Seq<char>) -> bool {
    forall|i: int| 0 <= i < s.len() ==> is_white(#[trigger] s[i])
}

/// Trimming takes the blanks at both ends away, and nothing else: what it leaves stands between
/// blanks, and has none at its own ends.
pub proof fn law_trimmed(before: Seq<char>, s: Seq<char>, behind: Seq<char>)
    requires
        blank(before),
        blank(behind),
        s.len() > 0 ==> !is_white(s[0]) && !is_white(s.last()),
    ensures
        trimmed(before + s + behind) == s,
        s.len() > 0 ==> trimmed_start(before + s) == s,
        trimmed_end(s + behind) == s,
{
    lemma_end_trimmed(s, behind);
    if s.len() > 0 {
        lemma_start_trimmed(before, s + behind);
        lemma_start_trimmed(before, s);
        assert(trimmed_start(s + behind) == s + behind);
        assert(before + s + behind =~= before + (s + behind));
    } else {
        let all = before + behind;
        assert(before + s + behind =~= all);
        lemma_start_trimmed(all, seq![]);
        assert(all + Seq::<char>::empty() =~= all);
    }
}

proof fn lemma_start_trimmed(before: Seq<char>, s: Seq<char>)
    requires
        blank(before),
    ensures
        trimmed_start(before + s) == trimmed_start(s),
    decreases before.len(),
{
    if before.len() > 0 {
        assert(is_white(before[0]));
        assert((before + s)[0] == before[0]);
        assert((before + s).drop_first() =~= before.drop_first() + s);
        assert(blank(before.drop_first())) by {
            assert forall|i: int| 0 <= i < before.drop_first().len() implies is_white(
                #[trigger] before.drop_first()[i],
            ) by {
                assert(is_white(before[i + 1]));
            }
        }
        lemma_start_trimmed(before.drop_first(), s);
    } else {
        assert(before + s =~= s);
    }
}

proof fn lemma_end_trimmed(s: Seq<char>, behind: Seq<char>)
    requires
        blank(behind),
        s.len() > 0 ==> !is_white(s.last()),
    ensures
        trimmed_end(s + behind) == s,
    decreases behind.len(),
{
    if behind.len() > 0 {
        assert(is_white(behind[behind.len() - 1]));
        assert((s + behind).last() == behind.last());
        assert((s + behind).drop_last() =~= s + behind.drop_last());
        assert(blank(behind.drop_last()));
        lemma_end_trimmed(s, behind.drop_last());
    } else {
        assert(s + behind =~= s);
    }
}

/// The characters that are blanks: space, tab and the ends of lines are, and no other visible
/// character of ASCII is.
pub proof fn law_blanks(c: char)
    ensures
        is_white(' ') && is_white('\t') && is_white('\n') && is_white('\r'),
        33 <= c as int <= 126 ==> !is_white(c),
        (c as int) < 9 ==> !is_white(c),
        14 <= c as int <= 31 ==> !is_white(c),
{
}

/// The characters `c` at the end go, all of them, and nothing else does.
pub proof fn law_stripped_end(s: Seq<char>, c: char, d: char)
    ensures
        stripped_end(s.push(c), c) == stripped_end(s, c),
        d != c ==> stripped_end(s.push(d), c) == s.push(d),
        stripped_end(seq![], c).len() == 0,
{
    assert(s.push(c).drop_last() =~= s);
}

/// A text is cut at the first `c`: what is before it holds none, and what is behind it is kept.
pub proof fn law_cut(a: Seq<char>, c: char, b: Seq<char>)
    requires
        !a.contains(c),
    ensures
        cut(a + seq![c] + b, c) == Some((a, b)),
        cut(a, c) is None,
{
    lemma_first_at(a, c, b);
    let s = a + seq![c] + b;
    assert(s.take(a.len() as int) =~= a);
    assert(s.skip(a.len() as int + 1) =~= b);
}

proof fn lemma_first_at(a: Seq<char>, c: char, b: Seq<char>)
    requires
        !a.contains(c),
    ensures
        (a + seq![c] + b).contains(c),
        (a + seq![c] + b).index_of_first(c) == Some(a.len() as int),
{
    let s = a + seq![c] + b;
    assert(s[a.len() as int] == c);
    assert(s.contains(c));
    s.index_of_first_ensures(c);
    let i = s.index_of_first(c)->0;
    if i < a.len() {
        assert(a[i] == c);
    }
}

/// Splitting a text undoes joining pieces that do not hold the separator.
pub proof fn law_split_undoes_join(list: Seq<Seq<char>>, c: char)
    requires
        list.len() > 0,
        forall|i: int| 0 <= i < list.len() ==> !(#[trigger] list[i]).contains(c),
    ensures
        pieces(joined(list, seq![c]), c) == list,
    decreases list.len(),
{
    if list.len() == 1 {
        assert(pieces(list[0], c) =~= list);
    } else {
        let rest = list.skip(1);
        lemma_joined_first(list, seq![c]);
        assert forall|i: int| 0 <= i < rest.len() implies !(#[trigger] rest[i]).contains(c) by {
            assert(!list[i + 1].contains(c));
        }
        law_split_undoes_join(rest, c);
        law_split_at_first(list[0], c, joined(rest, seq![c]));
        assert(seq![list[0]] + rest =~= list);
    }
}

/// The first piece of a text ends at the first separator, and the other pieces are those of what is
/// behind it.
pub proof fn law_split_at_first(a: Seq<char>, c: char, b: Seq<char>)
    requires
        !a.contains(c),
    ensures
        pieces(a, c) == seq![a],
        pieces(a + seq![c] + b, c) == seq![a] + pieces(b, c),
{
    lemma_first_at(a, c, b);
    let s = a + seq![c] + b;
    assert(s.take(a.len() as int) =~= a);
    assert(s.skip(a.len() as int + 1) =~= b);
}

/// Joined texts stand one behind the other with the separator between them.
pub proof fn law_joined(list: Seq<Seq<char>>, s: Seq<char>, sep: Seq<char>)
    ensures
        joined(seq![], sep).len() == 0,
        joined(seq![s], sep) == s,
        list.len() > 0 ==> joined(list.push(s), sep) == joined(list, sep) + sep + s,
{
    assert(list.push(s).drop_last() =~= list);
}

/// The lines of a text: the first ends at the first line feed, without the carriage return before
/// it, and the others are those of what is behind; what no line feed ends is a line too, unless it
/// is empty.
pub proof fn law_lines(a: Seq<char>, b: Seq<char>)
    requires
        !a.contains('\n'),
    ensures
        lines_of(seq![]).len() == 0,
        a.len() > 0 ==> lines_of(a) == seq![a],
        a.len() > 0 && a.last() == '\r' ==> lines_of(a + seq!['\n'] + b) == seq![a.drop_last()]
            + lines_of(b),
        a.len() == 0 || a.last() != '\r' ==> lines_of(a + seq!['\n'] + b) == seq![a] + lines_of(
            b,
        ),
{
    lemma_first_at(a, '\n', b);
    let s = a + seq!['\n'] + b;
    assert(s.take(a.len() as int) =~= a);
    assert(s.skip(a.len() as int + 1) =~= b);
}

/// Texts are in order by the first character in which they differ, and a text is before every
/// longer one that it starts.
pub proof fn law_text_order(p: Seq<char>, x: char, a: Seq<char>, y: char, b: Seq<char>)
    requires
        x != y,
    ensures
        text_le(p + seq![x] + a, p + seq![y] + b) <==> (x as int) < (y as int),
        text_le(p, p + b),
        text_le(p + seq![y] + b, p) == false,
    decreases p.len(),
{
    let s = p + seq![x] + a;
    let t = p + seq![y] + b;
    if p.len() > 0 {
        let q = p.drop_first();
        law_text_order(q, x, a, y, b);
        assert(s.drop_first() =~= q + seq![x] + a);
        assert(t.drop_first() =~= q + seq![y] + b);
        assert((p + b).drop_first() =~= q + b);
        assert(s[0] == p[0] && t[0] == p[0] && (p + b)[0] == p[0]);
    } else {
        assert(s[0] == x && t[0] == y);
    }
}

/// A number is written in the digits of ten, without a sign or a zero in front, and is read back
/// from that; a plus sign before it does not count, and a minus sign turns it round. What is
/// larger than allowed is not read, and nothing but digits is.
pub proof fn law_numbers(n: nat, max: int, s: Seq<char>)
    ensures
        n <= max ==> read_unsigned(decimal(n), max) == Some(n),
        n > max ==> read_unsigned(decimal(n), max) is None,
        n <= max ==> read_unsigned(seq!['+'] + decimal(n), max) == Some(n),
        n >= 10 ==> decimal(n).len() >= 2 && decimal(n)[0] != '0',
        n < 10 ==> decimal(n).len() == 1 && decimal(n)[0] as int == '0' as int + n,
        0 <= max ==> read_signed(seq!['-'] + decimal(n), -max, max) == (if n <= max {
            Some(-(n as int))
        } else {
            None
        }),
        n <= max ==> read_signed(decimal(n), -max, max) == Some(n as int),
        read_unsigned(seq![], max) is None,
        read_unsigned(s, max) matches Some(k) ==> k <= max && s.len() > 0 && forall|i: int|
            0 < i < s.len() ==> '0' as int <= #[trigger] s[i] as int <= '9' as int,
{
    lemma_decimal_digits(n);
    lemma_decimal_front(n);
    let d = decimal(n);
    assert(is_digit(d[0]));
    assert((seq!['+'] + d).drop_first() =~= d);
    assert((seq!['-'] + d).drop_first() =~= d);
    assert((seq!['-'] + d)[0] == '-');
    if read_unsigned(s, max) is Some {
        let e = without_plus(s);
        assert forall|i: int| 0 < i < s.len() implies '0' as int <= #[trigger] s[i] as int
            <= '9' as int by {
            if e.len() == s.len() {
                assert(is_digit(e[i]));
            } else {
                assert(e[i - 1] == s[i]);
            }
        }
    }
}

proof fn lemma_decimal_front(n: nat)
    ensures
        decimal(n).len() > 0,
        n >= 10 ==> decimal(n).len() >= 2,
        n > 0 ==> decimal(n)[0] != '0',
        n < 10 ==> decimal(n).len() == 1,
    decreases n,
{
    if n >= 10 {
        lemma_decimal_front(n / 10);
    } else if n > 0 {
        assert(digit(n as int) as int == 48 + n);
    }
}

/// A path below a directory; an absolute one stands for itself.
pub proof fn law_path_joined(dir: Seq<char>, name: Seq<char>)
    ensures
        name.len() > 0 && name[0] == '/' ==> path_joined(dir, name) == name,
        dir.len() > 0 && dir.last() != '/' && name.len() > 0 && name[0] != '/' ==> path_joined(
            dir,
            name,
        ) == dir + seq!['/'] + name,
        dir.len() > 0 && dir.last() == '/' && name.len() > 0 && name[0] != '/' ==> path_joined(
            dir,
            name,
        ) == dir + name,
{
    reveal_strlit("/");
    assert("/"@ =~= seq!['/']);
    if name.len() > 0 {
        if name[0] == '/' {
            assert(name.take(1) =~= "/"@);
        } else if "/"@.is_prefix_of(name) {
            assert(name.take(1)[0] == '/');
        }
    }
    if dir.len() > 0 {
        if dir.last() == '/' {
            assert(dir.skip(dir.len() - 1) =~= "/"@);
        } else if "/"@.is_suffix_of(dir) {
            assert(dir.skip(dir.len() - 1)[0] == '/');
        }
    }
}

/// A path is its names, in order, and whether it starts at the root; that it ends in a slash does
/// not count.
pub proof fn law_path_names(list: Seq<Seq<char>>)
    requires
        list.len() > 0,
        forall|i: int|
            0 <= i < list.len() ==> (#[trigger] list[i]).len() > 0 && list[i] != "."@
                && !list[i].contains('/'),
    ensures
        path_of(joined(list, seq!['/'])) == (PathV { rooted: false, parts: list }),
        path_of(seq!['/'] + joined(list, seq!['/'])) == (PathV { rooted: true, parts: list }),
        path_of(joined(list, seq!['/']) + seq!['/']) == (PathV { rooted: false, parts: list }),
{
    reveal_strlit("/");
    assert("/"@ =~= seq!['/']);
    let empty = Seq::<char>::empty();
    let s = joined(list, seq!['/']);
    law_split_undoes_join(list, '/');
    lemma_all_parts(list, list.len() as int);
    // At the root.
    law_split_at_first(empty, '/', s);
    assert(empty + seq!['/'] + s =~= seq!['/'] + s);
    lemma_parts_behind(list, list.len() as int);
    assert((seq!['/'] + s).take(1) =~= "/"@);
    // A slash at the end.
    let longer = list.push(empty);
    assert forall|i: int| 0 <= i < longer.len() implies !(#[trigger] longer[i]).contains('/') by {
        if i < list.len() {
            assert(!list[i].contains('/'));
        }
    }
    law_split_undoes_join(longer, '/');
    assert(longer.drop_last() =~= list);
    assert(joined(longer, seq!['/']) =~= s + seq!['/']);
    lemma_parts_before(list, empty, list.len() as int);
    // Neither starts at the root.
    lemma_joined_starts(list, seq!['/']);
    assert(list[0][0] != '/') by {
        assert(list[0].contains(list[0][0]));
    }
    if "/"@.is_prefix_of(s) {
        assert(s.take(1)[0] == '/');
    }
    if "/"@.is_prefix_of(s + seq!['/']) {
        assert((s + seq!['/']).take(1)[0] == '/');
    }
}

proof fn lemma_joined_starts(list: Seq<Seq<char>>, sep: Seq<char>)
    requires
        list.len() > 0,
        list[0].len() > 0,
    ensures
        joined(list, sep).len() > 0,
        joined(list, sep)[0] == list[0][0],
    decreases list.len(),
{
    if list.len() > 1 {
        lemma_joined_starts(list.drop_last(), sep);
    }
}

proof fn lemma_all_parts(list: Seq<Seq<char>>, n: int)
    requires
        0 <= n <= list.len(),
        forall|i: int| 0 <= i < list.len() ==> (#[trigger] list[i]).len() > 0 && list[i] != "."@,
    ensures
        path_parts(list, n) == list.take(n),
    decreases n,
{
    if n > 0 {
        lemma_all_parts(list, n - 1);
        assert(list[n - 1].len() > 0);
        assert(list.take(n) =~= list.take(n - 1).push(list[n - 1]));
    } else {
        assert(path_parts(list, n) =~= list.take(n));
    }
    if n == list.len() {
        assert(list.take(n) =~= list);
    }
}

proof fn lemma_parts_behind(list: Seq<Seq<char>>, n: int)
    requires
        0 <= n <= list.len(),
        forall|i: int| 0 <= i < list.len() ==> (#[trigger] list[i]).len() > 0 && list[i] != "."@,
    ensures
        path_parts(seq![Seq::<char>::empty()] + list, n + 1) == list.take(n),
    decreases n,
{
    let more = seq![Seq::<char>::empty()] + list;
    assert(more[n] == if n == 0 { Seq::<char>::empty() } else { list[n - 1] });
    if n > 0 {
        lemma_parts_behind(list, n - 1);
        assert(list[n - 1].len() > 0);
        assert(list.take(n) =~= list.take(n - 1).push(list[n - 1]));
    } else {
        assert(path_parts(more, 0) =~= seq![]);
        assert(path_parts(more, 1) =~= list.take(0));
    }
    if n == list.len() {
        assert(list.take(n) =~= list);
    }
}

proof fn lemma_parts_before(list: Seq<Seq<char>>, piece: Seq<char>, n: int)
    requires
        0 <= n <= list.len(),
        piece.len() == 0,
        forall|i: int| 0 <= i < list.len() ==> (#[trigger] list[i]).len() > 0 && list[i] != "."@,
    ensures
        path_parts(list.push(piece), n) == list.take(n),
        n == list.len() ==> path_parts(list.push(piece), n + 1) == list,
    decreases n,
{
    let more = list.push(piece);
    if n > 0 {
        lemma_parts_before(list, piece, n - 1);
        assert(more[n - 1] == list[n - 1]);
        assert(list[n - 1].len() > 0);
        assert(list.take(n) =~= list.take(n - 1).push(list[n - 1]));
    } else {
        assert(path_parts(more, n) =~= list.take(n));
    }
    if n == list.len() {
        assert(list.take(n) =~= list);
        assert(more[n] == piece);
    }
}

/// The extension of a file's name is replaced; where there is none, it is put behind the name.
pub proof fn law_extension(stem: Seq<char>, old_one: Seq<char>, new_one: Seq<char>)
    requires
        stem.len() > 0,
        stem.last() != '/' && stem.last() != '.',
        old_one.len() > 0,
        !old_one.contains('/') && !old_one.contains('.'),
        new_one.len() > 0,
    ensures
        extended(stem + seq!['.'] + old_one, new_one) == stem + seq!['.'] + new_one,
        !stem.contains('.') ==> extended(stem, new_one) == stem + seq!['.'] + new_one,
{
    reveal_strlit(".");
    reveal_strlit("..");
    reveal_strlit("/..");
    assert("."@ =~= seq!['.']);
    let p = stem + seq!['.'] + old_one;
    let i = stem.len() as int;
    assert(old_one.contains(old_one.last()));
    assert(p.last() == old_one.last());
    lemma_names(p);
    lemma_names(stem);
    let cut_off = p.take(i + 1);
    assert(cut_off.last() == '.' && cut_off[i - 1] == stem.last());
    if "/.."@.is_suffix_of(cut_off) {
        assert(cut_off.skip(cut_off.len() - 3)[1] == '.');
    }
    assert(names_file(cut_off)) by {
        if cut_off == ".."@ {
            assert(cut_off[0] == '.');
        }
    }
    lemma_dot_found(p, i, p.len() - 1);
    assert(p.take(i) =~= stem);
    assert(stem + ("."@ + new_one) =~= stem + seq!['.'] + new_one);
    if !stem.contains('.') {
        lemma_no_dot(stem, stem.len() - 1);
    }
}

proof fn lemma_names(p: Seq<char>)
    requires
        p.len() > 0,
        p.last() != '/' && p.last() != '.',
    ensures
        path_trimmed(p) == p,
        names_file(p),
{
    reveal_strlit(".");
    reveal_strlit("..");
    reveal_strlit("/..");
    assert("."@.last() == '.' && ".."@.last() == '.');
    if "/.."@.is_suffix_of(p) {
        assert(p.skip(p.len() - 3)[2] == '.');
    }
}

proof fn lemma_dot_found(p: Seq<char>, i: int, k: int)
    requires
        0 < i <= k < p.len(),
        p[i] == '.',
        p[i - 1] != '/',
        forall|m: int| i < m < p.len() ==> #[trigger] p[m] != '/' && p[m] != '.',
    ensures
        extension_at(p, k) == Some(i),
    decreases k,
{
    if k > i {
        lemma_dot_found(p, i, k - 1);
    }
}

proof fn lemma_no_dot(p: Seq<char>, k: int)
    requires
        !p.contains('.'),
        k < p.len(),
    ensures
        extension_at(p, k) is None,
    decreases k,
{
    if k > 0 {
        assert(p.contains(p[k]));
        lemma_no_dot(p, k - 1);
    }
}

} // verus!
