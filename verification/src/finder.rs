//! The finder: type-ahead search over the names of workspaces, panes and tabs, with a filter on
//! what the agents in them do.

use vstd::prelude::*;

use crate::input::{visible, TextInput};
use crate::model::{AgentState, PaneId, Rect, SurfaceId, WorkspaceId};
use crate::order::{law_ordering_unique, lemma_all_alike, ordering, picked, sort_positions, Ordered};
use crate::paint::{
    all_stay_in, border, draw_border, fill, filled, on, paints, put_text, shaded, shortened,
    stays_in, truncate, written, Drawing, DrawingV, Paint, PaintV, Style,
};
use crate::text::{chars_of, code, copy_opt, opt_text};
use crate::tree::{
    PaneT, PaneView, ScreenT, ScreenView, TabT, TabView, TreeView, WorkspaceT, WorkspaceView,
};

verus! {

/// What a row of the finder leads to.
#[derive(Clone, Copy, Debug, PartialEq, Eq, Structural)]
pub enum FinderTarget {
    Workspace(WorkspaceId),
    Pane(PaneId),
    Surface(SurfaceId),
}

/// Which agent states are shown. `All` shows every row; the others show only tabs in which an
/// agent is in that state.
#[derive(Clone, Copy, Debug, PartialEq, Eq, Structural)]
pub enum StateFilter {
    All,
    Working,
    Blocked,
    Idle,
    Done,
}

pub open spec fn filter_keeps(f: StateFilter, state: Option<AgentState>) -> bool {
    match f {
        StateFilter::All => true,
        StateFilter::Working => state == Some(AgentState::Working),
        StateFilter::Blocked => state == Some(AgentState::Blocked),
        StateFilter::Idle => state == Some(AgentState::Idle),
        StateFilter::Done => state == Some(AgentState::Done),
    }
}

pub open spec fn filter_label(f: StateFilter) -> Seq<char> {
    match f {
        StateFilter::All => "all"@,
        StateFilter::Working => "working"@,
        StateFilter::Blocked => "blocked"@,
        StateFilter::Idle => "idle"@,
        StateFilter::Done => "done"@,
    }
}

impl StateFilter {
    pub fn keeps(self, agent_state: Option<AgentState>) -> (r: bool)
        ensures
            r == filter_keeps(self, agent_state),
    {
        match (self, agent_state) {
            (StateFilter::All, _) => true,
            (StateFilter::Working, Some(AgentState::Working)) => true,
            (StateFilter::Blocked, Some(AgentState::Blocked)) => true,
            (StateFilter::Idle, Some(AgentState::Idle)) => true,
            (StateFilter::Done, Some(AgentState::Done)) => true,
            _ => false,
        }
    }

    pub fn label(self) -> (r: &'static str)
        ensures
            r@ == filter_label(self),
    {
        match self {
            StateFilter::All => "all",
            StateFilter::Working => "working",
            StateFilter::Blocked => "blocked",
            StateFilter::Idle => "idle",
            StateFilter::Done => "done",
        }
    }
}

/// A row that can be found.
#[derive(Debug)]
pub struct FinderItem {
    pub target: FinderTarget,
    pub label: String,
    /// The session that the agent in the tab reported; it is searched too.
    pub agent_session: Option<String>,
    pub agent_state: Option<AgentState>,
}

pub struct ItemV {
    pub target: FinderTarget,
    pub label: Seq<char>,
    pub agent_session: Option<Seq<char>>,
    pub agent_state: Option<AgentState>,
}

impl View for FinderItem {
    type V = ItemV;

    open spec fn view(&self) -> ItemV {
        ItemV {
            target: self.target,
            label: self.label@,
            agent_session: opt_text(self.agent_session),
            agent_state: self.agent_state,
        }
    }
}

// ---- matching -----------------------------------------------------------------------------

/// A letter of ASCII in lower case; other characters stay.
pub open spec fn lower(c: char) -> int {
    if 65 <= c as int <= 90 {
        c as int + 32
    } else {
        c as int
    }
}

/// The first position from `from` on at which the letter stands, in either case.
pub open spec fn letter_from(c: char, hay: Seq<char>, from: int) -> Option<int>
    decreases hay.len() - from,
{
    if from < 0 || from >= hay.len() {
        None
    } else if lower(hay[from]) == lower(c) {
        Some(from)
    } else {
        letter_from(c, hay, from + 1)
    }
}

/// Where the last letter of the query stands if each is taken at its first place behind the one
/// before it.
pub open spec fn last_letter(query: Seq<char>, hay: Seq<char>, from: int) -> Option<int>
    decreases query.len(),
{
    if query.len() == 0 {
        None
    } else {
        match letter_from(query[0], hay, from) {
            None => None,
            Some(i) => if query.len() == 1 {
                Some(i)
            } else {
                last_letter(query.skip(1), hay, i + 1)
            },
        }
    }
}

/// How many characters stand between the letters that match, at most as many as can be counted.
/// An empty query matches everything.
pub open spec fn score_of(query: Seq<char>, hay: Seq<char>) -> Option<u32> {
    if query.len() == 0 {
        Some(0)
    } else {
        match (letter_from(query[0], hay, 0), last_letter(query, hay, 0)) {
            (Some(first), Some(last)) => {
                let gaps = last - first + 1 - query.len();
                Some(
                    if gaps > u32::MAX {
                        u32::MAX
                    } else {
                        gaps as u32
                    },
                )
            },
            _ => None,
        }
    }
}

/// Whether the letters of the query stand in `hay` at these positions, one behind the other.
pub open spec fn placed(query: Seq<char>, hay: Seq<char>, at: Seq<int>) -> bool {
    &&& at.len() == query.len()
    &&& forall|k: int|
        0 <= k < at.len() ==> 0 <= #[trigger] at[k] < hay.len() && lower(hay[at[k]]) == lower(
            query[k],
        )
    &&& forall|k: int, l: int| 0 <= k < l < at.len() ==> #[trigger] at[k] < #[trigger] at[l]
}

proof fn lemma_letter(c: char, hay: Seq<char>, from: int)
    requires
        0 <= from,
    ensures
        match letter_from(c, hay, from) {
            Some(i) => from <= i < hay.len() && lower(hay[i]) == lower(c) && forall|j: int|
                from <= j < i ==> lower(#[trigger] hay[j]) != lower(c),
            None => forall|j: int| from <= j < hay.len() ==> lower(#[trigger] hay[j]) != lower(c),
        },
    decreases hay.len() - from,
{
    if from < hay.len() && lower(hay[from]) != lower(c) {
        lemma_letter(c, hay, from + 1);
    }
}

/// Taking each letter at its first place finds the query wherever it can be found.
proof fn lemma_greedy(query: Seq<char>, hay: Seq<char>, from: int, at: Seq<int>)
    requires
        0 <= from,
        query.len() > 0,
        placed(query, hay, at),
        at[0] >= from,
    ensures
        last_letter(query, hay, from) is Some,
    decreases query.len(),
{
    lemma_letter(query[0], hay, from);
    let i = letter_from(query[0], hay, from);
    assert(lower(hay[at[0]]) == lower(query[0]));
    assert(i is Some && i->0 <= at[0]);
    if query.len() > 1 {
        let rest = query.skip(1);
        let tail = at.skip(1);
        assert(placed(rest, hay, tail)) by {
            assert forall|k: int| 0 <= k < tail.len() implies 0 <= #[trigger] tail[k] < hay.len()
                && lower(hay[tail[k]]) == lower(rest[k]) by {
                assert(tail[k] == at[k + 1]);
            }
            assert forall|k: int, l: int| 0 <= k < l < tail.len() implies #[trigger] tail[k]
                < #[trigger] tail[l] by {
                assert(at[k + 1] < at[l + 1]);
            }
        }
        assert(at[0] < at[1]);
        lemma_greedy(rest, hay, i->0 + 1, tail);
    }
}

/// What was found by taking each letter at its first place is a place for every letter.
proof fn lemma_greedy_places(query: Seq<char>, hay: Seq<char>, from: int) -> (at: Seq<int>)
    requires
        0 <= from,
        last_letter(query, hay, from) is Some,
    ensures
        placed(query, hay, at),
        at.len() > 0,
        at[0] >= from,
        at[0] == letter_from(query[0], hay, from)->0,
        at.last() == last_letter(query, hay, from)->0,
        at.last() - at[0] + 1 >= query.len(),
    decreases query.len(),
{
    lemma_letter(query[0], hay, from);
    let i = letter_from(query[0], hay, from)->0;
    if query.len() == 1 {
        let at = seq![i];
        at
    } else {
        let rest = lemma_greedy_places(query.skip(1), hay, i + 1);
        let at = seq![i] + rest;
        assert forall|k: int| 0 <= k < at.len() implies 0 <= #[trigger] at[k] < hay.len() && lower(
            hay[at[k]],
        ) == lower(query[k]) by {
            if k > 0 {
                assert(at[k] == rest[k - 1]);
                assert(query.skip(1)[k - 1] == query[k]);
            }
        }
        assert forall|k: int, l: int| 0 <= k < l < at.len() implies #[trigger] at[k]
            < #[trigger] at[l] by {
            assert(at[l] == rest[l - 1]);
            if k > 0 {
                assert(at[k] == rest[k - 1]);
            } else if l - 1 > 0 {
                assert(rest[0] < rest[l - 1]);
            }
        }
        assert(at.last() == rest.last());
        at
    }
}

/// A query has a score exactly where its letters stand in the text in order, in either case; an
/// empty query always scores nothing.
pub proof fn law_fuzzy_score(query: Seq<char>, hay: Seq<char>)
    ensures
        score_of(query, hay) is Some <==> exists|at: Seq<int>| placed(query, hay, at),
        query.len() == 0 ==> score_of(query, hay) == Some(0u32),
{
    if query.len() == 0 {
        assert(placed(query, hay, seq![]));
    } else {
        if exists|at: Seq<int>| placed(query, hay, at) {
            let at = choose|at: Seq<int>| placed(query, hay, at);
            assert(0 <= at[0]);
            lemma_greedy(query, hay, 0, at);
        }
        if last_letter(query, hay, 0) is Some {
            let at = lemma_greedy_places(query, hay, 0);
            assert(placed(query, hay, at));
        }
    }
}

/// A text that starts with the query scores nothing: letters next to each other are free.
pub proof fn law_prefix_scores_zero(query: Seq<char>, hay: Seq<char>)
    requires
        query.is_prefix_of(hay),
    ensures
        score_of(query, hay) == Some(0u32),
{
    if query.len() > 0 {
        lemma_prefix(query, hay, 0, 0);
        assert(query.skip(0) =~= query);
    }
}

proof fn lemma_prefix(query: Seq<char>, hay: Seq<char>, i: int, from: int)
    requires
        query.is_prefix_of(hay),
        0 <= i < query.len(),
        from == i,
    ensures
        letter_from(query[i], hay, i) == Some(i),
        last_letter(query.skip(i), hay, i) == Some(query.len() - 1),
    decreases query.len() - i,
{
    assert(hay[i] == query[i]);
    assert(query.skip(i)[0] == query[i]);
    if i + 1 < query.len() {
        lemma_prefix(query, hay, i + 1, i + 1);
        assert(query.skip(i).skip(1) =~= query.skip(i + 1));
    }
}

/// A longer query matches no more, and never scores less; a longer text changes no score that is
/// there.
pub proof fn law_scores_monotone(query: Seq<char>, c: char, hay: Seq<char>, more: Seq<char>)
    ensures
        score_of(query.push(c), hay) matches Some(longer) ==> {
            score_of(query, hay) matches Some(shorter) && shorter <= longer
        },
        score_of(query, hay) is Some ==> score_of(query, hay + more) == score_of(query, hay),
{
    if score_of(query.push(c), hay) is Some && query.len() > 0 {
        lemma_query_shortened(query, c, hay, 0);
        assert(query.push(c)[0] == query[0]);
        let _ = lemma_greedy_places(query, hay, 0);
        let _ = lemma_greedy_places(query.push(c), hay, 0);
    }
    if score_of(query, hay) is Some && query.len() > 0 {
        lemma_text_longer(query, hay, more, 0);
        lemma_letter_stays(query[0], hay, more, 0);
    }
}

proof fn lemma_query_shortened(query: Seq<char>, c: char, hay: Seq<char>, from: int)
    requires
        0 <= from,
        query.len() > 0,
        last_letter(query.push(c), hay, from) is Some,
    ensures
        last_letter(query, hay, from) is Some,
        last_letter(query, hay, from)->0 < last_letter(query.push(c), hay, from)->0,
    decreases query.len(),
{
    assert(query.push(c)[0] == query[0]);
    lemma_letter(query[0], hay, from);
    let i = letter_from(query[0], hay, from)->0;
    let rest = query.push(c).skip(1);
    if query.len() == 1 {
        assert(rest =~= seq![c]);
        lemma_letter(c, hay, i + 1);
    } else {
        assert(rest =~= query.skip(1).push(c));
        lemma_query_shortened(query.skip(1), c, hay, i + 1);
    }
}

proof fn lemma_letter_stays(c: char, hay: Seq<char>, more: Seq<char>, from: int)
    requires
        0 <= from,
        letter_from(c, hay, from) is Some,
    ensures
        letter_from(c, hay + more, from) == letter_from(c, hay, from),
    decreases hay.len() - from,
{
    assert((hay + more)[from] == hay[from]);
    if lower(hay[from]) != lower(c) {
        lemma_letter_stays(c, hay, more, from + 1);
    }
}

proof fn lemma_text_longer(query: Seq<char>, hay: Seq<char>, more: Seq<char>, from: int)
    requires
        0 <= from,
        last_letter(query, hay, from) is Some,
    ensures
        last_letter(query, hay + more, from) == last_letter(query, hay, from),
    decreases query.len(),
{
    lemma_letter_stays(query[0], hay, more, from);
    lemma_letter(query[0], hay, from);
    if query.len() > 1 {
        let i = letter_from(query[0], hay, from)->0;
        lemma_text_longer(query.skip(1), hay, more, i + 1);
    }
}

fn lowered(c: char) -> (r: u32)
    ensures
        r == lower(c),
{
    let n: u32 = code(c);
    if 65 <= n && n <= 90 {
        n + 32
    } else {
        n
    }
}

/// The score of a text for a query, the lower the better; none where the query does not match.
pub fn fuzzy_score(query: &str, hay: &str) -> (r: Option<u32>)
    ensures
        r == score_of(query@, hay@),
{
    let q: Vec<char> = chars_of(query);
    if q.len() == 0 {
        return Some(0);
    }
    let h: Vec<char> = chars_of(hay);
    let mut qi: usize = 0;
    let mut hi: usize = 0;
    let mut first: usize = 0;
    assert(q@.skip(0) =~= q@);
    while hi < h.len()
        invariant
            q@ == query@,
            h@ == hay@,
            q.len() > 0,
            qi < q.len(),
            qi <= hi <= h.len(),
            qi == 0 ==> letter_from(q@[0], h@, 0) == letter_from(q@[0], h@, hi as int),
            qi > 0 ==> letter_from(q@[0], h@, 0) == Some(first as int) && first + qi <= hi,
            last_letter(q@, h@, 0) == last_letter(q@.skip(qi as int), h@, hi as int),
        decreases h.len() - hi,
    {
        assert(q@.skip(qi as int)[0] == q@[qi as int]);
        if lowered(h[hi]) == lowered(q[qi]) {
            if qi == 0 {
                first = hi;
            }
            if qi + 1 == q.len() {
                assert(q@.skip(qi as int).len() == 1);
                assert(last_letter(q@, h@, 0) == Some(hi as int));
                let gaps: usize = hi - first - qi;
                if gaps as u64 > u32::MAX as u64 {
                    return Some(u32::MAX);
                }
                return Some(gaps as u32);
            }
            assert(q@.skip(qi as int).skip(1) =~= q@.skip(qi + 1));
            qi = qi + 1;
        } else {
            assert(letter_from(q@[qi as int], h@, hi as int) == letter_from(
                q@[qi as int],
                h@,
                hi + 1,
            ));
        }
        hi = hi + 1;
    }
    assert(letter_from(q@.skip(qi as int)[0], h@, hi as int) is None);
    None
}

// ---- ranking ------------------------------------------------------------------------------

/// The score of a row: that of its label, else that of its agent's session.
pub open spec fn item_score(item: ItemV, query: Seq<char>) -> Option<u32> {
    match score_of(query, item.label) {
        Some(s) => Some(s),
        None => match item.agent_session {
            Some(session) => score_of(query, session),
            None => None,
        },
    }
}

/// The rows that match, in the order of the list, each with its position and its score.
pub open spec fn matching(items: Seq<ItemV>, query: Seq<char>, filter: StateFilter) -> Seq<
    (usize, u32),
>
    decreases items.len(),
{
    if items.len() == 0 {
        seq![]
    } else {
        let front = matching(items.drop_last(), query, filter);
        let score = item_score(items.last(), query);
        if filter_keeps(filter, items.last().agent_state) && score is Some {
            front.push(((items.len() - 1) as usize, score->0))
        } else {
            front
        }
    }
}

/// The scores of the rows that match.
pub open spec fn scores(rows: Seq<(usize, u32)>) -> Seq<u32> {
    rows.map_values(|r: (usize, u32)| r.1)
}

/// Whether `out` is the list of rows by score, rows with one score in the order they had.
pub open spec fn ranking(rows: Seq<(usize, u32)>, out: Seq<(usize, u32)>) -> bool {
    exists|order: Seq<usize>|
        #[trigger] ordering(scores(rows), order) && out == picked(rows, order)
}

/// What is searched, for what, with which filter, and where the cursor stands.
#[derive(Debug)]
pub struct FinderState {
    pub input: TextInput,
    pub state_filter: StateFilter,
    pub cursor: usize,
    pub items: Vec<FinderItem>,
}

impl FinderState {
    /// The rows.
    pub open spec fn rows(self) -> Seq<ItemV> {
        self.items@.map_values(|i: FinderItem| i@)
    }

    /// The rows that match.
    pub open spec fn hits(self) -> Seq<(usize, u32)> {
        matching(self.rows(), self.input@, self.state_filter)
    }

    pub fn new(items: Vec<FinderItem>) -> (r: FinderState)
        ensures
            r.items == items,
            r.input@.len() == 0,
            r.state_filter == StateFilter::All,
            r.cursor == 0,
    {
        FinderState {
            input: TextInput::new(String::new()),
            state_filter: StateFilter::All,
            cursor: 0,
            items,
        }
    }

    /// The rows that match, best first.
    pub fn ranked(&self) -> (out: Vec<(usize, u32)>)
        ensures
            ranking(self.hits(), out@),
            out@.len() == self.hits().len(),
            forall|k: int| 0 <= k < out.len() ==> (#[trigger] out@[k]).0 < self.items.len(),
    {
        let query: &str = self.input.as_str();
        let mut rows: Vec<(usize, u32)> = Vec::new();
        let mut keys: Vec<u32> = Vec::new();
        let ghost all = self.rows();
        let mut i: usize = 0;
        while i < self.items.len()
            invariant
                i <= self.items.len(),
                all == self.rows(),
                query@ == self.input@,
                rows@ == matching(all.take(i as int), self.input@, self.state_filter),
                keys@ == scores(rows@),
                forall|k: int| 0 <= k < rows.len() ==> (#[trigger] rows@[k]).0 < i,
            decreases self.items.len() - i,
        {
            let item: &FinderItem = &self.items[i];
            proof {
                assert(all[i as int] == item@);
                assert(all.take(i + 1).drop_last() =~= all.take(i as int));
                assert(all.take(i + 1).last() == item@);
            }
            if self.state_filter.keeps(item.agent_state) {
                let score: Option<u32> = match fuzzy_score(query, item.label.as_str()) {
                    Some(s) => Some(s),
                    None => match &item.agent_session {
                        Some(session) => fuzzy_score(query, session.as_str()),
                        None => None,
                    },
                };
                if let Some(s) = score {
                    let ghost before = rows@;
                    rows.push((i, s));
                    keys.push(s);
                    assert(keys@ =~= scores(rows@));
                }
            }
            i = i + 1;
        }
        assert(all.take(all.len() as int) =~= all);
        let order: Vec<usize> = sort_positions(&keys);
        let mut out: Vec<(usize, u32)> = Vec::new();
        let mut k: usize = 0;
        while k < order.len()
            invariant
                k <= order.len(),
                keys.len() == rows.len(),
                forall|j: int| 0 <= j < order.len() ==> #[trigger] order@[j] < rows.len(),
                forall|j: int| 0 <= j < rows.len() ==> (#[trigger] rows@[j]).0 < self.items.len(),
                out.len() == k,
                forall|j: int| 0 <= j < k ==> #[trigger] out@[j] == rows@[order@[j] as int],
            decreases order.len() - k,
        {
            assert(order@[k as int] < rows.len());
            out.push(rows[order[k]]);
            k = k + 1;
        }
        proof {
            assert(out@ =~= picked(rows@, order@));
            assert(ordering(scores(self.hits()), order@));
            assert forall|j: int| 0 <= j < out.len() implies (#[trigger] out@[j]).0
                < self.items.len() by {
                assert(order@[j] < rows.len());
                assert(rows@[order@[j] as int].0 < self.items.len());
            }
        }
        out
    }

    /// Moves the cursor by some rows, and no further than the ends of the list.
    pub fn move_cursor(&mut self, delta: isize)
        ensures
            final(self).cursor == if old(self).hits().len() == 0 {
                0
            } else {
                at_least(
                    at_most(old(self).cursor + delta, old(self).hits().len() - 1),
                    0,
                )
            },
            final(self).items == old(self).items,
            final(self).input == old(self).input,
            final(self).state_filter == old(self).state_filter,
            final(self).hits().len() > 0 ==> final(self).cursor < final(self).hits().len(),
    {
        let len: usize = self.ranked().len();
        if len == 0 {
            self.cursor = 0;
            return ;
        }
        let at: i128 = self.cursor as i128 + delta as i128;
        self.cursor = if at < 0 {
            0
        } else if at >= len as i128 {
            len - 1
        } else {
            at as usize
        };
    }

    /// Where the row under the cursor leads.
    pub fn selected(&self) -> (r: Option<FinderTarget>)
        ensures
            exists|ranked: Seq<(usize, u32)>|
                #[trigger] ranking(self.hits(), ranked) && r == if self.cursor < ranked.len() {
                    Some(self.items@[ranked[self.cursor as int].0 as int].target)
                } else {
                    None
                },
    {
        let ranked: Vec<(usize, u32)> = self.ranked();
        assert(ranking(self.hits(), ranked@));
        if self.cursor < ranked.len() {
            let row: usize = ranked[self.cursor].0;
            assert(ranked@[self.cursor as int].0 < self.items.len());
            Some(self.items[row].target)
        } else {
            None
        }
    }
}

/// Two rankings of the same rows are the same list.
pub proof fn law_ranking_unique(
    rows: Seq<(usize, u32)>,
    a: Seq<(usize, u32)>,
    b: Seq<(usize, u32)>,
)
    requires
        ranking(rows, a),
        ranking(rows, b),
    ensures
        a == b,
{
    let p = choose|order: Seq<usize>|
        #[trigger] ordering(scores(rows), order) && a == picked(rows, order);
    let q = choose|order: Seq<usize>|
        #[trigger] ordering(scores(rows), order) && b == picked(rows, order);
    law_ordering_unique(scores(rows), p, q);
}

/// With an empty query and no filter every row is shown, in the order of the tree.
pub proof fn law_empty_query(items: Seq<ItemV>, out: Seq<(usize, u32)>)
    requires
        items.len() <= usize::MAX,
        ranking(matching(items, seq![], StateFilter::All), out),
    ensures
        out == Seq::new(items.len(), |i: int| (i as usize, 0u32)),
{
    let rows = matching(items, seq![], StateFilter::All);
    lemma_all_match(items);
    let order = choose|order: Seq<usize>|
        #[trigger] ordering(scores(rows), order) && out == picked(rows, order);
    assert forall|i: int, j: int|
        0 <= i < scores(rows).len() && 0 <= j < scores(rows).len() implies #[trigger] scores(
        rows,
    )[i].before(&scores(rows)[j]) by {
        assert(rows[i].1 == 0 && rows[j].1 == 0);
    }
    lemma_all_alike(scores(rows), order);
    assert(out =~= Seq::new(items.len(), |i: int| (i as usize, 0u32)));
}

proof fn lemma_all_match(items: Seq<ItemV>)
    requires
        items.len() <= usize::MAX,
    ensures
        matching(items, seq![], StateFilter::All) == Seq::new(
            items.len(),
            |i: int| (i as usize, 0u32),
        ),
    decreases items.len(),
{
    let want = Seq::new(items.len(), |i: int| (i as usize, 0u32));
    if items.len() == 0 {
        assert(matching(items, seq![], StateFilter::All) =~= want);
    } else {
        lemma_all_match(items.drop_last());
        assert(want =~= Seq::new(items.drop_last().len(), |i: int| (i as usize, 0u32)).push(
            ((items.len() - 1) as usize, 0u32),
        ));
    }
}

/// A row is ranked exactly where the filter keeps it and the query matches it, and with its
/// score; a filter other than `All` keeps only rows with that state.
pub proof fn law_matching(items: Seq<ItemV>, query: Seq<char>, filter: StateFilter, i: int)
    requires
        0 <= i < items.len() <= usize::MAX,
    ensures
        (exists|s: u32| #[trigger] matching(items, query, filter).contains((i as usize, s)))
            <==> filter_keeps(filter, items[i].agent_state) && item_score(items[i], query) is Some,
        forall|s: u32| #[trigger]
            matching(items, query, filter).contains((i as usize, s)) ==> item_score(items[i], query)
                == Some(s),
{
    lemma_matching(items, query, filter, i);
    if item_score(items[i], query) is Some {
        let s = item_score(items[i], query)->0;
        assert(matching(items, query, filter).contains((i as usize, s)) <==> filter_keeps(
            filter,
            items[i].agent_state,
        ));
    }
}

proof fn lemma_matching(items: Seq<ItemV>, query: Seq<char>, filter: StateFilter, i: int)
    requires
        0 <= i < items.len() <= usize::MAX,
    ensures
        forall|s: u32| #[trigger]
            matching(items, query, filter).contains((i as usize, s)) <==> filter_keeps(
                filter,
                items[i].agent_state,
            ) && item_score(items[i], query) == Some(s),
    decreases items.len(),
{
    let front = items.drop_last();
    let before = matching(front, query, filter);
    let all = matching(items, query, filter);
    lemma_positions_below(front, query, filter);
    assert forall|s: u32| #[trigger]
        all.contains((i as usize, s)) <==> filter_keeps(filter, items[i].agent_state)
            && item_score(items[i], query) == Some(s) by {
        if i < front.len() {
            lemma_matching(front, query, filter, i);
            assert(before.contains((i as usize, s)) <==> filter_keeps(filter, front[i].agent_state)
                && item_score(front[i], query) == Some(s));
            assert(front[i] == items[i]);
            if before.contains((i as usize, s)) {
                let k = choose|k: int| 0 <= k < before.len() && before[k] == (i as usize, s);
                assert(all[k] == (i as usize, s));
            }
            if all.contains((i as usize, s)) {
                let k = choose|k: int| 0 <= k < all.len() && all[k] == (i as usize, s);
                if k < before.len() {
                    assert(before[k] == (i as usize, s));
                }
            }
        } else {
            if all.contains((i as usize, s)) {
                let k = choose|k: int| 0 <= k < all.len() && all[k] == (i as usize, s);
                if k < before.len() {
                    assert(before[k].0 < front.len());
                }
            }
            if filter_keeps(filter, items[i].agent_state) && item_score(items[i], query) == Some(s) {
                assert(all[before.len() as int] == (i as usize, s));
            }
        }
    }
}

proof fn lemma_positions_below(items: Seq<ItemV>, query: Seq<char>, filter: StateFilter)
    requires
        items.len() <= usize::MAX,
    ensures
        forall|k: int|
            0 <= k < matching(items, query, filter).len() ==> (#[trigger] matching(
                items,
                query,
                filter,
            )[k]).0 < items.len(),
    decreases items.len(),
{
    if items.len() > 0 {
        lemma_positions_below(items.drop_last(), query, filter);
        let before = matching(items.drop_last(), query, filter);
        let all = matching(items, query, filter);
        assert forall|k: int| 0 <= k < all.len() implies (#[trigger] all[k]).0 < items.len() by {
            if k < before.len() {
                assert(all[k] == before[k]);
            }
        }
    }
}

// ---- the rows of a tree -------------------------------------------------------------------

/// A label: the short name behind a number sign, and the name.
pub open spec fn label_text(short_id: Seq<char>, name: Seq<char>) -> Seq<char> {
    "#"@ + short_id + " "@ + name
}

pub open spec fn tab_item(t: TabT) -> ItemV {
    ItemV {
        target: FinderTarget::Surface(t.surface),
        label: label_text(t.short_id, t.shown_title()),
        agent_session: t.agent_session,
        agent_state: t.agent_state,
    }
}

/// A pane by its name, even an empty one, else by how it is shown.
pub open spec fn pane_item(p: PaneT) -> ItemV {
    ItemV {
        target: FinderTarget::Pane(p.id),
        label: label_text(
            p.short_id,
            match p.name {
                Some(n) => n,
                None => p.shown_name(),
            },
        ),
        agent_session: None,
        agent_state: None,
    }
}

pub open spec fn workspace_item(w: WorkspaceT) -> ItemV {
    ItemV {
        target: FinderTarget::Workspace(w.id),
        label: label_text(w.short_id, w.name),
        agent_session: None,
        agent_state: None,
    }
}

pub open spec fn pane_items(panes: Seq<PaneT>) -> Seq<ItemV>
    decreases panes.len(),
{
    if panes.len() == 0 {
        seq![]
    } else {
        pane_items(panes.drop_last()) + (seq![pane_item(panes.last())]
            + panes.last().tabs.map_values(|t: TabT| tab_item(t)))
    }
}

pub open spec fn screen_items(screens: Seq<ScreenT>) -> Seq<ItemV>
    decreases screens.len(),
{
    if screens.len() == 0 {
        seq![]
    } else {
        screen_items(screens.drop_last()) + pane_items(screens.last().panes)
    }
}

/// The rows of a tree: each workspace, then its panes, each followed by its tabs.
pub open spec fn tree_items(ws: Seq<WorkspaceT>) -> Seq<ItemV>
    decreases ws.len(),
{
    if ws.len() == 0 {
        seq![]
    } else {
        tree_items(ws.drop_last()) + (seq![workspace_item(ws.last())] + screen_items(
            ws.last().screens,
        ))
    }
}

/// What a list of rows holds.
pub open spec fn items_view(items: Seq<FinderItem>) -> Seq<ItemV> {
    items.map_values(|i: FinderItem| i@)
}

fn label_for(short_id: &str, name: &str) -> (r: String)
    ensures
        r@ == label_text(short_id@, name@),
{
    let mut label: String = "#".to_string();
    label.append(short_id);
    label.append(" ");
    label.append(name);
    label
}

fn add_pane(items: &mut Vec<FinderItem>, pane: &PaneView)
    ensures
        items_view(final(items)@) == items_view(old(items)@) + (seq![pane_item(pane@)]
            + pane@.tabs.map_values(|t: TabT| tab_item(t))),
{
    let ghost start = items_view(items@);
    let name: &str = match &pane.name {
        Some(n) => n.as_str(),
        None => pane.display_name(),
    };
    let item: FinderItem = FinderItem {
        target: FinderTarget::Pane(pane.id),
        label: label_for(pane.short_id.as_str(), name),
        agent_session: None,
        agent_state: None,
    };
    items.push(item);
    let ghost tabs = pane@.tabs.map_values(|t: TabT| tab_item(t));
    let mut i: usize = 0;
    assert(items_view(items@) =~= start + (seq![pane_item(pane@)] + tabs.take(0)));
    while i < pane.tabs.len()
        invariant
            i <= pane.tabs.len(),
            tabs == pane@.tabs.map_values(|t: TabT| tab_item(t)),
            items_view(items@) == start + (seq![pane_item(pane@)] + tabs.take(i as int)),
        decreases pane.tabs.len() - i,
    {
        let tab: &TabView = &pane.tabs[i];
        let ghost before = items_view(items@);
        let item: FinderItem = FinderItem {
            target: FinderTarget::Surface(tab.surface),
            label: label_for(tab.short_id.as_str(), tab.display_title()),
            agent_session: copy_opt(&tab.agent_session),
            agent_state: tab.agent_state,
        };
        items.push(item);
        i = i + 1;
        proof {
            assert(tabs[i - 1] == tab_item(tab@));
            assert(items_view(items@) =~= before.push(tab_item(tab@)));
            assert(items_view(items@) =~= start + (seq![pane_item(pane@)] + tabs.take(i as int)));
        }
    }
    assert(tabs.take(tabs.len() as int) =~= tabs);
}

fn add_screen(items: &mut Vec<FinderItem>, screen: &ScreenView)
    ensures
        items_view(final(items)@) == items_view(old(items)@) + pane_items(screen@.panes),
{
    let ghost start = items_view(items@);
    let ghost panes = screen@.panes;
    let mut i: usize = 0;
    assert(items_view(items@) =~= start + pane_items(panes.take(0)));
    while i < screen.panes.len()
        invariant
            i <= screen.panes.len(),
            panes == screen@.panes,
            items_view(items@) == start + pane_items(panes.take(i as int)),
        decreases screen.panes.len() - i,
    {
        add_pane(items, &screen.panes[i]);
        i = i + 1;
        proof {
            assert(panes[i - 1] == screen.panes@[i - 1]@);
            assert(panes.take(i as int).drop_last() =~= panes.take(i - 1));
            assert(items_view(items@) =~= start + pane_items(panes.take(i as int)));
        }
    }
    assert(panes.take(panes.len() as int) =~= panes);
}

/// The rows of a tree.
pub fn build_items(tree: &TreeView) -> (items: Vec<FinderItem>)
    ensures
        items_view(items@) == tree_items(tree@.workspaces),
{
    let mut items: Vec<FinderItem> = Vec::new();
    let ghost ws = tree@.workspaces;
    let mut w: usize = 0;
    assert(items_view(items@) =~= tree_items(ws.take(0)));
    while w < tree.workspaces.len()
        invariant
            w <= tree.workspaces.len(),
            ws == tree@.workspaces,
            items_view(items@) == tree_items(ws.take(w as int)),
        decreases tree.workspaces.len() - w,
    {
        let one: &WorkspaceView = &tree.workspaces[w];
        let ghost start = items_view(items@);
        let item: FinderItem = FinderItem {
            target: FinderTarget::Workspace(one.id),
            label: label_for(one.short_id.as_str(), one.name.as_str()),
            agent_session: None,
            agent_state: None,
        };
        items.push(item);
        let ghost screens = one@.screens;
        let mut i: usize = 0;
        assert(items_view(items@) =~= start + (seq![workspace_item(one@)] + screen_items(
            screens.take(0),
        )));
        while i < one.screens.len()
            invariant
                i <= one.screens.len(),
                screens == one@.screens,
                items_view(items@) == start + (seq![workspace_item(one@)] + screen_items(
                    screens.take(i as int),
                )),
            decreases one.screens.len() - i,
        {
            add_screen(&mut items, &one.screens[i]);
            i = i + 1;
            proof {
                assert(screens[i - 1] == one.screens@[i - 1]@);
                assert(screens.take(i as int).drop_last() =~= screens.take(i - 1));
                assert(items_view(items@) =~= start + (seq![workspace_item(one@)] + screen_items(
                    screens.take(i as int),
                )));
            }
        }
        proof {
            assert(screens.take(screens.len() as int) =~= screens);
            assert(ws[w as int] == one@);
            assert(ws.take(w + 1).drop_last() =~= ws.take(w as int));
        }
        w = w + 1;
    }
    assert(ws.take(ws.len() as int) =~= ws);
    items
}

// ---- where it is drawn --------------------------------------------------------------------

/// How far the first row stands below the top of the box.
pub const ROWS_TOP_OFFSET: u16 = 4;

pub open spec fn at_least(n: int, least: int) -> int {
    if n < least {
        least
    } else {
        n
    }
}

pub open spec fn at_most(n: int, most: int) -> int {
    if n > most {
        most
    } else {
        n
    }
}

/// The box of the finder: in the middle of the screen, of sixty by fourteen cells or as much as
/// leaves a margin; nothing where the screen is smaller than the smallest box. The place of the
/// screen itself does not count.
pub open spec fn finder_box(screen: Rect) -> Option<Rect> {
    let width = at_least(at_most(60, at_least(screen.width - 2, 0)), 30);
    let height = at_least(at_most(14, at_least(screen.height - 2, 0)), 4);
    if screen.width < width || screen.height < height {
        None
    } else {
        Some(
            Rect {
                x: ((screen.width - width) / 2) as u16,
                y: ((screen.height - height) / 2) as u16,
                width: width as u16,
                height: height as u16,
            },
        )
    }
}

pub(crate) fn saturating(n: u16, by: u16) -> (r: u16)
    ensures
        r == at_least(n - by, 0),
{
    if n < by {
        0
    } else {
        n - by
    }
}

pub fn finder_rect(screen: Rect) -> (r: Option<Rect>)
    ensures
        r == finder_box(screen),
{
    let free_width: u16 = saturating(screen.width, 2);
    let free_height: u16 = saturating(screen.height, 2);
    let width: u16 = if free_width < 30 {
        30
    } else if free_width < 60 {
        free_width
    } else {
        60
    };
    let height: u16 = if free_height < 4 {
        4
    } else if free_height < 14 {
        free_height
    } else {
        14
    };
    if screen.width < width || screen.height < height {
        return None;
    }
    Some(
        Rect { x: (screen.width - width) / 2, y: (screen.height - height) / 2, width, height },
    )
}

/// How many rows a box has room for.
pub open spec fn box_rows(rect: Rect) -> int {
    at_least(rect.height - (ROWS_TOP_OFFSET + 1), 0)
}

/// The row that a cell belongs to; none for a cell outside of the box, in its head, or on its
/// border below.
pub open spec fn row_of(screen: Rect, x: u16, y: u16) -> Option<usize> {
    match finder_box(screen) {
        None => None,
        Some(rect) => {
            let top = rect.y + ROWS_TOP_OFFSET;
            if rect.covers(x as int, y as int) && top <= y < top + box_rows(rect) {
                Some((y - top) as usize)
            } else {
                None
            }
        },
    }
}

pub fn finder_row_at(screen: Rect, x: u16, y: u16) -> (r: Option<usize>)
    ensures
        r == row_of(screen, x, y),
{
    match finder_rect(screen) {
        None => None,
        Some(rect) => {
            if !rect.contains(x, y) {
                return None;
            }
            let rows_y: u16 = rect.y + ROWS_TOP_OFFSET;
            let rows_h: u16 = saturating(rect.height, ROWS_TOP_OFFSET + 1);
            if y < rows_y || y - rows_y >= rows_h {
                return None;
            }
            Some((y - rows_y) as usize)
        },
    }
}

/// A click on a cell of a row finds that row, and every cell that finds a row is one of its
/// cells.
pub proof fn law_rows_hit(screen: Rect, x: u16, row: int)
    requires
        finder_box(screen) is Some,
        0 <= row < box_rows(finder_box(screen)->0),
        finder_box(screen)->0.x <= x < finder_box(screen)->0.x + finder_box(screen)->0.width,
    ensures
        ({
            let y = finder_box(screen)->0.y + ROWS_TOP_OFFSET + row;
            &&& y <= u16::MAX
            &&& row_of(screen, x, y as u16) == Some(row as usize)
        }),
{
}

/// The box lies on the screen, with as much room on one side as on the other, but for one cell.
pub proof fn law_box_centred(screen: Rect)
    ensures
        finder_box(screen) matches Some(rect) ==> {
            let right = screen.width - rect.width - rect.x;
            let below = screen.height - rect.height - rect.y;
            &&& 0 <= right - rect.x <= 1
            &&& 0 <= below - rect.y <= 1
        },
{
}

// ---- drawing ------------------------------------------------------------------------------

/// The style of the box of an overlay.
pub open spec fn box_style() -> Style {
    on(236, 252)
}

/// The style of the row under the cursor.
pub open spec fn selected_style() -> Style {
    Style { bold: true, ..on(242, 255) }
}

/// The filter, with the letters of the keys that set it.
pub open spec fn filter_text(f: StateFilter) -> Seq<char> {
    "["@ + filter_label(f) + ": B W I D A]"@
}

/// The letter of an agent's state.
pub open spec fn state_letter(state: Option<AgentState>) -> Seq<char> {
    match state {
        Some(AgentState::Working) => "W"@,
        Some(AgentState::Blocked) => "B"@,
        Some(AgentState::Idle) => "I"@,
        Some(AgentState::Done) => "D"@,
        Some(AgentState::Unknown) => "?"@,
        None => " "@,
    }
}

fn letter_for(state: Option<AgentState>) -> (r: &'static str)
    ensures
        r@ == state_letter(state),
{
    match state {
        Some(AgentState::Working) => "W",
        Some(AgentState::Blocked) => "B",
        Some(AgentState::Idle) => "I",
        Some(AgentState::Done) => "D",
        Some(AgentState::Unknown) => "?",
        None => " ",
    }
}

/// The head of the box: its title, the filter, and what was typed.
pub open spec fn finder_head(r: Rect, f: StateFilter, query: Seq<char>) -> Seq<PaintV> {
    let label = filter_text(f);
    let room = r.width - 4;
    seq![filled(r.x as int, r.y as int, r.width as int, r.height as int, " "@, box_style())]
        + border(r, shaded(box_style(), 244)) + seq![
        written(r.x + 2, r.y + 1, "Find"@, 4, Style { bold: true, ..shaded(box_style(), 255) }),
        written(
            r.x + at_least(r.width - (label.len() + 2), 0),
            r.y + 1,
            label,
            label.len() as int,
            shaded(box_style(), 244),
        ),
        filled(r.x + 2, r.y + 2, room, 1, " "@, on(233, 255)),
        written(r.x + 2, r.y + 2, visible(query, room), room, on(233, 255)),
    ]
}

/// A row of the box.
pub open spec fn finder_row(r: Rect, item: ItemV, row: int, cursor: int) -> Seq<PaintV> {
    let style = if row == cursor {
        selected_style()
    } else {
        box_style()
    };
    let y = r.y + ROWS_TOP_OFFSET + row;
    seq![
        filled(r.x + 1, y, r.width - 2, 1, " "@, style),
        written(r.x + 1, y, state_letter(item.agent_state), 1, shaded(style, 244)),
        written(r.x + 3, y, shortened(item.label, r.width - 4), r.width - 4, style),
    ]
}

/// The first `n` rows of the box.
pub open spec fn finder_rows(
    r: Rect,
    items: Seq<ItemV>,
    ranked: Seq<(usize, u32)>,
    cursor: int,
    n: int,
) -> Seq<PaintV>
    decreases n,
{
    if n <= 0 || n > ranked.len() {
        seq![]
    } else {
        finder_rows(r, items, ranked, cursor, n - 1) + finder_row(
            r,
            items[ranked[n - 1].0 as int],
            n - 1,
            cursor,
        )
    }
}

/// What the finder puts into its box: its head, and as many of the best rows as have room.
pub open spec fn finder_drawing(state: FinderState, r: Rect, ranked: Seq<(usize, u32)>) -> DrawingV {
    DrawingV {
        paints: finder_head(r, state.state_filter, state.input@) + finder_rows(
            r,
            state.rows(),
            ranked,
            state.cursor as int,
            at_most(ranked.len() as int, box_rows(r)),
        ),
        cursor: (
            (r.x + 2 + visible(state.input@, r.width - 4).len()) as u16,
            (r.y + 2) as u16,
        ),
    }
}

fn put_row(out: &mut Vec<Paint>, r: Rect, item: &FinderItem, row: u16, selected: bool)
    requires
        crate::paint::countable(r),
        r.width >= 30,
        row < box_rows(r),
    ensures
        paints(final(out)@) == paints(old(out)@) + finder_row(
            r,
            item@,
            row as int,
            if selected {
                row as int
            } else {
                row + 1
            },
        ),
{
    let style: Style = if selected {
        Style::on(242, 255).bold()
    } else {
        Style::on(236, 252)
    };
    let y: u16 = r.y + ROWS_TOP_OFFSET + row;
    let room: usize = r.width as usize - 4;
    fill(out, Rect { x: r.x + 1, y, width: r.width - 2, height: 1 }, " ", style);
    put_text(out, r.x + 1, y, letter_for(item.agent_state), 1, style.shaded(244));
    put_text(out, r.x + 3, y, truncate(item.label.as_str(), room).as_str(), room, style);
    assert(paints(out@) =~= paints(old(out)@) + finder_row(
        r,
        item@,
        row as int,
        if selected {
            row as int
        } else {
            row + 1
        },
    ));
}

proof fn lemma_filter_text(f: StateFilter)
    ensures
        filter_text(f).len() <= 20,
{
    reveal_strlit("[");
    reveal_strlit(": B W I D A]");
    reveal_strlit("all");
    reveal_strlit("working");
    reveal_strlit("blocked");
    reveal_strlit("idle");
    reveal_strlit("done");
}

fn put_head(out: &mut Vec<Paint>, r: Rect, f: StateFilter, shown: &str)
    requires
        crate::paint::countable(r),
        r.width >= 30,
        r.height >= 4,
    ensures
        forall|query: Seq<char>|
            shown@ == visible(query, r.width - 4) ==> paints(final(out)@) == paints(old(out)@)
                + #[trigger] finder_head(r, f, query),
{
    let base: Style = Style::on(236, 252);
    let quiet: Style = base.shaded(244);
    let typed: Style = Style::on(233, 255);
    let room: usize = r.width as usize - 4;
    let mut label: String = "[".to_string();
    label.append(f.label());
    label.append(": B W I D A]");
    proof {
        lemma_filter_text(f);
    }
    let len: usize = label.as_str().unicode_len();
    let label_x: u16 = r.x + saturating(r.width, len as u16 + 2);
    fill(out, r, " ", base);
    draw_border(out, r, quiet);
    put_text(out, r.x + 2, r.y + 1, "Find", 4, base.shaded(255).bold());
    put_text(out, label_x, r.y + 1, label.as_str(), len, quiet);
    fill(out, Rect { x: r.x + 2, y: r.y + 2, width: r.width - 4, height: 1 }, " ", typed);
    put_text(out, r.x + 2, r.y + 2, shown, room, typed);
    proof {
        assert forall|query: Seq<char>| shown@ == visible(query, r.width - 4) implies paints(out@)
            == paints(old(out)@) + #[trigger] finder_head(r, f, query) by {
            assert(paints(out@) =~= paints(old(out)@) + finder_head(r, f, query));
        }
    }
}

/// Draws the finder; nothing where the screen has no room for it.
pub fn draw(state: &FinderState, screen: Rect) -> (d: Option<Drawing>)
    ensures
        match d {
            None => finder_box(screen) is None,
            Some(d) => finder_box(screen) is Some && exists|ranked: Seq<(usize, u32)>|
                #[trigger] ranking(state.hits(), ranked) && d@ == finder_drawing(
                    *state,
                    finder_box(screen)->0,
                    ranked,
                ),
        },
{
    let r: Rect = match finder_rect(screen) {
        None => {
            return None;
        },
        Some(r) => r,
    };
    let mut out: Vec<Paint> = Vec::new();
    let (shown, column) = state.input.visible_text_and_cursor(r.width as usize - 4);
    put_head(&mut out, r, state.state_filter, shown.as_str());
    let ghost top = finder_head(r, state.state_filter, state.input@);
    assert(paints(out@) =~= top);
    let ranked: Vec<(usize, u32)> = state.ranked();
    let room: u16 = saturating(r.height, ROWS_TOP_OFFSET + 1);
    let mut i: usize = 0;
    assert(top + finder_rows(r, state.rows(), ranked@, state.cursor as int, 0) =~= top);
    while i < ranked.len() && i < room as usize
        invariant
            crate::paint::countable(r),
            r.width >= 30,
            room == box_rows(r),
            i <= ranked.len(),
            i <= room,
            forall|k: int| 0 <= k < ranked.len() ==> (#[trigger] ranked@[k]).0 < state.items.len(),
            paints(out@) == top + finder_rows(
                r,
                state.rows(),
                ranked@,
                state.cursor as int,
                i as int,
            ),
        decreases ranked.len() - i,
    {
        assert(ranked@[i as int].0 < state.items.len());
        let item: &FinderItem = &state.items[ranked[i].0];
        let ghost before = finder_rows(r, state.rows(), ranked@, state.cursor as int, i as int);
        put_row(&mut out, r, item, i as u16, i == state.cursor);
        proof {
            let one = finder_row(r, item@, i as int, state.cursor as int);
            assert(state.rows()[ranked@[i as int].0 as int] == item@);
            assert(finder_rows(r, state.rows(), ranked@, state.cursor as int, i + 1) == before
                + one);
            assert((top + before) + one =~= top + (before + one));
        }
        i = i + 1;
    }
    let d: Drawing = Drawing {
        paints: out,
        cursor: (r.x + 2 + column as u16, r.y + 2),
    };
    proof {
        assert(i == at_most(ranked.len() as int, box_rows(r)));
        assert(ranking(state.hits(), ranked@));
    }
    Some(d)
}

proof fn lemma_rows_stay(
    r: Rect,
    items: Seq<ItemV>,
    ranked: Seq<(usize, u32)>,
    cursor: int,
    n: int,
)
    requires
        r.width >= 30,
        crate::paint::countable(r),
        0 <= n <= box_rows(r),
    ensures
        all_stay_in(finder_rows(r, items, ranked, cursor, n), r),
    decreases n,
{
    if 0 < n && n <= ranked.len() {
        lemma_rows_stay(r, items, ranked, cursor, n - 1);
        let before = finder_rows(r, items, ranked, cursor, n - 1);
        let one = finder_row(r, items[ranked[n - 1].0 as int], n - 1, cursor);
        let all = finder_rows(r, items, ranked, cursor, n);
        assert(all_stay_in(one, r));
        assert forall|i: int| 0 <= i < all.len() implies stays_in(#[trigger] all[i], r) by {
            if i < before.len() {
                assert(all[i] == before[i]);
            } else {
                assert(all[i] == one[i - before.len()]);
            }
        }
    }
}

/// Nothing is painted outside of the box of the finder, and the cursor stands in it.
pub proof fn law_finder_stays(state: FinderState, screen: Rect, ranked: Seq<(usize, u32)>)
    requires
        finder_box(screen) is Some,
    ensures
        all_stay_in(finder_drawing(state, finder_box(screen)->0, ranked).paints, finder_box(screen)->0),
        finder_box(screen)->0.covers(
            finder_drawing(state, finder_box(screen)->0, ranked).cursor.0 as int,
            finder_drawing(state, finder_box(screen)->0, ranked).cursor.1 as int,
        ),
{
    let r = finder_box(screen)->0;
    lemma_filter_text(state.state_filter);
    let n = at_most(ranked.len() as int, box_rows(r));
    lemma_rows_stay(r, state.rows(), ranked, state.cursor as int, n);
    let top = finder_head(r, state.state_filter, state.input@);
    let rows = finder_rows(r, state.rows(), ranked, state.cursor as int, n);
    let all = finder_drawing(state, r, ranked).paints;
    let edge = border(r, shaded(box_style(), 244));
    assert(all_stay_in(edge, r));
    assert forall|i: int| 0 <= i < top.len() implies stays_in(#[trigger] top[i], r) by {
        if 1 <= i <= edge.len() {
            assert(top[i] == edge[i - 1]);
        }
    }
    assert forall|i: int| 0 <= i < all.len() implies stays_in(#[trigger] all[i], r) by {
        if i < top.len() {
            assert(all[i] == top[i]);
        } else {
            assert(all[i] == rows[i - top.len()]);
        }
    }
}

/// Letters are compared without regard to case, and only the letters of ASCII have one.
pub proof fn law_letters(a: char, b: char)
    ensures
        65 <= a as int <= 90 && b as int == a as int + 32 ==> lower(a) == lower(b),
        lower(a) == lower(b) ==> a == b || (65 <= a as int <= 90 && b as int == a as int + 32) || (65
            <= b as int <= 90 && a as int == b as int + 32),
{
}

/// Whether a query's letters stand at these places of a text, each at the first place behind the
/// letter before it.
pub open spec fn placed_first(query: Seq<char>, hay: Seq<char>, at: Seq<int>, from: int) -> bool {
    &&& at.len() == query.len()
    &&& forall|k: int|
        0 <= k < at.len() ==> (if k == 0 {
            from
        } else {
            at[k - 1] + 1
        }) <= #[trigger] at[k] < hay.len() && lower(hay[at[k]]) == lower(query[k])
    &&& forall|k: int, j: int|
        0 <= k < at.len() && (if k == 0 {
            from
        } else {
            at[k - 1] + 1
        }) <= j < at[k] ==> lower(#[trigger] hay[j]) != lower(#[trigger] query[k])
}

/// The score of a query is the number of letters between its first and its last that it passes
/// over.
pub proof fn law_score_counts_gaps(query: Seq<char>, hay: Seq<char>, at: Seq<int>)
    requires
        query.len() > 0,
        placed_first(query, hay, at, 0),
        hay.len() <= u32::MAX,
    ensures
        score_of(query, hay) == Some((at.last() - at[0] + 1 - query.len()) as u32),
        at.last() - at[0] + 1 >= query.len(),
{
    assert(0 <= at[0] < hay.len());
    lemma_letter_first(query[0], hay, 0, at[0]);
    lemma_last_placed(query, hay, at, 0);
    lemma_far_apart(at, at.len() - 1);
    assert(0 <= at[at.len() - 1] < hay.len());
}

proof fn lemma_far_apart(at: Seq<int>, n: int)
    requires
        0 <= n < at.len(),
        forall|k: int| 0 < k < at.len() ==> at[k - 1] + 1 <= #[trigger] at[k],
    ensures
        at[n] - at[0] >= n,
    decreases n,
{
    if n > 0 {
        lemma_far_apart(at, n - 1);
        assert(at[n - 1] + 1 <= at[n]);
    }
}

proof fn lemma_letter_first(c: char, hay: Seq<char>, from: int, i: int)
    requires
        0 <= from <= i < hay.len(),
        lower(hay[i]) == lower(c),
        forall|j: int| from <= j < i ==> lower(#[trigger] hay[j]) != lower(c),
    ensures
        letter_from(c, hay, from) == Some(i),
    decreases i - from,
{
    if from < i {
        assert(lower(hay[from]) != lower(c));
        lemma_letter_first(c, hay, from + 1, i);
    }
}

proof fn lemma_last_placed(query: Seq<char>, hay: Seq<char>, at: Seq<int>, from: int)
    requires
        query.len() > 0,
        0 <= from,
        placed_first(query, hay, at, from),
    ensures
        last_letter(query, hay, from) == Some(at.last()),
    decreases query.len(),
{
    assert(from <= at[0] < hay.len());
    assert forall|j: int| from <= j < at[0] implies lower(#[trigger] hay[j]) != lower(
        query[0],
    ) by {
        assert(lower(hay[j]) != lower(query[0]));
    }
    lemma_letter_first(query[0], hay, from, at[0]);
    if query.len() > 1 {
        let rest = query.skip(1);
        let behind = at.skip(1);
        assert forall|k: int| 0 <= k < behind.len() implies (if k == 0 {
            at[0] + 1
        } else {
            behind[k - 1] + 1
        }) <= #[trigger] behind[k] < hay.len() && lower(hay[behind[k]]) == lower(rest[k]) by {
            assert(at[k + 1] == behind[k]);
        }
        assert forall|k: int, j: int|
            0 <= k < behind.len() && (if k == 0 {
                at[0] + 1
            } else {
                behind[k - 1] + 1
            }) <= j < behind[k] implies lower(#[trigger] hay[j]) != lower(#[trigger] rest[k]) by {
            assert(rest[k] == query[k + 1]);
            assert(lower(hay[j]) != lower(query[k + 1]));
        }
        lemma_last_placed(rest, hay, behind, at[0] + 1);
    }
}

/// An item is found by its label, and by the session of its agent only where the label does not
/// hold the query.
pub proof fn law_item_score(item: ItemV, query: Seq<char>)
    ensures
        score_of(query, item.label) is Some ==> item_score(item, query) == score_of(
            query,
            item.label,
        ),
        score_of(query, item.label) is None && item.agent_session is None ==> item_score(
            item,
            query,
        ) is None,
        score_of(query, item.label) is None ==> (item.agent_session matches Some(s) ==> item_score(
            item,
            query,
        ) == score_of(query, s)),
{
}

/// A filter keeps the items of agents whose state has its name; the filter `all` keeps every one.
pub proof fn law_filter_by_name(f: StateFilter, state: Option<AgentState>)
    ensures
        filter_keeps(f, state) <==> f == StateFilter::All || (state is Some
            && crate::model::agent_state_of(filter_label(f)) == state),
        f != StateFilter::All ==> crate::model::agent_state_of(filter_label(f)) is Some,
        filter_label(StateFilter::All) == "all"@,
{
    reveal_strlit("all");
    reveal_strlit("working");
    reveal_strlit("blocked");
    reveal_strlit("idle");
    reveal_strlit("done");
    reveal_strlit("unknown");
    assert("all"@.len() == 3 && "working"@.len() == 7 && "blocked"@.len() == 7 && "unknown"@.len()
        == 7);
    assert("working"@[0] == 'w' && "blocked"@[0] == 'b' && "unknown"@[0] == 'u');
    assert("idle"@.len() == 4 && "done"@.len() == 4 && "idle"@[0] == 'i' && "done"@[0] == 'd');
}

/// A better score comes first, and of two that are equally good the one that stood first; every
/// row is kept.
pub proof fn law_best_first(rows: Seq<(usize, u32)>, out: Seq<(usize, u32)>, i: int, j: int)
    requires
        ranking(rows, out),
        0 <= i < j < out.len(),
    ensures
        out.len() == rows.len(),
        out[i].1 <= out[j].1,
        exists|from: Seq<int>|
            from.no_duplicates() && #[trigger] from.len() == rows.len() && (forall|k: int|
                0 <= k < from.len() ==> 0 <= #[trigger] from[k] < rows.len() && out[k]
                    == rows[from[k]]) && (out[i].1 == out[j].1 ==> from[i] < from[j]),
{
    let order = choose|order: Seq<usize>|
        #[trigger] ordering(scores(rows), order) && out == picked(rows, order);
    assert(crate::order::comes_first(scores(rows), order[i], order[j]));
    let from = order.map_values(|k: usize| k as int);
    assert(from.no_duplicates()) by {
        assert forall|a: int, b: int|
            0 <= a < from.len() && 0 <= b < from.len() && a != b implies from[a] != from[b] by {
            assert(order[a] != order[b]);
        }
    }
    assert(from.len() == rows.len());
}

/// What there is to find, in the order of the tree: a workspace before its panes, a pane before its
/// tabs, each with the number behind which it stands and the name it is shown under.
pub proof fn law_items_listed(
    ws: Seq<WorkspaceT>,
    w: WorkspaceT,
    screens: Seq<ScreenT>,
    s: ScreenT,
    panes: Seq<PaneT>,
    p: PaneT,
    t: TabT,
    i: int,
)
    requires
        0 <= i < p.tabs.len(),
    ensures
        tree_items(ws.push(w)) == tree_items(ws) + seq![workspace_item(w)] + screen_items(
            w.screens,
        ),
        screen_items(screens.push(s)) == screen_items(screens) + pane_items(s.panes),
        pane_items(panes.push(p)).len() == pane_items(panes).len() + 1 + p.tabs.len(),
        pane_items(panes).is_prefix_of(pane_items(panes.push(p))),
        pane_items(panes.push(p))[pane_items(panes).len() as int] == pane_item(p),
        pane_items(panes.push(p))[pane_items(panes).len() + 1 + i] == tab_item(p.tabs[i]),
        tree_items(seq![]).len() == 0 && screen_items(seq![]).len() == 0,
        pane_items(seq![]).len() == 0,
        workspace_item(w).target == FinderTarget::Workspace(w.id),
        workspace_item(w).label == "#"@ + w.short_id + " "@ + w.name,
        pane_item(p).target == FinderTarget::Pane(p.id),
        p.name matches Some(n) ==> pane_item(p).label == "#"@ + p.short_id + " "@ + n,
        p.name is None ==> pane_item(p).label == "#"@ + p.short_id + " "@ + p.shown_name(),
        tab_item(t).target == FinderTarget::Surface(t.surface),
        tab_item(t).label == "#"@ + t.short_id + " "@ + t.shown_title(),
        tab_item(t).agent_session == t.agent_session,
        tab_item(t).agent_state == t.agent_state,
        workspace_item(w).agent_session is None && workspace_item(w).agent_state is None,
        pane_item(p).agent_session is None && pane_item(p).agent_state is None,
{
    assert(ws.push(w).drop_last() =~= ws);
    assert(screens.push(s).drop_last() =~= screens);
    assert(panes.push(p).drop_last() =~= panes);
    assert(tree_items(ws) + (seq![workspace_item(w)] + screen_items(w.screens)) =~= tree_items(ws)
        + seq![workspace_item(w)] + screen_items(w.screens));
    let all = pane_items(panes.push(p));
    assert(all.take(pane_items(panes).len() as int) =~= pane_items(panes));
}

/// What is drawn for an item that is found: its letter and its label, on the row of its rank, and
/// on the row of the cursor in the style of the selection.
pub proof fn law_row_drawn(
    r: Rect,
    items: Seq<ItemV>,
    ranked: Seq<(usize, u32)>,
    cursor: int,
    n: int,
    k: int,
)
    requires
        0 <= k < n <= ranked.len(),
    ensures
        ({
            let all = finder_rows(r, items, ranked, cursor, n);
            let item = items[ranked[k].0 as int];
            &&& all.len() == 3 * n
            &&& all[3 * k + 1] matches PaintV::Text { x, y, text, style, .. } && x == (r.x + 1)
                as u16 && y == (r.y + 4 + k) as u16 && text == state_letter(item.agent_state)
                && style.bold == (k == cursor)
            &&& all[3 * k + 2] matches PaintV::Text { x, y, text, style, .. } && x == (r.x + 3)
                as u16 && y == (r.y + 4 + k) as u16 && text == shortened(
                item.label,
                r.width - 4,
            ) && style.bold == (k == cursor)
        }),
    decreases n,
{
    let front = finder_rows(r, items, ranked, cursor, n - 1);
    let last = finder_row(r, items[ranked[n - 1].0 as int], n - 1, cursor);
    let all = finder_rows(r, items, ranked, cursor, n);
    assert(all == front + last);
    if n > 1 {
        law_row_drawn(
            r,
            items,
            ranked,
            cursor,
            n - 1,
            if k < n - 1 {
                k
            } else {
                0
            },
        );
    }
    assert(front.len() == 3 * (n - 1));
    if k < n - 1 {
        assert(all[3 * k + 1] == front[3 * k + 1]);
        assert(all[3 * k + 2] == front[3 * k + 2]);
    } else {
        assert(all[3 * k + 1] == last[1]);
        assert(all[3 * k + 2] == last[2]);
    }
}

/// The letter of a state is the first of its name, in capitals.
pub proof fn law_state_letters(s: AgentState, name: Seq<char>)
    requires
        crate::model::agent_state_of(name) == Some(s),
        s != AgentState::Unknown,
    ensures
        state_letter(Some(s)).len() == 1,
        state_letter(Some(s))[0] as int == name[0] as int - 32,
        state_letter(None) == " "@,
        state_letter(Some(AgentState::Unknown)) == "?"@,
{
    reveal_strlit("working");
    reveal_strlit("blocked");
    reveal_strlit("idle");
    reveal_strlit("done");
    reveal_strlit("W");
    reveal_strlit("B");
    reveal_strlit("I");
    reveal_strlit("D");
    assert("working"@[0] == 'w' && "blocked"@[0] == 'b');
    assert("idle"@[0] == 'i' && "done"@[0] == 'd');
    assert("W"@.len() == 1 && "B"@.len() == 1 && "I"@.len() == 1 && "D"@.len() == 1);
    assert("W"@[0] == 'W' && "B"@[0] == 'B' && "I"@[0] == 'I' && "D"@[0] == 'D');
}

/// The box of the finder: as wide and high as it may be with a cell free on each side of the
/// screen, but not narrower or lower than it can be; a screen that is too small has none.
pub proof fn law_box_sizes(screen: Rect)
    ensures
        finder_box(screen) is Some <==> screen.width >= 30 && screen.height >= 4,
        screen.width >= 62 && screen.height >= 16 ==> (finder_box(screen) matches Some(r) && r.width
            == 60 && r.height == 14),
        finder_box(screen) matches Some(r) ==> 30 <= r.width <= 60 && 4 <= r.height <= 14 && (
        screen.width >= 32 ==> r.width <= screen.width - 2) && (screen.height >= 6 ==> r.height
            <= screen.height - 2) && (r.width < 60 && screen.width >= 32 ==> r.width
            == screen.width - 2) && (r.height < 14 && screen.height >= 6 ==> r.height
            == screen.height - 2),
{
}

} // verus!
