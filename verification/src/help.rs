//! The help overlay: every key binding in one list that can be searched and scrolled.

use vstd::prelude::*;

use crate::finder::{at_least, at_most, box_style, fuzzy_score, score_of, selected_style};
use crate::input::{visible, TextInput};
use crate::model::Rect;
use crate::order::{ordering, picked, sort_positions, Ordered};
use crate::paint::{
    all_stay_in, border, draw_border, fill, filled, on, paints, put_text, shaded, shortened,
    stays_in, truncate, written, Drawing, DrawingV, Paint, PaintV, Style,
};
use crate::text::{
    join, joined, le, lemma_le_antisymmetric, lemma_le_total, lemma_le_trans, owned, same, text_le,
    texts,
};

verus! {

/// How far the first row stands below the top of the box.
pub const ROWS_TOP_OFFSET: u16 = 4;

/// What a key does: how it is called, and how the configuration calls it.
#[derive(Debug)]
pub struct Action {
    pub display_name: String,
    pub config_key: String,
}

impl Action {
    pub fn display_name(&self) -> (r: &str)
        ensures
            r@ == self.display_name@,
    {
        self.display_name.as_str()
    }

    pub fn config_key(&self) -> (r: &str)
        ensures
            r@ == self.config_key@,
    {
        self.config_key.as_str()
    }
}

/// A group of actions; the groups are shown by rank.
#[derive(Debug)]
pub struct HelpCategory {
    pub rank: usize,
    pub label: String,
}

/// A row of the help.
#[derive(Debug)]
pub struct HelpEntry {
    pub chord: String,
    pub action: Action,
    pub description: String,
    pub category: HelpCategory,
}

pub struct EntryV {
    pub chord: Seq<char>,
    pub name: Seq<char>,
    pub config_key: Seq<char>,
    pub description: Seq<char>,
    pub rank: usize,
    pub category: Seq<char>,
}

impl View for HelpEntry {
    type V = EntryV;

    open spec fn view(&self) -> EntryV {
        EntryV {
            chord: self.chord@,
            name: self.action.display_name@,
            config_key: self.action.config_key@,
            description: self.description@,
            rank: self.category.rank,
            category: self.category.label@,
        }
    }
}

pub open spec fn entries_view(list: Seq<HelpEntry>) -> Seq<EntryV> {
    list.map_values(|e: HelpEntry| e@)
}

// ---- the list -----------------------------------------------------------------------------

/// What the rows are sorted by.
pub struct EntryKey {
    pub rank: usize,
    pub chord: String,
    pub name: String,
}

/// The order of the rows: by category, then by chord, then by name.
pub open spec fn key_le(
    a: (usize, Seq<char>, Seq<char>),
    b: (usize, Seq<char>, Seq<char>),
) -> bool {
    if a.0 != b.0 {
        a.0 < b.0
    } else if a.1 != b.1 {
        text_le(a.1, b.1)
    } else {
        text_le(a.2, b.2)
    }
}

impl EntryKey {
    pub open spec fn parts(self) -> (usize, Seq<char>, Seq<char>) {
        (self.rank, self.chord@, self.name@)
    }
}

impl Ordered for EntryKey {
    open spec fn before(&self, other: &Self) -> bool {
        key_le(self.parts(), other.parts())
    }

    proof fn total(a: &Self, b: &Self) {
        lemma_le_total(a.chord@, b.chord@);
        lemma_le_total(a.name@, b.name@);
    }

    proof fn transitive(a: &Self, b: &Self, c: &Self) {
        if a.rank == b.rank && b.rank == c.rank {
            if a.chord@ == b.chord@ && b.chord@ == c.chord@ {
                lemma_le_trans(a.name@, b.name@, c.name@);
            } else if a.chord@ != b.chord@ && b.chord@ != c.chord@ {
                lemma_le_trans(a.chord@, b.chord@, c.chord@);
                if a.chord@ == c.chord@ {
                    lemma_le_antisymmetric(a.chord@, b.chord@);
                }
            }
        }
    }

    fn goes_before(&self, other: &Self) -> (r: bool) {
        if self.rank != other.rank {
            self.rank < other.rank
        } else if !same(self.chord.as_str(), other.chord.as_str()) {
            le(self.chord.as_str(), other.chord.as_str())
        } else {
            le(self.name.as_str(), other.name.as_str())
        }
    }
}

/// Whether `out` is the list of bindings in the order of the help.
pub open spec fn entries_in_order(bindings: Seq<EntryV>, out: Seq<EntryV>) -> bool {
    exists|keys: Seq<EntryKey>, order: Seq<usize>|
        {
            &&& keys.len() == bindings.len()
            &&& forall|i: int|
                0 <= i < bindings.len() ==> (#[trigger] keys[i]).parts() == (
                    bindings[i].rank,
                    bindings[i].chord,
                    bindings[i].name,
                )
            &&& #[trigger] ordering(keys, order)
            &&& out == picked(bindings, order)
        }
}

fn copy_entry(e: &HelpEntry) -> (r: HelpEntry)
    ensures
        r@ == e@,
{
    HelpEntry {
        chord: owned(e.chord.as_str()),
        action: Action {
            display_name: owned(e.action.display_name.as_str()),
            config_key: owned(e.action.config_key.as_str()),
        },
        description: owned(e.description.as_str()),
        category: HelpCategory { rank: e.category.rank, label: owned(e.category.label.as_str()) },
    }
}

/// One row for every binding, by category, chord and name.
pub fn build_entries(bindings: &Vec<HelpEntry>) -> (out: Vec<HelpEntry>)
    ensures
        entries_in_order(entries_view(bindings@), entries_view(out@)),
        out.len() == bindings.len(),
{
    let mut keys: Vec<EntryKey> = Vec::new();
    let mut i: usize = 0;
    while i < bindings.len()
        invariant
            i <= bindings.len(),
            keys.len() == i,
            forall|k: int|
                0 <= k < i ==> (#[trigger] keys@[k]).parts() == (
                    bindings@[k]@.rank,
                    bindings@[k]@.chord,
                    bindings@[k]@.name,
                ),
        decreases bindings.len() - i,
    {
        let b: &HelpEntry = &bindings[i];
        keys.push(
            EntryKey {
                rank: b.category.rank,
                chord: owned(b.chord.as_str()),
                name: owned(b.action.display_name.as_str()),
            },
        );
        i = i + 1;
    }
    let order: Vec<usize> = sort_positions(&keys);
    let mut out: Vec<HelpEntry> = Vec::new();
    let mut k: usize = 0;
    while k < order.len()
        invariant
            k <= order.len(),
            forall|j: int| 0 <= j < order.len() ==> #[trigger] order@[j] < bindings.len(),
            out.len() == k,
            forall|j: int| 0 <= j < k ==> (#[trigger] out@[j])@ == bindings@[order@[j] as int]@,
        decreases order.len() - k,
    {
        assert(order@[k as int] < bindings.len());
        out.push(copy_entry(&bindings[order[k]]));
        k = k + 1;
    }
    proof {
        assert(entries_view(out@) =~= picked(entries_view(bindings@), order@));
        assert(ordering(keys@, order@));
        assert forall|j: int| 0 <= j < entries_view(bindings@).len() implies (
        #[trigger] keys@[j]).parts() == (
            entries_view(bindings@)[j].rank,
            entries_view(bindings@)[j].chord,
            entries_view(bindings@)[j].name,
        ) by {
            assert(entries_view(bindings@)[j] == bindings@[j]@);
        }
    }
    out
}

/// The rows of the help stand by category and, within one, by chord.
pub proof fn law_entries_grouped(bindings: Seq<EntryV>, out: Seq<EntryV>, i: int, j: int)
    requires
        entries_in_order(bindings, out),
        0 <= i < j < out.len(),
    ensures
        out[i].rank <= out[j].rank,
        out[i].rank == out[j].rank ==> text_le(out[i].chord, out[j].chord),
        bindings.len() == out.len(),
{
    let (keys, order) = choose|keys: Seq<EntryKey>, order: Seq<usize>|
        {
            &&& keys.len() == bindings.len()
            &&& forall|i: int|
                0 <= i < bindings.len() ==> (#[trigger] keys[i]).parts() == (
                    bindings[i].rank,
                    bindings[i].chord,
                    bindings[i].name,
                )
            &&& #[trigger] ordering(keys, order)
            &&& out == picked(bindings, order)
        };
    assert(crate::order::comes_first(keys, order[i], order[j]));
    assert(keys[order[i] as int].before(&keys[order[j] as int]));
    lemma_le_total(out[i].chord, out[i].chord);
}

// ---- searching ----------------------------------------------------------------------------

/// The score of a row: that of the first of its name, its configuration key, its description
/// and its chord that matches.
pub open spec fn entry_score(e: EntryV, query: Seq<char>) -> Option<u32> {
    match score_of(query, e.name) {
        Some(s) => Some(s),
        None => match score_of(query, e.config_key) {
            Some(s) => Some(s),
            None => match score_of(query, e.description) {
                Some(s) => Some(s),
                None => score_of(query, e.chord),
            },
        },
    }
}

/// The rows that match, in the order of the list, each with its position and its score.
pub open spec fn entries_matching(items: Seq<EntryV>, query: Seq<char>) -> Seq<(usize, u32)>
    decreases items.len(),
{
    if items.len() == 0 {
        seq![]
    } else {
        let front = entries_matching(items.drop_last(), query);
        match entry_score(items.last(), query) {
            Some(s) => front.push(((items.len() - 1) as usize, s)),
            None => front,
        }
    }
}

/// How many of the rows are shown at a time.
pub open spec fn shown_rows(len: int, rows_visible: int) -> int {
    at_most(at_least(rows_visible, 1), len)
}

/// The cursor and the first row shown, brought back into a list of `len` rows.
pub open spec fn clamped(cursor: int, scroll: int, len: int, rows_visible: int) -> (int, int) {
    if len == 0 {
        (0, 0)
    } else {
        let at = at_most(cursor, len - 1);
        let visible = shown_rows(len, rows_visible);
        let top = if at < scroll {
            at
        } else {
            scroll
        };
        let top = if at >= top + visible {
            at + 1 - visible
        } else {
            top
        };
        (at, at_most(top, len - visible))
    }
}

/// What was brought back into the list is in it, and stays where it is brought back again.
pub proof fn law_clamped_once(cursor: int, scroll: int, len: int, rows_visible: int)
    requires
        0 <= cursor,
        0 <= scroll,
        0 <= len,
        0 <= rows_visible,
    ensures
        ({
            let (at, top) = clamped(cursor, scroll, len, rows_visible);
            &&& 0 <= top <= at
            &&& len > 0 ==> at < len && at < top + shown_rows(len, rows_visible) <= len
            &&& clamped(at, top, len, rows_visible) == (at, top)
        }),
{
}

/// The cursor moved by some rows, but not out of the list.
pub open spec fn cursor_moved(cursor: int, delta: int, len: int) -> int {
    at_most(at_least(cursor + delta, 0), len - 1)
}

/// The first row shown, moved by some rows, and the cursor kept among the rows shown.
pub open spec fn scrolled(cursor: int, scroll: int, delta: int, len: int, rows_visible: int) -> (
    int,
    int,
) {
    if len == 0 {
        (0, 0)
    } else {
        let visible = shown_rows(len, rows_visible);
        let top = if delta < 0 {
            at_least(scroll + delta, 0)
        } else {
            at_most(scroll + delta, len - visible)
        };
        (at_most(at_least(cursor, top), top + visible - 1), top)
    }
}

#[derive(Debug)]
pub struct HelpState {
    pub input: TextInput,
    pub cursor: usize,
    pub scroll: usize,
    pub items: Vec<HelpEntry>,
}

impl HelpState {
    pub open spec fn hits(self) -> Seq<(usize, u32)> {
        entries_matching(entries_view(self.items@), self.input@)
    }

    /// Whether the selected row is there and shown.
    pub open spec fn in_view(self, rows_visible: int) -> bool {
        let len = self.hits().len() as int;
        if len == 0 {
            self.cursor == 0 && self.scroll == 0
        } else {
            let visible = shown_rows(len, rows_visible);
            &&& self.cursor < len
            &&& self.scroll <= self.cursor < self.scroll + visible
            &&& self.scroll <= len - visible
        }
    }

    pub fn new(items: Vec<HelpEntry>) -> (r: HelpState)
        ensures
            r.items == items,
            r.input@.len() == 0,
            r.cursor == 0,
            r.scroll == 0,
    {
        HelpState { input: TextInput::new(String::new()), cursor: 0, scroll: 0, items }
    }

    pub fn rows_visible(screen: Rect) -> (r: usize)
        ensures
            r == visible_rows(screen),
    {
        rows_visible(screen)
    }

    /// The rows that match, in the order of the list.
    pub fn ranked(&self) -> (out: Vec<(usize, u32)>)
        ensures
            out@ == self.hits(),
            out.len() <= self.items.len(),
    {
        let query: &str = self.input.as_str();
        let mut out: Vec<(usize, u32)> = Vec::new();
        let ghost all = entries_view(self.items@);
        let mut i: usize = 0;
        while i < self.items.len()
            invariant
                i <= self.items.len(),
                all == entries_view(self.items@),
                query@ == self.input@,
                out.len() <= i,
                out@ == entries_matching(all.take(i as int), self.input@),
            decreases self.items.len() - i,
        {
            let e: &HelpEntry = &self.items[i];
            proof {
                assert(all[i as int] == e@);
                assert(all.take(i + 1).drop_last() =~= all.take(i as int));
                assert(all.take(i + 1).last() == e@);
            }
            let score: Option<u32> = match fuzzy_score(query, e.action.display_name()) {
                Some(s) => Some(s),
                None => match fuzzy_score(query, e.action.config_key()) {
                    Some(s) => Some(s),
                    None => match fuzzy_score(query, e.description.as_str()) {
                        Some(s) => Some(s),
                        None => fuzzy_score(query, e.chord.as_str()),
                    },
                },
            };
            if let Some(s) = score {
                out.push((i, s));
            }
            i = i + 1;
        }
        assert(all.take(all.len() as int) =~= all);
        out
    }

    pub fn set_query(&mut self, query: &str)
        ensures
            final(self).input@ == query@,
            final(self).cursor == 0,
            final(self).scroll == 0,
            final(self).items == old(self).items,
    {
        self.input = TextInput::new(owned(query));
        self.cursor = 0;
        self.scroll = 0;
    }

    /// Moves the cursor by some rows, within the list, and shows it.
    pub fn move_cursor(&mut self, delta: isize, rows_visible: usize)
        ensures
            ({
                let len = old(self).hits().len() as int;
                let at = cursor_moved(old(self).cursor as int, delta as int, len);
                (final(self).cursor as int, final(self).scroll as int) == clamped(
                    at,
                    old(self).scroll as int,
                    len,
                    rows_visible as int,
                )
            }),
            final(self).items == old(self).items,
            final(self).input == old(self).input,
            final(self).in_view(rows_visible as int),
    {
        let len: usize = self.ranked().len();
        if len == 0 {
            self.cursor = 0;
            self.scroll = 0;
            return ;
        }
        let at: i128 = self.cursor as i128 + delta as i128;
        self.cursor = if at < 0 {
            0
        } else if at > (len - 1) as i128 {
            len - 1
        } else {
            at as usize
        };
        self.clamp(rows_visible);
    }

    /// Moves the rows that are shown, and the cursor with them where it would leave them.
    pub fn scroll_by(&mut self, delta: isize, rows_visible: usize)
        requires
            old(self).scroll + old(self).items.len() <= usize::MAX,
        ensures
            (final(self).cursor as int, final(self).scroll as int) == scrolled(
                old(self).cursor as int,
                old(self).scroll as int,
                delta as int,
                old(self).hits().len() as int,
                rows_visible as int,
            ),
            final(self).items == old(self).items,
            final(self).input == old(self).input,
            old(self).in_view(rows_visible as int) ==> final(self).in_view(rows_visible as int),
    {
        let len: usize = self.ranked().len();
        if len == 0 {
            self.cursor = 0;
            self.scroll = 0;
            return ;
        }
        let wanted: usize = if rows_visible < 1 {
            1
        } else {
            rows_visible
        };
        let visible: usize = if wanted < len {
            wanted
        } else {
            len
        };
        let max_scroll: usize = len - visible;
        let at: i128 = self.scroll as i128 + delta as i128;
        self.scroll = if delta < 0 {
            if at < 0 {
                0
            } else {
                at as usize
            }
        } else if at > max_scroll as i128 {
            max_scroll
        } else {
            at as usize
        };
        if self.cursor < self.scroll {
            self.cursor = self.scroll;
        }
        let last_visible: usize = self.scroll + (visible - 1);
        if self.cursor > last_visible {
            self.cursor = last_visible;
        }
    }

    /// Brings the cursor and the rows shown back into the list.
    pub fn clamp(&mut self, rows_visible: usize)
        ensures
            (final(self).cursor as int, final(self).scroll as int) == clamped(
                old(self).cursor as int,
                old(self).scroll as int,
                old(self).hits().len() as int,
                rows_visible as int,
            ),
            final(self).items == old(self).items,
            final(self).input == old(self).input,
            final(self).in_view(rows_visible as int),
    {
        let len: usize = self.ranked().len();
        if len == 0 {
            self.cursor = 0;
            self.scroll = 0;
            return ;
        }
        if self.cursor > len - 1 {
            self.cursor = len - 1;
        }
        let wanted: usize = if rows_visible < 1 {
            1
        } else {
            rows_visible
        };
        let visible: usize = if wanted < len {
            wanted
        } else {
            len
        };
        let max_scroll: usize = len - visible;
        if self.cursor < self.scroll {
            self.scroll = self.cursor;
        }
        if self.cursor - self.scroll >= visible {
            self.scroll = self.cursor - (visible - 1);
        }
        if self.scroll > max_scroll {
            self.scroll = max_scroll;
        }
    }
}

// ---- where it is drawn --------------------------------------------------------------------

/// The size of the box: ninety by thirty cells, or as much as the screen has.
pub open spec fn help_size(screen: Rect) -> (int, int) {
    (at_most(screen.width as int, 90), at_most(screen.height as int, 30))
}

/// Where the box starts: in the middle of the screen.
pub open spec fn help_corner(screen: Rect) -> (int, int) {
    let (width, height) = help_size(screen);
    (screen.x + (screen.width - width) / 2, screen.y + (screen.height - height) / 2)
}

/// The box of the help; none on a screen of less than sixty by fourteen cells.
pub open spec fn help_box(screen: Rect) -> Option<Rect> {
    if screen.width < 60 || screen.height < 14 {
        None
    } else {
        Some(
            Rect {
                x: help_corner(screen).0 as u16,
                y: help_corner(screen).1 as u16,
                width: help_size(screen).0 as u16,
                height: help_size(screen).1 as u16,
            },
        )
    }
}

/// Whether the corner of the box can be counted, where the screen has room for it.
pub open spec fn countable(screen: Rect) -> bool {
    help_box(screen) is Some ==> help_corner(screen).0 <= u16::MAX && help_corner(screen).1
        <= u16::MAX
}

pub fn help_rect(screen: Rect) -> (r: Option<Rect>)
    requires
        countable(screen),
    ensures
        r == help_box(screen),
{
    if screen.width < 60 || screen.height < 14 {
        return None;
    }
    let width: u16 = if screen.width < 90 {
        screen.width
    } else {
        90
    };
    let height: u16 = if screen.height < 30 {
        screen.height
    } else {
        30
    };
    Some(
        Rect {
            x: screen.x + (screen.width - width) / 2,
            y: screen.y + (screen.height - height) / 2,
            width,
            height,
        },
    )
}

/// How many rows a screen has room for.
pub open spec fn visible_rows(screen: Rect) -> int {
    if screen.width < 60 || screen.height < 14 {
        0
    } else {
        help_size(screen).1 - (ROWS_TOP_OFFSET + 1)
    }
}

pub fn rows_visible(screen: Rect) -> (r: usize)
    ensures
        r == visible_rows(screen),
{
    if screen.width < 60 || screen.height < 14 {
        return 0;
    }
    let height: u16 = if screen.height < 30 {
        screen.height
    } else {
        30
    };
    (height - (ROWS_TOP_OFFSET + 1)) as usize
}

/// The row that a cell belongs to, counted from the first row shown.
pub open spec fn row_of(screen: Rect, x: u16, y: u16, scroll: int) -> Option<int> {
    match help_box(screen) {
        None => None,
        Some(rect) => {
            let top = rect.y + ROWS_TOP_OFFSET;
            if rect.covers(x as int, y as int) && top <= y < top + visible_rows(screen) {
                Some(scroll + (y - top))
            } else {
                None
            }
        },
    }
}

pub fn help_row_at(screen: Rect, x: u16, y: u16, scroll: usize) -> (r: Option<usize>)
    requires
        countable(screen),
        scroll + visible_rows(screen) <= usize::MAX,
    ensures
        match r {
            Some(i) => row_of(screen, x, y, scroll as int) == Some(i as int),
            None => row_of(screen, x, y, scroll as int) is None,
        },
{
    match help_rect(screen) {
        None => None,
        Some(rect) => {
            if !rect.contains(x, y) {
                return None;
            }
            let down: u16 = y - rect.y;
            let rows_h: u16 = rect.height - (ROWS_TOP_OFFSET + 1);
            if down < ROWS_TOP_OFFSET || down - ROWS_TOP_OFFSET >= rows_h {
                return None;
            }
            Some(scroll + (down - ROWS_TOP_OFFSET) as usize)
        },
    }
}

/// A click on a row that is shown finds the row.
pub proof fn law_help_rows_hit(screen: Rect, x: u16, scroll: int, row: int)
    requires
        countable(screen),
        help_box(screen) is Some,
        help_box(screen)->0.x <= x < help_box(screen)->0.x + help_box(screen)->0.width,
        scroll <= row < scroll + visible_rows(screen),
        help_box(screen)->0.y + ROWS_TOP_OFFSET + (row - scroll) <= u16::MAX,
    ensures
        row_of(
            screen,
            x,
            (help_box(screen)->0.y + ROWS_TOP_OFFSET + (row - scroll)) as u16,
            scroll,
        ) == Some(row),
{
}

// ---- drawing ------------------------------------------------------------------------------

pub const HINT: &'static str = "/ filter  j/k move  PgUp/PgDn page  Esc/q close";

/// The head of the box: its title, the keys, what was typed, and the categories.
pub open spec fn help_head(r: Rect, query: Seq<char>, categories: Seq<Seq<char>>) -> Seq<PaintV> {
    let room = r.width - 4;
    let quiet = shaded(box_style(), 244);
    let label = "Filter: "@;
    seq![filled(r.x as int, r.y as int, r.width as int, r.height as int, " "@, box_style())]
        + border(r, quiet) + seq![
        written(r.x + 2, r.y + 1, "Help"@, 4, Style { bold: true, ..shaded(box_style(), 255) }),
        written(r.x + r.width - (HINT@.len() + 2), r.y + 1, HINT@, HINT@.len() as int, quiet),
        filled(r.x + 2, r.y + 2, room, 1, " "@, on(233, 255)),
        written(r.x + 2, r.y + 2, label, label.len() as int, on(233, 255)),
        written(
            r.x + 2 + label.len(),
            r.y + 2,
            visible(query, room - label.len()),
            room - label.len(),
            on(233, 255),
        ),
        written(r.x + 2, r.y + 3, joined(categories, "  "@), room, quiet),
    ]
}

/// A row of the box: the category, the chord, the name of the action, and what it does, each in
/// its column.
pub open spec fn help_row(r: Rect, e: EntryV, row: int, selected: bool) -> Seq<PaintV> {
    let style = if selected {
        selected_style()
    } else {
        box_style()
    };
    let category = if selected {
        style
    } else {
        Style { bold: true, ..shaded(style, 110) }
    };
    let y = r.y + ROWS_TOP_OFFSET + row;
    seq![
        filled(r.x + 1, y, r.width - 2, 1, " "@, style),
        written(r.x + 1, y, shortened(e.category, 10), 10, category),
        written(r.x + 12, y, shortened(e.chord, 12), 12, style),
        written(r.x + 25, y, shortened(e.name, 22), 22, style),
        written(r.x + 48, y, shortened(e.description, r.width - 49), r.width - 49, style),
    ]
}

/// The first `n` rows of the box.
pub open spec fn help_rows(
    r: Rect,
    items: Seq<EntryV>,
    ranked: Seq<(usize, u32)>,
    scroll: int,
    cursor: int,
    n: int,
) -> Seq<PaintV>
    decreases n,
{
    if n <= 0 || scroll + n > ranked.len() {
        seq![]
    } else {
        help_rows(r, items, ranked, scroll, cursor, n - 1) + help_row(
            r,
            items[ranked[scroll + n - 1].0 as int],
            n - 1,
            scroll + n - 1 == cursor,
        )
    }
}

/// What stands in the box where no row matches.
pub open spec fn help_empty(r: Rect, none: bool) -> Seq<PaintV> {
    if none {
        seq![
            written(
                r.x + 2,
                r.y + ROWS_TOP_OFFSET,
                "No bindings match the filter"@,
                r.width - 4,
                box_style(),
            ),
        ]
    } else {
        seq![]
    }
}

/// What the help puts into its box: its head, and the rows from the first one shown on, as many
/// as have room.
pub open spec fn help_drawing(state: HelpState, r: Rect, categories: Seq<Seq<char>>) -> DrawingV {
    let ranked = state.hits();
    let n = at_most(ranked.len() - state.scroll, r.height - (ROWS_TOP_OFFSET + 1));
    DrawingV {
        paints: help_head(r, state.input@, categories) + help_rows(
            r,
            entries_view(state.items@),
            ranked,
            state.scroll as int,
            state.cursor as int,
            n,
        ) + help_empty(r, ranked.len() == 0),
        cursor: (
            (r.x + 2 + "Filter: "@.len() + visible(
                state.input@,
                r.width - 4 - "Filter: "@.len(),
            ).len()) as u16,
            (r.y + 2) as u16,
        ),
    }
}

proof fn lemma_help_texts()
    ensures
        HINT@.len() == 47,
        "Filter: "@.len() == 8,
{
    reveal_strlit("/ filter  j/k move  PgUp/PgDn page  Esc/q close");
    reveal_strlit("Filter: ");
}

fn put_head(out: &mut Vec<Paint>, r: Rect, shown: &str, categories: &Vec<String>)
    requires
        crate::paint::countable(r),
        r.width >= 60,
        r.height >= 14,
    ensures
        forall|query: Seq<char>|
            shown@ == visible(query, r.width - 4 - "Filter: "@.len()) ==> paints(final(out)@)
                == paints(old(out)@) + #[trigger] help_head(r, query, texts(categories@)),
{
    let base: Style = Style::on(236, 252);
    let quiet: Style = base.shaded(244);
    let typed: Style = Style::on(233, 255);
    let room: usize = r.width as usize - 4;
    proof {
        lemma_help_texts();
    }
    fill(out, r, " ", base);
    draw_border(out, r, quiet);
    put_text(out, r.x + 2, r.y + 1, "Help", 4, base.shaded(255).bold());
    put_text(out, r.x + r.width - 49, r.y + 1, HINT, 47, quiet);
    fill(out, Rect { x: r.x + 2, y: r.y + 2, width: r.width - 4, height: 1 }, " ", typed);
    put_text(out, r.x + 2, r.y + 2, "Filter: ", 8, typed);
    put_text(out, r.x + 10, r.y + 2, shown, room - 8, typed);
    let legend: String = join(categories, "  ");
    put_text(out, r.x + 2, r.y + 3, legend.as_str(), room, quiet);
    proof {
        assert forall|query: Seq<char>|
            shown@ == visible(query, r.width - 4 - "Filter: "@.len()) implies paints(out@)
            == paints(old(out)@) + #[trigger] help_head(r, query, texts(categories@)) by {
            assert(paints(out@) =~= paints(old(out)@) + help_head(r, query, texts(categories@)));
        }
    }
}

fn put_row(out: &mut Vec<Paint>, r: Rect, e: &HelpEntry, row: u16, selected: bool)
    requires
        crate::paint::countable(r),
        r.width >= 60,
        row < r.height - (ROWS_TOP_OFFSET + 1),
    ensures
        paints(final(out)@) == paints(old(out)@) + help_row(r, e@, row as int, selected),
{
    let style: Style = if selected {
        Style::on(242, 255).bold()
    } else {
        Style::on(236, 252)
    };
    let category: Style = if selected {
        style
    } else {
        style.shaded(110).bold()
    };
    let y: u16 = r.y + ROWS_TOP_OFFSET + row;
    let room: usize = r.width as usize - 49;
    fill(out, Rect { x: r.x + 1, y, width: r.width - 2, height: 1 }, " ", style);
    put_text(out, r.x + 1, y, truncate(e.category.label.as_str(), 10).as_str(), 10, category);
    put_text(out, r.x + 12, y, truncate(e.chord.as_str(), 12).as_str(), 12, style);
    put_text(out, r.x + 25, y, truncate(e.action.display_name(), 22).as_str(), 22, style);
    put_text(out, r.x + 48, y, truncate(e.description.as_str(), room).as_str(), room, style);
    assert(paints(out@) =~= paints(old(out)@) + help_row(r, e@, row as int, selected));
}

proof fn lemma_matching_in_list(items: Seq<EntryV>, query: Seq<char>, k: int)
    requires
        0 <= k < entries_matching(items, query).len(),
        items.len() <= usize::MAX,
    ensures
        entries_matching(items, query)[k].0 < items.len(),
    decreases items.len(),
{
    if items.len() > 0 {
        let front = entries_matching(items.drop_last(), query);
        if k < front.len() {
            lemma_matching_in_list(items.drop_last(), query, k);
            assert(entries_matching(items, query)[k] == front[k]);
        }
    }
}

/// Draws the help, after the cursor and the rows shown were brought back into the list; nothing
/// where the screen has no room for it. `categories` are the labels of all categories.
pub fn draw(state: &mut HelpState, screen: Rect, categories: &Vec<String>) -> (d: Option<Drawing>)
    requires
        countable(screen),
        help_box(screen) matches Some(r) ==> crate::paint::countable(r),
    ensures
        match d {
            None => help_box(screen) is None && *final(state) == *old(state),
            Some(d) => {
                &&& help_box(screen) is Some
                &&& (final(state).cursor as int, final(state).scroll as int) == clamped(
                    old(state).cursor as int,
                    old(state).scroll as int,
                    old(state).hits().len() as int,
                    visible_rows(screen),
                )
                &&& final(state).items == old(state).items
                &&& final(state).input == old(state).input
                &&& d@ == help_drawing(*final(state), help_box(screen)->0, texts(categories@))
            },
        },
{
    let r: Rect = match help_rect(screen) {
        None => {
            return None;
        },
        Some(r) => r,
    };
    state.clamp(rows_visible(screen));
    let mut out: Vec<Paint> = Vec::new();
    proof {
        lemma_help_texts();
    }
    let (shown, column) = state.input.visible_text_and_cursor(r.width as usize - 12);
    put_head(&mut out, r, shown.as_str(), categories);
    let ghost top = help_head(r, state.input@, texts(categories@));
    assert(paints(out@) =~= top);
    let ranked: Vec<(usize, u32)> = state.ranked();
    let ghost items = entries_view(state.items@);
    let ghost (scroll, cursor) = (state.scroll as int, state.cursor as int);
    let room: usize = (r.height - (ROWS_TOP_OFFSET + 1)) as usize;
    let first: usize = state.scroll;
    let mut i: usize = 0;
    assert(top + help_rows(r, items, ranked@, scroll, cursor, 0) =~= top);
    while i < ranked.len() - first && i < room
        invariant
            crate::paint::countable(r),
            r.width >= 60,
            r.height >= 14,
            room == r.height - (ROWS_TOP_OFFSET + 1),
            first == state.scroll,
            scroll == state.scroll,
            cursor == state.cursor,
            first <= ranked.len(),
            i <= ranked.len() - first,
            i <= room,
            ranked@ == state.hits(),
            items == entries_view(state.items@),
            paints(out@) == top + help_rows(r, items, ranked@, scroll, cursor, i as int),
        decreases ranked.len() - first - i,
    {
        let at: usize = first + i;
        proof {
            assert(items.len() == state.items.len());
            lemma_matching_in_list(items, state.input@, at as int);
        }
        let e: &HelpEntry = &state.items[ranked[at].0];
        let ghost before = help_rows(r, items, ranked@, scroll, cursor, i as int);
        put_row(&mut out, r, e, i as u16, at == state.cursor);
        proof {
            let one = help_row(r, e@, i as int, at == cursor);
            assert(items[ranked@[at as int].0 as int] == e@);
            assert(help_rows(r, items, ranked@, scroll, cursor, i + 1) == before + one);
            assert((top + before) + one =~= top + (before + one));
        }
        i = i + 1;
    }
    let ghost inner = paints(out@);
    if ranked.len() == 0 {
        put_text(
            &mut out,
            r.x + 2,
            r.y + ROWS_TOP_OFFSET,
            "No bindings match the filter",
            r.width as usize - 4,
            Style::on(236, 252),
        );
    }
    assert(paints(out@) =~= inner + help_empty(r, ranked@.len() == 0));
    Some(Drawing { paints: out, cursor: (r.x + 10 + column as u16, r.y + 2) })
}

proof fn lemma_rows_stay(
    r: Rect,
    items: Seq<EntryV>,
    ranked: Seq<(usize, u32)>,
    scroll: int,
    cursor: int,
    n: int,
)
    requires
        r.width >= 60,
        crate::paint::countable(r),
        n <= r.height - (ROWS_TOP_OFFSET + 1),
    ensures
        all_stay_in(help_rows(r, items, ranked, scroll, cursor, n), r),
    decreases n,
{
    if 0 < n && scroll + n <= ranked.len() {
        lemma_rows_stay(r, items, ranked, scroll, cursor, n - 1);
        let before = help_rows(r, items, ranked, scroll, cursor, n - 1);
        let one = help_row(
            r,
            items[ranked[scroll + n - 1].0 as int],
            n - 1,
            scroll + n - 1 == cursor,
        );
        let all = help_rows(r, items, ranked, scroll, cursor, n);
        assert(all_stay_in(one, r));
        assert forall|i: int| 0 <= i < all.len() implies stays_in(#[trigger] all[i], r) by {
            if i < before.len() {
                assert(all[i] == before[i]);
            } else {
                assert(all[i] == one[i - before.len()]);
            }
        }
    }
}

/// Nothing is painted outside of the box of the help, and the cursor stands in it.
pub proof fn law_help_stays(state: HelpState, screen: Rect, categories: Seq<Seq<char>>)
    requires
        help_box(screen) is Some,
        crate::paint::countable(help_box(screen)->0),
        countable(screen),
    ensures
        all_stay_in(help_drawing(state, help_box(screen)->0, categories).paints, help_box(screen)->0),
        help_box(screen)->0.covers(
            help_drawing(state, help_box(screen)->0, categories).cursor.0 as int,
            help_drawing(state, help_box(screen)->0, categories).cursor.1 as int,
        ),
{
    let r = help_box(screen)->0;
    lemma_help_texts();
    let ranked = state.hits();
    let items = entries_view(state.items@);
    let n = at_most(ranked.len() - state.scroll, r.height - (ROWS_TOP_OFFSET + 1));
    lemma_rows_stay(r, items, ranked, state.scroll as int, state.cursor as int, n);
    let top = help_head(r, state.input@, categories);
    let rows = help_rows(r, items, ranked, state.scroll as int, state.cursor as int, n);
    let empty = help_empty(r, ranked.len() == 0);
    let edge = border(r, shaded(box_style(), 244));
    assert(all_stay_in(edge, r));
    assert(all_stay_in(empty, r));
    assert forall|i: int| 0 <= i < top.len() implies stays_in(#[trigger] top[i], r) by {
        if 1 <= i <= edge.len() {
            assert(top[i] == edge[i - 1]);
        }
    }
    let all = help_drawing(state, r, categories).paints;
    assert forall|i: int| 0 <= i < all.len() implies stays_in(#[trigger] all[i], r) by {
        if i < top.len() {
            assert(all[i] == top[i]);
        } else if i < top.len() + rows.len() {
            assert(all[i] == rows[i - top.len()]);
        } else {
            assert(all[i] == empty[i - top.len() - rows.len()]);
        }
    }
}

/// An entry is found by its name, then by its key in the configuration, then by what it does, then
/// by its chord: the first of these that holds the query gives the score.
pub proof fn law_entry_found(e: EntryV, query: Seq<char>)
    ensures
        score_of(query, e.name) is Some ==> entry_score(e, query) == score_of(query, e.name),
        score_of(query, e.name) is None && score_of(query, e.config_key) is Some ==> entry_score(
            e,
            query,
        ) == score_of(query, e.config_key),
        score_of(query, e.name) is None && score_of(query, e.config_key) is None && score_of(
            query,
            e.description,
        ) is Some ==> entry_score(e, query) == score_of(query, e.description),
        score_of(query, e.name) is None && score_of(query, e.config_key) is None && score_of(
            query,
            e.description,
        ) is None ==> entry_score(e, query) == score_of(query, e.chord),
{
}

/// Each entry that holds the query is listed once, with its score, in the order of the entries.
pub proof fn law_entries_matching(items: Seq<EntryV>, e: EntryV, query: Seq<char>)
    ensures
        entries_matching(seq![], query).len() == 0,
        entry_score(e, query) is None ==> entries_matching(items.push(e), query)
            == entries_matching(items, query),
        entry_score(e, query) matches Some(s) ==> entries_matching(items.push(e), query)
            == entries_matching(items, query).push((items.len() as usize, s)),
{
    assert(items.push(e).drop_last() =~= items);
}

/// The cursor goes as far as it is moved, within the list, and back again; scrolling moves what is
/// shown, and the cursor only as far as it has to stay in it.
pub proof fn law_help_moves(cursor: int, scroll: int, delta: int, len: int, rows: int)
    requires
        0 <= cursor < len,
        0 <= scroll,
        0 < rows <= len,
        scroll <= cursor < scroll + rows,
        scroll + rows <= len,
    ensures
        0 <= cursor + delta < len ==> cursor_moved(cursor, delta, len) == cursor + delta
            && cursor_moved(cursor_moved(cursor, delta, len), -delta, len) == cursor,
        cursor + delta < 0 ==> cursor_moved(cursor, delta, len) == 0,
        cursor + delta >= len ==> cursor_moved(cursor, delta, len) == len - 1,
        ({
            let (at, top) = scrolled(cursor, scroll, delta, len, rows);
            &&& 0 <= scroll + delta && scroll + delta + rows <= len ==> top == scroll + delta
            &&& scroll + delta < 0 ==> top == 0
            &&& scroll + delta + rows > len ==> top == len - rows
            &&& top <= cursor < top + rows ==> at == cursor
            &&& cursor < top ==> at == top
            &&& cursor >= top + rows ==> at == top + rows - 1
        }),
        clamped(cursor, scroll, len, rows) == (cursor, scroll),
{
}

/// The box of the help: as large as the screen, up to its full size, in the middle of it.
pub proof fn law_help_box(screen: Rect)
    requires
        countable(screen),
    ensures
        help_box(screen) is Some <==> screen.width >= 60 && screen.height >= 14,
        help_box(screen) matches Some(r) ==> {
            let right = screen.x + screen.width - r.x - r.width;
            let below = screen.y + screen.height - r.y - r.height;
            &&& r.width <= screen.width && r.width <= 90 && (r.width == screen.width || r.width
                == 90)
            &&& r.height <= screen.height && r.height <= 30 && (r.height == screen.height
                || r.height == 30)
            &&& 0 <= right - (r.x - screen.x) <= 1
            &&& 0 <= below - (r.y - screen.y) <= 1
            &&& visible_rows(screen) == r.height - 5
        },
{
}

/// What is drawn for an entry: its category, its chord, its name and what it does, from left to
/// right, on the row of its place in what is shown; bold where the cursor is.
pub proof fn law_help_row_drawn(
    r: Rect,
    items: Seq<EntryV>,
    ranked: Seq<(usize, u32)>,
    scroll: int,
    cursor: int,
    n: int,
    k: int,
)
    requires
        0 <= k < n,
        0 <= scroll,
        scroll + n <= ranked.len(),
    ensures
        ({
            let all = help_rows(r, items, ranked, scroll, cursor, n);
            let e = items[ranked[scroll + k].0 as int];
            let says = |i: int, from: int, s: Seq<char>, max: int|
                all[5 * k + i] matches PaintV::Text { x, y, text, .. } && x == (r.x + from) as u16
                    && y == (r.y + 4 + k) as u16 && text == shortened(s, max);
            &&& all.len() == 5 * n
            &&& says(1, 1, e.category, 10)
            &&& says(2, 12, e.chord, 12)
            &&& says(3, 25, e.name, 22)
            &&& says(4, 48, e.description, r.width - 49)
            &&& all[5 * k + 3] matches PaintV::Text { style, .. } && style.bold == (scroll + k
                == cursor)
        }),
    decreases n,
{
    let front = help_rows(r, items, ranked, scroll, cursor, n - 1);
    let last = help_row(
        r,
        items[ranked[scroll + n - 1].0 as int],
        n - 1,
        scroll + n - 1 == cursor,
    );
    let all = help_rows(r, items, ranked, scroll, cursor, n);
    assert(all == front + last);
    if n > 1 {
        law_help_row_drawn(
            r,
            items,
            ranked,
            scroll,
            cursor,
            n - 1,
            if k < n - 1 {
                k
            } else {
                0
            },
        );
    }
    assert(front.len() == 5 * (n - 1));
    if k < n - 1 {
        assert(all[5 * k + 1] == front[5 * k + 1]);
        assert(all[5 * k + 2] == front[5 * k + 2]);
        assert(all[5 * k + 3] == front[5 * k + 3]);
        assert(all[5 * k + 4] == front[5 * k + 4]);
    } else {
        assert(all[5 * k + 1] == last[1]);
        assert(all[5 * k + 2] == last[2]);
        assert(all[5 * k + 3] == last[3]);
        assert(all[5 * k + 4] == last[4]);
    }
}

} // verus!
