//! The sidebar: which rows its workspaces have, what a click on it hits, and its colours.

use vstd::prelude::*;

use crate::model::{AgentState, Rect};
use crate::paint::{
    all_stay_in, area, fill, filled, paints, plain, put_text, restyle, shaded, shortened, stays_in,
    truncate, written, Color, Paint, PaintV, Style,
};
use crate::text::{append_decimal, decimal, opt_text, owned, trim_start, trimmed_start};
use crate::tree::{pane_in, PaneT, PaneView, WorkspaceT, WorkspaceView};

verus! {

// ---- colours ------------------------------------------------------------------------------

/// The colour of an agent's dot: busy and waiting agents stand out, quiet ones do not.
pub open spec fn glyph_color(state: AgentState) -> Color {
    match state {
        AgentState::Working => Color::Yellow,
        AgentState::Blocked => Color::Red,
        AgentState::Idle | AgentState::Done | AgentState::Unknown => Color::Indexed(242),
    }
}

pub fn agent_glyph_color(state: AgentState) -> (c: Color)
    ensures
        c == glyph_color(state),
{
    match state {
        AgentState::Working => Color::Yellow,
        AgentState::Blocked => Color::Red,
        AgentState::Idle | AgentState::Done | AgentState::Unknown => Color::Indexed(242),
    }
}

/// The colour of a workspace's rail: its own, active or not, or else the theme's while it is
/// active.
pub open spec fn rail_of(own: Option<Color>, active: bool, theme: Color) -> Option<Color> {
    if own is Some {
        own
    } else if active {
        Some(theme)
    } else {
        None
    }
}

pub fn rail_color(workspace_color: Option<Color>, active: bool, theme_rail: Color) -> (r: Option<
    Color,
>)
    ensures
        r == rail_of(workspace_color, active, theme_rail),
{
    match workspace_color {
        Some(c) => Some(c),
        None => {
            if active {
                Some(theme_rail)
            } else {
                None
            }
        },
    }
}

/// The colour of a rail, which is white while it flashes, whatever its workspace is like.
pub open spec fn pulse_of(flashing: bool, own: Option<Color>, active: bool, theme: Color) -> Option<
    Color,
> {
    if flashing {
        Some(Color::White)
    } else {
        rail_of(own, active, theme)
    }
}

pub fn rail_pulse(
    flashing: bool,
    workspace_color: Option<Color>,
    active: bool,
    theme_rail: Color,
) -> (r: Option<Color>)
    ensures
        r == pulse_of(flashing, workspace_color, active, theme_rail),
{
    if flashing {
        Some(Color::White)
    } else {
        rail_color(workspace_color, active, theme_rail)
    }
}

/// The background of the active workspace: its own colour, or else the theme's.
pub open spec fn background_of(own: Option<Color>, theme: Color) -> Color {
    match own {
        Some(c) => c,
        None => theme,
    }
}

pub fn active_row_background(workspace_color: Option<Color>, theme_background: Color) -> (r: Color)
    ensures
        r == background_of(workspace_color, theme_background),
{
    match workspace_color {
        Some(c) => c,
        None => theme_background,
    }
}

// ---- rows ---------------------------------------------------------------------------------

/// What a click on the sidebar hits.
#[derive(Clone, Copy, Debug, PartialEq, Eq, Structural)]
pub enum Hit {
    Workspace { index: usize, id: u64 },
    NewWorkspace,
    SidebarResize,
}

/// The first row of a workspace: below a header and a blank row, each has two rows and a blank
/// one.
pub open spec fn row_of(index: int) -> int {
    2 + 3 * index
}

/// How many of `n` workspaces have both of their rows in a sidebar of that height.
pub open spec fn shown_rows(n: int, height: int) -> int {
    if height < 1 {
        0
    } else if (height - 1) / 3 < n {
        (height - 1) / 3
    } else {
        n
    }
}

/// Whether a sidebar is drawn at all.
pub open spec fn has_room(width: u16, height: u16) -> bool {
    width >= 3 && height > 0
}

/// A row of the sidebar, without its border.
pub open spec fn row_rect_of(width: u16, y: int) -> Rect {
    Rect { x: 0, y: y as u16, width: (width - 1) as u16, height: 1 }
}

/// What lies under the pointer in a sidebar: the two rows of each workspace, in order; the row
/// behind them, where there is one; and the border.
pub open spec fn hits_of(ids: Seq<u64>, width: u16, height: u16) -> Seq<(Rect, Hit)> {
    if !has_room(width, height) {
        seq![]
    } else {
        let n = shown_rows(ids.len() as int, height as int);
        let rows = Seq::new(
            (2 * n) as nat,
            |k: int|
                (
                    row_rect_of(width, row_of(k / 2) + k % 2),
                    Hit::Workspace { index: (k / 2) as usize, id: ids[k / 2] },
                ),
        );
        let last = if row_of(n) < height {
            seq![(row_rect_of(width, row_of(n)), Hit::NewWorkspace)]
        } else {
            seq![]
        };
        rows + last + seq![
            (
                Rect { x: (width - 1) as u16, y: 0, width: 1, height },
                Hit::SidebarResize,
            ),
        ]
    }
}

pub fn sidebar_hits(ids: &Vec<u64>, width: u16, height: u16) -> (hits: Vec<(Rect, Hit)>)
    ensures
        hits@ == hits_of(ids@, width, height),
{
    let mut hits: Vec<(Rect, Hit)> = Vec::new();
    if width < 3 || height == 0 {
        return hits;
    }
    let ghost n = shown_rows(ids.len() as int, height as int);
    let ghost rows = Seq::new(
        (2 * n) as nat,
        |k: int|
            (
                row_rect_of(width, row_of(k / 2) + k % 2),
                Hit::Workspace { index: (k / 2) as usize, id: ids@[k / 2] },
            ),
    );
    let mut i: usize = 0;
    let mut y: u16 = 2;
    assert(hits@ =~= rows.take(0));
    while i < ids.len() && y + 1 < height
        invariant
            width >= 3,
            height > 0,
            i <= n <= ids.len(),
            n == shown_rows(ids.len() as int, height as int),
            y == row_of(i as int),
            rows == Seq::new(
                (2 * n) as nat,
                |k: int|
                    (
                        row_rect_of(width, row_of(k / 2) + k % 2),
                        Hit::Workspace { index: (k / 2) as usize, id: ids@[k / 2] },
                    ),
            ),
            hits@ == rows.take(2 * i),
        decreases ids.len() - i,
    {
        let hit: Hit = Hit::Workspace { index: i, id: ids[i] };
        hits.push((Rect { x: 0, y, width: width - 1, height: 1 }, hit));
        hits.push((Rect { x: 0, y: y + 1, width: width - 1, height: 1 }, hit));
        proof {
            assert((2 * i + 1) / 2 == i && (2 * i + 1) % 2 == 1);
            assert((2 * i) / 2 == i && (2 * i) % 2 == 0);
            assert(rows[2 * i] == (row_rect_of(width, y as int), hit));
            assert(rows[2 * i + 1] == (row_rect_of(width, y + 1), hit));
            assert(hits@ =~= rows.take(2 * (i + 1)));
        }
        i = i + 1;
        y = y + 3;
    }
    assert(i == n);
    assert(rows.take(2 * n) =~= rows);
    if y < height {
        hits.push((Rect { x: 0, y, width: width - 1, height: 1 }, Hit::NewWorkspace));
    }
    hits.push((Rect { x: width - 1, y: 0, width: 1, height }, Hit::SidebarResize));
    assert(hits@ =~= hits_of(ids@, width, height));
    hits
}

/// Whether a cell lies in a rectangle.
pub open spec fn covers(r: Rect, x: int, y: int) -> bool {
    r.x <= x < r.x + r.width && r.y <= y < r.y + r.height
}

/// No cell of the sidebar belongs to two hits.
pub proof fn law_hits_apart(ids: Seq<u64>, width: u16, height: u16, i: int, j: int, x: int, y: int)
    requires
        0 <= i < j < hits_of(ids, width, height).len(),
    ensures
        !(covers(hits_of(ids, width, height)[i].0, x, y) && covers(
            hits_of(ids, width, height)[j].0,
            x,
            y,
        )),
{
    let hits = hits_of(ids, width, height);
    let n = shown_rows(ids.len() as int, height as int);
    if covers(hits[i].0, x, y) && covers(hits[j].0, x, y) {
        if j < 2 * n {
            assert(row_of(i / 2) + i % 2 == row_of(j / 2) + j % 2);
            assert(i == 2 * (i / 2) + i % 2 && j == 2 * (j / 2) + j % 2);
        } else if j == 2 * n && row_of(n) < height {
            assert(i / 2 < n);
        }
    }
}

/// A click on either row of a workspace that is shown hits that workspace.
pub proof fn law_rows_clicked(ids: Seq<u64>, width: u16, height: u16, index: int, x: int, y: int)
    requires
        has_room(width, height),
        0 <= index < shown_rows(ids.len() as int, height as int),
        0 <= x < width - 1,
        y == row_of(index) || y == row_of(index) + 1,
        ids.len() <= usize::MAX,
    ensures
        exists|k: int|
            0 <= k < hits_of(ids, width, height).len() && covers(
                (#[trigger] hits_of(ids, width, height)[k]).0,
                x,
                y,
            ) && hits_of(ids, width, height)[k].1 == (Hit::Workspace {
                index: index as usize,
                id: ids[index],
            }),
{
    let k = 2 * index + (y - row_of(index));
    assert(k / 2 == index && k % 2 == y - row_of(index));
    let hits = hits_of(ids, width, height);
    assert(covers(hits[k].0, x, y));
}

/// The row of the mark that shows where a workspace is dropped, where the sidebar has that row.
pub open spec fn marker_of(index: int, height: u16) -> Option<int> {
    let y = if row_of(index % 0x1_0000) > 0xffff {
        0xfffe
    } else {
        row_of(index % 0x1_0000) - 1
    };
    if y < height {
        Some(y)
    } else {
        None
    }
}

pub fn drop_marker(index: usize, height: u16) -> (r: Option<u16>)
    requires
        3 * (index % 0x1_0000) <= 0xffff,
    ensures
        match r {
            Some(y) => marker_of(index as int, height) == Some(y as int),
            None => marker_of(index as int, height) is None,
        },
{
    let low: u16 = (index % 0x1_0000) as u16;
    let below: u16 = low * 3;
    let y: u16 = if below > 0xffff - 2 {
        0xffff - 1
    } else {
        below + 1
    };
    if y < height {
        Some(y)
    } else {
        None
    }
}

// ---- entries ------------------------------------------------------------------------------

/// The name of a workspace behind its icon.
pub open spec fn label_of(icon: Option<Seq<char>>, name: Seq<char>) -> Seq<char> {
    match icon {
        Some(i) => i + " "@ + name,
        None => name,
    }
}

pub fn label(ws: &WorkspaceView) -> (r: String)
    ensures
        r@ == label_of(ws@.icon, ws@.name),
{
    match &ws.icon {
        Some(icon) => {
            let mut r: String = owned(icon.as_str());
            r.append(" ");
            r.append(ws.name.as_str());
            r
        },
        None => owned(ws.name.as_str()),
    }
}

/// The pane that the second row of a workspace is about.
pub open spec fn shown_pane(ws: WorkspaceT) -> Option<PaneT> {
    match ws.active() {
        Some(s) => pane_in(s.panes, s.active_pane, 0),
        None => None,
    }
}

pub fn active_pane(ws: &WorkspaceView) -> (r: Option<&PaneView>)
    ensures
        match r {
            Some(p) => shown_pane(ws@) == Some(p@),
            None => shown_pane(ws@) is None,
        },
{
    match ws.active_screen_ref() {
        Some(s) => s.pane(s.active_pane),
        None => None,
    }
}

/// The title in the second row of a workspace.
pub open spec fn title_of(ws: WorkspaceT) -> Seq<char> {
    match shown_pane(ws) {
        Some(p) => p.shown_name(),
        None => "shell"@,
    }
}

pub fn entry_title(ws: &WorkspaceView) -> (r: String)
    ensures
        r@ == title_of(ws@),
{
    match active_pane(ws) {
        Some(p) => owned(p.display_name()),
        None => "shell".to_string(),
    }
}

/// What stands before the title: the branch.
pub open spec fn prefix_of(branch: Option<Seq<char>>) -> Seq<char> {
    match branch {
        Some(b) => b + " · "@,
        None => seq![],
    }
}

pub fn branch_prefix(branch: &Option<String>) -> (r: String)
    ensures
        r@ == prefix_of(opt_text(*branch)),
{
    match branch {
        Some(b) => {
            let mut r: String = owned(b.as_str());
            r.append(" · ");
            r
        },
        None => String::new(),
    }
}

/// How many characters of the title have room in a sidebar of that width.
pub open spec fn room_of(content: int, prefix: Seq<char>, screens: nat) -> int {
    let used = prefix.len() + if screens > 1 {
        13int
    } else {
        3int
    };
    if used <= content {
        content - used
    } else {
        0
    }
}

pub fn title_room(content: usize, prefix: &str, screens: usize) -> (r: usize)
    ensures
        r == room_of(content as int, prefix@, screens as nat),
{
    let width: usize = prefix.unicode_len();
    let used: usize = if screens > 1 {
        13
    } else {
        3
    };
    if width <= content && used <= content - width {
        content - width - used
    } else {
        0
    }
}

/// The second row of a workspace: the prefix, the title as far as it has room, and how many
/// screens there are, where there are more than one.
pub open spec fn subtitle_of(prefix: Seq<char>, title: Seq<char>, screens: nat) -> Seq<char> {
    trimmed_start(
        " "@ + prefix + title + if screens > 1 {
            " ("@ + decimal(screens) + " screens)"@
        } else {
            ""@
        },
    )
}

pub fn subtitle(prefix: &str, title: &str, screens: u64) -> (r: String)
    ensures
        r@ == subtitle_of(prefix@, title@, screens as nat),
{
    let mut text: String = " ".to_string();
    text.append(prefix);
    text.append(title);
    let mut count: String = "".to_string();
    if screens > 1 {
        count.append(" (");
        append_decimal(&mut count, screens);
        count.append(" screens)");
    }
    proof {
        reveal_strlit("");
        assert(""@ + " ("@ =~= " ("@);
    }
    text.append(count.as_str());
    trim_start(text.as_str())
}

// ---- drawing ------------------------------------------------------------------------------

/// The colours of the theme that the sidebar uses.
#[derive(Clone, Copy, Debug, PartialEq, Eq, Structural)]
pub struct SidebarTheme {
    pub rail: Color,
    pub active_bg: Color,
    pub border_active: Color,
}

/// What the sidebar shows of a workspace.
#[derive(Debug)]
pub struct Entry {
    pub label: String,
    pub subtitle: String,
    /// The colour that the user gave it.
    pub color: Option<Color>,
    pub active: bool,
    pub flashing: bool,
    /// Whether it is being dragged to another place.
    pub dragged: bool,
    pub agent_state: Option<AgentState>,
}

pub struct EntryV {
    pub label: Seq<char>,
    pub subtitle: Seq<char>,
    pub color: Option<Color>,
    pub active: bool,
    pub flashing: bool,
    pub dragged: bool,
    pub agent_state: Option<AgentState>,
}

impl View for Entry {
    type V = EntryV;

    open spec fn view(&self) -> EntryV {
        EntryV {
            label: self.label@,
            subtitle: self.subtitle@,
            color: self.color,
            active: self.active,
            flashing: self.flashing,
            dragged: self.dragged,
            agent_state: self.agent_state,
        }
    }
}

pub open spec fn entries(s: Seq<Entry>) -> Seq<EntryV> {
    s.map_values(|e: Entry| e@)
}

/// What the sidebar shows of a workspace, `content` cells wide without its border.
pub open spec fn entry_of(
    ws: WorkspaceT,
    branch: Option<Seq<char>>,
    content: int,
    active: bool,
    flashing: bool,
    dragged: bool,
) -> EntryV {
    let prefix = prefix_of(branch);
    let screens = ws.screens.len();
    EntryV {
        label: label_of(ws.icon, ws.name),
        subtitle: subtitle_of(
            prefix,
            shortened(title_of(ws), room_of(content, prefix, screens)),
            screens,
        ),
        color: match ws.color {
            Some(c) => Some(Color::Rgb(c.r, c.g, c.b)),
            None => None,
        },
        active,
        flashing,
        dragged,
        agent_state: match shown_pane(ws) {
            Some(p) => p.active_agent_state_of(),
            None => None,
        },
    }
}

pub fn entry(
    ws: &WorkspaceView,
    branch: &Option<String>,
    content: usize,
    active: bool,
    flashing: bool,
    dragged: bool,
) -> (e: Entry)
    ensures
        e@ == entry_of(ws@, opt_text(*branch), content as int, active, flashing, dragged),
{
    let prefix: String = branch_prefix(branch);
    let screens: usize = ws.screens.len();
    let room: usize = title_room(content, prefix.as_str(), screens);
    let title: String = truncate(entry_title(ws).as_str(), room);
    Entry {
        label: label(ws),
        subtitle: subtitle(prefix.as_str(), title.as_str(), screens as u64),
        color: match ws.color {
            Some(c) => Some(Color::Rgb(c.r, c.g, c.b)),
            None => None,
        },
        active,
        flashing,
        dragged,
        agent_state: match active_pane(ws) {
            Some(p) => p.active_agent_state(),
            None => None,
        },
    }
}

/// The style of what needs no attention.
pub open spec fn quiet() -> Style {
    shaded(plain(), 242)
}

/// The style of the rows of a workspace that is active.
pub open spec fn active_style(e: EntryV, theme: SidebarTheme) -> Style {
    Style {
        fg: Some(Color::Indexed(255)),
        bg: Some(background_of(e.color, theme.active_bg)),
        bold: true,
        dim: false,
    }
}

/// The style of the first row of a workspace.
pub open spec fn row_style(e: EntryV, theme: SidebarTheme) -> Style {
    if e.active {
        active_style(e, theme)
    } else {
        plain()
    }
}

/// The style of the second row of a workspace.
pub open spec fn subtitle_style(e: EntryV, theme: SidebarTheme) -> Style {
    if e.active {
        Style { dim: true, ..active_style(e, theme) }
    } else {
        quiet()
    }
}

/// The highlight of the two rows of a workspace that start at row `y`, and its rail.
pub open spec fn entry_back(e: EntryV, y: int, width: u16, theme: SidebarTheme) -> Seq<PaintV> {
    let highlight = if e.active {
        seq![PaintV::Restyle { area: area(0, y, width - 1, 2), style: active_style(e, theme) }]
    } else {
        seq![]
    };
    let rail = match pulse_of(e.flashing, e.color, e.active, theme.rail) {
        Some(color) => seq![
            filled(0, y, 1, 2, "▎"@, Style { fg: Some(color), ..row_style(e, theme) }),
        ],
        None => seq![],
    };
    highlight + rail
}

/// The texts of the two rows of a workspace, and its dot.
pub open spec fn entry_front(e: EntryV, y: int, width: u16, theme: SidebarTheme) -> Seq<PaintV> {
    let below = subtitle_style(e, theme);
    let style = Style { dim: e.dragged, ..row_style(e, theme) };
    let name = seq![written(1, y, shortened(e.label, width - 2), width - 2, style)];
    let dot = match e.agent_state {
        Some(state) => seq![
            filled(1, y + 1, 1, 1, "●"@, Style { fg: Some(glyph_color(state)), dim: false, ..below }),
        ],
        None => seq![],
    };
    name + dot + seq![written(2, y + 1, e.subtitle, width - 3, below)]
}

/// What the first `n` workspaces put into the sidebar.
pub open spec fn entry_paints(list: Seq<EntryV>, n: int, width: u16, theme: SidebarTheme) -> Seq<
    PaintV,
>
    decreases n,
{
    if n <= 0 || n > list.len() {
        seq![]
    } else {
        let e = list[n - 1];
        let y = row_of(n - 1);
        entry_paints(list, n - 1, width, theme) + (entry_back(e, y, width, theme) + entry_front(
            e,
            y,
            width,
            theme,
        ))
    }
}

/// The empty sidebar with its border and its header.
pub open spec fn sidebar_frame(width: u16, height: u16) -> Seq<PaintV> {
    seq![
        filled(0, 0, width - 1, height as int, " "@, plain()),
        filled(width - 1, 0, 1, height as int, "│"@, shaded(plain(), 237)),
        written(0, 0, " workspaces"@, width - 1, quiet()),
    ]
}

/// The mark that shows where a dragged workspace is dropped, and the row for a new one.
pub open spec fn sidebar_end(
    n: int,
    drop_at: Option<usize>,
    width: u16,
    height: u16,
    theme: SidebarTheme,
) -> Seq<PaintV> {
    let mark = match drop_at {
        Some(index) => match marker_of(index as int, height) {
            Some(y) => seq![
                filled(
                    0,
                    y,
                    width - 1,
                    1,
                    "─"@,
                    Style { fg: Some(theme.border_active), ..plain() },
                ),
            ],
            None => seq![],
        },
        None => seq![],
    };
    let last = if row_of(n) < height {
        seq![written(0, row_of(n), " + new workspace"@, width - 1, quiet())]
    } else {
        seq![]
    };
    mark + last
}

/// What the sidebar puts on the screen: nothing where it has no room.
pub open spec fn sidebar_paints(
    list: Seq<EntryV>,
    drop_at: Option<usize>,
    width: u16,
    height: u16,
    theme: SidebarTheme,
) -> Seq<PaintV> {
    if !has_room(width, height) {
        seq![]
    } else {
        let n = shown_rows(list.len() as int, height as int);
        sidebar_frame(width, height) + entry_paints(list, n, width, theme) + sidebar_end(
            n,
            drop_at,
            width,
            height,
            theme,
        )
    }
}

fn put_entry(out: &mut Vec<Paint>, e: &Entry, y: u16, width: u16, theme: SidebarTheme)
    requires
        width >= 3,
        y < u16::MAX,
    ensures
        paints(final(out)@) == paints(old(out)@) + (entry_back(e@, y as int, width, theme)
            + entry_front(e@, y as int, width, theme)),
{
    let active: Style = Style {
        fg: Some(Color::Indexed(255)),
        bg: Some(active_row_background(e.color, theme.active_bg)),
        bold: true,
        dim: false,
    };
    let row: Style = if e.active {
        active
    } else {
        Style::plain()
    };
    let below: Style = if e.active {
        active.dim(true)
    } else {
        Style::plain().shaded(242)
    };
    if e.active {
        restyle(out, Rect { x: 0, y, width: width - 1, height: 2 }, active);
    }
    if let Some(color) = rail_pulse(e.flashing, e.color, e.active, theme.rail) {
        fill(out, Rect { x: 0, y, width: 1, height: 2 }, "▎", row.colored(color));
    }
    proof {
        assert(paints(out@) =~= paints(old(out)@) + entry_back(e@, y as int, width, theme));
    }
    let ghost back = paints(out@);
    let room: usize = width as usize - 2;
    put_text(out, 1, y, truncate(e.label.as_str(), room).as_str(), room, row.dim(e.dragged));
    if let Some(state) = e.agent_state {
        let dot: Style = below.colored(agent_glyph_color(state)).dim(false);
        fill(out, Rect { x: 1, y: y + 1, width: 1, height: 1 }, "●", dot);
    }
    put_text(out, 2, y + 1, e.subtitle.as_str(), width as usize - 3, below);
    proof {
        assert(paints(out@) =~= back + entry_front(e@, y as int, width, theme));
        assert(paints(out@) =~= paints(old(out)@) + (entry_back(e@, y as int, width, theme)
            + entry_front(e@, y as int, width, theme)));
    }
}

/// Draws the sidebar.
pub fn draw(
    list: &Vec<Entry>,
    drop_at: Option<usize>,
    width: u16,
    height: u16,
    theme: SidebarTheme,
) -> (out: Vec<Paint>)
    requires
        drop_at matches Some(index) ==> 3 * (index % 0x1_0000) <= 0xffff,
    ensures
        paints(out@) == sidebar_paints(entries(list@), drop_at, width, height, theme),
{
    let mut out: Vec<Paint> = Vec::new();
    if width < 3 || height == 0 {
        assert(paints(out@) =~= seq![]);
        return out;
    }
    let ghost view = entries(list@);
    let ghost n = shown_rows(list.len() as int, height as int);
    let quiet: Style = Style::plain().shaded(242);
    let room: usize = width as usize - 1;
    fill(&mut out, Rect { x: 0, y: 0, width: width - 1, height }, " ", Style::plain());
    fill(
        &mut out,
        Rect { x: width - 1, y: 0, width: 1, height },
        "│",
        Style::plain().shaded(237),
    );
    put_text(&mut out, 0, 0, " workspaces", room, quiet);
    let ghost frame = sidebar_frame(width, height);
    assert(paints(out@) =~= frame + entry_paints(view, 0, width, theme));
    let mut i: usize = 0;
    let mut y: u16 = 2;
    while i < list.len() && y + 1 < height
        invariant
            width >= 3,
            height > 0,
            i <= n <= list.len(),
            n == shown_rows(list.len() as int, height as int),
            y == row_of(i as int),
            view == entries(list@),
            paints(out@) == frame + entry_paints(view, i as int, width, theme),
        decreases list.len() - i,
    {
        let ghost before = entry_paints(view, i as int, width, theme);
        assert(view[i as int] == list@[i as int]@);
        put_entry(&mut out, &list[i], y, width, theme);
        proof {
            let one = entry_back(view[i as int], y as int, width, theme) + entry_front(
                view[i as int],
                y as int,
                width,
                theme,
            );
            assert(entry_paints(view, i + 1, width, theme) == before + one);
            assert((frame + before) + one =~= frame + (before + one));
        }
        i = i + 1;
        y = y + 3;
    }
    assert(i == n);
    let ghost inner = paints(out@);
    if let Some(index) = drop_at {
        if let Some(mark) = drop_marker(index, height) {
            fill(
                &mut out,
                Rect { x: 0, y: mark, width: width - 1, height: 1 },
                "─",
                Style::plain().colored(theme.border_active),
            );
        }
    }
    if y < height {
        put_text(&mut out, 0, y, " + new workspace", room, quiet);
    }
    assert(paints(out@) =~= inner + sidebar_end(n, drop_at, width, height, theme));
    out
}

proof fn lemma_entries_stay(
    list: Seq<EntryV>,
    n: int,
    width: u16,
    height: u16,
    theme: SidebarTheme,
)
    requires
        has_room(width, height),
        0 <= n <= shown_rows(list.len() as int, height as int),
    ensures
        all_stay_in(entry_paints(list, n, width, theme), area(0, 0, width as int, height as int)),
    decreases n,
{
    if n > 0 {
        lemma_entries_stay(list, n - 1, width, height, theme);
        let y = row_of(n - 1);
        assert(y + 1 < height);
        let back = entry_back(list[n - 1], y, width, theme);
        let front = entry_front(list[n - 1], y, width, theme);
        let whole = area(0, 0, width as int, height as int);
        assert(all_stay_in(back, whole));
        assert(all_stay_in(front, whole));
        let before = entry_paints(list, n - 1, width, theme);
        let all = entry_paints(list, n, width, theme);
        assert(all == before + (back + front));
        assert forall|i: int| 0 <= i < all.len() implies stays_in(#[trigger] all[i], whole) by {
            if i < before.len() {
                assert(all[i] == before[i]);
            } else if i < before.len() + back.len() {
                assert(all[i] == back[i - before.len()]);
            } else {
                assert(all[i] == front[i - before.len() - back.len()]);
            }
        }
    }
}

/// Nothing is painted outside of the sidebar.
pub proof fn law_sidebar_stays(
    list: Seq<EntryV>,
    drop_at: Option<usize>,
    width: u16,
    height: u16,
    theme: SidebarTheme,
)
    ensures
        all_stay_in(
            sidebar_paints(list, drop_at, width, height, theme),
            area(0, 0, width as int, height as int),
        ),
{
    if has_room(width, height) {
        let whole = area(0, 0, width as int, height as int);
        let n = shown_rows(list.len() as int, height as int);
        lemma_entries_stay(list, n, width, height, theme);
        let frame = sidebar_frame(width, height);
        let inner = entry_paints(list, n, width, theme);
        let end = sidebar_end(n, drop_at, width, height, theme);
        assert(all_stay_in(frame, whole));
        assert(all_stay_in(end, whole));
        let all = sidebar_paints(list, drop_at, width, height, theme);
        assert forall|i: int| 0 <= i < all.len() implies stays_in(#[trigger] all[i], whole) by {
            if i < frame.len() {
                assert(all[i] == frame[i]);
            } else if i < frame.len() + inner.len() {
                assert(all[i] == inner[i - frame.len()]);
            } else {
                assert(all[i] == end[i - frame.len() - inner.len()]);
            }
        }
    }
}

/// The colours of a row: the one its user gave it wins over that of the theme, a row that flashes
/// is white, and only the active one has a rail without a colour of its own.
pub proof fn law_row_colors(own: Color, theme: Color, active: bool)
    ensures
        rail_of(Some(own), active, theme) == Some(own),
        rail_of(None, true, theme) == Some(theme),
        rail_of(None, false, theme) is None,
        pulse_of(true, Some(own), active, theme) == Some(Color::White),
        pulse_of(true, None, active, theme) == Some(Color::White),
        pulse_of(false, Some(own), active, theme) == Some(own),
        pulse_of(false, None, true, theme) == Some(theme),
        pulse_of(false, None, false, theme) is None,
        background_of(Some(own), theme) == own,
        background_of(None, theme) == theme,
        glyph_color(AgentState::Working) == Color::Yellow,
        glyph_color(AgentState::Blocked) == Color::Red,
        glyph_color(AgentState::Idle) == glyph_color(AgentState::Done),
        glyph_color(AgentState::Unknown) == glyph_color(AgentState::Done),
        glyph_color(AgentState::Done) != Color::Red && glyph_color(AgentState::Done)
            != Color::Yellow,
{
}

/// What the sidebar says of a workspace: its icon before its name, its branch before the title of
/// its pane, cut to the room there is, and how many screens it has where there are more than one.
pub proof fn law_entry_says(
    ws: WorkspaceT,
    branch: Option<Seq<char>>,
    content: int,
    active: bool,
    flashing: bool,
    dragged: bool,
)
    ensures
        ({
            let e = entry_of(ws, branch, content, active, flashing, dragged);
            &&& e.active == active && e.flashing == flashing && e.dragged == dragged
            &&& ws.icon is None ==> e.label == ws.name
            &&& ws.icon matches Some(i) ==> i.is_prefix_of(e.label) && ws.name.is_suffix_of(e.label)
                && e.label.len() == i.len() + 1 + ws.name.len()
            &&& ws.color is None ==> e.color is None
            &&& ws.color matches Some(c) ==> e.color == Some(Color::Rgb(c.r, c.g, c.b))
            &&& shown_pane(ws) is None ==> e.agent_state is None && title_of(ws) == "shell"@
            &&& shown_pane(ws) matches Some(p) ==> e.agent_state == p.active_agent_state_of()
                && title_of(ws) == p.shown_name()
        }),
{
    if let Some(i) = ws.icon {
        reveal_strlit(" ");
        let l = i + " "@ + ws.name;
        assert(l.take(i.len() as int) =~= i);
        assert(l.skip(l.len() - ws.name.len()) =~= ws.name);
    }
}

/// The line below the name: the branch, the title and the number of screens, in this order, without
/// a blank in front; the number only where there is more than one screen.
pub proof fn law_subtitle(prefix: Seq<char>, title: Seq<char>, screens: nat)
    requires
        (prefix + title).len() > 0,
        !crate::text::is_white((prefix + title)[0]),
    ensures
        screens <= 1 ==> subtitle_of(prefix, title, screens) == prefix + title,
        screens > 1 ==> subtitle_of(prefix, title, screens) == prefix + title + " ("@ + decimal(
            screens,
        ) + " screens)"@,
{
    reveal_strlit(" ");
    reveal_strlit("");
    let s = prefix + title;
    let end = if screens > 1 {
        " ("@ + decimal(screens) + " screens)"@
    } else {
        ""@
    };
    let all = " "@ + prefix + title + end;
    assert(all.drop_first() =~= s + end);
    assert(all[0] == ' ');
    assert((s + end)[0] == s[0]);
    reveal_with_fuel(trimmed_start, 3);
    if screens > 1 {
        assert(s + end =~= prefix + title + " ("@ + decimal(screens) + " screens)"@);
    } else {
        assert(s + end =~= s);
    }
}

/// The room of a title is what its line has left of the row, and none where nothing is left; more
/// than one screen takes more room. A branch stands before the title with a dot behind it.
pub proof fn law_title_room(content: int, prefix: Seq<char>, screens: nat, branch: Seq<char>)
    requires
        content >= 0,
    ensures
        room_of(content, prefix, screens) >= 0,
        screens <= 1 && content >= prefix.len() + 3 ==> room_of(content, prefix, screens)
            + prefix.len() + 3 == content,
        screens > 1 && content >= prefix.len() + 13 ==> room_of(content, prefix, screens)
            + prefix.len() + 13 == content,
        content <= prefix.len() ==> room_of(content, prefix, screens) == 0,
        prefix_of(None).len() == 0,
        branch.is_prefix_of(prefix_of(Some(branch))),
        " · "@.is_suffix_of(prefix_of(Some(branch))),
{
    let p = branch + " · "@;
    assert(p.take(branch.len() as int) =~= branch);
    assert(p.skip(p.len() - " · "@.len()) =~= " · "@);
}

/// Each row of the sidebar draws its own entry: its name on the upper of its two lines and what is
/// said below it on the lower, three lines from the row before.
pub proof fn law_entries_drawn(
    list: Seq<EntryV>,
    e: EntryV,
    width: u16,
    theme: SidebarTheme,
    y: u16,
)
    requires
        width >= 3,
    ensures
        entry_paints(list.push(e), list.len() as int + 1, width, theme).len() > 0,
        entry_paints(list.push(e), list.len() as int + 1, width, theme).last() matches PaintV::Text {
            x,
            y: at,
            text,
            ..
        } && x == 2 && at == (2 + 3 * list.len() + 1) as u16 && text == e.subtitle,
        entry_front(e, y as int, width, theme)[0] matches PaintV::Text { x, y: at, text, style, .. }
            && x == 1 && at == y && text == shortened(e.label, width - 2) && style.dim == e.dragged
            && style.bold == e.active,
        e.agent_state matches Some(s) ==> entry_front(
            e,
            y as int,
            width,
            theme,
        )[1] matches PaintV::Fill { style, .. } && style.fg == Some(glyph_color(s)),
        entry_front(e, y as int, width, theme).len() == (if e.agent_state is Some {
            3nat
        } else {
            2nat
        }),
        pulse_of(e.flashing, e.color, e.active, theme.rail) matches Some(c) ==> entry_back(
            e,
            y as int,
            width,
            theme,
        ).last() matches PaintV::Fill { area: a, style, .. } && a.x == 0 && a.y == y && a.height
            == 2 && style.fg == Some(c),
{
    let all = entry_paints(list.push(e), list.len() as int + 1, width, theme);
    assert(list.push(e)[list.len() as int] == e);
    let front = entry_front(e, row_of(list.len() as int), width, theme);
    assert(front.len() >= 2);
    assert(all.last() == front.last());
}

/// Where a dragged row is marked: on the line above the row it would take.
pub proof fn law_marker(index: int, height: u16)
    requires
        0 <= index,
        2 + 3 * index <= 0xffff,
    ensures
        marker_of(index, height) matches Some(y) ==> y == 1 + 3 * index && y < height,
        1 + 3 * index < height ==> marker_of(index, height) is Some,
{
}

} // verus!
