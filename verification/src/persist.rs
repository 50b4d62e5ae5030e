//! Snapshots of a session: what is written down of its state, and how it is read back.
//!
//! Layout, names, working directories and active selections are kept exactly; what runs in a tab
//! is not.

use vstd::prelude::*;

use crate::json::{
    all_some, empty_object, json_view, lemma_field_decreases, lemma_part_decreases, list_view,
    max_nesting, nests, number_copy, number_of, text_or_null, unsigned, Json, JsonV, NumberV,
};
use crate::model::{
    position, position_of, Node, NodeV, Pane, PaneId, Screen, SplitDir, State, Surface, SurfaceId,
    Workspace,
};
use crate::text::{chars_of, copy_opt, opt_text, owned, same};

verus! {

// ---- what a snapshot is -------------------------------------------------------------------

/// The layout of a screen; a leaf is a position among the panes of the screen.
#[derive(Debug)]
pub enum LayoutSnapshot {
    Leaf(usize),
    Split { dir: SplitDir, ratio: serde_json::Number, a: Box<LayoutSnapshot>, b: Box<LayoutSnapshot> },
}

#[derive(Debug)]
pub struct TabSnapshot {
    pub name: Option<String>,
    pub cwd: Option<String>,
}

#[derive(Debug)]
pub struct PaneSnapshot {
    pub name: Option<String>,
    pub tabs: Vec<TabSnapshot>,
    pub active_tab_index: usize,
}

#[derive(Debug)]
pub struct ScreenSnapshot {
    pub name: Option<String>,
    pub layout: LayoutSnapshot,
    pub panes: Vec<PaneSnapshot>,
    pub active_pane_index: usize,
}

#[derive(Debug)]
pub struct WorkspaceSnapshot {
    pub name: String,
    pub screens: Vec<ScreenSnapshot>,
    pub active_screen: usize,
}

#[derive(Debug)]
pub struct SessionSnapshot {
    pub workspaces: Vec<WorkspaceSnapshot>,
    pub active_workspace: usize,
}

pub enum LayoutV {
    Leaf(usize),
    Split(SplitDir, NumberV, Box<LayoutV>, Box<LayoutV>),
}

pub struct TabV {
    pub name: Option<Seq<char>>,
    pub cwd: Option<Seq<char>>,
}

pub struct PaneV {
    pub name: Option<Seq<char>>,
    pub tabs: Seq<TabV>,
    pub active_tab_index: usize,
}

pub struct ScreenV {
    pub name: Option<Seq<char>>,
    pub layout: LayoutV,
    pub panes: Seq<PaneV>,
    pub active_pane_index: usize,
}

pub struct WorkspaceV {
    pub name: Seq<char>,
    pub screens: Seq<ScreenV>,
    pub active_screen: usize,
}

pub struct SnapshotV {
    pub workspaces: Seq<WorkspaceV>,
    pub active_workspace: usize,
}

pub open spec fn layout_view(l: LayoutSnapshot) -> LayoutV
    decreases l,
{
    match l {
        LayoutSnapshot::Leaf(i) => LayoutV::Leaf(i),
        LayoutSnapshot::Split { dir, ratio, a, b } => LayoutV::Split(
            dir,
            number_of(ratio),
            Box::new(layout_view(*a)),
            Box::new(layout_view(*b)),
        ),
    }
}

impl View for LayoutSnapshot {
    type V = LayoutV;

    open spec fn view(&self) -> LayoutV {
        layout_view(*self)
    }
}

impl View for TabSnapshot {
    type V = TabV;

    open spec fn view(&self) -> TabV {
        TabV { name: opt_text(self.name), cwd: opt_text(self.cwd) }
    }
}

impl View for PaneSnapshot {
    type V = PaneV;

    open spec fn view(&self) -> PaneV {
        PaneV {
            name: opt_text(self.name),
            tabs: self.tabs@.map_values(|t: TabSnapshot| t@),
            active_tab_index: self.active_tab_index,
        }
    }
}

impl View for ScreenSnapshot {
    type V = ScreenV;

    open spec fn view(&self) -> ScreenV {
        ScreenV {
            name: opt_text(self.name),
            layout: self.layout@,
            panes: self.panes@.map_values(|p: PaneSnapshot| p@),
            active_pane_index: self.active_pane_index,
        }
    }
}

impl View for WorkspaceSnapshot {
    type V = WorkspaceV;

    open spec fn view(&self) -> WorkspaceV {
        WorkspaceV {
            name: self.name@,
            screens: self.screens@.map_values(|s: ScreenSnapshot| s@),
            active_screen: self.active_screen,
        }
    }
}

impl View for SessionSnapshot {
    type V = SnapshotV;

    open spec fn view(&self) -> SnapshotV {
        SnapshotV {
            workspaces: self.workspaces@.map_values(|w: WorkspaceSnapshot| w@),
            active_workspace: self.active_workspace,
        }
    }
}

impl Default for SessionSnapshot {
    fn default() -> (r: SessionSnapshot)
        ensures
            r@ == (SnapshotV { workspaces: seq![], active_workspace: 0 }),
    {
        let r: SessionSnapshot = SessionSnapshot { workspaces: Vec::new(), active_workspace: 0 };
        assert(r@.workspaces =~= seq![]);
        r
    }
}

impl SessionSnapshot {
    pub fn is_empty(&self) -> (r: bool)
        ensures
            r == (self@.workspaces.len() == 0),
    {
        self.workspaces.len() == 0
    }
}

// ---- capture ------------------------------------------------------------------------------

/// What is kept of a tab: its surface's name and directory, where the surface is still there.
pub open spec fn tab_of(surface: Option<Surface>) -> TabV {
    match surface {
        Some(s) => TabV { name: opt_text(s.name), cwd: opt_text(s.cwd) },
        None => TabV { name: None, cwd: None },
    }
}

pub open spec fn pane_of(state: State, pane: Pane) -> PaneV {
    PaneV {
        name: opt_text(pane.name),
        tabs: pane.tabs@.map_values(|sid: SurfaceId| tab_of(state.surface_of(sid))),
        active_tab_index: pane.active_tab,
    }
}

/// A layout with each pane replaced by its position in `ids`.
pub open spec fn layout_of(node: NodeV, ids: Seq<PaneId>) -> LayoutV
    decreases node,
{
    match node {
        NodeV::Leaf(id) => LayoutV::Leaf(position_of(ids, id) as usize),
        NodeV::Split(dir, ratio, a, b) => LayoutV::Split(
            dir,
            ratio,
            Box::new(layout_of(*a, ids)),
            Box::new(layout_of(*b, ids)),
        ),
    }
}

pub open spec fn screen_of(state: State, screen: Screen) -> ScreenV {
    let ids = screen.root@.panes();
    ScreenV {
        name: opt_text(screen.name),
        layout: layout_of(screen.root@, ids),
        panes: ids.map_values(|id: PaneId| pane_of(state, state.pane_of(id)->0)),
        active_pane_index: position_of(ids, screen.active_pane) as usize,
    }
}

pub open spec fn workspace_of(state: State, ws: Workspace) -> WorkspaceV {
    WorkspaceV {
        name: ws.name@,
        screens: ws.screens@.map_values(|s: Screen| screen_of(state, s)),
        active_screen: ws.active_screen,
    }
}

/// What is kept of a whole session.
pub open spec fn snapshot_of(state: State) -> SnapshotV {
    SnapshotV {
        workspaces: state.workspaces@.map_values(|w: Workspace| workspace_of(state, w)),
        active_workspace: state.active_workspace,
    }
}

pub fn capture_node(node: &Node, ids: &Vec<PaneId>) -> (r: LayoutSnapshot)
    requires
        forall|id: PaneId| #[trigger] node@.panes().contains(id) ==> ids@.contains(id),
    ensures
        r@ == layout_of(node@, ids@),
    decreases node,
{
    match node {
        Node::Leaf(id) => {
            assert(node@.panes()[0] == *id);
            assert(node@.panes().contains(*id));
            LayoutSnapshot::Leaf(position(ids, *id))
        },
        Node::Split { dir, ratio, a, b } => {
            proof {
                assert forall|id: PaneId| #[trigger] a@.panes().contains(id) implies ids@.contains(
                    id,
                ) by {
                    let k = choose|k: int| 0 <= k < a@.panes().len() && a@.panes()[k] == id;
                    assert(node@.panes()[k] == id);
                    assert(node@.panes().contains(id));
                }
                assert forall|id: PaneId| #[trigger] b@.panes().contains(id) implies ids@.contains(
                    id,
                ) by {
                    let k = choose|k: int| 0 <= k < b@.panes().len() && b@.panes()[k] == id;
                    assert(node@.panes()[a@.panes().len() + k] == id);
                    assert(node@.panes().contains(id));
                }
            }
            LayoutSnapshot::Split {
                dir: *dir,
                ratio: number_copy(ratio),
                a: Box::new(capture_node(a, ids)),
                b: Box::new(capture_node(b, ids)),
            }
        },
    }
}

fn capture_pane(state: &State, pane: &Pane) -> (r: PaneSnapshot)
    ensures
        r@ == pane_of(*state, *pane),
{
    let mut tabs: Vec<TabSnapshot> = Vec::new();
    let mut i: usize = 0;
    while i < pane.tabs.len()
        invariant
            i <= pane.tabs.len(),
            tabs.len() == i,
            forall|k: int|
                0 <= k < i ==> (#[trigger] tabs@[k])@ == tab_of(state.surface_of(pane.tabs@[k])),
        decreases pane.tabs.len() - i,
    {
        let tab: TabSnapshot = match state.surface(pane.tabs[i]) {
            Some(s) => TabSnapshot { name: copy_opt(&s.name), cwd: copy_opt(&s.cwd) },
            None => TabSnapshot { name: None, cwd: None },
        };
        tabs.push(tab);
        i = i + 1;
    }
    let r: PaneSnapshot = PaneSnapshot {
        name: copy_opt(&pane.name),
        tabs,
        active_tab_index: pane.active_tab,
    };
    assert(r@.tabs =~= pane_of(*state, *pane).tabs);
    r
}

pub fn capture_screen(state: &State, screen: &Screen) -> (r: ScreenSnapshot)
    requires
        state.screen_ok(*screen),
    ensures
        r@ == screen_of(*state, *screen),
{
    let mut ids: Vec<PaneId> = Vec::new();
    screen.root.pane_ids(&mut ids);
    assert(ids@ =~= screen.root@.panes());
    let mut panes: Vec<PaneSnapshot> = Vec::new();
    let mut i: usize = 0;
    while i < ids.len()
        invariant
            i <= ids.len(),
            ids@ == screen.root@.panes(),
            state.screen_ok(*screen),
            panes.len() == i,
            forall|k: int|
                0 <= k < i ==> (#[trigger] panes@[k])@ == pane_of(
                    *state,
                    state.pane_of(ids@[k])->0,
                ),
        decreases ids.len() - i,
    {
        assert(ids@.contains(ids@[i as int]));
        match state.pane(ids[i]) {
            Some(pane) => {
                panes.push(capture_pane(state, pane));
            },
            None => {
                assert(false);
            },
        }
        i = i + 1;
    }
    let r: ScreenSnapshot = ScreenSnapshot {
        name: copy_opt(&screen.name),
        layout: capture_node(&screen.root, &ids),
        panes,
        active_pane_index: position(&ids, screen.active_pane),
    };
    assert(r@.panes =~= screen_of(*state, *screen).panes);
    r
}

/// What is kept of a session.
pub fn capture(state: &State) -> (r: SessionSnapshot)
    requires
        state.wf(),
    ensures
        r@ == snapshot_of(*state),
{
    let mut workspaces: Vec<WorkspaceSnapshot> = Vec::new();
    let mut w: usize = 0;
    while w < state.workspaces.len()
        invariant
            w <= state.workspaces.len(),
            state.wf(),
            workspaces.len() == w,
            forall|k: int|
                0 <= k < w ==> (#[trigger] workspaces@[k])@ == workspace_of(
                    *state,
                    state.workspaces@[k],
                ),
        decreases state.workspaces.len() - w,
    {
        let ws: &Workspace = &state.workspaces[w];
        let mut screens: Vec<ScreenSnapshot> = Vec::new();
        let mut i: usize = 0;
        while i < ws.screens.len()
            invariant
                w < state.workspaces.len(),
                ws == state.workspaces@[w as int],
                i <= ws.screens.len(),
                state.wf(),
                screens.len() == i,
                forall|k: int|
                    0 <= k < i ==> (#[trigger] screens@[k])@ == screen_of(*state, ws.screens@[k]),
            decreases ws.screens.len() - i,
        {
            assert(state.screen_ok(state.workspaces@[w as int].screens@[i as int]));
            screens.push(capture_screen(state, &ws.screens[i]));
            i = i + 1;
        }
        let one: WorkspaceSnapshot = WorkspaceSnapshot {
            name: owned(ws.name.as_str()),
            screens,
            active_screen: ws.active_screen,
        };
        assert(one@.screens =~= workspace_of(*state, *ws).screens);
        workspaces.push(one);
        w = w + 1;
    }
    let r: SessionSnapshot = SessionSnapshot {
        workspaces,
        active_workspace: state.active_workspace,
    };
    assert(r@.workspaces =~= snapshot_of(*state).workspaces);
    r
}

/// Whether every position in a layout is one of the `n` panes of its screen.
pub open spec fn leaves_in(layout: LayoutV, n: nat) -> bool
    decreases layout,
{
    match layout {
        LayoutV::Leaf(i) => i < n,
        LayoutV::Split(_, _, a, b) => leaves_in(*a, n) && leaves_in(*b, n),
    }
}

/// The layout with each position replaced by the pane that stands there.
pub open spec fn with_panes(layout: LayoutV, ids: Seq<PaneId>) -> NodeV
    decreases layout,
{
    match layout {
        LayoutV::Leaf(i) => NodeV::Leaf(ids[i as int]),
        LayoutV::Split(dir, ratio, a, b) => NodeV::Split(
            dir,
            ratio,
            Box::new(with_panes(*a, ids)),
            Box::new(with_panes(*b, ids)),
        ),
    }
}

/// A captured screen names only panes that it has, and its layout, with the panes put back, is
/// the layout that the screen had; so is its active pane.
pub proof fn law_capture_keeps_layout(state: State, screen: Screen)
    requires
        state.screen_ok(screen),
        screen.root@.panes().len() <= usize::MAX,
    ensures
        ({
            let ids = screen.root@.panes();
            let kept = screen_of(state, screen);
            &&& kept.panes.len() == ids.len()
            &&& leaves_in(kept.layout, kept.panes.len())
            &&& kept.active_pane_index < kept.panes.len()
            &&& with_panes(kept.layout, ids) == screen.root@
            &&& ids[kept.active_pane_index as int] == screen.active_pane
        }),
{
    let ids = screen.root@.panes();
    ids.index_of_first_ensures(screen.active_pane);
    assert forall|id: PaneId| #[trigger] screen.root@.panes().contains(id) implies ids.contains(
        id,
    ) by {}
    lemma_layout_kept(screen.root@, ids);
}

proof fn lemma_layout_kept(node: NodeV, ids: Seq<PaneId>)
    requires
        forall|id: PaneId| #[trigger] node.panes().contains(id) ==> ids.contains(id),
        ids.len() <= usize::MAX,
    ensures
        leaves_in(layout_of(node, ids), ids.len()),
        with_panes(layout_of(node, ids), ids) == node,
    decreases node,
{
    match node {
        NodeV::Leaf(id) => {
            assert(node.panes()[0] == id);
            assert(node.panes().contains(id));
            ids.index_of_first_ensures(id);
        },
        NodeV::Split(_, _, a, b) => {
            assert forall|id: PaneId| #[trigger] a.panes().contains(id) implies ids.contains(
                id,
            ) by {
                let k = choose|k: int| 0 <= k < a.panes().len() && a.panes()[k] == id;
                assert(node.panes()[k] == id);
                assert(node.panes().contains(id));
            }
            assert forall|id: PaneId| #[trigger] b.panes().contains(id) implies ids.contains(
                id,
            ) by {
                let k = choose|k: int| 0 <= k < b.panes().len() && b.panes()[k] == id;
                assert(node.panes()[a.panes().len() + k] == id);
                assert(node.panes().contains(id));
            }
            lemma_layout_kept(*a, ids);
            lemma_layout_kept(*b, ids);
        },
    }
}

// ---- restore ------------------------------------------------------------------------------

/// What is rebuilt of a snapshot.
#[derive(Debug)]
pub struct RestoreWorkspace {
    pub name: String,
    pub screens: Vec<RestoreScreen>,
    pub active_screen: usize,
}

#[derive(Debug)]
pub struct RestoreScreen {
    pub name: Option<String>,
    pub layout: RestoreLayout,
    pub panes: Vec<RestorePane>,
    pub active_pane_index: usize,
}

#[derive(Debug)]
pub enum RestoreLayout {
    Leaf(usize),
    Split { dir: SplitDir, ratio: serde_json::Number, a: Box<RestoreLayout>, b: Box<RestoreLayout> },
}

#[derive(Debug)]
pub struct RestorePane {
    pub name: Option<String>,
    pub tabs: Vec<RestoreTab>,
    pub active_tab_index: usize,
}

#[derive(Debug)]
pub struct RestoreTab {
    pub name: Option<String>,
    pub cwd: Option<String>,
}

pub open spec fn restore_layout_view(l: RestoreLayout) -> LayoutV
    decreases l,
{
    match l {
        RestoreLayout::Leaf(i) => LayoutV::Leaf(i),
        RestoreLayout::Split { dir, ratio, a, b } => LayoutV::Split(
            dir,
            number_of(ratio),
            Box::new(restore_layout_view(*a)),
            Box::new(restore_layout_view(*b)),
        ),
    }
}

impl View for RestoreLayout {
    type V = LayoutV;

    open spec fn view(&self) -> LayoutV {
        restore_layout_view(*self)
    }
}

impl View for RestoreTab {
    type V = TabV;

    open spec fn view(&self) -> TabV {
        TabV { name: opt_text(self.name), cwd: opt_text(self.cwd) }
    }
}

impl View for RestorePane {
    type V = PaneV;

    open spec fn view(&self) -> PaneV {
        PaneV {
            name: opt_text(self.name),
            tabs: self.tabs@.map_values(|t: RestoreTab| t@),
            active_tab_index: self.active_tab_index,
        }
    }
}

impl View for RestoreScreen {
    type V = ScreenV;

    open spec fn view(&self) -> ScreenV {
        ScreenV {
            name: opt_text(self.name),
            layout: self.layout@,
            panes: self.panes@.map_values(|p: RestorePane| p@),
            active_pane_index: self.active_pane_index,
        }
    }
}

impl View for RestoreWorkspace {
    type V = WorkspaceV;

    open spec fn view(&self) -> WorkspaceV {
        WorkspaceV {
            name: self.name@,
            screens: self.screens@.map_values(|s: RestoreScreen| s@),
            active_screen: self.active_screen,
        }
    }
}

pub fn restore_layout(layout: &LayoutSnapshot) -> (r: RestoreLayout)
    ensures
        r@ == layout@,
    decreases layout,
{
    match layout {
        LayoutSnapshot::Leaf(i) => RestoreLayout::Leaf(*i),
        LayoutSnapshot::Split { dir, ratio, a, b } => RestoreLayout::Split {
            dir: *dir,
            ratio: number_copy(ratio),
            a: Box::new(restore_layout(a)),
            b: Box::new(restore_layout(b)),
        },
    }
}

fn restore_pane(pane: &PaneSnapshot) -> (r: RestorePane)
    ensures
        r@ == pane@,
{
    let mut tabs: Vec<RestoreTab> = Vec::new();
    let mut i: usize = 0;
    while i < pane.tabs.len()
        invariant
            i <= pane.tabs.len(),
            tabs.len() == i,
            forall|k: int| 0 <= k < i ==> (#[trigger] tabs@[k])@ == pane.tabs@[k]@,
        decreases pane.tabs.len() - i,
    {
        tabs.push(
            RestoreTab { name: copy_opt(&pane.tabs[i].name), cwd: copy_opt(&pane.tabs[i].cwd) },
        );
        i = i + 1;
    }
    let r: RestorePane = RestorePane {
        name: copy_opt(&pane.name),
        tabs,
        active_tab_index: pane.active_tab_index,
    };
    assert(r@.tabs =~= pane@.tabs);
    r
}

fn restore_screen(screen: &ScreenSnapshot) -> (r: RestoreScreen)
    ensures
        r@ == screen@,
{
    let mut panes: Vec<RestorePane> = Vec::new();
    let mut i: usize = 0;
    while i < screen.panes.len()
        invariant
            i <= screen.panes.len(),
            panes.len() == i,
            forall|k: int| 0 <= k < i ==> (#[trigger] panes@[k])@ == screen.panes@[k]@,
        decreases screen.panes.len() - i,
    {
        panes.push(restore_pane(&screen.panes[i]));
        i = i + 1;
    }
    let r: RestoreScreen = RestoreScreen {
        name: copy_opt(&screen.name),
        layout: restore_layout(&screen.layout),
        panes,
        active_pane_index: screen.active_pane_index,
    };
    assert(r@.panes =~= screen@.panes);
    r
}

/// The workspaces to rebuild, and which of them is active: all that the snapshot holds.
pub fn workspaces(snapshot: &SessionSnapshot) -> (r: (Vec<RestoreWorkspace>, usize))
    ensures
        r.0@.map_values(|w: RestoreWorkspace| w@) == snapshot@.workspaces,
        r.1 == snapshot@.active_workspace,
{
    let mut out: Vec<RestoreWorkspace> = Vec::new();
    let mut w: usize = 0;
    while w < snapshot.workspaces.len()
        invariant
            w <= snapshot.workspaces.len(),
            out.len() == w,
            forall|k: int| 0 <= k < w ==> (#[trigger] out@[k])@ == snapshot.workspaces@[k]@,
        decreases snapshot.workspaces.len() - w,
    {
        let ws: &WorkspaceSnapshot = &snapshot.workspaces[w];
        let mut screens: Vec<RestoreScreen> = Vec::new();
        let mut i: usize = 0;
        while i < ws.screens.len()
            invariant
                i <= ws.screens.len(),
                screens.len() == i,
                forall|k: int| 0 <= k < i ==> (#[trigger] screens@[k])@ == ws.screens@[k]@,
            decreases ws.screens.len() - i,
        {
            screens.push(restore_screen(&ws.screens[i]));
            i = i + 1;
        }
        let one: RestoreWorkspace = RestoreWorkspace {
            name: owned(ws.name.as_str()),
            screens,
            active_screen: ws.active_screen,
        };
        assert(one@.screens =~= ws@.screens);
        out.push(one);
        w = w + 1;
    }
    assert(out@.map_values(|w: RestoreWorkspace| w@) =~= snapshot@.workspaces);
    (out, snapshot.active_workspace)
}

// ---- shell words --------------------------------------------------------------------------

/// The text with each single quote written so that it can stand in single quotes.
pub open spec fn quote_body(s: Seq<char>) -> Seq<char>
    decreases s.len(),
{
    if s.len() == 0 {
        seq![]
    } else if s[0] == '\'' {
        seq!['\'', '\\', '\'', '\''] + quote_body(s.skip(1))
    } else {
        seq![s[0]] + quote_body(s.skip(1))
    }
}

/// A text as one word of the shell.
pub open spec fn shell_quoted(s: Seq<char>) -> Seq<char> {
    seq!['\''] + quote_body(s) + seq!['\'']
}

/// Quotes a path as a single shell word.
pub fn shell_quote(path: &str) -> (r: String)
    ensures
        r@ == shell_quoted(path@),
{
    let chars: Vec<char> = chars_of(path);
    let mut out: String = String::new();
    out.push('\'');
    let mut i: usize = 0;
    proof {
        assert(chars@.skip(0) =~= path@);
        assert(out@ =~= seq!['\'']);
    }
    while i < chars.len()
        invariant
            i <= chars.len(),
            chars@ == path@,
            seq!['\''] + quote_body(path@) == out@ + quote_body(chars@.skip(i as int)),
        decreases chars.len() - i,
    {
        let ghost before = out@;
        proof {
            assert(chars@.skip(i as int).skip(1) =~= chars@.skip(i + 1));
        }
        if chars[i] == '\'' {
            out.push('\'');
            out.push('\\');
            out.push('\'');
            out.push('\'');
            assert(out@ =~= before + seq!['\'', '\\', '\'', '\'']);
        } else {
            out.push(chars[i]);
            assert(out@ =~= before + seq![chars@[i as int]]);
        }
        i = i + 1;
        assert(before + quote_body(chars@.skip(i - 1)) =~= out@ + quote_body(chars@.skip(i as int)));
    }
    proof {
        assert(chars@.skip(i as int) =~= seq![]);
        assert(out@ =~= seq!['\''] + quote_body(path@));
    }
    let ghost before = out@;
    out.push('\'');
    assert(out@ =~= before + seq!['\'']);
    out
}

/// How a shell reads a word: between single quotes every character stands for itself; outside
/// of them a backslash makes the next one do so, and a blank ends the word. Nothing where the
/// text is not exactly one word.
pub open spec fn shell_word(s: Seq<char>, in_quotes: bool) -> Option<Seq<char>>
    decreases s.len(),
{
    if s.len() == 0 {
        if in_quotes {
            None
        } else {
            Some(seq![])
        }
    } else if s[0] == '\'' {
        shell_word(s.skip(1), !in_quotes)
    } else if in_quotes {
        match shell_word(s.skip(1), true) {
            Some(rest) => Some(seq![s[0]] + rest),
            None => None,
        }
    } else if s[0] == '\\' {
        if s.len() == 1 {
            None
        } else {
            match shell_word(s.skip(2), false) {
                Some(rest) => Some(seq![s[1]] + rest),
                None => None,
            }
        }
    } else if s[0] == ' ' || s[0] == '\t' || s[0] == '\n' {
        None
    } else {
        match shell_word(s.skip(1), false) {
            Some(rest) => Some(seq![s[0]] + rest),
            None => None,
        }
    }
}

/// A shell reads a quoted path as one word, and that word is the path.
pub proof fn law_shell_quote(path: Seq<char>)
    ensures
        shell_word(shell_quoted(path), false) == Some(path),
{
    let word = shell_quoted(path);
    assert(word.skip(1) =~= quote_body(path) + seq!['\'']);
    lemma_quote_body(path);
}

proof fn lemma_quote_body(s: Seq<char>)
    ensures
        shell_word(quote_body(s) + seq!['\''], true) == Some(s),
    decreases s.len(),
{
    let end = seq!['\''];
    let word = quote_body(s) + end;
    if s.len() == 0 {
        assert(word =~= end);
        assert(end.skip(1) =~= seq![]);
        assert(s =~= seq![]);
        assert(shell_word(end.skip(1), false) == Some(Seq::<char>::empty()));
    } else {
        let rest = quote_body(s.skip(1)) + end;
        lemma_quote_body(s.skip(1));
        assert(seq![s[0]] + s.skip(1) =~= s);
        if s[0] == '\'' {
            assert(word =~= seq!['\'', '\\', '\'', '\''] + rest);
            let w1 = word.skip(1);
            assert(w1 =~= seq!['\\', '\'', '\''] + rest);
            let w3 = w1.skip(2);
            assert(w3 =~= seq!['\''] + rest);
            assert(w3.skip(1) =~= rest);
            assert(shell_word(w3, false) == shell_word(rest, true));
            assert(w1[1] == '\'');
            assert(shell_word(w1, false) == Some(seq!['\''] + s.skip(1)));
        } else {
            assert(word =~= seq![s[0]] + rest);
            assert(word.skip(1) =~= rest);
        }
    }
}

// ---- the file -----------------------------------------------------------------------------

pub open spec fn dir_text(dir: SplitDir) -> Seq<char> {
    match dir {
        SplitDir::Right => "Right"@,
        SplitDir::Down => "Down"@,
    }
}

pub open spec fn dir_from(s: Seq<char>) -> Option<SplitDir> {
    if s == "Right"@ {
        Some(SplitDir::Right)
    } else if s == "Down"@ {
        Some(SplitDir::Down)
    } else {
        None
    }
}

/// A layout as JSON: an object of one field, which says which of the two it is.
pub open spec fn layout_json(l: LayoutV) -> JsonV
    decreases l,
{
    match l {
        LayoutV::Leaf(i) => empty_object().with("Leaf"@, unsigned(i as u64)),
        LayoutV::Split(dir, ratio, a, b) => empty_object().with(
            "Split"@,
            empty_object().with("dir"@, JsonV::Text(dir_text(dir))).with(
                "ratio"@,
                JsonV::Number(ratio),
            ).with("a"@, layout_json(*a)).with("b"@, layout_json(*b)),
        ),
    }
}

/// The layout that a value is the JSON of.
pub open spec fn layout_from(j: JsonV) -> Option<LayoutV>
    decreases j,
{
    proof {
        lemma_field_decreases(j, "Split"@);
        if let Some(inner) = j.field("Split"@) {
            lemma_part_decreases(inner, "a"@, 2, 4);
            lemma_part_decreases(inner, "b"@, 3, 4);
        }
    }
    if j.only("Leaf"@) && j.field("Leaf"@) is Some {
        match j.field_index("Leaf"@) {
            Some(i) => Some(LayoutV::Leaf(i)),
            None => None,
        }
    } else if j.only("Split"@) && j.field("Split"@) is Some {
        let inner = j.field("Split"@)->0;
        match (
            inner.part_chars("dir"@, 0, 4),
            inner.part("ratio"@, 1, 4),
            inner.part("a"@, 2, 4),
            inner.part("b"@, 3, 4),
        ) {
            (Some(dir), Some(JsonV::Number(ratio)), Some(a), Some(b)) => match (
                dir_from(dir),
                layout_from(a),
                layout_from(b),
            ) {
                (Some(dir), Some(a), Some(b)) => Some(
                    LayoutV::Split(dir, ratio, Box::new(a), Box::new(b)),
                ),
                _ => None,
            },
            _ => None,
        }
    } else {
        None
    }
}

pub open spec fn tab_json(t: TabV) -> JsonV {
    empty_object().with("name"@, text_or_null(t.name)).with("cwd"@, text_or_null(t.cwd))
}

pub open spec fn tab_from(j: JsonV) -> Option<TabV> {
    match (
        j.is_record(2),
        j.part_opt_chars("name"@, 0, 2),
        j.part_opt_chars("cwd"@, 1, 2),
    ) {
        (true, Some(name), Some(cwd)) => Some(TabV { name, cwd }),
        _ => None,
    }
}

pub open spec fn pane_json(p: PaneV) -> JsonV {
    empty_object().with("name"@, text_or_null(p.name)).with(
        "tabs"@,
        JsonV::List(p.tabs.map_values(|t: TabV| tab_json(t))),
    ).with("active_tab_index"@, unsigned(p.active_tab_index as u64))
}

pub open spec fn pane_from(j: JsonV) -> Option<PaneV> {
    match (
        j.part_opt_chars("name"@, 0, 3),
        j.part_items("tabs"@, 1, 3),
        j.part_index("active_tab_index"@, 2, 3),
    ) {
        (Some(name), Some(tabs), Some(active_tab_index)) => match all_some(
            tabs.map_values(|t: JsonV| tab_from(t)),
        ) {
            Some(tabs) => Some(PaneV { name, tabs, active_tab_index }),
            None => None,
        },
        _ => None,
    }
}

pub open spec fn screen_json(s: ScreenV) -> JsonV {
    empty_object().with("name"@, text_or_null(s.name)).with("layout"@, layout_json(s.layout)).with(
        "panes"@,
        JsonV::List(s.panes.map_values(|p: PaneV| pane_json(p))),
    ).with("active_pane_index"@, unsigned(s.active_pane_index as u64))
}

pub open spec fn screen_from(j: JsonV) -> Option<ScreenV> {
    match (
        j.part_opt_chars("name"@, 0, 4),
        j.part("layout"@, 1, 4),
        j.part_items("panes"@, 2, 4),
        j.part_index("active_pane_index"@, 3, 4),
    ) {
        (Some(name), Some(layout), Some(panes), Some(active_pane_index)) => match (
            layout_from(layout),
            all_some(panes.map_values(|p: JsonV| pane_from(p))),
        ) {
            (Some(layout), Some(panes)) => Some(
                ScreenV { name, layout, panes, active_pane_index },
            ),
            _ => None,
        },
        _ => None,
    }
}

pub open spec fn workspace_json(w: WorkspaceV) -> JsonV {
    empty_object().with("name"@, JsonV::Text(w.name)).with(
        "screens"@,
        JsonV::List(w.screens.map_values(|s: ScreenV| screen_json(s))),
    ).with("active_screen"@, unsigned(w.active_screen as u64))
}

pub open spec fn workspace_from(j: JsonV) -> Option<WorkspaceV> {
    match (
        j.part_chars("name"@, 0, 3),
        j.part_items("screens"@, 1, 3),
        j.part_index("active_screen"@, 2, 3),
    ) {
        (Some(name), Some(screens), Some(active_screen)) => match all_some(
            screens.map_values(|s: JsonV| screen_from(s)),
        ) {
            Some(screens) => Some(WorkspaceV { name, screens, active_screen }),
            None => None,
        },
        _ => None,
    }
}

/// A snapshot as JSON.
pub open spec fn snapshot_json(s: SnapshotV) -> JsonV {
    empty_object().with(
        "workspaces"@,
        JsonV::List(s.workspaces.map_values(|w: WorkspaceV| workspace_json(w))),
    ).with("active_workspace"@, unsigned(s.active_workspace as u64))
}

/// The snapshot that a value is the JSON of.
pub open spec fn snapshot_from(j: JsonV) -> Option<SnapshotV> {
    match (
        j.part_items("workspaces"@, 0, 2),
        j.part_index("active_workspace"@, 1, 2),
    ) {
        (Some(list), Some(active_workspace)) => match all_some(
            list.map_values(|w: JsonV| workspace_from(w)),
        ) {
            Some(workspaces) => Some(SnapshotV { workspaces, active_workspace }),
            None => None,
        },
        _ => None,
    }
}

// ---- what is written is read back ---------------------------------------------------------

/// The names of the fields differ.
proof fn lemma_names_differ()
    ensures
        "Leaf"@ != "Split"@,
        "Right"@ != "Down"@,
        "dir"@ != "ratio"@,
        "dir"@ != "a"@,
        "dir"@ != "b"@,
        "ratio"@ != "a"@,
        "ratio"@ != "b"@,
        "a"@ != "b"@,
        "name"@ != "cwd"@,
        "name"@ != "tabs"@,
        "name"@ != "active_tab_index"@,
        "tabs"@ != "active_tab_index"@,
        "name"@ != "layout"@,
        "name"@ != "panes"@,
        "name"@ != "active_pane_index"@,
        "layout"@ != "panes"@,
        "layout"@ != "active_pane_index"@,
        "panes"@ != "active_pane_index"@,
        "name"@ != "screens"@,
        "name"@ != "active_screen"@,
        "screens"@ != "active_screen"@,
        "workspaces"@ != "active_workspace"@,
{
    reveal_strlit("Leaf");
    reveal_strlit("Split");
    reveal_strlit("Right");
    reveal_strlit("Down");
    reveal_strlit("dir");
    reveal_strlit("ratio");
    reveal_strlit("a");
    reveal_strlit("b");
    reveal_strlit("name");
    reveal_strlit("cwd");
    reveal_strlit("tabs");
    reveal_strlit("active_tab_index");
    reveal_strlit("layout");
    reveal_strlit("panes");
    reveal_strlit("active_pane_index");
    reveal_strlit("screens");
    reveal_strlit("active_screen");
    reveal_strlit("workspaces");
    reveal_strlit("active_workspace");
    assert("Leaf"@.len() == 4 && "Leaf"@[0] == 'L');
    assert("Split"@.len() == 5 && "Split"@[0] == 'S');
    assert("Right"@.len() == 5 && "Right"@[0] == 'R');
    assert("Down"@.len() == 4 && "Down"@[0] == 'D');
    assert("dir"@.len() == 3 && "dir"@[0] == 'd');
    assert("ratio"@.len() == 5 && "ratio"@[0] == 'r');
    assert("a"@.len() == 1 && "a"@[0] == 'a');
    assert("b"@.len() == 1 && "b"@[0] == 'b');
    assert("name"@.len() == 4 && "name"@[0] == 'n');
    assert("cwd"@.len() == 3 && "cwd"@[0] == 'c');
    assert("tabs"@.len() == 4 && "tabs"@[0] == 't');
    assert("active_tab_index"@.len() == 16 && "active_tab_index"@[0] == 'a');
    assert("layout"@.len() == 6 && "layout"@[0] == 'l');
    assert("panes"@.len() == 5 && "panes"@[0] == 'p');
    assert("active_pane_index"@.len() == 17 && "active_pane_index"@[0] == 'a');
    assert("screens"@.len() == 7 && "screens"@[0] == 's');
    assert("active_screen"@.len() == 13 && "active_screen"@[0] == 'a');
    assert("workspaces"@.len() == 10 && "workspaces"@[0] == 'w');
    assert("active_workspace"@.len() == 16 && "active_workspace"@[0] == 'a');
}

/// Decoding the JSON of every item gives the items back.
proof fn lemma_all_back<A>(s: Seq<A>, to: spec_fn(A) -> JsonV, from: spec_fn(JsonV) -> Option<A>)
    requires
        forall|i: int| 0 <= i < s.len() ==> from(to(#[trigger] s[i])) == Some(s[i]),
    ensures
        all_some(s.map_values(to).map_values(from)) == Some(s),
{
    let back = s.map_values(to).map_values(from);
    assert forall|i: int| 0 <= i < back.len() implies (#[trigger] back[i]) is Some by {
        assert(back[i] == from(to(s[i])));
    }
    assert(back.map_values(|x: Option<A>| x->0) =~= s) by {
        assert forall|i: int| 0 <= i < s.len() implies back.map_values(|x: Option<A>| x->0)[i]
            == s[i] by {
            assert(back[i] == from(to(s[i])));
        }
    }
}

/// A layout is read back as it was written.
pub proof fn law_layout_json(l: LayoutV)
    ensures
        layout_from(layout_json(l)) == Some(l),
    decreases l,
{
    lemma_names_differ();
    let j = layout_json(l);
    match l {
        LayoutV::Leaf(i) => {
            assert(j.field("Leaf"@) == Some(unsigned(i as u64)));
            assert(j.only("Leaf"@));
        },
        LayoutV::Split(dir, ratio, a, b) => {
            law_layout_json(*a);
            law_layout_json(*b);
            let inner = empty_object().with("dir"@, JsonV::Text(dir_text(dir))).with(
                "ratio"@,
                JsonV::Number(ratio),
            ).with("a"@, layout_json(*a)).with("b"@, layout_json(*b));
            assert(j.field("Split"@) == Some(inner));
            assert(j.only("Split"@));
            assert(j.field("Leaf"@) is None);
            assert(inner.field("a"@) == Some(layout_json(*a)));
            assert(inner.field("b"@) == Some(layout_json(*b)));
            assert(inner.field("ratio"@) == Some(JsonV::Number(ratio)));
            assert(inner.field_chars("dir"@) == Some(dir_text(dir)));
        },
    }
}

proof fn lemma_tab_back(t: TabV)
    ensures
        tab_from(tab_json(t)) == Some(t),
{
    lemma_names_differ();
}

proof fn lemma_pane_back(p: PaneV)
    ensures
        pane_from(pane_json(p)) == Some(p),
{
    lemma_names_differ();
    let to = |t: TabV| tab_json(t);
    let from = |t: JsonV| tab_from(t);
    assert forall|i: int| 0 <= i < p.tabs.len() implies from(to(#[trigger] p.tabs[i])) == Some(
        p.tabs[i],
    ) by {
        lemma_tab_back(p.tabs[i]);
    }
    lemma_all_back(p.tabs, to, from);
    let j = pane_json(p);
    assert(j.field_items("tabs"@) == Some(p.tabs.map_values(to)));
    assert(j.field_opt_chars("name"@) == Some(p.name));
    assert(j.field_index("active_tab_index"@) == Some(p.active_tab_index));
}

proof fn lemma_screen_back(s: ScreenV)
    ensures
        screen_from(screen_json(s)) == Some(s),
{
    lemma_names_differ();
    let to = |p: PaneV| pane_json(p);
    let from = |p: JsonV| pane_from(p);
    assert forall|i: int| 0 <= i < s.panes.len() implies from(to(#[trigger] s.panes[i])) == Some(
        s.panes[i],
    ) by {
        lemma_pane_back(s.panes[i]);
    }
    lemma_all_back(s.panes, to, from);
    law_layout_json(s.layout);
    let j = screen_json(s);
    assert(j.field_items("panes"@) == Some(s.panes.map_values(to)));
    assert(j.field_opt_chars("name"@) == Some(s.name));
    assert(j.field("layout"@) == Some(layout_json(s.layout)));
    assert(j.field_index("active_pane_index"@) == Some(s.active_pane_index));
}

proof fn lemma_workspace_back(w: WorkspaceV)
    ensures
        workspace_from(workspace_json(w)) == Some(w),
{
    lemma_names_differ();
    let to = |s: ScreenV| screen_json(s);
    let from = |s: JsonV| screen_from(s);
    assert forall|i: int| 0 <= i < w.screens.len() implies from(to(#[trigger] w.screens[i]))
        == Some(w.screens[i]) by {
        lemma_screen_back(w.screens[i]);
    }
    lemma_all_back(w.screens, to, from);
    let j = workspace_json(w);
    assert(j.field_items("screens"@) == Some(w.screens.map_values(to)));
    assert(j.field_chars("name"@) == Some(w.name));
    assert(j.field_index("active_screen"@) == Some(w.active_screen));
}

/// A snapshot is read back as it was written.
pub proof fn law_snapshot_json(s: SnapshotV)
    ensures
        snapshot_from(snapshot_json(s)) == Some(s),
{
    lemma_names_differ();
    let to = |w: WorkspaceV| workspace_json(w);
    let from = |w: JsonV| workspace_from(w);
    assert forall|i: int| 0 <= i < s.workspaces.len() implies from(to(#[trigger] s.workspaces[i]))
        == Some(s.workspaces[i]) by {
        lemma_workspace_back(s.workspaces[i]);
    }
    lemma_all_back(s.workspaces, to, from);
    let j = snapshot_json(s);
    assert(j.field_items("workspaces"@) == Some(s.workspaces.map_values(to)));
    assert(j.field_index("active_workspace"@) == Some(s.active_workspace));
}

// ---- writing and reading ------------------------------------------------------------------

fn dir_name(dir: SplitDir) -> (r: &'static str)
    ensures
        r@ == dir_text(dir),
{
    match dir {
        SplitDir::Right => "Right",
        SplitDir::Down => "Down",
    }
}

fn write_layout(l: &LayoutSnapshot) -> (r: Json)
    ensures
        r@ == layout_json(l@),
    decreases l,
{
    let mut out: Json = Json::object();
    match l {
        LayoutSnapshot::Leaf(i) => {
            out.set("Leaf", Json::unsigned(*i as u64));
        },
        LayoutSnapshot::Split { dir, ratio, a, b } => {
            let mut inner: Json = Json::object();
            inner.set("dir", Json::text(dir_name(*dir)));
            inner.set("ratio", Json::Number(number_copy(ratio)));
            inner.set("a", write_layout(a));
            inner.set("b", write_layout(b));
            out.set("Split", inner);
        },
    }
    out
}

fn write_pane(p: &PaneSnapshot) -> (r: Json)
    ensures
        r@ == pane_json(p@),
{
    let mut tabs: Vec<Json> = Vec::new();
    let mut i: usize = 0;
    while i < p.tabs.len()
        invariant
            i <= p.tabs.len(),
            tabs.len() == i,
            forall|k: int| 0 <= k < i ==> json_view(#[trigger] tabs@[k]) == tab_json(p.tabs@[k]@),
        decreases p.tabs.len() - i,
    {
        let mut tab: Json = Json::object();
        tab.set("name", Json::text_or_null(&p.tabs[i].name));
        tab.set("cwd", Json::text_or_null(&p.tabs[i].cwd));
        tabs.push(tab);
        i = i + 1;
    }
    assert(list_view(tabs@) =~= p@.tabs.map_values(|t: TabV| tab_json(t)));
    let mut out: Json = Json::object();
    out.set("name", Json::text_or_null(&p.name));
    out.set("tabs", Json::List(tabs));
    out.set("active_tab_index", Json::unsigned(p.active_tab_index as u64));
    out
}

fn write_screen(s: &ScreenSnapshot) -> (r: Json)
    ensures
        r@ == screen_json(s@),
{
    let mut panes: Vec<Json> = Vec::new();
    let mut i: usize = 0;
    while i < s.panes.len()
        invariant
            i <= s.panes.len(),
            panes.len() == i,
            forall|k: int| 0 <= k < i ==> json_view(#[trigger] panes@[k]) == pane_json(s.panes@[k]@),
        decreases s.panes.len() - i,
    {
        panes.push(write_pane(&s.panes[i]));
        i = i + 1;
    }
    assert(list_view(panes@) =~= s@.panes.map_values(|p: PaneV| pane_json(p)));
    let mut out: Json = Json::object();
    out.set("name", Json::text_or_null(&s.name));
    out.set("layout", write_layout(&s.layout));
    out.set("panes", Json::List(panes));
    out.set("active_pane_index", Json::unsigned(s.active_pane_index as u64));
    out
}

fn write_workspace(w: &WorkspaceSnapshot) -> (r: Json)
    ensures
        r@ == workspace_json(w@),
{
    let mut screens: Vec<Json> = Vec::new();
    let mut i: usize = 0;
    while i < w.screens.len()
        invariant
            i <= w.screens.len(),
            screens.len() == i,
            forall|k: int|
                0 <= k < i ==> json_view(#[trigger] screens@[k]) == screen_json(w.screens@[k]@),
        decreases w.screens.len() - i,
    {
        screens.push(write_screen(&w.screens[i]));
        i = i + 1;
    }
    assert(list_view(screens@) =~= w@.screens.map_values(|s: ScreenV| screen_json(s)));
    let mut out: Json = Json::object();
    out.set("name", Json::text(w.name.as_str()));
    out.set("screens", Json::List(screens));
    out.set("active_screen", Json::unsigned(w.active_screen as u64));
    out
}

fn read_layout(j: &Json) -> (r: Option<LayoutSnapshot>)
    ensures
        match r {
            Some(l) => layout_from(j@) == Some(l@),
            None => layout_from(j@) is None,
        },
    decreases j,
{
    if j.only("Leaf") && j.get("Leaf").is_some() {
        return match j.field_index("Leaf") {
            Some(i) => Some(LayoutSnapshot::Leaf(i)),
            None => None,
        };
    }
    if !j.only("Split") {
        return None;
    }
    match j.get("Split") {
        None => None,
        Some(inner) => {
            match (
                inner.part_chars("dir", 0, 4),
                inner.part("ratio", 1, 4),
                inner.part("a", 2, 4),
                inner.part("b", 3, 4),
            ) {
                (Some(dir), Some(Json::Number(ratio)), Some(a), Some(b)) => {
                    let dir: Option<SplitDir> = if same(dir, "Right") {
                        Some(SplitDir::Right)
                    } else if same(dir, "Down") {
                        Some(SplitDir::Down)
                    } else {
                        None
                    };
                    match (dir, read_layout(a), read_layout(b)) {
                        (Some(dir), Some(a), Some(b)) => Some(
                            LayoutSnapshot::Split {
                                dir,
                                ratio: number_copy(ratio),
                                a: Box::new(a),
                                b: Box::new(b),
                            },
                        ),
                        _ => None,
                    }
                },
                _ => None,
            }
        },
    }
}

fn read_tab(j: &Json) -> (r: Option<TabSnapshot>)
    ensures
        match r {
            Some(t) => tab_from(j@) == Some(t@),
            None => tab_from(j@) is None,
        },
{
    if !j.is_record(2) {
        return None;
    }
    match (j.part_opt_chars("name", 0, 2), j.part_opt_chars("cwd", 1, 2)) {
        (Some(name), Some(cwd)) => Some(TabSnapshot { name, cwd }),
        _ => None,
    }
}

#[verifier::loop_isolation(false)]
fn read_pane(j: &Json) -> (r: Option<PaneSnapshot>)
    ensures
        match r {
            Some(p) => pane_from(j@) == Some(p@),
            None => pane_from(j@) is None,
        },
{
    match (
        j.part_opt_chars("name", 0, 3),
        j.part_items("tabs", 1, 3),
        j.part_index("active_tab_index", 2, 3),
    ) {
        (Some(name), Some(items), Some(active_tab_index)) => {
            let ghost found = list_view(items@).map_values(|t: JsonV| tab_from(t));
            let mut tabs: Vec<TabSnapshot> = Vec::new();
            let mut i: usize = 0;
            while i < items.len()
                invariant
                    i <= items.len(),
                    tabs.len() == i,
                    found == list_view(items@).map_values(|t: JsonV| tab_from(t)),
                    forall|k: int| 0 <= k < i ==> #[trigger] found[k] == Some(tabs@[k]@),
                decreases items.len() - i,
            {
                assert(found[i as int] == tab_from(items@[i as int]@));
                match read_tab(&items[i]) {
                    Some(t) => {
                        tabs.push(t);
                    },
                    None => {
                        return None;
                    },
                }
                i = i + 1;
            }
            let p: PaneSnapshot = PaneSnapshot { name, tabs, active_tab_index };
            assert(found.map_values(|x: Option<TabV>| x->0) =~= p@.tabs);
            Some(p)
        },
        _ => None,
    }
}

#[verifier::loop_isolation(false)]
fn read_screen(j: &Json) -> (r: Option<ScreenSnapshot>)
    ensures
        match r {
            Some(s) => screen_from(j@) == Some(s@),
            None => screen_from(j@) is None,
        },
{
    match (
        j.part_opt_chars("name", 0, 4),
        j.part("layout", 1, 4),
        j.part_items("panes", 2, 4),
        j.part_index("active_pane_index", 3, 4),
    ) {
        (Some(name), Some(layout), Some(items), Some(active_pane_index)) => {
            let layout: LayoutSnapshot = match read_layout(layout) {
                Some(l) => l,
                None => {
                    return None;
                },
            };
            let ghost found = list_view(items@).map_values(|p: JsonV| pane_from(p));
            let mut panes: Vec<PaneSnapshot> = Vec::new();
            let mut i: usize = 0;
            while i < items.len()
                invariant
                    i <= items.len(),
                    panes.len() == i,
                    found == list_view(items@).map_values(|p: JsonV| pane_from(p)),
                    forall|k: int| 0 <= k < i ==> #[trigger] found[k] == Some(panes@[k]@),
                decreases items.len() - i,
            {
                assert(found[i as int] == pane_from(items@[i as int]@));
                match read_pane(&items[i]) {
                    Some(p) => {
                        panes.push(p);
                    },
                    None => {
                        return None;
                    },
                }
                i = i + 1;
            }
            let s: ScreenSnapshot = ScreenSnapshot { name, layout, panes, active_pane_index };
            assert(found.map_values(|x: Option<PaneV>| x->0) =~= s@.panes);
            Some(s)
        },
        _ => None,
    }
}

#[verifier::loop_isolation(false)]
fn read_workspace(j: &Json) -> (r: Option<WorkspaceSnapshot>)
    ensures
        match r {
            Some(w) => workspace_from(j@) == Some(w@),
            None => workspace_from(j@) is None,
        },
{
    match (
        j.part_chars("name", 0, 3),
        j.part_items("screens", 1, 3),
        j.part_index("active_screen", 2, 3),
    ) {
        (Some(name), Some(items), Some(active_screen)) => {
            let ghost found = list_view(items@).map_values(|s: JsonV| screen_from(s));
            let mut screens: Vec<ScreenSnapshot> = Vec::new();
            let mut i: usize = 0;
            while i < items.len()
                invariant
                    i <= items.len(),
                    screens.len() == i,
                    found == list_view(items@).map_values(|s: JsonV| screen_from(s)),
                    forall|k: int| 0 <= k < i ==> #[trigger] found[k] == Some(screens@[k]@),
                decreases items.len() - i,
            {
                assert(found[i as int] == screen_from(items@[i as int]@));
                match read_screen(&items[i]) {
                    Some(s) => {
                        screens.push(s);
                    },
                    None => {
                        return None;
                    },
                }
                i = i + 1;
            }
            let w: WorkspaceSnapshot = WorkspaceSnapshot {
                name: owned(name),
                screens,
                active_screen,
            };
            assert(found.map_values(|x: Option<ScreenV>| x->0) =~= w@.screens);
            Some(w)
        },
        _ => None,
    }
}

/// How many splits may stand around one another in a layout that is read back.
pub const MAX_SPLITS: u64 = 60;

/// How many splits stand around one another in a layout.
pub open spec fn layout_depth(l: LayoutV) -> nat
    decreases l,
{
    match l {
        LayoutV::Leaf(_) => 0,
        LayoutV::Split(_, _, a, b) => 1 + if layout_depth(*a) < layout_depth(*b) {
            layout_depth(*b)
        } else {
            layout_depth(*a)
        },
    }
}

/// Whether in no layout more than `depth` splits stand around one another.
pub open spec fn layouts_within(s: SnapshotV, depth: nat) -> bool {
    forall|w: int, i: int|
        0 <= w < s.workspaces.len() && 0 <= i < s.workspaces[w].screens.len() ==> layout_depth(
            (#[trigger] s.workspaces[w].screens[i]).layout,
        ) <= depth
}

proof fn lemma_layout_nests(l: LayoutV, depth: nat)
    requires
        depth >= 2 * layout_depth(l) + 1,
    ensures
        nests(layout_json(l), depth),
    decreases l,
{
    match l {
        LayoutV::Leaf(i) => {
            let m = layout_json(l)->Object_0;
            assert forall|k: Seq<char>| #[trigger] m.dom().contains(k) implies nests(
                m[k],
                (depth - 1) as nat,
            ) by {
                assert(m[k] is Number);
            }
        },
        LayoutV::Split(dir, ratio, a, b) => {
            let under = (depth - 2) as nat;
            lemma_layout_nests(*a, under);
            lemma_layout_nests(*b, under);
            let inner = empty_object().with("dir"@, JsonV::Text(dir_text(dir))).with(
                "ratio"@,
                JsonV::Number(ratio),
            ).with("a"@, layout_json(*a)).with("b"@, layout_json(*b));
            let m = inner->Object_0;
            assert forall|k: Seq<char>| #[trigger] m.dom().contains(k) implies nests(m[k], under) by {
                assert(m[k] is Text || m[k] is Number || m[k] == layout_json(*a) || m[k]
                    == layout_json(*b));
            }
            assert(nests(inner, (depth - 1) as nat));
            let outer = layout_json(l)->Object_0;
            assert forall|k: Seq<char>| #[trigger] outer.dom().contains(k) implies nests(
                outer[k],
                (depth - 1) as nat,
            ) by {
                assert(outer[k] == inner);
            }
        },
    }
}

proof fn lemma_pane_nests(p: PaneV)
    ensures
        nests(pane_json(p), 10),
{
    let tabs = p.tabs.map_values(|t: TabV| tab_json(t));
    assert forall|i: int| 0 <= i < tabs.len() implies nests(#[trigger] tabs[i], 8) by {
        let m = tabs[i]->Object_0;
        assert forall|k: Seq<char>| #[trigger] m.dom().contains(k) implies nests(m[k], 7) by {
            assert(m[k] is Text || m[k] is Null);
        }
    }
    let list = JsonV::List(tabs);
    assert(nests(list, 9));
    let m = pane_json(p)->Object_0;
    assert forall|k: Seq<char>| #[trigger] m.dom().contains(k) implies nests(m[k], 9) by {
        assert(m[k] is Text || m[k] is Null || m[k] is Number || m[k] == list);
    }
}

/// A value that nests within a depth nests within a greater one.
proof fn lemma_nests_more(j: JsonV, less: nat, more: nat)
    requires
        nests(j, less),
        less <= more,
    ensures
        nests(j, more),
    decreases less,
{
    match j {
        JsonV::List(s) => {
            assert forall|i: int| 0 <= i < s.len() implies nests(
                #[trigger] s[i],
                (more - 1) as nat,
            ) by {
                lemma_nests_more(s[i], (less - 1) as nat, (more - 1) as nat);
            }
        },
        JsonV::Object(m) => {
            assert forall|k: Seq<char>| #[trigger] m.dom().contains(k) implies nests(
                m[k],
                (more - 1) as nat,
            ) by {
                lemma_nests_more(m[k], (less - 1) as nat, (more - 1) as nat);
            }
        },
        _ => {},
    }
}

proof fn lemma_screen_nests(s: ScreenV)
    requires
        layout_depth(s.layout) <= MAX_SPLITS,
    ensures
        nests(screen_json(s), 122),
{
    lemma_layout_nests(s.layout, 121);
    let panes = s.panes.map_values(|p: PaneV| pane_json(p));
    assert forall|i: int| 0 <= i < panes.len() implies nests(#[trigger] panes[i], 120) by {
        lemma_pane_nests(s.panes[i]);
        lemma_nests_more(panes[i], 10, 120);
    }
    let list = JsonV::List(panes);
    assert(nests(list, 121));
    let m = screen_json(s)->Object_0;
    assert forall|k: Seq<char>| #[trigger] m.dom().contains(k) implies nests(m[k], 121) by {
        assert(m[k] is Text || m[k] is Null || m[k] is Number || m[k] == list || m[k]
            == layout_json(s.layout));
    }
}

proof fn lemma_workspace_nests(w: WorkspaceV)
    requires
        forall|i: int|
            0 <= i < w.screens.len() ==> layout_depth((#[trigger] w.screens[i]).layout)
                <= MAX_SPLITS,
    ensures
        nests(workspace_json(w), 124),
{
    let screens = w.screens.map_values(|s: ScreenV| screen_json(s));
    assert forall|i: int| 0 <= i < screens.len() implies nests(#[trigger] screens[i], 122) by {
        lemma_screen_nests(w.screens[i]);
    }
    let list = JsonV::List(screens);
    assert(nests(list, 123));
    let m = workspace_json(w)->Object_0;
    assert forall|k: Seq<char>| #[trigger] m.dom().contains(k) implies nests(m[k], 123) by {
        assert(m[k] is Text || m[k] is Number || m[k] == list);
    }
}

/// A snapshot whose layouts are not too deep is no deeper than JSON is read, whatever its ratios
/// are; so the text of the document that is saved of it is read again.
pub proof fn law_snapshot_nests(s: SnapshotV)
    requires
        layouts_within(s, MAX_SPLITS as nat),
    ensures
        nests(snapshot_json(s), max_nesting()),
{
    let list = s.workspaces.map_values(|w: WorkspaceV| workspace_json(w));
    assert forall|i: int| 0 <= i < list.len() implies nests(#[trigger] list[i], 124) by {
        let w = s.workspaces[i];
        assert forall|k: int| 0 <= k < w.screens.len() implies layout_depth(
            (#[trigger] w.screens[k]).layout,
        ) <= MAX_SPLITS by {
            assert(s.workspaces[i].screens[k] == w.screens[k]);
        }
        lemma_workspace_nests(w);
    }
    let items = JsonV::List(list);
    assert(nests(items, 125));
    let m = snapshot_json(s)->Object_0;
    assert forall|k: Seq<char>| #[trigger] m.dom().contains(k) implies nests(m[k], 126) by {
        if m[k] == items {
            lemma_nests_more(items, 125, 126);
        } else {
            assert(m[k] is Number);
        }
    }
}

impl SessionSnapshot {
    /// The document that a snapshot is kept as. `load` gives the snapshot back; unless a layout in
    /// it is too deep, the document can be read from its text.
    pub fn save(&self) -> (r: Json)
        ensures
            r@ == snapshot_json(self@),
            snapshot_from(r@) == Some(self@),
            layouts_within(self@, MAX_SPLITS as nat) ==> nests(r@, max_nesting()),
    {
        proof {
            law_snapshot_json(self@);
            if layouts_within(self@, MAX_SPLITS as nat) {
                law_snapshot_nests(self@);
            }
        }
        let mut list: Vec<Json> = Vec::new();
        let mut i: usize = 0;
        while i < self.workspaces.len()
            invariant
                i <= self.workspaces.len(),
                list.len() == i,
                forall|k: int|
                    0 <= k < i ==> json_view(#[trigger] list@[k]) == workspace_json(
                        self.workspaces@[k]@,
                    ),
            decreases self.workspaces.len() - i,
        {
            list.push(write_workspace(&self.workspaces[i]));
            i = i + 1;
        }
        assert(list_view(list@) =~= self@.workspaces.map_values(
            |w: WorkspaceV| workspace_json(w),
        ));
        let mut out: Json = Json::object();
        out.set("workspaces", Json::List(list));
        out.set("active_workspace", Json::unsigned(self.active_workspace as u64));
        out
    }

    /// The snapshot that a document holds; nothing where it holds none.
    #[verifier::loop_isolation(false)]
    pub fn load(document: &Json) -> (r: Option<SessionSnapshot>)
        ensures
            match r {
                Some(s) => snapshot_from(document@) == Some(s@),
                None => snapshot_from(document@) is None,
            },
    {
        let j: &Json = document;
        match (j.part_items("workspaces", 0, 2), j.part_index("active_workspace", 1, 2)) {
            (Some(items), Some(active_workspace)) => {
                let ghost found = list_view(items@).map_values(|w: JsonV| workspace_from(w));
                let mut workspaces: Vec<WorkspaceSnapshot> = Vec::new();
                let mut i: usize = 0;
                while i < items.len()
                    invariant
                        i <= items.len(),
                        workspaces.len() == i,
                        found == list_view(items@).map_values(|w: JsonV| workspace_from(w)),
                        forall|k: int| 0 <= k < i ==> #[trigger] found[k] == Some(workspaces@[k]@),
                    decreases items.len() - i,
                {
                    assert(found[i as int] == workspace_from(items@[i as int]@));
                    match read_workspace(&items[i]) {
                        Some(w) => {
                            workspaces.push(w);
                        },
                        None => {
                            return None;
                        },
                    }
                    i = i + 1;
                }
                let s: SessionSnapshot = SessionSnapshot { workspaces, active_workspace };
                assert(found.map_values(|x: Option<WorkspaceV>| x->0) =~= s@.workspaces);
                Some(s)
            },
            _ => None,
        }
    }
}

// ---- what is kept of a session ------------------------------------------------------------

/// The positions at the leaves of a layout, the first part before the second.
pub open spec fn leaves(layout: LayoutV) -> Seq<usize>
    decreases layout,
{
    match layout {
        LayoutV::Leaf(i) => seq![i],
        LayoutV::Split(_, _, a, b) => leaves(*a) + leaves(*b),
    }
}

/// A snapshot has the workspaces and the screens of the session in their order, each under its
/// name, with what is active in it.
pub proof fn law_capture_keeps_names(state: State, w: int, s: int)
    ensures
        ({
            let kept = snapshot_of(state);
            &&& kept.active_workspace == state.active_workspace
            &&& kept.workspaces.len() == state.workspaces.len()
            &&& 0 <= w < state.workspaces.len() ==> {
                let ws = state.workspaces@[w];
                &&& kept.workspaces[w].name == ws.name@
                &&& kept.workspaces[w].active_screen == ws.active_screen
                &&& kept.workspaces[w].screens.len() == ws.screens.len()
                &&& 0 <= s < ws.screens.len() ==> kept.workspaces[w].screens[s].name == opt_text(
                    ws.screens@[s].name,
                )
            }
        }),
{
}

/// The panes of a screen are kept in the order of its layout, each under its own name and with
/// its own active tab; the layout counts them from the first to the last.
pub proof fn law_capture_keeps_panes(state: State, w: int, s: int, k: int)
    requires
        state.wf(),
        0 <= w < state.workspaces.len(),
        0 <= s < state.workspaces@[w].screens.len(),
        0 <= k < state.workspaces@[w].screens@[s].root@.panes().len() <= usize::MAX,
    ensures
        ({
            let screen = state.workspaces@[w].screens@[s];
            let ids = screen.root@.panes();
            let kept = snapshot_of(state).workspaces[w].screens[s];
            &&& kept.panes.len() == ids.len()
            &&& state.pane_of(ids[k]) matches Some(p) && {
                &&& kept.panes[k].name == opt_text(p.name)
                &&& kept.panes[k].active_tab_index == p.active_tab
                &&& kept.panes[k].tabs.len() == p.tabs.len()
            }
            &&& with_panes(kept.layout, ids) == screen.root@
            &&& ids[kept.active_pane_index as int] == screen.active_pane
            &&& leaves(kept.layout).len() == ids.len()
            &&& ids.no_duplicates() ==> leaves(kept.layout)[k] == k
        }),
{
    let screen = state.workspaces@[w].screens@[s];
    let ids = screen.root@.panes();
    assert(state.screen_ok(screen));
    assert(ids.contains(ids[k]));
    assert(snapshot_of(state).workspaces[w].screens[s] == screen_of(state, screen));
    law_capture_keeps_layout(state, screen);
    lemma_leaves(screen.root@, ids, k);
    ids.index_of_first_ensures(ids[k]);
    if ids.no_duplicates() {
        let i = ids.index_of_first(ids[k])->0;
        if i != k {
            assert(ids[i] == ids[k]);
        }
    }
}

proof fn lemma_leaves(node: NodeV, ids: Seq<PaneId>, k: int)
    ensures
        leaves(layout_of(node, ids)).len() == node.panes().len(),
        0 <= k < node.panes().len() ==> leaves(layout_of(node, ids))[k] == position_of(
            ids,
            node.panes()[k],
        ) as usize,
    decreases node,
{
    if let NodeV::Split(_, _, a, b) = node {
        lemma_leaves(*a, ids, k);
        lemma_leaves(*b, ids, k - a.panes().len());
        let x = leaves(layout_of(*a, ids));
        let y = leaves(layout_of(*b, ids));
        assert(leaves(layout_of(node, ids)) == x + y);
    }
}

/// A tab is kept with the name and the directory of the surface that stands at its place in its
/// pane; with neither where that surface is gone.
pub proof fn law_capture_keeps_tabs(state: State, w: int, s: int, k: int, t: int)
    requires
        state.wf(),
        0 <= w < state.workspaces.len(),
        0 <= s < state.workspaces@[w].screens.len(),
        0 <= k < state.workspaces@[w].screens@[s].root@.panes().len(),
    ensures
        ({
            let id = state.workspaces@[w].screens@[s].root@.panes()[k];
            let kept = snapshot_of(state).workspaces[w].screens[s].panes[k];
            state.pane_of(id) matches Some(p) && (0 <= t < p.tabs.len() ==> match state.surface_of(
                p.tabs@[t],
            ) {
                Some(surface) => kept.tabs[t].name == opt_text(surface.name) && kept.tabs[t].cwd
                    == opt_text(surface.cwd),
                None => kept.tabs[t].name is None && kept.tabs[t].cwd is None,
            })
        }),
{
    let screen = state.workspaces@[w].screens@[s];
    assert(state.screen_ok(screen));
    let ids = screen.root@.panes();
    assert(ids.contains(ids[k]));
    assert(snapshot_of(state).workspaces[w].screens[s] == screen_of(state, screen));
    let p = state.pane_of(ids[k])->0;
    assert(screen_of(state, screen).panes[k] == pane_of(state, p));
}

/// What is rebuilt of a tab, a pane, a screen and a workspace is what its fields say.
pub proof fn law_restored_fields(
    w: RestoreWorkspace,
    s: RestoreScreen,
    p: RestorePane,
    t: RestoreTab,
    i: int,
)
    ensures
        t@.name == opt_text(t.name) && t@.cwd == opt_text(t.cwd),
        p@.name == opt_text(p.name) && p@.active_tab_index == p.active_tab_index,
        p@.tabs.len() == p.tabs.len(),
        0 <= i < p.tabs.len() ==> p@.tabs[i] == p.tabs@[i]@,
        s@.name == opt_text(s.name) && s@.active_pane_index == s.active_pane_index,
        s@.panes.len() == s.panes.len(),
        0 <= i < s.panes.len() ==> s@.panes[i] == s.panes@[i]@,
        s@.layout == s.layout@,
        match s.layout {
            RestoreLayout::Leaf(n) => s.layout@ == LayoutV::Leaf(n),
            RestoreLayout::Split { dir, ratio, a, b } => s.layout@ == LayoutV::Split(
                dir,
                number_of(ratio),
                Box::new(a@),
                Box::new(b@),
            ),
        },
        w@.name == w.name@ && w@.active_screen == w.active_screen,
        w@.screens.len() == w.screens.len(),
        0 <= i < w.screens.len() ==> w@.screens[i] == w.screens@[i]@,
{
}

/// What a snapshot holds of a tab, a pane, a screen and a workspace is what its fields say.
pub proof fn law_snapshot_fields(
    w: WorkspaceSnapshot,
    s: ScreenSnapshot,
    p: PaneSnapshot,
    t: TabSnapshot,
    i: int,
)
    ensures
        t@.name == opt_text(t.name) && t@.cwd == opt_text(t.cwd),
        p@.name == opt_text(p.name) && p@.active_tab_index == p.active_tab_index,
        p@.tabs.len() == p.tabs.len(),
        0 <= i < p.tabs.len() ==> p@.tabs[i] == p.tabs@[i]@,
        s@.name == opt_text(s.name) && s@.active_pane_index == s.active_pane_index,
        s@.panes.len() == s.panes.len(),
        0 <= i < s.panes.len() ==> s@.panes[i] == s.panes@[i]@,
        s@.layout == s.layout@,
        match s.layout {
            LayoutSnapshot::Leaf(n) => s.layout@ == LayoutV::Leaf(n),
            LayoutSnapshot::Split { dir, ratio, a, b } => s.layout@ == LayoutV::Split(
                dir,
                number_of(ratio),
                Box::new(a@),
                Box::new(b@),
            ),
        },
        w@.name == w.name@ && w@.active_screen == w.active_screen,
        w@.screens.len() == w.screens.len(),
        0 <= i < w.screens.len() ==> w@.screens[i] == w.screens@[i]@,
{
}

/// Whether a value writes a layout: a leaf as its position, a split as its direction, its ratio
/// and its two parts.
pub open spec fn writes_layout(j: JsonV, l: LayoutV) -> bool
    decreases l,
{
    match l {
        LayoutV::Leaf(i) => j.only("Leaf"@) && j.field("Leaf"@) == Some(unsigned(i as u64)),
        LayoutV::Split(dir, ratio, a, b) => {
            &&& j.only("Split"@)
            &&& j.field("Split"@) matches Some(inner) && {
                &&& inner.field("dir"@) == Some(
                    JsonV::Text(
                        if dir == SplitDir::Right {
                            "Right"@
                        } else {
                            "Down"@
                        },
                    ),
                )
                &&& inner.field("ratio"@) == Some(JsonV::Number(ratio))
                &&& inner.field("a"@) matches Some(x) && writes_layout(x, *a)
                &&& inner.field("b"@) matches Some(y) && writes_layout(y, *b)
            }
        },
    }
}

pub open spec fn writes_tab(j: JsonV, t: TabV) -> bool {
    &&& j.field("name"@) == Some(text_or_null(t.name))
    &&& j.field("cwd"@) == Some(text_or_null(t.cwd))
}

pub open spec fn writes_pane(j: JsonV, p: PaneV) -> bool {
    &&& j.field("name"@) == Some(text_or_null(p.name))
    &&& j.field("active_tab_index"@) == Some(unsigned(p.active_tab_index as u64))
    &&& j.field_items("tabs"@) matches Some(items) && items.len() == p.tabs.len() && forall|i: int|
        0 <= i < items.len() ==> writes_tab(#[trigger] items[i], p.tabs[i])
}

pub open spec fn writes_screen(j: JsonV, s: ScreenV) -> bool {
    &&& j.field("name"@) == Some(text_or_null(s.name))
    &&& j.field("active_pane_index"@) == Some(unsigned(s.active_pane_index as u64))
    &&& j.field("layout"@) matches Some(l) && writes_layout(l, s.layout)
    &&& j.field_items("panes"@) matches Some(items) && items.len() == s.panes.len()
        && forall|i: int| 0 <= i < items.len() ==> writes_pane(#[trigger] items[i], s.panes[i])
}

pub open spec fn writes_workspace(j: JsonV, w: WorkspaceV) -> bool {
    &&& j.field("name"@) == Some(JsonV::Text(w.name))
    &&& j.field("active_screen"@) == Some(unsigned(w.active_screen as u64))
    &&& j.field_items("screens"@) matches Some(items) && items.len() == w.screens.len()
        && forall|i: int| 0 <= i < items.len() ==> writes_screen(#[trigger] items[i], w.screens[i])
}

/// The document of a snapshot has each thing in the field of its name.
pub proof fn law_snapshot_written(s: SnapshotV)
    ensures
        ({
            let j = snapshot_json(s);
            &&& j.field("active_workspace"@) == Some(unsigned(s.active_workspace as u64))
            &&& j.field_items("workspaces"@) matches Some(items) && items.len()
                == s.workspaces.len() && forall|i: int|
                0 <= i < items.len() ==> writes_workspace(#[trigger] items[i], s.workspaces[i])
        }),
{
    lemma_names_differ();
    let list = s.workspaces.map_values(|w: WorkspaceV| workspace_json(w));
    assert(snapshot_json(s).field_items("workspaces"@) == Some(list));
    assert forall|i: int| 0 <= i < list.len() implies writes_workspace(
        #[trigger] list[i],
        s.workspaces[i],
    ) by {
        lemma_workspace_written(s.workspaces[i]);
    }
}

proof fn lemma_workspace_written(w: WorkspaceV)
    ensures
        writes_workspace(workspace_json(w), w),
{
    lemma_names_differ();
    let list = w.screens.map_values(|s: ScreenV| screen_json(s));
    assert(workspace_json(w).field_items("screens"@) == Some(list));
    assert forall|i: int| 0 <= i < list.len() implies writes_screen(#[trigger] list[i], w.screens[i]) by {
        let s = w.screens[i];
        let panes = s.panes.map_values(|p: PaneV| pane_json(p));
        assert(screen_json(s).field_items("panes"@) == Some(panes));
        assert forall|k: int| 0 <= k < panes.len() implies writes_pane(#[trigger] panes[k], s.panes[k]) by {
            let p = s.panes[k];
            let tabs = p.tabs.map_values(|t: TabV| tab_json(t));
            assert(pane_json(p).field_items("tabs"@) == Some(tabs));
            assert forall|t: int| 0 <= t < tabs.len() implies writes_tab(#[trigger] tabs[t], p.tabs[t]) by {
                assert(tabs[t] == tab_json(p.tabs[t]));
            }
        }
        lemma_layout_written(s.layout);
        assert(screen_json(s).field("layout"@) == Some(layout_json(s.layout)));
    }
}

proof fn lemma_layout_written(l: LayoutV)
    ensures
        writes_layout(layout_json(l), l),
    decreases l,
{
    lemma_names_differ();
    if let LayoutV::Split(dir, ratio, a, b) = l {
        lemma_layout_written(*a);
        lemma_layout_written(*b);
        let inner = empty_object().with("dir"@, JsonV::Text(dir_text(dir))).with(
            "ratio"@,
            JsonV::Number(ratio),
        ).with("a"@, layout_json(*a)).with("b"@, layout_json(*b));
        assert(layout_json(l).field("Split"@) == Some(inner));
        assert(inner.field("a"@) == Some(layout_json(*a)));
        assert(inner.field("b"@) == Some(layout_json(*b)));
    }
}

/// The parts of a snapshot are read from lists too, each in the order in which they are written: a
/// tab's name before its directory, a pane's name, tabs and active tab, a screen's name, layout,
/// panes and active pane, a workspace's name, screens and active screen, and the workspaces before
/// the active one.
pub proof fn law_lists_read(
    name: Seq<char>,
    cwd: Seq<char>,
    layout: JsonV,
    items: Seq<JsonV>,
    n: usize,
    i: int,
)
    requires
        0 <= i < items.len(),
        n <= u64::MAX,
    ensures
        tab_from(JsonV::List(seq![JsonV::Text(name), JsonV::Text(cwd)])) == Some(
            TabV { name: Some(name), cwd: Some(cwd) },
        ),
        pane_from(
            JsonV::List(seq![JsonV::Text(name), JsonV::List(items), unsigned(n as u64)]),
        ) matches Some(p) ==> p.name == Some(name) && p.active_tab_index == n && p.tabs.len()
            == items.len() && tab_from(items[i]) == Some(p.tabs[i]),
        screen_from(
            JsonV::List(seq![JsonV::Text(name), layout, JsonV::List(items), unsigned(n as u64)]),
        ) matches Some(s) ==> s.name == Some(name) && s.active_pane_index == n && layout_from(layout)
            == Some(s.layout) && s.panes.len() == items.len() && pane_from(items[i]) == Some(
            s.panes[i],
        ),
        workspace_from(
            JsonV::List(seq![JsonV::Text(name), JsonV::List(items), unsigned(n as u64)]),
        ) matches Some(w) ==> w.name == name && w.active_screen == n && w.screens.len()
            == items.len() && screen_from(items[i]) == Some(w.screens[i]),
        snapshot_from(JsonV::List(seq![JsonV::List(items), unsigned(n as u64)])) matches Some(s)
            ==> s.active_workspace == n && s.workspaces.len() == items.len() && workspace_from(
            items[i],
        ) == Some(s.workspaces[i]),
        (forall|k: int| 0 <= k < items.len() ==> tab_from(#[trigger] items[k]) is Some) ==> pane_from(
            JsonV::List(seq![JsonV::Text(name), JsonV::List(items), unsigned(n as u64)]),
        ) is Some,
        (forall|k: int| 0 <= k < items.len() ==> pane_from(#[trigger] items[k]) is Some)
            && layout_from(layout) is Some ==> screen_from(
            JsonV::List(seq![JsonV::Text(name), layout, JsonV::List(items), unsigned(n as u64)]),
        ) is Some,
        (forall|k: int| 0 <= k < items.len() ==> screen_from(#[trigger] items[k]) is Some)
            ==> workspace_from(
            JsonV::List(seq![JsonV::Text(name), JsonV::List(items), unsigned(n as u64)]),
        ) is Some,
        (forall|k: int| 0 <= k < items.len() ==> workspace_from(#[trigger] items[k]) is Some)
            ==> snapshot_from(JsonV::List(seq![JsonV::List(items), unsigned(n as u64)])) is Some,
{
    let tabs = items.map_values(|t: JsonV| tab_from(t));
    let panes = items.map_values(|p: JsonV| pane_from(p));
    let screens = items.map_values(|s: JsonV| screen_from(s));
    let workspaces = items.map_values(|w: JsonV| workspace_from(w));
    assert(tabs[i] == tab_from(items[i]) && panes[i] == pane_from(items[i]));
    assert(screens[i] == screen_from(items[i]) && workspaces[i] == workspace_from(items[i]));
    assert(all_some(tabs) is Some ==> tabs[i] is Some);
    assert(all_some(panes) is Some ==> panes[i] is Some);
    assert(all_some(screens) is Some ==> screens[i] is Some);
    assert(all_some(workspaces) is Some ==> workspaces[i] is Some);
    if forall|k: int| 0 <= k < items.len() ==> tab_from(#[trigger] items[k]) is Some {
        assert forall|k: int| 0 <= k < tabs.len() implies (#[trigger] tabs[k]) is Some by {
            assert(tab_from(items[k]) is Some);
        }
    }
    if forall|k: int| 0 <= k < items.len() ==> pane_from(#[trigger] items[k]) is Some {
        assert forall|k: int| 0 <= k < panes.len() implies (#[trigger] panes[k]) is Some by {
            assert(pane_from(items[k]) is Some);
        }
    }
    if forall|k: int| 0 <= k < items.len() ==> screen_from(#[trigger] items[k]) is Some {
        assert forall|k: int| 0 <= k < screens.len() implies (#[trigger] screens[k]) is Some by {
            assert(screen_from(items[k]) is Some);
        }
    }
    if forall|k: int| 0 <= k < items.len() ==> workspace_from(#[trigger] items[k]) is Some {
        assert forall|k: int| 0 <= k < workspaces.len() implies (#[trigger] workspaces[k])
            is Some by {
            assert(workspace_from(items[k]) is Some);
        }
    }
}

/// A split that is written as a list is its direction, its ratio and its two sides, in this order.
pub proof fn law_split_list_read(ratio: NumberV, a: JsonV, b: JsonV, x: LayoutV, y: LayoutV)
    requires
        layout_from(a) == Some(x),
        layout_from(b) == Some(y),
    ensures
        layout_from(
            empty_object().with(
                "Split"@,
                JsonV::List(seq![JsonV::Text("Right"@), JsonV::Number(ratio), a, b]),
            ),
        ) == Some(LayoutV::Split(SplitDir::Right, ratio, Box::new(x), Box::new(y))),
        layout_from(
            empty_object().with(
                "Split"@,
                JsonV::List(seq![JsonV::Text("Down"@), JsonV::Number(ratio), a, b]),
            ),
        ) == Some(LayoutV::Split(SplitDir::Down, ratio, Box::new(x), Box::new(y))),
{
    lemma_names_differ();
    let right = JsonV::List(seq![JsonV::Text("Right"@), JsonV::Number(ratio), a, b]);
    let down = JsonV::List(seq![JsonV::Text("Down"@), JsonV::Number(ratio), a, b]);
    let j = empty_object().with("Split"@, right);
    let k = empty_object().with("Split"@, down);
    assert(j.field("Split"@) == Some(right) && k.field("Split"@) == Some(down));
    assert(j.field("Leaf"@) is None && k.field("Leaf"@) is None);
    assert(j.only("Split"@) && k.only("Split"@));
}

} // verus!
