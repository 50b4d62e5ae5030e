//! The state of a session, as far as it is shown, captured and restored: workspaces of screens,
//! screens split into panes, and panes with tabs, each a surface.

use vstd::prelude::*;

use crate::json::{number_copy, number_of, NumberV};
use crate::text::same;

verus! {

pub type WorkspaceId = u64;

pub type ScreenId = u64;

pub type PaneId = u64;

pub type SurfaceId = u64;

/// What an agent says of itself.
#[derive(Clone, Copy, Debug, PartialEq, Eq, Structural)]
pub enum AgentState {
    Working,
    Blocked,
    Idle,
    Done,
    Unknown,
}

pub open spec fn agent_state_of(s: Seq<char>) -> Option<AgentState> {
    if s == "working"@ {
        Some(AgentState::Working)
    } else if s == "blocked"@ {
        Some(AgentState::Blocked)
    } else if s == "idle"@ {
        Some(AgentState::Idle)
    } else if s == "done"@ {
        Some(AgentState::Done)
    } else if s == "unknown"@ {
        Some(AgentState::Unknown)
    } else {
        None
    }
}

impl AgentState {
    pub fn parse(s: &str) -> (r: Option<AgentState>)
        ensures
            r == agent_state_of(s@),
    {
        if same(s, "working") {
            Some(AgentState::Working)
        } else if same(s, "blocked") {
            Some(AgentState::Blocked)
        } else if same(s, "idle") {
            Some(AgentState::Idle)
        } else if same(s, "done") {
            Some(AgentState::Done)
        } else if same(s, "unknown") {
            Some(AgentState::Unknown)
        } else {
            None
        }
    }
}

#[derive(Clone, Copy, Debug, PartialEq, Eq, Structural)]
pub enum SurfaceKind {
    Pty,
    Browser,
}

#[derive(Clone, Copy, Debug, PartialEq, Eq, Structural)]
pub enum BrowserSource {
    External,
    Launched,
}

#[derive(Clone, Copy, Debug, PartialEq, Eq, Structural)]
pub enum SplitDir {
    Right,
    Down,
}

/// A colour by its red, green and blue.
#[derive(Clone, Copy, Debug, PartialEq, Eq, Structural)]
pub struct Rgb {
    pub r: u8,
    pub g: u8,
    pub b: u8,
}

/// A rectangle of cells.
#[derive(Clone, Copy, Debug, PartialEq, Eq, Structural)]
pub struct Rect {
    pub x: u16,
    pub y: u16,
    pub width: u16,
    pub height: u16,
}

impl Rect {
    /// Whether a cell lies in the rectangle.
    pub open spec fn covers(self, x: int, y: int) -> bool {
        self.x <= x < self.x + self.width && self.y <= y < self.y + self.height
    }

    pub fn contains(self, x: u16, y: u16) -> (r: bool)
        ensures
            r == self.covers(x as int, y as int),
    {
        x >= self.x && x - self.x < self.width && y >= self.y && y - self.y < self.height
    }
}

// ---- the layout of a screen ---------------------------------------------------------------

/// The layout of a screen: a pane, or two parts beside each other. The ratio is the share of the
/// first part.
#[derive(Debug)]
pub enum Node {
    Leaf(PaneId),
    Split { dir: SplitDir, ratio: serde_json::Number, a: Box<Node>, b: Box<Node> },
}

pub enum NodeV {
    Leaf(PaneId),
    Split(SplitDir, NumberV, Box<NodeV>, Box<NodeV>),
}

pub open spec fn node_view(n: Node) -> NodeV
    decreases n,
{
    match n {
        Node::Leaf(id) => NodeV::Leaf(id),
        Node::Split { dir, ratio, a, b } => NodeV::Split(
            dir,
            number_of(ratio),
            Box::new(node_view(*a)),
            Box::new(node_view(*b)),
        ),
    }
}

impl View for Node {
    type V = NodeV;

    open spec fn view(&self) -> NodeV {
        node_view(*self)
    }
}

impl NodeV {
    /// The panes of a layout, from left to right and from top to bottom.
    pub open spec fn panes(self) -> Seq<PaneId>
        decreases self,
    {
        match self {
            NodeV::Leaf(id) => seq![id],
            NodeV::Split(_, _, a, b) => a.panes() + b.panes(),
        }
    }
}

impl Node {
    /// The panes of a layout, put behind those in `out`.
    pub fn pane_ids(&self, out: &mut Vec<PaneId>)
        ensures
            final(out)@ == old(out)@ + self@.panes(),
        decreases self,
    {
        match self {
            Node::Leaf(id) => {
                out.push(*id);
                assert(out@ =~= old(out)@ + seq![*id]);
            },
            Node::Split { dir: _, ratio: _, a, b } => {
                a.pane_ids(out);
                b.pane_ids(out);
                assert(out@ =~= old(out)@ + (a@.panes() + b@.panes()));
            },
        }
    }

    pub fn copy(&self) -> (r: Node)
        ensures
            r@ == self@,
        decreases self,
    {
        match self {
            Node::Leaf(id) => Node::Leaf(*id),
            Node::Split { dir, ratio, a, b } => Node::Split {
                dir: *dir,
                ratio: number_copy(ratio),
                a: Box::new(a.copy()),
                b: Box::new(b.copy()),
            },
        }
    }
}

// ---- the state ----------------------------------------------------------------------------

/// What an agent reported for a surface.
#[derive(Debug)]
pub struct AgentReport {
    pub state: AgentState,
    pub session: Option<String>,
}

/// A surface: what runs in a tab.
#[derive(Debug)]
pub struct Surface {
    pub id: SurfaceId,
    pub name: Option<String>,
    pub title: String,
    pub cwd: Option<String>,
    pub kind: SurfaceKind,
    pub agent_report: Option<AgentReport>,
    pub browser_source: Option<BrowserSource>,
    pub browser_frames_stalled: Option<bool>,
    /// The command that the surface was started with, where one was given.
    pub command: Option<Vec<String>>,
    /// The variables that the surface was started with.
    pub env: Vec<(String, String)>,
}

#[derive(Debug)]
pub struct Pane {
    pub id: PaneId,
    pub name: Option<String>,
    pub tabs: Vec<SurfaceId>,
    pub active_tab: usize,
}

#[derive(Debug)]
pub struct Screen {
    pub id: ScreenId,
    pub name: Option<String>,
    pub root: Node,
    pub active_pane: PaneId,
}

#[derive(Debug)]
pub struct Workspace {
    pub id: WorkspaceId,
    pub name: String,
    pub color: Option<Rgb>,
    pub icon: Option<String>,
    pub screens: Vec<Screen>,
    pub active_screen: usize,
}

/// The whole of a session. Panes and surfaces are found by their ids.
#[derive(Debug)]
pub struct State {
    pub workspaces: Vec<Workspace>,
    pub panes: Vec<Pane>,
    pub surfaces: Vec<Surface>,
    pub active_workspace: usize,
}

/// The pane of that id among the first `n`.
pub open spec fn pane_among(panes: Seq<Pane>, id: PaneId, n: int) -> Option<Pane>
    decreases panes.len() - n,
{
    if n < 0 || n >= panes.len() {
        None
    } else if panes[n].id == id {
        Some(panes[n])
    } else {
        pane_among(panes, id, n + 1)
    }
}

pub open spec fn surface_among(surfaces: Seq<Surface>, id: SurfaceId, n: int) -> Option<Surface>
    decreases surfaces.len() - n,
{
    if n < 0 || n >= surfaces.len() {
        None
    } else if surfaces[n].id == id {
        Some(surfaces[n])
    } else {
        surface_among(surfaces, id, n + 1)
    }
}

impl State {
    /// The first pane of that id.
    pub open spec fn pane_of(self, id: PaneId) -> Option<Pane> {
        pane_among(self.panes@, id, 0)
    }

    /// The first surface of that id.
    pub open spec fn surface_of(self, id: SurfaceId) -> Option<Surface> {
        surface_among(self.surfaces@, id, 0)
    }

    pub fn pane(&self, id: PaneId) -> (r: Option<&Pane>)
        ensures
            match r {
                Some(p) => self.pane_of(id) == Some(*p),
                None => self.pane_of(id) is None,
            },
    {
        let mut i: usize = 0;
        while i < self.panes.len()
            invariant
                i <= self.panes.len(),
                self.pane_of(id) == pane_among(self.panes@, id, i as int),
            decreases self.panes.len() - i,
        {
            if self.panes[i].id == id {
                return Some(&self.panes[i]);
            }
            i = i + 1;
        }
        None
    }

    pub fn surface(&self, id: SurfaceId) -> (r: Option<&Surface>)
        ensures
            match r {
                Some(s) => self.surface_of(id) == Some(*s),
                None => self.surface_of(id) is None,
            },
    {
        let mut i: usize = 0;
        while i < self.surfaces.len()
            invariant
                i <= self.surfaces.len(),
                self.surface_of(id) == surface_among(self.surfaces@, id, i as int),
            decreases self.surfaces.len() - i,
        {
            if self.surfaces[i].id == id {
                return Some(&self.surfaces[i]);
            }
            i = i + 1;
        }
        None
    }

    /// Whether a screen is in order: its panes are there, and the active one is among them.
    pub open spec fn screen_ok(self, screen: Screen) -> bool {
        &&& screen.root@.panes().contains(screen.active_pane)
        &&& forall|id: PaneId| #[trigger]
            screen.root@.panes().contains(id) ==> self.pane_of(id) is Some
    }

    /// Whether every screen is in order.
    pub open spec fn wf(self) -> bool {
        forall|w: int, s: int|
            0 <= w < self.workspaces.len() && 0 <= s < self.workspaces@[w].screens.len()
                ==> self.screen_ok(#[trigger] self.workspaces@[w].screens@[s])
    }
}

/// The position of a pane in a list of panes.
pub open spec fn position_of(ids: Seq<PaneId>, id: PaneId) -> int {
    ids.index_of_first(id)->0
}

/// Finds a pane in a list.
pub fn position(ids: &Vec<PaneId>, id: PaneId) -> (r: usize)
    requires
        ids@.contains(id),
    ensures
        r == position_of(ids@, id),
        r < ids.len(),
        ids@[r as int] == id,
{
    let mut i: usize = 0;
    proof {
        ids@.index_of_first_ensures(id);
    }
    while i < ids.len()
        invariant
            i <= ids.len(),
            ids@.contains(id),
            forall|k: int| 0 <= k < i ==> ids@[k] != id,
        decreases ids.len() - i,
    {
        if ids[i] == id {
            proof {
                ids@.index_of_first_ensures(id);
            }
            return i;
        }
        i = i + 1;
    }
    0
}

/// The pane of an id has that id, and is the first of the state that has it; there is none only
/// where no pane has it. So it is with surfaces.
pub proof fn law_looked_up(state: State, id: u64)
    ensures
        match state.pane_of(id) {
            Some(p) => p.id == id && exists|i: int|
                0 <= i < state.panes.len() && #[trigger] state.panes@[i] == p && forall|k: int|
                    0 <= k < i ==> (#[trigger] state.panes@[k]).id != id,
            None => forall|k: int| 0 <= k < state.panes.len() ==> (#[trigger] state.panes@[k]).id != id,
        },
        match state.surface_of(id) {
            Some(s) => s.id == id && exists|i: int|
                0 <= i < state.surfaces.len() && #[trigger] state.surfaces@[i] == s && forall|k: int|
                    0 <= k < i ==> (#[trigger] state.surfaces@[k]).id != id,
            None => forall|k: int|
                0 <= k < state.surfaces.len() ==> (#[trigger] state.surfaces@[k]).id != id,
        },
{
    lemma_pane_found(state.panes@, id, 0);
    lemma_surface_found(state.surfaces@, id, 0);
}

proof fn lemma_pane_found(panes: Seq<Pane>, id: PaneId, n: int)
    requires
        0 <= n,
        forall|k: int| 0 <= k < n && k < panes.len() ==> (#[trigger] panes[k]).id != id,
    ensures
        match pane_among(panes, id, n) {
            Some(p) => p.id == id && exists|i: int|
                0 <= i < panes.len() && #[trigger] panes[i] == p && forall|k: int|
                    0 <= k < i ==> (#[trigger] panes[k]).id != id,
            None => forall|k: int| 0 <= k < panes.len() ==> (#[trigger] panes[k]).id != id,
        },
    decreases panes.len() - n,
{
    if n < panes.len() && panes[n].id != id {
        lemma_pane_found(panes, id, n + 1);
    }
}

proof fn lemma_surface_found(surfaces: Seq<Surface>, id: SurfaceId, n: int)
    requires
        0 <= n,
        forall|k: int| 0 <= k < n && k < surfaces.len() ==> (#[trigger] surfaces[k]).id != id,
    ensures
        match surface_among(surfaces, id, n) {
            Some(s) => s.id == id && exists|i: int|
                0 <= i < surfaces.len() && #[trigger] surfaces[i] == s && forall|k: int|
                    0 <= k < i ==> (#[trigger] surfaces[k]).id != id,
            None => forall|k: int| 0 <= k < surfaces.len() ==> (#[trigger] surfaces[k]).id != id,
        },
    decreases surfaces.len() - n,
{
    if n < surfaces.len() && surfaces[n].id != id {
        lemma_surface_found(surfaces, id, n + 1);
    }
}

/// The panes of a layout are those of its first part, and behind them those of its second.
pub proof fn law_panes_in_order(dir: SplitDir, ratio: NumberV, a: NodeV, b: NodeV, i: int)
    ensures
        ({
            let all = NodeV::Split(dir, ratio, Box::new(a), Box::new(b)).panes();
            &&& all.len() == a.panes().len() + b.panes().len()
            &&& 0 <= i < a.panes().len() ==> all[i] == a.panes()[i]
            &&& 0 <= i < b.panes().len() ==> all[a.panes().len() + i] == b.panes()[i]
        }),
{
}

/// The state that each name stands for; no other name stands for one.
pub proof fn law_states_named(name: Seq<char>)
    ensures
        agent_state_of("working"@) == Some(AgentState::Working),
        agent_state_of("blocked"@) == Some(AgentState::Blocked),
        agent_state_of("idle"@) == Some(AgentState::Idle),
        agent_state_of("done"@) == Some(AgentState::Done),
        agent_state_of("unknown"@) == Some(AgentState::Unknown),
        agent_state_of(name) is Some ==> name == "working"@ || name == "blocked"@ || name == "idle"@
            || name == "done"@ || name == "unknown"@,
{
    reveal_strlit("working");
    reveal_strlit("blocked");
    reveal_strlit("idle");
    reveal_strlit("done");
    reveal_strlit("unknown");
    assert("working"@.len() == 7 && "blocked"@.len() == 7 && "unknown"@.len() == 7);
    assert("working"@[0] == 'w' && "blocked"@[0] == 'b' && "unknown"@[0] == 'u');
    assert("idle"@.len() == 4 && "done"@.len() == 4 && "idle"@[0] == 'i' && "done"@[0] == 'd');
}

} // verus!
