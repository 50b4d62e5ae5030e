//! The tree of a session as it is shown: workspaces, screens, panes and tabs, taken from the
//! state or read from the answer of another session.

use vstd::prelude::*;

use crate::json::{lemma_field_decreases, list_view, number_copy, Json, JsonV};
use crate::model::{
    agent_state_of, AgentState, BrowserSource, Node, NodeV, Pane, PaneId, Rgb, Screen, ScreenId,
    SplitDir, State, Surface, SurfaceId, SurfaceKind, Workspace, WorkspaceId,
};
use crate::text::{append_decimal, chars_of, code, copy_opt, decimal, opt_text, owned, same};

verus! {

#[derive(Debug)]
pub struct TreeView {
    pub workspaces: Vec<WorkspaceView>,
    pub active_workspace: usize,
}

#[derive(Debug)]
pub struct WorkspaceView {
    pub id: WorkspaceId,
    pub short_id: String,
    pub name: String,
    /// The colour that the user gave the workspace.
    pub color: Option<Rgb>,
    /// The icon that the user gave the workspace.
    pub icon: Option<String>,
    pub screens: Vec<ScreenView>,
    pub active_screen: usize,
}

#[derive(Debug)]
pub struct ScreenView {
    pub id: ScreenId,
    pub short_id: String,
    pub name: Option<String>,
    pub layout: Node,
    pub active_pane: PaneId,
    pub panes: Vec<PaneView>,
}

#[derive(Debug)]
pub struct PaneView {
    pub id: PaneId,
    pub short_id: String,
    pub name: Option<String>,
    pub tabs: Vec<TabView>,
    pub active_tab: usize,
}

#[derive(Debug)]
pub struct TabView {
    pub surface: SurfaceId,
    pub short_id: String,
    pub name: Option<String>,
    pub title: String,
    pub cwd: Option<String>,
    pub agent_state: Option<AgentState>,
    /// The session that the agent in this tab reported.
    pub agent_session: Option<String>,
    pub kind: SurfaceKind,
    pub browser_source: Option<BrowserSource>,
    pub browser_frames_stalled: bool,
}

pub struct TreeT {
    pub workspaces: Seq<WorkspaceT>,
    pub active_workspace: usize,
}

pub struct WorkspaceT {
    pub id: WorkspaceId,
    pub short_id: Seq<char>,
    pub name: Seq<char>,
    pub color: Option<Rgb>,
    pub icon: Option<Seq<char>>,
    pub screens: Seq<ScreenT>,
    pub active_screen: usize,
}

pub struct ScreenT {
    pub id: ScreenId,
    pub short_id: Seq<char>,
    pub name: Option<Seq<char>>,
    pub layout: NodeV,
    pub active_pane: PaneId,
    pub panes: Seq<PaneT>,
}

pub struct PaneT {
    pub id: PaneId,
    pub short_id: Seq<char>,
    pub name: Option<Seq<char>>,
    pub tabs: Seq<TabT>,
    pub active_tab: usize,
}

pub struct TabT {
    pub surface: SurfaceId,
    pub short_id: Seq<char>,
    pub name: Option<Seq<char>>,
    pub title: Seq<char>,
    pub cwd: Option<Seq<char>>,
    pub agent_state: Option<AgentState>,
    pub agent_session: Option<Seq<char>>,
    pub kind: SurfaceKind,
    pub browser_source: Option<BrowserSource>,
    pub browser_frames_stalled: bool,
}

impl View for TabView {
    type V = TabT;

    open spec fn view(&self) -> TabT {
        TabT {
            surface: self.surface,
            short_id: self.short_id@,
            name: opt_text(self.name),
            title: self.title@,
            cwd: opt_text(self.cwd),
            agent_state: self.agent_state,
            agent_session: opt_text(self.agent_session),
            kind: self.kind,
            browser_source: self.browser_source,
            browser_frames_stalled: self.browser_frames_stalled,
        }
    }
}

impl View for PaneView {
    type V = PaneT;

    open spec fn view(&self) -> PaneT {
        PaneT {
            id: self.id,
            short_id: self.short_id@,
            name: opt_text(self.name),
            tabs: self.tabs@.map_values(|t: TabView| t@),
            active_tab: self.active_tab,
        }
    }
}

impl View for ScreenView {
    type V = ScreenT;

    open spec fn view(&self) -> ScreenT {
        ScreenT {
            id: self.id,
            short_id: self.short_id@,
            name: opt_text(self.name),
            layout: self.layout@,
            active_pane: self.active_pane,
            panes: self.panes@.map_values(|p: PaneView| p@),
        }
    }
}

impl View for WorkspaceView {
    type V = WorkspaceT;

    open spec fn view(&self) -> WorkspaceT {
        WorkspaceT {
            id: self.id,
            short_id: self.short_id@,
            name: self.name@,
            color: self.color,
            icon: opt_text(self.icon),
            screens: self.screens@.map_values(|s: ScreenView| s@),
            active_screen: self.active_screen,
        }
    }
}

impl View for TreeView {
    type V = TreeT;

    open spec fn view(&self) -> TreeT {
        TreeT {
            workspaces: self.workspaces@.map_values(|w: WorkspaceView| w@),
            active_workspace: self.active_workspace,
        }
    }
}

impl Default for TreeView {
    fn default() -> (r: TreeView)
        ensures
            r@ == (TreeT { workspaces: seq![], active_workspace: 0 }),
    {
        let r: TreeView = TreeView { workspaces: Vec::new(), active_workspace: 0 };
        assert(r@.workspaces =~= seq![]);
        r
    }
}

// ---- looking things up --------------------------------------------------------------------

/// The first pane of that id, from position `from` on.
pub open spec fn pane_in(panes: Seq<PaneT>, id: PaneId, from: int) -> Option<PaneT>
    decreases panes.len() - from,
{
    if from < 0 || from >= panes.len() {
        None
    } else if panes[from].id == id {
        Some(panes[from])
    } else {
        pane_in(panes, id, from + 1)
    }
}

pub open spec fn pane_in_screens(screens: Seq<ScreenT>, id: PaneId, from: int) -> Option<PaneT>
    decreases screens.len() - from,
{
    if from < 0 || from >= screens.len() {
        None
    } else {
        match pane_in(screens[from].panes, id, 0) {
            Some(p) => Some(p),
            None => pane_in_screens(screens, id, from + 1),
        }
    }
}

pub open spec fn pane_in_workspaces(ws: Seq<WorkspaceT>, id: PaneId, from: int) -> Option<PaneT>
    decreases ws.len() - from,
{
    if from < 0 || from >= ws.len() {
        None
    } else {
        match pane_in_screens(ws[from].screens, id, 0) {
            Some(p) => Some(p),
            None => pane_in_workspaces(ws, id, from + 1),
        }
    }
}

/// The first tab of that surface, from position `from` on.
pub open spec fn tab_in(tabs: Seq<TabT>, id: SurfaceId, from: int) -> Option<TabT>
    decreases tabs.len() - from,
{
    if from < 0 || from >= tabs.len() {
        None
    } else if tabs[from].surface == id {
        Some(tabs[from])
    } else {
        tab_in(tabs, id, from + 1)
    }
}

pub open spec fn tab_in_panes(panes: Seq<PaneT>, id: SurfaceId, from: int) -> Option<TabT>
    decreases panes.len() - from,
{
    if from < 0 || from >= panes.len() {
        None
    } else {
        match tab_in(panes[from].tabs, id, 0) {
            Some(t) => Some(t),
            None => tab_in_panes(panes, id, from + 1),
        }
    }
}

pub open spec fn tab_in_screens(screens: Seq<ScreenT>, id: SurfaceId, from: int) -> Option<TabT>
    decreases screens.len() - from,
{
    if from < 0 || from >= screens.len() {
        None
    } else {
        match tab_in_panes(screens[from].panes, id, 0) {
            Some(t) => Some(t),
            None => tab_in_screens(screens, id, from + 1),
        }
    }
}

/// The first tab of that surface, with its workspace.
pub open spec fn tab_in_workspaces(ws: Seq<WorkspaceT>, id: SurfaceId, from: int) -> Option<
    (WorkspaceT, TabT),
>
    decreases ws.len() - from,
{
    if from < 0 || from >= ws.len() {
        None
    } else {
        match tab_in_screens(ws[from].screens, id, 0) {
            Some(t) => Some((ws[from], t)),
            None => tab_in_workspaces(ws, id, from + 1),
        }
    }
}

impl ScreenView {
    pub fn pane(&self, id: PaneId) -> (r: Option<&PaneView>)
        ensures
            match r {
                Some(p) => pane_in(self@.panes, id, 0) == Some(p@),
                None => pane_in(self@.panes, id, 0) is None,
            },
    {
        let mut i: usize = 0;
        while i < self.panes.len()
            invariant
                i <= self.panes.len(),
                pane_in(self@.panes, id, 0) == pane_in(self@.panes, id, i as int),
            decreases self.panes.len() - i,
        {
            assert(self@.panes[i as int] == self.panes@[i as int]@);
            if self.panes[i].id == id {
                return Some(&self.panes[i]);
            }
            i = i + 1;
        }
        None
    }

    fn tab(&self, id: SurfaceId) -> (r: Option<&TabView>)
        ensures
            match r {
                Some(t) => tab_in_panes(self@.panes, id, 0) == Some(t@),
                None => tab_in_panes(self@.panes, id, 0) is None,
            },
    {
        let mut i: usize = 0;
        while i < self.panes.len()
            invariant
                i <= self.panes.len(),
                tab_in_panes(self@.panes, id, 0) == tab_in_panes(self@.panes, id, i as int),
            decreases self.panes.len() - i,
        {
            assert(self@.panes[i as int] == self.panes@[i as int]@);
            if let Some(t) = self.panes[i].tab(id) {
                return Some(t);
            }
            i = i + 1;
        }
        None
    }

    /// The name that the user gave the screen, else "screen" and its number.
    pub open spec fn shown_name(s: ScreenT, index: int) -> Seq<char> {
        match s.name {
            Some(name) => if name.len() > 0 {
                name
            } else {
                "screen "@ + decimal((index + 1) as nat)
            },
            None => "screen "@ + decimal((index + 1) as nat),
        }
    }

    pub fn display_name(&self, index: usize) -> (r: String)
        requires
            index < usize::MAX,
        ensures
            r@ == Self::shown_name(self@, index as int),
    {
        if let Some(name) = &self.name {
            if !name.as_str().is_empty() {
                return owned(name.as_str());
            }
        }
        let mut r: String = "screen ".to_string();
        append_decimal(&mut r, index as u64 + 1);
        r
    }
}

impl PaneView {
    fn tab(&self, id: SurfaceId) -> (r: Option<&TabView>)
        ensures
            match r {
                Some(t) => tab_in(self@.tabs, id, 0) == Some(t@),
                None => tab_in(self@.tabs, id, 0) is None,
            },
    {
        let mut i: usize = 0;
        while i < self.tabs.len()
            invariant
                i <= self.tabs.len(),
                tab_in(self@.tabs, id, 0) == tab_in(self@.tabs, id, i as int),
            decreases self.tabs.len() - i,
        {
            assert(self@.tabs[i as int] == self.tabs@[i as int]@);
            if self.tabs[i].surface == id {
                return Some(&self.tabs[i]);
            }
            i = i + 1;
        }
        None
    }

    pub fn active_surface(&self) -> (r: Option<SurfaceId>)
        ensures
            r == self@.active_surface_of(),
    {
        if self.active_tab < self.tabs.len() {
            assert(self@.tabs[self.active_tab as int] == self.tabs@[self.active_tab as int]@);
            Some(self.tabs[self.active_tab].surface)
        } else {
            None
        }
    }

    pub fn display_name(&self) -> (r: &str)
        ensures
            r@ == self@.shown_name(),
    {
        if let Some(name) = &self.name {
            if !name.as_str().is_empty() {
                return name.as_str();
            }
        }
        if self.active_tab < self.tabs.len() {
            assert(self@.tabs[self.active_tab as int] == self.tabs@[self.active_tab as int]@);
            let title: &str = self.tabs[self.active_tab].title.as_str();
            if title.is_empty() {
                "shell"
            } else {
                title
            }
        } else {
            "shell"
        }
    }

    pub fn active_cwd(&self) -> (r: Option<&str>)
        ensures
            match r {
                Some(s) => self@.active_cwd_of() == Some(s@),
                None => self@.active_cwd_of() is None,
            },
    {
        if self.active_tab < self.tabs.len() {
            assert(self@.tabs[self.active_tab as int] == self.tabs@[self.active_tab as int]@);
            match &self.tabs[self.active_tab].cwd {
                Some(s) => Some(s.as_str()),
                None => None,
            }
        } else {
            None
        }
    }

    pub fn active_agent_state(&self) -> (r: Option<AgentState>)
        ensures
            r == self@.active_agent_state_of(),
    {
        if self.active_tab < self.tabs.len() {
            assert(self@.tabs[self.active_tab as int] == self.tabs@[self.active_tab as int]@);
            self.tabs[self.active_tab].agent_state
        } else {
            None
        }
    }
}

impl PaneT {
    /// The active tab.
    pub open spec fn active(self) -> Option<TabT> {
        if self.active_tab < self.tabs.len() {
            Some(self.tabs[self.active_tab as int])
        } else {
            None
        }
    }

    pub open spec fn active_surface_of(self) -> Option<SurfaceId> {
        match self.active() {
            Some(t) => Some(t.surface),
            None => None,
        }
    }

    /// The name that the user gave the pane, else the title of its active tab, else "shell".
    pub open spec fn shown_name(self) -> Seq<char> {
        if self.name is Some && self.name->0.len() > 0 {
            self.name->0
        } else {
            match self.active() {
                Some(t) => if t.title.len() == 0 {
                    "shell"@
                } else {
                    t.title
                },
                None => "shell"@,
            }
        }
    }

    pub open spec fn active_cwd_of(self) -> Option<Seq<char>> {
        match self.active() {
            Some(t) => t.cwd,
            None => None,
        }
    }

    pub open spec fn active_agent_state_of(self) -> Option<AgentState> {
        match self.active() {
            Some(t) => t.agent_state,
            None => None,
        }
    }
}

impl TabT {
    /// The name that the user gave the tab, else the title of what runs in it.
    pub open spec fn shown_title(self) -> Seq<char> {
        if self.name is Some && self.name->0.len() > 0 {
            self.name->0
        } else {
            self.title
        }
    }
}

impl TabView {
    pub fn display_title(&self) -> (r: &str)
        ensures
            r@ == self@.shown_title(),
    {
        if let Some(name) = &self.name {
            if !name.as_str().is_empty() {
                return name.as_str();
            }
        }
        self.title.as_str()
    }
}

impl WorkspaceT {
    pub open spec fn active(self) -> Option<ScreenT> {
        if self.active_screen < self.screens.len() {
            Some(self.screens[self.active_screen as int])
        } else {
            None
        }
    }
}

impl WorkspaceView {
    pub fn active_screen_ref(&self) -> (r: Option<&ScreenView>)
        ensures
            match r {
                Some(s) => self@.active() == Some(s@),
                None => self@.active() is None,
            },
    {
        if self.active_screen < self.screens.len() {
            assert(self@.screens[self.active_screen as int]
                == self.screens@[self.active_screen as int]@);
            Some(&self.screens[self.active_screen])
        } else {
            None
        }
    }

    fn pane(&self, id: PaneId) -> (r: Option<&PaneView>)
        ensures
            match r {
                Some(p) => pane_in_screens(self@.screens, id, 0) == Some(p@),
                None => pane_in_screens(self@.screens, id, 0) is None,
            },
    {
        let mut i: usize = 0;
        while i < self.screens.len()
            invariant
                i <= self.screens.len(),
                pane_in_screens(self@.screens, id, 0) == pane_in_screens(
                    self@.screens,
                    id,
                    i as int,
                ),
            decreases self.screens.len() - i,
        {
            assert(self@.screens[i as int] == self.screens@[i as int]@);
            if let Some(p) = self.screens[i].pane(id) {
                return Some(p);
            }
            i = i + 1;
        }
        None
    }

    fn tab(&self, id: SurfaceId) -> (r: Option<&TabView>)
        ensures
            match r {
                Some(t) => tab_in_screens(self@.screens, id, 0) == Some(t@),
                None => tab_in_screens(self@.screens, id, 0) is None,
            },
    {
        let mut i: usize = 0;
        while i < self.screens.len()
            invariant
                i <= self.screens.len(),
                tab_in_screens(self@.screens, id, 0) == tab_in_screens(self@.screens, id, i as int),
            decreases self.screens.len() - i,
        {
            assert(self@.screens[i as int] == self.screens@[i as int]@);
            if let Some(t) = self.screens[i].tab(id) {
                return Some(t);
            }
            i = i + 1;
        }
        None
    }
}

impl TreeT {
    pub open spec fn active(self) -> Option<WorkspaceT> {
        if self.active_workspace < self.workspaces.len() {
            Some(self.workspaces[self.active_workspace as int])
        } else {
            None
        }
    }

    pub open spec fn active_screen_of(self) -> Option<ScreenT> {
        match self.active() {
            Some(w) => w.active(),
            None => None,
        }
    }

    pub open spec fn active_surface_of(self) -> Option<SurfaceId> {
        match self.active_screen_of() {
            Some(s) => match pane_in(s.panes, s.active_pane, 0) {
                Some(p) => p.active_surface_of(),
                None => None,
            },
            None => None,
        }
    }

    /// The kind of a surface; one that is not in the tree counts as a terminal.
    pub open spec fn kind_of(self, id: SurfaceId) -> SurfaceKind {
        match tab_in_workspaces(self.workspaces, id, 0) {
            Some((_, t)) => t.kind,
            None => SurfaceKind::Pty,
        }
    }

    /// How a surface is called outside of the tree: its workspace and its title.
    pub open spec fn label_of(self, id: SurfaceId) -> Option<Seq<char>> {
        match tab_in_workspaces(self.workspaces, id, 0) {
            Some((w, t)) => Some(
                if t.shown_title().len() == 0 {
                    w.name
                } else {
                    w.name + " \u{b7} "@ + t.shown_title()
                },
            ),
            None => None,
        }
    }
}

impl TreeView {
    pub fn active_workspace(&self) -> (r: Option<&WorkspaceView>)
        ensures
            match r {
                Some(w) => self@.active() == Some(w@),
                None => self@.active() is None,
            },
    {
        if self.active_workspace < self.workspaces.len() {
            assert(self@.workspaces[self.active_workspace as int]
                == self.workspaces@[self.active_workspace as int]@);
            Some(&self.workspaces[self.active_workspace])
        } else {
            None
        }
    }

    pub fn active_screen(&self) -> (r: Option<&ScreenView>)
        ensures
            match r {
                Some(s) => self@.active_screen_of() == Some(s@),
                None => self@.active_screen_of() is None,
            },
    {
        match self.active_workspace() {
            Some(w) => w.active_screen_ref(),
            None => None,
        }
    }

    pub fn pane(&self, id: PaneId) -> (r: Option<&PaneView>)
        ensures
            match r {
                Some(p) => pane_in_workspaces(self@.workspaces, id, 0) == Some(p@),
                None => pane_in_workspaces(self@.workspaces, id, 0) is None,
            },
    {
        let mut i: usize = 0;
        while i < self.workspaces.len()
            invariant
                i <= self.workspaces.len(),
                pane_in_workspaces(self@.workspaces, id, 0) == pane_in_workspaces(
                    self@.workspaces,
                    id,
                    i as int,
                ),
            decreases self.workspaces.len() - i,
        {
            assert(self@.workspaces[i as int] == self.workspaces@[i as int]@);
            if let Some(p) = self.workspaces[i].pane(id) {
                return Some(p);
            }
            i = i + 1;
        }
        None
    }

    pub fn active_surface(&self) -> (r: Option<SurfaceId>)
        ensures
            r == self@.active_surface_of(),
    {
        match self.active_screen() {
            Some(s) => match s.pane(s.active_pane) {
                Some(p) => p.active_surface(),
                None => None,
            },
            None => None,
        }
    }

    fn tab(&self, id: SurfaceId) -> (r: Option<(&WorkspaceView, &TabView)>)
        ensures
            match r {
                Some((w, t)) => tab_in_workspaces(self@.workspaces, id, 0) == Some((w@, t@)),
                None => tab_in_workspaces(self@.workspaces, id, 0) is None,
            },
    {
        let mut i: usize = 0;
        while i < self.workspaces.len()
            invariant
                i <= self.workspaces.len(),
                tab_in_workspaces(self@.workspaces, id, 0) == tab_in_workspaces(
                    self@.workspaces,
                    id,
                    i as int,
                ),
            decreases self.workspaces.len() - i,
        {
            assert(self@.workspaces[i as int] == self.workspaces@[i as int]@);
            if let Some(t) = self.workspaces[i].tab(id) {
                return Some((&self.workspaces[i], t));
            }
            i = i + 1;
        }
        None
    }

    pub fn surface_kind(&self, id: SurfaceId) -> (r: SurfaceKind)
        ensures
            r == self@.kind_of(id),
    {
        match self.tab(id) {
            Some((_, t)) => t.kind,
            None => SurfaceKind::Pty,
        }
    }

    pub fn tab_label(&self, id: SurfaceId) -> (r: Option<String>)
        ensures
            opt_text(r) == self@.label_of(id),
    {
        match self.tab(id) {
            Some((w, t)) => {
                let title: &str = t.display_title();
                let mut label: String = owned(w.name.as_str());
                if !title.is_empty() {
                    label.append(" \u{b7} ");
                    label.append(title);
                }
                Some(label)
            },
            None => None,
        }
    }
}

// ---- from the state -----------------------------------------------------------------------

/// The short name of an id; none is the empty text.
pub open spec fn short_from(shorts: Seq<(u64, String)>, id: u64, from: int) -> Seq<char>
    decreases shorts.len() - from,
{
    if from < 0 || from >= shorts.len() {
        seq![]
    } else if shorts[from].0 == id {
        shorts[from].1@
    } else {
        short_from(shorts, id, from + 1)
    }
}

fn short_id(shorts: &Vec<(u64, String)>, id: u64) -> (r: String)
    ensures
        r@ == short_from(shorts@, id, 0),
{
    let mut i: usize = 0;
    while i < shorts.len()
        invariant
            i <= shorts.len(),
            short_from(shorts@, id, 0) == short_from(shorts@, id, i as int),
        decreases shorts.len() - i,
    {
        if shorts[i].0 == id {
            return owned(shorts[i].1.as_str());
        }
        i = i + 1;
    }
    String::new()
}

/// A tab as it is shown; of a surface that is gone only the id is left.
pub open spec fn tab_shown(
    surface: Option<Surface>,
    id: SurfaceId,
    shorts: Seq<(u64, String)>,
) -> TabT {
    let short_id = short_from(shorts, id, 0);
    match surface {
        None => TabT {
            surface: id,
            short_id,
            name: None,
            title: seq![],
            cwd: None,
            agent_state: None,
            agent_session: None,
            kind: SurfaceKind::Pty,
            browser_source: None,
            browser_frames_stalled: false,
        },
        Some(s) => TabT {
            surface: id,
            short_id,
            name: opt_text(s.name),
            title: s.title@,
            cwd: opt_text(s.cwd),
            agent_state: match s.agent_report {
                Some(r) => Some(r.state),
                None => None,
            },
            agent_session: match s.agent_report {
                Some(r) => opt_text(r.session),
                None => None,
            },
            kind: s.kind,
            browser_source: s.browser_source,
            browser_frames_stalled: s.browser_frames_stalled == Some(true),
        },
    }
}

pub open spec fn pane_shown(state: State, shorts: Seq<(u64, String)>, pane: Pane) -> PaneT {
    PaneT {
        id: pane.id,
        short_id: short_from(shorts, pane.id, 0),
        name: opt_text(pane.name),
        tabs: pane.tabs@.map_values(
            |sid: SurfaceId| tab_shown(state.surface_of(sid), sid, shorts),
        ),
        active_tab: pane.active_tab,
    }
}

/// The panes of a layout that are there.
pub open spec fn panes_shown(state: State, shorts: Seq<(u64, String)>, ids: Seq<PaneId>) -> Seq<
    PaneT,
>
    decreases ids.len(),
{
    if ids.len() == 0 {
        seq![]
    } else {
        let front = panes_shown(state, shorts, ids.drop_last());
        match state.pane_of(ids.last()) {
            Some(p) => front.push(pane_shown(state, shorts, p)),
            None => front,
        }
    }
}

pub open spec fn screen_shown(state: State, shorts: Seq<(u64, String)>, screen: Screen) -> ScreenT {
    ScreenT {
        id: screen.id,
        short_id: short_from(shorts, screen.id, 0),
        name: opt_text(screen.name),
        layout: screen.root@,
        active_pane: screen.active_pane,
        panes: panes_shown(state, shorts, screen.root@.panes()),
    }
}

pub open spec fn workspace_shown(
    state: State,
    shorts: Seq<(u64, String)>,
    ws: Workspace,
) -> WorkspaceT {
    WorkspaceT {
        id: ws.id,
        short_id: short_from(shorts, ws.id, 0),
        name: ws.name@,
        color: ws.color,
        icon: opt_text(ws.icon),
        screens: ws.screens@.map_values(|s: Screen| screen_shown(state, shorts, s)),
        active_screen: ws.active_screen,
    }
}

/// The tree of a state.
pub open spec fn tree_shown(state: State, shorts: Seq<(u64, String)>) -> TreeT {
    TreeT {
        workspaces: state.workspaces@.map_values(|w: Workspace| workspace_shown(state, shorts, w)),
        active_workspace: state.active_workspace,
    }
}

fn show_tab(surface: Option<&Surface>, id: SurfaceId, shorts: &Vec<(u64, String)>) -> (r: TabView)
    ensures
        r@ == tab_shown(
            match surface {
                Some(s) => Some(*s),
                None => None,
            },
            id,
            shorts@,
        ),
{
    let short: String = short_id(shorts, id);
    match surface {
        None => TabView {
            surface: id,
            short_id: short,
            name: None,
            title: String::new(),
            cwd: None,
            agent_state: None,
            agent_session: None,
            kind: SurfaceKind::Pty,
            browser_source: None,
            browser_frames_stalled: false,
        },
        Some(s) => {
            let (agent_state, agent_session): (Option<AgentState>, Option<String>) =
                match &s.agent_report {
                Some(r) => (Some(r.state), copy_opt(&r.session)),
                None => (None, None),
            };
            let stalled: bool = match s.browser_frames_stalled {
                Some(b) => b,
                None => false,
            };
            TabView {
                surface: id,
                short_id: short,
                name: copy_opt(&s.name),
                title: owned(s.title.as_str()),
                cwd: copy_opt(&s.cwd),
                agent_state,
                agent_session,
                kind: s.kind,
                browser_source: s.browser_source,
                browser_frames_stalled: stalled,
            }
        },
    }
}

fn show_pane(state: &State, shorts: &Vec<(u64, String)>, pane: &Pane) -> (r: PaneView)
    ensures
        r@ == pane_shown(*state, shorts@, *pane),
{
    let mut tabs: Vec<TabView> = Vec::new();
    let mut i: usize = 0;
    while i < pane.tabs.len()
        invariant
            i <= pane.tabs.len(),
            tabs.len() == i,
            forall|k: int|
                0 <= k < i ==> (#[trigger] tabs@[k])@ == tab_shown(
                    state.surface_of(pane.tabs@[k]),
                    pane.tabs@[k],
                    shorts@,
                ),
        decreases pane.tabs.len() - i,
    {
        tabs.push(show_tab(state.surface(pane.tabs[i]), pane.tabs[i], shorts));
        i = i + 1;
    }
    let r: PaneView = PaneView {
        id: pane.id,
        short_id: short_id(shorts, pane.id),
        name: copy_opt(&pane.name),
        tabs,
        active_tab: pane.active_tab,
    };
    assert(r@.tabs =~= pane_shown(*state, shorts@, *pane).tabs);
    r
}

fn show_screen(state: &State, shorts: &Vec<(u64, String)>, screen: &Screen) -> (r: ScreenView)
    ensures
        r@ == screen_shown(*state, shorts@, *screen),
{
    let mut ids: Vec<PaneId> = Vec::new();
    screen.root.pane_ids(&mut ids);
    assert(ids@ =~= screen.root@.panes());
    let mut panes: Vec<PaneView> = Vec::new();
    let mut i: usize = 0;
    assert(panes@.map_values(|p: PaneView| p@) =~= panes_shown(*state, shorts@, ids@.take(0)));
    while i < ids.len()
        invariant
            i <= ids.len(),
            panes@.map_values(|p: PaneView| p@) == panes_shown(
                *state,
                shorts@,
                ids@.take(i as int),
            ),
        decreases ids.len() - i,
    {
        let ghost before = panes@;
        proof {
            assert(ids@.take(i + 1).drop_last() =~= ids@.take(i as int));
        }
        if let Some(pane) = state.pane(ids[i]) {
            let shown: PaneView = show_pane(state, shorts, pane);
            panes.push(shown);
            assert(panes@.map_values(|p: PaneView| p@) =~= before.map_values(
                |p: PaneView| p@,
            ).push(shown@));
        }
        i = i + 1;
    }
    assert(ids@.take(ids@.len() as int) =~= ids@);
    ScreenView {
        id: screen.id,
        short_id: short_id(shorts, screen.id),
        name: copy_opt(&screen.name),
        layout: screen.root.copy(),
        active_pane: screen.active_pane,
        panes,
    }
}

/// The tree of a state. `shorts` gives the short name of each id.
pub fn tree_from_state(state: &State, shorts: &Vec<(u64, String)>) -> (r: TreeView)
    ensures
        r@ == tree_shown(*state, shorts@),
{
    let mut workspaces: Vec<WorkspaceView> = Vec::new();
    let mut w: usize = 0;
    while w < state.workspaces.len()
        invariant
            w <= state.workspaces.len(),
            workspaces.len() == w,
            forall|k: int|
                0 <= k < w ==> (#[trigger] workspaces@[k])@ == workspace_shown(
                    *state,
                    shorts@,
                    state.workspaces@[k],
                ),
        decreases state.workspaces.len() - w,
    {
        let ws: &Workspace = &state.workspaces[w];
        let mut screens: Vec<ScreenView> = Vec::new();
        let mut i: usize = 0;
        while i < ws.screens.len()
            invariant
                i <= ws.screens.len(),
                screens.len() == i,
                forall|k: int|
                    0 <= k < i ==> (#[trigger] screens@[k])@ == screen_shown(
                        *state,
                        shorts@,
                        ws.screens@[k],
                    ),
            decreases ws.screens.len() - i,
        {
            screens.push(show_screen(state, shorts, &ws.screens[i]));
            i = i + 1;
        }
        let one: WorkspaceView = WorkspaceView {
            id: ws.id,
            short_id: short_id(shorts, ws.id),
            name: owned(ws.name.as_str()),
            color: ws.color,
            icon: copy_opt(&ws.icon),
            screens,
            active_screen: ws.active_screen,
        };
        assert(one@.screens =~= workspace_shown(*state, shorts@, *ws).screens);
        workspaces.push(one);
        w = w + 1;
    }
    let r: TreeView = TreeView { workspaces, active_workspace: state.active_workspace };
    assert(r@.workspaces =~= tree_shown(*state, shorts@).workspaces);
    r
}

/// The ids of a workspace: its own, and those of its screens, each followed by its panes.
pub open spec fn screen_ids(screens: Seq<Screen>) -> Seq<u64>
    decreases screens.len(),
{
    if screens.len() == 0 {
        seq![]
    } else {
        screen_ids(screens.drop_last()).push(screens.last().id) + screens.last().root@.panes()
    }
}

pub open spec fn workspace_ids(ws: Seq<Workspace>) -> Seq<u64>
    decreases ws.len(),
{
    if ws.len() == 0 {
        seq![]
    } else {
        workspace_ids(ws.drop_last()).push(ws.last().id) + screen_ids(ws.last().screens@)
    }
}

/// All the ids of a state that are given short names, in the order in which they are: the tree
/// from top to bottom, and behind it the surfaces.
pub open spec fn ids_of(state: State) -> Seq<u64> {
    workspace_ids(state.workspaces@) + state.surfaces@.map_values(|s: Surface| s.id)
}

pub fn short_id_order(state: &State) -> (out: Vec<u64>)
    ensures
        out@ == ids_of(*state),
{
    let mut out: Vec<u64> = Vec::new();
    let mut w: usize = 0;
    assert(out@ =~= workspace_ids(state.workspaces@.take(0)));
    while w < state.workspaces.len()
        invariant
            w <= state.workspaces.len(),
            out@ == workspace_ids(state.workspaces@.take(w as int)),
        decreases state.workspaces.len() - w,
    {
        let ws: &Workspace = &state.workspaces[w];
        let ghost before = out@;
        out.push(ws.id);
        let ghost start = out@;
        let mut i: usize = 0;
        assert(start + screen_ids(ws.screens@.take(0)) =~= start);
        while i < ws.screens.len()
            invariant
                i <= ws.screens.len(),
                out@ == start + screen_ids(ws.screens@.take(i as int)),
            decreases ws.screens.len() - i,
        {
            let ghost inner = screen_ids(ws.screens@.take(i as int));
            proof {
                assert(ws.screens@.take(i + 1).drop_last() =~= ws.screens@.take(i as int));
            }
            out.push(ws.screens[i].id);
            ws.screens[i].root.pane_ids(&mut out);
            i = i + 1;
            assert(out@ =~= start + screen_ids(ws.screens@.take(i as int)));
        }
        proof {
            assert(ws.screens@.take(ws.screens@.len() as int) =~= ws.screens@);
            assert(state.workspaces@.take(w + 1).drop_last() =~= state.workspaces@.take(w as int));
        }
        w = w + 1;
    }
    assert(state.workspaces@.take(state.workspaces@.len() as int) =~= state.workspaces@);
    let ghost tree = out@;
    let mut k: usize = 0;
    let ghost surfaces = state.surfaces@.map_values(|s: Surface| s.id);
    assert(tree + surfaces.take(0) =~= tree);
    while k < state.surfaces.len()
        invariant
            k <= state.surfaces.len(),
            surfaces == state.surfaces@.map_values(|s: Surface| s.id),
            out@ == tree + surfaces.take(k as int),
        decreases state.surfaces.len() - k,
    {
        out.push(state.surfaces[k].id);
        k = k + 1;
        assert(out@ =~= tree + surfaces.take(k as int));
    }
    assert(surfaces.take(surfaces.len() as int) =~= surfaces);
    out
}

// ---- from an answer -----------------------------------------------------------------------

/// The values that are there.
pub open spec fn some_of<A>(s: Seq<Option<A>>) -> Seq<A>
    decreases s.len(),
{
    if s.len() == 0 {
        seq![]
    } else {
        match s.last() {
            Some(a) => some_of(s.drop_last()).push(a),
            None => some_of(s.drop_last()),
        }
    }
}

/// The value of a digit in base sixteen.
pub open spec fn hex_value(c: char) -> Option<u8> {
    let n = c as int;
    if 48 <= n <= 57 {
        Some((n - 48) as u8)
    } else if 97 <= n <= 102 {
        Some((n - 87) as u8)
    } else if 65 <= n <= 70 {
        Some((n - 55) as u8)
    } else {
        None
    }
}

/// Two digits.
pub open spec fn hex_pair(s: Seq<char>, i: int) -> Option<u8> {
    match (hex_value(s[i]), hex_value(s[i + 1])) {
        (Some(a), Some(b)) => Some((a * 16 + b) as u8),
        _ => None,
    }
}

/// The colour that a number sign and six digits write.
pub open spec fn color_of(s: Seq<char>) -> Option<Rgb> {
    if s.len() == 7 && s[0] == '#' {
        match (hex_pair(s, 1), hex_pair(s, 3), hex_pair(s, 5)) {
            (Some(r), Some(g), Some(b)) => Some(Rgb { r, g, b }),
            _ => None,
        }
    } else {
        None
    }
}

fn read_hex(c: char) -> (r: Option<u8>)
    ensures
        r == hex_value(c),
        r matches Some(v) ==> v < 16,
{
    let n: u32 = code(c);
    if 48 <= n && n <= 57 {
        Some((n - 48) as u8)
    } else if 97 <= n && n <= 102 {
        Some((n - 87) as u8)
    } else if 65 <= n && n <= 70 {
        Some((n - 55) as u8)
    } else {
        None
    }
}

fn read_pair(s: &Vec<char>, i: usize) -> (r: Option<u8>)
    requires
        i + 1 < s.len(),
    ensures
        r == hex_pair(s@, i as int),
{
    match (read_hex(s[i]), read_hex(s[i + 1])) {
        (Some(a), Some(b)) => Some(a * 16 + b),
        _ => None,
    }
}

pub fn parse_color(s: &str) -> (r: Option<Rgb>)
    ensures
        r == color_of(s@),
{
    let chars: Vec<char> = chars_of(s);
    if chars.len() != 7 || chars[0] != '#' {
        return None;
    }
    match (read_pair(&chars, 1), read_pair(&chars, 3), read_pair(&chars, 5)) {
        (Some(r), Some(g), Some(b)) => Some(Rgb { r, g, b }),
        _ => None,
    }
}

/// The layout that a value is the JSON of.
pub open spec fn layout_parsed(j: JsonV) -> Option<NodeV>
    decreases j,
{
    proof {
        lemma_field_decreases(j, "a"@);
        lemma_field_decreases(j, "b"@);
    }
    match j.field_chars("type"@) {
        None => None,
        Some(t) => if t == "leaf"@ {
            match j.field_unsigned("pane"@) {
                Some(id) => Some(NodeV::Leaf(id)),
                None => None,
            }
        } else if t == "split"@ {
            match (dir_parsed(j), j.field("ratio"@), j.field("a"@), j.field("b"@)) {
                (Some(dir), Some(JsonV::Number(ratio)), Some(a), Some(b)) => match (
                    layout_parsed(a),
                    layout_parsed(b),
                ) {
                    (Some(a), Some(b)) => Some(
                        NodeV::Split(dir, ratio, Box::new(a), Box::new(b)),
                    ),
                    _ => None,
                },
                _ => None,
            }
        } else {
            None
        },
    }
}

pub open spec fn dir_parsed(j: JsonV) -> Option<SplitDir> {
    match j.field_chars("dir"@) {
        Some(s) => if s == "right"@ {
            Some(SplitDir::Right)
        } else if s == "down"@ {
            Some(SplitDir::Down)
        } else {
            None
        },
        None => None,
    }
}

/// The text of a field, the empty one where there is none.
pub open spec fn text_of(j: JsonV, key: Seq<char>) -> Seq<char> {
    match j.field_chars(key) {
        Some(s) => s,
        None => seq![],
    }
}

pub open spec fn tab_parsed(j: JsonV) -> Option<TabT> {
    match j.field_unsigned("surface"@) {
        None => None,
        Some(surface) => Some(
            TabT {
                surface,
                short_id: text_of(j, "short_id"@),
                name: j.field_chars("name"@),
                title: text_of(j, "title"@),
                cwd: j.field_chars("cwd"@),
                agent_state: match j.field_chars("agent_state"@) {
                    Some(s) => agent_state_of(s),
                    None => None,
                },
                agent_session: j.field_chars("agent_session"@),
                kind: if j.field_chars("kind"@) == Some("browser"@) {
                    SurfaceKind::Browser
                } else {
                    SurfaceKind::Pty
                },
                browser_source: if j.field_chars("browser_source"@) == Some("external"@) {
                    Some(BrowserSource::External)
                } else if j.field_chars("browser_source"@) == Some("launched"@) {
                    Some(BrowserSource::Launched)
                } else {
                    None
                },
                browser_frames_stalled: j.field_flag("browser_frames_stalled"@) == Some(true),
            },
        ),
    }
}

/// The items of a list in a field that can be read.
pub open spec fn items_of(j: JsonV, key: Seq<char>) -> Seq<JsonV> {
    match j.field_items(key) {
        Some(items) => items,
        None => seq![],
    }
}

/// The number of a field, zero where there is none.
pub open spec fn number_or_zero(j: JsonV, key: Seq<char>) -> u64 {
    match j.field_unsigned(key) {
        Some(n) => n,
        None => 0,
    }
}

pub open spec fn pane_parsed(j: JsonV) -> Option<PaneT> {
    match j.field_unsigned("id"@) {
        None => None,
        Some(id) => Some(
            PaneT {
                id,
                short_id: text_of(j, "short_id"@),
                name: j.field_chars("name"@),
                tabs: some_of(items_of(j, "tabs"@).map_values(|t: JsonV| tab_parsed(t))),
                active_tab: number_or_zero(j, "active_tab"@) as usize,
            },
        ),
    }
}

pub open spec fn screen_parsed(j: JsonV) -> Option<ScreenT> {
    match (j.field_unsigned("id"@), j.field("layout"@)) {
        (Some(id), Some(layout)) => match layout_parsed(layout) {
            Some(layout) => Some(
                ScreenT {
                    id,
                    short_id: text_of(j, "short_id"@),
                    name: j.field_chars("name"@),
                    layout,
                    active_pane: number_or_zero(j, "active_pane"@),
                    panes: some_of(items_of(j, "panes"@).map_values(|p: JsonV| pane_parsed(p))),
                },
            ),
            None => None,
        },
        _ => None,
    }
}

/// The last position whose item is marked active; the first where none is.
pub open spec fn active_of(items: Seq<JsonV>) -> int
    decreases items.len(),
{
    if items.len() == 0 {
        0
    } else if items.last().field_flag("active"@) == Some(true) {
        items.len() - 1
    } else {
        active_of(items.drop_last())
    }
}

pub open spec fn workspace_parsed(j: JsonV) -> WorkspaceT {
    WorkspaceT {
        id: number_or_zero(j, "id"@),
        short_id: text_of(j, "short_id"@),
        name: text_of(j, "name"@),
        color: match j.field_chars("color"@) {
            Some(c) => color_of(c),
            None => None,
        },
        icon: j.field_chars("icon"@),
        screens: some_of(items_of(j, "screens"@).map_values(|s: JsonV| screen_parsed(s))),
        active_screen: active_of(items_of(j, "screens"@)) as usize,
    }
}

/// The tree of an answer to `list-workspaces`.
pub open spec fn tree_parsed(data: JsonV) -> TreeT {
    let list = items_of(data, "workspaces"@);
    TreeT {
        workspaces: list.map_values(|w: JsonV| workspace_parsed(w)),
        active_workspace: active_of(list) as usize,
    }
}

fn opt_field(j: &Json, key: &str) -> (r: Option<String>)
    ensures
        opt_text(r) == j@.field_chars(key@),
{
    match j.field_chars(key) {
        Some(s) => Some(owned(s)),
        None => None,
    }
}

fn text_field(j: &Json, key: &str) -> (r: String)
    ensures
        r@ == text_of(j@, key@),
{
    match j.field_chars(key) {
        Some(s) => owned(s),
        None => String::new(),
    }
}

fn number_field(j: &Json, key: &str) -> (r: u64)
    ensures
        r == number_or_zero(j@, key@),
{
    match j.field_unsigned(key) {
        Some(n) => n,
        None => 0,
    }
}

/// Whether the text of a field is this one.
fn field_is(j: &Json, key: &str, text: &str) -> (r: bool)
    ensures
        r == (j@.field_chars(key@) == Some(text@)),
{
    match j.field_chars(key) {
        Some(s) => same(s, text),
        None => false,
    }
}

fn parse_layout(j: &Json) -> (r: Option<Node>)
    ensures
        match r {
            Some(n) => layout_parsed(j@) == Some(n@),
            None => layout_parsed(j@) is None,
        },
    decreases j,
{
    if field_is(j, "type", "leaf") {
        return match j.field_unsigned("pane") {
            Some(id) => Some(Node::Leaf(id)),
            None => None,
        };
    }
    if !field_is(j, "type", "split") {
        return None;
    }
    let dir: SplitDir = if field_is(j, "dir", "right") {
        SplitDir::Right
    } else if field_is(j, "dir", "down") {
        SplitDir::Down
    } else {
        return None;
    };
    match (j.get("ratio"), j.get("a"), j.get("b")) {
        (Some(Json::Number(ratio)), Some(a), Some(b)) => match (parse_layout(a), parse_layout(b)) {
            (Some(a), Some(b)) => Some(
                Node::Split {
                    dir,
                    ratio: number_copy(ratio),
                    a: Box::new(a),
                    b: Box::new(b),
                },
            ),
            _ => None,
        },
        _ => None,
    }
}

fn parse_tab(j: &Json) -> (r: Option<TabView>)
    ensures
        match r {
            Some(t) => tab_parsed(j@) == Some(t@),
            None => tab_parsed(j@) is None,
        },
{
    let surface: u64 = match j.field_unsigned("surface") {
        Some(n) => n,
        None => {
            return None;
        },
    };
    let agent_state: Option<AgentState> = match j.field_chars("agent_state") {
        Some(s) => AgentState::parse(s),
        None => None,
    };
    let kind: SurfaceKind = if field_is(j, "kind", "browser") {
        SurfaceKind::Browser
    } else {
        SurfaceKind::Pty
    };
    let browser_source: Option<BrowserSource> = if field_is(j, "browser_source", "external") {
        Some(BrowserSource::External)
    } else if field_is(j, "browser_source", "launched") {
        Some(BrowserSource::Launched)
    } else {
        None
    };
    let browser_frames_stalled: bool = match j.field_flag("browser_frames_stalled") {
        Some(b) => b,
        None => false,
    };
    Some(
        TabView {
            surface,
            short_id: text_field(j, "short_id"),
            name: opt_field(j, "name"),
            title: text_field(j, "title"),
            cwd: opt_field(j, "cwd"),
            agent_state,
            agent_session: opt_field(j, "agent_session"),
            kind,
            browser_source,
            browser_frames_stalled,
        },
    )
}

fn read_tabs(items: &Vec<Json>) -> (out: Vec<TabView>)
    ensures
        out@.map_values(|x: TabView| x@) == some_of(
            list_view(items@).map_values(|j: JsonV| tab_parsed(j)),
        ),
{
    let ghost found = list_view(items@).map_values(|j: JsonV| tab_parsed(j));
    let mut out: Vec<TabView> = Vec::new();
    let mut i: usize = 0;
    assert(out@.map_values(|x: TabView| x@) =~= some_of(found.take(0)));
    while i < items.len()
        invariant
            i <= items.len(),
            found == list_view(items@).map_values(|j: JsonV| tab_parsed(j)),
            found.len() == items.len(),
            out@.map_values(|x: TabView| x@) == some_of(found.take(i as int)),
        decreases items.len() - i,
    {
        let ghost before = out@;
        proof {
            assert(found[i as int] == tab_parsed(items@[i as int]@));
            assert(found.take(i + 1).drop_last() =~= found.take(i as int));
        }
        if let Some(x) = parse_tab(&items[i]) {
            out.push(x);
            assert(out@.map_values(|x: TabView| x@) =~= before.map_values(|x: TabView| x@).push(
                x@,
            ));
        }
        i = i + 1;
    }
    assert(found.take(found.len() as int) =~= found);
    out
}

fn parse_pane(j: &Json) -> (r: Option<PaneView>)
    ensures
        match r {
            Some(p) => pane_parsed(j@) == Some(p@),
            None => pane_parsed(j@) is None,
        },
{
    let id: u64 = match j.field_unsigned("id") {
        Some(n) => n,
        None => {
            return None;
        },
    };
    let tabs: Vec<TabView> = match j.field_items("tabs") {
        Some(items) => read_tabs(items),
        None => Vec::new(),
    };
    let p: PaneView = PaneView {
        id,
        short_id: text_field(j, "short_id"),
        name: opt_field(j, "name"),
        tabs,
        active_tab: number_field(j, "active_tab") as usize,
    };
    assert(p@.tabs =~= some_of(items_of(j@, "tabs"@).map_values(|t: JsonV| tab_parsed(t))));
    Some(p)
}

fn read_panes(items: &Vec<Json>) -> (out: Vec<PaneView>)
    ensures
        out@.map_values(|x: PaneView| x@) == some_of(
            list_view(items@).map_values(|j: JsonV| pane_parsed(j)),
        ),
{
    let ghost found = list_view(items@).map_values(|j: JsonV| pane_parsed(j));
    let mut out: Vec<PaneView> = Vec::new();
    let mut i: usize = 0;
    assert(out@.map_values(|x: PaneView| x@) =~= some_of(found.take(0)));
    while i < items.len()
        invariant
            i <= items.len(),
            found == list_view(items@).map_values(|j: JsonV| pane_parsed(j)),
            found.len() == items.len(),
            out@.map_values(|x: PaneView| x@) == some_of(found.take(i as int)),
        decreases items.len() - i,
    {
        let ghost before = out@;
        proof {
            assert(found[i as int] == pane_parsed(items@[i as int]@));
            assert(found.take(i + 1).drop_last() =~= found.take(i as int));
        }
        if let Some(x) = parse_pane(&items[i]) {
            out.push(x);
            assert(out@.map_values(|x: PaneView| x@) =~= before.map_values(|x: PaneView| x@).push(
                x@,
            ));
        }
        i = i + 1;
    }
    assert(found.take(found.len() as int) =~= found);
    out
}

fn parse_screen(j: &Json) -> (r: Option<ScreenView>)
    ensures
        match r {
            Some(s) => screen_parsed(j@) == Some(s@),
            None => screen_parsed(j@) is None,
        },
{
    let (id, layout): (u64, Node) = match (j.field_unsigned("id"), j.get("layout")) {
        (Some(id), Some(layout)) => match parse_layout(layout) {
            Some(layout) => (id, layout),
            None => {
                return None;
            },
        },
        _ => {
            return None;
        },
    };
    let panes: Vec<PaneView> = match j.field_items("panes") {
        Some(items) => read_panes(items),
        None => Vec::new(),
    };
    let s: ScreenView = ScreenView {
        id,
        short_id: text_field(j, "short_id"),
        name: opt_field(j, "name"),
        layout,
        active_pane: number_field(j, "active_pane"),
        panes,
    };
    assert(s@.panes =~= some_of(items_of(j@, "panes"@).map_values(|p: JsonV| pane_parsed(p))));
    Some(s)
}

fn read_screens(items: &Vec<Json>) -> (out: Vec<ScreenView>)
    ensures
        out@.map_values(|x: ScreenView| x@) == some_of(
            list_view(items@).map_values(|j: JsonV| screen_parsed(j)),
        ),
{
    let ghost found = list_view(items@).map_values(|j: JsonV| screen_parsed(j));
    let mut out: Vec<ScreenView> = Vec::new();
    let mut i: usize = 0;
    assert(out@.map_values(|x: ScreenView| x@) =~= some_of(found.take(0)));
    while i < items.len()
        invariant
            i <= items.len(),
            found == list_view(items@).map_values(|j: JsonV| screen_parsed(j)),
            found.len() == items.len(),
            out@.map_values(|x: ScreenView| x@) == some_of(found.take(i as int)),
        decreases items.len() - i,
    {
        let ghost before = out@;
        proof {
            assert(found[i as int] == screen_parsed(items@[i as int]@));
            assert(found.take(i + 1).drop_last() =~= found.take(i as int));
        }
        if let Some(x) = parse_screen(&items[i]) {
            out.push(x);
            assert(out@.map_values(|x: ScreenView| x@) =~= before.map_values(|x: ScreenView| x@).push(
                x@,
            ));
        }
        i = i + 1;
    }
    assert(found.take(found.len() as int) =~= found);
    out
}

fn active_index(items: &Vec<Json>) -> (r: usize)
    ensures
        r == active_of(list_view(items@)),
{
    let mut r: usize = 0;
    let mut i: usize = 0;
    let ghost all = list_view(items@);
    while i < items.len()
        invariant
            i <= items.len(),
            all == list_view(items@),
            r == active_of(all.take(i as int)),
        decreases items.len() - i,
    {
        proof {
            assert(all[i as int] == items@[i as int]@);
            assert(all.take(i + 1).drop_last() =~= all.take(i as int));
        }
        let active: bool = match items[i].field_flag("active") {
            Some(b) => b,
            None => false,
        };
        if active {
            r = i;
        }
        i = i + 1;
    }
    assert(all.take(all.len() as int) =~= all);
    r
}

fn parse_workspace(j: &Json) -> (r: WorkspaceView)
    ensures
        r@ == workspace_parsed(j@),
{
    let (screens, active_screen): (Vec<ScreenView>, usize) = match j.field_items("screens") {
        Some(items) => (read_screens(items), active_index(items)),
        None => (Vec::new(), 0),
    };
    let color: Option<Rgb> = match j.field_chars("color") {
        Some(c) => parse_color(c),
        None => None,
    };
    let r: WorkspaceView = WorkspaceView {
        id: number_field(j, "id"),
        short_id: text_field(j, "short_id"),
        name: text_field(j, "name"),
        color,
        icon: opt_field(j, "icon"),
        screens,
        active_screen,
    };
    assert(r@.screens =~= some_of(
        items_of(j@, "screens"@).map_values(|s: JsonV| screen_parsed(s)),
    ));
    r
}

/// Reads the answer to `list-workspaces`.
pub fn parse_tree(data: &Json) -> (r: TreeView)
    ensures
        r@ == tree_parsed(data@),
{
    let items: &Vec<Json> = match data.field_items("workspaces") {
        Some(items) => items,
        None => {
            let r: TreeView = TreeView { workspaces: Vec::new(), active_workspace: 0 };
            assert(r@.workspaces =~= tree_parsed(data@).workspaces);
            return r;
        },
    };
    let mut workspaces: Vec<WorkspaceView> = Vec::new();
    let mut i: usize = 0;
    while i < items.len()
        invariant
            i <= items.len(),
            workspaces.len() == i,
            forall|k: int|
                0 <= k < i ==> (#[trigger] workspaces@[k])@ == workspace_parsed(items@[k]@),
        decreases items.len() - i,
    {
        workspaces.push(parse_workspace(&items[i]));
        i = i + 1;
    }
    let r: TreeView = TreeView { workspaces, active_workspace: active_index(items) };
    assert(r@.workspaces =~= tree_parsed(data@).workspaces);
    r
}

/// A colour is read back from the text that it is written as.
pub proof fn law_color_text(c: Rgb)
    ensures
        color_of(crate::layout_doc::color_text(c)) == Some(c),
{
    let s = crate::layout_doc::color_text(c);
    assert(hex_value(s[1]) == Some((c.r / 16) as u8));
    assert(hex_value(s[2]) == Some((c.r % 16) as u8));
    assert(hex_value(s[3]) == Some((c.g / 16) as u8));
    assert(hex_value(s[4]) == Some((c.g % 16) as u8));
    assert(hex_value(s[5]) == Some((c.b / 16) as u8));
    assert(hex_value(s[6]) == Some((c.b % 16) as u8));
}

// ---- what an answer shows -----------------------------------------------------------------

/// Whether a field shows a text that may be missing: it holds the text, or holds no text.
pub open spec fn shows_opt(j: JsonV, key: Seq<char>, v: Option<Seq<char>>) -> bool {
    match v {
        Some(s) => j.field(key) == Some(JsonV::Text(s)),
        None => !(j.field(key) matches Some(JsonV::Text(_))),
    }
}

/// Whether a field shows a text; the empty one may be missing.
pub open spec fn shows_text(j: JsonV, key: Seq<char>, s: Seq<char>) -> bool {
    shows_opt(j, key, Some(s)) || (s.len() == 0 && shows_opt(j, key, None))
}

/// Whether a field shows a number.
pub open spec fn shows_number(j: JsonV, key: Seq<char>, n: u64) -> bool {
    j.field(key) == Some(JsonV::Number(crate::json::NumberV::Unsigned(n)))
}

/// Whether a value shows a layout: a leaf with its pane; a split with its direction and its
/// ratio, the first part under `a` and the second under `b`.
pub open spec fn shows_layout(j: JsonV, n: NodeV) -> bool
    decreases n,
{
    match n {
        NodeV::Leaf(id) => shows_opt(j, "type"@, Some("leaf"@)) && shows_number(j, "pane"@, id),
        NodeV::Split(dir, ratio, a, b) => {
            &&& shows_opt(j, "type"@, Some("split"@))
            &&& dir == SplitDir::Right ==> shows_opt(j, "dir"@, Some("right"@))
            &&& dir == SplitDir::Down ==> shows_opt(j, "dir"@, Some("down"@))
            &&& j.field("ratio"@) == Some(JsonV::Number(ratio))
            &&& j.field("a"@) matches Some(x) && shows_layout(x, *a)
            &&& j.field("b"@) matches Some(y) && shows_layout(y, *b)
        },
    }
}

pub open spec fn shows_tab(j: JsonV, t: TabT) -> bool {
    &&& shows_number(j, "surface"@, t.surface)
    &&& shows_text(j, "short_id"@, t.short_id)
    &&& shows_opt(j, "name"@, t.name)
    &&& shows_text(j, "title"@, t.title)
    &&& shows_opt(j, "cwd"@, t.cwd)
    &&& match t.agent_state {
        Some(AgentState::Working) => shows_opt(j, "agent_state"@, Some("working"@)),
        Some(AgentState::Blocked) => shows_opt(j, "agent_state"@, Some("blocked"@)),
        Some(AgentState::Idle) => shows_opt(j, "agent_state"@, Some("idle"@)),
        Some(AgentState::Done) => shows_opt(j, "agent_state"@, Some("done"@)),
        Some(AgentState::Unknown) => shows_opt(j, "agent_state"@, Some("unknown"@)),
        None => shows_opt(j, "agent_state"@, None),
    }
    &&& shows_opt(j, "agent_session"@, t.agent_session)
    &&& match t.kind {
        SurfaceKind::Browser => shows_opt(j, "kind"@, Some("browser"@)),
        SurfaceKind::Pty => !shows_opt(j, "kind"@, Some("browser"@)),
    }
    &&& match t.browser_source {
        Some(BrowserSource::External) => shows_opt(j, "browser_source"@, Some("external"@)),
        Some(BrowserSource::Launched) => shows_opt(j, "browser_source"@, Some("launched"@)),
        None => shows_opt(j, "browser_source"@, None),
    }
    &&& t.browser_frames_stalled <==> j.field("browser_frames_stalled"@) == Some(JsonV::Bool(true))
}

pub open spec fn shows_pane(j: JsonV, p: PaneT) -> bool {
    &&& shows_number(j, "id"@, p.id)
    &&& shows_text(j, "short_id"@, p.short_id)
    &&& shows_opt(j, "name"@, p.name)
    &&& shows_number(j, "active_tab"@, p.active_tab as u64)
    &&& j.field("tabs"@) matches Some(JsonV::List(items)) && items.len() == p.tabs.len()
        && forall|i: int| 0 <= i < items.len() ==> shows_tab(#[trigger] items[i], p.tabs[i])
}

pub open spec fn shows_screen(j: JsonV, s: ScreenT) -> bool {
    &&& shows_number(j, "id"@, s.id)
    &&& shows_text(j, "short_id"@, s.short_id)
    &&& shows_opt(j, "name"@, s.name)
    &&& shows_number(j, "active_pane"@, s.active_pane)
    &&& j.field("layout"@) matches Some(l) && shows_layout(l, s.layout)
    &&& j.field("panes"@) matches Some(JsonV::List(items)) && items.len() == s.panes.len()
        && forall|i: int| 0 <= i < items.len() ==> shows_pane(#[trigger] items[i], s.panes[i])
}

/// Whether the item at position `n`, and no other, is marked active.
pub open spec fn marks(items: Seq<JsonV>, n: int) -> bool {
    &&& items.len() == 0 ==> n == 0
    &&& items.len() > 0 ==> 0 <= n < items.len()
    &&& forall|i: int|
        0 <= i < items.len() ==> ((#[trigger] items[i]).field("active"@) == Some(JsonV::Bool(true))
            <==> i == n)
}

pub open spec fn shows_workspace(j: JsonV, w: WorkspaceT) -> bool {
    &&& shows_number(j, "id"@, w.id)
    &&& shows_text(j, "short_id"@, w.short_id)
    &&& shows_text(j, "name"@, w.name)
    &&& shows_opt(j, "icon"@, w.icon)
    &&& match w.color {
        Some(c) => j.field("color"@) matches Some(JsonV::Text(text)) && writes_color(text, c),
        None => shows_opt(j, "color"@, None),
    }
    &&& j.field("screens"@) matches Some(JsonV::List(items)) && items.len() == w.screens.len()
        && marks(items, w.active_screen as int) && forall|i: int|
        0 <= i < items.len() ==> shows_screen(#[trigger] items[i], w.screens[i])
}

/// Whether a character is the digit of a value in base sixteen, in either case.
pub open spec fn is_digit(c: char, value: int) -> bool {
    &&& 0 <= value < 16
    &&& if value < 10 {
        c as int == '0' as int + value
    } else {
        c as int == 'a' as int + value - 10 || c as int == 'A' as int + value - 10
    }
}

/// Whether a text is a number sign and the digits of red, green and blue.
pub open spec fn writes_color(text: Seq<char>, c: Rgb) -> bool {
    &&& text.len() == 7
    &&& text[0] == '#'
    &&& is_digit(text[1], c.r as int / 16) && is_digit(text[2], c.r as int % 16)
    &&& is_digit(text[3], c.g as int / 16) && is_digit(text[4], c.g as int % 16)
    &&& is_digit(text[5], c.b as int / 16) && is_digit(text[6], c.b as int % 16)
}

/// A colour is read from every text that writes it, and the text that it is written as is one.
pub proof fn law_color_read(text: Seq<char>, c: Rgb)
    ensures
        writes_color(text, c) ==> color_of(text) == Some(c),
        writes_color(crate::layout_doc::color_text(c), c),
{
}

/// A layout is read from every value that shows it, each part in its place.
pub proof fn law_layout_read(j: JsonV, n: NodeV)
    requires
        shows_layout(j, n),
    ensures
        layout_parsed(j) == Some(n),
    decreases n,
{
    reveal_strlit("leaf");
    reveal_strlit("split");
    reveal_strlit("right");
    reveal_strlit("down");
    assert("leaf"@.len() == 4 && "split"@.len() == 5 && "right"@.len() == 5 && "down"@.len() == 4);
    if let NodeV::Split(_, _, a, b) = n {
        law_layout_read(j.field("a"@)->0, *a);
        law_layout_read(j.field("b"@)->0, *b);
    }
}

/// A tab, a pane and a screen are read from every value that shows them; what has no number of
/// its own is passed over.
pub proof fn law_parts_read(j: JsonV, t: TabT, p: PaneT, s: ScreenT)
    ensures
        shows_tab(j, t) ==> tab_parsed(j) == Some(t),
        shows_pane(j, p) ==> pane_parsed(j) == Some(p),
        shows_screen(j, s) ==> screen_parsed(j) == Some(s),
        j.field_unsigned("surface"@) is None ==> tab_parsed(j) is None,
        j.field_unsigned("id"@) is None ==> pane_parsed(j) is None && screen_parsed(j) is None,
        j.field("layout"@) is None ==> screen_parsed(j) is None,
{
    if shows_tab(j, t) {
        lemma_tab_read(j, t);
    }
    if shows_pane(j, p) {
        lemma_pane_read(j, p);
    }
    if shows_screen(j, s) {
        lemma_screen_read(j, s);
    }
}

proof fn lemma_tab_read(j: JsonV, t: TabT)
    requires
        shows_tab(j, t),
    ensures
        tab_parsed(j) == Some(t),
{
    reveal_strlit("working");
    reveal_strlit("blocked");
    reveal_strlit("idle");
    reveal_strlit("done");
    reveal_strlit("unknown");
    reveal_strlit("browser");
    reveal_strlit("external");
    reveal_strlit("launched");
    assert("working"@[0] == 'w' && "blocked"@[0] == 'b' && "idle"@[0] == 'i' && "done"@[0] == 'd'
        && "unknown"@[0] == 'u');
    assert("external"@[0] == 'e' && "launched"@[0] == 'l');
    assert(text_of(j, "short_id"@) =~= t.short_id);
    assert(text_of(j, "title"@) =~= t.title);
}

proof fn lemma_pane_read(j: JsonV, p: PaneT)
    requires
        shows_pane(j, p),
    ensures
        pane_parsed(j) == Some(p),
{
    let items = j.field("tabs"@)->0->List_0;
    let found = items.map_values(|x: JsonV| tab_parsed(x));
    assert forall|i: int| 0 <= i < found.len() implies #[trigger] found[i] == Some(p.tabs[i]) by {
        lemma_tab_read(items[i], p.tabs[i]);
    }
    lemma_all_read(found, p.tabs);
    assert(text_of(j, "short_id"@) =~= p.short_id);
}

/// Where every value is there, all are taken.
proof fn lemma_all_read<A>(found: Seq<Option<A>>, all: Seq<A>)
    requires
        found.len() == all.len(),
        forall|i: int| 0 <= i < found.len() ==> #[trigger] found[i] == Some(all[i]),
    ensures
        some_of(found) == all,
    decreases found.len(),
{
    if found.len() > 0 {
        let front = found.drop_last();
        assert forall|i: int| 0 <= i < front.len() implies #[trigger] front[i] == Some(
            all.drop_last()[i],
        ) by {
            assert(front[i] == found[i]);
        }
        lemma_all_read(front, all.drop_last());
        assert(found.last() == found[found.len() - 1]);
        assert(all.drop_last().push(all.last()) =~= all);
    } else {
        assert(all =~= seq![]);
    }
}

proof fn lemma_marked(items: Seq<JsonV>, n: int)
    requires
        forall|i: int|
            0 <= i < items.len() ==> ((#[trigger] items[i]).field("active"@) == Some(
                JsonV::Bool(true),
            ) <==> i == n),
    ensures
        0 <= n < items.len() ==> active_of(items) == n,
        !(0 <= n < items.len()) ==> active_of(items) == 0,
    decreases items.len(),
{
    if items.len() > 0 {
        let front = items.drop_last();
        assert forall|i: int| 0 <= i < front.len() implies ((#[trigger] front[i]).field("active"@)
            == Some(JsonV::Bool(true)) <==> i == n) by {
            assert(front[i] == items[i]);
        }
        lemma_marked(front, n);
        assert(items.last() == items[items.len() - 1]);
    }
}

/// Reading undoes writing: an answer that shows a tree is read as that tree, each workspace,
/// screen, pane and tab in its place and with its own fields.
pub proof fn law_tree_read(data: JsonV, t: TreeT)
    requires
        data.field("workspaces"@) matches Some(JsonV::List(items)) && items.len()
            == t.workspaces.len() && marks(items, t.active_workspace as int) && forall|i: int|
            0 <= i < items.len() ==> shows_workspace(#[trigger] items[i], t.workspaces[i]),
    ensures
        tree_parsed(data) == t,
{
    let items = data.field("workspaces"@)->0->List_0;
    lemma_marked(items, t.active_workspace as int);
    assert forall|i: int| 0 <= i < items.len() implies workspace_parsed(#[trigger] items[i])
        == t.workspaces[i] by {
        let j = items[i];
        let w = t.workspaces[i];
        let screens = j.field("screens"@)->0->List_0;
        lemma_marked(screens, w.active_screen as int);
        let found = screens.map_values(|x: JsonV| screen_parsed(x));
        assert forall|k: int| 0 <= k < found.len() implies #[trigger] found[k] == Some(
            w.screens[k],
        ) by {
            lemma_screen_read(screens[k], w.screens[k]);
        }
        lemma_all_read(found, w.screens);
        if let Some(c) = w.color {
            law_color_read(j.field("color"@)->0->Text_0, c);
        }
        assert(text_of(j, "short_id"@) =~= w.short_id);
        assert(text_of(j, "name"@) =~= w.name);
    }
    assert(tree_parsed(data).workspaces =~= t.workspaces);
}

proof fn lemma_screen_read(j: JsonV, s: ScreenT)
    requires
        shows_screen(j, s),
    ensures
        screen_parsed(j) == Some(s),
{
    let items = j.field("panes"@)->0->List_0;
    let found = items.map_values(|x: JsonV| pane_parsed(x));
    assert forall|i: int| 0 <= i < found.len() implies #[trigger] found[i] == Some(s.panes[i]) by {
        lemma_pane_read(items[i], s.panes[i]);
    }
    lemma_all_read(found, s.panes);
    law_layout_read(j.field("layout"@)->0, s.layout);
    assert(text_of(j, "short_id"@) =~= s.short_id);
}

// ---- what the state shows -----------------------------------------------------------------

/// The tree of a state has its workspaces and their screens in their order, each with its own
/// number, name, colour and icon, and with what is active in it; a screen has the state's layout.
pub proof fn law_state_shown(state: State, shorts: Seq<(u64, String)>, w: int, s: int)
    ensures
        ({
            let t = tree_shown(state, shorts);
            &&& t.active_workspace == state.active_workspace
            &&& t.workspaces.len() == state.workspaces.len()
            &&& 0 <= w < state.workspaces.len() ==> {
                let ws = state.workspaces@[w];
                let shown = t.workspaces[w];
                &&& shown.id == ws.id && shown.name == ws.name@ && shown.color == ws.color
                &&& shown.icon == opt_text(ws.icon) && shown.active_screen == ws.active_screen
                &&& shown.screens.len() == ws.screens.len()
                &&& 0 <= s < ws.screens.len() ==> {
                    let screen = ws.screens@[s];
                    &&& shown.screens[s].id == screen.id
                    &&& shown.screens[s].name == opt_text(screen.name)
                    &&& shown.screens[s].layout == screen.root@
                    &&& shown.screens[s].active_pane == screen.active_pane
                }
            }
        }),
{
}

/// The panes of a screen in order are shown in the order of its layout, each with its own
/// number, name and active tab, and with its tabs in their order: each with the number of its
/// surface, and with what that surface says of itself.
pub proof fn law_panes_shown(
    state: State,
    shorts: Seq<(u64, String)>,
    screen: Screen,
    k: int,
    t: int,
)
    requires
        state.screen_ok(screen),
        0 <= k < screen.root@.panes().len(),
    ensures
        ({
            let ids = screen.root@.panes();
            let shown = screen_shown(state, shorts, screen).panes;
            &&& shown.len() == ids.len()
            &&& state.pane_of(ids[k]) matches Some(p) && {
                &&& shown[k].id == p.id
                &&& shown[k].name == opt_text(p.name)
                &&& shown[k].active_tab == p.active_tab
                &&& shown[k].tabs.len() == p.tabs.len()
                &&& 0 <= t < p.tabs.len() ==> {
                    let tab = shown[k].tabs[t];
                    &&& tab.surface == p.tabs@[t]
                    &&& match state.surface_of(p.tabs@[t]) {
                        Some(s) => {
                            &&& tab.name == opt_text(s.name)
                            &&& tab.title == s.title@
                            &&& tab.cwd == opt_text(s.cwd)
                            &&& tab.kind == s.kind
                            &&& tab.browser_source == s.browser_source
                            &&& tab.browser_frames_stalled == (s.browser_frames_stalled == Some(true))
                            &&& match s.agent_report {
                                Some(r) => tab.agent_state == Some(r.state) && tab.agent_session
                                    == opt_text(r.session),
                                None => tab.agent_state is None && tab.agent_session is None,
                            }
                        },
                        None => tab.name is None && tab.title.len() == 0 && tab.cwd is None
                            && tab.agent_state is None && tab.kind == SurfaceKind::Pty,
                    }
                }
            }
        }),
{
    let ids = screen.root@.panes();
    assert forall|i: int| 0 <= i < ids.len() implies state.pane_of(#[trigger] ids[i]) is Some by {
        assert(ids.contains(ids[i]));
    }
    lemma_panes_shown(state, shorts, ids, k);
}

proof fn lemma_panes_shown(state: State, shorts: Seq<(u64, String)>, ids: Seq<PaneId>, k: int)
    requires
        forall|i: int| 0 <= i < ids.len() ==> state.pane_of(#[trigger] ids[i]) is Some,
    ensures
        panes_shown(state, shorts, ids).len() == ids.len(),
        0 <= k < ids.len() ==> panes_shown(state, shorts, ids)[k] == pane_shown(
            state,
            shorts,
            state.pane_of(ids[k])->0,
        ),
    decreases ids.len(),
{
    if ids.len() > 0 {
        let front = ids.drop_last();
        assert forall|i: int| 0 <= i < front.len() implies state.pane_of(
            #[trigger] front[i],
        ) is Some by {
            assert(front[i] == ids[i]);
        }
        lemma_panes_shown(state, shorts, front, k);
        assert(ids.last() == ids[ids.len() - 1]);
        if 0 <= k < front.len() {
            assert(front[k] == ids[k]);
        }
    }
}

/// The short name of an id is the first that is given for it, and empty where none is.
pub proof fn law_short_names(shorts: Seq<(u64, String)>, id: u64)
    ensures
        (exists|i: int|
            0 <= i < shorts.len() && (#[trigger] shorts[i]).0 == id && shorts[i].1@ == short_from(
                shorts,
                id,
                0,
            ) && forall|k: int| 0 <= k < i ==> (#[trigger] shorts[k]).0 != id) || (short_from(
            shorts,
            id,
            0,
        ).len() == 0 && forall|k: int| 0 <= k < shorts.len() ==> (#[trigger] shorts[k]).0 != id),
{
    lemma_short(shorts, id, 0);
}

proof fn lemma_short(shorts: Seq<(u64, String)>, id: u64, from: int)
    requires
        0 <= from,
        forall|k: int| 0 <= k < from && k < shorts.len() ==> (#[trigger] shorts[k]).0 != id,
    ensures
        (exists|i: int|
            0 <= i < shorts.len() && (#[trigger] shorts[i]).0 == id && shorts[i].1@ == short_from(
                shorts,
                id,
                from,
            ) && forall|k: int| 0 <= k < i ==> (#[trigger] shorts[k]).0 != id) || (short_from(
            shorts,
            id,
            from,
        ).len() == 0 && forall|k: int| 0 <= k < shorts.len() ==> (#[trigger] shorts[k]).0 != id),
    decreases shorts.len() - from,
{
    if from < shorts.len() && shorts[from].0 != id {
        lemma_short(shorts, id, from + 1);
    }
}

/// A pane that is looked up has the number that was asked for and stands in the tree; none is
/// found only where no pane has it.
pub proof fn law_pane_found(ws: Seq<WorkspaceT>, id: PaneId)
    ensures
        match pane_in_workspaces(ws, id, 0) {
            Some(p) => p.id == id && exists|w: int, s: int, k: int|
                0 <= w < ws.len() && 0 <= s < ws[w].screens.len() && 0 <= k
                    < ws[w].screens[s].panes.len() && #[trigger] ws[w].screens[s].panes[k] == p,
            None => forall|w: int, s: int, k: int|
                0 <= w < ws.len() && 0 <= s < ws[w].screens.len() && 0 <= k
                    < ws[w].screens[s].panes.len() ==> (#[trigger] ws[w].screens[s].panes[k]).id
                    != id,
        },
{
    lemma_pane_in_workspaces(ws, id, 0);
}

proof fn lemma_pane_in(panes: Seq<PaneT>, id: PaneId, from: int)
    requires
        0 <= from,
    ensures
        match pane_in(panes, id, from) {
            Some(p) => p.id == id && exists|k: int|
                from <= k < panes.len() && #[trigger] panes[k] == p && forall|l: int|
                    from <= l < k ==> (#[trigger] panes[l]).id != id,
            None => forall|k: int| from <= k < panes.len() ==> (#[trigger] panes[k]).id != id,
        },
    decreases panes.len() - from,
{
    if from < panes.len() && panes[from].id != id {
        lemma_pane_in(panes, id, from + 1);
    }
}

proof fn lemma_pane_in_screens(screens: Seq<ScreenT>, id: PaneId, from: int)
    requires
        0 <= from,
    ensures
        match pane_in_screens(screens, id, from) {
            Some(p) => p.id == id && exists|s: int, k: int|
                from <= s < screens.len() && 0 <= k < screens[s].panes.len()
                    && #[trigger] screens[s].panes[k] == p,
            None => forall|s: int, k: int|
                from <= s < screens.len() && 0 <= k < screens[s].panes.len() ==> (
                #[trigger] screens[s].panes[k]).id != id,
        },
    decreases screens.len() - from,
{
    if from < screens.len() {
        lemma_pane_in(screens[from].panes, id, 0);
        lemma_pane_in_screens(screens, id, from + 1);
    }
}

proof fn lemma_pane_in_workspaces(ws: Seq<WorkspaceT>, id: PaneId, from: int)
    requires
        0 <= from,
    ensures
        match pane_in_workspaces(ws, id, from) {
            Some(p) => p.id == id && exists|w: int, s: int, k: int|
                from <= w < ws.len() && 0 <= s < ws[w].screens.len() && 0 <= k
                    < ws[w].screens[s].panes.len() && #[trigger] ws[w].screens[s].panes[k] == p,
            None => forall|w: int, s: int, k: int|
                from <= w < ws.len() && 0 <= s < ws[w].screens.len() && 0 <= k
                    < ws[w].screens[s].panes.len() ==> (#[trigger] ws[w].screens[s].panes[k]).id
                    != id,
        },
    decreases ws.len() - from,
{
    if from < ws.len() {
        lemma_pane_in_screens(ws[from].screens, id, 0);
        lemma_pane_in_workspaces(ws, id, from + 1);
    }
}

/// A tab that is looked up shows the surface that was asked for, and stands in the workspace that
/// comes with it; none is found only where no tab shows the surface. Its kind and its label are
/// that tab's.
pub proof fn law_tab_found(t: TreeT, id: SurfaceId)
    ensures
        match tab_in_workspaces(t.workspaces, id, 0) {
            Some((ws, tab)) => {
                &&& tab.surface == id
                &&& t.workspaces.contains(ws)
                &&& exists|s: int, k: int, i: int|
                    0 <= s < ws.screens.len() && 0 <= k < ws.screens[s].panes.len() && 0 <= i
                        < ws.screens[s].panes[k].tabs.len()
                        && #[trigger] ws.screens[s].panes[k].tabs[i] == tab
                &&& t.kind_of(id) == tab.kind
                &&& t.label_of(id) matches Some(label) && ws.name.is_prefix_of(label)
                    && tab.shown_title().is_suffix_of(label)
            },
            None => {
                &&& t.kind_of(id) == SurfaceKind::Pty
                &&& t.label_of(id) is None
                &&& forall|w: int, s: int, k: int, i: int|
                    0 <= w < t.workspaces.len() && 0 <= s < t.workspaces[w].screens.len() && 0 <= k
                        < t.workspaces[w].screens[s].panes.len() && 0 <= i
                        < t.workspaces[w].screens[s].panes[k].tabs.len() ==> (
                    #[trigger] t.workspaces[w].screens[s].panes[k].tabs[i]).surface != id
            },
        },
{
    lemma_tab_in_workspaces(t.workspaces, id, 0);
    if let Some((ws, tab)) = tab_in_workspaces(t.workspaces, id, 0) {
        let label = t.label_of(id)->0;
        if tab.shown_title().len() > 0 {
            assert(label.take(ws.name.len() as int) =~= ws.name);
            assert(label.skip(label.len() - tab.shown_title().len()) =~= tab.shown_title());
        }
        assert(ws.name.is_prefix_of(label));
        assert(tab.shown_title().is_suffix_of(label));
    }
}

proof fn lemma_tab_in(tabs: Seq<TabT>, id: SurfaceId, from: int)
    requires
        0 <= from,
    ensures
        match tab_in(tabs, id, from) {
            Some(t) => t.surface == id && exists|k: int|
                from <= k < tabs.len() && #[trigger] tabs[k] == t,
            None => forall|k: int| from <= k < tabs.len() ==> (#[trigger] tabs[k]).surface != id,
        },
    decreases tabs.len() - from,
{
    if from < tabs.len() && tabs[from].surface != id {
        lemma_tab_in(tabs, id, from + 1);
    }
}

proof fn lemma_tab_in_panes(panes: Seq<PaneT>, id: SurfaceId, from: int)
    requires
        0 <= from,
    ensures
        match tab_in_panes(panes, id, from) {
            Some(t) => t.surface == id && exists|k: int, i: int|
                from <= k < panes.len() && 0 <= i < panes[k].tabs.len()
                    && #[trigger] panes[k].tabs[i] == t,
            None => forall|k: int, i: int|
                from <= k < panes.len() && 0 <= i < panes[k].tabs.len() ==> (
                #[trigger] panes[k].tabs[i]).surface != id,
        },
    decreases panes.len() - from,
{
    if from < panes.len() {
        lemma_tab_in(panes[from].tabs, id, 0);
        lemma_tab_in_panes(panes, id, from + 1);
    }
}

proof fn lemma_tab_in_screens(screens: Seq<ScreenT>, id: SurfaceId, from: int)
    requires
        0 <= from,
    ensures
        match tab_in_screens(screens, id, from) {
            Some(t) => t.surface == id && exists|s: int, k: int, i: int|
                from <= s < screens.len() && 0 <= k < screens[s].panes.len() && 0 <= i
                    < screens[s].panes[k].tabs.len() && #[trigger] screens[s].panes[k].tabs[i] == t,
            None => forall|s: int, k: int, i: int|
                from <= s < screens.len() && 0 <= k < screens[s].panes.len() && 0 <= i
                    < screens[s].panes[k].tabs.len() ==> (
                #[trigger] screens[s].panes[k].tabs[i]).surface != id,
        },
    decreases screens.len() - from,
{
    if from < screens.len() {
        lemma_tab_in_panes(screens[from].panes, id, 0);
        lemma_tab_in_screens(screens, id, from + 1);
    }
}

proof fn lemma_tab_in_workspaces(ws: Seq<WorkspaceT>, id: SurfaceId, from: int)
    requires
        0 <= from,
    ensures
        match tab_in_workspaces(ws, id, from) {
            Some((w, t)) => t.surface == id && ws.contains(w) && exists|s: int, k: int, i: int|
                0 <= s < w.screens.len() && 0 <= k < w.screens[s].panes.len() && 0 <= i
                    < w.screens[s].panes[k].tabs.len()
                    && #[trigger] w.screens[s].panes[k].tabs[i] == t,
            None => forall|w: int, s: int, k: int, i: int|
                from <= w < ws.len() && 0 <= s < ws[w].screens.len() && 0 <= k
                    < ws[w].screens[s].panes.len() && 0 <= i
                    < ws[w].screens[s].panes[k].tabs.len() ==> (
                #[trigger] ws[w].screens[s].panes[k].tabs[i]).surface != id,
        },
    decreases ws.len() - from,
{
    if from < ws.len() {
        lemma_tab_in_screens(ws[from].screens, id, 0);
        lemma_tab_in_workspaces(ws, id, from + 1);
    }
}

/// The active surface is that of the active tab of the active pane of the active screen of the
/// active workspace.
pub proof fn law_active_surface(t: TreeT, k: int)
    requires
        t.active_workspace < t.workspaces.len(),
        ({
            let ws = t.workspaces[t.active_workspace as int];
            &&& ws.active_screen < ws.screens.len()
            &&& {
                let screen = ws.screens[ws.active_screen as int];
                &&& 0 <= k < screen.panes.len()
                &&& screen.panes[k].id == screen.active_pane
                &&& forall|l: int| 0 <= l < k ==> (#[trigger] screen.panes[l]).id != screen.active_pane
                &&& screen.panes[k].active_tab < screen.panes[k].tabs.len()
            }
        }),
    ensures
        ({
            let ws = t.workspaces[t.active_workspace as int];
            let pane = ws.screens[ws.active_screen as int].panes[k];
            t.active_surface_of() == Some(pane.tabs[pane.active_tab as int].surface)
        }),
{
    let ws = t.workspaces[t.active_workspace as int];
    let screen = ws.screens[ws.active_screen as int];
    lemma_pane_in(screen.panes, screen.active_pane, 0);
}

/// A name that the user gave is what is shown; else a tab shows its title, a pane the title of its
/// active tab, and a pane without one says that it is a shell.
pub proof fn law_names_shown(tab: TabT, pane: PaneT)
    ensures
        tab.name matches Some(n) && n.len() > 0 ==> tab.shown_title() == tab.name->0,
        tab.name is None || tab.name->0.len() == 0 ==> tab.shown_title() == tab.title,
        pane.name matches Some(n) && n.len() > 0 ==> pane.shown_name() == pane.name->0,
        (pane.name is None || pane.name->0.len() == 0) && pane.active_tab < pane.tabs.len()
            && pane.tabs[pane.active_tab as int].title.len() > 0 ==> pane.shown_name()
            == pane.tabs[pane.active_tab as int].title,
        pane.name is None && pane.active_tab >= pane.tabs.len() ==> pane.shown_name() == "shell"@,
        pane.active_tab < pane.tabs.len() ==> {
            let active = pane.tabs[pane.active_tab as int];
            &&& pane.active_cwd_of() == active.cwd
            &&& pane.active_agent_state_of() == active.agent_state
            &&& pane.active_surface_of() == Some(active.surface)
        },
{
}

/// What a view holds is what its fields say.
pub proof fn law_view_fields(t: TabView, p: PaneView, s: ScreenView, w: WorkspaceView, i: int)
    ensures
        t@.surface == t.surface && t@.short_id == t.short_id@ && t@.title == t.title@,
        t@.name == opt_text(t.name) && t@.cwd == opt_text(t.cwd),
        t@.agent_state == t.agent_state && t@.agent_session == opt_text(t.agent_session),
        t@.kind == t.kind && t@.browser_source == t.browser_source,
        t@.browser_frames_stalled == t.browser_frames_stalled,
        p@.id == p.id && p@.short_id == p.short_id@ && p@.name == opt_text(p.name),
        p@.active_tab == p.active_tab && p@.tabs.len() == p.tabs.len(),
        0 <= i < p.tabs.len() ==> p@.tabs[i] == p.tabs@[i]@,
        s@.id == s.id && s@.short_id == s.short_id@ && s@.name == opt_text(s.name),
        s@.layout == s.layout@ && s@.active_pane == s.active_pane,
        s@.panes.len() == s.panes.len(),
        0 <= i < s.panes.len() ==> s@.panes[i] == s.panes@[i]@,
        match s.layout {
            Node::Leaf(id) => s.layout@ == NodeV::Leaf(id),
            Node::Split { dir, ratio, a, b } => s.layout@ == NodeV::Split(
                dir,
                crate::json::number_of(ratio),
                Box::new(a@),
                Box::new(b@),
            ),
        },
        w@.id == w.id && w@.short_id == w.short_id@ && w@.name == w.name@ && w@.color == w.color,
        w@.icon == opt_text(w.icon) && w@.active_screen == w.active_screen,
        w@.screens.len() == w.screens.len(),
        0 <= i < w.screens.len() ==> w@.screens[i] == w.screens@[i]@,
{
}

} // verus!
