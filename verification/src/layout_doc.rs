//! Layout documents: one workspace written down, with its tabs and their commands, so that it
//! can be built again elsewhere.

use vstd::prelude::*;

use crate::json::{
    double_bits, empty_object, json_view, lemma_field_decreases, list_view, number_bits,
    number_copy, number_of, parse, read_json, reading, text_list, text_or_null, unsigned, Json,
    JsonV, NumberV,
};
use crate::model::{
    position, position_of, Node, NodeV, Pane, PaneId, Rgb, Screen, SplitDir, State, Surface,
    SurfaceId, Workspace,
};
use crate::text::{append_decimal, copy_opt, copy_texts, decimal, opt_text, owned, same, texts};

verus! {

/// The version of the documents that are written and read.
pub const LAYOUT_SCHEMA_VERSION: u64 = 1;

/// The direction of a split.
#[derive(Clone, Copy, Debug, PartialEq, Eq, Structural)]
pub enum LayoutDir {
    Right,
    Down,
}

/// A layout; a leaf is a position among the panes of its screen.
#[derive(Debug)]
pub enum LayoutNode {
    Leaf { pane: usize },
    Split { dir: LayoutDir, ratio: serde_json::Number, a: Box<LayoutNode>, b: Box<LayoutNode> },
}

/// A tab: what is started in it, with which variables, and where.
#[derive(Debug)]
pub enum LayoutTab {
    Pty {
        name: Option<String>,
        cwd: Option<String>,
        command: Option<Vec<String>>,
        env: Vec<(String, String)>,
    },
}

#[derive(Debug)]
pub struct LayoutPane {
    pub name: Option<String>,
    pub active_tab: usize,
    pub tabs: Vec<LayoutTab>,
}

#[derive(Debug)]
pub struct LayoutScreen {
    pub name: Option<String>,
    pub active_pane: usize,
    pub layout: LayoutNode,
    pub panes: Vec<LayoutPane>,
}

#[derive(Debug)]
pub struct LayoutWorkspace {
    pub name: String,
    pub color: Option<String>,
    pub icon: Option<String>,
    pub active_screen: usize,
    pub screens: Vec<LayoutScreen>,
}

#[derive(Debug)]
pub struct LayoutDocument {
    pub schema_version: u64,
    pub cmux_version: String,
    pub workspace: LayoutWorkspace,
}

/// What is wrong with a document.
#[derive(Debug)]
pub struct LayoutError {
    pub message: String,
}

impl LayoutError {
    pub fn to_string(&self) -> (r: String)
        ensures
            r@ == self.message@,
    {
        owned(self.message.as_str())
    }
}

// ---- what a document holds ----------------------------------------------------------------

pub enum LayoutNodeV {
    Leaf(usize),
    Split(LayoutDir, NumberV, Box<LayoutNodeV>, Box<LayoutNodeV>),
}

pub struct LayoutTabV {
    pub name: Option<Seq<char>>,
    pub cwd: Option<Seq<char>>,
    pub command: Option<Seq<Seq<char>>>,
    pub env: Map<Seq<char>, Seq<char>>,
}

pub struct LayoutPaneV {
    pub name: Option<Seq<char>>,
    pub active_tab: usize,
    pub tabs: Seq<LayoutTabV>,
}

pub struct LayoutScreenV {
    pub name: Option<Seq<char>>,
    pub active_pane: usize,
    pub layout: LayoutNodeV,
    pub panes: Seq<LayoutPaneV>,
}

pub struct LayoutWorkspaceV {
    pub name: Seq<char>,
    pub color: Option<Seq<char>>,
    pub icon: Option<Seq<char>>,
    pub active_screen: usize,
    pub screens: Seq<LayoutScreenV>,
}

pub struct LayoutDocumentV {
    pub schema_version: u64,
    pub cmux_version: Seq<char>,
    pub workspace: LayoutWorkspaceV,
}

pub open spec fn layout_node_view(n: LayoutNode) -> LayoutNodeV
    decreases n,
{
    match n {
        LayoutNode::Leaf { pane } => LayoutNodeV::Leaf(pane),
        LayoutNode::Split { dir, ratio, a, b } => LayoutNodeV::Split(
            dir,
            number_of(ratio),
            Box::new(layout_node_view(*a)),
            Box::new(layout_node_view(*b)),
        ),
    }
}

impl View for LayoutNode {
    type V = LayoutNodeV;

    open spec fn view(&self) -> LayoutNodeV {
        layout_node_view(*self)
    }
}

/// A list of variables by name, the later of two with one name.
pub open spec fn env_view(s: Seq<(String, String)>) -> Map<Seq<char>, Seq<char>>
    decreases s.len(),
{
    if s.len() == 0 {
        Map::empty()
    } else {
        env_view(s.drop_last()).insert(s.last().0@, s.last().1@)
    }
}

/// The words of an optional command.
pub open spec fn command_view(c: Option<Vec<String>>) -> Option<Seq<Seq<char>>> {
    match c {
        Some(words) => Some(texts(words@)),
        None => None,
    }
}

impl View for LayoutTab {
    type V = LayoutTabV;

    open spec fn view(&self) -> LayoutTabV {
        match self {
            LayoutTab::Pty { name, cwd, command, env } => LayoutTabV {
                name: opt_text(*name),
                cwd: opt_text(*cwd),
                command: command_view(*command),
                env: env_view(env@),
            },
        }
    }
}

impl View for LayoutPane {
    type V = LayoutPaneV;

    open spec fn view(&self) -> LayoutPaneV {
        LayoutPaneV {
            name: opt_text(self.name),
            active_tab: self.active_tab,
            tabs: self.tabs@.map_values(|t: LayoutTab| t@),
        }
    }
}

impl View for LayoutScreen {
    type V = LayoutScreenV;

    open spec fn view(&self) -> LayoutScreenV {
        LayoutScreenV {
            name: opt_text(self.name),
            active_pane: self.active_pane,
            layout: self.layout@,
            panes: self.panes@.map_values(|p: LayoutPane| p@),
        }
    }
}

impl View for LayoutWorkspace {
    type V = LayoutWorkspaceV;

    open spec fn view(&self) -> LayoutWorkspaceV {
        LayoutWorkspaceV {
            name: self.name@,
            color: opt_text(self.color),
            icon: opt_text(self.icon),
            active_screen: self.active_screen,
            screens: self.screens@.map_values(|s: LayoutScreen| s@),
        }
    }
}

impl View for LayoutDocument {
    type V = LayoutDocumentV;

    open spec fn view(&self) -> LayoutDocumentV {
        LayoutDocumentV {
            schema_version: self.schema_version,
            cmux_version: self.cmux_version@,
            workspace: self.workspace@,
        }
    }
}

// ---- validity -----------------------------------------------------------------------------

/// The bits of doubles between which a ratio lies that is neither nothing nor all in single
/// precision: above half the smallest number, and below the middle between one and the number
/// before it.
pub const RATIO_ABOVE: u64 = 0x3690_0000_0000_0000;

pub const RATIO_BELOW: u64 = 0x3FEF_FFFF_F000_0000;

/// Whether a number is a ratio.
pub open spec fn is_ratio(n: NumberV) -> bool {
    match double_bits(n) {
        Some(bits) => RATIO_ABOVE < bits < RATIO_BELOW,
        None => false,
    }
}

/// What is wrong with a layout over `n` panes.
pub open spec fn node_fault(node: LayoutNodeV, n: nat) -> Option<Seq<char>>
    decreases node,
{
    match node {
        LayoutNodeV::Leaf(pane) => if pane < n {
            None
        } else {
            Some(
                "layout leaf pane index "@ + decimal(pane as nat) + " out of range ("@ + decimal(n)
                    + " panes)"@,
            )
        },
        LayoutNodeV::Split(_, ratio, a, b) => if !is_ratio(ratio) {
            Some("layout split ratio must be between 0 and 1"@)
        } else {
            match node_fault(*a, n) {
                Some(e) => Some(e),
                None => node_fault(*b, n),
            }
        },
    }
}

/// What is wrong with the first screen that has a fault.
pub open spec fn screens_fault(screens: Seq<LayoutScreenV>) -> Option<Seq<char>>
    decreases screens.len(),
{
    if screens.len() == 0 {
        None
    } else {
        match screens_fault(screens.drop_last()) {
            Some(e) => Some(e),
            None => node_fault(screens.last().layout, screens.last().panes.len()),
        }
    }
}

/// What is wrong with a document: its version, a leaf without a pane, or a ratio that is none.
pub open spec fn document_fault(d: LayoutDocumentV) -> Option<Seq<char>> {
    if d.schema_version != LAYOUT_SCHEMA_VERSION {
        Some(
            "unsupported layout schema_version "@ + decimal(d.schema_version as nat)
                + " (expected 1)"@,
        )
    } else {
        screens_fault(d.workspace.screens)
    }
}

fn check_node(node: &LayoutNode, n: usize) -> (r: Option<String>)
    ensures
        opt_text(r) == node_fault(node@, n as nat),
    decreases node,
{
    match node {
        LayoutNode::Leaf { pane } => {
            if *pane < n {
                return None;
            }
            let mut message: String = "layout leaf pane index ".to_string();
            append_decimal(&mut message, *pane as u64);
            message.append(" out of range (");
            append_decimal(&mut message, n as u64);
            message.append(" panes)");
            Some(message)
        },
        LayoutNode::Split { dir: _, ratio, a, b } => {
            let ok: bool = match number_bits(ratio) {
                Some(bits) => RATIO_ABOVE < bits && bits < RATIO_BELOW,
                None => false,
            };
            if !ok {
                return Some("layout split ratio must be between 0 and 1".to_string());
            }
            match check_node(a, n) {
                Some(e) => Some(e),
                None => check_node(b, n),
            }
        },
    }
}

impl LayoutDocument {
    pub fn validate(&self) -> (r: Result<(), LayoutError>)
        ensures
            match r {
                Ok(_) => document_fault(self@) is None,
                Err(e) => document_fault(self@) == Some(e.message@),
            },
    {
        if self.schema_version != LAYOUT_SCHEMA_VERSION {
            let mut message: String = "unsupported layout schema_version ".to_string();
            append_decimal(&mut message, self.schema_version);
            message.append(" (expected 1)");
            return Err(LayoutError { message });
        }
        let ghost all = self@.workspace.screens;
        let mut i: usize = 0;
        while i < self.workspace.screens.len()
            invariant
                i <= self.workspace.screens.len(),
                all == self@.workspace.screens,
                all.len() == self.workspace.screens.len(),
                self.schema_version == LAYOUT_SCHEMA_VERSION,
                screens_fault(all.take(i as int)) is None,
            decreases self.workspace.screens.len() - i,
        {
            let screen: &LayoutScreen = &self.workspace.screens[i];
            proof {
                assert(all[i as int] == screen@);
                assert(all.take(i + 1).drop_last() =~= all.take(i as int));
            }
            match check_node(&screen.layout, screen.panes.len()) {
                Some(message) => {
                    proof {
                        lemma_first_fault(all, i as int);
                    }
                    return Err(LayoutError { message });
                },
                None => {},
            }
            i = i + 1;
        }
        assert(all.take(all.len() as int) =~= all);
        Ok(())
    }
}

/// The first screen with a fault decides.
proof fn lemma_first_fault(screens: Seq<LayoutScreenV>, i: int)
    requires
        0 <= i < screens.len(),
        screens_fault(screens.take(i + 1)) is Some,
    ensures
        screens_fault(screens) == screens_fault(screens.take(i + 1)),
    decreases screens.len(),
{
    if i + 1 == screens.len() {
        assert(screens.take(i + 1) =~= screens);
    } else {
        assert(screens.drop_last().take(i + 1) =~= screens.take(i + 1));
        lemma_first_fault(screens.drop_last(), i);
    }
}

/// Whether every leaf of a layout is one of `n` panes, and every ratio is one.
pub open spec fn node_in_order(node: LayoutNodeV, n: nat) -> bool
    decreases node,
{
    match node {
        LayoutNodeV::Leaf(pane) => pane < n,
        LayoutNodeV::Split(_, ratio, a, b) => is_ratio(ratio) && node_in_order(*a, n)
            && node_in_order(*b, n),
    }
}

/// A document is without fault exactly where its version is known, every leaf has its pane and
/// every ratio is one.
pub proof fn law_validity(d: LayoutDocumentV)
    ensures
        document_fault(d) is None <==> {
            &&& d.schema_version == LAYOUT_SCHEMA_VERSION
            &&& forall|i: int|
                0 <= i < d.workspace.screens.len() ==> node_in_order(
                    (#[trigger] d.workspace.screens[i]).layout,
                    d.workspace.screens[i].panes.len(),
                )
        },
{
    lemma_screens_in_order(d.workspace.screens);
}

proof fn lemma_screens_in_order(screens: Seq<LayoutScreenV>)
    ensures
        screens_fault(screens) is None <==> forall|i: int|
            0 <= i < screens.len() ==> node_in_order(
                (#[trigger] screens[i]).layout,
                screens[i].panes.len(),
            ),
    decreases screens.len(),
{
    if screens.len() > 0 {
        let front = screens.drop_last();
        lemma_screens_in_order(front);
        lemma_node_in_order(screens.last().layout, screens.last().panes.len());
        if screens_fault(screens) is None {
            assert forall|i: int| 0 <= i < screens.len() implies node_in_order(
                (#[trigger] screens[i]).layout,
                screens[i].panes.len(),
            ) by {
                if i < front.len() {
                    assert(front[i] == screens[i]);
                }
            }
        } else if forall|i: int|
            0 <= i < screens.len() ==> node_in_order(
                (#[trigger] screens[i]).layout,
                screens[i].panes.len(),
            ) {
            assert forall|i: int| 0 <= i < front.len() implies node_in_order(
                (#[trigger] front[i]).layout,
                front[i].panes.len(),
            ) by {
                assert(front[i] == screens[i]);
            }
            assert(node_in_order(screens[screens.len() - 1].layout, screens.last().panes.len()));
        }
    }
}

proof fn lemma_node_in_order(node: LayoutNodeV, n: nat)
    ensures
        node_fault(node, n) is None <==> node_in_order(node, n),
    decreases node,
{
    if let LayoutNodeV::Split(_, _, a, b) = node {
        lemma_node_in_order(*a, n);
        lemma_node_in_order(*b, n);
    }
}

// ---- capture ------------------------------------------------------------------------------

pub open spec fn layout_dir(dir: SplitDir) -> LayoutDir {
    match dir {
        SplitDir::Right => LayoutDir::Right,
        SplitDir::Down => LayoutDir::Down,
    }
}

/// The variables that every surface is given anyway.
pub open spec fn is_auto_variable(name: Seq<char>) -> bool {
    name == "CMUX_MUX_SOCKET"@ || name == "CMUX_SOCKET_PATH"@
}

/// The variables of a surface without those that every surface is given.
pub open spec fn kept_env(s: Seq<(String, String)>) -> Map<Seq<char>, Seq<char>>
    decreases s.len(),
{
    if s.len() == 0 {
        Map::empty()
    } else if is_auto_variable(s.last().0@) {
        kept_env(s.drop_last())
    } else {
        kept_env(s.drop_last()).insert(s.last().0@, s.last().1@)
    }
}

/// What is written down of a tab.
pub open spec fn tab_taken(surface: Option<Surface>) -> LayoutTabV {
    match surface {
        Some(s) => LayoutTabV {
            name: opt_text(s.name),
            cwd: opt_text(s.cwd),
            command: command_view(s.command),
            env: kept_env(s.env@),
        },
        None => LayoutTabV { name: None, cwd: None, command: None, env: Map::empty() },
    }
}

pub open spec fn pane_taken(state: State, pane: Pane) -> LayoutPaneV {
    LayoutPaneV {
        name: opt_text(pane.name),
        active_tab: pane.active_tab,
        tabs: pane.tabs@.map_values(|sid: SurfaceId| tab_taken(state.surface_of(sid))),
    }
}

/// A layout with each pane replaced by its position in `ids`.
pub open spec fn node_taken(node: NodeV, ids: Seq<PaneId>) -> LayoutNodeV
    decreases node,
{
    match node {
        NodeV::Leaf(id) => LayoutNodeV::Leaf(position_of(ids, id) as usize),
        NodeV::Split(dir, ratio, a, b) => LayoutNodeV::Split(
            layout_dir(dir),
            ratio,
            Box::new(node_taken(*a, ids)),
            Box::new(node_taken(*b, ids)),
        ),
    }
}

pub open spec fn screen_taken(state: State, screen: Screen) -> LayoutScreenV {
    let ids = screen.root@.panes();
    LayoutScreenV {
        name: opt_text(screen.name),
        active_pane: position_of(ids, screen.active_pane) as usize,
        layout: node_taken(screen.root@, ids),
        panes: ids.map_values(|id: PaneId| pane_taken(state, state.pane_of(id)->0)),
    }
}

/// A digit of a number in base sixteen.
pub open spec fn hex_digit(n: int) -> char {
    if n < 10 {
        (48 + n) as char
    } else {
        (87 + n) as char
    }
}

/// A colour as a number sign and six digits.
pub open spec fn color_text(c: Rgb) -> Seq<char> {
    seq![
        '#',
        hex_digit(c.r as int / 16),
        hex_digit(c.r as int % 16),
        hex_digit(c.g as int / 16),
        hex_digit(c.g as int % 16),
        hex_digit(c.b as int / 16),
        hex_digit(c.b as int % 16),
    ]
}

pub open spec fn workspace_taken(state: State, ws: Workspace) -> LayoutWorkspaceV {
    LayoutWorkspaceV {
        name: ws.name@,
        color: match ws.color {
            Some(c) => Some(color_text(c)),
            None => None,
        },
        icon: opt_text(ws.icon),
        active_screen: ws.active_screen,
        screens: ws.screens@.map_values(|s: Screen| screen_taken(state, s)),
    }
}

/// The document of a workspace.
pub open spec fn document_taken(state: State, ws: Workspace, version: Seq<char>) -> LayoutDocumentV {
    LayoutDocumentV {
        schema_version: LAYOUT_SCHEMA_VERSION,
        cmux_version: version,
        workspace: workspace_taken(state, ws),
    }
}

fn hex_char(n: u8) -> (c: char)
    requires
        n < 16,
    ensures
        c == hex_digit(n as int),
{
    if n < 10 {
        let b: u8 = 48 + n;
        b as char
    } else {
        let b: u8 = 87 + n;
        b as char
    }
}

/// A colour as a number sign and six digits.
pub fn color_name(c: Rgb) -> (r: String)
    ensures
        r@ == color_text(c),
{
    let mut out: String = String::new();
    out.push('#');
    out.push(hex_char(c.r / 16));
    out.push(hex_char(c.r % 16));
    out.push(hex_char(c.g / 16));
    out.push(hex_char(c.g % 16));
    out.push(hex_char(c.b / 16));
    out.push(hex_char(c.b % 16));
    assert(out@ =~= color_text(c));
    out
}

fn take_env(list: &Vec<(String, String)>) -> (out: Vec<(String, String)>)
    ensures
        env_view(out@) == kept_env(list@),
{
    let mut out: Vec<(String, String)> = Vec::new();
    let mut i: usize = 0;
    assert(list@.take(0) =~= seq![]);
    while i < list.len()
        invariant
            i <= list.len(),
            env_view(out@) == kept_env(list@.take(i as int)),
        decreases list.len() - i,
    {
        let name: &str = list[i].0.as_str();
        proof {
            assert(list@.take(i + 1).drop_last() =~= list@.take(i as int));
        }
        if !(same(name, "CMUX_MUX_SOCKET") || same(name, "CMUX_SOCKET_PATH")) {
            let ghost before = out@;
            out.push((owned(name), owned(list[i].1.as_str())));
            assert(out@.drop_last() =~= before);
        }
        i = i + 1;
    }
    assert(list@.take(list@.len() as int) =~= list@);
    out
}

fn take_tab(surface: Option<&Surface>) -> (r: LayoutTab)
    ensures
        r@ == tab_taken(
            match surface {
                Some(s) => Some(*s),
                None => None,
            },
        ),
{
    match surface {
        Some(s) => {
            let command: Option<Vec<String>> = match &s.command {
                Some(words) => Some(copy_texts(words)),
                None => None,
            };
            LayoutTab::Pty {
                name: copy_opt(&s.name),
                cwd: copy_opt(&s.cwd),
                command,
                env: take_env(&s.env),
            }
        },
        None => LayoutTab::Pty { name: None, cwd: None, command: None, env: Vec::new() },
    }
}

fn take_pane(state: &State, pane: &Pane) -> (r: LayoutPane)
    ensures
        r@ == pane_taken(*state, *pane),
{
    let mut tabs: Vec<LayoutTab> = Vec::new();
    let mut i: usize = 0;
    while i < pane.tabs.len()
        invariant
            i <= pane.tabs.len(),
            tabs.len() == i,
            forall|k: int|
                0 <= k < i ==> (#[trigger] tabs@[k])@ == tab_taken(
                    state.surface_of(pane.tabs@[k]),
                ),
        decreases pane.tabs.len() - i,
    {
        tabs.push(take_tab(state.surface(pane.tabs[i])));
        i = i + 1;
    }
    let r: LayoutPane = LayoutPane {
        name: copy_opt(&pane.name),
        active_tab: pane.active_tab,
        tabs,
    };
    assert(r@.tabs =~= pane_taken(*state, *pane).tabs);
    r
}

fn take_node(node: &Node, ids: &Vec<PaneId>) -> (r: LayoutNode)
    requires
        forall|id: PaneId| #[trigger] node@.panes().contains(id) ==> ids@.contains(id),
    ensures
        r@ == node_taken(node@, ids@),
    decreases node,
{
    match node {
        Node::Leaf(id) => {
            assert(node@.panes()[0] == *id);
            assert(node@.panes().contains(*id));
            LayoutNode::Leaf { pane: position(ids, *id) }
        },
        Node::Split { dir, ratio, a, b } => {
            proof {
                assert forall|id: PaneId| #[trigger] a@.panes().contains(id) implies ids@.contains(
                    id,
                ) by {
                    let k = choose|k: int| 0 <= k < a@.panes().len() && a@.panes()[k] == id;
                    assert(node@.panes()[k] == id);
                    assert(node@.panes().contains(id));
                }
                assert forall|id: PaneId| #[trigger] b@.panes().contains(id) implies ids@.contains(
                    id,
                ) by {
                    let k = choose|k: int| 0 <= k < b@.panes().len() && b@.panes()[k] == id;
                    assert(node@.panes()[a@.panes().len() + k] == id);
                    assert(node@.panes().contains(id));
                }
            }
            let dir: LayoutDir = match dir {
                SplitDir::Right => LayoutDir::Right,
                SplitDir::Down => LayoutDir::Down,
            };
            LayoutNode::Split {
                dir,
                ratio: number_copy(ratio),
                a: Box::new(take_node(a, ids)),
                b: Box::new(take_node(b, ids)),
            }
        },
    }
}

fn take_screen(state: &State, screen: &Screen) -> (r: LayoutScreen)
    requires
        state.screen_ok(*screen),
    ensures
        r@ == screen_taken(*state, *screen),
{
    let mut ids: Vec<PaneId> = Vec::new();
    screen.root.pane_ids(&mut ids);
    assert(ids@ =~= screen.root@.panes());
    let mut panes: Vec<LayoutPane> = Vec::new();
    let mut i: usize = 0;
    while i < ids.len()
        invariant
            i <= ids.len(),
            ids@ == screen.root@.panes(),
            state.screen_ok(*screen),
            panes.len() == i,
            forall|k: int|
                0 <= k < i ==> (#[trigger] panes@[k])@ == pane_taken(
                    *state,
                    state.pane_of(ids@[k])->0,
                ),
        decreases ids.len() - i,
    {
        assert(ids@.contains(ids@[i as int]));
        match state.pane(ids[i]) {
            Some(pane) => {
                panes.push(take_pane(state, pane));
            },
            None => {
                assert(false);
            },
        }
        i = i + 1;
    }
    let r: LayoutScreen = LayoutScreen {
        name: copy_opt(&screen.name),
        active_pane: position(&ids, screen.active_pane),
        layout: take_node(&screen.root, &ids),
        panes,
    };
    assert(r@.panes =~= screen_taken(*state, *screen).panes);
    r
}

/// The document of the workspace at a position; nothing where there is none. `version` is that
/// of the program.
pub fn capture_workspace(state: &State, index: usize, version: &str) -> (r: Option<LayoutDocument>)
    requires
        state.wf(),
    ensures
        match r {
            Some(d) => index < state.workspaces.len() && d@ == document_taken(
                *state,
                state.workspaces@[index as int],
                version@,
            ),
            None => index >= state.workspaces.len(),
        },
{
    if index >= state.workspaces.len() {
        return None;
    }
    let ws: &Workspace = &state.workspaces[index];
    let mut screens: Vec<LayoutScreen> = Vec::new();
    let mut i: usize = 0;
    while i < ws.screens.len()
        invariant
            index < state.workspaces.len(),
            ws == state.workspaces@[index as int],
            i <= ws.screens.len(),
            state.wf(),
            screens.len() == i,
            forall|k: int|
                0 <= k < i ==> (#[trigger] screens@[k])@ == screen_taken(*state, ws.screens@[k]),
        decreases ws.screens.len() - i,
    {
        assert(state.screen_ok(state.workspaces@[index as int].screens@[i as int]));
        screens.push(take_screen(state, &ws.screens[i]));
        i = i + 1;
    }
    let color: Option<String> = match ws.color {
        Some(c) => Some(color_name(c)),
        None => None,
    };
    let workspace: LayoutWorkspace = LayoutWorkspace {
        name: owned(ws.name.as_str()),
        color,
        icon: copy_opt(&ws.icon),
        active_screen: ws.active_screen,
        screens,
    };
    assert(workspace@.screens =~= workspace_taken(*state, *ws).screens);
    Some(
        LayoutDocument {
            schema_version: LAYOUT_SCHEMA_VERSION,
            cmux_version: owned(version),
            workspace,
        },
    )
}

/// Whether every ratio of a layout is one.
pub open spec fn ratios_ok(node: NodeV) -> bool
    decreases node,
{
    match node {
        NodeV::Leaf(_) => true,
        NodeV::Split(_, ratio, a, b) => is_ratio(ratio) && ratios_ok(*a) && ratios_ok(*b),
    }
}

/// A document that was captured is without fault, as long as the ratios of the workspace are.
pub proof fn law_captured_is_valid(state: State, ws: Workspace, version: Seq<char>)
    requires
        forall|i: int|
            0 <= i < ws.screens.len() ==> {
                let screen = #[trigger] ws.screens@[i];
                &&& state.screen_ok(screen)
                &&& ratios_ok(screen.root@)
                &&& screen.root@.panes().len() <= usize::MAX
            },
    ensures
        document_fault(document_taken(state, ws, version)) is None,
{
    let d = document_taken(state, ws, version);
    law_validity(d);
    assert forall|i: int| 0 <= i < d.workspace.screens.len() implies node_in_order(
        (#[trigger] d.workspace.screens[i]).layout,
        d.workspace.screens[i].panes.len(),
    ) by {
        let screen = ws.screens@[i];
        let ids = screen.root@.panes();
        assert(d.workspace.screens[i] == screen_taken(state, screen));
        assert forall|id: PaneId| #[trigger] screen.root@.panes().contains(id) implies ids.contains(
            id,
        ) by {}
        lemma_taken_in_order(screen.root@, ids);
    }
}

proof fn lemma_taken_in_order(node: NodeV, ids: Seq<PaneId>)
    requires
        forall|id: PaneId| #[trigger] node.panes().contains(id) ==> ids.contains(id),
        ids.len() <= usize::MAX,
        ratios_ok(node),
    ensures
        node_in_order(node_taken(node, ids), ids.len()),
    decreases node,
{
    match node {
        NodeV::Leaf(id) => {
            assert(node.panes()[0] == id);
            assert(node.panes().contains(id));
            ids.index_of_first_ensures(id);
        },
        NodeV::Split(_, _, a, b) => {
            assert forall|id: PaneId| #[trigger] a.panes().contains(id) implies ids.contains(
                id,
            ) by {
                let k = choose|k: int| 0 <= k < a.panes().len() && a.panes()[k] == id;
                assert(node.panes()[k] == id);
                assert(node.panes().contains(id));
            }
            assert forall|id: PaneId| #[trigger] b.panes().contains(id) implies ids.contains(
                id,
            ) by {
                let k = choose|k: int| 0 <= k < b.panes().len() && b.panes()[k] == id;
                assert(node.panes()[a.panes().len() + k] == id);
                assert(node.panes().contains(id));
            }
            lemma_taken_in_order(*a, ids);
            lemma_taken_in_order(*b, ids);
        },
    }
}

/// The variables that every surface is given are never written down; the others are, with the
/// value that counts.
pub proof fn law_kept_env(s: Seq<(String, String)>, name: Seq<char>)
    ensures
        is_auto_variable(name) ==> !kept_env(s).dom().contains(name),
        !is_auto_variable(name) ==> (kept_env(s).dom().contains(name) <==> env_view(
            s,
        ).dom().contains(name)),
        kept_env(s).dom().contains(name) ==> kept_env(s)[name] == env_view(s)[name],
    decreases s.len(),
{
    if s.len() > 0 {
        law_kept_env(s.drop_last(), name);
    }
}

// ---- the document as JSON -----------------------------------------------------------------

/// A field that is missing, or holds what it should not.
pub open spec fn field_fault(name: Seq<char>) -> Seq<char> {
    "layout document: missing or invalid `"@ + name + "`"@
}

/// A value, or what is said where there is none.
pub open spec fn ok_or<A>(v: Option<A>, name: Seq<char>) -> Result<A, Seq<char>> {
    match v {
        Some(a) => Ok(a),
        None => Err(field_fault(name)),
    }
}

/// All the values, or the first fault.
pub open spec fn all_ok<A>(s: Seq<Result<A, Seq<char>>>) -> Result<Seq<A>, Seq<char>>
    decreases s.len(),
{
    if s.len() == 0 {
        Ok(seq![])
    } else {
        match all_ok(s.drop_last()) {
            Err(e) => Err(e),
            Ok(front) => match s.last() {
                Ok(a) => Ok(front.push(a)),
                Err(e) => Err(e),
            },
        }
    }
}

pub open spec fn dir_text(dir: LayoutDir) -> Seq<char> {
    match dir {
        LayoutDir::Right => "right"@,
        LayoutDir::Down => "down"@,
    }
}

pub open spec fn dir_from(s: Seq<char>) -> Option<LayoutDir> {
    if s == "right"@ {
        Some(LayoutDir::Right)
    } else if s == "down"@ {
        Some(LayoutDir::Down)
    } else {
        None
    }
}

pub open spec fn node_json(n: LayoutNodeV) -> JsonV
    decreases n,
{
    match n {
        LayoutNodeV::Leaf(pane) => empty_object().with("type"@, JsonV::Text("leaf"@)).with(
            "pane"@,
            unsigned(pane as u64),
        ),
        LayoutNodeV::Split(dir, ratio, a, b) => empty_object().with(
            "type"@,
            JsonV::Text("split"@),
        ).with("dir"@, JsonV::Text(dir_text(dir))).with("ratio"@, JsonV::Number(ratio)).with(
            "a"@,
            node_json(*a),
        ).with("b"@, node_json(*b)),
    }
}

/// The direction in a field.
pub open spec fn dir_field(j: JsonV) -> Result<LayoutDir, Seq<char>> {
    match j.field_chars("dir"@) {
        Some(s) => ok_or(dir_from(s), "dir"@),
        None => Err(field_fault("dir"@)),
    }
}

/// The number in a field.
pub open spec fn ratio_field(j: JsonV) -> Result<NumberV, Seq<char>> {
    match j.field("ratio"@) {
        Some(JsonV::Number(n)) => Ok(n),
        _ => Err(field_fault("ratio"@)),
    }
}

pub open spec fn node_from(j: JsonV) -> Result<LayoutNodeV, Seq<char>>
    decreases j,
{
    proof {
        lemma_field_decreases(j, "a"@);
        lemma_field_decreases(j, "b"@);
    }
    match j.field_chars("type"@) {
        None => Err(field_fault("type"@)),
        Some(t) => if t == "leaf"@ {
            match ok_or(j.field_index("pane"@), "pane"@) {
                Ok(pane) => Ok(LayoutNodeV::Leaf(pane)),
                Err(e) => Err(e),
            }
        } else if t == "split"@ {
            match dir_field(j) {
                Err(e) => Err(e),
                Ok(dir) => match ratio_field(j) {
                    Err(e) => Err(e),
                    Ok(ratio) => match (j.field("a"@), j.field("b"@)) {
                        (Some(a), Some(b)) => match node_from(a) {
                            Err(e) => Err(e),
                            Ok(a) => match node_from(b) {
                                Err(e) => Err(e),
                                Ok(b) => Ok(
                                    LayoutNodeV::Split(dir, ratio, Box::new(a), Box::new(b)),
                                ),
                            },
                        },
                        (None, _) => Err(field_fault("a"@)),
                        (_, None) => Err(field_fault("b"@)),
                    },
                },
            }
        } else {
            Err(field_fault("type"@))
        },
    }
}

/// The words of a command, or null.
pub open spec fn command_json(c: Option<Seq<Seq<char>>>) -> JsonV {
    match c {
        Some(words) => text_list(words),
        None => JsonV::Null,
    }
}

pub open spec fn all_texts(s: Seq<JsonV>) -> bool {
    forall|i: int| 0 <= i < s.len() ==> (#[trigger] s[i]) is Text
}

pub open spec fn command_from(j: JsonV) -> Result<Option<Seq<Seq<char>>>, Seq<char>> {
    match j.field("command"@) {
        None => Ok(None),
        Some(JsonV::Null) => Ok(None),
        Some(JsonV::List(s)) => if all_texts(s) {
            Ok(Some(s.map_values(|v: JsonV| v->Text_0)))
        } else {
            Err(field_fault("command"@))
        },
        Some(_) => Err(field_fault("command"@)),
    }
}

pub open spec fn env_json(env: Map<Seq<char>, Seq<char>>) -> JsonV {
    JsonV::Object(env.map_values(|v: Seq<char>| JsonV::Text(v)))
}

/// Whether a value is an object of texts.
pub open spec fn texts_by_name(j: JsonV) -> bool {
    j is Object && forall|k: Seq<char>| #[trigger] j.field(k) is Some ==> j.field(k)->0 is Text
}

/// The texts of an object by name.
pub open spec fn env_of(j: JsonV) -> Map<Seq<char>, Seq<char>> {
    Map::new(|k: Seq<char>| j.field(k) is Some, |k: Seq<char>| j.field(k)->0->Text_0)
}

pub open spec fn env_from(j: JsonV) -> Result<Map<Seq<char>, Seq<char>>, Seq<char>> {
    match j.field("env"@) {
        None => Ok(Map::empty()),
        Some(v) => if texts_by_name(v) {
            Ok(env_of(v))
        } else {
            Err(field_fault("env"@))
        },
    }
}

pub open spec fn tab_json(t: LayoutTabV) -> JsonV {
    empty_object().with("kind"@, JsonV::Text("pty"@)).with("name"@, text_or_null(t.name)).with(
        "cwd"@,
        text_or_null(t.cwd),
    ).with("command"@, command_json(t.command)).with("env"@, env_json(t.env))
}

/// A tab has to say of which kind it is; only one kind is known.
pub open spec fn tab_from(j: JsonV) -> Result<LayoutTabV, Seq<char>> {
    match j.field_chars("kind"@) {
        None => Err(field_fault("kind"@)),
        Some(kind) => if kind != "pty"@ {
            Err("layout document: unknown tab kind `"@ + kind + "`"@)
        } else {
            match ok_or(j.field_opt_chars("name"@), "name"@) {
                Err(e) => Err(e),
                Ok(name) => match ok_or(j.field_opt_chars("cwd"@), "cwd"@) {
                    Err(e) => Err(e),
                    Ok(cwd) => match command_from(j) {
                        Err(e) => Err(e),
                        Ok(command) => match env_from(j) {
                            Err(e) => Err(e),
                            Ok(env) => Ok(LayoutTabV { name, cwd, command, env }),
                        },
                    },
                },
            }
        },
    }
}

/// A position that may be missing, and is the first then.
pub open spec fn index_or_first(j: JsonV, key: Seq<char>) -> Result<usize, Seq<char>> {
    match j.field(key) {
        None => Ok(0),
        Some(_) => ok_or(j.field_index(key), key),
    }
}

pub open spec fn pane_json(p: LayoutPaneV) -> JsonV {
    empty_object().with("name"@, text_or_null(p.name)).with(
        "active_tab"@,
        unsigned(p.active_tab as u64),
    ).with("tabs"@, JsonV::List(p.tabs.map_values(|t: LayoutTabV| tab_json(t))))
}

pub open spec fn pane_from(j: JsonV) -> Result<LayoutPaneV, Seq<char>> {
    match ok_or(j.field_opt_chars("name"@), "name"@) {
        Err(e) => Err(e),
        Ok(name) => match index_or_first(j, "active_tab"@) {
            Err(e) => Err(e),
            Ok(active_tab) => match ok_or(j.field_items("tabs"@), "tabs"@) {
                Err(e) => Err(e),
                Ok(tabs) => match all_ok(tabs.map_values(|t: JsonV| tab_from(t))) {
                    Err(e) => Err(e),
                    Ok(tabs) => Ok(LayoutPaneV { name, active_tab, tabs }),
                },
            },
        },
    }
}

pub open spec fn screen_json(s: LayoutScreenV) -> JsonV {
    empty_object().with("name"@, text_or_null(s.name)).with(
        "active_pane"@,
        unsigned(s.active_pane as u64),
    ).with("layout"@, node_json(s.layout)).with(
        "panes"@,
        JsonV::List(s.panes.map_values(|p: LayoutPaneV| pane_json(p))),
    )
}

pub open spec fn screen_from(j: JsonV) -> Result<LayoutScreenV, Seq<char>> {
    match ok_or(j.field_opt_chars("name"@), "name"@) {
        Err(e) => Err(e),
        Ok(name) => match ok_or(j.field_index("active_pane"@), "active_pane"@) {
            Err(e) => Err(e),
            Ok(active_pane) => match ok_or(j.field("layout"@), "layout"@) {
                Err(e) => Err(e),
                Ok(layout) => match node_from(layout) {
                    Err(e) => Err(e),
                    Ok(layout) => match ok_or(j.field_items("panes"@), "panes"@) {
                        Err(e) => Err(e),
                        Ok(panes) => match all_ok(panes.map_values(|p: JsonV| pane_from(p))) {
                            Err(e) => Err(e),
                            Ok(panes) => Ok(LayoutScreenV { name, active_pane, layout, panes }),
                        },
                    },
                },
            },
        },
    }
}

pub open spec fn workspace_json(w: LayoutWorkspaceV) -> JsonV {
    empty_object().with("name"@, JsonV::Text(w.name)).with("color"@, text_or_null(w.color)).with(
        "icon"@,
        text_or_null(w.icon),
    ).with("active_screen"@, unsigned(w.active_screen as u64)).with(
        "screens"@,
        JsonV::List(w.screens.map_values(|s: LayoutScreenV| screen_json(s))),
    )
}

pub open spec fn workspace_from(j: JsonV) -> Result<LayoutWorkspaceV, Seq<char>> {
    match ok_or(j.field_chars("name"@), "name"@) {
        Err(e) => Err(e),
        Ok(name) => match ok_or(j.field_opt_chars("color"@), "color"@) {
            Err(e) => Err(e),
            Ok(color) => match ok_or(j.field_opt_chars("icon"@), "icon"@) {
                Err(e) => Err(e),
                Ok(icon) => match ok_or(j.field_index("active_screen"@), "active_screen"@) {
                    Err(e) => Err(e),
                    Ok(active_screen) => match ok_or(j.field_items("screens"@), "screens"@) {
                        Err(e) => Err(e),
                        Ok(screens) => match all_ok(
                            screens.map_values(|s: JsonV| screen_from(s)),
                        ) {
                            Err(e) => Err(e),
                            Ok(screens) => Ok(
                                LayoutWorkspaceV { name, color, icon, active_screen, screens },
                            ),
                        },
                    },
                },
            },
        },
    }
}

/// A document as JSON.
pub open spec fn document_json(d: LayoutDocumentV) -> JsonV {
    empty_object().with("schema_version"@, unsigned(d.schema_version)).with(
        "cmux_version"@,
        JsonV::Text(d.cmux_version),
    ).with("workspace"@, workspace_json(d.workspace))
}

/// The document that a value is the JSON of, or what is wrong with the value.
pub open spec fn document_from(j: JsonV) -> Result<LayoutDocumentV, Seq<char>> {
    match ok_or(j.field_unsigned("schema_version"@), "schema_version"@) {
        Err(e) => Err(e),
        Ok(schema_version) => match ok_or(j.field_chars("cmux_version"@), "cmux_version"@) {
            Err(e) => Err(e),
            Ok(cmux_version) => match ok_or(j.field("workspace"@), "workspace"@) {
                Err(e) => Err(e),
                Ok(workspace) => match workspace_from(workspace) {
                    Err(e) => Err(e),
                    Ok(workspace) => Ok(
                        LayoutDocumentV { schema_version, cmux_version, workspace },
                    ),
                },
            },
        },
    }
}

// ---- what is written is read back ---------------------------------------------------------

/// The names of the fields differ.
proof fn lemma_names_differ()
    ensures
        "type"@ != "pane"@,
        "type"@ != "dir"@,
        "type"@ != "ratio"@,
        "type"@ != "a"@,
        "type"@ != "b"@,
        "dir"@ != "ratio"@,
        "dir"@ != "a"@,
        "dir"@ != "b"@,
        "ratio"@ != "a"@,
        "ratio"@ != "b"@,
        "a"@ != "b"@,
        "leaf"@ != "split"@,
        "right"@ != "down"@,
        "kind"@ != "name"@,
        "kind"@ != "cwd"@,
        "kind"@ != "command"@,
        "kind"@ != "env"@,
        "name"@ != "cwd"@,
        "name"@ != "command"@,
        "name"@ != "env"@,
        "cwd"@ != "command"@,
        "cwd"@ != "env"@,
        "command"@ != "env"@,
        "name"@ != "active_tab"@,
        "name"@ != "tabs"@,
        "active_tab"@ != "tabs"@,
        "name"@ != "active_pane"@,
        "name"@ != "layout"@,
        "name"@ != "panes"@,
        "active_pane"@ != "layout"@,
        "active_pane"@ != "panes"@,
        "layout"@ != "panes"@,
        "name"@ != "color"@,
        "name"@ != "icon"@,
        "name"@ != "active_screen"@,
        "name"@ != "screens"@,
        "color"@ != "icon"@,
        "color"@ != "active_screen"@,
        "color"@ != "screens"@,
        "icon"@ != "active_screen"@,
        "icon"@ != "screens"@,
        "active_screen"@ != "screens"@,
        "schema_version"@ != "cmux_version"@,
        "schema_version"@ != "workspace"@,
        "cmux_version"@ != "workspace"@,
{
    reveal_strlit("type");
    reveal_strlit("pane");
    reveal_strlit("dir");
    reveal_strlit("ratio");
    reveal_strlit("a");
    reveal_strlit("b");
    reveal_strlit("leaf");
    reveal_strlit("split");
    reveal_strlit("right");
    reveal_strlit("down");
    reveal_strlit("kind");
    reveal_strlit("name");
    reveal_strlit("cwd");
    reveal_strlit("command");
    reveal_strlit("env");
    reveal_strlit("active_tab");
    reveal_strlit("tabs");
    reveal_strlit("active_pane");
    reveal_strlit("layout");
    reveal_strlit("panes");
    reveal_strlit("color");
    reveal_strlit("icon");
    reveal_strlit("active_screen");
    reveal_strlit("screens");
    reveal_strlit("schema_version");
    reveal_strlit("cmux_version");
    reveal_strlit("workspace");
    assert("type"@.len() == 4 && "type"@[0] == 't');
    assert("pane"@.len() == 4 && "pane"@[0] == 'p');
    assert("dir"@.len() == 3 && "dir"@[0] == 'd');
    assert("ratio"@.len() == 5 && "ratio"@[0] == 'r');
    assert("a"@.len() == 1 && "a"@[0] == 'a');
    assert("b"@.len() == 1 && "b"@[0] == 'b');
    assert("leaf"@.len() == 4 && "leaf"@[0] == 'l');
    assert("split"@.len() == 5 && "split"@[0] == 's');
    assert("right"@.len() == 5 && "right"@[0] == 'r');
    assert("down"@.len() == 4 && "down"@[0] == 'd');
    assert("kind"@.len() == 4 && "kind"@[0] == 'k');
    assert("name"@.len() == 4 && "name"@[0] == 'n');
    assert("cwd"@.len() == 3 && "cwd"@[0] == 'c');
    assert("command"@.len() == 7 && "command"@[0] == 'c');
    assert("env"@.len() == 3 && "env"@[0] == 'e');
    assert("active_tab"@.len() == 10 && "active_tab"@[0] == 'a');
    assert("tabs"@.len() == 4 && "tabs"@[0] == 't');
    assert("active_pane"@.len() == 11 && "active_pane"@[0] == 'a');
    assert("layout"@.len() == 6 && "layout"@[0] == 'l');
    assert("panes"@.len() == 5 && "panes"@[0] == 'p');
    assert("color"@.len() == 5 && "color"@[0] == 'c');
    assert("icon"@.len() == 4 && "icon"@[0] == 'i');
    assert("active_screen"@.len() == 13 && "active_screen"@[0] == 'a');
    assert("screens"@.len() == 7 && "screens"@[0] == 's');
    assert("schema_version"@.len() == 14 && "schema_version"@[0] == 's');
    assert("cmux_version"@.len() == 12 && "cmux_version"@[0] == 'c');
    assert("workspace"@.len() == 9 && "workspace"@[0] == 'w');
}

/// Decoding the JSON of every item gives the items back.
proof fn lemma_all_back<A>(
    s: Seq<A>,
    to: spec_fn(A) -> JsonV,
    from: spec_fn(JsonV) -> Result<A, Seq<char>>,
)
    requires
        forall|i: int| 0 <= i < s.len() ==> from(to(#[trigger] s[i])) == Ok::<A, Seq<char>>(s[i]),
    ensures
        all_ok(s.map_values(to).map_values(from)) == Ok::<Seq<A>, Seq<char>>(s),
    decreases s.len(),
{
    let back = s.map_values(to).map_values(from);
    if s.len() > 0 {
        let front = s.drop_last();
        assert forall|i: int| 0 <= i < front.len() implies from(to(#[trigger] front[i])) == Ok::<
            A,
            Seq<char>,
        >(front[i]) by {
            assert(front[i] == s[i]);
        }
        lemma_all_back(front, to, from);
        assert(back.drop_last() =~= front.map_values(to).map_values(from));
        assert(back.last() == from(to(s[s.len() - 1])));
        assert(front.push(s.last()) =~= s);
    } else {
        assert(s =~= seq![]);
    }
}

/// A layout is read back as it was written.
pub proof fn law_node_json(n: LayoutNodeV)
    ensures
        node_from(node_json(n)) == Ok::<LayoutNodeV, Seq<char>>(n),
    decreases n,
{
    lemma_names_differ();
    let j = node_json(n);
    match n {
        LayoutNodeV::Leaf(pane) => {
            assert(j.field_chars("type"@) == Some("leaf"@));
            assert(j.field_index("pane"@) == Some(pane));
        },
        LayoutNodeV::Split(dir, ratio, a, b) => {
            law_node_json(*a);
            law_node_json(*b);
            assert(j.field_chars("type"@) == Some("split"@));
            assert(j.field_chars("dir"@) == Some(dir_text(dir)));
            assert(j.field("ratio"@) == Some(JsonV::Number(ratio)));
            assert(j.field("a"@) == Some(node_json(*a)));
            assert(j.field("b"@) == Some(node_json(*b)));
        },
    }
}

proof fn lemma_tab_back(t: LayoutTabV)
    requires
        t.env.dom().finite(),
    ensures
        tab_from(tab_json(t)) == Ok::<LayoutTabV, Seq<char>>(t),
{
    lemma_names_differ();
    let j = tab_json(t);
    assert(j.field_chars("kind"@) == Some("pty"@));
    assert(j.field_opt_chars("name"@) == Some(t.name));
    assert(j.field_opt_chars("cwd"@) == Some(t.cwd));
    assert(j.field("command"@) == Some(command_json(t.command)));
    if let Some(words) = t.command {
        let list = text_list(words);
        assert(all_texts(list->List_0));
        assert(list->List_0.map_values(|v: JsonV| v->Text_0) =~= words);
    }
    let env = env_json(t.env);
    assert(j.field("env"@) == Some(env));
    assert(env->Object_0.dom() =~= t.env.dom());
    assert(texts_by_name(env));
    assert(env_of(env) =~= t.env);
}

proof fn lemma_pane_back(p: LayoutPaneV)
    requires
        forall|i: int| 0 <= i < p.tabs.len() ==> (#[trigger] p.tabs[i]).env.dom().finite(),
    ensures
        pane_from(pane_json(p)) == Ok::<LayoutPaneV, Seq<char>>(p),
{
    lemma_names_differ();
    let to = |t: LayoutTabV| tab_json(t);
    let from = |t: JsonV| tab_from(t);
    assert forall|i: int| 0 <= i < p.tabs.len() implies from(to(#[trigger] p.tabs[i])) == Ok::<
        LayoutTabV,
        Seq<char>,
    >(p.tabs[i]) by {
        lemma_tab_back(p.tabs[i]);
    }
    lemma_all_back(p.tabs, to, from);
    let j = pane_json(p);
    assert(j.field_opt_chars("name"@) == Some(p.name));
    assert(j.field_index("active_tab"@) == Some(p.active_tab));
    assert(j.field("active_tab"@) is Some);
    assert(j.field_items("tabs"@) == Some(p.tabs.map_values(to)));
}

/// Whether a document has finitely many variables, as every document has that can be held.
pub open spec fn holdable(d: LayoutDocumentV) -> bool {
    forall|s: int, p: int, t: int|
        0 <= s < d.workspace.screens.len() && 0 <= p < d.workspace.screens[s].panes.len() && 0 <= t
            < d.workspace.screens[s].panes[p].tabs.len() ==> (
        #[trigger] d.workspace.screens[s].panes[p].tabs[t]).env.dom().finite()
}

proof fn lemma_screen_back(s: LayoutScreenV)
    requires
        forall|p: int, t: int|
            0 <= p < s.panes.len() && 0 <= t < s.panes[p].tabs.len() ==> (
            #[trigger] s.panes[p].tabs[t]).env.dom().finite(),
    ensures
        screen_from(screen_json(s)) == Ok::<LayoutScreenV, Seq<char>>(s),
{
    lemma_names_differ();
    let to = |p: LayoutPaneV| pane_json(p);
    let from = |p: JsonV| pane_from(p);
    assert forall|i: int| 0 <= i < s.panes.len() implies from(to(#[trigger] s.panes[i])) == Ok::<
        LayoutPaneV,
        Seq<char>,
    >(s.panes[i]) by {
        lemma_pane_back(s.panes[i]);
    }
    lemma_all_back(s.panes, to, from);
    law_node_json(s.layout);
    let j = screen_json(s);
    assert(j.field_opt_chars("name"@) == Some(s.name));
    assert(j.field_index("active_pane"@) == Some(s.active_pane));
    assert(j.field("layout"@) == Some(node_json(s.layout)));
    assert(j.field_items("panes"@) == Some(s.panes.map_values(to)));
}

/// A document is read back as it was written.
pub proof fn law_document_json(d: LayoutDocumentV)
    requires
        holdable(d),
    ensures
        document_from(document_json(d)) == Ok::<LayoutDocumentV, Seq<char>>(d),
{
    lemma_names_differ();
    let w = d.workspace;
    let to = |s: LayoutScreenV| screen_json(s);
    let from = |s: JsonV| screen_from(s);
    assert forall|i: int| 0 <= i < w.screens.len() implies from(to(#[trigger] w.screens[i])) == Ok::<
        LayoutScreenV,
        Seq<char>,
    >(w.screens[i]) by {
        lemma_screen_back(w.screens[i]);
    }
    lemma_all_back(w.screens, to, from);
    let j = workspace_json(w);
    assert(j.field_chars("name"@) == Some(w.name));
    assert(j.field_opt_chars("color"@) == Some(w.color));
    assert(j.field_opt_chars("icon"@) == Some(w.icon));
    assert(j.field_index("active_screen"@) == Some(w.active_screen));
    assert(j.field_items("screens"@) == Some(w.screens.map_values(to)));
    let whole = document_json(d);
    assert(whole.field_unsigned("schema_version"@) == Some(d.schema_version));
    assert(whole.field_chars("cmux_version"@) == Some(d.cmux_version));
    assert(whole.field("workspace"@) == Some(j));
}

// ---- writing and reading ------------------------------------------------------------------

/// The first fault decides.
proof fn lemma_first_error<A>(s: Seq<Result<A, Seq<char>>>, i: int)
    requires
        0 <= i < s.len(),
        all_ok(s.take(i + 1)) is Err,
    ensures
        all_ok(s) == all_ok(s.take(i + 1)),
    decreases s.len(),
{
    if i + 1 == s.len() {
        assert(s.take(i + 1) =~= s);
    } else {
        assert(s.drop_last().take(i + 1) =~= s.take(i + 1));
        lemma_first_error(s.drop_last(), i);
    }
}

fn fault(name: &str) -> (e: LayoutError)
    ensures
        e.message@ == field_fault(name@),
{
    let mut message: String = "layout document: missing or invalid `".to_string();
    message.append(name);
    message.append("`");
    LayoutError { message }
}

fn write_node(n: &LayoutNode) -> (r: Json)
    ensures
        r@ == node_json(n@),
    decreases n,
{
    let mut out: Json = Json::object();
    match n {
        LayoutNode::Leaf { pane } => {
            out.set("type", Json::text("leaf"));
            out.set("pane", Json::unsigned(*pane as u64));
        },
        LayoutNode::Split { dir, ratio, a, b } => {
            out.set("type", Json::text("split"));
            match dir {
                LayoutDir::Right => {
                    out.set("dir", Json::text("right"));
                },
                LayoutDir::Down => {
                    out.set("dir", Json::text("down"));
                },
            }
            out.set("ratio", Json::Number(number_copy(ratio)));
            out.set("a", write_node(a));
            out.set("b", write_node(b));
        },
    }
    out
}

fn write_env(env: &Vec<(String, String)>) -> (r: Json)
    ensures
        r@ == env_json(env_view(env@)),
{
    let mut out: Json = Json::object();
    let mut i: usize = 0;
    proof {
        assert(env@.take(0) =~= seq![]);
        assert(env_view(env@.take(0)).map_values(|v: Seq<char>| JsonV::Text(v)) =~= Map::<
            Seq<char>,
            JsonV,
        >::empty());
    }
    while i < env.len()
        invariant
            i <= env.len(),
            out@ == env_json(env_view(env@.take(i as int))),
        decreases env.len() - i,
    {
        let ghost before = env_view(env@.take(i as int));
        let ghost after = env_view(env@.take(i + 1));
        proof {
            assert(env@.take(i + 1).drop_last() =~= env@.take(i as int));
        }
        out.set(env[i].0.as_str(), Json::text(env[i].1.as_str()));
        proof {
            assert(after.map_values(|v: Seq<char>| JsonV::Text(v)) =~= before.map_values(
                |v: Seq<char>| JsonV::Text(v),
            ).insert(env@[i as int].0@, JsonV::Text(env@[i as int].1@)));
        }
        i = i + 1;
    }
    assert(env@.take(env@.len() as int) =~= env@);
    out
}

fn write_tab(t: &LayoutTab) -> (r: Json)
    ensures
        r@ == tab_json(t@),
{
    match t {
        LayoutTab::Pty { name, cwd, command, env } => {
            let mut out: Json = Json::object();
            out.set("kind", Json::text("pty"));
            out.set("name", Json::text_or_null(name));
            out.set("cwd", Json::text_or_null(cwd));
            let words: Json = match command {
                Some(words) => Json::texts(words),
                None => Json::Null,
            };
            out.set("command", words);
            out.set("env", write_env(env));
            out
        },
    }
}

fn write_pane(p: &LayoutPane) -> (r: Json)
    ensures
        r@ == pane_json(p@),
{
    let mut tabs: Vec<Json> = Vec::new();
    let mut i: usize = 0;
    while i < p.tabs.len()
        invariant
            i <= p.tabs.len(),
            tabs.len() == i,
            forall|k: int| 0 <= k < i ==> json_view(#[trigger] tabs@[k]) == tab_json(p.tabs@[k]@),
        decreases p.tabs.len() - i,
    {
        tabs.push(write_tab(&p.tabs[i]));
        i = i + 1;
    }
    assert(list_view(tabs@) =~= p@.tabs.map_values(|t: LayoutTabV| tab_json(t)));
    let mut out: Json = Json::object();
    out.set("name", Json::text_or_null(&p.name));
    out.set("active_tab", Json::unsigned(p.active_tab as u64));
    out.set("tabs", Json::List(tabs));
    out
}

fn write_screen(s: &LayoutScreen) -> (r: Json)
    ensures
        r@ == screen_json(s@),
{
    let mut panes: Vec<Json> = Vec::new();
    let mut i: usize = 0;
    while i < s.panes.len()
        invariant
            i <= s.panes.len(),
            panes.len() == i,
            forall|k: int| 0 <= k < i ==> json_view(#[trigger] panes@[k]) == pane_json(s.panes@[k]@),
        decreases s.panes.len() - i,
    {
        panes.push(write_pane(&s.panes[i]));
        i = i + 1;
    }
    assert(list_view(panes@) =~= s@.panes.map_values(|p: LayoutPaneV| pane_json(p)));
    let mut out: Json = Json::object();
    out.set("name", Json::text_or_null(&s.name));
    out.set("active_pane", Json::unsigned(s.active_pane as u64));
    out.set("layout", write_node(&s.layout));
    out.set("panes", Json::List(panes));
    out
}

impl LayoutDocument {
    pub fn to_json(&self) -> (r: Json)
        ensures
            r@ == document_json(self@),
    {
        let w: &LayoutWorkspace = &self.workspace;
        let mut screens: Vec<Json> = Vec::new();
        let mut i: usize = 0;
        while i < w.screens.len()
            invariant
                i <= w.screens.len(),
                screens.len() == i,
                forall|k: int|
                    0 <= k < i ==> json_view(#[trigger] screens@[k]) == screen_json(w.screens@[k]@),
            decreases w.screens.len() - i,
        {
            screens.push(write_screen(&w.screens[i]));
            i = i + 1;
        }
        assert(list_view(screens@) =~= w@.screens.map_values(|s: LayoutScreenV| screen_json(s)));
        let mut inner: Json = Json::object();
        inner.set("name", Json::text(w.name.as_str()));
        inner.set("color", Json::text_or_null(&w.color));
        inner.set("icon", Json::text_or_null(&w.icon));
        inner.set("active_screen", Json::unsigned(w.active_screen as u64));
        inner.set("screens", Json::List(screens));
        let mut out: Json = Json::object();
        out.set("schema_version", Json::unsigned(self.schema_version));
        out.set("cmux_version", Json::text(self.cmux_version.as_str()));
        out.set("workspace", inner);
        out
    }
}

fn read_node(j: &Json) -> (r: Result<LayoutNode, LayoutError>)
    ensures
        match r {
            Ok(n) => node_from(j@) == Ok::<LayoutNodeV, Seq<char>>(n@),
            Err(e) => node_from(j@) == Err::<LayoutNodeV, Seq<char>>(e.message@),
        },
    decreases j,
{
    let kind: &str = match j.field_chars("type") {
        Some(t) => t,
        None => {
            return Err(fault("type"));
        },
    };
    if same(kind, "leaf") {
        return match j.field_index("pane") {
            Some(pane) => Ok(LayoutNode::Leaf { pane }),
            None => Err(fault("pane")),
        };
    }
    if !same(kind, "split") {
        return Err(fault("type"));
    }
    let dir: LayoutDir = match j.field_chars("dir") {
        Some(s) => {
            if same(s, "right") {
                LayoutDir::Right
            } else if same(s, "down") {
                LayoutDir::Down
            } else {
                return Err(fault("dir"));
            }
        },
        None => {
            return Err(fault("dir"));
        },
    };
    let ratio: serde_json::Number = match j.get("ratio") {
        Some(Json::Number(n)) => number_copy(n),
        _ => {
            return Err(fault("ratio"));
        },
    };
    match (j.get("a"), j.get("b")) {
        (Some(a), Some(b)) => match read_node(a) {
            Err(e) => Err(e),
            Ok(a) => match read_node(b) {
                Err(e) => Err(e),
                Ok(b) => Ok(LayoutNode::Split { dir, ratio, a: Box::new(a), b: Box::new(b) }),
            },
        },
        (None, _) => Err(fault("a")),
        (_, None) => Err(fault("b")),
    }
}

fn read_command(j: &Json) -> (r: Result<Option<Vec<String>>, LayoutError>)
    ensures
        match r {
            Ok(c) => command_from(j@) == Ok::<Option<Seq<Seq<char>>>, Seq<char>>(command_view(c)),
            Err(e) => command_from(j@) == Err::<Option<Seq<Seq<char>>>, Seq<char>>(e.message@),
        },
{
    match j.get("command") {
        None => Ok(None),
        Some(Json::Null) => Ok(None),
        Some(Json::List(items)) => {
            let mut words: Vec<String> = Vec::new();
            let mut i: usize = 0;
            while i < items.len()
                invariant
                    i <= items.len(),
                    j@.field("command"@) == Some(JsonV::List(list_view(items@))),
                    words.len() == i,
                    forall|k: int|
                        0 <= k < i ==> (#[trigger] list_view(items@)[k]) == JsonV::Text(words@[k]@),
                decreases items.len() - i,
            {
                assert(list_view(items@)[i as int] == items@[i as int]@);
                match &items[i] {
                    Json::Text(s) => {
                        words.push(owned(s.as_str()));
                    },
                    _ => {
                        return Err(fault("command"));
                    },
                }
                i = i + 1;
            }
            assert(texts(words@) =~= list_view(items@).map_values(|v: JsonV| v->Text_0));
            Ok(Some(words))
        },
        Some(_) => Err(fault("command")),
    }
}

#[verifier::loop_isolation(false)]
fn read_env(j: &Json) -> (r: Result<Vec<(String, String)>, LayoutError>)
    ensures
        match r {
            Ok(env) => env_from(j@) == Ok::<Map<Seq<char>, Seq<char>>, Seq<char>>(env_view(env@)),
            Err(e) => env_from(j@) == Err::<Map<Seq<char>, Seq<char>>, Seq<char>>(e.message@),
        },
{
    match j.get("env") {
        None => Ok(Vec::new()),
        Some(v) => {
            match v {
                Json::Object(_) => {},
                _ => {
                    return Err(fault("env"));
                },
            }
            let names: Vec<String> = v.names();
            let ghost all = texts(names@);
            let mut out: Vec<(String, String)> = Vec::new();
            let mut i: usize = 0;
            while i < names.len()
                invariant
                    i <= names.len(),
                    all == texts(names@),
                    forall|k: int|
                        0 <= k < i ==> v@.field(#[trigger] all[k]) is Some && v@.field(
                            all[k],
                        )->0 is Text,
                    forall|k: Seq<char>| #[trigger]
                        env_view(out@).dom().contains(k) <==> all.take(i as int).contains(k),
                    forall|k: Seq<char>| #[trigger]
                        env_view(out@).dom().contains(k) ==> v@.field(k) is Some && v@.field(k)->0
                            == JsonV::Text(env_view(out@)[k]),
                decreases names.len() - i,
            {
                let ghost before = out@;
                proof {
                    assert(all[i as int] == names@[i as int]@);
                    assert(all.contains(all[i as int]));
                    assert(all.take(i + 1) =~= all.take(i as int).push(all[i as int]));
                    assert forall|k: Seq<char>| #[trigger]
                        all.take(i + 1).contains(k) <==> all.take(i as int).contains(k) || k
                            == all[i as int] by {
                        let now = all.take(i + 1);
                        let was = all.take(i as int);
                        if was.contains(k) {
                            let p = choose|p: int| 0 <= p < was.len() && was[p] == k;
                            assert(now[p] == k);
                        }
                        if k == all[i as int] {
                            assert(now[i as int] == k);
                        }
                        if now.contains(k) && k != all[i as int] {
                            let p = choose|p: int| 0 <= p < now.len() && now[p] == k;
                            assert(was[p] == k);
                        }
                    }
                }
                match v.get(names[i].as_str()) {
                    Some(Json::Text(s)) => {
                        out.push((owned(names[i].as_str()), owned(s.as_str())));
                        proof {
                            assert(out@.drop_last() =~= before);
                            assert(env_view(out@) == env_view(before).insert(all[i as int], s@));
                            assert forall|k: Seq<char>| #[trigger]
                                env_view(out@).dom().contains(k) <==> all.take(i + 1).contains(
                                    k,
                                ) by {
                                assert(env_view(before).dom().contains(k) <==> all.take(
                                    i as int,
                                ).contains(k));
                                assert(all.take(i + 1).contains(k) <==> all.take(
                                    i as int,
                                ).contains(k) || k == all[i as int]);
                            }
                            assert forall|k: Seq<char>| #[trigger]
                                env_view(out@).dom().contains(k) implies v@.field(k) is Some
                                && v@.field(k)->0 == JsonV::Text(env_view(out@)[k]) by {
                                if k != all[i as int] {
                                    assert(env_view(before).dom().contains(k));
                                }
                            }
                        }
                    },
                    _ => {
                        return Err(fault("env"));
                    },
                }
                i = i + 1;
            }
            proof {
                assert(all.take(all.len() as int) =~= all);
                assert forall|k: Seq<char>| #[trigger] v@.field(k) is Some implies v@.field(
                    k,
                )->0 is Text by {
                    assert(all.contains(k));
                    assert(env_view(out@).dom().contains(k));
                }
                assert(env_of(v@) =~= env_view(out@)) by {
                    assert forall|k: Seq<char>|
                        env_of(v@).dom().contains(k) <==> env_view(out@).dom().contains(k) by {
                        assert(all.contains(k) <==> v@.field(k) is Some);
                    }
                }
            }
            Ok(out)
        },
    }
}

fn read_tab(j: &Json) -> (r: Result<LayoutTab, LayoutError>)
    ensures
        match r {
            Ok(t) => tab_from(j@) == Ok::<LayoutTabV, Seq<char>>(t@),
            Err(e) => tab_from(j@) == Err::<LayoutTabV, Seq<char>>(e.message@),
        },
{
    let kind: &str = match j.field_chars("kind") {
        Some(k) => k,
        None => {
            return Err(fault("kind"));
        },
    };
    if !same(kind, "pty") {
        let mut message: String = "layout document: unknown tab kind `".to_string();
        message.append(kind);
        message.append("`");
        return Err(LayoutError { message });
    }
    let name: Option<String> = match j.field_opt_chars("name") {
        Some(v) => v,
        None => {
            return Err(fault("name"));
        },
    };
    let cwd: Option<String> = match j.field_opt_chars("cwd") {
        Some(v) => v,
        None => {
            return Err(fault("cwd"));
        },
    };
    match read_command(j) {
        Err(e) => Err(e),
        Ok(command) => match read_env(j) {
            Err(e) => Err(e),
            Ok(env) => Ok(LayoutTab::Pty { name, cwd, command, env }),
        },
    }
}

/// Reads every tab of a list.
fn read_tabs(items: &Vec<Json>) -> (r: Result<Vec<LayoutTab>, LayoutError>)
    ensures
        match r {
            Ok(v) => all_ok(list_view(items@).map_values(|j: JsonV| tab_from(j))) == Ok::<
                Seq<LayoutTabV>,
                Seq<char>,
            >(v@.map_values(|x: LayoutTab| x@)),
            Err(e) => all_ok(list_view(items@).map_values(|j: JsonV| tab_from(j))) == Err::<
                Seq<LayoutTabV>,
                Seq<char>,
            >(e.message@),
        },
{
    let ghost found = list_view(items@).map_values(|j: JsonV| tab_from(j));
    let mut out: Vec<LayoutTab> = Vec::new();
    let mut i: usize = 0;
    proof {
        assert(found.take(0) =~= seq![]);
        assert(out@.map_values(|x: LayoutTab| x@) =~= seq![]);
    }
    while i < items.len()
        invariant
            i <= items.len(),
            found == list_view(items@).map_values(|j: JsonV| tab_from(j)),
            found.len() == items.len(),
            all_ok(found.take(i as int)) == Ok::<Seq<LayoutTabV>, Seq<char>>(
                out@.map_values(|x: LayoutTab| x@),
            ),
        decreases items.len() - i,
    {
        proof {
            assert(found[i as int] == tab_from(items@[i as int]@));
            assert(found.take(i + 1).drop_last() =~= found.take(i as int));
        }
        match read_tab(&items[i]) {
            Ok(x) => {
                let ghost before = out@;
                out.push(x);
                assert(out@.map_values(|x: LayoutTab| x@) =~= before.map_values(
                    |x: LayoutTab| x@,
                ).push(x@));
            },
            Err(e) => {
                proof {
                    lemma_first_error(found, i as int);
                }
                return Err(e);
            },
        }
        i = i + 1;
    }
    assert(found.take(found.len() as int) =~= found);
    Ok(out)
}

fn read_pane(j: &Json) -> (r: Result<LayoutPane, LayoutError>)
    ensures
        match r {
            Ok(p) => pane_from(j@) == Ok::<LayoutPaneV, Seq<char>>(p@),
            Err(e) => pane_from(j@) == Err::<LayoutPaneV, Seq<char>>(e.message@),
        },
{
    let name: Option<String> = match j.field_opt_chars("name") {
        Some(v) => v,
        None => {
            return Err(fault("name"));
        },
    };
    let active_tab: usize = match j.get("active_tab") {
        None => 0,
        Some(_) => match j.field_index("active_tab") {
            Some(i) => i,
            None => {
                return Err(fault("active_tab"));
            },
        },
    };
    match j.field_items("tabs") {
        None => Err(fault("tabs")),
        Some(items) => match read_tabs(items) {
            Err(e) => Err(e),
            Ok(tabs) => Ok(LayoutPane { name, active_tab, tabs }),
        },
    }
}

/// Reads every pane of a list.
fn read_panes(items: &Vec<Json>) -> (r: Result<Vec<LayoutPane>, LayoutError>)
    ensures
        match r {
            Ok(v) => all_ok(list_view(items@).map_values(|j: JsonV| pane_from(j))) == Ok::<
                Seq<LayoutPaneV>,
                Seq<char>,
            >(v@.map_values(|x: LayoutPane| x@)),
            Err(e) => all_ok(list_view(items@).map_values(|j: JsonV| pane_from(j))) == Err::<
                Seq<LayoutPaneV>,
                Seq<char>,
            >(e.message@),
        },
{
    let ghost found = list_view(items@).map_values(|j: JsonV| pane_from(j));
    let mut out: Vec<LayoutPane> = Vec::new();
    let mut i: usize = 0;
    proof {
        assert(found.take(0) =~= seq![]);
        assert(out@.map_values(|x: LayoutPane| x@) =~= seq![]);
    }
    while i < items.len()
        invariant
            i <= items.len(),
            found == list_view(items@).map_values(|j: JsonV| pane_from(j)),
            found.len() == items.len(),
            all_ok(found.take(i as int)) == Ok::<Seq<LayoutPaneV>, Seq<char>>(
                out@.map_values(|x: LayoutPane| x@),
            ),
        decreases items.len() - i,
    {
        proof {
            assert(found[i as int] == pane_from(items@[i as int]@));
            assert(found.take(i + 1).drop_last() =~= found.take(i as int));
        }
        match read_pane(&items[i]) {
            Ok(x) => {
                let ghost before = out@;
                out.push(x);
                assert(out@.map_values(|x: LayoutPane| x@) =~= before.map_values(
                    |x: LayoutPane| x@,
                ).push(x@));
            },
            Err(e) => {
                proof {
                    lemma_first_error(found, i as int);
                }
                return Err(e);
            },
        }
        i = i + 1;
    }
    assert(found.take(found.len() as int) =~= found);
    Ok(out)
}

fn read_screen(j: &Json) -> (r: Result<LayoutScreen, LayoutError>)
    ensures
        match r {
            Ok(s) => screen_from(j@) == Ok::<LayoutScreenV, Seq<char>>(s@),
            Err(e) => screen_from(j@) == Err::<LayoutScreenV, Seq<char>>(e.message@),
        },
{
    let name: Option<String> = match j.field_opt_chars("name") {
        Some(v) => v,
        None => {
            return Err(fault("name"));
        },
    };
    let active_pane: usize = match j.field_index("active_pane") {
        Some(i) => i,
        None => {
            return Err(fault("active_pane"));
        },
    };
    let layout: LayoutNode = match j.get("layout") {
        None => {
            return Err(fault("layout"));
        },
        Some(v) => match read_node(v) {
            Ok(n) => n,
            Err(e) => {
                return Err(e);
            },
        },
    };
    match j.field_items("panes") {
        None => Err(fault("panes")),
        Some(items) => match read_panes(items) {
            Err(e) => Err(e),
            Ok(panes) => Ok(LayoutScreen { name, active_pane, layout, panes }),
        },
    }
}

/// Reads every screen of a list.
fn read_screens(items: &Vec<Json>) -> (r: Result<Vec<LayoutScreen>, LayoutError>)
    ensures
        match r {
            Ok(v) => all_ok(list_view(items@).map_values(|j: JsonV| screen_from(j))) == Ok::<
                Seq<LayoutScreenV>,
                Seq<char>,
            >(v@.map_values(|x: LayoutScreen| x@)),
            Err(e) => all_ok(list_view(items@).map_values(|j: JsonV| screen_from(j))) == Err::<
                Seq<LayoutScreenV>,
                Seq<char>,
            >(e.message@),
        },
{
    let ghost found = list_view(items@).map_values(|j: JsonV| screen_from(j));
    let mut out: Vec<LayoutScreen> = Vec::new();
    let mut i: usize = 0;
    proof {
        assert(found.take(0) =~= seq![]);
        assert(out@.map_values(|x: LayoutScreen| x@) =~= seq![]);
    }
    while i < items.len()
        invariant
            i <= items.len(),
            found == list_view(items@).map_values(|j: JsonV| screen_from(j)),
            found.len() == items.len(),
            all_ok(found.take(i as int)) == Ok::<Seq<LayoutScreenV>, Seq<char>>(
                out@.map_values(|x: LayoutScreen| x@),
            ),
        decreases items.len() - i,
    {
        proof {
            assert(found[i as int] == screen_from(items@[i as int]@));
            assert(found.take(i + 1).drop_last() =~= found.take(i as int));
        }
        match read_screen(&items[i]) {
            Ok(x) => {
                let ghost before = out@;
                out.push(x);
                assert(out@.map_values(|x: LayoutScreen| x@) =~= before.map_values(
                    |x: LayoutScreen| x@,
                ).push(x@));
            },
            Err(e) => {
                proof {
                    lemma_first_error(found, i as int);
                }
                return Err(e);
            },
        }
        i = i + 1;
    }
    assert(found.take(found.len() as int) =~= found);
    Ok(out)
}

fn read_workspace(j: &Json) -> (r: Result<LayoutWorkspace, LayoutError>)
    ensures
        match r {
            Ok(w) => workspace_from(j@) == Ok::<LayoutWorkspaceV, Seq<char>>(w@),
            Err(e) => workspace_from(j@) == Err::<LayoutWorkspaceV, Seq<char>>(e.message@),
        },
{
    let name: String = match j.field_chars("name") {
        Some(s) => owned(s),
        None => {
            return Err(fault("name"));
        },
    };
    let color: Option<String> = match j.field_opt_chars("color") {
        Some(v) => v,
        None => {
            return Err(fault("color"));
        },
    };
    let icon: Option<String> = match j.field_opt_chars("icon") {
        Some(v) => v,
        None => {
            return Err(fault("icon"));
        },
    };
    let active_screen: usize = match j.field_index("active_screen") {
        Some(i) => i,
        None => {
            return Err(fault("active_screen"));
        },
    };
    match j.field_items("screens") {
        None => Err(fault("screens")),
        Some(items) => match read_screens(items) {
            Err(e) => Err(e),
            Ok(screens) => Ok(LayoutWorkspace { name, color, icon, active_screen, screens }),
        },
    }
}

/// What a text says as a document: what is wrong with it, or the document it holds, which is
/// then without fault.
pub open spec fn document_read(parsed: Result<JsonV, Seq<char>>) -> Result<
    LayoutDocumentV,
    Seq<char>,
> {
    match parsed {
        Err(why) => Err("layout document: "@ + why),
        Ok(j) => match document_from(j) {
            Err(e) => Err(e),
            Ok(d) => match document_fault(d) {
                Some(e) => Err(e),
                None => Ok(d),
            },
        },
    }
}

/// A document without fault is read back from its JSON.
pub proof fn law_document_read(d: LayoutDocumentV)
    requires
        holdable(d),
        document_fault(d) is None,
    ensures
        document_read(Ok(document_json(d))) == Ok::<LayoutDocumentV, Seq<char>>(d),
{
    law_document_json(d);
}

pub open spec fn document_result(r: Result<LayoutDocument, LayoutError>) -> Result<
    LayoutDocumentV,
    Seq<char>,
> {
    match r {
        Ok(d) => Ok(d@),
        Err(e) => Err(e.message@),
    }
}

impl LayoutDocument {
    pub fn from_json(j: &Json) -> (r: Result<LayoutDocument, LayoutError>)
        ensures
            document_result(r) == document_from(j@),
    {
        let schema_version: u64 = match j.field_unsigned("schema_version") {
            Some(n) => n,
            None => {
                return Err(fault("schema_version"));
            },
        };
        let cmux_version: String = match j.field_chars("cmux_version") {
            Some(s) => owned(s),
            None => {
                return Err(fault("cmux_version"));
            },
        };
        match j.get("workspace") {
            None => Err(fault("workspace")),
            Some(w) => match read_workspace(w) {
                Err(e) => Err(e),
                Ok(workspace) => Ok(LayoutDocument { schema_version, cmux_version, workspace }),
            },
        }
    }

    /// The document of a text that was read as JSON.
    pub fn from_parsed(parsed: Result<Json, String>) -> (r: Result<LayoutDocument, LayoutError>)
        ensures
            document_result(r) == document_read(reading(parsed)),
    {
        match parsed {
            Err(why) => {
                let mut message: String = "layout document: ".to_string();
                message.append(why.as_str());
                Err(LayoutError { message })
            },
            Ok(j) => match LayoutDocument::from_json(&j) {
                Err(e) => Err(e),
                Ok(d) => match d.validate() {
                    Err(e) => Err(e),
                    Ok(_) => Ok(d),
                },
            },
        }
    }

    /// The document that a text holds; it is without fault.
    pub fn from_json_str(text: &str) -> (r: Result<LayoutDocument, LayoutError>)
        ensures
            document_result(r) == document_read(read_json(text@)),
    {
        let parsed: Result<Json, String> = parse(text);
        LayoutDocument::from_parsed(parsed)
    }
}

// ---- what a document says of its workspace ------------------------------------------------

/// The layout that a document's layout stands for, with the panes of the screen at its leaves.
pub open spec fn with_panes(layout: LayoutNodeV, ids: Seq<PaneId>) -> NodeV
    decreases layout,
{
    match layout {
        LayoutNodeV::Leaf(i) => NodeV::Leaf(ids[i as int]),
        LayoutNodeV::Split(dir, ratio, a, b) => NodeV::Split(
            if dir == LayoutDir::Right {
                SplitDir::Right
            } else {
                SplitDir::Down
            },
            ratio,
            Box::new(with_panes(*a, ids)),
            Box::new(with_panes(*b, ids)),
        ),
    }
}

/// The positions at the leaves of a layout, the first part before the second.
pub open spec fn leaves(layout: LayoutNodeV) -> Seq<usize>
    decreases layout,
{
    match layout {
        LayoutNodeV::Leaf(i) => seq![i],
        LayoutNodeV::Split(_, _, a, b) => leaves(*a) + leaves(*b),
    }
}

/// The layout of a screen in a document, with the panes put back, is the layout that the screen
/// has: the same directions, the same ratios and each pane in its place. The panes are counted in
/// the order of the layout, and the active one is the screen's.
pub proof fn law_export_keeps_layout(state: State, ws: Workspace, version: Seq<char>, s: int, k: int)
    requires
        0 <= s < ws.screens.len(),
        state.screen_ok(ws.screens@[s]),
        ws.screens@[s].root@.panes().len() <= usize::MAX,
    ensures
        ({
            let screen = ws.screens@[s];
            let ids = screen.root@.panes();
            let taken = document_taken(state, ws, version).workspace.screens[s];
            &&& with_panes(taken.layout, ids) == screen.root@
            &&& taken.panes.len() == ids.len()
            &&& taken.active_pane < ids.len()
            &&& ids[taken.active_pane as int] == screen.active_pane
            &&& leaves(taken.layout).len() == ids.len()
            &&& ids.no_duplicates() && 0 <= k < ids.len() ==> leaves(taken.layout)[k] == k
        }),
{
    let screen = ws.screens@[s];
    let ids = screen.root@.panes();
    assert(document_taken(state, ws, version).workspace.screens[s] == screen_taken(state, screen));
    ids.index_of_first_ensures(screen.active_pane);
    assert forall|id: PaneId| #[trigger] screen.root@.panes().contains(id) implies ids.contains(
        id,
    ) by {}
    lemma_layout_kept(screen.root@, ids, k);
    if ids.no_duplicates() && 0 <= k < ids.len() {
        assert(ids.contains(ids[k]));
        ids.index_of_first_ensures(ids[k]);
        let i = ids.index_of_first(ids[k])->0;
        if i != k {
            assert(ids[i] == ids[k]);
        }
    }
}

proof fn lemma_layout_kept(node: NodeV, ids: Seq<PaneId>, k: int)
    requires
        forall|id: PaneId| #[trigger] node.panes().contains(id) ==> ids.contains(id),
        ids.len() <= usize::MAX,
    ensures
        with_panes(node_taken(node, ids), ids) == node,
        leaves(node_taken(node, ids)).len() == node.panes().len(),
        0 <= k < node.panes().len() ==> leaves(node_taken(node, ids))[k] == position_of(
            ids,
            node.panes()[k],
        ) as usize,
    decreases node,
{
    match node {
        NodeV::Leaf(id) => {
            assert(node.panes()[0] == id);
            assert(node.panes().contains(id));
            ids.index_of_first_ensures(id);
        },
        NodeV::Split(_, _, a, b) => {
            assert forall|id: PaneId| #[trigger] a.panes().contains(id) implies ids.contains(
                id,
            ) by {
                let i = choose|i: int| 0 <= i < a.panes().len() && a.panes()[i] == id;
                assert(node.panes()[i] == id);
                assert(node.panes().contains(id));
            }
            assert forall|id: PaneId| #[trigger] b.panes().contains(id) implies ids.contains(
                id,
            ) by {
                let i = choose|i: int| 0 <= i < b.panes().len() && b.panes()[i] == id;
                assert(node.panes()[a.panes().len() + i] == id);
                assert(node.panes().contains(id));
            }
            lemma_layout_kept(*a, ids, k);
            lemma_layout_kept(*b, ids, k - a.panes().len());
            let x = leaves(node_taken(*a, ids));
            let y = leaves(node_taken(*b, ids));
            assert(leaves(node_taken(node, ids)) == x + y);
        },
    }
}

/// A document has the version of its schema, the version of the program, and the workspace's
/// name, icon, colour and active screen; its screens are the workspace's, in their order and under
/// their names.
pub proof fn law_export_keeps_names(state: State, ws: Workspace, version: Seq<char>, s: int)
    ensures
        ({
            let d = document_taken(state, ws, version);
            &&& d.schema_version == 1
            &&& d.cmux_version == version
            &&& d.workspace.name == ws.name@
            &&& d.workspace.icon == opt_text(ws.icon)
            &&& d.workspace.active_screen == ws.active_screen
            &&& match ws.color {
                Some(c) => d.workspace.color matches Some(text) && crate::tree::color_of(text) == Some(c),
                None => d.workspace.color is None,
            }
            &&& d.workspace.screens.len() == ws.screens.len()
            &&& 0 <= s < ws.screens.len() ==> d.workspace.screens[s].name == opt_text(
                ws.screens@[s].name,
            )
        }),
{
    if let Some(c) = ws.color {
        crate::tree::law_color_text(c);
    }
}

/// Whether a variable of a list is the one that counts: no later one has its name.
pub open spec fn counts(env: Seq<(String, String)>, i: int) -> bool {
    0 <= i < env.len() && forall|k: int|
        i < k < env.len() ==> (#[trigger] env[k]).0@ != env[i].0@
}

/// A pane of a document has the name and the active tab of the pane at its place in the layout,
/// and its tabs are that pane's, in their order: each with the name, the directory and the command
/// of the surface at its place, and with its variables but for the two sockets.
pub proof fn law_export_keeps_tabs(
    state: State,
    ws: Workspace,
    version: Seq<char>,
    s: int,
    k: int,
    t: int,
    i: int,
)
    requires
        0 <= s < ws.screens.len(),
        state.screen_ok(ws.screens@[s]),
        0 <= k < ws.screens@[s].root@.panes().len(),
    ensures
        ({
            let id = ws.screens@[s].root@.panes()[k];
            let taken = document_taken(state, ws, version).workspace.screens[s].panes[k];
            state.pane_of(id) matches Some(p) && {
                &&& taken.name == opt_text(p.name)
                &&& taken.active_tab == p.active_tab
                &&& taken.tabs.len() == p.tabs.len()
                &&& 0 <= t < p.tabs.len() ==> match state.surface_of(p.tabs@[t]) {
                    Some(surface) => {
                        let tab = taken.tabs[t];
                        &&& tab.name == opt_text(surface.name)
                        &&& tab.cwd == opt_text(surface.cwd)
                        &&& match surface.command {
                            Some(words) => tab.command matches Some(c) && c.len() == words.len()
                                && forall|n: int|
                                0 <= n < words.len() ==> #[trigger] c[n] == words@[n]@,
                            None => tab.command is None,
                        }
                        &&& !tab.env.dom().contains("CMUX_MUX_SOCKET"@)
                        &&& !tab.env.dom().contains("CMUX_SOCKET_PATH"@)
                        &&& counts(surface.env@, i) && surface.env@[i].0@ != "CMUX_MUX_SOCKET"@
                            && surface.env@[i].0@ != "CMUX_SOCKET_PATH"@ ==> {
                            &&& tab.env.dom().contains(surface.env@[i].0@)
                            &&& tab.env[surface.env@[i].0@] == surface.env@[i].1@
                        }
                        &&& forall|name: Seq<char>| #[trigger]
                            tab.env.dom().contains(name) ==> exists|n: int|
                                0 <= n < surface.env.len() && (#[trigger] surface.env@[n]).0@ == name
                    },
                    None => taken.tabs[t].name is None && taken.tabs[t].cwd is None
                        && taken.tabs[t].command is None && taken.tabs[t].env == Map::<
                        Seq<char>,
                        Seq<char>,
                    >::empty(),
                }
            }
        }),
{
    let screen = ws.screens@[s];
    let ids = screen.root@.panes();
    assert(ids.contains(ids[k]));
    assert(document_taken(state, ws, version).workspace.screens[s] == screen_taken(state, screen));
    let p = state.pane_of(ids[k])->0;
    assert(screen_taken(state, screen).panes[k] == pane_taken(state, p));
    if 0 <= t < p.tabs.len() {
        assert(pane_taken(state, p).tabs[t] == tab_taken(state.surface_of(p.tabs@[t])));
        if let Some(surface) = state.surface_of(p.tabs@[t]) {
            lemma_env_kept(surface.env@, "CMUX_MUX_SOCKET"@, i);
            lemma_env_kept(surface.env@, "CMUX_SOCKET_PATH"@, i);
            assert forall|name: Seq<char>| #[trigger]
                kept_env(surface.env@).dom().contains(name) implies exists|n: int|
                0 <= n < surface.env.len() && (#[trigger] surface.env@[n]).0@ == name by {
                lemma_env_kept(surface.env@, name, i);
            }
        }
    }
}

proof fn lemma_env_kept(env: Seq<(String, String)>, name: Seq<char>, i: int)
    ensures
        name == "CMUX_MUX_SOCKET"@ || name == "CMUX_SOCKET_PATH"@ ==> !kept_env(env).dom().contains(
            name,
        ),
        kept_env(env).dom().contains(name) ==> exists|n: int|
            0 <= n < env.len() && (#[trigger] env[n]).0@ == name,
        counts(env, i) && env[i].0@ != "CMUX_MUX_SOCKET"@ && env[i].0@ != "CMUX_SOCKET_PATH"@ ==> {
            &&& kept_env(env).dom().contains(env[i].0@)
            &&& kept_env(env)[env[i].0@] == env[i].1@
        },
    decreases env.len(),
{
    if env.len() > 0 {
        let front = env.drop_last();
        lemma_env_kept(front, name, i);
        if counts(env, i) && i < front.len() {
            assert(front[i] == env[i]);
            assert forall|k: int| i < k < front.len() implies (#[trigger] front[k]).0@ != front[i].0@ by {
                assert(env[k].0@ != env[i].0@);
            }
            assert(env[env.len() - 1].0@ != env[i].0@);
        }
        if kept_env(front).dom().contains(name) {
            let n = choose|n: int| 0 <= n < front.len() && (#[trigger] front[n]).0@ == name;
            assert(env[n].0@ == name);
        }
        assert(env[env.len() - 1].0@ == env.last().0@);
    }
}

/// Whether a value writes a layout: a leaf as the position of its pane, a split as its direction,
/// its ratio and its two parts.
pub open spec fn writes_node(j: JsonV, n: LayoutNodeV) -> bool
    decreases n,
{
    match n {
        LayoutNodeV::Leaf(pane) => {
            &&& j.field("type"@) == Some(JsonV::Text("leaf"@))
            &&& j.field("pane"@) == Some(unsigned(pane as u64))
        },
        LayoutNodeV::Split(dir, ratio, a, b) => {
            &&& j.field("type"@) == Some(JsonV::Text("split"@))
            &&& j.field("dir"@) == Some(
                JsonV::Text(
                    if dir == LayoutDir::Right {
                        "right"@
                    } else {
                        "down"@
                    },
                ),
            )
            &&& j.field("ratio"@) == Some(JsonV::Number(ratio))
            &&& j.field("a"@) matches Some(x) && writes_node(x, *a)
            &&& j.field("b"@) matches Some(y) && writes_node(y, *b)
        },
    }
}

pub open spec fn writes_tab(j: JsonV, t: LayoutTabV) -> bool {
    &&& j.field("kind"@) == Some(JsonV::Text("pty"@))
    &&& j.field("name"@) == Some(text_or_null(t.name))
    &&& j.field("cwd"@) == Some(text_or_null(t.cwd))
    &&& match t.command {
        Some(words) => j.field_items("command"@) matches Some(items) && items.len() == words.len()
            && forall|n: int|
            0 <= n < items.len() ==> #[trigger] items[n] == JsonV::Text(words[n]),
        None => j.field("command"@) == Some(JsonV::Null),
    }
    &&& j.field("env"@) matches Some(env) && env is Object && (t.env.dom().finite() ==> forall|
        name: Seq<char>,
    | #[trigger]
        env.field(name) == if t.env.dom().contains(name) {
            Some(JsonV::Text(t.env[name]))
        } else {
            None
        })
}

pub open spec fn writes_pane(j: JsonV, p: LayoutPaneV) -> bool {
    &&& j.field("name"@) == Some(text_or_null(p.name))
    &&& j.field("active_tab"@) == Some(unsigned(p.active_tab as u64))
    &&& j.field_items("tabs"@) matches Some(items) && items.len() == p.tabs.len() && forall|i: int|
        0 <= i < items.len() ==> writes_tab(#[trigger] items[i], p.tabs[i])
}

pub open spec fn writes_screen(j: JsonV, s: LayoutScreenV) -> bool {
    &&& j.field("name"@) == Some(text_or_null(s.name))
    &&& j.field("active_pane"@) == Some(unsigned(s.active_pane as u64))
    &&& j.field("layout"@) matches Some(l) && writes_node(l, s.layout)
    &&& j.field_items("panes"@) matches Some(items) && items.len() == s.panes.len()
        && forall|i: int| 0 <= i < items.len() ==> writes_pane(#[trigger] items[i], s.panes[i])
}

/// A document has each thing in the field of its name.
pub proof fn law_document_written(d: LayoutDocumentV)
    ensures
        ({
            let j = document_json(d);
            &&& j.field("schema_version"@) == Some(unsigned(d.schema_version))
            &&& j.field("cmux_version"@) == Some(JsonV::Text(d.cmux_version))
            &&& j.field("workspace"@) matches Some(w) && {
                &&& w.field("name"@) == Some(JsonV::Text(d.workspace.name))
                &&& w.field("color"@) == Some(text_or_null(d.workspace.color))
                &&& w.field("icon"@) == Some(text_or_null(d.workspace.icon))
                &&& w.field("active_screen"@) == Some(unsigned(d.workspace.active_screen as u64))
                &&& w.field_items("screens"@) matches Some(items) && items.len()
                    == d.workspace.screens.len() && forall|i: int|
                    0 <= i < items.len() ==> writes_screen(
                        #[trigger] items[i],
                        d.workspace.screens[i],
                    )
            }
        }),
{
    lemma_names_differ();
    let w = workspace_json(d.workspace);
    assert(document_json(d).field("workspace"@) == Some(w));
    let list = d.workspace.screens.map_values(|s: LayoutScreenV| screen_json(s));
    assert(w.field_items("screens"@) == Some(list));
    assert forall|i: int| 0 <= i < list.len() implies writes_screen(
        #[trigger] list[i],
        d.workspace.screens[i],
    ) by {
        let s = d.workspace.screens[i];
        let panes = s.panes.map_values(|p: LayoutPaneV| pane_json(p));
        assert(screen_json(s).field_items("panes"@) == Some(panes));
        assert forall|k: int| 0 <= k < panes.len() implies writes_pane(
            #[trigger] panes[k],
            s.panes[k],
        ) by {
            let p = s.panes[k];
            let tabs = p.tabs.map_values(|t: LayoutTabV| tab_json(t));
            assert(pane_json(p).field_items("tabs"@) == Some(tabs));
            assert forall|t: int| 0 <= t < tabs.len() implies writes_tab(
                #[trigger] tabs[t],
                p.tabs[t],
            ) by {
                lemma_tab_written(p.tabs[t]);
            }
        }
        lemma_node_written(s.layout);
        assert(screen_json(s).field("layout"@) == Some(node_json(s.layout)));
    }
}

proof fn lemma_tab_written(t: LayoutTabV)
    ensures
        writes_tab(tab_json(t), t),
{
    lemma_names_differ();
    let j = tab_json(t);
    assert(j.field("env"@) == Some(env_json(t.env)));
    assert(j.field("command"@) == Some(command_json(t.command)));
    let env = env_json(t.env);
    assert(env->Object_0.dom() =~= t.env.dom());
    if let Some(words) = t.command {
        let items = j.field_items("command"@)->0;
        assert(items =~= words.map_values(|w: Seq<char>| JsonV::Text(w)));
    }
}

proof fn lemma_node_written(n: LayoutNodeV)
    ensures
        writes_node(node_json(n), n),
    decreases n,
{
    lemma_names_differ();
    if let LayoutNodeV::Split(_, _, a, b) = n {
        lemma_node_written(*a);
        lemma_node_written(*b);
        assert(node_json(n).field("a"@) == Some(node_json(*a)));
        assert(node_json(n).field("b"@) == Some(node_json(*b)));
    }
}

/// What a document holds is what its fields say.
pub proof fn law_document_fields(
    d: LayoutDocument,
    s: LayoutScreen,
    p: LayoutPane,
    i: int,
)
    ensures
        d@.schema_version == d.schema_version && d@.cmux_version == d.cmux_version@,
        d@.workspace.name == d.workspace.name@,
        d@.workspace.color == opt_text(d.workspace.color),
        d@.workspace.icon == opt_text(d.workspace.icon),
        d@.workspace.active_screen == d.workspace.active_screen,
        d@.workspace.screens.len() == d.workspace.screens.len(),
        0 <= i < d.workspace.screens.len() ==> d@.workspace.screens[i] == d.workspace.screens@[i]@,
        s@.name == opt_text(s.name) && s@.active_pane == s.active_pane,
        s@.panes.len() == s.panes.len(),
        0 <= i < s.panes.len() ==> s@.panes[i] == s.panes@[i]@,
        s@.layout == s.layout@,
        match s.layout {
            LayoutNode::Leaf { pane } => s.layout@ == LayoutNodeV::Leaf(pane),
            LayoutNode::Split { dir, ratio, a, b } => s.layout@ == LayoutNodeV::Split(
                dir,
                number_of(ratio),
                Box::new(a@),
                Box::new(b@),
            ),
        },
        p@.name == opt_text(p.name) && p@.active_tab == p.active_tab,
        p@.tabs.len() == p.tabs.len(),
        0 <= i < p.tabs.len() ==> {
            let LayoutTab::Pty { name, cwd, command, env } = p.tabs@[i];
            &&& p@.tabs[i].name == opt_text(name)
            &&& p@.tabs[i].cwd == opt_text(cwd)
        },
{
}

} // verus!
