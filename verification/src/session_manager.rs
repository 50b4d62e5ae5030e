//! The session manager: every session in one column, the workspaces of the focused one in the
//! other.
//!
//! Keys are decided here; what they decide is carried out by the caller, who also fetches the
//! workspaces of other sessions.

use vstd::prelude::*;

use crate::input::{typed, InputEvent, KeyCode, KeyEvent, TextInput};
use crate::sessions::{sessions_view, DiscoveredSession, SessionV};
use crate::text::{
    contains, lowered, occurs, opt_text, owned, path_of, same, same_path, texts, to_lower, trim,
    trimmed, PathV,
};
use crate::tree::{TreeT, TreeView, WorkspaceT};

verus! {

/// The column that holds the cursor.
#[derive(Clone, Copy, Debug, PartialEq, Eq, Structural)]
pub enum Column {
    Left,
    Right,
}

/// What is known of the workspaces of a session.
#[derive(Debug)]
pub enum WorkspaceColumn {
    NotFetched,
    Loading,
    Ready(TreeView),
    Unreachable,
}

pub enum ColumnV {
    NotFetched,
    Loading,
    Ready(TreeT),
    Unreachable,
}

impl View for WorkspaceColumn {
    type V = ColumnV;

    open spec fn view(&self) -> ColumnV {
        match self {
            WorkspaceColumn::NotFetched => ColumnV::NotFetched,
            WorkspaceColumn::Loading => ColumnV::Loading,
            WorkspaceColumn::Ready(tree) => ColumnV::Ready(tree@),
            WorkspaceColumn::Unreachable => ColumnV::Unreachable,
        }
    }
}

/// What the keys go to: the list, the question whether a session is to be ended, or a new name.
#[derive(Debug)]
pub enum Mode {
    Browse,
    ConfirmKill { index: usize, name: String },
    Rename { socket_path: String, old_name: String, input: TextInput },
}

pub enum ModeV {
    Browse,
    ConfirmKill(usize, Seq<char>),
    Rename(Seq<char>, Seq<char>, Seq<char>),
}

impl View for Mode {
    type V = ModeV;

    open spec fn view(&self) -> ModeV {
        match self {
            Mode::Browse => ModeV::Browse,
            Mode::ConfirmKill { index, name } => ModeV::ConfirmKill(*index, name@),
            Mode::Rename { socket_path, old_name, input } => ModeV::Rename(
                socket_path@,
                old_name@,
                input@,
            ),
        }
    }
}

/// What is to be done after a key.
#[derive(Debug)]
pub enum SessionManagerAction {
    Nothing,
    Redraw,
    Close,
    KillSession(usize),
    RenameSession { socket: String, new_name: String },
    AttachSession { socket: String },
    FocusWorkspaceInPlace { index: usize },
    AttachOtherSessionWorkspace { socket: String, index: usize },
    SetStatus(String),
    Refresh,
}

pub enum ActionV {
    Nothing,
    Redraw,
    Close,
    KillSession(usize),
    RenameSession(Seq<char>, Seq<char>),
    AttachSession(Seq<char>),
    FocusWorkspaceInPlace(usize),
    AttachOtherSessionWorkspace(Seq<char>, usize),
    SetStatus(Seq<char>),
    Refresh,
}

impl View for SessionManagerAction {
    type V = ActionV;

    open spec fn view(&self) -> ActionV {
        match self {
            SessionManagerAction::Nothing => ActionV::Nothing,
            SessionManagerAction::Redraw => ActionV::Redraw,
            SessionManagerAction::Close => ActionV::Close,
            SessionManagerAction::KillSession(i) => ActionV::KillSession(*i),
            SessionManagerAction::RenameSession { socket, new_name } => ActionV::RenameSession(
                socket@,
                new_name@,
            ),
            SessionManagerAction::AttachSession { socket } => ActionV::AttachSession(socket@),
            SessionManagerAction::FocusWorkspaceInPlace { index } => ActionV::FocusWorkspaceInPlace(
                *index,
            ),
            SessionManagerAction::AttachOtherSessionWorkspace { socket, index } => {
                ActionV::AttachOtherSessionWorkspace(socket@, *index)
            },
            SessionManagerAction::SetStatus(s) => ActionV::SetStatus(s@),
            SessionManagerAction::Refresh => ActionV::Refresh,
        }
    }
}

#[derive(Debug)]
pub struct SessionManagerState {
    pub sessions: Vec<DiscoveredSession>,
    /// What is known of each session, by the path of its socket; of two entries for one the later
    /// counts.
    pub workspaces: Vec<(String, WorkspaceColumn)>,
    pub left_sel: usize,
    pub right_sel: usize,
    pub focus: Column,
    pub filter: Option<TextInput>,
    pub status: String,
    pub mode: Mode,
    /// The socket of the session that shows the manager.
    pub own_socket: String,
    pub pending_reattach: Option<String>,
}

/// What a `SessionManagerState` holds.
pub struct ManagerV {
    pub sessions: Seq<SessionV>,
    pub workspaces: Map<PathV, ColumnV>,
    pub left_sel: usize,
    pub right_sel: usize,
    pub focus: Column,
    pub filter: Option<Seq<char>>,
    pub status: Seq<char>,
    pub mode: ModeV,
    pub own_socket: Seq<char>,
    pub pending_reattach: Option<Seq<char>>,
}

/// What is known by socket, the later of two entries.
pub open spec fn columns_view(s: Seq<(String, WorkspaceColumn)>) -> Map<PathV, ColumnV>
    decreases s.len(),
{
    if s.len() == 0 {
        Map::empty()
    } else {
        columns_view(s.drop_last()).insert(path_of(s.last().0@), s.last().1@)
    }
}

impl View for SessionManagerState {
    type V = ManagerV;

    open spec fn view(&self) -> ManagerV {
        ManagerV {
            sessions: sessions_view(self.sessions@),
            workspaces: columns_view(self.workspaces@),
            left_sel: self.left_sel,
            right_sel: self.right_sel,
            focus: self.focus,
            filter: match self.filter {
                Some(f) => Some(f@),
                None => None,
            },
            status: self.status@,
            mode: self.mode@,
            own_socket: self.own_socket@,
            pending_reattach: opt_text(self.pending_reattach),
        }
    }
}

// ---- which sessions are shown -------------------------------------------------------------

/// Whether a session is shown for a query: its name or the title of one of its workspaces holds
/// the query, in either case. An empty query shows every session.
pub open spec fn shown_for(query: Seq<char>, session: Seq<char>, titles: Seq<Seq<char>>) -> bool {
    ||| query.len() == 0
    ||| occurs(lowered(session), lowered(query))
    ||| exists|i: int| 0 <= i < titles.len() && occurs(lowered(#[trigger] titles[i]), lowered(query))
}

pub fn passes_filter(query: &str, session: &str, ws_titles: &[String]) -> (r: bool)
    ensures
        r == shown_for(query@, session@, texts(ws_titles@)),
{
    if query.is_empty() {
        return true;
    }
    let needle: String = to_lower(query);
    if contains(to_lower(session).as_str(), needle.as_str()) {
        return true;
    }
    let mut i: usize = 0;
    while i < ws_titles.len()
        invariant
            i <= ws_titles.len(),
            needle@ == lowered(query@),
            forall|k: int|
                0 <= k < i ==> !occurs(lowered(#[trigger] texts(ws_titles@)[k]), lowered(query@)),
        decreases ws_titles.len() - i,
    {
        assert(texts(ws_titles@)[i as int] == ws_titles@[i as int]@);
        if contains(to_lower(ws_titles[i].as_str()).as_str(), needle.as_str()) {
            return true;
        }
        i = i + 1;
    }
    false
}

impl ManagerV {
    /// What is known of the session at a socket.
    pub open spec fn column(self, socket: Seq<char>) -> Option<ColumnV> {
        if self.workspaces.dom().contains(path_of(socket)) {
            Some(self.workspaces[path_of(socket)])
        } else {
            None
        }
    }

    /// The titles of the workspaces of the session at a socket, where they are known.
    pub open spec fn titles(self, socket: Seq<char>) -> Seq<Seq<char>> {
        match self.column(socket) {
            Some(ColumnV::Ready(tree)) => tree.workspaces.map_values(|w: WorkspaceT| w.name),
            _ => seq![],
        }
    }

    /// Whether the session at a position is shown.
    pub open spec fn shows(self, i: int) -> bool {
        match self.filter {
            None => true,
            Some(query) => shown_for(
                query,
                self.sessions[i].session,
                self.titles(self.sessions[i].socket_path),
            ),
        }
    }

    /// The positions of the sessions that are shown, among the first `n`.
    pub open spec fn shown_among(self, n: int) -> Seq<usize>
        decreases n,
    {
        if n <= 0 {
            seq![]
        } else if self.shows(n - 1) {
            self.shown_among(n - 1).push((n - 1) as usize)
        } else {
            self.shown_among(n - 1)
        }
    }

    /// The positions of the sessions that are shown.
    pub open spec fn shown(self) -> Seq<usize> {
        self.shown_among(self.sessions.len() as int)
    }

    /// The first session that is shown.
    pub open spec fn first_shown(self) -> usize {
        if self.shown().len() > 0 {
            self.shown()[0]
        } else {
            0
        }
    }

    /// The session under the cursor.
    pub open spec fn focused(self) -> Option<SessionV> {
        if self.left_sel < self.sessions.len() {
            Some(self.sessions[self.left_sel as int])
        } else {
            None
        }
    }

    /// The workspaces of the session under the cursor, where they are known.
    pub open spec fn focused_tree(self) -> Option<TreeT> {
        match self.focused() {
            Some(s) => match self.column(s.socket_path) {
                Some(ColumnV::Ready(tree)) => Some(tree),
                _ => None,
            },
            None => None,
        }
    }
}

// ---- what keys do -------------------------------------------------------------------------

/// Enter in the left column: attach to the session, if it is live and another one.
pub open spec fn left_entered(m: ManagerV) -> ActionV {
    match m.focused() {
        None => ActionV::Nothing,
        Some(s) => if !s.live {
            ActionV::SetStatus(
                s.session + " is unreachable (socket not connectable) \u{2014} cannot attach"@,
            )
        } else if path_of(s.socket_path) == path_of(m.own_socket) {
            ActionV::SetStatus("already attached to this session"@)
        } else {
            ActionV::AttachSession(s.socket_path)
        },
    }
}

/// Enter in the right column: go to the workspace, in this session or in the other.
pub open spec fn right_entered(m: ManagerV) -> ActionV {
    match m.focused() {
        None => ActionV::Nothing,
        Some(s) => if path_of(s.socket_path) == path_of(m.own_socket) {
            ActionV::FocusWorkspaceInPlace(m.right_sel)
        } else {
            ActionV::AttachOtherSessionWorkspace(s.socket_path, m.right_sel)
        },
    }
}

/// The cursor one row further among the sessions that are shown, or where it is.
pub open spec fn moved(m: ManagerV, down: bool) -> ManagerV {
    let shown = m.shown();
    if shown.len() == 0 {
        m
    } else {
        let pos = if shown.contains(m.left_sel) {
            shown.index_of_first(m.left_sel)->0
        } else {
            0
        };
        let next = if down {
            pos + 1
        } else if pos > 0 {
            pos - 1
        } else {
            0
        };
        if next >= shown.len() || shown[next] == m.left_sel {
            m
        } else {
            ManagerV { left_sel: shown[next], right_sel: 0, focus: Column::Left, ..m }
        }
    }
}

/// The question whether the session under the cursor is to be ended.
pub open spec fn kill_asked(m: ManagerV) -> (ManagerV, ActionV) {
    match m.focused() {
        None => (m, ActionV::Nothing),
        Some(s) => (
            ManagerV { mode: ModeV::ConfirmKill(m.left_sel, s.session), ..m },
            ActionV::Redraw,
        ),
    }
}

/// A new name for the session under the cursor, which has to be live; its name is there to be
/// changed.
pub open spec fn rename_started(m: ManagerV) -> (ManagerV, ActionV) {
    match m.focused() {
        None => (m, ActionV::Nothing),
        Some(s) => if !s.live {
            (m, ActionV::SetStatus("no live session focused to rename"@))
        } else {
            (
                ManagerV { mode: ModeV::Rename(s.socket_path, s.session, s.session), ..m },
                ActionV::Redraw,
            )
        },
    }
}

/// A key in the list, with no filter.
pub open spec fn list_key(m: ManagerV, key: KeyEvent) -> (ManagerV, ActionV) {
    match key.code {
        KeyCode::Esc => (m, ActionV::Close),
        KeyCode::Down => (moved(m, true), ActionV::Redraw),
        KeyCode::Up => (moved(m, false), ActionV::Redraw),
        KeyCode::Tab | KeyCode::Right => to_right(m),
        KeyCode::Left => (ManagerV { focus: Column::Left, ..m }, ActionV::Redraw),
        KeyCode::Enter => (
            m,
            if m.focus == Column::Right {
                right_entered(m)
            } else {
                left_entered(m)
            },
        ),
        KeyCode::Char(c) => if c == 'q' {
            (m, ActionV::Close)
        } else if c == 'j' {
            (moved(m, true), ActionV::Redraw)
        } else if c == 'k' {
            (moved(m, false), ActionV::Redraw)
        } else if c == 'l' {
            to_right(m)
        } else if c == 'h' {
            (ManagerV { focus: Column::Left, ..m }, ActionV::Redraw)
        } else if c == 'R' {
            (m, ActionV::Refresh)
        } else if c == '/' {
            (ManagerV { filter: Some(seq![]), ..m }, ActionV::Redraw)
        } else if c == 'r' {
            rename_started(m)
        } else if c == 'x' || c == 'K' {
            kill_asked(m)
        } else {
            (m, ActionV::Nothing)
        },
        _ => (m, ActionV::Nothing),
    }
}

/// The cursor in the right column, if there is anything in it.
pub open spec fn to_right(m: ManagerV) -> (ManagerV, ActionV) {
    if m.focused_tree() is Some {
        (ManagerV { focus: Column::Right, ..m }, ActionV::Redraw)
    } else {
        (m, ActionV::Nothing)
    }
}

/// A key in the list: with a filter it changes the query, and Esc takes the filter away; the
/// cursor goes to the first session that is shown where it would stand on none of them.
pub open spec fn browsed(m: ManagerV, key: KeyEvent) -> (ManagerV, ActionV) {
    match m.filter {
        None => list_key(m, key),
        Some(query) => match key.code {
            KeyCode::Esc => {
                let open = ManagerV { filter: None, ..m };
                (ManagerV { left_sel: open.first_shown(), ..open }, ActionV::Redraw)
            },
            KeyCode::Enter => (m, left_entered(m)),
            _ => {
                let now = ManagerV { filter: Some(typed(query, key).0), ..m };
                if now.shown().contains(now.left_sel) {
                    (now, ActionV::Redraw)
                } else {
                    (
                        ManagerV { left_sel: now.first_shown(), right_sel: 0, ..now },
                        ActionV::Redraw,
                    )
                }
            },
        },
    }
}

/// What a key does to the manager, and what it asks for.
pub open spec fn keyed(m: ManagerV, key: KeyEvent) -> (ManagerV, ActionV) {
    if key.ctrl && key.code == KeyCode::Char('c') {
        (m, ActionV::Close)
    } else {
        match m.mode {
            ModeV::ConfirmKill(index, name) => if key.code == KeyCode::Char('y') || key.code
                == KeyCode::Char('Y') {
                (
                    ManagerV { mode: ModeV::Browse, status: "killed "@ + name, ..m },
                    ActionV::KillSession(index),
                )
            } else {
                (ManagerV { mode: ModeV::Browse, ..m }, ActionV::Redraw)
            },
            ModeV::Rename(socket, old_name, input) => {
                let (text, event) = typed(input, key);
                match event {
                    InputEvent::Commit => {
                        let new_name = trimmed(text);
                        if new_name.len() == 0 {
                            (
                                ManagerV {
                                    mode: ModeV::Browse,
                                    status: "session name cannot be empty"@,
                                    ..m
                                },
                                ActionV::Redraw,
                            )
                        } else if new_name == old_name {
                            (
                                ManagerV {
                                    mode: ModeV::Browse,
                                    status: "unchanged ("@ + old_name + ")"@,
                                    ..m
                                },
                                ActionV::Redraw,
                            )
                        } else {
                            (
                                ManagerV { mode: ModeV::Browse, ..m },
                                ActionV::RenameSession(socket, new_name),
                            )
                        }
                    },
                    InputEvent::Cancel => (
                        ManagerV { mode: ModeV::Browse, ..m },
                        ActionV::Redraw,
                    ),
                    _ => (
                        ManagerV { mode: ModeV::Rename(socket, old_name, text), ..m },
                        ActionV::Redraw,
                    ),
                }
            },
            ModeV::Browse => browsed(m, key),
        }
    }
}

impl SessionManagerState {
    pub fn new(own_socket: String, sessions: Vec<DiscoveredSession>) -> (r: SessionManagerState)
        ensures
            r@ == (ManagerV {
                sessions: sessions_view(sessions@),
                workspaces: Map::empty(),
                left_sel: 0,
                right_sel: 0,
                focus: Column::Left,
                filter: None,
                status: seq![],
                mode: ModeV::Browse,
                own_socket: own_socket@,
                pending_reattach: None,
            }),
    {
        SessionManagerState {
            sessions,
            workspaces: Vec::new(),
            left_sel: 0,
            right_sel: 0,
            focus: Column::Left,
            filter: None,
            status: String::new(),
            mode: Mode::Browse,
            own_socket,
            pending_reattach: None,
        }
    }

    fn column(&self, socket: &str) -> (r: Option<&WorkspaceColumn>)
        ensures
            match r {
                Some(c) => self@.column(socket@) == Some(c@),
                None => self@.column(socket@) is None,
            },
    {
        let mut i: usize = self.workspaces.len();
        let ghost all = columns_view(self.workspaces@);
        assert(self.workspaces@.take(i as int) =~= self.workspaces@);
        while i > 0
            invariant
                i <= self.workspaces.len(),
                all == columns_view(self.workspaces@),
                all.dom().contains(path_of(socket@)) == columns_view(
                    self.workspaces@.take(i as int),
                ).dom().contains(path_of(socket@)),
                columns_view(self.workspaces@.take(i as int)).dom().contains(path_of(socket@))
                    ==> all[path_of(socket@)] == columns_view(
                    self.workspaces@.take(i as int),
                )[path_of(socket@)],
            decreases i,
        {
            proof {
                assert(self.workspaces@.take(i as int).drop_last() =~= self.workspaces@.take(i - 1));
            }
            i = i - 1;
            if same_path(self.workspaces[i].0.as_str(), socket) {
                return Some(&self.workspaces[i].1);
            }
        }
        None
    }

    fn workspace_titles(&self, socket: &str) -> (out: Vec<String>)
        ensures
            texts(out@) == self@.titles(socket@),
    {
        let mut out: Vec<String> = Vec::new();
        if let Some(WorkspaceColumn::Ready(tree)) = self.column(socket) {
            let ghost names = tree@.workspaces.map_values(|w: WorkspaceT| w.name);
            let mut i: usize = 0;
            assert(texts(out@) =~= names.take(0));
            while i < tree.workspaces.len()
                invariant
                    i <= tree.workspaces.len(),
                    names == tree@.workspaces.map_values(|w: WorkspaceT| w.name),
                    texts(out@) == names.take(i as int),
                decreases tree.workspaces.len() - i,
            {
                let ghost before = out@;
                let name: String = owned(tree.workspaces[i].name.as_str());
                out.push(name);
                i = i + 1;
                assert(texts(out@) =~= texts(before).push(name@));
                assert(texts(out@) =~= names.take(i as int));
            }
            assert(names.take(names.len() as int) =~= names);
        } else {
            assert(texts(out@) =~= seq![]);
        }
        out
    }

    /// The positions of the sessions that are shown.
    pub fn filtered_sessions(&self) -> (out: Vec<usize>)
        ensures
            out@ == self@.shown(),
    {
        let mut out: Vec<usize> = Vec::new();
        let mut i: usize = 0;
        while i < self.sessions.len()
            invariant
                i <= self.sessions.len(),
                out@ == self@.shown_among(i as int),
            decreases self.sessions.len() - i,
        {
            let s: &DiscoveredSession = &self.sessions[i];
            assert(self@.sessions[i as int] == s@);
            let keep: bool = match &self.filter {
                None => true,
                Some(f) => {
                    let titles: Vec<String> = self.workspace_titles(s.socket_path.as_str());
                    passes_filter(f.as_str(), s.session.as_str(), titles.as_slice())
                },
            };
            if keep {
                out.push(i);
            }
            i = i + 1;
        }
        out
    }

    /// The session under the cursor.
    pub fn focused_session(&self) -> (r: Option<&DiscoveredSession>)
        ensures
            match r {
                Some(s) => self@.focused() == Some(s@),
                None => self@.focused() is None,
            },
    {
        if self.left_sel < self.sessions.len() {
            assert(self@.sessions[self.left_sel as int] == self.sessions@[self.left_sel as int]@);
            Some(&self.sessions[self.left_sel])
        } else {
            None
        }
    }

    /// The workspaces of the session under the cursor, where they are known.
    pub fn focused_workspaces(&self) -> (r: Option<&TreeView>)
        ensures
            match r {
                Some(t) => self@.focused_tree() == Some(t@),
                None => self@.focused_tree() is None,
            },
    {
        match self.focused_session() {
            None => None,
            Some(s) => match self.column(s.socket_path.as_str()) {
                Some(WorkspaceColumn::Ready(tree)) => Some(tree),
                _ => None,
            },
        }
    }

    fn first_visible(&self) -> (r: usize)
        ensures
            r == self@.first_shown(),
    {
        let visible: Vec<usize> = self.filtered_sessions();
        if visible.len() > 0 {
            visible[0]
        } else {
            0
        }
    }

    /// What a key does.
    pub fn handle_key(&mut self, key: KeyEvent) -> (r: SessionManagerAction)
        ensures
            (final(self)@, r@) == keyed(old(self)@, key),
    {
        if key.ctrl && key.code == KeyCode::Char('c') {
            return SessionManagerAction::Close;
        }
        match &self.mode {
            Mode::ConfirmKill { index, name } => {
                if key.code == KeyCode::Char('y') || key.code == KeyCode::Char('Y') {
                    let i: usize = *index;
                    let mut status: String = "killed ".to_string();
                    status.append(name.as_str());
                    self.mode = Mode::Browse;
                    self.status = status;
                    SessionManagerAction::KillSession(i)
                } else {
                    self.mode = Mode::Browse;
                    SessionManagerAction::Redraw
                }
            },
            Mode::Rename { socket_path, old_name, input } => {
                let socket: String = owned(socket_path.as_str());
                let old_name: String = owned(old_name.as_str());
                let mut input: TextInput = input.copy();
                match input.handle_key(key) {
                    InputEvent::Commit => {
                        let new_name: String = trim(input.as_str());
                        self.mode = Mode::Browse;
                        if new_name.as_str().is_empty() {
                            self.status = "session name cannot be empty".to_string();
                            return SessionManagerAction::Redraw;
                        }
                        if same(new_name.as_str(), old_name.as_str()) {
                            let mut status: String = "unchanged (".to_string();
                            status.append(old_name.as_str());
                            status.append(")");
                            self.status = status;
                            return SessionManagerAction::Redraw;
                        }
                        SessionManagerAction::RenameSession { socket, new_name }
                    },
                    InputEvent::Cancel => {
                        self.mode = Mode::Browse;
                        SessionManagerAction::Redraw
                    },
                    _ => {
                        self.mode = Mode::Rename { socket_path: socket, old_name, input };
                        SessionManagerAction::Redraw
                    },
                }
            },
            Mode::Browse => self.browse_key(key),
        }
    }

    fn browse_key(&mut self, key: KeyEvent) -> (r: SessionManagerAction)
        ensures
            (final(self)@, r@) == browsed(old(self)@, key),
    {
        match &self.filter {
            None => self.unfiltered_browse_key(key),
            Some(f) => {
                match key.code {
                    KeyCode::Esc => {
                        self.filter = None;
                        self.left_sel = self.first_visible();
                        SessionManagerAction::Redraw
                    },
                    KeyCode::Enter => self.left_enter(),
                    _ => {
                        let mut input: TextInput = f.copy();
                        input.handle_key(key);
                        self.filter = Some(input);
                        let visible: Vec<usize> = self.filtered_sessions();
                        if !has_position(&visible, self.left_sel) {
                            self.left_sel = self.first_visible();
                            self.right_sel = 0;
                        }
                        SessionManagerAction::Redraw
                    },
                }
            },
        }
    }

    fn to_right_column(&mut self) -> (r: SessionManagerAction)
        ensures
            (final(self)@, r@) == to_right(old(self)@),
    {
        if self.focused_workspaces().is_some() {
            self.focus = Column::Right;
            SessionManagerAction::Redraw
        } else {
            SessionManagerAction::Nothing
        }
    }

    fn unfiltered_browse_key(&mut self, key: KeyEvent) -> (r: SessionManagerAction)
        ensures
            (final(self)@, r@) == list_key(old(self)@, key),
    {
        match key.code {
            KeyCode::Esc => SessionManagerAction::Close,
            KeyCode::Down => {
                self.move_left(true);
                SessionManagerAction::Redraw
            },
            KeyCode::Up => {
                self.move_left(false);
                SessionManagerAction::Redraw
            },
            KeyCode::Tab | KeyCode::Right => self.to_right_column(),
            KeyCode::Left => {
                self.focus = Column::Left;
                SessionManagerAction::Redraw
            },
            KeyCode::Enter => {
                if self.focus == Column::Right {
                    self.right_enter()
                } else {
                    self.left_enter()
                }
            },
            KeyCode::Char(c) => {
                if c == 'q' {
                    SessionManagerAction::Close
                } else if c == 'j' {
                    self.move_left(true);
                    SessionManagerAction::Redraw
                } else if c == 'k' {
                    self.move_left(false);
                    SessionManagerAction::Redraw
                } else if c == 'l' {
                    self.to_right_column()
                } else if c == 'h' {
                    self.focus = Column::Left;
                    SessionManagerAction::Redraw
                } else if c == 'R' {
                    SessionManagerAction::Refresh
                } else if c == '/' {
                    self.filter = Some(TextInput::new(String::new()));
                    SessionManagerAction::Redraw
                } else if c == 'r' {
                    self.start_rename()
                } else if c == 'x' || c == 'K' {
                    self.start_kill()
                } else {
                    SessionManagerAction::Nothing
                }
            },
            _ => SessionManagerAction::Nothing,
        }
    }

    fn left_enter(&self) -> (r: SessionManagerAction)
        ensures
            r@ == left_entered(self@),
    {
        match self.focused_session() {
            None => SessionManagerAction::Nothing,
            Some(s) => {
                if !s.live {
                    let mut status: String = owned(s.session.as_str());
                    status.append(
                        " is unreachable (socket not connectable) \u{2014} cannot attach",
                    );
                    SessionManagerAction::SetStatus(status)
                } else if same_path(s.socket_path.as_str(), self.own_socket.as_str()) {
                    SessionManagerAction::SetStatus("already attached to this session".to_string())
                } else {
                    SessionManagerAction::AttachSession { socket: owned(s.socket_path.as_str()) }
                }
            },
        }
    }

    fn right_enter(&self) -> (r: SessionManagerAction)
        ensures
            r@ == right_entered(self@),
    {
        match self.focused_session() {
            None => SessionManagerAction::Nothing,
            Some(s) => {
                if same_path(s.socket_path.as_str(), self.own_socket.as_str()) {
                    SessionManagerAction::FocusWorkspaceInPlace { index: self.right_sel }
                } else {
                    SessionManagerAction::AttachOtherSessionWorkspace {
                        socket: owned(s.socket_path.as_str()),
                        index: self.right_sel,
                    }
                }
            },
        }
    }

    fn start_rename(&mut self) -> (r: SessionManagerAction)
        ensures
            (final(self)@, r@) == rename_started(old(self)@),
    {
        let mode: Mode = match self.focused_session() {
            None => {
                return SessionManagerAction::Nothing;
            },
            Some(s) => {
                if !s.live {
                    return SessionManagerAction::SetStatus(
                        "no live session focused to rename".to_string(),
                    );
                }
                Mode::Rename {
                    socket_path: owned(s.socket_path.as_str()),
                    old_name: owned(s.session.as_str()),
                    input: TextInput::new(owned(s.session.as_str())),
                }
            },
        };
        self.mode = mode;
        SessionManagerAction::Redraw
    }

    fn start_kill(&mut self) -> (r: SessionManagerAction)
        ensures
            (final(self)@, r@) == kill_asked(old(self)@),
    {
        let name: String = match self.focused_session() {
            None => {
                return SessionManagerAction::Nothing;
            },
            Some(s) => owned(s.session.as_str()),
        };
        self.mode = Mode::ConfirmKill { index: self.left_sel, name };
        SessionManagerAction::Redraw
    }

    fn move_left(&mut self, down: bool)
        ensures
            final(self)@ == moved(old(self)@, down),
    {
        let visible: Vec<usize> = self.filtered_sessions();
        if visible.len() == 0 {
            return ;
        }
        let pos: usize = position_or_first(&visible, self.left_sel);
        let next: usize = if down {
            pos + 1
        } else if pos > 0 {
            pos - 1
        } else {
            0
        };
        if next >= visible.len() {
            return ;
        }
        if visible[next] != self.left_sel {
            self.left_sel = visible[next];
            self.right_sel = 0;
            self.focus = Column::Left;
        }
    }

    /// The sockets whose workspaces are to be fetched next; each is marked as being fetched.
    pub fn fetch_requests(&mut self) -> (out: Vec<String>)
        ensures
            (final(self)@, texts(out@)) == fetched(old(self)@),
    {
        let targets: Vec<usize> = prefetch_targets(self.left_sel, 1, self.sessions.len());
        let ghost start = self@;
        let mut out: Vec<String> = Vec::new();
        let mut i: usize = 0;
        assert(texts(out@) =~= seq![]);
        while i < targets.len()
            invariant
                i <= targets.len(),
                targets@ == prefetched(start.left_sel, 1, start.sessions.len()),
                self@.sessions == start.sessions,
                (self@, texts(out@)) == fetched_for(start, targets@, i as int),
            decreases targets.len() - i,
        {
            assert(targets@[i as int] < start.sessions.len());
            let t: usize = targets[i];
            assert(self@.sessions.len() == self.sessions.len());
            assert(self@.sessions[t as int] == self.sessions@[t as int]@);
            let socket: String = owned(self.sessions[t].socket_path.as_str());
            let needs: bool = match self.column(socket.as_str()) {
                None => true,
                Some(WorkspaceColumn::NotFetched) => true,
                _ => false,
            };
            if needs {
                let ghost before = out@;
                self.set_workspaces(owned(socket.as_str()), WorkspaceColumn::Loading);
                out.push(socket);
                assert(texts(out@) =~= texts(before).push(socket@));
            }
            i = i + 1;
        }
        out
    }

    pub fn take_reattach_target(&mut self) -> (r: Option<String>)
        ensures
            opt_text(r) == old(self)@.pending_reattach,
            final(self)@ == (ManagerV { pending_reattach: None, ..old(self)@ }),
    {
        let r: Option<String> = match &self.pending_reattach {
            Some(s) => Some(owned(s.as_str())),
            None => None,
        };
        self.pending_reattach = None;
        r
    }

    /// Takes down what is known of a session.
    pub fn set_workspaces(&mut self, socket: String, column: WorkspaceColumn)
        ensures
            final(self)@ == (ManagerV {
                workspaces: old(self)@.workspaces.insert(path_of(socket@), column@),
                ..old(self)@
            }),
    {
        let ghost before = self.workspaces@;
        self.workspaces.push((socket, column));
        assert(self.workspaces@.drop_last() =~= before);
    }
}

fn has_position(list: &Vec<usize>, p: usize) -> (r: bool)
    ensures
        r == list@.contains(p),
{
    let mut i: usize = 0;
    while i < list.len()
        invariant
            i <= list.len(),
            forall|k: int| 0 <= k < i ==> list@[k] != p,
        decreases list.len() - i,
    {
        if list[i] == p {
            return true;
        }
        i = i + 1;
    }
    false
}

fn position_or_first(list: &Vec<usize>, p: usize) -> (r: usize)
    requires
        list.len() > 0,
    ensures
        r < list.len(),
        r == if list@.contains(p) {
            list@.index_of_first(p)->0
        } else {
            0
        },
{
    let mut i: usize = 0;
    while i < list.len()
        invariant
            i <= list.len(),
            list.len() > 0,
            forall|k: int| 0 <= k < i ==> list@[k] != p,
        decreases list.len() - i,
    {
        if list[i] == p {
            proof {
                list@.index_of_first_ensures(p);
            }
            return i;
        }
        i = i + 1;
    }
    0
}

// ---- fetching -----------------------------------------------------------------------------

/// The rows from the cursor on, and as many behind it as are looked ahead, within the list.
pub open spec fn prefetched(left_sel: usize, lookahead: usize, len: nat) -> Seq<usize> {
    if left_sel >= len {
        seq![]
    } else {
        let n = if lookahead + 1 < len - left_sel {
            lookahead + 1
        } else {
            len - left_sel
        };
        Seq::new(n as nat, |i: int| (left_sel + i) as usize)
    }
}

pub fn prefetch_targets(left_sel: usize, lookahead: usize, len: usize) -> (out: Vec<usize>)
    ensures
        out@ == prefetched(left_sel, lookahead, len as nat),
{
    let mut out: Vec<usize> = Vec::new();
    if left_sel >= len {
        assert(out@ =~= seq![]);
        return out;
    }
    let n: usize = if lookahead < len - left_sel {
        lookahead + 1
    } else {
        len - left_sel
    };
    let ghost want = prefetched(left_sel, lookahead, len as nat);
    let mut i: usize = 0;
    while i < n
        invariant
            i <= n,
            n <= len - left_sel,
            want.len() == n,
            want == prefetched(left_sel, lookahead, len as nat),
            left_sel < len,
            out@ == want.take(i as int),
        decreases n - i,
    {
        out.push(left_sel + i);
        i = i + 1;
        assert(out@ =~= want.take(i as int));
    }
    assert(want.take(want.len() as int) =~= want);
    out
}

/// The manager after the first `n` targets were looked at, and the sockets that are fetched.
pub open spec fn fetched_for(m: ManagerV, targets: Seq<usize>, n: int) -> (
    ManagerV,
    Seq<Seq<char>>,
)
    decreases n,
{
    if n <= 0 {
        (m, seq![])
    } else {
        let (now, out) = fetched_for(m, targets, n - 1);
        let socket = now.sessions[targets[n - 1] as int].socket_path;
        if now.column(socket) is None || now.column(socket) == Some(ColumnV::NotFetched) {
            (
                ManagerV {
                    workspaces: now.workspaces.insert(path_of(socket), ColumnV::Loading),
                    ..now
                },
                out.push(socket),
            )
        } else {
            (now, out)
        }
    }
}

/// The manager after it said what to fetch, and the sockets.
pub open spec fn fetched(m: ManagerV) -> (ManagerV, Seq<Seq<char>>) {
    let targets = prefetched(m.left_sel, 1, m.sessions.len());
    fetched_for(m, targets, targets.len() as int)
}

/// No socket is fetched twice: what is asked for once is not asked for again, and the sockets
/// that are asked for at once differ.
pub proof fn law_fetched_once(m: ManagerV)
    ensures
        fetched(m).1.no_duplicates(),
        fetched(fetched(m).0).1 == Seq::<Seq<char>>::empty(),
{
    let targets = prefetched(m.left_sel, 1, m.sessions.len());
    lemma_fetched(m, targets, targets.len() as int);
    let now = fetched(m).0;
    lemma_nothing_left(now, targets, targets.len() as int);
}

proof fn lemma_fetched(m: ManagerV, targets: Seq<usize>, n: int)
    requires
        0 <= n <= targets.len(),
    ensures
        ({
            let (now, out) = fetched_for(m, targets, n);
            &&& now.sessions == m.sessions
            &&& now.left_sel == m.left_sel
            &&& out.no_duplicates()
            &&& forall|s: Seq<char>| #[trigger]
                out.contains(s) ==> now.column(s) == Some(ColumnV::Loading)
            &&& forall|i: int|
                0 <= i < n ==> {
                    let c = now.column(m.sessions[#[trigger] targets[i] as int].socket_path);
                    c is Some && c != Some(ColumnV::NotFetched)
                }
        }),
    decreases n,
{
    if n > 0 {
        lemma_fetched(m, targets, n - 1);
        let (before, list) = fetched_for(m, targets, n - 1);
        let (now, out) = fetched_for(m, targets, n);
        let socket = before.sessions[targets[n - 1] as int].socket_path;
        if before.column(socket) is None || before.column(socket) == Some(ColumnV::NotFetched) {
            assert(!list.contains(socket));
            assert forall|s: Seq<char>| #[trigger] out.contains(s) implies now.column(s) == Some(
                ColumnV::Loading,
            ) by {
                let k = choose|k: int| 0 <= k < out.len() && out[k] == s;
                if k < list.len() {
                    assert(list[k] == s);
                    assert(list.contains(s));
                }
            }
            assert forall|a: int, b: int|
                0 <= a < out.len() && 0 <= b < out.len() && a != b implies out[a] != out[b] by {
                if a < list.len() && b < list.len() {
                    assert(list[a] != list[b]);
                } else if a < list.len() {
                    assert(list.contains(list[a]));
                } else if b < list.len() {
                    assert(list.contains(list[b]));
                }
            }
        }
    }
}

proof fn lemma_nothing_left(m: ManagerV, targets: Seq<usize>, n: int)
    requires
        0 <= n <= targets.len(),
        forall|i: int|
            0 <= i < targets.len() ==> {
                let c = m.column(m.sessions[#[trigger] targets[i] as int].socket_path);
                c is Some && c != Some(ColumnV::NotFetched)
            },
    ensures
        fetched_for(m, targets, n) == (m, Seq::<Seq<char>>::empty()),
    decreases n,
{
    if n > 0 {
        lemma_nothing_left(m, targets, n - 1);
        assert(targets[n - 1] == targets[n - 1]);
    }
}

/// The session whose socket this is, by its position from `from` on.
pub open spec fn session_at(list: Seq<SessionV>, socket: Seq<char>, from: int) -> Option<int>
    decreases list.len() - from,
{
    if from < 0 || from >= list.len() {
        None
    } else if path_of(list[from].socket_path) == path_of(socket) {
        Some(from)
    } else {
        session_at(list, socket, from + 1)
    }
}

/// The position of the session that shows the manager.
pub fn current_index(sessions: &[DiscoveredSession], own: &str) -> (r: Option<usize>)
    ensures
        match r {
            Some(i) => session_at(sessions_view(sessions@), own@, 0) == Some(i as int),
            None => session_at(sessions_view(sessions@), own@, 0) is None,
        },
{
    let mut i: usize = 0;
    while i < sessions.len()
        invariant
            i <= sessions.len(),
            session_at(sessions_view(sessions@), own@, 0) == session_at(
                sessions_view(sessions@),
                own@,
                i as int,
            ),
        decreases sessions.len() - i,
    {
        assert(sessions_view(sessions@)[i as int] == sessions@[i as int]@);
        if same_path(sessions[i].socket_path.as_str(), own) {
            return Some(i);
        }
        i = i + 1;
    }
    None
}

/// After a key in the list with a filter, the cursor stands on a session that is shown, if one
/// is shown.
pub proof fn law_cursor_shown(m: ManagerV, key: KeyEvent)
    requires
        m.mode is Browse,
        m.filter is Some,
        key.code != KeyCode::Enter,
        !(key.ctrl && key.code == KeyCode::Char('c')),
        m.sessions.len() <= usize::MAX,
    ensures
        ({
            let now = keyed(m, key).0;
            now.shown().len() > 0 ==> now.shown().contains(now.left_sel)
        }),
{
    let now = keyed(m, key).0;
    let typed_into = match m.filter {
        Some(query) => ManagerV { filter: Some(typed(query, key).0), ..m },
        None => m,
    };
    let opened = ManagerV { filter: None, ..m };
    lemma_shown_same(now, typed_into);
    lemma_shown_same(now, opened);
    if now.shown().len() > 0 {
        assert(now.shown()[0] == now.shown()[0]);
        assert(now.shown().contains(now.shown()[0]));
    }
}

/// Which sessions are shown does not depend on the cursor.
proof fn lemma_shown_same(a: ManagerV, b: ManagerV)
    ensures
        a.sessions == b.sessions && a.workspaces == b.workspaces && a.filter == b.filter
            ==> a.shown() == b.shown(),
{
    if a.sessions == b.sessions && a.workspaces == b.workspaces && a.filter == b.filter {
        lemma_shown_among_same(a, b, a.sessions.len() as int);
    }
}

proof fn lemma_shown_among_same(a: ManagerV, b: ManagerV, n: int)
    requires
        a.sessions == b.sessions,
        a.workspaces == b.workspaces,
        a.filter == b.filter,
    ensures
        a.shown_among(n) == b.shown_among(n),
    decreases n,
{
    if n > 0 {
        lemma_shown_among_same(a, b, n - 1);
    }
}

/// A session that does not answer is never attached to, and the own one neither: Enter says so
/// instead.
pub proof fn law_attach_only_live(m: ManagerV, key: KeyEvent)
    ensures
        keyed(m, key).1 matches ActionV::AttachSession(socket) ==> {
            &&& m.focused() is Some
            &&& m.focused()->0.live
            &&& m.focused()->0.socket_path == socket
            &&& path_of(socket) != path_of(m.own_socket)
        },
{
}

/// Which sessions are shown: the positions of all for which the filter holds, each once, in the
/// order of the sessions. Without a filter that is every session; with one, a session whose name
/// or the title of one of whose workspaces is the query is among them.
pub proof fn law_shown(m: ManagerV, i: int, w: int)
    requires
        m.sessions.len() <= usize::MAX,
        0 <= i < m.sessions.len(),
    ensures
        forall|a: int, b: int| 0 <= a < b < m.shown().len() ==> m.shown()[a] < m.shown()[b],
        forall|a: int| 0 <= a < m.shown().len() ==> #[trigger] m.shown()[a] < m.sessions.len(),
        m.shown().contains(i as usize) <==> m.shows(i),
        m.filter is None ==> m.shown().len() == m.sessions.len() && m.shown()[i] == i,
        m.filter == Some(Seq::<char>::empty()) ==> m.shown().contains(i as usize),
        m.filter == Some(m.sessions[i].session) ==> m.shown().contains(i as usize),
        m.column(m.sessions[i].socket_path) matches Some(ColumnV::Ready(tree)) && 0 <= w
            < tree.workspaces.len() && m.filter == Some(tree.workspaces[w].name)
            ==> m.shown().contains(i as usize),
        m.filter matches Some(query) ==> {
            &&& query.len() > 0
            &&& !occurs(lowered(m.sessions[i].session), lowered(query))
            &&& !(m.column(m.sessions[i].socket_path) matches Some(ColumnV::Ready(_)))
        } ==> !m.shown().contains(i as usize),
{
    let n = m.sessions.len() as int;
    lemma_shown_positions(m, n);
    if m.shows(i) {
        assert(m.shown().contains(i as usize));
    }
    if m.filter is None {
        lemma_all_shown(m, n);
    }
    if let Some(query) = m.filter {
        if query == m.sessions[i].session {
            lemma_occurs_in_itself(lowered(query));
        }
        if let Some(ColumnV::Ready(tree)) = m.column(m.sessions[i].socket_path) {
            let titles = m.titles(m.sessions[i].socket_path);
            if 0 <= w < tree.workspaces.len() && query == tree.workspaces[w].name {
                assert(titles[w] == query);
                lemma_occurs_in_itself(lowered(query));
            }
        }
    }
}

proof fn lemma_occurs_in_itself(s: Seq<char>)
    ensures
        occurs(s, s),
{
    assert(s.subrange(0, s.len() as int) =~= s);
    assert(crate::text::stands_at(s, s, 0));
}

proof fn lemma_shown_positions(m: ManagerV, n: int)
    requires
        m.sessions.len() <= usize::MAX,
        0 <= n <= m.sessions.len(),
    ensures
        forall|a: int, b: int|
            0 <= a < b < m.shown_among(n).len() ==> m.shown_among(n)[a] < m.shown_among(n)[b],
        forall|a: int|
            0 <= a < m.shown_among(n).len() ==> #[trigger] m.shown_among(n)[a] < n && m.shows(
                m.shown_among(n)[a] as int,
            ),
        forall|i: int|
            0 <= i < n && #[trigger] m.shows(i) ==> m.shown_among(n).contains(i as usize),
    decreases n,
{
    if n > 0 {
        lemma_shown_positions(m, n - 1);
        let before = m.shown_among(n - 1);
        let now = m.shown_among(n);
        assert forall|i: int| 0 <= i < n && #[trigger] m.shows(i) implies now.contains(
            i as usize,
        ) by {
            if i == n - 1 {
                assert(now[before.len() as int] == i);
            } else {
                assert(before.contains(i as usize));
                let k = choose|k: int| 0 <= k < before.len() && before[k] == i as usize;
                assert(now[k] == i as usize);
            }
        }
    }
}

proof fn lemma_all_shown(m: ManagerV, n: int)
    requires
        m.filter is None,
        m.sessions.len() <= usize::MAX,
        0 <= n <= m.sessions.len(),
    ensures
        m.shown_among(n).len() == n,
        forall|i: int| 0 <= i < n ==> #[trigger] m.shown_among(n)[i] == i,
    decreases n,
{
    if n > 0 {
        lemma_all_shown(m, n - 1);
    }
}

/// Down and Up move the cursor one session on and back among those that are shown, and put it
/// into the left column; at the ends it stays. One undoes the other.
pub proof fn law_cursor_moves(m: ManagerV, p: int)
    requires
        m.sessions.len() <= usize::MAX,
        0 <= p < m.shown().len(),
        m.shown()[p] == m.left_sel,
    ensures
        ({
            let down = moved(m, true);
            let up = moved(m, false);
            &&& p + 1 < m.shown().len() ==> down.left_sel == m.shown()[p + 1] && down.right_sel == 0
                && down.focus == Column::Left && moved(down, false).left_sel == m.left_sel
            &&& p + 1 == m.shown().len() ==> down == m
            &&& p > 0 ==> up.left_sel == m.shown()[p - 1] && up.right_sel == 0 && up.focus
                == Column::Left && moved(up, true).left_sel == m.left_sel
            &&& p == 0 ==> up == m
            &&& ManagerV {
                left_sel: m.left_sel,
                right_sel: m.right_sel,
                focus: m.focus,
                ..down
            } == m
            &&& ManagerV { left_sel: m.left_sel, right_sel: m.right_sel, focus: m.focus, ..up } == m
        }),
{
    lemma_shown_positions(m, m.sessions.len() as int);
    let shown = m.shown();
    lemma_position(shown, p);
    let down = moved(m, true);
    let up = moved(m, false);
    lemma_shown_same(m, down);
    lemma_shown_same(m, up);
    if p + 1 < shown.len() {
        assert(shown[p] < shown[p + 1]);
        lemma_position(shown, p + 1);
    }
    if p > 0 {
        assert(shown[p - 1] < shown[p]);
        lemma_position(shown, p - 1);
    }
}

proof fn lemma_position(list: Seq<usize>, p: int)
    requires
        0 <= p < list.len(),
        forall|a: int, b: int| 0 <= a < b < list.len() ==> list[a] < list[b],
    ensures
        list.contains(list[p]),
        list.index_of_first(list[p]) == Some(p),
{
    assert(list[p] == list[p]);
    list.index_of_first_ensures(list[p]);
}

/// A session is ended only after it was asked for and affirmed: `x` asks for the one under the
/// cursor, `y` then ends that one, and any other key takes the question back and leaves everything
/// else as it was.
pub proof fn law_kill_affirmed(m: ManagerV, ask: KeyEvent, key: KeyEvent)
    ensures
        keyed(m, key).1 matches ActionV::KillSession(i) ==> {
            &&& m.mode matches ModeV::ConfirmKill(index, _) && index == i
            &&& key.code == KeyCode::Char('y') || key.code == KeyCode::Char('Y')
        },
        m.mode is Browse && m.filter is None && !ask.ctrl && m.left_sel < m.sessions.len() && (
        ask.code == KeyCode::Char('x') || ask.code == KeyCode::Char('K')) ==> ({
            let (asked, action) = keyed(m, ask);
            let (after, done) = keyed(asked, key);
            &&& action == ActionV::Redraw
            &&& asked.mode == ModeV::ConfirmKill(
                m.left_sel,
                m.sessions[m.left_sel as int].session,
            )
            &&& key.code == KeyCode::Char('y') || key.code == KeyCode::Char('Y') ==> {
                &&& done == ActionV::KillSession(m.left_sel)
                &&& after == ManagerV {
                    status: "killed "@ + m.sessions[m.left_sel as int].session,
                    ..m
                }
            }
            &&& key.code != KeyCode::Char('y') && key.code != KeyCode::Char('Y') && !(key.ctrl
                && key.code == KeyCode::Char('c')) ==> done == ActionV::Redraw && after == m
        }),
{
}

/// A session is given another name only by what was typed for it: the name without the blanks
/// round it, which is not empty and not the one it had. `r` starts with the name that the session
/// under the cursor has; Enter at once changes nothing, and Esc neither.
pub proof fn law_rename_typed(m: ManagerV, ask: KeyEvent, key: KeyEvent)
    ensures
        keyed(m, key).1 matches ActionV::RenameSession(socket, name) ==> {
            &&& m.mode matches ModeV::Rename(at, old_name, input) && at == socket && name
                == trimmed(input) && name != old_name
            &&& name.len() > 0
            &&& key.code == KeyCode::Enter
            &&& keyed(m, key).0 == ManagerV { mode: ModeV::Browse, ..m }
        },
        m.mode matches ModeV::Rename(at, old_name, input) ==> {
            let (after, done) = keyed(m, key);
            &&& key.code == KeyCode::Enter && trimmed(input).len() > 0 && trimmed(input) != old_name
                ==> done == ActionV::RenameSession(at, trimmed(input))
            &&& key.code == KeyCode::Enter && trimmed(input).len() == 0 ==> done == ActionV::Redraw
                && after.status == "session name cannot be empty"@
            &&& key.code == KeyCode::Esc ==> after == ManagerV { mode: ModeV::Browse, ..m }
            &&& !key.ctrl ==> (key.code matches KeyCode::Char(c) ==> after.mode == ModeV::Rename(
                at,
                old_name,
                input.push(c),
            ))
        },
        m.mode is Browse && m.filter is None && !ask.ctrl && ask.code == KeyCode::Char('r')
            && m.left_sel < m.sessions.len() ==> ({
            let s = m.sessions[m.left_sel as int];
            let (started, action) = keyed(m, ask);
            &&& s.live ==> started.mode == ModeV::Rename(s.socket_path, s.session, s.session)
                && keyed(
                started,
                KeyEvent { code: KeyCode::Esc, ctrl: false },
            ).0 == m
            &&& !s.live ==> started == m && action is SetStatus
        }),
{
}

/// Enter goes to what is under the cursor: in the left column to the session, in the right one to
/// its workspace, which is reached in place where the session is the one that shows the manager.
pub proof fn law_enter_goes(m: ManagerV, key: KeyEvent)
    requires
        m.mode is Browse,
        key.code == KeyCode::Enter,
        m.left_sel < m.sessions.len(),
    ensures
        ({
            let s = m.sessions[m.left_sel as int];
            let own = path_of(s.socket_path) == path_of(m.own_socket);
            let left = m.focus == Column::Left || m.filter is Some;
            let (after, done) = keyed(m, key);
            &&& after == m
            &&& left && s.live && !own ==> done == ActionV::AttachSession(s.socket_path)
            &&& left && s.live && own ==> done == ActionV::SetStatus(
                "already attached to this session"@,
            )
            &&& left && !s.live ==> (done matches ActionV::SetStatus(why)
                && s.session.is_prefix_of(why))
            &&& !left && own ==> done == ActionV::FocusWorkspaceInPlace(m.right_sel)
            &&& !left && !own ==> done == ActionV::AttachOtherSessionWorkspace(
                s.socket_path,
                m.right_sel,
            )
        }),
{
    let s = m.sessions[m.left_sel as int];
    let why = s.session + " is unreachable (socket not connectable) \u{2014} cannot attach"@;
    assert(why.take(s.session.len() as int) =~= s.session);
}

/// What the other keys of the list do without a filter, and that letters and arrows mean the same.
pub proof fn law_list_keys(m: ManagerV, ctrl: bool)
    requires
        m.mode is Browse,
        m.filter is None,
    ensures
        ({
            let does = |code: KeyCode| keyed(m, KeyEvent { code, ctrl });
            &&& does(KeyCode::Esc) == (m, ActionV::Close)
            &&& does(KeyCode::Char('q')) == (m, ActionV::Close)
            &&& does(KeyCode::Char('R')) == (m, ActionV::Refresh)
            &&& does(KeyCode::Down) == (moved(m, true), ActionV::Redraw)
            &&& does(KeyCode::Up) == (moved(m, false), ActionV::Redraw)
            &&& does(KeyCode::Char('j')) == does(KeyCode::Down)
            &&& does(KeyCode::Char('k')) == does(KeyCode::Up)
            &&& does(KeyCode::Left).0 == ManagerV { focus: Column::Left, ..m }
            &&& does(KeyCode::Char('h')) == does(KeyCode::Left)
            &&& m.focused_tree() is Some ==> does(KeyCode::Right).0 == ManagerV {
                focus: Column::Right,
                ..m
            }
            &&& m.focused_tree() is None ==> does(KeyCode::Right) == (m, ActionV::Nothing)
            &&& does(KeyCode::Tab) == does(KeyCode::Right)
            &&& does(KeyCode::Char('l')) == does(KeyCode::Right)
            &&& does(KeyCode::Char('x')) == does(KeyCode::Char('K'))
            &&& does(KeyCode::Char('/')).0 == ManagerV { filter: Some(Seq::<char>::empty()), ..m }
        }),
{
}

/// A filter takes what is typed, and Esc takes it away; control-C closes the manager in every mode.
/// No key changes what is known of the sessions.
pub proof fn law_keys_leave_sessions(m: ManagerV, key: KeyEvent)
    ensures
        ({
            let (after, done) = keyed(m, key);
            &&& after.sessions == m.sessions
            &&& after.workspaces == m.workspaces
            &&& after.own_socket == m.own_socket
            &&& after.pending_reattach == m.pending_reattach
            &&& key.ctrl && key.code == KeyCode::Char('c') ==> after == m && done == ActionV::Close
            &&& m.mode is Browse && !key.ctrl ==> (m.filter matches Some(query) ==> {
                &&& key.code matches KeyCode::Char(c) ==> after.filter == Some(query.push(c))
                &&& key.code == KeyCode::Backspace && query.len() > 0 ==> after.filter == Some(
                    query.drop_last(),
                )
                &&& key.code == KeyCode::Esc ==> after.filter is None
                &&& m.shown().len() > 0 && key.code == KeyCode::Other && m.shown().contains(
                    m.left_sel,
                ) ==> after == m
            })
        }),
{
}

/// What is fetched ahead: the sessions from the cursor on, as far as is looked ahead and as there
/// are any.
pub proof fn law_prefetched(left_sel: usize, lookahead: usize, len: usize, p: usize)
    ensures
        prefetched(left_sel, lookahead, len as nat).contains(p) <==> left_sel <= p && p < len && p
            - left_sel <= lookahead,
        forall|a: int, b: int|
            0 <= a < b < prefetched(left_sel, lookahead, len as nat).len() ==> prefetched(
                left_sel,
                lookahead,
                len as nat,
            )[a] < prefetched(left_sel, lookahead, len as nat)[b],
{
    let list = prefetched(left_sel, lookahead, len as nat);
    if left_sel <= p && p < len && p - left_sel <= lookahead {
        assert(list[p - left_sel] == p);
    }
}

/// What is asked for is what nothing is known of, of the session under the cursor and the next; it
/// is then marked as being fetched, and nothing else changes.
pub proof fn law_fetched_unknown(m: ManagerV, i: int)
    requires
        m.sessions.len() <= usize::MAX,
        0 <= i < m.sessions.len(),
    ensures
        ({
            let (now, out) = fetched(m);
            let socket = m.sessions[i].socket_path;
            let unknown = m.column(socket) is None || m.column(socket) == Some(ColumnV::NotFetched);
            let near = i == m.left_sel || i == m.left_sel + 1;
            &&& near && unknown ==> now.column(socket) == Some(ColumnV::Loading)
            &&& !unknown ==> now.column(socket) == m.column(socket) && !out.contains(socket)
            &&& i == m.left_sel && unknown ==> out.len() > 0 && out[0] == socket
            &&& i == m.left_sel + 1 && unknown && path_of(socket) != path_of(
                m.sessions[i - 1].socket_path,
            ) ==> out.last() == socket
            &&& out.len() <= 2
            &&& ManagerV { workspaces: m.workspaces, ..now } == m
        }),
{
    let targets = prefetched(m.left_sel, 1, m.sessions.len());
    reveal_with_fuel(fetched_for, 3);
    assert(targets.len() <= 2);
    if m.left_sel < m.sessions.len() {
        assert(targets[0] == m.left_sel);
        if m.left_sel + 1 < m.sessions.len() {
            assert(targets[1] == m.left_sel + 1);
        }
    }
}

/// The session that shows the manager: the first whose socket has the path of the own one.
pub proof fn law_own_found(list: Seq<SessionV>, socket: Seq<char>, from: int)
    requires
        0 <= from <= list.len(),
    ensures
        match session_at(list, socket, from) {
            Some(i) => {
                &&& from <= i < list.len()
                &&& path_of(list[i].socket_path) == path_of(socket)
                &&& forall|k: int|
                    from <= k < i ==> path_of((#[trigger] list[k]).socket_path) != path_of(socket)
            },
            None => forall|k: int|
                from <= k < list.len() ==> path_of((#[trigger] list[k]).socket_path) != path_of(
                    socket,
                ),
        },
    decreases list.len() - from,
{
    if from < list.len() {
        law_own_found(list, socket, from + 1);
    }
}

} // verus!
