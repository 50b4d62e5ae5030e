//! The session picker: the list of sessions from which one is chosen before anything is attached.
//!
//! Keys are decided here. Ending sessions and looking for them again is the caller's part, who
//! then hands the new list back.

use vstd::prelude::*;

use crate::input::{typed, visible, InputEvent, KeyCode, KeyEvent, TextInput};
use crate::order::{ordering, picked, sort_positions, Ordered};
use crate::sessions::{pick_sessions, sessions_view, DiscoveredSession, SessionV};
use crate::text::{append_decimal, decimal, owned, same, trim, trimmed};

verus! {

/// What the keys go to: the list, one of two questions, or the name of a new session.
#[derive(Debug)]
pub enum Mode {
    Browse,
    ConfirmKill { index: usize, name: String },
    ConfirmKillStale { count: usize },
    NewSession(TextInput),
}

pub enum ModeV {
    Browse,
    ConfirmKill(usize, Seq<char>),
    ConfirmKillStale(usize),
    NewSession(Seq<char>),
}

impl View for Mode {
    type V = ModeV;

    open spec fn view(&self) -> ModeV {
        match self {
            Mode::Browse => ModeV::Browse,
            Mode::ConfirmKill { index, name } => ModeV::ConfirmKill(*index, name@),
            Mode::ConfirmKillStale { count } => ModeV::ConfirmKillStale(*count),
            Mode::NewSession(input) => ModeV::NewSession(input@),
        }
    }
}

/// What is to be done after a key.
#[derive(Debug)]
pub enum Action {
    Nothing,
    Redraw,
    Quit,
    CtrlC,
    /// Attach to the session at this socket.
    Attach { socket_path: String, name: String },
    /// Attach to a session of this name that is not there yet; sessions that do not answer are
    /// removed before, where one of them has the name.
    Create { name: String, clean_stale: bool },
    /// End the session at this position.
    Kill { index: usize },
    /// Remove every session that does not answer.
    KillStale,
}

pub enum ActionV {
    Nothing,
    Redraw,
    Quit,
    CtrlC,
    Attach(Seq<char>, Seq<char>),
    Create(Seq<char>, bool),
    Kill(usize),
    KillStale,
}

impl View for Action {
    type V = ActionV;

    open spec fn view(&self) -> ActionV {
        match self {
            Action::Nothing => ActionV::Nothing,
            Action::Redraw => ActionV::Redraw,
            Action::Quit => ActionV::Quit,
            Action::CtrlC => ActionV::CtrlC,
            Action::Attach { socket_path, name } => ActionV::Attach(socket_path@, name@),
            Action::Create { name, clean_stale } => ActionV::Create(name@, *clean_stale),
            Action::Kill { index } => ActionV::Kill(*index),
            Action::KillStale => ActionV::KillStale,
        }
    }
}

/// How the picker was left.
#[derive(Debug)]
pub enum PickerOutcome {
    Attach { socket_path: String, name: String },
    Quit { destructive: bool },
    CtrlC,
}

impl PickerOutcome {
    /// The exit code, unless a session is to be attached: zero, but one where a session was
    /// ended, and two where the picker was broken off.
    pub fn exit_code(&self) -> (r: Option<i32>)
        ensures
            r == match *self {
                PickerOutcome::Attach { .. } => None,
                PickerOutcome::Quit { destructive } => Some(
                    if destructive {
                        1i32
                    } else {
                        0i32
                    },
                ),
                PickerOutcome::CtrlC => Some(2i32),
            },
    {
        match self {
            PickerOutcome::Attach { .. } => None,
            PickerOutcome::Quit { destructive } => {
                if *destructive {
                    Some(1)
                } else {
                    Some(0)
                }
            },
            PickerOutcome::CtrlC => Some(2),
        }
    }
}

#[derive(Debug)]
pub struct PickerState {
    pub sessions: Vec<DiscoveredSession>,
    pub selected: Option<usize>,
    /// Whether a session was ended.
    pub destructive: bool,
    pub status: String,
    pub mode: Mode,
}

pub struct PickerV {
    pub sessions: Seq<SessionV>,
    pub selected: Option<usize>,
    pub destructive: bool,
    pub status: Seq<char>,
    pub mode: ModeV,
}

impl View for PickerState {
    type V = PickerV;

    open spec fn view(&self) -> PickerV {
        PickerV {
            sessions: sessions_view(self.sessions@),
            selected: self.selected,
            destructive: self.destructive,
            status: self.status@,
            mode: self.mode@,
        }
    }
}

impl PickerV {
    /// Whether the selection is one of the sessions, if there are any.
    pub open spec fn wf(self) -> bool {
        match self.selected {
            Some(i) => i < self.sessions.len(),
            None => self.sessions.len() == 0,
        }
    }
}

// ---- the order of the list ----------------------------------------------------------------

/// When a session was last changed, the newest first and those without a time last.
pub struct Newest {
    pub mtime: Option<u64>,
}

impl Ordered for Newest {
    open spec fn before(&self, other: &Self) -> bool {
        match (self.mtime, other.mtime) {
            (_, None) => true,
            (None, Some(_)) => false,
            (Some(a), Some(b)) => a >= b,
        }
    }

    proof fn total(a: &Self, b: &Self) {
    }

    proof fn transitive(a: &Self, b: &Self, c: &Self) {
    }

    fn goes_before(&self, other: &Self) -> (r: bool) {
        match (self.mtime, other.mtime) {
            (_, None) => true,
            (None, Some(_)) => false,
            (Some(a), Some(b)) => a >= b,
        }
    }
}

/// Whether `out` is the list with the newest session first.
pub open spec fn by_age(list: Seq<SessionV>, out: Seq<SessionV>) -> bool {
    exists|keys: Seq<Newest>, order: Seq<usize>|
        {
            &&& keys.len() == list.len()
            &&& forall|i: int| 0 <= i < list.len() ==> (#[trigger] keys[i]).mtime == list[i].mtime
            &&& #[trigger] ordering(keys, order)
            &&& out == picked(list, order)
        }
}

/// The sessions with the newest first.
pub fn refresh(found: &Vec<DiscoveredSession>) -> (out: Vec<DiscoveredSession>)
    ensures
        by_age(sessions_view(found@), sessions_view(out@)),
{
    let mut keys: Vec<Newest> = Vec::new();
    let mut i: usize = 0;
    while i < found.len()
        invariant
            i <= found.len(),
            keys.len() == i,
            forall|k: int| 0 <= k < i ==> (#[trigger] keys@[k]).mtime == found@[k].mtime,
        decreases found.len() - i,
    {
        keys.push(Newest { mtime: found[i].mtime });
        i = i + 1;
    }
    let order: Vec<usize> = sort_positions(&keys);
    let out: Vec<DiscoveredSession> = pick_sessions(found, &order);
    proof {
        assert(ordering(keys@, order@));
        assert forall|k: int| 0 <= k < sessions_view(found@).len() implies (
        #[trigger] keys@[k]).mtime == sessions_view(found@)[k].mtime by {
            assert(sessions_view(found@)[k] == found@[k]@);
        }
    }
    out
}

// ---- the selection ------------------------------------------------------------------------

/// A selection that lies in a list of `n` sessions, the first one where it does not.
pub open spec fn selection_in(selected: Option<usize>, n: int) -> Option<usize> {
    if n == 0 {
        None
    } else {
        match selected {
            Some(i) => if i < n {
                selected
            } else {
                Some(0)
            },
            None => Some(0),
        }
    }
}

/// The selection after a session was ended: the same position, or the last.
pub open spec fn selection_after(was: usize, n: int) -> Option<usize> {
    if n == 0 {
        None
    } else if was < n {
        Some(was)
    } else {
        Some((n - 1) as usize)
    }
}

/// The selection one row further, where there is one.
pub open spec fn selection_moved(selected: Option<usize>, n: int, down: bool) -> Option<usize> {
    let i = match selected {
        Some(i) => i as int,
        None => 0,
    };
    let next = if down {
        i + 1
    } else if i > 0 {
        i - 1
    } else {
        0
    };
    if next >= n || next == i {
        None
    } else {
        Some(next as usize)
    }
}

/// How many sessions do not answer.
pub open spec fn stale_count(list: Seq<SessionV>) -> int
    decreases list.len(),
{
    if list.len() == 0 {
        0
    } else {
        stale_count(list.drop_last()) + if list.last().live {
            0int
        } else {
            1int
        }
    }
}

/// The first session of that name, from position `from` on.
pub open spec fn named(list: Seq<SessionV>, name: Seq<char>, from: int) -> Option<SessionV>
    decreases list.len() - from,
{
    if from < 0 || from >= list.len() {
        None
    } else if list[from].session == name {
        Some(list[from])
    } else {
        named(list, name, from + 1)
    }
}

impl PickerV {
    /// The selected session.
    pub open spec fn focused(self) -> Option<SessionV> {
        match self.selected {
            Some(i) => if i < self.sessions.len() {
                Some(self.sessions[i as int])
            } else {
                None
            },
            None => None,
        }
    }
}

// ---- what keys do -------------------------------------------------------------------------

pub open spec fn moved(p: PickerV, down: bool) -> (PickerV, ActionV) {
    match selection_moved(p.selected, p.sessions.len() as int, down) {
        Some(next) => (PickerV { selected: Some(next), ..p }, ActionV::Redraw),
        None => (p, ActionV::Nothing),
    }
}

/// Enter attaches to the selected session, if it answers.
pub open spec fn entered(p: PickerV) -> (PickerV, ActionV) {
    match p.focused() {
        None => (p, ActionV::Nothing),
        Some(s) => if s.live {
            (p, ActionV::Attach(s.socket_path, s.session))
        } else {
            (
                PickerV {
                    status: s.session
                        + " is unreachable (socket not connectable) \u{2014} cannot attach"@,
                    ..p
                },
                ActionV::Redraw,
            )
        },
    }
}

/// A key in the list.
pub open spec fn browsed(p: PickerV, key: KeyEvent) -> (PickerV, ActionV) {
    match key.code {
        KeyCode::Up => moved(p, false),
        KeyCode::Down => moved(p, true),
        KeyCode::Enter => entered(p),
        KeyCode::Esc => (p, ActionV::Quit),
        KeyCode::Char(c) => if c == 'k' {
            moved(p, false)
        } else if c == 'j' {
            moved(p, true)
        } else if c == 'x' {
            match p.focused() {
                Some(s) => (
                    PickerV { mode: ModeV::ConfirmKill(p.selected->0, s.session), ..p },
                    ActionV::Redraw,
                ),
                None => (p, ActionV::Nothing),
            }
        } else if c == 's' {
            let n = stale_count(p.sessions);
            if n == 0 {
                (PickerV { status: "no stale sessions to clean"@, ..p }, ActionV::Redraw)
            } else {
                (PickerV { mode: ModeV::ConfirmKillStale(n as usize), ..p }, ActionV::Redraw)
            }
        } else if c == 'n' {
            (PickerV { mode: ModeV::NewSession(seq![]), ..p }, ActionV::Redraw)
        } else if c == 'r' {
            (
                PickerV {
                    status: "rename not yet available \u{2014} coming in L2 (rename-session)"@,
                    ..p
                },
                ActionV::Redraw,
            )
        } else if c == 'q' {
            (p, ActionV::Quit)
        } else {
            (p, ActionV::Nothing)
        },
        _ => (p, ActionV::Nothing),
    }
}

pub open spec fn says_yes(key: KeyEvent) -> bool {
    key.code == KeyCode::Char('y') || key.code == KeyCode::Char('Y')
}

/// A name was typed for a new session: one that is live already is attached to.
pub open spec fn name_entered(p: PickerV, name: Seq<char>) -> (PickerV, ActionV) {
    if name.len() == 0 {
        (
            PickerV { mode: ModeV::Browse, status: "session name cannot be empty"@, ..p },
            ActionV::Redraw,
        )
    } else {
        match named(p.sessions, name, 0) {
            Some(s) => if s.live {
                (p, ActionV::Attach(s.socket_path, s.session))
            } else {
                (p, ActionV::Create(name, true))
            },
            None => (p, ActionV::Create(name, false)),
        }
    }
}

/// What a key does to the picker, and what it asks for.
pub open spec fn keyed(p: PickerV, key: KeyEvent) -> (PickerV, ActionV) {
    if key.ctrl && key.code == KeyCode::Char('c') {
        (p, ActionV::CtrlC)
    } else {
        match p.mode {
            ModeV::Browse => browsed(p, key),
            ModeV::ConfirmKill(index, name) => (
                PickerV { mode: ModeV::Browse, ..p },
                if says_yes(key) && index < p.sessions.len() {
                    ActionV::Kill(index)
                } else {
                    ActionV::Redraw
                },
            ),
            ModeV::ConfirmKillStale(_) => (
                PickerV { mode: ModeV::Browse, ..p },
                if says_yes(key) {
                    ActionV::KillStale
                } else {
                    ActionV::Redraw
                },
            ),
            ModeV::NewSession(text) => {
                let (now, event) = typed(text, key);
                match event {
                    InputEvent::Commit => name_entered(p, trimmed(text)),
                    InputEvent::Cancel => (
                        PickerV { mode: ModeV::Browse, ..p },
                        ActionV::Redraw,
                    ),
                    _ => (PickerV { mode: ModeV::NewSession(now), ..p }, ActionV::Redraw),
                }
            },
        }
    }
}

/// The picker after the session at a position was ended and the sessions were looked for again.
pub open spec fn after_kill(
    p: PickerV,
    index: usize,
    name: Seq<char>,
    found: Seq<SessionV>,
) -> PickerV {
    PickerV {
        sessions: found,
        selected: selection_after(index, found.len() as int),
        destructive: true,
        status: "killed "@ + name,
        ..p
    }
}

/// The picker after the sessions that do not answer were removed and the rest was looked for.
pub open spec fn after_clean(p: PickerV, cleaned: nat, found: Seq<SessionV>) -> PickerV {
    PickerV {
        sessions: found,
        selected: selection_in(p.selected, found.len() as int),
        destructive: true,
        status: "cleaned "@ + decimal(cleaned) + " stale session(s)"@,
        ..p
    }
}

impl PickerState {
    /// A picker over a list of sessions, the first selected.
    pub fn new(sessions: Vec<DiscoveredSession>) -> (r: PickerState)
        ensures
            r@ == (PickerV {
                sessions: sessions_view(sessions@),
                selected: selection_in(None, sessions@.len() as int),
                destructive: false,
                status: seq![],
                mode: ModeV::Browse,
            }),
            r@.wf(),
    {
        let mut r: PickerState = PickerState {
            sessions,
            selected: None,
            destructive: false,
            status: String::new(),
            mode: Mode::Browse,
        };
        r.clamp_selection();
        r
    }

    pub fn clamp_selection(&mut self)
        ensures
            final(self)@ == (PickerV {
                selected: selection_in(old(self)@.selected, old(self)@.sessions.len() as int),
                ..old(self)@
            }),
            final(self)@.wf(),
    {
        if self.sessions.len() == 0 {
            self.selected = None;
        } else {
            let inside: bool = match self.selected {
                Some(i) => i < self.sessions.len(),
                None => false,
            };
            if !inside {
                self.selected = Some(0);
            }
        }
    }

    fn destructive_select(&mut self, was: usize)
        ensures
            final(self)@ == (PickerV {
                selected: selection_after(was, old(self)@.sessions.len() as int),
                ..old(self)@
            }),
            final(self)@.wf(),
    {
        if self.sessions.len() == 0 {
            self.selected = None;
        } else if was < self.sessions.len() {
            self.selected = Some(was);
        } else {
            self.selected = Some(self.sessions.len() - 1);
        }
    }

    fn move_cursor(&mut self, down: bool) -> (r: Action)
        ensures
            (final(self)@, r@) == moved(old(self)@, down),
    {
        let i: usize = match self.selected {
            Some(i) => i,
            None => 0,
        };
        if down {
            if self.sessions.len() == 0 || i >= self.sessions.len() - 1 {
                return Action::Nothing;
            }
            self.selected = Some(i + 1);
            Action::Redraw
        } else {
            if i == 0 || i - 1 >= self.sessions.len() {
                return Action::Nothing;
            }
            self.selected = Some(i - 1);
            Action::Redraw
        }
    }

    fn focused(&self) -> (r: Option<(usize, &DiscoveredSession)>)
        ensures
            match r {
                Some((i, s)) => self@.focused() == Some(s@) && self@.selected == Some(i),
                None => self@.focused() is None,
            },
    {
        match self.selected {
            Some(i) => {
                if i < self.sessions.len() {
                    assert(self@.sessions[i as int] == self.sessions@[i as int]@);
                    Some((i, &self.sessions[i]))
                } else {
                    None
                }
            },
            None => None,
        }
    }

    fn enter(&mut self) -> (r: Action)
        ensures
            (final(self)@, r@) == entered(old(self)@),
    {
        let status: String = match self.focused() {
            None => {
                return Action::Nothing;
            },
            Some((_, s)) => {
                if s.live {
                    return Action::Attach {
                        socket_path: owned(s.socket_path.as_str()),
                        name: owned(s.session.as_str()),
                    };
                }
                let mut status: String = owned(s.session.as_str());
                status.append(" is unreachable (socket not connectable) \u{2014} cannot attach");
                status
            },
        };
        self.status = status;
        Action::Redraw
    }

    fn count_stale(&self) -> (n: usize)
        ensures
            n == stale_count(self@.sessions),
    {
        let mut n: usize = 0;
        let mut i: usize = 0;
        let ghost all = self@.sessions;
        while i < self.sessions.len()
            invariant
                i <= self.sessions.len(),
                all == self@.sessions,
                n <= i,
                n == stale_count(all.take(i as int)),
            decreases self.sessions.len() - i,
        {
            proof {
                assert(all[i as int] == self.sessions@[i as int]@);
                assert(all.take(i + 1).drop_last() =~= all.take(i as int));
            }
            if !self.sessions[i].live {
                n = n + 1;
            }
            i = i + 1;
        }
        assert(all.take(all.len() as int) =~= all);
        n
    }

    fn browse_key(&mut self, key: KeyEvent) -> (r: Action)
        ensures
            (final(self)@, r@) == browsed(old(self)@, key),
    {
        match key.code {
            KeyCode::Up => self.move_cursor(false),
            KeyCode::Down => self.move_cursor(true),
            KeyCode::Enter => self.enter(),
            KeyCode::Esc => Action::Quit,
            KeyCode::Char(c) => {
                if c == 'k' {
                    self.move_cursor(false)
                } else if c == 'j' {
                    self.move_cursor(true)
                } else if c == 'x' {
                    let mode: Mode = match self.focused() {
                        Some((index, s)) => Mode::ConfirmKill {
                            index,
                            name: owned(s.session.as_str()),
                        },
                        None => {
                            return Action::Nothing;
                        },
                    };
                    self.mode = mode;
                    Action::Redraw
                } else if c == 's' {
                    let count: usize = self.count_stale();
                    if count == 0 {
                        self.status = "no stale sessions to clean".to_string();
                    } else {
                        self.mode = Mode::ConfirmKillStale { count };
                    }
                    Action::Redraw
                } else if c == 'n' {
                    self.mode = Mode::NewSession(TextInput::new(String::new()));
                    Action::Redraw
                } else if c == 'r' {
                    self.status =
                    "rename not yet available \u{2014} coming in L2 (rename-session)".to_string();
                    Action::Redraw
                } else if c == 'q' {
                    Action::Quit
                } else {
                    Action::Nothing
                }
            },
            _ => Action::Nothing,
        }
    }

    fn enter_name(&mut self, name: String) -> (r: Action)
        ensures
            (final(self)@, r@) == name_entered(old(self)@, name@),
    {
        if name.as_str().is_empty() {
            self.status = "session name cannot be empty".to_string();
            self.mode = Mode::Browse;
            return Action::Redraw;
        }
        let ghost all = self@.sessions;
        let mut i: usize = 0;
        while i < self.sessions.len()
            invariant
                i <= self.sessions.len(),
                *self == *old(self),
                all == self@.sessions,
                name@.len() > 0,
                named(all, name@, 0) == named(all, name@, i as int),
            decreases self.sessions.len() - i,
        {
            assert(all[i as int] == self.sessions@[i as int]@);
            if same(self.sessions[i].session.as_str(), name.as_str()) {
                if self.sessions[i].live {
                    return Action::Attach {
                        socket_path: owned(self.sessions[i].socket_path.as_str()),
                        name: owned(self.sessions[i].session.as_str()),
                    };
                }
                return Action::Create { name, clean_stale: true };
            }
            i = i + 1;
        }
        Action::Create { name, clean_stale: false }
    }

    /// What a key does.
    pub fn dispatch(&mut self, key: KeyEvent) -> (r: Action)
        ensures
            (final(self)@, r@) == keyed(old(self)@, key),
    {
        if key.ctrl && key.code == KeyCode::Char('c') {
            return Action::CtrlC;
        }
        let yes: bool = key.code == KeyCode::Char('y') || key.code == KeyCode::Char('Y');
        match &self.mode {
            Mode::Browse => self.browse_key(key),
            Mode::ConfirmKill { index, name: _ } => {
                let index: usize = *index;
                self.mode = Mode::Browse;
                if yes && index < self.sessions.len() {
                    Action::Kill { index }
                } else {
                    Action::Redraw
                }
            },
            Mode::ConfirmKillStale { count: _ } => {
                self.mode = Mode::Browse;
                if yes {
                    Action::KillStale
                } else {
                    Action::Redraw
                }
            },
            Mode::NewSession(input) => {
                let mut input: TextInput = input.copy();
                let before: String = owned(input.as_str());
                match input.handle_key(key) {
                    InputEvent::Commit => {
                        let name: String = trim(before.as_str());
                        self.enter_name(name)
                    },
                    InputEvent::Cancel => {
                        self.mode = Mode::Browse;
                        Action::Redraw
                    },
                    _ => {
                        self.mode = Mode::NewSession(input);
                        Action::Redraw
                    },
                }
            },
        }
    }

    /// Takes the new list after the session at a position was ended.
    pub fn killed(&mut self, index: usize, name: &str, found: Vec<DiscoveredSession>)
        ensures
            final(self)@ == after_kill(old(self)@, index, name@, sessions_view(found@)),
            final(self)@.wf(),
    {
        let mut status: String = "killed ".to_string();
        status.append(name);
        self.status = status;
        self.sessions = found;
        self.destructive = true;
        self.destructive_select(index);
    }

    /// Takes the new list after the sessions that do not answer were removed.
    pub fn cleaned(&mut self, count: u64, found: Vec<DiscoveredSession>)
        ensures
            final(self)@ == after_clean(old(self)@, count as nat, sessions_view(found@)),
            final(self)@.wf(),
    {
        let mut status: String = "cleaned ".to_string();
        append_decimal(&mut status, count);
        status.append(" stale session(s)");
        self.status = status;
        self.sessions = found;
        self.destructive = true;
        self.clamp_selection();
    }
}

/// No key takes the selection out of the list.
pub proof fn law_selection_stays(p: PickerV, key: KeyEvent)
    requires
        p.wf(),
    ensures
        keyed(p, key).0.wf(),
        keyed(p, key).0.sessions == p.sessions,
{
}

/// A session is ended only after the question whether to was answered with yes; and a session
/// that does not answer is never attached to.
pub proof fn law_picker_asks(p: PickerV, key: KeyEvent)
    ensures
        keyed(p, key).1 matches ActionV::Kill(i) ==> p.mode is ConfirmKill && says_yes(key) && i
            == p.mode->ConfirmKill_0,
        keyed(p, key).1 is KillStale ==> p.mode is ConfirmKillStale && says_yes(key),
        keyed(p, key).1 matches ActionV::Attach(socket, name) ==> exists|i: int|
            0 <= i < p.sessions.len() && (#[trigger] p.sessions[i]).live && p.sessions[i].session
                == name && p.sessions[i].socket_path == socket,
{
    if let ModeV::NewSession(text) = p.mode {
        lemma_named(p.sessions, trimmed(text), 0);
    }
    if p.focused() is Some {
        assert(p.sessions[p.selected->0 as int] == p.focused()->0);
    }
}

proof fn lemma_named(list: Seq<SessionV>, name: Seq<char>, from: int)
    requires
        0 <= from,
    ensures
        named(list, name, from) matches Some(s) ==> exists|i: int|
            from <= i < list.len() && #[trigger] list[i] == s && s.session == name,
    decreases list.len() - from,
{
    if from < list.len() && list[from].session != name {
        lemma_named(list, name, from + 1);
    }
}

// ---- drawing ------------------------------------------------------------------------------

/// How a session is listed.
pub open spec fn row_text(s: SessionV) -> Seq<char> {
    if s.live {
        s.session
    } else {
        "[unreachable] "@ + s.session
    }
}

pub fn row_label(s: &DiscoveredSession) -> (r: String)
    ensures
        r@ == row_text(s@),
{
    if s.live {
        owned(s.session.as_str())
    } else {
        let mut r: String = "[unreachable] ".to_string();
        r.append(s.session.as_str());
        r
    }
}

/// The title of the list.
pub fn list_title(sessions: &Vec<DiscoveredSession>) -> (r: &'static str)
    ensures
        r@ == if sessions.len() == 0 {
            " cmux sessions — none found (n new, q to quit) "@
        } else {
            " cmux sessions — pick one to attach "@
        },
{
    if sessions.len() == 0 {
        " cmux sessions — none found (n new, q to quit) "
    } else {
        " cmux sessions — pick one to attach "
    }
}

pub const KEYS: &'static str =
    "↑/↓ or j/k move · Enter attach · x kill · s kill-stale · n new · r rename · q/Esc quit · Ctrl-C abort";

/// The line below the list: the keys, a question, or what is typed, as far as it has room.
pub open spec fn prompt_text(mode: ModeV, width: int) -> Seq<char> {
    match mode {
        ModeV::Browse => KEYS@,
        ModeV::ConfirmKill(_, name) => "Kill "@ + name + "?  y/N  (any other key cancels)"@,
        ModeV::ConfirmKillStale(count) => "Kill "@ + decimal(count as nat)
            + " stale session(s)?  y/N  (any other key cancels)"@,
        ModeV::NewSession(name) => "new session name: "@ + visible(name, width),
    }
}

pub fn prompt(mode: &Mode, width: usize) -> (r: String)
    ensures
        r@ == prompt_text(mode@, width as int),
{
    match mode {
        Mode::Browse => owned(KEYS),
        Mode::ConfirmKill { name, .. } => {
            let mut r: String = "Kill ".to_string();
            r.append(name.as_str());
            r.append("?  y/N  (any other key cancels)");
            r
        },
        Mode::ConfirmKillStale { count } => {
            let mut r: String = "Kill ".to_string();
            append_decimal(&mut r, *count as u64);
            r.append(" stale session(s)?  y/N  (any other key cancels)");
            r
        },
        Mode::NewSession(input) => {
            let (shown, _) = input.visible_text_and_cursor(width);
            let mut r: String = "new session name: ".to_string();
            r.append(shown.as_str());
            r
        },
    }
}

/// Sessions by age: all of them, each once, a later one first; one whose age is not known is behind
/// every one whose age is, and of two that are equally old the order stays.
pub proof fn law_newest_first(list: Seq<SessionV>, out: Seq<SessionV>, i: int, j: int)
    requires
        by_age(list, out),
        0 <= i < j < out.len(),
    ensures
        out.len() == list.len(),
        out[j].mtime matches Some(later) ==> (out[i].mtime matches Some(t) && t >= later),
        out[i].mtime is None ==> out[j].mtime is None,
        exists|from: Seq<int>|
            from.no_duplicates() && #[trigger] from.len() == list.len() && (forall|k: int|
                0 <= k < from.len() ==> 0 <= #[trigger] from[k] < list.len() && out[k]
                    == list[from[k]]) && (out[i].mtime == out[j].mtime ==> from[i] < from[j]),
{
    let (keys, order) = choose|keys: Seq<Newest>, order: Seq<usize>|
        {
            &&& keys.len() == list.len()
            &&& forall|i: int| 0 <= i < list.len() ==> (#[trigger] keys[i]).mtime == list[i].mtime
            &&& #[trigger] ordering(keys, order)
            &&& out == picked(list, order)
        };
    assert(crate::order::comes_first(keys, order[i], order[j]));
    assert(keys[order[i] as int].mtime == list[order[i] as int].mtime);
    assert(keys[order[j] as int].mtime == list[order[j] as int].mtime);
    let from = order.map_values(|k: usize| k as int);
    assert(from.no_duplicates()) by {
        assert forall|a: int, b: int|
            0 <= a < from.len() && 0 <= b < from.len() && a != b implies from[a] != from[b] by {
            assert(order[a] != order[b]);
        }
    }
    assert(from.len() == list.len());
}

/// The cursor moves one session on and back and stays at the ends; one undoes the other.
pub proof fn law_picker_moves(p: PickerV, i: usize, ctrl: bool)
    requires
        p.wf(),
        p.mode is Browse,
        p.selected == Some(i),
        p.sessions.len() <= usize::MAX,
    ensures
        ({
            let does = |code: KeyCode| keyed(p, KeyEvent { code, ctrl });
            &&& i + 1 < p.sessions.len() ==> does(KeyCode::Down) == (
                PickerV { selected: Some((i + 1) as usize), ..p },
                ActionV::Redraw,
            )
            &&& i + 1 == p.sessions.len() ==> does(KeyCode::Down) == (p, ActionV::Nothing)
            &&& i > 0 ==> does(KeyCode::Up) == (
                PickerV { selected: Some((i - 1) as usize), ..p },
                ActionV::Redraw,
            )
            &&& i == 0 ==> does(KeyCode::Up) == (p, ActionV::Nothing)
            &&& does(KeyCode::Char('j')) == does(KeyCode::Down)
            &&& does(KeyCode::Char('k')) == does(KeyCode::Up)
            &&& does(KeyCode::Esc) == (p, ActionV::Quit)
            &&& does(KeyCode::Char('q')) == (p, ActionV::Quit)
        }),
{
}

/// Enter attaches to the session under the cursor where it answers, and otherwise says which does
/// not. `x` asks for that session, and only `y` ends it; `s` asks for all that do not answer.
pub proof fn law_picker_chooses(p: PickerV, i: usize, key: KeyEvent)
    requires
        p.wf(),
        p.mode is Browse,
        p.selected == Some(i),
    ensures
        ({
            let s = p.sessions[i as int];
            let (entered, done) = keyed(p, KeyEvent { code: KeyCode::Enter, ctrl: false });
            let (asked, _) = keyed(p, KeyEvent { code: KeyCode::Char('x'), ctrl: false });
            let (cleaning, _) = keyed(p, KeyEvent { code: KeyCode::Char('s'), ctrl: false });
            let (after, then_done) = keyed(asked, key);
            let (cleaned, then_clean) = keyed(cleaning, key);
            let yes = key.code == KeyCode::Char('y') || key.code == KeyCode::Char('Y');
            let stops = key.ctrl && key.code == KeyCode::Char('c');
            &&& s.live ==> entered == p && done == ActionV::Attach(s.socket_path, s.session)
            &&& !s.live ==> done == ActionV::Redraw && s.session.is_prefix_of(entered.status)
                && entered == PickerV { status: entered.status, ..p }
            &&& asked.mode == ModeV::ConfirmKill(i, s.session)
            &&& yes ==> after == p && then_done == ActionV::Kill(i)
            &&& !yes && !stops ==> after == p && then_done == ActionV::Redraw
            &&& stops ==> then_done == ActionV::CtrlC
            &&& stale_count(p.sessions) > 0 && yes ==> cleaned == p && then_clean
                == ActionV::KillStale
            &&& stale_count(p.sessions) > 0 && !yes && !stops ==> cleaned == p && then_clean
                == ActionV::Redraw
            &&& stale_count(p.sessions) == 0 ==> cleaning == PickerV {
                status: "no stale sessions to clean"@,
                ..p
            }
        }),
{
    let s = p.sessions[i as int];
    let why = s.session + " is unreachable (socket not connectable) \u{2014} cannot attach"@;
    assert(why.take(s.session.len() as int) =~= s.session);
}

/// As many sessions do not answer as there are in the list, one by one.
pub proof fn law_stale_counted(a: Seq<SessionV>, s: SessionV)
    ensures
        stale_count(a.push(s)) == stale_count(a) + (if s.live { 0int } else { 1int }),
        stale_count(seq![]) == 0,
        0 <= stale_count(a) <= a.len(),
        stale_count(a) == 0 <==> forall|i: int| 0 <= i < a.len() ==> (#[trigger] a[i]).live,
    decreases a.len(),
{
    assert(a.push(s).drop_last() =~= a);
    if a.len() > 0 {
        law_stale_counted(a.drop_last(), a.last());
        assert(a.drop_last().push(a.last()) =~= a);
        let front = a.drop_last();
        if forall|i: int| 0 <= i < front.len() ==> (#[trigger] front[i]).live {
            assert forall|i: int| 0 <= i < a.len() && a.last().live implies (
            #[trigger] a[i]).live by {
                if i < front.len() {
                    assert(front[i].live);
                }
            }
        } else {
            let k = choose|k: int| 0 <= k < front.len() && !(#[trigger] front[k]).live;
            assert(!a[k].live);
        }
        assert(a[a.len() - 1] == a.last());
    }
}

/// A name that was typed: attached to where a session that answers has it first, made anew where
/// none has it, and made anew after cleaning where the one that has it does not answer.
pub proof fn law_named_session(p: PickerV, text: Seq<char>, i: int)
    requires
        p.mode == ModeV::NewSession(text),
        0 <= i < p.sessions.len(),
    ensures
        ({
            let (after, done) = keyed(p, KeyEvent { code: KeyCode::Enter, ctrl: false });
            let name = trimmed(text);
            let first = p.sessions[i].session == name && forall|k: int|
                0 <= k < i ==> (#[trigger] p.sessions[k]).session != name;
            let nowhere = forall|k: int|
                0 <= k < p.sessions.len() ==> (#[trigger] p.sessions[k]).session != name;
            &&& name.len() == 0 ==> after.mode is Browse && done == ActionV::Redraw && after.status
                == "session name cannot be empty"@
            &&& name.len() > 0 ==> after == p
            &&& name.len() > 0 && first && p.sessions[i].live ==> done == ActionV::Attach(
                p.sessions[i].socket_path,
                name,
            )
            &&& name.len() > 0 && first && !p.sessions[i].live ==> done == ActionV::Create(
                name,
                true,
            )
            &&& name.len() > 0 && nowhere ==> done == ActionV::Create(name, false)
            &&& keyed(p, KeyEvent { code: KeyCode::Esc, ctrl: false }) == (
                PickerV { mode: ModeV::Browse, ..p },
                ActionV::Redraw,
            )
        }),
{
    lemma_named_first(p.sessions, trimmed(text), 0, i);
}

proof fn lemma_named_first(list: Seq<SessionV>, name: Seq<char>, from: int, i: int)
    requires
        0 <= from <= i < list.len() || from == list.len(),
        from >= 0,
    ensures
        from <= i && list[i].session == name && (forall|k: int|
            from <= k < i ==> (#[trigger] list[k]).session != name) && i < list.len() ==> named(
            list,
            name,
            from,
        ) == Some(list[i]),
        (forall|k: int| from <= k < list.len() ==> (#[trigger] list[k]).session != name) ==> named(
            list,
            name,
            from,
        ) is None,
    decreases list.len() - from,
{
    if from < list.len() {
        if from < i {
            lemma_named_first(list, name, from + 1, i);
        } else if from + 1 < list.len() {
            lemma_named_first(list, name, from + 1, from + 1);
        } else {
            lemma_named_first(list, name, from + 1, i);
        }
        assert(list[from] == list[from]);
    }
}

/// After a session was ended the cursor stays where it was, or goes to the last one; after
/// cleaning it stays, or goes to the first.
pub proof fn law_cursor_after(
    p: PickerV,
    index: usize,
    name: Seq<char>,
    cleaned: nat,
    found: Seq<SessionV>,
)
    requires
        found.len() <= usize::MAX,
    ensures
        ({
            let k = after_kill(p, index, name, found);
            let c = after_clean(p, cleaned, found);
            &&& k.sessions == found && c.sessions == found
            &&& k.destructive && c.destructive
            &&& k.mode == p.mode && c.mode == p.mode
            &&& name.is_suffix_of(k.status)
            &&& found.len() == 0 ==> k.selected is None && c.selected is None
            &&& index < found.len() ==> k.selected == Some(index)
            &&& 0 < found.len() <= index ==> k.selected == Some((found.len() - 1) as usize)
            &&& p.selected matches Some(i) ==> i < found.len() ==> c.selected == p.selected
            &&& found.len() > 0 && !(p.selected matches Some(i) && i < found.len())
                ==> c.selected == Some(0usize)
        }),
{
    let s = "killed "@ + name;
    assert(s.skip(s.len() - name.len()) =~= name);
}

/// The name of a session ends its row, and only one that does not answer has anything before it.
pub proof fn law_rows(s: SessionV)
    ensures
        s.session.is_suffix_of(row_text(s)),
        s.live <==> row_text(s) == s.session,
{
    reveal_strlit("[unreachable] ");
    let t = "[unreachable] "@ + s.session;
    assert(t.skip(t.len() - s.session.len()) =~= s.session);
    assert(t.len() > s.session.len());
    assert(s.session.skip(0) =~= s.session);
}

} // verus!
