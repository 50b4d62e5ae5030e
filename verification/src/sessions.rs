//! The sessions of a runtime directory: how they are found, listed, ended and renamed.

use vstd::prelude::*;

use crate::answers::{
    connect_failed, data_of, failed, failure, server_failed, succeeded, success, Ending, EndingV,
    OneShotOutcome, OneShotV,
};
use crate::cli::{GlobalArgs, GlobalV};
use crate::flags::{FlagMap, FlagsV};
use crate::json::{empty_object, json_text, list_view, render, unsigned, Json, JsonV};
use crate::order::{ordering, picked, sort_positions};
use crate::requests::REQUEST_ID;
use crate::text::{
    chars_of, debug_quoted, decimal, decimal_of, ends_with, has_char, head, is_white, opt_text,
    owned, parse_unsigned, quoted, read_unsigned, same, texts, trim, trimmed, white,
};

verus! {

/// A session that was found: its name, its socket, the process that owns it, whether the socket
/// answers, and when it was last changed, in nanoseconds since the epoch.
#[derive(Debug)]
pub struct DiscoveredSession {
    pub session: String,
    pub socket_path: String,
    pub pid: Option<u32>,
    pub live: bool,
    pub mtime: Option<u64>,
}

/// What a `DiscoveredSession` holds.
pub struct SessionV {
    pub session: Seq<char>,
    pub socket_path: Seq<char>,
    pub pid: Option<u32>,
    pub live: bool,
    pub mtime: Option<u64>,
}

impl View for DiscoveredSession {
    type V = SessionV;

    open spec fn view(&self) -> SessionV {
        SessionV {
            session: self.session@,
            socket_path: self.socket_path@,
            pid: self.pid,
            live: self.live,
            mtime: self.mtime,
        }
    }
}

/// What a list of sessions holds.
pub open spec fn sessions_view(list: Seq<DiscoveredSession>) -> Seq<SessionV> {
    list.map_values(|s: DiscoveredSession| s@)
}

pub fn copy_session(s: &DiscoveredSession) -> (r: DiscoveredSession)
    ensures
        r@ == s@,
{
    DiscoveredSession {
        session: owned(s.session.as_str()),
        socket_path: owned(s.socket_path.as_str()),
        pid: s.pid,
        live: s.live,
        mtime: s.mtime,
    }
}

/// The sessions at some positions of a list.
pub fn pick_sessions(list: &Vec<DiscoveredSession>, order: &Vec<usize>) -> (out: Vec<
    DiscoveredSession,
>)
    requires
        forall|i: int| 0 <= i < order.len() ==> #[trigger] order@[i] < list.len(),
    ensures
        sessions_view(out@) == picked(sessions_view(list@), order@),
{
    let mut out: Vec<DiscoveredSession> = Vec::new();
    let mut i: usize = 0;
    while i < order.len()
        invariant
            i <= order.len(),
            out.len() == i,
            forall|k: int| 0 <= k < order.len() ==> #[trigger] order@[k] < list.len(),
            forall|k: int| 0 <= k < i ==> (#[trigger] out@[k])@ == list@[order@[k] as int]@,
        decreases order.len() - i,
    {
        assert(order@[i as int] < list.len());
        out.push(copy_session(&list[order[i]]));
        i = i + 1;
    }
    assert(sessions_view(out@) =~= picked(sessions_view(list@), order@));
    out
}

// ---- finding ------------------------------------------------------------------------------

/// The session of a socket file: what stands before `.sock`.
pub open spec fn session_of(file_name: Seq<char>) -> Option<Seq<char>> {
    if ".sock"@.is_suffix_of(file_name) && file_name.len() > ".sock"@.len() {
        Some(file_name.take(file_name.len() - ".sock"@.len()))
    } else {
        None
    }
}

/// The session that a file in the runtime directory is the socket of.
pub fn session_of_file(file_name: &str) -> (r: Option<String>)
    ensures
        opt_text(r) == session_of(file_name@),
{
    proof {
        reveal_strlit(".sock");
    }
    let len: usize = file_name.unicode_len();
    if len > 5 && ends_with(file_name, ".sock") {
        Some(head(file_name, len - 5))
    } else {
        None
    }
}

/// The process that the contents of a pid file name.
pub open spec fn pid_in(content: Seq<char>) -> Option<u32> {
    match read_unsigned(trimmed(content), u32::MAX as int) {
        Some(n) => Some(n as u32),
        None => None,
    }
}

pub fn read_pid(content: &str) -> (r: Option<u32>)
    ensures
        r == pid_in(content@),
{
    match parse_unsigned(trim(content).as_str(), u32::MAX as u64) {
        Some(n) => Some(n as u32),
        None => None,
    }
}

/// What is seen of a file in the directory of the sockets: its name and path, what its pid file
/// says, whether it answers, and when its pid file and the file itself were last changed.
#[derive(Debug)]
pub struct SocketFile {
    pub name: String,
    pub path: String,
    pub pid_text: Option<String>,
    pub live: bool,
    pub pid_changed: Option<u64>,
    pub changed: Option<u64>,
}

/// The session of a file, where it is the socket of one.
pub open spec fn session_at(f: SocketFile) -> Option<SessionV> {
    match session_of(f.name@) {
        Some(session) => Some(
            SessionV {
                session,
                socket_path: f.path@,
                pid: match f.pid_text {
                    Some(text) => pid_in(text@),
                    None => None,
                },
                live: f.live,
                mtime: if f.pid_changed is Some {
                    f.pid_changed
                } else {
                    f.changed
                },
            },
        ),
        None => None,
    }
}

/// The sessions of the files, in their order.
pub open spec fn sessions_at(files: Seq<SocketFile>) -> Seq<SessionV>
    decreases files.len(),
{
    if files.len() == 0 {
        seq![]
    } else {
        match session_at(files.last()) {
            Some(s) => sessions_at(files.drop_last()).push(s),
            None => sessions_at(files.drop_last()),
        }
    }
}

/// The sessions whose sockets are among the files of a directory.
pub fn discover_sessions(files: &Vec<SocketFile>) -> (out: Vec<DiscoveredSession>)
    ensures
        sessions_view(out@) == sessions_at(files@),
{
    let mut out: Vec<DiscoveredSession> = Vec::new();
    let mut i: usize = 0;
    assert(sessions_view(out@) =~= seq![]);
    while i < files.len()
        invariant
            i <= files.len(),
            sessions_view(out@) == sessions_at(files@.take(i as int)),
        decreases files.len() - i,
    {
        let ghost before = out@;
        let f: &SocketFile = &files[i];
        proof {
            assert(files@.take(i + 1).drop_last() =~= files@.take(i as int));
        }
        if let Some(session) = session_of_file(f.name.as_str()) {
            let pid: Option<u32> = match &f.pid_text {
                Some(text) => read_pid(text.as_str()),
                None => None,
            };
            let s: DiscoveredSession = DiscoveredSession {
                session,
                socket_path: owned(f.path.as_str()),
                pid,
                live: f.live,
                mtime: if f.pid_changed.is_some() {
                    f.pid_changed
                } else {
                    f.changed
                },
            };
            out.push(s);
            assert(sessions_view(out@) =~= sessions_view(before).push(s@));
        }
        i = i + 1;
    }
    assert(files@.take(files.len() as int) =~= files@);
    out
}

/// Whether `out` is the list in the order of the session names.
pub open spec fn by_name(list: Seq<SessionV>, out: Seq<SessionV>) -> bool {
    exists|names: Seq<String>, order: Seq<usize>|
        {
            &&& names.len() == list.len()
            &&& forall|i: int| 0 <= i < list.len() ==> (#[trigger] names[i])@ == list[i].session
            &&& #[trigger] ordering(names, order)
            &&& out == picked(list, order)
        }
}

pub fn sort_by_name(list: &Vec<DiscoveredSession>) -> (out: Vec<DiscoveredSession>)
    ensures
        by_name(sessions_view(list@), sessions_view(out@)),
{
    let mut names: Vec<String> = Vec::new();
    let mut i: usize = 0;
    while i < list.len()
        invariant
            i <= list.len(),
            names.len() == i,
            forall|k: int| 0 <= k < i ==> (#[trigger] names@[k])@ == list@[k].session@,
        decreases list.len() - i,
    {
        names.push(owned(list[i].session.as_str()));
        i = i + 1;
    }
    let order: Vec<usize> = sort_positions(&names);
    let out: Vec<DiscoveredSession> = pick_sessions(list, &order);
    proof {
        assert(ordering(names@, order@));
        assert forall|k: int| 0 <= k < sessions_view(list@).len() implies (#[trigger] names@[k])@
            == sessions_view(list@)[k].session by {
            assert(sessions_view(list@)[k] == list@[k]@);
        }
    }
    out
}

// ---- listing ------------------------------------------------------------------------------

pub open spec fn status_text(live: bool) -> Seq<char> {
    if live {
        "live"@
    } else {
        "stale"@
    }
}

pub open spec fn pid_json(pid: Option<u32>) -> JsonV {
    match pid {
        Some(p) => unsigned(p as u64),
        None => JsonV::Null,
    }
}

/// A session as JSON; with its socket where that is wanted.
pub open spec fn session_json(s: SessionV, with_socket: bool) -> JsonV {
    let row = empty_object().with("session"@, JsonV::Text(s.session)).with(
        "name"@,
        JsonV::Text(s.session),
    ).with("pid"@, pid_json(s.pid)).with("status"@, JsonV::Text(status_text(s.live)));
    if with_socket {
        row.with("socket_path"@, JsonV::Text(s.socket_path))
    } else {
        row
    }
}

/// The sessions as JSON.
pub open spec fn sessions_json(list: Seq<SessionV>, with_socket: bool) -> JsonV {
    empty_object().with(
        "sessions"@,
        JsonV::List(list.map_values(|s: SessionV| session_json(s, with_socket))),
    )
}

/// A session as a line: its name, its process and whether it is live.
pub open spec fn session_line(s: SessionV) -> Seq<char> {
    s.session + " "@ + match s.pid {
        Some(p) => decimal(p as nat),
        None => "-"@,
    } + " "@ + status_text(s.live) + "\n"@
}

pub open spec fn session_lines(list: Seq<SessionV>) -> Seq<char>
    decreases list.len(),
{
    if list.len() == 0 {
        seq![]
    } else {
        session_lines(list.drop_last()) + session_line(list.last())
    }
}

fn status_name(live: bool) -> (r: &'static str)
    ensures
        r@ == status_text(live),
{
    if live {
        "live"
    } else {
        "stale"
    }
}

fn session_value(s: &DiscoveredSession, with_socket: bool) -> (r: Json)
    ensures
        r@ == session_json(s@, with_socket),
{
    let mut row: Json = Json::object();
    row.set("session", Json::text(s.session.as_str()));
    row.set("name", Json::text(s.session.as_str()));
    let pid: Json = match s.pid {
        Some(p) => Json::unsigned(p as u64),
        None => Json::Null,
    };
    row.set("pid", pid);
    row.set("status", Json::text(status_name(s.live)));
    if with_socket {
        row.set("socket_path", Json::text(s.socket_path.as_str()));
    }
    row
}

fn sessions_value(list: &Vec<DiscoveredSession>, with_socket: bool) -> (r: Json)
    ensures
        r@ == sessions_json(sessions_view(list@), with_socket),
{
    let mut rows: Vec<Json> = Vec::new();
    let mut i: usize = 0;
    while i < list.len()
        invariant
            i <= list.len(),
            rows.len() == i,
            forall|k: int|
                0 <= k < i ==> (#[trigger] rows@[k])@ == session_json(list@[k]@, with_socket),
        decreases list.len() - i,
    {
        rows.push(session_value(&list[i], with_socket));
        i = i + 1;
    }
    proof {
        assert(list_view(rows@) =~= sessions_view(list@).map_values(
            |s: SessionV| session_json(s, with_socket),
        ));
    }
    let mut r: Json = Json::object();
    r.set("sessions", Json::List(rows));
    r
}

/// `list-sessions`: the sessions by name, as lines or as JSON.
pub fn run_list_sessions(found: &Vec<DiscoveredSession>, json: bool) -> (e: Ending)
    ensures
        exists|list: Seq<SessionV>|
            #[trigger] by_name(sessions_view(found@), list) && e@ == success(
                if json {
                    json_text(sessions_json(list, false)) + "\n"@
                } else {
                    session_lines(list)
                },
            ),
{
    let list: Vec<DiscoveredSession> = sort_by_name(found);
    assert(by_name(sessions_view(found@), sessions_view(list@)));
    if json {
        let mut out: String = render(&sessions_value(&list, false));
        out.append("\n");
        return succeeded(out);
    }
    let mut out: String = String::new();
    let mut i: usize = 0;
    while i < list.len()
        invariant
            i <= list.len(),
            out@ == session_lines(sessions_view(list@).take(i as int)),
        decreases list.len() - i,
    {
        let s: &DiscoveredSession = &list[i];
        let mut line: String = owned(s.session.as_str());
        line.append(" ");
        match s.pid {
            Some(p) => {
                let n: String = decimal_of(p as u64);
                line.append(n.as_str());
            },
            None => {
                line.append("-");
            },
        }
        line.append(" ");
        line.append(status_name(s.live));
        line.append("\n");
        out.append(line.as_str());
        i = i + 1;
        assert(sessions_view(list@).take(i as int).drop_last() =~= sessions_view(list@).take(i - 1));
    }
    assert(sessions_view(list@).take(list@.len() as int) =~= sessions_view(list@));
    succeeded(out)
}

/// `attach --session-list --json`: the sessions by name as JSON, each with its socket.
pub fn run_attach_session_list_json(found: &Vec<DiscoveredSession>) -> (e: Ending)
    ensures
        exists|list: Seq<SessionV>|
            #[trigger] by_name(sessions_view(found@), list) && e@ == success(
                json_text(sessions_json(list, true)) + "\n"@,
            ),
{
    let list: Vec<DiscoveredSession> = sort_by_name(found);
    assert(by_name(sessions_view(found@), sessions_view(list@)));
    let mut out: String = render(&sessions_value(&list, true));
    out.append("\n");
    succeeded(out)
}

// ---- ending -------------------------------------------------------------------------------

/// Where the ending of a session stands.
#[derive(Clone, Copy, Debug, PartialEq, Eq, Structural)]
pub enum KillState {
    Begin,
    Terminating,
    Killing,
    Done,
}

/// What is done next: the process is asked to end, made to end, given time, or the files of the
/// session are removed.
#[derive(Clone, Copy, Debug, PartialEq, Eq, Structural)]
pub enum KillAction {
    SendTerm(u32),
    SendKill(u32),
    Sleep,
    RemoveFiles,
}

/// What is seen before the next step: whether the process is one of this program, whether it is
/// alive, and whether its time is up.
#[derive(Clone, Copy, Debug, PartialEq, Eq, Structural)]
pub struct Sight {
    pub ours: bool,
    pub alive: bool,
    pub late: bool,
}

/// The time that a process has after it was asked to end, and after it was made to.
pub const TERM_MILLIS: u64 = 2000;

pub const KILL_MILLIS: u64 = 1000;

/// The next state and action. A process of another program is left alone, and so is one that is
/// gone; the files are removed in any case.
pub open spec fn kill_step(state: KillState, pid: Option<u32>, sight: Sight) -> (
    KillState,
    KillAction,
) {
    match pid {
        None => (KillState::Done, KillAction::RemoveFiles),
        Some(p) => match state {
            KillState::Begin => if sight.ours {
                (KillState::Terminating, KillAction::SendTerm(p))
            } else {
                (KillState::Done, KillAction::RemoveFiles)
            },
            KillState::Terminating => if !sight.alive {
                (KillState::Done, KillAction::RemoveFiles)
            } else if sight.late {
                (KillState::Killing, KillAction::SendKill(p))
            } else {
                (KillState::Terminating, KillAction::Sleep)
            },
            KillState::Killing => if sight.alive && !sight.late {
                (KillState::Killing, KillAction::Sleep)
            } else {
                (KillState::Done, KillAction::RemoveFiles)
            },
            KillState::Done => (KillState::Done, KillAction::RemoveFiles),
        },
    }
}

pub fn kill_session_at(state: KillState, pid: Option<u32>, sight: Sight) -> (r: (
    KillState,
    KillAction,
))
    ensures
        r == kill_step(state, pid, sight),
{
    match pid {
        None => (KillState::Done, KillAction::RemoveFiles),
        Some(p) => match state {
            KillState::Begin => {
                if sight.ours {
                    (KillState::Terminating, KillAction::SendTerm(p))
                } else {
                    (KillState::Done, KillAction::RemoveFiles)
                }
            },
            KillState::Terminating => {
                if !sight.alive {
                    (KillState::Done, KillAction::RemoveFiles)
                } else if sight.late {
                    (KillState::Killing, KillAction::SendKill(p))
                } else {
                    (KillState::Terminating, KillAction::Sleep)
                }
            },
            KillState::Killing => {
                if sight.alive && !sight.late {
                    (KillState::Killing, KillAction::Sleep)
                } else {
                    (KillState::Done, KillAction::RemoveFiles)
                }
            },
            KillState::Done => (KillState::Done, KillAction::RemoveFiles),
        },
    }
}

/// Whether a process of this program was there to be asked to end.
pub open spec fn was_signalled(pid: Option<u32>, ours: bool) -> bool {
    pid is Some && ours
}

/// What ending a session comes to: whether its pid file named a process of this program, which was
/// then asked to end, whether it did so in time or not. `ours` is what was seen at the start.
pub fn kill_result(pid: Option<u32>, ours: bool) -> (r: bool)
    ensures
        r == was_signalled(pid, ours),
{
    pid.is_some() && ours
}

/// The states and actions over a run of sights.
pub open spec fn kill_run(pid: Option<u32>, sights: Seq<Sight>) -> (KillState, Seq<KillAction>)
    decreases sights.len(),
{
    if sights.len() == 0 {
        (KillState::Begin, seq![])
    } else {
        let (state, actions) = kill_run(pid, sights.drop_last());
        if state == KillState::Done {
            (state, actions)
        } else {
            let (next, action) = kill_step(state, pid, sights.last());
            (next, actions.push(action))
        }
    }
}

/// A process is made to end only after it was asked to, and only where it is this program's; it
/// is asked exactly where the result says so; and once all is done the files were removed,
/// whatever was seen.
pub proof fn law_kill_escalates(pid: Option<u32>, sights: Seq<Sight>)
    ensures
        ({
            let (state, actions) = kill_run(pid, sights);
            &&& forall|i: int|
                0 <= i < actions.len() && (#[trigger] actions[i]) is SendKill ==> {
                    &&& pid == Some(actions[i]->SendKill_0)
                    &&& actions[0] == KillAction::SendTerm(actions[i]->SendKill_0)
                    &&& i > 0
                }
            &&& forall|i: int|
                0 <= i < actions.len() && (#[trigger] actions[i]) is SendTerm ==> {
                    &&& i == 0
                    &&& sights[0].ours
                    &&& pid == Some(actions[i]->SendTerm_0)
                }
            &&& sights.len() > 0 ==> (was_signalled(pid, sights[0].ours) <==> exists|i: int|
                0 <= i < actions.len() && (#[trigger] actions[i]) is SendTerm)
            &&& state == KillState::Done ==> actions.len() > 0 && actions.last()
                == KillAction::RemoveFiles
        }),
{
    lemma_kill_run(pid, sights);
    let actions = kill_run(pid, sights).1;
    if sights.len() > 0 && was_signalled(pid, sights[0].ours) {
        assert(actions[0] is SendTerm);
    }
}

proof fn lemma_kill_run(pid: Option<u32>, sights: Seq<Sight>)
    ensures
        ({
            let (state, actions) = kill_run(pid, sights);
            &&& actions.len() <= sights.len()
            &&& (state == KillState::Begin <==> sights.len() == 0)
            &&& (state == KillState::Begin <==> actions.len() == 0)
            &&& (state == KillState::Terminating || state == KillState::Killing) ==> pid is Some
                && actions[0] == KillAction::SendTerm(pid->0)
            &&& forall|i: int|
                0 <= i < actions.len() && (#[trigger] actions[i]) is SendKill ==> {
                    &&& pid == Some(actions[i]->SendKill_0)
                    &&& actions[0] == KillAction::SendTerm(actions[i]->SendKill_0)
                    &&& i > 0
                }
            &&& forall|i: int|
                0 <= i < actions.len() && (#[trigger] actions[i]) is SendTerm ==> {
                    &&& i == 0
                    &&& sights[0].ours
                    &&& pid == Some(actions[i]->SendTerm_0)
                }
            &&& sights.len() > 0 ==> (actions[0] is SendTerm <==> was_signalled(
                pid,
                sights[0].ours,
            ))
            &&& state == KillState::Done ==> actions.last() == KillAction::RemoveFiles
        }),
    decreases sights.len(),
{
    if sights.len() > 0 {
        let front = sights.drop_last();
        lemma_kill_run(pid, front);
        let (state, actions) = kill_run(pid, front);
        if front.len() > 0 {
            assert(front[0] == sights[0]);
        }
        if state != KillState::Done {
            let (next, action) = kill_step(state, pid, sights.last());
            let all = actions.push(action);
            assert forall|i: int| 0 <= i < all.len() && (#[trigger] all[i]) is SendKill implies {
                &&& pid == Some(all[i]->SendKill_0)
                &&& all[0] == KillAction::SendTerm(all[i]->SendKill_0)
                &&& i > 0
            } by {
                if i < actions.len() {
                    assert(all[i] == actions[i]);
                    assert(all[0] == actions[0]);
                }
            }
            assert forall|i: int| 0 <= i < all.len() && (#[trigger] all[i]) is SendTerm implies {
                &&& i == 0
                &&& sights[0].ours
                &&& pid == Some(all[i]->SendTerm_0)
            } by {
                if i < actions.len() {
                    assert(all[i] == actions[i]);
                }
            }
        }
    }
}

/// The sockets of the sessions that do not answer, in the order of the list.
pub open spec fn stale_sockets(list: Seq<SessionV>) -> Seq<Seq<char>>
    decreases list.len(),
{
    if list.len() == 0 {
        seq![]
    } else if list.last().live {
        stale_sockets(list.drop_last())
    } else {
        stale_sockets(list.drop_last()).push(list.last().socket_path)
    }
}

/// The sockets that `kill-stale` removes, with their pid files, by session name.
pub fn kill_stale(found: &Vec<DiscoveredSession>) -> (out: Vec<String>)
    ensures
        exists|list: Seq<SessionV>|
            #[trigger] by_name(sessions_view(found@), list) && texts(out@) == stale_sockets(list),
{
    let list: Vec<DiscoveredSession> = sort_by_name(found);
    assert(by_name(sessions_view(found@), sessions_view(list@)));
    let mut out: Vec<String> = Vec::new();
    let mut i: usize = 0;
    assert(texts(out@) =~= seq![]);
    while i < list.len()
        invariant
            i <= list.len(),
            texts(out@) == stale_sockets(sessions_view(list@).take(i as int)),
        decreases list.len() - i,
    {
        assert(sessions_view(list@).take(i + 1).drop_last() =~= sessions_view(list@).take(i as int));
        if !list[i].live {
            let ghost before = out@;
            let path: String = owned(list[i].socket_path.as_str());
            out.push(path);
            assert(texts(out@) =~= texts(before).push(path@));
        }
        i = i + 1;
    }
    assert(sessions_view(list@).take(list@.len() as int) =~= sessions_view(list@));
    out
}

/// A live session is never among those that are removed, and every stale one is.
pub proof fn law_stale_sockets(list: Seq<SessionV>)
    ensures
        forall|p: Seq<char>| #[trigger]
            stale_sockets(list).contains(p) <==> exists|i: int|
                0 <= i < list.len() && !(#[trigger] list[i]).live && list[i].socket_path == p,
    decreases list.len(),
{
    if list.len() > 0 {
        let front = list.drop_last();
        law_stale_sockets(front);
        assert forall|p: Seq<char>| #[trigger]
            stale_sockets(list).contains(p) <==> exists|i: int|
                0 <= i < list.len() && !(#[trigger] list[i]).live && list[i].socket_path == p by {
            let rest = stale_sockets(front);
            if stale_sockets(list).contains(p) {
                let k = choose|k: int|
                    0 <= k < stale_sockets(list).len() && stale_sockets(list)[k] == p;
                if k < rest.len() {
                    assert(rest[k] == p);
                    assert(rest.contains(p));
                    let i = choose|i: int|
                        0 <= i < front.len() && !(#[trigger] front[i]).live && front[i].socket_path
                            == p;
                    assert(list[i] == front[i]);
                } else {
                    assert(list[list.len() - 1].socket_path == p);
                }
            }
            if exists|i: int|
                0 <= i < list.len() && !(#[trigger] list[i]).live && list[i].socket_path == p {
                let i = choose|i: int|
                    0 <= i < list.len() && !(#[trigger] list[i]).live && list[i].socket_path == p;
                if i < front.len() {
                    assert(front[i] == list[i]);
                    assert(rest.contains(p));
                    let k = choose|k: int| 0 <= k < rest.len() && rest[k] == p;
                    assert(stale_sockets(list)[k] == p);
                } else {
                    assert(stale_sockets(list)[rest.len() as int] == p);
                }
            }
        }
    }
}

/// `{"ok":true}`, with the number of sessions that were removed where there is one.
pub open spec fn ok_json(cleaned: Option<u64>) -> JsonV {
    let ok = empty_object().with("ok"@, JsonV::Bool(true));
    match cleaned {
        Some(n) => ok.with("cleaned"@, unsigned(n)),
        None => ok,
    }
}

/// The ending of `kill-session` and `kill-stale`.
pub fn killed_ending(json: bool, cleaned: Option<u64>) -> (e: Ending)
    ensures
        e@ == success(
            if json {
                json_text(ok_json(cleaned)) + "\n"@
            } else {
                seq![]
            },
        ),
{
    if !json {
        return succeeded(String::new());
    }
    let mut value: Json = Json::object();
    value.set("ok", Json::Bool(true));
    if let Some(n) = cleaned {
        value.set("cleaned", Json::unsigned(n));
    }
    let mut out: String = render(&value);
    out.append("\n");
    succeeded(out)
}

/// The session that `kill-session` is to end.
pub open spec fn kill_target_of(global: GlobalV, f: FlagsV) -> Option<Seq<char>> {
    match f.get("session"@) {
        Some(s) => Some(s),
        None => global.session,
    }
}

/// The session that `kill-session` is to end, or how it ends where none is named.
pub fn kill_target(global: &GlobalArgs, flags: &FlagMap) -> (r: Result<String, Ending>)
    ensures
        match r {
            Ok(name) => kill_target_of(global@, flags@) == Some(name@),
            Err(e) => kill_target_of(global@, flags@) is None && e@ == failure(
                2,
                "cmux: --session is required"@,
            ),
        },
{
    match flags.optional("session") {
        Some(s) => Ok(s),
        None => match &global.session {
            Some(s) => Ok(owned(s.as_str())),
            None => Err(failed(2, "cmux: --session is required".to_string())),
        },
    }
}

/// `cmux: session "name" ` and what is the matter with it.
pub open spec fn session_message(name: Seq<char>, fault: Seq<char>) -> Seq<char> {
    "cmux: session "@ + quoted(name) + fault
}

fn session_fault(code: i32, name: &str, fault: &str) -> (e: Ending)
    ensures
        e@ == failure(code, session_message(name@, fault@)),
{
    let mut message: String = "cmux: session ".to_string();
    let shown: String = debug_quoted(name);
    message.append(shown.as_str());
    message.append(fault);
    failed(code, message)
}

/// How `kill-session` goes on once its files were looked for: a session with neither of them is
/// not found.
pub fn run_kill_session(name: &str, sock_exists: bool, pid_exists: bool) -> (r: Option<Ending>)
    ensures
        match r {
            Some(e) => !sock_exists && !pid_exists && e@ == failure(
                1,
                session_message(name@, " not found"@),
            ),
            None => sock_exists || pid_exists,
        },
{
    if !sock_exists && !pid_exists {
        Some(session_fault(1, name, " not found"))
    } else {
        None
    }
}

// ---- renaming -----------------------------------------------------------------------------

/// What is wrong with the name of a session; the name becomes a part of a file name.
pub open spec fn name_fault(name: Seq<char>) -> Option<Seq<char>> {
    if name.len() == 0 {
        Some("session name must not be empty"@)
    } else if name.len() > 255 {
        Some("session name is too long"@)
    } else if name == "."@ || name == ".."@ {
        Some("session name must not be . or .."@)
    } else if name.contains('/') || name.contains('\\') || name.contains('\0') {
        Some("session name must not contain a path separator"@)
    } else if is_white(name[0]) || is_white(name.last()) {
        Some("session name must not start or end with white space"@)
    } else {
        None
    }
}

pub fn validate_session_name(name: &str) -> (r: Result<(), String>)
    ensures
        match r {
            Ok(_) => name_fault(name@) is None,
            Err(e) => name_fault(name@) == Some(e@),
        },
{
    let chars: Vec<char> = chars_of(name);
    if chars.len() == 0 {
        return Err("session name must not be empty".to_string());
    }
    if chars.len() > 255 {
        return Err("session name is too long".to_string());
    }
    if same(name, ".") || same(name, "..") {
        return Err("session name must not be . or ..".to_string());
    }
    if has_char(name, '/') || has_char(name, '\\') || has_char(name, '\0') {
        return Err("session name must not contain a path separator".to_string());
    }
    if white(chars[0]) || white(chars[chars.len() - 1]) {
        return Err("session name must not start or end with white space".to_string());
    }
    Ok(())
}

/// The old and the new name of a rename, or the ending where they cannot stand.
pub open spec fn rename_names(f: FlagsV) -> Result<(Seq<char>, Seq<char>), EndingV> {
    match f.required("old"@) {
        Err(e) => Err(failure(2, "cmux: "@ + e)),
        Ok(old_name) => match f.required("new"@) {
            Err(e) => Err(failure(2, "cmux: "@ + e)),
            Ok(new_name) => match name_fault(old_name) {
                Some(e) => Err(failure(2, "cmux: "@ + e)),
                None => match name_fault(new_name) {
                    Some(e) => Err(failure(2, "cmux: "@ + e)),
                    None => Ok((old_name, new_name)),
                },
            },
        },
    }
}

fn usage_failure(e: &str) -> (r: Ending)
    ensures
        r@ == failure(2, "cmux: "@ + e@),
{
    let mut message: String = "cmux: ".to_string();
    message.append(e);
    failed(2, message)
}

/// What `rename-session` was asked to do.
pub fn rename_request_names(flags: &FlagMap) -> (r: Result<(String, String), Ending>)
    ensures
        match r {
            Ok((a, b)) => rename_names(flags@) == Ok::<(Seq<char>, Seq<char>), EndingV>((a@, b@)),
            Err(e) => rename_names(flags@) == Err::<(Seq<char>, Seq<char>), EndingV>(e@),
        },
{
    let old_name: String = match flags.required("old") {
        Ok(v) => v,
        Err(e) => {
            return Err(usage_failure(e.0.as_str()));
        },
    };
    let new_name: String = match flags.required("new") {
        Ok(v) => v,
        Err(e) => {
            return Err(usage_failure(e.0.as_str()));
        },
    };
    if let Err(e) = validate_session_name(old_name.as_str()) {
        return Err(usage_failure(e.as_str()));
    }
    if let Err(e) = validate_session_name(new_name.as_str()) {
        return Err(usage_failure(e.as_str()));
    }
    Ok((old_name, new_name))
}

/// How a rename ends before the server is asked: the old session has to be there, and no live
/// session may have the new name.
pub open spec fn rename_refused(
    old_name: Seq<char>,
    new_name: Seq<char>,
    old_exists: bool,
    new_live: bool,
) -> Option<EndingV> {
    if !old_exists {
        Some(failure(1, session_message(old_name, " not found"@)))
    } else if new_live {
        Some(failure(2, session_message(new_name, " already exists"@)))
    } else {
        None
    }
}

pub fn rename_check(old_name: &str, new_name: &str, old_exists: bool, new_live: bool) -> (r: Option<
    Ending,
>)
    ensures
        match r {
            Some(e) => rename_refused(old_name@, new_name@, old_exists, new_live) == Some(e@),
            None => rename_refused(old_name@, new_name@, old_exists, new_live) is None,
        },
{
    if !old_exists {
        Some(session_fault(1, old_name, " not found"))
    } else if new_live {
        Some(session_fault(2, new_name, " already exists"))
    } else {
        None
    }
}

/// The request that renames a session.
pub open spec fn rename_json(new_name: Seq<char>) -> JsonV {
    empty_object().with("cmd"@, JsonV::Text("rename-session"@)).with(
        "new_name"@,
        JsonV::Text(new_name),
    ).with("id"@, unsigned(REQUEST_ID))
}

pub fn rename_request(new_name: &str) -> (r: Json)
    ensures
        r@ == rename_json(new_name@),
{
    let mut r: Json = Json::object();
    r.set("cmd", Json::text("rename-session"));
    r.set("new_name", Json::text(new_name));
    r.set("id", Json::unsigned(REQUEST_ID));
    r
}

/// What came of a rename.
#[derive(Debug)]
pub enum RenameOutcome {
    Renamed { socket_path: String, pid: u64 },
    ServerErr(String),
    ConnectErr(String),
}

pub enum RenameV {
    Renamed(Seq<char>, u64),
    ServerErr(Seq<char>),
    ConnectErr(Seq<char>),
}

impl View for RenameOutcome {
    type V = RenameV;

    open spec fn view(&self) -> RenameV {
        match self {
            RenameOutcome::Renamed { socket_path, pid } => RenameV::Renamed(socket_path@, *pid),
            RenameOutcome::ServerErr(e) => RenameV::ServerErr(e@),
            RenameOutcome::ConnectErr(e) => RenameV::ConnectErr(e@),
        }
    }
}

/// The answer to a rename has to name the socket and the process.
pub open spec fn renamed(o: OneShotV) -> RenameV {
    match o {
        OneShotV::Answer(value) => match (
            data_of(value).field_chars("socket_path"@),
            data_of(value).field_unsigned("pid"@),
        ) {
            (Some(path), Some(pid)) => RenameV::Renamed(path, pid),
            _ => RenameV::ServerErr("rename response missing socket_path/pid"@),
        },
        OneShotV::ServerErr(e) => RenameV::ServerErr(e),
        OneShotV::ConnectErr(e) => RenameV::ConnectErr(e),
    }
}

pub fn rename_rpc(outcome: OneShotOutcome) -> (r: RenameOutcome)
    ensures
        r@ == renamed(outcome@),
{
    match outcome {
        OneShotOutcome::Answer(value) => {
            let found: (Option<String>, Option<u64>) = match value.get("data") {
                Some(data) => {
                    let path: Option<String> = match data.field_chars("socket_path") {
                        Some(s) => Some(owned(s)),
                        None => None,
                    };
                    (path, data.field_unsigned("pid"))
                },
                None => (None, None),
            };
            match found {
                (Some(socket_path), Some(pid)) => RenameOutcome::Renamed { socket_path, pid },
                _ => RenameOutcome::ServerErr(
                    "rename response missing socket_path/pid".to_string(),
                ),
            }
        },
        OneShotOutcome::ServerErr(e) => RenameOutcome::ServerErr(e),
        OneShotOutcome::ConnectErr(e) => RenameOutcome::ConnectErr(e),
    }
}

/// The new socket of a session that was renamed, or why it was not.
pub fn rename_session_at(outcome: OneShotOutcome) -> (r: Result<String, String>)
    ensures
        match renamed(outcome@) {
            RenameV::Renamed(path, _) => r is Ok && r->Ok_0@ == path,
            RenameV::ServerErr(e) => r is Err && r->Err_0@ == e,
            RenameV::ConnectErr(e) => r is Err && r->Err_0@ == e,
        },
{
    match rename_rpc(outcome) {
        RenameOutcome::Renamed { socket_path, pid: _ } => Ok(socket_path),
        RenameOutcome::ServerErr(e) => Err(e),
        RenameOutcome::ConnectErr(e) => Err(e),
    }
}

/// How `rename-session` ends once the server was asked.
pub open spec fn rename_ending(o: OneShotV, new_name: Seq<char>, json: bool) -> EndingV {
    match renamed(o) {
        RenameV::Renamed(path, pid) => success(
            if json {
                json_text(
                    empty_object().with("session"@, JsonV::Text(new_name)).with(
                        "socket_path"@,
                        JsonV::Text(path),
                    ).with("pid"@, unsigned(pid)),
                ) + "\n"@
            } else {
                seq![]
            },
        ),
        RenameV::ServerErr(e) => failure(1, "cmux: "@ + e),
        RenameV::ConnectErr(e) => failure(3, e),
    }
}

pub fn run_rename_session(outcome: OneShotOutcome, new_name: &str, json: bool) -> (e: Ending)
    ensures
        e@ == rename_ending(outcome@, new_name@, json),
{
    match rename_rpc(outcome) {
        RenameOutcome::Renamed { socket_path, pid } => {
            if !json {
                return succeeded(String::new());
            }
            let mut value: Json = Json::object();
            value.set("session", Json::text(new_name));
            value.set("socket_path", Json::Text(socket_path));
            value.set("pid", Json::unsigned(pid));
            let mut out: String = render(&value);
            out.append("\n");
            succeeded(out)
        },
        RenameOutcome::ServerErr(e) => server_failed(e.as_str()),
        RenameOutcome::ConnectErr(e) => connect_failed(e),
    }
}

/// The request that moves another session to one of its workspaces.
pub open spec fn select_json(index: u64) -> JsonV {
    empty_object().with("cmd"@, JsonV::Text("select-workspace"@)).with(
        "index"@,
        unsigned(index),
    ).with("id"@, unsigned(REQUEST_ID))
}

pub fn select_request(index: u64) -> (r: Json)
    ensures
        r@ == select_json(index),
{
    let mut r: Json = Json::object();
    r.set("cmd", Json::text("select-workspace"));
    r.set("index", Json::unsigned(index));
    r.set("id", Json::unsigned(REQUEST_ID));
    r
}

/// Whether another session went to the workspace, or why it did not.
pub fn select_workspace_remote(outcome: OneShotOutcome) -> (r: Result<(), String>)
    ensures
        match outcome@ {
            OneShotV::Answer(_) => r is Ok,
            OneShotV::ServerErr(e) => r is Err && r->Err_0@ == e,
            OneShotV::ConnectErr(e) => r is Err && r->Err_0@ == e,
        },
{
    match outcome {
        OneShotOutcome::Answer(_) => Ok(()),
        OneShotOutcome::ServerErr(e) => Err(e),
        OneShotOutcome::ConnectErr(e) => Err(e),
    }
}

// ---- the socket ---------------------------------------------------------------------------

/// Which socket a command goes to: one that is named, or that of a session.
#[derive(Debug)]
pub enum SocketChoice {
    Path(String),
    Session(String),
}

pub enum SocketV {
    Path(Seq<char>),
    Session(Seq<char>),
}

impl View for SocketChoice {
    type V = SocketV;

    open spec fn view(&self) -> SocketV {
        match self {
            SocketChoice::Path(s) => SocketV::Path(s@),
            SocketChoice::Session(s) => SocketV::Session(s@),
        }
    }
}

/// The flag counts before the environment, and the environment before the session's own socket.
pub open spec fn socket_of(global: GlobalV, variable: Option<Seq<char>>) -> SocketV {
    match global.socket {
        Some(path) => SocketV::Path(path),
        None => match variable {
            Some(path) => if path.len() > 0 {
                SocketV::Path(path)
            } else {
                session_socket(global)
            },
            None => session_socket(global),
        },
    }
}

pub open spec fn session_socket(global: GlobalV) -> SocketV {
    match global.session {
        Some(s) => SocketV::Session(s),
        None => SocketV::Session("main"@),
    }
}

/// `variable` is the value of `CMUX_MUX_SOCKET`.
pub fn resolve_socket(global: &GlobalArgs, variable: &Option<String>) -> (r: SocketChoice)
    ensures
        r@ == socket_of(global@, opt_text(*variable)),
{
    if let Some(path) = &global.socket {
        return SocketChoice::Path(owned(path.as_str()));
    }
    if let Some(path) = variable {
        if !path.as_str().is_empty() {
            return SocketChoice::Path(owned(path.as_str()));
        }
    }
    match &global.session {
        Some(s) => SocketChoice::Session(owned(s.as_str())),
        None => SocketChoice::Session("main".to_string()),
    }
}

/// The file of a session's socket: the name with `.sock` behind it, and no other file is one.
pub proof fn law_socket_file(name: Seq<char>, file: Seq<char>)
    ensures
        name.len() > 0 ==> session_of(name + ".sock"@) == Some(name),
        session_of(".sock"@) is None,
        session_of(file) matches Some(s) ==> s.len() > 0 && file == s + ".sock"@,
{
    reveal_strlit(".sock");
    let whole = name + ".sock"@;
    assert(whole.skip(whole.len() - 5) =~= ".sock"@);
    assert(whole.take(whole.len() - 5) =~= name);
    if let Some(s) = session_of(file) {
        assert(file =~= file.take(file.len() - 5) + file.skip(file.len() - 5));
    }
}

/// A process number is read from what was written of it, with blanks round it.
pub proof fn law_pid_read(text: Seq<char>, p: u32)
    requires
        trimmed(text) == decimal(p as nat),
    ensures
        pid_in(text) == Some(p),
{
    crate::text::lemma_decimal_read(p as nat, u32::MAX as int);
}

/// Each socket is found once, in the order of the files, with what its file says of it: when it
/// was changed is taken from the file of the process, where there is one.
pub proof fn law_sessions_found(files: Seq<SocketFile>, f: SocketFile)
    ensures
        sessions_at(seq![]).len() == 0,
        session_of(f.name@) is None ==> sessions_at(files.push(f)) == sessions_at(files),
        session_of(f.name@) is Some ==> {
            let found = sessions_at(files.push(f));
            &&& found.drop_last() == sessions_at(files)
            &&& found.len() == sessions_at(files).len() + 1
            &&& f.name@ == found.last().session + ".sock"@
            &&& found.last().socket_path == f.path@
            &&& found.last().live == f.live
            &&& f.pid_text is None ==> found.last().pid is None
            &&& f.pid_text matches Some(t) ==> found.last().pid == pid_in(t@)
            &&& f.pid_changed is Some ==> found.last().mtime == f.pid_changed
            &&& f.pid_changed is None ==> found.last().mtime == f.changed
        },
{
    assert(files.push(f).drop_last() =~= files);
    law_socket_file(seq![], f.name@);
    if let Some(s) = session_at(f) {
        assert(sessions_at(files).push(s).drop_last() =~= sessions_at(files));
    }
}

/// Sessions by name: all of them, each once, none before one whose name comes first.
pub proof fn law_listed_by_name(list: Seq<SessionV>, out: Seq<SessionV>, i: int, j: int)
    requires
        by_name(list, out),
        0 <= i < j < out.len(),
    ensures
        out.len() == list.len(),
        crate::text::text_le(out[i].session, out[j].session),
        exists|from: Seq<int>|
            from.no_duplicates() && #[trigger] from.len() == list.len() && forall|k: int|
                0 <= k < from.len() ==> 0 <= #[trigger] from[k] < list.len() && out[k]
                    == list[from[k]],
{
    let (names, order) = choose|names: Seq<String>, order: Seq<usize>|
        {
            &&& names.len() == list.len()
            &&& forall|i: int| 0 <= i < list.len() ==> (#[trigger] names[i])@ == list[i].session
            &&& #[trigger] ordering(names, order)
            &&& out == picked(list, order)
        };
    assert(crate::order::comes_first(names, order[i], order[j]));
    assert(names[order[i] as int]@ == list[order[i] as int].session);
    assert(names[order[j] as int]@ == list[order[j] as int].session);
    let from = order.map_values(|k: usize| k as int);
    assert(from.no_duplicates()) by {
        assert forall|a: int, b: int|
            0 <= a < from.len() && 0 <= b < from.len() && a != b implies from[a] != from[b] by {
            assert(order[a] != order[b]);
        }
    }
    assert(from.len() == list.len());
}

proof fn lemma_fields_apart()
    ensures
        "session"@ != "name"@ && "session"@ != "pid"@ && "session"@ != "status"@,
        "session"@ != "socket_path"@ && "name"@ != "pid"@ && "name"@ != "status"@,
        "name"@ != "socket_path"@ && "pid"@ != "status"@ && "pid"@ != "socket_path"@,
        "status"@ != "socket_path"@,
        "cmd"@ != "new_name"@ && "cmd"@ != "id"@ && "new_name"@ != "id"@ && "cmd"@ != "index"@,
        "index"@ != "id"@ && "ok"@ != "cleaned"@,
        "live"@ != "stale"@,
{
    reveal_strlit("session");
    reveal_strlit("name");
    reveal_strlit("pid");
    reveal_strlit("status");
    reveal_strlit("socket_path");
    reveal_strlit("cmd");
    reveal_strlit("new_name");
    reveal_strlit("id");
    reveal_strlit("index");
    reveal_strlit("ok");
    reveal_strlit("cleaned");
    reveal_strlit("live");
    reveal_strlit("stale");
    assert("session"@[1] == 'e' && "cleaned"@[1] == 'l');
    assert("status"@[1] == 't');
    assert("session"@.len() == 7 && "name"@.len() == 4 && "pid"@.len() == 3 && "status"@.len() == 6);
    assert("socket_path"@.len() == 11 && "cmd"@.len() == 3 && "new_name"@.len() == 8);
    assert("id"@.len() == 2 && "index"@.len() == 5 && "ok"@.len() == 2 && "cleaned"@.len() == 7);
    assert("live"@.len() == 4 && "stale"@.len() == 5);
}

/// What a listing says of a session, each thing in the field of its name; the socket only where it
/// is asked for. The sessions of a listing stand in its order.
pub proof fn law_session_listed(s: SessionV, list: Seq<SessionV>, with_socket: bool)
    ensures
        ({
            let j = session_json(s, with_socket);
            &&& j.field("session"@) == Some(JsonV::Text(s.session))
            &&& j.field("name"@) == Some(JsonV::Text(s.session))
            &&& s.pid matches Some(p) ==> j.field("pid"@) == Some(unsigned(p as u64))
            &&& s.pid is None ==> j.field("pid"@) == Some(JsonV::Null)
            &&& s.live ==> j.field("status"@) == Some(JsonV::Text("live"@))
            &&& !s.live ==> j.field("status"@) == Some(JsonV::Text("stale"@))
            &&& with_socket ==> j.field("socket_path"@) == Some(JsonV::Text(s.socket_path))
            &&& !with_socket ==> j.field("socket_path"@) is None
        }),
        sessions_json(list, with_socket).field("sessions"@) matches Some(JsonV::List(items))
            && items.len() == list.len() && forall|i: int|
            0 <= i < list.len() ==> #[trigger] items[i] == session_json(list[i], with_socket),
        ({
            let line = session_line(s);
            &&& (s.session + " "@).is_prefix_of(line)
            &&& s.live ==> " live\n"@.is_suffix_of(line)
            &&& !s.live ==> " stale\n"@.is_suffix_of(line)
            &&& s.pid matches Some(p) ==> s.live ==> line == s.session + " "@ + decimal(p as nat)
                + " live\n"@
            &&& s.pid is None && !s.live ==> line == s.session + " - stale\n"@
        }),
        session_lines(list.push(s)) == session_lines(list) + session_line(s),
        session_lines(seq![]).len() == 0,
{
    lemma_fields_apart();
    reveal_strlit(" ");
    reveal_strlit("\n");
    reveal_strlit(" live\n");
    reveal_strlit(" stale\n");
    reveal_strlit("live");
    reveal_strlit("stale");
    reveal_strlit("-");
    reveal_strlit(" - stale\n");
    let line = session_line(s);
    let head = s.session + " "@;
    assert(line.take(head.len() as int) =~= head);
    assert(" "@ + "live"@ + "\n"@ =~= " live\n"@);
    assert(" "@ + "stale"@ + "\n"@ =~= " stale\n"@);
    let end = if s.live { " live\n"@ } else { " stale\n"@ };
    assert(line.skip(line.len() - end.len()) =~= end);
    if let Some(p) = s.pid {
        assert(line =~= s.session + " "@ + decimal(p as nat) + end);
    } else {
        assert(line =~= s.session + " "@ + "-"@ + end);
        if !s.live {
            assert(line =~= s.session + " - stale\n"@);
        }
    }
    assert(list.push(s).drop_last() =~= list);
}

/// Ending a session step by step: the process is asked once, waited for, and forced only when it
/// is late; whatever is seen then, the files go in the end.
pub proof fn law_kill_steps(p: u32, sight: Sight)
    ensures
        ({
            let begin = kill_step(KillState::Begin, Some(p), sight);
            let asked = kill_step(KillState::Terminating, Some(p), sight);
            let forced = kill_step(KillState::Killing, Some(p), sight);
            let ended = (KillState::Done, KillAction::RemoveFiles);
            &&& sight.ours ==> begin == (KillState::Terminating, KillAction::SendTerm(p))
            &&& !sight.ours ==> begin == ended
            &&& sight.alive && sight.late ==> asked == (KillState::Killing, KillAction::SendKill(p))
            &&& sight.alive && !sight.late ==> asked == (KillState::Terminating, KillAction::Sleep)
            &&& sight.alive && !sight.late ==> forced == (KillState::Killing, KillAction::Sleep)
            &&& !sight.alive ==> asked == ended
            &&& !sight.alive || sight.late ==> forced == ended
            &&& forall|state: KillState| #[trigger] kill_step(state, None, sight) == ended
        }),
{
}

/// The sockets that are cleaned stand in the order of the list.
pub proof fn law_stale_in_order(list: Seq<SessionV>, s: SessionV)
    ensures
        stale_sockets(seq![]).len() == 0,
        s.live ==> stale_sockets(list.push(s)) == stale_sockets(list),
        !s.live ==> stale_sockets(list.push(s)) == stale_sockets(list).push(s.socket_path),
{
    assert(list.push(s).drop_last() =~= list);
}

/// The flag names the session that is ended; without it the whole command's session does.
pub proof fn law_kill_target(global: GlobalV, f: FlagsV)
    ensures
        f.get("session"@) is Some ==> kill_target_of(global, f) == f.get("session"@),
        f.get("session"@) is None ==> kill_target_of(global, f) == global.session,
{
}

/// The requests that are sent, each thing in the field of its name.
pub proof fn law_session_requests(name: Seq<char>, index: u64, n: u64)
    ensures
        rename_json(name).field("cmd"@) == Some(JsonV::Text("rename-session"@)),
        rename_json(name).field("new_name"@) == Some(JsonV::Text(name)),
        rename_json(name).field("id"@) == Some(unsigned(1)),
        select_json(index).field("cmd"@) == Some(JsonV::Text("select-workspace"@)),
        select_json(index).field("index"@) == Some(unsigned(index)),
        select_json(index).field("id"@) == Some(unsigned(1)),
        ok_json(None).field("ok"@) == Some(JsonV::Bool(true)),
        ok_json(None).field("cleaned"@) is None,
        ok_json(Some(n)).field("ok"@) == Some(JsonV::Bool(true)),
        ok_json(Some(n)).field("cleaned"@) == Some(unsigned(n)),
{
    lemma_fields_apart();
}

/// A name of a session: not empty, not too long, no directory of its own, on one path level, and
/// without blanks at its ends. A rename takes two such names, the one it has before the new one,
/// and is refused where the session is not there or the new name is taken.
pub proof fn law_session_names(name: Seq<char>, f: FlagsV, old_exists: bool, new_live: bool)
    ensures
        name_fault(name) is None ==> {
            &&& 1 <= name.len() <= 255
            &&& name != "."@ && name != ".."@
            &&& forall|i: int|
                0 <= i < name.len() ==> #[trigger] name[i] != '/' && name[i] != '\\' && name[i]
                    != '\0'
            &&& !is_white(name[0]) && !is_white(name.last())
        },
        1 <= name.len() <= 255 && name != "."@ && name != ".."@ && !is_white(name[0]) && !is_white(
            name.last(),
        ) && (forall|i: int|
            0 <= i < name.len() ==> #[trigger] name[i] != '/' && name[i] != '\\' && name[i]
                != '\0') ==> name_fault(name) is None,
        rename_names(f) matches Ok(names) ==> {
            &&& f.get("old"@) == Some(names.0)
            &&& f.get("new"@) == Some(names.1)
            &&& name_fault(names.0) is None
            &&& name_fault(names.1) is None
        },
        f.get("old"@) matches Some(a) && f.get("new"@) matches Some(b) && name_fault(a) is None
            && name_fault(b) is None ==> rename_names(f) is Ok,
        rename_names(f) matches Err(e) ==> e.code == 2 && e.out.len() == 0,
        rename_refused(name, name, old_exists, new_live) is None <==> old_exists && !new_live,
        rename_refused(name, name, old_exists, new_live) matches Some(e) ==> e.code == (
        if old_exists {
            2i32
        } else {
            1i32
        }),
{
    if name_fault(name) is None {
        assert forall|i: int| 0 <= i < name.len() implies #[trigger] name[i] != '/' && name[i]
            != '\\' && name[i] != '\0' by {
            if name[i] == '/' || name[i] == '\\' || name[i] == '\0' {
                assert(name.contains(name[i]));
            }
        }
    }
}

/// What a server answers to a rename: the new path and the process, each from the field of its
/// name; an answer without one of them is a failure, and so is what could not be asked.
pub proof fn law_rename_answered(
    value: JsonV,
    path: Seq<char>,
    pid: u64,
    name: Seq<char>,
    e: Seq<char>,
)
    ensures
        data_of(value).field("socket_path"@) == Some(JsonV::Text(path)) && data_of(value).field(
            "pid"@,
        ) == Some(unsigned(pid)) ==> {
            &&& renamed(OneShotV::Answer(value)) == RenameV::Renamed(path, pid)
            &&& rename_ending(OneShotV::Answer(value), name, false) == success(seq![])
            &&& exists|j: JsonV|
                {
                    &&& #[trigger] rename_ending(OneShotV::Answer(value), name, true) == success(
                        json_text(j) + "\n"@,
                    )
                    &&& j.field("session"@) == Some(JsonV::Text(name))
                    &&& j.field("socket_path"@) == Some(JsonV::Text(path))
                    &&& j.field("pid"@) == Some(unsigned(pid))
                }
        },
        !(data_of(value).field("socket_path"@) matches Some(JsonV::Text(_))) ==> rename_ending(
            OneShotV::Answer(value),
            name,
            true,
        ).code == 1,
        rename_ending(OneShotV::ServerErr(e), name, true) == failure(1, "cmux: "@ + e),
        rename_ending(OneShotV::ConnectErr(e), name, true) == failure(3, e),
{
    lemma_fields_apart();
    let j = empty_object().with("session"@, JsonV::Text(name)).with(
        "socket_path"@,
        JsonV::Text(path),
    ).with("pid"@, unsigned(pid));
    assert(j.field("session"@) == Some(JsonV::Text(name)));
    assert(j.field("socket_path"@) == Some(JsonV::Text(path)));
    assert(j.field("pid"@) == Some(unsigned(pid)));
}

/// Where a command goes: to the socket that it names, else to the one that the environment names,
/// else to the socket of the session that it names, else to that of `main`.
pub proof fn law_socket_chosen(global: GlobalV, variable: Option<Seq<char>>, path: Seq<char>)
    ensures
        global.socket == Some(path) ==> socket_of(global, variable) == SocketV::Path(path),
        global.socket is None && variable == Some(path) && path.len() > 0 ==> socket_of(
            global,
            variable,
        ) == SocketV::Path(path),
        global.socket is None && (variable is None || variable == Some(Seq::<char>::empty())) ==> {
            &&& global.session matches Some(s) ==> socket_of(global, variable) == SocketV::Session(
                s,
            )
            &&& global.session is None ==> socket_of(global, variable) == SocketV::Session("main"@)
        },
{
}

/// Why a name or a rename is refused, in the order in which it is looked at.
pub proof fn law_session_messages(name: Seq<char>, other: Seq<char>, f: FlagsV, new_live: bool)
    ensures
        name.len() == 0 ==> name_fault(name) == Some("session name must not be empty"@),
        name.len() > 255 ==> name_fault(name) == Some("session name is too long"@),
        0 < name.len() <= 255 && name != "."@ && name != ".."@ && name.contains('/') ==> name_fault(
            name,
        ) == Some("session name must not contain a path separator"@),
        rename_refused(name, other, false, new_live) == Some(
            failure(1, "cmux: session "@ + quoted(name) + " not found"@),
        ),
        rename_refused(name, other, true, true) == Some(
            failure(2, "cmux: session "@ + quoted(other) + " already exists"@),
        ),
        f.get("old"@) is None ==> rename_names(f) == Err::<(Seq<char>, Seq<char>), EndingV>(
            failure(2, "cmux: "@ + ("--"@ + "old"@ + " is required"@)),
        ),
        f.get("old"@) is Some && f.get("new"@) is None ==> rename_names(f) == Err::<
            (Seq<char>, Seq<char>),
            EndingV,
        >(failure(2, "cmux: "@ + ("--"@ + "new"@ + " is required"@))),
{
}

} // verus!
