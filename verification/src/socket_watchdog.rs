//! The companion that removes the socket of a session whose process has died.

use vstd::prelude::*;

use crate::answers::{failed, failure, Ending, EndingV};
use crate::text::{
    decimal, decimal_of, extended, lemma_decimal_read, owned, parse_unsigned, read_unsigned, same,
    texts, with_extension,
};

verus! {

/// How long to wait before looking at the process again, in milliseconds.
pub const POLL_MS: u64 = 200;

/// How long after the death of the process the files may stay, in seconds.
pub const MAX_CLEANUP_SECS: u64 = 5;

pub const USAGE: &'static str =
    "cmux socket-watchdog — remove a session socket after the daemon dies

USAGE:
  cmux socket-watchdog --pid <daemon-pid> --socket <path>

Not intended for interactive use; the daemon spawns this automatically.";

/// What is watched.
#[derive(Debug)]
pub struct Watch {
    pub pid: u32,
    pub socket: String,
}

pub struct WatchV {
    pub pid: u32,
    pub socket: Seq<char>,
}

impl View for Watch {
    type V = WatchV;

    open spec fn view(&self) -> WatchV {
        WatchV { pid: self.pid, socket: self.socket@ }
    }
}

pub open spec fn watch_or_ending(r: Result<Watch, Ending>) -> Result<WatchV, EndingV> {
    match r {
        Ok(w) => Ok(w@),
        Err(e) => Err(e@),
    }
}

/// The words of the command that watches a process.
pub open spec fn spawn_words(pid: u32, socket: Seq<char>) -> Seq<Seq<char>> {
    seq!["socket-watchdog"@, "--pid"@, decimal(pid as nat), "--socket"@, socket]
}

pub fn spawn(pid: u32, socket: &str) -> (out: Vec<String>)
    ensures
        texts(out@) == spawn_words(pid, socket@),
{
    let out: Vec<String> = vec![
        "socket-watchdog".to_string(),
        "--pid".to_string(),
        decimal_of(pid as u64),
        "--socket".to_string(),
        owned(socket),
    ];
    assert(texts(out@) =~= spawn_words(pid, socket@));
    out
}

pub open spec fn complaint(rest: Seq<char>) -> EndingV {
    failure(2, "cmux socket-watchdog: "@ + rest)
}

fn complain(rest: &str) -> (e: Ending)
    ensures
        e@ == complaint(rest@),
{
    let mut m: String = "cmux socket-watchdog: ".to_string();
    m.append(rest);
    failed(2, m)
}

/// The process that a word names: neither none nor the first.
pub open spec fn watched_pid(word: Seq<char>) -> Option<u32> {
    match read_unsigned(word, u32::MAX as int) {
        Some(n) => if n > 1 {
            Some(n as u32)
        } else {
            None
        },
        None => None,
    }
}

/// Reads the words from word `i` on, with what the words before it said.
pub open spec fn read_words(
    args: Seq<Seq<char>>,
    i: int,
    pid: Option<u32>,
    socket: Option<Seq<char>>,
) -> Result<WatchV, EndingV>
    decreases args.len() - i,
{
    if i < 0 || i >= args.len() {
        match (pid, socket) {
            (None, _) => Err(complaint("--pid is required"@)),
            (Some(_), None) => Err(complaint("--socket is required"@)),
            (Some(pid), Some(socket)) => Ok(WatchV { pid, socket }),
        }
    } else if args[i] == "--pid"@ {
        if i + 1 >= args.len() {
            Err(complaint("--pid needs a value"@))
        } else {
            match watched_pid(args[i + 1]) {
                Some(p) => read_words(args, i + 2, Some(p), socket),
                None => Err(complaint("invalid --pid "@ + args[i + 1])),
            }
        }
    } else if args[i] == "--socket"@ {
        if i + 1 >= args.len() {
            Err(complaint("--socket needs a value"@))
        } else {
            read_words(args, i + 2, pid, Some(args[i + 1]))
        }
    } else if args[i] == "-h"@ || args[i] == "--help"@ {
        Err(failure(0, USAGE@))
    } else {
        Err(complaint("unknown argument "@ + args[i] + "\n"@ + USAGE@))
    }
}

/// What `cmux socket-watchdog` with these words watches, or how it ends without watching.
#[verifier::loop_isolation(false)]
pub fn run(args: &[String]) -> (r: Result<Watch, Ending>)
    ensures
        watch_or_ending(r) == read_words(texts(args@), 0, None, None),
{
    let ghost words = texts(args@);
    let mut pid: Option<u32> = None;
    let mut socket: Option<&str> = None;
    let mut i: usize = 0;
    while i < args.len()
        invariant
            words == texts(args@),
            read_words(words, 0, None, None) == read_words(
                words,
                i as int,
                pid,
                match socket {
                    Some(s) => Some(s@),
                    None => None,
                },
            ),
        decreases args.len() - i,
    {
        let word: &str = args[i].as_str();
        assert(words[i as int] == word@);
        if same(word, "--pid") {
            if args.len() - i < 2 {
                return Err(complain("--pid needs a value"));
            }
            let value: &str = args[i + 1].as_str();
            assert(words[i + 1] == value@);
            match parse_unsigned(value, u32::MAX as u64) {
                Some(n) if n > 1 => {
                    pid = Some(n as u32);
                },
                _ => {
                    let mut m: String = "invalid --pid ".to_string();
                    m.append(value);
                    return Err(complain(m.as_str()));
                },
            }
            i = i + 1;
        } else if same(word, "--socket") {
            if args.len() - i < 2 {
                return Err(complain("--socket needs a value"));
            }
            assert(words[i + 1] == args@[i + 1]@);
            socket = Some(args[i + 1].as_str());
            i = i + 1;
        } else if same(word, "-h") || same(word, "--help") {
            return Err(failed(0, owned(USAGE)));
        } else {
            let mut m: String = "unknown argument ".to_string();
            m.append(word);
            m.append("\n");
            m.append(USAGE);
            return Err(complain(m.as_str()));
        }
        i = i + 1;
    }
    match (pid, socket) {
        (None, _) => Err(complain("--pid is required")),
        (Some(_), None) => Err(complain("--socket is required")),
        (Some(pid), Some(socket)) => Ok(Watch { pid, socket: owned(socket) }),
    }
}

/// The command that is spawned watches the process and the socket that it was spawned for.
pub proof fn law_spawned_watches(pid: u32, socket: Seq<char>)
    requires
        pid > 1,
    ensures
        read_words(spawn_words(pid, socket).skip(1), 0, None, None) == Ok::<WatchV, EndingV>(
            WatchV { pid, socket },
        ),
{
    let args = spawn_words(pid, socket).skip(1);
    reveal_strlit("--pid");
    reveal_strlit("--socket");
    assert("--pid"@.len() == 5 && "--socket"@.len() == 8);
    lemma_decimal_read(pid as nat, u32::MAX as int);
    assert(args.len() == 4);
    assert(args[0] == "--pid"@);
    assert(args[1] == decimal(pid as nat));
    assert(args[2] == "--socket"@);
    assert(args[3] == socket);
    assert(read_words(args, 4, Some(pid), Some(socket)) == Ok::<WatchV, EndingV>(
        WatchV { pid, socket },
    ));
    assert(read_words(args, 2, Some(pid), None) == read_words(args, 4, Some(pid), Some(socket)));
}

/// Whether the process has to be watched further: it lives, and is still one of this program.
pub fn watch_until_dead(alive: bool, is_cmux: bool) -> (again: bool)
    ensures
        again == (alive && is_cmux),
{
    if !alive {
        return false;
    }
    is_cmux
}

/// The pid file that belongs to a socket: the same name, with the extension `pid`.
pub open spec fn pid_path_of(socket: Seq<char>) -> Seq<char> {
    extended(socket, "pid"@)
}

pub fn pid_path(socket: &str) -> (r: String)
    ensures
        r@ == pid_path_of(socket@),
{
    with_extension(socket, "pid")
}

/// The two files of a session, which go when its process has died.
pub fn cleanup_files(socket: &str) -> (r: (String, String))
    ensures
        r.0@ == socket@,
        r.1@ == pid_path_of(socket@),
{
    (owned(socket), pid_path(socket))
}

/// The words of a watchdog may stand in either order; a process that nothing may end is refused,
/// and so is a line that lacks one of the two.
pub proof fn law_watch_read(pid: u32, socket: Seq<char>, word: Seq<char>)
    requires
        pid > 1,
    ensures
        read_words(seq!["--socket"@, socket, "--pid"@, decimal(pid as nat)], 0, None, None) == Ok::<
            WatchV,
            EndingV,
        >(WatchV { pid, socket }),
        read_words(seq!["--pid"@, decimal(pid as nat), "--socket"@, socket], 0, None, None) == Ok::<
            WatchV,
            EndingV,
        >(WatchV { pid, socket }),
        read_words(seq!["--pid"@, decimal(pid as nat)], 0, None, None) matches Err(e) && e.code == 2,
        read_words(seq!["--socket"@, socket], 0, None, None) matches Err(e) && e.code == 2,
        read_words(seq!["--pid"@, decimal(0), "--socket"@, socket], 0, None, None) matches Err(e)
            && e.code == 2,
        read_words(seq!["--pid"@, decimal(1), "--socket"@, socket], 0, None, None) matches Err(e)
            && e.code == 2,
        spawn_words(pid, socket)[0] == "socket-watchdog"@,
{
    reveal_strlit("--pid");
    reveal_strlit("--socket");
    assert("--pid"@.len() == 5 && "--socket"@.len() == 8);
    crate::text::lemma_decimal_read(pid as nat, u32::MAX as int);
    crate::text::lemma_decimal_read(0, u32::MAX as int);
    crate::text::lemma_decimal_read(1, u32::MAX as int);
    reveal_with_fuel(read_words, 4);
}

} // verus!
