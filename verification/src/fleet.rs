//! The adapter that turns the verbs of the fleet plugin into requests.

use vstd::prelude::*;

use crate::text::{chars_of, code};

verus! {

/// How long a request may be.
pub const REQUEST_MAX: usize = 512;

/// How long the text of the arguments may be.
pub const ARGUMENTS_MAX: usize = 512;

/// How many bytes of the token are kept.
pub const TOKEN_MAX: usize = 64;

/// The bytes of a text of ASCII.
pub open spec fn ascii(s: Seq<char>) -> Seq<u8> {
    s.map_values(|c: char| c as u8)
}

/// Whether a text is of ASCII.
pub open spec fn is_ascii(s: Seq<char>) -> bool {
    forall|i: int| 0 <= i < s.len() ==> (#[trigger] s[i]) as u32 <= 127
}

fn bytes_of(s: &str) -> (out: Vec<u8>)
    requires
        is_ascii(s@),
    ensures
        out@ == ascii(s@),
{
    let chars: Vec<char> = chars_of(s);
    let mut out: Vec<u8> = Vec::new();
    let mut i: usize = 0;
    while i < chars.len()
        invariant
            i <= chars.len(),
            chars@ == s@,
            is_ascii(s@),
            out@ == ascii(s@.take(i as int)),
        decreases chars.len() - i,
    {
        let n: u32 = code(chars[i]);
        assert(s@[i as int] as u32 <= 127);
        out.push(n as u8);
        i = i + 1;
        assert(out@ =~= ascii(s@.take(i as int)));
    }
    assert(s@.take(s@.len() as int) =~= s@);
    out
}

pub fn eq(a: &[u8], b: &[u8]) -> (r: bool)
    ensures
        r == (a@ == b@),
{
    if a.len() != b.len() {
        return false;
    }
    let mut i: usize = 0;
    while i < a.len()
        invariant
            i <= a.len(),
            a.len() == b.len(),
            forall|k: int| 0 <= k < i ==> a@[k] == b@[k],
        decreases a.len() - i,
    {
        if a[i] != b[i] {
            return false;
        }
        i = i + 1;
    }
    assert(a@ =~= b@);
    true
}

pub const IDENTIFY: &'static str = "{\"id\":0,\"verb\":\"identify\",\"args\":{}}";

pub const LIST_WORKSPACES: &'static str = "{\"id\":0,\"verb\":\"list-workspaces\",\"args\":{}}";

pub const NEW_WORKSPACE_FRONT: &'static str =
    "{\"id\":0,\"verb\":\"new-workspace\",\"args\":{\"name\":\"";

pub const NEW_WORKSPACE_BACK: &'static str = "\"}}";

pub const CLOSE_WORKSPACE: &'static str =
    "{\"id\":0,\"verb\":\"close-workspace\",\"args\":{\"name\":\"fleet-scout\"}}";

/// The request that makes a workspace for a role.
pub open spec fn new_workspace(role: Seq<u8>) -> Seq<u8> {
    ascii(NEW_WORKSPACE_FRONT@) + role + ascii(NEW_WORKSPACE_BACK@)
}

/// The request of a verb. There is at most one for each.
pub open spec fn request_of(verb: Seq<u8>) -> Option<Seq<u8>> {
    if verb == ascii("ping"@) {
        Some(ascii(IDENTIFY@))
    } else if verb == ascii("status"@) {
        Some(ascii(LIST_WORKSPACES@))
    } else if verb == ascii("deploy"@) {
        Some(new_workspace(ascii("fleet-scout"@)))
    } else if verb == ascii("dispatch"@) {
        Some(new_workspace(ascii("fleet-worker"@)))
    } else if verb == ascii("rollback"@) {
        Some(ascii(CLOSE_WORKSPACE@))
    } else {
        None
    }
}

/// What the adapter does next.
#[derive(Debug)]
pub enum Step {
    /// Send the request.
    Send(Vec<u8>),
    /// Log the words, and end with the code.
    Fail { words: &'static str, code: i32 },
}

pub enum StepV {
    Send(Seq<u8>),
    Fail { words: Seq<char>, code: i32 },
}

impl View for Step {
    type V = StepV;

    open spec fn view(&self) -> StepV {
        match self {
            Step::Send(b) => StepV::Send(b@),
            Step::Fail { words, code } => StepV::Fail { words: words@, code: *code },
        }
    }
}

/// A request is sent only where it has room.
pub open spec fn sending(request: Seq<u8>) -> StepV {
    if request.len() > REQUEST_MAX {
        StepV::Fail { words: "request too large"@, code: 1 }
    } else {
        StepV::Send(request)
    }
}

pub fn send_request(request: Vec<u8>) -> (s: Step)
    ensures
        s@ == sending(request@),
{
    if request.len() > REQUEST_MAX {
        Step::Fail { words: "request too large", code: 1 }
    } else {
        Step::Send(request)
    }
}

fn put(out: &mut Vec<u8>, bytes: &[u8])
    ensures
        final(out)@ == old(out)@ + bytes@,
{
    let ghost before = out@;
    let mut i: usize = 0;
    assert(out@ =~= before + bytes@.take(0));
    while i < bytes.len()
        invariant
            i <= bytes.len(),
            out@ == before + bytes@.take(i as int),
        decreases bytes.len() - i,
    {
        out.push(bytes[i]);
        i = i + 1;
        assert(out@ =~= before + bytes@.take(i as int));
    }
    assert(bytes@.take(bytes.len() as int) =~= bytes@);
}

pub fn call_new_workspace(role: &[u8]) -> (s: Step)
    ensures
        s@ == sending(new_workspace(role@)),
{
    proof {
        reveal_strlit("{\"id\":0,\"verb\":\"new-workspace\",\"args\":{\"name\":\"");
        reveal_strlit("\"}}");
    }
    let mut request: Vec<u8> = bytes_of(NEW_WORKSPACE_FRONT);
    put(&mut request, role);
    let back: Vec<u8> = bytes_of(NEW_WORKSPACE_BACK);
    put(&mut request, back.as_slice());
    send_request(request)
}

pub open spec fn dispatching(verb: Seq<u8>) -> StepV {
    match request_of(verb) {
        Some(r) => sending(r),
        None => StepV::Fail { words: "unknown verb"@, code: 1 },
    }
}

/// What a verb does.
pub fn dispatch(verb: &[u8]) -> (s: Step)
    ensures
        s@ == dispatching(verb@),
{
    proof {
        reveal_strlit("ping");
        reveal_strlit("status");
        reveal_strlit("deploy");
        reveal_strlit("dispatch");
        reveal_strlit("rollback");
        reveal_strlit("fleet-scout");
        reveal_strlit("fleet-worker");
        reveal_strlit("{\"id\":0,\"verb\":\"identify\",\"args\":{}}");
        reveal_strlit("{\"id\":0,\"verb\":\"list-workspaces\",\"args\":{}}");
        reveal_strlit(
            "{\"id\":0,\"verb\":\"close-workspace\",\"args\":{\"name\":\"fleet-scout\"}}",
        );
    }
    if eq(verb, bytes_of("ping").as_slice()) {
        send_request(bytes_of(IDENTIFY))
    } else if eq(verb, bytes_of("status").as_slice()) {
        send_request(bytes_of(LIST_WORKSPACES))
    } else if eq(verb, bytes_of("deploy").as_slice()) {
        call_new_workspace(bytes_of("fleet-scout").as_slice())
    } else if eq(verb, bytes_of("dispatch").as_slice()) {
        call_new_workspace(bytes_of("fleet-worker").as_slice())
    } else if eq(verb, bytes_of("rollback").as_slice()) {
        send_request(bytes_of(CLOSE_WORKSPACE))
    } else {
        Step::Fail { words: "unknown verb", code: 1 }
    }
}

/// Every verb that the adapter knows has room for its request.
pub proof fn law_requests_fit(verb: Seq<u8>)
    ensures
        match request_of(verb) {
            Some(r) => r.len() <= REQUEST_MAX && dispatching(verb) == StepV::Send(r),
            None => dispatching(verb) == (StepV::Fail { words: "unknown verb"@, code: 1 }),
        },
{
    reveal_strlit("fleet-scout");
    reveal_strlit("fleet-worker");
    reveal_strlit("\"}}");
    reveal_strlit("{\"id\":0,\"verb\":\"new-workspace\",\"args\":{\"name\":\"");
    reveal_strlit("{\"id\":0,\"verb\":\"identify\",\"args\":{}}");
    reveal_strlit("{\"id\":0,\"verb\":\"list-workspaces\",\"args\":{}}");
    reveal_strlit("{\"id\":0,\"verb\":\"close-workspace\",\"args\":{\"name\":\"fleet-scout\"}}");
}

/// What is done with the length that came back for a request: a negative one is a failure.
pub fn send_request_bytes(response: i32) -> (r: Option<(&'static str, i32)>)
    ensures
        match r {
            Some((words, code)) => response < 0 && words@ == "cmux_call failed"@ && code == 1,
            None => response >= 0,
        },
{
    if response < 0 {
        Some(("cmux_call failed", 1))
    } else {
        None
    }
}

// ---- arguments and token ------------------------------------------------------------------

/// The bytes from a place up to the next zero byte.
pub open spec fn until_zero(bytes: Seq<u8>, from: int) -> Seq<u8>
    decreases bytes.len() - from,
{
    if from < 0 || from >= bytes.len() || bytes[from] == 0 {
        seq![]
    } else {
        seq![bytes[from]] + until_zero(bytes, from + 1)
    }
}

/// The first argument behind the program's own name, which starts at `start` in the text of the
/// arguments and ends before a zero byte; nothing where there is none, or no room for it.
pub open spec fn first_argument(
    count: i32,
    size: i32,
    buffer: Seq<u8>,
    start: int,
    room: int,
) -> Option<Seq<u8>> {
    if count < 2 || size < 0 || size > ARGUMENTS_MAX || room < size {
        None
    } else if until_zero(buffer, start).len() > room {
        None
    } else {
        Some(until_zero(buffer, start))
    }
}

pub fn read_argv1(count: i32, size: i32, buffer: &[u8], start: usize, room: usize) -> (r: Option<
    Vec<u8>,
>)
    requires
        start <= buffer.len(),
    ensures
        match r {
            Some(v) => first_argument(count, size, buffer@, start as int, room as int) == Some(v@),
            None => first_argument(count, size, buffer@, start as int, room as int) is None,
        },
{
    if count < 2 || size < 0 || size as usize > ARGUMENTS_MAX || room < size as usize {
        return None;
    }
    let ghost all = until_zero(buffer@, start as int);
    let mut out: Vec<u8> = Vec::new();
    let mut end: usize = start;
    assert(out@ + until_zero(buffer@, start as int) =~= all);
    while end < buffer.len() && buffer[end] != 0
        invariant
            start <= end <= buffer.len(),
            out@ + until_zero(buffer@, end as int) == all,
        decreases buffer.len() - end,
    {
        let ghost before = out@;
        out.push(buffer[end]);
        end = end + 1;
        assert(before + (seq![buffer@[end - 1]] + until_zero(buffer@, end as int)) =~= out@
            + until_zero(buffer@, end as int));
    }
    assert(out@ + Seq::<u8>::empty() =~= out@);
    if out.len() > room {
        None
    } else {
        Some(out)
    }
}

/// The place and the length that a packed number holds: its upper and its lower half.
pub fn unpack(packed: u64) -> (r: (u32, u32))
    ensures
        packed == r.0 * 0x1_0000_0000 + r.1,
{
    ((packed / 0x1_0000_0000) as u32, (packed % 0x1_0000_0000) as u32)
}

/// How much of a token of this length is kept.
pub fn read_token_into(len: usize) -> (n: usize)
    ensures
        n == if len > TOKEN_MAX {
            TOKEN_MAX
        } else {
            len
        },
{
    if len > TOKEN_MAX {
        TOKEN_MAX
    } else {
        len
    }
}

/// What the adapter does with the verb that it was called with; without one, or with an empty
/// one, it fails.
pub fn plugin_main(verb: &Option<Vec<u8>>) -> (s: Step)
    ensures
        s@ == match *verb {
            Some(v) => if v@.len() == 0 {
                StepV::Fail { words: "missing verb argument"@, code: 2 }
            } else {
                dispatching(v@)
            },
            None => StepV::Fail { words: "missing verb argument"@, code: 2 },
        },
{
    match verb {
        Some(v) => {
            if v.len() == 0 {
                Step::Fail { words: "missing verb argument", code: 2 }
            } else {
                dispatch(v.as_slice())
            }
        },
        None => Step::Fail { words: "missing verb argument", code: 2 },
    }
}

/// What each verb of the plugin sends, and that no other sends anything; a request that is too long
/// is not sent.
pub proof fn law_fleet_sends(verb: Seq<u8>, role: Seq<u8>, request: Seq<u8>)
    ensures
        request_of(ascii("ping"@)) == Some(ascii(IDENTIFY@)),
        request_of(ascii("status"@)) == Some(ascii(LIST_WORKSPACES@)),
        request_of(ascii("deploy"@)) == Some(new_workspace(ascii("fleet-scout"@))),
        request_of(ascii("dispatch"@)) == Some(new_workspace(ascii("fleet-worker"@))),
        request_of(ascii("rollback"@)) == Some(ascii(CLOSE_WORKSPACE@)),
        verb.len() != 4 && verb.len() != 6 && verb.len() != 8 ==> dispatching(verb) is Fail,
        sending(request) == StepV::Send(request) || sending(request) is Fail,
        sending(request) is Fail <==> request.len() > REQUEST_MAX,
        ascii(NEW_WORKSPACE_FRONT@).is_prefix_of(new_workspace(role)),
        ascii(NEW_WORKSPACE_BACK@).is_suffix_of(new_workspace(role)),
        new_workspace(role).len() == ascii(NEW_WORKSPACE_FRONT@).len() + role.len() + ascii(
            NEW_WORKSPACE_BACK@,
        ).len(),
{
    reveal_strlit("ping");
    reveal_strlit("status");
    reveal_strlit("deploy");
    reveal_strlit("dispatch");
    reveal_strlit("rollback");
    assert("ping"@.len() == 4 && "status"@.len() == 6 && "deploy"@.len() == 6);
    assert("dispatch"@.len() == 8 && "rollback"@.len() == 8);
    assert("status"@[0] == 's' && "deploy"@[0] == 'd' && "dispatch"@[0] == 'd' && "rollback"@[0]
        == 'r');
    assert(ascii("status"@)[0] == 's' as u8 && ascii("deploy"@)[0] == 'd' as u8);
    assert(ascii("dispatch"@)[0] == 'd' as u8 && ascii("rollback"@)[0] == 'r' as u8);
    assert(ascii("ping"@).len() == 4 && ascii("status"@).len() == 6 && ascii("deploy"@).len() == 6);
    assert(ascii("dispatch"@).len() == 8 && ascii("rollback"@).len() == 8);
    let front = ascii(NEW_WORKSPACE_FRONT@);
    let back = ascii(NEW_WORKSPACE_BACK@);
    let all = new_workspace(role);
    assert(all.take(front.len() as int) =~= front);
    assert(all.skip(all.len() - back.len()) =~= back);
}

/// An argument ends at the first zero; where there is none behind the program's name, or it does
/// not fit, there is no argument.
pub proof fn law_argument(
    front: Seq<u8>,
    word: Seq<u8>,
    rest: Seq<u8>,
    count: i32,
    size: i32,
    room: int,
)
    requires
        forall|k: int| 0 <= k < word.len() ==> #[trigger] word[k] != 0,
    ensures
        until_zero(front + word + seq![0u8] + rest, front.len() as int) == word,
        count >= 2 && 0 <= size <= ARGUMENTS_MAX && size <= room && word.len() <= room
            ==> first_argument(count, size, front + word + seq![0u8] + rest, front.len() as int, room)
            == Some(word),
        count < 2 ==> first_argument(
            count,
            size,
            front + word + seq![0u8] + rest,
            front.len() as int,
            room,
        ) is None,
{
    let all = front + word + seq![0u8] + rest;
    lemma_until_zero(all, word, front.len() as int, 0);
    assert(word.skip(0) =~= word);
}

proof fn lemma_until_zero(all: Seq<u8>, word: Seq<u8>, from: int, i: int)
    requires
        0 <= i <= word.len(),
        0 <= from,
        from + word.len() < all.len(),
        all[from + word.len()] == 0,
        forall|k: int| 0 <= k < word.len() ==> #[trigger] word[k] != 0 && all[from + k] == word[k],
    ensures
        until_zero(all, from + i) == word.skip(i),
    decreases word.len() - i,
{
    if i < word.len() {
        assert(word[i] != 0 && all[from + i] == word[i]);
        lemma_until_zero(all, word, from, i + 1);
        assert(seq![word[i]] + word.skip(i + 1) =~= word.skip(i));
    } else {
        assert(word.skip(i) =~= seq![]);
    }
}

} // verus!
