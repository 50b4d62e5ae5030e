//! What is done with the lines that come back over the control socket.

use vstd::prelude::*;

use crate::json::{json_text, parse, read_json, reading, render, Json, JsonV};
use crate::output::{print, shows, text_or};
use crate::requests::REQUEST_ID;
use crate::text::{chars_of, ends_with, head, opt_text, owned};
use crate::verbs::Verb;

verus! {

/// How a command ends: its exit code, and what it writes to its two outputs.
#[derive(Debug)]
pub struct Ending {
    pub code: i32,
    pub out: String,
    pub err: Option<String>,
}

/// What an `Ending` holds.
pub struct EndingV {
    pub code: i32,
    pub out: Seq<char>,
    pub err: Option<Seq<char>>,
}

impl View for Ending {
    type V = EndingV;

    open spec fn view(&self) -> EndingV {
        EndingV { code: self.code, out: self.out@, err: opt_text(self.err) }
    }
}

/// An ending with a message and nothing printed.
pub open spec fn failure(code: i32, message: Seq<char>) -> EndingV {
    EndingV { code, out: seq![], err: Some(message) }
}

/// An ending without a message.
pub open spec fn success(out: Seq<char>) -> EndingV {
    EndingV { code: 0, out, err: None }
}

pub fn failed(code: i32, message: String) -> (e: Ending)
    ensures
        e@ == failure(code, message@),
{
    Ending { code, out: String::new(), err: Some(message) }
}

pub fn succeeded(out: String) -> (e: Ending)
    ensures
        e@ == success(out@),
{
    Ending { code: 0, out, err: None }
}

fn failed_with(code: i32, front: &str, back: &str) -> (e: Ending)
    ensures
        e@ == failure(code, front@ + back@),
{
    let mut message: String = owned(front);
    message.append(back);
    failed(code, message)
}

/// What came of reading one line from the socket.
#[derive(Debug)]
pub enum Read {
    Closed,
    Line(String),
    Failed(String),
}

// ---- one answer ---------------------------------------------------------------------------

/// What is done after a line: another one is read, or the command ends.
#[derive(Debug)]
pub enum Reply {
    Again,
    Done(Ending),
}

pub enum ReplyV {
    Again,
    Done(EndingV),
}

impl View for Reply {
    type V = ReplyV;

    open spec fn view(&self) -> ReplyV {
        match self {
            Reply::Again => ReplyV::Again,
            Reply::Done(e) => ReplyV::Done(e@),
        }
    }
}

/// Whether the socket reports success.
pub open spec fn says_ok(value: JsonV) -> bool {
    value.field_flag("ok"@) == Some(true)
}

/// The data of an answer.
pub open spec fn data_of(value: JsonV) -> JsonV {
    match value.field("data"@) {
        Some(data) => data,
        None => JsonV::Null,
    }
}

/// Whether a command ends in this way on an answer.
pub open spec fn ends_on(value: JsonV, json_output: bool, verb: Verb, end: EndingV) -> bool {
    if !says_ok(value) {
        end == failure(1, text_or(value, "error"@, "unknown error"@))
    } else if json_output {
        end == success(json_text(data_of(value)) + "\n"@)
    } else {
        shows(verb, data_of(value), end.out) && end == success(end.out)
    }
}

pub fn print_response(value: &Json, json_output: bool, verb: Verb) -> (e: Ending)
    ensures
        ends_on(value@, json_output, verb, e@),
{
    let ok: bool = match value.field_flag("ok") {
        Some(b) => b,
        None => false,
    };
    if !ok {
        return match value.field_chars("error") {
            Some(error) => failed(1, owned(error)),
            None => failed(1, "unknown error".to_string()),
        };
    }
    let null: Json = Json::Null;
    let data: &Json = match value.get("data") {
        Some(data) => data,
        None => &null,
    };
    if json_output {
        let mut out: String = render(data);
        out.append("\n");
        succeeded(out)
    } else {
        succeeded(print(verb, data))
    }
}

/// Whether this is what is done with a line once it was read as JSON: an event is passed over.
pub open spec fn replies(
    parsed: Result<JsonV, Seq<char>>,
    json_output: bool,
    verb: Verb,
    reply: ReplyV,
) -> bool {
    match parsed {
        Err(why) => reply == ReplyV::Done(failure(3, "bad response: "@ + why)),
        Ok(value) => if value.field("event"@) is Some {
            reply is Again
        } else {
            reply matches ReplyV::Done(end) && ends_on(value, json_output, verb, end)
        },
    }
}

/// What is done with a line that was read as JSON.
pub fn answer(parsed: Result<Json, String>, json_output: bool, verb: Verb) -> (r: Reply)
    ensures
        replies(reading(parsed), json_output, verb, r@),
{
    match parsed {
        Err(why) => Reply::Done(failed_with(3, "bad response: ", why.as_str())),
        Ok(value) => {
            if value.get("event").is_some() {
                Reply::Again
            } else {
                Reply::Done(print_response(&value, json_output, verb))
            }
        },
    }
}

/// What is done after one read, until the answer to the request has come.
pub fn run_one_response(read: &Read, json_output: bool, verb: Verb) -> (r: Reply)
    ensures
        match *read {
            Read::Closed => r@ == ReplyV::Done(failure(3, "transport closed before response"@)),
            Read::Failed(why) => r@ == ReplyV::Done(failure(3, "transport error: "@ + why@)),
            Read::Line(line) => replies(read_json(line@), json_output, verb, r@),
        },
{
    match read {
        Read::Closed => Reply::Done(failed(3, "transport closed before response".to_string())),
        Read::Failed(why) => Reply::Done(failed_with(3, "transport error: ", why.as_str())),
        Read::Line(line) => {
            let parsed: Result<Json, String> = parse(line.as_str());
            answer(parsed, json_output, verb)
        },
    }
}

// ---- a stream -----------------------------------------------------------------------------

/// What came of one more read into the line of a stream.
#[derive(Debug)]
pub enum StreamRead {
    /// Nothing more will come.
    Closed,
    /// Something was put behind the line.
    Got,
    /// Nothing came in time.
    Pending,
    Failed(String),
}

/// What is done after a read: the line is kept and read on, dropped, shown and dropped, or the
/// command ends.
#[derive(Debug)]
pub enum StreamStep {
    Keep,
    Drop,
    Show(String),
    Done(Ending),
}

pub enum StreamStepV {
    Keep,
    Drop,
    Show(Seq<char>),
    Done(EndingV),
}

impl View for StreamStep {
    type V = StreamStepV;

    open spec fn view(&self) -> StreamStepV {
        match self {
            StreamStep::Keep => StreamStepV::Keep,
            StreamStep::Drop => StreamStepV::Drop,
            StreamStep::Show(s) => StreamStepV::Show(s@),
            StreamStep::Done(e) => StreamStepV::Done(e@),
        }
    }
}

/// A line without the carriage returns and line feeds at its end.
pub open spec fn without_newlines(s: Seq<char>) -> Seq<char>
    decreases s.len(),
{
    if s.len() > 0 && (s.last() == '\r' || s.last() == '\n') {
        without_newlines(s.drop_last())
    } else {
        s
    }
}

fn strip_newlines(s: &str) -> (r: String)
    ensures
        r@ == without_newlines(s@),
{
    let chars: Vec<char> = chars_of(s);
    let mut n: usize = chars.len();
    proof {
        assert(chars@.take(n as int) =~= chars@);
    }
    while n > 0 && (chars[n - 1] == '\r' || chars[n - 1] == '\n')
        invariant
            n <= chars.len(),
            chars@ == s@,
            without_newlines(s@) == without_newlines(chars@.take(n as int)),
        decreases n,
    {
        proof {
            assert(chars@.take(n as int).drop_last() =~= chars@.take(n - 1));
        }
        n = n - 1;
    }
    head(s, n)
}

/// What is done with a whole line of a stream: an event is shown, the word that the stream has
/// begun and the answers to others are passed over, a refusal ends the command.
pub open spec fn streamed(line: Seq<char>, parsed: Result<JsonV, Seq<char>>) -> StreamStepV {
    match parsed {
        Err(why) => StreamStepV::Done(failure(3, "bad stream line: "@ + why)),
        Ok(value) => if value.field("event"@) is Some {
            StreamStepV::Show(without_newlines(line))
        } else if value.field_unsigned("id"@) != Some(REQUEST_ID) {
            StreamStepV::Drop
        } else if says_ok(value) {
            StreamStepV::Drop
        } else {
            StreamStepV::Done(failure(1, text_or(value, "error"@, "unknown error"@)))
        },
    }
}

pub fn stream_line(line: &str, parsed: Result<Json, String>) -> (r: StreamStep)
    ensures
        r@ == streamed(line@, reading(parsed)),
{
    match parsed {
        Err(why) => StreamStep::Done(failed_with(3, "bad stream line: ", why.as_str())),
        Ok(value) => {
            if value.get("event").is_some() {
                return StreamStep::Show(strip_newlines(line));
            }
            let mine: bool = match value.field_unsigned("id") {
                Some(n) => n == REQUEST_ID,
                None => false,
            };
            if !mine {
                return StreamStep::Drop;
            }
            let ok: bool = match value.field_flag("ok") {
                Some(b) => b,
                None => false,
            };
            if ok {
                return StreamStep::Drop;
            }
            match value.field_chars("error") {
                Some(error) => StreamStep::Done(failed(1, owned(error))),
                None => StreamStep::Done(failed(1, "unknown error".to_string())),
            }
        },
    }
}

/// What is done after one read of a stream; `line` is all that was read since the last line was
/// dropped.
pub fn run_stream(line: &str, read: &StreamRead) -> (r: StreamStep)
    ensures
        match *read {
            StreamRead::Closed => r@ == StreamStepV::Done(
                if line@.len() == 0 {
                    success(seq![])
                } else {
                    failure(3, "transport closed with partial stream line"@)
                },
            ),
            StreamRead::Pending => r@ == StreamStepV::Keep,
            StreamRead::Failed(why) => r@ == StreamStepV::Done(
                failure(3, "transport error: "@ + why@),
            ),
            StreamRead::Got => if "\n"@.is_suffix_of(line@) {
                r@ == streamed(line@, read_json(line@))
            } else {
                r@ == StreamStepV::Done(failure(3, "transport closed with partial stream line"@))
            },
        },
{
    match read {
        StreamRead::Closed => {
            if line.is_empty() {
                StreamStep::Done(succeeded(String::new()))
            } else {
                StreamStep::Done(
                    failed(3, "transport closed with partial stream line".to_string()),
                )
            }
        },
        StreamRead::Pending => StreamStep::Keep,
        StreamRead::Failed(why) => StreamStep::Done(
            failed_with(3, "transport error: ", why.as_str()),
        ),
        StreamRead::Got => {
            if !ends_with(line, "\n") {
                return StreamStep::Done(
                    failed(3, "transport closed with partial stream line".to_string()),
                );
            }
            let parsed: Result<Json, String> = parse(line);
            stream_line(line, parsed)
        },
    }
}

// ---- one question -------------------------------------------------------------------------

/// What came of one request to a socket: the answer, a refusal by the server, or a connection
/// that could not be had or was lost.
#[derive(Debug)]
pub enum OneShotOutcome {
    Answer(Json),
    ServerErr(String),
    ConnectErr(String),
}

pub enum OneShotV {
    Answer(JsonV),
    ServerErr(Seq<char>),
    ConnectErr(Seq<char>),
}

impl View for OneShotOutcome {
    type V = OneShotV;

    open spec fn view(&self) -> OneShotV {
        match self {
            OneShotOutcome::Answer(j) => OneShotV::Answer(j@),
            OneShotOutcome::ServerErr(e) => OneShotV::ServerErr(e@),
            OneShotOutcome::ConnectErr(e) => OneShotV::ConnectErr(e@),
        }
    }
}

/// The outcome that a line is, nothing where it is an event.
pub open spec fn shot(parsed: Result<JsonV, Seq<char>>) -> Option<OneShotV> {
    match parsed {
        Err(why) => Some(OneShotV::ServerErr("bad response: "@ + why)),
        Ok(value) => if value.field("event"@) is Some {
            None
        } else if says_ok(value) {
            Some(OneShotV::Answer(value))
        } else {
            Some(OneShotV::ServerErr(text_or(value, "error"@, "request failed"@)))
        },
    }
}

pub open spec fn opt_shot(r: Option<OneShotOutcome>) -> Option<OneShotV> {
    match r {
        Some(o) => Some(o@),
        None => None,
    }
}

pub fn one_shot_line(parsed: Result<Json, String>) -> (r: Option<OneShotOutcome>)
    ensures
        opt_shot(r) == shot(reading(parsed)),
{
    match parsed {
        Err(why) => {
            let mut message: String = "bad response: ".to_string();
            message.append(why.as_str());
            Some(OneShotOutcome::ServerErr(message))
        },
        Ok(value) => {
            if value.get("event").is_some() {
                return None;
            }
            let ok: bool = match value.field_flag("ok") {
                Some(b) => b,
                None => false,
            };
            if ok {
                return Some(OneShotOutcome::Answer(value));
            }
            match value.field_chars("error") {
                Some(error) => Some(OneShotOutcome::ServerErr(owned(error))),
                None => Some(OneShotOutcome::ServerErr("request failed".to_string())),
            }
        },
    }
}

/// The outcome after one read; nothing where another line has to be read.
pub fn one_shot_rpc(read: &Read) -> (r: Option<OneShotOutcome>)
    ensures
        match *read {
            Read::Closed => opt_shot(r) == Some(
                OneShotV::ServerErr("transport closed before response"@),
            ),
            Read::Failed(why) => opt_shot(r) == Some(
                OneShotV::ConnectErr("transport error: "@ + why@),
            ),
            Read::Line(line) => opt_shot(r) == shot(read_json(line@)),
        },
{
    match read {
        Read::Closed => Some(
            OneShotOutcome::ServerErr("transport closed before response".to_string()),
        ),
        Read::Failed(why) => {
            let mut message: String = "transport error: ".to_string();
            message.append(why.as_str());
            Some(OneShotOutcome::ConnectErr(message))
        },
        Read::Line(line) => {
            let parsed: Result<Json, String> = parse(line.as_str());
            one_shot_line(parsed)
        },
    }
}

/// How a command that failed over the socket ends: a refusal is marked with the program's name,
/// a lost connection is told as it is.
pub open spec fn shot_failure(o: OneShotV) -> EndingV {
    match o {
        OneShotV::ServerErr(e) => failure(1, "cmux: "@ + e),
        OneShotV::ConnectErr(e) => failure(3, e),
        OneShotV::Answer(_) => success(seq![]),
    }
}

pub fn server_failed(e: &str) -> (r: Ending)
    ensures
        r@ == shot_failure(OneShotV::ServerErr(e@)),
{
    failed_with(1, "cmux: ", e)
}

pub fn connect_failed(e: String) -> (r: Ending)
    ensures
        r@ == shot_failure(OneShotV::ConnectErr(e@)),
{
    failed(3, e)
}

/// What is made of an answer: an event is passed over, the error of a server that refuses is the
/// message, and what a server that agrees sends is printed, as JSON where that is asked for. What
/// cannot be read is a failure of its own.
pub proof fn law_answers(
    value: JsonV,
    why: Seq<char>,
    told: Seq<char>,
    json_output: bool,
    verb: Verb,
    reply: ReplyV,
)
    ensures
        replies(Err(why), json_output, verb, reply) ==> (reply matches ReplyV::Done(e) && e.code
            == 3 && e.out.len() == 0 && (e.err matches Some(m) && why.is_suffix_of(m))),
        value.field("event"@) is Some && replies(Ok(value), json_output, verb, reply)
            ==> reply is Again,
        value.field("event"@) is None && replies(Ok(value), json_output, verb, reply) ==> {
            &&& reply matches ReplyV::Done(e)
            &&& value.field("ok"@) == Some(JsonV::Bool(true)) ==> (reply matches ReplyV::Done(e)
                && e.code == 0 && e.err is None)
            &&& value.field("data"@) matches Some(data) ==> value.field("ok"@) == Some(
                JsonV::Bool(true),
            ) ==> (reply matches ReplyV::Done(e) && if json_output {
                e.out == json_text(data) + "\n"@
            } else {
                shows(verb, data, e.out)
            })
            &&& value.field("ok"@) != Some(JsonV::Bool(true)) ==> (reply matches ReplyV::Done(e)
                && e.code == 1 && e.out.len() == 0 && e.err is Some)
            &&& value.field("ok"@) != Some(JsonV::Bool(true)) && value.field("error"@) == Some(
                JsonV::Text(told),
            ) ==> (reply matches ReplyV::Done(e) && e.err == Some(told))
        },
{
    let m = "bad response: "@ + why;
    assert(m.skip(m.len() - why.len()) =~= why);
}

/// What is made of a line of a stream: an event is shown without the end of its line, the answer
/// to the own request is dropped where it agrees and ends the stream where it refuses, and answers
/// to others are dropped.
pub proof fn law_streamed(line: Seq<char>, value: JsonV, told: Seq<char>, why: Seq<char>, n: u64)
    ensures
        streamed(line, Err(why)) matches StreamStepV::Done(e) && e.code == 3,
        value.field("event"@) is Some ==> streamed(line, Ok(value)) == StreamStepV::Show(
            without_newlines(line),
        ),
        value.field("event"@) is None && value.field("id"@) == Some(crate::json::unsigned(n)) && n
            != 1 ==> streamed(line, Ok(value)) is Drop,
        value.field("event"@) is None && value.field("ok"@) == Some(JsonV::Bool(true))
            ==> streamed(line, Ok(value)) is Drop,
        value.field("event"@) is None && value.field("id"@) == Some(crate::json::unsigned(1))
            && value.field("ok"@) != Some(JsonV::Bool(true)) ==> (streamed(line, Ok(value))
            matches StreamStepV::Done(e) && e.code == 1 && (value.field("error"@) == Some(
            JsonV::Text(told),
        ) ==> e.err == Some(told))),
{
}

/// Line ends go, all that stand at the end, and nothing else does.
pub proof fn law_newlines_dropped(s: Seq<char>, c: char)
    ensures
        without_newlines(s.push('\n')) == without_newlines(s),
        without_newlines(s.push('\r')) == without_newlines(s),
        c != '\n' && c != '\r' ==> without_newlines(s.push(c)) == s.push(c),
        without_newlines(seq![]).len() == 0,
{
    assert(s.push('\n').drop_last() =~= s);
    assert(s.push('\r').drop_last() =~= s);
}

/// One question and its answer: events are passed over, an answer that agrees is handed on whole,
/// and one that refuses is what the server said.
pub proof fn law_one_shot(value: JsonV, told: Seq<char>, why: Seq<char>)
    ensures
        value.field("event"@) is Some ==> shot(Ok(value)) is None,
        value.field("event"@) is None && value.field("ok"@) == Some(JsonV::Bool(true)) ==> shot(
            Ok(value),
        ) == Some(OneShotV::Answer(value)),
        value.field("event"@) is None && value.field("ok"@) != Some(JsonV::Bool(true))
            ==> shot(Ok(value)) matches Some(OneShotV::ServerErr(_)),
        value.field("event"@) is None && value.field("ok"@) != Some(JsonV::Bool(true))
            && value.field("error"@) == Some(JsonV::Text(told)) ==> shot(Ok(value)) == Some(
            OneShotV::ServerErr(told),
        ),
        shot(Err(why)) matches Some(OneShotV::ServerErr(m)) && why.is_suffix_of(m),
        shot_failure(OneShotV::ServerErr(why)) == failure(1, "cmux: "@ + why),
        shot_failure(OneShotV::ConnectErr(why)) == failure(3, why),
        data_of(value) == (match value.field("data"@) {
            Some(d) => d,
            None => JsonV::Null,
        }),
{
    let m = "bad response: "@ + why;
    assert(m.skip(m.len() - why.len()) =~= why);
}

} // verus!
