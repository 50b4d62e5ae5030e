//! The verbs that write workspaces to files and build them from files.
//!
//! The server makes and takes the documents; the files are the caller's. Each verb is a few
//! decisions with reading, asking and writing between them.

use vstd::prelude::*;

use crate::answers::{
    connect_failed, data_of, failed, failure, server_failed, shot_failure, succeeded, success,
    Ending, EndingV, OneShotOutcome, OneShotV,
};
use crate::flags::{FlagMap, FlagsV};
use crate::json::{
    empty_object, json_text, list_view, pretty_text, render, render_pretty, text_list, unsigned,
    Json, JsonV,
};
use crate::layout_doc::{document_json, LayoutDocument, LayoutDocumentV};
use crate::requests::REQUEST_ID;
use crate::text::{debug_quoted, extended, has_char, owned, quoted, same, texts, with_extension};

verus! {

/// Two required flags, or how a command ends that lacks one of them.
pub open spec fn two_flags(f: FlagsV, a: Seq<char>, b: Seq<char>) -> Result<
    (Seq<char>, Seq<char>),
    EndingV,
> {
    match (f.required(a), f.required(b)) {
        (Ok(x), Ok(y)) => Ok((x, y)),
        (Err(e), _) => Err(failure(2, "cmux: "@ + e)),
        (_, Err(e)) => Err(failure(2, "cmux: "@ + e)),
    }
}

fn told(code: i32, message: &str) -> (e: Ending)
    ensures
        e@ == failure(code, "cmux: "@ + message@),
{
    let mut out: String = "cmux: ".to_string();
    out.append(message);
    failed(code, out)
}

fn require_two(flags: &FlagMap, a: &str, b: &str) -> (r: Result<(String, String), Ending>)
    ensures
        match r {
            Ok((x, y)) => two_flags(flags@, a@, b@) == Ok::<(Seq<char>, Seq<char>), EndingV>(
                (x@, y@),
            ),
            Err(e) => two_flags(flags@, a@, b@) == Err::<(Seq<char>, Seq<char>), EndingV>(e@),
        },
{
    match (flags.required(a), flags.required(b)) {
        (Ok(x), Ok(y)) => Ok((x, y)),
        (Err(e), _) => Err(told(2, e.0.as_str())),
        (_, Err(e)) => Err(told(2, e.0.as_str())),
    }
}

/// Where a file is written before it takes its place, so that no reader sees a part of it.
pub fn temp_path(path: &str) -> (r: String)
    ensures
        r@ == extended(path@, "json.tmp"@),
{
    with_extension(path, "json.tmp")
}

/// A file is never written through a symbolic link.
pub fn refuse_symlink(path: &str, is_symlink: bool) -> (r: Option<Ending>)
    ensures
        match r {
            Some(e) => is_symlink && e@ == failure(
                1,
                "cmux: "@ + ("refusing to write through symlink "@ + path@),
            ),
            None => !is_symlink,
        },
{
    if is_symlink {
        let mut message: String = "refusing to write through symlink ".to_string();
        message.append(path);
        Some(told(1, message.as_str()))
    } else {
        None
    }
}

// ---- export -------------------------------------------------------------------------------

/// The workspace and the file of `layout-export`.
pub fn export_flags(flags: &FlagMap) -> (r: Result<(String, String), Ending>)
    ensures
        match r {
            Ok((w, o)) => two_flags(flags@, "workspace"@, "output"@) == Ok::<
                (Seq<char>, Seq<char>),
                EndingV,
            >((w@, o@)),
            Err(e) => two_flags(flags@, "workspace"@, "output"@) == Err::<
                (Seq<char>, Seq<char>),
                EndingV,
            >(e@),
        },
{
    require_two(flags, "workspace", "output")
}

/// The request of `layout-export`.
pub open spec fn export_json(workspace: Seq<char>) -> JsonV {
    empty_object().with("cmd"@, JsonV::Text("layout-export"@)).with(
        "workspace"@,
        JsonV::Text(workspace),
    ).with("id"@, unsigned(REQUEST_ID))
}

pub fn export_request(workspace: &str) -> (r: Json)
    ensures
        r@ == export_json(workspace@),
{
    let mut r: Json = Json::object();
    r.set("cmd", Json::text("layout-export"));
    r.set("workspace", Json::text(workspace));
    r.set("id", Json::unsigned(REQUEST_ID));
    r
}

/// What `layout-export` writes to its file once the server has answered, or how it ends.
pub open spec fn exported(o: OneShotV) -> Result<Seq<char>, EndingV> {
    match o {
        OneShotV::Answer(value) => Ok(pretty_text(data_of(value))),
        _ => Err(shot_failure(o)),
    }
}

pub fn run_layout_export(outcome: OneShotOutcome) -> (r: Result<String, Ending>)
    ensures
        match r {
            Ok(s) => exported(outcome@) == Ok::<Seq<char>, EndingV>(s@),
            Err(e) => exported(outcome@) == Err::<Seq<char>, EndingV>(e@),
        },
{
    match outcome {
        OneShotOutcome::Answer(value) => {
            let null: Json = Json::Null;
            let data: &Json = match value.get("data") {
                Some(data) => data,
                None => &null,
            };
            Ok(render_pretty(data))
        },
        OneShotOutcome::ServerErr(e) => Err(server_failed(e.as_str())),
        OneShotOutcome::ConnectErr(e) => Err(connect_failed(e)),
    }
}

/// What is said of a file that was written.
pub open spec fn written_text(path: Seq<char>, json: bool) -> Seq<char> {
    if json {
        json_text(empty_object().with("output"@, JsonV::Text(path))) + "\n"@
    } else {
        path + "\n"@
    }
}

pub fn export_written(path: &str, json: bool) -> (e: Ending)
    ensures
        e@ == success(written_text(path@, json)),
{
    let mut out: String = if json {
        let mut value: Json = Json::object();
        value.set("output", Json::text(path));
        render(&value)
    } else {
        owned(path)
    };
    out.append("\n");
    succeeded(out)
}

// ---- apply --------------------------------------------------------------------------------

/// The file and the workspace of `layout-apply`.
pub fn apply_flags(flags: &FlagMap) -> (r: Result<(String, String), Ending>)
    ensures
        match r {
            Ok((i, w)) => two_flags(flags@, "input"@, "workspace"@) == Ok::<
                (Seq<char>, Seq<char>),
                EndingV,
            >((i@, w@)),
            Err(e) => two_flags(flags@, "input"@, "workspace"@) == Err::<
                (Seq<char>, Seq<char>),
                EndingV,
            >(e@),
        },
{
    require_two(flags, "input", "workspace")
}

/// What is said of a file that could not be read, or not be understood.
pub open spec fn input_message(what: Seq<char>, input: Seq<char>, why: Seq<char>) -> Seq<char> {
    "cmux: "@ + what + " layout "@ + quoted(input) + ": "@ + why
}

fn input_failed(what: &str, input: &str, why: &str) -> (e: Ending)
    ensures
        e@ == failure(2, input_message(what@, input@, why@)),
{
    let mut message: String = "cmux: ".to_string();
    message.append(what);
    message.append(" layout ");
    let shown: String = debug_quoted(input);
    message.append(shown.as_str());
    message.append(": ");
    message.append(why);
    failed(2, message)
}

/// The request of `layout-apply`.
pub open spec fn apply_json(workspace: Seq<char>, document: LayoutDocumentV) -> JsonV {
    empty_object().with("cmd"@, JsonV::Text("layout-apply"@)).with(
        "workspace"@,
        JsonV::Text(workspace),
    ).with("document"@, document_json(document)).with("id"@, unsigned(REQUEST_ID))
}

/// What came of reading the file: the document that its text holds, or why it holds none; or why
/// there is no text.
#[derive(Debug)]
pub enum Contents {
    Text(Result<LayoutDocument, String>),
    Failed(String),
}

/// The request of `layout-apply`; only the form of the document was looked at, the server decides
/// on the rest.
pub open spec fn apply_read(contents: Contents, input: Seq<char>, workspace: Seq<char>) -> Result<
    JsonV,
    EndingV,
> {
    match contents {
        Contents::Failed(why) => Err(failure(2, input_message("reading"@, input, why@))),
        Contents::Text(Err(why)) => Err(failure(2, input_message("parsing"@, input, why@))),
        Contents::Text(Ok(d)) => Ok(apply_json(workspace, d@)),
    }
}

pub open spec fn json_or_ending(r: Result<Json, Ending>) -> Result<JsonV, EndingV> {
    match r {
        Ok(j) => Ok(j@),
        Err(e) => Err(e@),
    }
}

/// The request of `layout-apply`, or how it ends where the file gives none.
pub fn apply_request(contents: &Contents, input: &str, workspace: &str) -> (r: Result<Json, Ending>)
    ensures
        json_or_ending(r) == apply_read(*contents, input@, workspace@),
{
    match contents {
        Contents::Failed(why) => Err(input_failed("reading", input, why.as_str())),
        Contents::Text(Err(why)) => Err(input_failed("parsing", input, why.as_str())),
        Contents::Text(Ok(d)) => {
            let mut r: Json = Json::object();
            r.set("cmd", Json::text("layout-apply"));
            r.set("workspace", Json::text(workspace));
            r.set("document", d.to_json());
            r.set("id", Json::unsigned(REQUEST_ID));
            Ok(r)
        },
    }
}

/// How `layout-apply` ends.
pub open spec fn applied(o: OneShotV, json: bool) -> EndingV {
    match o {
        OneShotV::Answer(value) => success(
            if json && value.field("data"@) is Some {
                json_text(value.field("data"@)->0) + "\n"@
            } else {
                seq![]
            },
        ),
        _ => shot_failure(o),
    }
}

pub fn run_layout_apply(outcome: OneShotOutcome, json: bool) -> (e: Ending)
    ensures
        e@ == applied(outcome@, json),
{
    match outcome {
        OneShotOutcome::Answer(value) => {
            if json {
                if let Some(data) = value.get("data") {
                    let mut out: String = render(data);
                    out.append("\n");
                    return succeeded(out);
                }
            }
            succeeded(String::new())
        },
        OneShotOutcome::ServerErr(e) => server_failed(e.as_str()),
        OneShotOutcome::ConnectErr(e) => connect_failed(e),
    }
}

// ---- export of all ------------------------------------------------------------------------

/// The directory of `layout-export-all`.
pub fn export_all_flags(flags: &FlagMap) -> (r: Result<String, Ending>)
    ensures
        match r {
            Ok(d) => flags@.required("output-dir"@) == Ok::<Seq<char>, Seq<char>>(d@),
            Err(e) => flags@.required("output-dir"@) is Err && e@ == failure(
                2,
                "cmux: "@ + flags@.required("output-dir"@)->Err_0,
            ),
        },
{
    match flags.required("output-dir") {
        Ok(d) => Ok(d),
        Err(e) => Err(told(2, e.0.as_str())),
    }
}

pub open spec fn export_all_json() -> JsonV {
    empty_object().with("cmd"@, JsonV::Text("layout-export-all"@)).with(
        "id"@,
        unsigned(REQUEST_ID),
    )
}

pub fn export_all_request() -> (r: Json)
    ensures
        r@ == export_all_json(),
{
    let mut r: Json = Json::object();
    r.set("cmd", Json::text("layout-export-all"));
    r.set("id", Json::unsigned(REQUEST_ID));
    r
}

/// A name that is one part of a path, and stays below the directory it is put under.
pub open spec fn safe_file_name(name: Seq<char>) -> bool {
    &&& name.len() > 0
    &&& name != "."@
    &&& name != ".."@
    &&& !name.contains('/')
    &&& !name.contains('\\')
}

/// A file to be written: its name and its contents.
#[derive(Debug)]
pub struct ExportFile {
    pub name: String,
    pub contents: String,
}

pub struct ExportFileV {
    pub name: Seq<char>,
    pub contents: Seq<char>,
}

impl View for ExportFile {
    type V = ExportFileV;

    open spec fn view(&self) -> ExportFileV {
        ExportFileV { name: self.name@, contents: self.contents@ }
    }
}

/// The file that an entry of the answer names, or how the command ends at that entry.
pub open spec fn export_entry(file: JsonV) -> Result<ExportFileV, EndingV> {
    match file.field_chars("filename"@) {
        None => Err(failure(1, "cmux: export-all response entry missing filename"@)),
        Some(name) => if !safe_file_name(name) {
            Err(failure(1, "cmux: refusing unsafe export filename "@ + quoted(name)))
        } else {
            Ok(
                ExportFileV {
                    name,
                    contents: pretty_text(
                        match file.field("document"@) {
                            Some(d) => d,
                            None => JsonV::Null,
                        },
                    ),
                },
            )
        },
    }
}

/// A file that is written lies directly below the directory that was named.
pub proof fn law_export_names_safe(file: JsonV)
    ensures
        export_entry(file) matches Ok(f) ==> safe_file_name(f.name),
{
}

pub fn read_export_entry(file: &Json) -> (r: Result<ExportFile, Ending>)
    ensures
        match r {
            Ok(f) => export_entry(file@) == Ok::<ExportFileV, EndingV>(f@),
            Err(e) => export_entry(file@) == Err::<ExportFileV, EndingV>(e@),
        },
{
    let name: &str = match file.field_chars("filename") {
        Some(name) => name,
        None => {
            return Err(
                failed(1, "cmux: export-all response entry missing filename".to_string()),
            );
        },
    };
    if name.is_empty() || same(name, ".") || same(name, "..") || has_char(name, '/') || has_char(
        name,
        '\\',
    ) {
        let mut message: String = "cmux: refusing unsafe export filename ".to_string();
        let shown: String = debug_quoted(name);
        message.append(shown.as_str());
        return Err(failed(1, message));
    }
    let null: Json = Json::Null;
    let document: &Json = match file.get("document") {
        Some(d) => d,
        None => &null,
    };
    Ok(ExportFile { name: owned(name), contents: render_pretty(document) })
}

/// The entries of the answer to `layout-export-all`.
pub open spec fn export_entries(value: JsonV) -> Seq<JsonV> {
    match data_of(value).field_items("files"@) {
        Some(files) => files,
        None => seq![],
    }
}

/// What is done at entry `i`: a file is written, or the command ends.
#[derive(Debug)]
pub enum ExportStep {
    Write(ExportFile),
    Done(Ending),
}

pub enum ExportStepV {
    Write(ExportFileV),
    Done(EndingV),
}

impl View for ExportStep {
    type V = ExportStepV;

    open spec fn view(&self) -> ExportStepV {
        match self {
            ExportStep::Write(f) => ExportStepV::Write(f@),
            ExportStep::Done(e) => ExportStepV::Done(e@),
        }
    }
}

/// What is said of all the files that were written.
pub open spec fn export_all_text(written: Seq<Seq<char>>, json: bool) -> Seq<char> {
    if json {
        json_text(empty_object().with("files"@, text_list(written))) + "\n"@
    } else {
        path_lines(written)
    }
}

pub open spec fn path_lines(paths: Seq<Seq<char>>) -> Seq<char>
    decreases paths.len(),
{
    if paths.len() == 0 {
        seq![]
    } else {
        path_lines(paths.drop_last()) + (paths.last() + "\n"@)
    }
}

/// The step after the files in `written` were written.
pub open spec fn export_step(o: OneShotV, written: Seq<Seq<char>>, json: bool) -> ExportStepV {
    match o {
        OneShotV::Answer(value) => {
            let files = export_entries(value);
            let i = written.len() as int;
            if files.len() == 0 {
                ExportStepV::Done(failure(1, "cmux: no workspaces to export"@))
            } else if i < files.len() {
                match export_entry(files[i]) {
                    Ok(f) => ExportStepV::Write(f),
                    Err(e) => ExportStepV::Done(e),
                }
            } else {
                ExportStepV::Done(success(export_all_text(written, json)))
            }
        },
        _ => ExportStepV::Done(shot_failure(o)),
    }
}

fn export_all_written(written: &Vec<String>, json: bool) -> (out: String)
    ensures
        out@ == export_all_text(texts(written@), json),
{
    if json {
        let mut value: Json = Json::object();
        value.set("files", Json::texts(written));
        let mut out: String = render(&value);
        out.append("\n");
        return out;
    }
    let mut out: String = String::new();
    let mut i: usize = 0;
    while i < written.len()
        invariant
            i <= written.len(),
            out@ == path_lines(texts(written@).take(i as int)),
        decreases written.len() - i,
    {
        let mut line: String = owned(written[i].as_str());
        line.append("\n");
        out.append(line.as_str());
        i = i + 1;
        assert(texts(written@).take(i as int).drop_last() =~= texts(written@).take(i - 1));
    }
    assert(texts(written@).take(written@.len() as int) =~= texts(written@));
    out
}

pub fn run_layout_export_all(outcome: &OneShotOutcome, written: &Vec<String>, json: bool) -> (r:
    ExportStep)
    ensures
        r@ == export_step(outcome@, texts(written@), json),
{
    match outcome {
        OneShotOutcome::Answer(value) => {
            let files: Option<&Vec<Json>> = match value.get("data") {
                Some(data) => data.field_items("files"),
                None => None,
            };
            match files {
                None => ExportStep::Done(failed(1, "cmux: no workspaces to export".to_string())),
                Some(files) => {
                    let i: usize = written.len();
                    if files.len() == 0 {
                        ExportStep::Done(failed(1, "cmux: no workspaces to export".to_string()))
                    } else if i < files.len() {
                        assert(list_view(files@)[i as int] == files@[i as int]@);
                        match read_export_entry(&files[i]) {
                            Ok(f) => ExportStep::Write(f),
                            Err(e) => ExportStep::Done(e),
                        }
                    } else {
                        ExportStep::Done(succeeded(export_all_written(written, json)))
                    }
                },
            }
        },
        OneShotOutcome::ServerErr(e) => ExportStep::Done(server_failed(e.as_str())),
        OneShotOutcome::ConnectErr(e) => ExportStep::Done(connect_failed(owned(e.as_str()))),
    }
}

proof fn lemma_layout_names()
    ensures
        "cmd"@ != "workspace"@ && "cmd"@ != "id"@ && "cmd"@ != "document"@,
        "workspace"@ != "id"@ && "workspace"@ != "document"@ && "id"@ != "document"@,
{
    reveal_strlit("cmd");
    reveal_strlit("workspace");
    reveal_strlit("id");
    reveal_strlit("document");
    assert("cmd"@.len() == 3 && "workspace"@.len() == 9 && "id"@.len() == 2 && "document"@.len()
        == 8);
}

/// The requests about layouts, each thing in the field of its name; a layout is sent as the
/// document that was read.
pub proof fn law_layout_requests(
    workspace: Seq<char>,
    input: Seq<char>,
    d: LayoutDocumentV,
    contents: Contents,
)
    ensures
        export_json(workspace).field("cmd"@) == Some(JsonV::Text("layout-export"@)),
        export_json(workspace).field("workspace"@) == Some(JsonV::Text(workspace)),
        export_json(workspace).field("id"@) == Some(unsigned(1)),
        apply_json(workspace, d).field("cmd"@) == Some(JsonV::Text("layout-apply"@)),
        apply_json(workspace, d).field("workspace"@) == Some(JsonV::Text(workspace)),
        apply_json(workspace, d).field("document"@) == Some(document_json(d)),
        apply_json(workspace, d).field("id"@) == Some(unsigned(1)),
        export_all_json().field("cmd"@) == Some(JsonV::Text("layout-export-all"@)),
        export_all_json().field("id"@) == Some(unsigned(1)),
        contents matches Contents::Text(Ok(doc)) ==> (apply_read(contents, input, workspace)
            matches Ok(j) && j.field("document"@) == Some(document_json(doc@)) && j.field(
            "workspace"@,
        ) == Some(JsonV::Text(workspace))),
        !(contents matches Contents::Text(Ok(_))) ==> (apply_read(contents, input, workspace)
            matches Err(e) && e.code == 2),
{
    lemma_layout_names();
}

/// Two flags are taken in the order in which they are asked for, and both have to be there.
pub proof fn law_two_flags(f: FlagsV, a: Seq<char>, b: Seq<char>)
    ensures
        two_flags(f, a, b) matches Ok(two) ==> f.get(a) == Some(two.0) && f.get(b) == Some(two.1),
        f.get(a) is Some && f.get(b) is Some ==> two_flags(f, a, b) is Ok,
        two_flags(f, a, b) matches Err(e) ==> e.code == 2 && e.out.len() == 0,
{
}

/// Exporting everything writes the files of the answer one by one, in its order, each under its
/// name with its document, and then says where they are; without a file there is nothing to do.
pub proof fn law_exports_in_order(value: JsonV, files: Seq<JsonV>, done: Seq<Seq<char>>, json: bool)
    requires
        value.field("data"@) matches Some(data) && data.field("files"@) == Some(
            JsonV::List(files),
        ),
    ensures
        ({
            let step = export_step(OneShotV::Answer(value), done, json);
            let i = done.len() as int;
            &&& files.len() == 0 ==> (step matches ExportStepV::Done(e) && e.code == 1)
            &&& files.len() > 0 && i >= files.len() ==> (step matches ExportStepV::Done(e) && e.code
                == 0 && e.err is None && (!json ==> e.out == path_lines(done)))
            &&& i < files.len() ==> (step matches ExportStepV::Write(f) ==> files[i].field(
                "filename"@,
            ) == Some(JsonV::Text(f.name)) && (files[i].field("document"@) matches Some(d)
                ==> f.contents == pretty_text(d)))
            &&& i < files.len() ==> (files[i].field("filename"@) matches Some(JsonV::Text(name))
                ==> safe_file_name(name) ==> step is Write)
            &&& i < files.len() && !(files[i].field("filename"@) matches Some(JsonV::Text(_)))
                ==> (step matches ExportStepV::Done(e) && e.code == 1)
        }),
{
}

/// Paths are printed one on a line, in order.
pub proof fn law_path_lines(paths: Seq<Seq<char>>, p: Seq<char>)
    ensures
        path_lines(seq![]).len() == 0,
        path_lines(paths.push(p)) == path_lines(paths) + p + "\n"@,
        written_text(p, false) == p + "\n"@,
{
    assert(paths.push(p).drop_last() =~= paths);
    assert(path_lines(paths) + (p + "\n"@) =~= path_lines(paths) + p + "\n"@);
}

/// What is said of a layout that was exported or applied: the data of the answer.
pub proof fn law_layout_answers(value: JsonV, data: JsonV, why: Seq<char>, json: bool)
    requires
        value.field("data"@) == Some(data),
    ensures
        exported(OneShotV::Answer(value)) == Ok::<Seq<char>, EndingV>(pretty_text(data)),
        applied(OneShotV::Answer(value), true) == success(json_text(data) + "\n"@),
        applied(OneShotV::Answer(value), false) == success(seq![]),
        exported(OneShotV::ServerErr(why)) matches Err(e) && e.code == 1,
        exported(OneShotV::ConnectErr(why)) matches Err(e) && e.code == 3,
        applied(OneShotV::ServerErr(why), json).code == 1,
        applied(OneShotV::ConnectErr(why), json).code == 3,
{
}

} // verus!
