//! The requests that the verbs send over the control socket.
//!
//! A request is put together field by field; the first flag that is missing or cannot be read
//! refuses the whole. What a request takes from outside the command line (standard input, a
//! prompt file, the environment, the reading of a ratio) is named by `need` and handed in.

use vstd::prelude::*;

use crate::cli::CliArgs;
use crate::flags::{
    isize_value, parse_isize, parse_u64, parse_usize, says_no, u64_value, usize_value, FlagMap,
    FlagsV, UsageError,
};
use crate::json::{
    double, empty_object, json_text, render, signed, text_list, unsigned, Json, JsonV,
};
use crate::prompt::{frontmatter, parse_prompt_frontmatter};
use crate::text::{
    cut, debug_quoted, lemma_le_antisymmetric, owned, pieces, quoted, same, split, split_once,
    text_le, texts,
};
use crate::verbs::{verb_allows, verb_name, Verb};

verus! {

/// The number that a request carries, and by which its answer is told from an event.
pub const REQUEST_ID: u64 = 1;

/// What has to be fetched before a request can be built.
#[derive(Debug)]
pub enum Need {
    Nothing,
    /// All of standard input.
    Stdin,
    /// The contents of the prompt file at that path.
    PromptFile(String),
    /// The value of `CMUX_MUX_SURFACE`.
    SurfaceVariable,
    /// The single-precision number that this text writes, in decimal.
    Ratio(String),
}

/// What was fetched: nothing, a text, or the reason why it could not be had.
#[derive(Debug)]
pub enum Fetched {
    Nothing,
    Text(String),
    Failed(String),
}

pub enum NeedV {
    Nothing,
    Stdin,
    PromptFile(Seq<char>),
    SurfaceVariable,
    Ratio(Seq<char>),
}

pub enum FetchedV {
    Nothing,
    Text(Seq<char>),
    Failed(Seq<char>),
}

impl View for Need {
    type V = NeedV;

    open spec fn view(&self) -> NeedV {
        match self {
            Need::Nothing => NeedV::Nothing,
            Need::Stdin => NeedV::Stdin,
            Need::PromptFile(s) => NeedV::PromptFile(s@),
            Need::SurfaceVariable => NeedV::SurfaceVariable,
            Need::Ratio(s) => NeedV::Ratio(s@),
        }
    }
}

impl View for Fetched {
    type V = FetchedV;

    open spec fn view(&self) -> FetchedV {
        match self {
            Fetched::Nothing => FetchedV::Nothing,
            Fetched::Text(s) => FetchedV::Text(s@),
            Fetched::Failed(s) => FetchedV::Failed(s@),
        }
    }
}

/// A request, or the message that it is refused with.
pub type Draft = Result<JsonV, Seq<char>>;

/// What an executable builder gives, with its texts.
pub open spec fn drafted(r: Result<Json, UsageError>) -> Draft {
    match r {
        Ok(j) => Ok(j@),
        Err(e) => Err(e.0@),
    }
}

// ---- field by field -----------------------------------------------------------------------

/// The request without fields.
pub open spec fn start() -> Draft {
    Ok(empty_object())
}

/// The draft with one field more.
pub open spec fn put(r: Draft, key: Seq<char>, value: Result<JsonV, Seq<char>>) -> Draft {
    match r {
        Ok(j) => match value {
            Ok(v) => Ok(j.with(key, v)),
            Err(e) => Err(e),
        },
        Err(e) => Err(e),
    }
}

/// The number of a required flag.
pub open spec fn and_u64(r: Draft, f: FlagsV, name: Seq<char>) -> Draft {
    put(
        r,
        name,
        match f.required_u64(name) {
            Ok(n) => Ok(unsigned(n)),
            Err(e) => Err(e),
        },
    )
}

fn with_u64(r: Result<Json, UsageError>, flags: &FlagMap, name: &str) -> (out: Result<
    Json,
    UsageError,
>)
    ensures
        drafted(out) == and_u64(drafted(r), flags@, name@),
{
    match r {
        Ok(j) => match flags.required_u64(name) {
            Ok(n) => {
                let mut j: Json = j;
                j.set(name, Json::unsigned(n));
                Ok(j)
            },
            Err(e) => Err(e),
        },
        Err(e) => Err(e),
    }
}

/// The 16-bit number of a required flag.
pub open spec fn and_u16(r: Draft, f: FlagsV, name: Seq<char>) -> Draft {
    put(
        r,
        name,
        match f.required_u16(name) {
            Ok(n) => Ok(unsigned(n)),
            Err(e) => Err(e),
        },
    )
}

fn with_u16(r: Result<Json, UsageError>, flags: &FlagMap, name: &str) -> (out: Result<
    Json,
    UsageError,
>)
    ensures
        drafted(out) == and_u16(drafted(r), flags@, name@),
{
    match r {
        Ok(j) => match flags.required_u16(name) {
            Ok(n) => {
                let mut j: Json = j;
                j.set(name, Json::unsigned(n));
                Ok(j)
            },
            Err(e) => Err(e),
        },
        Err(e) => Err(e),
    }
}

/// The position of a required flag.
pub open spec fn and_usize(r: Draft, f: FlagsV, name: Seq<char>) -> Draft {
    put(
        r,
        name,
        match f.required_usize(name) {
            Ok(n) => Ok(unsigned(n)),
            Err(e) => Err(e),
        },
    )
}

fn with_usize(r: Result<Json, UsageError>, flags: &FlagMap, name: &str) -> (out: Result<
    Json,
    UsageError,
>)
    ensures
        drafted(out) == and_usize(drafted(r), flags@, name@),
{
    match r {
        Ok(j) => match flags.required_usize(name) {
            Ok(n) => {
                let mut j: Json = j;
                j.set(name, Json::unsigned(n));
                Ok(j)
            },
            Err(e) => Err(e),
        },
        Err(e) => Err(e),
    }
}

/// The offset of a required flag.
pub open spec fn and_isize(r: Draft, f: FlagsV, name: Seq<char>) -> Draft {
    put(
        r,
        name,
        match f.required_isize(name) {
            Ok(n) => Ok(signed(n)),
            Err(e) => Err(e),
        },
    )
}

fn with_isize(r: Result<Json, UsageError>, flags: &FlagMap, name: &str) -> (out: Result<
    Json,
    UsageError,
>)
    ensures
        drafted(out) == and_isize(drafted(r), flags@, name@),
{
    match r {
        Ok(j) => match flags.required_isize(name) {
            Ok(n) => {
                let mut j: Json = j;
                j.set(name, Json::signed(n));
                Ok(j)
            },
            Err(e) => Err(e),
        },
        Err(e) => Err(e),
    }
}

/// The text of a required flag.
pub open spec fn and_text(r: Draft, f: FlagsV, name: Seq<char>) -> Draft {
    put(
        r,
        name,
        match f.required(name) {
            Ok(n) => Ok(JsonV::Text(n)),
            Err(e) => Err(e),
        },
    )
}

fn with_text(r: Result<Json, UsageError>, flags: &FlagMap, name: &str) -> (out: Result<
    Json,
    UsageError,
>)
    ensures
        drafted(out) == and_text(drafted(r), flags@, name@),
{
    match r {
        Ok(j) => match flags.required(name) {
            Ok(n) => {
                let mut j: Json = j;
                j.set(name, Json::Text(n));
                Ok(j)
            },
            Err(e) => Err(e),
        },
        Err(e) => Err(e),
    }
}

/// The direction of a split.
pub open spec fn and_dir(r: Draft, f: FlagsV) -> Draft {
    put(
        r,
        "dir"@,
        match f.required_dir() {
            Ok(d) => Ok(JsonV::Text(d)),
            Err(e) => Err(e),
        },
    )
}

fn with_dir(r: Result<Json, UsageError>, flags: &FlagMap) -> (out: Result<Json, UsageError>)
    ensures
        drafted(out) == and_dir(drafted(r), flags@),
{
    match r {
        Ok(j) => match flags.required_dir() {
            Ok(d) => {
                let mut j: Json = j;
                j.set("dir", Json::Text(d));
                Ok(j)
            },
            Err(e) => Err(e),
        },
        Err(e) => Err(e),
    }
}

/// The text of a flag that may be missing, under the name `key`.
pub open spec fn maybe_text_as(r: Draft, f: FlagsV, name: Seq<char>, key: Seq<char>) -> Draft {
    match f.get(name) {
        Some(v) => put(r, key, Ok(JsonV::Text(v))),
        None => r,
    }
}

fn with_maybe_text_as(
    r: Result<Json, UsageError>,
    flags: &FlagMap,
    name: &str,
    key: &str,
) -> (out: Result<Json, UsageError>)
    ensures
        drafted(out) == maybe_text_as(drafted(r), flags@, name@, key@),
{
    match (r, flags.optional(name)) {
        (Ok(j), Some(v)) => {
            let mut j: Json = j;
            j.set(key, Json::Text(v));
            Ok(j)
        },
        (r, _) => r,
    }
}

/// The text of a flag that may be missing.
pub open spec fn maybe_text(r: Draft, f: FlagsV, name: Seq<char>) -> Draft {
    maybe_text_as(r, f, name, name)
}

fn with_maybe_text(r: Result<Json, UsageError>, flags: &FlagMap, name: &str) -> (out: Result<
    Json,
    UsageError,
>)
    ensures
        drafted(out) == maybe_text(drafted(r), flags@, name@),
{
    match r {
        Ok(j) => {
            let mut j: Json = j;
            flags.insert_optional_string(&mut j, name);
            Ok(j)
        },
        Err(e) => Err(e),
    }
}

/// The number of a flag that may be missing.
pub open spec fn maybe_u64(r: Draft, f: FlagsV, name: Seq<char>) -> Draft {
    match r {
        Ok(j) => f.put_u64(j, name),
        Err(e) => Err(e),
    }
}

fn with_maybe_u64(r: Result<Json, UsageError>, flags: &FlagMap, name: &str) -> (out: Result<
    Json,
    UsageError,
>)
    ensures
        drafted(out) == maybe_u64(drafted(r), flags@, name@),
{
    match r {
        Ok(j) => {
            let mut j: Json = j;
            match flags.insert_optional_u64(&mut j, name) {
                Ok(_) => Ok(j),
                Err(e) => Err(e),
            }
        },
        Err(e) => Err(e),
    }
}

/// The size, which may be missing.
pub open spec fn maybe_size(r: Draft, f: FlagsV) -> Draft {
    match r {
        Ok(j) => f.put_size(j),
        Err(e) => Err(e),
    }
}

fn with_maybe_size(r: Result<Json, UsageError>, flags: &FlagMap) -> (out: Result<Json, UsageError>)
    ensures
        drafted(out) == maybe_size(drafted(r), flags@),
{
    match r {
        Ok(j) => {
            let mut j: Json = j;
            match flags.insert_optional_size(&mut j) {
                Ok(_) => Ok(j),
                Err(e) => Err(e),
            }
        },
        Err(e) => Err(e),
    }
}

/// What a boolean flag says, under the name `key`, where it was given.
pub open spec fn maybe_switch(r: Draft, f: FlagsV, name: Seq<char>, key: Seq<char>) -> Draft {
    match f.get(name) {
        Some(v) => put(r, key, Ok(JsonV::Bool(!says_no(v)))),
        None => r,
    }
}

fn with_maybe_switch(
    r: Result<Json, UsageError>,
    flags: &FlagMap,
    name: &str,
    key: &str,
) -> (out: Result<Json, UsageError>)
    ensures
        drafted(out) == maybe_switch(drafted(r), flags@, name@, key@),
{
    match (r, flags.optional_bool(name)) {
        (Ok(j), Some(b)) => {
            let mut j: Json = j;
            j.set(key, Json::Bool(b));
            Ok(j)
        },
        (r, _) => r,
    }
}

// ---- the simple requests ------------------------------------------------------------------

/// The name that comes first.
pub open spec fn first_name(values: Map<Seq<char>, Seq<char>>) -> Seq<char> {
    choose|name: Seq<char>|
        {
            &&& #[trigger] values.dom().contains(name)
            &&& forall|other: Seq<char>| #[trigger]
                values.dom().contains(other) ==> text_le(name, other)
        }
}

/// The request of a verb without flags.
pub open spec fn no_args_request(f: FlagsV) -> Draft {
    if f.values == Map::<Seq<char>, Seq<char>>::empty() {
        start()
    } else {
        Err("unexpected --"@ + first_name(f.values))
    }
}

pub fn build_no_args(flags: &FlagMap) -> (r: Result<Json, UsageError>)
    ensures
        drafted(r) == no_args_request(flags@),
{
    match flags.reject_remaining() {
        Ok(_) => Ok(Json::object()),
        Err(e) => {
            proof {
                let values = flags@.values;
                let name = choose|name: Seq<char>|
                    {
                        &&& #[trigger] values.dom().contains(name)
                        &&& forall|other: Seq<char>| #[trigger]
                            values.dom().contains(other) ==> text_le(name, other)
                        &&& e.0@ == "unexpected --"@ + name
                    };
                lemma_le_antisymmetric(name, first_name(values));
            }
            Err(e)
        },
    }
}

/// The request for one surface.
pub open spec fn surface_request(f: FlagsV) -> Draft {
    and_u64(start(), f, "surface"@)
}

pub fn build_surface(flags: &FlagMap) -> (r: Result<Json, UsageError>)
    ensures
        drafted(r) == surface_request(flags@),
{
    with_u64(Ok(Json::object()), flags, "surface")
}

/// The request for one pane.
pub open spec fn pane_request(f: FlagsV) -> Draft {
    and_u64(start(), f, "pane"@)
}

pub fn build_pane(flags: &FlagMap) -> (r: Result<Json, UsageError>)
    ensures
        drafted(r) == pane_request(flags@),
{
    with_u64(Ok(Json::object()), flags, "pane")
}

/// The request for one screen.
pub open spec fn screen_request(f: FlagsV) -> Draft {
    and_u64(start(), f, "screen"@)
}

pub fn build_screen(flags: &FlagMap) -> (r: Result<Json, UsageError>)
    ensures
        drafted(r) == screen_request(flags@),
{
    with_u64(Ok(Json::object()), flags, "screen")
}

/// The request for one workspace.
pub open spec fn workspace_request(f: FlagsV) -> Draft {
    and_u64(start(), f, "workspace"@)
}

pub fn build_workspace(flags: &FlagMap) -> (r: Result<Json, UsageError>)
    ensures
        drafted(r) == workspace_request(flags@),
{
    with_u64(Ok(Json::object()), flags, "workspace")
}

/// `new-browser-tab`.
pub open spec fn new_browser_tab_request(f: FlagsV) -> Draft {
    let r = and_text(start(), f, "url"@);
    let r = maybe_u64(r, f, "pane"@);
    maybe_size(r, f)
}

pub fn build_new_browser_tab(flags: &FlagMap) -> (r: Result<Json, UsageError>)
    ensures
        drafted(r) == new_browser_tab_request(flags@),
{
    let r: Result<Json, UsageError> = with_text(Ok(Json::object()), flags, "url");
    let r: Result<Json, UsageError> = with_maybe_u64(r, flags, "pane");
    with_maybe_size(r, flags)
}

/// `new-workspace`.
pub open spec fn new_workspace_request(f: FlagsV) -> Draft {
    let r = maybe_text(start(), f, "name"@);
    maybe_size(r, f)
}

pub fn build_new_workspace(flags: &FlagMap) -> (r: Result<Json, UsageError>)
    ensures
        drafted(r) == new_workspace_request(flags@),
{
    let r: Result<Json, UsageError> = with_maybe_text(Ok(Json::object()), flags, "name");
    with_maybe_size(r, flags)
}

/// `new-screen`.
pub open spec fn new_screen_request(f: FlagsV) -> Draft {
    let r = maybe_u64(start(), f, "workspace"@);
    maybe_size(r, f)
}

pub fn build_new_screen(flags: &FlagMap) -> (r: Result<Json, UsageError>)
    ensures
        drafted(r) == new_screen_request(flags@),
{
    let r: Result<Json, UsageError> = with_maybe_u64(Ok(Json::object()), flags, "workspace");
    with_maybe_size(r, flags)
}

/// `set-default-colors`.
pub open spec fn set_default_colors_request(f: FlagsV) -> Draft {
    let r = maybe_text(start(), f, "fg"@);
    maybe_text(r, f, "bg"@)
}

pub fn build_set_default_colors(flags: &FlagMap) -> (r: Result<Json, UsageError>)
    ensures
        drafted(r) == set_default_colors_request(flags@),
{
    let r: Result<Json, UsageError> = with_maybe_text(Ok(Json::object()), flags, "fg");
    with_maybe_text(r, flags, "bg")
}

/// `rename-pane`.
pub open spec fn rename_pane_request(f: FlagsV) -> Draft {
    let r = and_u64(start(), f, "pane"@);
    and_text(r, f, "name"@)
}

pub fn build_rename_pane(flags: &FlagMap) -> (r: Result<Json, UsageError>)
    ensures
        drafted(r) == rename_pane_request(flags@),
{
    let r: Result<Json, UsageError> = with_u64(Ok(Json::object()), flags, "pane");
    with_text(r, flags, "name")
}

/// `rename-surface`.
pub open spec fn rename_surface_request(f: FlagsV) -> Draft {
    let r = and_u64(start(), f, "surface"@);
    and_text(r, f, "name"@)
}

pub fn build_rename_surface(flags: &FlagMap) -> (r: Result<Json, UsageError>)
    ensures
        drafted(r) == rename_surface_request(flags@),
{
    let r: Result<Json, UsageError> = with_u64(Ok(Json::object()), flags, "surface");
    with_text(r, flags, "name")
}

/// `rename-screen`.
pub open spec fn rename_screen_request(f: FlagsV) -> Draft {
    let r = and_u64(start(), f, "screen"@);
    and_text(r, f, "name"@)
}

pub fn build_rename_screen(flags: &FlagMap) -> (r: Result<Json, UsageError>)
    ensures
        drafted(r) == rename_screen_request(flags@),
{
    let r: Result<Json, UsageError> = with_u64(Ok(Json::object()), flags, "screen");
    with_text(r, flags, "name")
}

/// `rename-workspace`.
pub open spec fn rename_workspace_request(f: FlagsV) -> Draft {
    let r = and_u64(start(), f, "workspace"@);
    and_text(r, f, "name"@)
}

pub fn build_rename_workspace(flags: &FlagMap) -> (r: Result<Json, UsageError>)
    ensures
        drafted(r) == rename_workspace_request(flags@),
{
    let r: Result<Json, UsageError> = with_u64(Ok(Json::object()), flags, "workspace");
    with_text(r, flags, "name")
}

/// `pane-worktree-create`.
pub open spec fn pane_worktree_create_request(f: FlagsV) -> Draft {
    let r = and_u64(start(), f, "pane"@);
    let r = and_text(r, f, "branch"@);
    maybe_text(r, f, "label"@)
}

pub fn build_pane_worktree_create(flags: &FlagMap) -> (r: Result<Json, UsageError>)
    ensures
        drafted(r) == pane_worktree_create_request(flags@),
{
    let r: Result<Json, UsageError> = with_u64(Ok(Json::object()), flags, "pane");
    let r: Result<Json, UsageError> = with_text(r, flags, "branch");
    with_maybe_text(r, flags, "label")
}

/// `pane-worktree-list`.
pub open spec fn pane_worktree_list_request(f: FlagsV) -> Draft {
    and_u64(start(), f, "pane"@)
}

pub fn build_pane_worktree_list(flags: &FlagMap) -> (r: Result<Json, UsageError>)
    ensures
        drafted(r) == pane_worktree_list_request(flags@),
{
    with_u64(Ok(Json::object()), flags, "pane")
}

/// `pane-worktree-remove`.
pub open spec fn pane_worktree_remove_request(f: FlagsV) -> Draft {
    let r = and_u64(start(), f, "pane"@);
    and_text(r, f, "branch"@)
}

pub fn build_pane_worktree_remove(flags: &FlagMap) -> (r: Result<Json, UsageError>)
    ensures
        drafted(r) == pane_worktree_remove_request(flags@),
{
    let r: Result<Json, UsageError> = with_u64(Ok(Json::object()), flags, "pane");
    with_text(r, flags, "branch")
}

/// `set-status`.
pub open spec fn set_status_request(f: FlagsV) -> Draft {
    let r = and_text(start(), f, "icon"@);
    maybe_u64(r, f, "workspace"@)
}

pub fn build_set_status(flags: &FlagMap) -> (r: Result<Json, UsageError>)
    ensures
        drafted(r) == set_status_request(flags@),
{
    let r: Result<Json, UsageError> = with_text(Ok(Json::object()), flags, "icon");
    with_maybe_u64(r, flags, "workspace")
}

/// `workspace-color`.
pub open spec fn workspace_color_request(f: FlagsV) -> Draft {
    let r = and_text(start(), f, "name"@);
    and_text(r, f, "color"@)
}

pub fn build_workspace_color(flags: &FlagMap) -> (r: Result<Json, UsageError>)
    ensures
        drafted(r) == workspace_color_request(flags@),
{
    let r: Result<Json, UsageError> = with_text(Ok(Json::object()), flags, "name");
    with_text(r, flags, "color")
}

/// `trigger-flash`.
pub open spec fn trigger_flash_request(f: FlagsV) -> Draft {
    let r = and_u64(start(), f, "workspace"@);
    maybe_u64(r, f, "surface"@)
}

pub fn build_trigger_flash(flags: &FlagMap) -> (r: Result<Json, UsageError>)
    ensures
        drafted(r) == trigger_flash_request(flags@),
{
    let r: Result<Json, UsageError> = with_u64(Ok(Json::object()), flags, "workspace");
    with_maybe_u64(r, flags, "surface")
}

/// `resize-surface`.
pub open spec fn resize_surface_request(f: FlagsV) -> Draft {
    let r = and_u64(start(), f, "surface"@);
    let r = and_u16(r, f, "cols"@);
    and_u16(r, f, "rows"@)
}

pub fn build_resize_surface(flags: &FlagMap) -> (r: Result<Json, UsageError>)
    ensures
        drafted(r) == resize_surface_request(flags@),
{
    let r: Result<Json, UsageError> = with_u64(Ok(Json::object()), flags, "surface");
    let r: Result<Json, UsageError> = with_u16(r, flags, "cols");
    with_u16(r, flags, "rows")
}

/// `move-tab`.
pub open spec fn move_tab_request(f: FlagsV) -> Draft {
    let r = and_u64(start(), f, "surface"@);
    let r = and_u64(r, f, "pane"@);
    and_usize(r, f, "index"@)
}

pub fn build_move_tab(flags: &FlagMap) -> (r: Result<Json, UsageError>)
    ensures
        drafted(r) == move_tab_request(flags@),
{
    let r: Result<Json, UsageError> = with_u64(Ok(Json::object()), flags, "surface");
    let r: Result<Json, UsageError> = with_u64(r, flags, "pane");
    with_usize(r, flags, "index")
}

/// `move-workspace`.
pub open spec fn move_workspace_request(f: FlagsV) -> Draft {
    let r = and_u64(start(), f, "workspace"@);
    and_usize(r, f, "index"@)
}

pub fn build_move_workspace(flags: &FlagMap) -> (r: Result<Json, UsageError>)
    ensures
        drafted(r) == move_workspace_request(flags@),
{
    let r: Result<Json, UsageError> = with_u64(Ok(Json::object()), flags, "workspace");
    with_usize(r, flags, "index")
}

/// `scroll-surface`.
pub open spec fn scroll_surface_request(f: FlagsV) -> Draft {
    let r = and_u64(start(), f, "surface"@);
    and_isize(r, f, "delta"@)
}

pub fn build_scroll_surface(flags: &FlagMap) -> (r: Result<Json, UsageError>)
    ensures
        drafted(r) == scroll_surface_request(flags@),
{
    let r: Result<Json, UsageError> = with_u64(Ok(Json::object()), flags, "surface");
    with_isize(r, flags, "delta")
}

/// `list-agents`.
pub open spec fn list_agents_request(f: FlagsV) -> Draft {
    let r = maybe_u64(start(), f, "surface"@);
    maybe_text(r, f, "state"@)
}

pub fn build_list_agents(flags: &FlagMap) -> (r: Result<Json, UsageError>)
    ensures
        drafted(r) == list_agents_request(flags@),
{
    let r: Result<Json, UsageError> = with_maybe_u64(Ok(Json::object()), flags, "surface");
    with_maybe_text(r, flags, "state")
}

/// `agent-pattern-add`.
pub open spec fn agent_pattern_add_request(f: FlagsV) -> Draft {
    let r = and_text(start(), f, "name"@);
    let r = and_text(r, f, "pattern"@);
    let r = maybe_text(r, f, "kind"@);
    let r = maybe_text(r, f, "confidence"@);
    maybe_switch(r, f, "case-insensitive"@, "case_insensitive"@)
}

pub fn build_agent_pattern_add(flags: &FlagMap) -> (r: Result<Json, UsageError>)
    ensures
        drafted(r) == agent_pattern_add_request(flags@),
{
    let r: Result<Json, UsageError> = with_text(Ok(Json::object()), flags, "name");
    let r: Result<Json, UsageError> = with_text(r, flags, "pattern");
    let r: Result<Json, UsageError> = with_maybe_text(r, flags, "kind");
    let r: Result<Json, UsageError> = with_maybe_text(r, flags, "confidence");
    with_maybe_switch(r, flags, "case-insensitive", "case_insensitive")
}

/// `agent-pattern-remove`.
pub open spec fn agent_pattern_remove_request(f: FlagsV) -> Draft {
    and_text(start(), f, "name"@)
}

pub fn build_agent_pattern_remove(flags: &FlagMap) -> (r: Result<Json, UsageError>)
    ensures
        drafted(r) == agent_pattern_remove_request(flags@),
{
    with_text(Ok(Json::object()), flags, "name")
}

/// `kill-session`.
pub open spec fn kill_session_request(f: FlagsV) -> Draft {
    maybe_text(start(), f, "session"@)
}

pub fn build_kill_session(flags: &FlagMap) -> (r: Result<Json, UsageError>)
    ensures
        drafted(r) == kill_session_request(flags@),
{
    with_maybe_text(Ok(Json::object()), flags, "session")
}

/// `layout-export`.
pub open spec fn layout_export_request(f: FlagsV) -> Draft {
    let r = maybe_text(start(), f, "workspace"@);
    maybe_text(r, f, "output"@)
}

pub fn build_layout_export(flags: &FlagMap) -> (r: Result<Json, UsageError>)
    ensures
        drafted(r) == layout_export_request(flags@),
{
    let r: Result<Json, UsageError> = with_maybe_text(Ok(Json::object()), flags, "workspace");
    with_maybe_text(r, flags, "output")
}

/// `layout-apply`.
pub open spec fn layout_apply_request(f: FlagsV) -> Draft {
    let r = maybe_text(start(), f, "input"@);
    maybe_text(r, f, "workspace"@)
}

pub fn build_layout_apply(flags: &FlagMap) -> (r: Result<Json, UsageError>)
    ensures
        drafted(r) == layout_apply_request(flags@),
{
    let r: Result<Json, UsageError> = with_maybe_text(Ok(Json::object()), flags, "input");
    with_maybe_text(r, flags, "workspace")
}

/// `layout-export-all`.
pub open spec fn layout_export_all_request(f: FlagsV) -> Draft {
    maybe_text(start(), f, "output-dir"@)
}

pub fn build_layout_export_all(flags: &FlagMap) -> (r: Result<Json, UsageError>)
    ensures
        drafted(r) == layout_export_all_request(flags@),
{
    with_maybe_text(Ok(Json::object()), flags, "output-dir")
}

/// `rename-session`.
pub open spec fn rename_session_request(f: FlagsV) -> Draft {
    let r = maybe_text(start(), f, "old"@);
    maybe_text(r, f, "new"@)
}

pub fn build_rename_session(flags: &FlagMap) -> (r: Result<Json, UsageError>)
    ensures
        drafted(r) == rename_session_request(flags@),
{
    let r: Result<Json, UsageError> = with_maybe_text(Ok(Json::object()), flags, "old");
    with_maybe_text(r, flags, "new")
}

// ---- the requests with rules of their own -------------------------------------------------

/// One of two flags says where to go: `--index` or `--delta`, and not both.
pub open spec fn selector_draft(f: FlagsV) -> Draft {
    match (f.get("index"@), f.get("delta"@)) {
        (Some(_), Some(_)) => Err("use only one of --index or --delta"@),
        (Some(index), None) => put(
            start(),
            "index"@,
            match usize_value("index"@, index) {
                Ok(n) => Ok(unsigned(n)),
                Err(e) => Err(e),
            },
        ),
        (None, Some(delta)) => put(
            start(),
            "delta"@,
            match isize_value("delta"@, delta) {
                Ok(n) => Ok(signed(n)),
                Err(e) => Err(e),
            },
        ),
        (None, None) => Err("one of --index or --delta is required"@),
    }
}

pub fn selector_request(flags: &FlagMap) -> (r: Result<Json, UsageError>)
    ensures
        drafted(r) == selector_draft(flags@),
{
    match (flags.optional("index"), flags.optional("delta")) {
        (Some(_), Some(_)) => Err(UsageError("use only one of --index or --delta".to_string())),
        (Some(index), None) => match parse_usize("index", index.as_str()) {
            Ok(n) => {
                let mut j: Json = Json::object();
                j.set("index", Json::unsigned(n));
                Ok(j)
            },
            Err(e) => Err(e),
        },
        (None, Some(delta)) => match parse_isize("delta", delta.as_str()) {
            Ok(n) => {
                let mut j: Json = Json::object();
                j.set("delta", Json::signed(n));
                Ok(j)
            },
            Err(e) => Err(e),
        },
        (None, None) => Err(UsageError("one of --index or --delta is required".to_string())),
    }
}

/// `select-tab`.
pub open spec fn select_tab_request(f: FlagsV) -> Draft {
    maybe_u64(selector_draft(f), f, "pane"@)
}

pub fn build_select_tab(flags: &FlagMap) -> (r: Result<Json, UsageError>)
    ensures
        drafted(r) == select_tab_request(flags@),
{
    with_maybe_u64(selector_request(flags), flags, "pane")
}

pub fn build_select_screen(flags: &FlagMap) -> (r: Result<Json, UsageError>)
    ensures
        drafted(r) == selector_draft(flags@),
{
    selector_request(flags)
}

pub fn build_select_workspace(flags: &FlagMap) -> (r: Result<Json, UsageError>)
    ensures
        drafted(r) == selector_draft(flags@),
{
    selector_request(flags)
}

/// `set-workspace-color`: one of `--color` and `--colour` is required, and an empty one clears
/// the colour.
pub open spec fn set_workspace_color_request(f: FlagsV) -> Draft {
    let r = and_u64(start(), f, "workspace"@);
    match r {
        Err(e) => Err(e),
        Ok(_) => match (f.get("color"@), f.get("colour"@)) {
            (Some(_), Some(_)) => Err("use only one of --color or --colour"@),
            (Some(c), None) => put(r, "colour"@, Ok(colour_value(c))),
            (None, Some(c)) => put(r, "colour"@, Ok(colour_value(c))),
            (None, None) => Err("missing --color"@),
        },
    }
}

/// A colour, or null where it is empty.
pub open spec fn colour_value(c: Seq<char>) -> JsonV {
    if c.len() == 0 {
        JsonV::Null
    } else {
        JsonV::Text(c)
    }
}

pub fn build_set_workspace_color(flags: &FlagMap) -> (r: Result<Json, UsageError>)
    ensures
        drafted(r) == set_workspace_color_request(flags@),
{
    match with_u64(Ok(Json::object()), flags, "workspace") {
        Err(e) => Err(e),
        Ok(j) => {
            let mut j: Json = j;
            let color: String = match (flags.optional("color"), flags.optional("colour")) {
                (Some(_), Some(_)) => {
                    return Err(UsageError("use only one of --color or --colour".to_string()));
                },
                (Some(c), None) => c,
                (None, Some(c)) => c,
                (None, None) => {
                    return Err(UsageError("missing --color".to_string()));
                },
            };
            if color.as_str().is_empty() {
                j.set("colour", Json::Null);
            } else {
                j.set("colour", Json::Text(color));
            }
            Ok(j)
        },
    }
}

/// The sources from which an agent's pane can be read.
pub open spec fn read_source(s: Seq<char>) -> bool {
    s == "visible"@ || s == "recent"@ || s == "recent-unwrapped"@
}

/// `agent-read`.
pub open spec fn agent_read_request(f: FlagsV) -> Draft {
    let r = and_text(start(), f, "target"@);
    let r = match f.get("source"@) {
        Some(s) => put(
            r,
            "source"@,
            if read_source(s) {
                Ok(JsonV::Text(s))
            } else {
                Err(
                    "--source must be one of visible, recent, recent-unwrapped (got "@ + quoted(s)
                        + ")"@,
                )
            },
        ),
        None => r,
    };
    match f.get("lines"@) {
        Some(n) => put(
            r,
            "lines"@,
            match usize_value("lines"@, n) {
                Ok(n) => Ok(unsigned(n)),
                Err(e) => Err(e),
            },
        ),
        None => r,
    }
}

/// A message with a quoted text before its closing bracket.
fn got(message: &str, text: &str) -> (e: UsageError)
    ensures
        e.0@ == message@ + quoted(text@) + ")"@,
{
    let mut out: String = owned(message);
    let shown: String = debug_quoted(text);
    out.append(shown.as_str());
    out.append(")");
    UsageError(out)
}

pub fn build_agent_read(flags: &FlagMap) -> (r: Result<Json, UsageError>)
    ensures
        drafted(r) == agent_read_request(flags@),
{
    match with_text(Ok(Json::object()), flags, "target") {
        Err(e) => Err(e),
        Ok(j) => {
            let mut j: Json = j;
            if let Some(source) = flags.optional("source") {
                let s: &str = source.as_str();
                if !(same(s, "visible") || same(s, "recent") || same(s, "recent-unwrapped")) {
                    return Err(
                        got(
                            "--source must be one of visible, recent, recent-unwrapped (got ",
                            s,
                        ),
                    );
                }
                j.set("source", Json::Text(source));
            }
            if let Some(lines) = flags.optional("lines") {
                match parse_usize("lines", lines.as_str()) {
                    Ok(n) => {
                        j.set("lines", Json::unsigned(n));
                    },
                    Err(e) => {
                        return Err(e);
                    },
                }
            }
            Ok(j)
        },
    }
}

/// `set-ratio`: what was fetched is the ratio in decimal, as the flag's text reads in single
/// precision.
pub open spec fn set_ratio_request(f: FlagsV, fetched: FetchedV) -> Draft {
    let r = and_dir(and_u64(start(), f, "pane"@), f);
    put(
        r,
        "ratio"@,
        match f.required("ratio"@) {
            Ok(_) => match fetched {
                FetchedV::Text(t) => Ok(double(t)),
                _ => Err("--ratio must be a number"@),
            },
            Err(e) => Err(e),
        },
    )
}

pub fn build_set_ratio(flags: &FlagMap, fetched: &Fetched) -> (r: Result<Json, UsageError>)
    ensures
        drafted(r) == set_ratio_request(flags@, fetched@),
{
    let r: Result<Json, UsageError> = with_u64(Ok(Json::object()), flags, "pane");
    match with_dir(r, flags) {
        Err(e) => Err(e),
        Ok(j) => match flags.required("ratio") {
            Err(e) => Err(e),
            Ok(_) => match fetched {
                Fetched::Text(t) => {
                    let mut j: Json = j;
                    j.set("ratio", Json::double(t.as_str()));
                    Ok(j)
                },
                _ => Err(UsageError("--ratio must be a number".to_string())),
            },
        },
    }
}

/// The shells that `send` knows.
pub open spec fn known_shell(s: Seq<char>) -> bool {
    ||| s == "auto"@
    ||| s == "fish"@
    ||| s == "bash"@
    ||| s == "zsh"@
    ||| s == "sh"@
    ||| s == "nu"@
    ||| s == "raw"@
}

/// `send` without what it may have to read from standard input.
pub open spec fn send_draft(f: FlagsV) -> Draft {
    let r = and_u64(start(), f, "surface"@);
    let r = maybe_text(r, f, "text"@);
    let r = maybe_text(r, f, "bytes"@);
    let r = maybe_switch(r, f, "send-cr"@, "send_cr"@);
    match f.get("shell"@) {
        Some(s) => put(
            r,
            "shell"@,
            if known_shell(s) {
                Ok(JsonV::Text(s))
            } else {
                Err(
                    "--shell must be one of auto, fish, bash, zsh, sh, nu, raw (got "@ + quoted(s)
                        + ")"@,
                )
            },
        ),
        None => r,
    }
}

/// Whether `send` takes its text from standard input.
pub open spec fn send_reads_stdin(f: FlagsV) -> bool {
    f.get("text"@) is None && f.get("bytes"@) is None
}

/// `send`: what was fetched is standard input.
pub open spec fn send_request(f: FlagsV, fetched: FetchedV) -> Draft {
    if send_reads_stdin(f) {
        put(
            send_draft(f),
            "text"@,
            match fetched {
                FetchedV::Text(t) => Ok(JsonV::Text(t)),
                FetchedV::Nothing => Ok(JsonV::Text(seq![])),
                FetchedV::Failed(why) => Err("failed to read stdin: "@ + why),
            },
        )
    } else {
        send_draft(f)
    }
}

fn send_fields(flags: &FlagMap) -> (r: Result<Json, UsageError>)
    ensures
        drafted(r) == send_draft(flags@),
{
    let r: Result<Json, UsageError> = with_u64(Ok(Json::object()), flags, "surface");
    let r: Result<Json, UsageError> = with_maybe_text(r, flags, "text");
    let r: Result<Json, UsageError> = with_maybe_text(r, flags, "bytes");
    match with_maybe_switch(r, flags, "send-cr", "send_cr") {
        Err(e) => Err(e),
        Ok(j) => {
            let mut j: Json = j;
            if let Some(shell) = flags.optional("shell") {
                let s: &str = shell.as_str();
                let known: bool = same(s, "auto") || same(s, "fish") || same(s, "bash") || same(
                    s,
                    "zsh",
                ) || same(s, "sh") || same(s, "nu") || same(s, "raw");
                if !known {
                    return Err(
                        got(
                            "--shell must be one of auto, fish, bash, zsh, sh, nu, raw (got ",
                            s,
                        ),
                    );
                }
                j.set("shell", Json::Text(shell));
            }
            Ok(j)
        },
    }
}

pub fn build_send(flags: &FlagMap, fetched: &Fetched) -> (r: Result<Json, UsageError>)
    ensures
        drafted(r) == send_request(flags@, fetched@),
{
    match send_fields(flags) {
        Err(e) => Err(e),
        Ok(j) => {
            let mut j: Json = j;
            if flags.optional("text").is_none() && flags.optional("bytes").is_none() {
                match fetched {
                    Fetched::Text(t) => {
                        j.set("text", Json::text(t.as_str()));
                    },
                    Fetched::Nothing => {
                        j.set("text", Json::Text(String::new()));
                    },
                    Fetched::Failed(why) => {
                        let mut message: String = "failed to read stdin: ".to_string();
                        message.append(why.as_str());
                        return Err(UsageError(message));
                    },
                }
            }
            Ok(j)
        },
    }
}

/// The variables of `--env`, from piece `i` on, each a name and a value with an equals sign
/// between them.
pub open spec fn env_from(list: Seq<Seq<char>>, i: int, env: JsonV) -> Draft
    decreases list.len() - i,
{
    if i < 0 || i >= list.len() {
        Ok(env)
    } else {
        match cut(list[i], '=') {
            None => Err("--env entries must be K=V (got "@ + quoted(list[i]) + ")"@),
            Some((key, value)) => if key.len() == 0 {
                Err("--env keys cannot be empty"@)
            } else {
                env_from(list, i + 1, env.with(key, JsonV::Text(value)))
            },
        }
    }
}

/// The request with the command behind `--exec --` and the variables of `--env`.
pub open spec fn with_exec_env(r: Draft, f: FlagsV) -> Draft {
    let r = match f.argv {
        Some(argv) => put(r, "command"@, Ok(text_list(argv))),
        None => r,
    };
    match f.get("env"@) {
        Some(env) => put(r, "env"@, env_from(pieces(env, ','), 0, empty_object())),
        None => r,
    }
}

fn env_object(env: &str) -> (r: Result<Json, UsageError>)
    ensures
        drafted(r) == env_from(pieces(env@, ','), 0, empty_object()),
{
    let list: Vec<String> = split(env, ',');
    let mut out: Json = Json::object();
    let mut i: usize = 0;
    while i < list.len()
        invariant
            i <= list.len(),
            texts(list@) == pieces(env@, ','),
            env_from(pieces(env@, ','), 0, empty_object()) == env_from(
                texts(list@),
                i as int,
                out@,
            ),
        decreases list.len() - i,
    {
        let pair: &str = list[i].as_str();
        assert(texts(list@)[i as int] == pair@);
        match split_once(pair, '=') {
            None => {
                return Err(got("--env entries must be K=V (got ", pair));
            },
            Some((key, value)) => {
                if key.as_str().is_empty() {
                    return Err(UsageError("--env keys cannot be empty".to_string()));
                }
                out.set(key.as_str(), Json::Text(value));
            },
        }
        i = i + 1;
    }
    Ok(out)
}

pub fn insert_exec_env(flags: &FlagMap, value: Json) -> (r: Result<Json, UsageError>)
    ensures
        drafted(r) == with_exec_env(Ok(value@), flags@),
{
    let mut value: Json = value;
    if let Some(argv) = &flags.argv {
        value.set("command", Json::texts(argv));
    }
    if let Some(env) = flags.optional("env") {
        match env_object(env.as_str()) {
            Ok(j) => {
                value.set("env", j);
            },
            Err(e) => {
                return Err(e);
            },
        }
    }
    Ok(value)
}

/// `split`.
pub open spec fn split_request(f: FlagsV) -> Draft {
    let r = and_dir(and_u64(start(), f, "pane"@), f);
    let r = maybe_size(r, f);
    let r = maybe_text(r, f, "branch"@);
    let r = maybe_text(r, f, "label"@);
    with_exec_env(r, f)
}

pub fn build_split(flags: &FlagMap) -> (r: Result<Json, UsageError>)
    ensures
        drafted(r) == split_request(flags@),
{
    let r: Result<Json, UsageError> = with_u64(Ok(Json::object()), flags, "pane");
    let r: Result<Json, UsageError> = with_dir(r, flags);
    let r: Result<Json, UsageError> = with_maybe_size(r, flags);
    let r: Result<Json, UsageError> = with_maybe_text(r, flags, "branch");
    match with_maybe_text(r, flags, "label") {
        Ok(j) => insert_exec_env(flags, j),
        Err(e) => Err(e),
    }
}

/// `new-tab` up to the branch and the label.
pub open spec fn new_tab_draft(f: FlagsV) -> Draft {
    let r = maybe_u64(start(), f, "pane"@);
    let r = maybe_text(r, f, "cwd"@);
    maybe_size(r, f)
}

/// The branch and the label of a prompt file.
pub open spec fn with_frontmatter(r: Draft, path: Seq<char>, fetched: FetchedV) -> Draft {
    match r {
        Err(e) => Err(e),
        Ok(j) => match fetched {
            FetchedV::Failed(why) => Err(
                "failed to read --prompt-file "@ + quoted(path) + ": "@ + why,
            ),
            FetchedV::Nothing => Ok(j),
            FetchedV::Text(t) => match frontmatter(t) {
                Err(e) => Err(e),
                Ok((branch, label)) => {
                    let j = match branch {
                        Some(b) => j.with("branch"@, JsonV::Text(b)),
                        None => j,
                    };
                    match label {
                        Some(l) => Ok(j.with("label"@, JsonV::Text(l))),
                        None => Ok(j),
                    }
                },
            },
        },
    }
}

/// `new-tab`: what was fetched is the prompt file.
pub open spec fn new_tab_request(f: FlagsV, fetched: FetchedV) -> Draft {
    let r = new_tab_draft(f);
    match r {
        Err(e) => Err(e),
        Ok(_) => match f.get("prompt-file"@) {
            Some(path) => if f.get("branch"@) is Some || f.get("label"@) is Some {
                Err("--prompt-file frontmatter cannot be combined with --branch/--label"@)
            } else {
                with_exec_env(with_frontmatter(r, path, fetched), f)
            },
            None => with_exec_env(maybe_text(maybe_text(r, f, "branch"@), f, "label"@), f),
        },
    }
}

fn new_tab_fields(flags: &FlagMap) -> (r: Result<Json, UsageError>)
    ensures
        drafted(r) == new_tab_draft(flags@),
{
    let r: Result<Json, UsageError> = with_maybe_u64(Ok(Json::object()), flags, "pane");
    let r: Result<Json, UsageError> = with_maybe_text(r, flags, "cwd");
    with_maybe_size(r, flags)
}

fn put_frontmatter(j: Json, path: &str, fetched: &Fetched) -> (r: Result<Json, UsageError>)
    ensures
        drafted(r) == with_frontmatter(Ok(j@), path@, fetched@),
{
    match fetched {
        Fetched::Failed(why) => {
            let mut message: String = "failed to read --prompt-file ".to_string();
            let shown: String = debug_quoted(path);
            message.append(shown.as_str());
            message.append(": ");
            message.append(why.as_str());
            Err(UsageError(message))
        },
        Fetched::Nothing => Ok(j),
        Fetched::Text(t) => match parse_prompt_frontmatter(t.as_str()) {
            Err(e) => Err(e),
            Ok((branch, label)) => {
                let mut j: Json = j;
                if let Some(b) = branch {
                    j.set("branch", Json::Text(b));
                }
                if let Some(l) = label {
                    j.set("label", Json::Text(l));
                }
                Ok(j)
            },
        },
    }
}

pub fn build_new_tab(flags: &FlagMap, fetched: &Fetched) -> (r: Result<Json, UsageError>)
    ensures
        drafted(r) == new_tab_request(flags@, fetched@),
{
    match new_tab_fields(flags) {
        Err(e) => Err(e),
        Ok(j) => {
            let r: Result<Json, UsageError> = match flags.optional("prompt-file") {
                Some(path) => {
                    if flags.optional("branch").is_some() || flags.optional("label").is_some() {
                        return Err(
                            UsageError(
                                "--prompt-file frontmatter cannot be combined with --branch/--label".to_string(),
                            ),
                        );
                    }
                    put_frontmatter(j, path.as_str(), fetched)
                },
                None => {
                    let r: Result<Json, UsageError> = with_maybe_text(Ok(j), flags, "branch");
                    with_maybe_text(r, flags, "label")
                },
            };
            match r {
                Ok(j) => insert_exec_env(flags, j),
                Err(e) => Err(e),
            }
        },
    }
}

/// The surface that an agent reports for: the flag's, else the pane's own.
pub open spec fn report_surface(f: FlagsV, fetched: FetchedV) -> Result<u64, Seq<char>> {
    match f.get("surface"@) {
        Some(raw) => u64_value("surface"@, raw),
        None => match fetched {
            FetchedV::Text(v) => u64_value("CMUX_MUX_SURFACE"@, v),
            _ => Err("--surface is required (or run inside a cmux pane via $CMUX_MUX_SURFACE)"@),
        },
    }
}

/// `report-agent`: what was fetched is the surface of the pane that it runs in.
pub open spec fn report_agent_request(f: FlagsV, fetched: FetchedV) -> Draft {
    let r = put(
        start(),
        "surface"@,
        match report_surface(f, fetched) {
            Ok(n) => Ok(unsigned(n)),
            Err(e) => Err(e),
        },
    );
    let r = and_text(r, f, "state"@);
    let r = put(
        r,
        "source"@,
        Ok(
            JsonV::Text(
                match f.get("source"@) {
                    Some(s) => s,
                    None => "socket"@,
                },
            ),
        ),
    );
    let r = maybe_text_as(r, f, "agent-session"@, "session"@);
    let r = maybe_text(r, f, "agent"@);
    maybe_text(r, f, "message"@)
}

pub fn build_report_agent(flags: &FlagMap, fetched: &Fetched) -> (r: Result<Json, UsageError>)
    ensures
        drafted(r) == report_agent_request(flags@, fetched@),
{
    let surface: u64 = match flags.optional("surface") {
        Some(raw) => match parse_u64("surface", raw.as_str()) {
            Ok(n) => n,
            Err(e) => {
                return Err(e);
            },
        },
        None => match fetched {
            Fetched::Text(v) => match parse_u64("CMUX_MUX_SURFACE", v.as_str()) {
                Ok(n) => n,
                Err(e) => {
                    return Err(e);
                },
            },
            _ => {
                return Err(
                    UsageError(
                        "--surface is required (or run inside a cmux pane via $CMUX_MUX_SURFACE)".to_string(),
                    ),
                );
            },
        },
    };
    let mut j: Json = Json::object();
    j.set("surface", Json::unsigned(surface));
    match with_text(Ok(j), flags, "state") {
        Err(e) => Err(e),
        Ok(j) => {
            let mut j: Json = j;
            match flags.optional("source") {
                Some(s) => {
                    j.set("source", Json::Text(s));
                },
                None => {
                    j.set("source", Json::text("socket"));
                },
            }
            let r: Result<Json, UsageError> = with_maybe_text_as(
                Ok(j),
                flags,
                "agent-session",
                "session",
            );
            let r: Result<Json, UsageError> = with_maybe_text(r, flags, "agent");
            with_maybe_text(r, flags, "message")
        },
    }
}

// ---- every verb ---------------------------------------------------------------------------

/// What a verb's request needs from outside, once the flags that come before it are in order.
pub open spec fn needed(v: Verb, f: FlagsV) -> NeedV {
    match v {
        Verb::Send => if send_reads_stdin(f) && send_draft(f) is Ok {
            NeedV::Stdin
        } else {
            NeedV::Nothing
        },
        Verb::NewTab => if f.get("prompt-file"@) is Some && f.get("branch"@) is None && f.get(
            "label"@,
        ) is None && new_tab_draft(f) is Ok {
            NeedV::PromptFile(f.get("prompt-file"@)->0)
        } else {
            NeedV::Nothing
        },
        Verb::ReportAgent => if f.get("surface"@) is None {
            NeedV::SurfaceVariable
        } else {
            NeedV::Nothing
        },
        Verb::SetRatio => match f.get("ratio"@) {
            Some(t) => NeedV::Ratio(t),
            None => NeedV::Nothing,
        },
        _ => NeedV::Nothing,
    }
}

/// What to fetch before the request of a verb is built.
pub fn need(verb: Verb, flags: &FlagMap) -> (r: Need)
    ensures
        r@ == needed(verb, flags@),
{
    match verb {
        Verb::Send => {
            if flags.optional("text").is_none() && flags.optional("bytes").is_none() && send_fields(
                flags,
            ).is_ok() {
                Need::Stdin
            } else {
                Need::Nothing
            }
        },
        Verb::NewTab => match flags.optional("prompt-file") {
            Some(path) => {
                if flags.optional("branch").is_none() && flags.optional("label").is_none()
                    && new_tab_fields(flags).is_ok() {
                    Need::PromptFile(path)
                } else {
                    Need::Nothing
                }
            },
            None => Need::Nothing,
        },
        Verb::ReportAgent => {
            if flags.optional("surface").is_none() {
                Need::SurfaceVariable
            } else {
                Need::Nothing
            }
        },
        Verb::SetRatio => match flags.optional("ratio") {
            Some(t) => Need::Ratio(t),
            None => Need::Nothing,
        },
        _ => Need::Nothing,
    }
}

/// The fields of a verb's request.
pub open spec fn built(v: Verb, f: FlagsV, fetched: FetchedV) -> Draft {
    match v {
        Verb::Identify | Verb::ListWorkspaces | Verb::GetResolvedConfig
        | Verb::Subscribe | Verb::DetectAgents | Verb::AgentPatternList
        | Verb::ListSessions | Verb::KillStale => no_args_request(f),
        Verb::Send => send_request(f, fetched),
        Verb::ReadScreen | Verb::VtState | Verb::CloseSurface | Verb::AttachSurface
        | Verb::DetectAgent | Verb::BrowserReload => surface_request(f),
        Verb::NewTab => new_tab_request(f, fetched),
        Verb::NewBrowserTab => new_browser_tab_request(f),
        Verb::NewWorkspace => new_workspace_request(f),
        Verb::NewScreen => new_screen_request(f),
        Verb::Split => split_request(f),
        Verb::SetRatio => set_ratio_request(f, fetched),
        Verb::SetDefaultColors => set_default_colors_request(f),
        Verb::ClosePane | Verb::FocusPane => pane_request(f),
        Verb::CloseScreen => screen_request(f),
        Verb::CloseWorkspace => workspace_request(f),
        Verb::RenamePane => rename_pane_request(f),
        Verb::RenameSurface => rename_surface_request(f),
        Verb::RenameScreen => rename_screen_request(f),
        Verb::RenameWorkspace => rename_workspace_request(f),
        Verb::SetWorkspaceColor => set_workspace_color_request(f),
        Verb::SetStatus => set_status_request(f),
        Verb::WorkspaceColor => workspace_color_request(f),
        Verb::TriggerFlash => trigger_flash_request(f),
        Verb::ResizeSurface => resize_surface_request(f),
        Verb::SelectTab => select_tab_request(f),
        Verb::SelectScreen => selector_draft(f),
        Verb::SelectWorkspace => selector_draft(f),
        Verb::MoveTab => move_tab_request(f),
        Verb::MoveWorkspace => move_workspace_request(f),
        Verb::ScrollSurface => scroll_surface_request(f),
        Verb::ReportAgent => report_agent_request(f, fetched),
        Verb::ListAgents => list_agents_request(f),
        Verb::PaneWorktreeCreate => pane_worktree_create_request(f),
        Verb::PaneWorktreeList => pane_worktree_list_request(f),
        Verb::PaneWorktreeRemove => pane_worktree_remove_request(f),
        Verb::AgentPatternAdd => agent_pattern_add_request(f),
        Verb::AgentPatternRemove => agent_pattern_remove_request(f),
        Verb::AgentRead => agent_read_request(f),
        Verb::KillSession => kill_session_request(f),
        Verb::RenameSession => rename_session_request(f),
        Verb::LayoutExport => layout_export_request(f),
        Verb::LayoutApply => layout_apply_request(f),
        Verb::LayoutExportAll => layout_export_all_request(f),
    }
}

pub fn build(verb: Verb, flags: &FlagMap, fetched: &Fetched) -> (r: Result<Json, UsageError>)
    ensures
        drafted(r) == built(verb, flags@, fetched@),
{
    match verb {
        Verb::Identify | Verb::ListWorkspaces | Verb::GetResolvedConfig
        | Verb::Subscribe | Verb::DetectAgents | Verb::AgentPatternList
        | Verb::ListSessions | Verb::KillStale => build_no_args(flags),
        Verb::Send => build_send(flags, fetched),
        Verb::ReadScreen | Verb::VtState | Verb::CloseSurface | Verb::AttachSurface
        | Verb::DetectAgent | Verb::BrowserReload => build_surface(flags),
        Verb::NewTab => build_new_tab(flags, fetched),
        Verb::NewBrowserTab => build_new_browser_tab(flags),
        Verb::NewWorkspace => build_new_workspace(flags),
        Verb::NewScreen => build_new_screen(flags),
        Verb::Split => build_split(flags),
        Verb::SetRatio => build_set_ratio(flags, fetched),
        Verb::SetDefaultColors => build_set_default_colors(flags),
        Verb::ClosePane | Verb::FocusPane => build_pane(flags),
        Verb::CloseScreen => build_screen(flags),
        Verb::CloseWorkspace => build_workspace(flags),
        Verb::RenamePane => build_rename_pane(flags),
        Verb::RenameSurface => build_rename_surface(flags),
        Verb::RenameScreen => build_rename_screen(flags),
        Verb::RenameWorkspace => build_rename_workspace(flags),
        Verb::SetWorkspaceColor => build_set_workspace_color(flags),
        Verb::SetStatus => build_set_status(flags),
        Verb::WorkspaceColor => build_workspace_color(flags),
        Verb::TriggerFlash => build_trigger_flash(flags),
        Verb::ResizeSurface => build_resize_surface(flags),
        Verb::SelectTab => build_select_tab(flags),
        Verb::SelectScreen => build_select_screen(flags),
        Verb::SelectWorkspace => build_select_workspace(flags),
        Verb::MoveTab => build_move_tab(flags),
        Verb::MoveWorkspace => build_move_workspace(flags),
        Verb::ScrollSurface => build_scroll_surface(flags),
        Verb::ReportAgent => build_report_agent(flags, fetched),
        Verb::ListAgents => build_list_agents(flags),
        Verb::PaneWorktreeCreate => build_pane_worktree_create(flags),
        Verb::PaneWorktreeList => build_pane_worktree_list(flags),
        Verb::PaneWorktreeRemove => build_pane_worktree_remove(flags),
        Verb::AgentPatternAdd => build_agent_pattern_add(flags),
        Verb::AgentPatternRemove => build_agent_pattern_remove(flags),
        Verb::AgentRead => build_agent_read(flags),
        Verb::KillSession => build_kill_session(flags),
        Verb::RenameSession => build_rename_session(flags),
        Verb::LayoutExport => build_layout_export(flags),
        Verb::LayoutApply => build_layout_apply(flags),
        Verb::LayoutExportAll => build_layout_export_all(flags),
    }
}

/// The whole request of a verb: its fields, its name, and the number by which the answer is
/// known.
pub open spec fn request(v: Verb, f: FlagsV, fetched: FetchedV) -> Draft {
    let r = put(built(v, f, fetched), "cmd"@, Ok(JsonV::Text(verb_name(v))));
    put(r, "id"@, Ok(unsigned(REQUEST_ID)))
}

pub fn request_of(args: &CliArgs, fetched: &Fetched) -> (r: Result<Json, UsageError>)
    ensures
        drafted(r) == request(args.verb, args.flags@, fetched@),
{
    match build(args.verb, &args.flags, fetched) {
        Ok(j) => {
            let mut j: Json = j;
            j.set("cmd", Json::text(args.verb.name()));
            j.set("id", Json::unsigned(REQUEST_ID));
            Ok(j)
        },
        Err(e) => Err(e),
    }
}

/// Whether a draft, where it is one, is an object of finitely many fields.
pub open spec fn is_object(r: Draft) -> bool {
    r matches Ok(j) ==> j is Object && j->Object_0.dom().finite()
}

proof fn lemma_built_object(v: Verb, f: FlagsV, fetched: FetchedV)
    ensures
        is_object(built(v, f, fetched)),
{
}

/// Every request says which verb it is for, and by which number its answer is known.
pub proof fn law_request_named(v: Verb, f: FlagsV, fetched: FetchedV)
    ensures
        match request(v, f, fetched) {
            Ok(j) => j.field("cmd"@) == Some(JsonV::Text(verb_name(v))) && j.field("id"@) == Some(
                unsigned(REQUEST_ID),
            ),
            Err(why) => built(v, f, fetched) == Err::<JsonV, Seq<char>>(why),
        },
{
    lemma_built_object(v, f, fetched);
    reveal_strlit("cmd");
    reveal_strlit("id");
    assert("cmd"@.len() == 3 && "id"@.len() == 2);
}

/// A request as it goes over the socket: one line.
pub open spec fn line_of(request: JsonV) -> Seq<char> {
    json_text(request) + "\n"@
}

pub fn request_line(request: &Json) -> (r: String)
    ensures
        r@ == line_of(request@),
{
    let mut line: String = render(request);
    line.append("\n");
    line
}

// ---- what becomes of the flags ------------------------------------------------------------

/// A number by which the names of flags and fields are told apart.
spec fn tag(s: Seq<char>) -> int {
    s.len() * 1000000000 + (s[0] as int) * 1000000 + (s[1] as int) * 1000 + (s[s.len() - 1] as int)
}

proof fn lemma_tags()
    ensures
        tag("agent"@) == 5097103116,
        tag("agent-session"@) == 13097103110,
        tag("bg"@) == 2098103103,
        tag("branch"@) == 6098114104,
        tag("bytes"@) == 5098121115,
        tag("case-insensitive"@) == 16099097101,
        tag("case_insensitive"@) == 16099097101,
        tag("cmd"@) == 3099109100,
        tag("color"@) == 5099111114,
        tag("colour"@) == 6099111114,
        tag("cols"@) == 4099111115,
        tag("command"@) == 7099111100,
        tag("confidence"@) == 10099111101,
        tag("cwd"@) == 3099119100,
        tag("delta"@) == 5100101097,
        tag("dir"@) == 3100105114,
        tag("env"@) == 3101110118,
        tag("exec"@) == 4101120099,
        tag("fg"@) == 2102103103,
        tag("icon"@) == 4105099110,
        tag("id"@) == 2105100100,
        tag("index"@) == 5105110120,
        tag("input"@) == 5105110116,
        tag("kind"@) == 4107105100,
        tag("label"@) == 5108097108,
        tag("lines"@) == 5108105115,
        tag("message"@) == 7109101101,
        tag("name"@) == 4110097101,
        tag("new"@) == 3110101119,
        tag("old"@) == 3111108100,
        tag("output"@) == 6111117116,
        tag("output-dir"@) == 10111117114,
        tag("pane"@) == 4112097101,
        tag("pattern"@) == 7112097110,
        tag("prompt-file"@) == 11112114101,
        tag("ratio"@) == 5114097111,
        tag("rows"@) == 4114111115,
        tag("screen"@) == 6115099110,
        tag("send-cr"@) == 7115101114,
        tag("send_cr"@) == 7115101114,
        tag("session"@) == 7115101110,
        tag("shell"@) == 5115104108,
        tag("source"@) == 6115111101,
        tag("state"@) == 5115116101,
        tag("surface"@) == 7115117101,
        tag("target"@) == 6116097116,
        tag("text"@) == 4116101116,
        tag("url"@) == 3117114108,
        tag("workspace"@) == 9119111101,
{
    reveal_strlit("agent");
    reveal_strlit("agent-session");
    reveal_strlit("bg");
    reveal_strlit("branch");
    reveal_strlit("bytes");
    reveal_strlit("case-insensitive");
    reveal_strlit("case_insensitive");
    reveal_strlit("cmd");
    reveal_strlit("color");
    reveal_strlit("colour");
    reveal_strlit("cols");
    reveal_strlit("command");
    reveal_strlit("confidence");
    reveal_strlit("cwd");
    reveal_strlit("delta");
    reveal_strlit("dir");
    reveal_strlit("env");
    reveal_strlit("exec");
    reveal_strlit("fg");
    reveal_strlit("icon");
    reveal_strlit("id");
    reveal_strlit("index");
    reveal_strlit("input");
    reveal_strlit("kind");
    reveal_strlit("label");
    reveal_strlit("lines");
    reveal_strlit("message");
    reveal_strlit("name");
    reveal_strlit("new");
    reveal_strlit("old");
    reveal_strlit("output");
    reveal_strlit("output-dir");
    reveal_strlit("pane");
    reveal_strlit("pattern");
    reveal_strlit("prompt-file");
    reveal_strlit("ratio");
    reveal_strlit("rows");
    reveal_strlit("screen");
    reveal_strlit("send-cr");
    reveal_strlit("send_cr");
    reveal_strlit("session");
    reveal_strlit("shell");
    reveal_strlit("source");
    reveal_strlit("state");
    reveal_strlit("surface");
    reveal_strlit("target");
    reveal_strlit("text");
    reveal_strlit("url");
    reveal_strlit("workspace");
    assert("agent"@.len() == 5 && "agent"@[0] == 'a' && "agent"@[1] == 'g' && "agent"@[4] == 't');
    assert("agent-session"@.len() == 13 && "agent-session"@[0] == 'a' && "agent-session"@[1] == 'g' && "agent-session"@[12] == 'n');
    assert("bg"@.len() == 2 && "bg"@[0] == 'b' && "bg"@[1] == 'g' && "bg"@[1] == 'g');
    assert("branch"@.len() == 6 && "branch"@[0] == 'b' && "branch"@[1] == 'r' && "branch"@[5] == 'h');
    assert("bytes"@.len() == 5 && "bytes"@[0] == 'b' && "bytes"@[1] == 'y' && "bytes"@[4] == 's');
    assert("case-insensitive"@.len() == 16 && "case-insensitive"@[0] == 'c' && "case-insensitive"@[1] == 'a' && "case-insensitive"@[15] == 'e');
    assert("case_insensitive"@.len() == 16 && "case_insensitive"@[0] == 'c' && "case_insensitive"@[1] == 'a' && "case_insensitive"@[15] == 'e');
    assert("cmd"@.len() == 3 && "cmd"@[0] == 'c' && "cmd"@[1] == 'm' && "cmd"@[2] == 'd');
    assert("color"@.len() == 5 && "color"@[0] == 'c' && "color"@[1] == 'o' && "color"@[4] == 'r');
    assert("colour"@.len() == 6 && "colour"@[0] == 'c' && "colour"@[1] == 'o' && "colour"@[5] == 'r');
    assert("cols"@.len() == 4 && "cols"@[0] == 'c' && "cols"@[1] == 'o' && "cols"@[3] == 's');
    assert("command"@.len() == 7 && "command"@[0] == 'c' && "command"@[1] == 'o' && "command"@[6] == 'd');
    assert("confidence"@.len() == 10 && "confidence"@[0] == 'c' && "confidence"@[1] == 'o' && "confidence"@[9] == 'e');
    assert("cwd"@.len() == 3 && "cwd"@[0] == 'c' && "cwd"@[1] == 'w' && "cwd"@[2] == 'd');
    assert("delta"@.len() == 5 && "delta"@[0] == 'd' && "delta"@[1] == 'e' && "delta"@[4] == 'a');
    assert("dir"@.len() == 3 && "dir"@[0] == 'd' && "dir"@[1] == 'i' && "dir"@[2] == 'r');
    assert("env"@.len() == 3 && "env"@[0] == 'e' && "env"@[1] == 'n' && "env"@[2] == 'v');
    assert("exec"@.len() == 4 && "exec"@[0] == 'e' && "exec"@[1] == 'x' && "exec"@[3] == 'c');
    assert("fg"@.len() == 2 && "fg"@[0] == 'f' && "fg"@[1] == 'g' && "fg"@[1] == 'g');
    assert("icon"@.len() == 4 && "icon"@[0] == 'i' && "icon"@[1] == 'c' && "icon"@[3] == 'n');
    assert("id"@.len() == 2 && "id"@[0] == 'i' && "id"@[1] == 'd' && "id"@[1] == 'd');
    assert("index"@.len() == 5 && "index"@[0] == 'i' && "index"@[1] == 'n' && "index"@[4] == 'x');
    assert("input"@.len() == 5 && "input"@[0] == 'i' && "input"@[1] == 'n' && "input"@[4] == 't');
    assert("kind"@.len() == 4 && "kind"@[0] == 'k' && "kind"@[1] == 'i' && "kind"@[3] == 'd');
    assert("label"@.len() == 5 && "label"@[0] == 'l' && "label"@[1] == 'a' && "label"@[4] == 'l');
    assert("lines"@.len() == 5 && "lines"@[0] == 'l' && "lines"@[1] == 'i' && "lines"@[4] == 's');
    assert("message"@.len() == 7 && "message"@[0] == 'm' && "message"@[1] == 'e' && "message"@[6] == 'e');
    assert("name"@.len() == 4 && "name"@[0] == 'n' && "name"@[1] == 'a' && "name"@[3] == 'e');
    assert("new"@.len() == 3 && "new"@[0] == 'n' && "new"@[1] == 'e' && "new"@[2] == 'w');
    assert("old"@.len() == 3 && "old"@[0] == 'o' && "old"@[1] == 'l' && "old"@[2] == 'd');
    assert("output"@.len() == 6 && "output"@[0] == 'o' && "output"@[1] == 'u' && "output"@[5] == 't');
    assert("output-dir"@.len() == 10 && "output-dir"@[0] == 'o' && "output-dir"@[1] == 'u' && "output-dir"@[9] == 'r');
    assert("pane"@.len() == 4 && "pane"@[0] == 'p' && "pane"@[1] == 'a' && "pane"@[3] == 'e');
    assert("pattern"@.len() == 7 && "pattern"@[0] == 'p' && "pattern"@[1] == 'a' && "pattern"@[6] == 'n');
    assert("prompt-file"@.len() == 11 && "prompt-file"@[0] == 'p' && "prompt-file"@[1] == 'r' && "prompt-file"@[10] == 'e');
    assert("ratio"@.len() == 5 && "ratio"@[0] == 'r' && "ratio"@[1] == 'a' && "ratio"@[4] == 'o');
    assert("rows"@.len() == 4 && "rows"@[0] == 'r' && "rows"@[1] == 'o' && "rows"@[3] == 's');
    assert("screen"@.len() == 6 && "screen"@[0] == 's' && "screen"@[1] == 'c' && "screen"@[5] == 'n');
    assert("send-cr"@.len() == 7 && "send-cr"@[0] == 's' && "send-cr"@[1] == 'e' && "send-cr"@[6] == 'r');
    assert("send_cr"@.len() == 7 && "send_cr"@[0] == 's' && "send_cr"@[1] == 'e' && "send_cr"@[6] == 'r');
    assert("session"@.len() == 7 && "session"@[0] == 's' && "session"@[1] == 'e' && "session"@[6] == 'n');
    assert("shell"@.len() == 5 && "shell"@[0] == 's' && "shell"@[1] == 'h' && "shell"@[4] == 'l');
    assert("source"@.len() == 6 && "source"@[0] == 's' && "source"@[1] == 'o' && "source"@[5] == 'e');
    assert("state"@.len() == 5 && "state"@[0] == 's' && "state"@[1] == 't' && "state"@[4] == 'e');
    assert("surface"@.len() == 7 && "surface"@[0] == 's' && "surface"@[1] == 'u' && "surface"@[6] == 'e');
    assert("target"@.len() == 6 && "target"@[0] == 't' && "target"@[1] == 'a' && "target"@[5] == 't');
    assert("text"@.len() == 4 && "text"@[0] == 't' && "text"@[1] == 'e' && "text"@[3] == 't');
    assert("url"@.len() == 3 && "url"@[0] == 'u' && "url"@[1] == 'r' && "url"@[2] == 'l');
    assert("workspace"@.len() == 9 && "workspace"@[0] == 'w' && "workspace"@[1] == 'o' && "workspace"@[8] == 'e');
}

/// The field of a request that carries a flag.
pub open spec fn sent_as(v: Verb, flag: Seq<char>) -> Seq<char> {
    if flag == "send-cr"@ {
        "send_cr"@
    } else if flag == "case-insensitive"@ {
        "case_insensitive"@
    } else if flag == "agent-session"@ {
        "session"@
    } else if v == Verb::SetWorkspaceColor && flag == "color"@ {
        "colour"@
    } else {
        flag
    }
}

/// Whether a flag is the number of something.
pub open spec fn is_number(v: Verb, flag: Seq<char>) -> bool {
    ||| flag == "surface"@
    ||| flag == "pane"@
    ||| flag == "screen"@
    ||| flag == "index"@
    ||| flag == "lines"@
    ||| flag == "workspace"@ && v != Verb::LayoutExport && v != Verb::LayoutApply
}

/// What the value of a flag means: a number, a yes or a no, or the text itself; nothing where it
/// cannot be read.
pub open spec fn meaning(v: Verb, flag: Seq<char>, value: Seq<char>) -> Option<JsonV> {
    if is_number(v, flag) || flag == "cols"@ || flag == "rows"@ {
        let max: int = if is_number(v, flag) {
            0xffff_ffff_ffff_ffff
        } else {
            0xffff
        };
        match crate::text::read_unsigned(value, max) {
            Some(n) => Some(unsigned(n as u64)),
            None => None,
        }
    } else if flag == "delta"@ {
        match crate::text::read_signed(value, i64::MIN as int, i64::MAX as int) {
            Some(n) => Some(signed(n as i64)),
            None => None,
        }
    } else if flag == "send-cr"@ || flag == "case-insensitive"@ {
        Some(
            JsonV::Bool(
                !(value == "0"@ || value == "false"@ || value == "no"@ || value == "False"@
                    || value == "No"@ || value == "FALSE"@ || value == "NO"@),
            ),
        )
    } else if v == Verb::SetWorkspaceColor && value.len() == 0 {
        Some(JsonV::Null)
    } else {
        Some(JsonV::Text(value))
    }
}

/// Whether a flag stands for itself in the request; the others stand for something else: a
/// command, variables, a file or a number that is read elsewhere.
pub open spec fn stands_for_itself(flag: Seq<char>) -> bool {
    flag != "exec"@ && flag != "env"@ && flag != "prompt-file"@ && flag != "ratio"@
}

/// No flag of a verb is lost: where a request is built, each flag that was given stands in the
/// field of its name, with what its value means.
#[verifier::spinoff_prover]
#[verifier::rlimit(100)]
pub proof fn law_flags_sent(v: Verb, f: FlagsV, fetched: FetchedV, flag: Seq<char>)
    requires
        verb_allows(v, flag),
        stands_for_itself(flag),
    ensures
        request(v, f, fetched) matches Ok(j) ==> (f.get(flag) matches Some(value) ==> j.field(
            sent_as(v, flag),
        ) is Some && j.field(sent_as(v, flag)) == meaning(v, flag, value)),
{
    lemma_tags();
    lemma_built_object(v, f, fetched);
}

/// Nothing is sent that was not asked for: a field of a request carries the verb, the number of
/// the request, a flag that was given, the command behind `--exec`, or what a verb takes from
/// elsewhere where its flags do not say it.
#[verifier::spinoff_prover]
#[verifier::rlimit(100)]
pub proof fn law_only_flags_sent(v: Verb, f: FlagsV, fetched: FetchedV, key: Seq<char>)
    ensures
        request(v, f, fetched) matches Ok(j) ==> (j.field(key) is Some ==> {
            ||| key == "cmd"@ || key == "id"@
            ||| key == "command"@ && f.argv is Some
            ||| exists|flag: Seq<char>| #[trigger]
                verb_allows(v, flag) && f.get(flag) is Some && sent_as(v, flag) == key
            ||| v == Verb::Send && key == "text"@
            ||| v == Verb::ReportAgent && (key == "surface"@ || key == "source"@)
            ||| v == Verb::NewTab && f.get("prompt-file"@) is Some && (key == "branch"@ || key
                == "label"@)
        }),
{
    lemma_tags();
    lemma_built_object(v, f, fetched);
    if let Ok(j) = request(v, f, fetched) {
        if j.field(key) is Some && key != "cmd"@ && key != "id"@ && key != "command"@ {
            let flag = if key == "send_cr"@ {
                "send-cr"@
            } else if key == "case_insensitive"@ {
                "case-insensitive"@
            } else if key == "session"@ && v == Verb::ReportAgent {
                "agent-session"@
            } else if v == Verb::SetWorkspaceColor && key == "colour"@ && f.get("color"@) is Some {
                "color"@
            } else {
                key
            };
            if v != Verb::Send && v != Verb::ReportAgent && v != Verb::NewTab {
                assert(verb_allows(v, flag));
                assert(f.get(flag) is Some);
                assert(sent_as(v, flag) == key);
            } else if !(v == Verb::Send && key == "text"@) && !(v == Verb::ReportAgent && (key
                == "surface"@ || key == "source"@)) && !(v == Verb::NewTab && f.get(
                "prompt-file"@,
            ) is Some && (key == "branch"@ || key == "label"@)) {
                assert(verb_allows(v, flag));
                assert(f.get(flag) is Some);
                assert(sent_as(v, flag) == key);
            }
        }
    }
}

/// The flags of a verb that its request cannot do without.
pub open spec fn cannot_do_without(v: Verb, flag: Seq<char>) -> bool {
    match v {
        Verb::Send | Verb::ReadScreen | Verb::VtState | Verb::CloseSurface | Verb::AttachSurface
        | Verb::DetectAgent | Verb::BrowserReload => flag == "surface"@,
        Verb::NewBrowserTab => flag == "url"@,
        Verb::Split => flag == "pane"@ || flag == "dir"@,
        Verb::SetRatio => flag == "pane"@ || flag == "dir"@ || flag == "ratio"@,
        Verb::ClosePane | Verb::FocusPane | Verb::PaneWorktreeList => flag == "pane"@,
        Verb::CloseScreen => flag == "screen"@,
        Verb::CloseWorkspace | Verb::SetWorkspaceColor | Verb::TriggerFlash => flag == "workspace"@,
        Verb::RenamePane => flag == "pane"@ || flag == "name"@,
        Verb::RenameSurface => flag == "surface"@ || flag == "name"@,
        Verb::RenameScreen => flag == "screen"@ || flag == "name"@,
        Verb::RenameWorkspace => flag == "workspace"@ || flag == "name"@,
        Verb::SetStatus => flag == "icon"@,
        Verb::WorkspaceColor => flag == "name"@ || flag == "color"@,
        Verb::ResizeSurface => flag == "surface"@ || flag == "cols"@ || flag == "rows"@,
        Verb::MoveTab => flag == "surface"@ || flag == "pane"@ || flag == "index"@,
        Verb::MoveWorkspace => flag == "workspace"@ || flag == "index"@,
        Verb::ScrollSurface => flag == "surface"@ || flag == "delta"@,
        Verb::ReportAgent => flag == "state"@,
        Verb::PaneWorktreeCreate | Verb::PaneWorktreeRemove => flag == "pane"@ || flag == "branch"@,
        Verb::AgentPatternAdd => flag == "name"@ || flag == "pattern"@,
        Verb::AgentPatternRemove => flag == "name"@,
        Verb::AgentRead => flag == "target"@,
        _ => false,
    }
}

/// A flag whose value is one of a few words.
pub open spec fn is_known_word(v: Verb, flag: Seq<char>, value: Seq<char>) -> bool {
    &&& flag == "dir"@ ==> value == "right"@ || value == "down"@
    &&& v == Verb::AgentRead && flag == "source"@ ==> value == "visible"@ || value == "recent"@
        || value == "recent-unwrapped"@
    &&& v == Verb::Send && flag == "shell"@ ==> value == "auto"@ || value == "fish"@ || value
        == "bash"@ || value == "zsh"@ || value == "sh"@ || value == "nu"@ || value == "raw"@
}

/// The rules that tie flags of a verb to each other.
pub open spec fn fit_together(v: Verb, f: FlagsV) -> bool {
    &&& v == Verb::SelectTab || v == Verb::SelectScreen || v == Verb::SelectWorkspace ==> (f.get(
        "index"@,
    ) is Some) != (f.get("delta"@) is Some)
    &&& v == Verb::SetWorkspaceColor ==> (f.get("color"@) is Some) != (f.get("colour"@) is Some)
    &&& verb_allows(v, "cols"@) ==> (f.get("cols"@) is Some) == (f.get("rows"@) is Some)
    &&& v == Verb::NewTab && f.get("prompt-file"@) is Some ==> f.get("branch"@) is None && f.get(
        "label"@,
    ) is None
}

/// A request is refused where a flag is missing that it cannot do without, where a flag cannot be
/// read or is none of the words that it may be, and where two flags do not fit together.
#[verifier::spinoff_prover]
#[verifier::rlimit(100)]
pub proof fn law_request_refused(v: Verb, f: FlagsV, fetched: FetchedV, flag: Seq<char>)
    ensures
        cannot_do_without(v, flag) && f.get(flag) is None ==> request(v, f, fetched) is Err,
        verb_allows(v, flag) && stands_for_itself(flag) && f.get(flag) is Some && meaning(
            v,
            flag,
            f.get(flag)->0,
        ) is None ==> request(v, f, fetched) is Err,
        verb_allows(v, flag) && f.get(flag) is Some && !is_known_word(v, flag, f.get(flag)->0)
            ==> request(v, f, fetched) is Err,
        !fit_together(v, f) ==> request(v, f, fetched) is Err,
{
    lemma_tags();
    lemma_built_object(v, f, fetched);
}

/// A request is built where nothing of that kind is wrong with the flags, where their variables
/// can be read, and where what it takes from elsewhere could be had.
#[verifier::spinoff_prover]
#[verifier::rlimit(100)]
pub proof fn law_request_built(v: Verb, f: FlagsV, fetched: FetchedV)
    requires
        forall|flag: Seq<char>| #[trigger] cannot_do_without(v, flag) ==> f.get(flag) is Some,
        forall|flag: Seq<char>| #[trigger]
            verb_allows(v, flag) && f.get(flag) is Some ==> is_known_word(v, flag, f.get(flag)->0)
                && (stands_for_itself(flag) ==> meaning(v, flag, f.get(flag)->0) is Some),
        forall|flag: Seq<char>| #[trigger] f.values.dom().contains(flag) ==> verb_allows(v, flag),
        fit_together(v, f),
        f.get("env"@) matches Some(env) ==> env_from(pieces(env, ','), 0, empty_object()) is Ok,
        v == Verb::Send ==> !(fetched is Failed),
        v == Verb::SetRatio ==> fetched is Text,
        v == Verb::ReportAgent && f.get("surface"@) is None ==> {
            fetched matches FetchedV::Text(t) && crate::text::read_unsigned(
                t,
                u64::MAX as int,
            ) is Some
        },
        v == Verb::NewTab && f.get("prompt-file"@) is Some ==> {
            ||| fetched is Nothing
            ||| fetched matches FetchedV::Text(t) && frontmatter(t) is Ok
        },
    ensures
        request(v, f, fetched) is Ok,
{
    lemma_tags();
    lemma_built_object(v, f, fetched);
    lemma_flag_ok(v, f, "surface"@);
    lemma_flag_ok(v, f, "pane"@);
    lemma_flag_ok(v, f, "dir"@);
    lemma_flag_ok(v, f, "ratio"@);
    lemma_flag_ok(v, f, "url"@);
    lemma_flag_ok(v, f, "name"@);
    lemma_flag_ok(v, f, "screen"@);
    lemma_flag_ok(v, f, "workspace"@);
    lemma_flag_ok(v, f, "icon"@);
    lemma_flag_ok(v, f, "color"@);
    lemma_flag_ok(v, f, "cols"@);
    lemma_flag_ok(v, f, "rows"@);
    lemma_flag_ok(v, f, "index"@);
    lemma_flag_ok(v, f, "delta"@);
    lemma_flag_ok(v, f, "state"@);
    lemma_flag_ok(v, f, "branch"@);
    lemma_flag_ok(v, f, "pattern"@);
    lemma_flag_ok(v, f, "target"@);
    lemma_flag_ok(v, f, "lines"@);
    lemma_flag_ok(v, f, "source"@);
    lemma_flag_ok(v, f, "shell"@);
    if !(exists|flag: Seq<char>| #[trigger] f.values.dom().contains(flag)) {
        assert(f.values =~= Map::<Seq<char>, Seq<char>>::empty());
    }
}

/// What holds of every flag holds of one.
proof fn lemma_flag_ok(v: Verb, f: FlagsV, flag: Seq<char>)
    requires
        forall|flag: Seq<char>| #[trigger] cannot_do_without(v, flag) ==> f.get(flag) is Some,
        forall|flag: Seq<char>| #[trigger]
            verb_allows(v, flag) && f.get(flag) is Some ==> is_known_word(v, flag, f.get(flag)->0)
                && (stands_for_itself(flag) ==> meaning(v, flag, f.get(flag)->0) is Some),
    ensures
        cannot_do_without(v, flag) ==> f.get(flag) is Some,
        verb_allows(v, flag) && f.get(flag) is Some ==> is_known_word(v, flag, f.get(flag)->0) && (
        stands_for_itself(flag) ==> meaning(v, flag, f.get(flag)->0) is Some),
{
}

/// Only the flags that a verb takes matter to its request.
#[verifier::spinoff_prover]
#[verifier::rlimit(100)]
pub proof fn law_only_allowed_matter(v: Verb, f: FlagsV, g: FlagsV, fetched: FetchedV)
    requires
        f.argv == g.argv,
        forall|flag: Seq<char>| #[trigger] verb_allows(v, flag) ==> f.get(flag) == g.get(flag),
        (f.values == Map::<Seq<char>, Seq<char>>::empty()) == (g.values == Map::<
            Seq<char>,
            Seq<char>,
        >::empty()),
    ensures
        request(v, f, fetched) is Ok ==> request(v, g, fetched) == request(v, f, fetched),
{
    lemma_same_flag(v, f, g, "surface"@);
    lemma_same_flag(v, f, g, "text"@);
    lemma_same_flag(v, f, g, "bytes"@);
    lemma_same_flag(v, f, g, "send-cr"@);
    lemma_same_flag(v, f, g, "shell"@);
    lemma_same_flag(v, f, g, "pane"@);
    lemma_same_flag(v, f, g, "cwd"@);
    lemma_same_flag(v, f, g, "cols"@);
    lemma_same_flag(v, f, g, "rows"@);
    lemma_same_flag(v, f, g, "branch"@);
    lemma_same_flag(v, f, g, "label"@);
    lemma_same_flag(v, f, g, "prompt-file"@);
    lemma_same_flag(v, f, g, "env"@);
    lemma_same_flag(v, f, g, "url"@);
    lemma_same_flag(v, f, g, "name"@);
    lemma_same_flag(v, f, g, "workspace"@);
    lemma_same_flag(v, f, g, "dir"@);
    lemma_same_flag(v, f, g, "ratio"@);
    lemma_same_flag(v, f, g, "fg"@);
    lemma_same_flag(v, f, g, "bg"@);
    lemma_same_flag(v, f, g, "screen"@);
    lemma_same_flag(v, f, g, "color"@);
    lemma_same_flag(v, f, g, "colour"@);
    lemma_same_flag(v, f, g, "icon"@);
    lemma_same_flag(v, f, g, "index"@);
    lemma_same_flag(v, f, g, "delta"@);
    lemma_same_flag(v, f, g, "state"@);
    lemma_same_flag(v, f, g, "source"@);
    lemma_same_flag(v, f, g, "agent-session"@);
    lemma_same_flag(v, f, g, "agent"@);
    lemma_same_flag(v, f, g, "message"@);
    lemma_same_flag(v, f, g, "pattern"@);
    lemma_same_flag(v, f, g, "kind"@);
    lemma_same_flag(v, f, g, "confidence"@);
    lemma_same_flag(v, f, g, "case-insensitive"@);
    lemma_same_flag(v, f, g, "target"@);
    lemma_same_flag(v, f, g, "lines"@);
    lemma_same_flag(v, f, g, "old"@);
    lemma_same_flag(v, f, g, "new"@);
    lemma_same_flag(v, f, g, "output"@);
    lemma_same_flag(v, f, g, "input"@);
    lemma_same_flag(v, f, g, "output-dir"@);
    lemma_same_flag(v, f, g, "session"@);
    assert(built(v, f, fetched) is Ok ==> built(v, g, fetched) == built(v, f, fetched));
}

proof fn lemma_same_flag(v: Verb, f: FlagsV, g: FlagsV, flag: Seq<char>)
    requires
        forall|flag: Seq<char>| #[trigger] verb_allows(v, flag) ==> f.get(flag) == g.get(flag),
    ensures
        verb_allows(v, flag) ==> f.get(flag) == g.get(flag),
{
}

/// The name in a piece of `--env`.
pub open spec fn piece_name(piece: Seq<char>) -> Seq<char> {
    match cut(piece, '=') {
        Some((name, _)) => name,
        None => seq![],
    }
}

/// The value in a piece of `--env`.
pub open spec fn piece_value(piece: Seq<char>) -> Seq<char> {
    match cut(piece, '=') {
        Some((_, value)) => value,
        None => seq![],
    }
}

/// Whether a piece of `--env` is the one that counts for its name: no later one has it.
pub open spec fn piece_counts(list: Seq<Seq<char>>, i: int) -> bool {
    &&& 0 <= i < list.len()
    &&& cut(list[i], '=') is Some
    &&& forall|k: int|
        i < k < list.len() && cut(#[trigger] list[k], '=') is Some ==> piece_name(list[k]) != piece_name(list[i])
}

/// A new pane or tab is started with the command behind `--exec`, word by word, and with each
/// variable of `--env` under its name and with its value.
#[verifier::spinoff_prover]
#[verifier::rlimit(100)]
pub proof fn law_command_sent(v: Verb, f: FlagsV, fetched: FetchedV, i: int)
    requires
        v == Verb::Split || v == Verb::NewTab,
    ensures
        request(v, f, fetched) matches Ok(j) ==> {
            &&& f.argv matches Some(words) ==> {
                j.field("command"@) matches Some(JsonV::List(items)) && items.len() == words.len()
                    && forall|n: int|
                    0 <= n < items.len() ==> #[trigger] items[n] == JsonV::Text(words[n])
            }
            &&& f.argv is None ==> j.field("command"@) is None
            &&& f.get("env"@) is None ==> j.field("env"@) is None
            &&& f.get("env"@) matches Some(text) ==> {
                j.field("env"@) matches Some(env) && (piece_counts(pieces(text, ','), i)
                    ==> env.field(piece_name(pieces(text, ',')[i])) == Some(
                    JsonV::Text(piece_value(pieces(text, ',')[i])),
                ))
            }
        },
{
    lemma_tags();
    lemma_built_object(v, f, fetched);
    if let Some(text) = f.get("env"@) {
        lemma_env_read(pieces(text, ','), 0, empty_object(), i);
    }
}

proof fn lemma_env_read(list: Seq<Seq<char>>, n: int, env: JsonV, i: int)
    requires
        0 <= n,
        env is Object && env->Object_0.dom().finite(),
    ensures
        env_from(list, n, env) matches Ok(j) ==> {
            &&& j is Object && j->Object_0.dom().finite()
            &&& n <= i && piece_counts(list, i) ==> j.field(piece_name(list[i])) == Some(
                JsonV::Text(piece_value(list[i])),
            )
            &&& forall|key: Seq<char>|
                (forall|k: int|
                    n <= k < list.len() && cut(#[trigger] list[k], '=') is Some ==> piece_name(list[k]) != key) ==> #[trigger] j.field(key) == env.field(key)
        },
    decreases list.len() - n,
{
    if n < list.len() {
        if let Some((key, value)) = cut(list[n], '=') {
            lemma_env_read(list, n + 1, env.with(key, JsonV::Text(value)), i);
            if env_from(list, n, env) is Ok && n == i && piece_counts(list, i) {
                let j = env_from(list, n, env)->Ok_0;
                assert(j.field(key) == env.with(key, JsonV::Text(value)).field(key));
            }
            if env_from(list, n, env) is Ok {
                let j = env_from(list, n, env)->Ok_0;
                assert forall|other: Seq<char>|
                    (forall|k: int|
                        n <= k < list.len() && cut(#[trigger] list[k], '=') is Some ==> piece_name(list[k]) != other) implies #[trigger] j.field(other) == env.field(other) by {
                    assert(piece_name(list[n]) != other);
                    assert(j.field(other) == env.with(key, JsonV::Text(value)).field(other));
                }
            }
        }
    }
}

/// What a verb takes from elsewhere stands in its request: standard input as the text of `send`
/// where no flag gives one, the pane's own surface and the socket as the source of an agent's
/// report, the ratio that was read, and the branch and the label that a prompt file names.
#[verifier::spinoff_prover]
#[verifier::rlimit(100)]
pub proof fn law_fetched_sent(f: FlagsV, text: Seq<char>, fetched: FetchedV)
    ensures
        f.get("text"@) is None && f.get("bytes"@) is None ==> (request(
            Verb::Send,
            f,
            FetchedV::Text(text),
        ) matches Ok(j) ==> j.field("text"@) == Some(JsonV::Text(text))),
        f.get("text"@) is Some || f.get("bytes"@) is Some ==> request(Verb::Send, f, fetched)
            == request(Verb::Send, f, FetchedV::Nothing),
        f.get("surface"@) is None ==> (request(
            Verb::ReportAgent,
            f,
            FetchedV::Text(text),
        ) matches Ok(j) ==> crate::text::read_unsigned(text, u64::MAX as int) matches Some(n)
            && j.field("surface"@) == Some(unsigned(n as u64))),
        f.get("surface"@) is Some ==> request(Verb::ReportAgent, f, fetched) == request(
            Verb::ReportAgent,
            f,
            FetchedV::Nothing,
        ),
        f.get("source"@) is None ==> (request(Verb::ReportAgent, f, fetched) matches Ok(j)
            ==> j.field("source"@) == Some(JsonV::Text("socket"@))),
        request(Verb::SetRatio, f, FetchedV::Text(text)) matches Ok(j) ==> j.field("ratio"@) == Some(
            double(text),
        ),
        f.get("prompt-file"@) is Some ==> (request(
            Verb::NewTab,
            f,
            FetchedV::Text(text),
        ) matches Ok(j) ==> frontmatter(text) matches Ok((branch, label)) && {
            &&& match branch {
                Some(b) => j.field("branch"@) == Some(JsonV::Text(b)),
                None => j.field("branch"@) is None,
            }
            &&& match label {
                Some(l) => j.field("label"@) == Some(JsonV::Text(l)),
                None => j.field("label"@) is None,
            }
        }),
        f.get("prompt-file"@) is None ==> request(Verb::NewTab, f, fetched) == request(
            Verb::NewTab,
            f,
            FetchedV::Nothing,
        ),
{
    lemma_tags();
    lemma_built_object(Verb::Send, f, FetchedV::Text(text));
    lemma_built_object(Verb::ReportAgent, f, FetchedV::Text(text));
    lemma_built_object(Verb::ReportAgent, f, fetched);
    lemma_built_object(Verb::SetRatio, f, FetchedV::Text(text));
    lemma_built_object(Verb::NewTab, f, FetchedV::Text(text));
}

/// What is asked for before a request is built is what the request then takes: standard input
/// for `send` without a text, the prompt file that a new tab names, the pane's surface for a
/// report without one, and the ratio. No other verb asks for anything.
pub proof fn law_needed(v: Verb, f: FlagsV)
    ensures
        match needed(v, f) {
            NeedV::Nothing => true,
            NeedV::Stdin => v == Verb::Send && f.get("text"@) is None && f.get("bytes"@) is None,
            NeedV::PromptFile(path) => v == Verb::NewTab && f.get("prompt-file"@) == Some(path),
            NeedV::SurfaceVariable => v == Verb::ReportAgent && f.get("surface"@) is None,
            NeedV::Ratio(text) => v == Verb::SetRatio && f.get("ratio"@) == Some(text),
        },
        v == Verb::Send && f.get("text"@) is None && f.get("bytes"@) is None && request(
            v,
            f,
            FetchedV::Nothing,
        ) is Ok ==> needed(v, f) is Stdin,
        v == Verb::NewTab && f.get("prompt-file"@) is Some && request(
            v,
            f,
            FetchedV::Nothing,
        ) is Ok ==> needed(v, f) is PromptFile,
        v == Verb::ReportAgent && f.get("surface"@) is None ==> needed(v, f) is SurfaceVariable,
        v == Verb::SetRatio && f.get("ratio"@) is Some ==> needed(v, f) is Ratio,
{
}

/// Which verbs take a flag, flag by flag; no other flag is taken by any.
#[verifier::rlimit(60)]
#[verifier::spinoff_prover]
pub proof fn law_flags_taken(v: Verb, flag: Seq<char>)
    ensures
        verb_allows(v, "agent"@) <==> v == Verb::ReportAgent,
        verb_allows(v, "agent-session"@) <==> v == Verb::ReportAgent,
        verb_allows(v, "bg"@) <==> v == Verb::SetDefaultColors,
        verb_allows(v, "branch"@) <==> v == Verb::NewTab || v == Verb::Split || v == Verb::PaneWorktreeCreate || v == Verb::PaneWorktreeRemove,
        verb_allows(v, "bytes"@) <==> v == Verb::Send,
        verb_allows(v, "case-insensitive"@) <==> v == Verb::AgentPatternAdd,
        verb_allows(v, "color"@) <==> v == Verb::SetWorkspaceColor || v == Verb::WorkspaceColor,
        verb_allows(v, "colour"@) <==> v == Verb::SetWorkspaceColor,
        verb_allows(v, "cols"@) <==> v == Verb::NewTab || v == Verb::NewBrowserTab || v == Verb::NewWorkspace || v == Verb::NewScreen || v == Verb::Split || v == Verb::ResizeSurface,
        verb_allows(v, "confidence"@) <==> v == Verb::AgentPatternAdd,
        verb_allows(v, "cwd"@) <==> v == Verb::NewTab,
        verb_allows(v, "delta"@) <==> v == Verb::SelectTab || v == Verb::SelectScreen || v == Verb::SelectWorkspace || v == Verb::ScrollSurface,
        verb_allows(v, "dir"@) <==> v == Verb::Split || v == Verb::SetRatio,
        verb_allows(v, "env"@) <==> v == Verb::NewTab || v == Verb::Split,
        verb_allows(v, "exec"@) <==> v == Verb::NewTab || v == Verb::Split,
        verb_allows(v, "fg"@) <==> v == Verb::SetDefaultColors,
        verb_allows(v, "icon"@) <==> v == Verb::SetStatus,
        verb_allows(v, "index"@) <==> v == Verb::SelectTab || v == Verb::SelectScreen || v == Verb::SelectWorkspace || v == Verb::MoveTab || v == Verb::MoveWorkspace,
        verb_allows(v, "input"@) <==> v == Verb::LayoutApply,
        verb_allows(v, "kind"@) <==> v == Verb::AgentPatternAdd,
        verb_allows(v, "label"@) <==> v == Verb::NewTab || v == Verb::Split || v == Verb::PaneWorktreeCreate,
        verb_allows(v, "lines"@) <==> v == Verb::AgentRead,
        verb_allows(v, "message"@) <==> v == Verb::ReportAgent,
        verb_allows(v, "name"@) <==> v == Verb::NewWorkspace || v == Verb::RenamePane || v == Verb::RenameSurface || v == Verb::RenameScreen || v == Verb::RenameWorkspace || v == Verb::WorkspaceColor || v == Verb::AgentPatternAdd || v == Verb::AgentPatternRemove,
        verb_allows(v, "new"@) <==> v == Verb::RenameSession,
        verb_allows(v, "old"@) <==> v == Verb::RenameSession,
        verb_allows(v, "output"@) <==> v == Verb::LayoutExport,
        verb_allows(v, "output-dir"@) <==> v == Verb::LayoutExportAll,
        verb_allows(v, "pane"@) <==> v == Verb::NewTab || v == Verb::NewBrowserTab || v == Verb::Split || v == Verb::SetRatio || v == Verb::ClosePane || v == Verb::FocusPane || v == Verb::PaneWorktreeList || v == Verb::RenamePane || v == Verb::SelectTab || v == Verb::MoveTab || v == Verb::PaneWorktreeCreate || v == Verb::PaneWorktreeRemove,
        verb_allows(v, "pattern"@) <==> v == Verb::AgentPatternAdd,
        verb_allows(v, "prompt-file"@) <==> v == Verb::NewTab,
        verb_allows(v, "ratio"@) <==> v == Verb::SetRatio,
        verb_allows(v, "rows"@) <==> v == Verb::NewTab || v == Verb::NewBrowserTab || v == Verb::NewWorkspace || v == Verb::NewScreen || v == Verb::Split || v == Verb::ResizeSurface,
        verb_allows(v, "screen"@) <==> v == Verb::CloseScreen || v == Verb::RenameScreen,
        verb_allows(v, "send-cr"@) <==> v == Verb::Send,
        verb_allows(v, "session"@) <==> v == Verb::KillSession,
        verb_allows(v, "shell"@) <==> v == Verb::Send,
        verb_allows(v, "source"@) <==> v == Verb::ReportAgent || v == Verb::AgentRead,
        verb_allows(v, "state"@) <==> v == Verb::ReportAgent || v == Verb::ListAgents,
        verb_allows(v, "surface"@) <==> v == Verb::Send || v == Verb::ReadScreen || v == Verb::VtState || v == Verb::CloseSurface || v == Verb::AttachSurface || v == Verb::DetectAgent || v == Verb::BrowserReload || v == Verb::RenameSurface || v == Verb::TriggerFlash || v == Verb::ResizeSurface || v == Verb::MoveTab || v == Verb::ScrollSurface || v == Verb::ReportAgent || v == Verb::ListAgents,
        verb_allows(v, "target"@) <==> v == Verb::AgentRead,
        verb_allows(v, "text"@) <==> v == Verb::Send,
        verb_allows(v, "url"@) <==> v == Verb::NewBrowserTab,
        verb_allows(v, "workspace"@) <==> v == Verb::NewScreen || v == Verb::CloseWorkspace || v == Verb::RenameWorkspace || v == Verb::SetWorkspaceColor || v == Verb::SetStatus || v == Verb::TriggerFlash || v == Verb::MoveWorkspace || v == Verb::LayoutExport || v == Verb::LayoutApply,
        flag != "agent"@ && flag != "agent-session"@ && flag != "bg"@ && flag != "branch"@ && flag != "bytes"@ && flag != "case-insensitive"@ && flag != "color"@ && flag != "colour"@ && flag != "cols"@ && flag != "confidence"@ && flag != "cwd"@ && flag != "delta"@ && flag != "dir"@ && flag != "env"@ && flag != "exec"@ && flag != "fg"@ && flag != "icon"@ && flag != "index"@ && flag != "input"@ && flag != "kind"@ && flag != "label"@ && flag != "lines"@ && flag != "message"@ && flag != "name"@ && flag != "new"@ && flag != "old"@ && flag != "output"@ && flag != "output-dir"@ && flag != "pane"@ && flag != "pattern"@ && flag != "prompt-file"@ && flag != "ratio"@ && flag != "rows"@ && flag != "screen"@ && flag != "send-cr"@ && flag != "session"@ && flag != "shell"@ && flag != "source"@ && flag != "state"@ && flag != "surface"@ && flag != "target"@ && flag != "text"@ && flag != "url"@ && flag != "workspace"@ ==> !verb_allows(v, flag),
{
    lemma_tags();
}

} // verus!
