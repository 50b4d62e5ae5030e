//! What the verbs print of the data in an answer.

use vstd::prelude::*;

use crate::json::{json_text, list_view, pretty_text, render, render_pretty, Json, JsonV};
use crate::text::{
    append_decimal, decimal, le, owned, parse_unsigned, read_unsigned, text_le, texts,
};
use crate::verbs::Verb;

verus! {

// ---- fields -------------------------------------------------------------------------------

/// The number of a field, zero where there is none.
pub open spec fn id_of(value: JsonV, key: Seq<char>) -> u64 {
    match value.field_unsigned(key) {
        Some(n) => n,
        None => 0,
    }
}

/// What a field says, no where it says nothing.
pub open spec fn flag_of(value: JsonV, key: Seq<char>) -> bool {
    match value.field_flag(key) {
        Some(b) => b,
        None => false,
    }
}

/// The text of a field, or another one.
pub open spec fn text_or(value: JsonV, key: Seq<char>, other: Seq<char>) -> Seq<char> {
    match value.field_chars(key) {
        Some(s) => s,
        None => other,
    }
}

/// A field as JSON; null where there is none.
pub open spec fn atom_of(value: JsonV, key: Seq<char>) -> Seq<char> {
    match value.field(key) {
        Some(JsonV::Null) => "null"@,
        Some(v) => json_text(v),
        None => "null"@,
    }
}

pub open spec fn bool_text(b: bool) -> Seq<char> {
    if b {
        "true"@
    } else {
        "false"@
    }
}

pub fn id_field(value: &Json, key: &str) -> (r: u64)
    ensures
        r == id_of(value@, key@),
{
    match value.field_unsigned(key) {
        Some(n) => n,
        None => 0,
    }
}

pub fn bool_field(value: &Json, key: &str) -> (r: bool)
    ensures
        r == flag_of(value@, key@),
{
    match value.field_flag(key) {
        Some(b) => b,
        None => false,
    }
}

pub fn atom(value: Option<&Json>) -> (r: String)
    ensures
        r@ == match value {
            Some(v) => match v@ {
                JsonV::Null => "null"@,
                other => json_text(other),
            },
            None => "null"@,
        },
{
    match value {
        Some(v) => match v {
            Json::Null => "null".to_string(),
            _ => render(v),
        },
        None => "null".to_string(),
    }
}

fn text_field<'a>(value: &'a Json, key: &str, other: &'a str) -> (r: &'a str)
    ensures
        r@ == text_or(value@, key@, other@),
{
    match value.field_chars(key) {
        Some(s) => s,
        None => other,
    }
}

fn bool_name(b: bool) -> (r: &'static str)
    ensures
        r@ == bool_text(b),
{
    if b {
        "true"
    } else {
        "false"
    }
}

// ---- one line for each item ---------------------------------------------------------------

/// An agent: its surface, state, source and session, and behind them its name and its last
/// message where it has one of the two.
pub open spec fn agent_line(agent: JsonV) -> Seq<char> {
    let front = decimal(id_of(agent, "surface"@) as nat) + " "@ + text_or(
        agent,
        "state"@,
        "unknown"@,
    ) + " "@ + text_or(agent, "source"@, "?"@) + " "@ + text_or(agent, "session"@, "-"@);
    if agent.field_chars("agent"@) is Some || agent.field_chars("message"@) is Some {
        front + " "@ + text_or(agent, "agent"@, "-"@) + " "@ + text_or(agent, "message"@, "-"@)
            + "\n"@
    } else {
        front + "\n"@
    }
}

/// The lines of all agents.
pub open spec fn agent_lines(items: Seq<JsonV>) -> Seq<char>
    decreases items.len(),
{
    if items.len() == 0 {
        seq![]
    } else {
        agent_lines(items.drop_last()) + agent_line(items.last())
    }
}

fn agent_row(agent: &Json) -> (line: String)
    ensures
        line@ == agent_line(agent@),
{
    let mut line: String = crate::text::decimal_of(id_field(agent, "surface"));
    line.append(" ");
    line.append(text_field(agent, "state", "unknown"));
    line.append(" ");
    line.append(text_field(agent, "source", "?"));
    line.append(" ");
    line.append(text_field(agent, "session", "-"));
    if agent.field_chars("agent").is_some() || agent.field_chars("message").is_some() {
        line.append(" ");
        line.append(text_field(agent, "agent", "-"));
        line.append(" ");
        line.append(text_field(agent, "message", "-"));
    }
    line.append("\n");
    line
}

pub fn print_agents(data: &Json) -> (out: String)
    ensures
        out@ == match data@.field_items("agents"@) {
            Some(items) => agent_lines(items),
            None => seq![],
        },
{
    let mut out: String = String::new();
    if let Some(items) = data.field_items("agents") {
        let mut i: usize = 0;
        while i < items.len()
            invariant
                i <= items.len(),
                out@ == agent_lines(list_view(items@).take(i as int)),
            decreases items.len() - i,
        {
            let line: String = agent_row(&items[i]);
            out.append(line.as_str());
            i = i + 1;
            assert(list_view(items@).take(i as int).drop_last() =~= list_view(items@).take(i - 1));
        }
        assert(list_view(items@).take(items@.len() as int) =~= list_view(items@));
    }
    out
}

/// A pattern: its name, kind, confidence and text.
pub open spec fn pattern_line(p: JsonV) -> Seq<char> {
    text_or(p, "name"@, "?"@) + " "@ + text_or(p, "kind"@, "?"@) + " "@ + text_or(
        p,
        "confidence"@,
        "?"@,
    ) + " "@ + text_or(p, "pattern"@, ""@) + "\n"@
}

pub open spec fn pattern_lines(items: Seq<JsonV>) -> Seq<char>
    decreases items.len(),
{
    if items.len() == 0 {
        seq![]
    } else {
        pattern_lines(items.drop_last()) + pattern_line(items.last())
    }
}

fn pattern_row(p: &Json) -> (line: String)
    ensures
        line@ == pattern_line(p@),
{
    let mut line: String = owned(text_field(p, "name", "?"));
    line.append(" ");
    line.append(text_field(p, "kind", "?"));
    line.append(" ");
    line.append(text_field(p, "confidence", "?"));
    line.append(" ");
    line.append(text_field(p, "pattern", ""));
    line.append("\n");
    line
}

pub fn print_agent_patterns(data: &Json) -> (out: String)
    ensures
        out@ == match data@.field_items("patterns"@) {
            Some(items) => pattern_lines(items),
            None => seq![],
        },
{
    let mut out: String = String::new();
    if let Some(items) = data.field_items("patterns") {
        let mut i: usize = 0;
        while i < items.len()
            invariant
                i <= items.len(),
                out@ == pattern_lines(list_view(items@).take(i as int)),
            decreases items.len() - i,
        {
            let line: String = pattern_row(&items[i]);
            out.append(line.as_str());
            i = i + 1;
            assert(list_view(items@).take(i as int).drop_last() =~= list_view(items@).take(i - 1));
        }
        assert(list_view(items@).take(items@.len() as int) =~= list_view(items@));
    }
    out
}

/// A worktree: its branch, path and label.
pub open spec fn worktree_line(w: JsonV) -> Seq<char> {
    text_or(w, "branch"@, "unknown"@) + " "@ + text_or(w, "path"@, "-"@) + " "@ + text_or(
        w,
        "label"@,
        "-"@,
    ) + "\n"@
}

pub open spec fn worktree_lines(items: Seq<JsonV>) -> Seq<char>
    decreases items.len(),
{
    if items.len() == 0 {
        seq![]
    } else {
        worktree_lines(items.drop_last()) + worktree_line(items.last())
    }
}

fn worktree_row(w: &Json) -> (line: String)
    ensures
        line@ == worktree_line(w@),
{
    let mut line: String = owned(text_field(w, "branch", "unknown"));
    line.append(" ");
    line.append(text_field(w, "path", "-"));
    line.append(" ");
    line.append(text_field(w, "label", "-"));
    line.append("\n");
    line
}

pub fn print_worktrees(data: &Json) -> (out: String)
    ensures
        out@ == match data@.field_items("worktrees"@) {
            Some(items) => worktree_lines(items),
            None => seq![],
        },
{
    let mut out: String = String::new();
    if let Some(items) = data.field_items("worktrees") {
        let mut i: usize = 0;
        while i < items.len()
            invariant
                i <= items.len(),
                out@ == worktree_lines(list_view(items@).take(i as int)),
            decreases items.len() - i,
        {
            let line: String = worktree_row(&items[i]);
            out.append(line.as_str());
            i = i + 1;
            assert(list_view(items@).take(i as int).drop_last() =~= list_view(items@).take(i - 1));
        }
        assert(list_view(items@).take(items@.len() as int) =~= list_view(items@));
    }
    out
}

// ---- one line -----------------------------------------------------------------------------

pub open spec fn identify_line(data: JsonV) -> Seq<char> {
    "cmux session="@ + text_or(data, "session"@, ""@) + " protocol="@ + decimal(
        id_of(data, "protocol"@) as nat,
    ) + " pid="@ + decimal(id_of(data, "pid"@) as nat) + "\n"@
}

pub fn print_identify(data: &Json) -> (line: String)
    ensures
        line@ == identify_line(data@),
{
    let mut line: String = "cmux session=".to_string();
    line.append(text_field(data, "session", ""));
    line.append(" protocol=");
    append_decimal(&mut line, id_field(data, "protocol"));
    line.append(" pid=");
    append_decimal(&mut line, id_field(data, "pid"));
    line.append("\n");
    line
}

pub fn print_read_screen(data: &Json) -> (out: String)
    ensures
        out@ == text_or(data@, "text"@, ""@),
{
    owned(text_field(data, "text", ""))
}

pub open spec fn vt_state_line(data: JsonV) -> Seq<char> {
    "cols="@ + decimal(id_of(data, "cols"@) as nat) + " rows="@ + decimal(
        id_of(data, "rows"@) as nat,
    ) + " data="@ + text_or(data, "data"@, ""@) + "\n"@
}

pub fn print_vt_state(data: &Json) -> (line: String)
    ensures
        line@ == vt_state_line(data@),
{
    let mut line: String = "cols=".to_string();
    append_decimal(&mut line, id_field(data, "cols"));
    line.append(" rows=");
    append_decimal(&mut line, id_field(data, "rows"));
    line.append(" data=");
    line.append(text_field(data, "data", ""));
    line.append("\n");
    line
}

pub fn print_surface(data: &Json) -> (line: String)
    ensures
        line@ == decimal(id_of(data@, "surface"@) as nat) + "\n"@,
{
    let mut line: String = crate::text::decimal_of(id_field(data, "surface"));
    line.append("\n");
    line
}

pub fn print_worktree_created(data: &Json) -> (line: String)
    ensures
        line@ == text_or(data@, "path"@, ""@) + "\n"@,
{
    let mut line: String = owned(text_field(data, "path", ""));
    line.append("\n");
    line
}

pub fn print_get_resolved_config(data: &Json) -> (out: String)
    ensures
        out@ == pretty_text(data@) + "\n"@,
{
    let mut out: String = render_pretty(data);
    out.append("\n");
    out
}

pub open spec fn detected_line(data: JsonV) -> Seq<char> {
    decimal(id_of(data, "surface"@) as nat) + " "@ + text_or(data, "agent"@, "unknown"@) + " "@
        + text_or(data, "confidence"@, "none"@) + " "@ + text_or(data, "evidence"@, ""@) + "\n"@
}

pub fn print_detect_agent(data: &Json) -> (line: String)
    ensures
        line@ == detected_line(data@),
{
    let mut line: String = crate::text::decimal_of(id_field(data, "surface"));
    line.append(" ");
    line.append(text_field(data, "agent", "unknown"));
    line.append(" ");
    line.append(text_field(data, "confidence", "none"));
    line.append(" ");
    line.append(text_field(data, "evidence", ""));
    line.append("\n");
    line
}

pub fn print_empty(data: &Json) -> (out: String)
    ensures
        out@ == Seq::<char>::empty(),
{
    String::new()
}

// ---- the tree -----------------------------------------------------------------------------

/// The columns or rows of a tab's size.
pub open spec fn size_part(tab: JsonV, key: Seq<char>) -> u64 {
    match tab.field("size"@) {
        Some(size) => id_of(size, key),
        None => 0,
    }
}

pub open spec fn tab_line(tab: JsonV, pane: u64) -> Seq<char> {
    "tab surface="@ + decimal(id_of(tab, "surface"@) as nat) + " pane="@ + decimal(pane as nat)
        + " kind="@ + text_or(tab, "kind"@, ""@) + " browser_source="@ + atom_of(
        tab,
        "browser_source"@,
    ) + " name="@ + atom_of(tab, "name"@) + " title="@ + atom_of(tab, "title"@) + " dead="@
        + bool_text(flag_of(tab, "dead"@)) + " cols="@ + decimal(size_part(tab, "cols"@) as nat)
        + " rows="@ + decimal(size_part(tab, "rows"@) as nat) + "\n"@
}

pub open spec fn tab_lines(tabs: Seq<JsonV>, pane: u64) -> Seq<char>
    decreases tabs.len(),
{
    if tabs.len() == 0 {
        seq![]
    } else {
        tab_lines(tabs.drop_last(), pane) + tab_line(tabs.last(), pane)
    }
}

/// A pane with its tabs; a dead one is one line.
pub open spec fn pane_text(pane: JsonV, screen: u64) -> Seq<char> {
    let id = id_of(pane, "id"@);
    if flag_of(pane, "dead"@) {
        "pane id="@ + decimal(id as nat) + " screen="@ + decimal(screen as nat) + " dead=true\n"@
    } else {
        "pane id="@ + decimal(id as nat) + " screen="@ + decimal(screen as nat) + " name="@
            + atom_of(pane, "name"@) + " active_tab="@ + decimal(
            id_of(pane, "active_tab"@) as nat,
        ) + "\n"@ + match pane.field_items("tabs"@) {
            Some(tabs) => tab_lines(tabs, id),
            None => seq![],
        }
    }
}

pub open spec fn pane_texts(panes: Seq<JsonV>, screen: u64) -> Seq<char>
    decreases panes.len(),
{
    if panes.len() == 0 {
        seq![]
    } else {
        pane_texts(panes.drop_last(), screen) + pane_text(panes.last(), screen)
    }
}

pub open spec fn screen_text(screen: JsonV, workspace: u64) -> Seq<char> {
    let id = id_of(screen, "id"@);
    "screen id="@ + decimal(id as nat) + " workspace="@ + decimal(workspace as nat) + " name="@
        + atom_of(screen, "name"@) + " active="@ + bool_text(flag_of(screen, "active"@))
        + " active_pane="@ + decimal(id_of(screen, "active_pane"@) as nat) + "\n"@
        + match screen.field_items("panes"@) {
        Some(panes) => pane_texts(panes, id),
        None => seq![],
    }
}

pub open spec fn screen_texts(screens: Seq<JsonV>, workspace: u64) -> Seq<char>
    decreases screens.len(),
{
    if screens.len() == 0 {
        seq![]
    } else {
        screen_texts(screens.drop_last(), workspace) + screen_text(screens.last(), workspace)
    }
}

pub open spec fn workspace_text(workspace: JsonV) -> Seq<char> {
    let id = id_of(workspace, "id"@);
    "workspace id="@ + decimal(id as nat) + " name="@ + atom_of(workspace, "name"@) + " color="@
        + atom_of(workspace, "color"@) + " active="@ + bool_text(flag_of(workspace, "active"@))
        + "\n"@ + match workspace.field_items("screens"@) {
        Some(screens) => screen_texts(screens, id),
        None => seq![],
    }
}

/// The tree of a session, one line for each workspace, screen, pane and tab.
pub open spec fn tree_text(workspaces: Seq<JsonV>) -> Seq<char>
    decreases workspaces.len(),
{
    if workspaces.len() == 0 {
        seq![]
    } else {
        tree_text(workspaces.drop_last()) + workspace_text(workspaces.last())
    }
}

/// Putting nothing behind a text leaves it as it is.
proof fn lemma_add_nothing(s: Seq<char>)
    ensures
        s + Seq::<char>::empty() == s,
{
    assert(s + Seq::<char>::empty() =~= s);
}

fn append_atom(out: &mut String, value: &Json, key: &str)
    ensures
        final(out)@ == old(out)@ + atom_of(value@, key@),
{
    let shown: String = atom(value.get(key));
    out.append(shown.as_str());
}

fn tab_row(tab: &Json, pane: u64) -> (line: String)
    ensures
        line@ == tab_line(tab@, pane),
{
    let (cols, rows): (u64, u64) = match tab.get("size") {
        Some(size) => (id_field(size, "cols"), id_field(size, "rows")),
        None => (0, 0),
    };
    let mut line: String = "tab surface=".to_string();
    append_decimal(&mut line, id_field(tab, "surface"));
    line.append(" pane=");
    append_decimal(&mut line, pane);
    line.append(" kind=");
    line.append(text_field(tab, "kind", ""));
    line.append(" browser_source=");
    append_atom(&mut line, tab, "browser_source");
    line.append(" name=");
    append_atom(&mut line, tab, "name");
    line.append(" title=");
    append_atom(&mut line, tab, "title");
    line.append(" dead=");
    line.append(bool_name(bool_field(tab, "dead")));
    line.append(" cols=");
    append_decimal(&mut line, cols);
    line.append(" rows=");
    append_decimal(&mut line, rows);
    line.append("\n");
    line
}

fn tab_rows(tabs: &Vec<Json>, pane: u64) -> (out: String)
    ensures
        out@ == tab_lines(list_view(tabs@), pane),
{
    let mut out: String = String::new();
    let mut i: usize = 0;
    while i < tabs.len()
        invariant
            i <= tabs.len(),
            out@ == tab_lines(list_view(tabs@).take(i as int), pane),
        decreases tabs.len() - i,
    {
        let line: String = tab_row(&tabs[i], pane);
        out.append(line.as_str());
        i = i + 1;
        assert(list_view(tabs@).take(i as int).drop_last() =~= list_view(tabs@).take(i - 1));
    }
    assert(list_view(tabs@).take(tabs@.len() as int) =~= list_view(tabs@));
    out
}

fn pane_rows(pane: &Json, screen: u64) -> (out: String)
    ensures
        out@ == pane_text(pane@, screen),
{
    let id: u64 = id_field(pane, "id");
    let mut out: String = "pane id=".to_string();
    append_decimal(&mut out, id);
    out.append(" screen=");
    append_decimal(&mut out, screen);
    if bool_field(pane, "dead") {
        out.append(" dead=true\n");
        return out;
    }
    out.append(" name=");
    append_atom(&mut out, pane, "name");
    out.append(" active_tab=");
    append_decimal(&mut out, id_field(pane, "active_tab"));
    out.append("\n");
    match pane.field_items("tabs") {
        Some(tabs) => {
            let rows: String = tab_rows(tabs, id);
            out.append(rows.as_str());
        },
        None => {
            proof {
                lemma_add_nothing(out@);
            }
        },
    }
    out
}

fn screen_rows(screen: &Json, workspace: u64) -> (out: String)
    ensures
        out@ == screen_text(screen@, workspace),
{
    let id: u64 = id_field(screen, "id");
    let mut out: String = "screen id=".to_string();
    append_decimal(&mut out, id);
    out.append(" workspace=");
    append_decimal(&mut out, workspace);
    out.append(" name=");
    append_atom(&mut out, screen, "name");
    out.append(" active=");
    out.append(bool_name(bool_field(screen, "active")));
    out.append(" active_pane=");
    append_decimal(&mut out, id_field(screen, "active_pane"));
    out.append("\n");
    match screen.field_items("panes") {
        Some(panes) => {
            let mut rows: String = String::new();
            let mut i: usize = 0;
            while i < panes.len()
                invariant
                    i <= panes.len(),
                    rows@ == pane_texts(list_view(panes@).take(i as int), id),
                decreases panes.len() - i,
            {
                let one: String = pane_rows(&panes[i], id);
                rows.append(one.as_str());
                i = i + 1;
                assert(list_view(panes@).take(i as int).drop_last() =~= list_view(panes@).take(
                    i - 1,
                ));
            }
            assert(list_view(panes@).take(panes@.len() as int) =~= list_view(panes@));
            out.append(rows.as_str());
        },
        None => {
            proof {
                lemma_add_nothing(out@);
            }
        },
    }
    out
}

fn workspace_rows(workspace: &Json) -> (out: String)
    ensures
        out@ == workspace_text(workspace@),
{
    let id: u64 = id_field(workspace, "id");
    let mut out: String = "workspace id=".to_string();
    append_decimal(&mut out, id);
    out.append(" name=");
    append_atom(&mut out, workspace, "name");
    out.append(" color=");
    append_atom(&mut out, workspace, "color");
    out.append(" active=");
    out.append(bool_name(bool_field(workspace, "active")));
    out.append("\n");
    match workspace.field_items("screens") {
        Some(screens) => {
            let mut rows: String = String::new();
            let mut i: usize = 0;
            while i < screens.len()
                invariant
                    i <= screens.len(),
                    rows@ == screen_texts(list_view(screens@).take(i as int), id),
                decreases screens.len() - i,
            {
                let one: String = screen_rows(&screens[i], id);
                rows.append(one.as_str());
                i = i + 1;
                assert(list_view(screens@).take(i as int).drop_last() =~= list_view(screens@).take(
                    i - 1,
                ));
            }
            assert(list_view(screens@).take(screens@.len() as int) =~= list_view(screens@));
            out.append(rows.as_str());
        },
        None => {
            proof {
                lemma_add_nothing(out@);
            }
        },
    }
    out
}

pub fn print_tree(data: &Json) -> (out: String)
    ensures
        out@ == match data@.field_items("workspaces"@) {
            Some(items) => tree_text(items),
            None => seq![],
        },
{
    let mut out: String = String::new();
    if let Some(items) = data.field_items("workspaces") {
        let mut i: usize = 0;
        while i < items.len()
            invariant
                i <= items.len(),
                out@ == tree_text(list_view(items@).take(i as int)),
            decreases items.len() - i,
        {
            let one: String = workspace_rows(&items[i]);
            out.append(one.as_str());
            i = i + 1;
            assert(list_view(items@).take(i as int).drop_last() =~= list_view(items@).take(i - 1));
        }
        assert(list_view(items@).take(items@.len() as int) =~= list_view(items@));
    }
    out
}

// ---- detected agents ----------------------------------------------------------------------

/// The surface and the agent that a field of the detected agents names.
pub open spec fn detected_row(agents: JsonV, key: Seq<char>) -> Option<(u64, Seq<char>)> {
    match (read_unsigned(key, u64::MAX as int), agents.field_chars(key)) {
        (Some(id), Some(agent)) => Some((id as u64, agent)),
        _ => None,
    }
}

/// The order of the rows: by surface, then by agent.
pub open spec fn row_le(a: (u64, Seq<char>), b: (u64, Seq<char>)) -> bool {
    a.0 < b.0 || (a.0 == b.0 && text_le(a.1, b.1))
}

/// Whether these rows are those of the detected agents, in order: `keys` names the field of
/// each row, and every field that gives a row stands there once.
pub open spec fn listing(agents: JsonV, keys: Seq<Seq<char>>, rows: Seq<(u64, Seq<char>)>) -> bool {
    &&& keys.len() == rows.len()
    &&& keys.no_duplicates()
    &&& forall|k: Seq<char>| #[trigger] keys.contains(k) <==> detected_row(agents, k) is Some
    &&& forall|i: int|
        0 <= i < rows.len() ==> detected_row(agents, keys[i]) == Some(#[trigger] rows[i])
    &&& forall|i: int, j: int|
        0 <= i < j < rows.len() ==> row_le(#[trigger] rows[i], #[trigger] rows[j])
}

pub open spec fn detected_lines(rows: Seq<(u64, Seq<char>)>) -> Seq<char>
    decreases rows.len(),
{
    if rows.len() == 0 {
        seq![]
    } else {
        detected_lines(rows.drop_last()) + (decimal(rows.last().0 as nat) + " "@ + rows.last().1
            + "\n"@)
    }
}

/// What a list of rows holds.
pub open spec fn rows_view(rows: Seq<(u64, String)>) -> Seq<(u64, Seq<char>)> {
    rows.map_values(|r: (u64, String)| (r.0, r.1@))
}

/// Puts a row where the order wants it, and says where that was.
fn insert_row(rows: &mut Vec<(u64, String)>, id: u64, agent: &str) -> (at: usize)
    requires
        forall|i: int, j: int|
            0 <= i < j < old(rows).len() ==> row_le(
                #[trigger] rows_view(old(rows)@)[i],
                #[trigger] rows_view(old(rows)@)[j],
            ),
        old(rows).len() < usize::MAX,
    ensures
        at <= old(rows).len(),
        rows_view(final(rows)@) == rows_view(old(rows)@).insert(at as int, (id, agent@)),
        forall|i: int, j: int|
            0 <= i < j < final(rows).len() ==> row_le(
                #[trigger] rows_view(final(rows)@)[i],
                #[trigger] rows_view(final(rows)@)[j],
            ),
{
    let ghost before = rows_view(rows@);
    let ghost new = (id, agent@);
    let mut at: usize = 0;
    while at < rows.len() && (rows[at].0 < id || (rows[at].0 == id && le(
        rows[at].1.as_str(),
        agent,
    )))
        invariant
            at <= rows.len(),
            before == rows_view(rows@),
            new == (id, agent@),
            forall|k: int| 0 <= k < at ==> row_le(#[trigger] before[k], new),
        decreases rows.len() - at,
    {
        assert(before[at as int] == (rows@[at as int].0, rows@[at as int].1@));
        at = at + 1;
    }
    proof {
        if at < rows.len() {
            assert(before[at as int] == (rows@[at as int].0, rows@[at as int].1@));
            crate::text::lemma_le_total(agent@, before[at as int].1);
            assert(row_le(new, before[at as int]));
            assert forall|k: int| at <= k < before.len() implies row_le(
                new,
                #[trigger] before[k],
            ) by {
                if k > at {
                    lemma_row_trans(new, before[at as int], before[k]);
                }
            }
        }
    }
    let row: (u64, String) = (id, owned(agent));
    rows.insert(at, row);
    proof {
        let after = rows_view(rows@);
        assert(after =~= before.insert(at as int, new));
        assert forall|i: int, j: int| 0 <= i < j < after.len() implies row_le(
            #[trigger] after[i],
            #[trigger] after[j],
        ) by {
            if i < at && j > at {
                assert(after[i] == before[i] && after[j] == before[j - 1]);
            } else if j < at {
                assert(after[i] == before[i] && after[j] == before[j]);
            } else if i > at {
                assert(after[i] == before[i - 1] && after[j] == before[j - 1]);
            } else if i == at {
                assert(after[j] == before[j - 1]);
            } else {
                assert(after[i] == before[i]);
            }
        }
    }
    at
}

proof fn lemma_row_trans(a: (u64, Seq<char>), b: (u64, Seq<char>), c: (u64, Seq<char>))
    requires
        row_le(a, b),
        row_le(b, c),
    ensures
        row_le(a, c),
{
    if a.0 == c.0 {
        crate::text::lemma_le_trans(a.1, b.1, c.1);
    }
}

pub fn print_detect_agents(data: &Json) -> (out: String)
    ensures
        match data@.field("agents"@) {
            Some(agents) => exists|keys: Seq<Seq<char>>, rows: Seq<(u64, Seq<char>)>|
                #[trigger] listing(agents, keys, rows) && out@ == detected_lines(rows),
            None => out@.len() == 0,
        },
{
    let agents: &Json = match data.get("agents") {
        Some(agents) => agents,
        None => {
            return String::new();
        },
    };
    let names: Vec<String> = agents.names();
    let mut rows: Vec<(u64, String)> = Vec::new();
    let ghost mut keys: Seq<Seq<char>> = seq![];
    let mut i: usize = 0;
    while i < names.len()
        invariant
            i <= names.len(),
            rows.len() <= i,
            texts(names@).no_duplicates(),
            keys.len() == rows.len(),
            keys.no_duplicates(),
            forall|k: Seq<char>| #[trigger]
                keys.contains(k) <==> texts(names@).take(i as int).contains(k) && detected_row(
                    agents@,
                    k,
                ) is Some,
            forall|k: int|
                0 <= k < rows.len() ==> detected_row(agents@, keys[k]) == Some(
                    #[trigger] rows_view(rows@)[k],
                ),
            forall|a: int, b: int|
                0 <= a < b < rows.len() ==> row_le(
                    #[trigger] rows_view(rows@)[a],
                    #[trigger] rows_view(rows@)[b],
                ),
        decreases names.len() - i,
    {
        let name: &str = names[i].as_str();
        let ghost all = texts(names@);
        let ghost old_keys = keys;
        let ghost old_rows = rows_view(rows@);
        proof {
            assert(all[i as int] == name@);
            assert forall|k: Seq<char>| #[trigger]
                all.take(i + 1).contains(k) <==> all.take(i as int).contains(k) || k == name@ by {
                if all.take(i as int).contains(k) {
                    let j = choose|j: int| 0 <= j < i && all.take(i as int)[j] == k;
                    assert(all.take(i + 1)[j] == k);
                }
                if k == name@ {
                    assert(all.take(i + 1)[i as int] == k);
                }
                if all.take(i + 1).contains(k) && k != name@ {
                    let now = all.take(i + 1);
                    let j = choose|j: int| 0 <= j < now.len() && now[j] == k;
                    assert(all.take(i as int)[j] == k);
                }
            }
            if all.take(i as int).contains(name@) {
                let j = choose|j: int| 0 <= j < i && all.take(i as int)[j] == name@;
                assert(all[j] == all[i as int]);
            }
        }
        match (parse_unsigned(name, u64::MAX), agents.field_chars(name)) {
            (Some(id), Some(agent)) => {
                let at: usize = insert_row(&mut rows, id, agent);
                proof {
                    keys = old_keys.insert(at as int, name@);
                    assert(!old_keys.contains(name@));
                    assert forall|k: Seq<char>| #[trigger]
                        keys.contains(k) <==> old_keys.contains(k) || k == name@ by {
                        if old_keys.contains(k) {
                            let j = choose|j: int| 0 <= j < old_keys.len() && old_keys[j] == k;
                            if j < at {
                                assert(keys[j] == k);
                            } else {
                                assert(keys[j + 1] == k);
                            }
                        }
                        if k == name@ {
                            assert(keys[at as int] == k);
                        }
                        if keys.contains(k) && k != name@ {
                            let j = choose|j: int| 0 <= j < keys.len() && keys[j] == k;
                            if j < at {
                                assert(old_keys[j] == k);
                            } else {
                                assert(old_keys[j - 1] == k);
                            }
                        }
                    }
                    assert forall|a: int, b: int|
                        0 <= a < keys.len() && 0 <= b < keys.len() && a != b implies keys[a]
                        != keys[b] by {
                        let a1 = if a < at { a } else { a - 1 };
                        let b1 = if b < at { b } else { b - 1 };
                        if a == at {
                            assert(old_keys[b1] == keys[b]);
                            assert(old_keys.contains(keys[b]));
                        } else if b == at {
                            assert(old_keys[a1] == keys[a]);
                            assert(old_keys.contains(keys[a]));
                        } else {
                            assert(old_keys[a1] == keys[a] && old_keys[b1] == keys[b]);
                        }
                    }
                    let after = rows_view(rows@);
                    assert(after.len() == rows@.len() && after.len() == old_rows.len() + 1);
                    assert forall|k: int| 0 <= k < rows.len() implies detected_row(
                        agents@,
                        keys[k],
                    ) == Some(#[trigger] rows_view(rows@)[k]) by {
                        if k < at {
                            assert(after[k] == old_rows[k] && keys[k] == old_keys[k]);
                        } else if k > at {
                            assert(after[k] == old_rows[k - 1] && keys[k] == old_keys[k - 1]);
                        }
                    }
                }
            },
            _ => {},
        }
        i = i + 1;
    }
    proof {
        assert(texts(names@).take(names@.len() as int) =~= texts(names@));
        assert forall|k: Seq<char>| #[trigger] keys.contains(k) <==> detected_row(
            agents@,
            k,
        ) is Some by {
            assert(texts(names@).contains(k) <==> agents@.field(k) is Some);
        }
        assert(listing(agents@, keys, rows_view(rows@)));
    }
    let mut out: String = String::new();
    i = 0;
    while i < rows.len()
        invariant
            i <= rows.len(),
            out@ == detected_lines(rows_view(rows@).take(i as int)),
        decreases rows.len() - i,
    {
        let mut line: String = crate::text::decimal_of(rows[i].0);
        line.append(" ");
        line.append(rows[i].1.as_str());
        line.append("\n");
        out.append(line.as_str());
        i = i + 1;
        assert(rows_view(rows@).take(i as int).drop_last() =~= rows_view(rows@).take(i - 1));
    }
    assert(rows_view(rows@).take(rows@.len() as int) =~= rows_view(rows@));
    out
}

// ---- every verb ---------------------------------------------------------------------------

/// Whether `out` is what a verb prints of the data in its answer.
pub open spec fn shows(v: Verb, data: JsonV, out: Seq<char>) -> bool {
    match v {
        Verb::Identify => out == identify_line(data),
        Verb::ListWorkspaces => out == match data.field_items("workspaces"@) {
            Some(items) => tree_text(items),
            None => seq![],
        },
        Verb::GetResolvedConfig => out == pretty_text(data) + "\n"@,
        Verb::ReadScreen | Verb::AgentRead => out == text_or(data, "text"@, ""@),
        Verb::VtState => out == vt_state_line(data),
        Verb::NewTab | Verb::NewBrowserTab | Verb::NewWorkspace | Verb::NewScreen
        | Verb::Split => out == decimal(id_of(data, "surface"@) as nat) + "\n"@,
        Verb::ListAgents => out == match data.field_items("agents"@) {
            Some(items) => agent_lines(items),
            None => seq![],
        },
        Verb::PaneWorktreeCreate => out == text_or(data, "path"@, ""@) + "\n"@,
        Verb::PaneWorktreeList => out == match data.field_items("worktrees"@) {
            Some(items) => worktree_lines(items),
            None => seq![],
        },
        Verb::DetectAgent => out == detected_line(data),
        Verb::DetectAgents => match data.field("agents"@) {
            Some(agents) => exists|keys: Seq<Seq<char>>, rows: Seq<(u64, Seq<char>)>|
                #[trigger] listing(agents, keys, rows) && out == detected_lines(rows),
            None => out.len() == 0,
        },
        Verb::AgentPatternList => out == match data.field_items("patterns"@) {
            Some(items) => pattern_lines(items),
            None => seq![],
        },
        _ => out.len() == 0,
    }
}

/// What a verb prints of the data in its answer.
pub fn print(verb: Verb, data: &Json) -> (out: String)
    ensures
        shows(verb, data@, out@),
{
    match verb {
        Verb::Identify => print_identify(data),
        Verb::ListWorkspaces => print_tree(data),
        Verb::GetResolvedConfig => print_get_resolved_config(data),
        Verb::ReadScreen | Verb::AgentRead => print_read_screen(data),
        Verb::VtState => print_vt_state(data),
        Verb::NewTab | Verb::NewBrowserTab | Verb::NewWorkspace | Verb::NewScreen
        | Verb::Split => print_surface(data),
        Verb::ListAgents => print_agents(data),
        Verb::PaneWorktreeCreate => print_worktree_created(data),
        Verb::PaneWorktreeList => print_worktrees(data),
        Verb::DetectAgent => print_detect_agent(data),
        Verb::DetectAgents => print_detect_agents(data),
        Verb::AgentPatternList => print_agent_patterns(data),
        _ => print_empty(data),
    }
}

// ---- each value behind its label ----------------------------------------------------------

/// How a field that holds a number is shown: in decimal, as nothing counted where it holds none.
pub open spec fn shown_number(v: Option<JsonV>) -> Seq<char> {
    match v {
        Some(JsonV::Number(crate::json::NumberV::Unsigned(n))) => decimal(n as nat),
        _ => decimal(0),
    }
}

/// How a field that holds a text is shown: as it is, or as another text where it holds none.
pub open spec fn shown_text(v: Option<JsonV>, other: Seq<char>) -> Seq<char> {
    match v {
        Some(JsonV::Text(s)) => s,
        _ => other,
    }
}

/// How a field is shown as JSON.
pub open spec fn shown_atom(v: Option<JsonV>) -> Seq<char> {
    match v {
        Some(JsonV::Null) | None => "null"@,
        Some(x) => json_text(x),
    }
}

/// How a field that says yes or no is shown; one that says nothing says no.
pub open spec fn shown_flag(v: Option<JsonV>) -> Seq<char> {
    match v {
        Some(JsonV::Bool(true)) => "true"@,
        _ => "false"@,
    }
}

/// How a number inside a field is shown.
pub open spec fn shown_part(v: Option<JsonV>, key: Seq<char>) -> Seq<char> {
    match v {
        Some(x) => shown_number(x.field(key)),
        None => decimal(0),
    }
}

/// Whether two values have the same fields but for one.
pub open spec fn same_but(a: JsonV, b: JsonV, key: Seq<char>) -> bool {
    forall|k: Seq<char>| k != key ==> #[trigger] a.field(k) == b.field(k)
}

/// A text with a label, a value behind it, and something before and after.
pub open spec fn labelled(
    front: Seq<char>,
    label: Seq<char>,
    value: Seq<char>,
    back: Seq<char>,
) -> Seq<char> {
    front + label + value + back
}

/// Whether two texts are the same but for what stands behind a label: `u` in the first, `v` in the
/// second.
pub open spec fn differ_behind(
    x: Seq<char>,
    y: Seq<char>,
    label: Seq<char>,
    u: Seq<char>,
    v: Seq<char>,
) -> bool {
    exists|front: Seq<char>, back: Seq<char>| #[trigger]
        labelled(front, label, u, back) == x && labelled(front, label, v, back) == y
}

proof fn lemma_differ_behind(
    front: Seq<char>,
    label: Seq<char>,
    u: Seq<char>,
    v: Seq<char>,
    back: Seq<char>,
)
    ensures
        differ_behind(front + label + u + back, front + label + v + back, label, u, v),
{
    assert(labelled(front, label, u, back) == front + label + u + back);
    assert(labelled(front, label, v, back) == front + label + v + back);
}

proof fn lemma_add(x: Seq<char>, y: Seq<char>, z: Seq<char>)
    ensures
        x + y + z == x + (y + z),
{
    assert(x + y + z =~= x + (y + z));
}

proof fn lemma_nothing_before(x: Seq<char>)
    ensures
        Seq::<char>::empty() + x == x,
{
    assert(Seq::<char>::empty() + x =~= x);
}

/// In the line of a tab, what stands behind a label is the field of that name: two of them that
/// differ in one field only have lines that differ behind its label only, where each shows its own.
pub proof fn law_tab_line(a: JsonV, b: JsonV, pane: u64)
    ensures
        same_but(a, b, "surface"@) ==> differ_behind(
            tab_line(a, pane),
            tab_line(b, pane),
            "tab surface="@,
            shown_number(a.field("surface"@)),
            shown_number(b.field("surface"@)),
        ),
        same_but(a, b, "kind"@) ==> differ_behind(
            tab_line(a, pane),
            tab_line(b, pane),
            " kind="@,
            shown_text(a.field("kind"@), ""@),
            shown_text(b.field("kind"@), ""@),
        ),
        same_but(a, b, "browser_source"@) ==> differ_behind(
            tab_line(a, pane),
            tab_line(b, pane),
            " browser_source="@,
            shown_atom(a.field("browser_source"@)),
            shown_atom(b.field("browser_source"@)),
        ),
        same_but(a, b, "name"@) ==> differ_behind(
            tab_line(a, pane),
            tab_line(b, pane),
            " name="@,
            shown_atom(a.field("name"@)),
            shown_atom(b.field("name"@)),
        ),
        same_but(a, b, "title"@) ==> differ_behind(
            tab_line(a, pane),
            tab_line(b, pane),
            " title="@,
            shown_atom(a.field("title"@)),
            shown_atom(b.field("title"@)),
        ),
        same_but(a, b, "dead"@) ==> differ_behind(
            tab_line(a, pane),
            tab_line(b, pane),
            " dead="@,
            shown_flag(a.field("dead"@)),
            shown_flag(b.field("dead"@)),
        ),
{
    lemma_tab_line_surface(a, b, pane);
    lemma_tab_line_kind(a, b, pane);
    lemma_tab_line_browser_source(a, b, pane);
    lemma_tab_line_name(a, b, pane);
    lemma_tab_line_title(a, b, pane);
    lemma_tab_line_dead(a, b, pane);
}

#[verifier::spinoff_prover]
proof fn lemma_tab_line_surface(a: JsonV, b: JsonV, pane: u64)
    ensures
        same_but(a, b, "surface"@) ==> differ_behind(
            tab_line(a, pane),
            tab_line(b, pane),
            "tab surface="@,
            shown_number(a.field("surface"@)),
            shown_number(b.field("surface"@)),
        ),
{
    reveal_strlit("surface");
    assert("surface"@.len() == 7 && "surface"@[0] == 's' && "surface"@[1] == 'u' && "surface"@[6] == 'e');
    reveal_strlit("kind");
    assert("kind"@.len() == 4 && "kind"@[0] == 'k' && "kind"@[1] == 'i' && "kind"@[3] == 'd');
    reveal_strlit("browser_source");
    assert("browser_source"@.len() == 14 && "browser_source"@[0] == 'b' && "browser_source"@[1] == 'r' && "browser_source"@[13] == 'e');
    reveal_strlit("name");
    assert("name"@.len() == 4 && "name"@[0] == 'n' && "name"@[1] == 'a' && "name"@[3] == 'e');
    reveal_strlit("title");
    assert("title"@.len() == 5 && "title"@[0] == 't' && "title"@[1] == 'i' && "title"@[4] == 'e');
    reveal_strlit("dead");
    assert("dead"@.len() == 4 && "dead"@[0] == 'd' && "dead"@[1] == 'e' && "dead"@[3] == 'd');
    reveal_strlit("size");
    assert("size"@.len() == 4 && "size"@[0] == 's' && "size"@[1] == 'i' && "size"@[3] == 'e');
    if same_but(a, b, "surface"@) {
        let front = Seq::<char>::empty();
        let label = "tab surface="@;
        let u = shown_number(a.field("surface"@));
        let v = shown_number(b.field("surface"@));
        let t0 = " pane="@;
        let t1 = decimal(pane as nat);
        let t2 = " kind="@;
        let t3 = shown_text(a.field("kind"@), ""@);
        let t4 = " browser_source="@;
        let t5 = shown_atom(a.field("browser_source"@));
        let t6 = " name="@;
        let t7 = shown_atom(a.field("name"@));
        let t8 = " title="@;
        let t9 = shown_atom(a.field("title"@));
        let t10 = " dead="@;
        let t11 = shown_flag(a.field("dead"@));
        let t12 = " cols="@;
        let t13 = shown_part(a.field("size"@), "cols"@);
        let t14 = " rows="@;
        let t15 = shown_part(a.field("size"@), "rows"@);
        let t16 = "\n"@;
        let back = t0 + t1 + t2 + t3 + t4 + t5 + t6 + t7 + t8 + t9 + t10 + t11 + t12 + t13 + t14 + t15 + t16;
        lemma_nothing_before(label);
        lemma_add(front + label + u, t0, t1);
        lemma_add(front + label + u, t0 + t1, t2);
        lemma_add(front + label + u, t0 + t1 + t2, t3);
        lemma_add(front + label + u, t0 + t1 + t2 + t3, t4);
        lemma_add(front + label + u, t0 + t1 + t2 + t3 + t4, t5);
        lemma_add(front + label + u, t0 + t1 + t2 + t3 + t4 + t5, t6);
        lemma_add(front + label + u, t0 + t1 + t2 + t3 + t4 + t5 + t6, t7);
        lemma_add(front + label + u, t0 + t1 + t2 + t3 + t4 + t5 + t6 + t7, t8);
        lemma_add(front + label + u, t0 + t1 + t2 + t3 + t4 + t5 + t6 + t7 + t8, t9);
        lemma_add(front + label + u, t0 + t1 + t2 + t3 + t4 + t5 + t6 + t7 + t8 + t9, t10);
        lemma_add(front + label + u, t0 + t1 + t2 + t3 + t4 + t5 + t6 + t7 + t8 + t9 + t10, t11);
        lemma_add(front + label + u, t0 + t1 + t2 + t3 + t4 + t5 + t6 + t7 + t8 + t9 + t10 + t11, t12);
        lemma_add(front + label + u, t0 + t1 + t2 + t3 + t4 + t5 + t6 + t7 + t8 + t9 + t10 + t11 + t12, t13);
        lemma_add(front + label + u, t0 + t1 + t2 + t3 + t4 + t5 + t6 + t7 + t8 + t9 + t10 + t11 + t12 + t13, t14);
        lemma_add(front + label + u, t0 + t1 + t2 + t3 + t4 + t5 + t6 + t7 + t8 + t9 + t10 + t11 + t12 + t13 + t14, t15);
        lemma_add(front + label + u, t0 + t1 + t2 + t3 + t4 + t5 + t6 + t7 + t8 + t9 + t10 + t11 + t12 + t13 + t14 + t15, t16);
        lemma_nothing_before(label);
        lemma_add(front + label + v, t0, t1);
        lemma_add(front + label + v, t0 + t1, t2);
        lemma_add(front + label + v, t0 + t1 + t2, t3);
        lemma_add(front + label + v, t0 + t1 + t2 + t3, t4);
        lemma_add(front + label + v, t0 + t1 + t2 + t3 + t4, t5);
        lemma_add(front + label + v, t0 + t1 + t2 + t3 + t4 + t5, t6);
        lemma_add(front + label + v, t0 + t1 + t2 + t3 + t4 + t5 + t6, t7);
        lemma_add(front + label + v, t0 + t1 + t2 + t3 + t4 + t5 + t6 + t7, t8);
        lemma_add(front + label + v, t0 + t1 + t2 + t3 + t4 + t5 + t6 + t7 + t8, t9);
        lemma_add(front + label + v, t0 + t1 + t2 + t3 + t4 + t5 + t6 + t7 + t8 + t9, t10);
        lemma_add(front + label + v, t0 + t1 + t2 + t3 + t4 + t5 + t6 + t7 + t8 + t9 + t10, t11);
        lemma_add(front + label + v, t0 + t1 + t2 + t3 + t4 + t5 + t6 + t7 + t8 + t9 + t10 + t11, t12);
        lemma_add(front + label + v, t0 + t1 + t2 + t3 + t4 + t5 + t6 + t7 + t8 + t9 + t10 + t11 + t12, t13);
        lemma_add(front + label + v, t0 + t1 + t2 + t3 + t4 + t5 + t6 + t7 + t8 + t9 + t10 + t11 + t12 + t13, t14);
        lemma_add(front + label + v, t0 + t1 + t2 + t3 + t4 + t5 + t6 + t7 + t8 + t9 + t10 + t11 + t12 + t13 + t14, t15);
        lemma_add(front + label + v, t0 + t1 + t2 + t3 + t4 + t5 + t6 + t7 + t8 + t9 + t10 + t11 + t12 + t13 + t14 + t15, t16);
        assert(tab_line(a, pane) == front + label + u + back);
        assert(tab_line(b, pane) == front + label + v + back);
        lemma_differ_behind(front, label, u, v, back);
    }
}

#[verifier::spinoff_prover]
proof fn lemma_tab_line_kind(a: JsonV, b: JsonV, pane: u64)
    ensures
        same_but(a, b, "kind"@) ==> differ_behind(
            tab_line(a, pane),
            tab_line(b, pane),
            " kind="@,
            shown_text(a.field("kind"@), ""@),
            shown_text(b.field("kind"@), ""@),
        ),
{
    reveal_strlit("surface");
    assert("surface"@.len() == 7 && "surface"@[0] == 's' && "surface"@[1] == 'u' && "surface"@[6] == 'e');
    reveal_strlit("kind");
    assert("kind"@.len() == 4 && "kind"@[0] == 'k' && "kind"@[1] == 'i' && "kind"@[3] == 'd');
    reveal_strlit("browser_source");
    assert("browser_source"@.len() == 14 && "browser_source"@[0] == 'b' && "browser_source"@[1] == 'r' && "browser_source"@[13] == 'e');
    reveal_strlit("name");
    assert("name"@.len() == 4 && "name"@[0] == 'n' && "name"@[1] == 'a' && "name"@[3] == 'e');
    reveal_strlit("title");
    assert("title"@.len() == 5 && "title"@[0] == 't' && "title"@[1] == 'i' && "title"@[4] == 'e');
    reveal_strlit("dead");
    assert("dead"@.len() == 4 && "dead"@[0] == 'd' && "dead"@[1] == 'e' && "dead"@[3] == 'd');
    reveal_strlit("size");
    assert("size"@.len() == 4 && "size"@[0] == 's' && "size"@[1] == 'i' && "size"@[3] == 'e');
    if same_but(a, b, "kind"@) {
        let front = "tab surface="@ + shown_number(a.field("surface"@)) + " pane="@ + decimal(pane as nat);
        let label = " kind="@;
        let u = shown_text(a.field("kind"@), ""@);
        let v = shown_text(b.field("kind"@), ""@);
        let t0 = " browser_source="@;
        let t1 = shown_atom(a.field("browser_source"@));
        let t2 = " name="@;
        let t3 = shown_atom(a.field("name"@));
        let t4 = " title="@;
        let t5 = shown_atom(a.field("title"@));
        let t6 = " dead="@;
        let t7 = shown_flag(a.field("dead"@));
        let t8 = " cols="@;
        let t9 = shown_part(a.field("size"@), "cols"@);
        let t10 = " rows="@;
        let t11 = shown_part(a.field("size"@), "rows"@);
        let t12 = "\n"@;
        let back = t0 + t1 + t2 + t3 + t4 + t5 + t6 + t7 + t8 + t9 + t10 + t11 + t12;
        lemma_add(front + label + u, t0, t1);
        lemma_add(front + label + u, t0 + t1, t2);
        lemma_add(front + label + u, t0 + t1 + t2, t3);
        lemma_add(front + label + u, t0 + t1 + t2 + t3, t4);
        lemma_add(front + label + u, t0 + t1 + t2 + t3 + t4, t5);
        lemma_add(front + label + u, t0 + t1 + t2 + t3 + t4 + t5, t6);
        lemma_add(front + label + u, t0 + t1 + t2 + t3 + t4 + t5 + t6, t7);
        lemma_add(front + label + u, t0 + t1 + t2 + t3 + t4 + t5 + t6 + t7, t8);
        lemma_add(front + label + u, t0 + t1 + t2 + t3 + t4 + t5 + t6 + t7 + t8, t9);
        lemma_add(front + label + u, t0 + t1 + t2 + t3 + t4 + t5 + t6 + t7 + t8 + t9, t10);
        lemma_add(front + label + u, t0 + t1 + t2 + t3 + t4 + t5 + t6 + t7 + t8 + t9 + t10, t11);
        lemma_add(front + label + u, t0 + t1 + t2 + t3 + t4 + t5 + t6 + t7 + t8 + t9 + t10 + t11, t12);
        lemma_add(front + label + v, t0, t1);
        lemma_add(front + label + v, t0 + t1, t2);
        lemma_add(front + label + v, t0 + t1 + t2, t3);
        lemma_add(front + label + v, t0 + t1 + t2 + t3, t4);
        lemma_add(front + label + v, t0 + t1 + t2 + t3 + t4, t5);
        lemma_add(front + label + v, t0 + t1 + t2 + t3 + t4 + t5, t6);
        lemma_add(front + label + v, t0 + t1 + t2 + t3 + t4 + t5 + t6, t7);
        lemma_add(front + label + v, t0 + t1 + t2 + t3 + t4 + t5 + t6 + t7, t8);
        lemma_add(front + label + v, t0 + t1 + t2 + t3 + t4 + t5 + t6 + t7 + t8, t9);
        lemma_add(front + label + v, t0 + t1 + t2 + t3 + t4 + t5 + t6 + t7 + t8 + t9, t10);
        lemma_add(front + label + v, t0 + t1 + t2 + t3 + t4 + t5 + t6 + t7 + t8 + t9 + t10, t11);
        lemma_add(front + label + v, t0 + t1 + t2 + t3 + t4 + t5 + t6 + t7 + t8 + t9 + t10 + t11, t12);
        assert(tab_line(a, pane) == front + label + u + back);
        assert(tab_line(b, pane) == front + label + v + back);
        lemma_differ_behind(front, label, u, v, back);
    }
}

#[verifier::spinoff_prover]
proof fn lemma_tab_line_browser_source(a: JsonV, b: JsonV, pane: u64)
    ensures
        same_but(a, b, "browser_source"@) ==> differ_behind(
            tab_line(a, pane),
            tab_line(b, pane),
            " browser_source="@,
            shown_atom(a.field("browser_source"@)),
            shown_atom(b.field("browser_source"@)),
        ),
{
    reveal_strlit("surface");
    assert("surface"@.len() == 7 && "surface"@[0] == 's' && "surface"@[1] == 'u' && "surface"@[6] == 'e');
    reveal_strlit("kind");
    assert("kind"@.len() == 4 && "kind"@[0] == 'k' && "kind"@[1] == 'i' && "kind"@[3] == 'd');
    reveal_strlit("browser_source");
    assert("browser_source"@.len() == 14 && "browser_source"@[0] == 'b' && "browser_source"@[1] == 'r' && "browser_source"@[13] == 'e');
    reveal_strlit("name");
    assert("name"@.len() == 4 && "name"@[0] == 'n' && "name"@[1] == 'a' && "name"@[3] == 'e');
    reveal_strlit("title");
    assert("title"@.len() == 5 && "title"@[0] == 't' && "title"@[1] == 'i' && "title"@[4] == 'e');
    reveal_strlit("dead");
    assert("dead"@.len() == 4 && "dead"@[0] == 'd' && "dead"@[1] == 'e' && "dead"@[3] == 'd');
    reveal_strlit("size");
    assert("size"@.len() == 4 && "size"@[0] == 's' && "size"@[1] == 'i' && "size"@[3] == 'e');
    if same_but(a, b, "browser_source"@) {
        let front = "tab surface="@ + shown_number(a.field("surface"@)) + " pane="@ + decimal(pane as nat) + " kind="@ + shown_text(a.field("kind"@), ""@);
        let label = " browser_source="@;
        let u = shown_atom(a.field("browser_source"@));
        let v = shown_atom(b.field("browser_source"@));
        let t0 = " name="@;
        let t1 = shown_atom(a.field("name"@));
        let t2 = " title="@;
        let t3 = shown_atom(a.field("title"@));
        let t4 = " dead="@;
        let t5 = shown_flag(a.field("dead"@));
        let t6 = " cols="@;
        let t7 = shown_part(a.field("size"@), "cols"@);
        let t8 = " rows="@;
        let t9 = shown_part(a.field("size"@), "rows"@);
        let t10 = "\n"@;
        let back = t0 + t1 + t2 + t3 + t4 + t5 + t6 + t7 + t8 + t9 + t10;
        lemma_add(front + label + u, t0, t1);
        lemma_add(front + label + u, t0 + t1, t2);
        lemma_add(front + label + u, t0 + t1 + t2, t3);
        lemma_add(front + label + u, t0 + t1 + t2 + t3, t4);
        lemma_add(front + label + u, t0 + t1 + t2 + t3 + t4, t5);
        lemma_add(front + label + u, t0 + t1 + t2 + t3 + t4 + t5, t6);
        lemma_add(front + label + u, t0 + t1 + t2 + t3 + t4 + t5 + t6, t7);
        lemma_add(front + label + u, t0 + t1 + t2 + t3 + t4 + t5 + t6 + t7, t8);
        lemma_add(front + label + u, t0 + t1 + t2 + t3 + t4 + t5 + t6 + t7 + t8, t9);
        lemma_add(front + label + u, t0 + t1 + t2 + t3 + t4 + t5 + t6 + t7 + t8 + t9, t10);
        lemma_add(front + label + v, t0, t1);
        lemma_add(front + label + v, t0 + t1, t2);
        lemma_add(front + label + v, t0 + t1 + t2, t3);
        lemma_add(front + label + v, t0 + t1 + t2 + t3, t4);
        lemma_add(front + label + v, t0 + t1 + t2 + t3 + t4, t5);
        lemma_add(front + label + v, t0 + t1 + t2 + t3 + t4 + t5, t6);
        lemma_add(front + label + v, t0 + t1 + t2 + t3 + t4 + t5 + t6, t7);
        lemma_add(front + label + v, t0 + t1 + t2 + t3 + t4 + t5 + t6 + t7, t8);
        lemma_add(front + label + v, t0 + t1 + t2 + t3 + t4 + t5 + t6 + t7 + t8, t9);
        lemma_add(front + label + v, t0 + t1 + t2 + t3 + t4 + t5 + t6 + t7 + t8 + t9, t10);
        assert(tab_line(a, pane) == front + label + u + back);
        assert(tab_line(b, pane) == front + label + v + back);
        lemma_differ_behind(front, label, u, v, back);
    }
}

#[verifier::spinoff_prover]
proof fn lemma_tab_line_name(a: JsonV, b: JsonV, pane: u64)
    ensures
        same_but(a, b, "name"@) ==> differ_behind(
            tab_line(a, pane),
            tab_line(b, pane),
            " name="@,
            shown_atom(a.field("name"@)),
            shown_atom(b.field("name"@)),
        ),
{
    reveal_strlit("surface");
    assert("surface"@.len() == 7 && "surface"@[0] == 's' && "surface"@[1] == 'u' && "surface"@[6] == 'e');
    reveal_strlit("kind");
    assert("kind"@.len() == 4 && "kind"@[0] == 'k' && "kind"@[1] == 'i' && "kind"@[3] == 'd');
    reveal_strlit("browser_source");
    assert("browser_source"@.len() == 14 && "browser_source"@[0] == 'b' && "browser_source"@[1] == 'r' && "browser_source"@[13] == 'e');
    reveal_strlit("name");
    assert("name"@.len() == 4 && "name"@[0] == 'n' && "name"@[1] == 'a' && "name"@[3] == 'e');
    reveal_strlit("title");
    assert("title"@.len() == 5 && "title"@[0] == 't' && "title"@[1] == 'i' && "title"@[4] == 'e');
    reveal_strlit("dead");
    assert("dead"@.len() == 4 && "dead"@[0] == 'd' && "dead"@[1] == 'e' && "dead"@[3] == 'd');
    reveal_strlit("size");
    assert("size"@.len() == 4 && "size"@[0] == 's' && "size"@[1] == 'i' && "size"@[3] == 'e');
    if same_but(a, b, "name"@) {
        let front = "tab surface="@ + shown_number(a.field("surface"@)) + " pane="@ + decimal(pane as nat) + " kind="@ + shown_text(a.field("kind"@), ""@) + " browser_source="@ + shown_atom(a.field("browser_source"@));
        let label = " name="@;
        let u = shown_atom(a.field("name"@));
        let v = shown_atom(b.field("name"@));
        let t0 = " title="@;
        let t1 = shown_atom(a.field("title"@));
        let t2 = " dead="@;
        let t3 = shown_flag(a.field("dead"@));
        let t4 = " cols="@;
        let t5 = shown_part(a.field("size"@), "cols"@);
        let t6 = " rows="@;
        let t7 = shown_part(a.field("size"@), "rows"@);
        let t8 = "\n"@;
        let back = t0 + t1 + t2 + t3 + t4 + t5 + t6 + t7 + t8;
        lemma_add(front + label + u, t0, t1);
        lemma_add(front + label + u, t0 + t1, t2);
        lemma_add(front + label + u, t0 + t1 + t2, t3);
        lemma_add(front + label + u, t0 + t1 + t2 + t3, t4);
        lemma_add(front + label + u, t0 + t1 + t2 + t3 + t4, t5);
        lemma_add(front + label + u, t0 + t1 + t2 + t3 + t4 + t5, t6);
        lemma_add(front + label + u, t0 + t1 + t2 + t3 + t4 + t5 + t6, t7);
        lemma_add(front + label + u, t0 + t1 + t2 + t3 + t4 + t5 + t6 + t7, t8);
        lemma_add(front + label + v, t0, t1);
        lemma_add(front + label + v, t0 + t1, t2);
        lemma_add(front + label + v, t0 + t1 + t2, t3);
        lemma_add(front + label + v, t0 + t1 + t2 + t3, t4);
        lemma_add(front + label + v, t0 + t1 + t2 + t3 + t4, t5);
        lemma_add(front + label + v, t0 + t1 + t2 + t3 + t4 + t5, t6);
        lemma_add(front + label + v, t0 + t1 + t2 + t3 + t4 + t5 + t6, t7);
        lemma_add(front + label + v, t0 + t1 + t2 + t3 + t4 + t5 + t6 + t7, t8);
        assert(tab_line(a, pane) == front + label + u + back);
        assert(tab_line(b, pane) == front + label + v + back);
        lemma_differ_behind(front, label, u, v, back);
    }
}

#[verifier::spinoff_prover]
proof fn lemma_tab_line_title(a: JsonV, b: JsonV, pane: u64)
    ensures
        same_but(a, b, "title"@) ==> differ_behind(
            tab_line(a, pane),
            tab_line(b, pane),
            " title="@,
            shown_atom(a.field("title"@)),
            shown_atom(b.field("title"@)),
        ),
{
    reveal_strlit("surface");
    assert("surface"@.len() == 7 && "surface"@[0] == 's' && "surface"@[1] == 'u' && "surface"@[6] == 'e');
    reveal_strlit("kind");
    assert("kind"@.len() == 4 && "kind"@[0] == 'k' && "kind"@[1] == 'i' && "kind"@[3] == 'd');
    reveal_strlit("browser_source");
    assert("browser_source"@.len() == 14 && "browser_source"@[0] == 'b' && "browser_source"@[1] == 'r' && "browser_source"@[13] == 'e');
    reveal_strlit("name");
    assert("name"@.len() == 4 && "name"@[0] == 'n' && "name"@[1] == 'a' && "name"@[3] == 'e');
    reveal_strlit("title");
    assert("title"@.len() == 5 && "title"@[0] == 't' && "title"@[1] == 'i' && "title"@[4] == 'e');
    reveal_strlit("dead");
    assert("dead"@.len() == 4 && "dead"@[0] == 'd' && "dead"@[1] == 'e' && "dead"@[3] == 'd');
    reveal_strlit("size");
    assert("size"@.len() == 4 && "size"@[0] == 's' && "size"@[1] == 'i' && "size"@[3] == 'e');
    if same_but(a, b, "title"@) {
        let front = "tab surface="@ + shown_number(a.field("surface"@)) + " pane="@ + decimal(pane as nat) + " kind="@ + shown_text(a.field("kind"@), ""@) + " browser_source="@ + shown_atom(a.field("browser_source"@)) + " name="@ + shown_atom(a.field("name"@));
        let label = " title="@;
        let u = shown_atom(a.field("title"@));
        let v = shown_atom(b.field("title"@));
        let t0 = " dead="@;
        let t1 = shown_flag(a.field("dead"@));
        let t2 = " cols="@;
        let t3 = shown_part(a.field("size"@), "cols"@);
        let t4 = " rows="@;
        let t5 = shown_part(a.field("size"@), "rows"@);
        let t6 = "\n"@;
        let back = t0 + t1 + t2 + t3 + t4 + t5 + t6;
        lemma_add(front + label + u, t0, t1);
        lemma_add(front + label + u, t0 + t1, t2);
        lemma_add(front + label + u, t0 + t1 + t2, t3);
        lemma_add(front + label + u, t0 + t1 + t2 + t3, t4);
        lemma_add(front + label + u, t0 + t1 + t2 + t3 + t4, t5);
        lemma_add(front + label + u, t0 + t1 + t2 + t3 + t4 + t5, t6);
        lemma_add(front + label + v, t0, t1);
        lemma_add(front + label + v, t0 + t1, t2);
        lemma_add(front + label + v, t0 + t1 + t2, t3);
        lemma_add(front + label + v, t0 + t1 + t2 + t3, t4);
        lemma_add(front + label + v, t0 + t1 + t2 + t3 + t4, t5);
        lemma_add(front + label + v, t0 + t1 + t2 + t3 + t4 + t5, t6);
        assert(tab_line(a, pane) == front + label + u + back);
        assert(tab_line(b, pane) == front + label + v + back);
        lemma_differ_behind(front, label, u, v, back);
    }
}

#[verifier::spinoff_prover]
proof fn lemma_tab_line_dead(a: JsonV, b: JsonV, pane: u64)
    ensures
        same_but(a, b, "dead"@) ==> differ_behind(
            tab_line(a, pane),
            tab_line(b, pane),
            " dead="@,
            shown_flag(a.field("dead"@)),
            shown_flag(b.field("dead"@)),
        ),
{
    reveal_strlit("surface");
    assert("surface"@.len() == 7 && "surface"@[0] == 's' && "surface"@[1] == 'u' && "surface"@[6] == 'e');
    reveal_strlit("kind");
    assert("kind"@.len() == 4 && "kind"@[0] == 'k' && "kind"@[1] == 'i' && "kind"@[3] == 'd');
    reveal_strlit("browser_source");
    assert("browser_source"@.len() == 14 && "browser_source"@[0] == 'b' && "browser_source"@[1] == 'r' && "browser_source"@[13] == 'e');
    reveal_strlit("name");
    assert("name"@.len() == 4 && "name"@[0] == 'n' && "name"@[1] == 'a' && "name"@[3] == 'e');
    reveal_strlit("title");
    assert("title"@.len() == 5 && "title"@[0] == 't' && "title"@[1] == 'i' && "title"@[4] == 'e');
    reveal_strlit("dead");
    assert("dead"@.len() == 4 && "dead"@[0] == 'd' && "dead"@[1] == 'e' && "dead"@[3] == 'd');
    reveal_strlit("size");
    assert("size"@.len() == 4 && "size"@[0] == 's' && "size"@[1] == 'i' && "size"@[3] == 'e');
    if same_but(a, b, "dead"@) {
        let front = "tab surface="@ + shown_number(a.field("surface"@)) + " pane="@ + decimal(pane as nat) + " kind="@ + shown_text(a.field("kind"@), ""@) + " browser_source="@ + shown_atom(a.field("browser_source"@)) + " name="@ + shown_atom(a.field("name"@)) + " title="@ + shown_atom(a.field("title"@));
        let label = " dead="@;
        let u = shown_flag(a.field("dead"@));
        let v = shown_flag(b.field("dead"@));
        let t0 = " cols="@;
        let t1 = shown_part(a.field("size"@), "cols"@);
        let t2 = " rows="@;
        let t3 = shown_part(a.field("size"@), "rows"@);
        let t4 = "\n"@;
        let back = t0 + t1 + t2 + t3 + t4;
        lemma_add(front + label + u, t0, t1);
        lemma_add(front + label + u, t0 + t1, t2);
        lemma_add(front + label + u, t0 + t1 + t2, t3);
        lemma_add(front + label + u, t0 + t1 + t2 + t3, t4);
        lemma_add(front + label + v, t0, t1);
        lemma_add(front + label + v, t0 + t1, t2);
        lemma_add(front + label + v, t0 + t1 + t2, t3);
        lemma_add(front + label + v, t0 + t1 + t2 + t3, t4);
        assert(tab_line(a, pane) == front + label + u + back);
        assert(tab_line(b, pane) == front + label + v + back);
        lemma_differ_behind(front, label, u, v, back);
    }
}

/// In the line of a identification, what stands behind a label is the field of that name: two of them that
/// differ in one field only have lines that differ behind its label only, where each shows its own.
pub proof fn law_identify_line(a: JsonV, b: JsonV)
    ensures
        same_but(a, b, "session"@) ==> differ_behind(
            identify_line(a),
            identify_line(b),
            "cmux session="@,
            shown_text(a.field("session"@), ""@),
            shown_text(b.field("session"@), ""@),
        ),
        same_but(a, b, "protocol"@) ==> differ_behind(
            identify_line(a),
            identify_line(b),
            " protocol="@,
            shown_number(a.field("protocol"@)),
            shown_number(b.field("protocol"@)),
        ),
        same_but(a, b, "pid"@) ==> differ_behind(
            identify_line(a),
            identify_line(b),
            " pid="@,
            shown_number(a.field("pid"@)),
            shown_number(b.field("pid"@)),
        ),
{
    lemma_identify_line_session(a, b);
    lemma_identify_line_protocol(a, b);
    lemma_identify_line_pid(a, b);
}

#[verifier::spinoff_prover]
proof fn lemma_identify_line_session(a: JsonV, b: JsonV)
    ensures
        same_but(a, b, "session"@) ==> differ_behind(
            identify_line(a),
            identify_line(b),
            "cmux session="@,
            shown_text(a.field("session"@), ""@),
            shown_text(b.field("session"@), ""@),
        ),
{
    reveal_strlit("session");
    assert("session"@.len() == 7 && "session"@[0] == 's' && "session"@[1] == 'e' && "session"@[6] == 'n');
    reveal_strlit("protocol");
    assert("protocol"@.len() == 8 && "protocol"@[0] == 'p' && "protocol"@[1] == 'r' && "protocol"@[7] == 'l');
    reveal_strlit("pid");
    assert("pid"@.len() == 3 && "pid"@[0] == 'p' && "pid"@[1] == 'i' && "pid"@[2] == 'd');
    if same_but(a, b, "session"@) {
        let front = Seq::<char>::empty();
        let label = "cmux session="@;
        let u = shown_text(a.field("session"@), ""@);
        let v = shown_text(b.field("session"@), ""@);
        let t0 = " protocol="@;
        let t1 = shown_number(a.field("protocol"@));
        let t2 = " pid="@;
        let t3 = shown_number(a.field("pid"@));
        let t4 = "\n"@;
        let back = t0 + t1 + t2 + t3 + t4;
        lemma_nothing_before(label);
        lemma_add(front + label + u, t0, t1);
        lemma_add(front + label + u, t0 + t1, t2);
        lemma_add(front + label + u, t0 + t1 + t2, t3);
        lemma_add(front + label + u, t0 + t1 + t2 + t3, t4);
        lemma_nothing_before(label);
        lemma_add(front + label + v, t0, t1);
        lemma_add(front + label + v, t0 + t1, t2);
        lemma_add(front + label + v, t0 + t1 + t2, t3);
        lemma_add(front + label + v, t0 + t1 + t2 + t3, t4);
        assert(identify_line(a) == front + label + u + back);
        assert(identify_line(b) == front + label + v + back);
        lemma_differ_behind(front, label, u, v, back);
    }
}

#[verifier::spinoff_prover]
proof fn lemma_identify_line_protocol(a: JsonV, b: JsonV)
    ensures
        same_but(a, b, "protocol"@) ==> differ_behind(
            identify_line(a),
            identify_line(b),
            " protocol="@,
            shown_number(a.field("protocol"@)),
            shown_number(b.field("protocol"@)),
        ),
{
    reveal_strlit("session");
    assert("session"@.len() == 7 && "session"@[0] == 's' && "session"@[1] == 'e' && "session"@[6] == 'n');
    reveal_strlit("protocol");
    assert("protocol"@.len() == 8 && "protocol"@[0] == 'p' && "protocol"@[1] == 'r' && "protocol"@[7] == 'l');
    reveal_strlit("pid");
    assert("pid"@.len() == 3 && "pid"@[0] == 'p' && "pid"@[1] == 'i' && "pid"@[2] == 'd');
    if same_but(a, b, "protocol"@) {
        let front = "cmux session="@ + shown_text(a.field("session"@), ""@);
        let label = " protocol="@;
        let u = shown_number(a.field("protocol"@));
        let v = shown_number(b.field("protocol"@));
        let t0 = " pid="@;
        let t1 = shown_number(a.field("pid"@));
        let t2 = "\n"@;
        let back = t0 + t1 + t2;
        lemma_add(front + label + u, t0, t1);
        lemma_add(front + label + u, t0 + t1, t2);
        lemma_add(front + label + v, t0, t1);
        lemma_add(front + label + v, t0 + t1, t2);
        assert(identify_line(a) == front + label + u + back);
        assert(identify_line(b) == front + label + v + back);
        lemma_differ_behind(front, label, u, v, back);
    }
}

#[verifier::spinoff_prover]
proof fn lemma_identify_line_pid(a: JsonV, b: JsonV)
    ensures
        same_but(a, b, "pid"@) ==> differ_behind(
            identify_line(a),
            identify_line(b),
            " pid="@,
            shown_number(a.field("pid"@)),
            shown_number(b.field("pid"@)),
        ),
{
    reveal_strlit("session");
    assert("session"@.len() == 7 && "session"@[0] == 's' && "session"@[1] == 'e' && "session"@[6] == 'n');
    reveal_strlit("protocol");
    assert("protocol"@.len() == 8 && "protocol"@[0] == 'p' && "protocol"@[1] == 'r' && "protocol"@[7] == 'l');
    reveal_strlit("pid");
    assert("pid"@.len() == 3 && "pid"@[0] == 'p' && "pid"@[1] == 'i' && "pid"@[2] == 'd');
    if same_but(a, b, "pid"@) {
        let front = "cmux session="@ + shown_text(a.field("session"@), ""@) + " protocol="@ + shown_number(a.field("protocol"@));
        let label = " pid="@;
        let u = shown_number(a.field("pid"@));
        let v = shown_number(b.field("pid"@));
        let t0 = "\n"@;
        let back = t0;
        assert(identify_line(a) == front + label + u + back);
        assert(identify_line(b) == front + label + v + back);
        lemma_differ_behind(front, label, u, v, back);
    }
}

/// In the line of a terminal, what stands behind a label is the field of that name: two of them that
/// differ in one field only have lines that differ behind its label only, where each shows its own.
pub proof fn law_vt_state_line(a: JsonV, b: JsonV)
    ensures
        same_but(a, b, "cols"@) ==> differ_behind(
            vt_state_line(a),
            vt_state_line(b),
            "cols="@,
            shown_number(a.field("cols"@)),
            shown_number(b.field("cols"@)),
        ),
        same_but(a, b, "rows"@) ==> differ_behind(
            vt_state_line(a),
            vt_state_line(b),
            " rows="@,
            shown_number(a.field("rows"@)),
            shown_number(b.field("rows"@)),
        ),
        same_but(a, b, "data"@) ==> differ_behind(
            vt_state_line(a),
            vt_state_line(b),
            " data="@,
            shown_text(a.field("data"@), ""@),
            shown_text(b.field("data"@), ""@),
        ),
{
    lemma_vt_state_line_cols(a, b);
    lemma_vt_state_line_rows(a, b);
    lemma_vt_state_line_data(a, b);
}

#[verifier::spinoff_prover]
proof fn lemma_vt_state_line_cols(a: JsonV, b: JsonV)
    ensures
        same_but(a, b, "cols"@) ==> differ_behind(
            vt_state_line(a),
            vt_state_line(b),
            "cols="@,
            shown_number(a.field("cols"@)),
            shown_number(b.field("cols"@)),
        ),
{
    reveal_strlit("cols");
    assert("cols"@.len() == 4 && "cols"@[0] == 'c' && "cols"@[1] == 'o' && "cols"@[3] == 's');
    reveal_strlit("rows");
    assert("rows"@.len() == 4 && "rows"@[0] == 'r' && "rows"@[1] == 'o' && "rows"@[3] == 's');
    reveal_strlit("data");
    assert("data"@.len() == 4 && "data"@[0] == 'd' && "data"@[1] == 'a' && "data"@[3] == 'a');
    if same_but(a, b, "cols"@) {
        let front = Seq::<char>::empty();
        let label = "cols="@;
        let u = shown_number(a.field("cols"@));
        let v = shown_number(b.field("cols"@));
        let t0 = " rows="@;
        let t1 = shown_number(a.field("rows"@));
        let t2 = " data="@;
        let t3 = shown_text(a.field("data"@), ""@);
        let t4 = "\n"@;
        let back = t0 + t1 + t2 + t3 + t4;
        lemma_nothing_before(label);
        lemma_add(front + label + u, t0, t1);
        lemma_add(front + label + u, t0 + t1, t2);
        lemma_add(front + label + u, t0 + t1 + t2, t3);
        lemma_add(front + label + u, t0 + t1 + t2 + t3, t4);
        lemma_nothing_before(label);
        lemma_add(front + label + v, t0, t1);
        lemma_add(front + label + v, t0 + t1, t2);
        lemma_add(front + label + v, t0 + t1 + t2, t3);
        lemma_add(front + label + v, t0 + t1 + t2 + t3, t4);
        assert(vt_state_line(a) == front + label + u + back);
        assert(vt_state_line(b) == front + label + v + back);
        lemma_differ_behind(front, label, u, v, back);
    }
}

#[verifier::spinoff_prover]
proof fn lemma_vt_state_line_rows(a: JsonV, b: JsonV)
    ensures
        same_but(a, b, "rows"@) ==> differ_behind(
            vt_state_line(a),
            vt_state_line(b),
            " rows="@,
            shown_number(a.field("rows"@)),
            shown_number(b.field("rows"@)),
        ),
{
    reveal_strlit("cols");
    assert("cols"@.len() == 4 && "cols"@[0] == 'c' && "cols"@[1] == 'o' && "cols"@[3] == 's');
    reveal_strlit("rows");
    assert("rows"@.len() == 4 && "rows"@[0] == 'r' && "rows"@[1] == 'o' && "rows"@[3] == 's');
    reveal_strlit("data");
    assert("data"@.len() == 4 && "data"@[0] == 'd' && "data"@[1] == 'a' && "data"@[3] == 'a');
    if same_but(a, b, "rows"@) {
        let front = "cols="@ + shown_number(a.field("cols"@));
        let label = " rows="@;
        let u = shown_number(a.field("rows"@));
        let v = shown_number(b.field("rows"@));
        let t0 = " data="@;
        let t1 = shown_text(a.field("data"@), ""@);
        let t2 = "\n"@;
        let back = t0 + t1 + t2;
        lemma_add(front + label + u, t0, t1);
        lemma_add(front + label + u, t0 + t1, t2);
        lemma_add(front + label + v, t0, t1);
        lemma_add(front + label + v, t0 + t1, t2);
        assert(vt_state_line(a) == front + label + u + back);
        assert(vt_state_line(b) == front + label + v + back);
        lemma_differ_behind(front, label, u, v, back);
    }
}

#[verifier::spinoff_prover]
proof fn lemma_vt_state_line_data(a: JsonV, b: JsonV)
    ensures
        same_but(a, b, "data"@) ==> differ_behind(
            vt_state_line(a),
            vt_state_line(b),
            " data="@,
            shown_text(a.field("data"@), ""@),
            shown_text(b.field("data"@), ""@),
        ),
{
    reveal_strlit("cols");
    assert("cols"@.len() == 4 && "cols"@[0] == 'c' && "cols"@[1] == 'o' && "cols"@[3] == 's');
    reveal_strlit("rows");
    assert("rows"@.len() == 4 && "rows"@[0] == 'r' && "rows"@[1] == 'o' && "rows"@[3] == 's');
    reveal_strlit("data");
    assert("data"@.len() == 4 && "data"@[0] == 'd' && "data"@[1] == 'a' && "data"@[3] == 'a');
    if same_but(a, b, "data"@) {
        let front = "cols="@ + shown_number(a.field("cols"@)) + " rows="@ + shown_number(a.field("rows"@));
        let label = " data="@;
        let u = shown_text(a.field("data"@), ""@);
        let v = shown_text(b.field("data"@), ""@);
        let t0 = "\n"@;
        let back = t0;
        assert(vt_state_line(a) == front + label + u + back);
        assert(vt_state_line(b) == front + label + v + back);
        lemma_differ_behind(front, label, u, v, back);
    }
}

/// In the line of a pane, what stands behind a label is the field of that name: two of them that
/// differ in one field only have lines that differ behind its label only, where each shows its own.
pub proof fn law_pane_line(a: JsonV, b: JsonV, screen: u64)
    requires
        a.field("dead"@) != Some(JsonV::Bool(true)),
        b.field("dead"@) != Some(JsonV::Bool(true)),
    ensures
        same_but(a, b, "name"@) ==> differ_behind(
            pane_text(a, screen),
            pane_text(b, screen),
            " name="@,
            shown_atom(a.field("name"@)),
            shown_atom(b.field("name"@)),
        ),
        same_but(a, b, "active_tab"@) ==> differ_behind(
            pane_text(a, screen),
            pane_text(b, screen),
            " active_tab="@,
            shown_number(a.field("active_tab"@)),
            shown_number(b.field("active_tab"@)),
        ),
{
    lemma_pane_line_name(a, b, screen);
    lemma_pane_line_active_tab(a, b, screen);
}

#[verifier::spinoff_prover]
proof fn lemma_pane_line_name(a: JsonV, b: JsonV, screen: u64)
    requires
        a.field("dead"@) != Some(JsonV::Bool(true)),
        b.field("dead"@) != Some(JsonV::Bool(true)),
    ensures
        same_but(a, b, "name"@) ==> differ_behind(
            pane_text(a, screen),
            pane_text(b, screen),
            " name="@,
            shown_atom(a.field("name"@)),
            shown_atom(b.field("name"@)),
        ),
{
    reveal_strlit("name");
    assert("name"@.len() == 4 && "name"@[0] == 'n' && "name"@[1] == 'a' && "name"@[3] == 'e');
    reveal_strlit("active_tab");
    assert("active_tab"@.len() == 10 && "active_tab"@[0] == 'a' && "active_tab"@[1] == 'c' && "active_tab"@[9] == 'b');
    reveal_strlit("id");
    assert("id"@.len() == 2 && "id"@[0] == 'i' && "id"@[1] == 'd' && "id"@[1] == 'd');
    reveal_strlit("dead");
    assert("dead"@.len() == 4 && "dead"@[0] == 'd' && "dead"@[1] == 'e' && "dead"@[3] == 'd');
    reveal_strlit("tabs");
    assert("tabs"@.len() == 4 && "tabs"@[0] == 't' && "tabs"@[1] == 'a' && "tabs"@[3] == 's');
    if same_but(a, b, "name"@) {
        let front = "pane id="@ + shown_number(a.field("id"@)) + " screen="@ + decimal(screen as nat);
        let label = " name="@;
        let u = shown_atom(a.field("name"@));
        let v = shown_atom(b.field("name"@));
        let t0 = " active_tab="@;
        let t1 = shown_number(a.field("active_tab"@));
        let t2 = "\n"@;
        let t3 = (match a.field_items("tabs"@) { Some(items) => tab_lines(items, id_of(a, "id"@)), None => seq![] });
        let back = t0 + t1 + t2 + t3;
        lemma_add(front + label + u, t0, t1);
        lemma_add(front + label + u, t0 + t1, t2);
        lemma_add(front + label + u, t0 + t1 + t2, t3);
        lemma_add(front + label + v, t0, t1);
        lemma_add(front + label + v, t0 + t1, t2);
        lemma_add(front + label + v, t0 + t1 + t2, t3);
        assert(pane_text(a, screen) == front + label + u + back);
        assert(pane_text(b, screen) == front + label + v + back);
        lemma_differ_behind(front, label, u, v, back);
    }
}

#[verifier::spinoff_prover]
proof fn lemma_pane_line_active_tab(a: JsonV, b: JsonV, screen: u64)
    requires
        a.field("dead"@) != Some(JsonV::Bool(true)),
        b.field("dead"@) != Some(JsonV::Bool(true)),
    ensures
        same_but(a, b, "active_tab"@) ==> differ_behind(
            pane_text(a, screen),
            pane_text(b, screen),
            " active_tab="@,
            shown_number(a.field("active_tab"@)),
            shown_number(b.field("active_tab"@)),
        ),
{
    reveal_strlit("name");
    assert("name"@.len() == 4 && "name"@[0] == 'n' && "name"@[1] == 'a' && "name"@[3] == 'e');
    reveal_strlit("active_tab");
    assert("active_tab"@.len() == 10 && "active_tab"@[0] == 'a' && "active_tab"@[1] == 'c' && "active_tab"@[9] == 'b');
    reveal_strlit("id");
    assert("id"@.len() == 2 && "id"@[0] == 'i' && "id"@[1] == 'd' && "id"@[1] == 'd');
    reveal_strlit("dead");
    assert("dead"@.len() == 4 && "dead"@[0] == 'd' && "dead"@[1] == 'e' && "dead"@[3] == 'd');
    reveal_strlit("tabs");
    assert("tabs"@.len() == 4 && "tabs"@[0] == 't' && "tabs"@[1] == 'a' && "tabs"@[3] == 's');
    if same_but(a, b, "active_tab"@) {
        let front = "pane id="@ + shown_number(a.field("id"@)) + " screen="@ + decimal(screen as nat) + " name="@ + shown_atom(a.field("name"@));
        let label = " active_tab="@;
        let u = shown_number(a.field("active_tab"@));
        let v = shown_number(b.field("active_tab"@));
        let t0 = "\n"@;
        let t1 = (match a.field_items("tabs"@) { Some(items) => tab_lines(items, id_of(a, "id"@)), None => seq![] });
        let back = t0 + t1;
        lemma_add(front + label + u, t0, t1);
        lemma_add(front + label + v, t0, t1);
        assert(pane_text(a, screen) == front + label + u + back);
        assert(pane_text(b, screen) == front + label + v + back);
        lemma_differ_behind(front, label, u, v, back);
    }
}

/// In the line of a screen, what stands behind a label is the field of that name: two of them that
/// differ in one field only have lines that differ behind its label only, where each shows its own.
pub proof fn law_screen_line(a: JsonV, b: JsonV, workspace: u64)
    ensures
        same_but(a, b, "name"@) ==> differ_behind(
            screen_text(a, workspace),
            screen_text(b, workspace),
            " name="@,
            shown_atom(a.field("name"@)),
            shown_atom(b.field("name"@)),
        ),
        same_but(a, b, "active"@) ==> differ_behind(
            screen_text(a, workspace),
            screen_text(b, workspace),
            " active="@,
            shown_flag(a.field("active"@)),
            shown_flag(b.field("active"@)),
        ),
        same_but(a, b, "active_pane"@) ==> differ_behind(
            screen_text(a, workspace),
            screen_text(b, workspace),
            " active_pane="@,
            shown_number(a.field("active_pane"@)),
            shown_number(b.field("active_pane"@)),
        ),
{
    lemma_screen_line_name(a, b, workspace);
    lemma_screen_line_active(a, b, workspace);
    lemma_screen_line_active_pane(a, b, workspace);
}

#[verifier::spinoff_prover]
proof fn lemma_screen_line_name(a: JsonV, b: JsonV, workspace: u64)
    ensures
        same_but(a, b, "name"@) ==> differ_behind(
            screen_text(a, workspace),
            screen_text(b, workspace),
            " name="@,
            shown_atom(a.field("name"@)),
            shown_atom(b.field("name"@)),
        ),
{
    reveal_strlit("name");
    assert("name"@.len() == 4 && "name"@[0] == 'n' && "name"@[1] == 'a' && "name"@[3] == 'e');
    reveal_strlit("active");
    assert("active"@.len() == 6 && "active"@[0] == 'a' && "active"@[1] == 'c' && "active"@[5] == 'e');
    reveal_strlit("active_pane");
    assert("active_pane"@.len() == 11 && "active_pane"@[0] == 'a' && "active_pane"@[1] == 'c' && "active_pane"@[10] == 'e');
    reveal_strlit("id");
    assert("id"@.len() == 2 && "id"@[0] == 'i' && "id"@[1] == 'd' && "id"@[1] == 'd');
    reveal_strlit("panes");
    assert("panes"@.len() == 5 && "panes"@[0] == 'p' && "panes"@[1] == 'a' && "panes"@[4] == 's');
    if same_but(a, b, "name"@) {
        let front = "screen id="@ + shown_number(a.field("id"@)) + " workspace="@ + decimal(workspace as nat);
        let label = " name="@;
        let u = shown_atom(a.field("name"@));
        let v = shown_atom(b.field("name"@));
        let t0 = " active="@;
        let t1 = shown_flag(a.field("active"@));
        let t2 = " active_pane="@;
        let t3 = shown_number(a.field("active_pane"@));
        let t4 = "\n"@;
        let t5 = (match a.field_items("panes"@) { Some(items) => pane_texts(items, id_of(a, "id"@)), None => seq![] });
        let back = t0 + t1 + t2 + t3 + t4 + t5;
        lemma_add(front + label + u, t0, t1);
        lemma_add(front + label + u, t0 + t1, t2);
        lemma_add(front + label + u, t0 + t1 + t2, t3);
        lemma_add(front + label + u, t0 + t1 + t2 + t3, t4);
        lemma_add(front + label + u, t0 + t1 + t2 + t3 + t4, t5);
        lemma_add(front + label + v, t0, t1);
        lemma_add(front + label + v, t0 + t1, t2);
        lemma_add(front + label + v, t0 + t1 + t2, t3);
        lemma_add(front + label + v, t0 + t1 + t2 + t3, t4);
        lemma_add(front + label + v, t0 + t1 + t2 + t3 + t4, t5);
        assert(screen_text(a, workspace) == front + label + u + back);
        assert(screen_text(b, workspace) == front + label + v + back);
        lemma_differ_behind(front, label, u, v, back);
    }
}

#[verifier::spinoff_prover]
proof fn lemma_screen_line_active(a: JsonV, b: JsonV, workspace: u64)
    ensures
        same_but(a, b, "active"@) ==> differ_behind(
            screen_text(a, workspace),
            screen_text(b, workspace),
            " active="@,
            shown_flag(a.field("active"@)),
            shown_flag(b.field("active"@)),
        ),
{
    reveal_strlit("name");
    assert("name"@.len() == 4 && "name"@[0] == 'n' && "name"@[1] == 'a' && "name"@[3] == 'e');
    reveal_strlit("active");
    assert("active"@.len() == 6 && "active"@[0] == 'a' && "active"@[1] == 'c' && "active"@[5] == 'e');
    reveal_strlit("active_pane");
    assert("active_pane"@.len() == 11 && "active_pane"@[0] == 'a' && "active_pane"@[1] == 'c' && "active_pane"@[10] == 'e');
    reveal_strlit("id");
    assert("id"@.len() == 2 && "id"@[0] == 'i' && "id"@[1] == 'd' && "id"@[1] == 'd');
    reveal_strlit("panes");
    assert("panes"@.len() == 5 && "panes"@[0] == 'p' && "panes"@[1] == 'a' && "panes"@[4] == 's');
    if same_but(a, b, "active"@) {
        let front = "screen id="@ + shown_number(a.field("id"@)) + " workspace="@ + decimal(workspace as nat) + " name="@ + shown_atom(a.field("name"@));
        let label = " active="@;
        let u = shown_flag(a.field("active"@));
        let v = shown_flag(b.field("active"@));
        let t0 = " active_pane="@;
        let t1 = shown_number(a.field("active_pane"@));
        let t2 = "\n"@;
        let t3 = (match a.field_items("panes"@) { Some(items) => pane_texts(items, id_of(a, "id"@)), None => seq![] });
        let back = t0 + t1 + t2 + t3;
        lemma_add(front + label + u, t0, t1);
        lemma_add(front + label + u, t0 + t1, t2);
        lemma_add(front + label + u, t0 + t1 + t2, t3);
        lemma_add(front + label + v, t0, t1);
        lemma_add(front + label + v, t0 + t1, t2);
        lemma_add(front + label + v, t0 + t1 + t2, t3);
        assert(screen_text(a, workspace) == front + label + u + back);
        assert(screen_text(b, workspace) == front + label + v + back);
        lemma_differ_behind(front, label, u, v, back);
    }
}

#[verifier::spinoff_prover]
proof fn lemma_screen_line_active_pane(a: JsonV, b: JsonV, workspace: u64)
    ensures
        same_but(a, b, "active_pane"@) ==> differ_behind(
            screen_text(a, workspace),
            screen_text(b, workspace),
            " active_pane="@,
            shown_number(a.field("active_pane"@)),
            shown_number(b.field("active_pane"@)),
        ),
{
    reveal_strlit("name");
    assert("name"@.len() == 4 && "name"@[0] == 'n' && "name"@[1] == 'a' && "name"@[3] == 'e');
    reveal_strlit("active");
    assert("active"@.len() == 6 && "active"@[0] == 'a' && "active"@[1] == 'c' && "active"@[5] == 'e');
    reveal_strlit("active_pane");
    assert("active_pane"@.len() == 11 && "active_pane"@[0] == 'a' && "active_pane"@[1] == 'c' && "active_pane"@[10] == 'e');
    reveal_strlit("id");
    assert("id"@.len() == 2 && "id"@[0] == 'i' && "id"@[1] == 'd' && "id"@[1] == 'd');
    reveal_strlit("panes");
    assert("panes"@.len() == 5 && "panes"@[0] == 'p' && "panes"@[1] == 'a' && "panes"@[4] == 's');
    if same_but(a, b, "active_pane"@) {
        let front = "screen id="@ + shown_number(a.field("id"@)) + " workspace="@ + decimal(workspace as nat) + " name="@ + shown_atom(a.field("name"@)) + " active="@ + shown_flag(a.field("active"@));
        let label = " active_pane="@;
        let u = shown_number(a.field("active_pane"@));
        let v = shown_number(b.field("active_pane"@));
        let t0 = "\n"@;
        let t1 = (match a.field_items("panes"@) { Some(items) => pane_texts(items, id_of(a, "id"@)), None => seq![] });
        let back = t0 + t1;
        lemma_add(front + label + u, t0, t1);
        lemma_add(front + label + v, t0, t1);
        assert(screen_text(a, workspace) == front + label + u + back);
        assert(screen_text(b, workspace) == front + label + v + back);
        lemma_differ_behind(front, label, u, v, back);
    }
}

/// In the line of a workspace, what stands behind a label is the field of that name: two of them that
/// differ in one field only have lines that differ behind its label only, where each shows its own.
pub proof fn law_workspace_line(a: JsonV, b: JsonV)
    ensures
        same_but(a, b, "name"@) ==> differ_behind(
            workspace_text(a),
            workspace_text(b),
            " name="@,
            shown_atom(a.field("name"@)),
            shown_atom(b.field("name"@)),
        ),
        same_but(a, b, "color"@) ==> differ_behind(
            workspace_text(a),
            workspace_text(b),
            " color="@,
            shown_atom(a.field("color"@)),
            shown_atom(b.field("color"@)),
        ),
        same_but(a, b, "active"@) ==> differ_behind(
            workspace_text(a),
            workspace_text(b),
            " active="@,
            shown_flag(a.field("active"@)),
            shown_flag(b.field("active"@)),
        ),
{
    lemma_workspace_line_name(a, b);
    lemma_workspace_line_color(a, b);
    lemma_workspace_line_active(a, b);
}

#[verifier::spinoff_prover]
proof fn lemma_workspace_line_name(a: JsonV, b: JsonV)
    ensures
        same_but(a, b, "name"@) ==> differ_behind(
            workspace_text(a),
            workspace_text(b),
            " name="@,
            shown_atom(a.field("name"@)),
            shown_atom(b.field("name"@)),
        ),
{
    reveal_strlit("name");
    assert("name"@.len() == 4 && "name"@[0] == 'n' && "name"@[1] == 'a' && "name"@[3] == 'e');
    reveal_strlit("color");
    assert("color"@.len() == 5 && "color"@[0] == 'c' && "color"@[1] == 'o' && "color"@[4] == 'r');
    reveal_strlit("active");
    assert("active"@.len() == 6 && "active"@[0] == 'a' && "active"@[1] == 'c' && "active"@[5] == 'e');
    reveal_strlit("id");
    assert("id"@.len() == 2 && "id"@[0] == 'i' && "id"@[1] == 'd' && "id"@[1] == 'd');
    reveal_strlit("screens");
    assert("screens"@.len() == 7 && "screens"@[0] == 's' && "screens"@[1] == 'c' && "screens"@[6] == 's');
    if same_but(a, b, "name"@) {
        let front = "workspace id="@ + shown_number(a.field("id"@));
        let label = " name="@;
        let u = shown_atom(a.field("name"@));
        let v = shown_atom(b.field("name"@));
        let t0 = " color="@;
        let t1 = shown_atom(a.field("color"@));
        let t2 = " active="@;
        let t3 = shown_flag(a.field("active"@));
        let t4 = "\n"@;
        let t5 = (match a.field_items("screens"@) { Some(items) => screen_texts(items, id_of(a, "id"@)), None => seq![] });
        let back = t0 + t1 + t2 + t3 + t4 + t5;
        lemma_add(front + label + u, t0, t1);
        lemma_add(front + label + u, t0 + t1, t2);
        lemma_add(front + label + u, t0 + t1 + t2, t3);
        lemma_add(front + label + u, t0 + t1 + t2 + t3, t4);
        lemma_add(front + label + u, t0 + t1 + t2 + t3 + t4, t5);
        lemma_add(front + label + v, t0, t1);
        lemma_add(front + label + v, t0 + t1, t2);
        lemma_add(front + label + v, t0 + t1 + t2, t3);
        lemma_add(front + label + v, t0 + t1 + t2 + t3, t4);
        lemma_add(front + label + v, t0 + t1 + t2 + t3 + t4, t5);
        assert(workspace_text(a) == front + label + u + back);
        assert(workspace_text(b) == front + label + v + back);
        lemma_differ_behind(front, label, u, v, back);
    }
}

#[verifier::spinoff_prover]
proof fn lemma_workspace_line_color(a: JsonV, b: JsonV)
    ensures
        same_but(a, b, "color"@) ==> differ_behind(
            workspace_text(a),
            workspace_text(b),
            " color="@,
            shown_atom(a.field("color"@)),
            shown_atom(b.field("color"@)),
        ),
{
    reveal_strlit("name");
    assert("name"@.len() == 4 && "name"@[0] == 'n' && "name"@[1] == 'a' && "name"@[3] == 'e');
    reveal_strlit("color");
    assert("color"@.len() == 5 && "color"@[0] == 'c' && "color"@[1] == 'o' && "color"@[4] == 'r');
    reveal_strlit("active");
    assert("active"@.len() == 6 && "active"@[0] == 'a' && "active"@[1] == 'c' && "active"@[5] == 'e');
    reveal_strlit("id");
    assert("id"@.len() == 2 && "id"@[0] == 'i' && "id"@[1] == 'd' && "id"@[1] == 'd');
    reveal_strlit("screens");
    assert("screens"@.len() == 7 && "screens"@[0] == 's' && "screens"@[1] == 'c' && "screens"@[6] == 's');
    if same_but(a, b, "color"@) {
        let front = "workspace id="@ + shown_number(a.field("id"@)) + " name="@ + shown_atom(a.field("name"@));
        let label = " color="@;
        let u = shown_atom(a.field("color"@));
        let v = shown_atom(b.field("color"@));
        let t0 = " active="@;
        let t1 = shown_flag(a.field("active"@));
        let t2 = "\n"@;
        let t3 = (match a.field_items("screens"@) { Some(items) => screen_texts(items, id_of(a, "id"@)), None => seq![] });
        let back = t0 + t1 + t2 + t3;
        lemma_add(front + label + u, t0, t1);
        lemma_add(front + label + u, t0 + t1, t2);
        lemma_add(front + label + u, t0 + t1 + t2, t3);
        lemma_add(front + label + v, t0, t1);
        lemma_add(front + label + v, t0 + t1, t2);
        lemma_add(front + label + v, t0 + t1 + t2, t3);
        assert(workspace_text(a) == front + label + u + back);
        assert(workspace_text(b) == front + label + v + back);
        lemma_differ_behind(front, label, u, v, back);
    }
}

#[verifier::spinoff_prover]
proof fn lemma_workspace_line_active(a: JsonV, b: JsonV)
    ensures
        same_but(a, b, "active"@) ==> differ_behind(
            workspace_text(a),
            workspace_text(b),
            " active="@,
            shown_flag(a.field("active"@)),
            shown_flag(b.field("active"@)),
        ),
{
    reveal_strlit("name");
    assert("name"@.len() == 4 && "name"@[0] == 'n' && "name"@[1] == 'a' && "name"@[3] == 'e');
    reveal_strlit("color");
    assert("color"@.len() == 5 && "color"@[0] == 'c' && "color"@[1] == 'o' && "color"@[4] == 'r');
    reveal_strlit("active");
    assert("active"@.len() == 6 && "active"@[0] == 'a' && "active"@[1] == 'c' && "active"@[5] == 'e');
    reveal_strlit("id");
    assert("id"@.len() == 2 && "id"@[0] == 'i' && "id"@[1] == 'd' && "id"@[1] == 'd');
    reveal_strlit("screens");
    assert("screens"@.len() == 7 && "screens"@[0] == 's' && "screens"@[1] == 'c' && "screens"@[6] == 's');
    if same_but(a, b, "active"@) {
        let front = "workspace id="@ + shown_number(a.field("id"@)) + " name="@ + shown_atom(a.field("name"@)) + " color="@ + shown_atom(a.field("color"@));
        let label = " active="@;
        let u = shown_flag(a.field("active"@));
        let v = shown_flag(b.field("active"@));
        let t0 = "\n"@;
        let t1 = (match a.field_items("screens"@) { Some(items) => screen_texts(items, id_of(a, "id"@)), None => seq![] });
        let back = t0 + t1;
        lemma_add(front + label + u, t0, t1);
        lemma_add(front + label + v, t0, t1);
        assert(workspace_text(a) == front + label + u + back);
        assert(workspace_text(b) == front + label + v + back);
        lemma_differ_behind(front, label, u, v, back);
    }
}

/// What stands at the start and at the end of the lines of the tree: the numbers of the thing and
/// of what it is in, and the size of a tab; a dead pane is said to be dead. The lines of what is in
/// a thing follow its own, and name it.
pub proof fn law_tree_lines(x: JsonV, up: u64, items: Seq<JsonV>)
    ensures
        ("tab surface="@ + shown_number(x.field("surface"@)) + " pane="@ + decimal(up as nat)
            + " kind="@).is_prefix_of(tab_line(x, up)),
        (" cols="@ + shown_part(x.field("size"@), "cols"@) + " rows="@ + shown_part(
            x.field("size"@),
            "rows"@,
        ) + "\n"@).is_suffix_of(tab_line(x, up)),
        ("pane id="@ + shown_number(x.field("id"@)) + " screen="@ + decimal(up as nat)).is_prefix_of(
            pane_text(x, up),
        ),
        x.field("dead"@) == Some(JsonV::Bool(true)) ==> pane_text(x, up) == "pane id="@
            + shown_number(x.field("id"@)) + " screen="@ + decimal(up as nat) + " dead=true\n"@,
        ("screen id="@ + shown_number(x.field("id"@)) + " workspace="@ + decimal(
            up as nat,
        )).is_prefix_of(screen_text(x, up)),
        ("workspace id="@ + shown_number(x.field("id"@))).is_prefix_of(workspace_text(x)),
        x.field("screens"@) == Some(JsonV::List(items)) ==> screen_texts(
            items,
            id_of(x, "id"@),
        ).is_suffix_of(workspace_text(x)),
        x.field("panes"@) == Some(JsonV::List(items)) ==> pane_texts(
            items,
            id_of(x, "id"@),
        ).is_suffix_of(screen_text(x, up)),
        x.field("tabs"@) == Some(JsonV::List(items)) && x.field("dead"@) != Some(
            JsonV::Bool(true),
        ) ==> tab_lines(items, id_of(x, "id"@)).is_suffix_of(pane_text(x, up)),
        x.field("id"@) == Some(crate::json::unsigned(up)) ==> id_of(x, "id"@) == up,
{
    lemma_tab_ends(x, up);
    if flag_of(x, "dead"@) {
        let p = "pane id="@ + decimal(id_of(x, "id"@) as nat) + " screen="@ + decimal(up as nat);
        lemma_starts(p, p);
        lemma_starts_longer(p, p, " dead=true\n"@);
    } else {
        lemma_pane_ends(x, up);
    }
    lemma_screen_ends(x, up);
    lemma_workspace_ends(x);
}

proof fn lemma_starts(p: Seq<char>, t: Seq<char>)
    requires
        p == t,
    ensures
        p.is_prefix_of(t),
{
    assert(t.subrange(0, p.len() as int) =~= p);
}

proof fn lemma_starts_longer(p: Seq<char>, t: Seq<char>, more: Seq<char>)
    requires
        p.is_prefix_of(t),
    ensures
        p.is_prefix_of(t + more),
{
    assert((t + more).subrange(0, p.len() as int) =~= p);
}

proof fn lemma_ends(t: Seq<char>, e: Seq<char>)
    ensures
        e.is_suffix_of(t + e),
{
    assert((t + e).skip(t.len() as int) =~= e);
}

#[verifier::spinoff_prover]
proof fn lemma_tab_ends(x: JsonV, up: u64)
    ensures
        ("tab surface="@ + decimal(id_of(x, "surface"@) as nat) + " pane="@ + decimal(up as nat) + " kind="@).is_prefix_of(tab_line(x, up)),
        (" cols="@ + decimal(size_part(x, "cols"@) as nat) + " rows="@ + decimal(size_part(x, "rows"@) as nat) + "\n"@).is_suffix_of(tab_line(x, up)),
{
    let s0 = "tab surface="@ + decimal(id_of(x, "surface"@) as nat) + " pane="@ + decimal(up as nat) + " kind="@;
    lemma_starts(s0, s0);
    let s1 = s0 + text_or(x, "kind"@, ""@);
    lemma_starts_longer(s0, s0, text_or(x, "kind"@, ""@));
    let s2 = s1 + " browser_source="@;
    lemma_starts_longer(s0, s1, " browser_source="@);
    let s3 = s2 + atom_of(x, "browser_source"@);
    lemma_starts_longer(s0, s2, atom_of(x, "browser_source"@));
    let s4 = s3 + " name="@;
    lemma_starts_longer(s0, s3, " name="@);
    let s5 = s4 + atom_of(x, "name"@);
    lemma_starts_longer(s0, s4, atom_of(x, "name"@));
    let s6 = s5 + " title="@;
    lemma_starts_longer(s0, s5, " title="@);
    let s7 = s6 + atom_of(x, "title"@);
    lemma_starts_longer(s0, s6, atom_of(x, "title"@));
    let s8 = s7 + " dead="@;
    lemma_starts_longer(s0, s7, " dead="@);
    let s9 = s8 + bool_text(flag_of(x, "dead"@));
    lemma_starts_longer(s0, s8, bool_text(flag_of(x, "dead"@)));
    let s10 = s9 + " cols="@;
    lemma_starts_longer(s0, s9, " cols="@);
    let s11 = s10 + decimal(size_part(x, "cols"@) as nat);
    lemma_starts_longer(s0, s10, decimal(size_part(x, "cols"@) as nat));
    let s12 = s11 + " rows="@;
    lemma_starts_longer(s0, s11, " rows="@);
    let s13 = s12 + decimal(size_part(x, "rows"@) as nat);
    lemma_starts_longer(s0, s12, decimal(size_part(x, "rows"@) as nat));
    let s14 = s13 + "\n"@;
    lemma_starts_longer(s0, s13, "\n"@);
    lemma_add(s9, " cols="@, decimal(size_part(x, "cols"@) as nat));
    lemma_add(s9, " cols="@ + decimal(size_part(x, "cols"@) as nat), " rows="@);
    lemma_add(s9, " cols="@ + decimal(size_part(x, "cols"@) as nat) + " rows="@, decimal(size_part(x, "rows"@) as nat));
    lemma_add(s9, " cols="@ + decimal(size_part(x, "cols"@) as nat) + " rows="@ + decimal(size_part(x, "rows"@) as nat), "\n"@);
    lemma_ends(s9, " cols="@ + decimal(size_part(x, "cols"@) as nat) + " rows="@ + decimal(size_part(x, "rows"@) as nat) + "\n"@);
    assert(tab_line(x, up) == s9 + (" cols="@ + decimal(size_part(x, "cols"@) as nat) + " rows="@ + decimal(size_part(x, "rows"@) as nat) + "\n"@));
}

#[verifier::spinoff_prover]
proof fn lemma_pane_ends(x: JsonV, up: u64)
    requires
        !flag_of(x, "dead"@),
    ensures
        ("pane id="@ + decimal(id_of(x, "id"@) as nat) + " screen="@ + decimal(up as nat)).is_prefix_of(pane_text(x, up)),
        (match x.field_items("tabs"@) { Some(items) => tab_lines(items, id_of(x, "id"@)), None => seq![] }).is_suffix_of(pane_text(x, up)),
{
    let s0 = "pane id="@ + decimal(id_of(x, "id"@) as nat) + " screen="@ + decimal(up as nat);
    lemma_starts(s0, s0);
    let s1 = s0 + " name="@;
    lemma_starts_longer(s0, s0, " name="@);
    let s2 = s1 + atom_of(x, "name"@);
    lemma_starts_longer(s0, s1, atom_of(x, "name"@));
    let s3 = s2 + " active_tab="@;
    lemma_starts_longer(s0, s2, " active_tab="@);
    let s4 = s3 + decimal(id_of(x, "active_tab"@) as nat);
    lemma_starts_longer(s0, s3, decimal(id_of(x, "active_tab"@) as nat));
    let s5 = s4 + "\n"@;
    lemma_starts_longer(s0, s4, "\n"@);
    let s6 = s5 + (match x.field_items("tabs"@) { Some(items) => tab_lines(items, id_of(x, "id"@)), None => seq![] });
    lemma_starts_longer(s0, s5, (match x.field_items("tabs"@) { Some(items) => tab_lines(items, id_of(x, "id"@)), None => seq![] }));
    lemma_ends(s5, (match x.field_items("tabs"@) { Some(items) => tab_lines(items, id_of(x, "id"@)), None => seq![] }));
    assert(pane_text(x, up) == s6);
}

#[verifier::spinoff_prover]
proof fn lemma_screen_ends(x: JsonV, up: u64)
    ensures
        ("screen id="@ + decimal(id_of(x, "id"@) as nat) + " workspace="@ + decimal(up as nat)).is_prefix_of(screen_text(x, up)),
        (match x.field_items("panes"@) { Some(items) => pane_texts(items, id_of(x, "id"@)), None => seq![] }).is_suffix_of(screen_text(x, up)),
{
    let s0 = "screen id="@ + decimal(id_of(x, "id"@) as nat) + " workspace="@ + decimal(up as nat);
    lemma_starts(s0, s0);
    let s1 = s0 + " name="@;
    lemma_starts_longer(s0, s0, " name="@);
    let s2 = s1 + atom_of(x, "name"@);
    lemma_starts_longer(s0, s1, atom_of(x, "name"@));
    let s3 = s2 + " active="@;
    lemma_starts_longer(s0, s2, " active="@);
    let s4 = s3 + bool_text(flag_of(x, "active"@));
    lemma_starts_longer(s0, s3, bool_text(flag_of(x, "active"@)));
    let s5 = s4 + " active_pane="@;
    lemma_starts_longer(s0, s4, " active_pane="@);
    let s6 = s5 + decimal(id_of(x, "active_pane"@) as nat);
    lemma_starts_longer(s0, s5, decimal(id_of(x, "active_pane"@) as nat));
    let s7 = s6 + "\n"@;
    lemma_starts_longer(s0, s6, "\n"@);
    let s8 = s7 + (match x.field_items("panes"@) { Some(items) => pane_texts(items, id_of(x, "id"@)), None => seq![] });
    lemma_starts_longer(s0, s7, (match x.field_items("panes"@) { Some(items) => pane_texts(items, id_of(x, "id"@)), None => seq![] }));
    lemma_ends(s7, (match x.field_items("panes"@) { Some(items) => pane_texts(items, id_of(x, "id"@)), None => seq![] }));
    assert(screen_text(x, up) == s8);
}

#[verifier::spinoff_prover]
proof fn lemma_workspace_ends(x: JsonV)
    ensures
        ("workspace id="@ + decimal(id_of(x, "id"@) as nat)).is_prefix_of(workspace_text(x)),
        (match x.field_items("screens"@) { Some(items) => screen_texts(items, id_of(x, "id"@)), None => seq![] }).is_suffix_of(workspace_text(x)),
{
    let s0 = "workspace id="@ + decimal(id_of(x, "id"@) as nat);
    lemma_starts(s0, s0);
    let s1 = s0 + " name="@;
    lemma_starts_longer(s0, s0, " name="@);
    let s2 = s1 + atom_of(x, "name"@);
    lemma_starts_longer(s0, s1, atom_of(x, "name"@));
    let s3 = s2 + " color="@;
    lemma_starts_longer(s0, s2, " color="@);
    let s4 = s3 + atom_of(x, "color"@);
    lemma_starts_longer(s0, s3, atom_of(x, "color"@));
    let s5 = s4 + " active="@;
    lemma_starts_longer(s0, s4, " active="@);
    let s6 = s5 + bool_text(flag_of(x, "active"@));
    lemma_starts_longer(s0, s5, bool_text(flag_of(x, "active"@)));
    let s7 = s6 + "\n"@;
    lemma_starts_longer(s0, s6, "\n"@);
    let s8 = s7 + (match x.field_items("screens"@) { Some(items) => screen_texts(items, id_of(x, "id"@)), None => seq![] });
    lemma_starts_longer(s0, s7, (match x.field_items("screens"@) { Some(items) => screen_texts(items, id_of(x, "id"@)), None => seq![] }));
    lemma_ends(s7, (match x.field_items("screens"@) { Some(items) => screen_texts(items, id_of(x, "id"@)), None => seq![] }));
    assert(workspace_text(x) == s8);
}

/// Things are printed one after the other, in the order of the answer.
pub proof fn law_printed_in_order(items: Seq<JsonV>, one: JsonV, up: u64)
    ensures
        tab_lines(items.push(one), up) == tab_lines(items, up) + tab_line(one, up),
        pane_texts(items.push(one), up) == pane_texts(items, up) + pane_text(one, up),
        screen_texts(items.push(one), up) == screen_texts(items, up) + screen_text(one, up),
        tree_text(items.push(one)) == tree_text(items) + workspace_text(one),
        agent_lines(items.push(one)) == agent_lines(items) + agent_line(one),
        pattern_lines(items.push(one)) == pattern_lines(items) + pattern_line(one),
        worktree_lines(items.push(one)) == worktree_lines(items) + worktree_line(one),
        tab_lines(seq![], up).len() == 0 && pane_texts(seq![], up).len() == 0,
        screen_texts(seq![], up).len() == 0 && tree_text(seq![]).len() == 0,
        agent_lines(seq![]).len() == 0 && pattern_lines(seq![]).len() == 0,
        worktree_lines(seq![]).len() == 0,
{
    assert(items.push(one).drop_last() =~= items);
}

/// A list of words on a line, with a blank between them.
pub open spec fn worded(words: Seq<Seq<char>>) -> Seq<char> {
    crate::text::joined(words, " "@) + "\n"@
}

/// The line of an agent, of a pattern, of a worktree and of a detected agent: its words, in this
/// order, each the field of its name or what stands for it.
pub proof fn law_lines_worded(x: JsonV)
    ensures
        ({
            let front = seq![
                shown_number(x.field("surface"@)),
                shown_text(x.field("state"@), "unknown"@),
                shown_text(x.field("source"@), "?"@),
                shown_text(x.field("session"@), "-"@),
            ];
            let named = x.field("agent"@) matches Some(JsonV::Text(_));
            let spoke = x.field("message"@) matches Some(JsonV::Text(_));
            &&& !named && !spoke ==> agent_line(x) == worded(front)
            &&& named || spoke ==> agent_line(x) == worded(
                front.push(shown_text(x.field("agent"@), "-"@)).push(
                    shown_text(x.field("message"@), "-"@),
                ),
            )
        }),
        pattern_line(x) == worded(
            seq![
                shown_text(x.field("name"@), "?"@),
                shown_text(x.field("kind"@), "?"@),
                shown_text(x.field("confidence"@), "?"@),
                shown_text(x.field("pattern"@), ""@),
            ],
        ),
        worktree_line(x) == worded(
            seq![
                shown_text(x.field("branch"@), "unknown"@),
                shown_text(x.field("path"@), "-"@),
                shown_text(x.field("label"@), "-"@),
            ],
        ),
        detected_line(x) == worded(
            seq![
                shown_number(x.field("surface"@)),
                shown_text(x.field("agent"@), "unknown"@),
                shown_text(x.field("confidence"@), "none"@),
                shown_text(x.field("evidence"@), ""@),
            ],
        ),
{
    let w = |k: Seq<char>, other: Seq<char>| shown_text(x.field(k), other);
    let four = seq![
        shown_number(x.field("surface"@)),
        w("state"@, "unknown"@),
        w("source"@, "?"@),
        w("session"@, "-"@),
    ];
    lemma_four(four);
    let agent = w("agent"@, "-"@);
    let message = w("message"@, "-"@);
    lemma_joined_push(four, agent);
    lemma_joined_push(four.push(agent), message);
    let pattern = seq![w("name"@, "?"@), w("kind"@, "?"@), w("confidence"@, "?"@), w("pattern"@, ""@)];
    lemma_four(pattern);
    let worktree = seq![w("branch"@, "unknown"@), w("path"@, "-"@), w("label"@, "-"@)];
    lemma_three(worktree);
    let detected = seq![
        shown_number(x.field("surface"@)),
        w("agent"@, "unknown"@),
        w("confidence"@, "none"@),
        w("evidence"@, ""@),
    ];
    lemma_four(detected);
}

proof fn lemma_joined_push(words: Seq<Seq<char>>, word: Seq<char>)
    requires
        words.len() > 0,
    ensures
        crate::text::joined(words.push(word), " "@) == crate::text::joined(words, " "@) + " "@ + word,
{
    assert(words.push(word).drop_last() =~= words);
}

proof fn lemma_three(words: Seq<Seq<char>>)
    requires
        words.len() == 3,
    ensures
        crate::text::joined(words, " "@) == words[0] + " "@ + words[1] + " "@ + words[2],
{
    let one = seq![words[0]];
    assert(crate::text::joined(one, " "@) =~= words[0]);
    lemma_joined_push(one, words[1]);
    lemma_joined_push(one.push(words[1]), words[2]);
    assert(one.push(words[1]).push(words[2]) =~= words);
}

proof fn lemma_four(words: Seq<Seq<char>>)
    requires
        words.len() == 4,
    ensures
        crate::text::joined(words, " "@) == words[0] + " "@ + words[1] + " "@ + words[2] + " "@
            + words[3],
{
    lemma_three(words.drop_last());
    lemma_joined_push(words.drop_last(), words[3]);
    assert(words.drop_last().push(words[3]) =~= words);
}

/// What a verb prints of an answer: the screen's text as it is, the number of the surface that was
/// made, the path of the worktree, the whole configuration, a line for each item of the list that
/// was asked for; nothing where there is nothing to show.
pub proof fn law_answer_printed(data: JsonV, out: Seq<char>, items: Seq<JsonV>)
    ensures
        shows(Verb::ReadScreen, data, out) || shows(Verb::AgentRead, data, out) ==> out
            == shown_text(data.field("text"@), ""@),
        shows(Verb::NewTab, data, out) || shows(Verb::NewBrowserTab, data, out) || shows(
            Verb::NewWorkspace,
            data,
            out,
        ) || shows(Verb::NewScreen, data, out) || shows(Verb::Split, data, out) ==> out
            == shown_number(data.field("surface"@)) + "\n"@,
        shows(Verb::PaneWorktreeCreate, data, out) ==> out == shown_text(
            data.field("path"@),
            ""@,
        ) + "\n"@,
        shows(Verb::GetResolvedConfig, data, out) ==> out == pretty_text(data) + "\n"@,
        shows(Verb::Identify, data, out) ==> out == identify_line(data),
        shows(Verb::VtState, data, out) ==> out == vt_state_line(data),
        shows(Verb::DetectAgent, data, out) ==> out == detected_line(data),
        data.field("workspaces"@) == Some(JsonV::List(items)) && shows(
            Verb::ListWorkspaces,
            data,
            out,
        ) ==> out == tree_text(items),
        data.field("agents"@) == Some(JsonV::List(items)) && shows(Verb::ListAgents, data, out)
            ==> out == agent_lines(items),
        data.field("worktrees"@) == Some(JsonV::List(items)) && shows(
            Verb::PaneWorktreeList,
            data,
            out,
        ) ==> out == worktree_lines(items),
        data.field("patterns"@) == Some(JsonV::List(items)) && shows(
            Verb::AgentPatternList,
            data,
            out,
        ) ==> out == pattern_lines(items),
        shows(Verb::Send, data, out) || shows(Verb::CloseSurface, data, out) || shows(
            Verb::RenameWorkspace,
            data,
            out,
        ) || shows(Verb::ReportAgent, data, out) ==> out.len() == 0,
{
}

} // verus!
