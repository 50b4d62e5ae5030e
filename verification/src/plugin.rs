//! Plugins: their manifests, and the registry of those that are installed.

use vstd::prelude::*;

use crate::answers::{failed, failure, succeeded, success, Ending, EndingV};
use crate::json::{
    empty_object, json_view, list_view, max_nesting, nests, text_list, Json, JsonV,
};
use crate::order::{ordering, picked, sort_positions};
use crate::text::{
    copy_texts, debug_quoted, has_char, join, joined, lemma_line_within, lines, lines_of, opt_text,
    owned, path_join, path_joined, quoted, same, texts, trim, trimmed,
};

verus! {

/// What `cmux plugin` says of itself.
pub const USAGE: &'static str = "\
cmux plugin - manage cmux-plugin.toml manifests (no execution yet)

USAGE:
  cmux plugin list                       List installed plugins (read-only)
  cmux plugin install <manifest-path>    Install a plugin from a manifest
  cmux plugin uninstall <name>           Remove an installed plugin
  cmux plugin enable <name>              Mark a plugin enabled
  cmux plugin disable <name>             Mark a plugin disabled

Shared global flags (accepted before the subcommand):
  --json     Emit machine-readable JSON for `list`.

NOT IMPLEMENTED (deferred to a follow-up PR):
  Plugin *execution* (proxying `cmux <plugin-name> <verb>` to a running
  plugin process, WASM/WASI sandboxing, the permission model) is out of
  scope for this verb group. These verbs only manage manifest state.

The manifest file is `cmux-plugin.toml` with a single `[plugin]` table:
  name   (string, required, non-empty)    plugin id and on-disk dir name
  entry  (string, required, non-empty)    path to the plugin entry artefact
                                          (stored verbatim; not resolved,
                                          not validated as executable here)
  verbs  (array of strings, required,    the verbs this plugin claims
          non-empty, each non-empty)      (stored verbatim; not proxied)
";

// ---- manifests ----------------------------------------------------------------------------

/// What a manifest says of its plugin.
#[derive(Debug)]
pub struct ManifestPlugin {
    pub name: String,
    pub entry: String,
    pub verbs: Vec<String>,
}

pub struct ManifestV {
    pub name: Seq<char>,
    pub entry: Seq<char>,
    pub verbs: Seq<Seq<char>>,
}

impl View for ManifestPlugin {
    type V = ManifestV;

    open spec fn view(&self) -> ManifestV {
        ManifestV { name: self.name@, entry: self.entry@, verbs: texts(self.verbs@) }
    }
}

/// The texts of a list that is a member of a record.
pub open spec fn texts_part(j: JsonV, name: Seq<char>, place: int, n: int) -> Option<
    Seq<Seq<char>>,
> {
    match j.part_items(name, place, n) {
        Some(items) => if forall|i: int| 0 <= i < items.len() ==> (#[trigger] items[i]) is Text {
            Some(items.map_values(|v: JsonV| v->Text_0))
        } else {
            None
        },
        None => None,
    }
}

fn read_texts(j: &Json, name: &str, place: usize, n: usize) -> (r: Option<Vec<String>>)
    ensures
        match r {
            Some(v) => texts_part(j@, name@, place as int, n as int) == Some(texts(v@)),
            None => texts_part(j@, name@, place as int, n as int) is None,
        },
{
    match j.part_items(name, place, n) {
        None => None,
        Some(items) => {
            let mut out: Vec<String> = Vec::new();
            let mut i: usize = 0;
            while i < items.len()
                invariant
                    i <= items.len(),
                    j@.part_items(name@, place as int, n as int) == Some(list_view(items@)),
                    out.len() == i,
                    forall|k: int|
                        0 <= k < i ==> (#[trigger] list_view(items@)[k]) == JsonV::Text(out@[k]@),
                decreases items.len() - i,
            {
                assert(list_view(items@)[i as int] == items@[i as int]@);
                match &items[i] {
                    Json::Text(s) => {
                        out.push(owned(s.as_str()));
                    },
                    _ => {
                        return None;
                    },
                }
                i = i + 1;
            }
            assert(texts(out@) =~= list_view(items@).map_values(|v: JsonV| v->Text_0));
            Some(out)
        },
    }
}

/// A text on one line: its lines, without the white space around them, behind one another.
pub open spec fn one_line(s: Seq<char>) -> Seq<char> {
    joined(lines_of(s).map_values(|l: Seq<char>| trimmed(l)), " "@)
}

fn flatten(s: &str) -> (r: String)
    ensures
        r@ == one_line(s@),
{
    let all: Vec<String> = lines(s);
    let mut out: Vec<String> = Vec::new();
    let mut i: usize = 0;
    while i < all.len()
        invariant
            i <= all.len(),
            out.len() == i,
            forall|k: int| 0 <= k < i ==> (#[trigger] out@[k])@ == trimmed(all@[k]@),
        decreases all.len() - i,
    {
        out.push(trim(all[i].as_str()));
        i = i + 1;
    }
    assert(texts(out@) =~= texts(all@).map_values(|l: Seq<char>| trimmed(l)));
    join(&out, " ")
}

/// Trimming adds no character.
proof fn lemma_trimmed_within(s: Seq<char>, c: char)
    requires
        !s.contains(c),
    ensures
        !trimmed(s).contains(c),
{
    lemma_trimmed_start_within(s, c);
    lemma_trimmed_end_within(crate::text::trimmed_start(s), c);
}

proof fn lemma_trimmed_start_within(s: Seq<char>, c: char)
    requires
        !s.contains(c),
    ensures
        !crate::text::trimmed_start(s).contains(c),
    decreases s.len(),
{
    if s.len() > 0 && crate::text::is_white(s[0]) {
        assert forall|i: int| 0 <= i < s.drop_first().len() implies s.drop_first()[i] != c by {
            assert(s[i + 1] != c);
        }
        lemma_trimmed_start_within(s.drop_first(), c);
    }
}

proof fn lemma_trimmed_end_within(s: Seq<char>, c: char)
    requires
        !s.contains(c),
    ensures
        !crate::text::trimmed_end(s).contains(c),
    decreases s.len(),
{
    if s.len() > 0 && crate::text::is_white(s.last()) {
        assert forall|i: int| 0 <= i < s.drop_last().len() implies s.drop_last()[i] != c by {
            assert(s[i] != c);
        }
        lemma_trimmed_end_within(s.drop_last(), c);
    }
}

proof fn lemma_joined_without(list: Seq<Seq<char>>, sep: Seq<char>, c: char)
    requires
        forall|i: int| 0 <= i < list.len() ==> !(#[trigger] list[i]).contains(c),
        !sep.contains(c),
    ensures
        !joined(list, sep).contains(c),
    decreases list.len(),
{
    if list.len() == 1 {
        assert(!list[0].contains(c));
    } else if list.len() > 1 {
        let front = list.drop_last();
        assert forall|i: int| 0 <= i < front.len() implies !(#[trigger] front[i]).contains(c) by {
            assert(front[i] == list[i]);
        }
        lemma_joined_without(front, sep, c);
        let (a, b) = (joined(front, sep), list[list.len() - 1]);
        let all = a + sep + b;
        assert forall|i: int| 0 <= i < all.len() implies all[i] != c by {
            if i < a.len() {
                assert(all[i] == a[i]);
            } else if i < a.len() + sep.len() {
                assert(all[i] == sep[i - a.len()]);
            } else {
                assert(all[i] == b[i - a.len() - sep.len()]);
            }
        }
    }
}

/// What is said of a text that is no TOML is one line.
pub proof fn law_malformed_one_line(why: Seq<char>)
    ensures
        manifest_of(Err(why)) matches Err(e) && !e.contains('\n'),
{
    let all = lines_of(why);
    let list = all.map_values(|l: Seq<char>| trimmed(l));
    reveal_strlit(" ");
    reveal_strlit("malformed cmux-plugin.toml: ");
    assert forall|i: int| 0 <= i < list.len() implies !(#[trigger] list[i]).contains('\n') by {
        lemma_line_within(why, i, seq![]);
        lemma_trimmed_within(all[i], '\n');
    }
    lemma_joined_without(list, " "@, '\n');
    let e = "malformed cmux-plugin.toml: "@ + one_line(why);
    let front = "malformed cmux-plugin.toml: "@;
    assert(front.len() == 28);
    assert forall|i: int| 0 <= i < 28 implies front[i] != '\n' by {}
    assert forall|i: int| 0 <= i < e.len() implies e[i] != '\n' by {
        if i < front.len() {
            assert(e[i] == front[i]);
        } else {
            assert(e[i] == one_line(why)[i - front.len()]);
        }
    }
}

/// Whether a text is nothing but white space.
pub open spec fn blank(s: Seq<char>) -> bool {
    trimmed(s).len() == 0
}

/// A name that is one part of a path.
pub open spec fn plain_name(name: Seq<char>) -> bool {
    !name.contains('/') && name != "."@ && name != ".."@
}

/// What is wrong with a manifest of the right form.
pub open spec fn manifest_fault(m: ManifestV) -> Option<Seq<char>> {
    if blank(m.name) {
        Some("manifest missing required field [plugin] name"@)
    } else if blank(m.entry) {
        Some("manifest missing required field [plugin] entry"@)
    } else if m.verbs.len() == 0 {
        Some("manifest missing required field [plugin] verbs"@)
    } else if exists|i: int| 0 <= i < m.verbs.len() && blank(#[trigger] m.verbs[i]) {
        Some("manifest [plugin] verbs contains an empty entry"@)
    } else if !plain_name(m.name) {
        Some("plugin name "@ + quoted(m.name) + " must not be a path"@)
    } else {
        None
    }
}

/// What is taken of a manifest that was read, or why nothing is.
pub open spec fn manifest_of(read: Result<ManifestV, Seq<char>>) -> Result<ManifestV, Seq<char>> {
    match read {
        Err(why) => Err("malformed cmux-plugin.toml: "@ + one_line(why)),
        Ok(m) => match manifest_fault(m) {
            Some(e) => Err(e),
            None => Ok(m),
        },
    }
}

pub open spec fn manifest_result(r: Result<ManifestPlugin, String>) -> Result<ManifestV, Seq<char>> {
    match r {
        Ok(m) => Ok(m@),
        Err(e) => Err(e@),
    }
}

/// Takes a manifest. `read` is what its text says as TOML of that form, or why it does not.
pub fn parse_manifest(read: Result<ManifestPlugin, String>) -> (r: Result<ManifestPlugin, String>)
    ensures
        manifest_result(r) == manifest_of(manifest_result(read)),
{
    let ManifestPlugin { name, entry, verbs } = match read {
        Ok(m) => m,
        Err(why) => {
            let mut e: String = "malformed cmux-plugin.toml: ".to_string();
            e.append(flatten(why.as_str()).as_str());
            return Err(e);
        },
    };
    if trim(name.as_str()).as_str().is_empty() {
        return Err("manifest missing required field [plugin] name".to_string());
    }
    if trim(entry.as_str()).as_str().is_empty() {
        return Err("manifest missing required field [plugin] entry".to_string());
    }
    if verbs.len() == 0 {
        return Err("manifest missing required field [plugin] verbs".to_string());
    }
    if has_blank(&verbs) {
        return Err("manifest [plugin] verbs contains an empty entry".to_string());
    }
    if has_char(name.as_str(), '/') || same(name.as_str(), ".") || same(name.as_str(), "..") {
        let mut e: String = "plugin name ".to_string();
        let shown: String = debug_quoted(name.as_str());
        e.append(shown.as_str());
        e.append(" must not be a path");
        return Err(e);
    }
    Ok(ManifestPlugin { name, entry, verbs })
}

fn has_blank(list: &Vec<String>) -> (r: bool)
    ensures
        r == exists|i: int| 0 <= i < texts(list@).len() && blank(#[trigger] texts(list@)[i]),
{
    let mut i: usize = 0;
    while i < list.len()
        invariant
            i <= list.len(),
            forall|k: int| 0 <= k < i ==> !blank(#[trigger] texts(list@)[k]),
        decreases list.len() - i,
    {
        assert(texts(list@)[i as int] == list@[i as int]@);
        if trim(list[i].as_str()).as_str().is_empty() {
            return true;
        }
        i = i + 1;
    }
    false
}

/// The name of a plugin whose manifest was taken is one part of a path, and neither it nor the
/// entry nor a verb is blank.
pub proof fn law_manifest_checked(read: Result<ManifestV, Seq<char>>)
    ensures
        manifest_of(read) matches Ok(m) ==> {
            &&& plain_name(m.name) && !blank(m.name)
            &&& !blank(m.entry)
            &&& m.verbs.len() > 0
            &&& forall|i: int| 0 <= i < m.verbs.len() ==> !blank(#[trigger] m.verbs[i])
        },
{
}

// ---- the registry -------------------------------------------------------------------------

/// An installed plugin.
#[derive(Debug)]
pub struct PluginEntry {
    pub name: String,
    pub enabled: bool,
    pub entry: String,
    pub verbs: Vec<String>,
}

pub struct PluginV {
    pub name: Seq<char>,
    pub enabled: bool,
    pub entry: Seq<char>,
    pub verbs: Seq<Seq<char>>,
}

impl View for PluginEntry {
    type V = PluginV;

    open spec fn view(&self) -> PluginV {
        PluginV {
            name: self.name@,
            enabled: self.enabled,
            entry: self.entry@,
            verbs: texts(self.verbs@),
        }
    }
}

/// The installed plugins, in the order in which they were installed.
#[derive(Debug)]
pub struct Registry {
    pub plugins: Vec<PluginEntry>,
}

impl View for Registry {
    type V = Seq<PluginV>;

    open spec fn view(&self) -> Seq<PluginV> {
        self.plugins@.map_values(|p: PluginEntry| p@)
    }
}

impl Default for Registry {
    fn default() -> (r: Registry)
        ensures
            r@ == Seq::<PluginV>::empty(),
    {
        let r: Registry = Registry { plugins: Vec::new() };
        assert(r@ =~= Seq::<PluginV>::empty());
        r
    }
}

/// Whether a plugin of that name is installed.
pub open spec fn has_plugin(reg: Seq<PluginV>, name: Seq<char>) -> bool {
    exists|i: int| 0 <= i < reg.len() && (#[trigger] reg[i]).name == name
}

/// Whether no two plugins have one name.
pub open spec fn names_differ(reg: Seq<PluginV>) -> bool {
    forall|i: int, j: int| 0 <= i < j < reg.len() ==> (#[trigger] reg[i]).name != (
    #[trigger] reg[j]).name
}

/// A plugin as it is installed: enabled.
pub open spec fn installed(m: ManifestV) -> PluginV {
    PluginV { name: m.name, enabled: true, entry: m.entry, verbs: m.verbs }
}

/// The registry without the plugins of that name.
pub open spec fn without(reg: Seq<PluginV>, name: Seq<char>) -> Seq<PluginV>
    decreases reg.len(),
{
    if reg.len() == 0 {
        seq![]
    } else if reg.last().name == name {
        without(reg.drop_last(), name)
    } else {
        without(reg.drop_last(), name).push(reg.last())
    }
}

/// The position of the first plugin of that name.
pub open spec fn plugin_at(reg: Seq<PluginV>, name: Seq<char>, from: int) -> Option<int>
    decreases reg.len() - from,
{
    if from < 0 || from >= reg.len() {
        None
    } else if reg[from].name == name {
        Some(from)
    } else {
        plugin_at(reg, name, from + 1)
    }
}

/// The registry with one plugin enabled or disabled.
pub open spec fn with_enabled(reg: Seq<PluginV>, i: int, enabled: bool) -> Seq<PluginV> {
    reg.update(i, PluginV { enabled, ..reg[i] })
}

proof fn lemma_plugin_at(reg: Seq<PluginV>, name: Seq<char>, from: int)
    requires
        0 <= from,
    ensures
        match plugin_at(reg, name, from) {
            Some(i) => from <= i < reg.len() && reg[i].name == name,
            None => forall|i: int| from <= i < reg.len() ==> (#[trigger] reg[i]).name != name,
        },
    decreases reg.len() - from,
{
    if from < reg.len() && reg[from].name != name {
        lemma_plugin_at(reg, name, from + 1);
    }
}

impl Registry {
    fn position(&self, name: &str) -> (r: Option<usize>)
        ensures
            match r {
                Some(i) => i < self.plugins.len() && plugin_at(self@, name@, 0) == Some(i as int),
                None => plugin_at(self@, name@, 0) is None,
            },
            r is Some == has_plugin(self@, name@),
    {
        let mut i: usize = 0;
        proof {
            lemma_plugin_at(self@, name@, 0);
        }
        while i < self.plugins.len()
            invariant
                i <= self.plugins.len(),
                plugin_at(self@, name@, 0) == plugin_at(self@, name@, i as int),
                match plugin_at(self@, name@, 0) {
                    Some(i) => has_plugin(self@, name@),
                    None => !has_plugin(self@, name@),
                },
            decreases self.plugins.len() - i,
        {
            assert(self@[i as int] == self.plugins@[i as int]@);
            if same(self.plugins[i].name.as_str(), name) {
                return Some(i);
            }
            i = i + 1;
        }
        None
    }

    /// Adds a plugin, unless one of its name is there.
    pub fn install(&mut self, plugin: &ManifestPlugin) -> (done: bool)
        ensures
            done == !has_plugin(old(self)@, plugin@.name),
            done ==> final(self)@ == old(self)@.push(installed(plugin@)),
            !done ==> final(self)@ == old(self)@,
    {
        if self.position(plugin.name.as_str()).is_some() {
            return false;
        }
        let ghost before = self@;
        let entry: PluginEntry = PluginEntry {
            name: owned(plugin.name.as_str()),
            enabled: true,
            entry: owned(plugin.entry.as_str()),
            verbs: copy_texts(&plugin.verbs),
        };
        self.plugins.push(entry);
        assert(self@ =~= before.push(installed(plugin@)));
        true
    }

    /// Removes the plugins of that name, if there are any.
    pub fn uninstall(&mut self, name: &str) -> (done: bool)
        ensures
            done == has_plugin(old(self)@, name@),
            final(self)@ == without(old(self)@, name@),
    {
        let done: bool = self.position(name).is_some();
        let ghost all = self@;
        let mut out: Vec<PluginEntry> = Vec::new();
        let mut i: usize = 0;
        assert(out@.map_values(|p: PluginEntry| p@) =~= without(all.take(0), name@));
        while i < self.plugins.len()
            invariant
                i <= self.plugins.len(),
                *self == *old(self),
                all == self@,
                out@.map_values(|p: PluginEntry| p@) == without(all.take(i as int), name@),
            decreases self.plugins.len() - i,
        {
            proof {
                assert(all[i as int] == self.plugins@[i as int]@);
                assert(all.take(i + 1).drop_last() =~= all.take(i as int));
            }
            if !same(self.plugins[i].name.as_str(), name) {
                let ghost before = out@;
                let p: PluginEntry = copy_entry(&self.plugins[i]);
                out.push(p);
                assert(out@.map_values(|p: PluginEntry| p@) =~= before.map_values(
                    |p: PluginEntry| p@,
                ).push(p@));
            }
            i = i + 1;
        }
        assert(all.take(all.len() as int) =~= all);
        self.plugins = out;
        done
    }

    /// Enables or disables the plugin of that name; says whether it was so already, and nothing
    /// where there is no such plugin.
    pub fn set_enabled(&mut self, name: &str, enabled: bool) -> (r: Option<bool>)
        ensures
            match r {
                Some(already) => {
                    let i = plugin_at(old(self)@, name@, 0);
                    &&& i is Some
                    &&& already == (old(self)@[i->0].enabled == enabled)
                    &&& final(self)@ == with_enabled(old(self)@, i->0, enabled)
                },
                None => !has_plugin(old(self)@, name@) && final(self)@ == old(self)@,
            },
    {
        match self.position(name) {
            None => None,
            Some(i) => {
                let ghost before = self@;
                let already: bool = self.plugins[i].enabled == enabled;
                let mut p: PluginEntry = copy_entry(&self.plugins[i]);
                assert(before[i as int] == p@);
                p.enabled = enabled;
                self.plugins.set(i, p);
                assert(self@ =~= with_enabled(before, i as int, enabled));
                Some(already)
            },
        }
    }
}

/// Whether a plugin of that name is installed and enabled.
pub open spec fn callable(reg: Seq<PluginV>, name: Seq<char>) -> bool {
    match plugin_at(reg, name, 0) {
        Some(i) => reg[i].enabled,
        None => false,
    }
}

/// The plugin that is called by a name, where one is installed and enabled.
pub fn lookup_plugin<'a>(reg: &'a Registry, name: &str) -> (r: Option<&'a PluginEntry>)
    ensures
        match r {
            Some(p) => callable(reg@, name@) && p@ == reg@[plugin_at(reg@, name@, 0)->0],
            None => !callable(reg@, name@),
        },
{
    match reg.position(name) {
        Some(i) => {
            assert(reg@[i as int] == reg.plugins@[i as int]@);
            if reg.plugins[i].enabled {
                Some(&reg.plugins[i])
            } else {
                None
            }
        },
        None => {
            proof {
                lemma_plugin_at(reg@, name@, 0);
            }
            None
        },
    }
}

fn copy_entry(p: &PluginEntry) -> (r: PluginEntry)
    ensures
        r@ == p@,
{
    PluginEntry {
        name: owned(p.name.as_str()),
        enabled: p.enabled,
        entry: owned(p.entry.as_str()),
        verbs: copy_texts(&p.verbs),
    }
}

/// Names stay different: a plugin is only added under a name that is free.
pub proof fn law_install_keeps_names(reg: Seq<PluginV>, m: ManifestV)
    requires
        names_differ(reg),
        !has_plugin(reg, m.name),
    ensures
        names_differ(reg.push(installed(m))),
        has_plugin(reg.push(installed(m)), m.name),
{
    let now = reg.push(installed(m));
    assert(now[reg.len() as int].name == m.name);
    assert forall|i: int, j: int| 0 <= i < j < now.len() implies (#[trigger] now[i]).name != (
    #[trigger] now[j]).name by {
        if j == reg.len() {
            assert(reg[i].name != m.name);
        }
    }
}

/// Installing a plugin and uninstalling it again leaves the registry as it was.
pub proof fn law_uninstall_undoes_install(reg: Seq<PluginV>, m: ManifestV)
    requires
        !has_plugin(reg, m.name),
    ensures
        without(reg.push(installed(m)), m.name) == reg,
{
    assert(reg.push(installed(m)).drop_last() =~= reg);
    lemma_without_nothing(reg, m.name);
}

proof fn lemma_without_nothing(reg: Seq<PluginV>, name: Seq<char>)
    requires
        !has_plugin(reg, name),
    ensures
        without(reg, name) == reg,
    decreases reg.len(),
{
    if reg.len() > 0 {
        let front = reg.drop_last();
        assert(reg[reg.len() - 1].name != name);
        assert(!has_plugin(front, name)) by {
            if has_plugin(front, name) {
                let i = choose|i: int| 0 <= i < front.len() && (#[trigger] front[i]).name == name;
                assert(reg[i].name == name);
            }
        }
        lemma_without_nothing(front, name);
        assert(front.push(reg.last()) =~= reg);
    } else {
        assert(reg =~= seq![]);
    }
}

/// After a plugin was uninstalled none of its name is left, and every other one is.
pub proof fn law_uninstalled(reg: Seq<PluginV>, name: Seq<char>)
    ensures
        !has_plugin(without(reg, name), name),
        forall|p: PluginV| p.name != name ==> (#[trigger] without(reg, name).contains(p)
            <==> reg.contains(p)),
    decreases reg.len(),
{
    if reg.len() > 0 {
        let front = reg.drop_last();
        law_uninstalled(front, name);
        let rest = without(front, name);
        let all = without(reg, name);
        if has_plugin(all, name) {
            let i = choose|i: int| 0 <= i < all.len() && (#[trigger] all[i]).name == name;
            if i < rest.len() {
                assert(rest[i].name == name);
            }
        }
        assert forall|p: PluginV| p.name != name implies (#[trigger] all.contains(p)
            <==> reg.contains(p)) by {
            assert(rest.contains(p) <==> front.contains(p));
            if all.contains(p) {
                let i = choose|i: int| 0 <= i < all.len() && all[i] == p;
                if i < rest.len() {
                    assert(rest[i] == p);
                    let k = choose|k: int| 0 <= k < front.len() && front[k] == p;
                    assert(reg[k] == p);
                } else {
                    assert(reg[reg.len() - 1] == p);
                }
            }
            if reg.contains(p) {
                let k = choose|k: int| 0 <= k < reg.len() && reg[k] == p;
                if k < front.len() {
                    assert(front[k] == p);
                    assert(rest.contains(p));
                    let i = choose|i: int| 0 <= i < rest.len() && rest[i] == p;
                    assert(all[i] == p);
                } else {
                    assert(all[rest.len() as int] == p);
                }
            }
        }
    }
}

/// Enabling or disabling a plugin changes nothing else, and doing it again changes nothing.
pub proof fn law_set_enabled(reg: Seq<PluginV>, i: int, enabled: bool)
    requires
        0 <= i < reg.len(),
    ensures
        ({
            let now = with_enabled(reg, i, enabled);
            &&& now.len() == reg.len()
            &&& now[i].enabled == enabled && now[i].name == reg[i].name && now[i].entry
                == reg[i].entry && now[i].verbs == reg[i].verbs
            &&& forall|k: int| 0 <= k < reg.len() && k != i ==> #[trigger] now[k] == reg[k]
            &&& with_enabled(now, i, enabled) == now
        }),
{
    let now = with_enabled(reg, i, enabled);
    assert(with_enabled(now, i, enabled) =~= now);
}

// ---- the registry as JSON -----------------------------------------------------------------

pub open spec fn plugin_json(p: PluginV) -> JsonV {
    empty_object().with("name"@, JsonV::Text(p.name)).with("enabled"@, JsonV::Bool(p.enabled)).with(
        "entry"@,
        JsonV::Text(p.entry),
    ).with("verbs"@, text_list(p.verbs))
}

pub open spec fn plugin_from(j: JsonV) -> Option<PluginV> {
    match (
        j.part_chars("name"@, 0, 4),
        j.part_flag("enabled"@, 1, 4),
        j.part_chars("entry"@, 2, 4),
        texts_part(j, "verbs"@, 3, 4),
    ) {
        (Some(name), Some(enabled), Some(entry), Some(verbs)) => Some(
            PluginV { name, enabled, entry, verbs },
        ),
        _ => None,
    }
}

/// The registry as JSON.
pub open spec fn registry_json(reg: Seq<PluginV>) -> JsonV {
    empty_object().with(
        "plugins"@,
        JsonV::List(reg.map_values(|p: PluginV| plugin_json(p))),
    )
}

/// A registry is not deep.
proof fn lemma_registry_nests(reg: Seq<PluginV>)
    ensures
        nests(registry_json(reg), max_nesting()),
{
    let items = reg.map_values(|p: PluginV| plugin_json(p));
    assert forall|i: int| 0 <= i < items.len() implies nests(#[trigger] items[i], 125) by {
        let m = items[i]->Object_0;
        assert forall|k: Seq<char>| #[trigger] m.dom().contains(k) implies nests(m[k], 124) by {
            let verbs = text_list(reg[i].verbs);
            if m[k] == verbs {
                assert forall|v: int| 0 <= v < verbs->List_0.len() implies nests(
                    #[trigger] verbs->List_0[v],
                    123,
                ) by {
                    assert(verbs->List_0[v] is Text);
                }
            }
        }
    }
    assert(nests(JsonV::List(items), 126));
}

/// The registry that a value is the JSON of.
pub open spec fn registry_from(j: JsonV) -> Option<Seq<PluginV>> {
    match j.part_items("plugins"@, 0, 1) {
        Some(items) => crate::json::all_some(items.map_values(|p: JsonV| plugin_from(p))),
        None => None,
    }
}

/// The registry is read back as it was written.
pub proof fn law_registry_json(reg: Seq<PluginV>)
    ensures
        registry_from(registry_json(reg)) == Some(reg),
{
    let items = reg.map_values(|p: PluginV| plugin_json(p));
    let back = items.map_values(|p: JsonV| plugin_from(p));
    assert forall|i: int| 0 <= i < reg.len() implies back[i] == Some(reg[i]) by {
        lemma_plugin_back(reg[i]);
    }
    assert(back.map_values(|x: Option<PluginV>| x->0) =~= reg);
    assert(registry_json(reg).part_items("plugins"@, 0, 1) == Some(items));
}

proof fn lemma_plugin_back(p: PluginV)
    ensures
        plugin_from(plugin_json(p)) == Some(p),
{
    reveal_strlit("name");
    reveal_strlit("enabled");
    reveal_strlit("entry");
    reveal_strlit("verbs");
    assert("name"@.len() == 4 && "enabled"@.len() == 7 && "entry"@.len() == 5 && "verbs"@.len()
        == 5);
    assert("entry"@[0] == 'e' && "verbs"@[0] == 'v');
    let j = plugin_json(p);
    assert(j.part_chars("name"@, 0, 4) == Some(p.name));
    assert(j.part_flag("enabled"@, 1, 4) == Some(p.enabled));
    assert(j.part_chars("entry"@, 2, 4) == Some(p.entry));
    let list = text_list(p.verbs);
    assert(j.field("verbs"@) == Some(list));
    assert(list->List_0.map_values(|v: JsonV| v->Text_0) =~= p.verbs);
}

fn read_plugin(j: &Json) -> (r: Option<PluginEntry>)
    ensures
        match r {
            Some(p) => plugin_from(j@) == Some(p@),
            None => plugin_from(j@) is None,
        },
{
    match (
        j.part_chars("name", 0, 4),
        j.part_flag("enabled", 1, 4),
        j.part_chars("entry", 2, 4),
        read_texts(j, "verbs", 3, 4),
    ) {
        (Some(name), Some(enabled), Some(entry), Some(verbs)) => Some(
            PluginEntry { name: owned(name), enabled, entry: owned(entry), verbs },
        ),
        _ => None,
    }
}

impl Registry {
    /// The registry as JSON, which gives it back, and which is not too deep to be read from a text.
    pub fn to_json(&self) -> (r: Json)
        ensures
            r@ == registry_json(self@),
            registry_from(r@) == Some(self@),
            nests(r@, max_nesting()),
    {
        proof {
            law_registry_json(self@);
            lemma_registry_nests(self@);
        }
        let mut list: Vec<Json> = Vec::new();
        let mut i: usize = 0;
        while i < self.plugins.len()
            invariant
                i <= self.plugins.len(),
                list.len() == i,
                forall|k: int|
                    0 <= k < i ==> json_view(#[trigger] list@[k]) == plugin_json(self.plugins@[k]@),
            decreases self.plugins.len() - i,
        {
            let p: &PluginEntry = &self.plugins[i];
            let mut one: Json = Json::object();
            one.set("name", Json::text(p.name.as_str()));
            one.set("enabled", Json::Bool(p.enabled));
            one.set("entry", Json::text(p.entry.as_str()));
            one.set("verbs", Json::texts(&p.verbs));
            list.push(one);
            i = i + 1;
        }
        assert(list_view(list@) =~= self@.map_values(|p: PluginV| plugin_json(p)));
        let mut out: Json = Json::object();
        out.set("plugins", Json::List(list));
        out
    }

    #[verifier::loop_isolation(false)]
    pub fn from_json(j: &Json) -> (r: Option<Registry>)
        ensures
            match r {
                Some(reg) => registry_from(j@) == Some(reg@),
                None => registry_from(j@) is None,
            },
    {
        match j.part_items("plugins", 0, 1) {
            None => None,
            Some(items) => {
                let ghost found = list_view(items@).map_values(|p: JsonV| plugin_from(p));
                let mut plugins: Vec<PluginEntry> = Vec::new();
                let mut i: usize = 0;
                while i < items.len()
                    invariant
                        i <= items.len(),
                        plugins.len() == i,
                        found == list_view(items@).map_values(|p: JsonV| plugin_from(p)),
                        forall|k: int| 0 <= k < i ==> #[trigger] found[k] == Some(plugins@[k]@),
                    decreases items.len() - i,
                {
                    assert(found[i as int] == plugin_from(items@[i as int]@));
                    match read_plugin(&items[i]) {
                        Some(p) => {
                            plugins.push(p);
                        },
                        None => {
                            return None;
                        },
                    }
                    i = i + 1;
                }
                let reg: Registry = Registry { plugins };
                assert(found.map_values(|x: Option<PluginV>| x->0) =~= reg@);
                Some(reg)
            },
        }
    }
}

/// What came of reading the registry's file. `read` is the registry that the content is the JSON
/// of, or why it is none.
#[derive(Debug)]
pub enum RegistryFile {
    Missing,
    Text { content: String, read: Result<Registry, String> },
    Failed(String),
}

pub open spec fn registry_result(r: Result<Registry, String>) -> Result<Seq<PluginV>, Seq<char>> {
    match r {
        Ok(reg) => Ok(reg@),
        Err(e) => Err(e@),
    }
}

/// The registry in a file; no file and an empty one are an empty registry.
pub open spec fn registry_loaded(file: RegistryFile, path: Seq<char>) -> Result<
    Seq<PluginV>,
    Seq<char>,
> {
    match file {
        RegistryFile::Missing => Ok(seq![]),
        RegistryFile::Failed(why) => Err("failed to read "@ + path + ": "@ + why@),
        RegistryFile::Text { content, read } => if blank(content@) {
            Ok(seq![])
        } else {
            match registry_result(read) {
                Ok(reg) => Ok(reg),
                Err(why) => Err("corrupt registry "@ + path + ": "@ + why),
            }
        },
    }
}

fn path_error(what: &str, path: &str, why: &str) -> (e: String)
    ensures
        e@ == what@ + path@ + ": "@ + why@,
{
    let mut e: String = owned(what);
    e.append(path);
    e.append(": ");
    e.append(why);
    e
}

pub fn load_registry(file: RegistryFile, path: &str) -> (r: Result<Registry, String>)
    ensures
        registry_result(r) == registry_loaded(file, path@),
{
    match file {
        RegistryFile::Missing => Ok(empty_registry()),
        RegistryFile::Failed(why) => Err(path_error("failed to read ", path, why.as_str())),
        RegistryFile::Text { content, read } => {
            if trim(content.as_str()).as_str().is_empty() {
                return Ok(empty_registry());
            }
            match read {
                Ok(reg) => Ok(reg),
                Err(why) => Err(path_error("corrupt registry ", path, why.as_str())),
            }
        },
    }
}

fn empty_registry() -> (r: Registry)
    ensures
        r@ == Seq::<PluginV>::empty(),
{
    let r: Registry = Registry { plugins: Vec::new() };
    assert(r@ =~= Seq::<PluginV>::empty());
    r
}

// ---- commands -----------------------------------------------------------------------------

/// What `cmux plugin` was asked to do.
#[derive(Debug)]
pub enum PluginCommand {
    List { json: bool },
    Install { manifest_path: String },
    Uninstall { name: String },
    SetEnabled { name: String, enabled: bool },
}

pub enum CommandV {
    List(bool),
    Install(Seq<char>),
    Uninstall(Seq<char>),
    SetEnabled(Seq<char>, bool),
}

impl View for PluginCommand {
    type V = CommandV;

    open spec fn view(&self) -> CommandV {
        match self {
            PluginCommand::List { json } => CommandV::List(*json),
            PluginCommand::Install { manifest_path } => CommandV::Install(manifest_path@),
            PluginCommand::Uninstall { name } => CommandV::Uninstall(name@),
            PluginCommand::SetEnabled { name, enabled } => CommandV::SetEnabled(name@, *enabled),
        }
    }
}

/// The words without the first `--json`.
pub open spec fn without_json(args: Seq<Seq<char>>) -> Seq<Seq<char>> {
    match args.index_of_first("--json"@) {
        Some(i) => args.take(i) + args.skip(i + 1),
        None => args,
    }
}

/// The one word that a subcommand takes, or how it ends where there is none or more than one.
pub open spec fn one_word(rest: Seq<Seq<char>>, label: Seq<char>, what: Seq<char>) -> Result<
    Seq<char>,
    EndingV,
> {
    if rest.len() == 0 {
        Err(failure(2, "cmux plugin "@ + label + ": missing "@ + what + "\n\n"@ + USAGE@))
    } else if rest.len() > 1 {
        Err(
            failure(
                2,
                "cmux plugin "@ + label + ": unexpected extra argument "@ + quoted(rest[1]),
            ),
        )
    } else {
        Ok(rest[0])
    }
}

/// What a subcommand with the words behind it asks for.
pub open spec fn dispatched(sub: Seq<char>, rest: Seq<Seq<char>>, json: bool) -> Result<
    CommandV,
    EndingV,
> {
    if sub == "list"@ {
        Ok(CommandV::List(json))
    } else if sub == "install"@ {
        match one_word(rest, "install"@, "<manifest-path>"@) {
            Ok(path) => Ok(CommandV::Install(path)),
            Err(e) => Err(e),
        }
    } else if sub == "uninstall"@ {
        match one_word(rest, "uninstall"@, "<name>"@) {
            Ok(name) => Ok(CommandV::Uninstall(name)),
            Err(e) => Err(e),
        }
    } else if sub == "enable"@ {
        match one_word(rest, "enable"@, "<name>"@) {
            Ok(name) => Ok(CommandV::SetEnabled(name, true)),
            Err(e) => Err(e),
        }
    } else if sub == "disable"@ {
        match one_word(rest, "disable"@, "<name>"@) {
            Ok(name) => Ok(CommandV::SetEnabled(name, false)),
            Err(e) => Err(e),
        }
    } else if sub == "-h"@ || sub == "--help"@ || sub == "help"@ {
        Err(success(USAGE@))
    } else {
        Err(
            failure(
                2,
                "cmux plugin: unknown subcommand "@ + quoted(sub) + "\n\n"@ + USAGE@,
            ),
        )
    }
}

/// What `cmux plugin` with these words asks for, or how it ends. `base` is where plugins lie, or
/// why that is not known.
pub open spec fn commanded(args: Seq<Seq<char>>, base: Result<Seq<char>, Seq<char>>) -> Result<
    CommandV,
    EndingV,
> {
    let rest = without_json(args);
    if rest.len() == 0 {
        Err(success(USAGE@))
    } else {
        match base {
            Err(why) => Err(failure(1, "cmux plugin: "@ + why)),
            Ok(_) => dispatched(rest[0], rest.skip(1), args.contains("--json"@)),
        }
    }
}

pub open spec fn base_result(r: Result<String, String>) -> Result<Seq<char>, Seq<char>> {
    match r {
        Ok(s) => Ok(s@),
        Err(e) => Err(e@),
    }
}

fn label_text(label: &str) -> (r: String)
    ensures
        r@ == "cmux plugin "@ + label@,
{
    let mut r: String = "cmux plugin ".to_string();
    r.append(label);
    r
}

fn take_one(rest: &[String], label: &str, what: &str) -> (r: Result<String, Ending>)
    ensures
        match r {
            Ok(s) => one_word(texts(rest@), label@, what@) == Ok::<Seq<char>, EndingV>(s@),
            Err(e) => one_word(texts(rest@), label@, what@) == Err::<Seq<char>, EndingV>(e@),
        },
{
    if rest.len() == 0 {
        let mut message: String = label_text(label);
        message.append(": missing ");
        message.append(what);
        message.append("\n\n");
        message.append(USAGE);
        return Err(failed(2, message));
    }
    if rest.len() > 1 {
        let mut message: String = label_text(label);
        message.append(": unexpected extra argument ");
        let shown: String = debug_quoted(rest[1].as_str());
        message.append(shown.as_str());
        return Err(failed(2, message));
    }
    Ok(owned(rest[0].as_str()))
}

pub open spec fn command_result(r: Result<PluginCommand, Ending>) -> Result<CommandV, EndingV> {
    match r {
        Ok(c) => Ok(c@),
        Err(e) => Err(e@),
    }
}

/// What a subcommand asks for.
pub fn dispatch(sub: &str, rest: &[String], json: bool) -> (r: Result<PluginCommand, Ending>)
    ensures
        command_result(r) == dispatched(sub@, texts(rest@), json),
{
    if same(sub, "list") {
        Ok(PluginCommand::List { json })
    } else if same(sub, "install") {
        match take_one(rest, "install", "<manifest-path>") {
            Ok(manifest_path) => Ok(PluginCommand::Install { manifest_path }),
            Err(e) => Err(e),
        }
    } else if same(sub, "uninstall") {
        match take_one(rest, "uninstall", "<name>") {
            Ok(name) => Ok(PluginCommand::Uninstall { name }),
            Err(e) => Err(e),
        }
    } else if same(sub, "enable") {
        match take_one(rest, "enable", "<name>") {
            Ok(name) => Ok(PluginCommand::SetEnabled { name, enabled: true }),
            Err(e) => Err(e),
        }
    } else if same(sub, "disable") {
        match take_one(rest, "disable", "<name>") {
            Ok(name) => Ok(PluginCommand::SetEnabled { name, enabled: false }),
            Err(e) => Err(e),
        }
    } else if same(sub, "-h") || same(sub, "--help") || same(sub, "help") {
        Err(succeeded(owned(USAGE)))
    } else {
        let mut message: String = "cmux plugin: unknown subcommand ".to_string();
        let shown: String = debug_quoted(sub);
        message.append(shown.as_str());
        message.append("\n\n");
        message.append(USAGE);
        Err(failed(2, message))
    }
}

pub fn run(args: &[String], base: &Result<String, String>) -> (r: Result<PluginCommand, Ending>)
    ensures
        command_result(r) == commanded(texts(args@), base_result(*base)),
{
    let ghost all = texts(args@);
    let mut json: bool = false;
    let mut rest: Vec<String> = Vec::new();
    let mut i: usize = 0;
    proof {
        if all.contains("--json"@) {
            all.index_of_first_ensures("--json"@);
        } else {
            all.index_of_first_ensures("--json"@);
        }
        assert(texts(rest@) =~= all.take(0));
    }
    while i < args.len()
        invariant
            i <= args.len(),
            all == texts(args@),
            match all.index_of_first("--json"@) {
                Some(at) => {
                    &&& 0 <= at < all.len()
                    &&& all[at] == "--json"@
                    &&& all.contains("--json"@)
                    &&& forall|k: int| 0 <= k < at ==> #[trigger] all[k] != "--json"@
                    &&& json == (at < i)
                    &&& texts(rest@) == if at < i {
                        all.take(at) + all.subrange(at + 1, i as int)
                    } else {
                        all.take(i as int)
                    }
                },
                None => {
                    &&& !json
                    &&& !all.contains("--json"@)
                    &&& texts(rest@) == all.take(i as int)
                },
            },
        decreases args.len() - i,
    {
        let arg: &str = args[i].as_str();
        assert(all[i as int] == arg@);
        if !json && same(arg, "--json") {
            json = true;
            proof {
                assert(all.contains(all[i as int]));
                let at = all.index_of_first("--json"@)->0;
                assert(at == i);
                assert(all.take(at) + all.subrange(at + 1, i + 1) =~= all.take(at));
            }
        } else {
            let ghost before = rest@;
            let word: String = owned(arg);
            rest.push(word);
            proof {
                assert(texts(rest@) =~= texts(before).push(word@));
                match all.index_of_first("--json"@) {
                    Some(at) => {
                        if at < i {
                            assert(texts(rest@) =~= all.take(at) + all.subrange(at + 1, i + 1));
                        } else {
                            assert(at != i);
                            assert(texts(rest@) =~= all.take(i + 1));
                        }
                    },
                    None => {
                        assert(texts(rest@) =~= all.take(i + 1));
                    },
                }
            }
        }
        i = i + 1;
    }
    proof {
        match all.index_of_first("--json"@) {
            Some(at) => {
                assert(all.subrange(at + 1, all.len() as int) =~= all.skip(at + 1));
            },
            None => {
                assert(all.take(all.len() as int) =~= all);
            },
        }
        assert(texts(rest@) == without_json(all));
    }
    if rest.len() == 0 {
        return Err(succeeded(owned(USAGE)));
    }
    if let Err(why) = base {
        let mut message: String = "cmux plugin: ".to_string();
        message.append(why.as_str());
        return Err(failed(1, message));
    }
    let positional: Vec<String> = words_after(&rest);
    dispatch(rest[0].as_str(), positional.as_slice(), json)
}

/// The words behind the first.
fn words_after(list: &Vec<String>) -> (out: Vec<String>)
    requires
        list.len() > 0,
    ensures
        texts(out@) == texts(list@).skip(1),
{
    let mut out: Vec<String> = Vec::new();
    let mut i: usize = 1;
    assert(texts(out@) =~= texts(list@).subrange(1, 1));
    while i < list.len()
        invariant
            1 <= i <= list.len(),
            texts(out@) == texts(list@).subrange(1, i as int),
        decreases list.len() - i,
    {
        let ghost before = out@;
        let word: String = owned(list[i].as_str());
        out.push(word);
        i = i + 1;
        assert(texts(out@) =~= texts(before).push(word@));
        assert(texts(out@) =~= texts(list@).subrange(1, i as int));
    }
    assert(texts(list@).subrange(1, list@.len() as int) =~= texts(list@).skip(1));
    out
}

/// A plugin as a line: its name, its state, its entry and its verbs.
pub open spec fn plugin_line(p: PluginV) -> Seq<char> {
    p.name + " "@ + (if p.enabled {
        "enabled"@
    } else {
        "disabled"@
    }) + " "@ + p.entry + " "@ + joined(p.verbs, ","@) + "\n"@
}

pub open spec fn plugin_lines(list: Seq<PluginV>) -> Seq<char>
    decreases list.len(),
{
    if list.len() == 0 {
        seq![]
    } else {
        plugin_lines(list.drop_last()) + plugin_line(list.last())
    }
}

/// Whether `out` is the registry in the order of the names.
pub open spec fn by_name(reg: Seq<PluginV>, out: Seq<PluginV>) -> bool {
    exists|names: Seq<String>, order: Seq<usize>|
        {
            &&& names.len() == reg.len()
            &&& forall|i: int| 0 <= i < reg.len() ==> (#[trigger] names[i])@ == reg[i].name
            &&& #[trigger] ordering(names, order)
            &&& out == picked(reg, order)
        }
}

/// `cmux plugin list`. `written` is the registry as a line of JSON.
pub fn cmd_list(reg: &Registry, written: &str, json: bool) -> (e: Ending)
    ensures
        if json {
            e@ == success(written@ + "\n"@)
        } else if reg@.len() == 0 {
            e@ == success("no plugins installed\n"@)
        } else {
            exists|list: Seq<PluginV>|
                #[trigger] by_name(reg@, list) && e@ == success(plugin_lines(list))
        },
{
    if json {
        let mut out: String = owned(written);
        out.append("\n");
        return succeeded(out);
    }
    if reg.plugins.len() == 0 {
        return succeeded("no plugins installed\n".to_string());
    }
    let mut names: Vec<String> = Vec::new();
    let mut i: usize = 0;
    while i < reg.plugins.len()
        invariant
            i <= reg.plugins.len(),
            names.len() == i,
            forall|k: int| 0 <= k < i ==> (#[trigger] names@[k])@ == reg.plugins@[k].name@,
        decreases reg.plugins.len() - i,
    {
        names.push(owned(reg.plugins[i].name.as_str()));
        i = i + 1;
    }
    let order: Vec<usize> = sort_positions(&names);
    let ghost list = picked(reg@, order@);
    proof {
        assert(ordering(names@, order@));
        assert forall|k: int| 0 <= k < reg@.len() implies (#[trigger] names@[k])@ == reg@[k].name by {
            assert(reg@[k] == reg.plugins@[k]@);
        }
        assert(by_name(reg@, list));
    }
    let mut out: String = String::new();
    i = 0;
    while i < order.len()
        invariant
            i <= order.len(),
            order.len() == reg.plugins.len(),
            forall|k: int| 0 <= k < order.len() ==> #[trigger] order@[k] < reg.plugins.len(),
            list == picked(reg@, order@),
            out@ == plugin_lines(list.take(i as int)),
        decreases order.len() - i,
    {
        assert(order@[i as int] < reg.plugins.len());
        let p: &PluginEntry = &reg.plugins[order[i]];
        let mut line: String = owned(p.name.as_str());
        line.append(" ");
        line.append(
            if p.enabled {
                "enabled"
            } else {
                "disabled"
            },
        );
        line.append(" ");
        line.append(p.entry.as_str());
        line.append(" ");
        let verbs: String = join(&p.verbs, ",");
        line.append(verbs.as_str());
        line.append("\n");
        out.append(line.as_str());
        i = i + 1;
        proof {
            assert(list[i - 1] == p@);
            assert(list.take(i as int).drop_last() =~= list.take(i - 1));
        }
    }
    assert(list.take(list.len() as int) =~= list);
    succeeded(out)
}

/// What is said of a subcommand that failed.
pub open spec fn command_fault(label: Seq<char>, why: Seq<char>) -> EndingV {
    failure(1, "cmux plugin "@ + label + ": "@ + why)
}

pub fn command_failed(label: &str, why: &str) -> (e: Ending)
    ensures
        e@ == command_fault(label@, why@),
{
    let mut message: String = label_text(label);
    message.append(": ");
    message.append(why);
    failed(1, message)
}

/// What came of reading the manifest's file: what its text says, or why it says nothing; or why
/// there is no text.
#[derive(Debug)]
pub enum ManifestFile {
    Text(Result<ManifestPlugin, String>),
    Failed(String),
}

/// A plugin that can be installed, with the registry as it is then.
#[derive(Debug)]
pub struct Installation {
    pub plugin: ManifestPlugin,
    pub registry: Registry,
}

/// What is installed of a manifest that was read, over a registry.
pub open spec fn installation(m: Result<ManifestV, Seq<char>>, reg: Result<Seq<PluginV>, Seq<char>>) -> Result<
    (ManifestV, Seq<PluginV>),
    EndingV,
> {
    match m {
        Err(why) => Err(command_fault("install"@, why)),
        Ok(m) => match reg {
            Err(why) => Err(command_fault("install"@, why)),
            Ok(reg) => if has_plugin(reg, m.name) {
                Err(
                    command_fault(
                        "install"@,
                        "a plugin named "@ + quoted(m.name) + " is already installed"@,
                    ),
                )
            } else {
                Ok((m, reg.push(installed(m))))
            },
        },
    }
}

pub open spec fn installation_result(r: Result<Installation, Ending>) -> Result<
    (ManifestV, Seq<PluginV>),
    EndingV,
> {
    match r {
        Ok(i) => Ok((i.plugin@, i.registry@)),
        Err(e) => Err(e@),
    }
}

/// Decides on an installation, before anything is written.
pub fn plan_install(plugin: Result<ManifestPlugin, String>, registry: Result<Registry, String>) -> (r:
    Result<Installation, Ending>)
    ensures
        installation_result(r) == installation(manifest_result(plugin), registry_result(registry)),
{
    let plugin: ManifestPlugin = match plugin {
        Ok(p) => p,
        Err(why) => {
            return Err(command_failed("install", why.as_str()));
        },
    };
    let mut registry: Registry = match registry {
        Ok(r) => r,
        Err(why) => {
            return Err(command_failed("install", why.as_str()));
        },
    };
    if registry.install(&plugin) {
        Ok(Installation { plugin, registry })
    } else {
        let mut why: String = "a plugin named ".to_string();
        let shown: String = debug_quoted(plugin.name.as_str());
        why.append(shown.as_str());
        why.append(" is already installed");
        Err(command_failed("install", why.as_str()))
    }
}

/// `cmux plugin install`, up to the point where files are written.
pub fn cmd_install(manifest_path: &str, manifest: ManifestFile, registry: Result<Registry, String>) -> (r:
    Result<Installation, Ending>)
    ensures
        match manifest {
            ManifestFile::Failed(why) => installation_result(r) == Err::<
                (ManifestV, Seq<PluginV>),
                EndingV,
            >(
                command_fault(
                    "install"@,
                    "cannot read "@ + quoted(manifest_path@) + ": "@ + why@,
                ),
            ),
            ManifestFile::Text(read) => installation_result(r) == installation(
                manifest_of(manifest_result(read)),
                registry_result(registry),
            ),
        },
{
    match manifest {
        ManifestFile::Failed(why) => {
            let mut message: String = "cannot read ".to_string();
            let shown: String = debug_quoted(manifest_path);
            message.append(shown.as_str());
            message.append(": ");
            message.append(why.as_str());
            Err(command_failed("install", message.as_str()))
        },
        ManifestFile::Text(read) => plan_install(parse_manifest(read), registry),
    }
}

/// The steps in which an installation is written.
#[derive(Clone, Copy, Debug, PartialEq, Eq, Structural)]
pub enum InstallStep {
    CreateDirectory,
    WriteManifest,
    SaveRegistry,
}

/// Whether what was written is taken back where a step fails, and how the command ends.
pub open spec fn install_undone(step: InstallStep, path: Seq<char>, why: Seq<char>) -> (
    bool,
    EndingV,
) {
    match step {
        InstallStep::CreateDirectory => (
            false,
            command_fault("install"@, "failed to create "@ + path + ": "@ + why),
        ),
        InstallStep::WriteManifest => (
            true,
            command_fault("install"@, "failed to write "@ + path + ": "@ + why),
        ),
        InstallStep::SaveRegistry => (true, command_fault("install"@, why)),
    }
}

pub fn install_failed(step: InstallStep, path: &str, why: &str) -> (r: (bool, Ending))
    ensures
        (r.0, r.1@) == install_undone(step, path@, why@),
{
    match step {
        InstallStep::CreateDirectory => {
            let mut message: String = "failed to create ".to_string();
            message.append(path);
            message.append(": ");
            message.append(why);
            (false, command_failed("install", message.as_str()))
        },
        InstallStep::WriteManifest => {
            let mut message: String = "failed to write ".to_string();
            message.append(path);
            message.append(": ");
            message.append(why);
            (true, command_failed("install", message.as_str()))
        },
        InstallStep::SaveRegistry => (true, command_failed("install", why)),
    }
}

pub fn install_done(name: &str, manifest_path: &str) -> (e: Ending)
    ensures
        e@ == success("installed plugin "@ + name@ + " from "@ + manifest_path@ + "\n"@),
{
    let mut out: String = "installed plugin ".to_string();
    out.append(name);
    out.append(" from ");
    out.append(manifest_path);
    out.append("\n");
    succeeded(out)
}

/// What is said of a plugin that is not there.
pub open spec fn unknown_plugin(label: Seq<char>, name: Seq<char>) -> EndingV {
    command_fault(label, "no plugin named "@ + quoted(name) + " is installed"@)
}

fn no_such_plugin(label: &str, name: &str) -> (e: Ending)
    ensures
        e@ == unknown_plugin(label@, name@),
{
    let mut why: String = "no plugin named ".to_string();
    let shown: String = debug_quoted(name);
    why.append(shown.as_str());
    why.append(" is installed");
    command_failed(label, why.as_str())
}

/// The registry without a plugin, and what is said once it is saved; or how the command ends.
pub open spec fn uninstallation(reg: Result<Seq<PluginV>, Seq<char>>, name: Seq<char>) -> Result<
    (Seq<PluginV>, Seq<char>),
    EndingV,
> {
    match reg {
        Err(why) => Err(command_fault("uninstall"@, why)),
        Ok(reg) => if has_plugin(reg, name) {
            Ok((without(reg, name), "uninstalled plugin "@ + name + "\n"@))
        } else {
            Err(unknown_plugin("uninstall"@, name))
        },
    }
}

pub open spec fn change_result(r: Result<(Registry, String), Ending>) -> Result<
    (Seq<PluginV>, Seq<char>),
    EndingV,
> {
    match r {
        Ok((reg, said)) => Ok((reg@, said@)),
        Err(e) => Err(e@),
    }
}

/// `cmux plugin uninstall`, up to the point where files are removed.
pub fn cmd_uninstall(registry: Result<Registry, String>, name: &str) -> (r: Result<
    (Registry, String),
    Ending,
>)
    ensures
        change_result(r) == uninstallation(registry_result(registry), name@),
{
    let mut registry: Registry = match registry {
        Ok(r) => r,
        Err(why) => {
            return Err(command_failed("uninstall", why.as_str()));
        },
    };
    if registry.uninstall(name) {
        let mut said: String = "uninstalled plugin ".to_string();
        said.append(name);
        said.append("\n");
        Ok((registry, said))
    } else {
        Err(no_such_plugin("uninstall", name))
    }
}

pub open spec fn enable_label(enabled: bool) -> Seq<char> {
    if enabled {
        "enable"@
    } else {
        "disable"@
    }
}

pub open spec fn enabled_text(enabled: bool) -> Seq<char> {
    if enabled {
        "enabled"@
    } else {
        "disabled"@
    }
}

/// The registry with a plugin enabled or disabled, and what is said once it is saved; or how the
/// command ends.
pub open spec fn enabling(
    reg: Result<Seq<PluginV>, Seq<char>>,
    name: Seq<char>,
    enabled: bool,
) -> Result<(Seq<PluginV>, Seq<char>), EndingV> {
    match reg {
        Err(why) => Err(command_fault(enable_label(enabled), why)),
        Ok(reg) => match plugin_at(reg, name, 0) {
            None => Err(unknown_plugin(enable_label(enabled), name)),
            Some(i) => Ok(
                (
                    with_enabled(reg, i, enabled),
                    "plugin "@ + name + (if reg[i].enabled == enabled {
                        " already "@
                    } else {
                        " "@
                    }) + enabled_text(enabled) + "\n"@,
                ),
            ),
        },
    }
}

/// `cmux plugin enable` and `disable`, up to the point where the registry is saved.
pub fn cmd_set_enabled(registry: Result<Registry, String>, name: &str, enabled: bool) -> (r: Result<
    (Registry, String),
    Ending,
>)
    ensures
        change_result(r) == enabling(registry_result(registry), name@, enabled),
{
    let label: &str = if enabled {
        "enable"
    } else {
        "disable"
    };
    let mut registry: Registry = match registry {
        Ok(r) => r,
        Err(why) => {
            return Err(command_failed(label, why.as_str()));
        },
    };
    proof {
        lemma_plugin_at(registry@, name@, 0);
    }
    match registry.set_enabled(name, enabled) {
        None => Err(no_such_plugin(label, name)),
        Some(already) => {
            let mut said: String = "plugin ".to_string();
            said.append(name);
            said.append(
                if already {
                    " already "
                } else {
                    " "
                },
            );
            said.append(
                if enabled {
                    "enabled"
                } else {
                    "disabled"
                },
            );
            said.append("\n");
            Ok((registry, said))
        },
    }
}

/// Where the data of the program lies: below `XDG_DATA_HOME`, else below the home directory. An
/// empty variable counts as none.
pub open spec fn base_of(data_home: Option<Seq<char>>, home: Option<Seq<char>>) -> Result<
    Seq<char>,
    Seq<char>,
> {
    if data_home is Some && data_home->0.len() > 0 {
        Ok(path_joined(data_home->0, "cmux"@))
    } else if home is Some && home->0.len() > 0 {
        Ok(path_joined(home->0, ".local/share/cmux"@))
    } else {
        Err("could not resolve cmux data dir (set XDG_DATA_HOME or HOME)"@)
    }
}

pub fn base_dir(data_home: &Option<String>, home: &Option<String>) -> (r: Result<String, String>)
    ensures
        match r {
            Ok(p) => base_of(opt_text(*data_home), opt_text(*home)) == Ok::<Seq<char>, Seq<char>>(
                p@,
            ),
            Err(e) => base_of(opt_text(*data_home), opt_text(*home)) == Err::<
                Seq<char>,
                Seq<char>,
            >(e@),
        },
{
    if let Some(d) = data_home {
        if !d.as_str().is_empty() {
            return Ok(path_join(d.as_str(), "cmux"));
        }
    }
    if let Some(h) = home {
        if !h.as_str().is_empty() {
            return Ok(path_join(h.as_str(), ".local/share/cmux"));
        }
    }
    Err("could not resolve cmux data dir (set XDG_DATA_HOME or HOME)".to_string())
}

pub fn plugins_dir(base: &str) -> (r: String)
    ensures
        r@ == path_joined(base@, "plugins"@),
{
    path_join(base, "plugins")
}

pub fn registry_path(base: &str) -> (r: String)
    ensures
        r@ == path_joined(base@, "plugins.json"@),
{
    path_join(base, "plugins.json")
}

/// A registry is written with each plugin in its order, and each thing of a plugin in the field of
/// its name.
pub proof fn law_registry_written(reg: Seq<PluginV>, i: int, k: int)
    requires
        0 <= i < reg.len(),
    ensures
        registry_json(reg).field("plugins"@) matches Some(JsonV::List(items)) && items.len()
            == reg.len() && {
            let j = items[i];
            &&& j.field("name"@) == Some(JsonV::Text(reg[i].name))
            &&& j.field("enabled"@) == Some(JsonV::Bool(reg[i].enabled))
            &&& j.field("entry"@) == Some(JsonV::Text(reg[i].entry))
            &&& j.field("verbs"@) matches Some(JsonV::List(verbs)) && verbs.len()
                == reg[i].verbs.len() && (0 <= k < verbs.len() ==> verbs[k] == JsonV::Text(
                reg[i].verbs[k],
            ))
        },
{
    reveal_strlit("name");
    reveal_strlit("enabled");
    reveal_strlit("entry");
    reveal_strlit("verbs");
    assert("name"@.len() == 4 && "enabled"@.len() == 7 && "entry"@.len() == 5 && "verbs"@.len()
        == 5);
    assert("entry"@[0] == 'e' && "verbs"@[0] == 'v');
    let items = reg.map_values(|p: PluginV| plugin_json(p));
    assert(registry_json(reg).field("plugins"@) == Some(JsonV::List(items)));
    assert(items[i] == plugin_json(reg[i]));
}

/// The plugin of a name is the first that has it; it is called only where it is enabled.
pub proof fn law_plugin_found(reg: Seq<PluginV>, name: Seq<char>, i: int)
    requires
        0 <= i < reg.len(),
        reg[i].name == name,
        forall|k: int| 0 <= k < i ==> (#[trigger] reg[k]).name != name,
    ensures
        plugin_at(reg, name, 0) == Some(i),
        callable(reg, name) == reg[i].enabled,
{
    lemma_plugin_first(reg, name, 0, i);
}

proof fn lemma_plugin_first(reg: Seq<PluginV>, name: Seq<char>, from: int, i: int)
    requires
        0 <= from <= i < reg.len(),
        reg[i].name == name,
        forall|k: int| from <= k < i ==> (#[trigger] reg[k]).name != name,
    ensures
        plugin_at(reg, name, from) == Some(i),
    decreases i - from,
{
    if from < i {
        assert(reg[from].name != name);
        lemma_plugin_first(reg, name, from + 1, i);
    }
}

/// What is installed is enabled, and has the name, the entry and the verbs of its manifest; it
/// comes behind what is there. A name that is taken is refused, and so is what cannot be read.
pub proof fn law_installation(m: ManifestV, reg: Seq<PluginV>, why: Seq<char>)
    ensures
        !has_plugin(reg, m.name) ==> (installation(Ok(m), Ok(reg)) matches Ok((plugin, now))
            && plugin == m && now.drop_last() == reg && now.len() == reg.len() + 1
            && now.last().name == m.name && now.last().entry == m.entry && now.last().verbs
            == m.verbs && now.last().enabled),
        has_plugin(reg, m.name) ==> (installation(Ok(m), Ok(reg)) matches Err(e) && e.code == 1),
        installation(Err(why), Ok(reg)) matches Err(e) && e.code == 1,
        installation(Ok(m), Err(why)) matches Err(e) && e.code == 1,
{
    assert(reg.push(installed(m)).drop_last() =~= reg);
}

/// Uninstalling and enabling need the plugin to be there; what is enabled can be called, what is
/// disabled cannot, and everything else of the registry stays.
pub proof fn law_changes(reg: Seq<PluginV>, name: Seq<char>, enabled: bool)
    ensures
        uninstallation(Ok(reg), name) is Ok <==> has_plugin(reg, name),
        uninstallation(Ok(reg), name) matches Ok((now, _)) ==> !has_plugin(now, name),
        enabling(Ok(reg), name, enabled) is Ok <==> has_plugin(reg, name),
        enabling(Ok(reg), name, enabled) matches Ok((now, _)) ==> now.len() == reg.len()
            && callable(now, name) == enabled && forall|k: int|
            0 <= k < reg.len() ==> (#[trigger] now[k]).name == reg[k].name && now[k].entry
                == reg[k].entry && now[k].verbs == reg[k].verbs && (reg[k].name != name
                ==> now[k].enabled == reg[k].enabled),
{
    law_uninstalled(reg, name);
    lemma_plugin_there(reg, name, 0);
    if let Some(i) = plugin_at(reg, name, 0) {
        let now = with_enabled(reg, i, enabled);
        law_set_enabled(reg, i, enabled);
        assert forall|k: int| 0 <= k < i implies (#[trigger] now[k]).name != name by {
            assert(reg[k].name != name);
        }
        lemma_plugin_first(now, name, 0, i);
    }
}

proof fn lemma_plugin_there(reg: Seq<PluginV>, name: Seq<char>, from: int)
    requires
        0 <= from <= reg.len(),
    ensures
        match plugin_at(reg, name, from) {
            Some(i) => from <= i < reg.len() && reg[i].name == name && forall|k: int|
                from <= k < i ==> (#[trigger] reg[k]).name != name,
            None => forall|k: int| from <= k < reg.len() ==> (#[trigger] reg[k]).name != name,
        },
    decreases reg.len() - from,
{
    if from < reg.len() {
        lemma_plugin_there(reg, name, from + 1);
    }
}

/// What is said of a plugin on its line: its name, whether it is enabled, its entry and its verbs,
/// in this order; the lines stand in the order of the plugins.
pub proof fn law_plugin_lines(list: Seq<PluginV>, p: PluginV)
    ensures
        plugin_lines(seq![]).len() == 0,
        plugin_lines(list.push(p)) == plugin_lines(list) + plugin_line(p),
        p.enabled ==> plugin_line(p) == joined(
            seq![p.name, "enabled"@, p.entry, joined(p.verbs, ","@)],
            " "@,
        ) + "\n"@,
        !p.enabled ==> plugin_line(p) == joined(
            seq![p.name, "disabled"@, p.entry, joined(p.verbs, ","@)],
            " "@,
        ) + "\n"@,
{
    assert(list.push(p).drop_last() =~= list);
    let word = if p.enabled {
        "enabled"@
    } else {
        "disabled"@
    };
    let words = seq![p.name, word, p.entry, joined(p.verbs, ","@)];
    let three = words.drop_last();
    let two = three.drop_last();
    let one = two.drop_last();
    assert(one.len() == 1 && joined(one, " "@) == p.name);
    assert(joined(two, " "@) == p.name + " "@ + word);
    assert(joined(three, " "@) == p.name + " "@ + word + " "@ + p.entry);
}

/// Plugins by name: all of them, each once, none before one whose name comes first.
pub proof fn law_plugins_in_order(reg: Seq<PluginV>, out: Seq<PluginV>, i: int, j: int)
    requires
        by_name(reg, out),
        0 <= i < j < out.len(),
    ensures
        out.len() == reg.len(),
        crate::text::text_le(out[i].name, out[j].name),
        exists|from: Seq<int>|
            from.no_duplicates() && #[trigger] from.len() == reg.len() && forall|k: int|
                0 <= k < from.len() ==> 0 <= #[trigger] from[k] < reg.len() && out[k]
                    == reg[from[k]],
{
    let (names, order) = choose|names: Seq<String>, order: Seq<usize>|
        {
            &&& names.len() == reg.len()
            &&& forall|i: int| 0 <= i < reg.len() ==> (#[trigger] names[i])@ == reg[i].name
            &&& #[trigger] ordering(names, order)
            &&& out == picked(reg, order)
        };
    assert(crate::order::comes_first(names, order[i], order[j]));
    assert(names[order[i] as int]@ == reg[order[i] as int].name);
    assert(names[order[j] as int]@ == reg[order[j] as int].name);
    let from = order.map_values(|k: usize| k as int);
    assert(from.no_duplicates()) by {
        assert forall|a: int, b: int|
            0 <= a < from.len() && 0 <= b < from.len() && a != b implies from[a] != from[b] by {
            assert(order[a] != order[b]);
        }
    }
    assert(from.len() == reg.len());
}

/// What each subcommand asks for, of the one word behind it; with none or with more words it is
/// refused. `--json` may stand anywhere, and is no word of its own.
pub proof fn law_plugin_commands(
    x: Seq<char>,
    rest: Seq<Seq<char>>,
    json: bool,
    front: Seq<Seq<char>>,
)
    requires
        !front.contains("--json"@),
    ensures
        dispatched("list"@, rest, json) == Ok::<CommandV, EndingV>(CommandV::List(json)),
        dispatched("install"@, seq![x], json) == Ok::<CommandV, EndingV>(CommandV::Install(x)),
        dispatched("uninstall"@, seq![x], json) == Ok::<CommandV, EndingV>(CommandV::Uninstall(x)),
        dispatched("enable"@, seq![x], json) == Ok::<CommandV, EndingV>(
            CommandV::SetEnabled(x, true),
        ),
        dispatched("disable"@, seq![x], json) == Ok::<CommandV, EndingV>(
            CommandV::SetEnabled(x, false),
        ),
        dispatched("--help"@, rest, json) == Err::<CommandV, EndingV>(success(USAGE@)),
        rest.len() != 1 ==> (dispatched("install"@, rest, json) matches Err(e) && e.code == 2),
        rest.len() != 1 ==> (dispatched("uninstall"@, rest, json) matches Err(e) && e.code == 2),
        rest.len() != 1 ==> (dispatched("enable"@, rest, json) matches Err(e) && e.code == 2),
        rest.len() != 1 ==> (dispatched("disable"@, rest, json) matches Err(e) && e.code == 2),
        without_json(front) == front,
        without_json(front + seq!["--json"@] + rest) == front + rest,
{
    reveal_strlit("list");
    reveal_strlit("install");
    reveal_strlit("uninstall");
    reveal_strlit("enable");
    reveal_strlit("disable");
    reveal_strlit("--help");
    assert("list"@.len() == 4 && "install"@.len() == 7 && "uninstall"@.len() == 9);
    assert("enable"@.len() == 6 && "disable"@.len() == 7 && "--help"@.len() == 6);
    assert("install"@[0] == 'i' && "disable"@[0] == 'd' && "enable"@[0] == 'e' && "--help"@[0]
        == '-');
    let args = front + seq!["--json"@] + rest;
    let n = front.len() as int;
    assert(args[n] == "--json"@);
    args.index_of_first_ensures("--json"@);
    front.index_of_first_ensures("--json"@);
    let i = args.index_of_first("--json"@)->0;
    if i < n {
        assert(front[i] == "--json"@);
    }
    assert(args.take(n) + args.skip(n + 1) =~= front + rest);
}

/// Where the data of plugins are: below the directory that is named for data, else below the home
/// directory; and what is undone of an installation that failed.
pub proof fn law_plugin_places(dir: Seq<char>, home: Seq<char>, path: Seq<char>, why: Seq<char>)
    requires
        dir.len() > 0,
        home.len() > 0,
    ensures
        base_of(Some(dir), Some(home)) == Ok::<Seq<char>, Seq<char>>(path_joined(dir, "cmux"@)),
        base_of(None, Some(home)) == Ok::<Seq<char>, Seq<char>>(
            path_joined(home, ".local/share/cmux"@),
        ),
        base_of(None, None) is Err,
        !install_undone(InstallStep::CreateDirectory, path, why).0,
        install_undone(InstallStep::WriteManifest, path, why).0,
        install_undone(InstallStep::SaveRegistry, path, why).0,
        install_undone(InstallStep::SaveRegistry, path, why).1.code == 1,
{
}

/// A registry that is not there, or is blank, is empty; one that cannot be read is a fault.
pub proof fn law_registry_loaded(file: RegistryFile, path: Seq<char>)
    ensures
        file is Missing ==> registry_loaded(file, path) == Ok::<Seq<PluginV>, Seq<char>>(seq![]),
        file is Failed ==> registry_loaded(file, path) is Err,
        file matches RegistryFile::Text { content, read } ==> {
            &&& blank(content@) ==> registry_loaded(file, path) == Ok::<Seq<PluginV>, Seq<char>>(
                seq![],
            )
            &&& !blank(content@) ==> (read matches Ok(reg) ==> registry_loaded(file, path) == Ok::<
                Seq<PluginV>,
                Seq<char>,
            >(reg@))
            &&& !blank(content@) && read is Err ==> registry_loaded(file, path) is Err
        },
{
}

/// A plugin is read from a list too: its name, whether it is enabled, its entry and its verbs, in
/// this order.
pub proof fn law_plugin_list_read(p: PluginV)
    ensures
        plugin_from(
            JsonV::List(
                seq![
                    JsonV::Text(p.name),
                    JsonV::Bool(p.enabled),
                    JsonV::Text(p.entry),
                    text_list(p.verbs),
                ],
            ),
        ) == Some(p),
{
    let items = p.verbs.map_values(|t: Seq<char>| JsonV::Text(t));
    assert(items.map_values(|v: JsonV| v->Text_0) =~= p.verbs);
}

/// What is said where something cannot be done: which command, and why.
pub proof fn law_plugin_messages(m: ManifestV, reg: Seq<PluginV>, name: Seq<char>, why: Seq<char>)
    ensures
        has_plugin(reg, m.name) ==> (installation(Ok(m), Ok(reg)) matches Err(e) && e.err == Some(
            "cmux plugin "@ + "install"@ + ": "@ + ("a plugin named "@ + quoted(m.name)
                + " is already installed"@),
        )),
        installation(Err(why), Ok(reg)) matches Err(e) && e.err == Some(
            "cmux plugin "@ + "install"@ + ": "@ + why,
        ),
        installation(Ok(m), Err(why)) matches Err(e) && e.err == Some(
            "cmux plugin "@ + "install"@ + ": "@ + why,
        ),
        uninstallation(Err(why), name) matches Err(e) && e.err == Some(
            "cmux plugin "@ + "uninstall"@ + ": "@ + why,
        ),
        enabling(Err(why), name, true) matches Err(e) && e.err == Some(
            "cmux plugin "@ + "enable"@ + ": "@ + why,
        ),
        enabling(Err(why), name, false) matches Err(e) && e.err == Some(
            "cmux plugin "@ + "disable"@ + ": "@ + why,
        ),
        unknown_plugin(name, why).err == Some(
            "cmux plugin "@ + name + ": "@ + ("no plugin named "@ + quoted(why)
                + " is installed"@),
        ),
        blank(m.name) ==> manifest_fault(m) == Some(
            "manifest missing required field [plugin] name"@,
        ),
        !blank(m.name) && blank(m.entry) ==> manifest_fault(m) == Some(
            "manifest missing required field [plugin] entry"@,
        ),
        !blank(m.name) && !blank(m.entry) && m.verbs.len() == 0 ==> manifest_fault(m) == Some(
            "manifest missing required field [plugin] verbs"@,
        ),
{
}

} // verus!
