//! Command lines: which of them call a verb, with which flags, and the spellings that stand for
//! others.

use vstd::prelude::*;

use crate::answers::{failed, failure, succeeded, success, Ending};
use crate::flags::{FlagMap, FlagsV, UsageError};
use crate::text::{
    cut, debug_quoted, law_cut, opt_text, owned, quoted, same, split_once, starts_with, tail, texts,
};
use crate::verbs::{
    law_verb_of_name, lemma_verb_plain, verb_allows, verb_by_name, verb_name, verb_of, verb_switch, Verb,
};

verus! {

/// What the first word of a command line that is no global flag asks for.
#[derive(Clone, Copy, Debug, PartialEq, Eq, Structural)]
pub enum FirstCommand {
    Other,
    Help,
    Verb,
}

/// The flags that every verb takes.
#[derive(Debug)]
pub struct GlobalArgs {
    pub session: Option<String>,
    pub socket: Option<String>,
    pub json: bool,
}

/// What a `GlobalArgs` holds.
pub struct GlobalV {
    pub session: Option<Seq<char>>,
    pub socket: Option<Seq<char>>,
    pub json: bool,
}

impl View for GlobalArgs {
    type V = GlobalV;

    open spec fn view(&self) -> GlobalV {
        GlobalV {
            session: opt_text(self.session),
            socket: opt_text(self.socket),
            json: self.json,
        }
    }
}

/// A verb with its flags.
#[derive(Debug)]
pub struct CliArgs {
    pub global: GlobalArgs,
    pub verb: Verb,
    pub flags: FlagMap,
}

/// A command line that was understood.
#[derive(Debug)]
pub enum Parsed {
    Help,
    Command(CliArgs),
}

/// What a `Parsed` holds.
pub enum ParsedV {
    Help,
    Command(GlobalV, Verb, FlagsV),
}

impl View for Parsed {
    type V = ParsedV;

    open spec fn view(&self) -> ParsedV {
        match self {
            Parsed::Help => ParsedV::Help,
            Parsed::Command(c) => ParsedV::Command(c.global@, c.verb, c.flags@),
        }
    }
}

// ---- the first word -----------------------------------------------------------------------

/// The first word from position `i` on, past the global flags.
pub open spec fn first_from(args: Seq<Seq<char>>, i: int) -> FirstCommand
    decreases args.len() + 1 - i,
{
    if i < 0 || i >= args.len() {
        FirstCommand::Other
    } else if args[i] == "--socket"@ || args[i] == "--session"@ {
        first_from(args, i + 2)
    } else if args[i] == "--json"@ {
        first_from(args, i + 1)
    } else if args[i] == "-h"@ || args[i] == "--help"@ {
        FirstCommand::Help
    } else if "--"@.is_prefix_of(args[i]) {
        FirstCommand::Other
    } else if args[i] == "help"@ {
        FirstCommand::Help
    } else if verb_of(args[i]) is Some {
        FirstCommand::Verb
    } else {
        FirstCommand::Other
    }
}

pub fn first_command_arg(args: &[String]) -> (r: FirstCommand)
    ensures
        r == first_from(texts(args@), 0),
{
    let mut i: usize = 0;
    while i < args.len()
        invariant
            i <= args.len(),
            first_from(texts(args@), 0) == first_from(texts(args@), i as int),
        decreases args.len() - i,
    {
        let arg: &str = args[i].as_str();
        assert(texts(args@)[i as int] == arg@);
        if same(arg, "--socket") || same(arg, "--session") {
            if args.len() - i <= 2 {
                assert(first_from(texts(args@), i + 2) == FirstCommand::Other);
                return FirstCommand::Other;
            }
            i = i + 2;
        } else if same(arg, "--json") {
            i = i + 1;
        } else if same(arg, "-h") || same(arg, "--help") {
            return FirstCommand::Help;
        } else if starts_with(arg, "--") {
            return FirstCommand::Other;
        } else if same(arg, "help") {
            return FirstCommand::Help;
        } else if verb_by_name(arg).is_some() {
            return FirstCommand::Verb;
        } else {
            return FirstCommand::Other;
        }
    }
    FirstCommand::Other
}

/// Whether a command line is one for the control socket, or asks for help.
pub fn is_cli_invocation(args: &[String]) -> (r: bool)
    ensures
        r == (first_from(texts(args@), 0) != FirstCommand::Other),
{
    first_command_arg(args) != FirstCommand::Other
}

// ---- the whole line -----------------------------------------------------------------------

/// A flag without the dashes before it.
pub open spec fn undashed(s: Seq<char>) -> Seq<char>
    decreases s.len(),
{
    if "--"@.is_prefix_of(s) && s.len() >= 2 {
        undashed(s.skip(2))
    } else {
        s
    }
}

fn strip_dashes(s: &str) -> (r: String)
    ensures
        r@ == undashed(s@),
{
    let mut rest: String = owned(s);
    proof {
        reveal_strlit("--");
    }
    while starts_with(rest.as_str(), "--")
        invariant
            undashed(rest@) == undashed(s@),
            "--"@.len() == 2,
        decreases rest@.len(),
    {
        rest = tail(rest.as_str(), 2);
    }
    rest
}

/// The name of a flag, and the value that a switch carries behind an equals sign.
pub open spec fn flag_parts(v: Verb, arg: Seq<char>) -> (Seq<char>, Option<Seq<char>>) {
    match cut(undashed(arg), '=') {
        Some((name, value)) => if verb_switch(v, name) {
            (name, Some(value))
        } else {
            (undashed(arg), None)
        },
        None => (undashed(arg), None),
    }
}

fn split_flag(v: Verb, arg: &str) -> (r: (String, Option<String>))
    ensures
        (r.0@, opt_text(r.1)) == flag_parts(v, arg@),
{
    let name: String = strip_dashes(arg);
    match split_once(name.as_str(), '=') {
        Some((front, value)) => {
            if v.is_switch(front.as_str()) {
                (front, Some(value))
            } else {
                (name, None)
            }
        },
        None => (name, None),
    }
}

/// Whether a switch stands alone: nothing follows it, or another flag does.
pub open spec fn stands_alone(args: Seq<Seq<char>>, i: int) -> bool {
    i + 1 >= args.len() || "--"@.is_prefix_of(args[i + 1])
}

/// The value that follows a flag.
pub open spec fn value_behind(args: Seq<Seq<char>>, i: int, flag: Seq<char>) -> Result<
    Seq<char>,
    Seq<char>,
> {
    if i + 1 < args.len() {
        Ok(args[i + 1])
    } else {
        Err(flag + " needs a value"@)
    }
}

pub fn value_after(args: &[String], index: usize, flag: &str) -> (r: Result<String, UsageError>)
    requires
        index < args.len(),
    ensures
        match r {
            Ok(v) => value_behind(texts(args@), index as int, flag@) == Ok::<Seq<char>, Seq<char>>(
                v@,
            ),
            Err(e) => value_behind(texts(args@), index as int, flag@) == Err::<
                Seq<char>,
                Seq<char>,
            >(e.0@),
        },
{
    if args.len() - index > 1 {
        Ok(owned(args[index + 1].as_str()))
    } else {
        let mut message: String = owned(flag);
        message.append(" needs a value");
        Err(UsageError(message))
    }
}

/// The words that ask for help wherever they stand.
pub open spec fn asks_help(arg: Seq<char>) -> bool {
    arg == "-h"@ || arg == "--help"@ || arg == "help"@
}

/// The command line from position `i` on, with what was read before it.
pub open spec fn parsed_from(
    args: Seq<Seq<char>>,
    i: int,
    global: GlobalV,
    verb: Option<Verb>,
    flags: FlagsV,
) -> Result<ParsedV, Seq<char>>
    decreases args.len() - i,
{
    if i < 0 || i >= args.len() {
        match verb {
            Some(v) => Ok(ParsedV::Command(global, v, flags)),
            None => Err("missing verb"@),
        }
    } else if asks_help(args[i]) {
        Ok(ParsedV::Help)
    } else if args[i] == "--json"@ {
        parsed_from(args, i + 1, GlobalV { json: true, ..global }, verb, flags)
    } else if args[i] == "--socket"@ {
        match value_behind(args, i, args[i]) {
            Ok(v) => parsed_from(args, i + 2, GlobalV { socket: Some(v), ..global }, verb, flags),
            Err(e) => Err(e),
        }
    } else if args[i] == "--session"@ {
        match value_behind(args, i, args[i]) {
            Ok(v) => parsed_from(args, i + 2, GlobalV { session: Some(v), ..global }, verb, flags),
            Err(e) => Err(e),
        }
    } else {
        match verb {
            None => if verb_of(args[i]) is Some {
                parsed_from(args, i + 1, global, verb_of(args[i]), flags)
            } else if "--"@.is_prefix_of(args[i]) {
                Err("unknown global flag "@ + quoted(args[i]))
            } else {
                Err("unknown argument "@ + quoted(args[i]))
            },
            Some(v) => if args[i] == "--exec"@ {
                if !verb_allows(v, "exec"@) {
                    Err("unknown flag --exec for "@ + verb_name(v))
                } else if flags.argv is Some {
                    Err("duplicate --exec"@)
                } else if i + 1 >= args.len() || args[i + 1] != "--"@ {
                    Err("--exec must be followed by \"--\" and the command argv"@)
                } else if i + 2 >= args.len() {
                    Err("--exec needs a command after \"--\""@)
                } else {
                    Ok(
                        ParsedV::Command(
                            global,
                            v,
                            FlagsV { argv: Some(args.skip(i + 2)), ..flags },
                        ),
                    )
                }
            } else if "--"@.is_prefix_of(args[i]) {
                let (name, inline) = flag_parts(v, args[i]);
                if !verb_allows(v, name) {
                    Err("unknown flag "@ + quoted(args[i]) + " for "@ + verb_name(v))
                } else {
                    let (value, next) = if inline is Some {
                        (Ok(inline->0), i + 1)
                    } else if verb_switch(v, name) && stands_alone(args, i) {
                        (Ok("true"@), i + 1)
                    } else {
                        (value_behind(args, i, args[i]), i + 2)
                    };
                    match value {
                        Err(e) => Err(e),
                        Ok(value) => if flags.values.dom().contains(name) {
                            Err("duplicate flag "@ + quoted(args[i]))
                        } else {
                            parsed_from(
                                args,
                                next,
                                global,
                                verb,
                                FlagsV { values: flags.values.insert(name, value), ..flags },
                            )
                        },
                    }
                }
            } else {
                Err("unexpected argument "@ + quoted(args[i]))
            },
        }
    }
}

/// What a command line says.
pub open spec fn parsed(args: Seq<Seq<char>>) -> Result<ParsedV, Seq<char>> {
    if first_from(args, 0) == FirstCommand::Help {
        Ok(ParsedV::Help)
    } else {
        parsed_from(
            args,
            0,
            GlobalV { session: None, socket: None, json: false },
            None,
            FlagsV { values: Map::empty(), argv: None },
        )
    }
}

/// A result with its error as text.
pub open spec fn parsed_result(r: Result<Parsed, UsageError>) -> Result<ParsedV, Seq<char>> {
    match r {
        Ok(p) => Ok(p@),
        Err(e) => Err(e.0@),
    }
}

/// A message that ends in the quoted text of an argument.
fn quoting(message: &str, arg: &str) -> (e: UsageError)
    ensures
        e.0@ == message@ + quoted(arg@),
{
    let mut out: String = owned(message);
    let shown: String = debug_quoted(arg);
    out.append(shown.as_str());
    UsageError(out)
}

/// The command behind `--exec --` at position `i`.
fn exec_argv(args: &[String], i: usize, v: Verb, had: bool) -> (r: Result<Vec<String>, UsageError>)
    requires
        i < args.len(),
    ensures
        match r {
            Ok(argv) => {
                &&& verb_allows(v, "exec"@) && !had
                &&& i + 2 < args.len() && texts(args@)[i + 1] == "--"@
                &&& texts(argv@) == texts(args@).skip(i + 2)
            },
            Err(e) => e.0@ == if !verb_allows(v, "exec"@) {
                "unknown flag --exec for "@ + verb_name(v)
            } else if had {
                "duplicate --exec"@
            } else if i + 1 >= args.len() || texts(args@)[i + 1] != "--"@ {
                "--exec must be followed by \"--\" and the command argv"@
            } else {
                "--exec needs a command after \"--\""@
            } && (!verb_allows(v, "exec"@) || had || i + 2 >= args.len() || texts(args@)[i + 1]
                != "--"@),
        },
{
    if !v.allows("exec") {
        let mut message: String = "unknown flag --exec for ".to_string();
        message.append(v.name());
        return Err(UsageError(message));
    }
    if had {
        return Err(UsageError("duplicate --exec".to_string()));
    }
    let marked: bool = args.len() - i > 1 && same(args[i + 1].as_str(), "--");
    if !marked {
        return Err(
            UsageError("--exec must be followed by \"--\" and the command argv".to_string()),
        );
    }
    if args.len() - i <= 2 {
        return Err(UsageError("--exec needs a command after \"--\"".to_string()));
    }
    let mut argv: Vec<String> = Vec::new();
    let mut k: usize = i + 2;
    while k < args.len()
        invariant
            i + 2 <= k <= args.len(),
            texts(argv@) == texts(args@).subrange(i + 2, k as int),
        decreases args.len() - k,
    {
        let ghost before = argv@;
        let word: String = owned(args[k].as_str());
        argv.push(word);
        k = k + 1;
        assert(texts(argv@) =~= texts(before).push(word@));
        assert(texts(argv@) =~= texts(args@).subrange(i + 2, k as int));
    }
    assert(texts(args@).subrange(i + 2, args@.len() as int) =~= texts(args@).skip(i + 2));
    Ok(argv)
}

/// Reads a command line.
pub fn parse(args: &[String]) -> (r: Result<Parsed, UsageError>)
    ensures
        parsed_result(r) == parsed(texts(args@)),
{
    if first_command_arg(args) == FirstCommand::Help {
        return Ok(Parsed::Help);
    }
    let mut global: GlobalArgs = GlobalArgs { session: None, socket: None, json: false };
    let mut flags: FlagMap = FlagMap::new();
    let mut verb: Option<Verb> = None;
    let mut i: usize = 0;
    while i < args.len()
        invariant
            i <= args.len(),
            parsed(texts(args@)) == parsed_from(texts(args@), i as int, global@, verb, flags@),
        decreases args.len() - i,
    {
        let arg: &str = args[i].as_str();
        assert(texts(args@)[i as int] == arg@);
        if same(arg, "-h") || same(arg, "--help") || same(arg, "help") {
            return Ok(Parsed::Help);
        }
        if same(arg, "--json") {
            global.json = true;
            i = i + 1;
            continue ;
        }
        if same(arg, "--socket") || same(arg, "--session") {
            match value_after(args, i, arg) {
                Ok(value) => {
                    if same(arg, "--socket") {
                        global.socket = Some(value);
                    } else {
                        global.session = Some(value);
                    }
                    i = i + 2;
                    continue ;
                },
                Err(e) => {
                    return Err(e);
                },
            }
        }
        match verb {
            None => {
                match verb_by_name(arg) {
                    Some(v) => {
                        verb = Some(v);
                        i = i + 1;
                    },
                    None => {
                        if starts_with(arg, "--") {
                            return Err(quoting("unknown global flag ", arg));
                        }
                        return Err(quoting("unknown argument ", arg));
                    },
                }
            },
            Some(v) => {
                if same(arg, "--exec") {
                    return match exec_argv(args, i, v, flags.argv.is_some()) {
                        Ok(argv) => {
                            flags.argv = Some(argv);
                            Ok(Parsed::Command(CliArgs { global, verb: v, flags }))
                        },
                        Err(e) => Err(e),
                    };
                }
                if !starts_with(arg, "--") {
                    return Err(quoting("unexpected argument ", arg));
                }
                let (name, inline) = split_flag(v, arg);
                if !v.allows(name.as_str()) {
                    let mut e: UsageError = quoting("unknown flag ", arg);
                    e.0.append(" for ");
                    e.0.append(v.name());
                    return Err(e);
                }
                let (value, step): (String, usize) = match inline {
                    Some(value) => (value, 1),
                    None => {
                        let alone: bool = v.is_switch(name.as_str()) && (args.len() - i <= 1
                            || starts_with(args[i + 1].as_str(), "--"));
                        if alone {
                            ("true".to_string(), 1)
                        } else {
                            match value_after(args, i, arg) {
                                Ok(value) => (value, 2),
                                Err(e) => {
                                    return Err(e);
                                },
                            }
                        }
                    },
                };
                if flags.insert(name.as_str(), value.as_str()) {
                    return Err(quoting("duplicate flag ", arg));
                }
                i = i + step;
            },
        }
    }
    match verb {
        Some(verb) => Ok(Parsed::Command(CliArgs { global, verb, flags })),
        None => Err(UsageError("missing verb".to_string())),
    }
}

// ---- laws of the command line -------------------------------------------------------------

/// Every flag that a command was given is one that its verb takes, and its verb stands in the
/// line; a command to run is never empty.
pub proof fn law_flags_allowed(args: Seq<Seq<char>>)
    ensures
        parsed(args) matches Ok(ParsedV::Command(_, v, flags)) ==> {
            &&& forall|name: Seq<char>|
                #[trigger] flags.values.dom().contains(name) ==> verb_allows(v, name)
            &&& flags.argv matches Some(argv) ==> verb_allows(v, "exec"@) && argv.len() > 0
            &&& args.contains(verb_name(v))
        },
{
    lemma_flags_allowed(
        args,
        0,
        GlobalV { session: None, socket: None, json: false },
        None,
        FlagsV { values: Map::empty(), argv: None },
    );
}

proof fn lemma_flags_allowed(
    args: Seq<Seq<char>>,
    i: int,
    global: GlobalV,
    verb: Option<Verb>,
    flags: FlagsV,
)
    requires
        0 <= i,
        flags.argv is None,
        match verb {
            Some(v) => args.contains(verb_name(v)) && forall|name: Seq<char>|
                #[trigger] flags.values.dom().contains(name) ==> verb_allows(v, name),
            None => flags.values == Map::<Seq<char>, Seq<char>>::empty(),
        },
    ensures
        parsed_from(args, i, global, verb, flags) matches Ok(ParsedV::Command(_, v, out)) ==> {
            &&& forall|name: Seq<char>|
                #[trigger] out.values.dom().contains(name) ==> verb_allows(v, name)
            &&& out.argv matches Some(argv) ==> verb_allows(v, "exec"@) && argv.len() > 0
            &&& args.contains(verb_name(v))
        },
    decreases args.len() - i,
{
    if i < args.len() && !asks_help(args[i]) {
        if args[i] == "--json"@ {
            lemma_flags_allowed(args, i + 1, GlobalV { json: true, ..global }, verb, flags);
        } else if args[i] == "--socket"@ {
            if i + 1 < args.len() {
                lemma_flags_allowed(
                    args,
                    i + 2,
                    GlobalV { socket: Some(args[i + 1]), ..global },
                    verb,
                    flags,
                );
            }
        } else if args[i] == "--session"@ {
            if i + 1 < args.len() {
                lemma_flags_allowed(
                    args,
                    i + 2,
                    GlobalV { session: Some(args[i + 1]), ..global },
                    verb,
                    flags,
                );
            }
        } else if verb is None {
            if verb_of(args[i]) is Some {
                assert(verb_name(verb_of(args[i])->0) == args[i]);
                assert(args.contains(args[i]));
                lemma_flags_allowed(args, i + 1, global, verb_of(args[i]), flags);
            }
        } else if args[i] != "--exec"@ && "--"@.is_prefix_of(args[i]) {
            let v = verb->0;
            let (name, inline) = flag_parts(v, args[i]);
            if verb_allows(v, name) {
                if inline is Some {
                    lemma_flags_allowed(
                        args,
                        i + 1,
                        global,
                        verb,
                        FlagsV { values: flags.values.insert(name, inline->0), ..flags },
                    );
                } else if verb_switch(v, name) && stands_alone(args, i) {
                    lemma_flags_allowed(
                        args,
                        i + 1,
                        global,
                        verb,
                        FlagsV { values: flags.values.insert(name, "true"@), ..flags },
                    );
                } else if i + 1 < args.len() {
                    lemma_flags_allowed(
                        args,
                        i + 2,
                        global,
                        verb,
                        FlagsV { values: flags.values.insert(name, args[i + 1]), ..flags },
                    );
                }
            }
        }
    }
}

/// A line that is read as a command past its global flags has a verb behind them.
proof fn lemma_command_recognised(args: Seq<Seq<char>>, i: int, global: GlobalV, flags: FlagsV)
    requires
        0 <= i,
    ensures
        parsed_from(args, i, global, None, flags) matches Ok(ParsedV::Command(_, _, _))
            ==> first_from(args, i) == FirstCommand::Verb,
    decreases args.len() - i,
{
    reveal_strlit("--json");
    reveal_strlit("--socket");
    reveal_strlit("--session");
    assert("--json"@.len() == 6 && "--socket"@.len() == 8 && "--session"@.len() == 9);
    if i < args.len() && !asks_help(args[i]) {
        if args[i] == "--json"@ {
            lemma_command_recognised(args, i + 1, GlobalV { json: true, ..global }, flags);
        } else if args[i] == "--socket"@ {
            if i + 1 < args.len() {
                let next = GlobalV { socket: Some(args[i + 1]), ..global };
                lemma_command_recognised(args, i + 2, next, flags);
            }
        } else if args[i] == "--session"@ {
            if i + 1 < args.len() {
                let next = GlobalV { session: Some(args[i + 1]), ..global };
                lemma_command_recognised(args, i + 2, next, flags);
            }
        } else if verb_of(args[i]) is Some {
            lemma_verb_plain(verb_of(args[i])->0);
            assert(verb_name(verb_of(args[i])->0) == args[i]);
        }
    }
}

/// Every line that is read as the command of a verb is known to be one before it is read.
pub proof fn law_commands_recognised(args: Seq<Seq<char>>)
    ensures
        parsed(args) matches Ok(ParsedV::Command(_, _, _)) ==> first_from(args, 0)
            == FirstCommand::Verb,
{
    lemma_command_recognised(
        args,
        0,
        GlobalV { session: None, socket: None, json: false },
        FlagsV { values: Map::empty(), argv: None },
    );
}

// ---- other spellings ----------------------------------------------------------------------

/// Where the first word stands that is no global flag and no value of one.
pub open spec fn command_from(args: Seq<Seq<char>>, i: int) -> int
    decreases args.len() + 1 - i,
{
    if i < 0 || i >= args.len() {
        args.len() as int
    } else if args[i] == "--socket"@ || args[i] == "--session"@ {
        command_from(args, i + 2)
    } else if args[i] == "--json"@ {
        command_from(args, i + 1)
    } else {
        i
    }
}

/// The position of the command word; the length of the line where there is none.
pub fn command_index(args: &[String]) -> (r: usize)
    ensures
        r == command_from(texts(args@), 0),
        r <= args.len(),
{
    let mut i: usize = 0;
    while i < args.len()
        invariant
            i <= args.len(),
            command_from(texts(args@), 0) == command_from(texts(args@), i as int),
        decreases args.len() - i,
    {
        let arg: &str = args[i].as_str();
        assert(texts(args@)[i as int] == arg@);
        if same(arg, "--socket") || same(arg, "--session") {
            if args.len() - i <= 2 {
                assert(command_from(texts(args@), i + 2) == args.len());
                return args.len();
            }
            i = i + 2;
        } else if same(arg, "--json") {
            i = i + 1;
        } else {
            return i;
        }
    }
    args.len()
}

/// The line with the words from `from` to `to` replaced by others.
pub open spec fn spliced(
    args: Seq<Seq<char>>,
    from: int,
    to: int,
    words: Seq<Seq<char>>,
) -> Seq<Seq<char>> {
    args.take(from) + words + args.skip(to)
}

/// `pane worktree create`, `list` and `remove` at the command word are `pane-worktree-create`,
/// `pane-worktree-list` and `pane-worktree-remove`.
pub open spec fn worktree_rewritten(args: Seq<Seq<char>>) -> Seq<Seq<char>> {
    let i = command_from(args, 0);
    if i + 2 < args.len() && args[i] == "pane"@ && args[i + 1] == "worktree"@ && (args[i + 2]
        == "create"@ || args[i + 2] == "list"@ || args[i + 2] == "remove"@) {
        spliced(args, i, i + 3, seq!["pane-worktree-"@ + args[i + 2]])
    } else {
        args
    }
}

/// `agent-pattern add <name>`, `list` and `remove <name>` at the command word are
/// `agent-pattern-add --name <name>`, `agent-pattern-list` and
/// `agent-pattern-remove --name <name>`.
pub open spec fn pattern_rewritten(args: Seq<Seq<char>>) -> Seq<Seq<char>> {
    let i = command_from(args, 0);
    if i + 1 < args.len() && args[i] == "agent-pattern"@ && (args[i + 1] == "add"@ || args[i + 1]
        == "list"@ || args[i + 1] == "remove"@) {
        let flat = "agent-pattern-"@ + args[i + 1];
        if args[i + 1] != "list"@ && i + 2 < args.len() && !"--"@.is_prefix_of(args[i + 2]) {
            spliced(args, i, i + 3, seq![flat, "--name"@, args[i + 2]])
        } else {
            spliced(args, i, i + 2, seq![flat])
        }
    } else {
        args
    }
}

/// Replaces the words of a line from `from` to `to` by others.
fn splice(args: &mut Vec<String>, from: usize, to: usize, words: Vec<String>)
    requires
        from <= to <= old(args).len(),
    ensures
        texts(final(args)@) == spliced(texts(old(args)@), from as int, to as int, texts(words@)),
{
    let ghost start = texts(args@);
    let mut out: Vec<String> = Vec::new();
    let mut i: usize = 0;
    while i < from
        invariant
            i <= from <= args.len(),
            start == texts(args@),
            texts(out@) == start.take(i as int),
        decreases from - i,
    {
        let ghost before = out@;
        let word: String = owned(args[i].as_str());
        out.push(word);
        i = i + 1;
        assert(texts(out@) =~= texts(before).push(word@));
        assert(texts(out@) =~= start.take(i as int));
    }
    let ghost front = texts(out@);
    i = 0;
    while i < words.len()
        invariant
            i <= words.len(),
            texts(out@) == front + texts(words@).take(i as int),
        decreases words.len() - i,
    {
        let ghost before = out@;
        let word: String = owned(words[i].as_str());
        out.push(word);
        i = i + 1;
        assert(texts(out@) =~= texts(before).push(word@));
        assert(texts(out@) =~= front + texts(words@).take(i as int));
    }
    assert(texts(words@).take(words@.len() as int) =~= texts(words@));
    let ghost middle = texts(out@);
    i = to;
    while i < args.len()
        invariant
            to <= i <= args.len(),
            start == texts(args@),
            texts(out@) == middle + start.subrange(to as int, i as int),
        decreases args.len() - i,
    {
        let ghost before = out@;
        let word: String = owned(args[i].as_str());
        out.push(word);
        i = i + 1;
        assert(texts(out@) =~= texts(before).push(word@));
        assert(texts(out@) =~= middle + start.subrange(to as int, i as int));
    }
    assert(start.subrange(to as int, start.len() as int) =~= start.skip(to as int));
    *args = out;
}

pub fn rewrite_pane_worktree_alias(args: &mut Vec<String>)
    ensures
        texts(final(args)@) == worktree_rewritten(texts(old(args)@)),
{
    let i: usize = command_index(args.as_slice());
    if args.len() - i > 2 && same(args[i].as_str(), "pane") && same(args[i + 1].as_str(), "worktree")
    {
        let sub: String = owned(args[i + 2].as_str());
        if same(sub.as_str(), "create") || same(sub.as_str(), "list") || same(
            sub.as_str(),
            "remove",
        ) {
            let mut flat: String = "pane-worktree-".to_string();
            flat.append(sub.as_str());
            let words: Vec<String> = vec![flat];
            assert(texts(words@) =~= seq!["pane-worktree-"@ + sub@]);
            splice(args, i, i + 3, words);
        }
    }
}

pub fn rewrite_agent_pattern_alias(args: &mut Vec<String>)
    ensures
        texts(final(args)@) == pattern_rewritten(texts(old(args)@)),
{
    let i: usize = command_index(args.as_slice());
    if args.len() - i > 1 && same(args[i].as_str(), "agent-pattern") {
        let sub: String = owned(args[i + 1].as_str());
        let list: bool = same(sub.as_str(), "list");
        if same(sub.as_str(), "add") || list || same(sub.as_str(), "remove") {
            let mut flat: String = "agent-pattern-".to_string();
            flat.append(sub.as_str());
            if !list && args.len() - i > 2 && !starts_with(args[i + 2].as_str(), "--") {
                let name: String = owned(args[i + 2].as_str());
                let words: Vec<String> = vec![flat, "--name".to_string(), name];
                assert(texts(words@) =~= seq!["agent-pattern-"@ + sub@, "--name"@, name@]);
                splice(args, i, i + 3, words);
            } else {
                let words: Vec<String> = vec![flat];
                assert(texts(words@) =~= seq!["agent-pattern-"@ + sub@]);
                splice(args, i, i + 2, words);
            }
        }
    }
}

/// The command word stays where it is when only words behind its position change.
proof fn lemma_command_kept(a: Seq<Seq<char>>, b: Seq<Seq<char>>, from: int, i: int)
    requires
        0 <= from,
        command_from(a, from) == i,
        i < a.len(),
        i < b.len(),
        forall|k: int| 0 <= k < i ==> a[k] == b[k],
        b[i] != "--socket"@ && b[i] != "--session"@ && b[i] != "--json"@,
    ensures
        command_from(b, from) == i,
    decreases a.len() + 1 - from,
{
    lemma_command_behind(a, from);
    if from < i {
        assert(a[from] == b[from]);
        if a[from] == "--socket"@ || a[from] == "--session"@ {
            lemma_command_kept(a, b, from + 2, i);
        } else {
            lemma_command_kept(a, b, from + 1, i);
        }
    }
}

proof fn lemma_command_behind(a: Seq<Seq<char>>, from: int)
    requires
        0 <= from,
    ensures
        command_from(a, from) >= from || command_from(a, from) == a.len(),
    decreases a.len() + 1 - from,
{
    if from < a.len() {
        if a[from] == "--socket"@ || a[from] == "--session"@ {
            lemma_command_behind(a, from + 2);
        } else if a[from] == "--json"@ {
            lemma_command_behind(a, from + 1);
        }
    }
}

/// A command word that was rewritten starts with letters that no other spelling has.
proof fn lemma_flat_words(end: Seq<char>)
    ensures
        ({
            let word = "pane-worktree-"@ + end;
            word != "pane"@ && word != "agent-pattern"@ && word != "--socket"@ && word
                != "--session"@ && word != "--json"@
        }),
        ({
            let word = "agent-pattern-"@ + end;
            word != "pane"@ && word != "agent-pattern"@ && word != "--socket"@ && word
                != "--session"@ && word != "--json"@
        }),
{
    reveal_strlit("pane");
    reveal_strlit("agent-pattern");
    reveal_strlit("pane-worktree-");
    reveal_strlit("agent-pattern-");
    reveal_strlit("--socket");
    reveal_strlit("--session");
    reveal_strlit("--json");
    let p = "pane-worktree-"@ + end;
    let a = "agent-pattern-"@ + end;
    assert(p.len() >= 14 && a.len() >= 14);
    assert("pane"@.len() == 4 && "agent-pattern"@.len() == 13 && "--socket"@.len() == 8
        && "--session"@.len() == 9 && "--json"@.len() == 6);
}

/// Writing out the other spellings twice is writing them out once.
pub proof fn law_aliases_once(args: Seq<Seq<char>>)
    ensures
        worktree_rewritten(worktree_rewritten(args)) == worktree_rewritten(args),
        pattern_rewritten(pattern_rewritten(args)) == pattern_rewritten(args),
{
    let i = command_from(args, 0);
    lemma_command_behind(args, 0);
    let b = worktree_rewritten(args);
    if b != args {
        lemma_flat_words(args[i + 2]);
        assert(b[i] == "pane-worktree-"@ + args[i + 2]);
        assert forall|k: int| 0 <= k < i implies args[k] == b[k] by {}
        lemma_command_kept(args, b, 0, i);
    }
    let c = pattern_rewritten(args);
    if c != args {
        lemma_flat_words(args[i + 1]);
        assert(c[i] == "agent-pattern-"@ + args[i + 1]);
        assert forall|k: int| 0 <= k < i implies args[k] == c[k] by {}
        lemma_command_kept(args, c, 0, i);
    }
}

// ---- running ------------------------------------------------------------------------------

/// Who does what a verb asks for.
#[derive(Clone, Copy, Debug, PartialEq, Eq, Structural)]
pub enum Handler {
    ListSessions,
    KillSession,
    KillStale,
    RenameSession,
    LayoutExport,
    LayoutApply,
    LayoutExportAll,
    /// The session itself, which is sent a request.
    Session,
}

/// Who does what a verb asks for: the verbs about sessions and layout files are not sent as they
/// are.
pub open spec fn handler_of(v: Verb) -> Handler {
    match v {
        Verb::ListSessions => Handler::ListSessions,
        Verb::KillSession => Handler::KillSession,
        Verb::KillStale => Handler::KillStale,
        Verb::RenameSession => Handler::RenameSession,
        Verb::LayoutExport => Handler::LayoutExport,
        Verb::LayoutApply => Handler::LayoutApply,
        Verb::LayoutExportAll => Handler::LayoutExportAll,
        _ => Handler::Session,
    }
}

pub fn run_command(v: Verb) -> (r: Handler)
    ensures
        r == handler_of(v),
{
    match v {
        Verb::ListSessions => Handler::ListSessions,
        Verb::KillSession => Handler::KillSession,
        Verb::KillStale => Handler::KillStale,
        Verb::RenameSession => Handler::RenameSession,
        Verb::LayoutExport => Handler::LayoutExport,
        Verb::LayoutApply => Handler::LayoutApply,
        Verb::LayoutExportAll => Handler::LayoutExportAll,
        _ => Handler::Session,
    }
}

/// The verb of a line with its flags, or how the program ends without one.
pub fn run(args: &[String], usage: &str) -> (r: Result<CliArgs, Ending>)
    ensures
        match r {
            Ok(c) => parsed(texts(args@)) == Ok::<ParsedV, Seq<char>>(
                ParsedV::Command(c.global@, c.verb, c.flags@),
            ),
            Err(e) => match parsed(texts(args@)) {
                Ok(ParsedV::Help) => e@ == success(usage@),
                Ok(ParsedV::Command(..)) => false,
                Err(why) => e@ == failure(2, "cmux: "@ + why),
            },
        },
{
    match parse(args) {
        Ok(Parsed::Help) => Err(succeeded(owned(usage))),
        Ok(Parsed::Command(c)) => Ok(c),
        Err(e) => {
            let mut m: String = "cmux: ".to_string();
            m.append(e.0.as_str());
            Err(failed(2, m))
        },
    }
}

// ---- what a command line says -------------------------------------------------------------

/// A flag as it is written behind a verb: its name, and its value as the next word; where the verb
/// takes the flag without a value, the value stands behind an equals sign.
pub open spec fn flag_words(v: Verb, name: Seq<char>, value: Seq<char>) -> Seq<Seq<char>> {
    if verb_switch(v, name) {
        seq!["--"@ + name + seq!['='] + value]
    } else {
        seq!["--"@ + name, value]
    }
}

/// Flags as they are written, one behind the other.
pub open spec fn flags_words(v: Verb, list: Seq<(Seq<char>, Seq<char>)>) -> Seq<Seq<char>>
    decreases list.len(),
{
    if list.len() == 0 {
        seq![]
    } else {
        flag_words(v, list[0].0, list[0].1) + flags_words(v, list.skip(1))
    }
}

/// Whether a name can be written as a flag of a verb.
pub open spec fn can_be_flag(v: Verb, name: Seq<char>) -> bool {
    &&& verb_allows(v, name)
    &&& !name.contains('=')
    &&& !"--"@.is_prefix_of(name)
    &&& name != "json"@ && name != "socket"@ && name != "session"@ && name != "exec"@ && name
        != "help"@
}

/// The words before a verb: its session, its socket, and whether the answer is wanted as JSON.
pub open spec fn global_words(g: GlobalV) -> Seq<Seq<char>> {
    (match g.session {
        Some(s) => seq!["--session"@, s],
        None => seq![],
    }) + (match g.socket {
        Some(s) => seq!["--socket"@, s],
        None => seq![],
    }) + (if g.json {
        seq!["--json"@]
    } else {
        seq![]
    })
}

/// The words of a program that is run.
pub open spec fn exec_words(argv: Option<Seq<Seq<char>>>) -> Seq<Seq<char>> {
    match argv {
        Some(argv) => seq!["--exec"@, "--"@] + argv,
        None => seq![],
    }
}

/// A command line is read as what it says: the session, the socket and the form of the answer from
/// before the verb, the verb by its name, each flag with the value behind it and no other flag, and
/// the program that is run, word by word.
pub proof fn law_command_line_read(
    g: GlobalV,
    v: Verb,
    list: Seq<(Seq<char>, Seq<char>)>,
    argv: Option<Seq<Seq<char>>>,
)
    requires
        forall|k: int| 0 <= k < list.len() ==> can_be_flag(v, (#[trigger] list[k]).0),
        forall|j: int, k: int|
            0 <= j < k < list.len() ==> (#[trigger] list[j]).0 != (#[trigger] list[k]).0,
        argv matches Some(words) ==> words.len() > 0 && verb_allows(v, "exec"@),
    ensures
        parsed(global_words(g) + seq![verb_name(v)] + flags_words(v, list) + exec_words(argv))
            matches Ok(ParsedV::Command(global, verb, flags)) && {
            &&& global == g
            &&& verb == v
            &&& flags.argv == argv
            &&& forall|k: int|
                0 <= k < list.len() ==> flags.get((#[trigger] list[k]).0) == Some(list[k].1)
            &&& forall|name: Seq<char>| #[trigger]
                flags.values.dom().contains(name) ==> exists|k: int|
                    0 <= k < list.len() && (#[trigger] list[k]).0 == name
        },
{
    let front = global_words(g);
    let words = flags_words(v, list);
    let end = exec_words(argv);
    let args = front + seq![verb_name(v)] + words + end;
    let none = GlobalV { session: None, socket: None, json: false };
    let empty = FlagsV { values: Map::empty(), argv: None };
    let n = front.len() as int;
    lemma_global_read(args, g);
    lemma_verb_stands(v);
    law_verb_of_name(v);
    assert(args[n] == verb_name(v));
    assert(parsed_from(args, n, g, None, empty) == parsed_from(args, n + 1, g, Some(v), empty));
    let before = front + seq![verb_name(v)];
    lemma_flags_read(before, v, list, end, g, empty);
    let filled = FlagsV { values: filled_with(empty.values, list), argv: None };
    let at = (before + words).len() as int;
    assert(args =~= before + words + end);
    assert(parsed(args) == parsed_from(args, at, g, Some(v), filled));
    if let Some(run) = argv {
        reveal_strlit("--exec");
        reveal_strlit("--json");
        reveal_strlit("--socket");
        reveal_strlit("--session");
        reveal_strlit("--help");
        reveal_strlit("-h");
        reveal_strlit("help");
        assert("--exec"@.len() == 6 && "--exec"@[2] == 'e' && "--exec"@[0] == '-');
        assert("--json"@[2] == 'j' && "--json"@.len() == 6);
        assert("--socket"@.len() == 8 && "--session"@.len() == 9);
        assert("--help"@.len() == 6 && "--help"@[2] == 'h' && "-h"@.len() == 2 && "help"@.len() == 4);
        assert(args[at] == "--exec"@);
        assert(args[at + 1] == "--"@);
        assert(args.skip(at + 2) =~= run);
    } else {
        assert(args.len() == at);
    }
    lemma_filled(empty.values, list);
}

/// The values with each flag of a list put in.
pub open spec fn filled_with(
    values: Map<Seq<char>, Seq<char>>,
    list: Seq<(Seq<char>, Seq<char>)>,
) -> Map<Seq<char>, Seq<char>>
    decreases list.len(),
{
    if list.len() == 0 {
        values
    } else {
        filled_with(values.insert(list[0].0, list[0].1), list.skip(1))
    }
}

proof fn lemma_filled(values: Map<Seq<char>, Seq<char>>, list: Seq<(Seq<char>, Seq<char>)>)
    requires
        forall|j: int, k: int|
            0 <= j < k < list.len() ==> (#[trigger] list[j]).0 != (#[trigger] list[k]).0,
    ensures
        ({
            let all = filled_with(values, list);
            &&& forall|k: int|
                0 <= k < list.len() ==> all.dom().contains((#[trigger] list[k]).0) && all[list[k].0]
                    == list[k].1
            &&& forall|name: Seq<char>|
                (forall|k: int| 0 <= k < list.len() ==> (#[trigger] list[k]).0 != name) ==> (
                #[trigger] all.dom().contains(name) <==> values.dom().contains(name)) && all[name]
                    == values[name]
        }),
    decreases list.len(),
{
    if list.len() > 0 {
        let rest = list.skip(1);
        let next = values.insert(list[0].0, list[0].1);
        assert forall|j: int, k: int| 0 <= j < k < rest.len() implies (#[trigger] rest[j]).0 != (
        #[trigger] rest[k]).0 by {
            assert(list[j + 1].0 != list[k + 1].0);
        }
        lemma_filled(next, rest);
        let all = filled_with(values, list);
        assert(all == filled_with(next, rest));
        assert forall|k: int| 0 <= k < list.len() implies all.dom().contains((#[trigger] list[k]).0)
            && all[list[k].0] == list[k].1 by {
            if k == 0 {
                assert forall|m: int| 0 <= m < rest.len() implies (#[trigger] rest[m]).0
                    != list[0].0 by {
                    assert(list[0].0 != list[m + 1].0);
                }
                assert(all.dom().contains(list[0].0));
            } else {
                assert(rest[k - 1] == list[k]);
            }
        }
        assert forall|name: Seq<char>|
            (forall|k: int| 0 <= k < list.len() ==> (#[trigger] list[k]).0 != name) implies (
        #[trigger] all.dom().contains(name) <==> values.dom().contains(name)) && all[name]
            == values[name] by {
            assert(list[0].0 != name);
            assert forall|m: int| 0 <= m < rest.len() implies (#[trigger] rest[m]).0 != name by {
                assert(list[m + 1].0 != name);
            }
        }
    }
}

/// A verb's name is none of the words that are read before it.
proof fn lemma_verb_stands(v: Verb)
    ensures
        !asks_help(verb_name(v)),
        verb_name(v) != "--json"@ && verb_name(v) != "--socket"@ && verb_name(v) != "--session"@,
{
    lemma_verb_plain(v);
    lemma_verb_no_help(v);
    reveal_strlit("--");
    reveal_strlit("--json");
    reveal_strlit("--socket");
    reveal_strlit("--session");
    reveal_strlit("--help");
    assert("--json"@.take(2) =~= "--"@);
    assert("--socket"@.take(2) =~= "--"@);
    assert("--session"@.take(2) =~= "--"@);
    assert("--help"@.take(2) =~= "--"@);
}

proof fn lemma_verb_no_help(v: Verb)
    ensures
        verb_name(v) != "help"@ && verb_name(v) != "-h"@,
{
    reveal_strlit("help");
    reveal_strlit("-h");
    reveal_strlit("send");
    assert("help"@.len() == 4 && "help"@[0] == 'h' && "-h"@.len() == 2);
    crate::verbs::lemma_verb_long(v);
    if verb_name(v) == "send"@ {
        assert("send"@[0] == 's');
    }
}

/// The words before the verb are taken up.
proof fn lemma_global_read(args: Seq<Seq<char>>, g: GlobalV)
    requires
        global_words(g).is_prefix_of(args),
        args.len() > global_words(g).len(),
        exists|v: Verb| verb_name(v) == args[global_words(g).len() as int],
    ensures
        parsed(args) == parsed_from(
            args,
            global_words(g).len() as int,
            g,
            None,
            FlagsV { values: Map::empty(), argv: None },
        ),
{
    reveal_strlit("--json");
    reveal_strlit("--socket");
    reveal_strlit("--session");
    reveal_strlit("--help");
    reveal_strlit("-h");
    reveal_strlit("help");
    assert("--json"@.len() == 6 && "--json"@[2] == 'j');
    assert("--socket"@.len() == 8 && "--session"@.len() == 9);
    assert("--help"@.len() == 6 && "--help"@[2] == 'h' && "-h"@.len() == 2 && "help"@.len() == 4);
    let front = global_words(g);
    let v = choose|v: Verb| verb_name(v) == args[front.len() as int];
    lemma_verb_stands(v);
    law_verb_of_name(v);
    assert forall|i: int| 0 <= i < front.len() implies args[i] == #[trigger] front[i] by {
        assert(args.subrange(0, front.len() as int)[i] == args[i]);
    }
    reveal_with_fuel(first_from, 5);
    reveal_with_fuel(parsed_from, 4);
    let a = if g.session is Some {
        2int
    } else {
        0
    };
    let b = if g.socket is Some {
        a + 2
    } else {
        a
    };
    if let Some(s) = g.session {
        assert(front[0] == "--session"@ && front[1] == s);
    }
    if let Some(s) = g.socket {
        assert(front[a] == "--socket"@ && front[a + 1] == s);
    }
    if g.json {
        assert(front[b] == "--json"@);
    }
}

/// The flags behind the verb are taken up.
proof fn lemma_flags_read(
    before: Seq<Seq<char>>,
    v: Verb,
    list: Seq<(Seq<char>, Seq<char>)>,
    end: Seq<Seq<char>>,
    g: GlobalV,
    flags: FlagsV,
)
    requires
        forall|k: int| 0 <= k < list.len() ==> can_be_flag(v, (#[trigger] list[k]).0),
        forall|j: int, k: int|
            0 <= j < k < list.len() ==> (#[trigger] list[j]).0 != (#[trigger] list[k]).0,
        forall|k: int|
            0 <= k < list.len() ==> !flags.values.dom().contains((#[trigger] list[k]).0),
    ensures
        ({
            let args = before + flags_words(v, list) + end;
            parsed_from(args, before.len() as int, g, Some(v), flags) == parsed_from(
                args,
                (before + flags_words(v, list)).len() as int,
                g,
                Some(v),
                FlagsV { values: filled_with(flags.values, list), ..flags },
            )
        }),
    decreases list.len(),
{
    let args = before + flags_words(v, list) + end;
    let i = before.len() as int;
    if list.len() == 0 {
        assert(before + flags_words(v, list) =~= before);
    } else {
        let (name, value) = list[0];
        let rest = list.skip(1);
        let words = flag_words(v, name, value);
        let next = FlagsV { values: flags.values.insert(name, value), ..flags };
        let later = before + words;
        assert(can_be_flag(v, list[0].0));
        assert(args =~= later + flags_words(v, rest) + end);
        assert forall|k: int| 0 <= k < rest.len() implies can_be_flag(v, (#[trigger] rest[k]).0)
            && !next.values.dom().contains(rest[k].0) by {
            assert(rest[k] == list[k + 1]);
            assert(list[0].0 != list[k + 1].0);
        }
        assert forall|j: int, k: int| 0 <= j < k < rest.len() implies (#[trigger] rest[j]).0 != (
        #[trigger] rest[k]).0 by {
            assert(list[j + 1].0 != list[k + 1].0);
        }
        lemma_flags_read(later, v, rest, end, g, next);
        assert(args[i] == words[0]);
        lemma_flag_word(v, name, value);
        assert(!flags.values.dom().contains(list[0].0));
        if !verb_switch(v, name) {
            assert(args[i + 1] == words[1]);
        }
        assert(parsed_from(args, i, g, Some(v), flags) == parsed_from(
            args,
            later.len() as int,
            g,
            Some(v),
            next,
        ));
        assert(later + flags_words(v, rest) =~= before + flags_words(v, list));
        assert(filled_with(flags.values, list) == filled_with(next.values, rest));
    }
}

/// A flag's first word is read as the flag.
proof fn lemma_flag_word(v: Verb, name: Seq<char>, value: Seq<char>)
    requires
        can_be_flag(v, name),
    ensures
        ({
            let word = flag_words(v, name, value)[0];
            &&& "--"@.is_prefix_of(word)
            &&& !asks_help(word)
            &&& word != "--json"@ && word != "--socket"@ && word != "--session"@ && word
                != "--exec"@
            &&& flag_parts(v, word) == (if verb_switch(v, name) {
                (name, Some(value))
            } else {
                (name, None)
            })
        }),
{
    reveal_strlit("--");
    reveal_strlit("--json");
    reveal_strlit("--socket");
    reveal_strlit("--session");
    reveal_strlit("--exec");
    reveal_strlit("--help");
    reveal_strlit("json");
    reveal_strlit("socket");
    reveal_strlit("session");
    reveal_strlit("exec");
    reveal_strlit("help");
    reveal_strlit("-h");
    let word = flag_words(v, name, value)[0];
    let back = word.skip(2);
    assert(word.take(2) =~= "--"@);
    assert("--json"@.skip(2) =~= "json"@);
    assert("--socket"@.skip(2) =~= "socket"@);
    assert("--session"@.skip(2) =~= "session"@);
    assert("--exec"@.skip(2) =~= "exec"@);
    assert("--help"@.skip(2) =~= "help"@);
    assert("-h"@[1] == 'h' && "help"@[0] == 'h');
    assert(word[0] == '-' && word[1] == '-');
    if verb_switch(v, name) {
        assert(back =~= name + seq!['='] + value);
        law_cut(name, '=', value);
        lemma_flag_plain(name, seq!['='] + value);
        assert(name + (seq!['='] + value) =~= back);
        assert(back[name.len() as int] == '=');
        lemma_no_equals(back);
        assert(undashed(word) == undashed(back));
        assert(undashed(back) == back);
        assert(cut(back, '=') == Some((name, value)));
    } else {
        assert(back =~= name);
        law_cut(name, '=', value);
        assert(undashed(word) == undashed(back));
        assert(undashed(back) == name);
        assert(cut(name, '=') is None);
    }
    assert(!asks_help(word));
    assert(word != "--json"@ && word != "--socket"@);
    assert(word != "--session"@ && word != "--exec"@);
}

proof fn lemma_no_equals(s: Seq<char>)
    requires
        s.contains('='),
    ensures
        s != "json"@ && s != "socket"@ && s != "session"@ && s != "exec"@ && s != "help"@,
{
    reveal_strlit("json");
    reveal_strlit("socket");
    reveal_strlit("session");
    reveal_strlit("exec");
    reveal_strlit("help");
    let i = choose|i: int| 0 <= i < s.len() && s[i] == '=';
    assert("json"@.len() == 4 && "json"@[0] == 'j' && "json"@[1] == 's' && "json"@[2] == 'o'
        && "json"@[3] == 'n');
    assert("exec"@.len() == 4 && "exec"@[0] == 'e' && "exec"@[1] == 'x' && "exec"@[2] == 'e'
        && "exec"@[3] == 'c');
    assert("help"@.len() == 4 && "help"@[0] == 'h' && "help"@[1] == 'e' && "help"@[2] == 'l'
        && "help"@[3] == 'p');
    assert("socket"@.len() == 6 && "socket"@[0] == 's' && "socket"@[1] == 'o' && "socket"@[2] == 'c'
        && "socket"@[3] == 'k' && "socket"@[4] == 'e' && "socket"@[5] == 't');
    assert("session"@.len() == 7 && "session"@[0] == 's' && "session"@[1] == 'e' && "session"@[2]
        == 's' && "session"@[3] == 's' && "session"@[4] == 'i' && "session"@[5] == 'o'
        && "session"@[6] == 'n');
}

/// A name that does not start with dashes does not start with them with a value behind it.
proof fn lemma_flag_plain(name: Seq<char>, behind: Seq<char>)
    requires
        !"--"@.is_prefix_of(name),
        behind.len() > 0,
        behind[0] == '=',
    ensures
        !"--"@.is_prefix_of(name + behind),
{
    reveal_strlit("--");
    let s = name + behind;
    if "--"@.is_prefix_of(s) {
        assert(s.subrange(0, 2)[0] == '-' && s.subrange(0, 2)[1] == '-');
        assert(s[0] == '-' && s[1] == '-');
        assert(name.len() >= 2);
        assert(name.subrange(0, 2) =~= "--"@);
    }
}

/// A word that asks for help is answered with help wherever a flag may stand; what is asked of a
/// verb without a name is refused, and so is a flag that is given twice.
pub proof fn law_command_line_refused(
    v: Verb,
    name: Seq<char>,
    value: Seq<char>,
    other: Seq<char>,
    rest: Seq<Seq<char>>,
)
    requires
        can_be_flag(v, name),
    ensures
        parsed(seq![]) == Err::<ParsedV, Seq<char>>("missing verb"@),
        parsed(seq!["--help"@] + rest) == Ok::<ParsedV, Seq<char>>(ParsedV::Help),
        parsed(seq![verb_name(v), "--help"@] + rest) == Ok::<ParsedV, Seq<char>>(ParsedV::Help),
        parsed(
            seq![verb_name(v)] + flag_words(v, name, value) + flag_words(v, name, other) + rest,
        ) is Err,
{
    reveal_strlit("--json");
    reveal_strlit("--socket");
    reveal_strlit("--session");
    reveal_strlit("--help");
    assert("--help"@.len() == 6 && "--help"@[2] == 'h');
    assert("--json"@.len() == 6 && "--json"@[2] == 'j');
    assert("--socket"@.len() == 8 && "--session"@.len() == 9);
    let none = GlobalV { session: None, socket: None, json: false };
    let empty = FlagsV { values: Map::empty(), argv: None };
    lemma_verb_stands(v);
    lemma_verb_plain(v);
    law_verb_of_name(v);
    assert((seq!["--help"@] + rest)[0] == "--help"@);
    let asked = seq![verb_name(v), "--help"@] + rest;
    assert(asked[0] == verb_name(v) && asked[1] == "--help"@);
    reveal_with_fuel(parsed_from, 3);
    let first = flag_words(v, name, value);
    let second = flag_words(v, name, other);
    let args = seq![verb_name(v)] + first + second + rest;
    assert(args[0] == verb_name(v));
    assert(first_from(args, 0) == FirstCommand::Verb);
    let list = seq![(name, value)];
    let before = seq![verb_name(v)];
    assert(list.skip(1) =~= seq![]);
    assert(flags_words(v, list.skip(1)) =~= seq![]);
    assert(flags_words(v, list) =~= first);
    lemma_flags_read(before, v, list, second + rest, none, empty);
    assert(args =~= before + first + (second + rest));
    let at = (before + first).len() as int;
    assert(args[at] == second[0]);
    if !verb_switch(v, name) {
        assert(args[at + 1] == second[1]);
    }
    lemma_flag_word(v, name, other);
    lemma_filled(empty.values, list);
    let now = filled_with(empty.values, list);
    assert(now.dom().contains(list[0].0));
}

/// What becomes of the words behind an alias: `pane worktree list` is the verb
/// `pane-worktree-list`, a name behind `agent-pattern add` or `remove` becomes the flag `--name`,
/// and every other word stays where it is. What is no alias stays as it is.
pub proof fn law_aliases(word: Seq<char>, name: Seq<char>, rest: Seq<Seq<char>>)
    requires
        word == "create"@ || word == "list"@ || word == "remove"@ || word == "add"@,
    ensures
        word != "add"@ ==> worktree_rewritten(seq!["pane"@, "worktree"@, word] + rest) == seq![
            "pane-worktree-"@ + word,
        ] + rest,
        word != "create"@ && word != "list"@ && !"--"@.is_prefix_of(name) ==> pattern_rewritten(
            seq!["agent-pattern"@, word, name] + rest,
        ) == seq!["agent-pattern-"@ + word, "--name"@, name] + rest,
        word == "list"@ ==> pattern_rewritten(seq!["agent-pattern"@, word] + rest) == seq![
            "agent-pattern-"@ + word,
        ] + rest,
        name != "--json"@ && name != "--socket"@ && name != "--session"@ && name != "pane"@
            ==> worktree_rewritten(seq![name] + rest) == seq![name] + rest,
        name != "--json"@ && name != "--socket"@ && name != "--session"@ && name != "agent-pattern"@
            ==> pattern_rewritten(seq![name] + rest) == seq![name] + rest,
{
    reveal_strlit("--json");
    reveal_strlit("--socket");
    reveal_strlit("--session");
    reveal_strlit("pane");
    reveal_strlit("agent-pattern");
    reveal_strlit("create");
    reveal_strlit("list");
    reveal_strlit("remove");
    reveal_strlit("add");
    assert("--json"@[0] == '-' && "--socket"@[0] == '-' && "--session"@[0] == '-');
    assert("pane"@[0] == 'p' && "agent-pattern"@[0] == 'a');
    assert("create"@.len() == 6 && "create"@[0] == 'c' && "list"@.len() == 4 && "add"@.len() == 3);
    assert("remove"@.len() == 6 && "remove"@[0] == 'r');
    let a = seq!["pane"@, "worktree"@, word] + rest;
    assert(a[0] == "pane"@ && a[1] == "worktree"@ && a[2] == word);
    assert(command_from(a, 0) == 0);
    assert(a.take(0) + seq!["pane-worktree-"@ + word] + a.skip(3) =~= seq!["pane-worktree-"@ + word]
        + rest);
    let b = seq!["agent-pattern"@, word, name] + rest;
    assert(b[0] == "agent-pattern"@ && b[1] == word && b[2] == name);
    assert(command_from(b, 0) == 0);
    assert(b.take(0) + seq!["agent-pattern-"@ + word, "--name"@, name] + b.skip(3) =~= seq![
        "agent-pattern-"@ + word,
        "--name"@,
        name,
    ] + rest);
    let c = seq!["agent-pattern"@, word] + rest;
    assert(c[0] == "agent-pattern"@ && c[1] == word);
    assert(command_from(c, 0) == 0);
    assert(c.take(0) + seq!["agent-pattern-"@ + word] + c.skip(2) =~= seq![
        "agent-pattern-"@ + word,
    ] + rest);
    let d = seq![name] + rest;
    assert(d[0] == name);
}

/// Who carries a verb out: the program itself what is about sessions and layouts, by the name of
/// the verb, and the session everything else.
pub proof fn law_carried_out(v: Verb)
    ensures
        handler_of(v) == Handler::ListSessions <==> verb_name(v) == "list-sessions"@,
        handler_of(v) == Handler::KillSession <==> verb_name(v) == "kill-session"@,
        handler_of(v) == Handler::KillStale <==> verb_name(v) == "kill-stale"@,
        handler_of(v) == Handler::RenameSession <==> verb_name(v) == "rename-session"@,
        handler_of(v) == Handler::LayoutExport <==> verb_name(v) == "layout-export"@,
        handler_of(v) == Handler::LayoutApply <==> verb_name(v) == "layout-apply"@,
        handler_of(v) == Handler::LayoutExportAll <==> verb_name(v) == "layout-export-all"@,
{
    crate::verbs::law_verbs_called(verb_name(v));
    law_verb_of_name(v);
}

/// Why a line is refused: what stands where a verb should, a word behind the verb that is no flag,
/// a flag that the verb does not take, or one without its value.
pub proof fn law_command_line_messages(v: Verb, word: Seq<char>, name: Seq<char>)
    requires
        !asks_help(word),
        !"--"@.is_prefix_of(word),
        can_be_flag(v, name),
        !verb_switch(v, name),
    ensures
        verb_of(word) is None ==> parsed(seq![word]) == Err::<ParsedV, Seq<char>>(
            "unknown argument "@ + quoted(word),
        ),
        parsed(seq![verb_name(v), word]) == Err::<ParsedV, Seq<char>>(
            "unexpected argument "@ + quoted(word),
        ),
        parsed(seq![verb_name(v), "--"@ + name]) == Err::<ParsedV, Seq<char>>(
            "--"@ + name + " needs a value"@,
        ),
{
    reveal_strlit("--");
    reveal_strlit("--json");
    reveal_strlit("--socket");
    reveal_strlit("--session");
    assert("--json"@.take(2) =~= "--"@);
    assert("--socket"@.take(2) =~= "--"@);
    assert("--session"@.take(2) =~= "--"@);
    lemma_verb_stands(v);
    lemma_verb_plain(v);
    law_verb_of_name(v);
    reveal_strlit("--exec");
    assert("--exec"@.take(2) =~= "--"@);
    lemma_flag_word(v, name, seq![]);
    assert(flag_words(v, name, seq![])[0] == "--"@ + name);
    reveal_with_fuel(parsed_from, 3);
}

} // verus!
