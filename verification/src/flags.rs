//! The flags of one command line, and how they become the fields of a request.

use vstd::prelude::*;

use crate::json::{unsigned, Json, JsonV};
use crate::text::{
    decimal, le, lemma_le_total, lemma_le_trans, owned, parse_signed, parse_unsigned, read_signed,
    read_unsigned, same, text_le, texts,
};

verus! {

/// Why a command line was refused, as it is shown to the user.
#[derive(Debug)]
pub struct UsageError(pub String);

/// The flags that were given: each name with its value, and the command behind `--exec --`.
#[derive(Debug)]
pub struct FlagMap {
    pub values: Vec<(String, String)>,
    pub argv: Option<Vec<String>>,
}

/// What a `FlagMap` holds.
pub struct FlagsV {
    pub values: Map<Seq<char>, Seq<char>>,
    pub argv: Option<Seq<Seq<char>>>,
}

/// The values by name, the later of two with one name.
pub open spec fn values_view(s: Seq<(String, String)>) -> Map<Seq<char>, Seq<char>>
    decreases s.len(),
{
    if s.len() == 0 {
        Map::empty()
    } else {
        values_view(s.drop_last()).insert(s.last().0@, s.last().1@)
    }
}

impl View for FlagMap {
    type V = FlagsV;

    open spec fn view(&self) -> FlagsV {
        FlagsV {
            values: values_view(self.values@),
            argv: match self.argv {
                Some(argv) => Some(texts(argv@)),
                None => None,
            },
        }
    }
}

impl FlagsV {
    /// The value of a flag.
    pub open spec fn get(self, name: Seq<char>) -> Option<Seq<char>> {
        if self.values.dom().contains(name) {
            Some(self.values[name])
        } else {
            None
        }
    }
}

// ---- numbers ------------------------------------------------------------------------------

/// `--name` followed by what is wrong with it.
pub open spec fn flag_message(name: Seq<char>, fault: Seq<char>) -> Seq<char> {
    "--"@ + name + fault
}

fn flag_error(name: &str, fault: &str) -> (e: UsageError)
    ensures
        e.0@ == flag_message(name@, fault@),
{
    let mut message: String = "--".to_string();
    message.append(name);
    message.append(fault);
    UsageError(message)
}

/// An unsigned number, or the fault that the flag is refused with.
pub open spec fn unsigned_value(
    name: Seq<char>,
    value: Seq<char>,
    max: int,
    fault: Seq<char>,
) -> Result<u64, Seq<char>> {
    match read_unsigned(value, max) {
        Some(n) => Ok(n as u64),
        None => Err(flag_message(name, fault)),
    }
}

pub open spec fn u64_value(name: Seq<char>, value: Seq<char>) -> Result<u64, Seq<char>> {
    unsigned_value(name, value, u64::MAX as int, " must be a uint64"@)
}

pub open spec fn u16_value(name: Seq<char>, value: Seq<char>) -> Result<u64, Seq<char>> {
    unsigned_value(name, value, u16::MAX as int, " must be a uint16"@)
}

pub open spec fn usize_value(name: Seq<char>, value: Seq<char>) -> Result<u64, Seq<char>> {
    unsigned_value(name, value, u64::MAX as int, " must be a usize"@)
}

pub open spec fn isize_value(name: Seq<char>, value: Seq<char>) -> Result<i64, Seq<char>> {
    match read_signed(value, i64::MIN as int, i64::MAX as int) {
        Some(n) => Ok(n as i64),
        None => Err(flag_message(name, " must be an isize"@)),
    }
}

/// The result of an executable function, with its error as text.
pub open spec fn plain<T>(r: Result<T, UsageError>) -> Result<T, Seq<char>> {
    match r {
        Ok(v) => Ok(v),
        Err(e) => Err(e.0@),
    }
}

fn parse_max(name: &str, value: &str, max: u64, fault: &str) -> (r: Result<u64, UsageError>)
    ensures
        plain(r) == unsigned_value(name@, value@, max as int, fault@),
{
    match parse_unsigned(value, max) {
        Some(n) => Ok(n),
        None => Err(flag_error(name, fault)),
    }
}

pub fn parse_u64(name: &str, value: &str) -> (r: Result<u64, UsageError>)
    ensures
        plain(r) == u64_value(name@, value@),
{
    parse_max(name, value, u64::MAX, " must be a uint64")
}

/// A 16-bit number, in the width in which requests carry it.
pub fn parse_u16(name: &str, value: &str) -> (r: Result<u64, UsageError>)
    ensures
        plain(r) == u16_value(name@, value@),
        r matches Ok(n) ==> n <= u16::MAX,
{
    parse_max(name, value, 65535, " must be a uint16")
}

/// A position, of 64 bits on every machine.
pub fn parse_usize(name: &str, value: &str) -> (r: Result<u64, UsageError>)
    ensures
        plain(r) == usize_value(name@, value@),
{
    parse_max(name, value, u64::MAX, " must be a usize")
}

/// An offset, of 64 bits on every machine.
pub fn parse_isize(name: &str, value: &str) -> (r: Result<i64, UsageError>)
    ensures
        plain(r) == isize_value(name@, value@),
{
    match parse_signed(value) {
        Some(n) => Ok(n),
        None => Err(flag_error(name, " must be an isize")),
    }
}

// ---- reading flags ------------------------------------------------------------------------

/// The values that mean no for a boolean flag.
pub open spec fn says_no(value: Seq<char>) -> bool {
    ||| value == "0"@
    ||| value == "false"@
    ||| value == "no"@
    ||| value == "False"@
    ||| value == "No"@
    ||| value == "FALSE"@
    ||| value == "NO"@
}

impl FlagsV {
    pub open spec fn required(self, name: Seq<char>) -> Result<Seq<char>, Seq<char>> {
        match self.get(name) {
            Some(v) => Ok(v),
            None => Err(flag_message(name, " is required"@)),
        }
    }

    pub open spec fn required_u64(self, name: Seq<char>) -> Result<u64, Seq<char>> {
        match self.required(name) {
            Ok(v) => u64_value(name, v),
            Err(e) => Err(e),
        }
    }

    pub open spec fn required_u16(self, name: Seq<char>) -> Result<u64, Seq<char>> {
        match self.required(name) {
            Ok(v) => u16_value(name, v),
            Err(e) => Err(e),
        }
    }

    pub open spec fn required_usize(self, name: Seq<char>) -> Result<u64, Seq<char>> {
        match self.required(name) {
            Ok(v) => usize_value(name, v),
            Err(e) => Err(e),
        }
    }

    pub open spec fn required_isize(self, name: Seq<char>) -> Result<i64, Seq<char>> {
        match self.required(name) {
            Ok(v) => isize_value(name, v),
            Err(e) => Err(e),
        }
    }

    pub open spec fn required_dir(self) -> Result<Seq<char>, Seq<char>> {
        match self.required("dir"@) {
            Ok(dir) => if dir == "right"@ || dir == "down"@ {
                Ok(dir)
            } else {
                Err("--dir must be right or down"@)
            },
            Err(e) => Err(e),
        }
    }

    /// The request with the text of a flag, where the flag was given.
    pub open spec fn put_text(self, request: JsonV, name: Seq<char>) -> JsonV {
        match self.get(name) {
            Some(v) => request.with(name, JsonV::Text(v)),
            None => request,
        }
    }

    /// The request with the number of a flag, where the flag was given.
    pub open spec fn put_u64(self, request: JsonV, name: Seq<char>) -> Result<JsonV, Seq<char>> {
        match self.get(name) {
            Some(v) => match u64_value(name, v) {
                Ok(n) => Ok(request.with(name, unsigned(n))),
                Err(e) => Err(e),
            },
            None => Ok(request),
        }
    }

    /// The request with the size, where both of its flags were given.
    pub open spec fn put_size(self, request: JsonV) -> Result<JsonV, Seq<char>> {
        match (self.get("cols"@), self.get("rows"@)) {
            (Some(c), Some(r)) => match u16_value("cols"@, c) {
                Ok(cols) => match u16_value("rows"@, r) {
                    Ok(rows) => Ok(
                        request.with("cols"@, unsigned(cols)).with("rows"@, unsigned(rows)),
                    ),
                    Err(e) => Err(e),
                },
                Err(e) => Err(e),
            },
            (None, None) => Ok(request),
            _ => Err("--cols and --rows must be supplied together"@),
        }
    }
}

impl FlagMap {
    /// No flags at all.
    pub fn new() -> (r: FlagMap)
        ensures
            r@.values == Map::<Seq<char>, Seq<char>>::empty(),
            r@.argv is None,
    {
        FlagMap { values: Vec::new(), argv: None }
    }

    /// Sets the value of a flag, and says whether it had one.
    pub fn insert(&mut self, name: &str, value: &str) -> (had: bool)
        ensures
            had == old(self)@.values.dom().contains(name@),
            final(self)@.values == old(self)@.values.insert(name@, value@),
            final(self)@.argv == old(self)@.argv,
    {
        let had: bool = self.optional(name).is_some();
        let ghost before = self.values@;
        self.values.push((owned(name), owned(value)));
        assert(self.values@.drop_last() =~= before);
        had
    }

    pub fn optional(&self, name: &str) -> (r: Option<String>)
        ensures
            match r {
                Some(v) => self@.get(name@) == Some(v@),
                None => self@.get(name@) is None,
            },
    {
        let mut i: usize = self.values.len();
        let ghost all = values_view(self.values@);
        assert(self.values@.take(i as int) =~= self.values@);
        while i > 0
            invariant
                i <= self.values.len(),
                all == values_view(self.values@),
                all.dom().contains(name@) == values_view(self.values@.take(i as int)).dom().contains(
                    name@,
                ),
                values_view(self.values@.take(i as int)).dom().contains(name@) ==> all[name@]
                    == values_view(self.values@.take(i as int))[name@],
            decreases i,
        {
            proof {
                assert(self.values@.take(i as int).drop_last() =~= self.values@.take(i - 1));
            }
            i = i - 1;
            if same(self.values[i].0.as_str(), name) {
                return Some(owned(self.values[i].1.as_str()));
            }
        }
        None
    }

    /// Refuses flags where none is wanted, naming the first by name.
    pub fn reject_remaining(&self) -> (r: Result<(), UsageError>)
        ensures
            r is Ok <==> self@.values == Map::<Seq<char>, Seq<char>>::empty(),
            r matches Err(e) ==> exists|name: Seq<char>|
                {
                    &&& #[trigger] self@.values.dom().contains(name)
                    &&& forall|other: Seq<char>|
                        #[trigger] self@.values.dom().contains(other) ==> text_le(name, other)
                    &&& e.0@ == "unexpected --"@ + name
                },
    {
        if self.values.len() == 0 {
            return Ok(());
        }
        let mut best: usize = 0;
        let mut i: usize = 1;
        proof {
            lemma_le_total(self.values@[0].0@, self.values@[0].0@);
        }
        while i < self.values.len()
            invariant
                best < i <= self.values.len(),
                forall|k: int|
                    0 <= k < i ==> text_le(self.values@[best as int].0@, (#[trigger] self.values@[k]).0@),
            decreases self.values.len() - i,
        {
            let ghost old_best = best;
            if !le(self.values[best].0.as_str(), self.values[i].0.as_str()) {
                best = i;
            }
            proof {
                lemma_le_total(self.values@[old_best as int].0@, self.values@[i as int].0@);
                lemma_le_total(self.values@[i as int].0@, self.values@[i as int].0@);
                assert forall|k: int| 0 <= k < i + 1 implies text_le(
                    self.values@[best as int].0@,
                    (#[trigger] self.values@[k]).0@,
                ) by {
                    if k < i && best == i {
                        lemma_le_trans(
                            self.values@[i as int].0@,
                            self.values@[old_best as int].0@,
                            self.values@[k].0@,
                        );
                    }
                }
            }
            i = i + 1;
        }
        let mut message: String = "unexpected --".to_string();
        message.append(self.values[best].0.as_str());
        proof {
            let name = self.values@[best as int].0@;
            lemma_values_dom(self.values@, name);
            assert(self@.values.dom().contains(name));
            assert forall|other: Seq<char>| #[trigger]
                self@.values.dom().contains(other) implies text_le(name, other) by {
                lemma_values_dom(self.values@, other);
                let k = choose|k: int|
                    0 <= k < self.values@.len() && (#[trigger] self.values@[k]).0@ == other;
                assert(text_le(name, self.values@[k].0@));
            }
        }
        Err(UsageError(message))
    }

    /// Whether a boolean flag was given, and what its value says.
    pub fn optional_bool(&self, name: &str) -> (r: Option<bool>)
        ensures
            r == match self@.get(name@) {
                Some(v) => Some(!says_no(v)),
                None => None,
            },
    {
        match self.optional(name) {
            Some(v) => {
                let v: &str = v.as_str();
                let no: bool = same(v, "0") || same(v, "false") || same(v, "no") || same(v, "False")
                    || same(v, "No") || same(v, "FALSE") || same(v, "NO");
                Some(!no)
            },
            None => None,
        }
    }

    pub fn required(&self, name: &str) -> (r: Result<String, UsageError>)
        ensures
            match r {
                Ok(v) => self@.required(name@) == Ok::<Seq<char>, Seq<char>>(v@),
                Err(e) => self@.required(name@) == Err::<Seq<char>, Seq<char>>(e.0@),
            },
    {
        match self.optional(name) {
            Some(v) => Ok(v),
            None => Err(flag_error(name, " is required")),
        }
    }

    pub fn required_u64(&self, name: &str) -> (r: Result<u64, UsageError>)
        ensures
            plain(r) == self@.required_u64(name@),
    {
        match self.required(name) {
            Ok(v) => parse_u64(name, v.as_str()),
            Err(e) => Err(e),
        }
    }

    pub fn required_u16(&self, name: &str) -> (r: Result<u64, UsageError>)
        ensures
            plain(r) == self@.required_u16(name@),
    {
        match self.required(name) {
            Ok(v) => parse_u16(name, v.as_str()),
            Err(e) => Err(e),
        }
    }

    pub fn required_usize(&self, name: &str) -> (r: Result<u64, UsageError>)
        ensures
            plain(r) == self@.required_usize(name@),
    {
        match self.required(name) {
            Ok(v) => parse_usize(name, v.as_str()),
            Err(e) => Err(e),
        }
    }

    pub fn required_isize(&self, name: &str) -> (r: Result<i64, UsageError>)
        ensures
            plain(r) == self@.required_isize(name@),
    {
        match self.required(name) {
            Ok(v) => parse_isize(name, v.as_str()),
            Err(e) => Err(e),
        }
    }

    /// The direction of a split.
    pub fn required_dir(&self) -> (r: Result<String, UsageError>)
        ensures
            match r {
                Ok(v) => self@.required_dir() == Ok::<Seq<char>, Seq<char>>(v@),
                Err(e) => self@.required_dir() == Err::<Seq<char>, Seq<char>>(e.0@),
            },
    {
        match self.required("dir") {
            Ok(dir) => {
                if same(dir.as_str(), "right") || same(dir.as_str(), "down") {
                    Ok(dir)
                } else {
                    Err(UsageError("--dir must be right or down".to_string()))
                }
            },
            Err(e) => Err(e),
        }
    }

    pub fn insert_optional_string(&self, value: &mut Json, name: &str)
        ensures
            final(value)@ == self@.put_text(old(value)@, name@),
    {
        if let Some(text) = self.optional(name) {
            value.set(name, Json::text(text.as_str()));
        }
    }

    /// Where the number is refused, the request stays as it is.
    pub fn insert_optional_u64(&self, value: &mut Json, name: &str) -> (r: Result<(), UsageError>)
        ensures
            match r {
                Ok(_) => self@.put_u64(old(value)@, name@) == Ok::<JsonV, Seq<char>>(
                    final(value)@,
                ),
                Err(e) => self@.put_u64(old(value)@, name@) == Err::<JsonV, Seq<char>>(e.0@)
                    && *final(value) == *old(value),
            },
    {
        if let Some(raw) = self.optional(name) {
            match parse_u64(name, raw.as_str()) {
                Ok(n) => {
                    value.set(name, Json::unsigned(n));
                },
                Err(e) => {
                    return Err(e);
                },
            }
        }
        Ok(())
    }

    /// Where the size is refused, the request stays as it is.
    pub fn insert_optional_size(&self, value: &mut Json) -> (r: Result<(), UsageError>)
        ensures
            match r {
                Ok(_) => self@.put_size(old(value)@) == Ok::<JsonV, Seq<char>>(final(value)@),
                Err(e) => self@.put_size(old(value)@) == Err::<JsonV, Seq<char>>(e.0@)
                    && *final(value) == *old(value),
            },
    {
        match (self.optional("cols"), self.optional("rows")) {
            (Some(cols), Some(rows)) => {
                let c: u64 = match parse_u16("cols", cols.as_str()) {
                    Ok(n) => n,
                    Err(e) => {
                        return Err(e);
                    },
                };
                let r: u64 = match parse_u16("rows", rows.as_str()) {
                    Ok(n) => n,
                    Err(e) => {
                        return Err(e);
                    },
                };
                value.set("cols", Json::unsigned(c));
                value.set("rows", Json::unsigned(r));
                Ok(())
            },
            (None, None) => Ok(()),
            _ => Err(UsageError("--cols and --rows must be supplied together".to_string())),
        }
    }
}

/// The names of the values are the domain of the map.
proof fn lemma_values_dom(s: Seq<(String, String)>, name: Seq<char>)
    ensures
        values_view(s).dom().contains(name) == exists|k: int|
            0 <= k < s.len() && (#[trigger] s[k]).0@ == name,
    decreases s.len(),
{
    if s.len() > 0 {
        let front = s.drop_last();
        lemma_values_dom(front, name);
        if exists|k: int| 0 <= k < front.len() && (#[trigger] front[k]).0@ == name {
            let k = choose|k: int| 0 <= k < front.len() && (#[trigger] front[k]).0@ == name;
            assert(s[k].0@ == name);
        }
        if exists|k: int| 0 <= k < s.len() && (#[trigger] s[k]).0@ == name {
            let k = choose|k: int| 0 <= k < s.len() && (#[trigger] s[k]).0@ == name;
            if k < front.len() {
                assert(front[k].0@ == name);
            }
        }
    }
}

/// A flag that has to be there is the value that was given; the number that was written is the
/// number that is taken, as far as it fits, and a direction is right or down.
pub proof fn law_flags_read(f: FlagsV, name: Seq<char>, n: nat)
    ensures
        f.get(name) matches Some(v) ==> f.required(name) == Ok::<Seq<char>, Seq<char>>(v),
        f.get(name) is None ==> f.required(name) is Err && f.required_u64(name) is Err
            && f.required_u16(name) is Err && f.required_usize(name) is Err && f.required_isize(
            name,
        ) is Err,
        f.get(name) == Some(decimal(n)) && n <= u64::MAX ==> f.required_u64(name) == Ok::<
            u64,
            Seq<char>,
        >(n as u64) && f.required_usize(name) == Ok::<u64, Seq<char>>(n as u64),
        f.get(name) == Some(decimal(n)) && n > u64::MAX ==> f.required_u64(name) is Err
            && f.required_usize(name) is Err,
        f.get(name) == Some(decimal(n)) && n <= u16::MAX ==> f.required_u16(name) == Ok::<
            u64,
            Seq<char>,
        >(n as u64),
        f.get(name) == Some(decimal(n)) && n > u16::MAX ==> f.required_u16(name) is Err,
        f.get(name) == Some(decimal(n)) && n <= i64::MAX ==> f.required_isize(name) == Ok::<
            i64,
            Seq<char>,
        >(n as i64),
        f.get(name) == Some(seq!['-'] + decimal(n)) && n <= i64::MAX ==> f.required_isize(name)
            == Ok::<i64, Seq<char>>((-(n as int)) as i64),
        f.required_dir() matches Ok(dir) ==> f.get("dir"@) == Some(dir) && (dir == "right"@ || dir
            == "down"@),
        f.get("dir"@) == Some("right"@) || f.get("dir"@) == Some("down"@) ==> f.required_dir()
            is Ok,
{
    crate::text::law_numbers(n, u64::MAX as int, seq![]);
    crate::text::law_numbers(n, u16::MAX as int, seq![]);
    crate::text::law_numbers(n, i64::MAX as int, seq![]);
    let m = seq!['-'] + decimal(n);
    assert(m.drop_first() =~= decimal(n));
    assert(m[0] == '-');
    crate::text::lemma_decimal_digits(n);
    assert(crate::text::is_digit(decimal(n)[0]));
}

/// What says no to a switch, in small letters, with a capital or in capitals; nothing else does.
pub proof fn law_says_no(value: Seq<char>)
    ensures
        says_no("no"@) && says_no("No"@) && says_no("NO"@),
        says_no("false"@) && says_no("False"@) && says_no("FALSE"@),
        says_no("0"@),
        value.len() == 1 && value[0] != '0' ==> !says_no(value),
        value.len() == 2 && (value[0] != 'n' && value[0] != 'N') ==> !says_no(value),
        value.len() == 5 && (value[0] != 'f' && value[0] != 'F') ==> !says_no(value),
        value.len() != 1 && value.len() != 2 && value.len() != 5 ==> !says_no(value),
{
    reveal_strlit("no");
    reveal_strlit("No");
    reveal_strlit("NO");
    reveal_strlit("false");
    reveal_strlit("False");
    reveal_strlit("FALSE");
    reveal_strlit("0");
    assert("no"@.len() == 2 && "no"@[0] == 'n');
    assert("No"@.len() == 2 && "No"@[0] == 'N');
    assert("NO"@.len() == 2 && "NO"@[0] == 'N');
    assert("false"@.len() == 5 && "false"@[0] == 'f');
    assert("False"@.len() == 5 && "False"@[0] == 'F');
    assert("FALSE"@.len() == 5 && "FALSE"@[0] == 'F');
    assert("0"@.len() == 1 && "0"@[0] == '0');
}

/// What is put into a request: a text as it is, a number as a number, each in the field of its
/// flag, and nothing where the flag is missing. A size has both its sides or none.
pub proof fn law_flags_put(f: FlagsV, r: JsonV, name: Seq<char>, other: Seq<char>, c: nat, d: nat)
    requires
        r is Object,
        r->Object_0.dom().finite(),
        other != name,
    ensures
        f.get(name) matches Some(v) ==> f.put_text(r, name).field(name) == Some(JsonV::Text(v)),
        f.get(name) is None ==> f.put_text(r, name) == r && f.put_u64(r, name) == Ok::<
            JsonV,
            Seq<char>,
        >(r),
        f.put_text(r, name).field(other) == r.field(other),
        f.get(name) == Some(decimal(c)) && c <= u64::MAX ==> (f.put_u64(r, name) matches Ok(j)
            && j.field(name) == Some(unsigned(c as u64)) && j.field(other) == r.field(other)),
        f.get("cols"@) is None && f.get("rows"@) is None ==> f.put_size(r) == Ok::<
            JsonV,
            Seq<char>,
        >(r),
        f.get("cols"@) is Some != f.get("rows"@) is Some ==> f.put_size(r) is Err,
        f.get("cols"@) == Some(decimal(c)) && f.get("rows"@) == Some(decimal(d)) && c <= u16::MAX
            && d <= u16::MAX ==> (f.put_size(r) matches Ok(j) && j.field("cols"@) == Some(
            unsigned(c as u64),
        ) && j.field("rows"@) == Some(unsigned(d as u64))),
{
    reveal_strlit("cols");
    reveal_strlit("rows");
    assert("cols"@[0] == 'c' && "rows"@[0] == 'r');
    crate::text::law_numbers(c, u64::MAX as int, seq![]);
    crate::text::law_numbers(c, u16::MAX as int, seq![]);
    crate::text::law_numbers(d, u16::MAX as int, seq![]);
}

/// Why a flag is refused: it is missing, or is not what it has to be.
pub proof fn law_flag_messages(f: FlagsV, name: Seq<char>, v: Seq<char>)
    ensures
        f.get(name) is None ==> f.required(name) == Err::<Seq<char>, Seq<char>>(
            "--"@ + name + " is required"@,
        ),
        read_unsigned(v, u64::MAX as int) is None ==> u64_value(name, v) == Err::<u64, Seq<char>>(
            "--"@ + name + " must be a uint64"@,
        ),
        read_unsigned(v, u16::MAX as int) is None ==> u16_value(name, v) == Err::<u64, Seq<char>>(
            "--"@ + name + " must be a uint16"@,
        ),
        read_unsigned(v, u64::MAX as int) is None ==> usize_value(name, v) == Err::<u64, Seq<char>>(
            "--"@ + name + " must be a usize"@,
        ),
        read_signed(v, i64::MIN as int, i64::MAX as int) is None ==> isize_value(name, v) == Err::<
            i64,
            Seq<char>,
        >("--"@ + name + " must be an isize"@),
        f.get("dir"@) == Some(v) && v != "right"@ && v != "down"@ ==> f.required_dir() == Err::<
            Seq<char>,
            Seq<char>,
        >("--dir must be right or down"@),
        f.get("dir"@) is None ==> f.required_dir() == Err::<Seq<char>, Seq<char>>(
            "--"@ + "dir"@ + " is required"@,
        ),
{
}

} // verus!
