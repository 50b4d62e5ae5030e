//! JSON values, as the control socket, the hook files and the layout documents hold them.
//!
//! `Json` is the library's own tree; `serde_json` reads it from text and writes it as text.

use vstd::prelude::*;

use crate::text::{list_has, opt_text, owned, same, texts};

verus! {

/// `serde_json::Value`, carried through.
#[verifier::external_type_specification]
#[verifier::external_body]
pub struct ExValue(serde_json::Value);

/// `serde_json::Number`, carried through.
#[verifier::external_type_specification]
#[verifier::external_body]
pub struct ExNumber(serde_json::Number);

/// What a JSON number is: an integer that fits `u64`, a negative one that fits `i64`, or a
/// double, by the text that `serde_json` writes for it.
pub enum NumberV {
    Unsigned(u64),
    Negative(i64),
    Double(Seq<char>),
}

/// What a JSON value is.
pub enum JsonV {
    Null,
    Bool(bool),
    Number(NumberV),
    Text(Seq<char>),
    List(Seq<JsonV>),
    Object(Map<Seq<char>, JsonV>),
}

/// A JSON value. Of two fields of an object with one name the later one counts.
#[derive(Debug)]
pub enum Json {
    Null,
    Bool(bool),
    Number(serde_json::Number),
    Text(String),
    List(Vec<Json>),
    Object(Vec<(String, Json)>),
}

/// The value of a `serde_json::Number`.
pub uninterp spec fn number_of(n: serde_json::Number) -> NumberV;

/// The value of a `serde_json::Value`.
pub uninterp spec fn json_of(v: serde_json::Value) -> JsonV;

/// The value of a `Json`.
pub open spec fn json_view(j: Json) -> JsonV
    decreases j,
{
    match j {
        Json::Null => JsonV::Null,
        Json::Bool(b) => JsonV::Bool(b),
        Json::Number(n) => JsonV::Number(number_of(n)),
        Json::Text(s) => JsonV::Text(s@),
        Json::List(v) => JsonV::List(list_view(v@)),
        Json::Object(v) => JsonV::Object(fields_view(v@)),
    }
}

/// The values of the items of a list.
pub open spec fn list_view(s: Seq<Json>) -> Seq<JsonV>
    decreases s,
{
    Seq::new(
        s.len(),
        |i: int|
            if 0 <= i < s.len() {
                json_view(s[i])
            } else {
                JsonV::Null
            },
    )
}

/// The fields of an object, the later of two with one name.
pub open spec fn fields_view(s: Seq<(String, Json)>) -> Map<Seq<char>, JsonV>
    decreases s,
{
    if s.len() == 0 {
        Map::empty()
    } else {
        fields_view(s.drop_last()).insert(s.last().0@, json_view(s.last().1))
    }
}

impl View for Json {
    type V = JsonV;

    open spec fn view(&self) -> JsonV {
        json_view(*self)
    }
}

// ---- what a value says of itself ----------------------------------------------------------

impl JsonV {
    /// The field of that name, where the value is an object (of finitely many fields) that has
    /// one.
    pub open spec fn field(self, key: Seq<char>) -> Option<JsonV> {
        match self {
            JsonV::Object(m) => if m.dom().finite() && m.dom().contains(key) {
                Some(m[key])
            } else {
                None
            },
            _ => None,
        }
    }

    pub open spec fn as_unsigned(self) -> Option<u64> {
        match self {
            JsonV::Number(NumberV::Unsigned(n)) => Some(n),
            _ => None,
        }
    }

    pub open spec fn as_flag(self) -> Option<bool> {
        match self {
            JsonV::Bool(b) => Some(b),
            _ => None,
        }
    }

    pub open spec fn as_chars(self) -> Option<Seq<char>> {
        match self {
            JsonV::Text(s) => Some(s),
            _ => None,
        }
    }

    pub open spec fn as_items(self) -> Option<Seq<JsonV>> {
        match self {
            JsonV::List(s) => Some(s),
            _ => None,
        }
    }

    /// The unsigned number of a field.
    pub open spec fn field_unsigned(self, key: Seq<char>) -> Option<u64> {
        match self.field(key) {
            Some(v) => v.as_unsigned(),
            None => None,
        }
    }

    /// The truth value of a field.
    pub open spec fn field_flag(self, key: Seq<char>) -> Option<bool> {
        match self.field(key) {
            Some(v) => v.as_flag(),
            None => None,
        }
    }

    /// The text of a field.
    pub open spec fn field_chars(self, key: Seq<char>) -> Option<Seq<char>> {
        match self.field(key) {
            Some(v) => v.as_chars(),
            None => None,
        }
    }

    /// The list in a field.
    pub open spec fn field_items(self, key: Seq<char>) -> Option<Seq<JsonV>> {
        match self.field(key) {
            Some(v) => v.as_items(),
            None => None,
        }
    }

    /// An optional text in a field: null and no field are no text, anything but a text is
    /// refused.
    pub open spec fn field_opt_chars(self, key: Seq<char>) -> Option<Option<Seq<char>>> {
        match self.field(key) {
            None => Some(None),
            Some(JsonV::Null) => Some(None),
            Some(JsonV::Text(t)) => Some(Some(t)),
            Some(_) => None,
        }
    }

    /// A position in a field.
    pub open spec fn field_index(self, key: Seq<char>) -> Option<usize> {
        match self.field_unsigned(key) {
            Some(n) => if n <= usize::MAX {
                Some(n as usize)
            } else {
                None
            },
            None => None,
        }
    }

    /// Whether the value is an object with no field but this one.
    pub open spec fn only(self, key: Seq<char>) -> bool {
        forall|k: Seq<char>| #[trigger] self.field(k) is Some ==> k == key
    }

    /// Whether the value can be a record of at most `n` members: an object, or a list that is no
    /// longer.
    pub open spec fn is_record(self, n: int) -> bool {
        match self {
            JsonV::Object(_) => true,
            JsonV::List(items) => items.len() <= n,
            _ => false,
        }
    }

    /// The member of a record of `n` members: in an object the one of that name, in a list the one
    /// at that place.
    pub open spec fn part(self, name: Seq<char>, place: int, n: int) -> Option<JsonV> {
        match self {
            JsonV::List(items) => if items.len() <= n && 0 <= place < items.len() {
                Some(items[place])
            } else {
                None
            },
            _ => self.field(name),
        }
    }

    pub open spec fn part_chars(self, name: Seq<char>, place: int, n: int) -> Option<Seq<char>> {
        match self.part(name, place, n) {
            Some(v) => v.as_chars(),
            None => None,
        }
    }

    pub open spec fn part_flag(self, name: Seq<char>, place: int, n: int) -> Option<bool> {
        match self.part(name, place, n) {
            Some(v) => v.as_flag(),
            None => None,
        }
    }

    pub open spec fn part_items(self, name: Seq<char>, place: int, n: int) -> Option<Seq<JsonV>> {
        match self.part(name, place, n) {
            Some(v) => v.as_items(),
            None => None,
        }
    }

    /// A member that is a text or null, or is left out.
    pub open spec fn part_opt_chars(self, name: Seq<char>, place: int, n: int) -> Option<
        Option<Seq<char>>,
    > {
        match self.part(name, place, n) {
            None => Some(None),
            Some(JsonV::Null) => Some(None),
            Some(JsonV::Text(t)) => Some(Some(t)),
            Some(_) => None,
        }
    }

    /// A member that is a number within the range of a position.
    pub open spec fn part_index(self, name: Seq<char>, place: int, n: int) -> Option<usize> {
        match self.part(name, place, n) {
            Some(v) => match v.as_unsigned() {
                Some(u) => if u <= usize::MAX {
                    Some(u as usize)
                } else {
                    None
                },
                None => None,
            },
            None => None,
        }
    }

    /// The object with one field more, or with the field replaced.
    pub open spec fn with(self, key: Seq<char>, value: JsonV) -> JsonV {
        match self {
            JsonV::Object(m) => JsonV::Object(m.insert(key, value)),
            other => other,
        }
    }
}

/// The object without fields.
pub open spec fn empty_object() -> JsonV {
    JsonV::Object(Map::empty())
}

pub open spec fn unsigned(n: u64) -> JsonV {
    JsonV::Number(NumberV::Unsigned(n))
}

/// The text, or null.
pub open spec fn text_or_null(s: Option<Seq<char>>) -> JsonV {
    match s {
        Some(t) => JsonV::Text(t),
        None => JsonV::Null,
    }
}

/// All the values, where there are all.
pub open spec fn all_some<A>(s: Seq<Option<A>>) -> Option<Seq<A>> {
    if forall|i: int| 0 <= i < s.len() ==> (#[trigger] s[i]) is Some {
        Some(s.map_values(|x: Option<A>| x->0))
    } else {
        None
    }
}

/// An integer of `i64`.
pub open spec fn signed(n: i64) -> JsonV {
    if n >= 0 {
        unsigned(n as u64)
    } else {
        JsonV::Number(NumberV::Negative(n))
    }
}

/// A list of texts.
pub open spec fn text_list(s: Seq<Seq<char>>) -> JsonV {
    JsonV::List(s.map_values(|t: Seq<char>| JsonV::Text(t)))
}

/// A field is smaller than the object that it is in.
pub proof fn lemma_field_decreases(j: JsonV, key: Seq<char>)
    ensures
        j.field(key) matches Some(v) ==> decreases_to!(j => v),
{
    if j.field(key) is Some {
        assert(decreases_to!(j => j->Object_0));
    }
}

/// A member is smaller than the record that it is in.
pub proof fn lemma_part_decreases(j: JsonV, name: Seq<char>, place: int, n: int)
    ensures
        j.part(name, place, n) matches Some(v) ==> decreases_to!(j => v),
{
    lemma_field_decreases(j, name);
    if j is List && j.part(name, place, n) is Some {
        assert(decreases_to!(j => j->List_0));
    }
}

/// A `Json` has finitely many fields.
pub proof fn lemma_fields_finite(s: Seq<(String, Json)>)
    ensures
        fields_view(s).dom().finite(),
    decreases s.len(),
{
    if s.len() > 0 {
        lemma_fields_finite(s.drop_last());
    }
}

/// One more field behind the others.
pub proof fn lemma_fields_push(s: Seq<(String, Json)>, f: (String, Json))
    ensures
        fields_view(s.push(f)) == fields_view(s).insert(f.0@, json_view(f.1)),
{
    assert(s.push(f).drop_last() =~= s);
}

/// The number of a `serde_json::Number`, taken apart by `as_u64` and `as_i64`; a double is
/// given by its `to_string`.
#[verifier::external_body]
fn open_number(n: &serde_json::Number) -> (r: (Option<u64>, Option<i64>, String))
    ensures
        match number_of(*n) {
            NumberV::Unsigned(u) => r.0 == Some(u),
            NumberV::Negative(i) => r.0 is None && r.1 == Some(i) && i < 0,
            NumberV::Double(t) => r.0 is None && r.1 is None && r.2@ == t,
        },
{
    (n.as_u64(), n.as_i64(), n.to_string())
}

/// `serde_json::Number::from` on a `u64`.
#[verifier::external_body]
fn number_from_unsigned(n: u64) -> (r: serde_json::Number)
    ensures
        number_of(r) == NumberV::Unsigned(n),
{
    serde_json::Number::from(n)
}

/// `serde_json::Number::from` on an `i64`: one that is not negative counts as unsigned.
#[verifier::external_body]
fn number_from_signed(n: i64) -> (r: serde_json::Number)
    ensures
        JsonV::Number(number_of(r)) == signed(n),
{
    serde_json::Number::from(n)
}

/// The number of the double that a text writes; nothing where the text writes none, or one that
/// is not finite.
pub uninterp spec fn double_of(text: Seq<char>) -> Option<NumberV>;

/// Reads a text with std's parser for doubles, and calls `serde_json::Number::from_f64`.
#[verifier::external_body]
fn number_from_text(text: &str) -> (r: Option<serde_json::Number>)
    ensures
        match r {
            Some(n) => double_of(text@) == Some(number_of(n)),
            None => double_of(text@) is None,
        },
{
    text.parse().ok().and_then(serde_json::Number::from_f64)
}

/// The double that a text writes; null where there is none.
pub open spec fn double(text: Seq<char>) -> JsonV {
    match double_of(text) {
        Some(n) => JsonV::Number(n),
        None => JsonV::Null,
    }
}

/// The bits of the double that a number is nearest to.
pub uninterp spec fn double_bits(n: NumberV) -> Option<u64>;

/// Calls `serde_json::Number::as_f64`, and takes the bits of what it gives.
#[verifier::external_body]
pub(crate) fn number_bits(n: &serde_json::Number) -> (r: Option<u64>)
    ensures
        r == double_bits(number_of(*n)),
{
    n.as_f64().map(|x| x.to_bits())
}

/// `Clone` of `serde_json::Number`.
#[verifier::external_body]
pub(crate) fn number_copy(n: &serde_json::Number) -> (r: serde_json::Number)
    ensures
        number_of(r) == number_of(*n),
{
    n.clone()
}

impl Json {
    pub fn unsigned(n: u64) -> (r: Json)
        ensures
            r@ == unsigned(n),
    {
        Json::Number(number_from_unsigned(n))
    }

    pub fn signed(n: i64) -> (r: Json)
        ensures
            r@ == signed(n),
    {
        Json::Number(number_from_signed(n))
    }

    pub fn text(s: &str) -> (r: Json)
        ensures
            r@ == JsonV::Text(s@),
    {
        Json::Text(owned(s))
    }

    pub fn object() -> (r: Json)
        ensures
            r@ == empty_object(),
    {
        Json::Object(Vec::new())
    }

    pub fn double(s: &str) -> (r: Json)
        ensures
            r@ == double(s@),
    {
        match number_from_text(s) {
            Some(n) => Json::Number(n),
            None => Json::Null,
        }
    }

    /// A list of texts.
    pub fn texts(list: &Vec<String>) -> (r: Json)
        ensures
            r@ == text_list(texts(list@)),
    {
        let mut out: Vec<Json> = Vec::new();
        let mut i: usize = 0;
        while i < list.len()
            invariant
                i <= list.len(),
                out.len() == i,
                forall|k: int| 0 <= k < i ==> json_view(#[trigger] out@[k]) == JsonV::Text(list@[k]@),
            decreases list.len() - i,
        {
            out.push(Json::text(list[i].as_str()));
            i = i + 1;
        }
        assert(list_view(out@) =~= texts(list@).map_values(|t: Seq<char>| JsonV::Text(t)));
        Json::List(out)
    }

    /// Sets a field of an object; a value that is no object stays as it is.
    pub fn set(&mut self, key: &str, value: Json)
        ensures
            final(self)@ == old(self)@.with(key@, value@),
    {
        match self {
            Json::Object(fields) => {
                proof {
                    assert forall|f: (String, Json)|
                        fields_view(#[trigger] fields@.push(f)) == fields_view(fields@).insert(
                            f.0@,
                            json_view(f.1),
                        ) by {
                        lemma_fields_push(fields@, f);
                    }
                }
                fields.push((owned(key), value));
            },
            _ => {},
        }
    }

    pub fn get(&self, key: &str) -> (r: Option<&Json>)
        ensures
            match r {
                Some(v) => self@.field(key@) == Some(v@) && decreases_to!(*self => *v),
                None => self@.field(key@) is None,
            },
    {
        match self {
            Json::Object(fields) => {
                let mut i: usize = fields.len();
                proof {
                    lemma_fields_finite(fields@);
                    assert(fields@.take(i as int) =~= fields@);
                }
                while i > 0
                    invariant
                        i <= fields.len(),
                        *self == (Json::Object(*fields)),
                        fields_view(fields@).dom().finite(),
                        fields_view(fields@).dom().contains(key@) == fields_view(
                            fields@.take(i as int),
                        ).dom().contains(key@),
                        fields_view(fields@.take(i as int)).dom().contains(key@)
                            ==> fields_view(fields@)[key@] == fields_view(
                            fields@.take(i as int),
                        )[key@],
                    decreases i,
                {
                    proof {
                        assert(fields@.take(i as int).drop_last() =~= fields@.take(i - 1));
                    }
                    i = i - 1;
                    if same(fields[i].0.as_str(), key) {
                        proof {
                            assert(decreases_to!(*self => self->Object_0));
                            assert(decreases_to!(fields@ => fields@[i as int]));
                        }
                        return Some(&fields[i].1);
                    }
                }
                None
            },
            _ => None,
        }
    }

    /// The names of the fields of an object, each once.
    pub fn names(&self) -> (out: Vec<String>)
        ensures
            texts(out@).no_duplicates(),
            forall|k: Seq<char>| #[trigger] texts(out@).contains(k) <==> self@.field(k) is Some,
    {
        let mut out: Vec<String> = Vec::new();
        if let Json::Object(fields) = self {
            let mut i: usize = 0;
            proof {
                lemma_fields_finite(fields@);
                assert(fields@.take(0) =~= Seq::<(String, Json)>::empty());
            }
            while i < fields.len()
                invariant
                    i <= fields.len(),
                    texts(out@).no_duplicates(),
                    forall|k: Seq<char>| #[trigger]
                        texts(out@).contains(k) <==> fields_view(
                            fields@.take(i as int),
                        ).dom().contains(k),
                decreases fields.len() - i,
            {
                let name: &str = fields[i].0.as_str();
                proof {
                    assert(fields@.take(i + 1).drop_last() =~= fields@.take(i as int));
                }
                if !list_has(&out, name) {
                    let ghost before = out@;
                    out.push(owned(name));
                    assert(texts(out@) =~= texts(before).push(name@));
                    assert forall|k: Seq<char>| #[trigger]
                        texts(out@).contains(k) <==> texts(before).contains(k) || k == name@ by {
                        if texts(before).contains(k) {
                            let j = choose|j: int|
                                0 <= j < texts(before).len() && texts(before)[j] == k;
                            assert(texts(out@)[j] == k);
                        }
                        if k == name@ {
                            assert(texts(out@)[texts(before).len() as int] == k);
                        }
                    }
                }
                i = i + 1;
            }
            assert(fields@.take(fields@.len() as int) =~= fields@);
        }
        out
    }

    pub fn as_unsigned(&self) -> (r: Option<u64>)
        ensures
            r == self@.as_unsigned(),
    {
        match self {
            Json::Number(n) => open_number(n).0,
            _ => None,
        }
    }

    pub fn as_flag(&self) -> (r: Option<bool>)
        ensures
            r == self@.as_flag(),
    {
        match self {
            Json::Bool(b) => Some(*b),
            _ => None,
        }
    }

    pub fn as_chars(&self) -> (r: Option<&str>)
        ensures
            match r {
                Some(s) => self@.as_chars() == Some(s@),
                None => self@.as_chars() is None,
            },
    {
        match self {
            Json::Text(s) => Some(s.as_str()),
            _ => None,
        }
    }

    pub fn as_items(&self) -> (r: Option<&Vec<Json>>)
        ensures
            match r {
                Some(v) => self@.as_items() == Some(list_view(v@)),
                None => self@.as_items() is None,
            },
    {
        match self {
            Json::List(v) => Some(v),
            _ => None,
        }
    }

    pub fn field_unsigned(&self, key: &str) -> (r: Option<u64>)
        ensures
            r == self@.field_unsigned(key@),
    {
        match self.get(key) {
            Some(v) => v.as_unsigned(),
            None => None,
        }
    }

    pub fn field_flag(&self, key: &str) -> (r: Option<bool>)
        ensures
            r == self@.field_flag(key@),
    {
        match self.get(key) {
            Some(v) => v.as_flag(),
            None => None,
        }
    }

    pub fn field_chars(&self, key: &str) -> (r: Option<&str>)
        ensures
            match r {
                Some(s) => self@.field_chars(key@) == Some(s@),
                None => self@.field_chars(key@) is None,
            },
    {
        match self.get(key) {
            Some(v) => v.as_chars(),
            None => None,
        }
    }

    pub fn field_opt_chars(&self, key: &str) -> (r: Option<Option<String>>)
        ensures
            match r {
                Some(t) => self@.field_opt_chars(key@) == Some(opt_text(t)),
                None => self@.field_opt_chars(key@) is None,
            },
    {
        match self.get(key) {
            None => Some(None),
            Some(Json::Null) => Some(None),
            Some(Json::Text(t)) => Some(Some(owned(t.as_str()))),
            Some(_) => None,
        }
    }

    pub fn field_index(&self, key: &str) -> (r: Option<usize>)
        ensures
            r == self@.field_index(key@),
    {
        match self.field_unsigned(key) {
            Some(n) => {
                if n <= usize::MAX as u64 {
                    Some(n as usize)
                } else {
                    None
                }
            },
            None => None,
        }
    }

    pub fn only(&self, key: &str) -> (r: bool)
        ensures
            r == self@.only(key@),
    {
        let names: Vec<String> = self.names();
        let mut i: usize = 0;
        while i < names.len()
            invariant
                i <= names.len(),
                forall|k: Seq<char>| #[trigger]
                    texts(names@).contains(k) <==> self@.field(k) is Some,
                forall|j: int| 0 <= j < i ==> (#[trigger] texts(names@)[j]) == key@,
            decreases names.len() - i,
        {
            assert(texts(names@)[i as int] == names@[i as int]@);
            if !same(names[i].as_str(), key) {
                assert(texts(names@).contains(names@[i as int]@));
                return false;
            }
            i = i + 1;
        }
        proof {
            assert forall|k: Seq<char>| #[trigger] self@.field(k) is Some implies k == key@ by {
                assert(texts(names@).contains(k));
                let j = choose|j: int| 0 <= j < texts(names@).len() && texts(names@)[j] == k;
                assert(texts(names@)[j] == key@);
            }
        }
        true
    }

    pub fn is_record(&self, n: usize) -> (r: bool)
        ensures
            r == self@.is_record(n as int),
    {
        match self {
            Json::Object(_) => true,
            Json::List(items) => items.len() <= n,
            _ => false,
        }
    }

    pub fn part(&self, name: &str, place: usize, n: usize) -> (r: Option<&Json>)
        ensures
            match r {
                Some(v) => self@.part(name@, place as int, n as int) == Some(v@)
                    && decreases_to!(*self => *v),
                None => self@.part(name@, place as int, n as int) is None,
            },
    {
        match self {
            Json::List(items) => {
                if items.len() <= n && place < items.len() {
                    proof {
                        assert(decreases_to!(*self => self->List_0));
                        assert(decreases_to!(items@ => items@[place as int]));
                    }
                    Some(&items[place])
                } else {
                    None
                }
            },
            _ => self.get(name),
        }
    }

    pub fn part_chars(&self, name: &str, place: usize, n: usize) -> (r: Option<&str>)
        ensures
            match r {
                Some(s) => self@.part_chars(name@, place as int, n as int) == Some(s@),
                None => self@.part_chars(name@, place as int, n as int) is None,
            },
    {
        match self.part(name, place, n) {
            Some(v) => v.as_chars(),
            None => None,
        }
    }

    pub fn part_flag(&self, name: &str, place: usize, n: usize) -> (r: Option<bool>)
        ensures
            r == self@.part_flag(name@, place as int, n as int),
    {
        match self.part(name, place, n) {
            Some(v) => v.as_flag(),
            None => None,
        }
    }

    pub fn part_items(&self, name: &str, place: usize, n: usize) -> (r: Option<&Vec<Json>>)
        ensures
            match r {
                Some(v) => self@.part_items(name@, place as int, n as int) == Some(list_view(v@)),
                None => self@.part_items(name@, place as int, n as int) is None,
            },
    {
        match self.part(name, place, n) {
            Some(v) => v.as_items(),
            None => None,
        }
    }

    pub fn part_opt_chars(&self, name: &str, place: usize, n: usize) -> (r: Option<Option<String>>)
        ensures
            match r {
                Some(t) => self@.part_opt_chars(name@, place as int, n as int) == Some(opt_text(t)),
                None => self@.part_opt_chars(name@, place as int, n as int) is None,
            },
    {
        match self.part(name, place, n) {
            None => Some(None),
            Some(Json::Null) => Some(None),
            Some(Json::Text(t)) => Some(Some(owned(t.as_str()))),
            Some(_) => None,
        }
    }

    pub fn part_index(&self, name: &str, place: usize, n: usize) -> (r: Option<usize>)
        ensures
            r == self@.part_index(name@, place as int, n as int),
    {
        match self.part(name, place, n) {
            Some(v) => match v.as_unsigned() {
                Some(u) => {
                    if u <= usize::MAX as u64 {
                        Some(u as usize)
                    } else {
                        None
                    }
                },
                None => None,
            },
            None => None,
        }
    }

    /// The text, or null.
    pub fn text_or_null(s: &Option<String>) -> (r: Json)
        ensures
            r@ == text_or_null(opt_text(*s)),
    {
        match s {
            Some(t) => Json::text(t.as_str()),
            None => Json::Null,
        }
    }

    pub fn field_items(&self, key: &str) -> (r: Option<&Vec<Json>>)
        ensures
            match r {
                Some(v) => self@.field_items(key@) == Some(list_view(v@)),
                None => self@.field_items(key@) is None,
            },
    {
        match self.get(key) {
            Some(v) => v.as_items(),
            None => None,
        }
    }
}

// ---- serde_json ---------------------------------------------------------------------------

/// One level of a `serde_json::Value`.
enum Opened {
    Null,
    Bool(bool),
    Number(serde_json::Number),
    Text(String),
    List(Vec<serde_json::Value>),
    Object(Vec<(String, serde_json::Value)>),
}

/// The values of the items that stand one level down.
spec fn opened_list(s: Seq<serde_json::Value>) -> Seq<JsonV> {
    s.map_values(|v: serde_json::Value| json_of(v))
}

/// The fields that stand one level down.
spec fn opened_fields(s: Seq<(String, serde_json::Value)>) -> Map<Seq<char>, JsonV>
    decreases s.len(),
{
    if s.len() == 0 {
        Map::empty()
    } else {
        opened_fields(s.drop_last()).insert(s.last().0@, json_of(s.last().1))
    }
}

/// Whether no two fields have one name.
spec fn distinct_names(s: Seq<(String, serde_json::Value)>) -> bool {
    forall|i: int, j: int|
        0 <= i < j < s.len() ==> (#[trigger] s[i]).0@ != (#[trigger] s[j]).0@
}

spec fn opened_view(o: Opened) -> JsonV {
    match o {
        Opened::Null => JsonV::Null,
        Opened::Bool(b) => JsonV::Bool(b),
        Opened::Number(n) => JsonV::Number(number_of(n)),
        Opened::Text(s) => JsonV::Text(s@),
        Opened::List(v) => JsonV::List(opened_list(v@)),
        Opened::Object(v) => JsonV::Object(opened_fields(v@)),
    }
}

/// Takes the variants of `serde_json::Value` apart; the fields of an object come out of
/// `serde_json::Map`, which holds each name once.
#[verifier::external_body]
fn open_value(v: serde_json::Value) -> (r: Opened)
    ensures
        opened_view(r) == json_of(v),
        r matches Opened::Object(fields) ==> distinct_names(fields@),
{
    match v {
        serde_json::Value::Null => Opened::Null,
        serde_json::Value::Bool(b) => Opened::Bool(b),
        serde_json::Value::Number(n) => Opened::Number(n),
        serde_json::Value::String(s) => Opened::Text(s),
        serde_json::Value::Array(a) => Opened::List(a),
        serde_json::Value::Object(m) => Opened::Object(m.into_iter().collect()),
    }
}

/// Puts the variants of `serde_json::Value` together.
#[verifier::external_body]
fn close_value(o: Opened) -> (r: serde_json::Value)
    requires
        o matches Opened::Object(fields) ==> distinct_names(fields@),
    ensures
        json_of(r) == opened_view(o),
{
    match o {
        Opened::Null => serde_json::Value::Null,
        Opened::Bool(b) => serde_json::Value::Bool(b),
        Opened::Number(n) => serde_json::Value::Number(n),
        Opened::Text(s) => serde_json::Value::String(s),
        Opened::List(a) => serde_json::Value::Array(a),
        Opened::Object(m) => serde_json::Value::Object(m.into_iter().collect()),
    }
}

/// Each field of an object is a part of it.
proof fn lemma_field_smaller(s: Seq<(String, serde_json::Value)>, i: int)
    requires
        distinct_names(s),
        0 <= i < s.len(),
    ensures
        opened_fields(s).dom().finite(),
        opened_fields(s).dom().contains(s[i].0@),
        opened_fields(s)[s[i].0@] == json_of(s[i].1),
    decreases s.len(),
{
    let front = s.drop_last();
    assert(distinct_names(front)) by {
        assert forall|a: int, b: int| 0 <= a < b < front.len() implies (#[trigger] front[a]).0@
            != (#[trigger] front[b]).0@ by {
            assert(s[a].0@ != s[b].0@);
        }
    }
    if i < s.len() - 1 {
        lemma_field_smaller(front, i);
        assert(front[i] == s[i]);
        assert(s[i].0@ != s[s.len() - 1].0@);
    } else if s.len() > 1 {
        lemma_field_smaller(front, 0);
    } else {
        assert(opened_fields(front) == Map::<Seq<char>, JsonV>::empty());
    }
}

/// The library's tree of a `serde_json::Value`.
pub fn json_from(v: serde_json::Value) -> (r: Json)
    ensures
        r@ == json_of(v),
    decreases json_of(v),
{
    let ghost whole = json_of(v);
    match open_value(v) {
        Opened::Null => Json::Null,
        Opened::Bool(b) => Json::Bool(b),
        Opened::Number(n) => Json::Number(n),
        Opened::Text(s) => Json::Text(s),
        Opened::List(items) => {
            let mut rest: Vec<serde_json::Value> = items;
            let mut back: Vec<Json> = Vec::new();
            let ghost all = items@;
            while rest.len() > 0
                invariant
                    rest.len() + back.len() == all.len(),
                    rest@ == all.take(rest.len() as int),
                    whole == json_of(v),
                    whole == JsonV::List(opened_list(all)),
                    forall|k: int|
                        0 <= k < back.len() ==> json_view(#[trigger] back@[k]) == json_of(
                            all[all.len() - 1 - k],
                        ),
                decreases rest.len(),
            {
                let ghost n = rest.len() as int;
                match rest.pop() {
                    Some(item) => {
                        proof {
                            assert(item == all[n - 1]);
                            assert(opened_list(all)[n - 1] == json_of(item));
                            assert(decreases_to!(whole => whole->List_0));
                            assert(rest@ =~= all.take(n - 1));
                        }
                        back.push(json_from(item));
                    },
                    None => {},
                }
            }
            let mut out: Vec<Json> = Vec::new();
            while back.len() > 0
                invariant
                    out.len() + back.len() == all.len(),
                    forall|k: int|
                        0 <= k < back.len() ==> json_view(#[trigger] back@[k]) == json_of(
                            all[all.len() - 1 - k],
                        ),
                    forall|k: int| 0 <= k < out.len() ==> json_view(#[trigger] out@[k]) == json_of(all[k]),
                decreases back.len(),
            {
                match back.pop() {
                    Some(item) => {
                        out.push(item);
                    },
                    None => {},
                }
            }
            assert(list_view(out@) =~= opened_list(all));
            Json::List(out)
        },
        Opened::Object(fields) => {
            let mut rest: Vec<(String, serde_json::Value)> = fields;
            let mut back: Vec<(String, Json)> = Vec::new();
            let ghost all = fields@;
            while rest.len() > 0
                invariant
                    rest.len() + back.len() == all.len(),
                    rest@ == all.take(rest.len() as int),
                    distinct_names(all),
                    whole == json_of(v),
                    whole == JsonV::Object(opened_fields(all)),
                    forall|k: int|
                        0 <= k < back.len() ==> json_view((#[trigger] back@[k]).1) == json_of(
                            all[all.len() - 1 - k].1,
                        ) && back@[k].0@ == all[all.len() - 1 - k].0@,
                decreases rest.len(),
            {
                let ghost n = rest.len() as int;
                match rest.pop() {
                    Some((name, value)) => {
                        proof {
                            assert((name, value) == all[n - 1]);
                            lemma_field_smaller(all, n - 1);
                            assert(decreases_to!(whole => whole->Object_0));
                            assert(rest@ =~= all.take(n - 1));
                        }
                        back.push((name, json_from(value)));
                    },
                    None => {},
                }
            }
            let mut out: Vec<(String, Json)> = Vec::new();
            proof {
                assert(all.take(0) =~= Seq::<(String, serde_json::Value)>::empty());
            }
            while back.len() > 0
                invariant
                    out.len() + back.len() == all.len(),
                    forall|k: int|
                        0 <= k < back.len() ==> json_view((#[trigger] back@[k]).1) == json_of(
                            all[all.len() - 1 - k].1,
                        ) && back@[k].0@ == all[all.len() - 1 - k].0@,
                    fields_view(out@) == opened_fields(all.take(out.len() as int)),
                decreases back.len(),
            {
                let ghost n = out.len() as int;
                match back.pop() {
                    Some(field) => {
                        proof {
                            lemma_fields_push(out@, field);
                            assert(all.take(n + 1).drop_last() =~= all.take(n));
                        }
                        out.push(field);
                    },
                    None => {},
                }
            }
            assert(all.take(all.len() as int) =~= all);
            Json::Object(out)
        },
    }
}

/// Whether a field of that name is among them.
fn has_name(fields: &Vec<(String, serde_json::Value)>, name: &str) -> (r: bool)
    ensures
        r == exists|k: int| 0 <= k < fields.len() && (#[trigger] fields@[k]).0@ == name@,
{
    let mut i: usize = 0;
    while i < fields.len()
        invariant
            i <= fields.len(),
            forall|k: int| 0 <= k < i ==> (#[trigger] fields@[k]).0@ != name@,
        decreases fields.len() - i,
    {
        if same(fields[i].0.as_str(), name) {
            return true;
        }
        i = i + 1;
    }
    false
}

/// The names of the fields are the domain of the object.
proof fn lemma_opened_dom(s: Seq<(String, serde_json::Value)>, name: Seq<char>)
    ensures
        opened_fields(s).dom().contains(name) == exists|k: int|
            0 <= k < s.len() && (#[trigger] s[k]).0@ == name,
    decreases s.len(),
{
    if s.len() > 0 {
        let front = s.drop_last();
        lemma_opened_dom(front, name);
        if exists|k: int| 0 <= k < front.len() && (#[trigger] front[k]).0@ == name {
            let k = choose|k: int| 0 <= k < front.len() && (#[trigger] front[k]).0@ == name;
            assert(s[k].0@ == name);
        }
        if exists|k: int| 0 <= k < s.len() && (#[trigger] s[k]).0@ == name {
            let k = choose|k: int| 0 <= k < s.len() && (#[trigger] s[k]).0@ == name;
            if k < front.len() {
                assert(front[k].0@ == name);
            }
        }
    }
}

/// The `serde_json::Value` of the library's tree.
pub fn value_from(j: &Json) -> (r: serde_json::Value)
    ensures
        json_of(r) == j@,
    decreases j,
{
    match j {
        Json::Null => close_value(Opened::Null),
        Json::Bool(b) => close_value(Opened::Bool(*b)),
        Json::Number(n) => close_value(Opened::Number(number_copy(n))),
        Json::Text(s) => close_value(Opened::Text(owned(s.as_str()))),
        Json::List(items) => {
            let mut out: Vec<serde_json::Value> = Vec::new();
            let mut i: usize = 0;
            while i < items.len()
                invariant
                    i <= items.len(),
                    out.len() == i,
                    j == (Json::List(*items)),
                    forall|k: int| 0 <= k < i ==> json_of(#[trigger] out@[k]) == json_view(items@[k]),
                decreases items.len() - i,
            {
                proof {
                    assert(decreases_to!(j => j->List_0));
                }
                out.push(value_from(&items[i]));
                i = i + 1;
            }
            assert(opened_list(out@) =~= list_view(items@));
            close_value(Opened::List(out))
        },
        Json::Object(fields) => {
            let mut out: Vec<(String, serde_json::Value)> = Vec::new();
            let mut i: usize = fields.len();
            proof {
                assert(fields@.take(i as int) =~= fields@);
                assert(fields_view(fields@) =~= fields_view(fields@).union_prefer_right(
                    opened_fields(out@),
                ));
            }
            while i > 0
                invariant
                    i <= fields.len(),
                    j == (Json::Object(*fields)),
                    distinct_names(out@),
                    fields_view(fields@) == fields_view(fields@.take(i as int)).union_prefer_right(
                        opened_fields(out@),
                    ),
                decreases i,
            {
                let ghost before = fields_view(fields@.take(i as int));
                let ghost have = opened_fields(out@);
                proof {
                    assert(fields@.take(i as int).drop_last() =~= fields@.take(i - 1));
                    lemma_opened_dom(out@, fields@[i - 1].0@);
                }
                i = i - 1;
                let ghost front = fields_view(fields@.take(i as int));
                if has_name(&out, fields[i].0.as_str()) {
                    assert(before.union_prefer_right(have) =~= front.union_prefer_right(have));
                } else {
                    proof {
                        assert(decreases_to!(j => j->Object_0));
                        assert(decreases_to!(fields@ => fields@[i as int]));
                    }
                    let value: serde_json::Value = value_from(&fields[i].1);
                    let ghost old_out = out@;
                    out.push((owned(fields[i].0.as_str()), value));
                    proof {
                        assert(out@.drop_last() =~= old_out);
                        assert(before.union_prefer_right(have) =~= front.union_prefer_right(
                            opened_fields(out@),
                        ));
                        assert forall|a: int, b: int|
                            0 <= a < b < out@.len() implies (#[trigger] out@[a]).0@ != (
                        #[trigger] out@[b]).0@ by {
                            if b < old_out.len() {
                                assert(old_out[a].0@ != old_out[b].0@);
                            } else {
                                assert(old_out[a].0@ != fields@[i as int].0@);
                            }
                        }
                    }
                }
            }
            proof {
                assert(fields@.take(0) =~= Seq::<(String, Json)>::empty());
                assert(fields_view(fields@) =~= opened_fields(out@));
            }
            close_value(Opened::Object(out))
        },
    }
}

/// What `serde_json::from_str` reads in a text, or what the error that it reports displays as.
pub uninterp spec fn read_json(text: Seq<char>) -> Result<JsonV, Seq<char>>;

/// Calls `serde_json::from_str::<Value>`; an error comes back as the text that it displays as.
#[verifier::external_body]
fn from_str(text: &str) -> (r: Result<serde_json::Value, String>)
    ensures
        match r {
            Ok(v) => read_json(text@) == Ok::<JsonV, Seq<char>>(json_of(v)),
            Err(e) => read_json(text@) == Err::<JsonV, Seq<char>>(e@),
        },
{
    serde_json::from_str::<serde_json::Value>(text).map_err(|err| err.to_string())
}

/// Whether a text is read as this value.
pub open spec fn reads_as(text: Seq<char>, j: JsonV) -> bool {
    read_json(text) == Ok::<JsonV, Seq<char>>(j)
}

/// How many lists and objects around one another `serde_json::from_str` reads.
pub open spec fn max_nesting() -> nat {
    127
}

/// Whether no more than `depth` lists and objects stand around one another in a value.
pub open spec fn nests(j: JsonV, depth: nat) -> bool
    decreases depth,
{
    match j {
        JsonV::List(s) => depth > 0 && forall|i: int|
            0 <= i < s.len() ==> nests(#[trigger] s[i], (depth - 1) as nat),
        JsonV::Object(m) => depth > 0 && forall|k: Seq<char>| #[trigger]
            m.dom().contains(k) ==> nests(m[k], (depth - 1) as nat),
        _ => true,
    }
}

/// What `serde_json::to_string` writes for a value.
pub uninterp spec fn json_text(v: JsonV) -> Seq<char>;

/// Calls `serde_json::Value`'s `Display`, which writes what `serde_json::to_string` does.
/// `serde_json::from_str` gives the value back, unless it goes deeper than the parser does; that
/// doubles come back too is what the feature `float_roundtrip` is for.
#[verifier::external_body]
fn compact(v: &serde_json::Value) -> (r: String)
    ensures
        r@ == json_text(json_of(*v)),
        nests(json_of(*v), max_nesting()) ==> reads_as(r@, json_of(*v)),
{
    v.to_string()
}

/// What `serde_json::to_string_pretty` writes for a value.
pub uninterp spec fn pretty_text(v: JsonV) -> Seq<char>;

/// Calls `serde_json::Value`'s `Display` in its alternate form, which writes what
/// `serde_json::to_string_pretty` does. `serde_json::from_str` gives the value back, unless it
/// goes deeper than the parser does; that doubles come back too is what the feature
/// `float_roundtrip` is for.
#[verifier::external_body]
fn indented(v: &serde_json::Value) -> (r: String)
    ensures
        r@ == pretty_text(json_of(*v)),
        nests(json_of(*v), max_nesting()) ==> reads_as(r@, json_of(*v)),
{
    format!("{:#}", v)
}

/// What a parser gives, with its texts.
pub open spec fn reading(parsed: Result<Json, String>) -> Result<JsonV, Seq<char>> {
    match parsed {
        Ok(j) => Ok(j@),
        Err(e) => Err(e@),
    }
}

/// Reads a text as JSON; where that fails, the error says why.
pub fn parse(text: &str) -> (r: Result<Json, String>)
    ensures
        reading(r) == read_json(text@),
{
    match from_str(text) {
        Ok(v) => Ok(json_from(v)),
        Err(e) => Err(e),
    }
}

/// Writes a value on one line.
pub fn render(j: &Json) -> (r: String)
    ensures
        r@ == json_text(j@),
        nests(j@, max_nesting()) ==> reads_as(r@, j@),
{
    compact(&value_from(j))
}

/// Writes a value on several lines, indented.
pub fn render_pretty(j: &Json) -> (r: String)
    ensures
        r@ == pretty_text(j@),
        nests(j@, max_nesting()) ==> reads_as(r@, j@),
{
    indented(&value_from(j))
}

/// What a field is read as: a number, a truth value, a text or a list where it is one, and nothing
/// else; a text may be missing or null.
pub proof fn law_fields_read(j: JsonV, key: Seq<char>, n: u64, b: bool, s: Seq<char>, l: Seq<JsonV>)
    ensures
        j.field_unsigned(key) == Some(n) <==> j.field(key) == Some(unsigned(n)),
        j.field_flag(key) == Some(b) <==> j.field(key) == Some(JsonV::Bool(b)),
        j.field_chars(key) == Some(s) <==> j.field(key) == Some(JsonV::Text(s)),
        j.field_items(key) == Some(l) <==> j.field(key) == Some(JsonV::List(l)),
        j.field_opt_chars(key) == Some(Some(s)) <==> j.field(key) == Some(JsonV::Text(s)),
        j.field_opt_chars(key) == Some(None::<Seq<char>>) <==> j.field(key) is None || j.field(key)
            == Some(JsonV::Null),
        n <= usize::MAX ==> (j.field_index(key) == Some(n as usize) <==> j.field(key) == Some(
            unsigned(n),
        )),
{
}

/// A field that is set is the one that is read, and every other stays as it was; setting the other
/// way round gives the same where the names differ.
pub proof fn law_fields_set(j: JsonV, key: Seq<char>, other: Seq<char>, v: JsonV, w: JsonV)
    requires
        j is Object,
        j->Object_0.dom().finite(),
        key != other,
    ensures
        j.with(key, v).field(key) == Some(v),
        j.with(key, v).field(other) == j.field(other),
        j.with(key, v).with(other, w) == j.with(other, w).with(key, v),
        j.with(key, v).with(key, w) == j.with(key, w),
        empty_object().field(key) is None,
{
    let m = j->Object_0;
    assert(m.insert(key, v).insert(other, w) =~= m.insert(other, w).insert(key, v));
    assert(m.insert(key, v).insert(key, w) =~= m.insert(key, w));
}

/// A member of a record is read from the field of its name, or from its place in a list that is not
/// too long.
pub proof fn law_parts_read(j: JsonV, items: Seq<JsonV>, name: Seq<char>, place: int, n: int)
    ensures
        j is Object ==> j.part(name, place, n) == j.field(name),
        0 <= place < items.len() <= n ==> JsonV::List(items).part(name, place, n) == Some(
            items[place],
        ),
        items.len() > n ==> JsonV::List(items).part(name, place, n) is None,
        place >= items.len() ==> JsonV::List(items).part(name, place, n) is None,
        JsonV::List(items).is_record(n) <==> items.len() <= n,
{
}

/// Signed numbers are those that are written, and all of a list is there or none.
pub proof fn law_numbers_and_lists(n: i64, s: Seq<Seq<char>>, l: Seq<Option<int>>, i: int)
    ensures
        n >= 0 ==> signed(n) == unsigned(n as u64),
        n < 0 ==> signed(n) == JsonV::Number(NumberV::Negative(n)),
        text_list(s) matches JsonV::List(items) && items.len() == s.len() && (0 <= i < s.len()
            ==> items[i] == JsonV::Text(s[i])),
        all_some(l) matches Some(all) ==> all.len() == l.len() && (0 <= i < l.len() ==> l[i] == Some(
            all[i],
        )),
        0 <= i < l.len() && l[i] is None ==> all_some(l) is None,
{
    if all_some(l) is Some && 0 <= i < l.len() {
        assert(l[i] is Some);
    }
}

} // verus!
