//! A JSON document held as plain values.
//!
//! Configuration rows, chat messages, tool schemas and the NDJSON guest protocol
//! are all JSON. The library reads and builds them through this type; turning
//! text into a `Json` and back happens at the edges.
use vstd::prelude::*;

use serde_json::{Number, Value};

use crate::text::str_eq;

verus! {

/// A JSON number: a non-negative integer, a negative integer, or any other
/// number kept as its decimal text.
#[derive(Debug)]
pub enum JsonNumber {
    PosInt(u64),
    NegInt(i64),
    Float(String),
}

/// A JSON value. Object members keep their order; lookups take the first
/// member with the key.
#[derive(Debug)]
pub enum Json {
    Null,
    Bool(bool),
    Number(JsonNumber),
    Str(String),
    Array(Vec<Json>),
    Object(Vec<(String, Json)>),
}

/// The abstract value of a [`JsonNumber`].
pub enum NumberV {
    PosInt(u64),
    NegInt(i64),
    Float(Seq<char>),
}

/// The abstract value of a [`Json`]: the same tree with text as `Seq<char>`.
pub enum JsonV {
    Null,
    Bool(bool),
    Number(NumberV),
    Str(Seq<char>),
    Array(Seq<JsonV>),
    Object(Seq<(Seq<char>, JsonV)>),
}

pub open spec fn view_number(n: JsonNumber) -> NumberV {
    match n {
        JsonNumber::PosInt(v) => NumberV::PosInt(v),
        JsonNumber::NegInt(v) => NumberV::NegInt(v),
        JsonNumber::Float(t) => NumberV::Float(t@),
    }
}

pub open spec fn view_json(j: Json) -> JsonV
    decreases j,
{
    match j {
        Json::Null => JsonV::Null,
        Json::Bool(b) => JsonV::Bool(b),
        Json::Number(n) => JsonV::Number(view_number(n)),
        Json::Str(s) => JsonV::Str(s@),
        Json::Array(items) => JsonV::Array(view_items(items@)),
        Json::Object(fields) => JsonV::Object(view_fields(fields@)),
    }
}

pub open spec fn view_items(s: Seq<Json>) -> Seq<JsonV>
    decreases s,
{
    if s.len() == 0 {
        Seq::empty()
    } else {
        seq![view_json(s[0])] + view_items(s.drop_first())
    }
}

pub open spec fn view_fields(s: Seq<(String, Json)>) -> Seq<(Seq<char>, JsonV)>
    decreases s,
{
    if s.len() == 0 {
        Seq::empty()
    } else {
        seq![(s[0].0@, view_json(s[0].1))] + view_fields(s.drop_first())
    }
}

pub proof fn lemma_view_items(s: Seq<Json>)
    ensures
        view_items(s).len() == s.len(),
        forall|i: int| 0 <= i < s.len() ==> #[trigger] view_items(s)[i] == view_json(s[i]),
    decreases s.len(),
{
    if s.len() > 0 {
        lemma_view_items(s.drop_first());
        assert forall|i: int| 0 <= i < s.len() implies #[trigger] view_items(s)[i] == view_json(
            s[i],
        ) by {
            if i > 0 {
                assert(s.drop_first()[i - 1] == s[i]);
            }
        }
    }
}

pub proof fn lemma_view_fields(s: Seq<(String, Json)>)
    ensures
        view_fields(s).len() == s.len(),
        forall|i: int|
            0 <= i < s.len() ==> #[trigger] view_fields(s)[i] == (s[i].0@, view_json(s[i].1)),
    decreases s.len(),
{
    if s.len() > 0 {
        lemma_view_fields(s.drop_first());
        assert forall|i: int| 0 <= i < s.len() implies #[trigger] view_fields(s)[i] == (
            s[i].0@,
            view_json(s[i].1),
        ) by {
            if i > 0 {
                assert(s.drop_first()[i - 1] == s[i]);
            }
        }
    }
}

impl View for Json {
    type V = JsonV;

    open spec fn view(&self) -> JsonV {
        view_json(*self)
    }
}

/// The first member of `fields` whose key is `key`.
pub open spec fn field_of(fields: Seq<(Seq<char>, JsonV)>, key: Seq<char>) -> Option<JsonV>
    decreases fields.len(),
{
    if fields.len() == 0 {
        None
    } else if fields[0].0 == key {
        Some(fields[0].1)
    } else {
        field_of(fields.drop_first(), key)
    }
}

/// The first member keyed `key` is the first one past a prefix without it.
pub proof fn lemma_field_of_prefix(fields: Seq<(Seq<char>, JsonV)>, key: Seq<char>, i: int)
    requires
        0 <= i <= fields.len(),
        forall|j: int| 0 <= j < i ==> fields[j].0 != key,
    ensures
        i < fields.len() && fields[i].0 == key ==> field_of(fields, key) == Some(fields[i].1),
        i == fields.len() ==> field_of(fields, key) is None,
    decreases i,
{
    if i > 0 {
        let rest = fields.drop_first();
        assert forall|j: int| 0 <= j < i - 1 implies rest[j].0 != key by {
            assert(rest[j] == fields[j + 1]);
        }
        lemma_field_of_prefix(rest, key, i - 1);
        if i < fields.len() {
            assert(rest[i - 1] == fields[i]);
        }
    }
}

/// `fields` with the first member keyed `key` given `value`, or with the member
/// appended when there is none.
pub open spec fn fields_with(fields: Seq<(Seq<char>, JsonV)>, key: Seq<char>, value: JsonV) -> Seq<
    (Seq<char>, JsonV),
> {
    let i = field_index(fields, key);
    if i < fields.len() {
        fields.update(i, (key, value))
    } else {
        fields.push((key, value))
    }
}

/// Position of the first member of `fields` whose key is `key`, or `fields.len()`.
pub open spec fn field_index(fields: Seq<(Seq<char>, JsonV)>, key: Seq<char>) -> int
    decreases fields.len(),
{
    if fields.len() == 0 {
        0
    } else if fields[0].0 == key {
        0
    } else {
        1 + field_index(fields.drop_first(), key)
    }
}

pub proof fn lemma_field_index(fields: Seq<(Seq<char>, JsonV)>, key: Seq<char>)
    ensures
        0 <= field_index(fields, key) <= fields.len(),
        field_index(fields, key) < fields.len() ==> fields[field_index(fields, key)].0 == key
            && field_of(fields, key) == Some(fields[field_index(fields, key)].1),
        field_index(fields, key) == fields.len() ==> field_of(fields, key) is None,
        forall|j: int| 0 <= j < field_index(fields, key) ==> fields[j].0 != key,
    decreases fields.len(),
{
    if fields.len() > 0 && fields[0].0 != key {
        lemma_field_index(fields.drop_first(), key);
        assert forall|j: int| 0 <= j < field_index(fields, key) implies fields[j].0 != key by {
            if j > 0 {
                assert(fields[j] == fields.drop_first()[j - 1]);
            }
        }
    }
}

/// The first `i` with `fields[i].0 == key` is `field_index`.
pub proof fn lemma_field_index_at(fields: Seq<(Seq<char>, JsonV)>, key: Seq<char>, i: int)
    requires
        0 <= i <= fields.len(),
        forall|j: int| 0 <= j < i ==> fields[j].0 != key,
        i < fields.len() ==> fields[i].0 == key,
    ensures
        field_index(fields, key) == i,
    decreases i,
{
    if i > 0 {
        let rest = fields.drop_first();
        assert forall|j: int| 0 <= j < i - 1 implies rest[j].0 != key by {
            assert(rest[j] == fields[j + 1]);
        }
        if i < fields.len() {
            assert(rest[i - 1] == fields[i]);
        }
        lemma_field_index_at(rest, key, i - 1);
    }
}

impl JsonV {
    /// The value with member `key` set to `value`; values other than objects
    /// are left as they are.
    pub open spec fn with_member(self, key: Seq<char>, value: JsonV) -> JsonV {
        match self {
            JsonV::Object(fields) => JsonV::Object(fields_with(fields, key, value)),
            _ => self,
        }
    }

    /// Member `key` of an object; `None` for any other value.
    pub open spec fn member(self, key: Seq<char>) -> Option<JsonV> {
        match self {
            JsonV::Object(fields) => field_of(fields, key),
            _ => None,
        }
    }

    /// The text of a string value.
    pub open spec fn text(self) -> Option<Seq<char>> {
        match self {
            JsonV::Str(s) => Some(s),
            _ => None,
        }
    }

    /// The value of a non-negative integer.
    pub open spec fn unsigned(self) -> Option<u64> {
        match self {
            JsonV::Number(NumberV::PosInt(n)) => Some(n),
            _ => None,
        }
    }

    /// The value of a boolean.
    pub open spec fn boolean(self) -> Option<bool> {
        match self {
            JsonV::Bool(b) => Some(b),
            _ => None,
        }
    }

    /// The items of an array.
    pub open spec fn items(self) -> Option<Seq<JsonV>> {
        match self {
            JsonV::Array(items) => Some(items),
            _ => None,
        }
    }

    /// `member(key)` read as text.
    pub open spec fn str_member(self, key: Seq<char>) -> Option<Seq<char>> {
        match self.member(key) {
            Some(v) => v.text(),
            None => None,
        }
    }

    /// `member(key)` read as a non-negative integer.
    pub open spec fn u64_member(self, key: Seq<char>) -> Option<u64> {
        match self.member(key) {
            Some(v) => v.unsigned(),
            None => None,
        }
    }

    /// `member(key)` read as a boolean.
    pub open spec fn bool_member(self, key: Seq<char>) -> Option<bool> {
        match self.member(key) {
            Some(v) => v.boolean(),
            None => None,
        }
    }

    /// `member(key)` read as an array.
    pub open spec fn array_member(self, key: Seq<char>) -> Option<Seq<JsonV>> {
        match self.member(key) {
            Some(v) => v.items(),
            None => None,
        }
    }
}

impl Json {
    /// Member `key` of an object.
    pub fn get(&self, key: &str) -> (r: Option<&Json>)
        ensures
            match r {
                Some(v) => self@.member(key@) == Some(v@),
                None => self@.member(key@) is None,
            },
    {
        match self {
            Json::Object(fields) => {
                assert(*self == Json::Object(*fields));
                let mut i: usize = 0;
                while i < fields.len()
                    invariant
                        *self == Json::Object(*fields),
                        i <= fields@.len(),
                        forall|j: int| 0 <= j < i ==> fields@[j].0@ != key@,
                    decreases fields@.len() - i,
                {
                    if str_eq(fields[i].0.as_str(), key) {
                        proof {
                            lemma_view_fields(fields@);
                            lemma_field_of_prefix(view_fields(fields@), key@, i as int);
                        }
                        return Some(&fields[i].1);
                    }
                    i = i + 1;
                }
                proof {
                    lemma_view_fields(fields@);
                    lemma_field_of_prefix(view_fields(fields@), key@, i as int);
                }
                None
            },
            _ => None,
        }
    }

    /// The text of a string value.
    pub fn as_str(&self) -> (r: Option<&str>)
        ensures
            match r {
                Some(s) => self@.text() == Some(s@),
                None => self@.text() is None,
            },
    {
        match self {
            Json::Str(s) => Some(s.as_str()),
            _ => None,
        }
    }

    /// The value of a non-negative integer.
    pub fn as_u64(&self) -> (r: Option<u64>)
        ensures
            r == self@.unsigned(),
    {
        match self {
            Json::Number(JsonNumber::PosInt(n)) => Some(*n),
            _ => None,
        }
    }

    /// The value of a boolean.
    pub fn as_bool(&self) -> (r: Option<bool>)
        ensures
            r == self@.boolean(),
    {
        match self {
            Json::Bool(b) => Some(*b),
            _ => None,
        }
    }

    /// The items of an array.
    pub fn as_array(&self) -> (r: Option<&Vec<Json>>)
        ensures
            match r {
                Some(v) => self@.items() == Some(view_items(v@)),
                None => self@.items() is None,
            },
    {
        match self {
            Json::Array(items) => Some(items),
            _ => None,
        }
    }

    /// `get(key)` read as text.
    pub fn get_str(&self, key: &str) -> (r: Option<&str>)
        ensures
            match r {
                Some(s) => self@.str_member(key@) == Some(s@),
                None => self@.str_member(key@) is None,
            },
    {
        match self.get(key) {
            Some(v) => v.as_str(),
            None => None,
        }
    }

    /// `get(key)` read as a non-negative integer.
    pub fn get_u64(&self, key: &str) -> (r: Option<u64>)
        ensures
            r == self@.u64_member(key@),
    {
        match self.get(key) {
            Some(v) => v.as_u64(),
            None => None,
        }
    }

    /// `get(key)` read as a boolean.
    pub fn get_bool(&self, key: &str) -> (r: Option<bool>)
        ensures
            r == self@.bool_member(key@),
    {
        match self.get(key) {
            Some(v) => v.as_bool(),
            None => None,
        }
    }

    /// `get(key)` read as an array.
    pub fn get_array(&self, key: &str) -> (r: Option<&Vec<Json>>)
        ensures
            match r {
                Some(v) => self@.array_member(key@) == Some(view_items(v@)),
                None => self@.array_member(key@) is None,
            },
    {
        match self.get(key) {
            Some(v) => v.as_array(),
            None => None,
        }
    }

    /// `self` with member `key` set to `value` (an object member is replaced in
    /// place, or appended when missing); values other than objects come back as
    /// they are.
    pub fn with_member(self, key: &str, value: Json) -> (r: Json)
        ensures
            r@ == self@.with_member(key@, value@),
    {
        match self {
            Json::Object(mut fields) => {
                let ghost old_fields = fields@;
                let mut i: usize = 0;
                while i < fields.len()
                    invariant
                        fields@ == old_fields,
                        i <= fields@.len(),
                        forall|j: int| 0 <= j < i ==> fields@[j].0@ != key@,
                    ensures
                        fields@ == old_fields,
                        i <= fields@.len(),
                        forall|j: int| 0 <= j < i ==> fields@[j].0@ != key@,
                        i < fields@.len() ==> fields@[i as int].0@ == key@,
                    decreases fields@.len() - i,
                {
                    if str_eq(fields[i].0.as_str(), key) {
                        break;
                    }
                    i = i + 1;
                }
                proof {
                    lemma_view_fields(old_fields);
                    lemma_field_index_at(view_fields(old_fields), key@, i as int);
                }
                if i < fields.len() {
                    fields.set(i, (key.to_owned(), value));
                } else {
                    fields.push((key.to_owned(), value));
                }
                proof {
                    lemma_view_fields(fields@);
                    assert(view_fields(fields@) =~= fields_with(view_fields(old_fields), key@, value@));
                }
                Json::Object(fields)
            },
            other => other,
        }
    }

    /// A copy equal to `self`.
    pub fn deep_clone(&self) -> (r: Json)
        ensures
            r@ == self@,
        decreases self,
    {
        match self {
            Json::Null => Json::Null,
            Json::Bool(b) => Json::Bool(*b),
            Json::Number(JsonNumber::PosInt(n)) => Json::Number(JsonNumber::PosInt(*n)),
            Json::Number(JsonNumber::NegInt(n)) => Json::Number(JsonNumber::NegInt(*n)),
            Json::Number(JsonNumber::Float(t)) => Json::Number(JsonNumber::Float(t.clone())),
            Json::Str(s) => Json::Str(s.clone()),
            Json::Array(items) => {
                let mut out: Vec<Json> = Vec::new();
                let mut i: usize = 0;
                while i < items.len()
                    invariant
                        *self == Json::Array(*items),
                        i <= items@.len(),
                        out@.len() == i,
                        forall|j: int| 0 <= j < i ==> (#[trigger] out@[j])@ == items@[j]@,
                    decreases items@.len() - i,
                {
                    proof {
                        assert(decreases_to!(*self => (*self)->Array_0));
                        assert(decreases_to!(*items => items@));
                        assert(decreases_to!(items@ => items@[i as int]));
                    }
                    let c = items[i].deep_clone();
                    out.push(c);
                    i = i + 1;
                }
                proof {
                    lemma_view_items(out@);
                    lemma_view_items(items@);
                    assert(view_items(out@) =~= view_items(items@));
                }
                Json::Array(out)
            },
            Json::Object(fields) => {
                let mut out: Vec<(String, Json)> = Vec::new();
                let mut i: usize = 0;
                while i < fields.len()
                    invariant
                        *self == Json::Object(*fields),
                        i <= fields@.len(),
                        out@.len() == i,
                        forall|j: int|
                            0 <= j < i ==> (#[trigger] out@[j]).0@ == fields@[j].0@ && out@[j].1@
                                == fields@[j].1@,
                    decreases fields@.len() - i,
                {
                    proof {
                        assert(decreases_to!(*self => (*self)->Object_0));
                        assert(decreases_to!(*fields => fields@));
                        assert(decreases_to!(fields@ => fields@[i as int]));
                        assert(decreases_to!(fields@[i as int] => fields@[i as int].1));
                    }
                    let k = fields[i].0.clone();
                    let v = fields[i].1.deep_clone();
                    out.push((k, v));
                    i = i + 1;
                }
                proof {
                    lemma_view_fields(out@);
                    lemma_view_fields(fields@);
                    assert(view_fields(out@) =~= view_fields(fields@));
                }
                Json::Object(out)
            },
        }
    }
}

/// `serde_json::to_string` of the value: compact JSON text, object keys in
/// serde_json's map order.
pub uninterp spec fn json_text(value: JsonV) -> Seq<char>;

#[verifier::external_type_specification]
#[verifier::external_body]
pub struct ExSerdeValue(serde_json::Value);

#[verifier::external_type_specification]
#[verifier::external_body]
pub struct ExSerdeNumber(serde_json::Number);

/// Builds the `serde_json::Value` that mirrors `value` node for node.
#[verifier::external_body]
pub(crate) fn to_serde(value: &Json) -> Value {
    match value {
        Json::Null => Value::Null,
        Json::Bool(b) => Value::Bool(*b),
        Json::Number(n) => number_to_serde(n),
        Json::Str(s) => Value::String(s.clone()),
        Json::Array(items) => Value::Array(items.iter().map(to_serde).collect()),
        Json::Object(fields) => Value::Object(fields.iter().map(|(k, v)| (k.clone(), to_serde(v))).collect()),
    }
}

/// Builds the `serde_json::Value` of a number.
#[verifier::external_body]
fn number_to_serde(n: &JsonNumber) -> Value {
    match n {
        JsonNumber::PosInt(n) => Value::from(*n),
        JsonNumber::NegInt(n) => Value::from(*n),
        JsonNumber::Float(t) => serde_json::from_str(t).unwrap_or(Value::Null),
    }
}

/// `serde_json::to_string`: the compact JSON text of `value`. The text is named
/// by `json_text`; nothing more of its shape is claimed here.
#[verifier::external_body]
fn compact_text(value: &Json) -> (text: String)
    ensures
        text@ == json_text(value@),
{
    serde_json::to_string(&to_serde(value)).unwrap_or_default()
}

/// The compact JSON text of `value` (see [`json_text`]).
pub fn to_json_text(value: &Json) -> (text: String)
    ensures
        text@ == json_text(value@),
{
    compact_text(value)
}

/// `serde_json::to_string_pretty` of the value: indented JSON text.
pub uninterp spec fn json_pretty_text(value: JsonV) -> Seq<char>;

/// `serde_json::to_string_pretty`: the indented JSON text of `value`, named by
/// `json_pretty_text`; nothing more of its shape is claimed here.
#[verifier::external_body]
fn indented_text(value: &Json) -> (text: String)
    ensures
        text@ == json_pretty_text(value@),
{
    serde_json::to_string_pretty(&to_serde(value)).unwrap_or_default()
}

/// The indented JSON text of `value` (see [`json_pretty_text`]).
pub fn to_pretty_text(value: &Json) -> (text: String)
    ensures
        text@ == json_pretty_text(value@),
{
    indented_text(value)
}

/// What `serde_json::from_str` makes of `text`: the value, or the text of the
/// parser's error.
pub uninterp spec fn json_parse(text: Seq<char>) -> Result<JsonV, Seq<char>>;

/// Builds the `Json` that mirrors a `serde_json::Value` node for node.
#[verifier::external_body]
pub(crate) fn from_serde(value: &Value) -> Json {
    match value {
        Value::Null => Json::Null,
        Value::Bool(b) => Json::Bool(*b),
        Value::Number(n) => Json::Number(number_from_serde(n)),
        Value::String(s) => Json::Str(s.clone()),
        Value::Array(items) => Json::Array(items.iter().map(from_serde).collect()),
        Value::Object(map) => Json::Object(map.iter().map(|(k, v)| (k.clone(), from_serde(v))).collect()),
    }
}

/// Builds the number a `serde_json::Number` holds.
#[verifier::external_body]
fn number_from_serde(n: &Number) -> JsonNumber {
    match (n.as_u64(), n.as_i64()) {
        (Some(u), _) => JsonNumber::PosInt(u),
        (None, Some(i)) => JsonNumber::NegInt(i),
        (None, None) => JsonNumber::Float(n.to_string()),
    }
}

/// `serde_json::from_str` into a value: what it returns is named by `json_parse`.
#[verifier::external_body]
pub(crate) fn parse_json(text: &str) -> (r: Result<Json, String>)
    ensures
        match r {
            Ok(v) => json_parse(text@) == Ok::<JsonV, Seq<char>>(v@),
            Err(e) => json_parse(text@) == Err::<JsonV, Seq<char>>(e@),
        },
{
    match serde_json::from_str::<Value>(text) {
        Ok(v) => Ok(from_serde(&v)),
        Err(e) => Err(e.to_string()),
    }
}

/// A string value.
pub fn json_str(s: &str) -> (r: Json)
    ensures
        r@.text() == Some(s@),
        r is Str,
{
    Json::Str(s.to_owned())
}

} // verus!
