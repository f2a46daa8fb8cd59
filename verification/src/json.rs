//! JSON documents as the library reads them: a plain data model of what
//! `serde_json` parses, with lookups whose meaning is stated.

use vstd::prelude::*;

use crate::text::{owned, str_eq};

verus! {

/// A JSON number as `serde_json` holds it: a non-negative integer, a
/// negative integer, or a float, kept as its shortest decimal writing
/// (which reads back as the same float).
#[derive(Debug)]
pub enum JsonNumber {
    PosInt(u64),
    NegInt(i64),
    Float(String),
}

/// A JSON value.  An object keeps its members in `serde_json`'s order
/// (sorted by key, each key once).
#[derive(Debug)]
pub enum Json {
    Null,
    Bool(bool),
    Number(JsonNumber),
    Str(String),
    Array(Vec<Json>),
    Object(Vec<(String, Json)>),
}

/// The mathematical value of a JSON number.
pub enum NumberView {
    PosInt(u64),
    NegInt(i64),
    Float(Seq<char>),
}

/// The mathematical value of a JSON document.
pub enum JsonView {
    Null,
    Bool(bool),
    Number(NumberView),
    Str(Seq<char>),
    Array(Seq<JsonView>),
    Object(Seq<(Seq<char>, JsonView)>),
}

/// The value of a number.
pub open spec fn number_view(n: JsonNumber) -> NumberView {
    match n {
        JsonNumber::PosInt(u) => NumberView::PosInt(u),
        JsonNumber::NegInt(i) => NumberView::NegInt(i),
        JsonNumber::Float(t) => NumberView::Float(t@),
    }
}

/// The value of a document.
pub open spec fn json_view(j: Json) -> JsonView
    decreases j, 0nat,
{
    match j {
        Json::Null => JsonView::Null,
        Json::Bool(b) => JsonView::Bool(b),
        Json::Number(n) => JsonView::Number(number_view(n)),
        Json::Str(s) => JsonView::Str(s@),
        Json::Array(v) => JsonView::Array(items_view(v@)),
        Json::Object(m) => JsonView::Object(members_view(m@)),
    }
}

/// The values of a sequence of documents.
pub open spec fn items_view(items: Seq<Json>) -> Seq<JsonView>
    decreases items, 1nat,
{
    if items.len() == 0 {
        Seq::empty()
    } else {
        seq![json_view(items[0])] + items_view(items.subrange(1, items.len() as int))
    }
}

/// The values of a sequence of object members.
pub open spec fn members_view(m: Seq<(String, Json)>) -> Seq<(Seq<char>, JsonView)>
    decreases m, 1nat,
{
    if m.len() == 0 {
        Seq::empty()
    } else {
        seq![(m[0].0@, json_view(m[0].1))] + members_view(m.subrange(1, m.len() as int))
    }
}

impl View for JsonNumber {
    type V = NumberView;

    open spec fn view(&self) -> NumberView {
        number_view(*self)
    }
}

impl View for Json {
    type V = JsonView;

    open spec fn view(&self) -> JsonView {
        json_view(*self)
    }
}

/// The members of a sequence have the values `members_view` lists.
pub proof fn lemma_members_view(m: Seq<(String, Json)>)
    ensures
        members_view(m).len() == m.len(),
        forall|i: int| 0 <= i < m.len() ==> #[trigger] members_view(m)[i] == (m[i].0@, json_view(m[i].1)),
    decreases m.len(),
{
    if m.len() > 0 {
        let rest = m.subrange(1, m.len() as int);
        lemma_members_view(rest);
        assert forall|i: int| 0 <= i < m.len() implies #[trigger] members_view(m)[i] == (m[i].0@, json_view(m[i].1)) by {
            if i > 0 {
                assert(members_view(m)[i] == members_view(rest)[i - 1]);
                assert(rest[i - 1] == m[i]);
            }
        }
    }
}

/// The items of a sequence have the values `items_view` lists.
pub proof fn lemma_items_view(v: Seq<Json>)
    ensures
        items_view(v).len() == v.len(),
        forall|i: int| 0 <= i < v.len() ==> #[trigger] items_view(v)[i] == json_view(v[i]),
    decreases v.len(),
{
    if v.len() > 0 {
        let rest = v.subrange(1, v.len() as int);
        lemma_items_view(rest);
        assert forall|i: int| 0 <= i < v.len() implies #[trigger] items_view(v)[i] == json_view(v[i]) by {
            if i > 0 {
                assert(items_view(v)[i] == items_view(rest)[i - 1]);
                assert(rest[i - 1] == v[i]);
            }
        }
    }
}

#[verifier::external_type_specification]
#[verifier::external_body]
pub struct ExValue(serde_json::Value);

/// What `serde_json::from_str::<Value>` makes of a text: the document, or
/// the text of the error when the text is not one JSON document.
pub uninterp spec fn json_parse_result(text: Seq<char>) -> Result<JsonView, Seq<char>>;

/// The document a text holds, if it is one.
pub open spec fn json_parsed(text: Seq<char>) -> Option<JsonView> {
    match json_parse_result(text) {
        Ok(j) => Some(j),
        Err(_) => None,
    }
}

/// What `serde_json`'s stream deserializer reads first from a text: the
/// JSON value at its start (after white space), when one parses there,
/// whatever text follows it.
pub uninterp spec fn json_leading_value(text: Seq<char>) -> Option<JsonView>;

/// The compact text that `serde_json` writes for a value (`Value`'s
/// `Display`).
pub uninterp spec fn json_written(value: JsonView) -> Seq<char>;

/// Converts a `serde_json::Value` that holds a number into the library's
/// model of it: the `u64` the number is, else the `i64`, else its writing.
#[verifier::external_body]
fn number_from_value(v: &serde_json::Value) -> JsonNumber {
    match (v.as_u64(), v.as_i64()) {
        (Some(u), _) => JsonNumber::PosInt(u),
        (None, Some(i)) => JsonNumber::NegInt(i),
        (None, None) => JsonNumber::Float(v.to_string()),
    }
}

/// Converts a `serde_json::Value` into the library's model, one variant for
/// one variant.
#[verifier::external_body]
fn json_from_value(v: &serde_json::Value) -> Json {
    match v {
        serde_json::Value::Null => Json::Null,
        serde_json::Value::Bool(b) => Json::Bool(*b),
        serde_json::Value::Number(_) => Json::Number(number_from_value(v)),
        serde_json::Value::String(s) => Json::Str(s.clone()),
        serde_json::Value::Array(a) => Json::Array(a.iter().map(json_from_value).collect()),
        serde_json::Value::Object(m) => Json::Object(m.iter().map(|(k, x)| (k.clone(), json_from_value(x))).collect()),
    }
}

/// Converts the library's model of a number back into a
/// `serde_json::Value`; a float is read back from its writing.
#[verifier::external_body]
fn value_of_number(n: &JsonNumber) -> serde_json::Value {
    match n {
        JsonNumber::PosInt(u) => serde_json::Value::from(*u),
        JsonNumber::NegInt(i) => serde_json::Value::from(*i),
        JsonNumber::Float(t) => t.parse::<serde_json::Number>().map(serde_json::Value::Number).unwrap_or(serde_json::Value::Null),
    }
}

/// Converts the library's model back into a `serde_json::Value`, one
/// variant for one variant.
#[verifier::external_body]
fn value_from_json(j: &Json) -> serde_json::Value {
    match j {
        Json::Null => serde_json::Value::Null,
        Json::Bool(b) => serde_json::Value::Bool(*b),
        Json::Number(n) => value_of_number(n),
        Json::Str(s) => serde_json::Value::String(s.clone()),
        Json::Array(a) => serde_json::Value::Array(a.iter().map(value_from_json).collect()),
        Json::Object(m) => serde_json::Value::Object(m.iter().map(|(k, x)| (k.clone(), value_from_json(x))).collect()),
    }
}

/// Parses a JSON document with `serde_json::from_str::<serde_json::Value>`,
/// giving the error's text on failure.  Claimed: the outcome is
/// `json_parse_result` of the text; what that is on a given text is not
/// stated.
#[verifier::external_body]
pub(crate) fn parse_json(text: &str) -> (r: Result<Json, String>)
    ensures
        match r {
            Ok(j) => json_parse_result(text@) == Ok::<JsonView, Seq<char>>(j@),
            Err(e) => json_parse_result(text@) == Err::<JsonView, Seq<char>>(e@),
        },
{
    match serde_json::from_str::<serde_json::Value>(text) {
        Ok(v) => Ok(json_from_value(&v)),
        Err(e) => Err(e.to_string()),
    }
}

/// Reads the first JSON value of a text with
/// `serde_json::Deserializer::from_str(..).into_iter::<Value>().next()`,
/// which parses the value at the start of the text (after white space) and
/// leaves what follows it unread.  Claimed: the result is
/// `json_leading_value` of the text (nothing when the stream yields an
/// error or no value); what that is on a given text is not stated.
#[verifier::external_body]
pub(crate) fn parse_leading_json(text: &str) -> (r: Option<Json>)
    ensures
        match r {
            Some(j) => json_leading_value(text@) == Some(j@),
            None => json_leading_value(text@) is None,
        },
{
    match serde_json::Deserializer::from_str(text).into_iter::<serde_json::Value>().next() {
        Some(Ok(v)) => Some(json_from_value(&v)),
        Some(Err(_)) => None,
        None => None,
    }
}

/// Writes a value as compact JSON text with `serde_json::Value`'s
/// `Display` (`to_string`).  Claimed: the text is `json_written` of the
/// value; what that is on a given value is not stated.
#[verifier::external_body]
pub(crate) fn write_json(value: &Json) -> (s: String)
    ensures
        s@ == json_written(value@),
{
    value_from_json(value).to_string()
}

/// The value of the first member named `key`.
pub open spec fn field_lookup(fields: Seq<(Seq<char>, JsonView)>, key: Seq<char>) -> Option<JsonView>
    decreases fields.len(),
{
    if fields.len() == 0 {
        None
    } else if fields[0].0 == key {
        Some(fields[0].1)
    } else {
        field_lookup(fields.drop_first(), key)
    }
}

/// `Value::get` with a string key: the member of an object, nothing for any
/// other value.
pub open spec fn json_get(j: JsonView, key: Seq<char>) -> Option<JsonView> {
    match j {
        JsonView::Object(fields) => field_lookup(fields, key),
        _ => None,
    }
}

/// `json_get` on an optional value (`Option::and_then(|v| v.get(key))`).
pub open spec fn opt_get(j: Option<JsonView>, key: Seq<char>) -> Option<JsonView> {
    match j {
        Some(v) => json_get(v, key),
        None => None,
    }
}

/// The text of a JSON string.
pub open spec fn as_text(j: Option<JsonView>) -> Option<Seq<char>> {
    match j {
        Some(JsonView::Str(s)) => Some(s),
        _ => None,
    }
}

/// The value of a JSON boolean.
pub open spec fn as_flag(j: Option<JsonView>) -> Option<bool> {
    match j {
        Some(JsonView::Bool(b)) => Some(b),
        _ => None,
    }
}

/// A JSON number.
pub open spec fn as_number(j: Option<JsonView>) -> Option<NumberView> {
    match j {
        Some(JsonView::Number(n)) => Some(n),
        _ => None,
    }
}

/// The elements of a JSON array.
pub open spec fn as_items(j: Option<JsonView>) -> Option<Seq<JsonView>> {
    match j {
        Some(JsonView::Array(v)) => Some(v),
        _ => None,
    }
}

/// The members of a JSON object.
pub open spec fn as_members(j: Option<JsonView>) -> Option<Seq<(Seq<char>, JsonView)>> {
    match j {
        Some(JsonView::Object(m)) => Some(m),
        _ => None,
    }
}

/// `Value::as_i64`: an integer that fits an `i64`.
pub open spec fn as_int(j: Option<JsonView>) -> Option<i64> {
    match j {
        Some(JsonView::Number(NumberView::PosInt(u))) => if u <= i64::MAX { Some(u as i64) } else { None },
        Some(JsonView::Number(NumberView::NegInt(i))) => Some(i),
        _ => None,
    }
}

/// A copy of a number.
pub fn copy_number(n: &JsonNumber) -> (r: JsonNumber)
    ensures
        r@ == n@,
{
    match n {
        JsonNumber::PosInt(u) => JsonNumber::PosInt(*u),
        JsonNumber::NegInt(i) => JsonNumber::NegInt(*i),
        JsonNumber::Float(t) => JsonNumber::Float(t.clone()),
    }
}

/// A copy of a value.
pub fn copy_json(j: &Json) -> (r: Json)
    ensures
        r@ == j@,
    decreases j,
{
    match j {
        Json::Null => Json::Null,
        Json::Bool(b) => Json::Bool(*b),
        Json::Number(n) => Json::Number(copy_number(n)),
        Json::Str(s) => Json::Str(s.clone()),
        Json::Array(items) => {
            let mut out: Vec<Json> = Vec::new();
            let mut i: usize = 0;
            proof { lemma_items_view(items@); }
            while i < items.len()
                invariant
                    i <= items.len(),
                    *j == Json::Array(*items),
                    out.len() == i,
                    forall|k: int| 0 <= k < i ==> json_view(#[trigger] out@[k]) == json_view(items@[k]),
                decreases items.len() - i,
            {
                assert(decreases_to!(*j => (*j)->Array_0));
                assert(decreases_to!(*items => items[i as int]));
                out.push(copy_json(&items[i]));
                i += 1;
            }
            proof {
                lemma_items_view(out@);
                lemma_items_view(items@);
                assert(items_view(out@) =~= items_view(items@));
            }
            Json::Array(out)
        },
        Json::Object(fields) => {
            let mut out: Vec<(String, Json)> = Vec::new();
            let mut i: usize = 0;
            while i < fields.len()
                invariant
                    i <= fields.len(),
                    *j == Json::Object(*fields),
                    out.len() == i,
                    forall|k: int| 0 <= k < i ==> (#[trigger] out@[k]).0@ == fields@[k].0@
                        && json_view(out@[k].1) == json_view(fields@[k].1),
                decreases fields.len() - i,
            {
                assert(decreases_to!(*j => (*j)->Object_0));
                assert(decreases_to!(*fields => fields[i as int]));
                assert(decreases_to!(fields[i as int] => fields[i as int].1));
                let v = copy_json(&fields[i].1);
                out.push((fields[i].0.clone(), v));
                i += 1;
            }
            proof {
                lemma_members_view(out@);
                lemma_members_view(fields@);
                assert(members_view(out@) =~= members_view(fields@));
            }
            Json::Object(out)
        },
    }
}

/// `Value::get(key)` on an object.
pub fn get<'a>(j: &'a Json, key: &str) -> (r: Option<&'a Json>)
    ensures
        match r {
            Some(x) => json_get(j@, key@) == Some(x@),
            None => json_get(j@, key@) is None,
        },
{
    match j {
        Json::Object(fields) => {
            let ghost mv = members_view(fields@);
            proof { lemma_members_view(fields@); }
            let mut i: usize = 0;
            assert(mv.subrange(0, mv.len() as int) == mv);
            while i < fields.len()
                invariant
                    i <= fields.len(),
                    mv == members_view(fields@),
                    mv.len() == fields.len(),
                    forall|k: int| 0 <= k < fields.len() ==> #[trigger] mv[k] == (fields@[k].0@, json_view(fields@[k].1)),
                    json_get(j@, key@) == field_lookup(mv, key@),
                    field_lookup(mv.subrange(i as int, mv.len() as int), key@) == field_lookup(mv, key@),
                decreases fields.len() - i,
            {
                let ghost rest = mv.subrange(i as int, mv.len() as int);
                assert(rest[0] == mv[i as int]);
                if str_eq(fields[i].0.as_str(), key) {
                    return Some(&fields[i].1);
                }
                assert(rest.drop_first() == mv.subrange(i + 1, mv.len() as int));
                i += 1;
            }
            None
        },
        _ => None,
    }
}

/// The value behind an optional reference.
pub open spec fn opt_val(j: Option<&Json>) -> Option<JsonView> {
    match j {
        Some(v) => Some(v@),
        None => None,
    }
}

/// A string member's text, or `default`
/// (`get(key).and_then(as_str).unwrap_or(default)`).
pub fn text_field_or(j: &Json, key: &str, default: &str) -> (r: String)
    ensures
        r@ == (match as_text(json_get(j@, key@)) {
            Some(t) => t,
            None => default@,
        }),
{
    match get(j, key) {
        Some(Json::Str(s)) => s.clone(),
        _ => owned(default),
    }
}

/// An integer member, or `default`
/// (`get(key).and_then(as_i64).unwrap_or(default)`).
pub fn int_field_or(j: &Json, key: &str, default: i64) -> (r: i64)
    ensures
        r == (match as_int(json_get(j@, key@)) {
            Some(i) => i,
            None => default,
        }),
{
    match get(j, key) {
        Some(Json::Number(JsonNumber::PosInt(u))) => {
            if *u <= i64::MAX as u64 {
                *u as i64
            } else {
                default
            }
        },
        Some(Json::Number(JsonNumber::NegInt(i))) => *i,
        _ => default,
    }
}

/// A boolean member, or `false` (`get(key).and_then(as_bool).unwrap_or(false)`).
pub fn flag_field(j: &Json, key: &str) -> (r: bool)
    ensures
        r == (as_flag(json_get(j@, key@)) == Some(true)),
{
    match get(j, key) {
        Some(Json::Bool(b)) => *b,
        _ => false,
    }
}

/// A run's parameters: its JSON text, or `null` when it does not parse
/// (`from_str(..).unwrap_or_default()`).
pub open spec fn config_of(text: Seq<char>) -> JsonView {
    match json_parsed(text) {
        Some(j) => j,
        None => JsonView::Null,
    }
}

/// Reads a run's parameters.
pub fn parse_config(text: &str) -> (r: Json)
    ensures
        r@ == config_of(text@),
{
    match parse_json(text) {
        Ok(j) => j,
        Err(_) => Json::Null,
    }
}

} // verus!
