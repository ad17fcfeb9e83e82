//! JSON through `serde_json`.
use crate::text::str_eq;
use crate::text;
use serde_json::Value;
use vstd::prelude::*;

verus! {

/// A JSON value. Numbers are kept as their text; the keys of an object differ.
#[derive(Debug)]
pub enum Json {
    Null,
    Bool(bool),
    Number(String),
    Str(String),
    Array(Vec<Json>),
    Object(Vec<(String, Json)>),
}

/// `serde_json::Value`.
#[verifier::external_type_specification]
#[verifier::external_body]
pub struct ExValue(serde_json::Value);

/// What a `serde_json::Value` holds.
pub uninterp spec fn held(value: serde_json::Value) -> Json;

/// What `serde_json::from_str` reads a text as when any value is asked for;
/// nothing where the text is no JSON.
pub uninterp spec fn json_value(text: Seq<char>) -> Option<Json>;

/// What `serde_json::to_string_pretty` writes for a value.
pub uninterp spec fn json_pretty(value: Json) -> Option<Seq<char>>;

/// What `serde_json::from_str` reads a text as when a list of strings is asked
/// for; nothing where the text is no such list.
pub uninterp spec fn json_string_list(text: Seq<char>) -> Option<Seq<Seq<char>>>;

/// `serde_json::from_str::<Value>`: what comes back depends on the text alone.
#[verifier::external_body]
pub(crate) fn read_value(text: &str) -> (r: Option<Value>)
    ensures
        match r {
            Some(v) => json_value(text@) == Some(held(v)),
            None => json_value(text@) is None,
        },
{
    serde_json::from_str::<Value>(text).ok()
}

/// The contents of a `serde_json::Value`, variant for variant. A number becomes
/// the text that `Number::to_string` writes.
#[verifier::external_body]
pub(crate) fn contents(value: Value) -> (r: Json)
    ensures
        r == held(value),
{
    match value {
        Value::Null => Json::Null,
        Value::Bool(b) => Json::Bool(b),
        Value::Number(n) => Json::Number(n.to_string()),
        Value::String(s) => Json::Str(s),
        Value::Array(a) => Json::Array(a.into_iter().map(contents).collect()),
        Value::Object(m) => Json::Object(m.into_iter().map(|(k, v)| (k, contents(v))).collect()),
    }
}

/// `serde_json::to_string_pretty`: the text depends on what the value holds.
#[verifier::external_body]
pub(crate) fn pretty(value: &Value) -> (r: Option<String>)
    ensures
        text::opt_text(r) == json_pretty(held(*value)),
{
    serde_json::to_string_pretty(value).ok()
}

/// `serde_json::from_str::<Vec<String>>`: what comes back depends on the text alone.
#[verifier::external_body]
pub(crate) fn parse_string_list(text: &str) -> (r: Option<Vec<String>>)
    ensures
        match r {
            Some(v) => json_string_list(text@) == Some(text::texts(v@)),
            None => json_string_list(text@) is None,
        },
{
    serde_json::from_str::<Vec<String>>(text).ok()
}

/// The value that a text reads as.
pub fn parse_json(text: &str) -> (r: Option<Json>)
    ensures
        r == json_value(text@),
{
    match read_value(text) {
        Some(v) => Some(contents(v)),
        None => None,
    }
}

/// The value that a text reads as, written with line breaks and indentation.
pub open spec fn prettied(text: Seq<char>) -> Option<Seq<char>> {
    match json_value(text) {
        Some(v) => json_pretty(v),
        None => None,
    }
}

/// The value that a text reads as, written with line breaks and indentation.
pub fn pretty_json(text: &str) -> (r: Option<String>)
    ensures
        text::opt_text(r) == prettied(text@),
{
    match read_value(text) {
        Some(v) => pretty(&v),
        None => None,
    }
}

/// The value under `key` among the first `n` entries of an object.
pub open spec fn entry(e: Seq<(String, Json)>, key: Seq<char>) -> Option<Json>
    decreases e.len(),
{
    if e.len() == 0 {
        None
    } else if e[0].0@ == key {
        Some(e[0].1)
    } else {
        entry(e.drop_first(), key)
    }
}

impl Json {
    /// The value under `key`, where this is an object that has one.
    pub open spec fn at(self, key: Seq<char>) -> Option<Json> {
        match self {
            Json::Object(e) => entry(e@, key),
            _ => None,
        }
    }

    /// The string that an optional value is.
    pub open spec fn text_of(v: Option<Json>) -> Option<Seq<char>> {
        match v {
            Some(Json::Str(s)) => Some(s@),
            _ => None,
        }
    }

    /// The value under `key`.
    pub fn get(&self, key: &str) -> (r: Option<&Json>)
        ensures
            match r {
                Some(v) => self.at(key@) == Some(*v),
                None => self.at(key@) is None,
            },
    {
        match self {
            Json::Object(e) => {
                let mut i: usize = 0;
                assert(e@.skip(0) =~= e@);
                while i < e.len()
                    invariant
                        i <= e@.len(),
                        self.at(key@) == entry(e@, key@),
                        entry(e@, key@) == entry(e@.skip(i as int), key@),
                    decreases e@.len() - i,
                {
                    assert(e@.skip(i as int)[0] == e@[i as int]);
                    assert(e@.skip(i as int).drop_first() =~= e@.skip(i + 1));
                    if str_eq(e[i].0.as_str(), key) {
                        return Some(&e[i].1);
                    }
                    i += 1;
                }
                None
            },
            _ => None,
        }
    }

    /// The string under `key`.
    pub fn get_str(&self, key: &str) -> (r: Option<&str>)
        ensures
            match r {
                Some(s) => Json::text_of(self.at(key@)) == Some(s@),
                None => Json::text_of(self.at(key@)) is None,
            },
    {
        match self.get(key) {
            Some(Json::Str(s)) => Some(s.as_str()),
            _ => None,
        }
    }
}

/// What stands under a name is the first entry of that name.
pub proof fn law_first_entry_of_its_name(
    before: Seq<(String, Json)>,
    key: String,
    v: Json,
    after: Seq<(String, Json)>,
)
    requires
        forall|i: int| 0 <= i < before.len() ==> (#[trigger] before[i]).0@ != key@,
    ensures
        entry(before.push((key, v)) + after, key@) == Some(v),
        entry(before, key@) is None,
    decreases before.len(),
{
    let all = before.push((key, v)) + after;
    if before.len() == 0 {
        assert(all[0] == (key, v));
    } else {
        let rest = before.drop_first();
        assert(all[0] == before[0]);
        assert(all.drop_first() =~= rest.push((key, v)) + after);
        assert forall|i: int| 0 <= i < rest.len() implies (#[trigger] rest[i]).0@ != key@ by {
            assert(rest[i] == before[i + 1]);
        }
        law_first_entry_of_its_name(rest, key, v, after);
    }
}

/// Only an object has fields, and only a text is read as one.
pub proof fn law_fields_of_values(e: Vec<(String, Json)>, s: String, b: bool, key: Seq<char>)
    ensures
        Json::Object(e).at(key) == entry(e@, key),
        Json::Str(s).at(key) is None,
        Json::Null.at(key) is None,
        Json::text_of(Some(Json::Str(s))) == Some(s@),
        Json::text_of(Some(Json::Number(s))) is None,
        Json::text_of(Some(Json::Bool(b))) is None,
        Json::text_of(None) is None,
{
}

} // verus!
