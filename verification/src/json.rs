//! The parts of a JSON document that the analyzers read.
use vstd::prelude::*;

use crate::text::str_eq;

verus! {

/// A JSON value; numbers are kept only as such.
#[derive(Debug)]
pub enum JsonValue {
    Null,
    Bool(bool),
    Number,
    Text(String),
    Array(Vec<JsonValue>),
    Object(Vec<(String, JsonValue)>),
}

/// `serde_json::Value`, declared so that `from_serde` can take one; nothing
/// inside it is read by verified code.
#[verifier::external_type_specification]
#[verifier::external_body]
pub struct SerdeJsonValue(serde_json::Value);

/// The value that `serde_json` parses out of `text`, or `None` where the text
/// is not valid JSON.
pub uninterp spec fn parsed_json(text: Seq<char>) -> Option<JsonValue>;

/// Parses `text` with `serde_json::from_str` into a `serde_json::Value`. The
/// contract names the result (`parsed_json`) and states nothing more of it.
#[verifier::external_body]
pub(crate) fn parse_json(text: &str) -> (res: Option<JsonValue>)
    ensures
        res == parsed_json(text@),
{
    serde_json::from_str::<serde_json::Value>(text).ok().map(|value| from_serde(&value))
}

/// Carries a `serde_json::Value` over into a `JsonValue`, variant by variant.
#[verifier::external_body]
fn from_serde(value: &serde_json::Value) -> JsonValue {
    match value {
        serde_json::Value::Null => JsonValue::Null,
        serde_json::Value::Bool(b) => JsonValue::Bool(*b),
        serde_json::Value::Number(_) => JsonValue::Number,
        serde_json::Value::String(s) => JsonValue::Text(s.clone()),
        serde_json::Value::Array(items) => JsonValue::Array(items.iter().map(from_serde).collect()),
        serde_json::Value::Object(map) => JsonValue::Object(
            map.iter().map(|(k, v)| (k.clone(), from_serde(v))).collect(),
        ),
    }
}

/// The index of the first entry of `entries` whose key is `key`.
pub open spec fn first_key(entries: Seq<(String, JsonValue)>, key: Seq<char>, from: int) -> Option<int>
    decreases entries.len() - from,
{
    if from < 0 || from >= entries.len() {
        None
    } else if entries[from].0@ == key {
        Some(from)
    } else {
        first_key(entries, key, from + 1)
    }
}

/// The member `key` of `v` when `v` is an object that has one.
pub open spec fn json_get(v: JsonValue, key: Seq<char>) -> Option<JsonValue> {
    match v {
        JsonValue::Object(entries) => match first_key(entries@, key, 0) {
            Some(i) => Some(entries@[i].1),
            None => None,
        },
        _ => None,
    }
}

/// The text of `v` when `v` is a JSON string.
pub open spec fn json_str(v: Option<JsonValue>) -> Option<Seq<char>> {
    match v {
        Some(JsonValue::Text(s)) => Some(s@),
        _ => None,
    }
}

/// The value of `v` when `v` is a JSON boolean.
pub open spec fn json_bool(v: Option<JsonValue>) -> Option<bool> {
    match v {
        Some(JsonValue::Bool(b)) => Some(b),
        _ => None,
    }
}

/// The member `key` of `v` when `v` is some object that has one.
pub open spec fn json_member(v: Option<JsonValue>, key: Seq<char>) -> Option<JsonValue> {
    match v {
        Some(x) => json_get(x, key),
        None => None,
    }
}

pub proof fn lemma_first_key_bounds(entries: Seq<(String, JsonValue)>, key: Seq<char>, from: int)
    requires
        0 <= from,
    ensures
        first_key(entries, key, from) matches Some(i) ==> from <= i < entries.len() && entries[i].0@
            == key,
    decreases entries.len() - from,
{
    if from < entries.len() && entries[from].0@ != key {
        lemma_first_key_bounds(entries, key, from + 1);
    }
}

impl JsonValue {
    /// The member `key` of this value when it is an object that has one.
    pub fn get(&self, key: &str) -> (res: Option<&JsonValue>)
        ensures
            match res {
                Some(r) => json_get(*self, key@) == Some(*r),
                None => json_get(*self, key@) is None,
            },
    {
        match self {
            JsonValue::Object(entries) => {
                let mut i: usize = 0;
                while i < entries.len()
                    invariant
                        i <= entries@.len(),
                        *self == JsonValue::Object(*entries),
                        first_key(entries@, key@, 0) == first_key(entries@, key@, i as int),
                    decreases entries@.len() - i,
                {
                    if str_eq(entries[i].0.as_str(), key) {
                        assert(first_key(entries@, key@, i as int) == Some(i as int));
                        return Some(&entries[i].1);
                    }
                    i = i + 1;
                }
                assert(first_key(entries@, key@, i as int) is None);
                None
            },
            _ => None,
        }
    }
}


/// The value a reference option points to.
pub open spec fn deref_opt(v: Option<&JsonValue>) -> Option<JsonValue> {
    match v {
        Some(r) => Some(*r),
        None => None,
    }
}

/// The keys of `v` when `v` is an object, in its order.
pub open spec fn json_keys(v: Option<JsonValue>) -> Seq<Seq<char>> {
    match v {
        Some(JsonValue::Object(entries)) => entries@.map_values(|e: (String, JsonValue)| e.0@),
        _ => Seq::empty(),
    }
}

/// The member `key` of `v` when `v` is some object that has one.
pub fn member<'a>(v: Option<&'a JsonValue>, key: &str) -> (res: Option<&'a JsonValue>)
    ensures
        deref_opt(res) == json_member(deref_opt(v), key@),
{
    match v {
        Some(x) => x.get(key),
        None => None,
    }
}

/// The text of `v` when `v` is a JSON string.
pub fn text_value(v: Option<&JsonValue>) -> (res: Option<String>)
    ensures
        crate::diagnostic::opt_view(res) == json_str(deref_opt(v)),
{
    match v {
        Some(JsonValue::Text(s)) => Some(s.clone()),
        _ => None,
    }
}

/// The value of `v` when `v` is a JSON boolean.
pub fn bool_value(v: Option<&JsonValue>) -> (res: Option<bool>)
    ensures
        res == json_bool(deref_opt(v)),
{
    match v {
        Some(JsonValue::Bool(b)) => Some(*b),
        _ => None,
    }
}

/// The keys of `v` when `v` is an object.
pub fn object_keys(v: Option<&JsonValue>) -> (res: Vec<String>)
    ensures
        res@.map_values(|k: String| k@) == json_keys(deref_opt(v)),
{
    let mut out: Vec<String> = Vec::new();
    match v {
        Some(JsonValue::Object(entries)) => {
            let mut i: usize = 0;
            while i < entries.len()
                invariant
                    i <= entries@.len(),
                    out@.map_values(|k: String| k@) == entries@.take(i as int).map_values(
                        |e: (String, JsonValue)| e.0@,
                    ),
                decreases entries@.len() - i,
            {
                let ghost before = out@;
                let k = entries[i].0.clone();
                assert(k@ == entries@[i as int].0@);
                out.push(k);
                assert(out@.map_values(|k: String| k@) =~= before.map_values(|k: String| k@).push(
                    k@,
                ));
                assert(entries@.take(i + 1).map_values(|e: (String, JsonValue)| e.0@)
                    =~= entries@.take(i as int).map_values(|e: (String, JsonValue)| e.0@).push(
                    entries@[i as int].0@,
                ));
                i = i + 1;
            }
            assert(entries@.take(entries@.len() as int) =~= entries@);
            out
        },
        _ => {
            assert(out@.map_values(|k: String| k@) =~= Seq::<Seq<char>>::empty());
            out
        },
    }
}

} // verus!
