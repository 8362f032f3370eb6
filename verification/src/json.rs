use vstd::prelude::*;

use crate::text::{norm_ws, normalize_text, str_eq};

verus! {

/// A parsed JSON document as plain values: numbers carry their rendered
/// text and, when integral, their value; object entries keep their order.
pub enum JsonValue {
    Null,
    Bool(bool),
    Num { int_value: Option<i64>, text: String },
    Text(String),
    List(Vec<JsonValue>),
    Object(Vec<(String, JsonValue)>),
}

/// What `serde_json` parses a given text to, carried over to `JsonValue`;
/// a function of the text alone (`None`: the text is not valid JSON).
pub uninterp spec fn json_of(text: Seq<char>) -> Option<JsonValue>;

/// Relies on `serde_json::from_str::<serde_json::Value>`: deterministic
/// parsing of a JSON document, with entry order kept.
#[verifier::external_body]
pub fn parse_json(text: &str) -> (r: Result<JsonValue, String>)
    ensures
        match r {
            Ok(v) => json_of(text@) == Some(v),
            Err(_) => json_of(text@) is None,
        },
{
    match serde_json::from_str::<serde_json::Value>(text) {
        Ok(v) => Ok(json_value_of(v)),
        Err(e) => Err(e.to_string()),
    }
}

#[verifier::external_type_specification]
#[verifier::external_body]
pub struct ExSerdeValue(serde_json::Value);

/// Relies on `serde_json::Value`'s variants and `serde_json::Number`'s
/// `as_i64`/`to_string`: carries each variant over, field for field.
#[verifier::external_body]
fn json_value_of(v: serde_json::Value) -> JsonValue {
    match v {
        serde_json::Value::Null => JsonValue::Null,
        serde_json::Value::Bool(b) => JsonValue::Bool(b),
        serde_json::Value::Number(n) => JsonValue::Num { int_value: n.as_i64(), text: n.to_string() },
        serde_json::Value::String(s) => JsonValue::Text(s),
        serde_json::Value::Array(items) => JsonValue::List(
            items.into_iter().map(json_value_of).collect(),
        ),
        serde_json::Value::Object(map) => JsonValue::Object(
            map.into_iter().map(|(k, val)| (k, json_value_of(val))).collect(),
        ),
    }
}

/// Index of the first entry with the given key, or -1.
pub open spec fn key_index(entries: Seq<(String, JsonValue)>, key: Seq<char>) -> int
    decreases entries.len(),
{
    if entries.len() == 0 {
        -1
    } else if entries[0].0@ == key {
        0
    } else {
        let r = key_index(entries.drop_first(), key);
        if r < 0 {
            -1
        } else {
            r + 1
        }
    }
}

proof fn lemma_key_index_props(entries: Seq<(String, JsonValue)>, key: Seq<char>)
    ensures
        key_index(entries, key) >= 0 ==> key_index(entries, key) < entries.len() && entries[
            key_index(entries, key)
        ].0@ == key && forall|j: int| 0 <= j < key_index(entries, key) ==> entries[j].0@ != key,
        key_index(entries, key) < 0 ==> forall|j: int|
            0 <= j < entries.len() ==> entries[j].0@ != key,
    decreases entries.len(),
{
    if entries.len() > 0 && entries[0].0@ != key {
        let rest = entries.drop_first();
        lemma_key_index_props(rest, key);
        let r = key_index(rest, key);
        if r >= 0 {
            assert(entries[r + 1] == rest[r]);
            assert forall|j: int| 0 <= j < r + 1 implies entries[j].0@ != key by {
                if j > 0 {
                    assert(entries[j] == rest[j - 1]);
                }
            }
        } else {
            assert forall|j: int| 0 <= j < entries.len() implies entries[j].0@ != key by {
                if j > 0 {
                    assert(entries[j] == rest[j - 1]);
                }
            }
        }
    }
}

/// First index of an entry with the given key.
pub fn obj_find(entries: &Vec<(String, JsonValue)>, key: &str) -> (r: Option<usize>)
    ensures
        match r {
            Some(i) => key_index(entries@, key@) == i as int && i < entries@.len(),
            None => key_index(entries@, key@) < 0,
        },
{
    let mut i: usize = 0;
    while i < entries.len()
        invariant
            i <= entries@.len(),
            forall|j: int| 0 <= j < i ==> entries@[j].0@ != key@,
        decreases entries@.len() - i,
    {
        if str_eq(entries[i].0.as_str(), key) {
            proof {
                lemma_key_index_props(entries@, key@);
            }
            return Some(i);
        }
        i += 1;
    }
    proof {
        lemma_key_index_props(entries@, key@);
    }
    None
}

/// Resolve one possibly-localized JSON field to display text: strings,
/// numbers and booleans directly; objects by the requested language, the
/// two fixed fallback languages, then any value in entry order; arrays by
/// their first resolvable element.
pub open spec fn spec_localized(v: JsonValue, language: Seq<char>) -> Seq<char>
    decreases v,
{
    match v {
        JsonValue::Null => Seq::empty(),
        JsonValue::Bool(b) => if b {
            "true"@
        } else {
            "false"@
        },
        JsonValue::Num { int_value, text } => norm_ws(text@),
        JsonValue::Text(t) => norm_ws(t@),
        JsonValue::Object(entries) => {
            let t1 = spec_try_key(entries, language, language);
            if t1.len() > 0 {
                t1
            } else {
                let t2 = spec_try_key(entries, "fi"@, language);
                if t2.len() > 0 {
                    t2
                } else {
                    let t3 = spec_try_key(entries, "en"@, language);
                    if t3.len() > 0 {
                        t3
                    } else {
                        spec_values_scan(entries, 0, language)
                    }
                }
            }
        },
        JsonValue::List(items) => spec_items_scan(items, 0, language),
    }
}

/// The resolution of the entry under `key`, or empty when absent.
pub open spec fn spec_try_key(
    entries: Vec<(String, JsonValue)>,
    key: Seq<char>,
    language: Seq<char>,
) -> Seq<char>
    decreases entries,
{
    let i = key_index(entries@, key);
    if 0 <= i < entries@.len() {
        spec_localized(entries[i as int].1, language)
    } else {
        Seq::empty()
    }
}

/// The first non-empty resolution among the entry values from `i` on.
pub open spec fn spec_values_scan(
    entries: Vec<(String, JsonValue)>,
    i: int,
    language: Seq<char>,
) -> Seq<char>
    decreases entries, entries@.len() - i,
{
    if i < 0 || i >= entries@.len() {
        Seq::empty()
    } else {
        let t = spec_localized(entries[i].1, language);
        if t.len() > 0 {
            t
        } else {
            spec_values_scan(entries, i + 1, language)
        }
    }
}

/// The first non-empty resolution among the list items from `i` on.
pub open spec fn spec_items_scan(items: Vec<JsonValue>, i: int, language: Seq<char>) -> Seq<char>
    decreases items, items@.len() - i,
{
    if i < 0 || i >= items@.len() {
        Seq::empty()
    } else {
        let t = spec_localized(items[i], language);
        if t.len() > 0 {
            t
        } else {
            spec_items_scan(items, i + 1, language)
        }
    }
}

/// Resolve one localized field value to display text.
pub fn localized_value(v: &JsonValue, language: &str) -> (r: String)
    ensures
        r@ == spec_localized(*v, language@),
    decreases *v,
{
    match v {
        JsonValue::Null => String::new(),
        JsonValue::Bool(b) => {
            if *b {
                String::from_str("true")
            } else {
                String::from_str("false")
            }
        },
        JsonValue::Num { int_value: _, text } => normalize_text(text.as_str()),
        JsonValue::Text(t) => normalize_text(t.as_str()),
        JsonValue::Object(entries) => {
            let t1 = try_key(entries, language, language);
            if t1.as_str().unicode_len() > 0 {
                proof {
                    assert(t1@.len() > 0);
                }
                return t1;
            }
            assert(t1@.len() == 0);
            let t2 = try_key(entries, "fi", language);
            if t2.as_str().unicode_len() > 0 {
                proof {
                    assert(t2@.len() > 0);
                }
                return t2;
            }
            assert(t2@.len() == 0);
            let t3 = try_key(entries, "en", language);
            if t3.as_str().unicode_len() > 0 {
                proof {
                    assert(t3@.len() > 0);
                }
                return t3;
            }
            assert(t3@.len() == 0);
            values_scan_exec(entries, 0, language)
        },
        JsonValue::List(items) => items_scan_exec(items, 0, language),
    }
}

fn values_scan_exec(entries: &Vec<(String, JsonValue)>, i: usize, language: &str) -> (r: String)
    requires
        i <= entries@.len(),
    ensures
        r@ == spec_values_scan(*entries, i as int, language@),
    decreases *entries, entries@.len() - i,
{
    if i == entries.len() {
        return String::new();
    }
    let t = localized_value(&entries[i].1, language);
    if t.as_str().unicode_len() > 0 {
        assert(t@.len() > 0);
        return t;
    }
    assert(t@.len() == 0);
    values_scan_exec(entries, i + 1, language)
}

fn items_scan_exec(items: &Vec<JsonValue>, i: usize, language: &str) -> (r: String)
    requires
        i <= items@.len(),
    ensures
        r@ == spec_items_scan(*items, i as int, language@),
    decreases *items, items@.len() - i,
{
    if i == items.len() {
        return String::new();
    }
    let t = localized_value(&items[i], language);
    if t.as_str().unicode_len() > 0 {
        assert(t@.len() > 0);
        return t;
    }
    assert(t@.len() == 0);
    items_scan_exec(items, i + 1, language)
}

fn try_key(entries: &Vec<(String, JsonValue)>, key: &str, language: &str) -> (r: String)
    ensures
        r@ == spec_try_key(*entries, key@, language@),
    decreases *entries,
{
    match obj_find(entries, key) {
        Some(i) => localized_value(&entries[i].1, language),
        None => String::new(),
    }
}

/// Resolve an optional localized field; a missing field is empty text.
pub fn localized_field(value: Option<&JsonValue>, language: &str) -> (r: String)
    ensures
        r@ == match value {
            Option::Some(v) => spec_localized(*v, language@),
            Option::None => Seq::<char>::empty(),
        },
{
    match value {
        Some(v) => localized_value(v, language),
        None => String::new(),
    }
}

/// The value under `key` of an object, or nothing for any other shape.
pub open spec fn jget(v: JsonValue, key: Seq<char>) -> Option<JsonValue> {
    match v {
        JsonValue::Object(entries) => {
            let i = key_index(entries@, key);
            if 0 <= i < entries@.len() {
                Some(entries@[i].1)
            } else {
                None
            }
        },
        _ => None,
    }
}

pub fn jget_exec<'a>(v: &'a JsonValue, key: &str) -> (r: Option<&'a JsonValue>)
    ensures
        match r {
            Some(x) => jget(*v, key@) == Some(*x),
            None => jget(*v, key@) is None,
        },
{
    match v {
        JsonValue::Object(entries) => match obj_find(entries, key) {
            Some(i) => Some(&entries[i].1),
            None => None,
        },
        _ => None,
    }
}

/// The boolean under `key`, when the value there is a boolean.
pub open spec fn jget_bool(v: JsonValue, key: Seq<char>) -> Option<bool> {
    match jget(v, key) {
        Option::Some(JsonValue::Bool(b)) => Some(b),
        _ => None,
    }
}

pub fn jget_bool_exec(v: &JsonValue, key: &str) -> (r: Option<bool>)
    ensures
        r == jget_bool(*v, key@),
{
    match jget_exec(v, key) {
        Some(x) => match x {
            JsonValue::Bool(b) => Some(*b),
            _ => None,
        },
        None => None,
    }
}

} // verus!
