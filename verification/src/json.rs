//! JSON documents as plain values, parsed by `serde_json`, and the lookups
//! that reading a saved manifest makes of them.
use crate::config::opt_string_v;
use crate::text::owned;
use serde_json::Value as SerdeDocument;
use vstd::prelude::*;

verus! {

/// A JSON value. Numbers are held as `serde_json` holds them: a
/// non-negative integer, a negative one, or any other number by its text.
#[derive(Debug)]
pub enum JsonValue {
    Null,
    Bool(bool),
    UInt(u64),
    NegInt(i64),
    Float(String),
    Str(String),
    Array(Vec<JsonValue>),
    Object(Vec<(String, JsonValue)>),
}

/// What `serde_json::from_str` makes of a text, as a `JsonValue`; `None`
/// where it refuses the text.
pub uninterp spec fn json_parse(raw: Seq<char>) -> Option<JsonValue>;

/// `serde_json::from_str` into a `serde_json` document, converted variant by
/// variant. The contract claims that it succeeds exactly where the parse is
/// defined and gives the parse; the text of its error is left unsaid.
#[verifier::external_body]
pub(crate) fn parse_json(raw: &str) -> (r: Result<JsonValue, String>)
    ensures
        r is Ok <==> json_parse(raw@) is Some,
        r is Ok ==> Some(r->Ok_0) == json_parse(raw@),
{
    serde_json::from_str::<SerdeDocument>(raw).map(|v| from_serde(&v)).map_err(|e| e.to_string())
}

/// `serde_json`'s document type, carried through opaquely.
#[verifier::external_type_specification]
#[verifier::external_body]
pub struct ExSerdeDocument(SerdeDocument);

/// One `serde_json` document value as a `JsonValue`, one variant for each.
#[verifier::external_body]
fn from_serde(v: &SerdeDocument) -> JsonValue {
    match v {
        SerdeDocument::Null => JsonValue::Null,
        SerdeDocument::Bool(b) => JsonValue::Bool(*b),
        SerdeDocument::Number(n) => match (n.as_u64(), n.as_i64()) {
            (Some(u), _) => JsonValue::UInt(u),
            (None, Some(i)) => JsonValue::NegInt(i),
            (None, None) => JsonValue::Float(n.to_string()),
        },
        SerdeDocument::String(s) => JsonValue::Str(s.clone()),
        SerdeDocument::Array(a) => JsonValue::Array(a.iter().map(from_serde).collect()),
        SerdeDocument::Object(m) => JsonValue::Object(m.iter().map(|(k, x)| (k.clone(), from_serde(x))).collect()),
    }
}

// ── Lookups ────────────────────────────────────────────────

/// The value of the first entry named `key`.
pub open spec fn entries_get(entries: Seq<(String, JsonValue)>, key: Seq<char>) -> Option<JsonValue>
    decreases entries.len(),
{
    if entries.len() == 0 {
        None
    } else if entries[0].0@ == key {
        Some(entries[0].1)
    } else {
        entries_get(entries.drop_first(), key)
    }
}

/// The member `key` of an object; `None` for a missing member or a value
/// that is not an object.
pub open spec fn json_get(v: Option<JsonValue>, key: Seq<char>) -> Option<JsonValue> {
    match v {
        Some(JsonValue::Object(entries)) => entries_get(entries@, key),
        _ => None,
    }
}

pub open spec fn as_str_v(v: Option<JsonValue>) -> Option<Seq<char>> {
    match v {
        Some(JsonValue::Str(s)) => Some(s@),
        _ => None,
    }
}

pub open spec fn as_u64_v(v: Option<JsonValue>) -> Option<u64> {
    match v {
        Some(JsonValue::UInt(n)) => Some(n),
        _ => None,
    }
}

pub open spec fn as_i64_v(v: Option<JsonValue>) -> Option<i64> {
    match v {
        Some(JsonValue::UInt(n)) => if n <= i64::MAX {
            Some(n as i64)
        } else {
            None
        },
        Some(JsonValue::NegInt(n)) => Some(n),
        _ => None,
    }
}

pub open spec fn as_bool_v(v: Option<JsonValue>) -> Option<bool> {
    match v {
        Some(JsonValue::Bool(b)) => Some(b),
        _ => None,
    }
}

/// The items of an array; empty for anything else.
pub open spec fn items_v(v: Option<JsonValue>) -> Seq<JsonValue> {
    match v {
        Some(JsonValue::Array(items)) => items@,
        _ => Seq::empty(),
    }
}

/// The string items, in order, the others left out.
pub open spec fn str_items(items: Seq<JsonValue>) -> Seq<Seq<char>>
    decreases items.len(),
{
    if items.len() == 0 {
        Seq::empty()
    } else {
        let rest = str_items(items.drop_last());
        match items.last() {
            JsonValue::Str(s) => rest.push(s@),
            _ => rest,
        }
    }
}

pub open spec fn opt_ref_v(o: Option<&JsonValue>) -> Option<JsonValue> {
    match o {
        Some(x) => Some(*x),
        None => None,
    }
}

/// The member `key` of `v` (see `json_get`).
pub fn get<'a>(v: Option<&'a JsonValue>, key: &str) -> (r: Option<&'a JsonValue>)
    ensures
        opt_ref_v(r) == json_get(opt_ref_v(v), key@),
{
    let x = match v {
        Some(x) => x,
        None => {
            return None;
        },
    };
    match x {
        JsonValue::Object(entries) => {
            let mut i: usize = 0;
            assert(entries@.skip(0) =~= entries@);
            while i < entries.len()
                invariant
                    i <= entries@.len(),
                    json_get(opt_ref_v(v), key@) == entries_get(entries@.skip(i as int), key@),
                decreases entries@.len() - i,
            {
                assert(entries@.skip(i as int).drop_first() =~= entries@.skip(i as int + 1));
                assert(entries@.skip(i as int)[0] == entries@[i as int]);
                if crate::text::str_eq(entries[i].0.as_str(), key) {
                    assert(entries_get(entries@.skip(i as int), key@) == Some(entries@[i as int].1));
                    return Some(&entries[i].1);
                }
                i += 1;
            }
            None
        },
        _ => None,
    }
}

pub fn string_of(v: Option<&JsonValue>) -> (r: Option<String>)
    ensures
        opt_string_v(r) == as_str_v(opt_ref_v(v)),
{
    match v {
        Some(JsonValue::Str(s)) => Some(owned(s.as_str())),
        _ => None,
    }
}

pub fn u64_of(v: Option<&JsonValue>) -> (r: Option<u64>)
    ensures
        r == as_u64_v(opt_ref_v(v)),
{
    match v {
        Some(JsonValue::UInt(n)) => Some(*n),
        _ => None,
    }
}

pub fn i64_of(v: Option<&JsonValue>) -> (r: Option<i64>)
    ensures
        r == as_i64_v(opt_ref_v(v)),
{
    match v {
        Some(JsonValue::UInt(n)) => if *n <= 9223372036854775807u64 {
            Some(*n as i64)
        } else {
            None
        },
        Some(JsonValue::NegInt(n)) => Some(*n),
        _ => None,
    }
}

pub fn bool_of(v: Option<&JsonValue>) -> (r: Option<bool>)
    ensures
        r == as_bool_v(opt_ref_v(v)),
{
    match v {
        Some(JsonValue::Bool(b)) => Some(*b),
        _ => None,
    }
}

/// The items of an array value; empty for anything else.
pub fn items_of<'a>(v: Option<&'a JsonValue>) -> (r: &'a [JsonValue])
    ensures
        r@ == items_v(opt_ref_v(v)),
{
    match v {
        Some(JsonValue::Array(items)) => items.as_slice(),
        _ => &[],
    }
}

/// The string items of an array value, in order.
pub fn strings_of(v: Option<&JsonValue>) -> (r: Vec<String>)
    ensures
        crate::text::strings_view(r@) == str_items(items_v(opt_ref_v(v))),
{
    let items = items_of(v);
    let mut out: Vec<String> = Vec::new();
    let mut i: usize = 0;
    while i < items.len()
        invariant
            i <= items@.len(),
            crate::text::strings_view(out@) == str_items(items@.take(i as int)),
        decreases items@.len() - i,
    {
        assert(items@.take(i as int + 1).drop_last() =~= items@.take(i as int));
        match &items[i] {
            JsonValue::Str(s) => {
                out.push(owned(s.as_str()));
                assert(crate::text::strings_view(out@) =~= str_items(items@.take(i as int)).push(s@));
            },
            _ => {},
        }
        i += 1;
    }
    assert(items@.take(items@.len() as int) =~= items@);
    out
}

} // verus!
