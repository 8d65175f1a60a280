use vstd::prelude::*;

use std::collections::BTreeMap;

use serde_json::value::RawValue;
use serde_json::Value;

use crate::json::{Json, JsonValue, items_model, entries_model};

verus! {

// ---------------------------------------------------------------------------
// Reading a JSON text with serde_json, one level at a time: the kind of the
// value, then the texts of its items or entries, each read the same way.
// ---------------------------------------------------------------------------

/// The top level of a JSON text: a scalar with its value, or the mark of an
/// array or an object.
pub enum JsonLevel {
    Null,
    Bool(bool),
    Number(Seq<char>),
    Str(Seq<char>),
    Array,
    Object,
}

/// The top level of a JSON text, as `parse_level` returns it.
pub enum JsonKind {
    Null,
    Bool(bool),
    Number(String),
    Str(String),
    Array,
    Object,
}

impl JsonKind {
    pub open spec fn model(self) -> JsonLevel {
        match self {
            JsonKind::Null => JsonLevel::Null,
            JsonKind::Bool(b) => JsonLevel::Bool(b),
            JsonKind::Number(n) => JsonLevel::Number(n@),
            JsonKind::Str(s) => JsonLevel::Str(s@),
            JsonKind::Array => JsonLevel::Array,
            JsonKind::Object => JsonLevel::Object,
        }
    }
}

/// What `serde_json::from_slice::<Value>` makes of `bytes`, at its top level
/// (`None` when it refuses them).
pub uninterp spec fn json_level(bytes: Seq<u8>) -> Option<JsonLevel>;

/// The texts of the items of the array that `bytes` holds, as
/// `serde_json::from_slice::<Vec<&RawValue>>` cuts them out.
pub uninterp spec fn json_item_texts(bytes: Seq<u8>) -> Option<Seq<Seq<u8>>>;

/// The keys of the object that `bytes` holds with the texts of their values,
/// as `serde_json::from_slice::<BTreeMap<String, &RawValue>>` reads them.
pub uninterp spec fn json_entry_texts(bytes: Seq<u8>) -> Option<Seq<(Seq<char>, Seq<u8>)>>;

/// Calls `serde_json::from_slice::<Value>` and keeps the top level: a number
/// as its `Display` text, a string, a boolean, `null`, or the mark of an array
/// or an object. The result is named by `json_level`.
#[verifier::external_body]
fn parse_level(bytes: &[u8]) -> (r: Option<JsonKind>)
    ensures
        match r {
            Some(k) => json_level(bytes@) == Some(k.model()),
            None => json_level(bytes@) is None,
        },
{
    match serde_json::from_slice::<Value>(bytes) {
        Err(_) => None,
        Ok(Value::Null) => Some(JsonKind::Null),
        Ok(Value::Bool(b)) => Some(JsonKind::Bool(b)),
        Ok(Value::Number(n)) => Some(JsonKind::Number(n.to_string())),
        Ok(Value::String(s)) => Some(JsonKind::Str(s)),
        Ok(Value::Array(_)) => Some(JsonKind::Array),
        Ok(Value::Object(_)) => Some(JsonKind::Object),
    }
}

/// Calls `serde_json::from_slice::<Vec<&RawValue>>`: the text of each item of
/// an array, in order, named by `json_item_texts`. Each text is borrowed from
/// inside the brackets of `bytes`, so it is shorter than `bytes`.
#[verifier::external_body]
fn parse_item_texts(bytes: &[u8]) -> (r: Option<Vec<Vec<u8>>>)
    ensures
        match r {
            Some(ts) => {
                &&& json_item_texts(bytes@) == Some(ts@.map_values(|t: Vec<u8>| t@))
                &&& forall|i: int| 0 <= i < ts@.len() ==> (#[trigger] ts@[i])@.len() < bytes@.len()
            },
            None => json_item_texts(bytes@) is None,
        },
{
    match serde_json::from_slice::<Vec<&RawValue>>(bytes) {
        Ok(items) => Some(items.into_iter().map(|t| t.get().as_bytes().to_vec()).collect()),
        Err(_) => None,
    }
}

/// Calls `serde_json::from_slice::<BTreeMap<String, &RawValue>>`: the entries
/// of an object in key order (the order of serde_json's own `Map`), a repeated
/// key keeping its last value, each value as its text, named by
/// `json_entry_texts`. Each text is borrowed from inside the braces of `bytes`,
/// so it is shorter than `bytes`.
#[verifier::external_body]
fn parse_entry_texts(bytes: &[u8]) -> (r: Option<Vec<(String, Vec<u8>)>>)
    ensures
        match r {
            Some(es) => {
                &&& json_entry_texts(bytes@) == Some(es@.map_values(|e: (String, Vec<u8>)| (e.0@, e.1@)))
                &&& forall|i: int| 0 <= i < es@.len() ==> (#[trigger] es@[i]).1@.len() < bytes@.len()
            },
            None => json_entry_texts(bytes@) is None,
        },
{
    match serde_json::from_slice::<BTreeMap<String, &RawValue>>(bytes) {
        Ok(m) => Some(m.into_iter().map(|(k, t)| (k, t.get().as_bytes().to_vec())).collect()),
        Err(_) => None,
    }
}

/// The JSON value that `bytes` holds, read level by level; `None` when
/// serde_json refuses the text.
pub open spec fn parsed_json(bytes: Seq<u8>) -> Option<JsonValue>
    decreases 2 * bytes.len() + 1, 0int,
{
    match json_level(bytes) {
        None => None,
        Some(JsonLevel::Null) => Some(JsonValue::Null),
        Some(JsonLevel::Bool(b)) => Some(JsonValue::Bool(b)),
        Some(JsonLevel::Number(n)) => Some(JsonValue::Number(n)),
        Some(JsonLevel::Str(s)) => Some(JsonValue::Str(s)),
        Some(JsonLevel::Array) => match json_item_texts(bytes) {
            None => None,
            Some(ts) => match parsed_items(bytes, ts, ts.len() as int) {
                None => None,
                Some(items) => Some(JsonValue::Array(items)),
            },
        },
        Some(JsonLevel::Object) => match json_entry_texts(bytes) {
            None => None,
            Some(es) => match parsed_entries(bytes, es, es.len() as int) {
                None => None,
                Some(entries) => Some(JsonValue::Object(entries)),
            },
        },
    }
}

/// The values of the first `n` item texts, each shorter than `outer`.
pub open spec fn parsed_items(outer: Seq<u8>, ts: Seq<Seq<u8>>, n: int) -> Option<Seq<JsonValue>>
    decreases 2 * outer.len(), n,
{
    if n <= 0 || n > ts.len() {
        Some(seq![])
    } else {
        match parsed_items(outer, ts, n - 1) {
            None => None,
            Some(prev) => if ts[n - 1].len() < outer.len() {
                match parsed_json(ts[n - 1]) {
                    None => None,
                    Some(v) => Some(prev.push(v)),
                }
            } else {
                None
            },
        }
    }
}

/// The entries of the first `n` entry texts, each value text shorter than
/// `outer`.
pub open spec fn parsed_entries(
    outer: Seq<u8>,
    es: Seq<(Seq<char>, Seq<u8>)>,
    n: int,
) -> Option<Seq<(Seq<char>, JsonValue)>>
    decreases 2 * outer.len(), n,
{
    if n <= 0 || n > es.len() {
        Some(seq![])
    } else {
        match parsed_entries(outer, es, n - 1) {
            None => None,
            Some(prev) => if es[n - 1].1.len() < outer.len() {
                match parsed_json(es[n - 1].1) {
                    None => None,
                    Some(v) => Some(prev.push((es[n - 1].0, v))),
                }
            } else {
                None
            },
        }
    }
}

proof fn lemma_items_fail_stays(outer: Seq<u8>, ts: Seq<Seq<u8>>, k: int, n: int)
    requires
        0 <= k <= n <= ts.len(),
        parsed_items(outer, ts, k) is None,
    ensures
        parsed_items(outer, ts, n) is None,
    decreases n - k,
{
    if k < n {
        lemma_items_fail_stays(outer, ts, k, n - 1);
    }
}

proof fn lemma_entries_fail_stays(outer: Seq<u8>, es: Seq<(Seq<char>, Seq<u8>)>, k: int, n: int)
    requires
        0 <= k <= n <= es.len(),
        parsed_entries(outer, es, k) is None,
    ensures
        parsed_entries(outer, es, n) is None,
    decreases n - k,
{
    if k < n {
        lemma_entries_fail_stays(outer, es, k, n - 1);
    }
}

/// `serde_json::from_slice::<Value>(bytes)`, as a library value: `None`
/// exactly when serde_json refuses the text.
pub fn parse_json(bytes: &[u8]) -> (r: Option<Json>)
    ensures
        match r {
            Some(j) => parsed_json(bytes@) == Some(j.model()),
            None => parsed_json(bytes@) is None,
        },
    decreases bytes@.len(),
{
    match parse_level(bytes) {
        None => None,
        Some(JsonKind::Null) => Some(Json::Null),
        Some(JsonKind::Bool(b)) => Some(Json::Bool(b)),
        Some(JsonKind::Number(n)) => Some(Json::Number(n)),
        Some(JsonKind::Str(s)) => Some(Json::Str(s)),
        Some(JsonKind::Array) => {
            let texts = match parse_item_texts(bytes) {
                Some(ts) => ts,
                None => return None,
            };
            let ghost ts = texts@.map_values(|t: Vec<u8>| t@);
            let mut items: Vec<Json> = Vec::new();
            let mut i: usize = 0;
            while i < texts.len()
                invariant
                    0 <= i <= texts.len(),
                    ts == texts@.map_values(|t: Vec<u8>| t@),
                    json_level(bytes@) == Some(JsonLevel::Array),
                    json_item_texts(bytes@) == Some(ts),
                    forall|j: int| 0 <= j < texts@.len() ==> (#[trigger] texts@[j])@.len() < bytes@.len(),
                    parsed_items(bytes@, ts, i as int) == Some(items_model(items@)),
                decreases texts.len() - i,
            {
                assert(ts[i as int] == texts@[i as int]@);
                match parse_json(texts[i].as_slice()) {
                    Some(v) => {
                        let ghost before = items@;
                        items.push(v);
                        assert(items_model(items@) =~= items_model(before).push(v.model()));
                    },
                    None => {
                        proof {
                            assert(parsed_items(bytes@, ts, i + 1) is None);
                            lemma_items_fail_stays(bytes@, ts, i + 1, ts.len() as int);
                            assert(json_item_texts(bytes@) == Some(ts));
                        }
                        return None;
                    },
                }
                i += 1;
            }
            proof {
                Json::lemma_array_model(items);
            }
            Some(Json::Array(items))
        },
        Some(JsonKind::Object) => {
            let texts = match parse_entry_texts(bytes) {
                Some(es) => es,
                None => return None,
            };
            let ghost ents = texts@;
            let ghost es = texts@.map_values(|e: (String, Vec<u8>)| (e.0@, e.1@));
            let mut entries: Vec<(String, Json)> = Vec::new();
            for e in it: texts
                invariant
                    it.seq() == ents,
                    es == ents.map_values(|e: (String, Vec<u8>)| (e.0@, e.1@)),
                    json_level(bytes@) == Some(JsonLevel::Object),
                    json_entry_texts(bytes@) == Some(es),
                    forall|j: int| 0 <= j < ents.len() ==> (#[trigger] ents[j]).1@.len() < bytes@.len(),
                    parsed_entries(bytes@, es, it.index() as int) == Some(entries_model(entries@)),
            {
                let ghost i = it.index();
                let (key, text) = e;
                assert(es[i as int] == (key@, text@));
                match parse_json(text.as_slice()) {
                    Some(v) => {
                        let ghost before = entries@;
                        entries.push((key, v));
                        assert(entries_model(entries@) =~= entries_model(before).push((es[i as int].0, v.model())));
                    },
                    None => {
                        proof {
                            assert(parsed_entries(bytes@, es, i + 1) is None);
                            lemma_entries_fail_stays(bytes@, es, i + 1, es.len() as int);
                            assert(json_entry_texts(bytes@) == Some(es));
                        }
                        return None;
                    },
                }
            }
            proof {
                Json::lemma_object_model(entries);
            }
            Some(Json::Object(entries))
        },
    }
}

} // verus!
