use vstd::prelude::*;

use crate::text::{str_eq, push_char, push_str, join, hex_digit_spec};

verus! {

/// Mathematical model of a JSON value: strings are sequences of characters,
/// numbers are kept as their JSON text, objects as sequences of entries.
pub enum JsonValue {
    Null,
    Bool(bool),
    Number(Seq<char>),
    Str(Seq<char>),
    Array(Seq<JsonValue>),
    Object(Seq<(Seq<char>, JsonValue)>),
}

/// A JSON value, as the formatters read and write it.
///
/// Numbers hold their JSON text (`"95"`, `"-1.5"`, `"1e100"`); object entries
/// keep the order in which they were inserted.
#[derive(Debug, PartialEq)]
pub enum Json {
    Null,
    Bool(bool),
    Number(String),
    Str(String),
    Array(Vec<Json>),
    Object(Vec<(String, Json)>),
}

// ---------------------------------------------------------------------------
// Keyed sequences: the entries of an object, or of a header map.
// The first entry with a key is the one that counts.
// ---------------------------------------------------------------------------

pub open spec fn has_key<V>(es: Seq<(Seq<char>, V)>, k: Seq<char>) -> bool {
    exists|i: int| 0 <= i < es.len() && (#[trigger] es[i]).0 == k
}

/// No key occurs twice.
pub open spec fn distinct_keys<V>(es: Seq<(Seq<char>, V)>) -> bool {
    forall|i: int, j: int| 0 <= i < es.len() && 0 <= j < es.len() && i != j ==> (#[trigger] es[i]).0 != (#[trigger] es[j]).0
}

pub open spec fn is_first_key<V>(es: Seq<(Seq<char>, V)>, k: Seq<char>, i: int) -> bool {
    &&& 0 <= i < es.len()
    &&& es[i].0 == k
    &&& forall|j: int| 0 <= j < i ==> (#[trigger] es[j]).0 != k
}

pub open spec fn first_key_index<V>(es: Seq<(Seq<char>, V)>, k: Seq<char>) -> int {
    choose|i: int| is_first_key(es, k, i)
}

/// The value of the first entry with key `k`.
pub open spec fn lookup<V>(es: Seq<(Seq<char>, V)>, k: Seq<char>) -> Option<V> {
    if has_key(es, k) {
        Some(es[first_key_index(es, k)].1)
    } else {
        None
    }
}

/// Give key `k` the value `x`: the first entry with that key is replaced,
/// or a new entry is appended.
pub open spec fn set_entry<V>(es: Seq<(Seq<char>, V)>, k: Seq<char>, x: V) -> Seq<(Seq<char>, V)> {
    if has_key(es, k) {
        es.update(first_key_index(es, k), (k, x))
    } else {
        es.push((k, x))
    }
}

/// Drop every entry with key `k`, keeping the others in order.
pub open spec fn remove_key<V>(es: Seq<(Seq<char>, V)>, k: Seq<char>) -> Seq<(Seq<char>, V)>
    decreases es.len(),
{
    if es.len() == 0 {
        es
    } else {
        let rest = remove_key(es.drop_last(), k);
        if es.last().0 == k {
            rest
        } else {
            rest.push(es.last())
        }
    }
}

proof fn lemma_first_key_below<V>(es: Seq<(Seq<char>, V)>, k: Seq<char>, w: int)
    requires
        0 <= w < es.len(),
        es[w].0 == k,
    ensures
        exists|i: int| is_first_key(es, k, i),
    decreases w,
{
    if exists|j: int| 0 <= j < w && (#[trigger] es[j]).0 == k {
        let j = choose|j: int| 0 <= j < w && (#[trigger] es[j]).0 == k;
        lemma_first_key_below(es, k, j);
    } else {
        assert(is_first_key(es, k, w));
    }
}

/// The first index of a present key exists and is the only index with that property.
pub proof fn lemma_first_key<V>(es: Seq<(Seq<char>, V)>, k: Seq<char>)
    ensures
        has_key(es, k) ==> is_first_key(es, k, first_key_index(es, k)),
        forall|i: int| #[trigger] is_first_key(es, k, i) ==> i == first_key_index(es, k),
{
    if has_key(es, k) {
        let w = choose|i: int| 0 <= i < es.len() && (#[trigger] es[i]).0 == k;
        lemma_first_key_below(es, k, w);
    }
    assert forall|i: int| #[trigger] is_first_key(es, k, i) implies i == first_key_index(es, k) by {
        let f = first_key_index(es, k);
        assert(is_first_key(es, k, f));
        if i < f {
            assert(es[i].0 == k);
        } else if f < i {
            assert(es[f].0 == k);
        }
    }
}

/// After `set_entry`, looking the key up gives the new value.
pub proof fn lemma_set_entry_lookup<V>(es: Seq<(Seq<char>, V)>, k: Seq<char>, x: V, other: Seq<char>)
    ensures
        lookup(set_entry(es, k, x), k) == Some(x),
        other != k ==> lookup(set_entry(es, k, x), other) == lookup(es, other),
{
    lemma_first_key(es, k);
    lemma_first_key(es, other);
    let s = set_entry(es, k, x);
    lemma_first_key(s, k);
    lemma_first_key(s, other);
    if has_key(es, k) {
        let f = first_key_index(es, k);
        assert(is_first_key(s, k, f));
        if other != k {
            if has_key(es, other) {
                let g = first_key_index(es, other);
                assert(s[g] == es[g]);
                assert(is_first_key(s, other, g));
            } else {
                assert forall|i: int| 0 <= i < s.len() implies (#[trigger] s[i]).0 != other by {
                    if i != f {
                        assert(s[i] == es[i]);
                    }
                }
            }
        }
    } else {
        assert(is_first_key(s, k, es.len() as int));
        if other != k {
            if has_key(es, other) {
                let g = first_key_index(es, other);
                assert(s[g] == es[g]);
                assert(is_first_key(s, other, g));
            } else {
                assert forall|i: int| 0 <= i < s.len() implies (#[trigger] s[i]).0 != other by {
                    if i < es.len() {
                        assert(s[i] == es[i]);
                    }
                }
            }
        }
    }
}

/// Removing an absent key changes nothing.
pub proof fn lemma_remove_absent<V>(es: Seq<(Seq<char>, V)>, k: Seq<char>)
    requires
        !has_key(es, k),
    ensures
        remove_key(es, k) == es,
    decreases es.len(),
{
    if es.len() > 0 {
        let init = es.drop_last();
        assert(!has_key(init, k)) by {
            if has_key(init, k) {
                let i = choose|i: int| 0 <= i < init.len() && (#[trigger] init[i]).0 == k;
                assert(es[i] == init[i]);
            }
        }
        lemma_remove_absent(init, k);
        assert(es[es.len() - 1] == es.last());
        assert(init.push(es.last()) =~= es);
    }
}

/// Looking a key up after appending an entry.
pub proof fn lemma_lookup_push<V>(es: Seq<(Seq<char>, V)>, e: (Seq<char>, V), k: Seq<char>)
    ensures
        has_key(es.push(e), k) == (has_key(es, k) || e.0 == k),
        lookup(es.push(e), k) == if has_key(es, k) {
            lookup(es, k)
        } else if e.0 == k {
            Some(e.1)
        } else {
            None
        },
{
    let p = es.push(e);
    lemma_first_key(es, k);
    lemma_first_key(p, k);
    if has_key(es, k) {
        let g = first_key_index(es, k);
        assert(p[g] == es[g]);
        assert(is_first_key(p, k, g)) by {
            assert forall|j: int| 0 <= j < g implies (#[trigger] p[j]).0 != k by {
                assert(p[j] == es[j]);
            }
        }
    } else if e.0 == k {
        assert(p[es.len() as int] == e);
        assert(is_first_key(p, k, es.len() as int)) by {
            assert forall|j: int| 0 <= j < es.len() implies (#[trigger] p[j]).0 != k by {
                assert(p[j] == es[j]);
            }
        }
    } else {
        assert forall|i: int| 0 <= i < p.len() implies (#[trigger] p[i]).0 != k by {
            if i < es.len() {
                assert(p[i] == es[i]);
            } else {
                assert(p[i] == e);
            }
        }
    }
}

/// No entry with the removed key is left; the others are looked up as before.
pub proof fn lemma_remove_key<V>(es: Seq<(Seq<char>, V)>, k: Seq<char>, other: Seq<char>)
    ensures
        !has_key(remove_key(es, k), k),
        other != k ==> lookup(remove_key(es, k), other) == lookup(es, other),
        other != k ==> has_key(remove_key(es, k), other) == has_key(es, other),
    decreases es.len(),
{
    if es.len() == 0 {
    } else {
        let init = es.drop_last();
        let e = es.last();
        assert(init.push(e) =~= es);
        lemma_remove_key(init, k, other);
        let r = remove_key(init, k);
        lemma_lookup_push(init, e, other);
        lemma_lookup_push(init, e, k);
        if e.0 != k {
            lemma_lookup_push(r, e, k);
            lemma_lookup_push(r, e, other);
        }
    }
}

// ---------------------------------------------------------------------------
// Reading and writing values, as `serde_json::Value` indexing does.
// ---------------------------------------------------------------------------

/// `value[key]`: the field of an object, `Null` when absent or not an object.
pub open spec fn field(v: JsonValue, k: Seq<char>) -> JsonValue {
    match v {
        JsonValue::Object(es) => match lookup(es, k) {
            Some(x) => x,
            None => JsonValue::Null,
        },
        _ => JsonValue::Null,
    }
}

/// Whether the value is an object with the field.
pub open spec fn has_field(v: JsonValue, k: Seq<char>) -> bool {
    v matches JsonValue::Object(es) && has_key(es, k)
}

/// `value.as_str()`.
pub open spec fn text_of(v: JsonValue) -> Option<Seq<char>> {
    match v {
        JsonValue::Str(s) => Some(s),
        _ => None,
    }
}

/// `value.as_str().unwrap_or(default)`.
pub open spec fn str_or(v: JsonValue, default: Seq<char>) -> Seq<char> {
    match v {
        JsonValue::Str(s) => s,
        _ => default,
    }
}

/// A field can be assigned on `Null` (which becomes an object) and on objects.
pub open spec fn assignable(v: JsonValue) -> bool {
    v is Null || v is Object
}

/// `value[key] = x`.
pub open spec fn assign(v: JsonValue, k: Seq<char>, x: JsonValue) -> JsonValue {
    match v {
        JsonValue::Null => JsonValue::Object(seq![(k, x)]),
        JsonValue::Object(es) => JsonValue::Object(set_entry(es, k, x)),
        _ => v,
    }
}

/// The removal of a key from an object; other values are left as they are.
pub open spec fn without(v: JsonValue, k: Seq<char>) -> JsonValue {
    match v {
        JsonValue::Object(es) => JsonValue::Object(remove_key(es, k)),
        _ => v,
    }
}

/// The value that removing a key takes out of an object.
pub open spec fn removed(v: JsonValue, k: Seq<char>) -> Option<JsonValue> {
    match v {
        JsonValue::Object(es) => lookup(es, k),
        _ => None,
    }
}

/// A field that is set reads back as the value written, and the other fields
/// read as before.
pub proof fn law_assign_then_field(v: JsonValue, k: Seq<char>, x: JsonValue, other: Seq<char>)
    requires
        assignable(v),
    ensures
        field(assign(v, k, x), k) == x,
        other != k ==> field(assign(v, k, x), other) == field(v, other),
{
    match v {
        JsonValue::Object(es) => {
            lemma_set_entry_lookup(es, k, x, other);
        },
        _ => {
            lemma_set_entry_lookup(Seq::<(Seq<char>, JsonValue)>::empty(), k, x, other);
            assert(Seq::<(Seq<char>, JsonValue)>::empty().push((k, x)) =~= seq![(k, x)]);
        },
    }
}

/// A removed field is gone, and the other fields read as before.
pub proof fn law_without_field(v: JsonValue, k: Seq<char>, other: Seq<char>)
    ensures
        !has_field(without(v, k), k),
        field(without(v, k), k) == JsonValue::Null,
        other != k ==> field(without(v, k), other) == field(v, other),
        other != k ==> has_field(without(v, k), other) == has_field(v, other),
{
    if let JsonValue::Object(es) = v {
        lemma_remove_key(es, k, other);
        lemma_remove_key(es, k, k);
    }
}

pub open spec fn entries_model(es: Seq<(String, Json)>) -> Seq<(Seq<char>, JsonValue)> {
    Seq::new(es.len(), |i: int| (es[i].0@, es[i].1.model()))
}

pub open spec fn items_model(items: Seq<Json>) -> Seq<JsonValue> {
    Seq::new(items.len(), |i: int| items[i].model())
}

impl Json {
    pub open spec fn model(self) -> JsonValue
        decreases self,
    {
        match self {
            Json::Null => JsonValue::Null,
            Json::Bool(b) => JsonValue::Bool(b),
            Json::Number(n) => JsonValue::Number(n@),
            Json::Str(s) => JsonValue::Str(s@),
            Json::Array(items) => JsonValue::Array(
                Seq::new(
                    items@.len(),
                    |i: int|
                        if 0 <= i < items@.len() {
                            items@[i].model()
                        } else {
                            JsonValue::Null
                        },
                ),
            ),
            Json::Object(entries) => JsonValue::Object(
                Seq::new(
                    entries@.len(),
                    |i: int|
                        if 0 <= i < entries@.len() {
                            (entries@[i].0@, entries@[i].1.model())
                        } else {
                            (Seq::empty(), JsonValue::Null)
                        },
                ),
            ),
        }
    }

    pub proof fn lemma_object_model(entries: Vec<(String, Json)>)
        ensures
            Json::Object(entries).model() == JsonValue::Object(entries_model(entries@)),
    {
        assert(Json::Object(entries).model()->Object_0 =~= entries_model(entries@));
    }

    pub proof fn lemma_array_model(items: Vec<Json>)
        ensures
            Json::Array(items).model() == JsonValue::Array(items_model(items@)),
    {
        assert(Json::Array(items).model()->Array_0 =~= items_model(items@));
    }

    /// `value.get(key)`: the field of an object, if the object has it.
    pub fn get(&self, key: &str) -> (r: Option<&Json>)
        ensures
            r matches Some(x) ==> x.model() == field(self.model(), key@),
            r is None ==> field(self.model(), key@) == JsonValue::Null,
            r is Some <==> has_field(self.model(), key@),
    {
        match self {
            Json::Object(entries) => {
                proof {
                    Json::lemma_object_model(*entries);
                    lemma_first_key(entries_model(entries@), key@);
                }
                let ghost es = entries_model(entries@);
                let mut i: usize = 0;
                while i < entries.len()
                    invariant
                        0 <= i <= entries.len(),
                        es == entries_model(entries@),
                        self.model() == JsonValue::Object(es),
                        forall|j: int| 0 <= j < i ==> (#[trigger] es[j]).0 != key@,
                    decreases entries.len() - i,
                {
                    if str_eq(entries[i].0.as_str(), key) {
                        proof {
                            assert(is_first_key(es, key@, i as int));
                            lemma_first_key(es, key@);
                        }
                        return Some(&entries[i].1);
                    }
                    i += 1;
                }
                None
            },
            _ => None,
        }
    }

    /// `value[key].as_str()`.
    pub fn get_str(&self, key: &str) -> (r: Option<&str>)
        ensures
            r matches Some(s) ==> text_of(field(self.model(), key@)) == Some(s@),
            r is None ==> text_of(field(self.model(), key@)) is None,
    {
        match self.get(key) {
            Some(v) => v.as_str(),
            None => None,
        }
    }

    /// `value.as_str()`.
    pub fn as_str(&self) -> (r: Option<&str>)
        ensures
            r matches Some(s) ==> text_of(self.model()) == Some(s@),
            r is None ==> text_of(self.model()) is None,
    {
        match self {
            Json::Str(s) => Some(s.as_str()),
            _ => None,
        }
    }

    /// `value.as_array()`.
    pub fn as_array(&self) -> (r: Option<&Vec<Json>>)
        ensures
            r matches Some(items) ==> self.model() == JsonValue::Array(items_model(items@)),
            r is None ==> !(self.model() is Array),
    {
        match self {
            Json::Array(items) => {
                proof {
                    Json::lemma_array_model(*items);
                }
                Some(items)
            },
            _ => None,
        }
    }

    pub fn is_null(&self) -> (r: bool)
        ensures
            r == (self.model() is Null),
    {
        match self {
            Json::Null => true,
            _ => false,
        }
    }

    /// Whether a field can be assigned: the value is an object or `Null`.
    pub fn is_assignable(&self) -> (r: bool)
        ensures
            r == assignable(self.model()),
    {
        match self {
            Json::Null => true,
            Json::Object(_) => true,
            _ => false,
        }
    }

    /// `value[key] = x`, on an object or on `Null`.
    pub fn set(self, key: &str, x: Json) -> (r: Json)
        requires
            assignable(self.model()),
        ensures
            r.model() == assign(self.model(), key@, x.model()),
    {
        let ghost xm = x.model();
        match self {
            Json::Object(entries) => {
                let ghost old_entries = entries@;
                proof {
                    Json::lemma_object_model(entries);
                    lemma_first_key(entries_model(entries@), key@);
                }
                let ghost es = entries_model(entries@);
                let mut entries = entries;
                let mut i: usize = 0;
                while i < entries.len()
                    invariant
                        0 <= i <= entries.len(),
                        entries@ == old_entries,
                        es == entries_model(entries@),
                        xm == x.model(),
                        self.model() == JsonValue::Object(es),
                        forall|j: int| 0 <= j < i ==> (#[trigger] es[j]).0 != key@,
                    decreases entries.len() - i,
                {
                    if str_eq(entries[i].0.as_str(), key) {
                        proof {
                            assert(is_first_key(es, key@, i as int));
                            lemma_first_key(es, key@);
                        }
                        let k = String::from_str(key);
                        let ghost km = k@;
                        entries.set(i, (k, x));
                        proof {
                            Json::lemma_object_model(entries);
                            assert(km == key@);
                            assert(entries@ == old_entries.update(i as int, entries@[i as int]));
                            assert(entries@[i as int].0@ == key@);
                            assert(entries@[i as int].1.model() == xm);
                            assert(entries_model(entries@) =~= set_entry(es, key@, xm));
                        }
                        return Json::Object(entries);
                    }
                    i += 1;
                }
                entries.push((String::from_str(key), x));
                proof {
                    Json::lemma_object_model(entries);
                    assert(entries_model(entries@) =~= set_entry(es, key@, xm));
                }
                Json::Object(entries)
            },
            _ => {
                let mut entries: Vec<(String, Json)> = Vec::new();
                entries.push((String::from_str(key), x));
                proof {
                    Json::lemma_object_model(entries);
                    assert(entries_model(entries@) =~= seq![(key@, xm)]);
                }
                Json::Object(entries)
            },
        }
    }

    /// `value.as_object_mut().and_then(|o| o.remove(key))`: takes the key out of an
    /// object and gives back its value; anything else is left as it is.
    pub fn remove(self, key: &str) -> (r: (Json, Option<Json>))
        ensures
            r.0.model() == without(self.model(), key@),
            r.1 matches Some(x) ==> removed(self.model(), key@) == Some(x.model()),
            r.1 is None ==> removed(self.model(), key@) is None,
    {
        match self {
            Json::Object(entries) => {
                proof {
                    Json::lemma_object_model(entries);
                    lemma_first_key(entries_model(entries@), key@);
                }
                let ghost es = entries_model(entries@);
                let ghost ents = entries@;
                let mut kept: Vec<(String, Json)> = Vec::new();
                let mut taken: Option<Json> = None;
                for e in it: entries
                    invariant
                        it.seq() == ents,
                        es == entries_model(ents),
                        entries_model(kept@) == remove_key(es.take(it.index()), key@),
                        taken is None ==> forall|j: int| 0 <= j < it.index() ==> (#[trigger] es[j]).0 != key@,
                        taken matches Some(x) ==> exists|f: int| 0 <= f < it.index() && is_first_key(es, key@, f) && es[f].1 == x.model(),
                {
                    let ghost idx = it.index();
                    proof {
                        assert(es.take(idx + 1).drop_last() =~= es.take(idx));
                        assert(es[idx] == (e.0@, e.1.model()));
                    }
                    if str_eq(e.0.as_str(), key) {
                        if taken.is_none() {
                            proof {
                                assert(is_first_key(es, key@, idx));
                            }
                            taken = Some(e.1);
                        }
                    } else {
                        kept.push(e);
                        proof {
                            assert(entries_model(kept@) =~= remove_key(es.take(idx), key@).push(es[idx]));
                        }
                    }
                }
                proof {
                    assert(es.take(es.len() as int) =~= es);
                    Json::lemma_object_model(kept);
                    lemma_first_key(es, key@);
                }
                (Json::Object(kept), taken)
            },
            other => (other, None),
        }
    }
}

// ---------------------------------------------------------------------------
// Compact JSON text, as serde_json writes it.
// ---------------------------------------------------------------------------

/// The escape of one character inside a JSON string.
pub open spec fn escape_char(c: char) -> Seq<char> {
    if c == '"' {
        seq!['\\', '"']
    } else if c == '\\' {
        seq!['\\', '\\']
    } else if c == '\u{8}' {
        seq!['\\', 'b']
    } else if c == '\t' {
        seq!['\\', 't']
    } else if c == '\n' {
        seq!['\\', 'n']
    } else if c == '\u{c}' {
        seq!['\\', 'f']
    } else if c == '\r' {
        seq!['\\', 'r']
    } else if (c as u32) < 0x20 {
        seq!['\\', 'u', '0', '0', hex_digit_spec((c as u32) / 16), hex_digit_spec((c as u32) % 16)]
    } else {
        seq![c]
    }
}

/// The escaped contents of a JSON string.
pub open spec fn escape(s: Seq<char>) -> Seq<char>
    decreases s.len(),
{
    if s.len() == 0 {
        seq![]
    } else {
        escape(s.drop_last()) + escape_char(s.last())
    }
}

/// A string as a JSON string literal.
pub open spec fn quoted(s: Seq<char>) -> Seq<char> {
    seq!['"'] + escape(s) + seq!['"']
}

/// The compact JSON text of a value (no spaces, entries in order).
pub open spec fn json_text(v: JsonValue) -> Seq<char>
    decreases v, 0int,
{
    match v {
        JsonValue::Null => seq!['n', 'u', 'l', 'l'],
        JsonValue::Bool(b) => if b {
            seq!['t', 'r', 'u', 'e']
        } else {
            seq!['f', 'a', 'l', 's', 'e']
        },
        JsonValue::Number(n) => n,
        JsonValue::Str(s) => quoted(s),
        JsonValue::Array(items) => seq!['['] + join(item_texts(items, items.len() as int), seq![','])
            + seq![']'],
        JsonValue::Object(es) => seq!['{'] + join(entry_texts(es, es.len() as int), seq![','])
            + seq!['}'],
    }
}

/// The texts of the first `n` items of an array.
pub open spec fn item_texts(items: Seq<JsonValue>, n: int) -> Seq<Seq<char>>
    decreases items, n,
{
    if n <= 0 || n > items.len() {
        seq![]
    } else {
        item_texts(items, n - 1).push(json_text(items[n - 1]))
    }
}

/// The `"key":value` texts of the first `n` entries of an object.
pub open spec fn entry_texts(es: Seq<(Seq<char>, JsonValue)>, n: int) -> Seq<Seq<char>>
    decreases es, n,
{
    if n <= 0 || n > es.len() {
        seq![]
    } else {
        proof {
            assert(decreases_to!(es => es[n - 1]));
        }
        entry_texts(es, n - 1).push(quoted(es[n - 1].0) + seq![':'] + json_text(es[n - 1].1))
    }
}

/// Calls `serde_json::to_string` on a string: the JSON string literal, with
/// the escapes that `quoted` states (serde_json's `ESCAPE` table: `\"`, `\\`,
/// `\b`, `\t`, `\n`, `\f`, `\r`, and `\u00xx` with lowercase hex digits for the
/// other control characters). Writing a `str` into memory does not fail, so
/// the error arm is never taken.
#[verifier::external_body]
fn json_string_literal(s: &str) -> (r: String)
    ensures
        r@ == quoted(s@),
{
    match serde_json::to_string(s) {
        Ok(text) => text,
        Err(_) => String::new(),
    }
}

/// Appends `s` as a JSON string literal.
pub fn write_quoted(out: &mut String, s: &str)
    ensures
        final(out)@ == old(out)@ + quoted(s@),
{
    let literal = json_string_literal(s);
    push_str(out, literal.as_str());
}

impl Json {
    /// Appends the compact JSON text of the value, entries in the order the
    /// value holds them. For a value read by `parse_json`, whose object keys
    /// come sorted as serde_json's `Map` keeps them, this is what serde_json's
    /// `to_string()` gives.
    pub fn write_json(&self, out: &mut String)
        ensures
            final(out)@ == old(out)@ + json_text(self.model()),
        decreases self,
    {
        let ghost start = out@;
        match self {
            Json::Null => {
                proof {
                    reveal_strlit("null");
                }
                push_str(out, "null");
                assert(out@ =~= start + json_text(self.model()));
            },
            Json::Bool(b) => {
                proof {
                    reveal_strlit("true");
                    reveal_strlit("false");
                }
                if *b {
                    push_str(out, "true")
                } else {
                    push_str(out, "false")
                }
                assert(out@ =~= start + json_text(self.model()));
            },
            Json::Number(n) => {
                push_str(out, n.as_str());
                assert(out@ =~= start + json_text(self.model()));
            },
            Json::Str(s) => {
                write_quoted(out, s.as_str());
                assert(out@ =~= start + json_text(self.model()));
            },
            Json::Array(items) => {
                proof {
                    Json::lemma_array_model(*items);
                }
                let ghost im = items_model(items@);
                push_char(out, '[');
                let mut i: usize = 0;
                while i < items.len()
                    invariant
                        0 <= i <= items.len(),
                        *self == Json::Array(*items),
                        im == items_model(items@),
                        out@ == start + seq!['['] + join(item_texts(im, i as int), seq![',']),
                    decreases items.len() - i,
                {
                    if i > 0 {
                        push_char(out, ',');
                    }
                    assert(decreases_to!(*self => (*self)->Array_0));
                    assert(decreases_to!((*self)->Array_0 => items@));
                    assert(decreases_to!(items@ => items@[i as int]));
                    items[i].write_json(out);
                    proof {
                        assert(item_texts(im, i + 1).drop_last() =~= item_texts(im, i as int));
                    }
                    i += 1;
                }
                push_char(out, ']');
                assert(out@ =~= start + json_text(self.model()));
            },
            Json::Object(entries) => {
                proof {
                    Json::lemma_object_model(*entries);
                }
                let ghost em = entries_model(entries@);
                push_char(out, '{');
                let mut i: usize = 0;
                while i < entries.len()
                    invariant
                        0 <= i <= entries.len(),
                        *self == Json::Object(*entries),
                        em == entries_model(entries@),
                        out@ == start + seq!['{'] + join(entry_texts(em, i as int), seq![',']),
                    decreases entries.len() - i,
                {
                    if i > 0 {
                        push_char(out, ',');
                    }
                    write_quoted(out, entries[i].0.as_str());
                    push_char(out, ':');
                    assert(decreases_to!(*self => (*self)->Object_0));
                    assert(decreases_to!((*self)->Object_0 => entries@));
                    assert(decreases_to!(entries@ => entries@[i as int]));
                    assert(decreases_to!(entries@[i as int] => entries@[i as int].1));
                    entries[i].1.write_json(out);
                    proof {
                        assert(entry_texts(em, i + 1).drop_last() =~= entry_texts(em, i as int));
                    }
                    i += 1;
                }
                push_char(out, '}');
                assert(out@ =~= start + json_text(self.model()));
            },
        }
    }

    /// The compact JSON text (see `write_json`).
    pub fn to_json_string(&self) -> (r: String)
        ensures
            r@ == json_text(self.model()),
    {
        let mut out = String::new();
        self.write_json(&mut out);
        out
    }
}

} // verus!
