//! The JSON document model that the slide IR is read from and patched in.
use vstd::prelude::*;

use crate::text::{push_signed_decimal, signed_decimal, str_eq, to_string};

verus! {

/// A JSON number: its value when it is an integer that fits in `i64`,
/// and its decimal rendering.
pub struct JsonNumber {
    pub as_int: Option<i64>,
    pub repr: String,
}

/// One member of a JSON object.
pub struct JsonEntry {
    pub key: String,
    pub value: JsonValue,
}

/// A JSON value.  Object members keep their order; lookups take the first
/// member with the key.
pub enum JsonValue {
    Null,
    Bool(bool),
    Number(JsonNumber),
    String(String),
    Array(Vec<JsonValue>),
    Object(Vec<JsonEntry>),
}

/// The mathematical form of a JSON value.
pub enum Json {
    Null,
    Bool(bool),
    Number(Option<i64>, Seq<char>),
    Str(Seq<char>),
    Array(Seq<Json>),
    Object(Seq<(Seq<char>, Json)>),
}

pub open spec fn json_view(v: JsonValue) -> Json
    decreases v, 1nat,
{
    match v {
        JsonValue::Null => Json::Null,
        JsonValue::Bool(b) => Json::Bool(b),
        JsonValue::Number(n) => Json::Number(n.as_int, n.repr@),
        JsonValue::String(s) => Json::Str(s@),
        JsonValue::Array(items) => Json::Array(json_seq_view(items@)),
        JsonValue::Object(entries) => Json::Object(entries_view(entries@)),
    }
}

pub open spec fn json_seq_view(s: Seq<JsonValue>) -> Seq<Json>
    decreases s, 0nat,
{
    if s.len() == 0 {
        Seq::empty()
    } else {
        json_seq_view(s.drop_last()).push(json_view(s.last()))
    }
}

pub open spec fn entries_view(s: Seq<JsonEntry>) -> Seq<(Seq<char>, Json)>
    decreases s, 0nat,
{
    if s.len() == 0 {
        Seq::empty()
    } else {
        entries_view(s.drop_last()).push((s.last().key@, json_view(s.last().value)))
    }
}

impl View for JsonValue {
    type V = Json;

    open spec fn view(&self) -> Json {
        json_view(*self)
    }
}

pub proof fn lemma_json_seq_view(s: Seq<JsonValue>)
    ensures
        json_seq_view(s).len() == s.len(),
        forall|i: int| 0 <= i < s.len() ==> #[trigger] json_seq_view(s)[i] == json_view(s[i]),
    decreases s.len(),
{
    if s.len() > 0 {
        lemma_json_seq_view(s.drop_last());
    }
}

pub proof fn lemma_entries_view(s: Seq<JsonEntry>)
    ensures
        entries_view(s).len() == s.len(),
        forall|i: int|
            0 <= i < s.len() ==> #[trigger] entries_view(s)[i] == (s[i].key@, json_view(s[i].value)),
    decreases s.len(),
{
    if s.len() > 0 {
        lemma_entries_view(s.drop_last());
    }
}

/// The value of the first member of `m` named `k`.
pub open spec fn obj_get(m: Seq<(Seq<char>, Json)>, k: Seq<char>) -> Option<Json>
    decreases m.len(),
{
    if m.len() == 0 {
        None
    } else if m[0].0 == k {
        Some(m[0].1)
    } else {
        obj_get(m.drop_first(), k)
    }
}

/// Whether `m` has a member named `k`.
pub open spec fn obj_has(m: Seq<(Seq<char>, Json)>, k: Seq<char>) -> bool {
    obj_get(m, k) is Some
}

impl Json {
    /// The member `k` of an object; `None` for other values.
    pub open spec fn field(self, k: Seq<char>) -> Option<Json> {
        match self {
            Json::Object(m) => obj_get(m, k),
            _ => None,
        }
    }

    pub open spec fn str_of(self) -> Option<Seq<char>> {
        match self {
            Json::Str(s) => Some(s),
            _ => None,
        }
    }

    pub open spec fn array_of(self) -> Option<Seq<Json>> {
        match self {
            Json::Array(a) => Some(a),
            _ => None,
        }
    }

    pub open spec fn object_of(self) -> Option<Seq<(Seq<char>, Json)>> {
        match self {
            Json::Object(m) => Some(m),
            _ => None,
        }
    }

    pub open spec fn int_of(self) -> Option<i64> {
        match self {
            Json::Number(n, _) => n,
            _ => None,
        }
    }
}

proof fn lemma_obj_get_skip(m: Seq<(Seq<char>, Json)>, i: int, k: Seq<char>)
    requires
        0 <= i < m.len(),
    ensures
        obj_get(m.skip(i), k) == if m[i].0 == k {
            Some(m[i].1)
        } else {
            obj_get(m.skip(i + 1), k)
        },
{
    assert(m.skip(i).drop_first() =~= m.skip(i + 1));
}

/// Finds the first entry named `key`.
pub fn entries_find(entries: &Vec<JsonEntry>, key: &str) -> (r: Option<usize>)
    ensures
        match r {
            Some(i) => i < entries@.len() && obj_get(entries_view(entries@), key@) == Some(
                json_view(entries@[i as int].value),
            ) && entries@[i as int].key@ == key@,
            None => obj_get(entries_view(entries@), key@) is None,
        },
{
    let ghost m = entries_view(entries@);
    proof {
        lemma_entries_view(entries@);
        assert(m.skip(0) =~= m);
    }
    let mut i: usize = 0;
    while i < entries.len()
        invariant
            i <= entries@.len(),
            m == entries_view(entries@),
            m.len() == entries@.len(),
            forall|j: int|
                0 <= j < entries@.len() ==> #[trigger] m[j] == (
                    entries@[j].key@,
                    json_view(entries@[j].value),
                ),
            obj_get(m, key@) == obj_get(m.skip(i as int), key@),
        decreases entries@.len() - i,
    {
        proof {
            lemma_obj_get_skip(m, i as int, key@);
        }
        if str_eq(entries[i].key.as_str(), key) {
            return Some(i);
        }
        i = i + 1;
    }
    assert(m.skip(i as int).len() == 0);
    None
}

impl JsonValue {
    /// The member `key` of an object value.
    pub fn get(&self, key: &str) -> (r: Option<&JsonValue>)
        ensures
            match r {
                Some(v) => self@.field(key@) == Some(v@),
                None => self@.field(key@) is None,
            },
    {
        match self {
            JsonValue::Object(entries) => {
                match entries_find(entries, key) {
                    Some(i) => Some(&entries[i].value),
                    None => None,
                }
            },
            _ => None,
        }
    }

    pub fn as_str(&self) -> (r: Option<&String>)
        ensures
            match r {
                Some(s) => self@.str_of() == Some(s@),
                None => self@.str_of() is None,
            },
    {
        match self {
            JsonValue::String(s) => Some(s),
            _ => None,
        }
    }

    pub fn as_array(&self) -> (r: Option<&Vec<JsonValue>>)
        ensures
            match r {
                Some(a) => self@.array_of() == Some(json_seq_view(a@)),
                None => self@.array_of() is None,
            },
    {
        match self {
            JsonValue::Array(a) => Some(a),
            _ => None,
        }
    }

    pub fn as_object(&self) -> (r: Option<&Vec<JsonEntry>>)
        ensures
            match r {
                Some(m) => self@.object_of() == Some(entries_view(m@)),
                None => self@.object_of() is None,
            },
    {
        match self {
            JsonValue::Object(m) => Some(m),
            _ => None,
        }
    }

    pub fn as_i64(&self) -> (r: Option<i64>)
        ensures
            r == self@.int_of(),
    {
        match self {
            JsonValue::Number(n) => n.as_int,
            _ => None,
        }
    }

    pub fn is_object(&self) -> (r: bool)
        ensures
            r == (self@ is Object),
    {
        match self {
            JsonValue::Object(_) => true,
            _ => false,
        }
    }
}

/// A JSON string value.
pub fn json_string(s: &str) -> (r: JsonValue)
    ensures
        r@ == Json::Str(s@),
{
    JsonValue::String(to_string(s))
}

/// `m` with the first member named `k` set to `v`, or with `(k, v)`
/// appended when there is none.
pub open spec fn obj_set(m: Seq<(Seq<char>, Json)>, k: Seq<char>, v: Json) -> Seq<(Seq<char>, Json)>
    decreases m.len(),
{
    if m.len() == 0 {
        seq![(k, v)]
    } else if m[0].0 == k {
        m.update(0, (k, v))
    } else {
        seq![m[0]] + obj_set(m.drop_first(), k, v)
    }
}

/// The JSON integer `v`.
pub open spec fn json_int(v: i64) -> Json {
    Json::Number(Some(v), signed_decimal(v as int))
}

/// The empty JSON object.
pub open spec fn empty_object() -> Json {
    Json::Object(Seq::empty())
}

proof fn lemma_obj_set_prefix(m: Seq<(Seq<char>, Json)>, i: int, k: Seq<char>, v: Json)
    requires
        0 <= i <= m.len(),
        forall|j: int| 0 <= j < i ==> m[j].0 != k,
    ensures
        obj_set(m, k, v) == m.take(i) + obj_set(m.skip(i), k, v),
    decreases i,
{
    if i > 0 {
        lemma_obj_set_prefix(m.drop_first(), i - 1, k, v);
        assert(m.drop_first().take(i - 1) =~= m.take(i).drop_first());
        assert(m.drop_first().skip(i - 1) =~= m.skip(i));
        assert(seq![m[0]] + m.take(i).drop_first() =~= m.take(i));
    } else {
        assert(m.skip(0) =~= m);
        assert(m.take(0) + obj_set(m, k, v) =~= obj_set(m, k, v));
    }
}

/// Sets the member `key` of an object's entries (replacing the first
/// member with that key, or appending one).
pub fn entries_set(entries: &mut Vec<JsonEntry>, key: &str, v: JsonValue)
    ensures
        entries_view(final(entries)@) == obj_set(entries_view(old(entries)@), key@, v@),
{
    let ghost m = entries_view(entries@);
    proof {
        lemma_entries_view(entries@);
    }
    let mut i: usize = 0;
    while i < entries.len()
        invariant
            i <= entries@.len(),
            entries@ == old(entries)@,
            m == entries_view(entries@),
            m.len() == entries@.len(),
            forall|j: int|
                0 <= j < entries@.len() ==> #[trigger] m[j] == (
                    entries@[j].key@,
                    json_view(entries@[j].value),
                ),
            forall|j: int| 0 <= j < i ==> m[j].0 != key@,
        ensures
            i <= entries@.len(),
            entries@ == old(entries)@,
            forall|j: int| 0 <= j < i ==> m[j].0 != key@,
            i < entries@.len() ==> m[i as int].0 == key@,
        decreases entries@.len() - i,
    {
        if str_eq(entries[i].key.as_str(), key) {
            break;
        }
        i = i + 1;
    }
    proof {
        lemma_obj_set_prefix(m, i as int, key@, v@);
    }
    let ghost vv = v@;
    if i < entries.len() {
        let e = JsonEntry { key: to_string(key), value: v };
        entries.remove(i);
        entries.insert(i, e);
        proof {
            lemma_entries_view(entries@);
            assert(m.skip(i as int)[0].0 == key@);
            assert(entries_view(entries@) =~= obj_set(m, key@, vv));
        }
    } else {
        let e = JsonEntry { key: to_string(key), value: v };
        entries.push(e);
        proof {
            lemma_entries_view(entries@);
            assert(m.skip(i as int) =~= Seq::<(Seq<char>, Json)>::empty());
            assert(entries_view(entries@) =~= obj_set(m, key@, vv));
        }
    }
}

/// The JSON integer `v`.
pub fn int_value(v: i64) -> (r: JsonValue)
    ensures
        r@ == json_int(v),
{
    let mut repr = String::new();
    push_signed_decimal(&mut repr, v);
    assert(repr@ =~= signed_decimal(v as int));
    JsonValue::Number(JsonNumber { as_int: Some(v), repr: repr })
}

/// The empty JSON object.
pub fn empty_object_value() -> (r: JsonValue)
    ensures
        r@ == empty_object(),
{
    let v: Vec<JsonEntry> = Vec::new();
    assert(entries_view(v@) =~= Seq::empty());
    JsonValue::Object(v)
}

/// A deep copy of a JSON value.
pub fn clone_json(v: &JsonValue) -> (r: JsonValue)
    ensures
        r@ == v@,
    decreases v,
{
    match v {
        JsonValue::Null => JsonValue::Null,
        JsonValue::Bool(b) => JsonValue::Bool(*b),
        JsonValue::Number(n) => JsonValue::Number(JsonNumber { as_int: n.as_int, repr: n.repr.clone() }),
        JsonValue::String(s) => JsonValue::String(s.clone()),
        JsonValue::Array(items) => {
            let mut out: Vec<JsonValue> = Vec::new();
            let mut i: usize = 0;
            proof {
                lemma_json_seq_view(items@);
            }
            while i < items.len()
                invariant
                    i <= items@.len(),
                    out@.len() == i,
                    *v == JsonValue::Array(*items),
                    forall|j: int| 0 <= j < i ==> #[trigger] json_view(out@[j]) == json_view(items@[j]),
                decreases items@.len() - i,
            {
                assert(decreases_to!(*v => (*v)->Array_0));
                assert(decreases_to!(*items => items@));
                assert(decreases_to!(items@ => items@[i as int]));
                let c = clone_json(&items[i]);
                out.push(c);
                i = i + 1;
            }
            proof {
                lemma_json_seq_view(out@);
                assert(json_seq_view(out@) =~= json_seq_view(items@));
            }
            JsonValue::Array(out)
        },
        JsonValue::Object(entries) => {
            let mut out: Vec<JsonEntry> = Vec::new();
            let mut i: usize = 0;
            proof {
                lemma_entries_view(entries@);
            }
            while i < entries.len()
                invariant
                    i <= entries@.len(),
                    out@.len() == i,
                    *v == JsonValue::Object(*entries),
                    forall|j: int|
                        0 <= j < i ==> #[trigger] out@[j].key@ == entries@[j].key@ && json_view(
                            out@[j].value,
                        ) == json_view(entries@[j].value),
                decreases entries@.len() - i,
            {
                assert(decreases_to!(*v => (*v)->Object_0));
                assert(decreases_to!(*entries => entries@));
                assert(decreases_to!(entries@ => entries@[i as int]));
                assert(decreases_to!(entries@[i as int] => entries@[i as int].value));
                let c = clone_json(&entries[i].value);
                out.push(JsonEntry { key: entries[i].key.clone(), value: c });
                i = i + 1;
            }
            proof {
                lemma_entries_view(out@);
                assert(entries_view(out@) =~= entries_view(entries@));
            }
            JsonValue::Object(out)
        },
    }
}

} // verus!
