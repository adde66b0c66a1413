//! A JSON value model for payloads, results and artifacts.
//!
//! The runtime builds and inspects structured payloads; `JsonValue` holds
//! them as plain data (integers only: the payloads carry counts, exit codes
//! and durations). Its mathematical model is `Json`.
use vstd::prelude::*;
use crate::text::{own, str_eq};

verus! {

broadcast use vstd::std_specs::vec::group_vec_axioms;

/// An executable JSON value.
#[derive(Debug)]
pub enum JsonValue {
    Null,
    Bool(bool),
    Int(i64),
    UInt(u64),
    /// A number that is not an integer, kept as its JSON text.
    Number(String),
    Str(String),
    Array(Vec<JsonValue>),
    Object(Vec<(String, JsonValue)>),
}

/// The mathematical model of a JSON value.
pub enum Json {
    Null,
    Bool(bool),
    Int(int),
    Number(Seq<char>),
    Str(Seq<char>),
    Array(Seq<Json>),
    Object(Seq<(Seq<char>, Json)>),
}

/// The model of a JSON value.
pub open spec fn jv(v: JsonValue) -> Json
    decreases v,
{
    match v {
        JsonValue::Null => Json::Null,
        JsonValue::Bool(b) => Json::Bool(b),
        JsonValue::Int(i) => Json::Int(i as int),
        JsonValue::UInt(u) => Json::Int(u as int),
        JsonValue::Number(t) => Json::Number(t@),
        JsonValue::Str(s) => Json::Str(s@),
        JsonValue::Array(items) => Json::Array(jv_items(items@)),
        JsonValue::Object(fields) => Json::Object(jv_fields(fields@)),
    }
}

/// The models of a sequence of JSON values.
pub open spec fn jv_items(s: Seq<JsonValue>) -> Seq<Json>
    decreases s,
{
    if s.len() == 0 {
        Seq::empty()
    } else {
        jv_items(s.drop_last()).push(jv(s.last()))
    }
}

/// The models of a sequence of object fields.
pub open spec fn jv_fields(s: Seq<(String, JsonValue)>) -> Seq<(Seq<char>, Json)>
    decreases s,
{
    if s.len() == 0 {
        Seq::empty()
    } else {
        jv_fields(s.drop_last()).push((s.last().0@, jv(s.last().1)))
    }
}

/// The value of the first field named `key`.
pub open spec fn lookup(fields: Seq<(Seq<char>, Json)>, key: Seq<char>) -> Option<Json>
    decreases fields.len(),
{
    if fields.len() == 0 {
        None
    } else if fields[0].0 == key {
        Some(fields[0].1)
    } else {
        lookup(fields.drop_first(), key)
    }
}

/// The value stored under `key` in an object (`None` for other values).
pub open spec fn json_get(j: Json, key: Seq<char>) -> Option<Json> {
    match j {
        Json::Object(fields) => lookup(fields, key),
        _ => None,
    }
}

/// The string stored under `key` in an object, if that value is a string.
pub open spec fn json_get_str(j: Json, key: Seq<char>) -> Option<Seq<char>> {
    match json_get(j, key) {
        Some(Json::Str(s)) => Some(s),
        _ => None,
    }
}

pub proof fn lemma_jv_items_len(s: Seq<JsonValue>)
    ensures
        jv_items(s).len() == s.len(),
        forall|i: int| 0 <= i < s.len() ==> #[trigger] jv_items(s)[i] == jv(s[i]),
    decreases s.len(),
{
    if s.len() > 0 {
        lemma_jv_items_len(s.drop_last());
    }
}

pub proof fn lemma_jv_fields_len(s: Seq<(String, JsonValue)>)
    ensures
        jv_fields(s).len() == s.len(),
        forall|i: int|
            0 <= i < s.len() ==> #[trigger] jv_fields(s)[i] == (s[i].0@, jv(s[i].1)),
    decreases s.len(),
{
    if s.len() > 0 {
        lemma_jv_fields_len(s.drop_last());
    }
}

proof fn lemma_jv_items_ext(a: Seq<JsonValue>, b: Seq<JsonValue>)
    requires
        a.len() == b.len(),
        forall|i: int| 0 <= i < a.len() ==> jv(a[i]) == jv(b[i]),
    ensures
        jv_items(a) == jv_items(b),
{
    lemma_jv_items_len(a);
    lemma_jv_items_len(b);
    assert(jv_items(a) =~= jv_items(b));
}

proof fn lemma_jv_fields_ext(a: Seq<(String, JsonValue)>, b: Seq<(String, JsonValue)>)
    requires
        a.len() == b.len(),
        forall|i: int| 0 <= i < a.len() ==> a[i].0@ == b[i].0@ && jv(a[i].1) == jv(b[i].1),
    ensures
        jv_fields(a) == jv_fields(b),
{
    lemma_jv_fields_len(a);
    lemma_jv_fields_len(b);
    assert(jv_fields(a) =~= jv_fields(b));
}

/// The models of `s` followed by one more item.
pub proof fn lemma_jv_items_push(s: Seq<JsonValue>, v: JsonValue)
    ensures
        jv_items(s.push(v)) == jv_items(s).push(jv(v)),
{
    assert(s.push(v).drop_last() =~= s);
}

/// The models of `s` followed by one more field.
pub proof fn lemma_jv_fields_push(s: Seq<(String, JsonValue)>, f: (String, JsonValue))
    ensures
        jv_fields(s.push(f)) == jv_fields(s).push((f.0@, jv(f.1))),
{
    assert(s.push(f).drop_last() =~= s);
}

impl JsonValue {
    /// Duplicates this value; the result has the same view.
    pub fn deep_clone(&self) -> (r: JsonValue)
        ensures
            jv(r) == jv(*self),
        decreases self,
    {
        match self {
            JsonValue::Null => JsonValue::Null,
            JsonValue::Bool(b) => JsonValue::Bool(*b),
            JsonValue::Int(i) => JsonValue::Int(*i),
            JsonValue::UInt(u) => JsonValue::UInt(*u),
            JsonValue::Number(t) => JsonValue::Number(t.clone()),
            JsonValue::Str(s) => JsonValue::Str(s.clone()),
            JsonValue::Array(items) => {
                let mut out: Vec<JsonValue> = Vec::new();
                let mut i: usize = 0;
                while i < items.len()
                    invariant
                        *self == JsonValue::Array(*items),
                        i <= items@.len(),
                        out@.len() == i,
                        forall|k: int| 0 <= k < i ==> jv(#[trigger] out@[k]) == jv(items@[k]),
                    decreases items.len() - i,
                {
                    proof {
                        assert(decreases_to!(*self => self->Array_0));
                        assert(decreases_to!(*items => items@));
                        assert(decreases_to!(items@ => items@[i as int]));
                    }
                    let c = items[i].deep_clone();
                    out.push(c);
                    i += 1;
                }
                proof {
                    lemma_jv_items_ext(out@, items@);
                }
                JsonValue::Array(out)
            },
            JsonValue::Object(fields) => {
                let mut out: Vec<(String, JsonValue)> = Vec::new();
                let mut i: usize = 0;
                while i < fields.len()
                    invariant
                        *self == JsonValue::Object(*fields),
                        i <= fields@.len(),
                        out@.len() == i,
                        forall|k: int|
                            0 <= k < i ==> (#[trigger] out@[k]).0@ == fields@[k].0@ && jv(
                                out@[k].1,
                            ) == jv(fields@[k].1),
                    decreases fields.len() - i,
                {
                    let k = fields[i].0.clone();
                    proof {
                        assert(decreases_to!(*self => self->Object_0));
                        assert(decreases_to!(*fields => fields@));
                        assert(decreases_to!(fields@ => fields@[i as int]));
                        assert(decreases_to!(fields@[i as int] => fields@[i as int].1));
                    }
                    let c = fields[i].1.deep_clone();
                    out.push((k, c));
                    i += 1;
                }
                proof {
                    lemma_jv_fields_ext(out@, fields@);
                }
                JsonValue::Object(out)
            },
        }
    }

    /// Whether this value is `null`.
    pub fn is_null(&self) -> (b: bool)
        ensures
            b == (jv(*self) is Null),
    {
        match self {
            JsonValue::Null => true,
            _ => false,
        }
    }

    /// The value stored under `key`, when this value is an object.
    pub fn get(&self, key: &str) -> (r: Option<&JsonValue>)
        ensures
            match r {
                Some(v) => json_get(jv(*self), key@) == Some(jv(*v)),
                None => json_get(jv(*self), key@) is None,
            },
    {
        match self {
            JsonValue::Object(fields) => {
                proof {
                    lemma_jv_fields_len(fields@);
                }
                let mut i: usize = 0;
                assert(jv_fields(fields@).skip(0) =~= jv_fields(fields@));
                while i < fields.len()
                    invariant
                        jv(*self) == Json::Object(jv_fields(fields@)),
                        i <= fields@.len(),
                        jv_fields(fields@).len() == fields@.len(),
                        forall|k: int|
                            0 <= k < fields@.len() ==> #[trigger] jv_fields(fields@)[k] == (
                                fields@[k].0@,
                                jv(fields@[k].1),
                            ),
                        lookup(jv_fields(fields@), key@) == lookup(
                            jv_fields(fields@).skip(i as int),
                            key@,
                        ),
                    decreases fields.len() - i,
                {
                    let ghost rest = jv_fields(fields@).skip(i as int);
                    assert(rest[0] == jv_fields(fields@)[i as int]);
                    if str_eq(fields[i].0.as_str(), key) {
                        return Some(&fields[i].1);
                    }
                    assert(rest.drop_first() =~= jv_fields(fields@).skip(i + 1));
                    i += 1;
                }
                None
            },
            _ => None,
        }
    }

    /// The string stored under `key`, when this value is an object holding one.
    pub fn get_str(&self, key: &str) -> (r: Option<&String>)
        ensures
            match r {
                Some(s) => json_get_str(jv(*self), key@) == Some(s@),
                None => json_get_str(jv(*self), key@) is None,
            },
    {
        match self.get(key) {
            Some(JsonValue::Str(s)) => Some(s),
            _ => None,
        }
    }

    /// The boolean stored under `key`, when this value is an object holding one.
    pub fn get_bool(&self, key: &str) -> (r: Option<bool>)
        ensures
            match json_get(jv(*self), key@) {
                Some(Json::Bool(b)) => r == Some(b),
                _ => r is None,
            },
    {
        match self.get(key) {
            Some(JsonValue::Bool(b)) => Some(*b),
            _ => None,
        }
    }
}

/// A JSON string holding the characters of `s`.
pub fn jstr(s: &str) -> (r: JsonValue)
    ensures
        jv(r) == Json::Str(s@),
{
    JsonValue::Str(own(s))
}

/// A JSON string, or `null` when `s` is `None`.
pub fn jopt_str(s: Option<&String>) -> (r: JsonValue)
    ensures
        jv(r) == (match s {
            Some(t) => Json::Str(t@),
            None => Json::Null,
        }),
{
    match s {
        Some(t) => JsonValue::Str(t.clone()),
        None => JsonValue::Null,
    }
}

/// A JSON number, or `null` when `v` is `None`.
pub fn jopt_i64(v: Option<i64>) -> (r: JsonValue)
    ensures
        jv(r) == (match v {
            Some(t) => Json::Int(t as int),
            None => Json::Null,
        }),
{
    match v {
        Some(t) => JsonValue::Int(t),
        None => JsonValue::Null,
    }
}

/// A JSON array of strings.
pub fn jstr_array(items: &Vec<String>) -> (r: JsonValue)
    ensures
        jv(r) == Json::Array(Seq::new(items@.len(), |i: int| Json::Str(items@[i]@))),
{
    let mut out: Vec<JsonValue> = Vec::new();
    let mut i: usize = 0;
    while i < items.len()
        invariant
            i <= items@.len(),
            out@.len() == i,
            jv_items(out@) == Seq::new(i as nat, |k: int| Json::Str(items@[k]@)),
        decreases items.len() - i,
    {
        let ghost before = out@;
        out.push(JsonValue::Str(items[i].clone()));
        proof {
            lemma_jv_items_push(before, JsonValue::Str(items@[i as int]));
            assert(jv_items(out@) =~= Seq::new((i + 1) as nat, |k: int| Json::Str(items@[k]@)));
        }
        i += 1;
    }
    JsonValue::Array(out)
}

/// An object field `key: value`.
pub fn field(key: &str, value: JsonValue) -> (f: (String, JsonValue))
    ensures
        f.0@ == key@,
        f.1 == value,
{
    (own(key), value)
}

/// A JSON object with the given fields, in order.
pub fn object(fields: Vec<(String, JsonValue)>) -> (r: JsonValue)
    ensures
        jv(r) == Json::Object(jv_fields(fields@)),
{
    JsonValue::Object(fields)
}

/// Appends a field to a field list and tracks its model.
pub fn push_field(fields: &mut Vec<(String, JsonValue)>, key: &str, value: JsonValue)
    ensures
        jv_fields(final(fields)@) == jv_fields(old(fields)@).push((key@, jv(value))),
{
    let ghost before = fields@;
    let ghost v = value;
    let f = field(key, value);
    fields.push(f);
    proof {
        lemma_jv_fields_push(before, f);
    }
}

} // verus!
