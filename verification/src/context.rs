//! Merging the JSON contexts that travel with agent messages.
use vstd::prelude::*;
use crate::json::{Json, JsonValue, jv, jv_fields, lemma_jv_fields_len, lemma_jv_fields_push};
use crate::text::{own, str_eq};

verus! {

broadcast use vstd::std_specs::vec::group_vec_axioms;

/// `fields` with `key` set to `value` from position `i` on: the first field
/// named `key` gets the value; without one, the field is added at the end.
pub open spec fn set_field_from(fields: Seq<(Seq<char>, Json)>, key: Seq<char>, value: Json, i: int) -> Seq<(Seq<char>, Json)>
    decreases fields.len() - i,
{
    if i < 0 || i >= fields.len() {
        fields.push((key, value))
    } else if fields[i].0 == key {
        fields.update(i, (key, value))
    } else {
        set_field_from(fields, key, value, i + 1)
    }
}

/// `base` with the fields of `extra` from position `j` on set in turn.
pub open spec fn merge_fields_from(base: Seq<(Seq<char>, Json)>, extra: Seq<(Seq<char>, Json)>, j: int) -> Seq<(Seq<char>, Json)>
    decreases extra.len() - j,
{
    if j < 0 || j >= extra.len() {
        base
    } else {
        merge_fields_from(set_field_from(base, extra[j].0, extra[j].1, 0), extra, j + 1)
    }
}

/// The context of a message after more context is added: absent extra
/// context changes nothing; an absent base is replaced; two objects merge,
/// the extra fields winning; anything else is kept side by side under
/// `base` and `extra`.
pub open spec fn merged_context(base: Json, extra: Json) -> Json {
    match (base, extra) {
        (b, Json::Null) => b,
        (Json::Null, e) => e,
        (Json::Object(b), Json::Object(e)) => Json::Object(merge_fields_from(b, e, 0)),
        (b, e) => Json::Object(seq![("base"@, b), ("extra"@, e)]),
    }
}

#[verifier::loop_isolation(false)]
fn set_field(fields: &mut Vec<(String, JsonValue)>, key: String, value: JsonValue)
    ensures
        jv_fields(final(fields)@) == set_field_from(jv_fields(old(fields)@), key@, jv(value), 0),
{
    let ghost f0 = jv_fields(fields@);
    proof {
        lemma_jv_fields_len(fields@);
    }
    let mut i: usize = 0;
    while i < fields.len()
        invariant
            i <= fields@.len(),
            f0 == jv_fields(fields@),
            f0.len() == fields@.len(),
            forall|k: int| 0 <= k < fields@.len() ==> #[trigger] f0[k] == (fields@[k].0@, jv(fields@[k].1)),
            set_field_from(f0, key@, jv(value), 0) == set_field_from(f0, key@, jv(value), i as int),
        decreases fields.len() - i,
    {
        if str_eq(fields[i].0.as_str(), key.as_str()) {
            let ghost kv = key@;
            let ghost vv = jv(value);
            let ghost old_fields = fields@;
            fields.set(i, (key, value));
            proof {
                lemma_jv_fields_len(fields@);
                assert(jv_fields(fields@) =~= f0.update(i as int, (kv, vv))) by {
                    assert forall|k: int| 0 <= k < fields@.len() implies #[trigger] jv_fields(fields@)[k]
                        == f0.update(i as int, (kv, vv))[k] by {
                        if k != i {
                            assert(fields@[k] == old_fields[k]);
                        }
                    }
                }
            }
            return;
        }
        i += 1;
    }
    proof {
        lemma_jv_fields_push(fields@, (key, value));
    }
    fields.push((key, value));
}

/// The context of a message after more context is added (see
/// `merged_context`).
#[verifier::loop_isolation(false)]
pub fn merge_message_context(base: JsonValue, extra: JsonValue) -> (r: JsonValue)
    ensures
        jv(r) == merged_context(jv(base), jv(extra)),
{
    match (base, extra) {
        (b, JsonValue::Null) => b,
        (JsonValue::Null, e) => e,
        (JsonValue::Object(b), JsonValue::Object(e)) => {
            let ghost e0 = jv_fields(e@);
            let ghost ev = e@;
            let mut out = b;
            let mut rest = e;
            let n = rest.len();
            let mut j: usize = 0;
            proof {
                lemma_jv_fields_len(ev);
                assert(rest@.skip(0) =~= ev);
            }
            while j < n
                invariant
                    n == ev.len(),
                    j <= n,
                    rest@ == ev.skip(j as int),
                    e0 == jv_fields(ev),
                    e0.len() == ev.len(),
                    forall|k: int| 0 <= k < ev.len() ==> #[trigger] e0[k] == (ev[k].0@, jv(ev[k].1)),
                    merge_fields_from(jv_fields(b@), e0, 0) == merge_fields_from(jv_fields(out@), e0, j as int),
                decreases n - j,
            {
                let (k, v) = rest.remove(0);
                proof {
                    assert((k, v) == ev[j as int]);
                    assert(rest@ =~= ev.skip(j + 1));
                }
                set_field(&mut out, k, v);
                j += 1;
            }
            JsonValue::Object(out)
        },
        (b, e) => {
            let mut f: Vec<(String, JsonValue)> = Vec::new();
            let ghost jb = jv(b);
            let ghost je = jv(e);
            let fb = (own("base"), b);
            proof {
                lemma_jv_fields_push(f@, fb);
            }
            f.push(fb);
            let fe = (own("extra"), e);
            proof {
                lemma_jv_fields_push(f@, fe);
            }
            f.push(fe);
            assert(jv_fields(f@) =~= seq![("base"@, jb), ("extra"@, je)]);
            JsonValue::Object(f)
        },
    }
}

/// The context a reply carries after more context is added: two objects
/// merge, the extra fields winning; otherwise the extra context replaces
/// the old one.
pub open spec fn merged_reply_context(base: Json, next: Json) -> Json {
    match (base, next) {
        (Json::Object(b), Json::Object(n)) => Json::Object(merge_fields_from(b, n, 0)),
        (_, n) => n,
    }
}

/// The context a reply carries after more context is added (see
/// `merged_reply_context`).
pub fn merge_reply_context(base: JsonValue, next: JsonValue) -> (r: JsonValue)
    ensures
        jv(r) == merged_reply_context(jv(base), jv(next)),
{
    match (base, next) {
        (JsonValue::Object(b), JsonValue::Object(n)) => {
            merge_message_context(JsonValue::Object(b), JsonValue::Object(n))
        },
        (_, n) => n,
    }
}

} // verus!
