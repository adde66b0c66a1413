//! Audit records of tool calls, with their arguments summarized: secrets
//! redacted, long texts, arrays and objects cut, deep nesting stopped.
use vstd::prelude::*;
use crate::clock::{new_uuid, now_millis};
use crate::json::{Json, JsonValue, jv, jv_fields, jv_items, lemma_jv_fields_push, lemma_jv_items_push};
use crate::task::opt_str;
use crate::text::{
    ascii_lower_seq, chars_of, clean_opt, clean_str, contains, decimal, decimal_string, own, push_str, str_contains,
    str_eq, string_of_range, to_ascii_lower,
};

verus! {

broadcast use vstd::std_specs::vec::group_vec_axioms;

/// Characters of a text kept in a summary.
pub const MAX_TEXT_CHARS: usize = 512;

/// Array items kept in a summary.
pub const MAX_ARRAY_ITEMS: usize = 20;

/// Object fields kept in a summary.
pub const MAX_OBJECT_KEYS: usize = 40;

/// Nesting depth at which a summary stops.
pub const MAX_REDACTION_DEPTH: usize = 4;

/// A stored tool call. `created_at` is in milliseconds since the Unix epoch.
#[derive(Debug)]
pub struct ToolInvocationRecord {
    pub id: String,
    pub task_id: Option<String>,
    pub step_id: Option<String>,
    pub approval_id: Option<String>,
    pub tool_name: String,
    pub args_summary: JsonValue,
    pub success: bool,
    pub error: Option<String>,
    pub duration_ms: u64,
    pub created_at: i64,
}

/// Recent tool calls.
#[derive(Debug)]
pub struct ToolInvocationListResponse {
    pub invocations: Vec<ToolInvocationRecord>,
}

/// A tool call as reported by the tool agent.
#[derive(Debug)]
pub struct ToolInvocationInput {
    pub task_id: Option<String>,
    pub step_id: Option<String>,
    pub approval_id: Option<String>,
    pub tool_name: String,
    pub args: JsonValue,
    pub success: bool,
    pub error: Option<String>,
    pub duration_ms: u64,
}

/// Whether an argument name suggests a secret (ignoring ASCII case).
pub open spec fn sensitive_key(key: Seq<char>) -> bool {
    let k = ascii_lower_seq(key);
    contains(k, "key"@) || contains(k, "token"@) || contains(k, "secret"@) || contains(k, "password"@) || contains(
        k,
        "credential"@,
    ) || contains(k, "authorization"@) || k == "auth"@
}

/// Whether an argument name suggests a secret (see `sensitive_key`).
pub fn is_sensitive_key(key: &str) -> (b: bool)
    ensures
        b == sensitive_key(key@),
{
    let k = to_ascii_lower(key);
    let s = k.as_str();
    str_contains(s, "key") || str_contains(s, "token") || str_contains(s, "secret") || str_contains(s, "password")
        || str_contains(s, "credential") || str_contains(s, "authorization") || str_eq(s, "auth")
}

/// A text cut to `MAX_TEXT_CHARS` characters, marked when it was longer.
pub open spec fn truncated_text(s: Seq<char>) -> Seq<char> {
    if s.len() > MAX_TEXT_CHARS {
        s.take(MAX_TEXT_CHARS as int) + "[truncated]"@
    } else {
        s
    }
}

/// A text cut to `MAX_TEXT_CHARS` characters (see `truncated_text`).
pub fn truncate_text(text: &str) -> (r: String)
    ensures
        r@ == truncated_text(text@),
{
    let cs = chars_of(text);
    if cs.len() > MAX_TEXT_CHARS {
        let mut r = string_of_range(&cs, 0, MAX_TEXT_CHARS);
        push_str(&mut r, "[truncated]");
        r
    } else {
        own(text)
    }
}

/// A text trimmed, or nothing when it is blank.
pub fn clean_optional_text(value: String) -> (r: Option<String>)
    ensures
        opt_str(r) == clean_opt(value@),
{
    clean_str(value.as_str())
}

/// The measure that bounds how deep a summary recurses.
pub open spec fn depth_left(depth: nat) -> nat {
    if depth <= 5 {
        (5 - depth) as nat
    } else {
        0
    }
}

/// The summary of `v`, found under `key` at nesting `depth`: a sensitive
/// key hides the value; at `MAX_REDACTION_DEPTH` the summary stops; texts
/// are cut; arrays keep their first items, each summarized, and say how many
/// more there were; objects keep their first fields, each summarized under
/// its name, and say how many more there were; other values stay.
pub open spec fn redacted(v: Json, key: Option<Seq<char>>, depth: nat) -> Json
    decreases depth_left(depth), 0nat, 0nat,
{
    if key matches Some(k) && sensitive_key(k) {
        Json::Str("[redacted]"@)
    } else if depth >= MAX_REDACTION_DEPTH {
        Json::Str("[max depth reached]"@)
    } else {
        match v {
            Json::Str(s) => Json::Str(truncated_text(s)),
            Json::Array(items) => Json::Array(
                redacted_items(items.take(min_len(items.len(), MAX_ARRAY_ITEMS as nat) as int), depth + 1)
                    + if items.len() > MAX_ARRAY_ITEMS {
                    seq![Json::Str("["@ + decimal((items.len() - MAX_ARRAY_ITEMS) as nat) + " more items]"@)]
                } else {
                    Seq::empty()
                },
            ),
            Json::Object(fields) => Json::Object(
                redacted_fields(fields.take(min_len(fields.len(), MAX_OBJECT_KEYS as nat) as int), depth + 1)
                    + if fields.len() > MAX_OBJECT_KEYS {
                    seq![
                        (
                            "_truncated"@,
                            Json::Str(decimal((fields.len() - MAX_OBJECT_KEYS) as nat) + " more keys"@),
                        ),
                    ]
                } else {
                    Seq::empty()
                },
            ),
            other => other,
        }
    }
}

/// The smaller of two lengths.
pub open spec fn min_len(a: nat, b: nat) -> nat {
    if a < b {
        a
    } else {
        b
    }
}

/// Array items, each summarized with no key at `depth`.
pub open spec fn redacted_items(items: Seq<Json>, depth: nat) -> Seq<Json>
    decreases depth_left(depth), 1nat, items.len(),
{
    if items.len() == 0 {
        Seq::empty()
    } else {
        redacted_items(items.drop_last(), depth).push(redacted(items.last(), None, depth))
    }
}

/// Object fields, each summarized under its name at `depth`.
pub open spec fn redacted_fields(fields: Seq<(Seq<char>, Json)>, depth: nat) -> Seq<(Seq<char>, Json)>
    decreases depth_left(depth), 1nat, fields.len(),
{
    if fields.len() == 0 {
        Seq::empty()
    } else {
        redacted_fields(fields.drop_last(), depth).push(
            (fields.last().0, redacted(fields.last().1, Some(fields.last().0), depth)),
        )
    }
}

/// The summary of a value (see `redacted`).
pub fn redact_value(value: &JsonValue, key: Option<&str>, depth: usize) -> (r: JsonValue)
    ensures
        jv(r) == redacted(
            jv(*value),
            match key {
                Some(k) => Some(k@),
                None => None,
            },
            depth as nat,
        ),
    decreases depth_left(depth as nat),
{
    match key {
        Some(k) => {
            if is_sensitive_key(k) {
                return JsonValue::Str(own("[redacted]"));
            }
        },
        None => {},
    }
    if depth >= MAX_REDACTION_DEPTH {
        return JsonValue::Str(own("[max depth reached]"));
    }
    match value {
        JsonValue::Str(text) => JsonValue::Str(truncate_text(text.as_str())),
        JsonValue::Array(items) => {
            let ghost iv = jv_items(items@);
            proof {
                crate::json::lemma_jv_items_len(items@);
            }
            let keep = if items.len() < MAX_ARRAY_ITEMS {
                items.len()
            } else {
                MAX_ARRAY_ITEMS
            };
            let mut out: Vec<JsonValue> = Vec::new();
            let mut i: usize = 0;
            while i < keep
                invariant
                    keep <= items@.len(),
                    i <= keep,
                    depth < MAX_REDACTION_DEPTH,
                    iv == jv_items(items@),
                    iv.len() == items@.len(),
                    forall|j: int| 0 <= j < items@.len() ==> #[trigger] iv[j] == jv(items@[j]),
                    jv_items(out@) == redacted_items(iv.take(i as int), (depth + 1) as nat),
                decreases keep - i,
            {
                let c = redact_value(&items[i], None, depth + 1);
                proof {
                    lemma_jv_items_push(out@, c);
                    assert(iv.take(i + 1).drop_last() =~= iv.take(i as int));
                }
                out.push(c);
                i += 1;
            }
            if items.len() > MAX_ARRAY_ITEMS {
                let mut note = own("[");
                push_str(&mut note, decimal_string((items.len() - MAX_ARRAY_ITEMS) as u64).as_str());
                push_str(&mut note, " more items]");
                let nv = JsonValue::Str(note);
                proof {
                    lemma_jv_items_push(out@, nv);
                }
                out.push(nv);
            }
            assert(jv_items(out@) =~= redacted_items(
                iv.take(min_len(iv.len(), MAX_ARRAY_ITEMS as nat) as int),
                (depth + 1) as nat,
            ) + if iv.len() > MAX_ARRAY_ITEMS {
                seq![Json::Str("["@ + decimal((iv.len() - MAX_ARRAY_ITEMS) as nat) + " more items]"@)]
            } else {
                Seq::empty()
            });
            JsonValue::Array(out)
        },
        JsonValue::Object(fields) => {
            let ghost fv = jv_fields(fields@);
            proof {
                crate::json::lemma_jv_fields_len(fields@);
            }
            let keep = if fields.len() < MAX_OBJECT_KEYS {
                fields.len()
            } else {
                MAX_OBJECT_KEYS
            };
            let mut out: Vec<(String, JsonValue)> = Vec::new();
            let mut i: usize = 0;
            while i < keep
                invariant
                    keep <= fields@.len(),
                    i <= keep,
                    depth < MAX_REDACTION_DEPTH,
                    fv == jv_fields(fields@),
                    fv.len() == fields@.len(),
                    forall|j: int|
                        0 <= j < fields@.len() ==> #[trigger] fv[j] == (fields@[j].0@, jv(fields@[j].1)),
                    jv_fields(out@) == redacted_fields(fv.take(i as int), (depth + 1) as nat),
                decreases keep - i,
            {
                let (k, v) = (&fields[i].0, &fields[i].1);
                let c = redact_value(v, Some(k.as_str()), depth + 1);
                let f = (own(k.as_str()), c);
                proof {
                    lemma_jv_fields_push(out@, f);
                    assert(fv.take(i + 1).drop_last() =~= fv.take(i as int));
                }
                out.push(f);
                i += 1;
            }
            if fields.len() > MAX_OBJECT_KEYS {
                let mut note = decimal_string((fields.len() - MAX_OBJECT_KEYS) as u64);
                push_str(&mut note, " more keys");
                let f = (own("_truncated"), JsonValue::Str(note));
                proof {
                    lemma_jv_fields_push(out@, f);
                }
                out.push(f);
            }
            assert(jv_fields(out@) =~= redacted_fields(
                fv.take(min_len(fv.len(), MAX_OBJECT_KEYS as nat) as int),
                (depth + 1) as nat,
            ) + if fv.len() > MAX_OBJECT_KEYS {
                seq![("_truncated"@, Json::Str(decimal((fv.len() - MAX_OBJECT_KEYS) as nat) + " more keys"@))]
            } else {
                Seq::empty()
            });
            JsonValue::Object(out)
        },
        other => other.deep_clone(),
    }
}

/// The summary of a tool call's arguments.
pub fn summarize_tool_args(args: &JsonValue) -> (r: JsonValue)
    ensures
        jv(r) == redacted(jv(*args), None, 0),
{
    redact_value(args, None, 0)
}

impl ToolInvocationRecord {
    /// The record of a reported tool call: a fresh id, the cleaned ids and
    /// error, the summarized arguments, and the current time.
    pub fn from_input(input: ToolInvocationInput) -> (r: Self)
        ensures
            opt_str(r.task_id) == (match input.task_id {
                Some(s) => clean_opt(s@),
                None => None,
            }),
            opt_str(r.step_id) == (match input.step_id {
                Some(s) => clean_opt(s@),
                None => None,
            }),
            opt_str(r.approval_id) == (match input.approval_id {
                Some(s) => clean_opt(s@),
                None => None,
            }),
            r.tool_name == input.tool_name,
            jv(r.args_summary) == redacted(jv(input.args), None, 0),
            r.success == input.success,
            opt_str(r.error) == (match input.error {
                Some(s) => clean_opt(s@),
                None => None,
            }),
            r.duration_ms == input.duration_ms,
    {
        let args_summary = summarize_tool_args(&input.args);
        let ToolInvocationInput { task_id, step_id, approval_id, tool_name, args: _, success, error, duration_ms } =
            input;
        ToolInvocationRecord {
            id: new_uuid(),
            task_id: match task_id {
                Some(s) => clean_optional_text(s),
                None => None,
            },
            step_id: match step_id {
                Some(s) => clean_optional_text(s),
                None => None,
            },
            approval_id: match approval_id {
                Some(s) => clean_optional_text(s),
                None => None,
            },
            tool_name,
            args_summary,
            success,
            error: match error {
                Some(s) => clean_optional_text(s),
                None => None,
            },
            duration_ms,
            created_at: now_millis(),
        }
    }
}

} // verus!
