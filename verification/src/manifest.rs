//! Reading the project's manifests: JSON and TOML text parsed by their
//! libraries, and the summaries the project snapshot shows for them.
use vstd::prelude::*;
use crate::error::AgentError;
use crate::json::{Json, JsonValue, jv, jv_fields, json_get, lemma_jv_fields_len};
use crate::project::{
    or_unknown, package_tech, summarize_cargo_manifest, summarize_package_manifest, summarize_tauri_config,
    ProjectSnapshot, SnapshotView,
};
use crate::task::strs;
use crate::text::{concat3, decimal, push_str};

verus! {

broadcast use vstd::std_specs::vec::group_vec_axioms;

/// serde_json's parsed value, carried through the parse wrapper only.
#[verifier::external_type_specification]
#[verifier::external_body]
pub struct ExJsonDocument(serde_json::Value);

/// The toml crate's parsed value, carried through the parse wrapper only.
#[verifier::external_type_specification]
#[verifier::external_body]
pub struct ExTomlDocument(toml::Value);

/// What `serde_json::from_str::<serde_json::Value>` gives for a text, as a
/// model: `None` when the text is not JSON. Numbers that are not integers
/// are kept as their text; objects list their keys in serde_json's order.
pub uninterp spec fn json_parse(text: Seq<char>) -> Option<Json>;

/// What `toml::Value::from_str` gives for a document, as a model: `None`
/// when the text is not TOML. Tables become objects, floats and dates are
/// kept as text (floats as numbers, dates as strings).
pub uninterp spec fn toml_parse(text: Seq<char>) -> Option<Json>;

/// Converts a parsed JSON value, variant by variant. Nothing is stated of
/// it: `parse_json_text` states the result of parsing and converting.
#[verifier::external_body]
fn json_from_serde(v: serde_json::Value) -> JsonValue {
    match v {
        serde_json::Value::Null => JsonValue::Null,
        serde_json::Value::Bool(b) => JsonValue::Bool(b),
        serde_json::Value::Number(n) => match (n.as_i64(), n.as_u64()) {
            (Some(i), _) => JsonValue::Int(i),
            (None, Some(u)) => JsonValue::UInt(u),
            (None, None) => JsonValue::Number(n.to_string()),
        },
        serde_json::Value::String(s) => JsonValue::Str(s),
        serde_json::Value::Array(items) => JsonValue::Array(items.into_iter().map(json_from_serde).collect()),
        serde_json::Value::Object(map) => JsonValue::Object(map.into_iter().map(|(k, v)| (k, json_from_serde(v))).collect()),
    }
}

/// Converts a parsed TOML value, variant by variant. Nothing is stated of
/// it: `parse_toml_text` states the result of parsing and converting.
#[verifier::external_body]
fn json_from_toml(v: toml::Value) -> JsonValue {
    match v {
        toml::Value::String(s) => JsonValue::Str(s),
        toml::Value::Integer(i) => JsonValue::Int(i),
        toml::Value::Float(x) => JsonValue::Number(x.to_string()),
        toml::Value::Boolean(b) => JsonValue::Bool(b),
        toml::Value::Datetime(d) => JsonValue::Str(d.to_string()),
        toml::Value::Array(items) => JsonValue::Array(items.into_iter().map(json_from_toml).collect()),
        toml::Value::Table(map) => JsonValue::Object(map.into_iter().map(|(k, v)| (k, json_from_toml(v))).collect()),
    }
}

/// Calls `serde_json::from_str` into a `serde_json::Value` and converts the
/// result: the value is `json_parse` of the text. The error's text is
/// serde_json's message; nothing is stated of it.
#[verifier::external_body]
pub fn parse_json_text(text: &str) -> (r: Result<JsonValue, String>)
    ensures
        match r {
            Ok(v) => json_parse(text@) == Some(jv(v)),
            Err(_) => json_parse(text@) is None,
        },
{
    match serde_json::from_str::<serde_json::Value>(text) {
        Ok(v) => Ok(json_from_serde(v)),
        Err(e) => Err(e.to_string()),
    }
}

/// Calls `str::parse::<toml::Value>` and converts the result: the value is
/// `toml_parse` of the text. The error's text is the toml crate's message;
/// nothing is stated of it.
#[verifier::external_body]
pub fn parse_toml_text(text: &str) -> (r: Result<JsonValue, String>)
    ensures
        match r {
            Ok(v) => toml_parse(text@) == Some(jv(v)),
            Err(_) => toml_parse(text@) is None,
        },
{
    match text.parse::<toml::Value>() {
        Ok(v) => Ok(json_from_toml(v)),
        Err(e) => Err(e.to_string()),
    }
}

/// The string under `key` of a value, if the value is there and holds one.
pub open spec fn str_field(j: Option<Json>, key: Seq<char>) -> Option<Seq<char>> {
    match j {
        Some(x) => match json_get(x, key) {
            Some(Json::Str(s)) => Some(s),
            _ => None,
        },
        None => None,
    }
}

/// The keys of an object, nothing for other values.
pub open spec fn object_keys(j: Option<Json>) -> Seq<Seq<char>> {
    match j {
        Some(Json::Object(fields)) => fields.map_values(|f: (Seq<char>, Json)| f.0),
        _ => Seq::empty(),
    }
}

/// The summary of a Cargo manifest: its package name and version (`unknown`
/// when missing) and how many dependencies it lists.
pub open spec fn cargo_summary(v: Json) -> Seq<char> {
    let package = json_get(v, "package"@);
    "package "@ + or_unknown(str_field(package, "name"@)) + " "@ + or_unknown(str_field(package, "version"@))
        + ", "@ + decimal(object_keys(json_get(v, "dependencies"@)).len()) + " dependencies"@
}

/// The summary of a Tauri configuration: product name and identifier.
pub open spec fn tauri_summary(v: Json) -> Seq<char> {
    "product "@ + or_unknown(str_field(Some(v), "productName"@)) + ", identifier "@ + or_unknown(
        str_field(Some(v), "identifier"@),
    )
}

/// The summary of a `package.json`: name, version, and how many
/// dependencies and dev dependencies it lists.
pub open spec fn package_summary(v: Json) -> Seq<char> {
    "package "@ + or_unknown(str_field(Some(v), "name"@)) + " "@ + or_unknown(str_field(Some(v), "version"@))
        + ", "@ + decimal(object_keys(json_get(v, "dependencies"@)).len()) + " dependencies, "@ + decimal(
        object_keys(json_get(v, "devDependencies"@)).len(),
    ) + " devDependencies"@
}

/// The error of a manifest that does not parse: the kind of file, its path,
/// then the parser's message.
pub open spec fn parse_error_is(e: AgentError, kind: Seq<char>, path: Seq<char>) -> bool {
    e matches AgentError::Internal(m) && exists|detail: Seq<char>|
        m@ == "解析 "@ + kind + " 文件失败 ["@ + path + "]: "@ + detail
}

fn parse_error(kind: &str, path: &str, detail: &str) -> (e: AgentError)
    ensures
        e matches AgentError::Internal(m) && m@ == "解析 "@ + kind@ + " 文件失败 ["@ + path@ + "]: "@ + detail@,
{
    let mut m = concat3("解析 ", kind, " 文件失败 [");
    push_str(&mut m, path);
    push_str(&mut m, "]: ");
    push_str(&mut m, detail);
    AgentError::Internal(m)
}

fn str_under<'a>(v: Option<&'a JsonValue>, key: &str) -> (r: Option<&'a str>)
    ensures
        crate::project::opt_text(r) == str_field(
            match v {
                Some(x) => Some(jv(*x)),
                None => None,
            },
            key@,
        ),
{
    match v {
        Some(x) => match x.get(key) {
            Some(JsonValue::Str(s)) => Some(s.as_str()),
            _ => None,
        },
        None => None,
    }
}

fn keys_under(v: Option<&JsonValue>) -> (r: Vec<String>)
    ensures
        strs(r@) == object_keys(
            match v {
                Some(x) => Some(jv(*x)),
                None => None,
            },
        ),
{
    let mut out: Vec<String> = Vec::new();
    match v {
        Some(JsonValue::Object(fields)) => {
            proof {
                lemma_jv_fields_len(fields@);
            }
            let ghost fv = jv_fields(fields@);
            let mut i: usize = 0;
            while i < fields.len()
                invariant
                    i <= fields@.len(),
                    fv == jv_fields(fields@),
                    fv.len() == fields@.len(),
                    forall|k: int| 0 <= k < fields@.len() ==> #[trigger] fv[k] == (fields@[k].0@, jv(fields@[k].1)),
                    strs(out@) == fv.take(i as int).map_values(|f: (Seq<char>, Json)| f.0),
                decreases fields.len() - i,
            {
                let ghost before = out@;
                out.push(fields[i].0.clone());
                proof {
                    assert(strs(out@) =~= strs(before).push(fields@[i as int].0@));
                    assert(fv.take(i + 1).map_values(|f: (Seq<char>, Json)| f.0) =~= fv.take(i as int).map_values(
                        |f: (Seq<char>, Json)| f.0,
                    ).push(fv[i as int].0));
                }
                i += 1;
            }
            assert(fv.take(fields@.len() as int) =~= fv);
        },
        _ => {
            assert(strs(out@) =~= Seq::empty());
        },
    }
    out
}

/// The summary of a Cargo manifest's text (see `cargo_summary`); an error
/// naming the file when the text is not TOML.
pub fn summarize_cargo_manifest_text(path: &str, raw: &str) -> (r: Result<String, AgentError>)
    ensures
        match toml_parse(raw@) {
            Some(v) => r matches Ok(s) && s@ == cargo_summary(v),
            None => r matches Err(e) && parse_error_is(e, "TOML"@, path@),
        },
{
    let v = match parse_toml_text(raw) {
        Ok(v) => v,
        Err(detail) => {
            return Err(parse_error("TOML", path, detail.as_str()));
        },
    };
    let package = v.get("package");
    let name = str_under(package, "name");
    let version = str_under(package, "version");
    let deps = keys_under(v.get("dependencies"));
    Ok(summarize_cargo_manifest(name, version, deps.len() as u64))
}

/// The summary of a Tauri configuration's text (see `tauri_summary`); an
/// error naming the file when the text is not JSON.
pub fn summarize_tauri_config_text(path: &str, raw: &str) -> (r: Result<String, AgentError>)
    ensures
        match json_parse(raw@) {
            Some(v) => r matches Ok(s) && s@ == tauri_summary(v),
            None => r matches Err(e) && parse_error_is(e, "JSON"@, path@),
        },
{
    let v = match parse_json_text(raw) {
        Ok(v) => v,
        Err(detail) => {
            return Err(parse_error("JSON", path, detail.as_str()));
        },
    };
    let name = str_under(Some(&v), "productName");
    let identifier = str_under(Some(&v), "identifier");
    Ok(summarize_tauri_config(name, identifier))
}

/// The summary of a `package.json`'s text (see `package_summary`), which
/// also records the technologies its dependencies reveal (see
/// `package_tech`); an error naming the file, changing nothing, when the
/// text is not JSON.
pub fn summarize_package_manifest_text(snapshot: &mut ProjectSnapshot, path: &str, raw: &str) -> (r: Result<
    String,
    AgentError,
>)
    ensures
        match json_parse(raw@) {
            Some(v) => r matches Ok(s) && s@ == package_summary(v) && final(snapshot)@ == (SnapshotView {
                tech_stack: old(snapshot)@.tech_stack + package_tech(
                    object_keys(json_get(v, "dependencies"@)),
                    object_keys(json_get(v, "devDependencies"@)),
                ),
                ..old(snapshot)@
            }),
            None => r matches Err(e) && parse_error_is(e, "JSON"@, path@) && final(snapshot)@ == old(snapshot)@,
        },
{
    let v = match parse_json_text(raw) {
        Ok(v) => v,
        Err(detail) => {
            return Err(parse_error("JSON", path, detail.as_str()));
        },
    };
    let name = str_under(Some(&v), "name");
    let version = str_under(Some(&v), "version");
    let deps = keys_under(v.get("dependencies"));
    let dev = keys_under(v.get("devDependencies"));
    Ok(summarize_package_manifest(snapshot, name, version, &deps, &dev))
}

} // verus!
