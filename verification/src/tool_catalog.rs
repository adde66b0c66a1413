//! The built-in tools as the tool agent describes them, and what each tool
//! reads from its arguments and answers (the calculator's arithmetic, the
//! clock and the file system stay with the caller).
use vstd::prelude::*;
use crate::json::{Json, JsonValue, jv, jv_fields, json_get, push_field, object, jstr};
use crate::text::{concat3, decimal, decimal_string, own, push_str, str_eq};

verus! {

/// A tool's name, what it does and the JSON schema of its arguments.
#[derive(Debug)]
pub struct ToolDescription {
    pub name: String,
    pub description: String,
    pub parameters: JsonValue,
}

/// `{"description": d, "type": t}`, keys in sorted order.
pub open spec fn prop_json(t: Seq<char>, d: Seq<char>) -> Json {
    Json::Object(seq![("description"@, Json::Str(d)), ("type"@, Json::Str(t))])
}

/// An object schema with the given properties and required names.
pub open spec fn schema_json(props: Seq<(Seq<char>, Json)>, required: Seq<Seq<char>>) -> Json {
    Json::Object(
        seq![("properties"@, Json::Object(props))] + if required.len() > 0 {
            seq![("required"@, Json::Array(required.map_values(|r: Seq<char>| Json::Str(r))))]
        } else {
            Seq::empty()
        } + seq![("type"@, Json::Str("object"@))],
    )
}

/// The built-in tools: name, description and argument schema.
pub open spec fn builtin_tools() -> Seq<(Seq<char>, Seq<char>, Json)> {
    seq![
        (
            "calculator"@,
            "执行数学表达式计算"@,
            schema_json(seq![("expression"@, prop_json("string"@, "数学表达式，如 '2 + 3 * 4'"@))], seq!["expression"@]),
        ),
        (
            "datetime"@,
            "获取当前日期和时间"@,
            schema_json(
                seq![("format"@, prop_json("string"@, "日期格式：'iso' | 'readable' | 'timestamp'"@))],
                Seq::empty(),
            ),
        ),
        (
            "file_read"@,
            "读取 workspace 内的普通文本文件内容"@,
            schema_json(seq![("path"@, prop_json("string"@, "workspace 内相对文件路径"@))], seq!["path"@]),
        ),
        (
            "web_search"@,
            "搜索互联网信息（需接入搜索引擎 API）"@,
            schema_json(
                seq![
                    (
                        "max_results"@,
                        Json::Object(
                            seq![
                                ("default"@, Json::Int(5)),
                                ("description"@, Json::Str("最大结果数"@)),
                                ("type"@, Json::Str("integer"@)),
                            ],
                        ),
                    ),
                    ("query"@, prop_json("string"@, "搜索关键词"@)),
                ],
                seq!["query"@],
            ),
        ),
    ]
}

fn prop_value(t: &str, d: &str) -> (r: JsonValue)
    ensures
        jv(r) == prop_json(t@, d@),
{
    let mut f: Vec<(String, JsonValue)> = Vec::new();
    assert(jv_fields(f@) =~= Seq::empty());
    push_field(&mut f, "description", jstr(d));
    push_field(&mut f, "type", jstr(t));
    assert(jv_fields(f@) =~= prop_json(t@, d@)->Object_0);
    object(f)
}

fn schema_value(props: Vec<(String, JsonValue)>, required: Option<&str>) -> (r: JsonValue)
    ensures
        jv(r) == schema_json(
            jv_fields(props@),
            match required {
                Some(x) => seq![x@],
                None => Seq::empty(),
            },
        ),
{
    let mut f: Vec<(String, JsonValue)> = Vec::new();
    assert(jv_fields(f@) =~= Seq::empty());
    push_field(&mut f, "properties", object(props));
    match required {
        Some(x) => {
            let mut items: Vec<JsonValue> = Vec::new();
            items.push(jstr(x));
            proof {
                crate::json::lemma_jv_items_len(items@);
                assert(crate::json::jv_items(items@) =~= seq![x@].map_values(|r: Seq<char>| Json::Str(r)));
            }
            push_field(&mut f, "required", JsonValue::Array(items));
        },
        None => {},
    }
    push_field(&mut f, "type", jstr("object"));
    let ghost req = match required {
        Some(x) => seq![x@],
        None => Seq::<Seq<char>>::empty(),
    };
    assert(jv_fields(f@) =~= schema_json(jv_fields(props@), req)->Object_0);
    object(f)
}

fn one_prop(name: &str, value: JsonValue) -> (r: Vec<(String, JsonValue)>)
    ensures
        jv_fields(r@) == seq![(name@, jv(value))],
{
    let mut f: Vec<(String, JsonValue)> = Vec::new();
    assert(jv_fields(f@) =~= Seq::empty());
    push_field(&mut f, name, value);
    assert(jv_fields(f@) =~= seq![(name@, jv(value))]);
    f
}

fn describe(name: &str, description: &str, parameters: JsonValue) -> (d: ToolDescription)
    ensures
        d.name@ == name@,
        d.description@ == description@,
        d.parameters == parameters,
{
    ToolDescription { name: own(name), description: own(description), parameters }
}

/// The built-in tools' descriptions, in the order of `builtin_tools`.
pub fn builtin_tool_descriptions() -> (r: Vec<ToolDescription>)
    ensures
        r@.len() == builtin_tools().len(),
        forall|i: int|
            0 <= i < r@.len() ==> (#[trigger] r@[i]).name@ == builtin_tools()[i].0 && r@[i].description@
                == builtin_tools()[i].1 && jv(r@[i].parameters) == builtin_tools()[i].2,
{
    let calculator = schema_value(
        one_prop("expression", prop_value("string", "数学表达式，如 '2 + 3 * 4'")),
        Some("expression"),
    );
    let datetime = schema_value(
        one_prop("format", prop_value("string", "日期格式：'iso' | 'readable' | 'timestamp'")),
        None,
    );
    let file_read = schema_value(one_prop("path", prop_value("string", "workspace 内相对文件路径")), Some("path"));
    let mut max: Vec<(String, JsonValue)> = Vec::new();
    assert(jv_fields(max@) =~= Seq::empty());
    push_field(&mut max, "default", JsonValue::Int(5));
    push_field(&mut max, "description", jstr("最大结果数"));
    push_field(&mut max, "type", jstr("integer"));
    assert(jv_fields(max@) =~= seq![
        ("default"@, Json::Int(5)),
        ("description"@, Json::Str("最大结果数"@)),
        ("type"@, Json::Str("integer"@)),
    ]);
    let mut search_props: Vec<(String, JsonValue)> = Vec::new();
    assert(jv_fields(search_props@) =~= Seq::empty());
    push_field(&mut search_props, "max_results", object(max));
    push_field(&mut search_props, "query", prop_value("string", "搜索关键词"));
    assert(jv_fields(search_props@) =~= seq![
        (
            "max_results"@,
            Json::Object(
                seq![
                    ("default"@, Json::Int(5)),
                    ("description"@, Json::Str("最大结果数"@)),
                    ("type"@, Json::Str("integer"@)),
                ],
            ),
        ),
        ("query"@, prop_json("string"@, "搜索关键词"@)),
    ]);
    let web_search = schema_value(search_props, Some("query"));
    let mut r: Vec<ToolDescription> = Vec::new();
    r.push(describe("calculator", "执行数学表达式计算", calculator));
    r.push(describe("datetime", "获取当前日期和时间", datetime));
    r.push(describe("file_read", "读取 workspace 内的普通文本文件内容", file_read));
    r.push(describe("web_search", "搜索互联网信息（需接入搜索引擎 API）", web_search));
    r
}

/// The string argument `key`, or the error naming it as missing.
pub open spec fn required_arg(args: Json, key: Seq<char>) -> Result<Seq<char>, Seq<char>> {
    match json_get(args, key) {
        Some(Json::Str(s)) => Ok(s),
        _ => Err("缺少 "@ + key + " 参数"@),
    }
}

/// The string argument `key` of a tool call (see `required_arg`).
pub fn required_str_arg(args: &JsonValue, key: &str) -> (r: Result<String, String>)
    ensures
        match r {
            Ok(s) => required_arg(jv(*args), key@) == Ok::<Seq<char>, Seq<char>>(s@),
            Err(e) => required_arg(jv(*args), key@) == Err::<Seq<char>, Seq<char>>(e@),
        },
{
    match args.get(key) {
        Some(JsonValue::Str(s)) => Ok(s.clone()),
        _ => Err(concat3("缺少 ", key, " 参数")),
    }
}

/// How the date and time tool writes the time.
#[derive(Debug, PartialEq, Eq, Structural)]
pub enum DatetimeFormat {
    /// `YYYY年MM月DD日 HH:MM:SS`.
    Readable,
    /// Seconds since the Unix epoch.
    Timestamp,
    /// RFC 3339.
    Iso,
}

/// The format the arguments ask for: `readable` and `timestamp` by name,
/// RFC 3339 otherwise.
pub fn datetime_format(args: &JsonValue) -> (r: DatetimeFormat)
    ensures
        r == match json_get(jv(*args), "format"@) {
            Some(Json::Str(f)) => if f == "readable"@ {
                DatetimeFormat::Readable
            } else if f == "timestamp"@ {
                DatetimeFormat::Timestamp
            } else {
                DatetimeFormat::Iso
            },
            _ => DatetimeFormat::Iso,
        },
{
    match args.get("format") {
        Some(JsonValue::Str(f)) => if str_eq(f.as_str(), "readable") {
            DatetimeFormat::Readable
        } else if str_eq(f.as_str(), "timestamp") {
            DatetimeFormat::Timestamp
        } else {
            DatetimeFormat::Iso
        },
        _ => DatetimeFormat::Iso,
    }
}

/// The date and time tool's answer for the written time `text`.
pub fn datetime_result(text: String) -> (r: JsonValue)
    ensures
        jv(r) == Json::Object(seq![("datetime"@, Json::Str(text@)), ("timezone"@, Json::Str("UTC"@))]),
{
    let mut f: Vec<(String, JsonValue)> = Vec::new();
    assert(jv_fields(f@) =~= Seq::empty());
    push_field(&mut f, "datetime", JsonValue::Str(text));
    push_field(&mut f, "timezone", jstr("UTC"));
    assert(jv_fields(f@) =~= seq![("datetime"@, Json::Str(text@)), ("timezone"@, Json::Str("UTC"@))]);
    object(f)
}

/// The simulated search's answer for `query`, listing one placeholder
/// result that names how many results were asked for.
pub open spec fn web_search_json(query: Seq<char>, max: int) -> Json {
    Json::Object(
        seq![
            ("note"@, Json::Str("请接入真实搜索引擎 API 以启用此功能"@)),
            ("query"@, Json::Str(query)),
            (
                "results"@,
                Json::Array(seq![Json::Str("[模拟] 关于 '"@ + query + "' 的搜索结果（共 "@ + decimal(max as nat) + " 条）"@)]),
            ),
        ],
    )
}

/// The simulated search: the `query` string is required; `max_results`
/// (an unsigned integer) defaults to 5.
pub fn web_search_result(args: &JsonValue) -> (r: Result<JsonValue, String>)
    ensures
        match required_arg(jv(*args), "query"@) {
            Ok(q) => r matches Ok(v) && jv(v) == web_search_json(
                q,
                match json_get(jv(*args), "max_results"@) {
                    Some(Json::Int(n)) => if 0 <= n <= u64::MAX {
                        n
                    } else {
                        5
                    },
                    _ => 5,
                },
            ),
            Err(e) => r matches Err(m) && m@ == e,
        },
{
    let query = match required_str_arg(args, "query") {
        Ok(q) => q,
        Err(e) => {
            return Err(e);
        },
    };
    let max: u64 = match args.get("max_results") {
        Some(JsonValue::Int(n)) => if *n >= 0 {
            *n as u64
        } else {
            5
        },
        Some(JsonValue::UInt(n)) => *n,
        _ => 5,
    };
    let mut line = concat3("[模拟] 关于 '", query.as_str(), "' 的搜索结果（共 ");
    push_str(&mut line, decimal_string(max).as_str());
    push_str(&mut line, " 条）");
    let ghost lv = line@;
    let mut results: Vec<JsonValue> = Vec::new();
    results.push(JsonValue::Str(line));
    proof {
        crate::json::lemma_jv_items_len(results@);
        assert(crate::json::jv_items(results@) =~= seq![Json::Str(lv)]);
    }
    let ghost qv = query@;
    let mut f: Vec<(String, JsonValue)> = Vec::new();
    assert(jv_fields(f@) =~= Seq::empty());
    push_field(&mut f, "note", jstr("请接入真实搜索引擎 API 以启用此功能"));
    push_field(&mut f, "query", JsonValue::Str(query));
    push_field(&mut f, "results", JsonValue::Array(results));
    assert(jv_fields(f@) =~= web_search_json(qv, max as int)->Object_0);
    Ok(object(f))
}

/// The file reading tool's answer: content, path and size.
pub fn file_read_result(content: String, path: String, size: u64) -> (r: JsonValue)
    ensures
        jv(r) == Json::Object(
            seq![
                ("content"@, Json::Str(content@)),
                ("path"@, Json::Str(path@)),
                ("size"@, Json::Int(size as int)),
            ],
        ),
{
    let mut f: Vec<(String, JsonValue)> = Vec::new();
    assert(jv_fields(f@) =~= Seq::empty());
    push_field(&mut f, "content", JsonValue::Str(content));
    push_field(&mut f, "path", JsonValue::Str(path));
    push_field(&mut f, "size", JsonValue::UInt(size));
    assert(jv_fields(f@) =~= seq![
        ("content"@, Json::Str(content@)),
        ("path"@, Json::Str(path@)),
        ("size"@, Json::Int(size as int)),
    ]);
    object(f)
}

} // verus!
