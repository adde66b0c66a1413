//! Choosing the tool a tool step calls and its arguments, guessing the
//! file a step should read from its free-text instruction, and the replies
//! to a tool call.
use vstd::prelude::*;
use crate::json::{Json, JsonValue, jv, jv_fields, json_get, jstr, jopt_str, object, push_field};
use crate::audit::ToolInvocationInput;
use crate::task::opt_str;
use crate::error::AgentError;
use crate::json_text::{json_text, to_json_text};
use crate::text::{clean_opt, clean_str, concat2, contains, push_str, str_contains, ascii_lower_seq, chars_of, has_char, is_ws, is_whitespace_char, own, str_eq, string_of, string_of_range, to_ascii_lower};
use crate::tooling::{lemma_strip_end_take, lemma_strip_start_skip, strip_by, strip_end_by, strip_start_by};

verus! {

broadcast use vstd::std_specs::vec::group_vec_axioms;

/// Punctuation that separates words of an instruction like a space.
pub open spec fn is_word_break(c: char) -> bool {
    c == '，' || c == '。' || c == '；' || c == '：' || c == ':' || c == '、' || c == '“' || c == '”' || c == '"'
        || c == '\'' || c == '`' || c == '(' || c == ')' || c == '（' || c == '）' || c == '[' || c == ']'
        || c == '{' || c == '}'
}

fn word_break(c: char) -> (b: bool)
    ensures
        b == is_word_break(c),
{
    c == '，' || c == '。' || c == '；' || c == '：' || c == ':' || c == '、' || c == '“' || c == '”' || c == '"'
        || c == '\'' || c == '`' || c == '(' || c == ')' || c == '（' || c == '）' || c == '[' || c == ']'
        || c == '{' || c == '}'
}

/// The words of `s` (runs of characters that are neither whitespace nor
/// word breaks), reading from the front with `cur` already collected.
pub open spec fn words_from(s: Seq<char>, cur: Seq<char>) -> Seq<Seq<char>>
    decreases s.len(),
{
    let here = if cur.len() > 0 {
        seq![cur]
    } else {
        Seq::empty()
    };
    if s.len() == 0 {
        here
    } else if is_ws(s[0]) || is_word_break(s[0]) {
        here + words_from(s.drop_first(), Seq::empty())
    } else {
        words_from(s.drop_first(), cur.push(s[0]))
    }
}

/// The words of an instruction.
pub open spec fn words(s: Seq<char>) -> Seq<Seq<char>> {
    words_from(s, Seq::empty())
}

/// Characters stripped from both ends of a path token.
pub open spec fn is_token_trim(c: char) -> bool {
    is_ws(c) || c == ',' || c == ';' || c == '，' || c == '。' || c == '；' || c == '、' || c == '"' || c == '\''
        || c == '`' || c == '“' || c == '”'
}

fn token_trim(c: char) -> (b: bool)
    ensures
        b == is_token_trim(c),
{
    is_whitespace_char(c) || c == ',' || c == ';' || c == '，' || c == '。' || c == '；' || c == '、' || c == '"'
        || c == '\'' || c == '`' || c == '“' || c == '”'
}

/// Words that name a path rather than being one.
pub open spec fn is_path_word(lower: Seq<char>) -> bool {
    lower == "path"@ || lower == "file"@ || lower == "read"@ || lower == "读取"@ || lower == "文件"@ || lower
        == "路径"@
}

/// Words that announce a path.
pub open spec fn is_path_label(lower: Seq<char>) -> bool {
    lower == "path"@ || lower == "file"@ || lower == "文件"@ || lower == "路径"@
}

/// A token as a path: stripped of surrounding punctuation and of trailing
/// dots when a dot remains before them; nothing when it is empty, names a
/// path, or holds no slash, backslash or dot.
pub open spec fn path_token(token: Seq<char>) -> Option<Seq<char>> {
    let a = strip_by(token, |c: char| is_token_trim(c));
    let no_dots = strip_end_by(a, |c: char| c == '.');
    let b = if a.len() > 0 && a.last() == '.' && has_char(no_dots, '.') {
        no_dots
    } else {
        a
    };
    if b.len() == 0 || is_path_word(ascii_lower_seq(b)) {
        None
    } else if has_char(b, '/') || has_char(b, '\\') || has_char(b, '.') {
        Some(b)
    } else {
        None
    }
}

/// The first path announced by a label word, looking at word pairs from
/// position `k` on.
pub open spec fn labeled_path_from(tokens: Seq<Seq<char>>, k: int) -> Option<Seq<char>>
    decreases tokens.len() - k,
{
    if k < 0 || k + 1 >= tokens.len() {
        None
    } else if is_path_label(ascii_lower_seq(tokens[k])) && path_token(tokens[k + 1]) is Some {
        path_token(tokens[k + 1])
    } else {
        labeled_path_from(tokens, k + 1)
    }
}

/// The last token among the first `n` that reads as a path.
pub open spec fn last_path(tokens: Seq<Seq<char>>, n: int) -> Option<Seq<char>>
    decreases n,
{
    if n <= 0 || n > tokens.len() {
        None
    } else {
        match path_token(tokens[n - 1]) {
            Some(p) => Some(p),
            None => last_path(tokens, n - 1),
        }
    }
}

/// The file an instruction asks to read: the path after a label word if
/// there is one, else the last word that reads as a path.
pub open spec fn inferred_path(content: Seq<char>) -> Option<Seq<char>> {
    let t = words(content);
    match labeled_path_from(t, 0) {
        Some(p) => Some(p),
        None => last_path(t, t.len() as int),
    }
}

/// The words of an instruction (see `words`).
pub fn split_words(s: &str) -> (r: Vec<String>)
    ensures
        crate::task::strs(r@) == words(s@),
{
    let cs = chars_of(s);
    let mut out: Vec<String> = Vec::new();
    let mut cur: Vec<char> = Vec::new();
    let mut i: usize = 0;
    proof {
        assert(cs@.skip(0) =~= cs@);
        assert(crate::task::strs(out@) + words(s@) =~= words(s@));
    }
    while i < cs.len()
        invariant
            cs@ == s@,
            i <= cs@.len(),
            crate::task::strs(out@) + words_from(cs@.skip(i as int), cur@) == words(s@),
        decreases cs.len() - i,
    {
        let ghost rest = cs@.skip(i as int);
        let ghost cur0 = cur@;
        let ghost before = crate::task::strs(out@);
        assert(rest.drop_first() =~= cs@.skip(i + 1));
        assert(rest[0] == cs@[i as int]);
        if is_whitespace_char(cs[i]) || word_break(cs[i]) {
            if cur.len() > 0 {
                out.push(string_of(&cur));
            }
            cur = Vec::new();
            assert(before + words_from(rest, cur0) =~= crate::task::strs(out@) + words_from(
                cs@.skip(i + 1),
                cur@,
            ));
        } else {
            cur.push(cs[i]);
            assert(crate::task::strs(out@) =~= before);
        }
        i += 1;
    }
    proof {
        assert(cs@.skip(i as int) =~= Seq::<char>::empty());
    }
    let ghost before = crate::task::strs(out@);
    if cur.len() > 0 {
        out.push(string_of(&cur));
        assert(crate::task::strs(out@) =~= before + seq![cur@]);
    } else {
        assert(before + Seq::<Seq<char>>::empty() =~= before);
    }
    out
}

fn strip_token(s: &str) -> (r: String)
    ensures
        r@ == strip_by(s@, |c: char| is_token_trim(c)),
{
    let cs = chars_of(s);
    let ghost p = |c: char| is_token_trim(c);
    let mut i: usize = 0;
    while i < cs.len() && token_trim(cs[i])
        invariant
            cs@ == s@,
            i <= cs@.len(),
            forall|j: int| 0 <= j < i ==> is_token_trim(cs@[j]),
        decreases cs.len() - i,
    {
        i += 1;
    }
    let ghost rest = cs@.skip(i as int);
    proof {
        lemma_strip_start_skip(cs@, p, i as int);
        if i < cs@.len() {
            assert(!p(rest[0]));
        }
        assert(strip_start_by(rest, p) == rest);
    }
    let mut e: usize = cs.len();
    while e > i && token_trim(cs[e - 1])
        invariant
            cs@ == s@,
            i <= e <= cs@.len(),
            rest == cs@.skip(i as int),
            forall|j: int| e <= j < cs@.len() ==> is_token_trim(cs@[j]),
        decreases e,
    {
        e -= 1;
    }
    proof {
        let e2 = e - i;
        assert forall|j: int| e2 <= j < rest.len() implies p(rest[j]) by {
            assert(rest[j] == cs@[j + i]);
        }
        lemma_strip_end_take(rest, p, e2);
        assert(rest.take(e2) =~= cs@.subrange(i as int, e as int));
        if e > i {
            assert(!p(cs@[e - 1]));
            assert(rest.take(e2).last() == cs@[e - 1]);
        }
    }
    string_of_range(&cs, i, e)
}

fn strip_trailing_dots(cs: &Vec<char>) -> (e: usize)
    ensures
        e <= cs@.len(),
        cs@.take(e as int) == strip_end_by(cs@, |c: char| c == '.'),
{
    let ghost p = |c: char| c == '.';
    let mut e: usize = cs.len();
    while e > 0 && cs[e - 1] == '.'
        invariant
            e <= cs@.len(),
            forall|j: int| e <= j < cs@.len() ==> cs@[j] == '.',
        decreases e,
    {
        e -= 1;
    }
    proof {
        assert forall|j: int| e <= j < cs@.len() implies p(cs@[j]) by {}
        lemma_strip_end_take(cs@, p, e as int);
        if e > 0 {
            assert(!p(cs@.take(e as int).last()));
            assert(strip_end_by(cs@.take(e as int), p) == cs@.take(e as int));
        } else {
            assert(cs@.take(0) =~= Seq::<char>::empty());
        }
    }
    e
}

fn chars_contain(cs: &Vec<char>, upto: usize, c: char) -> (b: bool)
    requires
        upto <= cs@.len(),
    ensures
        b == has_char(cs@.take(upto as int), c),
{
    let mut i: usize = 0;
    while i < upto
        invariant
            upto <= cs@.len(),
            i <= upto,
            forall|j: int| 0 <= j < i ==> cs@[j] != c,
        decreases upto - i,
    {
        if cs[i] == c {
            assert(cs@.take(upto as int)[i as int] == c);
            return true;
        }
        i += 1;
    }
    false
}

/// A token as a path (see `path_token`).
pub fn clean_path_token(token: &str) -> (r: Option<String>)
    ensures
        crate::task::opt_str(r) == path_token(token@),
{
    let a = strip_token(token);
    let cs = chars_of(a.as_str());
    let e = strip_trailing_dots(&cs);
    let b = if cs.len() > 0 && cs[cs.len() - 1] == '.' && chars_contain(&cs, e, '.') {
        string_of_range(&cs, 0, e)
    } else {
        a
    };
    proof {
        assert(cs@.subrange(0, e as int) =~= cs@.take(e as int));
    }
    if b.as_str().is_empty() {
        return None;
    }
    let lower = to_ascii_lower(b.as_str());
    let l = lower.as_str();
    if str_eq(l, "path") || str_eq(l, "file") || str_eq(l, "read") || str_eq(l, "读取") || str_eq(l, "文件")
        || str_eq(l, "路径") {
        return None;
    }
    let bc = chars_of(b.as_str());
    let n = bc.len();
    proof {
        assert(bc@.take(n as int) =~= bc@);
    }
    if chars_contain(&bc, n, '/') || chars_contain(&bc, n, '\\') || chars_contain(&bc, n, '.') {
        Some(b)
    } else {
        None
    }
}

fn is_label(word: &str) -> (b: bool)
    ensures
        b == is_path_label(ascii_lower_seq(word@)),
{
    let lower = to_ascii_lower(word);
    let l = lower.as_str();
    str_eq(l, "path") || str_eq(l, "file") || str_eq(l, "文件") || str_eq(l, "路径")
}

/// The file an instruction asks to read (see `inferred_path`).
pub fn infer_file_path_from_content(content: &str) -> (r: Option<String>)
    ensures
        crate::task::opt_str(r) == inferred_path(content@),
{
    let tokens = split_words(content);
    let ghost t = crate::task::strs(tokens@);
    let mut k: usize = 0;
    while k < tokens.len() && k + 1 < tokens.len()
        invariant
            t == words(content@),
            k <= tokens@.len(),
            t == crate::task::strs(tokens@),
            t.len() == tokens@.len(),
            labeled_path_from(t, 0) == labeled_path_from(t, k as int),
        decreases tokens.len() - k,
    {
        assert(t[k as int] == tokens@[k as int]@);
        assert(t[k + 1] == tokens@[k + 1]@);
        if is_label(tokens[k].as_str()) {
            match clean_path_token(tokens[k + 1].as_str()) {
                Some(p) => return Some(p),
                None => {},
            }
        }
        k += 1;
    }
    let mut n: usize = tokens.len();
    while n > 0
        invariant
            t == words(content@),
            t == crate::task::strs(tokens@),
            t.len() == tokens@.len(),
            n <= tokens@.len(),
            labeled_path_from(t, 0) is None,
            last_path(t, t.len() as int) == last_path(t, n as int),
        decreases n,
    {
        assert(t[n - 1] == tokens@[n - 1]@);
        match clean_path_token(tokens[n - 1].as_str()) {
            Some(p) => return Some(p),
            None => {},
        }
        n -= 1;
    }
    None
}

/// The arguments of a file read inferred from an instruction: `{"path": …}`.
pub fn infer_file_read_args_from_content(content: &str) -> (r: Option<JsonValue>)
    ensures
        match inferred_path(content@) {
            Some(p) => r matches Some(v) && jv(v) == Json::Object(seq![("path"@, Json::Str(p))]),
            None => r is None,
        },
{
    match infer_file_path_from_content(content) {
        Some(p) => {
            let mut f: Vec<(String, JsonValue)> = Vec::new();
            assert(jv_fields(f@) =~= Seq::empty());
            push_field(&mut f, "path", JsonValue::Str(p));
            Some(object(f))
        },
        None => None,
    }
}


/// The tool a step calls: the `tool` string of its context, else one chosen
/// by words of its instruction (calculating, time or date, searching,
/// files), the calculator when none of them occurs.
pub open spec fn tool_name_of(context: Json, content: Seq<char>) -> Seq<char> {
    match json_get(context, "tool"@) {
        Some(Json::Str(t)) => t,
        _ => if contains(content, "计算"@) || contains(content, "calc"@) {
            "calculator"@
        } else if contains(content, "时间"@) || contains(content, "日期"@) {
            "datetime"@
        } else if contains(content, "搜索"@) || contains(content, "search"@) {
            "web_search"@
        } else if contains(content, "文件"@) || contains(content, "file"@) {
            "file_read"@
        } else {
            "calculator"@
        },
    }
}

/// The tool a step calls (see `tool_name_of`).
pub fn select_tool_name(context: &JsonValue, content: &str) -> (r: String)
    ensures
        r@ == tool_name_of(jv(*context), content@),
{
    match context.get("tool") {
        Some(JsonValue::Str(t)) => t.clone(),
        _ => if str_contains(content, "计算") || str_contains(content, "calc") {
            own("calculator")
        } else if str_contains(content, "时间") || str_contains(content, "日期") {
            own("datetime")
        } else if str_contains(content, "搜索") || str_contains(content, "search") {
            own("web_search")
        } else if str_contains(content, "文件") || str_contains(content, "file") {
            own("file_read")
        } else {
            own("calculator")
        },
    }
}

/// The arguments a tool gets when the step names none: for `file_read` the
/// inferred path (an empty object when none is found), for the other tools
/// the instruction as both expression and query.
pub open spec fn default_args_of(tool_name: Seq<char>, content: Seq<char>) -> Json {
    if tool_name == "file_read"@ {
        match inferred_path(content) {
            Some(p) => Json::Object(seq![("path"@, Json::Str(p))]),
            None => Json::Object(Seq::empty()),
        }
    } else {
        Json::Object(seq![("expression"@, Json::Str(content)), ("query"@, Json::Str(content))])
    }
}

/// The arguments a tool gets when the step names none (see `default_args_of`).
pub fn default_tool_args(tool_name: &str, content: &str) -> (r: JsonValue)
    ensures
        jv(r) == default_args_of(tool_name@, content@),
{
    if str_eq(tool_name, "file_read") {
        match infer_file_read_args_from_content(content) {
            Some(v) => v,
            None => {
                let f: Vec<(String, JsonValue)> = Vec::new();
                assert(jv_fields(f@) =~= Seq::empty());
                object(f)
            },
        }
    } else {
        let mut f: Vec<(String, JsonValue)> = Vec::new();
        assert(jv_fields(f@) =~= Seq::empty());
        push_field(&mut f, "expression", jstr(content));
        push_field(&mut f, "query", jstr(content));
        assert(jv_fields(f@) =~= seq![("expression"@, Json::Str(content@)), ("query"@, Json::Str(content@))]);
        object(f)
    }
}

/// The arguments of a tool call: the `args` of the step's context, else the
/// defaults for the tool.
pub fn tool_call_args(context: &JsonValue, tool_name: &str, content: &str) -> (r: JsonValue)
    ensures
        jv(r) == match json_get(jv(*context), "args"@) {
            Some(a) => a,
            None => default_args_of(tool_name@, content@),
        },
{
    match context.get("args") {
        Some(a) => a.deep_clone(),
        None => default_tool_args(tool_name, content),
    }
}

/// The string under `key`, trimmed, when it is not blank.
pub fn json_string_field(value: &JsonValue, key: &str) -> (r: Option<String>)
    ensures
        opt_str(r) == json_string_field_view(jv(*value), key@),
{
    match value.get(key) {
        Some(JsonValue::Str(t)) => clean_str(t.as_str()),
        _ => None,
    }
}

/// What the audit of a tool call records: the task, the step and approval
/// named in the step's context, the tool, its arguments and how it went.
pub fn tool_invocation_input(
    task_id: Option<&String>,
    context: &JsonValue,
    tool_name: &str,
    args: JsonValue,
    success: bool,
    error: Option<String>,
    duration_ms: u64,
) -> (r: ToolInvocationInput)
    ensures
        opt_str(r.task_id) == crate::task::opt_ref_str(task_id),
        opt_str(r.step_id) == json_string_field_view(jv(*context), "stepId"@),
        opt_str(r.approval_id) == json_string_field_view(jv(*context), "toolApprovalId"@),
        r.tool_name@ == tool_name@,
        r.args == args,
        r.success == success,
        r.error == error,
        r.duration_ms == duration_ms,
{
    let t = match task_id {
        Some(t) => Some(t.clone()),
        None => None,
    };
    let step_id = json_string_field(context, "stepId");
    let approval_id = json_string_field(context, "toolApprovalId");
    ToolInvocationInput { task_id: t, step_id, approval_id, tool_name: own(tool_name), args, success, error, duration_ms }
}

/// The trimmed, non-blank string under `key` (see `json_string_field`),
/// as a view.
pub open spec fn json_string_field_view(j: Json, key: Seq<char>) -> Option<Seq<char>> {
    match json_get(j, key) {
        Some(Json::Str(t)) => clean_opt(t),
        _ => None,
    }
}

/// The error of a call to a tool that is not registered.
pub fn tool_not_found_error(name: &str) -> (e: AgentError)
    ensures
        e matches AgentError::ToolNotFound(m) && m@ == "工具 '"@ + name@ + "' 未注册"@,
{
    AgentError::ToolNotFound(crate::text::concat3("工具 '", name, "' 未注册"))
}

/// The error of a tool call that failed with `reason`.
pub fn tool_failed_error(name: &str, reason: &str) -> (e: AgentError)
    ensures
        e matches AgentError::Tool(m) && m@ == "工具 '"@ + name@ + "' 调用失败: "@ + reason@,
{
    let mut m = crate::text::concat3("工具 '", name, "' 调用失败: ");
    push_str(&mut m, reason);
    AgentError::Tool(m)
}

/// The reply to a tool call that returned `result`: the tool and the
/// result's JSON text, with the tool, the result and the audit record's id
/// as context.
pub open spec fn tool_result_reply_json(tool_name: Seq<char>, result: Json, audit_id: Option<Seq<char>>) -> Json {
    Json::Object(
        seq![
            ("tool"@, Json::Str(tool_name)),
            ("result"@, result),
            (
                "toolInvocationId"@,
                match audit_id {
                    Some(a) => Json::Str(a),
                    None => Json::Null,
                },
            ),
        ],
    )
}

/// The reply to a tool call that returned `result` (see
/// `tool_result_reply_json`).
pub fn tool_result_reply(tool_name: &str, result: &JsonValue, audit_id: Option<&String>) -> (r: (String, JsonValue))
    ensures
        r.0@ == "工具 ["@ + tool_name@ + "] 执行结果: "@ + json_text(jv(*result)),
        jv(r.1) == tool_result_reply_json(tool_name@, jv(*result), crate::task::opt_ref_str(audit_id)),
{
    let mut text = crate::text::concat3("工具 [", tool_name, "] 执行结果: ");
    let shown = to_json_text(result);
    push_str(&mut text, shown.as_str());
    let mut f: Vec<(String, JsonValue)> = Vec::new();
    assert(jv_fields(f@) =~= Seq::empty());
    push_field(&mut f, "tool", jstr(tool_name));
    push_field(&mut f, "result", result.deep_clone());
    push_field(&mut f, "toolInvocationId", jopt_str(audit_id));
    assert(jv_fields(f@) =~= tool_result_reply_json(tool_name@, jv(*result), crate::task::opt_ref_str(audit_id))->Object_0);
    (text, object(f))
}

/// The reply to a tool call that failed with `error`: its message, with the
/// tool, the message and the audit record's id as context.
pub fn tool_error_reply(tool_name: &str, error: &AgentError, audit_id: Option<&String>) -> (r: (String, JsonValue))
    ensures
        r.0@ == "工具调用失败: "@ + crate::error::error_text(*error),
        jv(r.1) == Json::Object(
            seq![
                ("tool"@, Json::Str(tool_name@)),
                ("error"@, Json::Str(crate::error::error_text(*error))),
                (
                    "toolInvocationId"@,
                    match audit_id {
                        Some(a) => Json::Str(a@),
                        None => Json::Null,
                    },
                ),
            ],
        ),
{
    let message = error.message();
    let text = concat2("工具调用失败: ", message.as_str());
    let mut f: Vec<(String, JsonValue)> = Vec::new();
    assert(jv_fields(f@) =~= Seq::empty());
    push_field(&mut f, "tool", jstr(tool_name));
    push_field(&mut f, "error", jstr(message.as_str()));
    push_field(&mut f, "toolInvocationId", jopt_str(audit_id));
    assert(jv_fields(f@) =~= seq![
        ("tool"@, Json::Str(tool_name@)),
        ("error"@, Json::Str(crate::error::error_text(*error))),
        (
            "toolInvocationId"@,
            match audit_id {
                Some(a) => Json::Str(a@),
                None => Json::Null,
            },
        ),
    ]);
    (text, object(f))
}

} // verus!
