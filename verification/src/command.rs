//! Controlled project commands: a small allowlist, checked without a shell.
//!
//! Running a prepared command, and checking that its working directory
//! exists inside the workspace, is left to the caller.
use vstd::prelude::*;
use crate::error::AgentError;
use crate::text::{chars_of, collapse_whitespace, collapse_ws, concat3, own, push_str, str_eq, trim, trim_str};

verus! {

broadcast use vstd::std_specs::vec::group_vec_axioms;

/// Most bytes of command output that are kept.
pub const MAX_OUTPUT_BYTES: usize = 98304;

/// A request to run a project command.
#[derive(Debug)]
pub struct ProjectCommandRunRequest {
    pub command: String,
    pub working_dir: String,
}

/// The record of one command run.
#[derive(Debug)]
pub struct ProjectCommandRunResponse {
    pub id: String,
    pub approval_id: Option<String>,
    pub command: String,
    pub working_dir: String,
    pub exit_code: Option<i32>,
    pub success: bool,
    pub stdout: String,
    pub stderr: String,
    pub duration_ms: u64,
    pub timed_out: bool,
    pub stdout_truncated: bool,
    pub stderr_truncated: bool,
    pub created_at: String,
}

/// The model of a command run.
pub struct RunView {
    pub id: Seq<char>,
    pub approval_id: Option<Seq<char>>,
    pub command: Seq<char>,
    pub working_dir: Seq<char>,
    pub exit_code: Option<i32>,
    pub success: bool,
    pub stdout: Seq<char>,
    pub stderr: Seq<char>,
    pub duration_ms: u64,
    pub timed_out: bool,
    pub stdout_truncated: bool,
    pub stderr_truncated: bool,
    pub created_at: Seq<char>,
}

impl View for ProjectCommandRunResponse {
    type V = RunView;

    open spec fn view(&self) -> RunView {
        RunView {
            id: self.id@,
            approval_id: crate::task::opt_str(self.approval_id),
            command: self.command@,
            working_dir: self.working_dir@,
            exit_code: self.exit_code,
            success: self.success,
            stdout: self.stdout@,
            stderr: self.stderr@,
            duration_ms: self.duration_ms,
            timed_out: self.timed_out,
            stdout_truncated: self.stdout_truncated,
            stderr_truncated: self.stderr_truncated,
            created_at: self.created_at@,
        }
    }
}

/// A list of command runs.
#[derive(Debug)]
pub struct ProjectCommandRunListResponse {
    pub runs: Vec<ProjectCommandRunResponse>,
}

/// A command request as normalized, and whether the allowlist admits it.
#[derive(Debug)]
pub struct ProjectCommandInspection {
    pub command: String,
    pub working_dir: String,
    pub allowed: bool,
}

/// One allowlisted command: the normalized command text, the working
/// directory it must run in, and the program and arguments it runs.
#[derive(Debug)]
pub struct AllowedCommand {
    pub command: String,
    pub working_dir: String,
    pub program: String,
    pub args: Vec<String>,
}

/// A command ready to run.
#[derive(Debug)]
pub struct PreparedCommand {
    pub spec: AllowedCommand,
    pub display_command: String,
    pub display_working_dir: String,
}

/// The model of an allowlisted command.
pub struct AllowedView {
    pub command: Seq<char>,
    pub working_dir: Seq<char>,
    pub program: Seq<char>,
    pub args: Seq<Seq<char>>,
}

impl View for AllowedCommand {
    type V = AllowedView;

    open spec fn view(&self) -> AllowedView {
        AllowedView {
            command: self.command@,
            working_dir: self.working_dir@,
            program: self.program@,
            args: crate::task::strs(self.args@),
        }
    }
}

/// The allowlist.
pub open spec fn allowlist() -> Seq<AllowedView> {
    seq![
        AllowedView {
            command: "cargo check"@,
            working_dir: "src-tauri"@,
            program: "cargo"@,
            args: seq!["check"@],
        },
        AllowedView {
            command: "cargo test"@,
            working_dir: "src-tauri"@,
            program: "cargo"@,
            args: seq!["test"@],
        },
        AllowedView {
            command: "npm test -- --run"@,
            working_dir: "src-web"@,
            program: "npm"@,
            args: seq!["test"@, "--"@, "--run"@],
        },
        AllowedView {
            command: "npm run build"@,
            working_dir: "src-web"@,
            program: "npm"@,
            args: seq!["run"@, "build"@],
        },
    ]
}

/// The first allowlist entry for this command and working directory.
pub open spec fn allowed_index(command: Seq<char>, dir: Seq<char>) -> Option<int> {
    if exists|i: int| 0 <= i < 4 && allowlist()[i].command == command && allowlist()[i].working_dir == dir {
        Some(
            choose|i: int|
                0 <= i < 4 && allowlist()[i].command == command && allowlist()[i].working_dir == dir
                    && forall|j: int|
                    0 <= j < i ==> !(allowlist()[j].command == command && allowlist()[j].working_dir
                        == dir),
        )
    } else {
        None
    }
}

fn arg_list(a: &str, b: Option<&str>, c: Option<&str>) -> (r: Vec<String>)
    ensures
        crate::task::strs(r@) == seq![a@] + (match b {
            Some(x) => seq![x@],
            None => Seq::<Seq<char>>::empty(),
        }) + (match c {
            Some(x) => seq![x@],
            None => Seq::<Seq<char>>::empty(),
        }),
{
    let mut r: Vec<String> = Vec::new();
    r.push(own(a));
    if let Some(x) = b {
        r.push(own(x));
    }
    if let Some(x) = c {
        r.push(own(x));
    }
    assert(crate::task::strs(r@) =~= seq![a@] + (match b {
        Some(x) => seq![x@],
        None => Seq::<Seq<char>>::empty(),
    }) + (match c {
        Some(x) => seq![x@],
        None => Seq::<Seq<char>>::empty(),
    }));
    r
}

/// The allowlist entry at position `i`.
pub fn allowed_command(i: usize) -> (c: AllowedCommand)
    requires
        i < 4,
    ensures
        c@ == allowlist()[i as int],
{
    let (command, working_dir, program, args) = if i == 0 {
        ("cargo check", "src-tauri", "cargo", arg_list("check", None, None))
    } else if i == 1 {
        ("cargo test", "src-tauri", "cargo", arg_list("test", None, None))
    } else if i == 2 {
        ("npm test -- --run", "src-web", "npm", arg_list("test", Some("--"), Some("--run")))
    } else {
        ("npm run build", "src-web", "npm", arg_list("run", Some("build"), None))
    };
    let c = AllowedCommand {
        command: own(command),
        working_dir: own(working_dir),
        program: own(program),
        args,
    };
    assert(c@.args =~= allowlist()[i as int].args);
    c
}

fn find_allowed(command: &str, dir: &str) -> (r: Option<usize>)
    ensures
        match r {
            Some(i) => allowed_index(command@, dir@) == Some(i as int) && i < 4,
            None => allowed_index(command@, dir@) is None,
        },
{
    let mut i: usize = 0;
    while i < 4
        invariant
            i <= 4,
            forall|j: int|
                0 <= j < i ==> !(allowlist()[j].command == command@ && allowlist()[j].working_dir
                    == dir@),
        decreases 4 - i,
    {
        let c = allowed_command(i);
        if str_eq(c.command.as_str(), command) && str_eq(c.working_dir.as_str(), dir) {
            proof {
                let k = choose|k: int|
                    0 <= k < 4 && allowlist()[k].command == command@ && allowlist()[k].working_dir
                        == dir@ && forall|j: int|
                        0 <= j < k ==> !(allowlist()[j].command == command@
                            && allowlist()[j].working_dir == dir@);
                assert(k == i) by {
                    if k < i {
                    }
                    if i < k {
                    }
                }
            }
            return Some(i);
        }
        i += 1;
    }
    None
}

// ------------------------------------------------------------------
// Command text
// ------------------------------------------------------------------
/// Characters a shell would treat as control characters.
pub open spec fn is_shell_meta(c: char) -> bool {
    c == ';' || c == '&' || c == '|' || c == '<' || c == '>' || c == '\n' || c == '\r'
}

/// Whether the command holds a shell control character.
pub open spec fn has_shell_meta(s: Seq<char>) -> bool {
    exists|i: int| 0 <= i < s.len() && is_shell_meta(s[i])
}

/// Whether the command holds a shell control character.
pub fn contains_shell_metacharacter(command: &str) -> (b: bool)
    ensures
        b == has_shell_meta(command@),
{
    let cs = chars_of(command);
    let mut i: usize = 0;
    while i < cs.len()
        invariant
            cs@ == command@,
            i <= cs@.len(),
            forall|j: int| 0 <= j < i ==> !is_shell_meta(cs@[j]),
        decreases cs.len() - i,
    {
        let c = cs[i];
        if c == ';' || c == '&' || c == '|' || c == '<' || c == '>' || c == '\n' || c == '\r' {
            return true;
        }
        i += 1;
    }
    false
}

/// The command with its whitespace runs collapsed to single spaces.
pub fn normalize_command(command: &str) -> (r: String)
    ensures
        r@ == collapse_ws(command@),
{
    collapse_whitespace(command)
}

// ------------------------------------------------------------------
// Working directories
// ------------------------------------------------------------------
/// Whether a path segment names a directory (it is neither empty nor `.`).
pub open spec fn keep_part(p: Seq<char>) -> bool {
    p.len() > 0 && p != "."@
}

/// The segments of `s` between slashes that name directories, read from
/// the front with `cur` already collected.
pub open spec fn parts_from(s: Seq<char>, cur: Seq<char>) -> Seq<Seq<char>>
    decreases s.len(),
{
    let here = if keep_part(cur) {
        seq![cur]
    } else {
        Seq::empty()
    };
    if s.len() == 0 {
        here
    } else if s[0] == '/' {
        here + parts_from(s.drop_first(), Seq::empty())
    } else {
        parts_from(s.drop_first(), cur.push(s[0]))
    }
}

/// The directory names of a relative path.
pub open spec fn path_parts(s: Seq<char>) -> Seq<Seq<char>> {
    parts_from(s, Seq::empty())
}

/// The parts joined by slashes.
pub open spec fn join_slash(parts: Seq<Seq<char>>) -> Seq<char>
    decreases parts.len(),
{
    if parts.len() == 0 {
        Seq::empty()
    } else if parts.len() == 1 {
        parts[0]
    } else {
        join_slash(parts.drop_last()) + "/"@ + parts.last()
    }
}

proof fn lemma_join_push(parts: Seq<Seq<char>>, p: Seq<char>)
    ensures
        join_slash(parts.push(p)) == if parts.len() == 0 {
            p
        } else {
            join_slash(parts) + "/"@ + p
        },
{
    assert(parts.push(p).drop_last() =~= parts);
}

/// The directory names of a relative path (see `path_parts`).
pub fn split_path(s: &str) -> (r: Vec<String>)
    ensures
        crate::task::strs(r@) == path_parts(s@),
{
    let cs = chars_of(s);
    let mut out: Vec<String> = Vec::new();
    let mut cur: Vec<char> = Vec::new();
    let mut i: usize = 0;
    proof {
        assert(cs@.skip(0) =~= cs@);
        assert(crate::task::strs(out@) + path_parts(s@) =~= path_parts(s@));
    }
    while i < cs.len()
        invariant
            cs@ == s@,
            i <= cs@.len(),
            crate::task::strs(out@) + parts_from(cs@.skip(i as int), cur@) == path_parts(s@),
        decreases cs.len() - i,
    {
        let ghost rest = cs@.skip(i as int);
        let ghost cur0 = cur@;
        let ghost before = crate::task::strs(out@);
        assert(rest.drop_first() =~= cs@.skip(i + 1));
        assert(rest[0] == cs@[i as int]);
        if cs[i] == '/' {
            let keep = cur.len() > 0 && !(cur.len() == 1 && cur[0] == '.');
            proof {
                reveal_strlit(".");
                if cur0.len() == 1 && cur0[0] == '.' {
                    assert(cur0 =~= "."@);
                }
                if cur0 == "."@ {
                    assert(cur0.len() == 1 && cur0[0] == '.');
                }
                assert(keep == keep_part(cur0));
            }
            if keep {
                out.push(crate::text::string_of(&cur));
            }
            cur = Vec::new();
            assert(before + parts_from(rest, cur0) =~= crate::task::strs(out@) + parts_from(
                cs@.skip(i + 1),
                cur@,
            ));
        } else {
            cur.push(cs[i]);
            assert(crate::task::strs(out@) =~= before);
        }
        i += 1;
    }
    proof {
        assert(cs@.skip(i as int) =~= Seq::<char>::empty());
        reveal_strlit(".");
    }
    let keep = cur.len() > 0 && !(cur.len() == 1 && cur[0] == '.');
    proof {
        if cur@.len() == 1 && cur@[0] == '.' {
            assert(cur@ =~= "."@);
        }
        if cur@ == "."@ {
            assert(cur@.len() == 1 && cur@[0] == '.');
        }
    }
    let ghost before = crate::task::strs(out@);
    if keep {
        out.push(crate::text::string_of(&cur));
        assert(crate::task::strs(out@) =~= before + seq![cur@]);
    } else {
        assert(before + Seq::<Seq<char>>::empty() =~= before);
    }
    out
}

/// The parts joined by slashes.
pub fn join_parts(parts: &Vec<String>) -> (r: String)
    ensures
        r@ == join_slash(crate::task::strs(parts@)),
{
    let ghost ps = crate::task::strs(parts@);
    let mut r = String::new();
    let mut i: usize = 0;
    while i < parts.len()
        invariant
            i <= parts@.len(),
            ps == crate::task::strs(parts@),
            r@ == join_slash(ps.take(i as int)),
        decreases parts.len() - i,
    {
        proof {
            assert(ps.take(i + 1) =~= ps.take(i as int).push(ps[i as int]));
            lemma_join_push(ps.take(i as int), ps[i as int]);
        }
        if i > 0 {
            push_str(&mut r, "/");
        }
        push_str(&mut r, parts[i].as_str());
        proof {
            if i == 0 {
                assert(r@ =~= ps[0]);
            }
        }
        i += 1;
    }
    assert(ps.take(parts@.len() as int) =~= ps);
    r
}

/// Whether some part is `..`.
pub open spec fn has_parent_part(parts: Seq<Seq<char>>) -> bool {
    exists|i: int| 0 <= i < parts.len() && parts[i] == ".."@
}

/// The working directory of a command, relative to the workspace: trimmed,
/// not blank, not absolute, with no `..` part; written with single slashes
/// and without `.` parts.
pub open spec fn relative_dir(working_dir: Seq<char>) -> Result<Seq<char>, Seq<char>> {
    let rel = trim(working_dir);
    if rel.len() == 0 {
        Err("命令工作目录不能为空"@)
    } else if rel[0] == '/' || has_parent_part(path_parts(rel)) {
        Err("工作目录 ["@ + working_dir + "] 不允许访问 workspace 外部"@)
    } else {
        Ok(join_slash(path_parts(rel)))
    }
}

/// Whether an error carries the message `m`.
pub open spec fn error_says(e: AgentError, m: Seq<char>) -> bool {
    e matches AgentError::MessageFormat(x) && x@ == m
}

/// The working directory of a command (see `relative_dir`).
pub fn resolve_working_dir(working_dir: &str) -> (r: Result<String, AgentError>)
    ensures
        match relative_dir(working_dir@) {
            Ok(d) => r matches Ok(s) && s@ == d,
            Err(m) => r matches Err(e) && error_says(e, m),
        },
{
    let rel = trim_str(working_dir);
    if rel.as_str().is_empty() {
        return Err(AgentError::MessageFormat(own("命令工作目录不能为空")));
    }
    let cs = chars_of(rel.as_str());
    let parts = split_path(rel.as_str());
    let mut has_parent = false;
    let mut i: usize = 0;
    while i < parts.len()
        invariant
            i <= parts@.len(),
            has_parent == exists|j: int| 0 <= j < i && crate::task::strs(parts@)[j] == ".."@,
        decreases parts.len() - i,
    {
        assert(crate::task::strs(parts@)[i as int] == parts@[i as int]@);
        if str_eq(parts[i].as_str(), "..") {
            has_parent = true;
        }
        i += 1;
    }
    if cs[0] == '/' || has_parent {
        return Err(AgentError::MessageFormat(concat3("工作目录 [", working_dir, "] 不允许访问 workspace 外部")));
    }
    Ok(join_parts(&parts))
}

// ------------------------------------------------------------------
// Inspecting and preparing requests
// ------------------------------------------------------------------
/// What inspecting a request gives: the normalized command, its working
/// directory and whether the allowlist admits the pair; or the message of
/// the error. An empty command is refused first, then a command with shell
/// control characters, then a bad working directory.
pub open spec fn inspection_of(command: Seq<char>, working_dir: Seq<char>) -> Result<(Seq<char>, Seq<char>, bool), Seq<char>> {
    let c = collapse_ws(command);
    if c.len() == 0 {
        Err("项目命令不能为空"@)
    } else if has_shell_meta(command) {
        Err("项目命令不能包含 shell 控制字符"@)
    } else {
        match relative_dir(working_dir) {
            Err(m) => Err(m),
            Ok(d) => Ok((c, d, allowed_index(c, d) is Some)),
        }
    }
}

/// Normalizes a command request and reports whether it may run (see
/// `inspection_of`).
pub fn inspect_project_command_request(request: &ProjectCommandRunRequest) -> (r: Result<ProjectCommandInspection, AgentError>)
    ensures
        match inspection_of(request.command@, request.working_dir@) {
            Ok((c, d, a)) => r matches Ok(i) && i.command@ == c && i.working_dir@ == d && i.allowed
                == a,
            Err(m) => r matches Err(e) && error_says(e, m),
        },
{
    let command = normalize_command(request.command.as_str());
    if command.as_str().is_empty() {
        return Err(AgentError::MessageFormat(own("项目命令不能为空")));
    }
    if contains_shell_metacharacter(request.command.as_str()) {
        return Err(AgentError::MessageFormat(own("项目命令不能包含 shell 控制字符")));
    }
    let working_dir = match resolve_working_dir(request.working_dir.as_str()) {
        Ok(d) => d,
        Err(e) => return Err(e),
    };
    let allowed = find_allowed(command.as_str(), working_dir.as_str()).is_some();
    Ok(ProjectCommandInspection { command, working_dir, allowed })
}

/// Prepares an allowlisted command: as `inspect_project_command_request`,
/// and a request that the allowlist does not admit is refused.
pub fn prepare_project_command(request: &ProjectCommandRunRequest) -> (r: Result<PreparedCommand, AgentError>)
    ensures
        match inspection_of(request.command@, request.working_dir@) {
            Ok((c, d, a)) => if a {
                r matches Ok(p) && p.display_command@ == c && p.display_working_dir@ == d
                    && p.spec@ == allowlist()[allowed_index(c, d)->0]
            } else {
                r matches Err(e) && error_says(
                    e,
                    "命令 ["@ + c + "] 不在受控允许列表中，或工作目录 ["@ + d + "] 不匹配"@,
                )
            },
            Err(m) => r matches Err(e) && error_says(e, m),
        },
{
    let inspection = match inspect_project_command_request(request) {
        Ok(i) => i,
        Err(e) => return Err(e),
    };
    match find_allowed(inspection.command.as_str(), inspection.working_dir.as_str()) {
        Some(i) => Ok(PreparedCommand {
            spec: allowed_command(i),
            display_command: inspection.command,
            display_working_dir: inspection.working_dir,
        }),
        None => {
            let mut m = concat3("命令 [", inspection.command.as_str(), "] 不在受控允许列表中，或工作目录 [");
            push_str(&mut m, inspection.working_dir.as_str());
            push_str(&mut m, "] 不匹配");
            Err(AgentError::MessageFormat(m))
        },
    }
}

// ------------------------------------------------------------------
// Output
// ------------------------------------------------------------------
/// What `String::from_utf8_lossy` makes of the bytes: the text they hold,
/// with each invalid sequence replaced by U+FFFD.
pub uninterp spec fn utf8_lossy(bytes: Seq<u8>) -> Seq<char>;

/// Decodes bytes as UTF-8, replacing invalid sequences; calls
/// `String::from_utf8_lossy`, which depends on the bytes alone.
#[verifier::external_body]
fn from_utf8_lossy(bytes: &[u8]) -> (s: String)
    ensures
        s@ == utf8_lossy(bytes@),
{
    String::from_utf8_lossy(bytes).to_string()
}

/// The note appended to output that was cut short.
pub open spec fn truncation_note() -> Seq<char> {
    "\n\n[output truncated]"@
}

/// Decoded output followed by the truncation note when it was cut short.
pub fn finish_output(text: String, truncated: bool) -> (r: String)
    ensures
        r@ == if truncated {
            text@ + truncation_note()
        } else {
            text@
        },
{
    let mut text = text;
    if truncated {
        push_str(&mut text, "\n\n[output truncated]");
    }
    text
}

/// Decodes command output, keeping at most `MAX_OUTPUT_BYTES` bytes.
/// Returns the text and whether it was cut short.
pub fn decode_output(bytes: &[u8]) -> (r: (String, bool))
    ensures
        r.1 == (bytes@.len() > MAX_OUTPUT_BYTES),
        r.0@ == if r.1 {
            utf8_lossy(bytes@.take(MAX_OUTPUT_BYTES as int)) + truncation_note()
        } else {
            utf8_lossy(bytes@)
        },
{
    let truncated = bytes.len() > MAX_OUTPUT_BYTES;
    let text = if truncated {
        let mut kept: Vec<u8> = Vec::new();
        let mut i: usize = 0;
        while i < MAX_OUTPUT_BYTES
            invariant
                i <= MAX_OUTPUT_BYTES < bytes@.len(),
                kept@ == bytes@.take(i as int),
            decreases MAX_OUTPUT_BYTES - i,
        {
            kept.push(bytes[i]);
            i += 1;
            assert(kept@ =~= bytes@.take(i as int));
        }
        from_utf8_lossy(kept.as_slice())
    } else {
        from_utf8_lossy(bytes)
    };
    (finish_output(text, truncated), truncated)
}

} // verus!
