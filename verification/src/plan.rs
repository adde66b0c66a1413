//! Task plans: the rule-based planner, and the checks a plan written by a
//! language model must pass.
use vstd::prelude::*;
use crate::error::AgentError;
use crate::json::{Json, JsonValue, jv};
use crate::task::{opt_str, strs};
use crate::text::{
    ascii_lower_seq, chars_of, clean_opt, concat2, concat3, contains, decimal, decimal_string, own,
    push_str, starts_with, str_contains, str_eq, str_starts_with, trim, trim_str, ends_with,
};

verus! {

broadcast use vstd::std_specs::vec::group_vec_axioms;

/// The agents a plan may name.
pub open spec fn planner_agents() -> Seq<Seq<char>> {
    seq!["Planner"@, "Tool"@, "Executor"@, "Memory"@, "Echo"@]
}

/// Status of a plan step.
#[derive(Debug)]
pub enum StepStatus {
    Pending,
    Running,
    Completed,
    Failed(String),
}

/// One step of a plan.
#[derive(Debug)]
pub struct PlanStep {
    pub step_id: String,
    pub order: u32,
    pub agent: String,
    pub instruction: String,
    pub depends_on: Vec<String>,
    pub status: StepStatus,
}

/// A plan for a task. `created_at` is in milliseconds since the Unix epoch.
#[derive(Debug)]
pub struct TaskPlan {
    pub task_id: String,
    pub goal: String,
    pub steps: Vec<PlanStep>,
    pub created_at: i64,
}

/// The model of a plan step (a new step is always pending).
pub struct PlanStepView {
    pub step_id: Seq<char>,
    pub order: u32,
    pub agent: Seq<char>,
    pub instruction: Seq<char>,
    pub depends_on: Seq<Seq<char>>,
    pub pending: bool,
}

impl View for PlanStep {
    type V = PlanStepView;

    open spec fn view(&self) -> PlanStepView {
        PlanStepView {
            step_id: self.step_id@,
            order: self.order,
            agent: self.agent@,
            instruction: self.instruction@,
            depends_on: strs(self.depends_on@),
            pending: self.status is Pending,
        }
    }
}

/// The models of a list of plan steps.
pub open spec fn plan_step_views(v: Seq<PlanStep>) -> Seq<PlanStepView> {
    v.map_values(|s: PlanStep| s@)
}

/// The id of the `n`-th step (from 1) of task `task_id`.
pub open spec fn step_id_of(task_id: Seq<char>, n: nat) -> Seq<char> {
    task_id + "-"@ + decimal(n)
}

fn step_id(task_id: &str, n: u32) -> (r: String)
    ensures
        r@ == step_id_of(task_id@, n as nat),
{
    let d = decimal_string(n as u64);
    concat3(task_id, "-", d.as_str())
}

/// A pending step.
pub open spec fn pending_step(
    id: Seq<char>,
    order: u32,
    agent: Seq<char>,
    instruction: Seq<char>,
    depends_on: Seq<Seq<char>>,
) -> PlanStepView {
    PlanStepView { step_id: id, order, agent, instruction, depends_on, pending: true }
}

fn no_deps() -> (r: Vec<String>)
    ensures
        strs(r@) == Seq::<Seq<char>>::empty(),
{
    let r: Vec<String> = Vec::new();
    assert(strs(r@) =~= Seq::<Seq<char>>::empty());
    r
}

fn new_step(id: String, order: u32, agent: &str, instruction: String, depends_on: Vec<String>) -> (s: PlanStep)
    ensures
        s@ == pending_step(id@, order, agent@, instruction@, strs(depends_on@)),
{
    PlanStep { step_id: id, order, agent: own(agent), instruction, depends_on, status: StepStatus::Pending }
}

fn one_dep(task_id: &str, n: u32) -> (r: Vec<String>)
    ensures
        strs(r@) == seq![step_id_of(task_id@, n as nat)],
{
    let mut r: Vec<String> = Vec::new();
    r.push(step_id(task_id, n));
    assert(strs(r@) =~= seq![step_id_of(task_id@, n as nat)]);
    r
}

// ------------------------------------------------------------------
// Rule-based plans
// ------------------------------------------------------------------
/// Whether a goal asks to search or look something up.
pub open spec fn is_search_goal(goal: Seq<char>) -> bool {
    contains(goal, "搜索"@) || contains(goal, "查找"@) || contains(goal, "新闻"@)
}

/// Whether a goal asks for code.
pub open spec fn is_code_goal(goal: Seq<char>) -> bool {
    contains(goal, "代码"@) || contains(goal, "编程"@) || contains(goal, "写"@)
}

/// The rule-based plan for a goal: search goals get search, analysis and
/// storage steps; code goals get analysis and coding steps; any other goal
/// gets one step for `Echo`. Each step depends on the one before.
pub open spec fn goal_plan_steps(goal: Seq<char>, task_id: Seq<char>) -> Seq<PlanStepView> {
    let id1 = step_id_of(task_id, 1);
    let id2 = step_id_of(task_id, 2);
    let id3 = step_id_of(task_id, 3);
    if is_search_goal(goal) {
        seq![
            pending_step(id1, 1, "Tool"@, "搜索相关信息: "@ + goal, seq![]),
            pending_step(id2, 2, "Executor"@, "整理和分析搜索结果: "@ + goal, seq![id1]),
            pending_step(id3, 3, "Memory"@, "存储结果到知识库: "@ + goal, seq![id2]),
        ]
    } else if is_code_goal(goal) {
        seq![
            pending_step(id1, 1, "Planner"@, "分析编码需求: "@ + goal, seq![]),
            pending_step(id2, 2, "Executor"@, "编写代码: "@ + goal, seq![id1]),
        ]
    } else {
        seq![pending_step(id1, 1, "Echo"@, "处理用户请求: "@ + goal, seq![])]
    }
}

impl TaskPlan {
    /// The model of the plan's steps.
    pub open spec fn step_views(&self) -> Seq<PlanStepView> {
        plan_step_views(self.steps@)
    }

    /// The rule-based plan for `goal` (see `goal_plan_steps`).
    pub fn from_goal_with_id(goal: &str, task_id: String) -> (p: TaskPlan)
        ensures
            p.task_id@ == task_id@,
            p.goal@ == goal@,
            p.step_views() == goal_plan_steps(goal@, task_id@),
    {
        let t = task_id.as_str();
        let mut steps: Vec<PlanStep> = Vec::new();
        if str_contains(goal, "搜索") || str_contains(goal, "查找") || str_contains(goal, "新闻") {
            steps.push(new_step(step_id(t, 1), 1, "Tool", concat2("搜索相关信息: ", goal), no_deps()));
            steps.push(new_step(step_id(t, 2), 2, "Executor", concat2("整理和分析搜索结果: ", goal), one_dep(t, 1)));
            steps.push(new_step(step_id(t, 3), 3, "Memory", concat2("存储结果到知识库: ", goal), one_dep(t, 2)));
        } else if str_contains(goal, "代码") || str_contains(goal, "编程") || str_contains(goal, "写") {
            steps.push(new_step(step_id(t, 1), 1, "Planner", concat2("分析编码需求: ", goal), no_deps()));
            steps.push(new_step(step_id(t, 2), 2, "Executor", concat2("编写代码: ", goal), one_dep(t, 1)));
        } else {
            steps.push(new_step(step_id(t, 1), 1, "Echo", concat2("处理用户请求: ", goal), no_deps()));
        }
        assert(plan_step_views(steps@) =~= goal_plan_steps(goal@, task_id@));
        TaskPlan { task_id, goal: own(goal), steps, created_at: crate::clock::now_millis() }
    }

    /// The rule-based plan for `goal` under a fresh task id.
    pub fn from_goal(goal: &str) -> (p: TaskPlan)
        ensures
            p.goal@ == goal@,
            p.step_views() == goal_plan_steps(goal@, p.task_id@),
    {
        TaskPlan::from_goal_with_id(goal, crate::clock::new_uuid())
    }
}

// ------------------------------------------------------------------
// Agents named by a model
// ------------------------------------------------------------------
/// The agent a name given by a model stands for (ignoring case and
/// surrounding whitespace), if it is one a plan may use.
pub open spec fn agent_named(name: Seq<char>) -> Option<Seq<char>> {
    let n = ascii_lower_seq(trim(name));
    if n == "planner"@ || n == "coordinator"@ {
        Some("Planner"@)
    } else if n == "tool"@ || n == "toolagent"@ {
        Some("Tool"@)
    } else if n == "executor"@ || n == "coder"@ || n == "coderagent"@ {
        Some("Executor"@)
    } else if n == "memory"@ || n == "memoryagent"@ {
        Some("Memory"@)
    } else if n == "echo"@ {
        Some("Echo"@)
    } else {
        None
    }
}

/// The agent a name given by a model stands for (see `agent_named`).
pub fn normalize_agent_id(agent: &str) -> (r: Option<String>)
    ensures
        opt_str(r) == agent_named(agent@),
{
    let t = trim_str(agent);
    let l = crate::text::to_ascii_lower(t.as_str());
    let n = l.as_str();
    if str_eq(n, "planner") || str_eq(n, "coordinator") {
        Some(own("Planner"))
    } else if str_eq(n, "tool") || str_eq(n, "toolagent") {
        Some(own("Tool"))
    } else if str_eq(n, "executor") || str_eq(n, "coder") || str_eq(n, "coderagent") {
        Some(own("Executor"))
    } else if str_eq(n, "memory") || str_eq(n, "memoryagent") {
        Some(own("Memory"))
    } else if str_eq(n, "echo") {
        Some(own("Echo"))
    } else {
        None
    }
}

// ------------------------------------------------------------------
// Finding the JSON object in a model's reply
// ------------------------------------------------------------------
/// The first position of `c` in `s` at or after `k`.
pub open spec fn char_index_from(s: Seq<char>, c: char, k: int) -> Option<int>
    decreases s.len() - k,
{
    if k < 0 || k >= s.len() {
        None
    } else if s[k] == c {
        Some(k)
    } else {
        char_index_from(s, c, k + 1)
    }
}

/// The last position of `c` in `s` before `k`.
pub open spec fn char_last_before(s: Seq<char>, c: char, k: int) -> Option<int>
    decreases k,
{
    if k <= 0 || k > s.len() {
        None
    } else if s[k - 1] == c {
        Some(k - 1)
    } else {
        char_last_before(s, c, k - 1)
    }
}

/// A reply without the Markdown fence around it: after trimming, a leading
/// fence (```` ```json ````, ```` ```JSON ```` or ```` ``` ````) and a trailing
/// fence are removed, each followed by trimming.
pub open spec fn unfenced(raw: Seq<char>) -> Seq<char> {
    let t = trim(raw);
    if starts_with(t, "```"@) {
        let open = if starts_with(t, "```json"@) {
            t.skip(7)
        } else if starts_with(t, "```JSON"@) {
            t.skip(7)
        } else {
            t.skip(3)
        };
        let w = trim(open);
        if ends_with(w, "```"@) {
            trim(w.take(w.len() - 3))
        } else {
            w
        }
    } else {
        t
    }
}

/// The JSON object in a model's reply: from the first `{` to the last `}`
/// of the unfenced reply; or the message of the error.
pub open spec fn json_object_in(raw: Seq<char>) -> Result<Seq<char>, Seq<char>> {
    let c = unfenced(raw);
    match (char_index_from(c, '{', 0), char_last_before(c, '}', c.len() as int)) {
        (Some(s), Some(e)) => if e < s {
            Err("Planner 输出 JSON 对象边界无效"@)
        } else {
            Ok(c.subrange(s, e + 1))
        },
        _ => Err("Planner 输出缺少 JSON 对象"@),
    }
}

fn find_char_from(s: &Vec<char>, c: char) -> (r: Option<usize>)
    ensures
        match r {
            Some(i) => char_index_from(s@, c, 0) == Some(i as int) && i < s@.len(),
            None => char_index_from(s@, c, 0) is None,
        },
{
    let mut i: usize = 0;
    while i < s.len()
        invariant
            i <= s@.len(),
            char_index_from(s@, c, 0) == char_index_from(s@, c, i as int),
        decreases s.len() - i,
    {
        if s[i] == c {
            return Some(i);
        }
        i += 1;
    }
    None
}

fn find_char_last(s: &Vec<char>, c: char) -> (r: Option<usize>)
    ensures
        match r {
            Some(i) => char_last_before(s@, c, s@.len() as int) == Some(i as int) && i < s@.len(),
            None => char_last_before(s@, c, s@.len() as int) is None,
        },
{
    let mut k: usize = s.len();
    while k > 0
        invariant
            k <= s@.len(),
            char_last_before(s@, c, s@.len() as int) == char_last_before(s@, c, k as int),
        decreases k,
    {
        if s[k - 1] == c {
            return Some(k - 1);
        }
        k -= 1;
    }
    None
}

/// The reply without its Markdown fence (see `unfenced`).
pub fn strip_fence(raw: &str) -> (r: Vec<char>)
    ensures
        r@ == unfenced(raw@),
{
    let t = trim_str(raw);
    if str_starts_with(t.as_str(), "```") {
        let cs = chars_of(t.as_str());
        let skip: usize = if str_starts_with(t.as_str(), "```json") || str_starts_with(t.as_str(), "```JSON") {
            7
        } else {
            3
        };
        proof {
            reveal_strlit("```json");
            reveal_strlit("```JSON");
            reveal_strlit("```");
        }
        let rest = crate::text::string_of_range(&cs, skip, cs.len());
        let w = trim_str(rest.as_str());
        let wv = chars_of(w.as_str());
        if crate::text::str_ends_with(w.as_str(), "```") {
            assert(wv@.len() >= 3);
            let inner = crate::text::string_of_range(&wv, 0, wv.len() - 3);
            let r = trim_str(inner.as_str());
            proof {
                assert(wv@.subrange(0, wv@.len() - 3) =~= wv@.take(wv@.len() - 3));
            }
            chars_of(r.as_str())
        } else {
            wv
        }
    } else {
        chars_of(t.as_str())
    }
}

/// The JSON object in a model's reply (see `json_object_in`).
pub fn extract_json_object(raw: &str) -> (r: Result<String, AgentError>)
    ensures
        match json_object_in(raw@) {
            Ok(s) => r matches Ok(x) && x@ == s,
            Err(m) => r matches Err(AgentError::MessageFormat(x)) && x@ == m,
        },
{
    let c = strip_fence(raw);
    let s = find_char_from(&c, '{');
    let e = find_char_last(&c, '}');
    if s.is_none() || e.is_none() {
        return Err(AgentError::MessageFormat(own("Planner 输出缺少 JSON 对象")));
    }
    let s = s.unwrap();
    let e = e.unwrap();
    let n = c.len();
    assert(e < n);
    if e < s {
        Err(AgentError::MessageFormat(own("Planner 输出 JSON 对象边界无效")))
    } else {
        Ok(crate::text::string_of_range(&c, s, e + 1))
    }
}

// ------------------------------------------------------------------
// Software goals
// ------------------------------------------------------------------
/// Words that mark a goal, in lower case, as software work.
pub open spec fn software_keywords() -> Seq<Seq<char>> {
    seq![
        "项目"@, "代码"@, "编程"@, "实现"@, "修复"@, "bug"@, "测试"@, "构建"@, "前端"@, "后端"@, "页面"@,
        "组件"@, "文件"@, "ipc"@, "agent"@, "rust"@, "react"@, "tauri"@, "store"@,
    ]
}

/// Whether a (lower-cased) goal holds one of `software_keywords`.
pub open spec fn mentions_software(lower: Seq<char>) -> bool {
    exists|i: int| 0 <= i < software_keywords().len() && contains(lower, #[trigger] software_keywords()[i])
}

/// Whether a lower-cased goal holds one of the software keywords.
pub fn mentions_software_keyword(lower: &str) -> (b: bool)
    ensures
        b == mentions_software(lower@),
{
    let keywords: [&str; 19] = [
        "项目", "代码", "编程", "实现", "修复", "bug", "测试", "构建", "前端", "后端", "页面", "组件", "文件",
        "ipc", "agent", "rust", "react", "tauri", "store",
    ];
    let mut i: usize = 0;
    while i < 19
        invariant
            i <= 19,
            keywords@.map_values(|k: &str| k@) == software_keywords(),
            forall|j: int| 0 <= j < i ==> !contains(lower@, #[trigger] software_keywords()[j]),
        decreases 19 - i,
    {
        assert(software_keywords()[i as int] == keywords@[i as int]@);
        if str_contains(lower, keywords[i]) {
            return true;
        }
        i += 1;
    }
    false
}

/// Whether a goal is software work: its lower-cased text (by
/// `str::to_lowercase`) holds one of the software keywords.
pub fn is_software_goal(goal: &str) -> (b: bool)
    ensures
        b == mentions_software(crate::text::unicode_lowercase(goal@)),
{
    let lower = crate::text::to_lowercase(goal);
    mentions_software_keyword(lower.as_str())
}


// ------------------------------------------------------------------
// Plans written by a model
// ------------------------------------------------------------------
/// A plan step as a model writes it.
#[derive(Debug)]
pub struct LlmPlanStep {
    pub id: Option<String>,
    pub agent: String,
    pub instruction: String,
    pub depends_on: Vec<String>,
}

/// A plan as a model writes it.
#[derive(Debug)]
pub struct LlmTaskPlanEnvelope {
    pub goal: Option<String>,
    pub steps: Vec<LlmPlanStep>,
}

/// The model of a step written by a model.
pub struct LlmStepView {
    pub id: Option<Seq<char>>,
    pub agent: Seq<char>,
    pub instruction: Seq<char>,
    pub depends_on: Seq<Seq<char>>,
}

impl View for LlmPlanStep {
    type V = LlmStepView;

    open spec fn view(&self) -> LlmStepView {
        LlmStepView {
            id: opt_str(self.id),
            agent: self.agent@,
            instruction: self.instruction@,
            depends_on: strs(self.depends_on@),
        }
    }
}

/// The models of the steps written by a model.
pub open spec fn llm_step_views(v: Seq<LlmPlanStep>) -> Seq<LlmStepView> {
    v.map_values(|s: LlmPlanStep| s@)
}

/// The id a model gave the `n`-th step (from 1): its trimmed id, or
/// `step-n` when it gave none or a blank one.
pub open spec fn original_id_of(s: LlmStepView, n: nat) -> Seq<char> {
    match s.id {
        Some(i) => match clean_opt(i) {
            Some(t) => t,
            None => "step-"@ + decimal(n),
        },
        None => "step-"@ + decimal(n),
    }
}

/// The ids a model gave its steps.
pub open spec fn original_ids(steps: Seq<LlmStepView>) -> Seq<Seq<char>> {
    Seq::new(steps.len(), |i: int| original_id_of(steps[i], (i + 1) as nat))
}

fn original_id(s: &LlmPlanStep, n: usize) -> (r: String)
    requires
        n <= u64::MAX,
    ensures
        r@ == original_id_of(s@, n as nat),
{
    let fallback = concat2("step-", decimal_string(n as u64).as_str());
    match &s.id {
        Some(i) => match crate::text::clean_str(i.as_str()) {
            Some(t) => t,
            None => fallback,
        },
        None => fallback,
    }
}

/// The first position of `x` in `ids` at or after `k`.
pub open spec fn index_from(ids: Seq<Seq<char>>, x: Seq<char>, k: int) -> Option<int>
    decreases ids.len() - k,
{
    if k < 0 || k >= ids.len() {
        None
    } else if ids[k] == x {
        Some(k)
    } else {
        index_from(ids, x, k + 1)
    }
}

fn find_id(ids: &Vec<String>, x: &str) -> (r: Option<usize>)
    ensures
        match r {
            Some(j) => index_from(strs(ids@), x@, 0) == Some(j as int) && j < ids@.len(),
            None => index_from(strs(ids@), x@, 0) is None,
        },
{
    let mut k: usize = 0;
    while k < ids.len()
        invariant
            k <= ids@.len(),
            index_from(strs(ids@), x@, 0) == index_from(strs(ids@), x@, k as int),
        decreases ids.len() - k,
    {
        assert(strs(ids@)[k as int] == ids@[k as int]@);
        if str_eq(ids[k].as_str(), x) {
            return Some(k);
        }
        k += 1;
    }
    None
}

/// The first id, from position `i` on, that an earlier step already has.
pub open spec fn first_dup_from(ids: Seq<Seq<char>>, i: int) -> Option<Seq<char>>
    decreases ids.len() - i,
{
    if i < 0 || i >= ids.len() {
        None
    } else if index_from(ids, ids[i], 0) != Some(i) {
        Some(ids[i])
    } else {
        first_dup_from(ids, i + 1)
    }
}

/// The resolved dependencies of the step at `cur` (whose id is `orig`),
/// from its `d`-th raw dependency on, given those resolved so far: blank
/// ones are skipped, each must name an earlier step, and each becomes that
/// step's id in the task (once).
pub open spec fn deps_from(
    deps: Seq<Seq<char>>,
    ids: Seq<Seq<char>>,
    task_id: Seq<char>,
    cur: int,
    orig: Seq<char>,
    d: int,
    acc: Seq<Seq<char>>,
) -> Result<Seq<Seq<char>>, Seq<char>>
    decreases deps.len() - d,
{
    if d < 0 || d >= deps.len() {
        Ok(acc)
    } else {
        let dep = trim(deps[d]);
        if dep.len() == 0 {
            deps_from(deps, ids, task_id, cur, orig, d + 1, acc)
        } else {
            match index_from(ids, dep, 0) {
                None => Err("Planner JSON 步骤 "@ + orig + " 引用了不存在的依赖: "@ + dep),
                Some(j) => if j >= cur {
                    Err("Planner JSON 步骤 "@ + orig + " 的依赖必须指向前置步骤: "@ + dep)
                } else {
                    let iid = step_id_of(task_id, (j + 1) as nat);
                    deps_from(
                        deps,
                        ids,
                        task_id,
                        cur,
                        orig,
                        d + 1,
                        if acc.contains(iid) {
                            acc
                        } else {
                            acc.push(iid)
                        },
                    )
                },
            }
        }
    }
}

/// The plan steps for the model's steps from position `i` on, given those
/// built so far; or the message of the first problem: an agent a plan may
/// not use, a blank instruction, or a bad dependency.
pub open spec fn plan_steps_from(
    steps: Seq<LlmStepView>,
    ids: Seq<Seq<char>>,
    task_id: Seq<char>,
    i: int,
    acc: Seq<PlanStepView>,
) -> Result<Seq<PlanStepView>, Seq<char>>
    decreases steps.len() - i,
{
    if i < 0 || i >= steps.len() {
        Ok(acc)
    } else {
        let s = steps[i];
        match agent_named(s.agent) {
            None => Err("Planner JSON 包含不允许的 Agent: "@ + s.agent),
            Some(a) => if trim(s.instruction).len() == 0 {
                Err("Planner JSON 步骤 "@ + ids[i] + " 的 instruction 不能为空"@)
            } else {
                match deps_from(s.depends_on, ids, task_id, i, ids[i], 0, Seq::empty()) {
                    Err(m) => Err(m),
                    Ok(ds) => plan_steps_from(
                        steps,
                        ids,
                        task_id,
                        i + 1,
                        acc.push(
                            pending_step(
                                step_id_of(task_id, (i + 1) as nat),
                                (i + 1) as u32,
                                a,
                                trim(s.instruction),
                                ds,
                            ),
                        ),
                    ),
                }
            },
        }
    }
}

/// The goal and steps of the plan a model wrote for task `task_id`, or the
/// message of the first problem: no steps, more than 12, a repeated step id,
/// or a bad step (see `plan_steps_from`). The model's goal, trimmed,
/// replaces `goal` unless it is absent or blank.
pub open spec fn envelope_plan(
    goal: Seq<char>,
    task_id: Seq<char>,
    env_goal: Option<Seq<char>>,
    steps: Seq<LlmStepView>,
) -> Result<(Seq<char>, Seq<PlanStepView>), Seq<char>> {
    if steps.len() == 0 {
        Err("Planner JSON 至少需要包含一个步骤"@)
    } else if steps.len() > 12 {
        Err("Planner JSON 步骤数量不能超过 12"@)
    } else {
        let ids = original_ids(steps);
        match first_dup_from(ids, 0) {
            Some(d) => Err("Planner JSON 步骤 ID 重复: "@ + d),
            None => match plan_steps_from(steps, ids, task_id, 0, Seq::empty()) {
                Err(m) => Err(m),
                Ok(ps) => Ok(
                    (
                        match env_goal {
                            Some(g) => match clean_opt(g) {
                                Some(t) => t,
                                None => goal,
                            },
                            None => goal,
                        },
                        ps,
                    ),
                ),
            },
        }
    }
}

fn contains_id(v: &Vec<String>, x: &str) -> (b: bool)
    ensures
        b == strs(v@).contains(x@),
{
    let mut k: usize = 0;
    while k < v.len()
        invariant
            k <= v@.len(),
            forall|j: int| 0 <= j < k ==> strs(v@)[j] != x@,
        decreases v.len() - k,
    {
        assert(strs(v@)[k as int] == v@[k as int]@);
        if str_eq(v[k].as_str(), x) {
            return true;
        }
        k += 1;
    }
    false
}

fn resolve_depends_on(
    raw: &Vec<String>,
    ids: &Vec<String>,
    task_id: &str,
    cur: usize,
    orig: &str,
) -> (r: Result<Vec<String>, AgentError>)
    requires
        cur < ids@.len() <= 12,
    ensures
        match deps_from(strs(raw@), strs(ids@), task_id@, cur as int, orig@, 0, Seq::empty()) {
            Ok(ds) => r matches Ok(v) && strs(v@) == ds,
            Err(m) => r matches Err(AgentError::MessageFormat(x)) && x@ == m,
        },
{
    let ghost rv = strs(raw@);
    let mut acc: Vec<String> = Vec::new();
    let mut d: usize = 0;
    proof {
        assert(strs(acc@) =~= Seq::<Seq<char>>::empty());
    }
    while d < raw.len()
        invariant
            d <= raw@.len(),
            rv == strs(raw@),
            cur < ids@.len() <= 12,
            deps_from(rv, strs(ids@), task_id@, cur as int, orig@, 0, Seq::empty()) == deps_from(
                rv,
                strs(ids@),
                task_id@,
                cur as int,
                orig@,
                d as int,
                strs(acc@),
            ),
        decreases raw.len() - d,
    {
        assert(rv[d as int] == raw@[d as int]@);
        let dep = trim_str(raw[d].as_str());
        if !dep.as_str().is_empty() {
            match find_id(ids, dep.as_str()) {
                None => {
                    let mut m = concat3("Planner JSON 步骤 ", orig, " 引用了不存在的依赖: ");
                    push_str(&mut m, dep.as_str());
                    return Err(AgentError::MessageFormat(m));
                },
                Some(j) => {
                    if j >= cur {
                        let mut m = concat3("Planner JSON 步骤 ", orig, " 的依赖必须指向前置步骤: ");
                        push_str(&mut m, dep.as_str());
                        return Err(AgentError::MessageFormat(m));
                    }
                    let iid = step_id(task_id, (j + 1) as u32);
                    if !contains_id(&acc, iid.as_str()) {
                        let ghost before = strs(acc@);
                        acc.push(iid);
                        assert(strs(acc@) =~= before.push(step_id_of(task_id@, (j + 1) as nat)));
                    }
                },
            }
        }
        d += 1;
    }
    Ok(acc)
}

impl TaskPlan {
    /// The plan a model wrote for task `task_id`, checked (see
    /// `envelope_plan`); a failed check is an error with its message.
    pub fn from_llm_envelope(goal: &str, task_id: String, envelope: LlmTaskPlanEnvelope) -> (r: Result<TaskPlan, AgentError>)
        ensures
            match envelope_plan(goal@, task_id@, opt_str(envelope.goal), llm_step_views(envelope.steps@)) {
                Ok((g, ps)) => r matches Ok(p) && p.task_id@ == task_id@ && p.goal@ == g
                    && p.step_views() == ps,
                Err(m) => r matches Err(AgentError::MessageFormat(x)) && x@ == m,
            },
    {
        let ghost sv = llm_step_views(envelope.steps@);
        let n = envelope.steps.len();
        if n == 0 {
            return Err(AgentError::MessageFormat(own("Planner JSON 至少需要包含一个步骤")));
        }
        if n > 12 {
            return Err(AgentError::MessageFormat(own("Planner JSON 步骤数量不能超过 12")));
        }
        let mut ids: Vec<String> = Vec::new();
        let mut i: usize = 0;
        while i < n
            invariant
                n == envelope.steps@.len() <= 12,
                sv == llm_step_views(envelope.steps@),
                i <= n,
                strs(ids@) == original_ids(sv).take(i as int),
            decreases n - i,
        {
            assert(sv[i as int] == envelope.steps@[i as int]@);
            let id = original_id(&envelope.steps[i], i + 1);
            let ghost before = strs(ids@);
            ids.push(id);
            assert(strs(ids@) =~= before.push(original_id_of(sv[i as int], (i + 1) as nat)));
            assert(original_ids(sv)[i as int] == original_id_of(sv[i as int], (i + 1) as nat));
            assert(original_ids(sv).take(i + 1) =~= original_ids(sv).take(i as int).push(original_ids(sv)[i as int]));
            i += 1;
        }
        let ghost idv = original_ids(sv);
        assert(strs(ids@) =~= idv);
        let mut i: usize = 0;
        while i < n
            invariant
                n == envelope.steps@.len() == ids@.len() <= 12,
                sv == llm_step_views(envelope.steps@),
                strs(ids@) == idv,
                idv == original_ids(sv),
                i <= n,
                first_dup_from(idv, 0) == first_dup_from(idv, i as int),
            decreases n - i,
        {
            assert(idv[i as int] == ids@[i as int]@);
            let j = find_id(&ids, ids[i].as_str());
            if j != Some(i) {
                return Err(AgentError::MessageFormat(concat2("Planner JSON 步骤 ID 重复: ", ids[i].as_str())));
            }
            i += 1;
        }
        let mut steps: Vec<PlanStep> = Vec::new();
        let mut i: usize = 0;
        let t = task_id.as_str();
        proof {
            assert(plan_step_views(steps@) =~= Seq::<PlanStepView>::empty());
        }
        while i < n
            invariant
                n == envelope.steps@.len() == ids@.len() <= 12,
                sv == llm_step_views(envelope.steps@),
                strs(ids@) == idv,
                idv == original_ids(sv),
                0 < n,
                t@ == task_id@,
                first_dup_from(idv, 0) is None,
                i <= n,
                plan_steps_from(sv, idv, task_id@, 0, Seq::empty()) == plan_steps_from(
                    sv,
                    idv,
                    task_id@,
                    i as int,
                    plan_step_views(steps@),
                ),
            decreases n - i,
        {
            let s = &envelope.steps[i];
            assert(sv[i as int] == s@);
            assert(idv[i as int] == ids@[i as int]@);
            let agent = match normalize_agent_id(s.agent.as_str()) {
                Some(a) => a,
                None => {
                    return Err(AgentError::MessageFormat(concat2("Planner JSON 包含不允许的 Agent: ", s.agent.as_str())));
                },
            };
            let instruction = trim_str(s.instruction.as_str());
            if instruction.as_str().is_empty() {
                return Err(AgentError::MessageFormat(concat3("Planner JSON 步骤 ", ids[i].as_str(), " 的 instruction 不能为空")));
            }
            let deps = match resolve_depends_on(&s.depends_on, &ids, t, i, ids[i].as_str()) {
                Ok(d) => d,
                Err(e) => return Err(e),
            };
            let ghost before = plan_step_views(steps@);
            let order = (i + 1) as u32;
            steps.push(PlanStep {
                step_id: step_id(t, order),
                order,
                agent,
                instruction,
                depends_on: deps,
                status: StepStatus::Pending,
            });
            assert(plan_step_views(steps@) =~= before.push(
                pending_step(
                    step_id_of(task_id@, (i + 1) as nat),
                    (i + 1) as u32,
                    agent_named(sv[i as int].agent)->0,
                    trim(sv[i as int].instruction),
                    deps_from(sv[i as int].depends_on, idv, task_id@, i as int, idv[i as int], 0, Seq::empty())->Ok_0,
                ),
            ));
            i += 1;
        }
        let g = match &envelope.goal {
            Some(x) => match crate::text::clean_str(x.as_str()) {
                Some(t) => t,
                None => own(goal),
            },
            None => own(goal),
        };
        Ok(TaskPlan { task_id, goal: g, steps, created_at: crate::clock::now_millis() })
    }
}


// ------------------------------------------------------------------
// Plans for software goals
// ------------------------------------------------------------------
/// Parts joined by `, `.
pub open spec fn join_comma(parts: Seq<Seq<char>>) -> Seq<char>
    decreases parts.len(),
{
    if parts.len() == 0 {
        Seq::empty()
    } else if parts.len() == 1 {
        parts[0]
    } else {
        join_comma(parts.drop_last()) + ", "@ + parts.last()
    }
}

fn join_comma_strings(parts: &Vec<String>) -> (r: String)
    ensures
        r@ == join_comma(strs(parts@)),
{
    let ghost ps = strs(parts@);
    let mut r = String::new();
    let mut i: usize = 0;
    while i < parts.len()
        invariant
            i <= parts@.len(),
            ps == strs(parts@),
            r@ == join_comma(ps.take(i as int)),
        decreases parts.len() - i,
    {
        assert(ps.take(i + 1).drop_last() =~= ps.take(i as int));
        if i > 0 {
            push_str(&mut r, ", ");
        }
        push_str(&mut r, parts[i].as_str());
        proof {
            if i == 0 {
                assert(r@ =~= ps.take(1)[0]);
            }
        }
        i += 1;
    }
    assert(ps.take(parts@.len() as int) =~= ps);
    r
}

/// The strings among `items` from position `k` on, after those in `acc`,
/// until `limit` are collected.
pub open spec fn strings_from(items: Seq<Json>, k: int, limit: nat, acc: Seq<Seq<char>>) -> Seq<Seq<char>>
    decreases items.len() - k,
{
    if k < 0 || k >= items.len() || acc.len() >= limit {
        acc
    } else {
        match items[k] {
            Json::Str(s) => strings_from(items, k + 1, limit, acc.push(s)),
            _ => strings_from(items, k + 1, limit, acc),
        }
    }
}

/// The `command` strings of `items` from position `k` on, after those in
/// `acc`, until `limit` are collected.
pub open spec fn commands_from(items: Seq<Json>, k: int, limit: nat, acc: Seq<Seq<char>>) -> Seq<Seq<char>>
    decreases items.len() - k,
{
    if k < 0 || k >= items.len() || acc.len() >= limit {
        acc
    } else {
        match crate::json::json_get_str(items[k], "command"@) {
            Some(s) => commands_from(items, k + 1, limit, acc.push(s)),
            None => commands_from(items, k + 1, limit, acc),
        }
    }
}

/// The distinct `path` strings of `items` from position `k` on, after those
/// in `acc`, stopping once five are collected.
pub open spec fn paths_from(items: Seq<Json>, k: int, acc: Seq<Seq<char>>) -> Seq<Seq<char>>
    decreases items.len() - k,
{
    if k < 0 || k >= items.len() {
        acc
    } else {
        let acc2 = match crate::json::json_get_str(items[k], "path"@) {
            Some(p) => if acc.contains(p) {
                acc
            } else {
                acc.push(p)
            },
            None => acc,
        };
        if acc2.len() >= 5 {
            acc2
        } else {
            paths_from(items, k + 1, acc2)
        }
    }
}

/// The array under `key` of `j`'s field `outer` (or of `j` itself when
/// `outer` is empty).
pub open spec fn array_at(j: Json, outer: Seq<char>, key: Seq<char>) -> Option<Seq<Json>> {
    let base = if outer.len() == 0 {
        Some(j)
    } else {
        crate::json::json_get(j, outer)
    };
    match base {
        Some(b) => match crate::json::json_get(b, key) {
            Some(Json::Array(items)) => Some(items),
            _ => None,
        },
        None => None,
    }
}

/// `text` unless it is empty, else `default`.
pub open spec fn or_default(text: Seq<char>, default: Seq<char>) -> Seq<char> {
    if text.len() == 0 {
        default
    } else {
        text
    }
}

/// The technology stack named by a project context.
pub open spec fn tech_stack_text(pc: Json) -> Seq<char> {
    match array_at(pc, "snapshot"@, "techStack"@) {
        Some(items) => or_default(join_comma(strings_from(items, 0, 8, Seq::empty())), "未知技术栈"@),
        None => "未知技术栈"@,
    }
}

/// The search query of a project context.
pub open spec fn search_query_text(pc: Json) -> Seq<char> {
    match crate::json::json_get_str(pc, "searchQuery"@) {
        Some(q) => q,
        None => "未生成搜索词"@,
    }
}

/// The files a project context's search found.
pub open spec fn related_files_text(pc: Json) -> Seq<char> {
    match array_at(pc, Seq::empty(), "searchMatches"@) {
        Some(items) => or_default(join_comma(paths_from(items, 0, Seq::empty())), "暂无直接命中文件，优先查看项目关键文件"@),
        None => "暂无直接命中文件，优先查看项目关键文件"@,
    }
}

/// The commands a project context recommends.
pub open spec fn commands_text(pc: Json) -> Seq<char> {
    match array_at(pc, "snapshot"@, "recommendedCommands"@) {
        Some(items) => or_default(join_comma(commands_from(items, 0, 4, Seq::empty())), "cargo check, cargo test"@),
        None => "cargo check, cargo test"@,
    }
}

/// The plan for a software goal with a project context: understand the task
/// on the project snapshot, search the related source read-only, work out an
/// implementation without modifying files, and record what was learned.
pub open spec fn software_plan_steps(goal: Seq<char>, task_id: Seq<char>, pc: Json) -> Seq<PlanStepView> {
    let id1 = step_id_of(task_id, 1);
    let id2 = step_id_of(task_id, 2);
    let id3 = step_id_of(task_id, 3);
    seq![
        pending_step(id1, 1, "Planner"@, "基于项目快照理解软件任务: "@ + goal + "。当前技术栈: "@ + tech_stack_text(pc) + "。"@, seq![]),
        pending_step(
            id2,
            2,
            "Tool"@,
            "只读检索相关源码。搜索词: "@ + search_query_text(pc) + "。优先关注: "@ + related_files_text(pc) + "。"@,
            seq![id1],
        ),
        pending_step(
            id3,
            3,
            "Executor"@,
            "结合项目结构形成实现方案和模拟执行结果，不直接修改文件: "@ + goal + "。建议验证命令: "@ + commands_text(pc)
                + "。"@,
            seq![id2],
        ),
        pending_step(step_id_of(task_id, 4), 4, "Memory"@, "记录本轮项目事实、相关文件和后续实现建议: "@ + goal + "。"@, seq![id3]),
    ]
}

fn array_items<'a>(j: &'a JsonValue, outer: &str, key: &str) -> (r: Option<&'a Vec<JsonValue>>)
    ensures
        match r {
            Some(items) => array_at(jv(*j), outer@, key@) == Some(crate::json::jv_items(items@)),
            None => array_at(jv(*j), outer@, key@) is None,
        },
{
    let base = if outer.is_empty() {
        Some(j)
    } else {
        j.get(outer)
    };
    match base {
        Some(b) => match b.get(key) {
            Some(JsonValue::Array(items)) => Some(items),
            _ => None,
        },
        None => None,
    }
}

fn collect_strings(items: &Vec<JsonValue>, limit: usize, commands: bool) -> (r: Vec<String>)
    ensures
        strs(r@) == if commands {
            commands_from(crate::json::jv_items(items@), 0, limit as nat, Seq::empty())
        } else {
            strings_from(crate::json::jv_items(items@), 0, limit as nat, Seq::empty())
        },
{
    let ghost iv = crate::json::jv_items(items@);
    proof {
        crate::json::lemma_jv_items_len(items@);
    }
    let mut out: Vec<String> = Vec::new();
    let mut k: usize = 0;
    proof {
        assert(strs(out@) =~= Seq::<Seq<char>>::empty());
    }
    while k < items.len() && out.len() < limit
        invariant
            iv == crate::json::jv_items(items@),
            iv.len() == items@.len(),
            forall|i: int| 0 <= i < items@.len() ==> #[trigger] iv[i] == jv(items@[i]),
            k <= items@.len(),
            (if commands {
                commands_from(iv, 0, limit as nat, Seq::empty())
            } else {
                strings_from(iv, 0, limit as nat, Seq::empty())
            }) == (if commands {
                commands_from(iv, k as int, limit as nat, strs(out@))
            } else {
                strings_from(iv, k as int, limit as nat, strs(out@))
            }),
        decreases items.len() - k,
    {
        assert(iv[k as int] == jv(items@[k as int]));
        let found: Option<&String> = if commands {
            items[k].get_str("command")
        } else {
            match &items[k] {
                JsonValue::Str(s) => Some(s),
                _ => None,
            }
        };
        match found {
            Some(s) => {
                let ghost before = strs(out@);
                out.push(s.clone());
                assert(strs(out@) =~= before.push(s@));
            },
            None => {},
        }
        k += 1;
    }
    out
}

fn collect_paths(items: &Vec<JsonValue>) -> (r: Vec<String>)
    ensures
        strs(r@) == paths_from(crate::json::jv_items(items@), 0, Seq::empty()),
{
    let ghost iv = crate::json::jv_items(items@);
    proof {
        crate::json::lemma_jv_items_len(items@);
    }
    let mut out: Vec<String> = Vec::new();
    let mut k: usize = 0;
    proof {
        assert(strs(out@) =~= Seq::<Seq<char>>::empty());
    }
    while k < items.len()
        invariant
            iv == crate::json::jv_items(items@),
            iv.len() == items@.len(),
            forall|i: int| 0 <= i < items@.len() ==> #[trigger] iv[i] == jv(items@[i]),
            k <= items@.len(),
            paths_from(iv, 0, Seq::empty()) == paths_from(iv, k as int, strs(out@)),
        decreases items.len() - k,
    {
        assert(iv[k as int] == jv(items@[k as int]));
        match items[k].get_str("path") {
            Some(p) => {
                if !contains_id_str(&out, p.as_str()) {
                    let ghost before = strs(out@);
                    out.push(p.clone());
                    assert(strs(out@) =~= before.push(p@));
                }
            },
            None => {},
        }
        if out.len() >= 5 {
            return out;
        }
        k += 1;
    }
    out
}

fn contains_id_str(v: &Vec<String>, x: &str) -> (b: bool)
    ensures
        b == strs(v@).contains(x@),
{
    let mut k: usize = 0;
    while k < v.len()
        invariant
            k <= v@.len(),
            forall|j: int| 0 <= j < k ==> strs(v@)[j] != x@,
        decreases v.len() - k,
    {
        assert(strs(v@)[k as int] == v@[k as int]@);
        if str_eq(v[k].as_str(), x) {
            return true;
        }
        k += 1;
    }
    false
}

fn text_or(text: String, default: &str) -> (r: String)
    ensures
        r@ == or_default(text@, default@),
{
    if text.as_str().is_empty() {
        own(default)
    } else {
        text
    }
}

fn tech_stack(pc: &JsonValue) -> (r: String)
    ensures
        r@ == tech_stack_text(jv(*pc)),
{
    match array_items(pc, "snapshot", "techStack") {
        Some(items) => text_or(join_comma_strings(&collect_strings(items, 8, false)), "未知技术栈"),
        None => own("未知技术栈"),
    }
}

fn search_query(pc: &JsonValue) -> (r: String)
    ensures
        r@ == search_query_text(jv(*pc)),
{
    match pc.get_str("searchQuery") {
        Some(q) => q.clone(),
        None => own("未生成搜索词"),
    }
}

fn related_files(pc: &JsonValue) -> (r: String)
    ensures
        r@ == related_files_text(jv(*pc)),
{
    proof {
        reveal_strlit("");
    }
    match array_items(pc, "", "searchMatches") {
        Some(items) => text_or(join_comma_strings(&collect_paths(items)), "暂无直接命中文件，优先查看项目关键文件"),
        None => own("暂无直接命中文件，优先查看项目关键文件"),
    }
}

fn recommended_commands(pc: &JsonValue) -> (r: String)
    ensures
        r@ == commands_text(jv(*pc)),
{
    match array_items(pc, "snapshot", "recommendedCommands") {
        Some(items) => text_or(join_comma_strings(&collect_strings(items, 4, true)), "cargo check, cargo test"),
        None => own("cargo check, cargo test"),
    }
}

impl TaskPlan {
    /// The plan for a software goal with a project context (see
    /// `software_plan_steps`).
    pub fn from_software_goal(goal: &str, task_id: String, project_context: &JsonValue) -> (p: TaskPlan)
        ensures
            p.task_id@ == task_id@,
            p.goal@ == goal@,
            p.step_views() == software_plan_steps(goal@, task_id@, jv(*project_context)),
    {
        let t = task_id.as_str();
        let tech = tech_stack(project_context);
        let query = search_query(project_context);
        let files = related_files(project_context);
        let cmds = recommended_commands(project_context);
        let mut i1 = concat3("基于项目快照理解软件任务: ", goal, "。当前技术栈: ");
        push_str(&mut i1, tech.as_str());
        push_str(&mut i1, "。");
        let mut i2 = concat3("只读检索相关源码。搜索词: ", query.as_str(), "。优先关注: ");
        push_str(&mut i2, files.as_str());
        push_str(&mut i2, "。");
        let mut i3 = concat3("结合项目结构形成实现方案和模拟执行结果，不直接修改文件: ", goal, "。建议验证命令: ");
        push_str(&mut i3, cmds.as_str());
        push_str(&mut i3, "。");
        let i4 = concat3("记录本轮项目事实、相关文件和后续实现建议: ", goal, "。");
        let mut steps: Vec<PlanStep> = Vec::new();
        steps.push(new_step(step_id(t, 1), 1, "Planner", i1, no_deps()));
        steps.push(new_step(step_id(t, 2), 2, "Tool", i2, one_dep(t, 1)));
        steps.push(new_step(step_id(t, 3), 3, "Executor", i3, one_dep(t, 2)));
        steps.push(new_step(step_id(t, 4), 4, "Memory", i4, one_dep(t, 3)));
        assert(plan_step_views(steps@) =~= software_plan_steps(goal@, task_id@, jv(*project_context)));
        TaskPlan { task_id, goal: own(goal), steps, created_at: crate::clock::now_millis() }
    }

    /// The plan for a goal given the message context: a software goal (see
    /// `is_software_goal`) with a `projectPlanningContext` gets the software
    /// plan, any other goal the rule-based plan.
    pub fn from_goal_with_context(goal: &str, task_id: String, context: &JsonValue) -> (p: TaskPlan)
        ensures
            p.task_id@ == task_id@,
            p.goal@ == goal@,
            p.step_views() == match crate::json::json_get(jv(*context), "projectPlanningContext"@) {
                Some(pc) => if mentions_software(crate::text::unicode_lowercase(goal@)) {
                    software_plan_steps(goal@, task_id@, pc)
                } else {
                    goal_plan_steps(goal@, task_id@)
                },
                None => goal_plan_steps(goal@, task_id@),
            },
    {
        if is_software_goal(goal) {
            if let Some(pc) = context.get("projectPlanningContext") {
                return TaskPlan::from_software_goal(goal, task_id, pc);
            }
        }
        TaskPlan::from_goal_with_id(goal, task_id)
    }
}

} // verus!
