//! Agent capabilities, status and the state each built-in agent keeps.
use vstd::prelude::*;
use crate::json::{JsonValue, jv};
use crate::llm::LLMClient;
use crate::text::{chars_of, collapse_ws, collapse_whitespace, decimal, decimal_string, own, push_str, string_of_range, trim, trim_str};

verus! {

broadcast use vstd::std_specs::vec::group_vec_axioms;

/// How strong a capability is.
#[derive(Debug, Clone, Copy, PartialEq, Eq, Structural)]
pub enum CapabilityLevel {
    Basic,
    Advanced,
    Expert,
}

/// A capability an agent declares: its name, a description and a level.
#[derive(Debug, Clone)]
pub struct Capability {
    pub name: String,
    pub description: String,
    pub level: CapabilityLevel,
}

/// Whether `c` is the capability with the given name, description and level.
pub open spec fn is_capability(c: Capability, name: Seq<char>, description: Seq<char>, level: CapabilityLevel) -> bool {
    c.name@ == name && c.description@ == description && c.level == level
}

fn capability(name: &str, description: &str, level: CapabilityLevel) -> (c: Capability)
    ensures
        is_capability(c, name@, description@, level),
{
    Capability { name: own(name), description: own(description), level }
}

impl Capability {
    /// Conversation in natural language.
    pub fn chat() -> (c: Capability)
        ensures
            is_capability(c, "chat"@, "通用对话能力，可理解和回复自然语言"@, CapabilityLevel::Basic),
    {
        capability("chat", "通用对话能力，可理解和回复自然语言", CapabilityLevel::Basic)
    }

    /// Splitting a goal into executable steps.
    pub fn planning() -> (c: Capability)
        ensures
            is_capability(c, "planning"@, "将复杂目标分解为可执行步骤"@, CapabilityLevel::Advanced),
    {
        capability("planning", "将复杂目标分解为可执行步骤", CapabilityLevel::Advanced)
    }

    /// Running code, scripts and commands.
    pub fn code_execution() -> (c: Capability)
        ensures
            is_capability(c, "code_execution"@, "执行代码、脚本和命令"@, CapabilityLevel::Advanced),
    {
        capability("code_execution", "执行代码、脚本和命令", CapabilityLevel::Advanced)
    }

    /// Looking information up.
    pub fn retrieval() -> (c: Capability)
        ensures
            is_capability(c, "retrieval"@, "从知识库或外部源检索信息"@, CapabilityLevel::Basic),
    {
        capability("retrieval", "从知识库或外部源检索信息", CapabilityLevel::Basic)
    }

    /// Calling tools and APIs.
    pub fn tool_use() -> (c: Capability)
        ensures
            is_capability(c, "tool_use"@, "调用外部工具和 API"@, CapabilityLevel::Advanced),
    {
        capability("tool_use", "调用外部工具和 API", CapabilityLevel::Advanced)
    }

    /// Keeping conversation history and long-term memory.
    pub fn memory() -> (c: Capability)
        ensures
            is_capability(c, "memory"@, "管理对话历史和长期记忆"@, CapabilityLevel::Basic),
    {
        capability("memory", "管理对话历史和长期记忆", CapabilityLevel::Basic)
    }

    /// Reviewing results, risks and missing checks.
    pub fn review() -> (c: Capability)
        ensures
            is_capability(c, "review"@, "审查执行结果、风险和缺失验证"@, CapabilityLevel::Expert),
    {
        capability("review", "审查执行结果、风险和缺失验证", CapabilityLevel::Expert)
    }

    /// Summing up what a task taught and proposing improvements.
    pub fn evolution() -> (c: Capability)
        ensures
            is_capability(c, "evolution"@, "总结任务经验并提出后续改进建议"@, CapabilityLevel::Advanced),
    {
        capability("evolution", "总结任务经验并提出后续改进建议", CapabilityLevel::Advanced)
    }

    /// Drafting code changes as patch proposals.
    pub fn coding() -> (c: Capability)
        ensures
            is_capability(c, "coding"@, "起草代码改动并整理为补丁草案"@, CapabilityLevel::Advanced),
    {
        capability("coding", "起草代码改动并整理为补丁草案", CapabilityLevel::Advanced)
    }

    /// Planning verification runs.
    pub fn testing() -> (c: Capability)
        ensures
            is_capability(c, "testing"@, "规划验证命令并汇总测试结论"@, CapabilityLevel::Advanced),
    {
        capability("testing", "规划验证命令并汇总测试结论", CapabilityLevel::Advanced)
    }
}

/// The names of a list of capabilities, in order.
pub open spec fn capability_names(caps: Seq<Capability>) -> Seq<Seq<char>> {
    caps.map_values(|c: Capability| c.name@)
}

/// What an agent is doing.
#[derive(Debug, Clone, PartialEq, Eq)]
pub enum AgentStatus {
    Idle,
    Busy,
    Error(String),
    Stopped,
}

/// What the status panel shows of an agent.
#[derive(Debug, Clone)]
pub struct AgentInfo {
    pub name: String,
    pub status: AgentStatus,
    pub capabilities: Vec<Capability>,
    pub current_task: Option<String>,
    pub messages_processed: u64,
}

/// The outcome of running something.
#[derive(Debug, Clone)]
pub struct ExecutionResult {
    pub success: bool,
    pub output: String,
    pub duration_ms: u64,
    pub error: Option<String>,
}

/// One turn of a conversation kept in memory.
#[derive(Debug, Clone)]
pub struct ConversationTurn {
    pub id: String,
    pub session_id: String,
    pub role: String,
    pub content: String,
    pub agent_name: Option<String>,
    pub created_at: String,
}

// ------------------------------------------------------------------
// Text summaries
// ------------------------------------------------------------------
/// The first `max` characters of `s`, followed by `...` when `s` was longer.
pub open spec fn clipped(s: Seq<char>, max: nat) -> Seq<char> {
    if s.len() > max {
        s.take(max as int) + "..."@
    } else {
        s
    }
}

/// `text` with its whitespace runs collapsed, clipped to `max_chars`.
pub fn summarize_text(text: &str, max_chars: usize) -> (r: String)
    ensures
        r@ == clipped(collapse_ws(text@), max_chars as nat),
{
    let normalized = collapse_whitespace(text);
    let cs = chars_of(normalized.as_str());
    if cs.len() > max_chars {
        let mut r = string_of_range(&cs, 0, max_chars);
        push_str(&mut r, "...");
        r
    } else {
        normalized
    }
}

/// The characters of `s` before its first line feed (all of `s` if none).
pub open spec fn before_newline(s: Seq<char>) -> Seq<char>
    decreases s.len(),
{
    if s.len() == 0 || s[0] == '\n' {
        Seq::empty()
    } else {
        seq![s[0]] + before_newline(s.drop_first())
    }
}

proof fn lemma_before_newline(s: Seq<char>, e: int)
    requires
        0 <= e <= s.len(),
        forall|j: int| 0 <= j < e ==> s[j] != '\n',
        e == s.len() || s[e] == '\n',
    ensures
        before_newline(s) == s.take(e),
    decreases e,
{
    if e == 0 {
        assert(s.take(0) =~= Seq::<char>::empty());
    } else {
        lemma_before_newline(s.drop_first(), e - 1);
        assert(s.take(e) =~= seq![s[0]] + s.drop_first().take(e - 1));
    }
}

/// Text used when a value has no first line.
pub const NO_SUMMARY: &'static str = "无摘要";

/// The first line of `s`, trimmed, or `无摘要` when it is blank, cut to 160
/// characters.
pub open spec fn first_line_of(s: Seq<char>) -> Seq<char> {
    let t = trim(before_newline(s));
    let line = if t.len() == 0 {
        NO_SUMMARY@
    } else {
        t
    };
    if line.len() > 160 {
        line.take(160)
    } else {
        line
    }
}

/// The first line of `value` (see `first_line_of`).
pub fn first_line(value: &str) -> (r: String)
    ensures
        r@ == first_line_of(value@),
{
    let cs = chars_of(value);
    let mut e: usize = 0;
    while e < cs.len() && cs[e] != '\n'
        invariant
            e <= cs@.len(),
            forall|j: int| 0 <= j < e ==> cs@[j] != '\n',
        decreases cs.len() - e,
    {
        e += 1;
    }
    proof {
        lemma_before_newline(cs@, e as int);
        assert(cs@.take(e as int) =~= cs@.subrange(0, e as int));
    }
    let line = string_of_range(&cs, 0, e);
    let t = trim_str(line.as_str());
    let chosen = if t.as_str().is_empty() {
        own(NO_SUMMARY)
    } else {
        t
    };
    let ls = chars_of(chosen.as_str());
    if ls.len() > 160 {
        string_of_range(&ls, 0, 160)
    } else {
        chosen
    }
}

// ------------------------------------------------------------------
// Built-in agents
// ------------------------------------------------------------------
/// The agent that drafts patch proposals.
#[derive(Debug)]
pub struct CoderAgent {
    count: u64,
}

impl CoderAgent {
    /// A coder that has handled nothing yet.
    pub fn new() -> (a: Self)
        ensures
            a.handled() == 0,
    {
        CoderAgent { count: 0 }
    }

    /// How many messages it has handled.
    pub closed spec fn handled(&self) -> u64 {
        self.count
    }

    /// Its name.
    pub fn name(&self) -> (r: &'static str)
        ensures
            r@ == "Coder"@,
    {
        "Coder"
    }

    /// Handles one message: counts it and answers with the reply text and
    /// the patch proposal draft for its instruction and context (see
    /// `draft_json`), drafted at the time of handling.
    pub fn draft(&mut self, content: &str, context: &JsonValue, task_id: Option<&String>) -> (r: (String, JsonValue))
        requires
            old(self).handled() < u64::MAX,
        ensures
            final(self).handled() == old(self).handled() + 1,
            r.0@ == crate::coding::draft_summary(
                crate::coding::array_or_empty(jv(*context), "reworkSuggestions"@).len() == 0,
            ),
            exists|at: i64|
                jv(r.1) == crate::coding::draft_json(content@, jv(*context), crate::task::opt_ref_str(task_id), at),
    {
        self.count = self.count + 1;
        let at = crate::clock::now_millis();
        crate::coding::patch_draft(content, context, task_id, at)
    }

    /// What it can do: drafting code changes.
    pub fn capabilities(&self) -> (r: Vec<Capability>)
        ensures
            r@.len() == 1,
            is_capability(r@[0], "coding"@, "起草代码改动并整理为补丁草案"@, CapabilityLevel::Advanced),
    {
        let mut v = Vec::new();
        v.push(Capability::coding());
        v
    }
}

/// The agent that answers every message with its own text and a counter.
#[derive(Debug)]
pub struct EchoAgent {
    count: u64,
}

/// The echo of the `n`-th message with content `content`.
pub open spec fn echo_text(n: nat, content: Seq<char>) -> Seq<char> {
    "[Echo #"@ + decimal(n) + "] "@ + content
}

impl EchoAgent {
    /// An echo agent that has handled nothing yet.
    pub fn new() -> (a: Self)
        ensures
            a.handled() == 0,
    {
        EchoAgent { count: 0 }
    }

    /// How many messages it has handled.
    pub closed spec fn handled(&self) -> u64 {
        self.count
    }

    /// Its name.
    pub fn name(&self) -> (r: &'static str)
        ensures
            r@ == "Echo"@,
    {
        "Echo"
    }

    /// What it can do: chat.
    pub fn capabilities(&self) -> (r: Vec<Capability>)
        ensures
            r@.len() == 1,
            is_capability(r@[0], "chat"@, "通用对话能力，可理解和回复自然语言"@, CapabilityLevel::Basic),
    {
        let mut v = Vec::new();
        v.push(Capability::chat());
        v
    }

    /// Counts one more message and answers it: `[Echo #n] content`, where
    /// `n` is the number of messages handled so far.
    pub fn echo(&mut self, content: &str) -> (r: String)
        requires
            old(self).handled() < u64::MAX,
        ensures
            final(self).handled() == old(self).handled() + 1,
            r@ == echo_text(final(self).handled() as nat, content@),
    {
        self.count = self.count + 1;
        let mut r = own("[Echo #");
        let n = decimal_string(self.count);
        push_str(&mut r, n.as_str());
        push_str(&mut r, "] ");
        push_str(&mut r, content);
        r
    }
}

/// The agent that sums up task experience.
#[derive(Debug)]
pub struct EvolutionAgent {
    count: u64,
}

impl EvolutionAgent {
    /// An evolution agent that has handled nothing yet.
    pub fn new() -> (a: Self)
        ensures
            a.handled() == 0,
    {
        EvolutionAgent { count: 0 }
    }

    /// How many messages it has handled.
    pub closed spec fn handled(&self) -> u64 {
        self.count
    }

    /// Its name.
    pub fn name(&self) -> (r: &'static str)
        ensures
            r@ == "Evolution"@,
    {
        "Evolution"
    }

    /// Handles one message: counts it and answers with the summary and the
    /// evolution note on its context (see `evolution_note_json`), generated
    /// at the time of handling.
    pub fn evolve(&mut self, context: &JsonValue, task_id: Option<&String>) -> (r: (String, JsonValue))
        requires
            old(self).handled() < u64::MAX,
        ensures
            final(self).handled() == old(self).handled() + 1,
            r.0@ == crate::evolution::evolution_summary(crate::evolution::observations_of(jv(*context)).len() == 0),
            exists|at: i64|
                jv(r.1) == crate::evolution::evolution_note_json(jv(*context), crate::task::opt_ref_str(task_id), at),
    {
        self.count = self.count + 1;
        let at = crate::clock::now_millis();
        crate::evolution::evolution_note(context, task_id, at)
    }

    /// What it can do: evolution notes and memory.
    pub fn capabilities(&self) -> (r: Vec<Capability>)
        ensures
            capability_names(r@) == seq!["evolution"@, "memory"@],
            is_capability(r@[0], "evolution"@, "总结任务经验并提出后续改进建议"@, CapabilityLevel::Advanced),
            is_capability(r@[1], "memory"@, "管理对话历史和长期记忆"@, CapabilityLevel::Basic),
    {
        let mut v = Vec::new();
        v.push(Capability::evolution());
        v.push(Capability::memory());
        assert(capability_names(v@) =~= seq!["evolution"@, "memory"@]);
        v
    }
}

/// The agent that reviews results.
#[derive(Debug)]
pub struct ReviewAgent {
    count: u64,
}

impl ReviewAgent {
    /// A review agent that has handled nothing yet.
    pub fn new() -> (a: Self)
        ensures
            a.handled() == 0,
    {
        ReviewAgent { count: 0 }
    }

    /// How many messages it has handled.
    pub closed spec fn handled(&self) -> u64 {
        self.count
    }

    /// Its name.
    pub fn name(&self) -> (r: &'static str)
        ensures
            r@ == "Review"@,
    {
        "Review"
    }

    /// Reviews one instruction and its context: counts the message and
    /// answers with the summary and the report, reviewed now.
    pub fn review(&mut self, content: &str, context: &JsonValue, task_id: Option<&String>) -> (r: (String, JsonValue))
        requires
            old(self).handled() < u64::MAX,
        ensures
            final(self).handled() == old(self).handled() + 1,
            r.0@ == crate::review::review_summary(
                crate::review::review_passed(crate::review::findings_of(content@, jv(*context))),
            ),
            exists|at: i64|
                jv(r.1) == crate::review::review_report_json(
                    content@,
                    jv(*context),
                    crate::task::opt_ref_str(task_id),
                    at,
                ),
    {
        self.count = self.count + 1;
        let at = crate::clock::now_millis();
        crate::review::review_report(content, context, task_id, at)
    }

    /// What it can do: review.
    pub fn capabilities(&self) -> (r: Vec<Capability>)
        ensures
            r@.len() == 1,
            is_capability(r@[0], "review"@, "审查执行结果、风险和缺失验证"@, CapabilityLevel::Expert),
    {
        let mut v = Vec::new();
        v.push(Capability::review());
        v
    }
}

/// The agent that plans verification runs.
#[derive(Debug)]
pub struct TesterAgent {
    count: u64,
}

impl TesterAgent {
    /// A tester that has handled nothing yet.
    pub fn new() -> (a: Self)
        ensures
            a.handled() == 0,
    {
        TesterAgent { count: 0 }
    }

    /// How many messages it has handled.
    pub closed spec fn handled(&self) -> u64 {
        self.count
    }

    /// Its name.
    pub fn name(&self) -> (r: &'static str)
        ensures
            r@ == "Tester"@,
    {
        "Tester"
    }

    /// Plans the checks for one instruction and its context: counts the
    /// message and answers with the summary and the report, made now.
    pub fn plan_tests(&mut self, content: &str, context: &JsonValue, task_id: Option<&String>) -> (r: (String, JsonValue))
        requires
            old(self).handled() < u64::MAX,
        ensures
            final(self).handled() == old(self).handled() + 1,
            exists|at: i64|
                jv(r.1) == crate::testing::test_report_json(
                    content@,
                    jv(*context),
                    crate::task::opt_ref_str(task_id),
                    at,
                ),
    {
        self.count = self.count + 1;
        let at = crate::clock::now_millis();
        crate::testing::test_report(content, context, task_id, at)
    }

    /// What it can do: testing.
    pub fn capabilities(&self) -> (r: Vec<Capability>)
        ensures
            r@.len() == 1,
            is_capability(r@[0], "testing"@, "规划验证命令并汇总测试结论"@, CapabilityLevel::Advanced),
    {
        let mut v = Vec::new();
        v.push(Capability::testing());
        v
    }
}

/// The agent that plans tasks, by rules or, when it has a client, with a
/// language model.
#[derive(Debug)]
pub struct PlannerAgent {
    plans_created: u64,
    llm_client: Option<LLMClient>,
}

impl PlannerAgent {
    /// A rule-based planner that has planned nothing yet.
    pub fn new() -> (a: Self)
        ensures
            a.plans() == 0,
            !a.uses_llm(),
    {
        PlannerAgent { plans_created: 0, llm_client: None }
    }

    /// A planner that asks `llm_client` for plans.
    pub fn with_llm_client(llm_client: LLMClient) -> (a: Self)
        ensures
            a.plans() == 0,
            a.uses_llm(),
            a.client() == Some(llm_client@),
    {
        PlannerAgent { plans_created: 0, llm_client: Some(llm_client) }
    }

    /// How many plans it has made.
    pub closed spec fn plans(&self) -> u64 {
        self.plans_created
    }

    /// Whether it plans with a language model.
    pub closed spec fn uses_llm(&self) -> bool {
        self.llm_client is Some
    }

    /// The model of its client, if it has one.
    pub closed spec fn client(&self) -> Option<crate::llm::ClientView> {
        match self.llm_client {
            Some(c) => Some(c@),
            None => None,
        }
    }

    /// Its client, if it has one.
    pub fn llm_client(&self) -> (r: Option<&LLMClient>)
        ensures
            match r {
                Some(c) => self.client() == Some(c@),
                None => self.client() is None,
            },
    {
        match &self.llm_client {
            Some(c) => Some(c),
            None => None,
        }
    }

    /// Its name.
    pub fn name(&self) -> (r: &'static str)
        ensures
            r@ == "Planner"@,
    {
        "Planner"
    }

    /// What it can do: planning.
    pub fn capabilities(&self) -> (r: Vec<Capability>)
        ensures
            r@.len() == 1,
            is_capability(r@[0], "planning"@, "将复杂目标分解为可执行步骤"@, CapabilityLevel::Advanced),
    {
        let mut v = Vec::new();
        v.push(Capability::planning());
        v
    }
}

} // verus!
