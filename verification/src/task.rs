//! Task and step state for the software-engineering task runtime.
use vstd::prelude::*;
use crate::clock::{new_uuid, now_millis};
use crate::json::{Json, JsonValue, jv};
use crate::text::{collapse_whitespace, collapse_ws, own, push_str};

verus! {

/// Overall task lifecycle.
#[derive(Clone, Copy, Debug, PartialEq, Eq, Structural)]
pub enum TaskStatus {
    Draft,
    Planning,
    WaitingApproval,
    Running,
    Reviewing,
    Failed,
    Completed,
    Cancelled,
}

/// Individual step lifecycle.
#[derive(Clone, Copy, Debug, PartialEq, Eq, Structural)]
pub enum StepStatus {
    Pending,
    WaitingApproval,
    Running,
    TimedOut,
    Failed,
    Completed,
    Skipped,
}

/// Event kind emitted while a task changes state.
#[derive(Clone, Copy, Debug, PartialEq, Eq, Structural)]
pub enum TaskEventKind {
    Created,
    Planned,
    StepStarted,
    StepCompleted,
    StepSkipped,
    StepTimedOut,
    StepFailed,
    Completed,
    Failed,
    Cancelled,
    Retried,
    ApprovalRequested,
    ApprovalResolved,
    ArtifactCreated,
}

/// Whether a task status is final (`Completed`, `Failed` or `Cancelled`).
pub open spec fn is_terminal(s: TaskStatus) -> bool {
    s == TaskStatus::Completed || s == TaskStatus::Failed || s == TaskStatus::Cancelled
}

/// Whether a task status is final.
pub fn task_status_is_terminal(s: TaskStatus) -> (b: bool)
    ensures
        b == is_terminal(s),
{
    matches!(s, TaskStatus::Completed | TaskStatus::Failed | TaskStatus::Cancelled)
}

/// Whether a finished step satisfies its dependents (`Completed` or `Skipped`).
pub open spec fn is_done(s: StepStatus) -> bool {
    s == StepStatus::Completed || s == StepStatus::Skipped
}

/// A single step in a task plan.
#[derive(Debug)]
pub struct TaskStep {
    pub id: String,
    pub task_id: String,
    pub order: u32,
    pub agent_id: String,
    pub title: String,
    pub instruction: String,
    pub status: StepStatus,
    pub depends_on: Vec<String>,
    pub attempts: u32,
    pub result: Option<JsonValue>,
    pub error: Option<String>,
    pub started_at: Option<i64>,
    pub completed_at: Option<i64>,
}

/// The model of a step.
pub struct StepView {
    pub id: Seq<char>,
    pub task_id: Seq<char>,
    pub order: u32,
    pub agent_id: Seq<char>,
    pub title: Seq<char>,
    pub instruction: Seq<char>,
    pub status: StepStatus,
    pub depends_on: Seq<Seq<char>>,
    pub attempts: u32,
    pub result: Option<Json>,
    pub error: Option<Seq<char>>,
    pub started_at: Option<i64>,
    pub completed_at: Option<i64>,
}

/// The models of a list of strings.
pub open spec fn strs(v: Seq<String>) -> Seq<Seq<char>> {
    v.map_values(|s: String| s@)
}

/// The model of an optional string.
pub open spec fn opt_str(o: Option<String>) -> Option<Seq<char>> {
    match o {
        Some(s) => Some(s@),
        None => None,
    }
}

/// The model of an optional borrowed string.
pub open spec fn opt_ref_str(o: Option<&String>) -> Option<Seq<char>> {
    match o {
        Some(s) => Some(s@),
        None => None,
    }
}

/// The model of an optional JSON value.
pub open spec fn opt_json(o: Option<JsonValue>) -> Option<Json> {
    match o {
        Some(v) => Some(jv(v)),
        None => None,
    }
}

impl View for TaskStep {
    type V = StepView;

    open spec fn view(&self) -> StepView {
        StepView {
            id: self.id@,
            task_id: self.task_id@,
            order: self.order,
            agent_id: self.agent_id@,
            title: self.title@,
            instruction: self.instruction@,
            status: self.status,
            depends_on: strs(self.depends_on@),
            attempts: self.attempts,
            result: opt_json(self.result),
            error: opt_str(self.error),
            started_at: self.started_at,
            completed_at: self.completed_at,
        }
    }
}

/// The text used when a title would otherwise be empty.
pub open spec fn untitled() -> Seq<char> {
    "未命名任务"@
}

/// A short title for `text`: its whitespace-collapsed form, cut to
/// `max_chars` characters with `...` appended when it was longer.
pub open spec fn title_of(text: Seq<char>, max_chars: nat) -> Seq<char> {
    let n = collapse_ws(text);
    if n.len() == 0 {
        untitled()
    } else if n.len() <= max_chars {
        n
    } else {
        n.take(max_chars as int) + "..."@
    }
}

/// Summarizes `text` into a title of at most `max_chars` characters (plus `...`).
pub fn summarize_title(text: &str, max_chars: usize) -> (res: String)
    ensures
        res@ == title_of(text@, max_chars as nat),
{
    let normalized = collapse_whitespace(text);
    let n = crate::text::chars_of(normalized.as_str());
    if n.len() == 0 {
        return own("未命名任务");
    }
    if n.len() <= max_chars {
        return normalized;
    }
    let mut title = crate::text::string_of_range(&n, 0, max_chars);
    push_str(&mut title, "...");
    assert(n@.subrange(0, max_chars as int) =~= n@.take(max_chars as int));
    title
}

/// Copies a list of strings.
pub fn copy_strings(v: &Vec<String>) -> (r: Vec<String>)
    ensures
        strs(r@) == strs(v@),
{
    let mut out: Vec<String> = Vec::new();
    let mut i: usize = 0;
    while i < v.len()
        invariant
            i <= v@.len(),
            out@.len() == i,
            forall|k: int| 0 <= k < i ==> #[trigger] out@[k]@ == v@[k]@,
        decreases v.len() - i,
    {
        out.push(v[i].clone());
        i += 1;
    }
    assert(strs(out@) =~= strs(v@));
    out
}

/// Copies an optional string.
pub fn copy_opt_string(o: &Option<String>) -> (r: Option<String>)
    ensures
        opt_str(r) == opt_str(*o),
{
    match o {
        Some(s) => Some(s.clone()),
        None => None,
    }
}

/// Copies an optional JSON value.
pub fn copy_opt_json(o: &Option<JsonValue>) -> (r: Option<JsonValue>)
    ensures
        opt_json(r) == opt_json(*o),
{
    match o {
        Some(v) => Some(v.deep_clone()),
        None => None,
    }
}

impl TaskStep {
    /// A pending step with no attempts yet; its title summarizes the instruction.
    pub fn new(
        id: &str,
        task_id: &str,
        order: u32,
        agent_id: &str,
        instruction: &str,
        depends_on: Vec<String>,
    ) -> (s: TaskStep)
        ensures
            s@ == (StepView {
                id: id@,
                task_id: task_id@,
                order,
                agent_id: agent_id@,
                title: title_of(instruction@, 32),
                instruction: instruction@,
                status: StepStatus::Pending,
                depends_on: strs(depends_on@),
                attempts: 0,
                result: None,
                error: None,
                started_at: None,
                completed_at: None,
            }),
    {
        TaskStep {
            id: own(id),
            task_id: own(task_id),
            order,
            agent_id: own(agent_id),
            title: summarize_title(instruction, 32),
            instruction: own(instruction),
            status: StepStatus::Pending,
            depends_on,
            attempts: 0,
            result: None,
            error: None,
            started_at: None,
            completed_at: None,
        }
    }

    /// Duplicates this step; the result has the same view.
    pub fn duplicate(&self) -> (r: TaskStep)
        ensures
            r@ == self@,
    {
        TaskStep {
            id: self.id.clone(),
            task_id: self.task_id.clone(),
            order: self.order,
            agent_id: self.agent_id.clone(),
            title: self.title.clone(),
            instruction: self.instruction.clone(),
            status: self.status,
            depends_on: copy_strings(&self.depends_on),
            attempts: self.attempts,
            result: copy_opt_json(&self.result),
            error: copy_opt_string(&self.error),
            started_at: self.started_at,
            completed_at: self.completed_at,
        }
    }

    /// Starts an attempt: the step runs, its attempt count grows by one and
    /// any previous error is cleared.
    pub fn start(&mut self)
        requires
            old(self).attempts < u32::MAX,
        ensures
            final(self)@ == (StepView {
                status: StepStatus::Running,
                attempts: (old(self).attempts + 1) as u32,
                started_at: final(self)@.started_at,
                error: None,
                ..old(self)@
            }),
            final(self).started_at is Some,
    {
        self.status = StepStatus::Running;
        self.attempts = self.attempts + 1;
        self.started_at = Some(now_millis());
        self.error = None;
    }

    /// Completes the step with `result`.
    pub fn complete(&mut self, result: JsonValue)
        ensures
            final(self)@ == (StepView {
                status: StepStatus::Completed,
                result: Some(jv(result)),
                completed_at: final(self)@.completed_at,
                error: None,
                ..old(self)@
            }),
            final(self).completed_at is Some,
    {
        self.status = StepStatus::Completed;
        self.result = Some(result);
        self.completed_at = Some(now_millis());
        self.error = None;
    }

    /// Fails the step with `error`.
    pub fn fail(&mut self, error: &str)
        ensures
            final(self)@ == (StepView {
                status: StepStatus::Failed,
                error: Some(error@),
                completed_at: final(self)@.completed_at,
                ..old(self)@
            }),
            final(self).completed_at is Some,
    {
        self.status = StepStatus::Failed;
        self.error = Some(own(error));
        self.completed_at = Some(now_millis());
    }

    /// Marks the step as timed out with `error`.
    pub fn timeout(&mut self, error: &str)
        ensures
            final(self)@ == (StepView {
                status: StepStatus::TimedOut,
                error: Some(error@),
                completed_at: final(self)@.completed_at,
                ..old(self)@
            }),
            final(self).completed_at is Some,
    {
        self.status = StepStatus::TimedOut;
        self.error = Some(own(error));
        self.completed_at = Some(now_millis());
    }

    /// Puts the step back to `Pending`, keeping its attempt count.
    pub fn reset_for_retry(&mut self)
        ensures
            final(self)@ == (StepView {
                status: StepStatus::Pending,
                result: None,
                error: None,
                started_at: None,
                completed_at: None,
                ..old(self)@
            }),
    {
        self.status = StepStatus::Pending;
        self.result = None;
        self.error = None;
        self.started_at = None;
        self.completed_at = None;
    }

    /// Marks the step as skipped with `reason` as its error.
    pub fn skip_with(&mut self, reason: &str)
        ensures
            final(self)@ == (StepView {
                status: StepStatus::Skipped,
                error: Some(reason@),
                completed_at: final(self)@.completed_at,
                ..old(self)@
            }),
            final(self).completed_at is Some,
    {
        self.status = StepStatus::Skipped;
        self.error = Some(own(reason));
        self.completed_at = Some(now_millis());
    }
}

/// A software-engineering task tracked by the runtime.
#[derive(Debug)]
pub struct Task {
    pub id: String,
    pub title: String,
    pub user_goal: String,
    pub status: TaskStatus,
    pub steps: Vec<TaskStep>,
    pub artifacts: Vec<JsonValue>,
    pub output: Option<String>,
    pub error: Option<String>,
    pub created_at: i64,
    pub updated_at: i64,
}

/// The model of a task.
pub struct TaskView {
    pub id: Seq<char>,
    pub title: Seq<char>,
    pub user_goal: Seq<char>,
    pub status: TaskStatus,
    pub steps: Seq<StepView>,
    pub artifacts: Seq<Json>,
    pub output: Option<Seq<char>>,
    pub error: Option<Seq<char>>,
    pub created_at: i64,
    pub updated_at: i64,
}

/// The models of a list of steps.
pub open spec fn step_views(v: Seq<TaskStep>) -> Seq<StepView> {
    v.map_values(|s: TaskStep| s@)
}

/// The models of a list of JSON values.
pub open spec fn json_views(v: Seq<JsonValue>) -> Seq<Json> {
    v.map_values(|j: JsonValue| jv(j))
}

impl View for Task {
    type V = TaskView;

    open spec fn view(&self) -> TaskView {
        TaskView {
            id: self.id@,
            title: self.title@,
            user_goal: self.user_goal@,
            status: self.status,
            steps: step_views(self.steps@),
            artifacts: json_views(self.artifacts@),
            output: opt_str(self.output),
            error: opt_str(self.error),
            created_at: self.created_at,
            updated_at: self.updated_at,
        }
    }
}

/// Copies a list of steps.
pub fn copy_steps(v: &Vec<TaskStep>) -> (r: Vec<TaskStep>)
    ensures
        step_views(r@) == step_views(v@),
{
    let mut out: Vec<TaskStep> = Vec::new();
    let mut i: usize = 0;
    while i < v.len()
        invariant
            i <= v@.len(),
            out@.len() == i,
            forall|k: int| 0 <= k < i ==> #[trigger] out@[k]@ == v@[k]@,
        decreases v.len() - i,
    {
        out.push(v[i].duplicate());
        i += 1;
    }
    assert(step_views(out@) =~= step_views(v@));
    out
}

/// Copies a list of JSON values.
pub fn copy_json_list(v: &Vec<JsonValue>) -> (r: Vec<JsonValue>)
    ensures
        json_views(r@) == json_views(v@),
{
    let mut out: Vec<JsonValue> = Vec::new();
    let mut i: usize = 0;
    while i < v.len()
        invariant
            i <= v@.len(),
            out@.len() == i,
            forall|k: int| 0 <= k < i ==> jv(#[trigger] out@[k]) == jv(v@[k]),
        decreases v.len() - i,
    {
        out.push(v[i].deep_clone());
        i += 1;
    }
    assert(json_views(out@) =~= json_views(v@));
    out
}

impl Task {
    /// A new task in `Planning`, titled after its goal, with no steps yet.
    pub fn new(id: &str, user_goal: &str) -> (t: Task)
        ensures
            t@ == (TaskView {
                id: id@,
                title: title_of(user_goal@, 40),
                user_goal: user_goal@,
                status: TaskStatus::Planning,
                steps: Seq::empty(),
                artifacts: Seq::empty(),
                output: None,
                error: None,
                created_at: t@.created_at,
                updated_at: t@.created_at,
            }),
    {
        let now = now_millis();
        let t = Task {
            id: own(id),
            title: summarize_title(user_goal, 40),
            user_goal: own(user_goal),
            status: TaskStatus::Planning,
            steps: Vec::new(),
            artifacts: Vec::new(),
            output: None,
            error: None,
            created_at: now,
            updated_at: now,
        };
        assert(t@.steps =~= Seq::empty());
        assert(t@.artifacts =~= Seq::empty());
        t
    }

    /// A duplicate of the task, with the same view.
    pub fn duplicate(&self) -> (r: Task)
        ensures
            r@ == self@,
    {
        Task {
            id: self.id.clone(),
            title: self.title.clone(),
            user_goal: self.user_goal.clone(),
            status: self.status,
            steps: copy_steps(&self.steps),
            artifacts: copy_json_list(&self.artifacts),
            output: copy_opt_string(&self.output),
            error: copy_opt_string(&self.error),
            created_at: self.created_at,
            updated_at: self.updated_at,
        }
    }

    /// Records that the task changed now.
    pub fn touch(&mut self)
        ensures
            final(self)@ == (TaskView { updated_at: final(self)@.updated_at, ..old(self)@ }),
    {
        self.updated_at = now_millis();
    }

    /// Replaces the steps; a task without steps is complete, otherwise it runs.
    pub fn set_steps(&mut self, steps: Vec<TaskStep>)
        ensures
            final(self)@ == (TaskView {
                steps: step_views(steps@),
                status: if steps@.len() == 0 {
                    TaskStatus::Completed
                } else {
                    TaskStatus::Running
                },
                updated_at: final(self)@.updated_at,
                ..old(self)@
            }),
    {
        self.steps = steps;
        self.status = if self.steps.len() == 0 {
            TaskStatus::Completed
        } else {
            TaskStatus::Running
        };
        self.touch();
    }

    /// Completes the task with `output`.
    pub fn complete(&mut self, output: &str)
        ensures
            final(self)@ == (TaskView {
                status: TaskStatus::Completed,
                output: Some(output@),
                error: None,
                updated_at: final(self)@.updated_at,
                ..old(self)@
            }),
    {
        self.status = TaskStatus::Completed;
        self.output = Some(own(output));
        self.error = None;
        self.touch();
    }

    /// Fails the task with `error`.
    pub fn fail(&mut self, error: &str)
        ensures
            final(self)@ == (TaskView {
                status: TaskStatus::Failed,
                error: Some(error@),
                updated_at: final(self)@.updated_at,
                ..old(self)@
            }),
    {
        self.status = TaskStatus::Failed;
        self.error = Some(own(error));
        self.touch();
    }

    /// Cancels the task; the reason becomes its output.
    pub fn cancel(&mut self, reason: &str)
        ensures
            final(self)@ == (TaskView {
                status: TaskStatus::Cancelled,
                output: Some(reason@),
                error: None,
                updated_at: final(self)@.updated_at,
                ..old(self)@
            }),
    {
        self.status = TaskStatus::Cancelled;
        self.output = Some(own(reason));
        self.error = None;
        self.touch();
    }

    /// Puts the task back into scheduling: `Planning` without steps, `Running` otherwise.
    pub fn retry(&mut self)
        ensures
            final(self)@ == (TaskView {
                status: if old(self)@.steps.len() == 0 {
                    TaskStatus::Planning
                } else {
                    TaskStatus::Running
                },
                output: None,
                error: None,
                updated_at: final(self)@.updated_at,
                ..old(self)@
            }),
    {
        self.status = if self.steps.len() == 0 {
            TaskStatus::Planning
        } else {
            TaskStatus::Running
        };
        self.output = None;
        self.error = None;
        self.touch();
    }

    /// Appends an artifact.
    pub fn add_artifact(&mut self, artifact: JsonValue)
        ensures
            final(self)@ == (TaskView {
                artifacts: old(self)@.artifacts.push(jv(artifact)),
                updated_at: final(self)@.updated_at,
                ..old(self)@
            }),
    {
        let ghost a = artifact;
        self.artifacts.push(artifact);
        assert(json_views(self.artifacts@) =~= json_views(old(self).artifacts@).push(jv(a)));
        self.touch();
    }
}

/// A timestamped task event.
#[derive(Debug)]
pub struct TaskEvent {
    pub id: String,
    pub task_id: String,
    pub step_id: Option<String>,
    pub kind: TaskEventKind,
    pub message: String,
    pub payload: JsonValue,
    pub created_at: i64,
}

/// What an event says, without its random id and its time.
pub struct EventView {
    pub task_id: Seq<char>,
    pub step_id: Option<Seq<char>>,
    pub kind: TaskEventKind,
    pub message: Seq<char>,
    pub payload: Json,
}

impl View for TaskEvent {
    type V = EventView;

    open spec fn view(&self) -> EventView {
        EventView {
            task_id: self.task_id@,
            step_id: opt_str(self.step_id),
            kind: self.kind,
            message: self.message@,
            payload: jv(self.payload),
        }
    }
}

impl TaskEvent {
    /// A new event with a fresh random id, stamped now.
    pub fn new(
        task_id: &str,
        step_id: Option<String>,
        kind: TaskEventKind,
        message: String,
        payload: JsonValue,
    ) -> (e: TaskEvent)
        ensures
            e@ == (EventView {
                task_id: task_id@,
                step_id: opt_str(step_id),
                kind,
                message: message@,
                payload: jv(payload),
            }),
    {
        TaskEvent {
            id: new_uuid(),
            task_id: own(task_id),
            step_id,
            kind,
            message,
            payload,
            created_at: now_millis(),
        }
    }

    /// Duplicates this event; the result has the same view.and the same id and time.
    pub fn duplicate(&self) -> (r: TaskEvent)
        ensures
            r@ == self@,
            r.id@ == self.id@,
            r.created_at == self.created_at,
    {
        TaskEvent {
            id: self.id.clone(),
            task_id: self.task_id.clone(),
            step_id: copy_opt_string(&self.step_id),
            kind: self.kind,
            message: self.message.clone(),
            payload: self.payload.deep_clone(),
            created_at: self.created_at,
        }
    }
}

} // verus!
