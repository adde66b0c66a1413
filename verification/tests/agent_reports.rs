use multi_agent::agents::{CoderAgent, EvolutionAgent, ReviewAgent, TesterAgent};
use multi_agent::coding::{collect_target_files, suggested_changes};
use multi_agent::evolution::{evolution_observations, evolution_recommendations, result_summary_signal};
use multi_agent::json::JsonValue;
use multi_agent::json_text::to_json_text;
use multi_agent::plan::TaskPlan;
use multi_agent::review::{review_findings, review_has_real_diff, value_contains_error};
use multi_agent::testing::{collect_recommended_commands, value_contains_failure_signal};
use multi_agent::tool_args::{clean_path_token, infer_file_path_from_content, infer_file_read_args_from_content, split_words};

fn obj(fields: Vec<(&str, JsonValue)>) -> JsonValue {
    JsonValue::Object(fields.into_iter().map(|(k, v)| (k.to_string(), v)).collect())
}

fn text(s: &str) -> JsonValue {
    JsonValue::Str(s.to_string())
}

fn str_at<'a>(v: &'a JsonValue, key: &str) -> Option<&'a str> {
    match v.get(key) {
        Some(JsonValue::Str(s)) => Some(s.as_str()),
        _ => None,
    }
}

fn bool_at(v: &JsonValue, key: &str) -> Option<bool> {
    match v.get(key) {
        Some(JsonValue::Bool(b)) => Some(*b),
        _ => None,
    }
}

fn uint_at(v: &JsonValue, key: &str) -> Option<u64> {
    match v.get(key) {
        Some(JsonValue::UInt(n)) => Some(*n),
        Some(JsonValue::Int(n)) if *n >= 0 => Some(*n as u64),
        _ => None,
    }
}

fn array_at<'a>(v: &'a JsonValue, key: &str) -> &'a Vec<JsonValue> {
    match v.get(key) {
        Some(JsonValue::Array(items)) => items,
        other => panic!("expected an array under {key}, got {other:?}"),
    }
}

fn dependency(agent: &str, result: JsonValue) -> JsonValue {
    obj(vec![("agentId", text(agent)), ("result", result)])
}

#[test]
fn review_agent_returns_report() {
    let mut agent = ReviewAgent::new();
    let context = obj(vec![(
        "dependencyResults",
        JsonValue::Array(vec![dependency(
            "Executor",
            obj(vec![("success", JsonValue::Bool(true)), ("output", text("已执行"))]),
        )]),
    )]);

    let (summary, report) = agent.review("审查执行结果", &context, None);

    assert_eq!(summary, "审查通过，未发现阻断性风险。");
    assert_eq!(str_at(&report, "kind"), Some("ReviewReport"));
    assert_eq!(bool_at(&report, "passed"), Some(true));
    assert_eq!(uint_at(&report, "dependencyCount"), Some(1));
}

#[test]
fn review_agent_flags_failed_dependency() {
    let mut agent = ReviewAgent::new();
    let context = obj(vec![(
        "dependencyResults",
        JsonValue::Array(vec![dependency(
            "Executor",
            obj(vec![("success", JsonValue::Bool(false)), ("error", text("cargo test failed"))]),
        )]),
    )]);

    let (summary, report) = agent.review("审查执行结果", &context, None);

    assert_eq!(summary, "审查未通过，存在需要返工的高风险问题。");
    assert_eq!(bool_at(&report, "passed"), Some(false));
    assert_eq!(str_at(&array_at(&report, "findings")[0], "severity"), Some("high"));
}

#[test]
fn review_agent_marks_real_diff_reviewed() {
    let mut agent = ReviewAgent::new();
    let context = obj(vec![
        (
            "dependencyResults",
            JsonValue::Array(vec![dependency(
                "Coder",
                obj(vec![("unifiedDiff", text("diff --git a/README.md b/README.md\n"))]),
            )]),
        ),
        ("requiresRealDiffReview", JsonValue::Bool(true)),
    ]);

    let (_, report) = agent.review("审查补丁", &context, None);

    assert_eq!(bool_at(&report, "passed"), Some(true));
    assert_eq!(bool_at(&report, "diffReviewed"), Some(true));
}

#[test]
fn review_agent_fails_when_required_diff_missing() {
    let mut agent = ReviewAgent::new();
    let context = obj(vec![
        (
            "dependencyResults",
            JsonValue::Array(vec![dependency("Coder", obj(vec![("summary", text("draft only"))]))]),
        ),
        ("requiresRealDiffReview", JsonValue::Bool(true)),
    ]);

    let (_, report) = agent.review("审查补丁", &context, None);

    assert_eq!(bool_at(&report, "passed"), Some(false));
    assert_eq!(bool_at(&report, "diffReviewed"), Some(false));
}

#[test]
fn review_report_carries_task_and_step_ids() {
    let mut agent = ReviewAgent::new();
    let context = obj(vec![("stepId", text("task-9-3"))]);
    let task_id = "task-9".to_string();

    let (_, report) = agent.review("审查", &context, Some(&task_id));

    assert_eq!(str_at(&report, "taskId"), Some("task-9"));
    assert_eq!(str_at(&report, "stepId"), Some("task-9-3"));
    assert_eq!(uint_at(&report, "dependencyCount"), Some(0));
    // no dependency results is a low finding, which does not block
    assert_eq!(bool_at(&report, "passed"), Some(true));
    assert_eq!(str_at(&array_at(&report, "findings")[0], "severity"), Some("low"));
}

#[test]
fn review_findings_flag_todo_and_simulated_text() {
    let findings = review_findings("这里还有 TODO，结果是模拟执行", &JsonValue::Null);
    let severities: Vec<&str> = findings.iter().map(|f| f.severity).collect();
    assert_eq!(severities, vec!["low", "medium", "low"]);
}

#[test]
fn review_has_real_diff_searches_nested_values() {
    let nested = obj(vec![("a", JsonValue::Array(vec![obj(vec![("unifiedDiff", text("diff --git a/x b/x"))])]))]);
    assert!(review_has_real_diff(&nested));
    assert!(!review_has_real_diff(&obj(vec![("unifiedDiff", text("+x"))])));
    assert!(!review_has_real_diff(&text("diff --git")));
}

#[test]
fn value_contains_error_needs_a_meaningful_error() {
    assert!(value_contains_error(&obj(vec![("error", text("boom"))])));
    assert!(!value_contains_error(&obj(vec![("error", text("  "))])));
    assert!(!value_contains_error(&obj(vec![("error", JsonValue::Null)])));
    assert!(!value_contains_error(&obj(vec![("success", JsonValue::Bool(false))])));
    assert!(value_contains_error(&obj(vec![("context", obj(vec![("error", JsonValue::Int(1))]))])));
}

#[test]
fn tester_agent_returns_test_report() {
    let mut agent = TesterAgent::new();

    let (_, report) = agent.plan_tests("运行 cargo test 和 npm test -- --run", &JsonValue::Null, None);

    assert_eq!(str_at(&report, "kind"), Some("TestReport"));
    assert_eq!(str_at(&report, "status"), Some("ready"));
    assert_eq!(str_at(&array_at(&report, "recommendedCommands")[0], "command"), Some("cargo test"));
}

#[test]
fn tester_agent_blocks_on_failed_dependency() {
    let mut agent = TesterAgent::new();
    let context = obj(vec![(
        "dependencyResults",
        JsonValue::Array(vec![dependency(
            "Coder",
            obj(vec![("success", JsonValue::Bool(false)), ("error", text("draft failed"))]),
        )]),
    )]);

    let (_, report) = agent.plan_tests("整理验证", &context, None);

    assert_eq!(str_at(&report, "status"), Some("blocked"));
    assert_eq!(uint_at(&report, "dependencyFailureCount"), Some(1));
}

#[test]
fn recommended_commands_follow_candidate_order() {
    let commands = collect_recommended_commands("先跑 npm test -- --run 再跑 cargo test", &JsonValue::Null);
    let names: Vec<&str> = commands.iter().filter_map(|c| str_at(c, "command")).collect();
    assert_eq!(names, vec!["cargo test", "npm test -- --run"]);
    assert!(collect_recommended_commands("没有命令", &JsonValue::Null).is_empty());
}

#[test]
fn failure_signal_is_found_in_nested_status() {
    let nested = obj(vec![("runs", JsonValue::Array(vec![obj(vec![("status", text("blocked"))])]))]);
    assert!(value_contains_failure_signal(&nested));
    assert!(!value_contains_failure_signal(&obj(vec![("status", text("FAILED"))])));
    assert!(value_contains_failure_signal(&obj(vec![("passed", JsonValue::Bool(false))])));
}

#[test]
fn test_infer_file_read_args_from_content() {
    let args = infer_file_read_args_from_content("读取文件 README.md").unwrap();
    assert_eq!(str_at(&args, "path"), Some("README.md"));

    let args = infer_file_read_args_from_content("path: src-tauri/src/main.rs").unwrap();
    assert_eq!(str_at(&args, "path"), Some("src-tauri/src/main.rs"));

    let args = infer_file_read_args_from_content("读取文件 .env").unwrap();
    assert_eq!(str_at(&args, "path"), Some(".env"));

    assert!(infer_file_read_args_from_content("读取文件").is_none());
}

#[test]
fn path_tokens_are_trimmed_and_checked() {
    assert_eq!(split_words("  a  b\tc "), vec!["a", "b", "c"]);
    assert_eq!(clean_path_token("`src/lib.rs`,"), Some("src/lib.rs".to_string()));
    assert_eq!(clean_path_token("hello"), None);
    assert_eq!(infer_file_path_from_content("file: Cargo.toml please"), Some("Cargo.toml".to_string()));
}

#[test]
fn json_text_is_compact_and_escaped() {
    let value = obj(vec![
        ("a", JsonValue::Int(-3)),
        ("b", JsonValue::Array(vec![JsonValue::Bool(true), JsonValue::Null])),
        ("c", text("x\"y\n")),
    ]);
    assert_eq!(to_json_text(&value), r#"{"a":-3,"b":[true,null],"c":"x\"y\n"}"#);
    assert_eq!(to_json_text(&text("\u{1}")), r#""\u0001""#);
}

#[test]
fn test_task_plan_from_llm_json_normalizes_steps() {
    let raw = r#"{
        "goal": "优化任务看板",
        "steps": [
            { "id": "understand", "agent": "planner", "instruction": "理解需求和项目上下文" },
            { "id": "inspect", "agent": "Tool", "instruction": "只读检索 TaskBoard 相关文件", "dependsOn": ["understand"] },
            { "id": "summarize", "agent": "coder", "instruction": "形成实现方案，不直接修改文件", "dependsOn": ["inspect"] }
        ]
    }"#;

    let plan = TaskPlan::from_llm_json("fallback goal", "task-llm".to_string(), raw).unwrap();

    assert_eq!(plan.task_id, "task-llm");
    assert_eq!(plan.goal, "优化任务看板");
    assert_eq!(plan.steps.len(), 3);
    assert_eq!(plan.steps[0].step_id, "task-llm-1");
    assert_eq!(plan.steps[0].agent, "Planner");
    assert_eq!(plan.steps[1].depends_on, vec!["task-llm-1".to_string()]);
    assert_eq!(plan.steps[2].agent, "Executor");
    assert_eq!(plan.steps[2].depends_on, vec!["task-llm-2".to_string()]);
}

#[test]
fn test_task_plan_from_llm_json_accepts_fenced_json() {
    let raw = "```json\n{\n  \"steps\": [\n    { \"id\": \"answer\", \"agent\": \"Echo\", \"instruction\": \"回复用户\" }\n  ]\n}\n```";

    let plan = TaskPlan::from_llm_json("原始目标", "task-fenced".to_string(), raw).unwrap();
    assert_eq!(plan.goal, "原始目标");
    assert_eq!(plan.steps[0].step_id, "task-fenced-1");
    assert_eq!(plan.steps[0].agent, "Echo");
}

#[test]
fn test_task_plan_from_llm_json_rejects_unknown_agent() {
    let raw = r#"{ "steps": [ { "id": "unsafe", "agent": "Shell", "instruction": "执行任意命令" } ] }"#;

    let err = TaskPlan::from_llm_json("目标", "task-bad".to_string(), raw).unwrap_err();
    assert!(err.message().contains("不允许的 Agent"));
}

#[test]
fn test_task_plan_from_llm_json_rejects_forward_dependency() {
    let raw = r#"{
        "steps": [
            { "id": "first", "agent": "Planner", "instruction": "第一步", "dependsOn": ["second"] },
            { "id": "second", "agent": "Tool", "instruction": "第二步" }
        ]
    }"#;

    let err = TaskPlan::from_llm_json("目标", "task-forward".to_string(), raw).unwrap_err();
    assert!(err.message().contains("依赖必须指向前置步骤"));
}

#[test]
fn evolution_agent_returns_note() {
    let mut agent = EvolutionAgent::new();
    let context = obj(vec![(
        "dependencyResults",
        JsonValue::Array(vec![obj(vec![
            ("agentId", text("Review")),
            ("instruction", text("审查执行结果")),
            ("result", obj(vec![("passed", JsonValue::Bool(true)), ("summary", text("审查通过"))])),
        ])]),
    )]);

    let (summary, note) = agent.evolve(&context, None);

    assert_eq!(summary, "已生成演进记录：任务经验和后续建议已整理。");
    assert_eq!(str_at(&note, "kind"), Some("EvolutionNote"));
    assert_eq!(uint_at(&note, "sourceStepCount"), Some(1));
    assert!(matches!(&array_at(&note, "observations")[0], JsonValue::Str(s) if s == "Review: 审查执行结果 -> Review 通过"));
}

#[test]
fn evolution_agent_marks_note_as_user_acceptance_required() {
    let mut agent = EvolutionAgent::new();

    let (summary, note) = agent.evolve(&JsonValue::Null, None);

    assert_eq!(summary, "已生成演进记录：当前上下文不足，建议补充前置步骤结果。");
    assert_eq!(bool_at(&note, "requiresUserAcceptance"), Some(true));
    assert!(array_at(&note, "recommendations")
        .iter()
        .any(|value| matches!(value, JsonValue::Str(s) if s.contains("显式接受"))));
}

#[test]
fn evolution_observations_keep_the_first_eight() {
    let items: Vec<JsonValue> = (0..10)
        .map(|i| obj(vec![("agentId", text("Tool")), ("result", obj(vec![("output", text(&format!("line {i}\nmore")))]))]))
        .collect();
    let skipped = obj(vec![("agentId", text("Echo"))]);
    let mut all = vec![skipped];
    all.extend(items);
    let observations = evolution_observations(&obj(vec![("dependencyResults", JsonValue::Array(all))]));
    assert_eq!(observations.len(), 8);
    assert_eq!(observations[0], "Tool: 未记录指令 -> line 0");
    assert_eq!(observations[7], "Tool: 未记录指令 -> line 7");
}

#[test]
fn evolution_recommendations_keep_failures() {
    let failing = obj(vec![("passed", JsonValue::Bool(false))]);
    let recs = evolution_recommendations(&failing, false);
    assert_eq!(recs.len(), 2);
    assert!(recs[0].contains("失败命令"));
    let fine = evolution_recommendations(&JsonValue::Null, true);
    assert_eq!(fine.len(), 3);
    assert!(fine[1].contains("ProjectFact"));
}

#[test]
fn result_signal_prefers_verdict_then_summary() {
    assert_eq!(result_summary_signal(&JsonValue::Null), None);
    assert_eq!(result_summary_signal(&obj(vec![("passed", JsonValue::Bool(false))])).as_deref(), Some("Review 未通过"));
    assert_eq!(result_summary_signal(&obj(vec![("summary", text("ok"))])).as_deref(), Some("ok"));
    assert_eq!(result_summary_signal(&obj(vec![("content", text("  \n x"))])).as_deref(), Some("无摘要"));
    assert_eq!(result_summary_signal(&obj(vec![("success", JsonValue::Bool(false))])).as_deref(), Some("执行失败"));
    assert_eq!(result_summary_signal(&obj(vec![("other", JsonValue::Int(1))])).as_deref(), Some("已产生结构化结果"));
}

#[test]
fn coder_agent_returns_patch_proposal_draft() {
    let mut agent = CoderAgent::new();
    let context = obj(vec![(
        "dependencyResults",
        JsonValue::Array(vec![dependency(
            "Tool",
            obj(vec![(
                "readFiles",
                JsonValue::Array(vec![obj(vec![("path", text("src-web/src/components/TaskBoard.tsx"))])]),
            )]),
        )]),
    )]);

    let (summary, draft) = agent.draft("修改 TaskBoard", &context, None);

    assert_eq!(summary, "已生成补丁草案：等待用户把草案转换为 patch proposal。");
    assert_eq!(str_at(&draft, "kind"), Some("PatchProposalDraft"));
    assert!(matches!(&array_at(&draft, "targetFiles")[0], JsonValue::Str(s) if s == "src-web/src/components/TaskBoard.tsx"));
    assert_eq!(bool_at(&draft, "directFileWritesAllowed"), Some(false));
    assert_eq!(uint_at(&draft, "dependencyCount"), Some(1));
}

#[test]
fn coder_agent_keeps_rework_suggestions() {
    let mut agent = CoderAgent::new();
    let context = obj(vec![(
        "reworkSuggestions",
        JsonValue::Array(vec![obj(vec![
            ("patchId", text("patch-1")),
            ("failedCommands", JsonValue::Array(vec![obj(vec![("command", text("cargo test"))])])),
        ])]),
    )]);

    let (summary, draft) = agent.draft("修复验证失败", &context, None);

    assert_eq!(str_at(&array_at(&draft, "reworkSuggestions")[0], "patchId"), Some("patch-1"));
    assert!(summary.contains("返工"));
    let changes = array_at(&draft, "suggestedChanges");
    assert_eq!(changes.len(), 1);
    assert!(matches!(changes[0].get("path"), Some(JsonValue::Null)));
    assert_eq!(str_at(&changes[0], "reason"), Some("根据验证失败命令、stderr 摘要和回滚状态修复问题。"));
}

#[test]
fn target_files_are_trimmed_distinct_and_capped() {
    let deps: Vec<JsonValue> = (0..15)
        .map(|i| obj(vec![("file", text(&format!(" src/f{i}.rs "))), ("filePath", text(&format!("src/f{i}.rs")))]))
        .collect();
    let rework = vec![obj(vec![("path", text("   "))])];
    let files = collect_target_files(&deps, &rework);
    assert_eq!(files.len(), 12);
    assert_eq!(files[0], "src/f0.rs");
    assert_eq!(files[11], "src/f11.rs");

    let changes = suggested_changes(&files, true, "a   b");
    assert_eq!(changes.len(), 6);
    assert_eq!(str_at(&changes[5], "path"), Some("src/f5.rs"));
    assert_eq!(str_at(&changes[0], "instruction"), Some("a b"));
}

#[test]
fn llm_plan_text_errors_are_message_format_errors() {
    let err = TaskPlan::from_llm_json("目标", "t".to_string(), "no object here").unwrap_err();
    assert_eq!(err.message(), "消息格式错误: Planner 输出缺少 JSON 对象");
    let err = TaskPlan::from_llm_json("目标", "t".to_string(), "{ not json }").unwrap_err();
    assert!(err.message().starts_with("消息格式错误: Planner JSON 解析失败: "));
    let err = TaskPlan::from_llm_json("目标", "t".to_string(), r#"{"steps": [{"agent": "Tool"}]}"#).unwrap_err();
    assert!(err.message().starts_with("消息格式错误: Planner JSON 解析失败: "));
    let plan = TaskPlan::from_llm_json(
        "目标",
        "t".to_string(),
        r#"{"steps": [{"stepId": "a", "agent": "Tool", "instruction": "查"}, {"agent": "echo", "instruction": "答", "depends_on": ["a"]}]}"#,
    )
    .unwrap();
    assert_eq!(plan.steps[1].depends_on, vec!["t-1".to_string()]);
}
