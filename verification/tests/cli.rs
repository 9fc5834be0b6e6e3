use serde_json::Value;
use tales::agent::{AgentCaps, FoundBin};
use tales::artifacts::{event_record, manual_event, run_dir_name, slug, ArtifactSnapshot, RunArtifacts};
use tales::build_info::BuildRecord;
use tales::commands::{
    commands_reference, context_report_json, saved_eval_summary, select_eval_scenario,
};
use tales::doctor::{
    doctor_failures, doctor_json_report, doctor_status_text, doctor_targets, doctor_verdict,
    unique_tool_keys,
};
use tales::event::OrchestratorEvent;
use tales::json::{Json, Number};
use tales::json_read::read_json;
use tales::json_text::compact;
use tales::labels::{
    context_budget_label, context_fit_label, effective_context_budget, format_caps, head, json_preview,
    pad, tool_label,
};
use tales::launch::{build_open_script, sh_quote};
use tales::pipeline::resolve_report_path;
use tales::preflight::{
    preflight_agent_json, prompt_forecast, resolved_session_config, roster_advice_for_agents,
    worktree_fate, PreflightAgent, PreflightRequest, WorktreeFate,
};
use tales::project_context::{project_context_status_json, ProjectContext};
use tales::prompt_forecast::{prompt_forecast_to_json, PreflightContextSummary, PromptForecast};
use tales::recommend::{Measure, Score};
use tales::recover::{
    choose_run, load_recover_run, read_recover_run, recover_run_line, sort_runs, unknown_run, Meant,
};
use tales::registry::known_tools;

fn value(j: &Json) -> Value {
    match j {
        Json::Null => Value::Null,
        Json::Bool(b) => Value::Bool(*b),
        Json::Num(Number::Unsigned(n)) => Value::from(*n),
        Json::Num(Number::Negative(n)) => Value::from(*n),
        Json::Num(Number::Real(bits)) => Value::from(f64::from_bits(*bits)),
        Json::Str(s) => Value::String(s.clone()),
        Json::Arr(a) => Value::Array(a.iter().map(value).collect()),
        Json::Obj(f) => Value::Object(f.iter().map(|(k, v)| (k.clone(), value(v))).collect()),
    }
}

fn document(text: &str) -> Json {
    read_json(text).unwrap()
}

fn build() -> BuildRecord<'static> {
    BuildRecord { git_sha: None, git_dirty: None, target: None, profile: None }
}

fn agent(role: &'static str, key: &str) -> PreflightAgent {
    PreflightAgent { role, key: key.into(), model: None, effort: None }
}

fn off_context() -> Json {
    project_context_status_json(None, false, 220, 1200, None)
}

#[test]
fn open_script_quotes_and_includes_flags() {
    let s = build_open_script(
        "/path/to/tales-tui",
        "/proj dir",
        &vec!["anthropic".into()],
        Some("build it's thing"),
    );
    assert!(s.starts_with("#!/bin/bash\n"), "{s}");
    assert!(s.contains("cd '/proj dir' || exit 1"), "{s}");
    assert!(s.contains("exec '/path/to/tales-tui'"), "{s}");
    assert!(s.contains("--connect 'anthropic'"), "{s}");
    // The apostrophe in the task is safely escaped.
    assert!(s.contains("--prefill 'build it'\\''s thing'"), "{s}");
}

#[test]
fn open_script_omits_empty_task() {
    let s = build_open_script("tales-tui", "/p", &vec!["codex".into()], Some("   "));
    assert!(!s.contains("--prefill"), "{s}");
    let s2 = build_open_script("tales-tui", "/p", &vec!["codex".into()], None);
    assert!(!s2.contains("--prefill"), "{s2}");
}

#[test]
fn quoted_words_are_exact() {
    assert_eq!(sh_quote(""), "''");
    assert_eq!(sh_quote("a b"), "'a b'");
    assert_eq!(sh_quote("it's"), "'it'\\''s'");
}

#[test]
fn recover_runs_sort_by_manifest_update_time() {
    let cwd = "/work";
    let old = read_recover_run(
        "/work/.tales/runs/100-old".into(),
        Some(r#"{"task":"old task","status":"planning","updated_unix":100}"#.into()),
    );
    let new = read_recover_run(
        "/work/.tales/runs/200-new".into(),
        Some(
            r#"{"task":"new task","status":"done","executor":"codex","updated_unix":200}"#.into(),
        ),
    );

    let found = sort_runs(vec![old, new]);
    assert_eq!(found.len(), 2);
    assert_eq!(found[0].id, "200-new");
    assert_eq!(found[0].task.as_deref(), Some("new task"));
    assert_eq!(found[0].executor.as_deref(), Some("codex"));
    match choose_run(cwd, &found, Some("100-old"), false) {
        Meant::Listed(i) => assert_eq!(found[i].id, "100-old"),
        other => panic!("{other:?}"),
    }
}

#[test]
fn runs_without_a_record_come_last_and_unknown_ones_are_refused() {
    let bare = load_recover_run("/work/.tales/runs/bare".into(), None);
    assert_eq!(bare.id, "bare");
    assert!(bare.task.is_none() && bare.updated_unix.is_none());
    let dated = load_recover_run(
        "/work/.tales/runs/dated".into(),
        Some(document(r#"{"task":"t","updated_unix":1}"#)),
    );
    let runs = sort_runs(vec![bare, dated]);
    assert_eq!(runs[0].id, "dated");
    assert!(recover_run_line(&runs[0]).contains("dated"));
    assert!(matches!(choose_run("/work", &runs, None, false), Meant::All));
    assert!(matches!(choose_run("/work", &runs, None, true), Meant::Listed(0)));
    match choose_run("/work", &runs, Some("elsewhere"), false) {
        Meant::At(path) => assert_eq!(path, "/work/.tales/runs/elsewhere"),
        other => panic!("{other:?}"),
    }
    assert!(unknown_run("nope").message().contains("nope"));
}

#[test]
fn run_artifacts_write_manifest_events_and_plan() {
    let report_path = "/work/.tales/report.md";
    let artifacts = RunArtifacts {
        name: run_dir_name(1, "Fix artifact persistence", 0),
        started_at: 1,
        mode: "run".into(),
        task: "Fix artifact persistence".into(),
        workspace: "/work".into(),
        roster: vec!["anthropic".into(), "codex".into()],
        report_path: Some(report_path.into()),
        report_json_path: None,
    };
    let started = compact(&manual_event("run_started", "run started", 1));

    let agent = 7u128;
    let mut snapshot = ArtifactSnapshot::new();
    assert!(!snapshot.apply(&OrchestratorEvent::AgentSpawned {
        agent,
        label: "anthropic".into(),
        session_id: "session-1".into(),
    }));
    assert!(snapshot.apply(&OrchestratorEvent::Message {
        agent,
        text: "Draft the persistence plan.".into(),
    }));
    let recommendation = OrchestratorEvent::RecommendationReady {
        executor: "codex".into(),
        rationale: "Codex can make the local CLI patch.".into(),
        confident: true,
        scores: vec![Score {
            executor: "codex".into(),
            value: Measure { bits: 0.9f64.to_bits(), shown: "0.90".into() },
        }],
    };
    let record = value(&event_record(&recommendation, 2)).to_string();
    assert!(snapshot.apply(&recommendation));
    let executor = snapshot.executor();
    let manifest = serde_json::to_string_pretty(&value(&artifacts.manifest(
        snapshot.status(),
        executor.as_deref(),
        2,
    )))
    .unwrap();
    let events = format!("{started}\n{record}\n");
    let plan =
        artifacts.plan_markdown(snapshot.status(), executor.as_deref(), snapshot.transcript());

    assert!(manifest.contains("\"mode\": \"run\""), "{manifest}");
    assert!(manifest.contains("\"status\": \"recommended\""), "{manifest}");
    assert!(manifest.contains(report_path), "{manifest}");
    assert!(events.contains("\"kind\":\"run_started\""), "{events}");
    assert!(events.contains("\"kind\":\"recommendation_ready\""), "{events}");
    assert!(plan.contains("Status: recommended"), "{plan}");
    assert!(plan.contains("Executor: Codex"), "{plan}");
    assert!(plan.contains("Draft the persistence plan."), "{plan}");
}

#[test]
fn slugs_are_plain_and_run_directories_lie_in_the_workspace() {
    assert_eq!(slug("Fix the Thing!  now"), "fix-the-thing-now");
    assert_eq!(slug("A-B"), "a-b");
    assert_eq!(run_dir_name(5, "Do it", 0), "5-do-it");
    assert_eq!(run_dir_name(5, "Do it", 2), "5-do-it-2");
    let a = RunArtifacts {
        name: "5-do-it".into(),
        started_at: 5,
        mode: "run".into(),
        task: "Do it".into(),
        workspace: "/work".into(),
        roster: vec![],
        report_path: None,
        report_json_path: None,
    };
    assert_eq!(a.dir(), "/work/.tales/runs/5-do-it");
    assert_eq!(a.plan_path(), "/work/.tales/runs/5-do-it/plan.md");
    assert_eq!(a.relative_dir(), ".tales/runs/5-do-it");
}

#[test]
fn reports_do_not_reopen_a_finished_run() {
    let mut snapshot = ArtifactSnapshot::new();
    snapshot.apply(&OrchestratorEvent::Fatal { msg: "lost".into() });
    assert_eq!(snapshot.status(), "failed");
    snapshot.apply(&OrchestratorEvent::SessionReport { markdown: "# r".into(), summary: Json::Null });
    assert_eq!(snapshot.status(), "failed");
    assert!(snapshot.transcript().contains("lost"));
}

#[test]
fn report_paths_resolve_relative_to_cwd() {
    let cwd = "/tmp/tales-cwd";
    assert_eq!(
        resolve_report_path(cwd, &Some(".tales/report.md".to_string())).unwrap(),
        "/tmp/tales-cwd/.tales/report.md"
    );
    assert_eq!(
        resolve_report_path(cwd, &Some("/tmp/report.md".to_string())).unwrap(),
        "/tmp/report.md"
    );
    assert!(resolve_report_path(cwd, &None).is_none());
}

#[test]
fn doctor_targets_default_to_primary_roster() {
    let (targets, strict) = doctor_targets(false, &vec![]).unwrap();
    assert!(strict);
    assert_eq!(targets, vec!["anthropic", "codex"]);
}

#[test]
fn doctor_targets_all_inventory_is_not_strict() {
    let (targets, strict) = doctor_targets(true, &vec![]).unwrap();
    assert!(!strict);
    assert_eq!(targets.len(), known_tools().len());
    assert!(targets.iter().any(|tool| tool == "anthropic"));
}

#[test]
fn doctor_targets_rejects_mixed_all_and_agents() {
    let err = doctor_targets(true, &vec!["codex".into()]).unwrap_err();
    assert!(err.contains("--all"), "{err}");
}

#[test]
fn doctor_checks_each_tool_once() {
    let keys: Vec<String> = vec!["codex".into(), "Codex".into(), "glm".into()];
    assert_eq!(unique_tool_keys(&keys), vec!["codex", "glm"]);
}

#[test]
fn doctor_passes_on_found_tools() {
    let found = vec![FoundBin { bin: "codex".into(), path: "/usr/bin/codex".into() }];
    let targets = vec!["codex".to_string()];
    let failures = doctor_failures(&targets, true, &found);
    assert!(failures.is_empty());
    assert!(doctor_verdict(&failures).is_ok());
    let missing = doctor_failures(&targets, true, &vec![]);
    assert_eq!(missing.len(), 1);
    assert!(doctor_verdict(&missing).is_err());
    assert_ne!(doctor_status_text(&failures), doctor_status_text(&missing));
}

#[test]
fn doctor_caps_are_explicit() {
    let caps = AgentCaps {
        midturn_injection: true,
        structured_output: false,
        resumable: true,
        mcp: false,
    };
    assert_eq!(format_caps(caps), "resume=true, midturn=true, structured=false, mcp=false");
}

#[test]
fn doctor_json_inventory_is_machine_readable_without_strict_failures() {
    let targets = vec!["anthropic".to_string()];
    let (payload, failures) = doctor_json_report(
        &build(),
        "/tmp/tales-doctor-json",
        &targets,
        false,
        &vec![],
        off_context(),
    );
    let payload = value(&payload);

    assert!(failures.is_empty(), "{failures:?}");
    assert_eq!(payload["kind"], "tales_doctor");
    assert_eq!(payload["schema_version"], 1);
    assert_eq!(payload["mode"], "inventory");
    assert_eq!(payload["status"], "ok");
    assert_eq!(payload["project_context"]["enabled"], false);
    assert_eq!(payload["tools"][0]["key"], "anthropic");
    assert_eq!(payload["tools"][0]["blocking"], false);
    assert!(payload["tools"][0]["caps"].is_object());
    assert!(payload["roster_advice"].as_array().unwrap().is_empty());
}

#[test]
fn doctor_json_reports_unknown_strict_tool_as_failure() {
    let targets = vec!["nope".to_string()];
    let (payload, failures) = doctor_json_report(
        &build(),
        "/tmp/tales-doctor-json",
        &targets,
        true,
        &vec![],
        off_context(),
    );
    let payload = value(&payload);

    assert_eq!(payload["status"], "attention_required");
    assert_eq!(payload["tools"][0]["known"], false);
    assert_eq!(payload["tools"][0]["blocking"], true);
    assert!(failures.iter().any(|failure| failure.contains("unknown")));
    assert!(!payload["failures"].as_array().unwrap().is_empty());
    assert_eq!(payload["roster_advice"][0]["key"], "unknown_tool");
}

#[test]
fn roster_advice_flags_single_tool_debate() {
    let agents = vec![agent("drafter", "anthropic"), agent("critic", "anthropic")];

    let advice: Vec<Value> = roster_advice_for_agents(&agents).iter().map(value).collect();

    assert!(advice.iter().any(|item| {
        item["key"] == "planner_diversity"
            && item["level"] == "warn"
            && item["title"] == "Single-tool debate"
    }));
}

#[test]
fn context_budget_labels_match_cli_semantics() {
    assert_eq!(context_budget_label(None), "default 24000 chars (~6000 tokens)");
    assert_eq!(context_budget_label(Some(0)), "unlimited");
    assert_eq!(context_budget_label(Some(4096)), "4096 chars (~1024 tokens)");
    assert_eq!(effective_context_budget(None), Some(24000));
    assert_eq!(effective_context_budget(Some(0)), None);
}

#[test]
fn context_fit_label_reports_budget_pressure() {
    assert_eq!(
        context_fit_label(6000, Some(24000)),
        "6000/24000 chars (25%, ~1500/6000 tokens) - fits"
    );
    assert_eq!(
        context_fit_label(25000, Some(24000)),
        "25000/24000 chars (105%, ~6250/6000 tokens) - over budget"
    );
    assert_eq!(context_fit_label(6000, None), "6000 chars (~1500 tokens) - unlimited budget");
}

#[test]
fn labels_are_cut_and_padded() {
    assert_eq!(head("abcdef", 3), "abc");
    assert_eq!(pad("ab", 4), "ab  ");
    assert_eq!(pad("abcdef", 4), "abcdef");
    assert_eq!(tool_label("codex"), "Codex");
    assert_eq!(json_preview("abcdef", 3), "abc...");
    assert_eq!(json_preview("abc", 3), "abc");
}

#[test]
fn context_json_serializer_can_include_or_omit_text() {
    let ctx = ProjectContext {
        text: "Project context\n- src/lib.rs\n".into(),
        cache_hit: true,
        cache_path: "/tmp/tales-context.txt".into(),
    };
    let report =
        |print: bool| value(&context_report_json(&build(), "/w", &ctx, false, 220, 1200, print, &None));
    let without = report(false);
    let metadata = &without["project_context"];

    assert_eq!(metadata["enabled"], true);
    assert_eq!(metadata["cache_hit"], true);
    assert_eq!(metadata["text_included"], false);
    assert!(metadata.get("text").is_none());

    let with = report(true);
    let metadata = &with["project_context"];
    assert_eq!(metadata["text_included"], true);
    assert!(metadata["text"].as_str().unwrap().contains("src/lib.rs"));
}

#[test]
fn main_prompt_forecast_counts_parallel_run_payload() {
    let agents =
        vec![agent("drafter", "anthropic"), agent("critic", "codex"), agent("executor", "anthropic")];
    let context = PreflightContextSummary {
        project_context_chars: Some(1_000),
        project_context_cache_hit: Some(true),
        local_change_handoff_chars: Some(200),
    };

    let forecast = prompt_forecast("task", &agents, 4, false, true, None, &context).unwrap();

    assert_eq!(forecast.planner_count, 2);
    assert_eq!(forecast.planning_prompts, 4);
    assert_eq!(forecast.recommendation_prompts, 2);
    assert_eq!(forecast.execution_prompts, 1);
    assert_eq!(forecast.max_vote_repair_prompts, 2);
    assert_eq!(forecast.first_context_prompts, 2);
    assert_eq!(forecast.project_context_payload_chars, 2_000);
    assert_eq!(forecast.local_change_payload_chars, 200);
    assert_eq!(forecast.total_prompts(), 7);
    assert_eq!(forecast.known_payload_chars, 2_228);
}

#[test]
fn main_prompt_forecast_discuss_has_no_execution_payload() {
    let agents = vec![agent("drafter", "anthropic"), agent("critic", "codex")];
    let context = PreflightContextSummary {
        project_context_chars: None,
        project_context_cache_hit: None,
        local_change_handoff_chars: Some(200),
    };

    let forecast = prompt_forecast("task", &agents, 3, true, false, None, &context).unwrap();

    assert_eq!(forecast.planning_prompts, 3);
    assert_eq!(forecast.recommendation_prompts, 0);
    assert_eq!(forecast.execution_prompts, 0);
    assert_eq!(forecast.max_vote_repair_prompts, 0);
    assert_eq!(forecast.first_context_prompts, 0);
    assert_eq!(forecast.local_change_payload_chars, 0);
    assert_eq!(forecast.total_prompts(), 3);
    assert_eq!(forecast.known_payload_chars, 12);
}

#[test]
fn forecasts_that_do_not_fit_are_not_made() {
    let agents = vec![agent("drafter", "anthropic"), agent("critic", "codex")];
    let context = PreflightContextSummary {
        project_context_chars: Some(usize::MAX),
        project_context_cache_hit: None,
        local_change_handoff_chars: None,
    };
    assert!(prompt_forecast("task", &agents, 3, true, false, Some(0), &context).is_none());
}

#[test]
fn preflight_agent_json_exposes_tool_metadata() {
    let agent = PreflightAgent {
        role: "drafter",
        key: "anthropic".into(),
        model: Some("opus".into()),
        effort: None,
    };

    let value = value(&preflight_agent_json(&agent, true, &vec![]));

    assert_eq!(value["role"], "drafter");
    assert_eq!(value["key"], "anthropic");
    assert_eq!(value["model"], "opus");
    assert_eq!(value["demo_mock"], true);
    assert!(value["caps"].is_object());
}

#[test]
fn shared_prompt_forecast_json_reports_calls_and_payloads() {
    let forecast = PromptForecast {
        planner_count: 2,
        planning_prompts: 4,
        recommendation_prompts: 2,
        execution_prompts: 1,
        max_vote_repair_prompts: 2,
        first_context_prompts: 2,
        project_context_payload_chars: 1_200,
        local_change_payload_chars: 400,
        known_payload_chars: 1_700,
    };

    let value = value(&prompt_forecast_to_json(&forecast, 4, false));

    assert_eq!(value["planned_calls"]["total"], 7);
    assert_eq!(value["planned_calls"]["base"], 7);
    assert_eq!(value["planned_calls"]["worst_case"], 9);
    assert_eq!(value["planning_waits"]["mode"], "parallel");
    assert_eq!(value["payloads"]["project_context_chars_per_first_prompt"], 600);
    assert_eq!(value["repair_risk"]["min_vote_repair_prompts"], 0);
    assert_eq!(value["repair_risk"]["max_vote_repair_prompts"], 2);
    assert_eq!(value["repair_risk"]["worst_case_total_prompts"], 9);
}

#[test]
fn the_reference_lists_every_tool() {
    let text = commands_reference(&vec![]);
    for tool in known_tools() {
        assert!(text.contains(tool.pretty), "{}", tool.key);
    }
}

#[test]
fn eval_scenarios_are_chosen_by_name() {
    let picked = select_eval_scenario("fix lint", "debate_parallel").unwrap();
    assert_eq!(picked.name, "debate_parallel");
    assert!(select_eval_scenario("fix lint", "nope").is_err());
}

fn request() -> PreflightRequest {
    PreflightRequest {
        mode: "run".into(),
        prompt: "fix lint".into(),
        cwd: "/work".into(),
        agents: vec![agent("drafter", "anthropic"), agent("critic", "codex")],
        turns: 4,
        sandbox: "workspace-write".into(),
        sequential: false,
        include_execution: true,
        separate_executor: false,
        context_budget_chars: None,
        no_project_context: false,
        refresh_project_context: false,
        project_context_max_files: 220,
        project_context_max_manifest_chars: 1200,
        demo: false,
        report_path: None,
        report_json_path: None,
    }
}

#[test]
fn resolved_sessions_wait_for_approval() {
    let config = resolved_session_config(&request());
    assert!(config.execution_policy.approval_required);
    assert_eq!(config.seats.len(), 2);
    assert_eq!(config.task, "fix lint");
}

#[test]
fn worktrees_need_a_repository() {
    assert!(matches!(worktree_fate(false, false, true), WorktreeFate::Disabled));
    assert!(matches!(worktree_fate(true, true, true), WorktreeFate::IgnoredInDemo));
    assert!(matches!(worktree_fate(true, false, true), WorktreeFate::Enabled));
    assert!(matches!(worktree_fate(true, false, false), WorktreeFate::IgnoredOutsideGit));
}

#[test]
fn unreadable_records_tell_nothing() {
    let broken = read_recover_run("/work/.tales/runs/150-x".into(), Some("{\"task\":".into()));
    assert!(broken.task.is_none() && broken.status.is_none());
    assert_eq!(broken.updated_unix, Some(150));
    let none = read_recover_run("/work/.tales/runs/150-x".into(), None);
    assert!(none.task.is_none());
}

#[test]
fn saved_evaluations_are_shown() {
    let saved = r#"{"result":{"scenario":{"name":"solo"},"metrics":{"planned_calls":3,
        "worst_case_planned_calls":4,"known_payload_chars":80,"estimated_tokens":20}}}"#;
    assert_eq!(
        saved_eval_summary(saved).unwrap(),
        "Tales eval\n- solo: calls=3 worst=4 payload=80 chars (~20 tokens)\n"
    );
    let refused = saved_eval_summary("not json").unwrap_err();
    assert_eq!(refused.message(), "json error: expected ident at line 1 column 2");
}
