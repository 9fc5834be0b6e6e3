use serde_json::Value;
use tales::json::{Json, Number};
use tales::blackboard::Blackboard;
use tales::changes::LocalChangeSummary;
use tales::conductor::Role;
use tales::handoff::{compose_execution_packet, compose_vote_context};
use tales::prompts::{
    compose_execution_prompt, compose_prompt, compose_round1_prompt, compose_round_synth_prompt,
    compose_vote_prompt, compose_vote_repair_prompt,
};
use tales::recommend::{ExecutionVote, Measure, Recommendation, Score, VoteParseSource};
use tales::report::{ProjectContextReport, RunFacts, RunOutcome};
use tales::telemetry::{CostReport, PromptStats};
use tales::usage::TokenUsage;

fn measure(x: f64, digits: usize) -> Measure {
    Measure { bits: x.to_bits(), shown: format!("{:.*}", digits, x) }
}

fn scores(list: &[(&str, f32)]) -> Vec<Score> {
    list.iter()
        .map(|(name, x)| Score { executor: name.to_string(), value: measure(f64::from(*x), 2) })
        .collect()
}

fn costs(list: &[(String, f64)]) -> CostReport {
    CostReport {
        total: measure(list.iter().map(|(_, x)| *x).sum(), 4),
        entries: list.iter().map(|(name, x)| (name.clone(), measure(*x, 4))).collect(),
    }
}

fn value(j: &tales::json::Json) -> serde_json::Value {
    match j {
        Json::Null => Value::Null,
        Json::Bool(b) => Value::Bool(*b),
        Json::Num(Number::Unsigned(n)) => Value::from(*n),
        Json::Num(Number::Negative(n)) => Value::from(*n),
        Json::Num(Number::Real(bits)) => Value::from(f64::from_bits(*bits)),
        Json::Str(s) => Value::String(s.clone()),
        Json::Arr(a) => Value::Array(a.iter().map(value).collect()),
        Json::Obj(f) => Value::Object(f.iter().map(|(k, v)| (k.clone(), value(v))).collect()),
    }
}

#[allow(clippy::too_many_arguments)]
fn compose_session_report(
    bb: &Blackboard,
    recommendation: Option<&Recommendation>,
    outcome: &RunOutcome,
    context_budget_chars: Option<usize>,
    project_context: Option<&ProjectContextReport>,
    local_changes: Option<&LocalChangeSummary>,
    salvaged_votes: usize,
    reported: &[(String, f64)],
    usage: &[(String, TokenUsage)],
    prompts: &[(String, PromptStats)],
    phases: &[(String, PromptStats)],
) -> String {
    let (costs, usage) = (costs(reported), usage.to_vec());
    let (prompts, phases) = (prompts.to_vec(), phases.to_vec());
    let facts = RunFacts {
        recommendation,
        context_budget_chars,
        project_context,
        local_changes,
        salvaged_votes,
        costs: &costs,
        usage: &usage,
        prompts: &prompts,
        phases: &phases,
    };
    tales::session_report::compose_session_report(bb, outcome, &facts)
}

#[allow(clippy::too_many_arguments)]
fn compose_session_summary(
    bb: &Blackboard,
    recommendation: Option<&Recommendation>,
    outcome: &RunOutcome,
    context_budget_chars: Option<usize>,
    project_context: Option<&ProjectContextReport>,
    local_changes: Option<&LocalChangeSummary>,
    salvaged_votes: usize,
    reported: &[(String, f64)],
    usage: &[(String, TokenUsage)],
    prompts: &[(String, PromptStats)],
    phases: &[(String, PromptStats)],
) -> serde_json::Value {
    let (costs, usage) = (costs(reported), usage.to_vec());
    let (prompts, phases) = (prompts.to_vec(), phases.to_vec());
    let facts = RunFacts {
        recommendation,
        context_budget_chars,
        project_context,
        local_changes,
        salvaged_votes,
        costs: &costs,
        usage: &usage,
        prompts: &prompts,
        phases: &phases,
    };
    let build = tales::build_info::BuildRecord {
        git_sha: None,
        git_dirty: None,
        target: None,
        profile: None,
    };
    value(&tales::summary::compose_session_summary(bb, &build, outcome, &facts))
}

fn bb_with(items: &[(&str, Role, &str)]) -> Blackboard {
    let mut bb = Blackboard::default();
    for (label, role, text) in items {
        bb.record(label.to_string(), *role, text.to_string());
    }
    bb
}

fn bb_with_task(task: &str) -> Blackboard {
    Blackboard { task: task.into(), ..Blackboard::default() }
}

fn dirty_changes() -> LocalChangeSummary {
    LocalChangeSummary {
        branch: Some("main".into()),
        changes: vec![
            " M crates/tales-core/src/orchestrator.rs".into(),
            "?? landing/demo.mp4".into(),
        ],
        truncated: false,
        omitted: 1,
    }
}

#[test]
fn resumable_revision_sends_only_the_delta_not_role_or_own_history() {
    // A resumable drafter on a later turn: prompt carries the critic's delta,
    // NOT the "You are the DRAFTER" intro and NOT its own earlier draft.
    let bb = bb_with(&[
        ("anthropic", Role::Drafter, "MY-OWN-DRAFT"),
        ("codex", Role::Critic, "CRITIC-DELTA"),
    ]);
    let p = compose_prompt(
        Role::Drafter,
        "task",
        &bb,
        true,
        "CRITIC-DELTA",
        false,
        None,
        None,
    );
    assert!(p.contains("CRITIC-DELTA"), "delta missing: {p}");
    assert!(
        !p.contains("You are the DRAFTER"),
        "re-sent role intro: {p}"
    );
    assert!(!p.contains("MY-OWN-DRAFT"), "re-pasted own history: {p}");
}

#[test]
fn resumable_first_turn_introduces_role() {
    let bb = Blackboard::default();
    let p = compose_prompt(
        Role::Critic,
        "task",
        &bb,
        true,
        "THE-DRAFT",
        true,
        None,
        None,
    );
    assert!(p.contains("You are the CRITIC"), "{p}");
    assert!(p.contains("THE-DRAFT"), "{p}");
}

#[test]
fn first_turn_prompts_include_cached_project_context() {
    let bb = Blackboard::default();
    let p = compose_prompt(
        Role::Drafter,
        "task",
        &bb,
        true,
        "",
        true,
        None,
        Some("Project context (cached by Tales)\n- crates/tales-core/src/lib.rs"),
    );
    assert!(p.contains("Cached project context"), "{p}");
    assert!(p.contains("crates/tales-core/src/lib.rs"), "{p}");

    let parallel = compose_round1_prompt("task", Some("File map:\n- Cargo.toml"), None);
    assert!(parallel.contains("Cached project context"), "{parallel}");
    assert!(parallel.contains("Cargo.toml"), "{parallel}");
}

#[test]
fn first_turn_project_context_respects_context_budget() {
    let bb = Blackboard::default();
    let project_context = format!(
        "Project context (cached by Tales)\nEARLY-FILE\n{}\nLATE-FILE",
        "x".repeat(80)
    );
    let p = compose_prompt(
        Role::Drafter,
        "task",
        &bb,
        true,
        "",
        true,
        Some(20),
        Some(&project_context),
    );
    assert!(p.contains("Cached project context"), "{p}");
    assert!(p.contains("earlier context omitted"), "{p}");
    assert!(!p.contains("EARLY-FILE"), "{p}");
    assert!(p.contains("LATE-FILE"), "{p}");

    let parallel = compose_round1_prompt("task", Some(&project_context), Some(20));
    assert!(parallel.contains("Cached project context"), "{parallel}");
    assert!(parallel.contains("earlier context omitted"), "{parallel}");
    assert!(!parallel.contains("EARLY-FILE"), "{parallel}");
    assert!(parallel.contains("LATE-FILE"), "{parallel}");
}

#[test]
fn capped_project_context_preserves_repo_sections() {
    let bb = Blackboard::default();
    let project_context = format!(
        "Project context (cached by Tales)\n\
         Root: /repo\n\
         Indexed files: 200\n\n\
         Important manifests:\n\
         - Cargo.toml\n\
         - crates/tales-core/Cargo.toml\n\n\
         Git working tree:\n\
         - branch: main\n\
         - changes:\n\
           - M crates/tales-core/src/orchestrator.rs\n\n\
         File map:\n\
         - EARLY-FILE.rs\n\
         - {}\n\
         - LATE-FILE.rs\n\n\
         Manifest excerpts:\n\
         --- Cargo.toml ---\n\
         [workspace]\n\
         members = [\"crates/tales-core\"]\n",
        "x".repeat(160)
    );
    let p = compose_prompt(
        Role::Drafter,
        "task",
        &bb,
        true,
        "",
        true,
        Some(240),
        Some(&project_context),
    );

    assert!(p.contains("project context capped"), "{p}");
    assert!(p.contains("Project context (cached by Tales)"), "{p}");
    assert!(p.contains("Important manifests:"), "{p}");
    assert!(p.contains("Cargo.toml"), "{p}");
    assert!(p.contains("Git working tree:"), "{p}");
    assert!(p.contains("branch: main"), "{p}");
    assert!(p.contains("File map:"), "{p}");
    assert!(p.contains("EARLY-FILE.rs"), "{p}");
    assert!(p.contains("LATE-FILE.rs"), "{p}");
    assert!(p.contains("Manifest excerpts:"), "{p}");
    assert!(p.contains("middle context omitted"), "{p}");
}

#[test]
fn resumable_delta_respects_context_budget() {
    let bb = bb_with(&[
        ("anthropic", Role::Drafter, "EARLY-DRAFT"),
        ("codex", Role::Critic, "LATE-CRITIQUE"),
    ]);
    let delta = format!("EARLY-DELTA {} LATE-DELTA", "x".repeat(80));
    let p = compose_prompt(
        Role::Drafter,
        "task",
        &bb,
        true,
        &delta,
        false,
        Some(20),
        None,
    );
    assert!(p.contains("earlier context omitted"), "{p}");
    assert!(!p.contains("EARLY-DELTA"), "{p}");
    assert!(p.contains("LATE-DELTA"), "{p}");
}

#[test]
fn stateless_first_turn_includes_cached_project_context() {
    let bb = Blackboard::default();
    let p = compose_prompt(
        Role::Drafter,
        "task",
        &bb,
        false,
        "",
        true,
        None,
        Some("Project context (cached by Tales)\n- Cargo.toml"),
    );
    assert!(p.contains("Cached project context"), "{p}");
    assert!(p.contains("Cargo.toml"), "{p}");
}

#[test]
fn stateless_later_turn_omits_repeated_project_context() {
    let bb = bb_with(&[("anthropic", Role::Drafter, "EARLIER-DRAFT")]);
    let p = compose_prompt(
        Role::Drafter,
        "task",
        &bb,
        false,
        "ignored",
        false,
        None,
        Some("Project context (cached by Tales)\n- SHOULD-NOT-REPEAT"),
    );
    assert!(p.contains("You are the DRAFTER"), "{p}");
    assert!(p.contains("EARLIER-DRAFT"), "{p}");
    assert!(!p.contains("Cached project context"), "{p}");
    assert!(!p.contains("SHOULD-NOT-REPEAT"), "{p}");
}

#[test]
fn stateless_adapter_keeps_full_context_behavior() {
    // resumable=false → role restated and full transcript re-sent unless a
    // context budget requires trimming.
    let bb = bb_with(&[("anthropic", Role::Drafter, "EARLIER-DRAFT")]);
    let p = compose_prompt(
        Role::Drafter,
        "task",
        &bb,
        false,
        "ignored",
        false,
        None,
        None,
    );
    assert!(p.contains("You are the DRAFTER"), "{p}");
    assert!(p.contains("EARLIER-DRAFT"), "full transcript expected: {p}");
}

#[test]
fn stateless_adapter_context_can_be_bounded() {
    let bb = bb_with(&[("anthropic", Role::Drafter, "EARLY-CONTEXT LATE-CONTEXT")]);
    let p = compose_prompt(
        Role::Drafter,
        "task",
        &bb,
        false,
        "ignored",
        false,
        Some(12),
        None,
    );
    assert!(p.contains("earlier context omitted"), "{p}");
    assert!(!p.contains("EARLY-CONTEXT"), "{p}");
    assert!(p.contains("LATE-CONTEXT"), "{p}");
}

#[test]
fn intros_ask_for_concrete_grounded_output_and_greenlight() {
    let bb = Blackboard::default();
    // Drafter asks for the concrete files to change.
    let drafter = compose_prompt(Role::Drafter, "task", &bb, true, "", true, None, None);
    assert!(drafter.contains("You are the DRAFTER"), "{drafter}");
    assert!(drafter.to_lowercase().contains("files"), "{drafter}");
    // Critic is told to green-light a sound approach instead of nitpicking.
    let critic = compose_prompt(Role::Critic, "task", &bb, true, "THE-DRAFT", true, None, None);
    assert!(critic.contains("THE-DRAFT"), "{critic}");
    assert!(critic.to_lowercase().contains("sound"), "{critic}");
    // The parallel merge asks for an executable, file-level conclusion.
    let synth = compose_round_synth_prompt("task", "OTHER", true, true, "OWN", None);
    assert!(synth.to_lowercase().contains("executable"), "{synth}");
}

#[test]
fn round2_synth_merges_and_review_critiques() {
    let synth = compose_round_synth_prompt("task", "OTHER-PLAN", true, true, "OWN", None);
    assert!(synth.contains("OTHER-PLAN"));
    assert!(synth.to_lowercase().contains("merged"));
    // resumable synth doesn't re-paste its own proposal.
    assert!(!synth.contains("OWN"), "{synth}");

    let review = compose_round_synth_prompt("task", "OTHER-PLAN", false, true, "OWN", None);
    assert!(review.to_lowercase().contains("review"));
    assert!(review.contains("OTHER-PLAN"));
}

#[test]
fn stateless_round2_includes_own_proposal() {
    // A stateless planner can't recall its round-1 output, so it must be
    // re-sent alongside the competitor's.
    let p = compose_round_synth_prompt("task", "OTHER-PLAN", true, false, "MY-PLAN", None);
    assert!(p.contains("MY-PLAN"), "{p}");
    assert!(p.contains("OTHER-PLAN"), "{p}");
}

#[test]
fn stateless_round2_splits_context_budget_between_sections() {
    let p = compose_round_synth_prompt(
        "task",
        "OTHER-EARLY OTHER-LATE",
        true,
        false,
        "OWN-EARLY OWN-LATE",
        Some(10),
    );
    assert!(p.contains("Your proposal"), "{p}");
    assert!(p.contains("The other planner proposed"), "{p}");
    assert!(p.contains("showing last 5 chars"), "{p}");
    assert!(!p.contains("OWN-EARLY"), "{p}");
    assert!(!p.contains("OTHER-EARLY"), "{p}");
    assert!(p.contains("LATE"), "{p}");
}

#[test]
fn resumable_round2_keeps_full_budget_for_other_proposal() {
    let p = compose_round_synth_prompt(
        "task",
        "OTHER-EARLY OTHER-LATE",
        true,
        true,
        "OWN-EARLY OWN-LATE",
        Some(10),
    );
    assert!(p.contains("showing last 10 chars"), "{p}");
    assert!(!p.contains("Your proposal"), "{p}");
}

#[test]
fn vote_prompt_keeps_resumable_lean_but_stateless_contextual() {
    let candidates = vec!["anthropic".to_string(), "codex".to_string()];
    let lean = compose_vote_prompt("task", &candidates, true, "COMPACT-CONTEXT");
    assert!(lean.contains("already in this session"), "{lean}");
    assert!(!lean.contains("COMPACT-CONTEXT"), "{lean}");

    let full = compose_vote_prompt("task", &candidates, false, "COMPACT-CONTEXT");
    assert!(full.contains("Discussion context"), "{full}");
    assert!(full.contains("COMPACT-CONTEXT"), "{full}");
}

#[test]
fn vote_context_keeps_recent_decision_context() {
    let mut bb = Blackboard::default();
    bb.record("anthropic".into(), Role::Drafter, "STALE-PLAN".into());
    bb.record(
        "you".into(),
        Role::Human,
        "prefer the cheap executor".into(),
    );
    bb.record("codex".into(), Role::Critic, "RISK-1".into());
    bb.record("anthropic".into(), Role::Drafter, "PLAN-2".into());
    bb.record("codex".into(), Role::Critic, "RISK-2".into());
    bb.record("anthropic".into(), Role::Drafter, "FINAL-PLAN".into());

    let context = compose_vote_context(&bb, None);
    assert!(context.contains("Latest human direction"), "{context}");
    assert!(context.contains("prefer the cheap executor"), "{context}");
    assert!(context.contains("FINAL-PLAN"), "{context}");
    assert!(context.contains("RISK-2"), "{context}");
    assert!(!context.contains("STALE-PLAN"), "{context}");
}

#[test]
fn vote_context_respects_budget() {
    let bb = bb_with(&[(
        "anthropic",
        Role::Drafter,
        "EARLY-CONTEXT MIDDLE-CONTEXT LATE-CONTEXT",
    )]);
    let context = compose_vote_context(&bb, Some(12));
    assert!(context.contains("earlier context omitted"), "{context}");
    assert!(!context.contains("EARLY-CONTEXT"), "{context}");
    assert!(context.contains("LATE-CONTEXT"), "{context}");
}

#[test]
fn vote_repair_is_lean_for_resumable_and_contextual_for_stateless() {
    let candidates = vec!["anthropic".to_string(), "codex".to_string()];
    let lean =
        compose_vote_repair_prompt("task", &candidates, true, "FULL-TRANSCRIPT", "not json");
    assert!(lean.contains("not valid JSON"), "{lean}");
    assert!(!lean.contains("FULL-TRANSCRIPT"), "{lean}");
    assert!(lean.contains("anthropic | codex"), "{lean}");

    let full =
        compose_vote_repair_prompt("task", &candidates, false, "COMPACT-CONTEXT", "not json");
    assert!(full.contains("Discussion context"), "{full}");
    assert!(full.contains("COMPACT-CONTEXT"), "{full}");
}

#[test]
fn execution_prompt_avoids_reposting_plan_for_resumable_planner() {
    let lean = compose_execution_prompt("task", "FULL-PLAN", true, None, None);
    assert!(lean.contains("already in your session memory"), "{lean}");
    assert!(!lean.contains("FULL-PLAN"), "{lean}");

    let full = compose_execution_prompt("task", "FULL-PLAN", false, None, None);
    assert!(full.contains("FULL-PLAN"), "{full}");
}

#[test]
fn execution_prompt_bounds_stateless_plan_context() {
    let full = compose_execution_prompt("task", "EARLY-PLAN LATE-PLAN", false, Some(9), None);
    assert!(full.contains("earlier context omitted"), "{full}");
    assert!(!full.contains("EARLY-PLAN"), "{full}");
    assert!(full.contains("LATE-PLAN"), "{full}");
}

#[test]
fn execution_prompt_preserves_prebudgeted_packet_under_tight_cap() {
    let packet = "Execution packet\n\
Task: task\n\
Chosen executor: codex\n\
Context policy: compact packet; older debate may be omitted.\n\n\
Recommendation:\n\
- recommended: codex (confident: true)\n\
- rationale:\nimportant rationale\n\n\
Latest planner outputs:\n\
(middle context omitted; showing first 8 and last 8 chars)\n\
FINAL-PLAN";
    let prompt = compose_execution_prompt("task", packet, false, Some(12), None);

    assert!(prompt.contains("Execution packet"), "{prompt}");
    assert!(prompt.contains("Chosen executor: codex"), "{prompt}");
    assert!(prompt.contains("Recommendation:"), "{prompt}");
    assert!(prompt.contains("important rationale"), "{prompt}");
    assert!(prompt.contains("FINAL-PLAN"), "{prompt}");
    assert!(!prompt.contains("showing last 12 chars"), "{prompt}");
}

#[test]
fn resumable_execution_prompt_still_gets_local_change_handoff() {
    let changes = dirty_changes();
    let lean = compose_execution_prompt("task", "FULL-PLAN", true, None, Some(&changes));
    assert!(lean.contains("already in your session memory"), "{lean}");
    assert!(!lean.contains("FULL-PLAN"), "{lean}");
    assert!(lean.contains("Local changes before execution"), "{lean}");
    assert!(lean.contains("orchestrator.rs"), "{lean}");
    assert!(
        lean.contains("preserve unrelated existing changes"),
        "{lean}"
    );
}

#[test]
fn execution_packet_uses_recent_planner_outputs_and_recommendation() {
    let mut bb = Blackboard::default();
    bb.record("anthropic".into(), Role::Drafter, "STALE-PLAN".into());
    bb.record("you".into(), Role::Human, "keep it minimal".into());
    bb.record("codex".into(), Role::Critic, "RISK-1".into());
    bb.record("anthropic".into(), Role::Drafter, "PLAN-2".into());
    bb.record("codex".into(), Role::Critic, "RISK-2".into());
    bb.record("anthropic".into(), Role::Drafter, "FINAL-PLAN".into());
    let rec = Recommendation {
        executor: "gemini".into(),
        scores: scores(&[("gemini", 0.8), ("anthropic", 0.4)]),
        votes: Vec::new(),
        rationale: "cheap executor can apply the agreed small diff".into(),
        needs_plan: false,
        confident: true,
    };

    let packet = compose_execution_packet("task", "gemini", &bb, Some(&rec), None, None);
    assert!(packet.contains("Execution packet"), "{packet}");
    assert!(packet.contains("Chosen executor: gemini"), "{packet}");
    assert!(packet.contains("cheap executor"), "{packet}");
    assert!(packet.contains("keep it minimal"), "{packet}");
    assert!(packet.contains("FINAL-PLAN"), "{packet}");
    assert!(packet.contains("RISK-2"), "{packet}");
    assert!(!packet.contains("STALE-PLAN"), "{packet}");
}

#[test]
fn execution_packet_budget_trims_body_but_keeps_header() {
    let bb = bb_with(&[(
        "anthropic",
        Role::Drafter,
        "EARLY-CONTEXT MIDDLE-CONTEXT LATE-CONTEXT",
    )]);
    let packet = compose_execution_packet("task", "codex", &bb, None, Some(12), None);
    assert!(packet.contains("Task: task"), "{packet}");
    assert!(packet.contains("Chosen executor: codex"), "{packet}");
    assert!(packet.contains("earlier context omitted"), "{packet}");
    assert!(!packet.contains("EARLY-CONTEXT"), "{packet}");
    assert!(packet.contains("LATE-CONTEXT"), "{packet}");
}

#[test]
fn execution_packet_budget_preserves_priority_sections() {
    let mut bb = Blackboard::default();
    bb.record(
        "you".into(),
        Role::Human,
        format!(
            "EARLY-HUMAN {}\nmust preserve user instruction",
            "x".repeat(120)
        ),
    );
    bb.record(
        "anthropic".into(),
        Role::Drafter,
        format!("EARLY-PLAN {}\nFINAL-PLAN", "x".repeat(120)),
    );
    let rec = Recommendation {
        executor: "codex".into(),
        scores: scores(&[("codex", 0.9)]),
        votes: Vec::new(),
        rationale: format!("EARLY-RATIONALE {}\nimportant rationale", "x".repeat(120)),
        needs_plan: false,
        confident: true,
    };
    let changes = LocalChangeSummary {
        branch: Some("main".into()),
        changes: (0..20)
            .map(|idx| format!(" M crates/tales-core/src/file_{idx}.rs"))
            .collect(),
        truncated: true,
        omitted: 0,
    };

    let packet =
        compose_execution_packet("task", "codex", &bb, Some(&rec), Some(240), Some(&changes));

    assert!(packet.contains("Chosen executor: codex"), "{packet}");
    assert!(packet.contains("Recommendation:"), "{packet}");
    assert!(packet.contains("important rationale"), "{packet}");
    assert!(packet.contains("Latest human direction:"), "{packet}");
    assert!(
        packet.contains("must preserve user instruction"),
        "{packet}"
    );
    assert!(packet.contains("Latest planner outputs:"), "{packet}");
    assert!(packet.contains("FINAL-PLAN"), "{packet}");
    assert!(
        packet.contains("Local changes before execution"),
        "{packet}"
    );
    assert!(packet.contains("earlier context omitted"), "{packet}");
    assert!(!packet.contains("EARLY-HUMAN"), "{packet}");
    assert!(!packet.contains("EARLY-RATIONALE"), "{packet}");
}

#[test]
fn execution_packet_includes_local_change_summary_for_separate_executors() {
    let bb = bb_with(&[("anthropic", Role::Drafter, "FINAL-PLAN")]);
    let changes = dirty_changes();
    let packet = compose_execution_packet("task", "codex", &bb, None, None, Some(&changes));
    assert!(
        packet.contains("Local changes before execution"),
        "{packet}"
    );
    assert!(
        packet.contains("crates/tales-core/src/orchestrator.rs"),
        "{packet}"
    );
    assert!(packet.contains("landing/demo.mp4"), "{packet}");
    assert!(
        packet.contains("omitted_generated_or_dependency_entries: 1"),
        "{packet}"
    );
}

#[test]
fn session_report_includes_cost_when_available() {
    let mut bb = bb_with_task("ship feature");
    bb.record("anthropic".into(), Role::Drafter, "plan".into());

    let report = compose_session_report(
        &bb,
        None,
        &RunOutcome::Executed {
            executor: "anthropic".into(),
            output: "done".into(),
        },
        None,
        None,
        None,
        0,
        &[("anthropic (Drafter)".into(), 0.12345)],
        &[],
        &[],
        &[],
    );

    assert!(report.contains("## Reported cost"), "{report}");
    assert!(report.contains("reported_total_usd: $0.1235"), "{report}");
    assert!(report.contains("anthropic (Drafter): $0.1235"), "{report}");
}

#[test]
fn session_summary_includes_machine_readable_handoff_and_telemetry() {
    let mut bb = bb_with_task("ship feature");
    bb.record(
        "you".into(),
        Role::Human,
        "prefer the cheap executor".into(),
    );
    bb.record("anthropic".into(), Role::Drafter, "final plan".into());
    let usage = TokenUsage {
        input_tokens: Some(120),
        cached_input_tokens: Some(20),
        output_tokens: Some(40),
        reasoning_output_tokens: None,
        total_tokens: Some(160),
    };
    let prompt_stats = vec![(
        "anthropic (Drafter)".into(),
        PromptStats {
            prompts: 2,
            chars_sent: 800,
            max_chars: 500,
        },
    )];

    let summary = compose_session_summary(
        &bb,
        None,
        &RunOutcome::Executed {
            executor: "codex".into(),
            output: "patched files".into(),
        },
        Some(24_000),
        None,
        Some(&dirty_changes()),
        0,
        &[("anthropic (Drafter)".into(), 0.12345)],
        &[("codex (Executor)".into(), usage)],
        &prompt_stats,
        &[("planning".into(), prompt_stats[0].1.clone())],
    );

    assert_eq!(summary["kind"], "tales_session_summary");
    assert_eq!(summary["outcome"]["status"], "executed");
    assert_eq!(summary["outcome"]["executor"], "codex");
    assert_eq!(summary["reported_cost"]["available"], true);
    assert_eq!(
        summary["reported_token_usage"]["total"]["total_or_sum"],
        160
    );
    assert_eq!(summary["prompt_telemetry"]["prompts_sent"], 2);
    assert_eq!(
        summary["prompt_telemetry"]["by_phase"][0]["label"],
        "planning"
    );
    assert_eq!(
        summary["latest_human_direction"]["text"],
        "prefer the cheap executor"
    );
    assert!(summary["resume_packet"]
        .as_str()
        .unwrap()
        .contains("next_step"));
}

#[test]
fn session_summary_includes_recommendation_vote_parse_source() {
    let bb = bb_with_task("pick executor");
    let recommendation = Recommendation {
        executor: "anthropic".into(),
        scores: scores(&[("anthropic", 0.5)]),
        votes: vec![ExecutionVote {
            voter: 7,
            voter_label: "codex".into(),
            recommended_executor: "anthropic".into(),
            confidence: measure(0.5, 2),
            needs_plan: false,
            rationale: "salvaged from prose vote: Anthropic should execute".into(),
            parse_source: VoteParseSource::CandidateMention,
        }],
        rationale: "codex nominated anthropic".into(),
        needs_plan: false,
        confident: true,
    };
    let prompt_stats = vec![(
        "codex (Critic)".into(),
        PromptStats {
            prompts: 1,
            chars_sent: 400,
            max_chars: 400,
        },
    )];

    let summary = compose_session_summary(
        &bb,
        Some(&recommendation),
        &RunOutcome::Discussed,
        None,
        None,
        None,
        1,
        &[],
        &[],
        &prompt_stats,
        &[],
    );

    assert_eq!(
        summary["recommendation"]["votes"][0]["parse_source"],
        "candidate_mention"
    );
    assert!(summary["optimization_hints"]
        .as_array()
        .unwrap()
        .iter()
        .any(|hint| hint.as_str().unwrap().contains("salvaged 1 prose vote")));
}

#[test]
fn session_report_explains_missing_machine_cost() {
    let bb = bb_with_task("ship feature");

    let report = compose_session_report(
        &bb,
        None,
        &RunOutcome::Rejected,
        None,
        None,
        None,
        0,
        &[],
        &[],
        &[],
        &[],
    );

    assert!(
        report.contains("no adapter reported machine-readable USD"),
        "{report}"
    );
}

#[test]
fn session_report_includes_provider_token_usage_when_available() {
    let bb = bb_with_task("ship feature");

    let report = compose_session_report(
        &bb,
        None,
        &RunOutcome::Discussed,
        None,
        None,
        None,
        0,
        &[],
        &[(
            "codex (Critic)".into(),
            TokenUsage {
                input_tokens: Some(120),
                cached_input_tokens: Some(40),
                output_tokens: Some(30),
                reasoning_output_tokens: Some(10),
                total_tokens: Some(160),
            },
        )],
        &[],
        &[],
    );

    assert!(report.contains("## Reported token usage"), "{report}");
    assert!(
        report.contains("- reported_total: total=160, input=120, cached_input=40, output=30, reasoning_output=10"),
        "{report}"
    );
    assert!(
        report.contains("- codex (Critic): total=160, input=120, cached_input=40, output=30, reasoning_output=10"),
        "{report}"
    );
    assert!(
        report.contains(
            "provider_tokens: largest reported usage was codex (Critic) with 160 token(s)"
        ),
        "{report}"
    );
    assert!(
        report.contains("provider_cache: adapters reported 40 cached input token(s)"),
        "{report}"
    );
}

#[test]
fn session_report_calibrates_provider_input_against_prompt_estimate() {
    let bb = bb_with_task("ship feature");

    let report = compose_session_report(
        &bb,
        None,
        &RunOutcome::Discussed,
        Some(2_000),
        None,
        None,
        0,
        &[],
        &[(
            "codex (Critic)".into(),
            TokenUsage {
                input_tokens: Some(600),
                cached_input_tokens: None,
                output_tokens: Some(60),
                reasoning_output_tokens: None,
                total_tokens: Some(660),
            },
        )],
        &[(
            "codex (Critic)".into(),
            PromptStats {
                prompts: 2,
                chars_sent: 1_000,
                max_chars: 600,
            },
        )],
        &[],
    );

    assert!(
        report.contains(
            "- provider_input_tokens: 600 (local_prompt_estimate: ~250, ratio: 240%)"
        ),
        "{report}"
    );
    assert!(
        report.contains(
            "provider_input_calibration: provider input tokens were 240% of the local prompt estimate"
        ),
        "{report}"
    );
}

#[test]
fn session_report_includes_prompt_telemetry() {
    let bb = bb_with_task("ship feature");
    let report = compose_session_report(
        &bb,
        None,
        &RunOutcome::Rejected,
        Some(24_000),
        None,
        None,
        0,
        &[],
        &[],
        &[(
            "anthropic (Drafter)".into(),
            PromptStats {
                prompts: 3,
                chars_sent: 1200,
                max_chars: 700,
            },
        )],
        &[(
            "planning".into(),
            PromptStats {
                prompts: 2,
                chars_sent: 900,
                max_chars: 500,
            },
        )],
    );

    assert!(report.contains("## Prompt telemetry"), "{report}");
    assert!(report.contains("- prompts_sent: 3"), "{report}");
    assert!(report.contains("- prompt_chars_sent: 1200"), "{report}");
    assert!(
        report.contains("- prompt_tokens_estimate: ~300"),
        "{report}"
    );
    assert!(
        report.contains("- max_prompt_tokens_estimate: ~175"),
        "{report}"
    );
    assert!(
        report.contains("- context_budget_chars: 24000 (~6000 tokens)"),
        "{report}"
    );
    assert!(
        report.contains(
            "anthropic (Drafter): prompts=3 chars=1200 tokens~300 max=700 max_tokens~175"
        ),
        "{report}"
    );
    assert!(report.contains("## Prompt phase breakdown"), "{report}");
    assert!(
        report.contains("planning: prompts=2 chars=900 tokens~225 max=500 max_tokens~125"),
        "{report}"
    );
}

#[test]
fn session_report_includes_compact_resume_packet() {
    let mut bb = bb_with_task("ship feature with a deliberately long description that should still fit in one compact resume line");
    bb.record(
        "you".into(),
        Role::Human,
        "prefer the cheaper executor and keep the diff small".into(),
    );
    bb.record(
        "anthropic".into(),
        Role::Drafter,
        "final plan: edit the report generator, add tests, run cargo test".into(),
    );
    let rec = Recommendation {
        executor: "codex".into(),
        scores: scores(&[("codex", 0.9), ("anthropic", 0.4)]),
        votes: Vec::new(),
        rationale: "codex has the current local context and can apply the small patch".into(),
        needs_plan: false,
        confident: true,
    };
    let ctx = ProjectContextReport {
        cache_hit: false,
        cache_path: "/tmp/context.txt".into(),
        chars: 4096,
        max_files: 220,
        max_manifest_chars: 1200,
    };
    let changes = dirty_changes();

    let report = compose_session_report(
        &bb,
        Some(&rec),
        &RunOutcome::Executed {
            executor: "codex".into(),
            output: "patched report generator and tests passed".into(),
        },
        Some(24_000),
        Some(&ctx),
        Some(&changes),
        0,
        &[],
        &[],
        &[],
        &[],
    );

    assert!(report.contains("## Resume packet"), "{report}");
    assert!(report.contains("- status: executed"), "{report}");
    assert!(report.contains("- executor: codex"), "{report}");
    assert!(
        report.contains("- executor_output: patched report generator and tests passed"),
        "{report}"
    );
    assert!(
        report.contains("- recommendation: codex (confident: true)"),
        "{report}"
    );
    assert!(
        report.contains("latest_human_direction: you: prefer the cheaper executor"),
        "{report}"
    );
    assert!(
        report.contains("latest_planner_output: anthropic (Drafter): final plan"),
        "{report}"
    );
    assert!(
        report.contains(
            "- project_context: rebuilt (4096 chars, max_files=220, max_manifest_chars=1200)"
        ),
        "{report}"
    );
    assert!(
        report.contains("- local_changes: branch main; 2 visible change(s); 1 generated/dependency entry(ies) omitted"),
        "{report}"
    );
    assert!(report.contains("## Local changes"), "{report}");
    assert!(report.contains("?? landing/demo.mp4"), "{report}");
    assert!(
        report.contains("- next_step: review executor output and local diff"),
        "{report}"
    );
}

#[test]
fn resume_packet_uses_outcome_specific_next_step() {
    let bb = bb_with_task("ship feature");

    let discussed = compose_session_report(
        &bb,
        None,
        &RunOutcome::Discussed,
        None,
        None,
        None,
        0,
        &[],
        &[],
        &[],
        &[],
    );
    assert!(
        discussed.contains("continue planning or run recommendation before execution"),
        "{discussed}"
    );

    let rejected = compose_session_report(
        &bb,
        None,
        &RunOutcome::Rejected,
        None,
        None,
        None,
        0,
        &[],
        &[],
        &[],
        &[],
    );
    assert!(
        rejected.contains("revise the plan with the user before any execution"),
        "{rejected}"
    );
}

#[test]
fn session_report_includes_project_context_metadata() {
    let bb = bb_with_task("ship feature");
    let ctx = ProjectContextReport {
        cache_hit: true,
        cache_path: "/tmp/tales-context.txt".into(),
        chars: 2048,
        max_files: 180,
        max_manifest_chars: 900,
    };

    let report = compose_session_report(
        &bb,
        None,
        &RunOutcome::Discussed,
        Some(12_000),
        Some(&ctx),
        None,
        0,
        &[],
        &[],
        &[],
        &[],
    );

    assert!(report.contains("## Project context"), "{report}");
    assert!(
        report.contains("- status: injected (cache hit)"),
        "{report}"
    );
    assert!(report.contains("/tmp/tales-context.txt"), "{report}");
    assert!(report.contains("- chars: 2048"), "{report}");
    assert!(
        report.contains("max_files=180, max_manifest_chars=900"),
        "{report}"
    );
}

#[test]
fn session_report_includes_deterministic_optimization_hints() {
    let bb = bb_with_task("ship feature");
    let ctx = ProjectContextReport {
        cache_hit: true,
        cache_path: "/tmp/tales-context.txt".into(),
        chars: 2048,
        max_files: 180,
        max_manifest_chars: 900,
    };

    let report = compose_session_report(
        &bb,
        None,
        &RunOutcome::Rejected,
        Some(1_000),
        Some(&ctx),
        None,
        0,
        &[],
        &[],
        &[(
            "anthropic (Drafter)".into(),
            PromptStats {
                prompts: 3,
                chars_sent: 1_200,
                max_chars: 950,
            },
        )],
        &[
            (
                "planning".into(),
                PromptStats {
                    prompts: 2,
                    chars_sent: 900,
                    max_chars: 500,
                },
            ),
            (
                "vote_repair".into(),
                PromptStats {
                    prompts: 1,
                    chars_sent: 300,
                    max_chars: 300,
                },
            ),
        ],
    );

    assert!(report.contains("## Optimization hints"), "{report}");
    assert!(report.contains("project_context_cache: hit"), "{report}");
    assert!(
        report.contains(
            "largest_agent_prompt_spend: anthropic (Drafter) sent 1200 chars (~300 tokens) across 3 prompt(s)"
        ),
        "{report}"
    );
    assert!(
        report.contains("largest_phase_prompt_spend: planning sent 900 chars (~225 tokens)"),
        "{report}"
    );
    assert!(
        report.contains("largest prompt used at least 90% of the cap"),
        "{report}"
    );
    assert!(
        report.contains("vote repair cost 1 extra prompt(s) (~75 tokens)"),
        "{report}"
    );
}

#[test]
fn optimization_hints_call_out_unlimited_budget_and_expensive_voting() {
    let bb = bb_with_task("ship feature");

    let report = compose_session_report(
        &bb,
        None,
        &RunOutcome::Rejected,
        None,
        None,
        None,
        0,
        &[],
        &[],
        &[(
            "codex (Critic)".into(),
            PromptStats {
                prompts: 2,
                chars_sent: 900,
                max_chars: 700,
            },
        )],
        &[(
            "recommendation_vote".into(),
            PromptStats {
                prompts: 2,
                chars_sent: 400,
                max_chars: 250,
            },
        )],
    );

    assert!(report.contains("project_context_cache: off"), "{report}");
    assert!(report.contains("context_budget: unlimited"), "{report}");
    assert!(
        report.contains("recommendation_vote: voting was a large share"),
        "{report}"
    );
}

#[test]
fn optimization_hints_call_out_salvaged_prose_votes() {
    let bb = bb_with_task("ship feature");

    let report = compose_session_report(
        &bb,
        None,
        &RunOutcome::Rejected,
        Some(24_000),
        None,
        None,
        2,
        &[],
        &[],
        &[(
            "anthropic (Drafter)".into(),
            PromptStats {
                prompts: 1,
                chars_sent: 400,
                max_chars: 400,
            },
        )],
        &[(
            "recommendation_vote".into(),
            PromptStats {
                prompts: 1,
                chars_sent: 400,
                max_chars: 400,
            },
        )],
    );

    assert!(report.contains("salvaged 2 prose vote(s)"), "{report}");
    assert!(
        report.contains("avoiding up to 2 repair prompt(s)"),
        "{report}"
    );
}

