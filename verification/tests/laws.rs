use tales::agent::{AgentEvent, FoundBin};
use tales::artifacts::ArtifactSnapshot;
use tales::blackboard::Blackboard;
use tales::changes::{
    git_status_line_should_skip, git_status_path_should_skip, local_change_line_should_skip,
};
use tales::conductor::{Conductor, Role, RosterEntry, RuleConductor};
use tales::context::{
    bounded_context, estimated_tokens, no_output_placeholder, split_context_budget,
    split_project_context_sections,
};
use tales::event::OrchestratorEvent;
use tales::pipeline::{
    demo_planning_turns, executor_seat, report_written, resolve_report_path, seat_ctx, solo_step,
    tools_for, turn_timeout, validate_run, worktree_run_id, ExecutorSeat, Printer, ReportKind,
    RunOptions, SoloNext,
};
use tales::project_context::{collect_files, signature_for, FileInfo};
use tales::session::{AgentSeatConfig, PromptBudgetConfig};
use tales::usage::TokenUsage;

fn entry(agent: u128, label: &str, role: Role) -> RosterEntry {
    RosterEntry { agent, label: label.into(), role }
}

#[test]
fn speakers_take_turns() {
    let roster = vec![entry(1, "a", Role::Drafter), entry(2, "b", Role::Critic)];
    let mut conductor = RuleConductor::new(roster, 4);
    let board = Blackboard::default();
    let mut spoke = vec![];
    while let Some(turn) = conductor.next_turn(&board) {
        spoke.push(turn.agent);
    }
    assert_eq!(spoke, vec![1, 2, 1, 2]);
}

#[test]
fn budgets_keep_the_end_and_leave_short_texts() {
    let cut = bounded_context("0123456789", Some(4));
    assert!(cut.ends_with("6789"), "{cut}");
    assert_eq!(bounded_context(" 0123 ", Some(10)), "0123");
    assert_eq!(bounded_context("0123456789", None), "0123456789");
    assert_eq!(split_context_budget(Some(10), 3), Some(3));
    assert_eq!(split_context_budget(None, 3), None);
    assert_eq!(estimated_tokens(9), 3);
    assert!(!no_output_placeholder("  ".into()).trim().is_empty());
    assert_eq!(no_output_placeholder("x".into()), "x");
}

#[test]
fn sections_keep_their_headings() {
    let sections = split_project_context_sections("Project\n\nFile map:\n- a\n");
    assert_eq!(sections.concat().matches("File map:").count(), 1);
}

fn usage(input: Option<u64>, output: Option<u64>) -> TokenUsage {
    TokenUsage {
        input_tokens: input,
        cached_input_tokens: None,
        output_tokens: output,
        reasoning_output_tokens: None,
        total_tokens: None,
    }
}

#[test]
fn usage_does_not_depend_on_the_order() {
    let (a, b, c) = (usage(Some(1), None), usage(None, Some(2)), usage(Some(u64::MAX), Some(3)));
    let sum = |parts: &[TokenUsage]| {
        let mut all = usage(None, None);
        for p in parts {
            all.add(*p);
        }
        all
    };
    assert_eq!(sum(&[a, b, c]), sum(&[c, b, a]));
    assert_eq!(sum(&[usage(None, None), a]), a);
    assert_eq!(sum(&[a, c]).input_tokens, Some(u64::MAX));
}

fn options(execute: Option<&str>) -> RunOptions {
    RunOptions {
        prompt: "task".into(),
        drafter: "anthropic".into(),
        critic: "codex".into(),
        execute: execute.map(String::from),
        drafter_model: None,
        critic_model: None,
        execute_model: None,
        drafter_effort: None,
        critic_effort: None,
        execute_effort: None,
        sandbox: "read-only".into(),
        demo: false,
        dry_run: false,
        json_output: false,
    }
}

#[test]
fn one_seat_executes_in_the_worktree() {
    assert_eq!(executor_seat(&options(None)), ExecutorSeat::Nobody);
    assert_eq!(executor_seat(&options(Some("ANTHROPIC"))), ExecutorSeat::Drafter);
    assert_eq!(executor_seat(&options(Some("codex"))), ExecutorSeat::Critic);
    assert_eq!(executor_seat(&options(Some("glm"))), ExecutorSeat::Separate);
    let o = options(Some("anthropic"));
    let drafter = seat_ctx(&o, ExecutorSeat::Drafter, 1, "/w", "/x").unwrap();
    let critic = seat_ctx(&o, ExecutorSeat::Critic, 2, "/w", "/x").unwrap();
    assert_eq!((drafter.cwd.as_str(), critic.cwd.as_str()), ("/x", "/w"));
    assert!(drafter.allowed_tools.is_some() && critic.allowed_tools.is_none());
    assert_eq!(drafter.allowed_tools, tools_for(&o, "anthropic"));
    assert!(seat_ctx(&options(None), ExecutorSeat::Nobody, 3, "/w", "/x").is_none());
}

#[test]
fn checked_runs_are_consistent() {
    let found = vec![
        FoundBin { bin: "anthropic".into(), path: "/b/1".into() },
        FoundBin { bin: "codex".into(), path: "/b/2".into() },
    ];
    assert!(validate_run(&options(Some("anthropic")), &found).is_ok());
    assert!(validate_run(&options(Some("anthropic")), &vec![]).is_err());
    let mut o = options(Some("anthropic"));
    o.execute_model = Some("m".into());
    assert!(validate_run(&o, &found).unwrap_err().message().contains("--execute-model"));
    let mut o = options(Some("anthropic"));
    o.execute_effort = Some("high".into());
    assert!(validate_run(&o, &found).unwrap_err().message().contains("--execute-effort"));
    let mut o = options(Some("anthropic"));
    o.json_output = true;
    assert!(validate_run(&o, &found).unwrap_err().message().contains("--dry-run"));
}

#[test]
fn streamed_replies_are_shown_once() {
    let whole = AgentEvent::MessageFinal { agent: 1, turn: 1, text: "hi".into() };
    assert_eq!(solo_step(&whole, false, "").shown, "hi");
    assert_eq!(solo_step(&whole, true, "").shown, "");
    let piece = AgentEvent::TokenDelta { agent: 1, turn: 1, text: "h".into() };
    let step = solo_step(&piece, false, "");
    assert!(step.streaming && step.shown == "h");
    let done =
        AgentEvent::TurnComplete { agent: 1, turn: 1, cost_usd: None, token_usage: None };
    assert_eq!(solo_step(&done, true, "").shown, "\n✓ turn complete\n");
    assert!(matches!(solo_step(&done, true, "").next, SoloNext::Shutdown));
    let gone = AgentEvent::Exited { agent: 1, code: Some(0) };
    assert!(matches!(solo_step(&gone, true, "").next, SoloNext::Stop));
}

#[test]
fn printers_remember_names() {
    let mut p = Printer::new();
    let spawned = OrchestratorEvent::AgentSpawned {
        agent: 1,
        label: "codex".into(),
        session_id: String::new(),
    };
    assert_eq!(p.show(&spawned, "").as_deref(), Some("● enrolled codex\n"));
    let said = OrchestratorEvent::Message { agent: 1, text: "hi".into() };
    assert_eq!(p.show(&said, "").as_deref(), Some("\ncodex:\nhi\n"));
    let stranger = OrchestratorEvent::Message { agent: 2, text: "hi".into() };
    assert_eq!(p.show(&stranger, "").as_deref(), Some("\n?:\nhi\n"));
}

#[test]
fn small_settings_are_exact() {
    assert_eq!(turn_timeout(0), 1);
    assert_eq!(turn_timeout(7), 7);
    assert_eq!(worktree_run_id(0x0123_4567_89ab_cdef_0123_4567_89ab_cdef), "run-01234567");
    assert!(demo_planning_turns(4, false, 2) >= 1);
    assert_eq!(resolve_report_path("/w", &Some("a".into())).as_deref(), Some("/w/a"));
    match report_written(ReportKind::Markdown, "/r", None) {
        OrchestratorEvent::Log { level, msg } => {
            assert_eq!(level, "info");
            assert_eq!(msg, "session report written to /r");
        }
        other => panic!("{other:?}"),
    }
    match report_written(ReportKind::Summary, "/r", Some("full")) {
        OrchestratorEvent::Log { level, msg } => {
            assert_eq!(level, "warn");
            assert_eq!(msg, "failed to write session summary JSON to /r: full");
        }
        other => panic!("{other:?}"),
    }
}

#[test]
fn transcripts_only_grow() {
    let mut s = ArtifactSnapshot::new();
    let mut before = String::new();
    for text in ["one", "two"] {
        s.apply(&OrchestratorEvent::UserMessage { text: text.into() });
        assert!(s.transcript().starts_with(&before));
        assert!(s.transcript().len() > before.len());
        before = s.transcript().to_string();
    }
}

#[test]
fn sorting_keeps_files_and_signatures_are_one_line() {
    let file = |rel: &str| FileInfo {
        rel: rel.into(),
        len: 1,
        modified_nanos: 0,
        manifest_excerpt_hash: None,
    };
    let found = vec![file("z.rs"), file("Cargo.toml"), file("a.rs")];
    let c = collect_files(&found, 10);
    let mut names: Vec<&str> = c.files.iter().map(|f| f.rel.as_str()).collect();
    names.sort();
    assert_eq!(names, vec!["Cargo.toml", "a.rs", "z.rs"]);
    assert!(!signature_for("/w", &c.files, &c.manifest_files, 10, 10).contains('\n'));
}

#[test]
fn status_lines_are_left_out_by_path() {
    assert!(git_status_line_should_skip("?? landing/demo.mp4"));
    assert!(!local_change_line_should_skip("?? landing/demo.mp4"));
    assert!(local_change_line_should_skip("?? target/debug/x"));
    assert!(git_status_path_should_skip("node_modules/a.js"));
    assert!(!git_status_path_should_skip("src/lib.rs"));
}

#[test]
fn seats_are_shared_and_budgets_have_defaults() {
    let seat = AgentSeatConfig::new("drafter".into(), "codex".into());
    assert!(seat.model.is_none());
    assert_eq!(PromptBudgetConfig::default().context_budget_chars, Some(24_000));
}
