use serde_json::Value;
use tales::json::{Json, Number};
use tales::recommend::{
    first_json_object, mentions_candidate, parse_vote, parse_vote_lenient, tally_slots, ExecutionVote,
    Measure, RawVote, Recommendation, Tally, VoteParseSource,
};
use tales::session::{
    canonicalize_dir, compact_transcript, AgentSeatConfig, CwdPolicy, ExecutionPermission,
    ExecutionPolicy, PromptBudgetConfig, ReportPaths, SessionConfig, SessionMode,
};

fn value(j: &Json) -> Value {
    match j {
        Json::Null => Value::Null,
        Json::Bool(b) => Value::Bool(*b),
        Json::Num(Number::Unsigned(n)) => Value::from(*n),
        Json::Num(Number::Negative(n)) => Value::from(*n),
        Json::Num(Number::Real(bits)) => Value::from(f64::from_bits(*bits)),
        Json::Str(s) => Value::String(s.clone()),
        Json::Arr(a) => Value::Array(a.iter().map(value).collect()),
        Json::Obj(f) => Value::Object(f.iter().map(|(k, v)| (k.clone(), value(v))).collect()),
    }
}

fn measure(x: f32) -> Measure {
    Measure { bits: f64::from(x).to_bits(), shown: format!("{x:.2}") }
}

fn single(m: &Measure) -> f32 {
    f64::from_bits(m.bits) as f32
}

/// The vote object in a reply, under any of the names that agents use.
fn raw_vote(text: &str) -> Option<RawVote> {
    let v: Value = serde_json::from_str(&first_json_object(text)?).ok()?;
    let named = |names: &[&str]| names.iter().find_map(|n| v.get(*n)).cloned();
    let executor = named(&["recommended_executor", "executor", "agent", "tool"])?;
    let confidence = v["confidence"].as_f64().unwrap_or(0.5) as f32;
    Some(RawVote {
        recommended_executor: executor.as_str()?.to_string(),
        confidence: measure(confidence.clamp(0.0, 1.0)),
        needs_plan: v["needs_plan"].as_bool().unwrap_or(false),
        rationale: named(&["rationale", "reason", "why"])
            .and_then(|r| r.as_str().map(String::from))
            .unwrap_or_default(),
    })
}

/// What each candidate gathers.
fn tallies(votes: &[ExecutionVote], slots: &[Option<usize>], candidates: usize) -> Vec<Tally> {
    let mut sums = vec![0.0f32; candidates];
    for (vote, slot) in votes.iter().zip(slots) {
        if let Some(i) = slot {
            sums[*i] += single(&vote.confidence);
        }
    }
    sums.iter()
        .map(|s| Tally { value: measure(*s), margin_bits: f64::from(s + 1e-6f32).to_bits() })
        .collect()
}

fn lenient(text: &str, candidates: &Vec<String>) -> Option<tales::recommend::ParsedVote> {
    parse_vote_lenient(text, raw_vote(text), candidates)
}

fn aggregate(votes: Vec<ExecutionVote>, candidates: &Vec<String>) -> Option<Recommendation> {
    let slots = tally_slots(&votes, candidates);
    let sums = tallies(&votes, &slots, candidates.len());
    tales::recommend::aggregate(votes, candidates, &sums)
}

#[test]
fn parse_vote_tolerates_prose_and_fences() {
    let text = "Sure! Here is my vote:\n```json\n{\"recommended_executor\": \"anthropic\", \
                \"confidence\": 0.9, \"rationale\": \"best at code\"}\n```\nThanks";
    let (exec, conf, why) = parse_vote(raw_vote(text)).unwrap();
    assert_eq!(exec, "anthropic");
    assert!((single(&conf) - 0.9).abs() < 1e-6);
    assert!(why.contains("best at code"));
}

#[test]
fn parse_vote_accepts_common_executor_aliases_without_repair() {
    let candidates = vec!["anthropic".to_string(), "codex".to_string()];
    let vote = lenient(r#"{"executor":"codex","confidence":0.7,"why":"cheap"}"#, &candidates)
    .unwrap();

    assert_eq!(vote.recommended_executor, "codex");
    assert!((single(&vote.confidence) - 0.7).abs() < f32::EPSILON);
    assert_eq!(vote.rationale, "cheap");
    assert!(!vote.needs_plan);
    assert_eq!(vote.source, VoteParseSource::Json);

    let vote = lenient(r#"{"agent":"anthropic","reason":"best code","needs_plan":true}"#, &candidates)
    .unwrap();
    assert_eq!(vote.recommended_executor, "anthropic");
    assert_eq!(vote.rationale, "best code");
    assert!(vote.needs_plan);
    assert_eq!(vote.source, VoteParseSource::Json);
}

#[test]
fn parse_vote_lenient_salvages_single_candidate_prose() {
    let candidates = vec!["anthropic".to_string(), "codex".to_string()];
    let vote = lenient("I would have Anthropic execute this because the patch is file-heavy.", &candidates)
    .unwrap();

    assert_eq!(vote.recommended_executor, "anthropic");
    assert_eq!(vote.source, VoteParseSource::CandidateMention);
    assert!((single(&vote.confidence) - 0.5).abs() < f32::EPSILON);
    assert!(!vote.needs_plan);
    assert!(vote.rationale.contains("salvaged from prose vote"));
}

#[test]
fn parse_vote_lenient_refuses_ambiguous_or_partial_mentions() {
    let candidates = vec!["anthropic".to_string(), "codex".to_string()];
    assert!(
        lenient("Anthropic can do it, but Codex is cheaper.", &candidates).is_none()
    );
    assert!(
        lenient("The anthropican path is not a candidate mention.", &candidates)
            .is_none()
    );
    assert!(lenient("The claudean path is not a candidate mention.", &candidates).is_none());
}

#[test]
fn aggregate_picks_highest_confidence_candidate() {
    let candidates = vec!["anthropic".to_string(), "codex".to_string()];
    let votes = vec![
        ExecutionVote {
            voter: 1,
            voter_label: "anthropic".into(),
            recommended_executor: "Anthropic".into(), // case-insensitive match
            confidence: measure(0.8),
            needs_plan: false,
            rationale: "x".into(),
            parse_source: VoteParseSource::Json,
        },
        ExecutionVote {
            voter: 1,
            voter_label: "codex".into(),
            recommended_executor: "anthropic".into(),
            confidence: measure(0.6),
            needs_plan: false,
            rationale: "y".into(),
            parse_source: VoteParseSource::Json,
        },
    ];
    let rec = aggregate(votes, &candidates).unwrap();
    assert_eq!(rec.executor, "anthropic");
    assert_eq!(rec.scores[0].executor, "anthropic");
    assert!((single(&rec.scores[0].value) - 1.4).abs() < 1e-6);
    assert!(rec.confident);
    assert!(!rec.needs_plan);
}

#[test]
fn aggregate_requires_all_planner_votes_to_need_plan() {
    let candidates = vec!["anthropic".to_string(), "codex".to_string()];
    let mk_vote = |needs_plan| ExecutionVote {
        voter: 1,
        voter_label: "agent".into(),
        recommended_executor: "anthropic".into(),
        confidence: measure(0.7),
        needs_plan,
        rationale: "x".into(),
        parse_source: VoteParseSource::Json,
    };

    let rec = aggregate(vec![mk_vote(true), mk_vote(true)], &candidates).unwrap();
    assert!(rec.needs_plan);
    assert!(rec.rationale.contains("formal plan"));

    let rec = aggregate(vec![mk_vote(true), mk_vote(false)], &candidates).unwrap();
    assert!(!rec.needs_plan);
}

#[test]
fn aggregate_marks_tied_positive_votes_not_confident() {
    let candidates = vec!["anthropic".to_string(), "codex".to_string()];
    let votes = vec![
        ExecutionVote {
            voter: 1,
            voter_label: "anthropic".into(),
            recommended_executor: "anthropic".into(),
            confidence: measure(0.7),
            needs_plan: false,
            rationale: "strong local context".into(),
            parse_source: VoteParseSource::Json,
        },
        ExecutionVote {
            voter: 1,
            voter_label: "codex".into(),
            recommended_executor: "codex".into(),
            confidence: measure(0.7),
            needs_plan: false,
            rationale: "cheaper executor".into(),
            parse_source: VoteParseSource::Json,
        },
    ];

    let rec = aggregate(votes, &candidates).unwrap();
    assert_eq!(rec.executor, "anthropic");
    assert_eq!(rec.scores[0].executor, "anthropic");
    assert_eq!(single(&rec.scores[0].value), 0.7);
    assert_eq!(rec.scores[1].executor, "codex");
    assert_eq!(single(&rec.scores[1].value), 0.7);
    assert!(!rec.confident);
    assert!(
        rec.rationale.contains("tied executor vote"),
        "{}",
        rec.rationale
    );
    assert!(rec.rationale.contains("please choose"), "{}", rec.rationale);
}

#[test]
fn aggregate_marks_unmatched_votes_not_confident() {
    let candidates = vec!["anthropic".to_string(), "codex".to_string()];
    let votes = vec![ExecutionVote {
        voter: 1,
        voter_label: "anthropic".into(),
        recommended_executor: "nonexistent".into(),
        confidence: measure(0.9),
        needs_plan: false,
        rationale: "typo".into(),
        parse_source: VoteParseSource::Json,
    }];

    let rec = aggregate(votes, &candidates).unwrap();
    assert_eq!(rec.executor, "anthropic");
    assert!(!rec.confident);
    assert!(
        rec.rationale.contains("no scored vote"),
        "{}",
        rec.rationale
    );
}

#[test]
fn sums_are_ranked_as_numbers() {
    let tally = |x: f32| Tally { value: measure(x), margin_bits: f64::from(x + 1e-6f32).to_bits() };
    let candidates = vec!["a".to_string(), "b".to_string(), "c".to_string()];
    let vote = |executor: &str, confidence: f32| ExecutionVote {
        voter: 1,
        voter_label: "v".into(),
        recommended_executor: executor.into(),
        confidence: measure(confidence),
        needs_plan: false,
        rationale: "r".into(),
        parse_source: VoteParseSource::Json,
    };
    let votes = || vec![vote("a", -1.0), vote("b", 1.0)];
    let sums = vec![tally(-1.0), tally(1.0), tally(-2.0)];
    let rec = tales::recommend::aggregate(votes(), &candidates, &sums).unwrap();
    assert_eq!(rec.executor, "b");
    assert!(rec.confident);
    let order: Vec<&str> = rec.scores.iter().map(|s| s.executor.as_str()).collect();
    assert_eq!(order, vec!["b", "a", "c"]);

    let sums = vec![tally(-1.0), tally(-0.0), tally(0.0)];
    let rec = tales::recommend::aggregate(votes(), &candidates, &sums).unwrap();
    assert_eq!(rec.executor, "b");
    assert!(!rec.confident);
}

#[test]
fn session_config_validates_roster_and_effort() {
    let cfg = SessionConfig {
        schema_version: 1,
        task: "fix lint".into(),
        cwd: "/work".to_string(),
        mode: SessionMode::Run,
        turns: 4,
        sequential: false,
        sandbox: "workspace-write".into(),
        seats: vec![
            AgentSeatConfig {
                role: "drafter".into(),
                tool_key: "anthropic".into(),
                model: Some("opus".into()),
                effort: Some("max".into()),
                cwd_policy: CwdPolicy::Shared,
                execution_permission: ExecutionPermission::WorkspaceWrite,
            },
            AgentSeatConfig {
                role: "critic".into(),
                tool_key: "codex".into(),
                model: None,
                effort: Some("high".into()),
                cwd_policy: CwdPolicy::Shared,
                execution_permission: ExecutionPermission::WorkspaceWrite,
            },
        ],
        prompt_budget: PromptBudgetConfig::default(),
        execution_policy: ExecutionPolicy::recommend_only(vec![
            "anthropic".into(),
            "codex".into(),
        ]),
        report_paths: ReportPaths {
            markdown: None,
            json: None,
        },
    };

    cfg.validate(true).unwrap();
    assert!(cfg.validate(false).is_err());
    assert_eq!(value(&cfg.to_json())["execution_policy"]["recommend_only"], true);
}

#[test]
fn compact_transcript_keeps_decisions_risks_and_executor() {
    let compact = compact_transcript(
        "ship it",
        "Plan: use small patch\nRisk: tests may fail\nShould we use codex?\nRecommend codex",
        &vec!["anthropic".into(), "codex".into()],
    );

    assert_eq!(compact.proposed_executor.as_deref(), Some("codex"));
    assert_eq!(compact.decisions.len(), 2);
    assert_eq!(compact.risks.len(), 1);
    assert_eq!(compact.open_questions.len(), 1);
}

#[test]
fn sessions_with_faults_are_refused() {
    let seat = |tool: &str, effort: Option<&str>| AgentSeatConfig {
        role: "drafter".into(),
        tool_key: tool.into(),
        model: None,
        effort: effort.map(String::from),
        cwd_policy: CwdPolicy::Shared,
        execution_permission: ExecutionPermission::ReadOnly,
    };
    let config = |task: &str, seats: Vec<AgentSeatConfig>| SessionConfig {
        schema_version: 1,
        task: task.into(),
        cwd: "/work".into(),
        mode: SessionMode::Discuss,
        turns: 2,
        sequential: true,
        sandbox: "read-only".into(),
        seats,
        prompt_budget: PromptBudgetConfig::default(),
        execution_policy: ExecutionPolicy::recommend_only(vec![]),
        report_paths: ReportPaths { markdown: None, json: None },
    };
    assert!(config("t", vec![seat("codex", None)]).validate(true).is_ok());
    assert!(config(" ", vec![seat("codex", None)]).validate(true).is_err());
    assert!(config("t", vec![seat("nope", None)]).validate(true).is_err());
    assert!(config("t", vec![seat("codex", Some("max"))]).validate(true).is_err());
}

#[test]
fn workspaces_are_directories() {
    assert_eq!(canonicalize_dir(Ok("/w".into()), true).unwrap(), "/w");
    assert!(canonicalize_dir(Ok("/w".into()), false).is_err());
    assert!(canonicalize_dir(Err("gone".into()), true).is_err());
}

#[test]
fn objects_are_found_behind_braces_in_strings() {
    assert_eq!(
        first_json_object("x {\"a\": \"}\"} y {}").as_deref(),
        Some("{\"a\": \"}\"}")
    );
    assert!(first_json_object("no object").is_none());
    assert!(mentions_candidate("Let CODEX do it.", "codex"));
    assert!(!mentions_candidate("codexes", "codex"));
}

#[test]
fn no_candidate_no_recommendation() {
    assert!(aggregate(vec![], &vec![]).is_none());
}
