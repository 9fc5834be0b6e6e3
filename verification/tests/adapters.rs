use serde_json::Value;
use tales::agent::{
    bin_candidates, bin_path, known_tools_status_json, make_adapter, tool_info_status_json, AgentEvent, Attachment, FoundBin, SpawnCtx,
};
use tales::build_info::{git_dirty, git_sha, json, version, BuildRecord};
use tales::bus::EventHistory;
use tales::claude::{attachment_block, session_args, user_message, ClaudeReader};
use tales::codex::{
    codex_tool_summary, is_benign_codex_noise, parse_codex_token_usage, truncate, CodexSession,
};
use tales::event::OrchestratorEvent;
use tales::generic::{GenericAdapter, GenericSession, GenericSpec};
use tales::json::{Json, Number};
use tales::json_read::read_json;
use tales::mock::{MockAdapter, MockSession};
use tales::opencode::OpenCodeSession;
use tales::registry::{known_tools, tool_info, AdapterKind};
use tales::roster::{validate_effort, validate_roster, validate_tool_readiness};
use tales::turns::PlainReply;
use tales::usage::TokenUsage;

fn value(j: &Json) -> Value {
    match j {
        Json::Null => Value::Null,
        Json::Bool(b) => Value::Bool(*b),
        Json::Num(Number::Unsigned(n)) => Value::from(*n),
        Json::Num(Number::Negative(n)) => Value::from(*n),
        Json::Num(Number::Real(bits)) => Value::from(f64::from_bits(*bits)),
        Json::Str(s) => Value::String(s.clone()),
        Json::Arr(a) => Value::Array(a.iter().map(value).collect()),
        Json::Obj(f) => Value::Object(f.iter().map(|(k, v)| (k.clone(), value(v))).collect()),
    }
}

fn document(text: &str) -> Json {
    read_json(text).unwrap()
}

fn ctx(label: &str) -> SpawnCtx {
    SpawnCtx {
        agent: 1,
        label: label.into(),
        cwd: "/tmp".into(),
        model: None,
        effort: None,
        permission_mode: "acceptEdits".into(),
        sandbox: "workspace-write".into(),
        allowed_tools: None,
    }
}

#[test]
fn tool_summary_uses_real_command_not_wire_type() {
    let item = document(
        r#"{ "type": "command_execution", "command": ["bash", "-lc", "git diff --stat"] }"#,
    );
    assert_eq!(
        codex_tool_summary("command_execution", &item),
        "command_execution: bash -lc git diff --stat"
    );
    // file_change → the path.
    let fc = document(r#"{ "type": "file_change", "path": "src/main.rs" }"#);
    assert_eq!(codex_tool_summary("file_change", &fc), "file_change: src/main.rs");
}

#[test]
fn tool_summary_falls_back_to_kind_when_no_useful_field() {
    let item = document(r#"{ "type": "mystery", "weird": 1 }"#);
    assert_eq!(codex_tool_summary("mystery", &item), "mystery");
}

#[test]
fn benign_noise_is_classified() {
    assert!(is_benign_codex_noise("Reading additional input from stdin..."));
    assert!(is_benign_codex_noise(
        "ERROR rmcp::transport::worker: worker quit with fatal: Transport channel closed, when AuthRequired(...)"
    ));
    assert!(!is_benign_codex_noise("error: rate limit exceeded"));
}

#[test]
fn long_summaries_are_cut() {
    assert_eq!(truncate("abc", 3), "abc");
    assert_eq!(truncate("abcd", 3), "ab…");
}

#[test]
fn token_usage_parses_flat_and_nested_codex_usage() {
    let flat = document(
        r#"{
            "type": "turn.completed",
            "usage": {
                "input_tokens": 100,
                "cached_input_tokens": 25,
                "output_tokens": 40,
                "reasoning_output_tokens": 10,
                "total_tokens": 150
            }
        }"#,
    );
    assert_eq!(
        parse_codex_token_usage(&flat),
        Some(TokenUsage {
            input_tokens: Some(100),
            cached_input_tokens: Some(25),
            output_tokens: Some(40),
            reasoning_output_tokens: Some(10),
            total_tokens: Some(150),
        })
    );

    let nested = document(
        r#"{
            "type": "turn.completed",
            "usage": {
                "prompt_tokens": 100,
                "completion_tokens": 40,
                "prompt_tokens_details": { "cached_tokens": 20 },
                "output_token_details": { "reasoning_tokens": 8 }
            }
        }"#,
    );
    assert_eq!(
        parse_codex_token_usage(&nested),
        Some(TokenUsage {
            input_tokens: Some(100),
            cached_input_tokens: Some(20),
            output_tokens: Some(40),
            reasoning_output_tokens: Some(8),
            total_tokens: None,
        })
    );
}

fn codex_with(model: Option<&str>, effort: Option<&str>) -> CodexSession {
    let mut c = ctx("codex");
    c.model = model.map(String::from);
    c.effort = effort.map(String::from);
    CodexSession::new(c)
}

#[test]
fn build_args_wires_model_and_effort() {
    let m = codex_with(Some("gpt-5-codex"), Some("high"));
    let args = m.build_args("do the thing", &vec![]);
    // model via -m
    let mi = args.iter().position(|a| a == "-m").expect("-m present");
    assert_eq!(args[mi + 1], "gpt-5-codex");
    // effort via -c model_reasoning_effort=high, before the trailing prompt
    let ci = args.iter().position(|a| a == "-c").expect("-c present");
    assert_eq!(args[ci + 1], "model_reasoning_effort=high");
    assert_eq!(args.last().map(String::as_str), Some("do the thing"));
}

#[test]
fn build_args_omits_effort_when_unset() {
    let m = codex_with(None, None);
    let args = m.build_args("hi", &vec![]);
    assert!(!args.iter().any(|a| a == "-c"));
    assert!(!args.iter().any(|a| a == "-m"));
}

#[test]
fn codex_turns_end_once() {
    let mut m = codex_with(None, None);
    let args = m.begin_turn("hi".into(), &vec![]);
    assert!(!args.is_empty());
    let turn = m.turn;
    let started = document(r#"{"type":"thread.started","thread_id":"t-1"}"#);
    let (events, over) = m.handle_event(&started, turn);
    assert!(!over);
    assert!(events.iter().any(|e| matches!(e, AgentEvent::SessionReady { .. })));
    assert_eq!(m.thread_id.as_deref(), Some("t-1"));
    let (_, over) = m.handle_event(&document(r#"{"type":"turn.completed"}"#), turn);
    assert!(over);
    assert!(m.close_turn(turn, true).is_none());
    assert!(m.close_turn(turn, false).is_some());
}

fn invocation(run_args: &[&str], model_flag: &str, prompt_flag: &str) -> GenericSpec {
    GenericSpec {
        bin: "tool".into(),
        run_args: run_args.iter().map(|s| s.to_string()).collect(),
        model_flag: model_flag.into(),
        prompt_flag: prompt_flag.into(),
    }
}

fn generic(invocation: GenericSpec) -> GenericSession {
    GenericSession::new(invocation, ctx("generic"))
}

#[test]
fn trailing_positional_prompt() {
    // opencode-style: `tool run <prompt>`
    let m = generic(invocation(&["run"], "--model", ""));
    let args = m.build_args("hello");
    assert_eq!(args, vec!["run", "hello"]);
}

#[test]
fn prompt_behind_a_flag_with_model() {
    // gemini-style: `tool -m <model> -p <prompt>`
    let mut m = generic(invocation(&[], "-m", "-p"));
    m.ctx.model = Some("gemini-2.5-pro".into());
    let args = m.build_args("explain this");
    assert_eq!(args, vec!["-m", "gemini-2.5-pro", "-p", "explain this"]);
}

#[test]
fn no_model_flag_means_model_is_dropped() {
    // A tool with no model flag ignores any selected model.
    let mut m = generic(invocation(&["chat"], "", ""));
    m.ctx.model = Some("whatever".into());
    let args = m.build_args("hi");
    assert_eq!(args, vec!["chat", "hi"]);
}

#[test]
fn generic_injected_notes_fold_into_prompt() {
    let mut m = generic(invocation(&[], "-m", ""));
    m.inbox.inject("focus on tests".into());
    let folded = m.inbox.fold_prompt("draft the plan".into());
    assert!(folded.contains("focus on tests"));
    assert!(folded.contains("draft the plan"));
    assert!(m.inbox.pending.is_empty());
}

#[test]
fn from_info_copies_the_row() {
    let info = tool_info("gemini").expect("gemini row");
    let a = GenericAdapter::from_info(&info);
    assert_eq!(a.invocation.bin, "gemini");
    assert_eq!(a.invocation.prompt_flag, "-p");
}

#[test]
fn validate_roster_allows_distinct_and_duplicate_session_tools() {
    assert!(validate_roster(&vec!["anthropic".into(), "codex".into()]).is_ok());
    // These tools isolate co-located agents, so duplicates are fine.
    assert!(validate_roster(&vec!["anthropic".into(), "anthropic".into()]).is_ok());
    assert!(validate_roster(&vec!["codex".into(), "opencode".into()]).is_ok());
}

#[test]
fn validate_roster_rejects_two_opencode() {
    let err = validate_roster(&vec!["opencode".into(), "OpenCode".into()]).unwrap_err();
    assert!(err.message().contains("Open Code"), "{}", err.message());
}

#[test]
fn make_adapter_knows_opencode() {
    assert!(make_adapter("opencode").is_ok());
    assert!(make_adapter("nope").is_err());
}

#[test]
fn make_adapter_builds_generic_tools() {
    // Generic-kind rows (e.g. gemini) construct via the generic adapter.
    assert!(make_adapter("gemini").is_ok());
    assert!(make_adapter("glm").is_ok());
}

#[test]
fn validate_tool_readiness_reports_unknown_tools_before_spawn() {
    let err =
        validate_tool_readiness(&vec!["anthropic".into(), "nope".into()], &vec![]).unwrap_err();
    assert!(err.message().contains("unknown agent 'nope'"), "{}", err.message());
    assert!(err.message().contains("tool preflight failed"), "{}", err.message());
}

#[test]
fn validate_tool_readiness_keeps_roster_safety() {
    let err =
        validate_tool_readiness(&vec!["opencode".into(), "OpenCode".into()], &vec![]).unwrap_err();
    assert!(err.message().contains("cross-contaminate"), "{}", err.message());
}

#[test]
fn ready_rosters_are_found() {
    let found = vec![FoundBin { bin: "codex".into(), path: "/usr/bin/codex".into() }];
    assert!(validate_tool_readiness(&vec!["codex".into()], &found).is_ok());
    assert!(validate_tool_readiness(&vec!["codex".into()], &vec![]).is_err());
}

#[test]
fn validate_effort_accepts_known_tool_efforts() {
    assert!(validate_effort("codex", Some("high")).is_ok());
    assert!(validate_effort("anthropic", Some("max")).is_ok());
    assert!(validate_effort("codex", None).is_ok());
}

#[test]
fn tool_status_json_exposes_shared_and_legacy_cap_aliases() {
    let claude = tool_info("anthropic").unwrap();
    let status = value(&tool_info_status_json(&claude, &vec![]));

    assert_eq!(status["key"], "anthropic");
    assert_eq!(status["kind"], "anthropic-stream");
    assert_eq!(status["known"], true);
    assert_eq!(status["models"][0], "opus");
    assert_eq!(status["suggested_models"][0], "opus");
    assert_eq!(status["caps"]["resumable"], true);
    assert_eq!(status["caps"]["resume"], true);
    assert_eq!(status["caps"]["midturn_injection"], true);
    assert_eq!(status["caps"]["midturn"], true);
}

#[test]
fn known_tools_status_json_lists_registry_once() {
    let status = value(&known_tools_status_json(&vec![]));
    let tools = status["tools"].as_array().unwrap();

    assert_eq!(status["kind"], "tales_tools");
    assert_eq!(status["schema_version"], 1);
    assert_eq!(tools.len(), known_tools().len());
    assert!(tools.iter().any(|tool| tool["key"] == "codex"));
}

#[test]
fn validate_effort_rejects_invalid_or_unsupported_efforts() {
    let err = validate_effort("codex", Some("max")).unwrap_err();
    assert!(err.message().contains("valid: low | medium | high"), "{}", err.message());

    let err = validate_effort("opencode", Some("high")).unwrap_err();
    assert!(err.message().contains("no Tales effort knob"), "{}", err.message());
}

#[test]
fn every_known_tool_constructs() {
    for t in known_tools() {
        assert!(make_adapter(t.key).is_ok(), "{} failed to build", t.key);
    }
}

#[test]
fn tools_are_found_by_key_in_any_case() {
    for t in known_tools() {
        assert_eq!(tool_info(&t.key.to_uppercase()).unwrap().key, t.key);
    }
    assert!(tool_info("nope").is_none());
}

#[test]
fn generic_rows_have_an_adapter_kind_and_bin() {
    for t in known_tools() {
        assert!(!t.bin.is_empty(), "{} has no bin", t.key);
        if t.kind == AdapterKind::Generic {
            // Generic rows must encode an invocation: a prompt is either the
            // trailing positional (empty prompt_flag) or passed via a flag.
            assert!(t.efforts.is_empty(), "{}: generic + efforts unsupported", t.key);
        }
    }
}

#[test]
fn bin_path_accepts_direct_executable_path() {
    let bin = "/opt/tools/tool";
    let candidates = bin_candidates(bin, &vec!["/usr/bin".into()]);
    assert_eq!(candidates, vec![bin]);
    let found = vec![FoundBin { bin: bin.into(), path: candidates[0].clone() }];
    assert_eq!(bin_path(bin, &found), Some(bin));
    assert_eq!(
        bin_candidates("tool", &vec!["/usr/bin".into(), "/bin".into()]),
        vec!["/usr/bin/tool", "/bin/tool"]
    );
}

#[test]
fn first_turn_has_no_continue() {
    let m = OpenCodeSession::new(ctx("opencode"));
    let args = m.build_args("hello");
    assert_eq!(args.first().map(String::as_str), Some("run"));
    assert!(!args.iter().any(|a| a == "--continue"));
    assert_eq!(args.last().map(String::as_str), Some("hello"));
}

#[test]
fn later_turns_continue_and_pass_model() {
    let mut m = OpenCodeSession::new(ctx("opencode"));
    m.started_session = true;
    m.ctx.model = Some("anthropic/sonnet".into());
    let args = m.build_args("revise the plan");
    assert!(args.iter().any(|a| a == "--continue"));
    assert!(args.iter().any(|a| a == "--model"));
    assert!(args.iter().any(|a| a == "anthropic/sonnet"));
    assert_eq!(args.last().map(String::as_str), Some("revise the plan"));
}

#[test]
fn opencode_injected_notes_fold_into_prompt() {
    let mut m = OpenCodeSession::new(ctx("opencode"));
    m.inbox.inject("focus on tests".into());
    let folded = m.inbox.fold_prompt("draft the plan".into());
    assert!(folded.contains("focus on tests"));
    assert!(folded.contains("draft the plan"));
    assert!(m.inbox.pending.is_empty());
}

#[test]
fn opencode_sessions_go_on_after_a_reply() {
    let mut m = OpenCodeSession::new(ctx("opencode"));
    m.begin_turn("one".into());
    let mut reply = PlainReply::new();
    m.end_turn(&reply, Some(1));
    assert!(!m.started_session);
    reply.line(1, m.turn, "done");
    m.end_turn(&reply, Some(0));
    assert!(m.started_session);
}

#[test]
fn printed_turns_end_with_their_text() {
    let mut reply = PlainReply::new();
    assert!(!reply.has_text());
    reply.line(1, 3, "a");
    reply.line(1, 3, "b");
    let events = reply.finish(1, 3);
    assert!(matches!(events.last(), Some(AgentEvent::TurnComplete { .. })));
    assert!(events.iter().any(|e| matches!(e, AgentEvent::MessageFinal { .. })));
}

#[test]
fn mock_sessions_answer_in_order() {
    let mut m = MockSession::new(1, MockAdapter::new(vec!["one".into(), "two".into()]));
    assert!(matches!(m.ready(), AgentEvent::SessionReady { .. }));
    let said = |events: Vec<AgentEvent>| {
        events
            .into_iter()
            .filter_map(|e| match e {
                AgentEvent::MessageFinal { text, .. } => Some(text),
                _ => None,
            })
            .collect::<Vec<_>>()
    };
    assert_eq!(said(m.respond()), vec!["one"]);
    assert_eq!(said(m.respond()), vec!["two"]);
}

#[test]
fn the_stream_session_is_started_with_its_model() {
    let mut c = ctx("anthropic");
    c.model = Some("opus".into());
    let args = session_args(&c, false);
    let at = args.iter().position(|a| a == "--model").expect("--model present");
    assert_eq!(args[at + 1], "opus");
}

#[test]
fn images_go_as_encoded_blocks() {
    let image = Attachment::new("/tmp/a.png".into());
    let block = value(&attachment_block(&image, &Some(b"hello".to_vec())).unwrap());
    assert_eq!(block["type"], "image");
    assert_eq!(block["source"]["data"], "aGVsbG8=");
    assert!(attachment_block(&image, &None).is_none());
}

#[test]
fn messages_lead_with_their_text() {
    let doc = value(&user_message("hi", &vec![], &vec![]));
    assert_eq!(doc["message"]["content"][0]["text"], "hi");
}

#[test]
fn stream_lines_become_events() {
    let mut reader = ClaudeReader::new(9);
    let events =
        reader.read(&document(r#"{"type":"system","subtype":"init","session_id":"s-1"}"#));
    assert!(matches!(events.first(), Some(AgentEvent::SessionReady { .. })));
    let done = reader.read(&document(r#"{"type":"result","total_cost_usd":0.5}"#));
    assert!(matches!(done.last(), Some(AgentEvent::TurnComplete { .. })));
    assert!(reader.read(&document(r#"{"type":"unheard of"}"#)).is_empty());
}

#[test]
fn lines_are_read_as_they_come() {
    let mut reader = ClaudeReader::new(9);
    assert!(reader.read_line("   ").is_empty());
    assert!(reader.read_line("").is_empty());
    assert!(reader.read_line("npm warn: {").is_empty());
    assert!(reader.read_line(r#"{"type":"result","#).is_empty());
    let events = reader.read_line(r#"{"type":"system","subtype":"init","session_id":"s-1"}"#);
    assert!(matches!(
        events.first(),
        Some(AgentEvent::SessionReady { agent: 9, native_session_id }) if native_session_id == "s-1"
    ));

    let mut m = codex_with(None, None);
    assert!(matches!(m.handle_line("warming up", 1), (e, false) if e.is_empty()));
    assert!(matches!(m.handle_line(" \t", 1), (e, false) if e.is_empty()));
    assert!(m.thread_id.is_none());
    let (events, over) = m.handle_line(r#"  {"type":"thread.started","thread_id":"t-1"} "#, 1);
    assert!(!over && events.len() == 1);
    assert_eq!(m.thread_id.as_deref(), Some("t-1"));
    assert!(m.handle_line(r#"{"type":"turn.completed"}"#, 1).1);
}

#[test]
fn whole_costs_are_read_as_reals() {
    for (line, cost) in [
        (r#"{"type":"result","total_cost_usd":1}"#, 1.0f64),
        (r#"{"type":"result","total_cost_usd":0}"#, 0.0),
        (r#"{"type":"result","total_cost_usd":-3}"#, -3.0),
        (r#"{"type":"result","total_cost_usd":0.25}"#, 0.25),
        (r#"{"type":"result","total_cost_usd":9007199254740993}"#, 9007199254740993u64 as f64),
    ] {
        let mut reader = ClaudeReader::new(9);
        let done = reader.read(&document(line));
        match done.last() {
            Some(AgentEvent::TurnComplete { cost_usd: Some(Number::Real(bits)), .. }) => {
                assert_eq!(*bits, cost.to_bits(), "{line}");
            }
            other => panic!("{line}: {other:?}"),
        }
    }
}

#[test]
fn json_includes_package_version() {
    let b = BuildRecord { git_sha: Some("abc"), git_dirty: Some("true"), target: None, profile: Some(" ") };
    let doc = value(&json(&b));
    assert_eq!(doc["version"], version());
    assert_eq!(git_sha(&b), Some("abc"));
    assert_eq!(git_dirty(&b), Some(true));
    assert!(doc["profile"].is_null());
}

#[test]
fn history_replays_durable_events_but_not_token_deltas() {
    let mut bus = EventHistory::new(8);
    let agent = 5u128;

    bus.record(&OrchestratorEvent::AgentSpawned {
        agent,
        label: "anthropic".to_string(),
        session_id: "s1".to_string(),
    });
    bus.record(&OrchestratorEvent::Token { agent, text: "streaming".to_string() });
    bus.record(&OrchestratorEvent::Message { agent, text: "complete".to_string() });

    let replay = bus.replay();
    assert_eq!(replay.len(), 2);
    assert!(matches!(replay[0], OrchestratorEvent::AgentSpawned { .. }));
    assert!(matches!(replay[1], OrchestratorEvent::Message { .. }));
}

#[test]
fn history_is_bounded_by_event_buffer() {
    let mut bus = EventHistory::new(2);

    for msg in ["one", "two", "three"] {
        bus.record(&OrchestratorEvent::Log { level: "info".to_string(), msg: msg.to_string() });
    }

    let replay = bus.replay();
    let messages: Vec<_> = replay
        .iter()
        .filter_map(|event| match event {
            OrchestratorEvent::Log { msg, .. } => Some(msg.as_str()),
            _ => None,
        })
        .collect();
    assert_eq!(messages, vec!["two", "three"]);
}

#[test]
fn usage_adds_up() {
    let mut a = TokenUsage {
        input_tokens: Some(1),
        cached_input_tokens: None,
        output_tokens: Some(2),
        reasoning_output_tokens: None,
        total_tokens: None,
    };
    let b = a;
    a.add(b);
    assert_eq!(a.input_tokens, Some(2));
    assert_eq!(a.cached_input_tokens, None);
    assert_eq!(a.total_or_sum(), Some(6));
    assert!(!a.is_empty());
}

#[test]
fn ids_are_written_in_groups() {
    let named = |id: u128| match MockSession::new(id, MockAdapter::new(vec![])).ready() {
        AgentEvent::SessionReady { native_session_id, .. } => native_session_id,
        other => panic!("{other:?}"),
    };
    assert_eq!(named(0), "mock-00000000-0000-0000-0000-000000000000");
    assert_eq!(
        named(0x0123_4567_89ab_cdef_0123_4567_89ab_cdef),
        "mock-01234567-89ab-cdef-0123-456789abcdef"
    );
}
