use serde_json::Value;
use tales::coordinator::{
    check_schema, default_model_path, extract_features, predicted, rationale, Shape, SplitMix64, Tier,
    FEATURE_NAMES,
};
use tales::dataset::{
    generate, orchestration_plan, orchestration_plan_text, shape_counts, to_chat_jsonl, to_plan_jsonl,
};
use tales::eval_harness::{
    compare_results, default_eval_report_path, default_scenarios, recommendation_input, run_mock_eval,
    scenario_candidates,
};
use tales::json::{Json, Number};
use tales::json_read::read_json;
use tales::json_text::compact;
use tales::llm_conductor::{
    cache_path, decided, decision_texts, exchange_error, read_reply, reply_content, shape_from_str, strategy_from,
    Decision, DecisionCache, ExchangeFailure, LlmConductor,
};
use tales::prompt_forecast::PreflightContextSummary;
use tales::reals::{double_bits, is_above, to_double};
use tales::recommend::Measure;

fn value(j: &Json) -> Value {
    match j {
        Json::Null => Value::Null,
        Json::Bool(b) => Value::Bool(*b),
        Json::Num(Number::Unsigned(n)) => Value::from(*n),
        Json::Num(Number::Negative(n)) => Value::from(*n),
        Json::Num(Number::Real(bits)) => Value::from(f64::from_bits(*bits)),
        Json::Str(s) => Value::String(s.clone()),
        Json::Arr(a) => Value::Array(a.iter().map(value).collect()),
        Json::Obj(f) => Value::Object(f.iter().map(|(k, v)| (k.clone(), value(v))).collect()),
    }
}

fn document(text: &str) -> Json {
    read_json(text).unwrap()
}

fn measure(x: f64) -> Measure {
    Measure { bits: x.to_bits(), shown: format!("{x:.2}") }
}

/// A decision as a server words it.
fn worded(text: &str) -> Option<Decision> {
    let v: Value = serde_json::from_str(text).ok()?;
    Some(Decision {
        shape: v["shape"].as_str()?.to_string(),
        difficulty: measure(v["difficulty"].as_f64()?),
    })
}

#[test]
fn orchestration_plans_are_valid_and_well_formed() {
    let corpus = generate();
    // Sample one task of each shape so all roster branches are exercised.
    for shape in Shape::all() {
        let (task, _) = corpus.iter().find(|(_, s)| *s == shape).unwrap();
        let plan = value(&orchestration_plan(task, shape));
        assert_eq!(plan["shape"], shape.as_str());
        let roster = plan["roster"].as_array().unwrap();
        assert!(!roster.is_empty(), "roster must not be empty");
        for r in roster {
            assert!(matches!(r["agent"].as_str(), Some("anthropic") | Some("codex")));
            assert!(r["role"].is_string() && r["why"].is_string());
        }
        assert!(plan["coordination"]["order"].as_array().unwrap().len() == roster.len());
        assert_eq!(plan["escalate"]["to"]["model"], "opus");
        // the plan stays backward-compatible: shape + difficulty are top-level.
        assert!(plan["difficulty"].as_f64().unwrap() >= 0.0);
    }
    // The whole JSONL round-trips as valid chat lines with parseable plans.
    let jsonl = to_plan_jsonl(&corpus[..3]);
    for line in jsonl.lines() {
        let v: Value = serde_json::from_str(line).unwrap();
        let content = v["messages"][2]["content"].as_str().unwrap();
        let _plan: Value = serde_json::from_str(content).unwrap();
    }
}

#[test]
fn plan_texts_are_their_plans() {
    for (task, shape) in generate().iter().take(40) {
        let read: Value = serde_json::from_str(&orchestration_plan_text(task, *shape)).unwrap();
        assert_eq!(read, value(&orchestration_plan(task, *shape)));
    }
}

#[test]
fn generation_is_deterministic_and_balanced() {
    let a = generate();
    let b = generate();
    assert_eq!(a, b, "generation must be reproducible");
    assert!(a.len() >= 300, "want a few hundred examples, got {}", a.len());

    let counts = shape_counts(&a);
    // Every shape is well represented (none starved).
    for (i, c) in counts.iter().enumerate() {
        assert!(*c >= 40, "shape {i} underrepresented: {c}");
    }
}

#[test]
fn no_template_placeholders_leak() {
    for (task, _) in generate() {
        assert!(
            !task.contains('{') && !task.contains('}'),
            "unfilled placeholder in: {task}"
        );
    }
}

#[test]
fn jsonl_lines_are_valid_and_labeled() {
    let corpus = generate();
    let jsonl = to_chat_jsonl(&corpus);
    let lines: Vec<&str> = jsonl.lines().collect();
    assert_eq!(lines.len(), corpus.len());

    // Spot-check the first line parses and carries the right structure.
    let value: Value = serde_json::from_str(lines[0]).unwrap();
    let messages = value["messages"].as_array().unwrap();
    assert_eq!(messages.len(), 3);
    assert_eq!(messages[0]["role"], "system");
    assert_eq!(messages[2]["role"], "assistant");
    // The assistant content is itself valid decision JSON with a known shape.
    let decision: Value = serde_json::from_str(messages[2]["content"].as_str().unwrap()).unwrap();
    let shape = decision["shape"].as_str().unwrap();
    assert!(matches!(shape, "solo" | "debate" | "tiered"), "bad shape {shape}");
}

#[test]
fn compact_documents_escape_and_stay_on_one_line() {
    let doc = document("{\"a\":[1,-2,true,null],\"b\":\"x\\n\\\"\\u0001é\"}");
    let text = compact(&doc);
    assert_eq!(text, "{\"a\":[1,-2,true,null],\"b\":\"x\\n\\\"\\u0001é\"}");
    assert!(!text.contains('\n'));
}

#[test]
fn features_are_counted_from_the_task() {
    let f = extract_features("design the caching strategy across the whole codebase");
    assert_eq!(f.words, 8);
    assert_eq!(f.chars, 53);
    // "across" + "whole" + "codebase" should light up breadth.
    assert!(f.breadth > 0, "breadth feature should fire");
    assert_eq!(f, extract_features("DESIGN the caching strategy across the whole codebase"));
    assert!(extract_features("implement a balanced binary search tree").algorithmic > 0);
}

#[test]
fn tiers_rise_with_difficulty() {
    assert_eq!(Tier::from_difficulty(&measure(0.2)), Tier::Cheap);
    assert_eq!(Tier::from_difficulty(&measure(0.9)), Tier::Strong);
}

#[test]
fn predictions_name_their_shape() {
    let f = extract_features("rename every call site across the codebase");
    let s = predicted(&f, Shape::Tiered.index(), [0, 0, 1.0f64.to_bits()], measure(0.2), measure(0.9));
    assert_eq!(s.shape, Shape::Tiered);
    assert_eq!(s.tier, Tier::Cheap);
    assert_eq!(s.rationale, rationale(&f, Shape::Tiered));
    assert!(s.summary_line().starts_with("coordinator: tiered ("), "{}", s.summary_line());
    assert_eq!(Shape::from_index(2), Some(Shape::Tiered));
    assert_eq!(Shape::from_index(3), None);
    assert_eq!(default_model_path("/w"), "/w/.tales/coordinator.json");
    assert!(check_schema(200).is_err());
}

#[test]
fn the_generator_of_numbers_is_exact() {
    let mut g = SplitMix64 { state: 0 };
    assert_eq!(g.next_u64(), 0xe220a8397b1dcdaf);
    assert_eq!(g.next_u64(), 0x6e789e6aa1b965f4);
}

#[test]
fn mock_eval_generates_metrics_without_model_calls() {
    let scenario = default_scenarios("fix lint").remove(1);
    let context = PreflightContextSummary {
        project_context_chars: Some(1_000),
        project_context_cache_hit: Some(true),
        local_change_handoff_chars: Some(200),
    };

    let result = run_mock_eval("/tmp/tales", scenario, &context, vec![], 7).unwrap();

    assert!(result.metrics.planned_calls > 0);
    assert!(result.checks.iter().all(|check| check.passed));
    assert_eq!(result.schema_version, 1);
    assert_eq!(value(&result.to_json())["created_at_unix"], 7);
    let compared = value(&compare_results(&vec![result]));
    assert!(compared.is_object());
}

#[test]
fn candidates_are_the_tools_of_a_scenario() {
    let all = default_scenarios("t");
    assert_eq!(scenario_candidates(&all[1]), vec!["anthropic", "codex"]);
    let input = recommendation_input(&all[2]);
    assert!(input.prefer_cheaper && input.prefer_faster && input.needs_execution);
    assert_eq!(default_eval_report_path("/w", "x"), "/w/.tales/evals/x.json");
}

#[test]
fn decision_cache_round_trips_and_is_keyed() {
    let mut cache = DecisionCache::empty();
    let task = "migrate all the tests from mocha to jest";
    let strat = strategy_from(Shape::Tiered, measure(0.2), "test");

    // Miss before anything is stored.
    assert!(cache.lookup("talesml-v4", task).is_none());

    cache.store("talesml-v4", task, &strat);

    // Hit on the exact (model, task).
    let hit = cache.lookup("talesml-v4", task).expect("cache hit");
    assert_eq!(hit.shape, "tiered");
    assert!((f64::from_bits(hit.difficulty.bits) - 0.2).abs() < 1e-6);

    // Miss on a different task, and on a different model (key includes both).
    assert!(cache.lookup("talesml-v4", "implement a trie").is_none());
    assert!(cache.lookup("other-model", task).is_none());

    // Persisted locally under .tales/.
    assert_eq!(cache_path("/ws"), "/ws/.tales/conductor-cache.json");

    // Entries of another schema are not read.
    assert!(DecisionCache::of_file(99, cache.entries).entries.is_empty());
}

#[test]
fn canned_decisions_are_taken() {
    let reply = document(
        "{\"choices\":[{\"message\":{\"role\":\"assistant\",\"content\":\"{\\\"shape\\\":\\\"tiered\\\",\\\"difficulty\\\":0.2}\"}}]}",
    );
    let content = reply_content(&reply).unwrap();
    let decision = decision_texts(&content).iter().find_map(|t| worded(t));
    let strategy = decided(&content, decision, "http://x/v1").unwrap();
    assert_eq!(strategy.shape, Shape::Tiered);
    assert_eq!(strategy.tier, Tier::Cheap);
    assert_eq!(strategy.shape_probs[Shape::Tiered.index()], 1.0f64.to_bits());
    assert!(reply_content(&document("{}")).is_err());
    assert!(decided("nothing", None, "u").is_err());
}

#[test]
fn fenced_decisions_are_found() {
    let content = "Here you go:\n```json\n{\"shape\":\"solo\",\"difficulty\":0.9}\n```";
    let decision = decision_texts(content).iter().find_map(|t| worded(t));
    let strategy = decided(content, decision, "u").unwrap();
    assert_eq!(strategy.shape, Shape::Solo);
    assert_eq!(strategy.tier, Tier::Strong);
}

#[test]
fn the_conductor_asks_at_its_endpoint() {
    let c = LlmConductor::new("http://h/v1//".into()).with_model("m".into());
    assert_eq!(c.endpoint(), "http://h/v1/chat/completions");
    let body = value(&c.request_body("do it"));
    assert_eq!(body["model"], "m");
    assert_eq!(shape_from_str(" Debate "), Some(Shape::Debate));
    assert_eq!(shape_from_str("duel"), None);
    let mut cache = DecisionCache::empty();
    cache.store("m", "do it", &strategy_from(Shape::Debate, measure(0.5), "u"));
    assert_eq!(c.remembered(&cache, "do it").unwrap().shape, Shape::Debate);
    assert!(c.with_cache(false).remembered(&cache, "do it").is_none());
    let told = [
        exchange_error(ExchangeFailure::Request("r".into())).message(),
        exchange_error(ExchangeFailure::Status("s".into())).message(),
        exchange_error(ExchangeFailure::Body("b".into())).message(),
    ];
    assert!(told[0] != told[1] && told[1] != told[2]);
}

#[test]
fn features_are_named() {
    assert_eq!(FEATURE_NAMES.len(), 10);
    assert_eq!((FEATURE_NAMES[0], FEATURE_NAMES[9]), ("length", "bias"));
    for (i, name) in FEATURE_NAMES.iter().enumerate() {
        assert!(!FEATURE_NAMES[..i].contains(name));
    }
}

#[test]
fn difficulties_stay_in_the_unit_interval() {
    let difficulty = |x: f64| {
        let s = strategy_from(Shape::Solo, measure(x), "u");
        (f64::from_bits(s.difficulty.bits), s.tier)
    };
    assert_eq!(difficulty(-0.5), (0.0, Tier::Cheap));
    assert_eq!(difficulty(1.5), (1.0, Tier::Strong));
    assert_eq!(difficulty(0.25).0, 0.25);
    assert_eq!(Tier::from_difficulty(&measure(-1.0)), Tier::Cheap);
}

#[test]
fn whole_numbers_become_the_nearest_doubles() {
    for n in [
        0u64,
        1,
        2,
        3,
        1023,
        (1 << 53) - 1,
        1 << 53,
        (1 << 53) + 1,
        (1 << 53) + 2,
        (1 << 53) + 3,
        (1 << 60) + 12345,
        u64::MAX - 1024,
        u64::MAX,
    ] {
        assert_eq!(double_bits(n), (n as f64).to_bits(), "{n}");
    }
    assert!(matches!(to_double(Number::Negative(-7)), Number::Real(b) if b == (-7.0f64).to_bits()));
    assert!(
        matches!(to_double(Number::Negative(i64::MIN)), Number::Real(b) if b == (i64::MIN as f64).to_bits())
    );
    assert!(matches!(to_double(Number::Real(5)), Number::Real(5)));
}

#[test]
fn reals_are_compared_by_their_places() {
    let reals = [-2.0f64, -1.0, -0.5, 0.0, 0.25, 1.0, 1e300];
    for (i, a) in reals.iter().enumerate() {
        for (j, b) in reals.iter().enumerate() {
            assert_eq!(is_above(a.to_bits(), b.to_bits()), i > j, "{a} {b}");
        }
    }
    assert!(!is_above(0.0f64.to_bits(), (-0.0f64).to_bits()));
    assert!(!is_above((-0.0f64).to_bits(), 0.0f64.to_bits()));
}

#[test]
fn tasks_stand_under_one_shape() {
    let corpus = generate();
    for pair in corpus.windows(2) {
        assert!(pair[0].0 < pair[1].0, "{} {}", pair[0].0, pair[1].0);
    }
}

#[test]
fn documents_are_read_from_their_text() {
    let text = r#" {"b":[null,true,-7,18446744073709551615,1.5,"x\u0041\n"],"a":{"k":{}},"b2":1e2} "#;
    let expected: Value = serde_json::from_str(text).unwrap();
    let read = read_json(text).unwrap();
    assert_eq!(value(&read), expected);
    let items = match read.get("b") {
        Some(Json::Arr(items)) => items,
        other => panic!("{other:?}"),
    };
    assert!(matches!(items[2], Json::Num(Number::Negative(-7))));
    assert!(matches!(items[3], Json::Num(Number::Unsigned(u64::MAX))));
    assert!(matches!(items[4], Json::Num(Number::Real(b)) if b == 1.5f64.to_bits()));
    assert!(matches!(&items[5], Json::Str(s) if s == "xA\n"));
    assert!(matches!(read.get("b2"), Some(Json::Num(Number::Real(b))) if *b == 100.0f64.to_bits()));
    assert_eq!(compact(&read_json(r#"{"a": [1, "q\"" ]}"#).unwrap()), r#"{"a":[1,"q\""]}"#);
    let refused = read_json("[1,").unwrap_err();
    assert_eq!(refused.message(), "json error: EOF while parsing a value at line 1 column 3");
}

#[test]
fn replies_are_read_from_their_text() {
    let reply = r#"{"choices":[{"message":{"role":"assistant","content":"solo"}}]}"#;
    assert_eq!(read_reply(reply).unwrap(), "solo");
    assert_eq!(
        read_reply(r#"{"choices":[]}"#).unwrap_err().message(),
        "conductor reply missing message content"
    );
    assert!(read_reply("<html>").unwrap_err().message().starts_with("json error: "));
}
