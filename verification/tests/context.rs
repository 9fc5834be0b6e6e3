use serde_json::Value;
use tales::changes::{
    git_status, local_change_summary, local_change_summary_status_json, should_skip,
    LocalChangeSummary,
};
use tales::json::{Json, Number};
use tales::project_context::{
    build_context_text, cache_path_for, cache_payload, collect_files, context_rank, default_cache_dir,
    excerpt, manifest_excerpt_hash, manifest_paths, project_context_status_json, read_cached_context,
    signature_for, with_git_status_context, FileInfo, ProjectContext,
};
use tales::prompt_forecast::{
    build_run_advice, checked_forecast, forecast_prompt_usage, parallel_rounds, project_context_cap_overhead_chars,
    prompt_forecast_to_json, run_advice_to_json, AdviceLevel, PreflightContextSummary, PromptForecast,
    RunAdvice, RunAdviceInput,
};

fn value(j: &Json) -> Value {
    match j {
        Json::Null => Value::Null,
        Json::Bool(b) => Value::Bool(*b),
        Json::Num(Number::Unsigned(n)) => Value::from(*n),
        Json::Num(Number::Negative(n)) => Value::from(*n),
        Json::Num(Number::Real(bits)) => Value::from(f64::from_bits(*bits)),
        Json::Str(s) => Value::String(s.clone()),
        Json::Arr(a) => Value::Array(a.iter().map(value).collect()),
        Json::Obj(f) => Value::Object(f.iter().map(|(k, v)| (k.clone(), value(v))).collect()),
    }
}

/// The files of a workspace, held in memory.
struct Workspace {
    files: Vec<(String, String)>,
}

/// What is read of a workspace.
struct Loaded {
    text: String,
    cache_hit: bool,
}

impl Workspace {
    fn new(files: &[(&str, &str)]) -> Workspace {
        Workspace { files: files.iter().map(|(a, b)| (a.to_string(), b.to_string())).collect() }
    }

    fn write(&mut self, rel: &str, body: &str) {
        match self.files.iter_mut().find(|(r, _)| r == rel) {
            Some(f) => f.1 = body.to_string(),
            None => self.files.push((rel.to_string(), body.to_string())),
        }
    }

    fn body(&self, rel: &str) -> Option<String> {
        self.files.iter().find(|(r, _)| r == rel).map(|(_, b)| b.clone())
    }

    /// Loads the context, from the cache where it holds the right one.
    fn load(&self, max_files: usize, max_manifest_chars: usize, cache: &mut Option<String>) -> Loaded {
        let listed: Vec<FileInfo> = self
            .files
            .iter()
            .filter(|(rel, _)| !should_skip(rel))
            .map(|(rel, body)| FileInfo {
                rel: rel.clone(),
                len: body.len() as u64,
                modified_nanos: 1,
                manifest_excerpt_hash: None,
            })
            .collect();
        let mut collected = collect_files(&listed, max_files);
        for m in collected.manifest_files.iter_mut() {
            m.manifest_excerpt_hash =
                self.body(&m.rel).map(|b| manifest_excerpt_hash(&b, max_manifest_chars));
        }
        let signature = signature_for(
            "/work",
            &collected.files,
            &collected.manifest_files,
            max_files,
            max_manifest_chars,
        );
        if let Some(text) = cache.as_ref().and_then(|p| read_cached_context(p, &signature)) {
            return Loaded { text, cache_hit: true };
        }
        let bodies: Vec<Option<String>> =
            manifest_paths(&collected.manifest_files).iter().map(|rel| self.body(rel)).collect();
        let text = build_context_text(
            "/work",
            &collected.files,
            &collected.manifest_files,
            &bodies,
            collected.truncated,
            max_files,
            max_manifest_chars,
        );
        *cache = Some(cache_payload(&signature, &text));
        Loaded { text, cache_hit: false }
    }
}

#[test]
fn project_context_caches_until_file_map_changes() {
    let mut w = Workspace::new(&[
        ("Cargo.toml", "[package]\nname = \"demo\"\n"),
        ("src/lib.rs", "pub fn demo() {}\n"),
    ]);
    let mut cache = None;
    let first = w.load(220, 1200, &mut cache);
    assert!(!first.cache_hit);
    assert!(first.text.contains("Cargo.toml"));
    assert!(cache_path_for("/work", "/cache").starts_with("/cache"));

    let second = w.load(220, 1200, &mut cache);
    assert!(second.cache_hit);
    assert_eq!(first.text, second.text);

    w.write("src/lib.rs", "pub fn demo() {}\npub fn changed() {}\n");
    let third = w.load(220, 1200, &mut cache);
    assert!(!third.cache_hit);
}

#[test]
fn project_context_cache_respects_manifest_excerpt_size() {
    let w = Workspace::new(&[(
        "Cargo.toml",
        "[package]\nname = \"demo\"\nversion = \"0.1.0\"\nedition = \"2021\"\n",
    )]);
    let mut cache = None;
    let small = w.load(220, 8, &mut cache);
    assert!(!small.cache_hit);
    assert!(small.text.contains("excerpt truncated"), "{}", small.text);

    let large = w.load(220, 1200, &mut cache);
    assert!(!large.cache_hit, "changing excerpt size must rebuild the cached context");
    assert!(large.text.contains("edition = \"2021\""), "{}", large.text);

    let large_again = w.load(220, 1200, &mut cache);
    assert!(large_again.cache_hit);
}

#[test]
fn project_context_reuses_cache_for_same_size_source_edits() {
    let first_source = "pub fn a() {}\n";
    let second_source = "pub fn b() {}\n";
    assert_eq!(first_source.len(), second_source.len());
    let mut w = Workspace::new(&[
        ("Cargo.toml", "[package]\nname = \"demo\"\n"),
        ("src/lib.rs", first_source),
    ]);
    let mut cache = None;
    let first = w.load(220, 1200, &mut cache);
    assert!(!first.cache_hit);

    w.write("src/lib.rs", second_source);
    let second = w.load(220, 1200, &mut cache);
    assert!(
        second.cache_hit,
        "source edits that do not change the injected file map should reuse cache"
    );
    assert_eq!(first.text, second.text);
}

#[test]
fn project_context_reuses_cache_for_uninjected_manifest_tail_edits() {
    let first_manifest = "[package]\nname = \"demo\"\n# tail aaaa\n";
    let second_manifest = "[package]\nname = \"demo\"\n# tail bbbb\n";
    assert_eq!(first_manifest.len(), second_manifest.len());
    assert_eq!(excerpt(first_manifest, 10), excerpt(second_manifest, 10));
    let mut w = Workspace::new(&[("Cargo.toml", first_manifest)]);
    let mut cache = None;
    let first = w.load(220, 10, &mut cache);
    assert!(!first.cache_hit);

    w.write("Cargo.toml", second_manifest);
    let second = w.load(220, 10, &mut cache);
    assert!(second.cache_hit, "edits outside the injected manifest excerpt should not rebuild");
    assert_eq!(first.text, second.text);
}

#[test]
fn project_context_includes_live_git_status_without_status_cache_misses() {
    let w = Workspace::new(&[
        ("Cargo.toml", "[package]\nname = \"demo\"\n"),
        ("src/lib.rs", "pub fn demo() {}\n"),
        (".tales/reports/last.md", "# report\n"),
        ("target/debug/nope", "artifact\n"),
        ("landing/demo.mp4", "media\n"),
        ("output/playwright/page.png", "screenshot\n"),
        ("video/out/render.mp4", "render\n"),
    ]);
    let status = |branch: &str| {
        git_status(&format!(
            "## {branch}\n?? .tales/reports/last.md\n?? Cargo.toml\n?? landing/demo.mp4\n?? output/playwright/page.png\n?? src/lib.rs\n?? target/debug/nope\n?? video/out/render.mp4\n"
        ))
    };
    let mut cache = None;
    let first = w.load(220, 1200, &mut cache);
    assert!(!first.cache_hit);
    let text = with_git_status_context(first.text, Some(&status("No commits yet on main")));
    assert!(text.contains("Git working tree:"), "{text}");
    assert!(text.contains("- branch:"), "{text}");
    assert!(text.contains("?? Cargo.toml"), "{text}");
    assert!(text.contains("?? src/lib.rs"), "{text}");
    assert!(!text.contains(".tales/reports/last.md"), "{text}");
    assert!(!text.contains("target/debug/nope"), "{text}");
    let status_section = text.split("\nFile map:\n").next().unwrap_or(&text);
    assert!(!status_section.contains("landing/demo.mp4"), "{text}");
    assert!(!status_section.contains("output/playwright/page.png"), "{text}");
    assert!(!status_section.contains("video/out/render.mp4"), "{text}");

    let second = w.load(220, 1200, &mut cache);
    assert!(second.cache_hit, "branch-only status changes should reuse static project context");
    let changed =
        with_git_status_context(second.text, Some(&status("No commits yet on feature/cache-status")));
    assert!(changed.contains("feature/cache-status"), "{changed}");
}

#[test]
fn local_change_summary_keeps_media_paths_but_skips_generated_outputs() {
    let summary = local_change_summary(
        "## No commits yet on main\n?? landing/demo.mp4\n?? src/lib.rs\n?? target/debug/nope\n?? video/out/render.mp4\n",
        10,
    );
    let text = summary.to_handoff_text();
    assert!(text.contains("?? src/lib.rs"), "{text}");
    assert!(text.contains("?? landing/demo.mp4"), "{text}");
    assert!(!text.contains("video/out/render.mp4"), "{text}");
    assert!(!text.contains("target/debug/nope"), "{text}");
    assert_eq!(summary.omitted, 2);
    assert!(!summary.truncated);
}

#[test]
fn local_change_summary_truncates_visible_entries() {
    let summary = local_change_summary("## No commits yet on main\n?? a.txt\n?? b.txt\n", 1);
    let text = summary.to_handoff_text();
    assert_eq!(summary.changes.len(), 1);
    assert!(summary.truncated);
    assert!(text.contains("status truncated after 1 visible entries"), "{text}");
}

#[test]
fn project_context_skips_heavy_directories() {
    let w = Workspace::new(&[
        ("target/debug/nope", "x"),
        ("node_modules/pkg/nope.js", "x"),
        ("src/main.rs", "fn main() {}\n"),
    ]);
    let ctx = w.load(220, 1200, &mut None);
    assert!(ctx.text.contains("src/main.rs"));
    assert!(!ctx.text.contains("target/debug/nope"));
    assert!(!ctx.text.contains("node_modules/pkg/nope.js"));
}

#[test]
fn project_context_skips_generated_session_artifacts() {
    let w = Workspace::new(&[
        (".tales/reports/last.md", "# stale run\n"),
        (".playwright-cli/page.yml", "snapshot\n"),
        ("src/main.rs", "fn main() {}\n"),
    ]);
    let ctx = w.load(220, 1200, &mut None);
    assert!(ctx.text.contains("src/main.rs"));
    assert!(!ctx.text.contains(".tales/reports/last.md"));
    assert!(!ctx.text.contains(".playwright-cli/page.yml"));
}

#[test]
fn project_context_skips_generated_outputs_from_file_map_and_signature() {
    let mut w = Workspace::new(&[
        ("Cargo.toml", "[package]\nname = \"demo\"\n"),
        ("src/main.rs", "fn main() {}\n"),
        ("output/playwright/page.png", "screenshot\n"),
        ("video/out/demo.mp4", "render\n"),
    ]);
    let mut cache = None;
    let first = w.load(220, 1200, &mut cache);
    assert!(!first.cache_hit);
    assert!(first.text.contains("src/main.rs"), "{}", first.text);
    assert!(!first.text.contains("output/playwright/page.png"), "{}", first.text);
    assert!(!first.text.contains("video/out/demo.mp4"), "{}", first.text);

    w.write("output/playwright/page.png", "screenshot changed\n");
    w.write("video/out/demo.mp4", "render changed\n");
    let second = w.load(220, 1200, &mut cache);
    assert!(second.cache_hit, "generated output changes should not invalidate project context");
}

#[test]
fn project_context_discloses_when_file_map_is_truncated() {
    let mut w = Workspace::new(&[("Cargo.toml", "[package]\nname = \"demo\"\n")]);
    for idx in 0..6 {
        w.write(&format!("src/file_{idx}.rs"), "pub fn f() {}\n");
    }
    let truncated = w.load(3, 1200, &mut None);
    assert!(truncated.text.contains("Indexed files: 3"));
    assert!(truncated.text.contains("Truncated: yes"), "{}", truncated.text);
    assert!(truncated.text.contains("max_files=3"), "{}", truncated.text);

    let complete = w.load(20, 1200, &mut None);
    assert!(complete.text.contains("Truncated: no"), "{}", complete.text);
}

#[test]
fn project_context_prioritizes_manifests_and_source_when_truncated() {
    let w = Workspace::new(&[
        (".anthropic/commands/tales.md", "harness notes\n"),
        (".gitignore", "/target\n"),
        ("Cargo.lock", "large lock\n"),
        ("Cargo.toml", "[package]\nname = \"demo\"\n"),
        ("README.md", "# Demo\n"),
        ("src/main.rs", "fn main() {}\n"),
        ("src/lib.rs", "pub fn lib() {}\n"),
        ("video/out/demo.mp4", "not really media\n"),
    ]);
    let ctx = w.load(4, 1200, &mut None);

    assert!(ctx.text.contains("Cargo.toml"), "{}", ctx.text);
    assert!(ctx.text.contains("README.md"), "{}", ctx.text);
    assert!(ctx.text.contains("src/lib.rs"), "{}", ctx.text);
    assert!(ctx.text.contains("src/main.rs"), "{}", ctx.text);
    assert!(!ctx.text.contains(".anthropic/commands/tales.md"), "{}", ctx.text);
    assert!(!ctx.text.contains("video/out/demo.mp4"), "{}", ctx.text);
    assert!(context_rank("Cargo.toml") < context_rank(".gitignore"));
}

#[test]
fn project_context_preserves_manifest_excerpts_outside_truncated_file_map() {
    let w = Workspace::new(&[
        ("Cargo.toml", "[workspace]\nmembers = [\"app\"]\n"),
        ("app/package.json", "{\"scripts\":{\"test\":\"vitest\"}}\n"),
        ("app/main.ts", "export const x = 1;\n"),
    ]);
    let ctx = w.load(1, 1200, &mut None);

    assert!(ctx.text.contains("Indexed files: 1"), "{}", ctx.text);
    assert!(ctx.text.contains("- Cargo.toml"), "{}", ctx.text);
    assert!(ctx.text.contains("- app/package.json"), "{}", ctx.text);
    assert!(ctx.text.contains("--- Cargo.toml ---"), "{}", ctx.text);
    assert!(ctx.text.contains("--- app/package.json ---"), "{}", ctx.text);

    let file_map = ctx.text.split("\nManifest excerpts:\n").next().unwrap_or("");
    assert!(!file_map.contains("app/main.ts"), "{}", ctx.text);
}

#[test]
fn caches_refuse_another_signature() {
    let payload = cache_payload("one", "body");
    assert_eq!(read_cached_context(&payload, "one").as_deref(), Some("body"));
    assert!(read_cached_context(&payload, "two").is_none());
    assert_eq!(default_cache_dir(Some("/c"), None, Some("/h"), "/t"), "/c/project-context");
    assert_eq!(
        default_cache_dir(None, None, Some("/h"), "/t"),
        "/h/.cache/tales/project-context"
    );
}

#[test]
fn planning_in_parallel_is_even() {
    assert_eq!(parallel_rounds(4, 2) * 2, 4);
}

#[test]
fn forecasts_are_checked() {
    let context = PreflightContextSummary {
        project_context_chars: Some(usize::MAX),
        project_context_cache_hit: None,
        local_change_handoff_chars: None,
    };
    assert!(checked_forecast(4, 2, 4, false, true, &context, None).is_none());
}

#[test]
fn project_context_status_json_keeps_budget_and_legacy_aliases() {
    let ctx = ProjectContext {
        text: "abcd".repeat(300),
        cache_hit: true,
        cache_path: "/tmp/tales-context.txt".to_string(),
    };

    let value = value(&project_context_status_json(Some(&ctx), false, 180, 900, Some(1_000)));

    assert_eq!(value["enabled"], true);
    assert_eq!(value["cache_hit"], true);
    assert_eq!(value["chars"], 1_200);
    assert_eq!(value["tokens_estimate"], 300);
    assert_eq!(value["max_manifest_tokens_estimate"], 225);
    assert_eq!(value["budgets"]["max_files"], 180);
    assert_eq!(value["budget_fit"]["status"], "over_budget");
    assert_eq!(value["default_budget_fit"]["status"], "over_budget");
}

#[test]
fn local_change_summary_status_json_keeps_count_and_preview_aliases() {
    let changes = LocalChangeSummary {
        branch: Some("main".into()),
        changes: vec![" M src/lib.rs".into(), "?? README.md".into()],
        truncated: false,
        omitted: 1,
    };

    let value = value(&local_change_summary_status_json(Some(&changes)));

    assert_eq!(value["available"], true);
    assert_eq!(value["branch"], "main");
    assert_eq!(value["visible_count"], 2);
    assert_eq!(value["visible_changes"], 2);
    assert_eq!(value["changes"].as_array().unwrap().len(), 2);
    assert_eq!(value["preview"].as_array().unwrap().len(), 2);
    assert_eq!(value["omitted"], 1);
    assert_eq!(value["omitted_generated_or_dependency_entries"], 1);
    assert!(value["handoff_chars"].as_u64().unwrap() > 0);
}

#[test]
fn signature_ignores_source_mtime_when_file_map_is_unchanged() {
    let root = "/tmp/tales-project-context-root";
    let a = vec![FileInfo {
        rel: "src/lib.rs".into(),
        len: 10,
        modified_nanos: 1_700_000_000_000_000_001,
        manifest_excerpt_hash: None,
    }];
    let b = vec![FileInfo {
        rel: "src/lib.rs".into(),
        len: 10,
        modified_nanos: 1_700_000_000_000_000_999,
        manifest_excerpt_hash: None,
    }];

    assert_eq!(
        signature_for(root, &a, &vec![], 220, 1200),
        signature_for(root, &b, &vec![], 220, 1200)
    );
}

#[test]
fn signature_changes_when_source_file_size_changes() {
    let root = "/tmp/tales-project-context-root";
    let a = vec![FileInfo {
        rel: "src/lib.rs".into(),
        len: 10,
        modified_nanos: 1_700_000_000_000_000_001,
        manifest_excerpt_hash: None,
    }];
    let b = vec![FileInfo {
        rel: "src/lib.rs".into(),
        len: 11,
        modified_nanos: 1_700_000_000_000_000_001,
        manifest_excerpt_hash: None,
    }];

    assert_ne!(
        signature_for(root, &a, &vec![], 220, 1200),
        signature_for(root, &b, &vec![], 220, 1200)
    );
}

#[test]
fn signature_uses_manifest_content_hash() {
    let root = "/tmp/tales-project-context-root";
    let files = vec![FileInfo {
        rel: "Cargo.toml".into(),
        len: 24,
        modified_nanos: 1_700_000_000_000_000_001,
        manifest_excerpt_hash: None,
    }];
    let a = vec![FileInfo {
        rel: "Cargo.toml".into(),
        len: 24,
        modified_nanos: 1_700_000_000_000_000_001,
        manifest_excerpt_hash: Some(111),
    }];
    let b = vec![FileInfo {
        rel: "Cargo.toml".into(),
        len: 24,
        modified_nanos: 1_700_000_000_000_000_001,
        manifest_excerpt_hash: Some(222),
    }];

    assert_ne!(
        signature_for(root, &files, &a, 220, 1200),
        signature_for(root, &files, &b, 220, 1200)
    );
}

#[test]
fn signature_ignores_manifest_mtime_when_excerpt_hash_matches() {
    let root = "/tmp/tales-project-context-root";
    let files_a = vec![FileInfo {
        rel: "Cargo.toml".into(),
        len: 24,
        modified_nanos: 1_700_000_000_000_000_001,
        manifest_excerpt_hash: None,
    }];
    let files_b = vec![FileInfo {
        rel: "Cargo.toml".into(),
        len: 24,
        modified_nanos: 1_700_000_000_000_000_999,
        manifest_excerpt_hash: None,
    }];
    let manifest = vec![FileInfo {
        rel: "Cargo.toml".into(),
        len: 24,
        modified_nanos: 1_700_000_000_000_000_001,
        manifest_excerpt_hash: Some(111),
    }];

    assert_eq!(
        signature_for(root, &files_a, &manifest, 220, 1200),
        signature_for(root, &files_b, &manifest, 220, 1200)
    );
}

#[test]
fn prompt_forecast_prompt_forecast_counts_parallel_run_payload() {
    let context = PreflightContextSummary {
        project_context_chars: Some(1_000),
        project_context_cache_hit: Some(true),
        local_change_handoff_chars: Some(200),
    };

    let forecast = forecast_prompt_usage(4, 2, 4, false, true, &context, None);

    assert_eq!(forecast.planner_count, 2);
    assert_eq!(forecast.planning_prompts, 4);
    assert_eq!(forecast.recommendation_prompts, 2);
    assert_eq!(forecast.execution_prompts, 1);
    assert_eq!(forecast.max_vote_repair_prompts, 2);
    assert_eq!(forecast.first_context_prompts, 2);
    assert_eq!(forecast.project_context_payload_chars, 2_000);
    assert_eq!(forecast.local_change_payload_chars, 200);
    assert_eq!(forecast.total_prompts(), 7);
    assert_eq!(forecast.known_payload_chars, 2_228);
}

#[test]
fn prompt_forecast_prompt_forecast_discuss_has_no_execution_payload() {
    let context = PreflightContextSummary {
        project_context_chars: None,
        project_context_cache_hit: None,
        local_change_handoff_chars: Some(200),
    };

    let forecast = forecast_prompt_usage(4, 2, 3, true, false, &context, None);

    assert_eq!(forecast.planning_prompts, 3);
    assert_eq!(forecast.recommendation_prompts, 0);
    assert_eq!(forecast.execution_prompts, 0);
    assert_eq!(forecast.max_vote_repair_prompts, 0);
    assert_eq!(forecast.first_context_prompts, 0);
    assert_eq!(forecast.local_change_payload_chars, 0);
    assert_eq!(forecast.total_prompts(), 3);
    assert_eq!(forecast.known_payload_chars, 12);
}

#[test]
fn prompt_forecast_caps_first_project_context_payload() {
    let context = PreflightContextSummary {
        project_context_chars: Some(1_000),
        project_context_cache_hit: Some(false),
        local_change_handoff_chars: None,
    };

    let forecast = forecast_prompt_usage(4, 2, 4, false, true, &context, Some(100));
    let capped_payload = 100 + project_context_cap_overhead_chars(100);

    assert_eq!(forecast.first_context_prompts, 2);
    assert_eq!(forecast.project_context_payload_chars, capped_payload * 2);
    assert_eq!(
        forecast.known_payload_chars,
        4 * forecast.total_prompts() + capped_payload * 2
    );
}

#[test]
fn capped_payloads_count_their_marker() {
    let context = PreflightContextSummary {
        project_context_chars: Some(1_000),
        project_context_cache_hit: Some(false),
        local_change_handoff_chars: None,
    };
    let forecast = forecast_prompt_usage(4, 2, 4, false, true, &context, Some(100));
    assert_eq!(forecast.first_context_prompts, 2);
    assert_eq!(forecast.project_context_payload_chars, 946);
    assert_eq!(forecast.known_payload_chars, 974);
}

#[test]
fn run_advice_flags_parallel_cache_cap_and_tiered_execution() {
    let context = PreflightContextSummary {
        project_context_chars: Some(50_000),
        project_context_cache_hit: Some(true),
        local_change_handoff_chars: Some(400),
    };
    let forecast = forecast_prompt_usage(20, 2, 4, false, true, &context, Some(24_000));

    let advice = build_run_advice(RunAdviceInput {
        forecast: &forecast,
        context: &context,
        effective_context_budget_chars: Some(24_000),
        turns: 4,
        sequential: false,
        include_execution: true,
        separate_executor: true,
    });

    let keys = advice
        .iter()
        .map(|item| (item.key, item.level))
        .collect::<Vec<_>>();
    assert!(keys.contains(&("planning_shape", AdviceLevel::Good)));
    assert!(keys.contains(&("project_context_cache", AdviceLevel::Good)));
    assert!(keys.contains(&("context_cap", AdviceLevel::Good)));
    assert!(keys.contains(&("tiered_execution", AdviceLevel::Good)));
    assert!(keys.contains(&("vote_repair", AdviceLevel::Warn)));
    assert!(keys.contains(&("local_change_handoff", AdviceLevel::Info)));
}

#[test]
fn run_advice_warns_for_sequential_unlimited_and_disabled_context() {
    let context = PreflightContextSummary {
        project_context_chars: None,
        project_context_cache_hit: None,
        local_change_handoff_chars: None,
    };
    let forecast = forecast_prompt_usage(20, 2, 4, true, false, &context, None);

    let advice = build_run_advice(RunAdviceInput {
        forecast: &forecast,
        context: &context,
        effective_context_budget_chars: None,
        turns: 4,
        sequential: true,
        include_execution: false,
        separate_executor: false,
    });

    assert!(advice
        .iter()
        .any(|item| item.key == "planning_shape" && item.level == AdviceLevel::Warn));
    assert!(advice
        .iter()
        .any(|item| item.key == "project_context_cache" && item.level == AdviceLevel::Warn));
}

#[test]
fn prompt_forecast_json_reports_shared_preflight_shape() {
    let forecast = PromptForecast {
        planner_count: 2,
        planning_prompts: 4,
        recommendation_prompts: 2,
        execution_prompts: 1,
        max_vote_repair_prompts: 2,
        first_context_prompts: 2,
        project_context_payload_chars: 1_200,
        local_change_payload_chars: 400,
        known_payload_chars: 1_700,
    };

    let value = value(&prompt_forecast_to_json(&forecast, 4, false));

    assert_eq!(value["planned_calls"]["total"], 7);
    assert_eq!(value["planned_calls"]["base"], 7);
    assert_eq!(value["planned_calls"]["worst_case"], 9);
    assert_eq!(value["planning_waits"]["mode"], "parallel");
    assert_eq!(value["planning_waits"]["waits"], 2);
    assert_eq!(
        value["payloads"]["project_context_chars_per_first_prompt"],
        600
    );
    assert_eq!(value["repair_risk"]["min_vote_repair_prompts"], 0);
    assert_eq!(value["repair_risk"]["max_vote_repair_prompts"], 2);
    assert_eq!(value["repair_risk"]["worst_case_total_prompts"], 9);
    assert!(value["repair_risk"]["parser_shortcuts"]
        .as_array()
        .unwrap()
        .iter()
        .any(|shortcut| shortcut == "single_candidate_mention"));
}

#[test]
fn run_advice_json_keeps_machine_readable_levels() {
    let advice = vec![RunAdvice {
        key: "tiered_execution",
        level: AdviceLevel::Good,
        title: "Tiered execution".into(),
        detail: "Separate executor keeps planning and typing costs apart.".into(),
    }];

    let value: Vec<Value> = run_advice_to_json(&advice).iter().map(value).collect();

    assert_eq!(value.len(), 1);
    assert_eq!(value[0]["key"], "tiered_execution");
    assert_eq!(value[0]["level"], "good");
    assert_eq!(value[0]["title"], "Tiered execution");
}
