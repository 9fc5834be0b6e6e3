//! What the smaller commands show.
use vstd::prelude::*;
use crate::agent::{bin_path, found_path, FoundBin};
use crate::build_info::{build_doc, json, BuildRecord};
use crate::context::{estimated_tokens, tokens_of, DEFAULT_CONTEXT_BUDGET_CHARS};
use crate::error::TalesError;
use crate::eval_harness::{
    default_scenarios, result_doc, scenario_views, scenarios_of, EvalResult, EvalScenario,
    ScenarioView,
};
use crate::json::{
    doc_items, doc_str, doc_u64, docs, jbool, jnum, jopt_str, jstr, member, member2, num,
    opt_string, text, truth, Doc, Fields, Json,
};
use crate::json_read::{read_json, read_text};
use crate::labels::{context_fit_label, fit_label, pad, padded, preview_chars, previewed};
use crate::numeral::{dec, decimal, decimal_size};
use crate::project_context::{context_doc, project_context_fields, ProjectContext};
use crate::registry::{known_rows, known_tools, rows, ToolInfo, ToolRow};
use crate::text::{char_count, flat, lemma_flat_push, same, texts};

verus! {

// ---- The reference ---------------------------------------------------------

/// The commands, without the tools.
pub const COMMANDS_REFERENCE: &'static str = "Tales command reference\n\nStartup\n  tales                 Open the interactive Tales terminal\n  tales --help          Show CLI help\n  tales help <command>  Show help for one command\n  tales commands        Show this command reference\n\nInside the Tales terminal\n  help or /help         Quick guidance\n  commands or /commands List available commands\n  /attach <path>        Attach an image or PDF to your next note\n  /confirm [tool|n]     Approve the recommended executor or choose one\n  /reject               Stop before execution\n  /artifacts            Show saved run files for recovery\n  /handoff [tool|n]     Resend the current plan or reopen the executor\n  /switch <tool|n>      Open a fresh executor pane with the current plan\n  /quit                 Leave Tales\n\nUseful shortcuts\n  Ctrl-N shell          Open a shell pane\n  Ctrl-X Codex          Open a Codex pane\n  Ctrl-L Anthropic         Open a Anthropic pane\n  Ctrl-O Open Code      Open an Open Code pane\n  Ctrl-S send plan      Send the saved plan to the focused CLI pane\n  Ctrl-A approve        Answer yes to an approval prompt in the focused pane\n  Tab / Shift-Tab       Switch panes\n  Ctrl-Q                Quit\n\nArtifacts and recovery\n  .tales/runs/<run>/plan.md       Rolling plan and transcript snapshot\n  .tales/runs/<run>/events.jsonl  Event log for stalled or timed-out runs\n  .tales/runs/<run>/run.json Run metadata and current status\n  .tales/last-plan.md             Latest executor handoff\n  tales recover                   List saved run artifacts\n  tales recover --latest --print  Print the newest saved plan\n\nScriptable commands\n  tales doctor --all    Check installed CLIs and workspace context\n  tales context         Build or inspect cached project context\n  tales solo <prompt>   Run one tool for one turn\n  tales discuss <task>  Run planner discussion only\n  tales run <task>      Plan, recommend, and execute non-interactively\n  tales open [task]     Open Tales in a new macOS Terminal window\n\nKnown tools\n";

pub open spec fn ready_word(path: Option<Seq<char>>) -> Seq<char> {
    if path is Some {
        "ready"@
    } else {
        "missing"@
    }
}

/// The line on a tool.
pub open spec fn tool_line(row: ToolRow, path: Option<Seq<char>>) -> Seq<char> {
    "  "@ + padded(row.pretty, 12) + " "@ + padded(row.bin, 10) + " "@
        + padded(ready_word(path), 8) + " "@ + row.install + "\n"@
}

/// The lines on the known tools.
pub open spec fn tool_lines(found: Seq<FoundBin>) -> Seq<char> {
    flat(
        Seq::new(
            known_rows().len(),
            |i: int| tool_line(known_rows()[i], found_path(found, known_rows()[i].bin)),
        ),
    )
}

fn write_tool_line(info: &ToolInfo, found: &Vec<FoundBin>) -> (r: String)
    ensures
        r@ == tool_line(info@, found_path(found@, info@.bin)),
{
    let status: &str = if bin_path(info.bin, found).is_some() {
        "ready"
    } else {
        "missing"
    };
    let ghost row = info@;
    let ghost path = found_path(found@, info@.bin);
    let mut out = "  ".to_owned();
    out.append(pad(info.pretty, 12).as_str());
    out.append(" ");
    out.append(pad(info.bin, 10).as_str());
    out.append(" ");
    out.append(pad(status, 8).as_str());
    out.append(" ");
    out.append(info.install);
    out.append("\n");
    out
}

/// The commands and the known tools.
pub fn commands_reference(found: &Vec<FoundBin>) -> (r: String)
    ensures
        r@ == COMMANDS_REFERENCE@ + tool_lines(found@),
{
    let tools = known_tools();
    let ghost one = |i: int| tool_line(known_rows()[i], found_path(found@, known_rows()[i].bin));
    let mut lines = String::new();
    let mut i: usize = 0;
    proof {
        assert(flat(Seq::new(0, one)) =~= Seq::empty());
        assert(lines@ =~= Seq::empty());
    }
    while i < tools.len()
        invariant
            i <= tools.len(),
            rows(tools@) == known_rows(),
            one == (|i: int|
                tool_line(known_rows()[i], found_path(found@, known_rows()[i].bin))),
            lines@ == flat(Seq::new(i as nat, one)),
        decreases tools.len() - i,
    {
        lines.append(write_tool_line(&tools[i], found).as_str());
        proof {
            assert(rows(tools@)[i as int] == tools@[i as int]@);
            lemma_flat_push(Seq::new(i as nat, one), one(i as int));
            assert(Seq::new((i + 1) as nat, one) =~= Seq::new(i as nat, one).push(one(i as int)));
        }
        i = i + 1;
    }
    proof {
        assert(rows(tools@).len() == tools@.len());
        assert(lines@ == tool_lines(found@));
    }
    let mut out = COMMANDS_REFERENCE.to_owned();
    out.append(lines.as_str());
    out
}

// ---- The project context ---------------------------------------------------

/// The status document on a context that is shown, with its text or without.
pub open spec fn shown_context_doc(
    ctx: ProjectContext,
    refresh: bool,
    max_files: usize,
    max_manifest_chars: usize,
    print: bool,
) -> Doc {
    Doc::Obj(
        context_doc(
            Some(ctx),
            refresh,
            max_files,
            max_manifest_chars,
            Some(DEFAULT_CONTEXT_BUDGET_CHARS),
        )->Obj_0.push(("text_included"@, jbool(print))) + (if print {
            seq![("text"@, jstr(ctx.text@))]
        } else {
            Seq::empty()
        }),
    )
}

pub open spec fn context_report_doc(
    build: BuildRecord,
    cwd: Seq<char>,
    project_context: Doc,
    output: Option<Seq<char>>,
) -> Doc {
    Doc::Obj(
        seq![
            ("kind"@, jstr("tales_project_context"@)),
            ("schema_version"@, jnum(1)),
            ("build"@, build_doc(build)),
            ("cwd"@, jstr(cwd)),
            ("project_context"@, project_context),
            ("output_path"@, jopt_str(output)),
            ("status"@, jstr("ok"@)),
        ],
    )
}

/// The project context as a document.
pub fn context_report_json(
    build: &BuildRecord,
    cwd: &str,
    ctx: &ProjectContext,
    refresh: bool,
    max_files: usize,
    max_manifest_chars: usize,
    print: bool,
    output: &Option<String>,
) -> (r: Json)
    ensures
        r@ == context_report_doc(
            *build,
            cwd@,
            shown_context_doc(*ctx, refresh, max_files, max_manifest_chars, print),
            crate::text::opt_text(*output),
        ),
{
    let mut c = project_context_fields(
        Some(ctx),
        refresh,
        max_files,
        max_manifest_chars,
        Some(DEFAULT_CONTEXT_BUDGET_CHARS),
    );
    c.put("text_included", truth(print));
    if print {
        c.put("text", text(ctx.text.as_str()));
    }
    let ghost shown = shown_context_doc(*ctx, refresh, max_files, max_manifest_chars, print);
    proof {
        assert(c@ =~= shown->Obj_0);
    }
    let mut f = Fields::new();
    f.put("kind", text("tales_project_context"));
    f.put("schema_version", num(1));
    f.put("build", json(build));
    f.put("cwd", text(cwd));
    f.put("project_context", c.object());
    f.put("output_path", opt_string(output));
    f.put("status", text("ok"));
    proof {
        assert(f@ =~= context_report_doc(
            *build,
            cwd@,
            shown,
            crate::text::opt_text(*output),
        )->Obj_0);
    }
    f.object()
}

pub open spec fn if_hit(hit: bool) -> Seq<char> {
    if hit {
        "cache hit"@
    } else {
        "rebuilt"@
    }
}

pub open spec fn written_line(output: Option<Seq<char>>) -> Seq<char> {
    match output {
        Some(p) => "written: "@ + p + "\n"@,
        None => Seq::empty(),
    }
}

pub open spec fn shown_text(t: Seq<char>, print: bool) -> Seq<char> {
    if print {
        t
    } else {
        previewed(t, 2200)
    }
}

/// What is shown of the project context.
pub fn context_report_text(ctx: &ProjectContext, print: bool, output: &Option<String>) -> (r:
    String)
    ensures
        r@ == "project context: "@ + if_hit(ctx.cache_hit) + "\ncache: "@ + ctx.cache_path@
            + "\nchars: "@ + dec(ctx.text@.len()) + "\ntokens~: "@
            + dec(tokens_of(ctx.text@.len())) + "\ndefault budget fit: "@
            + fit_label(ctx.text@.len() as usize, Some(DEFAULT_CONTEXT_BUDGET_CHARS)) + "\n"@
            + written_line(crate::text::opt_text(*output)) + "\n"@
            + shown_text(ctx.text@, print) + "\n"@,
{
    let chars = char_count(ctx.text.as_str());
    let hit: &str = if ctx.cache_hit {
        "cache hit"
    } else {
        "rebuilt"
    };
    let mut written = String::new();
    if let Some(p) = output {
        written.append("written: ");
        written.append(p.as_str());
        written.append("\n");
    }
    proof {
        assert(written@ =~= written_line(crate::text::opt_text(*output)));
    }
    let shown = if print {
        ctx.text.clone()
    } else {
        preview_chars(ctx.text.as_str(), 2200)
    };
    let mut out = "project context: ".to_owned();
    out.append(hit);
    out.append("\ncache: ");
    out.append(ctx.cache_path.as_str());
    out.append("\nchars: ");
    out.append(decimal_size(chars).as_str());
    out.append("\ntokens~: ");
    out.append(decimal_size(estimated_tokens(chars)).as_str());
    out.append("\ndefault budget fit: ");
    out.append(context_fit_label(chars, Some(DEFAULT_CONTEXT_BUDGET_CHARS)).as_str());
    out.append("\n");
    out.append(written.as_str());
    out.append("\n");
    out.append(shown.as_str());
    out.append("\n");
    out
}

// ---- Evaluations -----------------------------------------------------------

/// The place of the scenario with a name; the first of several.
pub open spec fn scenario_place(s: Seq<ScenarioView>, name: Seq<char>) -> Option<int>
    decreases s.len(),
{
    if s.len() == 0 {
        None
    } else {
        match scenario_place(s.drop_last(), name) {
            Some(k) => Some(k),
            None => if s.last().name == name {
                Some(s.len() - 1)
            } else {
                None
            },
        }
    }
}

/// The scenario with a name.
pub fn select_eval_scenario(task: &str, name: &str) -> (r: Result<EvalScenario, TalesError>)
    ensures
        match r {
            Ok(s) => scenario_place(scenarios_of(task@), name@) matches Some(k) && s@
                == scenarios_of(task@)[k],
            Err(e) => scenario_place(scenarios_of(task@), name@) is None && (e matches
                TalesError::Other(m) && m@ == "unknown eval scenario '"@ + name@
                    + "' (valid: solo_strong, debate_parallel, tiered_parallel)"@),
        },
{
    let mut all = default_scenarios(task);
    let ghost views = scenarios_of(task@);
    let mut i: usize = 0;
    proof {
        assert(views.take(0) =~= Seq::empty());
        assert(scenario_views(all@).len() == all@.len());
    }
    while i < all.len()
        invariant
            i <= all.len(),
            views == scenario_views(all@),
            views == scenarios_of(task@),
            scenario_place(views.take(i as int), name@) is None,
        decreases all.len() - i,
    {
        proof {
            assert(views.take(i + 1).drop_last() =~= views.take(i as int));
            assert(views.take(i + 1).last() == views[i as int]);
            assert(views[i as int] == all@[i as int]@);
        }
        if same(all[i].name.as_str(), name) {
            proof {
                assert(scenario_place(views.take(i + 1), name@) == Some(i as int));
                lemma_place_stays(views, name@, i + 1, i as int);
            }
            let s = all.remove(i);
            return Ok(s);
        }
        i = i + 1;
    }
    proof {
        assert(views.take(i as int) =~= views);
    }
    let mut m = "unknown eval scenario '".to_owned();
    m.append(name);
    m.append("' (valid: solo_strong, debate_parallel, tiered_parallel)");
    Err(TalesError::Other(m))
}

proof fn lemma_place_stays(s: Seq<ScenarioView>, name: Seq<char>, n: int, k: int)
    requires
        0 <= n <= s.len(),
        scenario_place(s.take(n), name) == Some(k),
    ensures
        scenario_place(s, name) == Some(k),
    decreases s.len() - n,
{
    if n < s.len() {
        assert(s.take(n + 1).drop_last() =~= s.take(n));
        lemma_place_stays(s, name, n + 1, k);
    } else {
        assert(s.take(n) =~= s);
    }
}

pub open spec fn eval_run_doc(result: EvalResult) -> Doc {
    Doc::Obj(
        seq![
            ("kind"@, jstr("tales_eval_run"@)),
            ("schema_version"@, jnum(1)),
            ("result"@, result_doc(result)),
            (
                "side_effects"@,
                Doc::Obj(seq![("model_calls"@, jbool(false)), ("agents_spawned"@, jbool(false))]),
            ),
        ],
    )
}

/// The evaluation of one scenario as a document.
pub fn eval_run_json(result: &EvalResult) -> (r: Json)
    ensures
        r@ == eval_run_doc(*result),
{
    let mut effects = Fields::new();
    effects.put("model_calls", truth(false));
    effects.put("agents_spawned", truth(false));
    proof {
        assert(effects@ =~= eval_run_doc(*result)->Obj_0[3].1->Obj_0);
    }
    let mut f = Fields::new();
    f.put("kind", text("tales_eval_run"));
    f.put("schema_version", num(1));
    f.put("result", result.to_json());
    f.put("side_effects", effects.object());
    proof {
        assert(f@ =~= eval_run_doc(*result)->Obj_0);
    }
    f.object()
}

pub open spec fn text_or(d: Option<Doc>, other: Seq<char>) -> Seq<char> {
    match doc_str(d) {
        Some(s) => s,
        None => other,
    }
}

pub open spec fn number_or_zero(d: Option<Doc>) -> nat {
    match doc_u64(d) {
        Some(n) => n as nat,
        None => 0,
    }
}

fn str_or<'a>(j: Option<&'a Json>, other: &'a str) -> (r: &'a str)
    ensures
        r@ == text_or(crate::json::opt_doc(j), other@),
{
    match j {
        Some(v) => match v.as_str() {
            Some(s) => s,
            None => other,
        },
        None => other,
    }
}

fn number_at(j: &Json, a: &str, b: &str) -> (r: u64)
    ensures
        r == number_or_zero(member2(j@, a@, b@)),
{
    match j.get2(a, b) {
        Some(v) => match v.as_u64() {
            Some(n) => n,
            None => 0,
        },
        None => 0,
    }
}

/// The line on a result.
pub open spec fn eval_line(d: Doc) -> Seq<char> {
    "- "@ + text_or(member2(d, "scenario"@, "name"@), "scenario"@) + ": calls="@
        + dec(number_or_zero(member2(d, "metrics"@, "planned_calls"@))) + " worst="@
        + dec(number_or_zero(member2(d, "metrics"@, "worst_case_planned_calls"@)))
        + " payload="@ + dec(number_or_zero(member2(d, "metrics"@, "known_payload_chars"@)))
        + " chars (~"@ + dec(number_or_zero(member2(d, "metrics"@, "estimated_tokens"@)))
        + " tokens)\n"@
}

fn write_eval_line(result: &Json) -> (r: String)
    ensures
        r@ == eval_line(result@),
{
    let mut out = "- ".to_owned();
    out.append(str_or(result.get2("scenario", "name"), "scenario"));
    out.append(": calls=");
    out.append(decimal(number_at(result, "metrics", "planned_calls")).as_str());
    out.append(" worst=");
    out.append(decimal(number_at(result, "metrics", "worst_case_planned_calls")).as_str());
    out.append(" payload=");
    out.append(decimal(number_at(result, "metrics", "known_payload_chars")).as_str());
    out.append(" chars (~");
    out.append(decimal(number_at(result, "metrics", "estimated_tokens")).as_str());
    out.append(" tokens)\n");
    out
}

/// What is shown of an evaluation: of one scenario, or of a comparison.
pub open spec fn eval_text(d: Doc) -> Seq<char> {
    "Tales eval\n"@ + (match member(d, "result"@) {
        Some(result) => eval_line(result),
        None => match member(d, "scenarios"@) {
            Some(Doc::Arr(results)) => "best latency shape: "@
                + text_or(member(d, "best_latency_shape"@), "unknown"@)
                + "\ncheapest payload shape: "@
                + text_or(member(d, "cheapest_payload_shape"@), "unknown"@) + "\n"@ + flat(
                Seq::new(results.len(), |i: int| eval_line(results[i])),
            ),
            _ => Seq::empty(),
        },
    })
}

fn write_eval_lines(results: &Vec<Json>) -> (r: String)
    ensures
        r@ == flat(Seq::new(docs(results@).len(), |i: int| eval_line(docs(results@)[i]))),
{
    let ghost one = |i: int| eval_line(docs(results@)[i]);
    let mut lines = String::new();
    let mut i: usize = 0;
    proof {
        assert(flat(Seq::new(0, one)) =~= Seq::empty());
        assert(lines@ =~= Seq::empty());
    }
    while i < results.len()
        invariant
            i <= results.len(),
            one == (|i: int| eval_line(docs(results@)[i])),
            lines@ == flat(Seq::new(i as nat, one)),
        decreases results.len() - i,
    {
        lines.append(write_eval_line(&results[i]).as_str());
        proof {
            lemma_flat_push(Seq::new(i as nat, one), one(i as int));
            assert(Seq::new((i + 1) as nat, one) =~= Seq::new(i as nat, one).push(one(i as int)));
        }
        i = i + 1;
    }
    lines
}

/// What is shown of an evaluation.
pub fn eval_summary(value: &Json) -> (r: String)
    ensures
        r@ == eval_text(value@),
{
    let mut body = String::new();
    proof {
        assert(body@ =~= Seq::empty());
    }
    if let Some(result) = value.get("result") {
        body = write_eval_line(result);
    } else if let Some(all) = value.get("scenarios") {
        if let Json::Arr(results) = all {
            proof {
                assert(all@->Arr_0 =~= docs(results@));
            }
            let ghost d = value@;
            let mut out = "best latency shape: ".to_owned();
            out.append(str_or(value.get("best_latency_shape"), "unknown"));
            out.append("\ncheapest payload shape: ");
            out.append(str_or(value.get("cheapest_payload_shape"), "unknown"));
            out.append("\n");
            out.append(write_eval_lines(results).as_str());
            body = out;
        }
    }
    let mut out = "Tales eval\n".to_owned();
    out.append(body.as_str());
    out
}

/// What is shown of a saved evaluation, or why its text is none.
pub fn saved_eval_summary(saved: &str) -> (r: Result<String, TalesError>)
    ensures
        match read_text(saved@) {
            Ok(value) => r matches Ok(s) && s@ == eval_text(value),
            Err(e) => r matches Err(TalesError::Json(m)) && m@ == e,
        },
{
    match read_json(saved) {
        Ok(value) => Ok(eval_summary(&value)),
        Err(e) => Err(e),
    }
}

// ---- The profile of a workspace --------------------------------------------

/// The texts among the items of a list.
pub open spec fn texts_in(items: Seq<Doc>) -> Seq<Seq<char>>
    decreases items.len(),
{
    if items.len() == 0 {
        Seq::empty()
    } else {
        let before = texts_in(items.drop_last());
        match items.last() {
            Doc::Str(s) => before.push(s),
            _ => before,
        }
    }
}

/// What is shown of a list of texts.
pub open spec fn list_text(label: Seq<char>, value: Option<Doc>) -> Seq<char> {
    let items = texts_in(doc_items(value));
    if items.len() == 0 {
        label + ": none\n"@
    } else {
        label + ":\n"@ + flat(Seq::new(items.len(), |i: int| "  - "@ + items[i] + "\n"@))
    }
}

fn string_items(j: Option<&Json>) -> (r: Vec<String>)
    ensures
        texts(r@) == texts_in(doc_items(crate::json::opt_doc(j))),
{
    let mut out: Vec<String> = Vec::new();
    proof {
        assert(texts(out@) =~= Seq::empty());
    }
    if let Some(v) = j {
        if let Json::Arr(a) = v {
            let ghost all = docs(a@);
            proof {
                assert(v@->Arr_0 =~= all);
                assert(all.take(0) =~= Seq::empty());
            }
            let mut i: usize = 0;
            while i < a.len()
                invariant
                    i <= a.len(),
                    all == docs(a@),
                    texts(out@) == texts_in(all.take(i as int)),
                decreases a.len() - i,
            {
                proof {
                    assert(all.take(i + 1).drop_last() =~= all.take(i as int));
                    assert(all.take(i + 1).last() == a@[i as int]@);
                }
                if let Json::Str(s) = &a[i] {
                    let x = s.clone();
                    proof {
                        crate::text::lemma_texts_push(out@, x);
                    }
                    out.push(x);
                }
                i = i + 1;
            }
            proof {
                assert(all.take(i as int) =~= all);
            }
        }
    }
    out
}

fn write_list(label: &str, value: Option<&Json>) -> (r: String)
    ensures
        r@ == list_text(label@, crate::json::opt_doc(value)),
{
    let items = string_items(value);
    let ghost all = texts_in(doc_items(crate::json::opt_doc(value)));
    proof {
        assert(texts(items@).len() == items@.len());
    }
    let mut out = label.to_owned();
    if items.len() == 0 {
        out.append(": none\n");
        return out;
    }
    let ghost one = |i: int| "  - "@ + all[i] + "\n"@;
    let mut lines = String::new();
    let mut i: usize = 0;
    proof {
        assert(flat(Seq::new(0, one)) =~= Seq::empty());
        assert(lines@ =~= Seq::empty());
    }
    while i < items.len()
        invariant
            i <= items.len(),
            all == texts(items@),
            one == (|i: int| "  - "@ + all[i] + "\n"@),
            lines@ == flat(Seq::new(i as nat, one)),
        decreases items.len() - i,
    {
        lines.append("  - ");
        lines.append(items[i].as_str());
        lines.append("\n");
        proof {
            lemma_flat_push(Seq::new(i as nat, one), one(i as int));
            assert(Seq::new((i + 1) as nat, one) =~= Seq::new(i as nat, one).push(one(i as int)));
            assert(lines@ =~= flat(Seq::new(i as nat, one)) + one(i as int));
        }
        i = i + 1;
    }
    proof {
        assert(Seq::new(i as nat, one) =~= Seq::new(all.len(), |i: int| "  - "@ + all[i] + "\n"@));
    }
    out.append(":\n");
    out.append(lines.as_str());
    out
}

/// What is shown of the profile of a workspace.
pub fn profile_status_text(status: &Json) -> (r: String)
    ensures
        r@ == "Tales workspace profile\nworkspace: "@
            + text_or(member(status@, "workspace"@), ""@) + "\npath: "@
            + text_or(member(status@, "path"@), ""@) + "\n"@
            + list_text("commands"@, member(status@, "commands"@))
            + list_text("preferred tools"@, member(status@, "preferred_tools"@))
            + list_text("conventions"@, member(status@, "conventions"@))
            + list_text("last successful checks"@, member(status@, "last_successful_checks"@))
            + list_text("known warnings"@, member(status@, "known_warnings"@)),
{
    let mut out = "Tales workspace profile\nworkspace: ".to_owned();
    out.append(str_or(status.get("workspace"), ""));
    out.append("\npath: ");
    out.append(str_or(status.get("path"), ""));
    out.append("\n");
    out.append(write_list("commands", status.get("commands")).as_str());
    out.append(write_list("preferred tools", status.get("preferred_tools")).as_str());
    out.append(write_list("conventions", status.get("conventions")).as_str());
    out.append(write_list("last successful checks", status.get("last_successful_checks")).as_str());
    out.append(write_list("known warnings", status.get("known_warnings")).as_str());
    out
}

pub open spec fn profile_clear_doc(cwd: Seq<char>, path: Seq<char>) -> Doc {
    Doc::Obj(
        seq![
            ("kind"@, jstr("tales_profile_clear"@)),
            ("schema_version"@, jnum(1)),
            ("cwd"@, jstr(cwd)),
            ("path"@, jstr(path)),
            ("status"@, jstr("cleared"@)),
        ],
    )
}

/// The removal of a profile as a document.
pub fn profile_clear_json(cwd: &str, path: &str) -> (r: Json)
    ensures
        r@ == profile_clear_doc(cwd@, path@),
{
    let mut f = Fields::new();
    f.put("kind", text("tales_profile_clear"));
    f.put("schema_version", num(1));
    f.put("cwd", text(cwd));
    f.put("path", text(path));
    f.put("status", text("cleared"));
    proof {
        assert(f@ =~= profile_clear_doc(cwd@, path@)->Obj_0);
    }
    f.object()
}

} // verus!
