//! What holds of the labels that are shown, of evaluations and of the doctor.
use vstd::prelude::*;
use crate::agent::{found_path, AgentCaps, FoundBin};
use crate::build_info::{long_version_of, BuildRecord, VERSION};
use crate::context::{tokens_of, DEFAULT_CONTEXT_BUDGET_CHARS};
use crate::count_laws::tells;
use crate::doctor::{
    cast_of, doctor_doc, failures_of, known_keys, targets_of, tool_failure, tool_failures,
};
use crate::eval_harness::{
    checks_of, comparison_doc, evaluated, first_least, foretold, law_first_least_is_least,
    metrics_doc, named_tools, result_doc, scenario_doc, scenarios_of, EvalMetrics, EvalResult,
    ScenarioView,
};
use crate::json::{jbool, jnum, jopt_str, jstr, jtexts, Doc};
use crate::labels::{
    budget_label, caps_line, effective_budget, fit_label, fit_word, head_of, label_of, padded,
    percent_of, previewed, score_part, score_parts, scores_line, short_preview,
};
use crate::launch::{connect_flags, prefill_flag, shell_quoted};
use crate::numeral::dec;
use crate::prompt_forecast::{PreflightContextSummary, PromptForecast};
use crate::recommend::Score;
use crate::registry::row_of;
use crate::roster::{distinct_keys, roster_problem};
use crate::scan::{is_blank, trim};
use crate::session_laws::lemma_distinct;
use crate::text::{flat, join, same_ci};
use crate::text_laws::{
    group_says, law_concatenation_keeps_every_part, law_joining_keeps_every_part,
    lemma_says_all_each, lemma_says_through, says,
};

verus! {

// ---- Labels ----------------------------------------------------------------------

/// A preview is the text where it is short enough, and else its beginning, with a
/// mark that it was cut.
pub proof fn law_previews_begin_as_the_text(s: Seq<char>, n: nat)
    ensures
        s.len() <= n ==> previewed(s, n) == s && short_preview(s, n) == s && head_of(s, n) == s,
        s.len() > n ==> head_of(s, n).len() == n && head_of(s, n) == s.take(n as int),
        s.len() > n ==> previewed(s, n).take(n as int) == s.take(n as int) && previewed(s, n).skip(
            n as int,
        ) == "\n... truncated ..."@,
        s.len() > n ==> short_preview(s, n).take(n as int) == s.take(n as int) && short_preview(
            s,
            n,
        ).skip(n as int) == "..."@,
{
    if s.len() <= n {
        assert(s + Seq::<char>::empty() =~= s);
    } else {
        assert(previewed(s, n).take(n as int) =~= s.take(n as int));
        assert(previewed(s, n).skip(n as int) =~= "\n... truncated ..."@);
        assert(short_preview(s, n).take(n as int) =~= s.take(n as int));
        assert(short_preview(s, n).skip(n as int) =~= "..."@);
    }
}

/// A padded text is the text, and spaces behind it up to the width.
pub proof fn law_padding_is_space(s: Seq<char>, n: nat, i: int)
    ensures
        padded(s, n).len() >= n,
        padded(s, n).len() == s.len() || padded(s, n).len() == n,
        padded(s, n).take(s.len() as int) == s,
        s.len() <= i < padded(s, n).len() ==> padded(s, n)[i] == ' ',
{
    assert(padded(s, n).take(s.len() as int) =~= s);
}

/// A tool is shown by its name, and one that is not known by its key.
pub proof fn law_tools_are_shown_by_name(key: Seq<char>)
    ensures
        row_of(key) matches Some(row) ==> label_of(key) == row.pretty,
        row_of(key) is None ==> label_of(key) == key,
{
}

/// What a tool can do is shown, each with its own answer.
pub proof fn law_abilities_are_shown(caps: AgentCaps)
    ensures
        ({
            let word = |b: bool|
                if b {
                    "true"@
                } else {
                    "false"@
                };
            &&& says(caps_line(caps), "resume="@ + word(caps.resumable))
            &&& says(caps_line(caps), ", midturn="@ + word(caps.midturn_injection))
            &&& says(caps_line(caps), ", structured="@ + word(caps.structured_output))
            &&& says(caps_line(caps), ", mcp="@ + word(caps.mcp))
        }),
{
    broadcast use group_says;

    let w = |b: bool| crate::labels::bool_word(b);
    let a = "resume="@ + w(caps.resumable);
    let b = a + ", midturn="@ + w(caps.midturn_injection);
    let c = b + ", structured="@ + w(caps.structured_output);
    crate::text_laws::lemma_pair_is_said(a, ", midturn="@, w(caps.midturn_injection));
    crate::text_laws::lemma_pair_is_said(b, ", structured="@, w(caps.structured_output));
    crate::text_laws::lemma_pair_is_said(c, ", mcp="@, w(caps.mcp));
}

/// The first four scores are shown, and how many more there are.
pub proof fn law_the_first_scores_are_shown(scores: Seq<Score>, i: int)
    ensures
        0 <= i < scores.len() && i < 4 ==> says(
            scores_line(scores),
            scores[i].executor@ + "="@ + scores[i].value.shown@,
        ),
        scores.len() > 4 ==> says(
            scores_line(scores),
            "+"@ + dec((scores.len() - 4) as nat) + " more"@,
        ),
{
    broadcast use group_says;

    let parts = score_parts(scores);
    law_joining_keeps_every_part(parts, ", "@, Seq::empty());
    let all = join(parts, ", "@);
    if 0 <= i < scores.len() && i < 4 {
        assert(parts[i] == score_part(scores[i]));
        lemma_says_all_each(all, parts, i);
        lemma_says_through(scores_line(scores), all, parts[i]);
    }
    if scores.len() > 4 {
        lemma_says_all_each(all, parts, 4);
        lemma_says_through(scores_line(scores), all, parts[4]);
    }
}

/// A budget holds as it was asked for; none was asked for means the default, and
/// zero means that there is no limit.
pub proof fn law_zero_lifts_the_limit(n: usize)
    ensures
        effective_budget(Some(0)) is None,
        n > 0 ==> effective_budget(Some(n)) == Some(n),
        effective_budget(None) == Some(DEFAULT_CONTEXT_BUDGET_CHARS),
        budget_label(Some(0)) == "unlimited"@,
        n > 0 ==> says(budget_label(Some(n)), dec(n as nat)) && says(
            budget_label(Some(n)),
            dec(tokens_of(n as nat)),
        ),
        says(budget_label(None), dec(DEFAULT_CONTEXT_BUDGET_CHARS as nat)),
{
    broadcast use group_says;

}

/// What a context takes of its budget is rounded up to whole percents, and it is
/// over the budget where it has more characters.
pub proof fn law_shares_are_rounded_up(chars: usize, budget: usize)
    ensures
        budget > 0 && chars * 100 <= usize::MAX ==> percent_of(chars, budget) * budget >= chars * 100,
        budget > 0 && 0 < chars && chars * 100 <= usize::MAX ==> (percent_of(chars, budget) - 1)
            * budget < chars * 100,
        budget == 0 ==> percent_of(chars, budget) == 0,
        fit_word(chars, budget) == (if chars > budget {
            "over budget"@
        } else {
            "fits"@
        }),
        says(fit_label(chars, Some(budget)), fit_word(chars, budget)),
        says(fit_label(chars, Some(budget)), dec(chars as nat) + "/"@ + dec(budget as nat)),
        says(fit_label(chars, None), dec(chars as nat)),
{
    broadcast use group_says;

    if budget > 0 && chars * 100 <= usize::MAX {
        crate::pipeline_laws::lemma_rounds(chars * 100, budget as int);
    }
}

// ---- Evaluations -----------------------------------------------------------------

/// Every scenario is for the task that was asked for. Alone, a tool has no planners
/// beside it; in a debate one of the planners executes; and where work is tiered
/// the executor is none of them.
pub proof fn law_scenarios_are_what_they_are_called(task: Seq<char>, i: int)
    requires
        0 <= i < scenarios_of(task).len(),
    ensures
        ({
            let s = scenarios_of(task)[i];
            &&& s.task == task
            &&& s.mode is Solo ==> s.drafter is None && s.critic is None
            &&& s.mode is Debate ==> s.drafter == Some(s.executor) || s.critic == Some(s.executor)
            &&& s.mode is Tiered ==> s.drafter is Some && s.critic is Some && s.drafter != Some(
                s.executor,
            ) && s.critic != Some(s.executor)
            &&& named_tools(s).contains(s.executor)
            &&& s.drafter matches Some(d) ==> named_tools(s).contains(d)
            &&& s.critic matches Some(c) ==> named_tools(s).contains(c)
        }),
{
    reveal_strlit("anthropic");
    reveal_strlit("codex");
    reveal_strlit("opencode");
    assert("anthropic"@.len() == 9 && "codex"@.len() == 5 && "opencode"@.len() == 8);
    let s = scenarios_of(task)[i];
    let n = named_tools(s);
    assert(n[n.len() - 1] == s.executor);
    if s.drafter is Some {
        assert(n[0] == s.drafter->0);
        assert(n[1] == s.critic->0);
    }
}

/// An evaluation measures what the forecast says: its calls, those at worst, and
/// what is known of its payload. It passes where anything is called at all. A
/// debate neither votes nor executes.
pub proof fn law_evaluations_measure_the_forecast(
    r: EvalResult,
    s: ScenarioView,
    f: PromptForecast,
    context: PreflightContextSummary,
)
    requires
        evaluated(r, s, f),
        foretold(f, s, context),
    ensures
        r.scenario@ == s,
        r.metrics.planned_calls == f.planning_prompts + f.recommendation_prompts
            + f.execution_prompts,
        r.metrics.planned_calls <= r.metrics.worst_case_planned_calls,
        r.metrics.known_payload_chars == f.known_payload_chars,
        4 * r.metrics.estimated_tokens >= r.metrics.known_payload_chars,
        4 * r.metrics.estimated_tokens < r.metrics.known_payload_chars + 4,
        s.mode is Debate ==> f.recommendation_prompts == 0 && f.execution_prompts == 0,
        !(s.mode is Debate) ==> f.execution_prompts == 1,
        s.mode is Solo ==> f.planner_count == 1,
        !(s.mode is Solo) ==> f.planner_count == 2,
        checks_of(f)[0].passed <==> r.metrics.planned_calls > 0,
{
}

/// Of several evaluations the one with the fewest calls is named as the fastest and
/// the one with the least payload as the cheapest; of equals, the first.
pub proof fn law_the_least_is_named(results: Seq<EvalResult>, k: int)
    requires
        0 <= k < results.len(),
    ensures
        (forall|j: int|
            0 <= j < results.len() ==> results[k].metrics.planned_calls
                <= (#[trigger] results[j]).metrics.planned_calls) && (forall|j: int|
            0 <= j < k ==> results[k].metrics.planned_calls
                < (#[trigger] results[j]).metrics.planned_calls) ==> tells(
            comparison_doc(results),
            "best_latency_shape"@,
            jstr(results[k].scenario.name@),
        ),
        (forall|j: int|
            0 <= j < results.len() ==> results[k].metrics.known_payload_chars
                <= (#[trigger] results[j]).metrics.known_payload_chars) && (forall|j: int|
            0 <= j < k ==> results[k].metrics.known_payload_chars
                < (#[trigger] results[j]).metrics.known_payload_chars) ==> tells(
            comparison_doc(results),
            "cheapest_payload_shape"@,
            jstr(results[k].scenario.name@),
        ),
        tells(
            comparison_doc(results),
            "scenarios"@,
            Doc::Arr(Seq::new(results.len(), |i: int| result_doc(results[i]))),
        ),
{
    let calls = Seq::new(results.len(), |i: int| results[i].metrics.planned_calls);
    let load = Seq::new(results.len(), |i: int| results[i].metrics.known_payload_chars);
    let o = comparison_doc(results)->Obj_0;
    assert(o[2].0 == "scenarios"@);
    law_first_least_is_least(calls);
    law_first_least_is_least(load);
    if (forall|j: int|
        0 <= j < results.len() ==> results[k].metrics.planned_calls
            <= (#[trigger] results[j]).metrics.planned_calls) && (forall|j: int|
        0 <= j < k ==> results[k].metrics.planned_calls
            < (#[trigger] results[j]).metrics.planned_calls) {
        lemma_first_least(calls, k);
        assert(o[3] == ("best_latency_shape"@, jstr(results[k].scenario.name@)));
    }
    if (forall|j: int|
        0 <= j < results.len() ==> results[k].metrics.known_payload_chars
            <= (#[trigger] results[j]).metrics.known_payload_chars) && (forall|j: int|
        0 <= j < k ==> results[k].metrics.known_payload_chars
            < (#[trigger] results[j]).metrics.known_payload_chars) {
        lemma_first_least(load, k);
        assert(o[4] == ("cheapest_payload_shape"@, jstr(results[k].scenario.name@)));
    }
}

proof fn lemma_first_least(s: Seq<usize>, k: int)
    requires
        0 <= k < s.len(),
        forall|j: int| 0 <= j < s.len() ==> s[k] <= #[trigger] s[j],
        forall|j: int| 0 <= j < k ==> s[k] < #[trigger] s[j],
    ensures
        first_least(s) == Some(k),
{
    law_first_least_is_least(s);
    let m = first_least(s)->0;
    assert(s[k] <= s[m] && s[m] <= s[k]);
    if m < k {
        assert(s[k] < s[m]);
    }
}

/// An evaluation is told with its scenario and what was measured.
pub proof fn law_evaluations_are_told(r: EvalResult, s: ScenarioView, m: EvalMetrics)
    ensures
        tells(result_doc(r), "workspace"@, jstr(r.workspace@)),
        tells(result_doc(r), "scenario"@, scenario_doc(r.scenario@)),
        tells(result_doc(r), "prompt_forecast"@, r.prompt_forecast@),
        tells(result_doc(r), "metrics"@, metrics_doc(r.metrics)),
        tells(scenario_doc(s), "name"@, jstr(s.name)),
        tells(scenario_doc(s), "task"@, jstr(s.task)),
        tells(scenario_doc(s), "turns"@, jnum(s.turns as int)),
        tells(scenario_doc(s), "sequential"@, jbool(s.sequential)),
        tells(scenario_doc(s), "drafter"@, jopt_str(s.drafter)),
        tells(scenario_doc(s), "critic"@, jopt_str(s.critic)),
        tells(scenario_doc(s), "executor"@, jstr(s.executor)),
        tells(metrics_doc(m), "planned_calls"@, jnum(m.planned_calls as int)),
        tells(metrics_doc(m), "worst_case_planned_calls"@, jnum(m.worst_case_planned_calls as int)),
        tells(metrics_doc(m), "known_payload_chars"@, jnum(m.known_payload_chars as int)),
        tells(metrics_doc(m), "estimated_tokens"@, jnum(m.estimated_tokens as int)),
{
    let o = result_doc(r)->Obj_0;
    assert(o[2] == ("workspace"@, jstr(r.workspace@)));
    assert(o[3] == ("scenario"@, scenario_doc(r.scenario@)));
    assert(o[4] == ("prompt_forecast"@, r.prompt_forecast@));
    assert(o[6] == ("metrics"@, metrics_doc(r.metrics)));
    let q = scenario_doc(s)->Obj_0;
    assert(q[0] == ("name"@, jstr(s.name)));
    assert(q[1] == ("task"@, jstr(s.task)));
    assert(q[3] == ("turns"@, jnum(s.turns as int)));
    assert(q[4] == ("sequential"@, jbool(s.sequential)));
    assert(q[5] == ("drafter"@, jopt_str(s.drafter)));
    assert(q[6] == ("critic"@, jopt_str(s.critic)));
    assert(q[7] == ("executor"@, jstr(s.executor)));
    let u = metrics_doc(m)->Obj_0;
    assert(u[0] == ("planned_calls"@, jnum(m.planned_calls as int)));
    assert(u[1] == ("worst_case_planned_calls"@, jnum(m.worst_case_planned_calls as int)));
    assert(u[2] == ("known_payload_chars"@, jnum(m.known_payload_chars as int)));
    assert(u[3] == ("estimated_tokens"@, jnum(m.estimated_tokens as int)));
}

// ---- The doctor ------------------------------------------------------------------

/// The tools that were named are checked, and each must be there; all that are known
/// are only looked for. Without a wish the two planners are checked; both wishes at
/// once are refused.
pub proof fn law_named_tools_are_checked(agents: Seq<Seq<char>>)
    ensures
        agents.len() > 0 ==> targets_of(false, agents) == Some((agents, true)),
        agents.len() > 0 ==> targets_of(true, agents) is None,
        targets_of(true, Seq::empty()) == Some((known_keys(), false)),
        targets_of(false, Seq::empty()) matches Some(t) && t.1 && t.0.len() == 2 && t.0[0]
            == "anthropic"@ && t.0[1] == "codex"@,
{
}

proof fn lemma_failure(keys: Seq<Seq<char>>, strict: bool, found: Seq<FoundBin>, k: int)
    requires
        0 <= k < keys.len(),
        tool_failure(keys[k], strict, found) is Some,
    ensures
        tool_failures(keys, strict, found).contains(tool_failure(keys[k], strict, found)->0),
    decreases keys.len(),
{
    let t = keys.drop_last();
    let f = tool_failure(keys[k], strict, found)->0;
    let all = tool_failures(keys, strict, found);
    if k < t.len() {
        assert(t[k] == keys[k]);
        lemma_failure(t, strict, found, k);
        let b = tool_failures(t, strict, found);
        let m = choose|m: int| 0 <= m < b.len() && b[m] == f;
        assert(all[m] == f);
    } else {
        assert(all[all.len() - 1] == f);
    }
}

/// The doctor fails where a tool that must be there is missing, where a tool is not
/// known, and where the roster itself is not sound; a tool that is only looked for
/// may be missing.
pub proof fn law_the_doctor_finds_what_is_missing(
    targets: Seq<Seq<char>>,
    strict: bool,
    found: Seq<FoundBin>,
    i: int,
)
    requires
        0 <= i < targets.len(),
    ensures
        row_of(targets[i]) is None ==> failures_of(targets, strict, found).len() > 0,
        row_of(targets[i]) matches Some(row) ==> strict && found_path(found, row.bin) is None
            ==> failures_of(targets, strict, found).contains(row.pretty + " CLI missing from PATH"@),
        roster_problem(targets) matches Some(p) ==> failures_of(targets, strict, found).contains(p),
        row_of(targets[i]) is Some && !strict ==> tool_failure(targets[i], strict, found) is None,
{
    let d = distinct_keys(targets);
    let all = failures_of(targets, strict, found);
    let tools = tool_failures(d, strict, found);
    let n: int = if roster_problem(targets) is Some {
        1
    } else {
        0
    };
    lemma_distinct(targets, i);
    let k = choose|k: int| 0 <= k < d.len() && same_ci(#[trigger] d[k], targets[i]);
    assert(row_of(d[k]) == row_of(targets[i]));
    if tool_failure(d[k], strict, found) is Some {
        lemma_failure(d, strict, found, k);
        let f = tool_failure(d[k], strict, found)->0;
        let m = choose|m: int| 0 <= m < tools.len() && tools[m] == f;
        assert(all[n + m] == f);
    }
    if roster_problem(targets) is Some {
        assert(all[0] == roster_problem(targets)->0);
    }
}

/// The doctor's report says that all is well where nothing failed, and only there;
/// and it lists what did.
pub proof fn law_the_doctor_says_what_failed(
    build: BuildRecord,
    cwd: Seq<char>,
    targets: Seq<Seq<char>>,
    strict: bool,
    found: Seq<FoundBin>,
    project_context: Doc,
)
    ensures
        ({
            let d = doctor_doc(build, cwd, targets, strict, found, project_context);
            let f = failures_of(targets, strict, found);
            &&& tells(d, "failures"@, jtexts(f))
            &&& f.len() == 0 ==> tells(d, "status"@, jstr("ok"@))
            &&& f.len() > 0 ==> tells(d, "status"@, jstr("attention_required"@))
            &&& tells(d, "cwd"@, jstr(cwd))
            &&& tells(d, "roster"@, jtexts(targets))
            &&& tells(d, "strict_tools"@, jbool(strict))
            &&& tells(d, "project_context"@, project_context)
        }),
{
    let d = doctor_doc(build, cwd, targets, strict, found, project_context);
    let f = failures_of(targets, strict, found);
    let o = d->Obj_0;
    assert(o[3] == ("cwd"@, jstr(cwd)));
    assert(o[5] == ("strict_tools"@, jbool(strict)));
    assert(o[6] == ("roster"@, jtexts(targets)));
    assert(o[10] == ("project_context"@, project_context));
    assert(o[11] == ("failures"@, jtexts(f)));
    assert(o[12].0 == "status"@);
    assert(f.len() == 0 ==> o[12] == ("status"@, jstr("ok"@)));
    assert(f.len() > 0 ==> o[12] == ("status"@, jstr("attention_required"@)));
}

/// The tools of a roster that is checked are cast in order: the first drafts, the
/// second criticises, the third executes.
pub proof fn law_checked_tools_are_cast_in_order(targets: Seq<Seq<char>>, i: int)
    requires
        0 <= i < targets.len(),
    ensures
        cast_of(targets).len() == targets.len(),
        cast_of(targets)[i].1 == targets[i],
        i == 0 ==> cast_of(targets)[i].0 == "drafter"@,
        i == 1 ==> cast_of(targets)[i].0 == "critic"@,
        i == 2 ==> cast_of(targets)[i].0 == "executor"@,
        i > 2 ==> cast_of(targets)[i].0 == "tool"@,
{
}

// ---- Versions and flags --------------------------------------------------------------

/// A version names the commit that it was built from, where that is told, and says
/// where there was more than that; every tool to connect is handed on, quoted, and so
/// is a task that is not blank.
pub proof fn law_versions_and_flags_hand_on_what_is_told(
    b: BuildRecord,
    connect: Seq<Seq<char>>,
    task: Seq<char>,
    i: int,
)
    ensures
        says(long_version_of(b), VERSION@),
        b.git_sha matches Some(sha) ==> !is_blank(sha@) ==> says(long_version_of(b), sha@),
        b.git_sha is None ==> long_version_of(b) == VERSION@,
        b.git_sha matches Some(sha) ==> b.git_dirty matches Some(d) ==> !is_blank(sha@) && d@
            == "true"@ && !is_blank(d@) ==> says(long_version_of(b), "-dirty"@),
        0 <= i < connect.len() ==> says(connect_flags(connect), shell_quoted(connect[i])),
        !is_blank(task) ==> says(prefill_flag(Some(task)), shell_quoted(trim(task))),
        is_blank(task) ==> prefill_flag(Some(task)).len() == 0,
        prefill_flag(None).len() == 0,
{
    broadcast use group_says;

    let parts = Seq::new(connect.len(), |k: int| " --connect "@ + shell_quoted(connect[k]));
    law_concatenation_keeps_every_part(parts, Seq::empty());
    if 0 <= i < connect.len() {
        lemma_says_all_each(flat(parts), parts, i);
        assert(says(parts[i], shell_quoted(connect[i])));
        lemma_says_through(flat(parts), parts[i], shell_quoted(connect[i]));
    }
}

} // verus!
