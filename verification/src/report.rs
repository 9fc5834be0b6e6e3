//! The report on a run: deterministic, made without model calls.
use vstd::prelude::*;
use crate::arith::capped_size;
use crate::blackboard::{
    by_humans, by_planners, last_human, last_n, last_planner, Blackboard,
    Utterance,
};
use crate::changes::{clean, opt_changes, summary_line_of, LocalChangeSummary};
use crate::conductor::role_name;
use crate::context::{estimated_tokens, tokens_of};
use crate::handoff::{append_recommended, opt_rec, recommended_line};
use crate::json::text;
use crate::numeral::{dec, decimal, decimal_size};
use crate::recommend::{compact_one_line, on_one_line, Recommendation};
use crate::scan::{blank, is_blank, lines, lines_of};
use crate::telemetry::{
    busiest, busiest_entry, cached_input_tokens, cached_total, detail_parts, find_stats,
    input_total, largest_prompt, largest_reported, largest_usage, percent_ratio, ratio_percent,
    reported_input_tokens, stats_of, total_chars, totals, usage_details, CostReport, PromptStats,
};
use crate::text::{join, join_texts, lemma_texts_push, texts};
use crate::usage::{total_of, TokenUsage};

verus! {

/// How an interactive run ended.
#[derive(Debug)]
pub enum RunOutcome {
    /// The discussion finished without entering the execution stage.
    Discussed,
    /// The user confirmed; the executor ran and produced this output.
    Executed { executor: String, output: String },
    /// The user rejected the plan.
    Rejected,
    /// The run was shut down / the command channel closed.
    Aborted,
}

/// Metadata about the cached project context injected into planning prompts.
#[derive(Debug)]
pub struct ProjectContextReport {
    pub cache_hit: bool,
    pub cache_path: String,
    pub chars: usize,
    pub max_files: usize,
    pub max_manifest_chars: usize,
}

/// The context report that an optional reference leads to.
pub open spec fn opt_report(r: Option<&ProjectContextReport>) -> Option<ProjectContextReport> {
    match r {
        Some(r) => Some(*r),
        None => None,
    }
}

/// What is known of a run when it is reported on.
pub struct RunFacts<'a> {
    pub recommendation: Option<&'a Recommendation>,
    pub context_budget_chars: Option<usize>,
    pub project_context: Option<&'a ProjectContextReport>,
    pub local_changes: Option<&'a LocalChangeSummary>,
    pub salvaged_votes: usize,
    pub costs: &'a CostReport,
    pub usage: &'a Vec<(String, TokenUsage)>,
    pub prompts: &'a Vec<(String, PromptStats)>,
    pub phases: &'a Vec<(String, PromptStats)>,
}

// ---- Small texts -----------------------------------------------------------

/// How a run ended, in a word.
pub open spec fn status_word(o: RunOutcome) -> Seq<char> {
    match o {
        RunOutcome::Discussed => "discussed"@,
        RunOutcome::Executed { .. } => "executed"@,
        RunOutcome::Rejected => "rejected"@,
        RunOutcome::Aborted => "aborted"@,
    }
}

pub fn outcome_status(outcome: &RunOutcome) -> (r: &'static str)
    ensures
        r@ == status_word(*outcome),
{
    match outcome {
        RunOutcome::Discussed => "discussed",
        RunOutcome::Executed { .. } => "executed",
        RunOutcome::Rejected => "rejected",
        RunOutcome::Aborted => "aborted",
    }
}

/// What to do next after a run.
pub open spec fn next_step(o: RunOutcome) -> Seq<char> {
    match o {
        RunOutcome::Discussed => "continue planning or run recommendation before execution"@,
        RunOutcome::Executed { .. } => "review executor output and local diff"@,
        RunOutcome::Rejected => "revise the plan with the user before any execution"@,
        RunOutcome::Aborted => "resume from the latest planner output and user direction"@,
    }
}

pub fn resume_next_step(outcome: &RunOutcome) -> (r: &'static str)
    ensures
        r@ == next_step(*outcome),
{
    match outcome {
        RunOutcome::Discussed => "continue planning or run recommendation before execution",
        RunOutcome::Executed { .. } => "review executor output and local diff",
        RunOutcome::Rejected => "revise the plan with the user before any execution",
        RunOutcome::Aborted => "resume from the latest planner output and user direction",
    }
}

/// The lines of a text, each behind two spaces.
pub open spec fn indented(s: Seq<char>) -> Seq<char> {
    let l = lines_of(s);
    join(Seq::new(l.len(), |i: int| "  "@ + l[i]), "\n"@)
}

pub fn indent_block(s: &str) -> (r: String)
    ensures
        r@ == indented(s@),
{
    let all = lines(s);
    let ghost l = lines_of(s@);
    let ghost f = |i: int| "  "@ + l[i];
    let mut out: Vec<String> = Vec::new();
    let mut i: usize = 0;
    while i < all.len()
        invariant
            i <= all.len(),
            texts(all@) == l,
            f == (|i: int| "  "@ + l[i]),
            texts(out@) == Seq::new(i as nat, f),
        decreases all.len() - i,
    {
        let mut line = "  ".to_owned();
        line.append(all[i].as_str());
        proof {
            assert(l[i as int] == all@[i as int]@);
            lemma_texts_push(out@, line);
            assert(Seq::new((i + 1) as nat, f) =~= Seq::new(i as nat, f).push(line@));
        }
        out.push(line);
        i = i + 1;
    }
    proof {
        assert(texts(out@) =~= Seq::new(l.len(), |i: int| "  "@ + l[i]));
    }
    join_texts(&out, "\n")
}

/// The words of a text on one line, cut to a length.
pub fn one_line(s: &str, max_chars: usize) -> (r: String)
    ensures
        r@ == on_one_line(s@, max_chars as nat),
{
    compact_one_line(s, max_chars)
}

/// Whether a project context was found in the cache, in words.
pub open spec fn cache_word(hit: bool) -> Seq<char> {
    if hit {
        "cache hit"@
    } else {
        "rebuilt"@
    }
}

pub fn cache_str(hit: bool) -> (r: &'static str)
    ensures
        r@ == cache_word(hit),
{
    if hit {
        "cache hit"
    } else {
        "rebuilt"
    }
}

// ---- The resume packet -----------------------------------------------------

/// The lines on how a run was executed.
pub open spec fn packet_execution(o: RunOutcome) -> Seq<char> {
    match o {
        RunOutcome::Executed { executor, output } => "- executor: "@ + executor@ + "\n"@ + (
        if is_blank(output@) {
            Seq::empty()
        } else {
            "- executor_output: "@ + on_one_line(output@, 220) + "\n"@
        }),
        _ => Seq::empty(),
    }
}

/// The lines on the recommendation.
pub open spec fn packet_advice(rec: Option<Recommendation>) -> Seq<char> {
    match rec {
        Some(rec) => recommended_line("- recommendation: "@, rec) + (if is_blank(rec.rationale@) {
            Seq::empty()
        } else {
            "- recommendation_rationale: "@ + on_one_line(rec.rationale@, 220) + "\n"@
        }),
        None => Seq::empty(),
    }
}

/// The line on what a human said last.
pub open spec fn packet_note(t: Seq<Utterance>) -> Seq<char> {
    if by_humans(t).len() == 0 {
        Seq::empty()
    } else {
        let u = by_humans(t).last();
        "- latest_human_direction: "@ + u.label@ + ": "@ + on_one_line(u.text@, 220) + "\n"@
    }
}

/// The line on what a planner said last.
pub open spec fn packet_plan(t: Seq<Utterance>) -> Seq<char> {
    if by_planners(t).len() == 0 {
        Seq::empty()
    } else {
        let u = by_planners(t).last();
        "- latest_planner_output: "@ + u.label@ + " ("@ + role_name(u.role) + "): "@ + on_one_line(
            u.text@,
            220,
        ) + "\n"@
    }
}

/// The line on the project context.
pub open spec fn packet_context(ctx: Option<ProjectContextReport>) -> Seq<char> {
    match ctx {
        Some(c) => "- project_context: "@ + cache_word(c.cache_hit) + " ("@ + dec(c.chars as nat)
            + " chars, max_files="@ + dec(c.max_files as nat) + ", max_manifest_chars="@ + dec(
            c.max_manifest_chars as nat,
        ) + ")\n"@,
        None => "- project_context: not injected\n"@,
    }
}

/// The line on the local changes.
pub open spec fn packet_changes(changes: Option<LocalChangeSummary>) -> Seq<char> {
    match changes {
        Some(c) => "- local_changes: "@ + on_one_line(summary_line_of(c), 220) + "\n"@,
        None => "- local_changes: unavailable\n"@,
    }
}

/// What is needed to take a run up again.
pub open spec fn resume_packet(
    task: Seq<char>,
    t: Seq<Utterance>,
    rec: Option<Recommendation>,
    o: RunOutcome,
    ctx: Option<ProjectContextReport>,
    changes: Option<LocalChangeSummary>,
) -> Seq<char> {
    "- task: "@ + on_one_line(task, 220) + "\n"@ + "- status: "@ + status_word(o) + "\n"@
        + packet_execution(o) + packet_advice(rec) + packet_note(t) + packet_plan(t)
        + packet_context(ctx) + packet_changes(changes) + "- next_step: "@ + next_step(o) + "\n"@
}

fn write_packet_execution(o: &RunOutcome) -> (r: String)
    ensures
        r@ == packet_execution(*o),
{
    match o {
        RunOutcome::Executed { executor, output } => {
            let mut out = "- executor: ".to_owned();
            out.append(executor.as_str());
            out.append("\n");
            let mut more = String::new();
            if !blank(output.as_str()) {
                more.append("- executor_output: ");
                more.append(one_line(output.as_str(), 220).as_str());
                more.append("\n");
            }
            proof {
                assert(more@ =~= (if is_blank(output@) {
                    Seq::empty()
                } else {
                    "- executor_output: "@ + on_one_line(output@, 220) + "\n"@
                }));
            }
            out.append(more.as_str());
            out
        },
        _ => String::new(),
    }
}

fn write_packet_advice(rec: Option<&Recommendation>) -> (r: String)
    ensures
        r@ == packet_advice(opt_rec(rec)),
{
    let mut out = String::new();
    if let Some(rec) = rec {
        append_recommended(&mut out, "- recommendation: ", rec);
        proof {
            assert(out@ =~= recommended_line("- recommendation: "@, *rec));
        }
        let mut more = String::new();
        if !blank(rec.rationale.as_str()) {
            more.append("- recommendation_rationale: ");
            more.append(one_line(rec.rationale.as_str(), 220).as_str());
            more.append("\n");
        }
        proof {
            assert(more@ =~= (if is_blank(rec.rationale@) {
                Seq::empty()
            } else {
                "- recommendation_rationale: "@ + on_one_line(rec.rationale@, 220) + "\n"@
            }));
        }
        out.append(more.as_str());
    }
    out
}

proof fn lemma_last_of_one(s: Seq<Utterance>)
    ensures
        last_n(s, 1).len() == (if s.len() == 0 {
            0nat
        } else {
            1nat
        }),
        s.len() > 0 ==> last_n(s, 1)[0] == s.last(),
{
}

fn write_packet_note(t: &Vec<Utterance>) -> (r: String)
    ensures
        r@ == packet_note(t@),
{
    let last = last_human(t, 1);
    proof {
        lemma_last_of_one(by_humans(t@));
    }
    if last.is_empty() {
        return String::new();
    }
    let mut out = "- latest_human_direction: ".to_owned();
    out.append(last[0].label.as_str());
    out.append(": ");
    out.append(one_line(last[0].text.as_str(), 220).as_str());
    out.append("\n");
    out
}

fn write_packet_plan(t: &Vec<Utterance>) -> (r: String)
    ensures
        r@ == packet_plan(t@),
{
    let last = last_planner(t, 1);
    proof {
        lemma_last_of_one(by_planners(t@));
    }
    if last.is_empty() {
        return String::new();
    }
    let mut out = "- latest_planner_output: ".to_owned();
    out.append(last[0].label.as_str());
    out.append(" (");
    out.append(last[0].role.name());
    out.append("): ");
    out.append(one_line(last[0].text.as_str(), 220).as_str());
    out.append("\n");
    out
}

fn write_packet_context(ctx: Option<&ProjectContextReport>) -> (r: String)
    ensures
        r@ == packet_context(opt_report(ctx)),
{
    match ctx {
        Some(c) => {
            let mut out = "- project_context: ".to_owned();
            out.append(cache_str(c.cache_hit));
            out.append(" (");
            out.append(decimal_size(c.chars).as_str());
            out.append(" chars, max_files=");
            out.append(decimal_size(c.max_files).as_str());
            out.append(", max_manifest_chars=");
            out.append(decimal_size(c.max_manifest_chars).as_str());
            out.append(")\n");
            out
        },
        None => "- project_context: not injected\n".to_owned(),
    }
}

fn write_packet_changes(changes: Option<&LocalChangeSummary>) -> (r: String)
    ensures
        r@ == packet_changes(opt_changes(changes)),
{
    match changes {
        Some(c) => {
            let mut out = "- local_changes: ".to_owned();
            out.append(one_line(c.summary_line().as_str(), 220).as_str());
            out.append("\n");
            out
        },
        None => "- local_changes: unavailable\n".to_owned(),
    }
}

/// What is needed to take a run up again.
pub fn compose_resume_packet(
    bb: &Blackboard,
    recommendation: Option<&Recommendation>,
    outcome: &RunOutcome,
    project_context_report: Option<&ProjectContextReport>,
    local_changes: Option<&LocalChangeSummary>,
) -> (r: String)
    ensures
        r@ == resume_packet(
            bb.task@,
            bb.transcript@,
            opt_rec(recommendation),
            *outcome,
            opt_report(project_context_report),
            opt_changes(local_changes),
        ),
{
    let mut out = "- task: ".to_owned();
    out.append(one_line(bb.task.as_str(), 220).as_str());
    out.append("\n");
    out.append("- status: ");
    out.append(outcome_status(outcome));
    out.append("\n");
    out.append(write_packet_execution(outcome).as_str());
    out.append(write_packet_advice(recommendation).as_str());
    out.append(write_packet_note(&bb.transcript).as_str());
    out.append(write_packet_plan(&bb.transcript).as_str());
    out.append(write_packet_context(project_context_report).as_str());
    out.append(write_packet_changes(local_changes).as_str());
    out.append("- next_step: ");
    out.append(resume_next_step(outcome));
    out.append("\n");
    out
}

// ---- Optimization hints ----------------------------------------------------

/// The hint on the cache of the project context.
pub open spec fn hint_cache(ctx: Option<ProjectContextReport>) -> Seq<char> {
    match ctx {
        Some(c) => if c.cache_hit {
            "- project_context_cache: hit; first-turn orientation reused the cached repo map.\n"@
        } else {
            "- project_context_cache: rebuilt; an unchanged next run should be cheaper from cache.\n"@
        },
        None =>
            "- project_context_cache: off; enable cached project context when agents need repo orientation.\n"@,
    }
}

fn write_hint_cache(ctx: Option<&ProjectContextReport>) -> (r: &'static str)
    ensures
        r@ == hint_cache(opt_report(ctx)),
{
    match ctx {
        Some(c) => if c.cache_hit {
            "- project_context_cache: hit; first-turn orientation reused the cached repo map.\n"
        } else {
            "- project_context_cache: rebuilt; an unchanged next run should be cheaper from cache.\n"
        },
        None =>
            "- project_context_cache: off; enable cached project context when agents need repo orientation.\n",
    }
}

/// The hint on the local changes.
pub open spec fn hint_changes(changes: Option<LocalChangeSummary>) -> Seq<char> {
    match changes {
        Some(c) => if !clean(c) {
            "- local_changes: execution handoff included "@ + summary_line_of(c)
                + "; this avoids rediscovering the dirty tree and helps preserve unrelated work.\n"@
        } else {
            "- local_changes: clean; no dirty-tree handoff context was needed beyond the status line.\n"@
        },
        None =>
            "- local_changes: unavailable; run inside a git repository for cheaper dirty-tree handoffs.\n"@,
    }
}

fn write_hint_changes(changes: Option<&LocalChangeSummary>) -> (r: String)
    ensures
        r@ == hint_changes(opt_changes(changes)),
{
    match changes {
        Some(c) => if !c.is_clean() {
            let mut out = "- local_changes: execution handoff included ".to_owned();
            out.append(c.summary_line().as_str());
            out.append(
                "; this avoids rediscovering the dirty tree and helps preserve unrelated work.\n",
            );
            out
        } else {
            "- local_changes: clean; no dirty-tree handoff context was needed beyond the status line.\n".to_owned()
        },
        None =>
            "- local_changes: unavailable; run inside a git repository for cheaper dirty-tree handoffs.\n".to_owned(),
    }
}

/// The hint on the agent that reported the most tokens.
pub open spec fn hint_largest_usage(usage: Seq<(String, TokenUsage)>) -> Seq<char> {
    match largest_usage(usage) {
        Some(k) => {
            let details = detail_parts(usage[k].1);
            "- provider_tokens: largest reported usage was "@ + usage[k].0@ + " with "@ + dec(
                total_of(usage[k].1)->0 as nat,
            ) + " token(s)"@ + (if details.len() == 0 {
                Seq::empty()
            } else {
                " ("@ + join(details, ", "@) + ")"@
            }) + ".\n"@
        },
        None => Seq::empty(),
    }
}

fn write_hint_largest_usage(usage: &Vec<(String, TokenUsage)>) -> (r: String)
    ensures
        r@ == hint_largest_usage(usage@),
{
    match largest_reported(usage) {
        Some((k, n)) => {
            let details = usage_details(&usage[k].1);
            proof {
                assert(texts(details@).len() == details@.len());
            }
            let mut more = String::new();
            if !details.is_empty() {
                more.append(" (");
                more.append(join_texts(&details, ", ").as_str());
                more.append(")");
            }
            proof {
                let d = detail_parts(usage@[k as int].1);
                assert(more@ =~= (if d.len() == 0 {
                    Seq::empty()
                } else {
                    " ("@ + join(d, ", "@) + ")"@
                }));
            }
            let mut out = "- provider_tokens: largest reported usage was ".to_owned();
            out.append(usage[k].0.as_str());
            out.append(" with ");
            out.append(decimal(n).as_str());
            out.append(" token(s)");
            out.append(more.as_str());
            out.append(".\n");
            out
        },
        None => String::new(),
    }
}

/// The hint on cached input tokens.
pub open spec fn hint_provider_cache(usage: Seq<(String, TokenUsage)>) -> Seq<char> {
    if cached_total(usage) > 0 {
        "- provider_cache: adapters reported "@ + dec(cached_total(usage))
            + " cached input token(s); resumed/provider-side caching is reducing prompt reprocessing where supported.\n"@
    } else if usage.len() > 0 {
        "- provider_cache: no cached input tokens were reported; favor resumable adapters and stable prefixes when provider caching is available.\n"@
    } else {
        Seq::empty()
    }
}

fn write_hint_provider_cache(usage: &Vec<(String, TokenUsage)>) -> (r: String)
    ensures
        r@ == hint_provider_cache(usage@),
{
    let cached: u64 = cached_input_tokens(usage);
    if cached > 0 {
        let mut out = "- provider_cache: adapters reported ".to_owned();
        out.append(decimal(cached).as_str());
        out.append(
            " cached input token(s); resumed/provider-side caching is reducing prompt reprocessing where supported.\n",
        );
        out
    } else if !usage.is_empty() {
        "- provider_cache: no cached input tokens were reported; favor resumable adapters and stable prefixes when provider caching is available.\n".to_owned()
    } else {
        String::new()
    }
}

/// The hint on how the estimate compares with what the provider counted.
pub open spec fn hint_calibration(usage: Seq<(String, TokenUsage)>, chars: nat) -> Seq<char> {
    match input_total(usage) {
        Some(input) => {
            let ratio = percent_ratio(input, tokens_of(chars) as u64);
            "- provider_input_calibration: provider input tokens were "@ + dec(ratio as nat) + (
            if ratio >= 200 {
                "% of the local prompt estimate; resumed session/tool context likely dominates actual usage.\n"@
            } else if ratio <= 50 {
                "% of the local prompt estimate; local chars/4 estimates are conservative for this run.\n"@
            } else {
                "% of the local prompt estimate; local forecasting is reasonably aligned.\n"@
            })
        },
        None => Seq::empty(),
    }
}

fn write_hint_calibration(usage: &Vec<(String, TokenUsage)>, chars: usize) -> (r: String)
    ensures
        r@ == hint_calibration(usage@, chars as nat),
{
    match reported_input_tokens(usage) {
        Some(input) => {
            let ratio: u64 = ratio_percent(input, estimated_tokens(chars) as u64);
            let mut out =
                "- provider_input_calibration: provider input tokens were ".to_owned();
            out.append(decimal(ratio).as_str());
            if ratio >= 200 {
                out.append(
                    "% of the local prompt estimate; resumed session/tool context likely dominates actual usage.\n",
                );
            } else if ratio <= 50 {
                out.append(
                    "% of the local prompt estimate; local chars/4 estimates are conservative for this run.\n",
                );
            } else {
                out.append(
                    "% of the local prompt estimate; local forecasting is reasonably aligned.\n",
                );
            }
            out
        },
        None => String::new(),
    }
}

/// The hint on the agent that was sent the most.
pub open spec fn hint_busiest_agent(prompts: Seq<(String, PromptStats)>) -> Seq<char> {
    match busiest(prompts) {
        Some(k) => "- largest_agent_prompt_spend: "@ + prompts[k].0@ + " sent "@ + dec(
            prompts[k].1.chars_sent as nat,
        ) + " chars (~"@ + dec(tokens_of(prompts[k].1.chars_sent as nat)) + " tokens) across "@
            + dec(prompts[k].1.prompts as nat) + " prompt(s).\n"@,
        None => Seq::empty(),
    }
}

fn write_hint_busiest_agent(prompts: &Vec<(String, PromptStats)>) -> (r: String)
    ensures
        r@ == hint_busiest_agent(prompts@),
{
    match busiest_entry(prompts) {
        Some(k) => {
            let mut out = "- largest_agent_prompt_spend: ".to_owned();
            out.append(prompts[k].0.as_str());
            out.append(" sent ");
            out.append(decimal_size(prompts[k].1.chars_sent).as_str());
            out.append(" chars (~");
            out.append(decimal_size(estimated_tokens(prompts[k].1.chars_sent)).as_str());
            out.append(" tokens) across ");
            out.append(decimal_size(prompts[k].1.prompts).as_str());
            out.append(" prompt(s).\n");
            out
        },
        None => String::new(),
    }
}

/// The hint on the phase in which the most was sent.
pub open spec fn hint_busiest_phase(phases: Seq<(String, PromptStats)>) -> Seq<char> {
    match busiest(phases) {
        Some(k) => "- largest_phase_prompt_spend: "@ + phases[k].0@ + " sent "@ + dec(
            phases[k].1.chars_sent as nat,
        ) + " chars (~"@ + dec(tokens_of(phases[k].1.chars_sent as nat)) + " tokens).\n"@,
        None => Seq::empty(),
    }
}

fn write_hint_busiest_phase(phases: &Vec<(String, PromptStats)>) -> (r: String)
    ensures
        r@ == hint_busiest_phase(phases@),
{
    match busiest_entry(phases) {
        Some(k) => {
            let mut out = "- largest_phase_prompt_spend: ".to_owned();
            out.append(phases[k].0.as_str());
            out.append(" sent ");
            out.append(decimal_size(phases[k].1.chars_sent).as_str());
            out.append(" chars (~");
            out.append(decimal_size(estimated_tokens(phases[k].1.chars_sent)).as_str());
            out.append(" tokens).\n");
            out
        },
        None => String::new(),
    }
}

/// The hint on the budget for context.
pub open spec fn hint_budget(budget: Option<usize>, largest: usize) -> Seq<char> {
    match budget {
        Some(b) => if largest >= capped_size(b * 9) / 10 {
            "- context_budget: largest prompt used at least 90% of the cap; lower project-context budgets or keep more agents resumable.\n"@
        } else if largest <= b / 2 {
            "- context_budget: largest prompt stayed under half the cap; current budget has room.\n"@
        } else {
            "- context_budget: prompt sizes stayed within the configured cap.\n"@
        },
        None =>
            "- context_budget: unlimited; set a context budget for cheaper stateless adapters on long sessions.\n"@,
    }
}

fn write_hint_budget(budget: Option<usize>, largest: usize) -> (r: &'static str)
    ensures
        r@ == hint_budget(budget, largest),
{
    match budget {
        Some(b) => if largest >= crate::arith::saturating_product(b, 9) / 10 {
            "- context_budget: largest prompt used at least 90% of the cap; lower project-context budgets or keep more agents resumable.\n"
        } else if largest <= b / 2 {
            "- context_budget: largest prompt stayed under half the cap; current budget has room.\n"
        } else {
            "- context_budget: prompt sizes stayed within the configured cap.\n"
        },
        None =>
            "- context_budget: unlimited; set a context budget for cheaper stateless adapters on long sessions.\n",
    }
}

/// The hint on votes that had to be asked for again.
pub open spec fn hint_repair(phases: Seq<(String, PromptStats)>) -> Seq<char> {
    match stats_of(phases, "vote_repair"@) {
        Some(s) => "- structured_output: vote repair cost "@ + dec(s.prompts as nat)
            + " extra prompt(s) (~"@ + dec(tokens_of(s.chars_sent as nat))
            + " tokens); prefer tools/models that follow JSON-only votes reliably.\n"@,
        None => Seq::empty(),
    }
}

fn write_hint_repair(phases: &Vec<(String, PromptStats)>) -> (r: String)
    ensures
        r@ == hint_repair(phases@),
{
    match find_stats(phases, "vote_repair") {
        Some(s) => {
            let mut out = "- structured_output: vote repair cost ".to_owned();
            out.append(decimal_size(s.prompts).as_str());
            out.append(" extra prompt(s) (~");
            out.append(decimal_size(estimated_tokens(s.chars_sent)).as_str());
            out.append(" tokens); prefer tools/models that follow JSON-only votes reliably.\n");
            out
        },
        None => String::new(),
    }
}

/// The hint on votes that were read from prose.
pub open spec fn hint_salvaged(n: nat) -> Seq<char> {
    if n > 0 {
        "- structured_output: salvaged "@ + dec(n)
            + " prose vote(s) from unambiguous candidate mentions, avoiding up to "@ + dec(n)
            + " repair prompt(s); structured-capable tools should still emit JSON.\n"@
    } else {
        Seq::empty()
    }
}

fn write_hint_salvaged(n: usize) -> (r: String)
    ensures
        r@ == hint_salvaged(n as nat),
{
    if n > 0 {
        let mut out = "- structured_output: salvaged ".to_owned();
        out.append(decimal_size(n).as_str());
        out.append(" prose vote(s) from unambiguous candidate mentions, avoiding up to ");
        out.append(decimal_size(n).as_str());
        out.append(" repair prompt(s); structured-capable tools should still emit JSON.\n");
        out
    } else {
        String::new()
    }
}

/// The hint on how much of what was sent went into voting.
pub open spec fn hint_voting(phases: Seq<(String, PromptStats)>, chars: nat) -> Seq<char> {
    let spent = match stats_of(phases, "recommendation_vote"@) {
        Some(s) => s.chars_sent,
        None => 0,
    };
    if chars > 0 && capped_size(spent * 3) > chars {
        "- recommendation_vote: voting was a large share of prompt spend; keep the executor roster tight for cheaper decisions.\n"@
    } else {
        Seq::empty()
    }
}

fn write_hint_voting(phases: &Vec<(String, PromptStats)>, chars: usize) -> (r: String)
    ensures
        r@ == hint_voting(phases@, chars as nat),
{
    let spent: usize = match find_stats(phases, "recommendation_vote") {
        Some(s) => s.chars_sent,
        None => 0,
    };
    if chars > 0 && crate::arith::saturating_product(spent, 3) > chars {
        "- recommendation_vote: voting was a large share of prompt spend; keep the executor roster tight for cheaper decisions.\n".to_owned()
    } else {
        String::new()
    }
}

/// The hints that do not need prompts to have been counted.
pub open spec fn first_hints(
    ctx: Option<ProjectContextReport>,
    changes: Option<LocalChangeSummary>,
    usage: Seq<(String, TokenUsage)>,
) -> Seq<char> {
    hint_cache(ctx) + hint_changes(changes) + hint_largest_usage(usage) + hint_provider_cache(usage)
}

/// The hints on how the next run can be cheaper.
pub open spec fn optimization_hints(
    budget: Option<usize>,
    ctx: Option<ProjectContextReport>,
    changes: Option<LocalChangeSummary>,
    salvaged: nat,
    usage: Seq<(String, TokenUsage)>,
    prompts: Seq<(String, PromptStats)>,
    phases: Seq<(String, PromptStats)>,
) -> Seq<char> {
    let first = first_hints(ctx, changes, usage);
    if prompts.len() == 0 {
        first + "- prompt_budget: no prompt telemetry was recorded for this run.\n"@
    } else {
        first + hint_calibration(usage, total_chars(prompts)) + hint_busiest_agent(prompts)
            + hint_busiest_phase(phases) + hint_budget(budget, largest_prompt(prompts))
            + hint_repair(phases) + hint_salvaged(salvaged) + hint_voting(
            phases,
            total_chars(prompts),
        )
    }
}

/// The hints on how the next run can be cheaper.
pub fn compose_optimization_hints(facts: &RunFacts) -> (r: String)
    ensures
        r@ == optimization_hints(
            facts.context_budget_chars,
            opt_report(facts.project_context),
            opt_changes(facts.local_changes),
            facts.salvaged_votes as nat,
            facts.usage@,
            facts.prompts@,
            facts.phases@,
        ),
{
    let mut hints = write_hint_cache(facts.project_context).to_owned();
    hints.append(write_hint_changes(facts.local_changes).as_str());
    hints.append(write_hint_largest_usage(facts.usage).as_str());
    hints.append(write_hint_provider_cache(facts.usage).as_str());
    if facts.prompts.is_empty() {
        hints.append("- prompt_budget: no prompt telemetry was recorded for this run.\n");
        return hints;
    }
    let sent = totals(facts.prompts);
    hints.append(write_hint_calibration(facts.usage, sent.chars_sent).as_str());
    hints.append(write_hint_busiest_agent(facts.prompts).as_str());
    hints.append(write_hint_busiest_phase(facts.phases).as_str());
    hints.append(write_hint_budget(facts.context_budget_chars, sent.max_chars));
    hints.append(write_hint_repair(facts.phases).as_str());
    hints.append(write_hint_salvaged(facts.salvaged_votes).as_str());
    hints.append(write_hint_voting(facts.phases, sent.chars_sent).as_str());
    hints
}

} // verus!
