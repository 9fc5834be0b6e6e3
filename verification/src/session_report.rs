//! The report on a session, for people and for programs.
use vstd::prelude::*;
use crate::blackboard::{last_human, last_planner, transcript_chars, Blackboard, Utterance};
use crate::changes::{handoff_text, opt_changes, LocalChangeSummary};
use crate::conductor::role_name;
use crate::context::{bounded, bounded_context, estimated_tokens, tokens_of};
use crate::handoff::{
    append_recommended, opt_rec, recent_notes, recent_outputs, recommended_line, score_texts,
    write_scores,
};
use crate::json::text;
use crate::numeral::{dec, decimal, decimal_size};
use crate::recommend::{on_one_line, Measure, Recommendation};
use crate::report::{
    cache_str, cache_word, compose_optimization_hints, compose_resume_packet, indent_block,
    indented, one_line, opt_report, optimization_hints, resume_packet, ProjectContextReport,
    RunFacts, RunOutcome,
};
use crate::scan::{blank, is_blank, trim, trimmed};
use crate::telemetry::{
    format_token_usage_line, input_total, largest_prompt, percent_ratio, ratio_percent,
    reported_input_tokens, stats_line, total_chars, total_prompts, total_usage, totals, usage_line,
    usage_total, write_stats_line, CostReport, PromptStats,
};
use crate::text::{flat, join, lemma_flat_push};
use crate::usage::TokenUsage;

verus! {

// ---- The report ------------------------------------------------------------

/// The section on how a run ended.
pub open spec fn outcome_section(o: RunOutcome, budget: Option<usize>) -> Seq<char> {
    match o {
        RunOutcome::Discussed => "- status: discussed\n"@,
        RunOutcome::Executed { executor, output } => "- status: executed\n- executor: "@ + executor@
            + "\n"@ + (if is_blank(output@) {
            Seq::empty()
        } else {
            "- executor output:\n"@ + indented(
                bounded(
                    output@,
                    if budget.is_some() {
                        budget
                    } else {
                        Some(4_000)
                    },
                ),
            ) + "\n"@
        }),
        RunOutcome::Rejected => "- status: rejected by user\n"@,
        RunOutcome::Aborted => "- status: aborted\n"@,
    }
}

fn write_outcome_section(o: &RunOutcome, budget: Option<usize>) -> (r: String)
    ensures
        r@ == outcome_section(*o, budget),
{
    match o {
        RunOutcome::Discussed => "- status: discussed\n".to_owned(),
        RunOutcome::Executed { executor, output } => {
            let mut more = String::new();
            if !blank(output.as_str()) {
                let limit = if budget.is_some() {
                    budget
                } else {
                    Some(4_000)
                };
                more.append("- executor output:\n");
                more.append(
                    indent_block(bounded_context(output.as_str(), limit).as_str()).as_str(),
                );
                more.append("\n");
                proof {
                    assert(more@ =~= "- executor output:\n"@ + indented(bounded(output@, limit))
                        + "\n"@);
                }
            }
            let mut out = "- status: executed\n- executor: ".to_owned();
            out.append(executor.as_str());
            out.append("\n");
            out.append(more.as_str());
            out
        },
        RunOutcome::Rejected => "- status: rejected by user\n".to_owned(),
        RunOutcome::Aborted => "- status: aborted\n".to_owned(),
    }
}

/// The section on the recommendation.
pub open spec fn advice_section(rec: Option<Recommendation>) -> Seq<char> {
    match rec {
        Some(rec) => "\n## Recommendation\n"@ + recommended_line("- recommended: "@, rec) + (
        if rec.scores@.len() == 0 {
            Seq::empty()
        } else {
            "- scores: "@ + join(score_texts(rec.scores@), ", "@) + "\n"@
        }) + (if is_blank(rec.rationale@) {
            Seq::empty()
        } else {
            "- rationale:\n"@ + indented(bounded(trim(rec.rationale@), Some(2_000))) + "\n"@
        }),
        None => Seq::empty(),
    }
}

fn write_advice_section(rec: Option<&Recommendation>) -> (r: String)
    ensures
        r@ == advice_section(opt_rec(rec)),
{
    match rec {
        Some(rec) => {
            let mut out = "\n## Recommendation\n".to_owned();
            append_recommended(&mut out, "- recommended: ", rec);
            let mut scores = String::new();
            if !rec.scores.is_empty() {
                scores.append("- scores: ");
                scores.append(write_scores(&rec.scores).as_str());
                scores.append("\n");
                proof {
                    assert(scores@ =~= "- scores: "@ + join(score_texts(rec.scores@), ", "@)
                        + "\n"@);
                }
            }
            out.append(scores.as_str());
            let mut why = String::new();
            if !blank(rec.rationale.as_str()) {
                why.append("- rationale:\n");
                let cut = bounded_context(trimmed(rec.rationale.as_str()).as_str(), Some(2_000));
                why.append(indent_block(cut.as_str()).as_str());
                why.append("\n");
                proof {
                    assert(why@ =~= "- rationale:\n"@ + indented(
                        bounded(trim(rec.rationale@), Some(2_000)),
                    ) + "\n"@);
                }
            }
            out.append(why.as_str());
            out
        },
        None => String::new(),
    }
}

/// The section on the project context.
pub open spec fn context_section(ctx: Option<ProjectContextReport>) -> Seq<char> {
    "\n## Project context\n"@ + (match ctx {
        Some(c) => "- status: injected ("@ + cache_word(c.cache_hit) + ")\n- cache_path: "@
            + c.cache_path@ + "\n- chars: "@ + dec(c.chars as nat) + "\n- budgets: max_files="@
            + dec(c.max_files as nat) + ", max_manifest_chars="@ + dec(c.max_manifest_chars as nat)
            + "\n"@,
        None => "- status: not injected\n"@,
    })
}

fn write_context_section(ctx: Option<&ProjectContextReport>) -> (r: String)
    ensures
        r@ == context_section(opt_report(ctx)),
{
    let mut body = String::new();
    match ctx {
        Some(c) => {
            body = "- status: injected (".to_owned();
            body.append(cache_str(c.cache_hit));
            body.append(")\n- cache_path: ");
            body.append(c.cache_path.as_str());
            body.append("\n- chars: ");
            body.append(decimal_size(c.chars).as_str());
            body.append("\n- budgets: max_files=");
            body.append(decimal_size(c.max_files).as_str());
            body.append(", max_manifest_chars=");
            body.append(decimal_size(c.max_manifest_chars).as_str());
            body.append("\n");
        },
        None => {
            body = "- status: not injected\n".to_owned();
        },
    }
    let mut out = "\n## Project context\n".to_owned();
    out.append(body.as_str());
    out
}

/// The section on the local changes.
pub open spec fn changes_section(changes: Option<LocalChangeSummary>) -> Seq<char> {
    "\n## Local changes\n"@ + (match changes {
        Some(c) => handoff_text(c),
        None => "- status: unavailable (not a git repository or git unavailable)\n"@,
    })
}

fn write_changes_section(changes: Option<&LocalChangeSummary>) -> (r: String)
    ensures
        r@ == changes_section(opt_changes(changes)),
{
    let mut out = "\n## Local changes\n".to_owned();
    match changes {
        Some(c) => out.append(c.to_handoff_text().as_str()),
        None => out.append("- status: unavailable (not a git repository or git unavailable)\n"),
    }
    out
}

/// The line on what an agent cost.
pub open spec fn cost_line(entry: (String, Measure)) -> Seq<char> {
    "- "@ + entry.0@ + ": $"@ + entry.1.shown@ + "\n"@
}

/// The lines on what the agents cost.
pub open spec fn cost_lines(entries: Seq<(String, Measure)>) -> Seq<char> {
    flat(Seq::new(entries.len(), |i: int| cost_line(entries[i])))
}

/// The section on costs.
pub open spec fn cost_section(costs: CostReport) -> Seq<char> {
    "\n## Reported cost\n"@ + (if costs.entries@.len() == 0 {
        "- usd: unavailable (no adapter reported machine-readable USD for this run)\n"@
    } else {
        "- reported_total_usd: $"@ + costs.total.shown@
            + "\n- note: values are latest session-cumulative adapter totals, summed per agent\n"@
            + cost_lines(costs.entries@)
    })
}

fn write_cost_lines(entries: &Vec<(String, Measure)>) -> (r: String)
    ensures
        r@ == cost_lines(entries@),
{
    let ghost f = |k: int| cost_line(entries@[k]);
    let mut out = String::new();
    let mut i: usize = 0;
    while i < entries.len()
        invariant
            i <= entries.len(),
            f == (|k: int| cost_line(entries@[k])),
            out@ == flat(Seq::new(i as nat, f)),
        decreases entries.len() - i,
    {
        let ghost mid = out@;
        out.append("- ");
        out.append(entries[i].0.as_str());
        out.append(": $");
        out.append(entries[i].1.shown.as_str());
        out.append("\n");
        proof {
            let done = Seq::new(i as nat, f);
            lemma_flat_push(done, f(i as int));
            assert(Seq::new((i + 1) as nat, f) =~= done.push(f(i as int)));
            assert(out@ =~= mid + f(i as int));
        }
        i = i + 1;
    }
    proof {
        assert(Seq::new(i as nat, f) =~= Seq::new(entries@.len(), |k: int| cost_line(entries@[k])));
    }
    out
}

fn write_cost_section(costs: &CostReport) -> (r: String)
    ensures
        r@ == cost_section(*costs),
{
    let mut body = String::new();
    if costs.entries.is_empty() {
        body =
        "- usd: unavailable (no adapter reported machine-readable USD for this run)\n".to_owned();
    } else {
        body = "- reported_total_usd: $".to_owned();
        body.append(costs.total.shown.as_str());
        body.append(
            "\n- note: values are latest session-cumulative adapter totals, summed per agent\n",
        );
        body.append(write_cost_lines(&costs.entries).as_str());
    }
    let mut out = "\n## Reported cost\n".to_owned();
    out.append(body.as_str());
    out
}

/// The lines on the tokens that agents reported.
pub open spec fn usage_lines(usage: Seq<(String, TokenUsage)>) -> Seq<char> {
    flat(Seq::new(usage.len(), |i: int| usage_line(usage[i].0@, usage[i].1)))
}

/// The section on tokens.
pub open spec fn usage_section(usage: Seq<(String, TokenUsage)>) -> Seq<char> {
    "\n## Reported token usage\n"@ + (if usage.len() == 0 {
        "- tokens: unavailable (no adapter reported machine-readable token usage)\n"@
    } else {
        usage_line("reported_total"@, usage_total(usage)) + usage_lines(usage)
    })
}

fn write_usage_lines(usage: &Vec<(String, TokenUsage)>) -> (r: String)
    ensures
        r@ == usage_lines(usage@),
{
    let ghost f = |k: int| usage_line(usage@[k].0@, usage@[k].1);
    let mut out = String::new();
    let mut i: usize = 0;
    while i < usage.len()
        invariant
            i <= usage.len(),
            f == (|k: int| usage_line(usage@[k].0@, usage@[k].1)),
            out@ == flat(Seq::new(i as nat, f)),
        decreases usage.len() - i,
    {
        proof {
            let done = Seq::new(i as nat, f);
            lemma_flat_push(done, f(i as int));
            assert(Seq::new((i + 1) as nat, f) =~= done.push(f(i as int)));
        }
        out.append(format_token_usage_line(usage[i].0.as_str(), usage[i].1).as_str());
        i = i + 1;
    }
    proof {
        assert(Seq::new(i as nat, f) =~= Seq::new(
            usage@.len(),
            |k: int| usage_line(usage@[k].0@, usage@[k].1),
        ));
    }
    out
}

fn write_usage_section(usage: &Vec<(String, TokenUsage)>) -> (r: String)
    ensures
        r@ == usage_section(usage@),
{
    let mut body = String::new();
    if usage.is_empty() {
        body =
        "- tokens: unavailable (no adapter reported machine-readable token usage)\n".to_owned();
    } else {
        body = format_token_usage_line("reported_total", total_usage(usage));
        body.append(write_usage_lines(usage).as_str());
    }
    let mut out = "\n## Reported token usage\n".to_owned();
    out.append(body.as_str());
    out
}

/// The line on the budget for context.
pub open spec fn budget_line(budget: Option<usize>) -> Seq<char> {
    match budget {
        Some(b) => "- context_budget_chars: "@ + dec(b as nat) + " (~"@ + dec(tokens_of(b as nat))
            + " tokens)\n"@,
        None => "- context_budget_chars: unlimited\n"@,
    }
}

fn write_budget_line(budget: Option<usize>) -> (r: String)
    ensures
        r@ == budget_line(budget),
{
    match budget {
        Some(b) => {
            let mut out = "- context_budget_chars: ".to_owned();
            out.append(decimal_size(b).as_str());
            out.append(" (~");
            out.append(decimal_size(estimated_tokens(b)).as_str());
            out.append(" tokens)\n");
            out
        },
        None => "- context_budget_chars: unlimited\n".to_owned(),
    }
}

/// The line that compares the provider's count with the estimate.
pub open spec fn provider_line(usage: Seq<(String, TokenUsage)>, chars: nat) -> Seq<char> {
    match input_total(usage) {
        Some(input) => "- provider_input_tokens: "@ + dec(input as nat)
            + " (local_prompt_estimate: ~"@ + dec(tokens_of(chars)) + ", ratio: "@ + dec(
            percent_ratio(input, tokens_of(chars) as u64) as nat,
        ) + "%)\n"@,
        None => Seq::empty(),
    }
}

fn write_provider_line(usage: &Vec<(String, TokenUsage)>, chars: usize) -> (r: String)
    ensures
        r@ == provider_line(usage@, chars as nat),
{
    match reported_input_tokens(usage) {
        Some(input) => {
            let estimate: usize = estimated_tokens(chars);
            let mut out = "- provider_input_tokens: ".to_owned();
            out.append(decimal(input).as_str());
            out.append(" (local_prompt_estimate: ~");
            out.append(decimal_size(estimate).as_str());
            out.append(", ratio: ");
            out.append(decimal(ratio_percent(input, estimate as u64)).as_str());
            out.append("%)\n");
            out
        },
        None => String::new(),
    }
}

/// The lines on the prompts under each label.
pub open spec fn stats_lines(s: Seq<(String, PromptStats)>) -> Seq<char> {
    flat(Seq::new(s.len(), |i: int| stats_line(s[i].0@, s[i].1)))
}

fn write_stats_lines(s: &Vec<(String, PromptStats)>) -> (r: String)
    ensures
        r@ == stats_lines(s@),
{
    let ghost f = |k: int| stats_line(s@[k].0@, s@[k].1);
    let mut out = String::new();
    let mut i: usize = 0;
    while i < s.len()
        invariant
            i <= s.len(),
            f == (|k: int| stats_line(s@[k].0@, s@[k].1)),
            out@ == flat(Seq::new(i as nat, f)),
        decreases s.len() - i,
    {
        proof {
            let done = Seq::new(i as nat, f);
            lemma_flat_push(done, f(i as int));
            assert(Seq::new((i + 1) as nat, f) =~= done.push(f(i as int)));
        }
        out.append(write_stats_line(s[i].0.as_str(), s[i].1).as_str());
        i = i + 1;
    }
    proof {
        assert(Seq::new(i as nat, f) =~= Seq::new(
            s@.len(),
            |k: int| stats_line(s@[k].0@, s@[k].1),
        ));
    }
    out
}

pub const ESTIMATE_NOTE: &'static str = "- note: token estimates use a local chars/4 heuristic before model calls; excludes provider-side resumed session memory and media tokenization\n";

/// The lines on the prompts that were sent in all.
pub open spec fn sent_lines(prompts: Seq<(String, PromptStats)>) -> Seq<char> {
    let chars = total_chars(prompts);
    let most = largest_prompt(prompts) as nat;
    "- prompts_sent: "@ + dec(total_prompts(prompts)) + "\n- prompt_chars_sent: "@ + dec(chars)
        + "\n- prompt_tokens_estimate: ~"@ + dec(tokens_of(chars)) + "\n- max_prompt_chars: "@ + dec(
        most,
    ) + "\n- max_prompt_tokens_estimate: ~"@ + dec(tokens_of(most)) + "\n"@
}

fn write_sent_lines(sent: PromptStats, Ghost(prompts): Ghost<Seq<(String, PromptStats)>>) -> (r:
    String)
    requires
        sent.prompts == total_prompts(prompts),
        sent.chars_sent == total_chars(prompts),
        sent.max_chars == largest_prompt(prompts),
    ensures
        r@ == sent_lines(prompts),
{
    let mut out = "- prompts_sent: ".to_owned();
    out.append(decimal_size(sent.prompts).as_str());
    out.append("\n- prompt_chars_sent: ");
    out.append(decimal_size(sent.chars_sent).as_str());
    out.append("\n- prompt_tokens_estimate: ~");
    out.append(decimal_size(estimated_tokens(sent.chars_sent)).as_str());
    out.append("\n- max_prompt_chars: ");
    out.append(decimal_size(sent.max_chars).as_str());
    out.append("\n- max_prompt_tokens_estimate: ~");
    out.append(decimal_size(estimated_tokens(sent.max_chars)).as_str());
    out.append("\n");
    out
}

/// The section on the prompts by phase.
pub open spec fn phase_section(phases: Seq<(String, PromptStats)>) -> Seq<char> {
    if phases.len() == 0 {
        Seq::empty()
    } else {
        "\n## Prompt phase breakdown\n"@ + stats_lines(phases)
    }
}

/// The sections on the prompts.
pub open spec fn prompt_section(
    budget: Option<usize>,
    usage: Seq<(String, TokenUsage)>,
    prompts: Seq<(String, PromptStats)>,
    phases: Seq<(String, PromptStats)>,
) -> Seq<char> {
    "\n## Prompt telemetry\n"@ + (if prompts.len() == 0 {
        "- prompts_sent: 0\n"@
    } else {
        sent_lines(prompts) + budget_line(budget) + ESTIMATE_NOTE@ + provider_line(
            usage,
            total_chars(prompts),
        ) + stats_lines(prompts) + phase_section(phases)
    })
}

fn write_prompt_section(facts: &RunFacts) -> (r: String)
    ensures
        r@ == prompt_section(
            facts.context_budget_chars,
            facts.usage@,
            facts.prompts@,
            facts.phases@,
        ),
{
    let mut body = String::new();
    if facts.prompts.is_empty() {
        body = "- prompts_sent: 0\n".to_owned();
    } else {
        let sent = totals(facts.prompts);
        body = write_sent_lines(sent, Ghost(facts.prompts@));
        body.append(write_budget_line(facts.context_budget_chars).as_str());
        body.append(ESTIMATE_NOTE);
        body.append(write_provider_line(facts.usage, sent.chars_sent).as_str());
        body.append(write_stats_lines(facts.prompts).as_str());
        let mut by_phase = String::new();
        if !facts.phases.is_empty() {
            by_phase = "\n## Prompt phase breakdown\n".to_owned();
            by_phase.append(write_stats_lines(facts.phases).as_str());
        }
        body.append(by_phase.as_str());
    }
    let mut out = "\n## Prompt telemetry\n".to_owned();
    out.append(body.as_str());
    out
}

/// The line on a human's note.
pub open spec fn note_line(u: Utterance) -> Seq<char> {
    "- "@ + u.label@ + ": "@ + on_one_line(u.text@, 240) + "\n"@
}

/// The section on what humans said last.
pub open spec fn direction_section(t: Seq<Utterance>) -> Seq<char> {
    let notes = recent_notes(t);
    if notes.len() == 0 {
        Seq::empty()
    } else {
        "\n## Latest human direction\n"@ + flat(
            Seq::new(notes.len(), |i: int| note_line(notes[i])),
        )
    }
}

fn write_direction_section(t: &Vec<Utterance>) -> (r: String)
    ensures
        r@ == direction_section(t@),
{
    let notes = last_human(t, 3);
    if notes.is_empty() {
        return String::new();
    }
    let ghost f = |k: int| note_line(notes@[k]);
    let mut body = String::new();
    let mut i: usize = 0;
    while i < notes.len()
        invariant
            i <= notes.len(),
            f == (|k: int| note_line(notes@[k])),
            body@ == flat(Seq::new(i as nat, f)),
        decreases notes.len() - i,
    {
        let ghost mid = body@;
        body.append("- ");
        body.append(notes[i].label.as_str());
        body.append(": ");
        body.append(one_line(notes[i].text.as_str(), 240).as_str());
        body.append("\n");
        proof {
            let done = Seq::new(i as nat, f);
            lemma_flat_push(done, f(i as int));
            assert(Seq::new((i + 1) as nat, f) =~= done.push(f(i as int)));
            assert(body@ =~= mid + f(i as int));
        }
        i = i + 1;
    }
    proof {
        let all = recent_notes(t@);
        assert(Seq::new(i as nat, f) =~= Seq::new(all.len(), |k: int| note_line(all[k])));
    }
    let mut out = "\n## Latest human direction\n".to_owned();
    out.append(body.as_str());
    out
}

/// A planner's output under a heading.
pub open spec fn planner_block(u: Utterance) -> Seq<char> {
    "\n### "@ + u.label@ + " ("@ + role_name(u.role) + ")\n"@ + bounded(u.text@, Some(2_000))
        + "\n"@
}

/// The section on what planners said last.
pub open spec fn planner_section(t: Seq<Utterance>) -> Seq<char> {
    let outputs = recent_outputs(t);
    "\n## Recent planner outputs\n"@ + (if outputs.len() == 0 {
        "(none)\n"@
    } else {
        flat(Seq::new(outputs.len(), |i: int| planner_block(outputs[i])))
    })
}

fn write_planner_section(t: &Vec<Utterance>) -> (r: String)
    ensures
        r@ == planner_section(t@),
{
    let outputs = last_planner(t, 4);
    let ghost f = |k: int| planner_block(outputs@[k]);
    let mut body = String::new();
    let mut i: usize = 0;
    while i < outputs.len()
        invariant
            i <= outputs.len(),
            f == (|k: int| planner_block(outputs@[k])),
            body@ == flat(Seq::new(i as nat, f)),
        decreases outputs.len() - i,
    {
        let ghost mid = body@;
        body.append("\n### ");
        body.append(outputs[i].label.as_str());
        body.append(" (");
        body.append(outputs[i].role.name());
        body.append(")\n");
        body.append(bounded_context(outputs[i].text.as_str(), Some(2_000)).as_str());
        body.append("\n");
        proof {
            let done = Seq::new(i as nat, f);
            lemma_flat_push(done, f(i as int));
            assert(Seq::new((i + 1) as nat, f) =~= done.push(f(i as int)));
            assert(body@ =~= mid + f(i as int));
        }
        i = i + 1;
    }
    proof {
        let all = recent_outputs(t@);
        assert(Seq::new(i as nat, f) =~= Seq::new(all.len(), |k: int| planner_block(all[k])));
    }
    if outputs.is_empty() {
        body = "(none)\n".to_owned();
    }
    let mut out = "\n## Recent planner outputs\n".to_owned();
    out.append(body.as_str());
    out
}

/// The report on a session.
#[verifier::opaque]
pub open spec fn session_report(
    task: Seq<char>,
    t: Seq<Utterance>,
    rec: Option<Recommendation>,
    o: RunOutcome,
    budget: Option<usize>,
    ctx: Option<ProjectContextReport>,
    changes: Option<LocalChangeSummary>,
    salvaged: nat,
    costs: CostReport,
    usage: Seq<(String, TokenUsage)>,
    prompts: Seq<(String, PromptStats)>,
    phases: Seq<(String, PromptStats)>,
) -> Seq<char> {
    "# Tales session report\n\n## Task\n"@ + trim(task) + "\n\n## Outcome\n"@ + outcome_section(
        o,
        budget,
    ) + "\n## Resume packet\n"@ + resume_packet(task, t, rec, o, ctx, changes) + advice_section(rec)
        + context_section(ctx) + changes_section(changes) + cost_section(costs) + usage_section(
        usage,
    ) + prompt_section(budget, usage, prompts, phases) + "\n## Optimization hints\n"@
        + optimization_hints(budget, ctx, changes, salvaged, usage, prompts, phases)
        + direction_section(t) + planner_section(t) + "\n## Transcript stats\n- utterances: "@ + dec(
        t.len(),
    ) + "\n- characters: "@ + dec(transcript_chars(t)) + "\n"@
}

/// The report on a session.
pub fn compose_session_report(bb: &Blackboard, outcome: &RunOutcome, facts: &RunFacts) -> (r:
    String)
    ensures
        r@ == session_report(
            bb.task@,
            bb.transcript@,
            opt_rec(facts.recommendation),
            *outcome,
            facts.context_budget_chars,
            opt_report(facts.project_context),
            opt_changes(facts.local_changes),
            facts.salvaged_votes as nat,
            *facts.costs,
            facts.usage@,
            facts.prompts@,
            facts.phases@,
        ),
{
    proof {
        reveal(session_report);
    }
    let mut report = "# Tales session report\n\n## Task\n".to_owned();
    report.append(trimmed(bb.task.as_str()).as_str());
    report.append("\n\n## Outcome\n");
    report.append(write_outcome_section(outcome, facts.context_budget_chars).as_str());
    report.append("\n## Resume packet\n");
    report.append(
        compose_resume_packet(
            bb,
            facts.recommendation,
            outcome,
            facts.project_context,
            facts.local_changes,
        ).as_str(),
    );
    report.append(write_advice_section(facts.recommendation).as_str());
    report.append(write_context_section(facts.project_context).as_str());
    report.append(write_changes_section(facts.local_changes).as_str());
    report.append(write_cost_section(facts.costs).as_str());
    report.append(write_usage_section(facts.usage).as_str());
    report.append(write_prompt_section(facts).as_str());
    report.append("\n## Optimization hints\n");
    report.append(compose_optimization_hints(facts).as_str());
    report.append(write_direction_section(&bb.transcript).as_str());
    report.append(write_planner_section(&bb.transcript).as_str());
    report.append("\n## Transcript stats\n- utterances: ");
    report.append(decimal_size(bb.transcript.len()).as_str());
    report.append("\n- characters: ");
    report.append(decimal_size(bb.said_chars()).as_str());
    report.append("\n");
    report
}

} // verus!
