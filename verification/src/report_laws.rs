//! What holds of the reports that are written of a run.
use vstd::prelude::*;
use crate::blackboard::{by_humans, transcript_chars, Utterance};
use crate::build_info::BuildRecord;
use crate::changes::{clean, summary_line_of, LocalChangeSummary};
use crate::conductor::{plans, Role};
use crate::context::tokens_of;
use crate::count_laws::tells;
use crate::json::{jbool, jnum, jopt_size, jopt_u64, jstr, Doc};
use crate::numeral::dec;
use crate::recommend::{on_one_line, ExecutionVote, Recommendation};
use crate::report::{
    hint_budget, hint_busiest_agent, hint_busiest_phase, hint_cache, hint_calibration, hint_changes,
    hint_largest_usage, hint_provider_cache, hint_repair, hint_salvaged, hint_voting, next_step,
    optimization_hints, packet_advice, packet_execution, packet_note, packet_plan, resume_packet,
    status_word, ProjectContextReport, RunOutcome,
};
use crate::scan::{is_blank, trim, words_of};
use crate::session_laws::lemma_kept;
use crate::session_report::{
    advice_section, changes_section, context_section, cost_line, cost_lines, cost_section,
    direction_section, outcome_section, planner_section, prompt_section, sent_lines, session_report,
    stats_lines, usage_lines, usage_section,
};
use crate::summary::{
    cost_doc, costs_doc, direction_doc, jreal, outcome_doc, plan_doc, provider_ratio,
    recommendation_doc, session_summary, summary_about, summary_numbers, stats_docs, telemetry_doc,
    usages_doc, vote_doc,
};
use crate::telemetry::{
    busiest, cached_total, input_total, largest_prompt, largest_usage, percent_ratio, stats_line,
    stats_of, total_chars, total_prompts, usage_doc, usage_line, usage_total, CostReport,
    PromptStats,
};
use crate::text::{flat, join};
use crate::text_laws::{
    group_says, law_concatenation_keeps_every_part, lemma_says_all_each, lemma_says_through, says,
};
use crate::usage::{total_of, TokenUsage};

verus! {

// ---- What stands in a report -------------------------------------------------------

/// A text on one line is its words with one space between them, all of it where it
/// is short enough and else its beginning.
pub proof fn law_one_line_holds_the_words(text: Seq<char>, max: nat)
    ensures
        ({
            let line = join(words_of(text), " "@);
            &&& line.len() <= max ==> on_one_line(text, max) == line
            &&& line.len() > max ==> on_one_line(text, max).take(max as int) == line.take(
                max as int,
            ) && on_one_line(text, max).len() == max + 3
        }),
{
    let line = join(words_of(text), " "@);
    if line.len() > max {
        reveal_strlit("...");
        assert(on_one_line(text, max).take(max as int) =~= line.take(max as int));
    }
}

/// A run that was executed is reported with its executor and what it put out;
/// other runs with how they ended, each in its own words.
pub proof fn law_outcomes_are_reported(o: RunOutcome, budget: Option<usize>)
    ensures
        o matches RunOutcome::Executed { executor, output } ==> says(
            outcome_section(o, budget),
            executor@,
        ) && says(packet_execution(o), executor@) && (!is_blank(output@) ==> says(
            packet_execution(o),
            on_one_line(output@, 220),
        )),
        !(o is Executed) ==> packet_execution(o).len() == 0,
        o is Discussed ==> outcome_section(o, budget) == "- status: discussed\n"@ && status_word(o)
            == "discussed"@,
        o is Rejected ==> outcome_section(o, budget) == "- status: rejected by user\n"@
            && status_word(o) == "rejected"@,
        o is Aborted ==> outcome_section(o, budget) == "- status: aborted\n"@ && status_word(o)
            == "aborted"@,
        o is Executed ==> status_word(o) == "executed"@,
        tells(outcome_doc(o), "status"@, jstr(status_word(o))),
        o matches RunOutcome::Executed { executor, output } ==> tells(
            outcome_doc(o),
            "executor"@,
            jstr(executor@),
        ) && tells(outcome_doc(o), "executor_output_chars"@, jnum(output@.len() as int)) && tells(
            outcome_doc(o),
            "executor_output_preview"@,
            jstr(on_one_line(output@, 500)),
        ),
{
    broadcast use group_says;

    let d = outcome_doc(o)->Obj_0;
    assert(d[0] == ("status"@, jstr(status_word(o))));
    match o {
        RunOutcome::Executed { executor, output } => {
            assert(d[1] == ("executor"@, jstr(executor@)));
            assert(d[2] == ("executor_output_chars"@, jnum(output@.len() as int)));
            assert(d[3] == ("executor_output_preview"@, jstr(on_one_line(output@, 500))));
        },
        _ => {},
    }
}

/// Whether an utterance is the last one of a kind.
pub open spec fn is_last_of(t: Seq<Utterance>, k: int, kind: spec_fn(Utterance) -> bool) -> bool {
    &&& 0 <= k < t.len()
    &&& kind(t[k])
    &&& forall|j: int| k < j < t.len() ==> !kind(#[trigger] t[j])
}

proof fn lemma_last_of(t: Seq<Utterance>, k: int, kind: spec_fn(Utterance) -> bool)
    requires
        is_last_of(t, k, kind),
    ensures
        t.filter(kind).len() > 0,
        t.filter(kind).last() == t[k],
    decreases t.len(),
{
    reveal(Seq::filter);
    let init = t.drop_last();
    if k < t.len() - 1 {
        assert(!kind(t[t.len() - 1]));
        assert forall|j: int| k < j < init.len() implies !kind(#[trigger] init[j]) by {
            assert(init[j] == t[j]);
        }
        assert(init[k] == t[k]);
        lemma_last_of(init, k, kind);
    }
}

/// A packet to go on from holds the task, how the run stands and what is next. It
/// holds the user's latest direction and the latest that a planner said, under the
/// names of those who said them.
pub proof fn law_packets_hold_the_latest(t: Seq<Utterance>, k: int)
    ensures
        is_last_of(t, k, |u: Utterance| u.role == Role::Human) ==> says(packet_note(t), t[k].label@)
            && says(packet_note(t), on_one_line(t[k].text@, 220)) && tells(
            direction_doc(t),
            "label"@,
            jstr(t[k].label@),
        ) && tells(direction_doc(t), "text"@, jstr(on_one_line(t[k].text@, 240))),
        is_last_of(t, k, |u: Utterance| plans(u.role)) ==> says(packet_plan(t), t[k].label@)
            && says(packet_plan(t), on_one_line(t[k].text@, 220)) && tells(
            plan_doc(t),
            "label"@,
            jstr(t[k].label@),
        ) && tells(plan_doc(t), "text"@, jstr(on_one_line(t[k].text@, 240))),
        (forall|j: int| 0 <= j < t.len() ==> (#[trigger] t[j]).role != Role::Human) ==> packet_note(
            t,
        ).len() == 0,
{
    broadcast use group_says;

    let human = |u: Utterance| u.role == Role::Human;
    let planner = |u: Utterance| plans(u.role);
    if is_last_of(t, k, human) {
        lemma_last_of(t, k, human);
        let o = direction_doc(t)->Obj_0;
        assert(o[0] == ("label"@, jstr(t[k].label@)));
        assert(o[1] == ("text"@, jstr(on_one_line(t[k].text@, 240))));
    }
    if is_last_of(t, k, planner) {
        lemma_last_of(t, k, planner);
        let o = plan_doc(t)->Obj_0;
        assert(o[0] == ("label"@, jstr(t[k].label@)));
        assert(o[2] == ("text"@, jstr(on_one_line(t[k].text@, 240))));
    }
    if forall|j: int| 0 <= j < t.len() ==> (#[trigger] t[j]).role != Role::Human {
        if by_humans(t).len() > 0 {
            lemma_kept(t, human, 0);
            let m = choose|m: int| 0 <= m < t.len() && t[m] == by_humans(t)[0];
            assert(t[m].role != Role::Human);
        }
    }
}

/// The packet has all its parts.
pub proof fn law_packets_have_all_their_parts(
    task: Seq<char>,
    t: Seq<Utterance>,
    rec: Option<Recommendation>,
    o: RunOutcome,
    ctx: Option<ProjectContextReport>,
    changes: Option<LocalChangeSummary>,
)
    ensures
        ({
            let p = resume_packet(task, t, rec, o, ctx, changes);
            &&& says(p, on_one_line(task, 220))
            &&& says(p, status_word(o))
            &&& says(p, packet_execution(o))
            &&& says(p, packet_advice(rec))
            &&& says(p, packet_note(t))
            &&& says(p, packet_plan(t))
            &&& says(p, next_step(o))
        }),
        rec matches Some(r) ==> says(packet_advice(rec), r.executor@),
        rec matches Some(r) ==> !is_blank(r.rationale@) ==> says(
            packet_advice(rec),
            on_one_line(r.rationale@, 220),
        ),
{
    broadcast use group_says;

}

/// A report has the task and all its sections.
#[verifier::spinoff_prover]
#[verifier::rlimit(40)]
pub proof fn law_reports_have_all_their_sections(
    task: Seq<char>,
    t: Seq<Utterance>,
    rec: Option<Recommendation>,
    o: RunOutcome,
    budget: Option<usize>,
    ctx: Option<ProjectContextReport>,
    changes: Option<LocalChangeSummary>,
    salvaged: nat,
    costs: CostReport,
    usage: Seq<(String, TokenUsage)>,
    prompts: Seq<(String, PromptStats)>,
    phases: Seq<(String, PromptStats)>,
)
    ensures
        ({
            let p = session_report(
                task,
                t,
                rec,
                o,
                budget,
                ctx,
                changes,
                salvaged,
                costs,
                usage,
                prompts,
                phases,
            );
            &&& says(p, trim(task))
            &&& says(p, outcome_section(o, budget))
            &&& says(p, resume_packet(task, t, rec, o, ctx, changes))
            &&& says(p, advice_section(rec))
            &&& says(p, context_section(ctx))
            &&& says(p, changes_section(changes))
            &&& says(p, cost_section(costs))
            &&& says(p, usage_section(usage))
            &&& says(p, prompt_section(budget, usage, prompts, phases))
            &&& says(
                p,
                optimization_hints(budget, ctx, changes, salvaged, usage, prompts, phases),
            )
            &&& says(p, direction_section(t))
            &&& says(p, planner_section(t))
            &&& says(p, dec(t.len()))
            &&& says(p, dec(transcript_chars(t)))
        }),
{
    reveal(session_report);
    let p = session_report(
        task,
        t,
        rec,
        o,
        budget,
        ctx,
        changes,
        salvaged,
        costs,
        usage,
        prompts,
        phases,
    );
    lemma_sections(
        "# Tales session report\n\n## Task\n"@ + trim(task) + "\n\n## Outcome\n"@,
        outcome_section(o, budget),
        "\n## Resume packet\n"@,
        resume_packet(task, t, rec, o, ctx, changes),
        advice_section(rec),
        context_section(ctx),
        changes_section(changes),
        cost_section(costs),
        usage_section(usage),
        prompt_section(budget, usage, prompts, phases),
        "\n## Optimization hints\n"@,
        optimization_hints(budget, ctx, changes, salvaged, usage, prompts, phases),
        direction_section(t),
        planner_section(t),
        "\n## Transcript stats\n- utterances: "@,
        dec(t.len()),
        "\n- characters: "@,
        dec(transcript_chars(t)),
        "\n"@,
    );
    let head = "# Tales session report\n\n## Task\n"@ + trim(task) + "\n\n## Outcome\n"@;
    assert(says(head, trim(task))) by {
        broadcast use group_says;

    }
    lemma_says_through(p, head, trim(task));
}

/// Texts one behind the other say each of them.
#[verifier::spinoff_prover]
#[verifier::rlimit(40)]
proof fn lemma_sections(
    a: Seq<char>,
    b: Seq<char>,
    c: Seq<char>,
    d: Seq<char>,
    e: Seq<char>,
    f: Seq<char>,
    g: Seq<char>,
    h: Seq<char>,
    i: Seq<char>,
    j: Seq<char>,
    k: Seq<char>,
    l: Seq<char>,
    m: Seq<char>,
    n: Seq<char>,
    o: Seq<char>,
    p: Seq<char>,
    q: Seq<char>,
    r: Seq<char>,
    s: Seq<char>,
)
    ensures
        ({
            let t = a + b + c + d + e + f + g + h + i + j + k + l + m + n + o + p + q + r + s;
            &&& says(t, a)
            &&& says(t, b)
            &&& says(t, d)
            &&& says(t, e)
            &&& says(t, f)
            &&& says(t, g)
            &&& says(t, h)
            &&& says(t, i)
            &&& says(t, j)
            &&& says(t, l)
            &&& says(t, m)
            &&& says(t, n)
            &&& says(t, p)
            &&& says(t, r)
        }),
{
    let x = a + b + c + d + e + f + g + h + i;
    let t = x + j + k + l + m + n + o + p + q + r + s;
    assert(says(x, a) && says(x, b) && says(x, d) && says(x, e) && says(x, f) && says(x, g) && says(
        x,
        h,
    ) && says(x, i)) by {
        broadcast use group_says;

    }
    assert(says(t, x) && says(t, j) && says(t, l) && says(t, m) && says(t, n) && says(t, p) && says(
        t,
        r,
    )) by {
        broadcast use group_says;

    }
    lemma_says_through(t, x, a);
    lemma_says_through(t, x, b);
    lemma_says_through(t, x, d);
    lemma_says_through(t, x, e);
    lemma_says_through(t, x, f);
    lemma_says_through(t, x, g);
    lemma_says_through(t, x, h);
    lemma_says_through(t, x, i);
}

/// Costs are reported in full, with their total; and so is what was used and what
/// was sent.
pub proof fn law_costs_and_counts_are_reported(
    costs: CostReport,
    usage: Seq<(String, TokenUsage)>,
    prompts: Seq<(String, PromptStats)>,
    i: int,
)
    ensures
        costs.entries@.len() > 0 ==> says(cost_section(costs), costs.total.shown@),
        0 <= i < costs.entries@.len() ==> says(cost_section(costs), cost_line(costs.entries@[i]))
            && says(cost_line(costs.entries@[i]), costs.entries@[i].0@) && says(
            cost_line(costs.entries@[i]),
            costs.entries@[i].1.shown@,
        ),
        usage.len() > 0 ==> says(
            usage_section(usage),
            usage_line("reported_total"@, usage_total(usage)),
        ),
        0 <= i < usage.len() ==> says(usage_section(usage), usage_line(usage[i].0@, usage[i].1)),
        0 <= i < prompts.len() ==> says(
            stats_lines(prompts),
            stats_line(prompts[i].0@, prompts[i].1),
        ),
        says(sent_lines(prompts), "- prompts_sent: "@ + dec(total_prompts(prompts))),
        says(sent_lines(prompts), dec(total_chars(prompts))),
        says(sent_lines(prompts), dec(largest_prompt(prompts) as nat)),
{
    broadcast use group_says;

    let c = Seq::new(costs.entries@.len(), |k: int| cost_line(costs.entries@[k]));
    let u = Seq::new(usage.len(), |k: int| usage_line(usage[k].0@, usage[k].1));
    let p = Seq::new(prompts.len(), |k: int| stats_line(prompts[k].0@, prompts[k].1));
    law_concatenation_keeps_every_part(c, Seq::empty());
    law_concatenation_keeps_every_part(u, Seq::empty());
    law_concatenation_keeps_every_part(p, Seq::empty());
    if 0 <= i < costs.entries@.len() {
        lemma_says_all_each(flat(c), c, i);
        lemma_says_through(cost_section(costs), cost_lines(costs.entries@), c[i]);
    }
    if 0 <= i < usage.len() {
        lemma_says_all_each(flat(u), u, i);
        lemma_says_through(usage_section(usage), usage_lines(usage), u[i]);
    }
    if 0 <= i < prompts.len() {
        lemma_says_all_each(flat(p), p, i);
    }
}

// ---- Hints -------------------------------------------------------------------------

/// The hints of a run that sent prompts are all there.
pub proof fn law_hints_are_all_there(
    budget: Option<usize>,
    ctx: Option<ProjectContextReport>,
    changes: Option<LocalChangeSummary>,
    salvaged: nat,
    usage: Seq<(String, TokenUsage)>,
    prompts: Seq<(String, PromptStats)>,
    phases: Seq<(String, PromptStats)>,
)
    ensures
        ({
            let h = optimization_hints(budget, ctx, changes, salvaged, usage, prompts, phases);
            &&& says(h, hint_cache(ctx))
            &&& says(h, hint_changes(changes))
            &&& says(h, hint_largest_usage(usage))
            &&& says(h, hint_provider_cache(usage))
            &&& prompts.len() > 0 ==> says(h, hint_calibration(usage, total_chars(prompts)))
            &&& prompts.len() > 0 ==> says(h, hint_busiest_agent(prompts))
            &&& prompts.len() > 0 ==> says(h, hint_busiest_phase(phases))
            &&& prompts.len() > 0 ==> says(h, hint_budget(budget, largest_prompt(prompts)))
            &&& prompts.len() > 0 ==> says(h, hint_repair(phases))
            &&& prompts.len() > 0 ==> says(h, hint_salvaged(salvaged))
            &&& prompts.len() > 0 ==> says(h, hint_voting(phases, total_chars(prompts)))
        }),
{
    broadcast use group_says;

}

/// The agent and the phase that sent the most are named, with what they sent; and so
/// is who reported the largest usage.
pub proof fn law_hints_name_the_largest(
    prompts: Seq<(String, PromptStats)>,
    usage: Seq<(String, TokenUsage)>,
)
    ensures
        busiest(prompts) matches Some(k) ==> says(hint_busiest_agent(prompts), prompts[k].0@)
            && says(hint_busiest_agent(prompts), dec(prompts[k].1.chars_sent as nat)) && says(
            hint_busiest_phase(prompts),
            prompts[k].0@,
        ) && says(hint_busiest_phase(prompts), dec(prompts[k].1.chars_sent as nat)),
        largest_usage(usage) matches Some(k) ==> says(hint_largest_usage(usage), usage[k].0@)
            && says(hint_largest_usage(usage), dec(total_of(usage[k].1)->0 as nat)),
        largest_usage(usage) is None ==> hint_largest_usage(usage).len() == 0,
        cached_total(usage) > 0 ==> says(hint_provider_cache(usage), dec(cached_total(usage))),
        cached_total(usage) == 0 && usage.len() == 0 ==> hint_provider_cache(usage).len() == 0,
{
    broadcast use group_says;

}

/// The budget is said to be nearly used up where the largest prompt takes nine
/// tenths of it, and to have room where it takes no more than half. Votes that were
/// repaired or salvaged are counted.
pub proof fn law_hints_measure_the_budget(
    b: usize,
    largest: usize,
    phases: Seq<(String, PromptStats)>,
    n: nat,
)
    ensures
        b * 9 <= usize::MAX && largest >= (b * 9) / 10 ==> says(
            hint_budget(Some(b), largest),
            "largest prompt used at least 90% of the cap"@,
        ),
        b * 9 <= usize::MAX && largest < (b * 9) / 10 && largest <= b / 2 ==> says(
            hint_budget(Some(b), largest),
            "stayed under half the cap"@,
        ),
        b * 9 <= usize::MAX && largest < (b * 9) / 10 && largest > b / 2 ==> says(
            hint_budget(Some(b), largest),
            "stayed within the configured cap"@,
        ),
        says(hint_budget(None, largest), "unlimited"@),
        stats_of(phases, "vote_repair"@) matches Some(s) ==> says(
            hint_repair(phases),
            dec(s.prompts as nat),
        ),
        stats_of(phases, "vote_repair"@) is None ==> hint_repair(phases).len() == 0,
        n > 0 ==> says(hint_salvaged(n), dec(n)),
        hint_salvaged(0).len() == 0,
{
    broadcast use group_says;

    lemma_budget_words();
}

proof fn lemma_budget_words()
    ensures
        says(hint_budget(None, 0), "unlimited"@),
        says(
            "- context_budget: largest prompt used at least 90% of the cap; lower project-context budgets or keep more agents resumable.\n"@,
            "largest prompt used at least 90% of the cap"@,
        ),
        says(
            "- context_budget: largest prompt stayed under half the cap; current budget has room.\n"@,
            "stayed under half the cap"@,
        ),
        says(
            "- context_budget: prompt sizes stayed within the configured cap.\n"@,
            "stayed within the configured cap"@,
        ),
{
    broadcast use group_says;

    let a =
        "- context_budget: unlimited; set a context budget for cheaper stateless adapters on long sessions.\n"@;
    reveal_strlit(
        "- context_budget: unlimited; set a context budget for cheaper stateless adapters on long sessions.\n",
    );
    reveal_strlit("unlimited");
    assert(a =~= a.take(18) + "unlimited"@ + a.skip(27));
    let b =
        "- context_budget: largest prompt used at least 90% of the cap; lower project-context budgets or keep more agents resumable.\n"@;
    reveal_strlit(
        "- context_budget: largest prompt used at least 90% of the cap; lower project-context budgets or keep more agents resumable.\n",
    );
    reveal_strlit("largest prompt used at least 90% of the cap");
    assert(b =~= b.take(18) + "largest prompt used at least 90% of the cap"@ + b.skip(61));
    let c =
        "- context_budget: largest prompt stayed under half the cap; current budget has room.\n"@;
    reveal_strlit(
        "- context_budget: largest prompt stayed under half the cap; current budget has room.\n",
    );
    reveal_strlit("stayed under half the cap");
    assert(c =~= c.take(33) + "stayed under half the cap"@ + c.skip(58));
    let d = "- context_budget: prompt sizes stayed within the configured cap.\n"@;
    reveal_strlit("- context_budget: prompt sizes stayed within the configured cap.\n");
    reveal_strlit("stayed within the configured cap");
    assert(d =~= d.take(31) + "stayed within the configured cap"@ + d.skip(63));
}

/// What the providers counted is held against what was sent.
pub proof fn law_hints_compare_with_the_providers(
    usage: Seq<(String, TokenUsage)>,
    chars: nat,
    phases: Seq<(String, PromptStats)>,
)
    ensures
        input_total(usage) matches Some(n) ==> says(
            hint_calibration(usage, chars),
            dec(percent_ratio(n, tokens_of(chars) as u64) as nat),
        ) && provider_ratio(usage, chars) == Some(percent_ratio(n, tokens_of(chars) as u64)),
        input_total(usage) is None ==> hint_calibration(usage, chars).len() == 0 && provider_ratio(
            usage,
            chars,
        ) is None,
        (stats_of(phases, "recommendation_vote"@) matches Some(s) ==> s.chars_sent * 3
            <= usize::MAX && s.chars_sent * 3 <= chars) ==> hint_voting(phases, chars).len() == 0,
        (stats_of(phases, "recommendation_vote"@) matches Some(s) && s.chars_sent * 3 <= usize::MAX
            && s.chars_sent * 3 > chars && chars > 0) ==> hint_voting(phases, chars).len() > 0,
{
    broadcast use group_says;

    reveal_strlit(
        "- recommendation_vote: voting was a large share of prompt spend; keep the executor roster tight for cheaper decisions.\n",
    );
}

/// Changes are said to be handed over where there are any; a cache that was hit is
/// told apart from one that was rebuilt and from none.
pub proof fn law_hints_tell_changes_and_caches(c: LocalChangeSummary, ctx: ProjectContextReport)
    ensures
        !clean(c) ==> says(hint_changes(Some(c)), summary_line_of(c)),
        hint_cache(Some(ProjectContextReport { cache_hit: true, ..ctx })) != hint_cache(
            Some(ProjectContextReport { cache_hit: false, ..ctx }),
        ),
        hint_cache(None) != hint_cache(Some(ctx)),
{
    broadcast use group_says;

    reveal_strlit(
        "- project_context_cache: hit; first-turn orientation reused the cached repo map.\n",
    );
    reveal_strlit(
        "- project_context_cache: rebuilt; an unchanged next run should be cheaper from cache.\n",
    );
    reveal_strlit(
        "- project_context_cache: off; enable cached project context when agents need repo orientation.\n",
    );
    assert(hint_cache(Some(ProjectContextReport { cache_hit: true, ..ctx }))[25] == 'h');
    assert(hint_cache(Some(ProjectContextReport { cache_hit: false, ..ctx }))[25] == 'r');
    assert(hint_cache(None)[25] == 'o');
}

// ---- What is told --------------------------------------------------------------------

/// A recommendation is told with its executor, whether there was a consensus, whether
/// a plan is wanted, and why; and each vote with who cast it and for whom.
pub proof fn law_recommendations_are_told(rec: Recommendation, v: ExecutionVote)
    ensures
        tells(recommendation_doc(Some(rec)), "available"@, jbool(true)),
        tells(recommendation_doc(Some(rec)), "executor"@, jstr(rec.executor@)),
        tells(recommendation_doc(Some(rec)), "confident"@, jbool(rec.confident)),
        tells(recommendation_doc(Some(rec)), "needs_plan"@, jbool(rec.needs_plan)),
        tells(recommendation_doc(Some(rec)), "rationale"@, jstr(rec.rationale@)),
        tells(
            recommendation_doc(Some(rec)),
            "votes"@,
            Doc::Arr(Seq::new(rec.votes@.len(), |i: int| vote_doc(rec.votes@[i]))),
        ),
        tells(recommendation_doc(None), "available"@, jbool(false)),
        tells(vote_doc(v), "voter_label"@, jstr(v.voter_label@)),
        tells(vote_doc(v), "recommended_executor"@, jstr(v.recommended_executor@)),
        tells(vote_doc(v), "confidence"@, jreal(v.confidence)),
        tells(vote_doc(v), "needs_plan"@, jbool(v.needs_plan)),
        tells(vote_doc(v), "rationale"@, jstr(v.rationale@)),
{
    let o = recommendation_doc(Some(rec))->Obj_0;
    assert(o[0] == ("available"@, jbool(true)));
    assert(o[1] == ("executor"@, jstr(rec.executor@)));
    assert(o[2] == ("confident"@, jbool(rec.confident)));
    assert(o[3] == ("needs_plan"@, jbool(rec.needs_plan)));
    assert(o[4] == ("rationale"@, jstr(rec.rationale@)));
    assert(o[6].0 == "votes"@);
    let n = recommendation_doc(None)->Obj_0;
    assert(n[0] == ("available"@, jbool(false)));
    let q = vote_doc(v)->Obj_0;
    assert(q[1] == ("voter_label"@, jstr(v.voter_label@)));
    assert(q[2] == ("recommended_executor"@, jstr(v.recommended_executor@)));
    assert(q[3] == ("confidence"@, jreal(v.confidence)));
    assert(q[4] == ("needs_plan"@, jbool(v.needs_plan)));
    assert(q[5] == ("rationale"@, jstr(v.rationale@)));
}

/// Costs and usages are told where there are any, with their total.
pub proof fn law_costs_are_told(costs: CostReport, usage: Seq<(String, TokenUsage)>)
    ensures
        tells(costs_doc(costs), "available"@, jbool(costs.entries@.len() > 0)),
        costs.entries@.len() > 0 ==> tells(costs_doc(costs), "total_usd"@, jreal(costs.total)),
        costs.entries@.len() == 0 ==> tells(costs_doc(costs), "total_usd"@, Doc::Null),
        tells(
            costs_doc(costs),
            "entries"@,
            Doc::Arr(Seq::new(costs.entries@.len(), |i: int| cost_doc(costs.entries@[i]))),
        ),
        tells(usages_doc(usage), "available"@, jbool(usage.len() > 0)),
        usage.len() > 0 ==> tells(usages_doc(usage), "total"@, usage_doc(usage_total(usage))),
        usage.len() == 0 ==> tells(usages_doc(usage), "total"@, Doc::Null),
{
    let o = costs_doc(costs)->Obj_0;
    assert(o[0] == ("available"@, jbool(costs.entries@.len() > 0)));
    assert(o[1].0 == "total_usd"@);
    if costs.entries@.len() > 0 {
        assert(o[1] == ("total_usd"@, jreal(costs.total)));
    } else {
        assert(o[1] == ("total_usd"@, Doc::Null));
    }
    assert(o[2].0 == "entries"@);
    let q = usages_doc(usage)->Obj_0;
    assert(q[0] == ("available"@, jbool(usage.len() > 0)));
    if usage.len() > 0 {
        assert(q[1] == ("total"@, usage_doc(usage_total(usage))));
    } else {
        assert(q[1] == ("total"@, Doc::Null));
    }
}

/// What was sent is told: how many prompts, their characters and tokens, the largest
/// of them, and what the providers counted.
pub proof fn law_sent_prompts_are_told(
    budget: Option<usize>,
    usage: Seq<(String, TokenUsage)>,
    prompts: Seq<(String, PromptStats)>,
    phases: Seq<(String, PromptStats)>,
)
    ensures
        ({
            let d = telemetry_doc(budget, usage, prompts, phases);
            let chars = total_chars(prompts);
            &&& tells(d, "prompts_sent"@, jnum(total_prompts(prompts) as int))
            &&& tells(d, "prompt_chars_sent"@, jnum(chars as int))
            &&& tells(d, "prompt_tokens_estimate"@, jnum(tokens_of(chars) as int))
            &&& tells(d, "max_prompt_chars"@, jnum(largest_prompt(prompts) as int))
            &&& tells(d, "context_budget_chars"@, jopt_size(budget))
            &&& tells(d, "provider_input_tokens"@, jopt_u64(input_total(usage)))
            &&& tells(
                d,
                "provider_input_ratio_percent"@,
                jopt_u64(provider_ratio(usage, chars)),
            )
            &&& tells(d, "by_agent"@, stats_docs(prompts))
            &&& tells(d, "by_phase"@, stats_docs(phases))
        }),
{
    let o = telemetry_doc(budget, usage, prompts, phases)->Obj_0;
    let chars = total_chars(prompts);
    assert(o[0] == ("prompts_sent"@, jnum(total_prompts(prompts) as int)));
    assert(o[1] == ("prompt_chars_sent"@, jnum(chars as int)));
    assert(o[2] == ("prompt_tokens_estimate"@, jnum(tokens_of(chars) as int)));
    assert(o[3] == ("max_prompt_chars"@, jnum(largest_prompt(prompts) as int)));
    assert(o[5] == ("context_budget_chars"@, jopt_size(budget)));
    assert(o[7] == ("provider_input_tokens"@, jopt_u64(input_total(usage))));
    assert(o[8] == ("provider_input_ratio_percent"@, jopt_u64(provider_ratio(usage, chars))));
    assert(o[9] == ("by_agent"@, stats_docs(prompts)));
    assert(o[10] == ("by_phase"@, stats_docs(phases)));
}

/// The summary of a session tells the task, how it ended, what is next, and all that
/// was recommended, spent, sent and said.
pub proof fn law_summaries_tell_the_session(
    task: Seq<char>,
    t: Seq<Utterance>,
    build: BuildRecord,
    rec: Option<Recommendation>,
    o: RunOutcome,
    budget: Option<usize>,
    ctx: Option<ProjectContextReport>,
    changes: Option<LocalChangeSummary>,
    salvaged: nat,
    costs: CostReport,
    usage: Seq<(String, TokenUsage)>,
    prompts: Seq<(String, PromptStats)>,
    phases: Seq<(String, PromptStats)>,
)
    ensures
        ({
            let d = session_summary(
                task,
                t,
                build,
                rec,
                o,
                budget,
                ctx,
                changes,
                salvaged,
                costs,
                usage,
                prompts,
                phases,
            );
            &&& tells(d, "task"@, jstr(trim(task)))
            &&& tells(d, "outcome"@, outcome_doc(o))
            &&& tells(d, "next_step"@, jstr(next_step(o)))
            &&& tells(
                d,
                "resume_packet"@,
                jstr(resume_packet(task, t, rec, o, ctx, changes)),
            )
            &&& tells(d, "recommendation"@, recommendation_doc(rec))
            &&& tells(d, "reported_cost"@, costs_doc(costs))
            &&& tells(d, "reported_token_usage"@, usages_doc(usage))
            &&& tells(d, "prompt_telemetry"@, telemetry_doc(budget, usage, prompts, phases))
            &&& tells(d, "latest_human_direction"@, direction_doc(t))
            &&& tells(d, "latest_planner_output"@, plan_doc(t))
        }),
{
    reveal(session_summary);
    let hints = optimization_hints(budget, ctx, changes, salvaged, usage, prompts, phases);
    let a = summary_about(task, t, build, rec, o, ctx, changes);
    let b = summary_numbers(t, budget, hints, costs, usage, prompts, phases);
    let f = a + b;
    assert(f[3] == ("task"@, jstr(trim(task))));
    assert(f[4] == ("outcome"@, outcome_doc(o)));
    assert(f[5] == ("next_step"@, jstr(next_step(o))));
    assert(f[6] == ("resume_packet"@, jstr(resume_packet(task, t, rec, o, ctx, changes))));
    assert(f[7] == ("recommendation"@, recommendation_doc(rec)));
    assert(f[10] == ("reported_cost"@, costs_doc(costs)));
    assert(f[11] == ("reported_token_usage"@, usages_doc(usage)));
    assert(f[12] == ("prompt_telemetry"@, telemetry_doc(budget, usage, prompts, phases)));
    assert(f[14] == ("latest_human_direction"@, direction_doc(t)));
    assert(f[15] == ("latest_planner_output"@, plan_doc(t)));
}

} // verus!
