//! The summary of a session for programs.
use vstd::prelude::*;
use crate::blackboard::{
    by_humans, by_planners, last_human, last_planner, transcript_chars, Blackboard, Utterance,
};
use crate::build_info::{build_doc, BuildRecord};
use crate::changes::{
    changes_doc, local_change_summary_status_json, opt_changes, LocalChangeSummary,
};
use crate::conductor::role_name;
use crate::context::{estimated_tokens, opt_estimated_tokens, opt_tokens, tokens_of};
use crate::handoff::opt_rec;
use crate::ids::{id_text, write_id};
use crate::json::{
    docs, jbool, jnum, jopt_size, jopt_u64, jstr, jtexts, lemma_docs_push, list, null, opt_num,
    opt_size, size, text, text_list, truth, Doc, Fields, Json, Number,
};
use crate::project_context::{budgets_doc, budgets_json};
use crate::recommend::{on_one_line, source_name, ExecutionVote, Measure, Recommendation, Score};
use crate::report::{
    compose_optimization_hints, compose_resume_packet, next_step, one_line, opt_report,
    optimization_hints, resume_next_step, resume_packet, ProjectContextReport, RunFacts, RunOutcome,
};
use crate::scan::{blank, is_blank, lines, lines_of, trim, trimmed};
use crate::telemetry::{
    input_total, largest_prompt, percent_ratio, prompt_stats_json, ratio_percent,
    reported_input_tokens, stats_doc, token_usage_json, total_chars, total_prompts, total_usage,
    totals, usage_doc, usage_total, CostReport, PromptStats,
};
use crate::text::{char_count, chars_of, lemma_texts_push, text_between, texts};
use crate::usage::TokenUsage;

verus! {

/// A real number in a document.
pub open spec fn jreal(m: Measure) -> Doc {
    Doc::Num(Number::Real(m.bits))
}

/// A real number.
pub fn measure_json(m: &Measure) -> (r: Json)
    ensures
        r@ == jreal(*m),
{
    Json::Num(Number::Real(m.bits))
}

/// The document on how a run ended.
pub open spec fn outcome_doc(o: RunOutcome) -> Doc {
    match o {
        RunOutcome::Discussed => Doc::Obj(seq![("status"@, jstr("discussed"@))]),
        RunOutcome::Executed { executor, output } => Doc::Obj(
            seq![
                ("status"@, jstr("executed"@)),
                ("executor"@, jstr(executor@)),
                ("executor_output_chars"@, jnum(output@.len() as int)),
                ("executor_output_preview"@, jstr(on_one_line(output@, 500))),
            ],
        ),
        RunOutcome::Rejected => Doc::Obj(seq![("status"@, jstr("rejected"@))]),
        RunOutcome::Aborted => Doc::Obj(seq![("status"@, jstr("aborted"@))]),
    }
}

pub fn outcome_summary_json(outcome: &RunOutcome) -> (r: Json)
    ensures
        r@ == outcome_doc(*outcome),
{
    let mut f = Fields::new();
    match outcome {
        RunOutcome::Discussed => f.put("status", text("discussed")),
        RunOutcome::Executed { executor, output } => {
            f.put("status", text("executed"));
            f.put("executor", text(executor.as_str()));
            f.put("executor_output_chars", size(char_count(output.as_str())));
            f.put("executor_output_preview", text(one_line(output.as_str(), 500).as_str()));
        },
        RunOutcome::Rejected => f.put("status", text("rejected")),
        RunOutcome::Aborted => f.put("status", text("aborted")),
    }
    proof {
        assert(f@ =~= outcome_doc(*outcome)->Obj_0);
    }
    f.object()
}

/// The document on a score.
pub open spec fn score_doc(s: Score) -> Doc {
    Doc::Obj(seq![("executor"@, jstr(s.executor@)), ("score"@, jreal(s.value))])
}

/// The document on a vote.
pub open spec fn vote_doc(v: ExecutionVote) -> Doc {
    Doc::Obj(
        seq![
            ("voter"@, jstr(id_text(v.voter))),
            ("voter_label"@, jstr(v.voter_label@)),
            ("recommended_executor"@, jstr(v.recommended_executor@)),
            ("confidence"@, jreal(v.confidence)),
            ("needs_plan"@, jbool(v.needs_plan)),
            ("rationale"@, jstr(v.rationale@)),
            ("parse_source"@, jstr(source_name(v.parse_source))),
        ],
    )
}

/// The document on a recommendation.
pub open spec fn recommendation_doc(rec: Option<Recommendation>) -> Doc {
    match rec {
        Some(rec) => Doc::Obj(
            seq![
                ("available"@, jbool(true)),
                ("executor"@, jstr(rec.executor@)),
                ("confident"@, jbool(rec.confident)),
                ("needs_plan"@, jbool(rec.needs_plan)),
                ("rationale"@, jstr(rec.rationale@)),
                (
                    "scores"@,
                    Doc::Arr(Seq::new(rec.scores@.len(), |i: int| score_doc(rec.scores@[i]))),
                ),
                (
                    "votes"@,
                    Doc::Arr(Seq::new(rec.votes@.len(), |i: int| vote_doc(rec.votes@[i]))),
                ),
            ],
        ),
        None => Doc::Obj(seq![("available"@, jbool(false))]),
    }
}

/// The documents on scores.
pub fn scores_json(scores: &Vec<Score>) -> (r: Json)
    ensures
        r@ == Doc::Arr(Seq::new(scores@.len(), |i: int| score_doc(scores@[i]))),
{
    let ghost g = |i: int| score_doc(scores@[i]);
    let mut out: Vec<Json> = Vec::new();
    let mut i: usize = 0;
    while i < scores.len()
        invariant
            i <= scores.len(),
            g == (|i: int| score_doc(scores@[i])),
            docs(out@) == Seq::new(i as nat, g),
        decreases scores.len() - i,
    {
        let mut f = Fields::new();
        f.put("executor", text(scores[i].executor.as_str()));
        f.put("score", measure_json(&scores[i].value));
        proof {
            assert(f@ =~= score_doc(scores@[i as int])->Obj_0);
        }
        let d = f.object();
        proof {
            lemma_docs_push(out@, d);
            assert(Seq::new((i + 1) as nat, g) =~= Seq::new(i as nat, g).push(d@));
        }
        out.push(d);
        i = i + 1;
    }
    proof {
        assert(docs(out@) =~= Seq::new(scores@.len(), |i: int| score_doc(scores@[i])));
    }
    list(out)
}

fn votes_json(votes: &Vec<ExecutionVote>) -> (r: Json)
    ensures
        r@ == Doc::Arr(Seq::new(votes@.len(), |i: int| vote_doc(votes@[i]))),
{
    let ghost g = |i: int| vote_doc(votes@[i]);
    let mut out: Vec<Json> = Vec::new();
    let mut i: usize = 0;
    while i < votes.len()
        invariant
            i <= votes.len(),
            g == (|i: int| vote_doc(votes@[i])),
            docs(out@) == Seq::new(i as nat, g),
        decreases votes.len() - i,
    {
        let v = &votes[i];
        let mut f = Fields::new();
        f.put("voter", text(write_id(v.voter).as_str()));
        f.put("voter_label", text(v.voter_label.as_str()));
        f.put("recommended_executor", text(v.recommended_executor.as_str()));
        f.put("confidence", measure_json(&v.confidence));
        f.put("needs_plan", truth(v.needs_plan));
        f.put("rationale", text(v.rationale.as_str()));
        f.put("parse_source", text(v.parse_source.as_str()));
        proof {
            assert(f@ =~= vote_doc(votes@[i as int])->Obj_0);
        }
        let d = f.object();
        proof {
            lemma_docs_push(out@, d);
            assert(Seq::new((i + 1) as nat, g) =~= Seq::new(i as nat, g).push(d@));
        }
        out.push(d);
        i = i + 1;
    }
    proof {
        assert(docs(out@) =~= Seq::new(votes@.len(), |i: int| vote_doc(votes@[i])));
    }
    list(out)
}

pub fn recommendation_summary_json(recommendation: Option<&Recommendation>) -> (r: Json)
    ensures
        r@ == recommendation_doc(opt_rec(recommendation)),
{
    let mut f = Fields::new();
    match recommendation {
        Some(rec) => {
            f.put("available", truth(true));
            f.put("executor", text(rec.executor.as_str()));
            f.put("confident", truth(rec.confident));
            f.put("needs_plan", truth(rec.needs_plan));
            f.put("rationale", text(rec.rationale.as_str()));
            f.put("scores", scores_json(&rec.scores));
            f.put("votes", votes_json(&rec.votes));
            proof {
                assert(f@ =~= recommendation_doc(opt_rec(recommendation))->Obj_0);
            }
            f.object()
        },
        None => {
            f.put("available", truth(false));
            proof {
                assert(f@ =~= recommendation_doc(opt_rec(recommendation))->Obj_0);
            }
            f.object()
        },
    }
}

/// The document on the project context that was used.
pub open spec fn used_context_doc(ctx: Option<ProjectContextReport>) -> Doc {
    match ctx {
        Some(c) => Doc::Obj(
            seq![
                ("enabled"@, jbool(true)),
                ("cache_hit"@, jbool(c.cache_hit)),
                ("cache_path"@, jstr(c.cache_path@)),
                ("chars"@, jnum(c.chars as int)),
                ("tokens_estimate"@, jnum(tokens_of(c.chars as nat) as int)),
                ("budgets"@, budgets_doc(c.max_files, c.max_manifest_chars)),
            ],
        ),
        None => Doc::Obj(seq![("enabled"@, jbool(false))]),
    }
}

pub fn project_context_report_summary_json(report: Option<&ProjectContextReport>) -> (r: Json)
    ensures
        r@ == used_context_doc(opt_report(report)),
{
    let mut f = Fields::new();
    match report {
        Some(c) => {
            f.put("enabled", truth(true));
            f.put("cache_hit", truth(c.cache_hit));
            f.put("cache_path", text(c.cache_path.as_str()));
            f.put("chars", size(c.chars));
            f.put("tokens_estimate", size(estimated_tokens(c.chars)));
            f.put("budgets", budgets_json(c.max_files, c.max_manifest_chars));
            proof {
                assert(f@ =~= used_context_doc(opt_report(report))->Obj_0);
            }
            f.object()
        },
        None => {
            f.put("enabled", truth(false));
            proof {
                assert(f@ =~= used_context_doc(opt_report(report))->Obj_0);
            }
            f.object()
        },
    }
}

/// The document on what an agent cost.
pub open spec fn cost_doc(entry: (String, Measure)) -> Doc {
    Doc::Obj(seq![("label"@, jstr(entry.0@)), ("usd"@, jreal(entry.1))])
}

/// The document on what the agents cost.
pub open spec fn costs_doc(costs: CostReport) -> Doc {
    let entries = costs.entries@;
    Doc::Obj(
        seq![
            ("available"@, jbool(entries.len() > 0)),
            (
                "total_usd"@,
                if entries.len() > 0 {
                    jreal(costs.total)
                } else {
                    Doc::Null
                },
            ),
            ("entries"@, Doc::Arr(Seq::new(entries.len(), |i: int| cost_doc(entries[i])))),
        ],
    )
}

pub fn reported_cost_summary_json(costs: &CostReport) -> (r: Json)
    ensures
        r@ == costs_doc(*costs),
{
    let ghost g = |i: int| cost_doc(costs.entries@[i]);
    let mut out: Vec<Json> = Vec::new();
    let mut i: usize = 0;
    while i < costs.entries.len()
        invariant
            i <= costs.entries.len(),
            g == (|i: int| cost_doc(costs.entries@[i])),
            docs(out@) == Seq::new(i as nat, g),
        decreases costs.entries.len() - i,
    {
        let mut e = Fields::new();
        e.put("label", text(costs.entries[i].0.as_str()));
        e.put("usd", measure_json(&costs.entries[i].1));
        proof {
            assert(e@ =~= cost_doc(costs.entries@[i as int])->Obj_0);
        }
        let d = e.object();
        proof {
            lemma_docs_push(out@, d);
            assert(Seq::new((i + 1) as nat, g) =~= Seq::new(i as nat, g).push(d@));
        }
        out.push(d);
        i = i + 1;
    }
    let some = !costs.entries.is_empty();
    let mut f = Fields::new();
    f.put("available", truth(some));
    f.put(
        "total_usd",
        if some {
            measure_json(&costs.total)
        } else {
            null()
        },
    );
    f.put("entries", list(out));
    proof {
        let entries = costs.entries@;
        assert(docs(out@) =~= Seq::new(entries.len(), |i: int| cost_doc(entries[i])));
        assert(f@ =~= costs_doc(*costs)->Obj_0);
    }
    f.object()
}

/// The document on the tokens that an agent reported.
pub open spec fn usage_entry_doc(entry: (String, TokenUsage)) -> Doc {
    Doc::Obj(seq![("label"@, jstr(entry.0@)), ("usage"@, usage_doc(entry.1))])
}

/// The document on the tokens that agents reported.
pub open spec fn usages_doc(usage: Seq<(String, TokenUsage)>) -> Doc {
    Doc::Obj(
        seq![
            ("available"@, jbool(usage.len() > 0)),
            (
                "total"@,
                if usage.len() > 0 {
                    usage_doc(usage_total(usage))
                } else {
                    Doc::Null
                },
            ),
            ("entries"@, Doc::Arr(Seq::new(usage.len(), |i: int| usage_entry_doc(usage[i])))),
        ],
    )
}

pub fn reported_token_usage_summary_json(usage: &Vec<(String, TokenUsage)>) -> (r: Json)
    ensures
        r@ == usages_doc(usage@),
{
    let ghost g = |i: int| usage_entry_doc(usage@[i]);
    let mut out: Vec<Json> = Vec::new();
    let mut i: usize = 0;
    while i < usage.len()
        invariant
            i <= usage.len(),
            g == (|i: int| usage_entry_doc(usage@[i])),
            docs(out@) == Seq::new(i as nat, g),
        decreases usage.len() - i,
    {
        let mut e = Fields::new();
        e.put("label", text(usage[i].0.as_str()));
        e.put("usage", token_usage_json(usage[i].1));
        proof {
            assert(e@ =~= usage_entry_doc(usage@[i as int])->Obj_0);
        }
        let d = e.object();
        proof {
            lemma_docs_push(out@, d);
            assert(Seq::new((i + 1) as nat, g) =~= Seq::new(i as nat, g).push(d@));
        }
        out.push(d);
        i = i + 1;
    }
    let some = !usage.is_empty();
    let mut f = Fields::new();
    f.put("available", truth(some));
    f.put(
        "total",
        if some {
            token_usage_json(total_usage(usage))
        } else {
            null()
        },
    );
    f.put("entries", list(out));
    proof {
        assert(docs(out@) =~= Seq::new(usage@.len(), |i: int| usage_entry_doc(usage@[i])));
        assert(f@ =~= usages_doc(usage@)->Obj_0);
    }
    f.object()
}

/// The documents on the prompts under each label.
pub open spec fn stats_docs(s: Seq<(String, PromptStats)>) -> Doc {
    Doc::Arr(Seq::new(s.len(), |i: int| stats_doc(s[i].0@, s[i].1)))
}

fn stats_list_json(s: &Vec<(String, PromptStats)>) -> (r: Json)
    ensures
        r@ == stats_docs(s@),
{
    let ghost g = |i: int| stats_doc(s@[i].0@, s@[i].1);
    let mut out: Vec<Json> = Vec::new();
    let mut i: usize = 0;
    while i < s.len()
        invariant
            i <= s.len(),
            g == (|i: int| stats_doc(s@[i].0@, s@[i].1)),
            docs(out@) == Seq::new(i as nat, g),
        decreases s.len() - i,
    {
        let d = prompt_stats_json(s[i].0.as_str(), s[i].1);
        proof {
            lemma_docs_push(out@, d);
            assert(Seq::new((i + 1) as nat, g) =~= Seq::new(i as nat, g).push(d@));
        }
        out.push(d);
        i = i + 1;
    }
    proof {
        assert(docs(out@) =~= Seq::new(s@.len(), |i: int| stats_doc(s@[i].0@, s@[i].1)));
    }
    list(out)
}

/// How much the provider counted of the estimate, in percent.
pub open spec fn provider_ratio(usage: Seq<(String, TokenUsage)>, chars: nat) -> Option<u64> {
    match input_total(usage) {
        Some(n) => Some(percent_ratio(n, tokens_of(chars) as u64)),
        None => None,
    }
}

/// The document on the prompts that were sent.
pub open spec fn telemetry_doc(
    budget: Option<usize>,
    usage: Seq<(String, TokenUsage)>,
    prompts: Seq<(String, PromptStats)>,
    phases: Seq<(String, PromptStats)>,
) -> Doc {
    let chars = total_chars(prompts);
    let most = largest_prompt(prompts);
    Doc::Obj(
        seq![
            ("prompts_sent"@, jnum(total_prompts(prompts) as int)),
            ("prompt_chars_sent"@, jnum(chars as int)),
            ("prompt_tokens_estimate"@, jnum(tokens_of(chars) as int)),
            ("max_prompt_chars"@, jnum(most as int)),
            ("max_prompt_tokens_estimate"@, jnum(tokens_of(most as nat) as int)),
            ("context_budget_chars"@, jopt_size(budget)),
            ("context_budget_tokens_estimate"@, jopt_size(opt_tokens(budget))),
            ("provider_input_tokens"@, jopt_u64(input_total(usage))),
            ("provider_input_ratio_percent"@, jopt_u64(provider_ratio(usage, chars))),
            ("by_agent"@, stats_docs(prompts)),
            ("by_phase"@, stats_docs(phases)),
        ],
    )
}

fn telemetry_json(facts: &RunFacts) -> (r: Json)
    ensures
        r@ == telemetry_doc(
            facts.context_budget_chars,
            facts.usage@,
            facts.prompts@,
            facts.phases@,
        ),
{
    let sent = totals(facts.prompts);
    let estimate: usize = estimated_tokens(sent.chars_sent);
    let input = reported_input_tokens(facts.usage);
    let ratio = match input {
        Some(n) => Some(ratio_percent(n, estimate as u64)),
        None => None,
    };
    let mut f = Fields::new();
    f.put("prompts_sent", size(sent.prompts));
    f.put("prompt_chars_sent", size(sent.chars_sent));
    f.put("prompt_tokens_estimate", size(estimate));
    f.put("max_prompt_chars", size(sent.max_chars));
    f.put("max_prompt_tokens_estimate", size(estimated_tokens(sent.max_chars)));
    f.put("context_budget_chars", opt_size(facts.context_budget_chars));
    f.put(
        "context_budget_tokens_estimate",
        opt_size(opt_estimated_tokens(facts.context_budget_chars)),
    );
    f.put("provider_input_tokens", opt_num(input));
    f.put("provider_input_ratio_percent", opt_num(ratio));
    f.put("by_agent", stats_list_json(facts.prompts));
    f.put("by_phase", stats_list_json(facts.phases));
    proof {
        assert(f@ =~= telemetry_doc(
            facts.context_budget_chars,
            facts.usage@,
            facts.prompts@,
            facts.phases@,
        )->Obj_0);
    }
    f.object()
}

/// A line without the bullets it starts with.
pub open spec fn without_bullets(s: Seq<char>) -> Seq<char>
    decreases s.len(),
{
    if s.len() >= 2 && s[0] == '-' && s[1] == ' ' {
        without_bullets(s.skip(2))
    } else {
        s
    }
}

fn strip_bullets(s: &str) -> (r: String)
    ensures
        r@ == without_bullets(s@),
{
    let c = chars_of(s);
    let mut i: usize = 0;
    proof {
        assert(s@.skip(0) =~= s@);
    }
    while c.len() - i >= 2 && c[i] == '-' && c[i + 1] == ' '
        invariant
            i <= c.len(),
            c@ == s@,
            without_bullets(s@) == without_bullets(s@.skip(i as int)),
        decreases c.len() - i,
    {
        proof {
            assert(s@.skip(i as int)[0] == c@[i as int]);
            assert(s@.skip(i as int)[1] == c@[i + 1]);
            assert(s@.skip(i as int).skip(2) =~= s@.skip(i + 2));
        }
        i = i + 2;
    }
    proof {
        let rest = s@.skip(i as int);
        if rest.len() >= 2 {
            assert(rest[0] == c@[i as int]);
            assert(rest[1] == c@[i + 1]);
        }
        assert(rest =~= s@.subrange(i as int, s@.len() as int));
    }
    text_between(&c, i, c.len())
}

/// The lines of a list without their bullets, but for blank ones.
pub open spec fn bullet_items(l: Seq<Seq<char>>) -> Seq<Seq<char>>
    decreases l.len(),
{
    if l.len() == 0 {
        Seq::empty()
    } else {
        let item = without_bullets(l.last());
        if is_blank(item) {
            bullet_items(l.drop_last())
        } else {
            bullet_items(l.drop_last()).push(item)
        }
    }
}

fn bullet_list(s: &str) -> (r: Vec<String>)
    ensures
        texts(r@) == bullet_items(lines_of(s@)),
{
    let all = lines(s);
    let ghost l = lines_of(s@);
    let mut out: Vec<String> = Vec::new();
    let mut i: usize = 0;
    proof {
        assert(texts(out@) =~= bullet_items(l.take(0)));
    }
    while i < all.len()
        invariant
            i <= all.len(),
            texts(all@) == l,
            texts(out@) == bullet_items(l.take(i as int)),
        decreases all.len() - i,
    {
        let item = strip_bullets(all[i].as_str());
        proof {
            assert(l[i as int] == all@[i as int]@);
            assert(l.take(i + 1).drop_last() =~= l.take(i as int));
            lemma_texts_push(out@, item);
        }
        if !blank(item.as_str()) {
            out.push(item);
        }
        i = i + 1;
    }
    proof {
        assert(l.take(i as int) =~= l);
    }
    out
}

/// The document on what a human said last.
pub open spec fn direction_doc(t: Seq<Utterance>) -> Doc {
    if by_humans(t).len() == 0 {
        Doc::Null
    } else {
        let u = by_humans(t).last();
        Doc::Obj(seq![("label"@, jstr(u.label@)), ("text"@, jstr(on_one_line(u.text@, 240)))])
    }
}

fn direction_json(t: &Vec<Utterance>) -> (r: Json)
    ensures
        r@ == direction_doc(t@),
{
    let last = last_human(t, 1);
    if last.is_empty() {
        return null();
    }
    let mut f = Fields::new();
    f.put("label", text(last[0].label.as_str()));
    f.put("text", text(one_line(last[0].text.as_str(), 240).as_str()));
    proof {
        assert(f@ =~= direction_doc(t@)->Obj_0);
    }
    f.object()
}

/// The document on what a planner said last.
pub open spec fn plan_doc(t: Seq<Utterance>) -> Doc {
    if by_planners(t).len() == 0 {
        Doc::Null
    } else {
        let u = by_planners(t).last();
        Doc::Obj(
            seq![
                ("label"@, jstr(u.label@)),
                ("role"@, jstr(role_name(u.role))),
                ("text"@, jstr(on_one_line(u.text@, 240))),
            ],
        )
    }
}

fn plan_json(t: &Vec<Utterance>) -> (r: Json)
    ensures
        r@ == plan_doc(t@),
{
    let last = last_planner(t, 1);
    if last.is_empty() {
        return null();
    }
    let mut f = Fields::new();
    f.put("label", text(last[0].label.as_str()));
    f.put("role", text(last[0].role.name()));
    f.put("text", text(one_line(last[0].text.as_str(), 240).as_str()));
    proof {
        assert(f@ =~= plan_doc(t@)->Obj_0);
    }
    f.object()
}

/// The document on the transcript.
pub open spec fn transcript_doc(t: Seq<Utterance>) -> Doc {
    Doc::Obj(
        seq![
            ("utterances"@, jnum(t.len() as int)),
            ("chars"@, jnum(transcript_chars(t) as int)),
        ],
    )
}

/// What the summary of a session says of the task and its outcome.
pub open spec fn summary_about(
    task: Seq<char>,
    t: Seq<Utterance>,
    build: BuildRecord,
    rec: Option<Recommendation>,
    o: RunOutcome,
    ctx: Option<ProjectContextReport>,
    changes: Option<LocalChangeSummary>,
) -> Seq<(Seq<char>, Doc)> {
    seq![
        ("kind"@, jstr("tales_session_summary"@)),
        ("schema_version"@, jnum(1)),
        ("build"@, build_doc(build)),
        ("task"@, jstr(trim(task))),
        ("outcome"@, outcome_doc(o)),
        ("next_step"@, jstr(next_step(o))),
        ("resume_packet"@, jstr(resume_packet(task, t, rec, o, ctx, changes))),
        ("recommendation"@, recommendation_doc(rec)),
        ("project_context"@, used_context_doc(ctx)),
        ("local_changes"@, changes_doc(changes)),
    ]
}

/// What the summary of a session says of its cost and its transcript.
pub open spec fn summary_numbers(
    t: Seq<Utterance>,
    budget: Option<usize>,
    hints: Seq<char>,
    costs: CostReport,
    usage: Seq<(String, TokenUsage)>,
    prompts: Seq<(String, PromptStats)>,
    phases: Seq<(String, PromptStats)>,
) -> Seq<(Seq<char>, Doc)> {
    seq![
        ("reported_cost"@, costs_doc(costs)),
        ("reported_token_usage"@, usages_doc(usage)),
        ("prompt_telemetry"@, telemetry_doc(budget, usage, prompts, phases)),
        ("optimization_hints"@, jtexts(bullet_items(lines_of(hints)))),
        ("latest_human_direction"@, direction_doc(t)),
        ("latest_planner_output"@, plan_doc(t)),
        ("transcript"@, transcript_doc(t)),
    ]
}

/// The summary of a session.
#[verifier::opaque]
pub open spec fn session_summary(
    task: Seq<char>,
    t: Seq<Utterance>,
    build: BuildRecord,
    rec: Option<Recommendation>,
    o: RunOutcome,
    budget: Option<usize>,
    ctx: Option<ProjectContextReport>,
    changes: Option<LocalChangeSummary>,
    salvaged: nat,
    costs: CostReport,
    usage: Seq<(String, TokenUsage)>,
    prompts: Seq<(String, PromptStats)>,
    phases: Seq<(String, PromptStats)>,
) -> Doc {
    let hints = optimization_hints(budget, ctx, changes, salvaged, usage, prompts, phases);
    Doc::Obj(
        summary_about(task, t, build, rec, o, ctx, changes) + summary_numbers(
            t,
            budget,
            hints,
            costs,
            usage,
            prompts,
            phases,
        ),
    )
}

fn about_fields(bb: &Blackboard, build: &BuildRecord, outcome: &RunOutcome, facts: &RunFacts) -> (r:
    Fields)
    ensures
        r@ == summary_about(
            bb.task@,
            bb.transcript@,
            *build,
            opt_rec(facts.recommendation),
            *outcome,
            opt_report(facts.project_context),
            opt_changes(facts.local_changes),
        ),
{
    let packet = compose_resume_packet(
        bb,
        facts.recommendation,
        outcome,
        facts.project_context,
        facts.local_changes,
    );
    let task = text(trimmed(bb.task.as_str()).as_str());
    let mut f = Fields::new();
    f.put("kind", text("tales_session_summary"));
    f.put("schema_version", size(1));
    f.put("build", crate::build_info::json(build));
    f.put("task", task);
    f.put("outcome", outcome_summary_json(outcome));
    f.put("next_step", text(resume_next_step(outcome)));
    f.put("resume_packet", text(packet.as_str()));
    f.put("recommendation", recommendation_summary_json(facts.recommendation));
    f.put("project_context", project_context_report_summary_json(facts.project_context));
    f.put("local_changes", local_change_summary_status_json(facts.local_changes));
    f
}

fn transcript_json(bb: &Blackboard) -> (r: Json)
    ensures
        r@ == transcript_doc(bb.transcript@),
{
    let mut f = Fields::new();
    f.put("utterances", size(bb.transcript.len()));
    f.put("chars", size(bb.said_chars()));
    proof {
        assert(f@ =~= transcript_doc(bb.transcript@)->Obj_0);
    }
    f.object()
}

fn put_numbers(f: &mut Fields, bb: &Blackboard, hints: &str, facts: &RunFacts)
    ensures
        final(f)@ == old(f)@ + summary_numbers(
            bb.transcript@,
            facts.context_budget_chars,
            hints@,
            *facts.costs,
            facts.usage@,
            facts.prompts@,
            facts.phases@,
        ),
{
    let ghost before = f@;
    let a = reported_cost_summary_json(facts.costs);
    let b = reported_token_usage_summary_json(facts.usage);
    let c = telemetry_json(facts);
    let d = text_list(&bullet_list(hints));
    let e = direction_json(&bb.transcript);
    let g = plan_json(&bb.transcript);
    let h = transcript_json(bb);
    let ghost all = seq![
        ("reported_cost"@, a@),
        ("reported_token_usage"@, b@),
        ("prompt_telemetry"@, c@),
        ("optimization_hints"@, d@),
        ("latest_human_direction"@, e@),
        ("latest_planner_output"@, g@),
        ("transcript"@, h@),
    ];
    f.put("reported_cost", a);
    f.put("reported_token_usage", b);
    f.put("prompt_telemetry", c);
    f.put("optimization_hints", d);
    f.put("latest_human_direction", e);
    f.put("latest_planner_output", g);
    f.put("transcript", h);
    proof {
        assert(f@ =~= before + all);
    }
}

/// The summary of a session.
pub fn compose_session_summary(
    bb: &Blackboard,
    build: &BuildRecord,
    outcome: &RunOutcome,
    facts: &RunFacts,
) -> (r: Json)
    ensures
        r@ == session_summary(
            bb.task@,
            bb.transcript@,
            *build,
            opt_rec(facts.recommendation),
            *outcome,
            facts.context_budget_chars,
            opt_report(facts.project_context),
            opt_changes(facts.local_changes),
            facts.salvaged_votes as nat,
            *facts.costs,
            facts.usage@,
            facts.prompts@,
            facts.phases@,
        ),
{
    proof {
        reveal(session_summary);
    }
    let hints = compose_optimization_hints(facts);
    let mut f = about_fields(bb, build, outcome, facts);
    put_numbers(&mut f, bb, hints.as_str(), facts);
    f.object()
}

} // verus!
