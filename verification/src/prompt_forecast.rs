//! How many prompts a run will send, and how much of their payload is known
//! before any model is called.
use vstd::prelude::*;
use crate::arith::{ceil_div, quotient_up};
use crate::context::{capped_marker, edges_marker, estimated_tokens, tokens_of};
use crate::json::{
    docs, jnum, jstr, jtexts, lemma_docs_push, num, size, text, text_list, Doc, Fields, Json,
};
use crate::numeral::{dec, decimal_size};
use crate::text::{char_count, texts};

verus! {

/// How many sections a project context is cut into.
pub const BUDGETED_PROJECT_CONTEXT_SECTIONS: usize = 5;

/// What is known of the context before a run.
#[derive(Clone, Copy, Debug, Default, PartialEq, Eq)]
pub struct PreflightContextSummary {
    pub project_context_chars: Option<usize>,
    pub project_context_cache_hit: Option<bool>,
    pub local_change_handoff_chars: Option<usize>,
}

/// How many prompts a run will send, and how large what is known of them is.
#[derive(Clone, Copy, Debug, PartialEq, Eq)]
pub struct PromptForecast {
    pub planner_count: usize,
    pub planning_prompts: usize,
    pub recommendation_prompts: usize,
    pub execution_prompts: usize,
    pub max_vote_repair_prompts: usize,
    pub first_context_prompts: usize,
    pub project_context_payload_chars: usize,
    pub local_change_payload_chars: usize,
    pub known_payload_chars: usize,
}

impl PromptForecast {
    /// All prompts, without repairs of votes.
    pub open spec fn total(&self) -> nat {
        (self.planning_prompts + self.recommendation_prompts + self.execution_prompts) as nat
    }

    /// All prompts, where every vote has to be repaired.
    pub open spec fn worst(&self) -> nat {
        self.total() + self.max_vote_repair_prompts as nat
    }

    /// Whether the number of prompts can be counted at all.
    pub fn countable(&self) -> (r: bool)
        ensures
            r == (self.worst() <= usize::MAX),
    {
        let a: usize = self.planning_prompts;
        let b: usize = self.recommendation_prompts;
        let c: usize = self.execution_prompts;
        let d: usize = self.max_vote_repair_prompts;
        match a.checked_add(b) {
            Some(ab) => match ab.checked_add(c) {
                Some(abc) => abc.checked_add(d).is_some(),
                None => false,
            },
            None => false,
        }
    }

    pub fn total_prompts(&self) -> (r: usize)
        requires
            self.total() <= usize::MAX,
        ensures
            r == self.total(),
    {
        self.planning_prompts + self.recommendation_prompts + self.execution_prompts
    }

    pub fn worst_case_total_prompts(&self) -> (r: usize)
        requires
            self.worst() <= usize::MAX,
        ensures
            r == self.worst(),
    {
        self.total_prompts() + self.max_vote_repair_prompts
    }
}

// ---- Forecast ------------------------------------------------------------------

/// At least one planner.
pub open spec fn planners_at_least_one(planners: nat) -> nat {
    if planners == 0 {
        1
    } else {
        planners
    }
}

/// How many rounds the planners go in parallel: their share of the turns, at
/// least two and at most six.
pub open spec fn rounds_of(max_turns: nat, planners: nat) -> nat {
    let share = max_turns / planners_at_least_one(planners);
    if share < 2 {
        2
    } else if share > 6 {
        6
    } else {
        share
    }
}

/// How many rounds the planners go in parallel.
pub fn parallel_rounds(max_turns: usize, planners: usize) -> (r: usize)
    ensures
        r == rounds_of(max_turns as nat, planners as nat),
        2 <= r <= 6,
{
    let p: usize = if planners == 0 {
        1
    } else {
        planners
    };
    let share: usize = max_turns / p;
    if share < 2 {
        2
    } else if share > 6 {
        6
    } else {
        share
    }
}

/// How many characters the line about a cut section and the mark between its
/// two ends take.
pub open spec fn edge_marker_len(max: nat) -> nat {
    (edges_marker(max) + "...\n"@).len()
}

/// What a budget leaves for each section of a cut project context.
pub open spec fn section_budget(max: nat) -> nat {
    if max / 5 == 0 {
        1
    } else {
        max / 5
    }
}

/// How many characters the marks in a cut project context take.
pub open spec fn cap_overhead(max: nat) -> nat {
    capped_marker(5).len() + 5 * edge_marker_len(section_budget(max))
}

/// How many characters of project context a prompt carries: all of it, or the
/// budget and the marks.
pub open spec fn context_payload(chars: nat, budget: Option<usize>) -> nat {
    match budget {
        Some(max) => if max > 0 && chars > max {
            max as nat + cap_overhead(max as nat)
        } else {
            chars
        },
        None => chars,
    }
}

/// What a forecast is made from.
pub struct ForecastInput {
    pub task_chars: usize,
    pub planner_count: usize,
    pub turns: usize,
    pub sequential: bool,
    pub include_execution: bool,
    pub context: PreflightContextSummary,
    pub context_budget_chars: Option<usize>,
}

impl ForecastInput {
    pub open spec fn planners(self) -> nat {
        planners_at_least_one(self.planner_count as nat)
    }

    /// The prompts for planning: one per turn where the planners take turns,
    /// else one per planner and round.
    pub open spec fn planning(self) -> nat {
        if self.sequential {
            self.turns as nat
        } else {
            rounds_of(self.turns as nat, self.planners()) * self.planners()
        }
    }

    /// The prompts for votes: one per planner where there is something to
    /// execute.
    pub open spec fn voting(self) -> nat {
        if self.include_execution {
            self.planners()
        } else {
            0
        }
    }

    pub open spec fn executing(self) -> nat {
        if self.include_execution {
            1
        } else {
            0
        }
    }

    /// The prompts that carry the project context: the first of each planner.
    pub open spec fn with_context(self) -> nat {
        match self.context.project_context_chars {
            Some(_) => if self.sequential && self.turns < self.planners() {
                self.turns as nat
            } else {
                self.planners()
            },
            None => 0,
        }
    }

    /// The project context in all prompts that carry it.
    pub open spec fn context_total(self) -> nat {
        match self.context.project_context_chars {
            Some(chars) => context_payload(chars as nat, self.context_budget_chars)
                * self.with_context(),
            None => 0,
        }
    }

    /// The local changes that the execution is told of.
    pub open spec fn changes_total(self) -> nat {
        match self.context.local_change_handoff_chars {
            Some(chars) => if self.include_execution {
                chars as nat
            } else {
                0
            },
            None => 0,
        }
    }

    pub open spec fn total(self) -> nat {
        self.planning() + self.voting() + self.executing()
    }

    /// All that is known of the prompts: the task in each of them, the project
    /// context and the local changes.
    pub open spec fn known(self) -> nat {
        self.task_chars as nat * self.total() + self.context_total() + self.changes_total()
    }

    /// Whether the forecast's numbers can be counted at all.
    pub open spec fn fits(self) -> bool {
        &&& self.total() <= usize::MAX
        &&& self.known() <= usize::MAX
        &&& (self.context.project_context_chars matches Some(chars) ==> context_payload(
            chars as nat,
            self.context_budget_chars,
        ) <= usize::MAX)
    }

    /// Whether a forecast is the one for this input.
    pub open spec fn foretells(self, r: PromptForecast) -> bool {
        &&& r.planner_count == self.planners()
        &&& r.planning_prompts == self.planning()
        &&& r.recommendation_prompts == self.voting()
        &&& r.execution_prompts == self.executing()
        &&& r.max_vote_repair_prompts == self.voting()
        &&& r.first_context_prompts == self.with_context()
        &&& r.project_context_payload_chars == self.context_total()
        &&& r.local_change_payload_chars == self.changes_total()
        &&& r.known_payload_chars == self.known()
    }
}

/// How many characters the marks round a cut section take.
pub fn edge_marker_chars(max_chars: usize) -> (r: usize)
    ensures
        r == edge_marker_len(max_chars as nat),
        r <= 200,
{
    let head: usize = if max_chars / 2 == 0 {
        1
    } else {
        max_chars / 2
    };
    let tail: usize = if max_chars <= head {
        1
    } else {
        max_chars - head
    };
    let mut out = "(middle context omitted; showing first ".to_owned();
    out.append(decimal_size(head).as_str());
    out.append(" and last ");
    out.append(decimal_size(tail).as_str());
    out.append(" chars)\n");
    out.append("...\n");
    proof {
        assert(out@ =~= edges_marker(max_chars as nat) + "...\n"@);
        reveal_strlit("(middle context omitted; showing first ");
        reveal_strlit(" and last ");
        reveal_strlit(" chars)\n");
        reveal_strlit("...\n");
        lemma_dec_short(head as nat);
        lemma_dec_short(tail as nat);
    }
    char_count(out.as_str())
}

/// A number that fits a machine word has at most twenty digits.
proof fn lemma_dec_short(n: nat)
    requires
        n <= u64::MAX,
    ensures
        dec(n).len() <= 20,
{
    crate::numeral::lemma_dec_len(n);
    assert(ten_to(20) == 100_000_000_000_000_000_000) by {
        reveal_with_fuel(ten_to, 21);
    }
    lemma_dec_len_bound(n, 20);
}

spec fn ten_to(k: nat) -> nat
    decreases k,
{
    if k == 0 {
        1
    } else {
        10 * ten_to((k - 1) as nat)
    }
}

proof fn lemma_dec_len_bound(n: nat, k: nat)
    requires
        k >= 1,
        n < ten_to(k),
    ensures
        crate::numeral::dec_len(n) <= k,
    decreases k,
{
    if n >= 10 {
        assert(k > 1) by {
            assert(ten_to(1) == 10) by {
                reveal_with_fuel(ten_to, 2);
            }
        }
        lemma_dec_len_bound(n / 10, (k - 1) as nat);
    }
}

/// How many characters the marks in a cut project context take.
pub fn project_context_cap_overhead_chars(max_chars: usize) -> (r: usize)
    ensures
        r == cap_overhead(max_chars as nat),
        r <= 1100,
{
    let share: usize = if max_chars / BUDGETED_PROJECT_CONTEXT_SECTIONS == 0 {
        1
    } else {
        max_chars / BUDGETED_PROJECT_CONTEXT_SECTIONS
    };
    let mut out = "(project context capped; preserving ".to_owned();
    out.append(decimal_size(BUDGETED_PROJECT_CONTEXT_SECTIONS).as_str());
    out.append(" sections)\n");
    proof {
        reveal_strlit("(project context capped; preserving ");
        reveal_strlit(" sections)\n");
        assert(out@ =~= capped_marker(5));
        lemma_dec_short(5);
        assert(out@.len() <= 100);
    }
    let head: usize = char_count(out.as_str());
    let marks: usize = edge_marker_chars(share);
    head + BUDGETED_PROJECT_CONTEXT_SECTIONS * marks
}

fn checked_context_payload(chars: usize, context_budget_chars: Option<usize>) -> (r: Option<usize>)
    ensures
        r is Some == (context_payload(chars as nat, context_budget_chars) <= usize::MAX),
        r matches Some(n) ==> n == context_payload(chars as nat, context_budget_chars),
{
    match context_budget_chars {
        Some(max) => if max > 0 && chars > max {
            max.checked_add(project_context_cap_overhead_chars(max))
        } else {
            Some(chars)
        },
        None => Some(chars),
    }
}

/// What a forecast is made from.
pub open spec fn input_of(
    task_chars: usize,
    planner_count: usize,
    turns: usize,
    sequential: bool,
    include_execution: bool,
    context: PreflightContextSummary,
    context_budget_chars: Option<usize>,
) -> ForecastInput {
    ForecastInput {
        task_chars,
        planner_count,
        turns,
        sequential,
        include_execution,
        context,
        context_budget_chars,
    }
}

fn context_payload_total(
    context: &PreflightContextSummary,
    budget: Option<usize>,
    prompts: usize,
) -> (r: Option<usize>)
    ensures
        match context.project_context_chars {
            Some(chars) => {
                let one = context_payload(chars as nat, budget);
                &&& r is Some == (one <= usize::MAX && one * prompts <= usize::MAX)
                &&& r matches Some(n) ==> n == one * prompts
            },
            None => r == Some(0usize),
        },
{
    match context.project_context_chars {
        Some(chars) => match checked_context_payload(chars, budget) {
            Some(one) => one.checked_mul(prompts),
            None => None,
        },
        None => Some(0),
    }
}

/// Forecasts the prompts of a run; nothing where their number or size cannot be
/// counted.
pub fn checked_forecast(
    task_chars: usize,
    planner_count: usize,
    turns: usize,
    sequential: bool,
    include_execution: bool,
    context: &PreflightContextSummary,
    context_budget_chars: Option<usize>,
) -> (r: Option<PromptForecast>)
    ensures
        r is Some == input_of(
            task_chars,
            planner_count,
            turns,
            sequential,
            include_execution,
            *context,
            context_budget_chars,
        ).fits(),
        r matches Some(f) ==> input_of(
            task_chars,
            planner_count,
            turns,
            sequential,
            include_execution,
            *context,
            context_budget_chars,
        ).foretells(f),
{
    let ghost input = input_of(
        task_chars,
        planner_count,
        turns,
        sequential,
        include_execution,
        *context,
        context_budget_chars,
    );
    let planners: usize = if planner_count == 0 {
        1
    } else {
        planner_count
    };
    let planning: usize = if sequential {
        turns
    } else {
        match parallel_rounds(turns, planners).checked_mul(planners) {
            Some(n) => n,
            None => {
                return None;
            },
        }
    };
    let voting: usize = if include_execution {
        planners
    } else {
        0
    };
    let executing: usize = if include_execution {
        1
    } else {
        0
    };
    let first_context_prompts: usize = match context.project_context_chars {
        Some(_) => if sequential && turns < planners {
            turns
        } else {
            planners
        },
        None => 0,
    };
    let changes: usize = match context.local_change_handoff_chars {
        Some(chars) => if include_execution {
            chars
        } else {
            0
        },
        None => 0,
    };
    assert(planning == input.planning());
    assert(first_context_prompts == input.with_context());
    assert(changes == input.changes_total());
    assert(input.known() >= input.context_total());
    let payload = match context_payload_total(
        context,
        context_budget_chars,
        first_context_prompts,
    ) {
        Some(n) => n,
        None => {
            return None;
        },
    };
    assert(payload == input.context_total());
    let some_prompts = match planning.checked_add(voting) {
        Some(n) => n,
        None => {
            return None;
        },
    };
    let total = match some_prompts.checked_add(executing) {
        Some(n) => n,
        None => {
            return None;
        },
    };
    assert(total == input.total());
    let tasks = match task_chars.checked_mul(total) {
        Some(n) => n,
        None => {
            return None;
        },
    };
    let with_payload = match tasks.checked_add(payload) {
        Some(n) => n,
        None => {
            return None;
        },
    };
    let known = match with_payload.checked_add(changes) {
        Some(n) => n,
        None => {
            return None;
        },
    };
    Some(
        PromptForecast {
            planner_count: planners,
            planning_prompts: planning,
            recommendation_prompts: voting,
            execution_prompts: executing,
            max_vote_repair_prompts: voting,
            first_context_prompts,
            project_context_payload_chars: payload,
            local_change_payload_chars: changes,
            known_payload_chars: known,
        },
    )
}

/// Forecasts the prompts of a run.
pub fn forecast_prompt_usage(
    task_chars: usize,
    planner_count: usize,
    turns: usize,
    sequential: bool,
    include_execution: bool,
    context: &PreflightContextSummary,
    context_budget_chars: Option<usize>,
) -> (r: PromptForecast)
    requires
        input_of(
            task_chars,
            planner_count,
            turns,
            sequential,
            include_execution,
            *context,
            context_budget_chars,
        ).fits(),
    ensures
        input_of(
            task_chars,
            planner_count,
            turns,
            sequential,
            include_execution,
            *context,
            context_budget_chars,
        ).foretells(r),
{
    checked_forecast(
        task_chars,
        planner_count,
        turns,
        sequential,
        include_execution,
        context,
        context_budget_chars,
    ).unwrap()
}

/// Planning in parallel asks every planner the same number of times, and the
/// project context goes to each of them once.
pub proof fn law_parallel_planning_is_even(input: ForecastInput, r: PromptForecast)
    requires
        input.foretells(r),
        !input.sequential,
    ensures
        r.planning_prompts == rounds_of(input.turns as nat, input.planners()) * r.planner_count,
        input.context.project_context_chars is Some ==> r.first_context_prompts == r.planner_count,
{
}

/// The project context is forecast for every planner that gets a turn, once:
/// for each planner where they go in rounds, and where they take turns for as
/// many as there are turns, but for no planner twice. Where there is no project
/// context it is forecast for none.
pub proof fn law_planners_get_the_context_once(input: ForecastInput, r: PromptForecast)
    requires
        input.foretells(r),
    ensures
        r.first_context_prompts <= r.planner_count,
        r.first_context_prompts <= r.planning_prompts,
        input.context.project_context_chars is None ==> r.first_context_prompts == 0,
        input.context.project_context_chars is Some && !input.sequential ==> r.first_context_prompts
            == r.planner_count,
        input.context.project_context_chars is Some && input.sequential && input.turns
            <= r.planner_count ==> r.first_context_prompts == input.turns,
        input.context.project_context_chars is Some && input.sequential && input.turns
            >= r.planner_count ==> r.first_context_prompts == r.planner_count,
        input.planner_count > 0 ==> r.planner_count == input.planner_count,
        input.planner_count == 0 ==> r.planner_count == 1,
{
    law_rounds_share_the_turns(input.turns as nat, input.planners());
    if !input.sequential {
        let n = rounds_of(input.turns as nat, input.planners()) as int;
        let p = input.planners() as int;
        assert(n * p >= p) by (nonlinear_arith)
            requires
                n >= 2,
                p >= 0,
        ;
    }
}

/// Planners that go in rounds go at least two and at most six, and in between as
/// many as give each its share of the turns.
pub proof fn law_rounds_share_the_turns(turns: nat, planners: nat)
    ensures
        2 <= rounds_of(turns, planners) <= 6,
        planners > 0 && 2 * planners <= turns < 7 * planners ==> {
            &&& rounds_of(turns, planners) * planners <= turns
            &&& turns < (rounds_of(turns, planners) + 1) * planners
        },
        planners > 0 && turns < 2 * planners ==> rounds_of(turns, planners) == 2,
        planners > 0 && turns >= 7 * planners ==> rounds_of(turns, planners) == 6,
{
    if planners > 0 {
        let t = turns as int;
        let p = planners as int;
        let q = t / p;
        let rest = t % p;
        vstd::arithmetic::div_mod::lemma_fundamental_div_mod(t, p);
        vstd::arithmetic::div_mod::lemma_mod_bound(t, p);
        assert(t == p * q + rest);
        assert(q * p <= t && t < (q + 1) * p) by (nonlinear_arith)
            requires
                t == p * q + rest,
                0 <= rest < p,
        ;
        assert(q < 2 <==> t < 2 * p) by (nonlinear_arith)
            requires
                q * p <= t,
                t < (q + 1) * p,
                p > 0,
        ;
        assert(q < 7 <==> t < 7 * p) by (nonlinear_arith)
            requires
                q * p <= t,
                t < (q + 1) * p,
                p > 0,
        ;
    }
}

/// What is known of a run's payload is the task once for each prompt, the
/// project context once for each planner that is told it, and the local changes
/// where something is executed. A context that fits its budget counts as it is,
/// and one that does not counts no less than the budget.
pub proof fn law_known_payload_adds_up(input: ForecastInput, r: PromptForecast)
    requires
        input.foretells(r),
    ensures
        r.recommendation_prompts == (if input.include_execution {
            r.planner_count
        } else {
            0
        }),
        r.execution_prompts == (if input.include_execution {
            1int
        } else {
            0
        }),
        r.max_vote_repair_prompts == r.recommendation_prompts,
        input.sequential ==> r.planning_prompts == input.turns,
        r.local_change_payload_chars == (match input.context.local_change_handoff_chars {
            Some(n) => if input.include_execution {
                n as int
            } else {
                0
            },
            None => 0,
        }),
        r.known_payload_chars == input.task_chars * (r.planning_prompts + r.recommendation_prompts
            + r.execution_prompts) + r.project_context_payload_chars + r.local_change_payload_chars,
        input.context.project_context_chars is None ==> r.project_context_payload_chars == 0,
        input.context.project_context_chars matches Some(chars) ==> match input.context_budget_chars {
            None => r.project_context_payload_chars == chars * r.first_context_prompts,
            Some(max) => if max == 0 || chars <= max {
                r.project_context_payload_chars == chars * r.first_context_prompts
            } else {
                r.project_context_payload_chars >= max * r.first_context_prompts
            },
        },
{
    if let Some(chars) = input.context.project_context_chars {
        if let Some(max) = input.context_budget_chars {
            if max > 0 && chars > max {
                let one = context_payload(chars as nat, Some(max)) as int;
                let n = r.first_context_prompts as int;
                let m = max as int;
                assert(one * n >= m * n) by (nonlinear_arith)
                    requires
                        one >= m,
                        n >= 0,
                ;
            }
        }
    }
}

// ---- Advice --------------------------------------------------------------------

/// How a piece of advice is meant.
#[derive(Clone, Copy, Debug, PartialEq, Eq, Structural)]
pub enum AdviceLevel {
    Good,
    Info,
    Warn,
}

/// The name of a level.
pub open spec fn level_name(level: AdviceLevel) -> Seq<char> {
    match level {
        AdviceLevel::Good => "good"@,
        AdviceLevel::Info => "info"@,
        AdviceLevel::Warn => "warn"@,
    }
}

impl AdviceLevel {
    pub fn as_str(self) -> (r: &'static str)
        ensures
            r@ == level_name(self),
    {
        match self {
            AdviceLevel::Good => "good",
            AdviceLevel::Info => "info",
            AdviceLevel::Warn => "warn",
        }
    }
}

/// A piece of advice on a run.
#[derive(Debug)]
pub struct RunAdvice {
    pub key: &'static str,
    pub level: AdviceLevel,
    pub title: String,
    pub detail: String,
}

/// A piece of advice on a run, as a value.
pub struct AdviceView {
    pub key: Seq<char>,
    pub level: AdviceLevel,
    pub title: Seq<char>,
    pub detail: Seq<char>,
}

impl View for RunAdvice {
    type V = AdviceView;

    open spec fn view(&self) -> AdviceView {
        AdviceView {
            key: self.key@,
            level: self.level,
            title: self.title@,
            detail: self.detail@,
        }
    }
}

pub open spec fn advice_view(
    key: Seq<char>,
    level: AdviceLevel,
    title: Seq<char>,
    detail: Seq<char>,
) -> AdviceView {
    AdviceView { key, level, title, detail }
}

/// A list of advice as values.
pub open spec fn advices(v: Seq<RunAdvice>) -> Seq<AdviceView> {
    Seq::new(v.len(), |i: int| v[i]@)
}

/// What is known of a run when advice on it is given.
#[derive(Clone, Copy, Debug)]
pub struct RunAdviceInput<'a> {
    pub forecast: &'a PromptForecast,
    pub context: &'a PreflightContextSummary,
    /// The budget in force; none where there is no limit.
    pub effective_context_budget_chars: Option<usize>,
    pub turns: usize,
    pub sequential: bool,
    pub include_execution: bool,
    pub separate_executor: bool,
}

/// The advice on how the planners go.
pub open spec fn shape_advice(input: RunAdviceInput) -> Seq<AdviceView> {
    let f = *input.forecast;
    if input.sequential {
        seq![
            advice_view(
                "planning_shape"@,
                AdviceLevel::Warn,
                "Sequential planning"@,
                dec(input.turns as nat)
                    + " planner waits; omit --sequential when latency matters."@,
            ),
        ]
    } else if f.planner_count > 1 {
        seq![
            advice_view(
                "planning_shape"@,
                AdviceLevel::Good,
                "Parallel planning"@,
                dec(ceil_div(f.planning_prompts as nat, f.planner_count as nat))
                    + " waits across "@ + dec(f.planner_count as nat) + " planners instead of "@
                    + dec(input.turns as nat) + " sequential turns."@,
            ),
        ]
    } else {
        Seq::empty()
    }
}

/// The advice on the project context's cache.
pub open spec fn cache_advice(input: RunAdviceInput) -> Seq<AdviceView> {
    match (*input.context).project_context_chars {
        Some(_) => match (*input.context).project_context_cache_hit {
            Some(hit) => if hit {
                seq![
                    advice_view(
                        "project_context_cache"@,
                        AdviceLevel::Good,
                        "Context cache hit"@,
                        "Stable repo map reused; agents skip rediscovery work."@,
                    ),
                ]
            } else {
                seq![
                    advice_view(
                        "project_context_cache"@,
                        AdviceLevel::Info,
                        "Context cache rebuilt"@,
                        "This run pays the indexing cost; the next matching run should hit cache."@,
                    ),
                ]
            },
            None => Seq::empty(),
        },
        None => seq![
            advice_view(
                "project_context_cache"@,
                AdviceLevel::Warn,
                "Project context off"@,
                "Agents may spend extra tokens rediscovering repo shape."@,
            ),
        ],
    }
}

/// The advice on the project context's size.
pub open spec fn cap_advice(input: RunAdviceInput) -> Seq<AdviceView> {
    match (*input.context).project_context_chars {
        Some(chars) => match input.effective_context_budget_chars {
            Some(budget) => if chars > budget {
                seq![
                    advice_view(
                        "context_cap"@,
                        AdviceLevel::Good,
                        "Context capped"@,
                        dec(chars as nat)
                            + " source chars are budgeted before first planner prompts."@,
                    ),
                ]
            } else if 2 * chars < budget {
                seq![
                    advice_view(
                        "context_cap"@,
                        AdviceLevel::Info,
                        "Context comfortably fits"@,
                        dec(chars as nat) + "/"@ + dec(budget as nat)
                            + " chars leaves room for task-specific context."@,
                    ),
                ]
            } else {
                Seq::empty()
            },
            None => seq![
                advice_view(
                    "context_cap"@,
                    AdviceLevel::Warn,
                    "Unlimited context"@,
                    "Prompt payload can grow without a deterministic cap."@,
                ),
            ],
        },
        None => Seq::empty(),
    }
}

/// The advice on who executes.
pub open spec fn tier_advice(separate: bool) -> AdviceView {
    if separate {
        advice_view(
            "tiered_execution"@,
            AdviceLevel::Good,
            "Tiered execution"@,
            "Planner models can spend judgment while a separate executor does the typing."@,
        )
    } else {
        advice_view(
            "tiered_execution"@,
            AdviceLevel::Info,
            "Participant executor"@,
            "Execution reuses a planning participant; simpler, but less cost-tiered."@,
        )
    }
}

/// The advice on votes that may have to be repaired.
pub open spec fn repair_advice(f: PromptForecast) -> Seq<AdviceView> {
    if f.max_vote_repair_prompts > 0 {
        seq![
            advice_view(
                "vote_repair"@,
                AdviceLevel::Warn,
                "Vote repair risk"@,
                "Base call plan is "@ + dec(f.total()) + "; worst case is "@ + dec(f.worst())
                    + " if all recommendation votes need repair. Common vote aliases and unambiguous candidate mentions are accepted without repair."@,
            ),
        ]
    } else {
        Seq::empty()
    }
}

/// The advice on local changes.
pub open spec fn changes_advice(chars: Option<usize>) -> Seq<AdviceView> {
    match chars {
        Some(chars) => if chars > 8_000 {
            seq![
                advice_view(
                    "local_change_handoff"@,
                    AdviceLevel::Warn,
                    "Large dirty-worktree handoff"@,
                    dec(chars as nat)
                        + " chars of local changes will be preserved in execution context."@,
                ),
            ]
        } else if chars > 0 {
            seq![
                advice_view(
                    "local_change_handoff"@,
                    AdviceLevel::Info,
                    "Dirty worktree protected"@,
                    "Executor prompt includes a compact local-change handoff."@,
                ),
            ]
        } else {
            Seq::empty()
        },
        None => Seq::empty(),
    }
}

/// The advice on the execution, where there is one.
pub open spec fn execution_advice(input: RunAdviceInput) -> Seq<AdviceView> {
    if input.include_execution {
        seq![tier_advice(input.separate_executor)] + repair_advice(*input.forecast)
            + changes_advice((*input.context).local_change_handoff_chars)
    } else {
        Seq::empty()
    }
}

/// All advice on a run.
pub open spec fn run_advice(input: RunAdviceInput) -> Seq<AdviceView> {
    shape_advice(input) + cache_advice(input) + cap_advice(input) + execution_advice(input)
}

fn advise(
    out: &mut Vec<RunAdvice>,
    key: &'static str,
    level: AdviceLevel,
    title: &str,
    detail: String,
)
    ensures
        advices(final(out)@) == advices(old(out)@) + seq![
            advice_view(key@, level, title@, detail@),
        ],
{
    let item = RunAdvice { key, level, title: title.to_owned(), detail };
    let ghost before = out@;
    out.push(item);
    proof {
        assert(advices(out@) =~= advices(before) + seq![
            advice_view(key@, level, title@, detail@),
        ]);
    }
}

fn advise_shape(out: &mut Vec<RunAdvice>, input: &RunAdviceInput)
    ensures
        advices(final(out)@) == advices(old(out)@) + shape_advice(*input),
{
    let forecast = input.forecast;
    let ghost before = advices(out@);
    if input.sequential {
        let mut detail = decimal_size(input.turns);
        detail.append(" planner waits; omit --sequential when latency matters.");
        advise(out, "planning_shape", AdviceLevel::Warn, "Sequential planning", detail);
        proof {
            assert(advices(out@) =~= before + shape_advice(*input));
        }
    } else if forecast.planner_count > 1 {
        let rounds = quotient_up(forecast.planning_prompts, forecast.planner_count);
        let mut detail = decimal_size(rounds);
        detail.append(" waits across ");
        detail.append(decimal_size(forecast.planner_count).as_str());
        detail.append(" planners instead of ");
        detail.append(decimal_size(input.turns).as_str());
        detail.append(" sequential turns.");
        advise(out, "planning_shape", AdviceLevel::Good, "Parallel planning", detail);
        proof {
            assert(advices(out@) =~= before + shape_advice(*input));
        }
    } else {
        proof {
            assert(before + Seq::<AdviceView>::empty() =~= before);
        }
    }
}

fn advise_cache(out: &mut Vec<RunAdvice>, input: &RunAdviceInput)
    ensures
        advices(final(out)@) == advices(old(out)@) + cache_advice(*input),
{
    let ghost before = advices(out@);
    match input.context.project_context_chars {
        Some(_) => match input.context.project_context_cache_hit {
            Some(hit) => if hit {
                advise(
                    out,
                    "project_context_cache",
                    AdviceLevel::Good,
                    "Context cache hit",
                    "Stable repo map reused; agents skip rediscovery work.".to_owned(),
                );
            } else {
                advise(
                    out,
                    "project_context_cache",
                    AdviceLevel::Info,
                    "Context cache rebuilt",
                    "This run pays the indexing cost; the next matching run should hit cache.".to_owned(),
                );
            },
            None => {
                proof {
                    assert(before + Seq::<AdviceView>::empty() =~= before);
                }
            },
        },
        None => {
            advise(
                out,
                "project_context_cache",
                AdviceLevel::Warn,
                "Project context off",
                "Agents may spend extra tokens rediscovering repo shape.".to_owned(),
            );
        },
    }
}

fn advise_cap(out: &mut Vec<RunAdvice>, input: &RunAdviceInput)
    ensures
        advices(final(out)@) == advices(old(out)@) + cap_advice(*input),
{
    let ghost before = advices(out@);
    proof {
        assert(before + Seq::<AdviceView>::empty() =~= before);
    }
    if let Some(chars) = input.context.project_context_chars {
        match input.effective_context_budget_chars {
            Some(budget) => {
                if chars > budget {
                    let mut detail = decimal_size(chars);
                    detail.append(" source chars are budgeted before first planner prompts.");
                    advise(out, "context_cap", AdviceLevel::Good, "Context capped", detail);
                } else if chars < budget - chars {
                    let mut detail = decimal_size(chars);
                    detail.append("/");
                    detail.append(decimal_size(budget).as_str());
                    detail.append(" chars leaves room for task-specific context.");
                    advise(
                        out,
                        "context_cap",
                        AdviceLevel::Info,
                        "Context comfortably fits",
                        detail,
                    );
                }
            },
            None => {
                advise(
                    out,
                    "context_cap",
                    AdviceLevel::Warn,
                    "Unlimited context",
                    "Prompt payload can grow without a deterministic cap.".to_owned(),
                );
            },
        }
    }
}

fn advise_execution(out: &mut Vec<RunAdvice>, input: &RunAdviceInput)
    requires
        input.include_execution && (*input.forecast).max_vote_repair_prompts > 0 ==> (
        *input.forecast).worst() <= usize::MAX,
    ensures
        advices(final(out)@) == advices(old(out)@) + execution_advice(*input),
{
    let ghost before = advices(out@);
    let forecast = input.forecast;
    if !input.include_execution {
        proof {
            assert(before + Seq::<AdviceView>::empty() =~= before);
        }
        return;
    }
    if input.separate_executor {
        advise(
            out,
            "tiered_execution",
            AdviceLevel::Good,
            "Tiered execution",
            "Planner models can spend judgment while a separate executor does the typing.".to_owned(),
        );
    } else {
        advise(
            out,
            "tiered_execution",
            AdviceLevel::Info,
            "Participant executor",
            "Execution reuses a planning participant; simpler, but less cost-tiered.".to_owned(),
        );
    }
    let ghost first = advices(out@);
    if forecast.max_vote_repair_prompts > 0 {
        let mut detail = "Base call plan is ".to_owned();
        detail.append(decimal_size(forecast.total_prompts()).as_str());
        detail.append("; worst case is ");
        detail.append(decimal_size(forecast.worst_case_total_prompts()).as_str());
        detail.append(
            " if all recommendation votes need repair. Common vote aliases and unambiguous candidate mentions are accepted without repair.",
        );
        advise(out, "vote_repair", AdviceLevel::Warn, "Vote repair risk", detail);
    }
    proof {
        assert(advices(out@) =~= first + repair_advice(*forecast));
    }
    let ghost second = advices(out@);
    if let Some(chars) = input.context.local_change_handoff_chars {
        if chars > 8_000 {
            let mut detail = decimal_size(chars);
            detail.append(" chars of local changes will be preserved in execution context.");
            advise(
                out,
                "local_change_handoff",
                AdviceLevel::Warn,
                "Large dirty-worktree handoff",
                detail,
            );
        } else if chars > 0 {
            advise(
                out,
                "local_change_handoff",
                AdviceLevel::Info,
                "Dirty worktree protected",
                "Executor prompt includes a compact local-change handoff.".to_owned(),
            );
        }
    }
    proof {
        assert(advices(out@) =~= second + changes_advice(
            (*input.context).local_change_handoff_chars,
        ));
        assert(advices(out@) =~= before + execution_advice(*input));
    }
}

/// Says what there is to say of a run before it starts.
pub fn build_run_advice(input: RunAdviceInput) -> (r: Vec<RunAdvice>)
    requires
        input.include_execution && (*input.forecast).max_vote_repair_prompts > 0 ==> (
        *input.forecast).worst() <= usize::MAX,
    ensures
        advices(r@) == run_advice(input),
{
    let mut advice: Vec<RunAdvice> = Vec::new();
    proof {
        assert(advices(advice@) =~= Seq::empty());
        assert(advices(advice@) + shape_advice(input) =~= shape_advice(input));
    }
    advise_shape(&mut advice, &input);
    advise_cache(&mut advice, &input);
    advise_cap(&mut advice, &input);
    advise_execution(&mut advice, &input);
    advice
}

// ---- Documents -----------------------------------------------------------------

/// A list of advice as documents.
pub open spec fn advice_docs(items: Seq<AdviceView>) -> Seq<Doc> {
    Seq::new(items.len(), |i: int| advice_item_doc(items[i]))
}

pub open spec fn advice_item_doc(item: AdviceView) -> Doc {
    Doc::Obj(
        seq![
            ("key"@, jstr(item.key)),
            ("level"@, jstr(level_name(item.level))),
            ("title"@, jstr(item.title)),
            ("detail"@, jstr(item.detail)),
        ],
    )
}

/// Writes advice as documents.
pub fn run_advice_to_json(items: &Vec<RunAdvice>) -> (r: Vec<Json>)
    ensures
        docs(r@) == advice_docs(advices(items@)),
{
    let mut out: Vec<Json> = Vec::new();
    let ghost all = advices(items@);
    let ghost one = |i: int| advice_item_doc(all[i]);
    let mut i: usize = 0;
    proof {
        assert(docs(out@) =~= Seq::new(0, one));
    }
    while i < items.len()
        invariant
            i <= items@.len(),
            all == advices(items@),
            one == (|i: int| advice_item_doc(all[i])),
            docs(out@) == Seq::new(i as nat, one),
        decreases items@.len() - i,
    {
        let item = &items[i];
        let mut f = Fields::new();
        f.put("key", text(item.key));
        f.put("level", text(item.level.as_str()));
        f.put("title", text(item.title.as_str()));
        f.put("detail", text(item.detail.as_str()));
        proof {
            assert(all[i as int] == item@);
            assert(f@ =~= advice_item_doc(item@)->Obj_0);
        }
        let next = f.object();
        proof {
            lemma_docs_push(out@, next);
            assert(Seq::new((i + 1) as nat, one) =~= Seq::new(i as nat, one).push(next@));
        }
        out.push(next);
        i = i + 1;
    }
    proof {
        assert(docs(out@) =~= advice_docs(all));
    }
    out
}

/// The calls that are planned.
pub open spec fn calls_doc(f: PromptForecast) -> Doc {
    Doc::Obj(
        seq![
            ("total"@, jnum(f.total() as int)),
            ("base"@, jnum(f.total() as int)),
            ("worst_case"@, jnum(f.worst() as int)),
            ("planning"@, jnum(f.planning_prompts as int)),
            ("recommendation"@, jnum(f.recommendation_prompts as int)),
            ("execution"@, jnum(f.execution_prompts as int)),
        ],
    )
}

/// How often the planners are waited for.
pub open spec fn waits_doc(f: PromptForecast, turns: usize, sequential: bool) -> Doc {
    Doc::Obj(
        seq![
            (
                "mode"@,
                jstr(
                    if sequential {
                        "sequential"@
                    } else {
                        "parallel"@
                    },
                ),
            ),
            (
                "waits"@,
                jnum(
                    if sequential {
                        turns as int
                    } else {
                        rounds_of(turns as nat, f.planner_count as nat) as int
                    },
                ),
            ),
        ],
    )
}

/// The forms of a vote that need no repair.
pub open spec fn vote_shortcuts() -> Seq<Seq<char>> {
    seq![
        "recommended_executor"@,
        "executor"@,
        "agent"@,
        "tool"@,
        "rationale"@,
        "why"@,
        "reason"@,
        "single_candidate_mention"@,
    ]
}

/// How many votes may have to be repaired.
pub open spec fn repair_doc(f: PromptForecast) -> Doc {
    Doc::Obj(
        seq![
            ("min_vote_repair_prompts"@, jnum(0)),
            ("max_vote_repair_prompts"@, jnum(f.max_vote_repair_prompts as int)),
            ("base_total_prompts"@, jnum(f.total() as int)),
            ("worst_case_total_prompts"@, jnum(f.worst() as int)),
            ("parser_shortcuts"@, jtexts(vote_shortcuts())),
        ],
    )
}

/// The project context that each first prompt carries.
pub open spec fn context_per_prompt(f: PromptForecast) -> int {
    if f.first_context_prompts == 0 {
        0
    } else {
        f.project_context_payload_chars as int / f.first_context_prompts as int
    }
}

/// How large what is known of the prompts is.
pub open spec fn payloads_doc(f: PromptForecast) -> Doc {
    Doc::Obj(
        seq![
            ("known_chars"@, jnum(f.known_payload_chars as int)),
            ("known_tokens_estimate"@, jnum(tokens_of(f.known_payload_chars as nat) as int)),
            ("project_context_chars_per_first_prompt"@, jnum(context_per_prompt(f))),
            ("first_context_prompts"@, jnum(f.first_context_prompts as int)),
            ("project_context_total_chars"@, jnum(f.project_context_payload_chars as int)),
            (
                "project_context_total_tokens_estimate"@,
                jnum(tokens_of(f.project_context_payload_chars as nat) as int),
            ),
            ("local_change_handoff_chars"@, jnum(f.local_change_payload_chars as int)),
            (
                "local_change_handoff_tokens_estimate"@,
                jnum(tokens_of(f.local_change_payload_chars as nat) as int),
            ),
        ],
    )
}

/// A forecast as a document.
pub open spec fn forecast_doc(f: PromptForecast, turns: usize, sequential: bool) -> Doc {
    Doc::Obj(
        seq![
            ("planner_count"@, jnum(f.planner_count as int)),
            ("planned_calls"@, calls_doc(f)),
            ("planning_waits"@, waits_doc(f, turns, sequential)),
            ("repair_risk"@, repair_doc(f)),
            ("payloads"@, payloads_doc(f)),
        ],
    )
}

fn calls_json(f: &PromptForecast) -> (r: Json)
    requires
        f.worst() <= usize::MAX,
    ensures
        r@ == calls_doc(*f),
{
    let mut o = Fields::new();
    o.put("total", size(f.total_prompts()));
    o.put("base", size(f.total_prompts()));
    o.put("worst_case", size(f.worst_case_total_prompts()));
    o.put("planning", size(f.planning_prompts));
    o.put("recommendation", size(f.recommendation_prompts));
    o.put("execution", size(f.execution_prompts));
    proof {
        assert(o@ =~= calls_doc(*f)->Obj_0);
    }
    o.object()
}

fn waits_json(f: &PromptForecast, turns: usize, sequential: bool) -> (r: Json)
    ensures
        r@ == waits_doc(*f, turns, sequential),
{
    let waits: usize = if sequential {
        turns
    } else {
        parallel_rounds(turns, f.planner_count)
    };
    let mode = if sequential {
        "sequential"
    } else {
        "parallel"
    };
    let mut o = Fields::new();
    o.put("mode", text(mode));
    o.put("waits", size(waits));
    proof {
        assert(o@ =~= waits_doc(*f, turns, sequential)->Obj_0);
    }
    o.object()
}

fn repair_json(f: &PromptForecast) -> (r: Json)
    requires
        f.worst() <= usize::MAX,
    ensures
        r@ == repair_doc(*f),
{
    let shortcuts = vec![
        "recommended_executor".to_owned(),
        "executor".to_owned(),
        "agent".to_owned(),
        "tool".to_owned(),
        "rationale".to_owned(),
        "why".to_owned(),
        "reason".to_owned(),
        "single_candidate_mention".to_owned(),
    ];
    proof {
        assert(texts(shortcuts@) =~= vote_shortcuts());
    }
    let mut o = Fields::new();
    o.put("min_vote_repair_prompts", num(0));
    o.put("max_vote_repair_prompts", size(f.max_vote_repair_prompts));
    o.put("base_total_prompts", size(f.total_prompts()));
    o.put("worst_case_total_prompts", size(f.worst_case_total_prompts()));
    o.put("parser_shortcuts", text_list(&shortcuts));
    proof {
        assert(o@ =~= repair_doc(*f)->Obj_0);
    }
    o.object()
}

fn payloads_json(f: &PromptForecast) -> (r: Json)
    ensures
        r@ == payloads_doc(*f),
{
    let per_prompt: usize = if f.first_context_prompts == 0 {
        0
    } else {
        f.project_context_payload_chars / f.first_context_prompts
    };
    let mut o = Fields::new();
    o.put("known_chars", size(f.known_payload_chars));
    o.put("known_tokens_estimate", size(estimated_tokens(f.known_payload_chars)));
    o.put("project_context_chars_per_first_prompt", size(per_prompt));
    o.put("first_context_prompts", size(f.first_context_prompts));
    o.put("project_context_total_chars", size(f.project_context_payload_chars));
    o.put(
        "project_context_total_tokens_estimate",
        size(estimated_tokens(f.project_context_payload_chars)),
    );
    o.put("local_change_handoff_chars", size(f.local_change_payload_chars));
    o.put(
        "local_change_handoff_tokens_estimate",
        size(estimated_tokens(f.local_change_payload_chars)),
    );
    proof {
        assert(o@ =~= payloads_doc(*f)->Obj_0);
    }
    o.object()
}

/// Writes a forecast as a document.
pub fn prompt_forecast_to_json(
    forecast: &PromptForecast,
    turns: usize,
    sequential: bool,
) -> (r: Json)
    requires
        forecast.worst() <= usize::MAX,
    ensures
        r@ == forecast_doc(*forecast, turns, sequential),
{
    let mut o = Fields::new();
    o.put("planner_count", size(forecast.planner_count));
    o.put("planned_calls", calls_json(forecast));
    o.put("planning_waits", waits_json(forecast, turns, sequential));
    o.put("repair_risk", repair_json(forecast));
    o.put("payloads", payloads_json(forecast));
    proof {
        assert(o@ =~= forecast_doc(*forecast, turns, sequential)->Obj_0);
    }
    o.object()
}

} // verus!
