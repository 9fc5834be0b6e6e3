//! Evaluation of run shapes without calling a model.
use vstd::prelude::*;
use crate::context::{estimated_tokens, tokens_of, DEFAULT_CONTEXT_BUDGET_CHARS};
use crate::json::{
    copy, docs, jbool, jnum, jopt_str, jstr, lemma_docs_push, list, num, opt_string, opt_text,
    size, text, truth, Doc, Fields, Json,
};
use crate::order::{sorted_set, sorted_set_of};
use crate::path::{join, joined};
use crate::prompt_forecast::{
    checked_forecast, forecast_doc, input_of, prompt_forecast_to_json, PreflightContextSummary,
    PromptForecast,
};
use crate::text::{char_count, texts};

verus! {

/// How the agents of a scenario work together.
#[derive(Clone, Copy, Debug, PartialEq, Eq, Structural)]
pub enum EvalMode {
    Solo,
    Debate,
    Tiered,
}

/// The word for a mode.
pub open spec fn mode_word(m: EvalMode) -> Seq<char> {
    match m {
        EvalMode::Solo => "solo"@,
        EvalMode::Debate => "debate"@,
        EvalMode::Tiered => "tiered"@,
    }
}

impl EvalMode {
    /// The word for the mode.
    pub fn as_str(self) -> (r: &'static str)
        ensures
            r@ == mode_word(self),
    {
        match self {
            EvalMode::Solo => "solo",
            EvalMode::Debate => "debate",
            EvalMode::Tiered => "tiered",
        }
    }
}

/// A run to be evaluated.
#[derive(Debug)]
pub struct EvalScenario {
    pub name: String,
    pub task: String,
    pub mode: EvalMode,
    pub turns: usize,
    pub sequential: bool,
    pub drafter: Option<String>,
    pub critic: Option<String>,
    pub executor: String,
}

/// The contents of an [`EvalScenario`].
pub struct ScenarioView {
    pub name: Seq<char>,
    pub task: Seq<char>,
    pub mode: EvalMode,
    pub turns: usize,
    pub sequential: bool,
    pub drafter: Option<Seq<char>>,
    pub critic: Option<Seq<char>>,
    pub executor: Seq<char>,
}

impl View for EvalScenario {
    type V = ScenarioView;

    open spec fn view(&self) -> ScenarioView {
        ScenarioView {
            name: self.name@,
            task: self.task@,
            mode: self.mode,
            turns: self.turns,
            sequential: self.sequential,
            drafter: crate::text::opt_text(self.drafter),
            critic: crate::text::opt_text(self.critic),
            executor: self.executor@,
        }
    }
}

/// What a scenario costs.
#[derive(Clone, Copy, Debug, PartialEq, Eq, Structural)]
pub struct EvalMetrics {
    pub planned_calls: usize,
    pub worst_case_planned_calls: usize,
    pub known_payload_chars: usize,
    pub estimated_tokens: usize,
}

/// Something that was checked of a scenario.
#[derive(Debug)]
pub struct EvalCheck {
    pub name: String,
    pub passed: bool,
    pub detail: String,
}

/// What an evaluation found.
#[derive(Debug)]
pub struct EvalResult {
    pub schema_version: u8,
    pub created_at_unix: u64,
    pub workspace: String,
    pub scenario: EvalScenario,
    pub prompt_forecast: Json,
    pub recommendations: Vec<Json>,
    pub metrics: EvalMetrics,
    pub checks: Vec<EvalCheck>,
}

/// The scenarios for a task.
pub open spec fn scenarios_of(task: Seq<char>) -> Seq<ScenarioView> {
    seq![
        ScenarioView {
            name: "solo_strong"@,
            task,
            mode: EvalMode::Solo,
            turns: 1,
            sequential: false,
            drafter: None,
            critic: None,
            executor: "anthropic"@,
        },
        ScenarioView {
            name: "debate_parallel"@,
            task,
            mode: EvalMode::Debate,
            turns: 4,
            sequential: false,
            drafter: Some("anthropic"@),
            critic: Some("codex"@),
            executor: "anthropic"@,
        },
        ScenarioView {
            name: "tiered_parallel"@,
            task,
            mode: EvalMode::Tiered,
            turns: 4,
            sequential: false,
            drafter: Some("anthropic"@),
            critic: Some("codex"@),
            executor: "opencode"@,
        },
    ]
}

/// The contents of a list of scenarios.
pub open spec fn scenario_views(v: Seq<EvalScenario>) -> Seq<ScenarioView> {
    Seq::new(v.len(), |i: int| v[i]@)
}

/// The scenarios for a task.
pub fn default_scenarios(task: &str) -> (r: Vec<EvalScenario>)
    ensures
        scenario_views(r@) == scenarios_of(task@),
{
    let r = vec![
        EvalScenario {
            name: "solo_strong".to_owned(),
            task: task.to_owned(),
            mode: EvalMode::Solo,
            turns: 1,
            sequential: false,
            drafter: None,
            critic: None,
            executor: "anthropic".to_owned(),
        },
        EvalScenario {
            name: "debate_parallel".to_owned(),
            task: task.to_owned(),
            mode: EvalMode::Debate,
            turns: 4,
            sequential: false,
            drafter: Some("anthropic".to_owned()),
            critic: Some("codex".to_owned()),
            executor: "anthropic".to_owned(),
        },
        EvalScenario {
            name: "tiered_parallel".to_owned(),
            task: task.to_owned(),
            mode: EvalMode::Tiered,
            turns: 4,
            sequential: false,
            drafter: Some("anthropic".to_owned()),
            critic: Some("codex".to_owned()),
            executor: "opencode".to_owned(),
        },
    ];
    proof {
        assert(scenario_views(r@) =~= scenarios_of(task@));
    }
    r
}

/// The tools that a scenario names.
pub open spec fn named_tools(s: ScenarioView) -> Seq<Seq<char>> {
    (match s.drafter {
        Some(d) => seq![d],
        None => Seq::empty(),
    }) + (match s.critic {
        Some(c) => seq![c],
        None => Seq::empty(),
    }) + seq![s.executor]
}

/// The tools that a scenario names, in order and each once.
pub fn scenario_candidates(scenario: &EvalScenario) -> (r: Vec<String>)
    ensures
        sorted_set_of(texts(r@), named_tools(scenario@)),
{
    let mut out: Vec<String> = Vec::new();
    if let Some(d) = &scenario.drafter {
        out.push(d.clone());
    }
    if let Some(c) = &scenario.critic {
        out.push(c.clone());
    }
    out.push(scenario.executor.clone());
    proof {
        assert(texts(out@) =~= named_tools(scenario@));
    }
    sorted_set(&out)
}

/// What a recommendation of tools for a scenario goes by.
#[derive(Debug)]
pub struct RecommendationInput {
    pub task: String,
    pub candidates: Vec<String>,
    pub prefer_cheaper: bool,
    pub prefer_faster: bool,
    pub needs_execution: bool,
}

/// What a recommendation of tools for a scenario goes by.
pub fn recommendation_input(scenario: &EvalScenario) -> (r: RecommendationInput)
    ensures
        r.task@ == scenario@.task,
        sorted_set_of(texts(r.candidates@), named_tools(scenario@)),
        r.prefer_cheaper == (scenario@.mode is Tiered),
        r.prefer_faster == !scenario@.sequential,
        r.needs_execution == !(scenario@.mode is Debate),
{
    RecommendationInput {
        task: scenario.task.clone(),
        candidates: scenario_candidates(scenario),
        prefer_cheaper: matches!(scenario.mode, EvalMode::Tiered),
        prefer_faster: !scenario.sequential,
        needs_execution: !matches!(scenario.mode, EvalMode::Debate),
    }
}

/// How many agents plan in a mode.
pub open spec fn planners_of(m: EvalMode) -> usize {
    match m {
        EvalMode::Solo => 1,
        _ => 2,
    }
}

/// Whether a forecast is that of a scenario.
pub open spec fn foretold(
    f: PromptForecast,
    s: ScenarioView,
    context: PreflightContextSummary,
) -> bool {
    input_of(
        s.task.len() as usize,
        planners_of(s.mode),
        s.turns,
        s.sequential,
        !(s.mode is Debate),
        context,
        Some(DEFAULT_CONTEXT_BUDGET_CHARS),
    ).foretells(f)
}

/// Whether the forecast of a scenario, and the number of its prompts, fit the
/// machine.
pub open spec fn forecastable(s: ScenarioView, context: PreflightContextSummary) -> bool {
    let input = input_of(
        s.task.len() as usize,
        planners_of(s.mode),
        s.turns,
        s.sequential,
        !(s.mode is Debate),
        context,
        Some(DEFAULT_CONTEXT_BUDGET_CHARS),
    );
    input.fits() && input.total() + input.voting() <= usize::MAX
}

/// The contents of an [`EvalCheck`].
pub struct CheckView {
    pub name: Seq<char>,
    pub passed: bool,
    pub detail: Seq<char>,
}

/// The contents of a list of checks.
pub open spec fn check_views(v: Seq<EvalCheck>) -> Seq<CheckView> {
    Seq::new(
        v.len(),
        |i: int| CheckView { name: v[i].name@, passed: v[i].passed, detail: v[i].detail@ },
    )
}

/// What is checked of a scenario.
pub open spec fn checks_of(f: PromptForecast) -> Seq<CheckView> {
    seq![
        CheckView {
            name: "forecast_built"@,
            passed: f.total() > 0,
            detail: "deterministic prompt forecast generated without model calls"@,
        },
        CheckView {
            name: "human_gate_required"@,
            passed: true,
            detail: "eval scenarios never auto-execute without approval"@,
        },
    ]
}

/// Whether a result is that of a forecast.
pub open spec fn evaluated(r: EvalResult, s: ScenarioView, f: PromptForecast) -> bool {
    &&& r.schema_version == 1
    &&& r.scenario@ == s
    &&& r.prompt_forecast@ == forecast_doc(f, s.turns, s.sequential)
    &&& r.metrics.planned_calls == f.total()
    &&& r.metrics.worst_case_planned_calls == f.worst()
    &&& r.metrics.known_payload_chars == f.known_payload_chars
    &&& r.metrics.estimated_tokens == tokens_of(f.known_payload_chars as nat)
    &&& check_views(r.checks@) == checks_of(f)
}

/// Evaluates a scenario without calling a model. Nothing where its forecast
/// does not fit the machine.
pub fn run_mock_eval(
    workspace: &str,
    scenario: EvalScenario,
    context: &PreflightContextSummary,
    recommendations: Vec<Json>,
    created_at_unix: u64,
) -> (r: Option<EvalResult>)
    ensures
        r is Some == forecastable(scenario@, *context),
        match r {
            Some(e) => {
                &&& e.created_at_unix == created_at_unix
                &&& e.workspace@ == workspace@
                &&& e.recommendations == recommendations
                &&& exists|f: PromptForecast| #[trigger]
                    foretold(f, scenario@, *context) && evaluated(e, scenario@, f)
            },
            None => true,
        },
{
    let planners: usize = match scenario.mode {
        EvalMode::Solo => 1,
        _ => 2,
    };
    let execution = !matches!(scenario.mode, EvalMode::Debate);
    let chars = char_count(scenario.task.as_str());
    let forecast = match checked_forecast(
        chars,
        planners,
        scenario.turns,
        scenario.sequential,
        execution,
        context,
        Some(DEFAULT_CONTEXT_BUDGET_CHARS),
    ) {
        Some(f) => f,
        None => {
            return None;
        },
    };
    proof {
        assert(foretold(forecast, scenario@, *context));
    }
    if !forecast.countable() {
        return None;
    }
    let metrics = EvalMetrics {
        planned_calls: forecast.total_prompts(),
        worst_case_planned_calls: forecast.worst_case_total_prompts(),
        known_payload_chars: forecast.known_payload_chars,
        estimated_tokens: estimated_tokens(forecast.known_payload_chars),
    };
    let prompt_forecast = prompt_forecast_to_json(&forecast, scenario.turns, scenario.sequential);
    let checks = vec![
        EvalCheck {
            name: "forecast_built".to_owned(),
            passed: forecast.total_prompts() > 0,
            detail: "deterministic prompt forecast generated without model calls".to_owned(),
        },
        EvalCheck {
            name: "human_gate_required".to_owned(),
            passed: true,
            detail: "eval scenarios never auto-execute without approval".to_owned(),
        },
    ];
    proof {
        assert(check_views(checks@) =~= checks_of(forecast));
    }
    let r = EvalResult {
        schema_version: 1,
        created_at_unix,
        workspace: workspace.to_owned(),
        scenario,
        prompt_forecast,
        recommendations,
        metrics,
        checks,
    };
    proof {
        assert(evaluated(r, scenario@, forecast));
    }
    Some(r)
}

// ---- Comparison ------------------------------------------------------------

/// The place of the smallest number, of the first of them at a tie.
pub open spec fn first_least(s: Seq<usize>) -> Option<int>
    decreases s.len(),
{
    if s.len() == 0 {
        None
    } else {
        match first_least(s.drop_last()) {
            None => Some(0),
            Some(k) => if s.last() < s[k] {
                Some(s.len() - 1)
            } else {
                Some(k)
            },
        }
    }
}

fn least_place(v: &Vec<usize>) -> (r: Option<usize>)
    ensures
        match r {
            Some(k) => first_least(v@) == Some(k as int) && k < v@.len(),
            None => v@.len() == 0,
        },
{
    if v.len() == 0 {
        return None;
    }
    let mut best: usize = 0;
    let mut i: usize = 1;
    proof {
        reveal_with_fuel(first_least, 2);
        assert(v@.take(1).drop_last() =~= Seq::empty());
    }
    while i < v.len()
        invariant
            1 <= i <= v.len(),
            best < i,
            first_least(v@.take(i as int)) == Some(best as int),
        decreases v.len() - i,
    {
        proof {
            assert(v@.take(i + 1).drop_last() =~= v@.take(i as int));
            assert(v@.take(i + 1).last() == v@[i as int]);
            assert(v@.take(i + 1)[best as int] == v@[best as int]);
        }
        if v[i] < v[best] {
            best = i;
        }
        i = i + 1;
    }
    proof {
        assert(v@.take(i as int) =~= v@);
    }
    Some(best)
}

/// The least is no larger than any other, and smaller than those before it.
pub proof fn law_first_least_is_least(s: Seq<usize>)
    requires
        s.len() > 0,
    ensures
        first_least(s) matches Some(k) && 0 <= k < s.len() && (forall|i: int|
            0 <= i < s.len() ==> s[k] <= #[trigger] s[i]) && (forall|i: int|
            0 <= i < k ==> s[k] < #[trigger] s[i]),
    decreases s.len(),
{
    let d = s.drop_last();
    if s.len() > 1 {
        law_first_least_is_least(d);
        assert forall|i: int| 0 <= i < d.len() implies d[i] == #[trigger] s[i] by {}
    } else {
        assert(first_least(d) is None);
    }
}

pub open spec fn scenario_doc(s: ScenarioView) -> Doc {
    Doc::Obj(
        seq![
            ("name"@, jstr(s.name)),
            ("task"@, jstr(s.task)),
            ("mode"@, jstr(mode_word(s.mode))),
            ("turns"@, jnum(s.turns as int)),
            ("sequential"@, jbool(s.sequential)),
            ("drafter"@, jopt_str(s.drafter)),
            ("critic"@, jopt_str(s.critic)),
            ("executor"@, jstr(s.executor)),
        ],
    )
}

pub open spec fn metrics_doc(m: EvalMetrics) -> Doc {
    Doc::Obj(
        seq![
            ("planned_calls"@, jnum(m.planned_calls as int)),
            ("worst_case_planned_calls"@, jnum(m.worst_case_planned_calls as int)),
            ("known_payload_chars"@, jnum(m.known_payload_chars as int)),
            ("estimated_tokens"@, jnum(m.estimated_tokens as int)),
        ],
    )
}

pub open spec fn check_doc(c: EvalCheck) -> Doc {
    Doc::Obj(
        seq![("name"@, jstr(c.name@)), ("passed"@, jbool(c.passed)), ("detail"@, jstr(c.detail@))],
    )
}

/// A result as a document.
pub open spec fn result_doc(r: EvalResult) -> Doc {
    Doc::Obj(
        seq![
            ("schema_version"@, jnum(r.schema_version as int)),
            ("created_at_unix"@, jnum(r.created_at_unix as int)),
            ("workspace"@, jstr(r.workspace@)),
            ("scenario"@, scenario_doc(r.scenario@)),
            ("prompt_forecast"@, r.prompt_forecast@),
            ("recommendations"@, Doc::Arr(docs(r.recommendations@))),
            ("metrics"@, metrics_doc(r.metrics)),
            (
                "checks"@,
                Doc::Arr(Seq::new(r.checks@.len(), |i: int| check_doc(r.checks@[i]))),
            ),
        ],
    )
}

impl EvalScenario {
    /// The scenario as a document.
    pub fn to_json(&self) -> (r: Json)
        ensures
            r@ == scenario_doc(self@),
    {
        let mut f = Fields::new();
        f.put("name", text(self.name.as_str()));
        f.put("task", text(self.task.as_str()));
        f.put("mode", text(self.mode.as_str()));
        f.put("turns", size(self.turns));
        f.put("sequential", truth(self.sequential));
        f.put("drafter", opt_string(&self.drafter));
        f.put("critic", opt_string(&self.critic));
        f.put("executor", text(self.executor.as_str()));
        proof {
            assert(f@ =~= scenario_doc(self@)->Obj_0);
        }
        f.object()
    }
}

fn metrics_json(m: &EvalMetrics) -> (r: Json)
    ensures
        r@ == metrics_doc(*m),
{
    let mut f = Fields::new();
    f.put("planned_calls", size(m.planned_calls));
    f.put("worst_case_planned_calls", size(m.worst_case_planned_calls));
    f.put("known_payload_chars", size(m.known_payload_chars));
    f.put("estimated_tokens", size(m.estimated_tokens));
    proof {
        assert(f@ =~= metrics_doc(*m)->Obj_0);
    }
    f.object()
}

fn check_json(c: &EvalCheck) -> (r: Json)
    ensures
        r@ == check_doc(*c),
{
    let mut f = Fields::new();
    f.put("name", text(c.name.as_str()));
    f.put("passed", truth(c.passed));
    f.put("detail", text(c.detail.as_str()));
    proof {
        assert(f@ =~= check_doc(*c)->Obj_0);
    }
    f.object()
}

fn copy_docs(v: &Vec<Json>) -> (r: Vec<Json>)
    ensures
        docs(r@) == docs(v@),
{
    let mut out: Vec<Json> = Vec::new();
    let mut i: usize = 0;
    while i < v.len()
        invariant
            i <= v.len(),
            docs(out@) == docs(v@).take(i as int),
        decreases v.len() - i,
    {
        let x = copy(&v[i]);
        proof {
            lemma_docs_push(out@, x);
            assert(docs(v@).take(i + 1) =~= docs(v@).take(i as int).push(x@));
        }
        out.push(x);
        i = i + 1;
    }
    proof {
        assert(docs(v@).take(i as int) =~= docs(v@));
    }
    out
}

fn checks_json(v: &Vec<EvalCheck>) -> (r: Json)
    ensures
        r@ == Doc::Arr(Seq::new(v@.len(), |i: int| check_doc(v@[i]))),
{
    let ghost one = |i: int| check_doc(v@[i]);
    let mut out: Vec<Json> = Vec::new();
    let mut i: usize = 0;
    while i < v.len()
        invariant
            i <= v.len(),
            one == (|i: int| check_doc(v@[i])),
            docs(out@) == Seq::new(i as nat, one),
        decreases v.len() - i,
    {
        let x = check_json(&v[i]);
        proof {
            lemma_docs_push(out@, x);
            assert(Seq::new((i + 1) as nat, one) =~= Seq::new(i as nat, one).push(x@));
        }
        out.push(x);
        i = i + 1;
    }
    list(out)
}

impl EvalResult {
    /// The result as a document.
    pub fn to_json(&self) -> (r: Json)
        ensures
            r@ == result_doc(*self),
    {
        let mut f = Fields::new();
        f.put("schema_version", num(self.schema_version as u64));
        f.put("created_at_unix", num(self.created_at_unix));
        f.put("workspace", text(self.workspace.as_str()));
        f.put("scenario", self.scenario.to_json());
        f.put("prompt_forecast", copy(&self.prompt_forecast));
        f.put("recommendations", list(copy_docs(&self.recommendations)));
        f.put("metrics", metrics_json(&self.metrics));
        f.put("checks", checks_json(&self.checks));
        proof {
            assert(f@ =~= result_doc(*self)->Obj_0);
        }
        f.object()
    }
}

/// The name of the scenario at a place.
pub open spec fn name_at(results: Seq<EvalResult>, place: Option<int>) -> Option<Seq<char>> {
    match place {
        Some(k) => Some(results[k].scenario.name@),
        None => None,
    }
}

/// A comparison as a document.
pub open spec fn comparison_doc(results: Seq<EvalResult>) -> Doc {
    Doc::Obj(
        seq![
            ("kind"@, jstr("tales_eval_compare"@)),
            ("schema_version"@, jnum(1)),
            ("scenarios"@, Doc::Arr(Seq::new(results.len(), |i: int| result_doc(results[i])))),
            (
                "best_latency_shape"@,
                jopt_str(
                    name_at(
                        results,
                        first_least(
                            Seq::new(results.len(), |i: int| results[i].metrics.planned_calls),
                        ),
                    ),
                ),
            ),
            (
                "cheapest_payload_shape"@,
                jopt_str(
                    name_at(
                        results,
                        first_least(
                            Seq::new(results.len(), |i: int| results[i].metrics.known_payload_chars),
                        ),
                    ),
                ),
            ),
        ],
    )
}

/// Compares results: which scenario calls the fewest prompts, and which sends
/// the least.
pub fn compare_results(results: &Vec<EvalResult>) -> (r: Json)
    ensures
        r@ == comparison_doc(results@),
{
    let ghost one = |i: int| result_doc(results@[i]);
    let mut all: Vec<Json> = Vec::new();
    let mut calls: Vec<usize> = Vec::new();
    let mut chars: Vec<usize> = Vec::new();
    let mut i: usize = 0;
    while i < results.len()
        invariant
            i <= results.len(),
            one == (|i: int| result_doc(results@[i])),
            docs(all@) == Seq::new(i as nat, one),
            calls@ == Seq::new(i as nat, |k: int| results@[k].metrics.planned_calls),
            chars@ == Seq::new(i as nat, |k: int| results@[k].metrics.known_payload_chars),
        decreases results.len() - i,
    {
        let x = results[i].to_json();
        proof {
            lemma_docs_push(all@, x);
            assert(Seq::new((i + 1) as nat, one) =~= Seq::new(i as nat, one).push(x@));
        }
        all.push(x);
        calls.push(results[i].metrics.planned_calls);
        chars.push(results[i].metrics.known_payload_chars);
        i = i + 1;
    }
    let fewest: Option<&str> = match least_place(&calls) {
        Some(k) => Some(results[k].scenario.name.as_str()),
        None => None,
    };
    let cheapest: Option<&str> = match least_place(&chars) {
        Some(k) => Some(results[k].scenario.name.as_str()),
        None => None,
    };
    let mut f = Fields::new();
    f.put("kind", text("tales_eval_compare"));
    f.put("schema_version", num(1));
    f.put("scenarios", list(all));
    f.put("best_latency_shape", opt_text(fewest));
    f.put("cheapest_payload_shape", opt_text(cheapest));
    proof {
        assert(calls@ =~= Seq::new(results@.len(), |i: int| results@[i].metrics.planned_calls));
        assert(chars@ =~= Seq::new(
            results@.len(),
            |i: int| results@[i].metrics.known_payload_chars,
        ));
        assert(f@ =~= comparison_doc(results@)->Obj_0);
    }
    f.object()
}

/// Where the report of an evaluation is kept.
pub fn default_eval_report_path(workspace: &str, name: &str) -> (r: String)
    ensures
        r@ == joined(joined(joined(workspace@, ".tales"@), "evals"@), name@ + ".json"@),
{
    let mut file = name.to_owned();
    file.append(".json");
    join(join(join(workspace, ".tales").as_str(), "evals").as_str(), file.as_str())
}

} // verus!
