//! What a run would do, told before it does anything.
use vstd::prelude::*;
use crate::agent::{
    adapter_kind_label, bin_path, caps_doc_of, found_path, kind_label, tool_caps_json, FoundBin,
};
use crate::build_info::{build_doc, json, BuildRecord};
use crate::changes::{
    handoff_text, opt_changes, summary_line_of, LocalChangeSummary, DEFAULT_LOCAL_CHANGE_LINES,
};
use crate::context::{estimated_tokens, opt_estimated_tokens, opt_tokens, tokens_of};
use crate::doctor::hit_word;
use crate::json::{
    docs, jbool, jnum, jopt_size, jopt_str, jstr, jtexts, lemma_docs_push, list, null, num,
    opt_size, opt_string, opt_text, size, text, text_list, truth, Doc, Fields, Json,
};
use crate::labels::{
    budget_label, context_budget_label, context_fit_label, effective_budget,
    effective_context_budget, fit_label,
};
use crate::numeral::{dec, decimal_size};
use crate::order::{sorted_set, sorted_set_of};
use crate::project_context::{opt_context, ProjectContext};
use crate::prompt_forecast::{
    advice_docs, advices, build_run_advice, checked_forecast, forecast_doc, input_of, level_name,
    parallel_rounds, prompt_forecast_to_json, rounds_of, run_advice, run_advice_to_json,
    AdviceView, PreflightContextSummary, PromptForecast, RunAdvice, RunAdviceInput,
};
use crate::registry::{row_of, tool_info};
use crate::roster::{pairs, roster_advice, tool_roster_advice_json};
use crate::session::{
    config_doc, seat_views, AgentSeatConfig, CwdPolicy, ExecutionPermission, ExecutionPolicy,
    PromptBudgetConfig, ReportPaths, SeatView, SessionConfig, SessionMode,
};
use crate::text::{
    char_count, copy_opt, flat, lemma_flat_push, lemma_texts_push, opt_str, same, texts,
};

verus! {

/// An agent that a run would have.
#[derive(Debug)]
pub struct PreflightAgent {
    pub role: &'static str,
    pub key: String,
    pub model: Option<String>,
    pub effort: Option<String>,
}

/// The contents of a [`PreflightAgent`].
pub struct AgentRow {
    pub role: Seq<char>,
    pub key: Seq<char>,
    pub model: Option<Seq<char>>,
    pub effort: Option<Seq<char>>,
}

impl View for PreflightAgent {
    type V = AgentRow;

    open spec fn view(&self) -> AgentRow {
        AgentRow {
            role: self.role@,
            key: self.key@,
            model: crate::text::opt_text(self.model),
            effort: crate::text::opt_text(self.effort),
        }
    }
}

/// The contents of a list of agents.
pub open spec fn agent_rows(v: Seq<PreflightAgent>) -> Seq<AgentRow> {
    Seq::new(v.len(), |i: int| v[i]@)
}

// ---- One agent -------------------------------------------------------------

/// What is shown where nothing was chosen.
pub open spec fn or_default(t: Option<Seq<char>>) -> Seq<char> {
    match t {
        Some(s) => s,
        None => "default"@,
    }
}

fn string_or_default<'a>(t: &'a Option<String>) -> (r: &'a str)
    ensures
        r@ == or_default(crate::text::opt_text(*t)),
{
    match t {
        Some(s) => s.as_str(),
        None => "default",
    }
}

/// The document on an agent.
pub open spec fn agent_doc(a: AgentRow, demo: bool, found: Seq<FoundBin>) -> Doc {
    match row_of(a.key) {
        Some(row) => Doc::Obj(
            seq![
                ("role"@, jstr(a.role)),
                ("key"@, jstr(a.key)),
                ("pretty"@, jstr(row.pretty)),
                ("kind"@, jstr(kind_label(row.kind))),
                ("bin"@, jstr(row.bin)),
                ("bin_path"@, jopt_str(found_path(found, row.bin))),
                ("installed"@, jbool(found_path(found, row.bin) is Some)),
                ("model"@, jstr(or_default(a.model))),
                ("model_override"@, jopt_str(a.model)),
                ("effort"@, jstr(or_default(a.effort))),
                ("effort_override"@, jopt_str(a.effort)),
                ("suggested_models"@, jtexts(row.models)),
                ("supported_efforts"@, jtexts(row.efforts)),
                ("caps"@, caps_doc_of(row.key)),
                ("demo_mock"@, jbool(demo)),
            ],
        ),
        None => Doc::Obj(
            seq![
                ("role"@, jstr(a.role)),
                ("key"@, jstr(a.key)),
                ("pretty"@, jstr(if demo { "Demo mock"@ } else { "Unknown tool"@ })),
                ("kind"@, jstr(if demo { "mock"@ } else { "unknown"@ })),
                ("bin"@, Doc::Null),
                ("bin_path"@, Doc::Null),
                ("installed"@, jbool(false)),
                ("model"@, jstr(or_default(a.model))),
                ("model_override"@, jopt_str(a.model)),
                ("effort"@, jstr(or_default(a.effort))),
                ("effort_override"@, jopt_str(a.effort)),
                ("suggested_models"@, Doc::Arr(Seq::empty())),
                ("supported_efforts"@, Doc::Arr(Seq::empty())),
                ("caps"@, Doc::Null),
                ("demo_mock"@, jbool(demo)),
            ],
        ),
    }
}

fn empty_list() -> (r: Json)
    ensures
        r@ == Doc::Arr(Seq::empty()),
{
    let v: Vec<Json> = Vec::new();
    proof {
        assert(docs(v@) =~= Seq::empty());
    }
    list(v)
}

/// The document on an agent.
pub fn preflight_agent_json(agent: &PreflightAgent, demo: bool, found: &Vec<FoundBin>) -> (r: Json)
    ensures
        r@ == agent_doc(agent@, demo, found@),
{
    let mut f = Fields::new();
    f.put("role", text(agent.role));
    f.put("key", text(agent.key.as_str()));
    match tool_info(agent.key.as_str()) {
        Some(info) => {
            let path = bin_path(info.bin, found);
            f.put("pretty", text(info.pretty));
            f.put("kind", text(adapter_kind_label(info.kind)));
            f.put("bin", text(info.bin));
            f.put("bin_path", opt_text(path));
            f.put("installed", truth(path.is_some()));
            f.put("model", text(string_or_default(&agent.model)));
            f.put("model_override", opt_string(&agent.model));
            f.put("effort", text(string_or_default(&agent.effort)));
            f.put("effort_override", opt_string(&agent.effort));
            f.put("suggested_models", text_list(&info.models));
            f.put("supported_efforts", text_list(&info.efforts));
            f.put("caps", tool_caps_json(info.key));
            f.put("demo_mock", truth(demo));
        },
        None => {
            let pretty: &str = if demo {
                "Demo mock"
            } else {
                "Unknown tool"
            };
            let kind: &str = if demo {
                "mock"
            } else {
                "unknown"
            };
            f.put("pretty", text(pretty));
            f.put("kind", text(kind));
            f.put("bin", null());
            f.put("bin_path", null());
            f.put("installed", truth(false));
            f.put("model", text(string_or_default(&agent.model)));
            f.put("model_override", opt_string(&agent.model));
            f.put("effort", text(string_or_default(&agent.effort)));
            f.put("effort_override", opt_string(&agent.effort));
            f.put("suggested_models", empty_list());
            f.put("supported_efforts", empty_list());
            f.put("caps", null());
            f.put("demo_mock", truth(demo));
        },
    }
    proof {
        assert(f@ =~= agent_doc(agent@, demo, found@)->Obj_0);
    }
    f.object()
}

fn agents_json(agents: &Vec<PreflightAgent>, demo: bool, found: &Vec<FoundBin>) -> (r: Json)
    ensures
        r@ == Doc::Arr(
            Seq::new(
                agents@.len(),
                |i: int| agent_doc(agent_rows(agents@)[i], demo, found@),
            ),
        ),
{
    let ghost one = |i: int| agent_doc(agent_rows(agents@)[i], demo, found@);
    let mut out: Vec<Json> = Vec::new();
    let mut i: usize = 0;
    proof {
        assert(docs(out@) =~= Seq::new(0, one));
    }
    while i < agents.len()
        invariant
            i <= agents.len(),
            one == (|i: int| agent_doc(agent_rows(agents@)[i], demo, found@)),
            docs(out@) == Seq::new(i as nat, one),
        decreases agents.len() - i,
    {
        let x = preflight_agent_json(&agents[i], demo, found);
        proof {
            lemma_docs_push(out@, x);
            assert(Seq::new((i + 1) as nat, one) =~= Seq::new(i as nat, one).push(x@));
        }
        out.push(x);
        i = i + 1;
    }
    list(out)
}

/// The agents with their roles.
pub open spec fn cast(agents: Seq<AgentRow>) -> Seq<(Seq<char>, Seq<char>)> {
    Seq::new(agents.len(), |i: int| (agents[i].role, agents[i].key))
}

/// What is advised on the agents.
pub fn roster_advice_for_agents(agents: &Vec<PreflightAgent>) -> (r: Vec<Json>)
    ensures
        docs(r@) == roster_advice(cast(agent_rows(agents@))),
{
    let ghost one = |i: int| (agent_rows(agents@)[i].role, agent_rows(agents@)[i].key);
    let mut roster: Vec<(&str, &str)> = Vec::new();
    let mut i: usize = 0;
    proof {
        assert(pairs(roster@) =~= Seq::new(0, one));
    }
    while i < agents.len()
        invariant
            i <= agents.len(),
            one == (|i: int| (agent_rows(agents@)[i].role, agent_rows(agents@)[i].key)),
            pairs(roster@) == Seq::new(i as nat, one),
        decreases agents.len() - i,
    {
        let role: &str = agents[i].role;
        let key: &str = agents[i].key.as_str();
        let ghost was = roster@;
        roster.push((role, key));
        proof {
            assert(pairs(roster@) =~= pairs(was).push((role@, key@)));
            assert(Seq::new((i + 1) as nat, one) =~= Seq::new(i as nat, one).push((role@, key@)));
        }
        i = i + 1;
    }
    proof {
        assert(pairs(roster@) =~= cast(agent_rows(agents@)));
    }
    tool_roster_advice_json(&roster)
}

// ---- Budget and forecast ---------------------------------------------------

pub open spec fn budget_doc(chars: Option<usize>) -> Doc {
    Doc::Obj(
        seq![
            ("requested_chars"@, jopt_size(chars)),
            ("effective_chars"@, jopt_size(effective_budget(chars))),
            ("effective_tokens_estimate"@, jopt_size(opt_tokens(effective_budget(chars)))),
            ("label"@, jstr(budget_label(chars))),
        ],
    )
}

/// The document on the budget that was asked for.
pub fn context_budget_json(context_budget_chars: Option<usize>) -> (r: Json)
    ensures
        r@ == budget_doc(context_budget_chars),
{
    let effective = effective_context_budget(context_budget_chars);
    let mut f = Fields::new();
    f.put("requested_chars", opt_size(context_budget_chars));
    f.put("effective_chars", opt_size(effective));
    f.put("effective_tokens_estimate", opt_size(opt_estimated_tokens(effective)));
    f.put("label", text(context_budget_label(context_budget_chars).as_str()));
    proof {
        assert(f@ =~= budget_doc(context_budget_chars)->Obj_0);
    }
    f.object()
}

/// Whether an agent plans.
pub open spec fn is_planner(a: AgentRow) -> bool {
    a.role == "drafter"@ || a.role == "critic"@
}

/// How many agents plan; at least one.
pub open spec fn planners_among(agents: Seq<AgentRow>) -> nat {
    let n = agents.filter(|a: AgentRow| is_planner(a)).len();
    if n == 0 {
        1
    } else {
        n
    }
}

/// How many agents plan; at least one.
pub fn planner_count(agents: &Vec<PreflightAgent>) -> (r: usize)
    ensures
        r == planners_among(agent_rows(agents@)),
{
    let ghost all = agent_rows(agents@);
    let ghost keep = |a: AgentRow| is_planner(a);
    let mut n: usize = 0;
    let mut i: usize = 0;
    proof {
        assert(all.take(0).filter(keep) =~= Seq::empty());
    }
    while i < agents.len()
        invariant
            n <= i <= agents.len(),
            all == agent_rows(agents@),
            keep == (|a: AgentRow| is_planner(a)),
            n == all.take(i as int).filter(keep).len(),
        decreases agents.len() - i,
    {
        proof {
            all.take(i as int).lemma_filter_push(all[i as int], keep);
            assert(all.take(i + 1) =~= all.take(i as int).push(all[i as int]));
        }
        if same(agents[i].role, "drafter") || same(agents[i].role, "critic") {
            n = n + 1;
        }
        i = i + 1;
    }
    proof {
        assert(all.take(i as int) =~= all);
    }
    if n == 0 {
        1
    } else {
        n
    }
}

/// What the prompts of a run are expected to take. Nothing where that does not
/// fit the machine.
pub fn prompt_forecast(
    prompt: &str,
    agents: &Vec<PreflightAgent>,
    turns: usize,
    sequential: bool,
    include_execution: bool,
    context_budget_chars: Option<usize>,
    context: &PreflightContextSummary,
) -> (r: Option<PromptForecast>)
    ensures
        ({
            let input = input_of(
                prompt@.len() as usize,
                planners_among(agent_rows(agents@)) as usize,
                turns,
                sequential,
                include_execution,
                *context,
                effective_budget(context_budget_chars),
            );
            match r {
                Some(f) => input.fits() && input.foretells(f),
                None => !input.fits(),
            }
        }),
{
    checked_forecast(
        char_count(prompt),
        planner_count(agents),
        turns,
        sequential,
        include_execution,
        context,
        effective_context_budget(context_budget_chars),
    )
}

/// What is known before a run of the project context and the local changes.
pub open spec fn summary_of(
    ctx: Option<ProjectContext>,
    changes: Option<LocalChangeSummary>,
) -> PreflightContextSummary {
    PreflightContextSummary {
        project_context_chars: match ctx {
            Some(c) => Some(c.text@.len() as usize),
            None => None,
        },
        project_context_cache_hit: match ctx {
            Some(c) => Some(c.cache_hit),
            None => None,
        },
        local_change_handoff_chars: match changes {
            Some(c) => Some(handoff_text(c).len() as usize),
            None => None,
        },
    }
}

/// What is known before a run of the project context and the local changes.
pub fn context_summary(
    ctx: Option<&ProjectContext>,
    changes: Option<&LocalChangeSummary>,
) -> (r: PreflightContextSummary)
    ensures
        r == summary_of(opt_context(ctx), opt_changes(changes)),
{
    let project_context_chars: Option<usize> = match ctx {
        Some(c) => Some(char_count(c.text.as_str())),
        None => None,
    };
    let project_context_cache_hit = match ctx {
        Some(c) => Some(c.cache_hit),
        None => None,
    };
    let local_change_handoff_chars: Option<usize> = match changes {
        Some(c) => Some(char_count(c.to_handoff_text().as_str())),
        None => None,
    };
    PreflightContextSummary {
        project_context_chars,
        project_context_cache_hit,
        local_change_handoff_chars,
    }
}

// ---- The session -----------------------------------------------------------

/// The seat of an agent: the executor may write to the workspace, the others
/// may read.
pub open spec fn seat_of(a: AgentRow) -> SeatView {
    SeatView {
        role: a.role,
        tool_key: a.key,
        model: a.model,
        effort: a.effort,
        cwd_policy: CwdPolicy::Shared,
        execution_permission: if a.role == "executor"@ {
            ExecutionPermission::WorkspaceWrite
        } else {
            ExecutionPermission::ReadOnly
        },
    }
}

pub open spec fn seats_of(agents: Seq<AgentRow>) -> Seq<SeatView> {
    Seq::new(agents.len(), |i: int| seat_of(agents[i]))
}

/// The keys of the agents.
pub open spec fn keys_among(agents: Seq<AgentRow>) -> Seq<Seq<char>> {
    Seq::new(agents.len(), |i: int| agents[i].key)
}

/// The keys of those agents that would execute.
pub open spec fn executors_among(agents: Seq<AgentRow>, include_execution: bool) -> Seq<Seq<char>> {
    keys_among(agents.filter(|a: AgentRow| include_execution && a.role == "executor"@))
}

/// Whether these are the executors that a session allows: those that are
/// named, or all tools, in order and each once, where none is.
pub open spec fn allowed_are(
    allowed: Seq<Seq<char>>,
    agents: Seq<AgentRow>,
    include_execution: bool,
) -> bool {
    if executors_among(agents, include_execution).len() > 0 {
        allowed == executors_among(agents, include_execution)
    } else {
        sorted_set_of(allowed, keys_among(agents))
    }
}

/// The mode that a word names; a run where it names none.
pub open spec fn mode_named(mode: Seq<char>) -> SessionMode {
    if mode == "run"@ {
        SessionMode::Run
    } else if mode == "discuss"@ {
        SessionMode::Discuss
    } else if mode == "solo"@ {
        SessionMode::Solo
    } else if mode == "eval"@ {
        SessionMode::Eval
    } else {
        SessionMode::Run
    }
}

/// What was asked of a run.
#[derive(Debug)]
pub struct PreflightRequest {
    pub mode: String,
    pub prompt: String,
    pub cwd: String,
    pub agents: Vec<PreflightAgent>,
    pub turns: usize,
    pub sandbox: String,
    pub sequential: bool,
    pub include_execution: bool,
    pub separate_executor: bool,
    pub context_budget_chars: Option<usize>,
    pub no_project_context: bool,
    pub refresh_project_context: bool,
    pub project_context_max_files: usize,
    pub project_context_max_manifest_chars: usize,
    pub demo: bool,
    pub report_path: Option<String>,
    pub report_json_path: Option<String>,
}

fn seats(agents: &Vec<PreflightAgent>) -> (r: Vec<AgentSeatConfig>)
    ensures
        seat_views(r@) == seats_of(agent_rows(agents@)),
{
    let ghost one = |i: int| seat_of(agent_rows(agents@)[i]);
    let mut out: Vec<AgentSeatConfig> = Vec::new();
    let mut i: usize = 0;
    proof {
        assert(seat_views(out@) =~= Seq::new(0, one));
    }
    while i < agents.len()
        invariant
            i <= agents.len(),
            one == (|i: int| seat_of(agent_rows(agents@)[i])),
            seat_views(out@) == Seq::new(i as nat, one),
        decreases agents.len() - i,
    {
        let permission = if same(agents[i].role, "executor") {
            ExecutionPermission::WorkspaceWrite
        } else {
            ExecutionPermission::ReadOnly
        };
        let seat = AgentSeatConfig {
            role: agents[i].role.to_owned(),
            tool_key: agents[i].key.clone(),
            model: copy_opt(&agents[i].model),
            effort: copy_opt(&agents[i].effort),
            cwd_policy: CwdPolicy::Shared,
            execution_permission: permission,
        };
        let ghost was = out@;
        let ghost view = seat@;
        out.push(seat);
        proof {
            assert(seat_views(out@) =~= seat_views(was).push(view));
            assert(Seq::new((i + 1) as nat, one) =~= Seq::new(i as nat, one).push(view));
        }
        i = i + 1;
    }
    proof {
        assert(seat_views(out@) =~= seats_of(agent_rows(agents@)));
    }
    out
}

/// The keys of the agents.
pub fn agent_keys(agents: &Vec<PreflightAgent>) -> (r: Vec<String>)
    ensures
        texts(r@) == keys_among(agent_rows(agents@)),
{
    let ghost one = |i: int| agent_rows(agents@)[i].key;
    let mut out: Vec<String> = Vec::new();
    let mut i: usize = 0;
    proof {
        assert(texts(out@) =~= Seq::new(0, one));
    }
    while i < agents.len()
        invariant
            i <= agents.len(),
            one == (|i: int| agent_rows(agents@)[i].key),
            texts(out@) == Seq::new(i as nat, one),
        decreases agents.len() - i,
    {
        let key = agents[i].key.clone();
        proof {
            lemma_texts_push(out@, key);
            assert(Seq::new((i + 1) as nat, one) =~= Seq::new(i as nat, one).push(key@));
        }
        out.push(key);
        i = i + 1;
    }
    proof {
        assert(texts(out@) =~= keys_among(agent_rows(agents@)));
    }
    out
}

fn executor_keys(agents: &Vec<PreflightAgent>, include_execution: bool) -> (r: Vec<String>)
    ensures
        texts(r@) == executors_among(agent_rows(agents@), include_execution),
{
    let ghost all = agent_rows(agents@);
    let ghost keep = |a: AgentRow| include_execution && a.role == "executor"@;
    let mut out: Vec<String> = Vec::new();
    let mut i: usize = 0;
    proof {
        assert(all.take(0).filter(keep) =~= Seq::empty());
        assert(texts(out@) =~= keys_among(all.take(0).filter(keep)));
    }
    while i < agents.len()
        invariant
            i <= agents.len(),
            all == agent_rows(agents@),
            keep == (|a: AgentRow| include_execution && a.role == "executor"@),
            texts(out@) == keys_among(all.take(i as int).filter(keep)),
        decreases agents.len() - i,
    {
        let key = agents[i].key.clone();
        proof {
            let done = all.take(i as int);
            done.lemma_filter_push(all[i as int], keep);
            assert(all.take(i + 1) =~= done.push(all[i as int]));
            lemma_texts_push(out@, key);
            assert(keys_among(done.filter(keep).push(all[i as int])) =~= keys_among(
                done.filter(keep),
            ).push(key@));
        }
        if include_execution && same(agents[i].role, "executor") {
            out.push(key);
        }
        i = i + 1;
    }
    proof {
        assert(all.take(i as int) =~= all);
    }
    out
}

fn mode_from(mode: &str) -> (r: SessionMode)
    ensures
        r == mode_named(mode@),
{
    if same(mode, "run") {
        SessionMode::Run
    } else if same(mode, "discuss") {
        SessionMode::Discuss
    } else if same(mode, "solo") {
        SessionMode::Solo
    } else if same(mode, "eval") {
        SessionMode::Eval
    } else {
        SessionMode::Run
    }
}

/// Whether a session is the one that was asked for.
pub open spec fn session_is(c: SessionConfig, q: PreflightRequest) -> bool {
    &&& c.schema_version == 1
    &&& c.task@ == q.prompt@
    &&& c.cwd@ == q.cwd@
    &&& c.mode == mode_named(q.mode@)
    &&& c.turns == q.turns
    &&& c.sequential == q.sequential
    &&& c.sandbox@ == q.sandbox@
    &&& seat_views(c.seats@) == seats_of(agent_rows(q.agents@))
    &&& c.prompt_budget == (PromptBudgetConfig {
        context_budget_chars: effective_budget(q.context_budget_chars),
        project_context_enabled: !q.no_project_context,
        refresh_project_context: q.refresh_project_context,
        project_context_max_files: q.project_context_max_files,
        project_context_max_manifest_chars: q.project_context_max_manifest_chars,
        local_change_handoff_lines: DEFAULT_LOCAL_CHANGE_LINES,
    })
    &&& c.execution_policy.recommend_only
    &&& c.execution_policy.approval_required
    &&& allowed_are(
        texts(c.execution_policy.allowed_executors@),
        agent_rows(q.agents@),
        q.include_execution,
    )
    &&& crate::text::opt_text(c.report_paths.markdown) == crate::text::opt_text(q.report_path)
    &&& crate::text::opt_text(c.report_paths.json) == crate::text::opt_text(q.report_json_path)
}

/// The session that was asked for.
pub fn resolved_session_config(q: &PreflightRequest) -> (r: SessionConfig)
    ensures
        session_is(r, *q),
{
    let named = executor_keys(&q.agents, q.include_execution);
    proof {
        assert(texts(named@).len() == named@.len());
    }
    let allowed = if named.len() == 0 {
        sorted_set(&agent_keys(&q.agents))
    } else {
        named
    };
    SessionConfig {
        schema_version: 1,
        task: q.prompt.clone(),
        cwd: q.cwd.clone(),
        mode: mode_from(q.mode.as_str()),
        turns: q.turns,
        sequential: q.sequential,
        sandbox: q.sandbox.clone(),
        seats: seats(&q.agents),
        prompt_budget: PromptBudgetConfig {
            context_budget_chars: effective_context_budget(q.context_budget_chars),
            project_context_enabled: !q.no_project_context,
            refresh_project_context: q.refresh_project_context,
            project_context_max_files: q.project_context_max_files,
            project_context_max_manifest_chars: q.project_context_max_manifest_chars,
            local_change_handoff_lines: DEFAULT_LOCAL_CHANGE_LINES,
        },
        execution_policy: ExecutionPolicy::recommend_only(allowed),
        report_paths: ReportPaths {
            markdown: copy_opt(&q.report_path),
            json: copy_opt(&q.report_json_path),
        },
    }
}

/// No session that is resolved before a run executes without approval, and
/// only the executor may write.
pub proof fn law_resolved_sessions_wait_for_approval(c: SessionConfig, q: PreflightRequest, i: int)
    requires
        session_is(c, q),
        0 <= i < c.seats@.len(),
    ensures
        c.execution_policy.recommend_only,
        c.execution_policy.approval_required,
        c.seats@[i]@.role != "executor"@ ==> c.seats@[i]@.execution_permission
            == ExecutionPermission::ReadOnly,
{
    let rows = agent_rows(q.agents@);
    assert(seat_views(c.seats@).len() == seats_of(rows).len());
    assert(seat_views(c.seats@)[i] == c.seats@[i]@);
    assert(seats_of(rows)[i] == seat_of(rows[i]));
}

// ---- The worktree ----------------------------------------------------------

/// What becomes of the wish for a worktree of the executor.
#[derive(Clone, Copy, Debug, PartialEq, Eq, Structural)]
pub enum WorktreeFate {
    Disabled,
    Enabled,
    IgnoredInDemo,
    IgnoredOutsideGit,
}

pub open spec fn fate_of(wanted: bool, demo: bool, git: bool) -> WorktreeFate {
    if !wanted {
        WorktreeFate::Disabled
    } else if demo {
        WorktreeFate::IgnoredInDemo
    } else if git {
        WorktreeFate::Enabled
    } else {
        WorktreeFate::IgnoredOutsideGit
    }
}

/// What becomes of the wish for a worktree of the executor.
pub fn worktree_fate(wanted: bool, demo: bool, git: bool) -> (r: WorktreeFate)
    ensures
        r == fate_of(wanted, demo, git),
{
    if !wanted {
        WorktreeFate::Disabled
    } else if demo {
        WorktreeFate::IgnoredInDemo
    } else if git {
        WorktreeFate::Enabled
    } else {
        WorktreeFate::IgnoredOutsideGit
    }
}

pub open spec fn worktree_doc(fate: WorktreeFate) -> Doc {
    Doc::Obj(
        seq![
            ("requested"@, jbool(fate != WorktreeFate::Disabled)),
            (
                "available"@,
                if fate == WorktreeFate::Disabled {
                    Doc::Null
                } else {
                    jbool(fate == WorktreeFate::Enabled)
                },
            ),
            (
                "status"@,
                jstr(
                    match fate {
                        WorktreeFate::Disabled => "disabled"@,
                        WorktreeFate::Enabled => "enabled"@,
                        WorktreeFate::IgnoredInDemo => "ignored_demo_mode"@,
                        WorktreeFate::IgnoredOutsideGit => "ignored_not_git_repository"@,
                    },
                ),
            ),
        ],
    )
}

/// The document on the worktree.
pub fn worktree_json(fate: WorktreeFate) -> (r: Json)
    ensures
        r@ == worktree_doc(fate),
{
    let status: &str = match fate {
        WorktreeFate::Disabled => "disabled",
        WorktreeFate::Enabled => "enabled",
        WorktreeFate::IgnoredInDemo => "ignored_demo_mode",
        WorktreeFate::IgnoredOutsideGit => "ignored_not_git_repository",
    };
    let available = if fate == WorktreeFate::Disabled {
        null()
    } else {
        truth(fate == WorktreeFate::Enabled)
    };
    let mut f = Fields::new();
    f.put("requested", truth(fate != WorktreeFate::Disabled));
    f.put("available", available);
    f.put("status", text(status));
    proof {
        assert(f@ =~= worktree_doc(fate)->Obj_0);
    }
    f.object()
}

pub open spec fn worktree_words(fate: WorktreeFate) -> Seq<char> {
    match fate {
        WorktreeFate::Disabled => "disabled"@,
        WorktreeFate::Enabled => "enabled"@,
        WorktreeFate::IgnoredInDemo => "ignored in demo mode"@,
        WorktreeFate::IgnoredOutsideGit => "ignored; cwd is not a git repository"@,
    }
}

fn worktree_text(fate: WorktreeFate) -> (r: &'static str)
    ensures
        r@ == worktree_words(fate),
{
    match fate {
        WorktreeFate::Disabled => "disabled",
        WorktreeFate::Enabled => "enabled",
        WorktreeFate::IgnoredInDemo => "ignored in demo mode",
        WorktreeFate::IgnoredOutsideGit => "ignored; cwd is not a git repository",
    }
}

/// What is said where the wish for a worktree is not met.
pub fn worktree_note(fate: WorktreeFate) -> (r: Option<&'static str>)
    ensures
        opt_str(r) == (match fate {
            WorktreeFate::IgnoredInDemo => Some("note: --worktree ignored in --demo mode"@),
            WorktreeFate::IgnoredOutsideGit => Some(
                "note: --worktree ignored (cwd is not a git repository)"@,
            ),
            _ => None,
        }),
{
    match fate {
        WorktreeFate::IgnoredInDemo => Some("note: --worktree ignored in --demo mode"),
        WorktreeFate::IgnoredOutsideGit => Some(
            "note: --worktree ignored (cwd is not a git repository)",
        ),
        _ => None,
    }
}

// ---- The document ----------------------------------------------------------

pub open spec fn planning_word(sequential: bool) -> Seq<char> {
    if sequential {
        "sequential"@
    } else {
        "parallel"@
    }
}

fn planning_mode(sequential: bool) -> (r: &'static str)
    ensures
        r@ == planning_word(sequential),
{
    if sequential {
        "sequential"
    } else {
        "parallel"
    }
}

pub open spec fn execution_word(separate: bool) -> Seq<char> {
    if separate {
        "tiered"@
    } else {
        "participant"@
    }
}

fn execution_shape(separate: bool) -> (r: &'static str)
    ensures
        r@ == execution_word(separate),
{
    if separate {
        "tiered"
    } else {
        "participant"
    }
}

pub open spec fn execution_doc(enabled: bool, separate: bool) -> Doc {
    Doc::Obj(
        seq![
            ("enabled"@, jbool(enabled)),
            (
                "shape"@,
                if enabled {
                    jstr(execution_word(separate))
                } else {
                    Doc::Null
                },
            ),
        ],
    )
}

fn execution_json(enabled: bool, separate: bool) -> (r: Json)
    ensures
        r@ == execution_doc(enabled, separate),
{
    let shape = if enabled {
        text(execution_shape(separate))
    } else {
        null()
    };
    let mut f = Fields::new();
    f.put("enabled", truth(enabled));
    f.put("shape", shape);
    proof {
        assert(f@ =~= execution_doc(enabled, separate)->Obj_0);
    }
    f.object()
}

/// The document on what did not happen.
pub open spec fn no_effects_doc() -> Doc {
    Doc::Obj(seq![("agents_spawned"@, jbool(false)), ("model_calls"@, jbool(false))])
}

fn no_effects() -> (r: Json)
    ensures
        r@ == no_effects_doc(),
{
    let mut f = Fields::new();
    f.put("agents_spawned", truth(false));
    f.put("model_calls", truth(false));
    proof {
        assert(f@ =~= no_effects_doc()->Obj_0);
    }
    f.object()
}

/// What the advice on a run goes by.
pub open spec fn advice_input<'a>(
    q: PreflightRequest,
    forecast: &'a PromptForecast,
    context: &'a PreflightContextSummary,
) -> RunAdviceInput<'a> {
    RunAdviceInput {
        forecast,
        context,
        effective_context_budget_chars: effective_budget(q.context_budget_chars),
        turns: q.turns,
        sequential: q.sequential,
        include_execution: q.include_execution,
        separate_executor: q.separate_executor,
    }
}

/// What was found out before a run.
pub struct PreflightFindings {
    pub summary: PreflightContextSummary,
    pub project_context: Json,
    pub local_changes: Json,
    pub worktree: Json,
    pub workspace_profile: Json,
    pub recommendations: Vec<Json>,
}

/// What was asked for, as the first fields of a document.
pub open spec fn asked_fields(
    build: BuildRecord,
    q: PreflightRequest,
    session: SessionConfig,
) -> Seq<(Seq<char>, Doc)> {
    seq![
        ("kind"@, jstr("tales_preflight"@)),
        ("schema_version"@, jnum(1)),
        ("build"@, build_doc(build)),
        ("mode"@, jstr(q.mode@)),
        ("demo"@, jbool(q.demo)),
        ("cwd"@, jstr(q.cwd@)),
        ("task"@, jstr(q.prompt@)),
        ("turns"@, jnum(q.turns as int)),
        ("planning"@, jstr(planning_word(q.sequential))),
        ("execution"@, execution_doc(q.include_execution, q.separate_executor)),
        ("sandbox"@, jstr(q.sandbox@)),
        ("session_config"@, config_doc(session)),
        ("context_budget"@, budget_doc(q.context_budget_chars)),
        ("report_path"@, jopt_str(crate::text::opt_text(q.report_path))),
        ("report_json_path"@, jopt_str(crate::text::opt_text(q.report_json_path))),
    ]
}

/// What was found out, as the other fields of a document.
pub open spec fn found_fields(
    q: PreflightRequest,
    forecast: PromptForecast,
    findings: PreflightFindings,
    found: Seq<FoundBin>,
) -> Seq<(Seq<char>, Doc)> {
    seq![
        ("worktree"@, findings.worktree@),
        (
            "agents"@,
            Doc::Arr(
                Seq::new(
                    q.agents@.len(),
                    |i: int| agent_doc(agent_rows(q.agents@)[i], q.demo, found),
                ),
            ),
        ),
        ("roster_advice"@, Doc::Arr(roster_advice(cast(agent_rows(q.agents@))))),
        ("project_context"@, findings.project_context@),
        ("local_changes"@, findings.local_changes@),
        ("prompt_forecast"@, forecast_doc(forecast, q.turns, q.sequential)),
        (
            "run_advice"@,
            Doc::Arr(advice_docs(run_advice(advice_input(q, &forecast, &findings.summary)))),
        ),
        ("workspace_profile"@, findings.workspace_profile@),
        ("tool_recommendations"@, Doc::Arr(docs(findings.recommendations@))),
        ("side_effects"@, no_effects_doc()),
        ("status"@, jstr("ready"@)),
    ]
}

pub open spec fn preflight_doc(
    build: BuildRecord,
    q: PreflightRequest,
    session: SessionConfig,
    forecast: PromptForecast,
    findings: PreflightFindings,
    found: Seq<FoundBin>,
) -> Doc {
    Doc::Obj(asked_fields(build, q, session) + found_fields(q, forecast, findings, found))
}

fn advice(
    q: &PreflightRequest,
    forecast: &PromptForecast,
    context: &PreflightContextSummary,
) -> (r: Vec<RunAdvice>)
    requires
        forecast.worst() <= usize::MAX,
    ensures
        advices(r@) == run_advice(advice_input(*q, forecast, context)),
{
    build_run_advice(
        RunAdviceInput {
            forecast,
            context,
            effective_context_budget_chars: effective_context_budget(q.context_budget_chars),
            turns: q.turns,
            sequential: q.sequential,
            include_execution: q.include_execution,
            separate_executor: q.separate_executor,
        },
    )
}

fn put_asked(build: &BuildRecord, q: &PreflightRequest, session: &SessionConfig) -> (f: Fields)
    ensures
        f@ == asked_fields(*build, *q, *session),
{
    let mut f = Fields::new();
    f.put("kind", text("tales_preflight"));
    f.put("schema_version", num(1));
    f.put("build", json(build));
    f.put("mode", text(q.mode.as_str()));
    f.put("demo", truth(q.demo));
    f.put("cwd", text(q.cwd.as_str()));
    f.put("task", text(q.prompt.as_str()));
    f.put("turns", size(q.turns));
    f.put("planning", text(planning_mode(q.sequential)));
    f.put("execution", execution_json(q.include_execution, q.separate_executor));
    f.put("sandbox", text(q.sandbox.as_str()));
    f.put("session_config", session.to_json());
    f.put("context_budget", context_budget_json(q.context_budget_chars));
    f.put("report_path", opt_string(&q.report_path));
    f.put("report_json_path", opt_string(&q.report_json_path));
    proof {
        assert(f@ =~= asked_fields(*build, *q, *session));
    }
    f
}

/// What a run would do, as a document.
pub fn preflight_json(
    build: &BuildRecord,
    q: &PreflightRequest,
    session: &SessionConfig,
    forecast: &PromptForecast,
    findings: PreflightFindings,
    found: &Vec<FoundBin>,
) -> (r: Json)
    requires
        forecast.worst() <= usize::MAX,
    ensures
        r@ == preflight_doc(*build, *q, *session, *forecast, findings, found@),
{
    let run_advice = advice(q, forecast, &findings.summary);
    let mut f = put_asked(build, q, session);
    let ghost asked = f@;
    f.put("worktree", findings.worktree);
    f.put("agents", agents_json(&q.agents, q.demo, found));
    f.put("roster_advice", list(roster_advice_for_agents(&q.agents)));
    f.put("project_context", findings.project_context);
    f.put("local_changes", findings.local_changes);
    f.put("prompt_forecast", prompt_forecast_to_json(forecast, q.turns, q.sequential));
    f.put("run_advice", list(run_advice_to_json(&run_advice)));
    f.put("workspace_profile", findings.workspace_profile);
    f.put("tool_recommendations", list(findings.recommendations));
    f.put("side_effects", no_effects());
    f.put("status", text("ready"));
    proof {
        assert(f@ =~= asked + found_fields(*q, *forecast, findings, found@));
    }
    f.object()
}

// ---- The same as text ------------------------------------------------------

pub open spec fn or_missing(path: Option<Seq<char>>) -> Seq<char> {
    match path {
        Some(p) => p,
        None => "missing"@,
    }
}

/// What is shown of an agent.
pub open spec fn agent_text(a: AgentRow, demo: bool, found: Seq<FoundBin>) -> Seq<char> {
    match row_of(a.key) {
        Some(row) => "- "@ + a.role + ": "@ + a.key + " ("@ + row.pretty + ") ["@
            + kind_label(row.kind) + "]\n  bin: "@ + row.bin + " -> "@
            + or_missing(found_path(found, row.bin)) + "\n  model: "@ + or_default(a.model)
            + "; effort: "@ + or_default(a.effort) + "\n"@,
        None => {
            let what = if demo {
                "demo mock"@
            } else {
                "unknown"@
            };
            "- "@ + a.role + ": "@ + a.key + " ("@ + what + ")\n  model: "@
                + or_default(a.model) + "; effort: "@ + or_default(a.effort) + "\n"@
        },
    }
}

fn write_agent(agent: &PreflightAgent, demo: bool, found: &Vec<FoundBin>) -> (r: String)
    ensures
        r@ == agent_text(agent@, demo, found@),
{
    match tool_info(agent.key.as_str()) {
        Some(info) => {
            let path: &str = match bin_path(info.bin, found) {
                Some(p) => p,
                None => "missing",
            };
            let mut out = "- ".to_owned();
            out.append(agent.role);
            out.append(": ");
            out.append(agent.key.as_str());
            out.append(" (");
            out.append(info.pretty);
            out.append(") [");
            out.append(adapter_kind_label(info.kind));
            out.append("]\n  bin: ");
            out.append(info.bin);
            out.append(" -> ");
            out.append(path);
            out.append("\n  model: ");
            out.append(string_or_default(&agent.model));
            out.append("; effort: ");
            out.append(string_or_default(&agent.effort));
            out.append("\n");
            out
        },
        None => {
            let what: &str = if demo {
                "demo mock"
            } else {
                "unknown"
            };
            let mut out = "- ".to_owned();
            out.append(agent.role);
            out.append(": ");
            out.append(agent.key.as_str());
            out.append(" (");
            out.append(what);
            out.append(")\n  model: ");
            out.append(string_or_default(&agent.model));
            out.append("; effort: ");
            out.append(string_or_default(&agent.effort));
            out.append("\n");
            out
        },
    }
}

pub open spec fn agents_text_of(agents: Seq<AgentRow>, demo: bool, found: Seq<FoundBin>) -> Seq<
    char,
> {
    "\nAgents\n"@ + flat(Seq::new(agents.len(), |i: int| agent_text(agents[i], demo, found)))
}

/// What is shown of the agents.
pub fn preflight_agents_text(agents: &Vec<PreflightAgent>, demo: bool, found: &Vec<FoundBin>) -> (r:
    String)
    ensures
        r@ == agents_text_of(agent_rows(agents@), demo, found@),
{
    let ghost one = |i: int| agent_text(agent_rows(agents@)[i], demo, found@);
    let mut lines = String::new();
    let mut i: usize = 0;
    proof {
        assert(flat(Seq::new(0, one)) =~= Seq::empty());
        assert(lines@ =~= Seq::empty());
    }
    while i < agents.len()
        invariant
            i <= agents.len(),
            one == (|i: int| agent_text(agent_rows(agents@)[i], demo, found@)),
            lines@ == flat(Seq::new(i as nat, one)),
        decreases agents.len() - i,
    {
        lines.append(write_agent(&agents[i], demo, found).as_str());
        proof {
            lemma_flat_push(Seq::new(i as nat, one), one(i as int));
            assert(Seq::new((i + 1) as nat, one) =~= Seq::new(i as nat, one).push(one(i as int)));
        }
        i = i + 1;
    }
    proof {
        assert(Seq::new(i as nat, one) =~= Seq::new(
            agent_rows(agents@).len(),
            |i: int| agent_text(agent_rows(agents@)[i], demo, found@),
        ));
    }
    let mut out = "\nAgents\n".to_owned();
    out.append(lines.as_str());
    out
}

/// What is shown of the project context.
pub open spec fn context_text_of(
    ctx: Option<ProjectContext>,
    max_files: usize,
    max_manifest_chars: usize,
    budget: Option<usize>,
) -> Seq<char> {
    match ctx {
        None => "\nProject context\ncache: disabled\nbudgets: max_files="@
            + dec(max_files as nat) + ", max_manifest_chars="@ + dec(max_manifest_chars as nat)
            + "\n"@,
        Some(c) => "\nProject context\ncache: "@ + hit_word(c.cache_hit) + "\npath: "@
            + c.cache_path@ + "\nchars: "@ + dec(c.text@.len()) + "\ntokens~: "@
            + dec(tokens_of(c.text@.len())) + "\nbudget fit: "@
            + fit_label(c.text@.len() as usize, effective_budget(budget))
            + "\nbudgets: max_files="@ + dec(max_files as nat) + ", max_manifest_chars="@
            + dec(max_manifest_chars as nat) + "\n"@,
    }
}

/// What is shown of the project context.
pub fn preflight_context_text(
    ctx: Option<&ProjectContext>,
    max_files: usize,
    max_manifest_chars: usize,
    budget: Option<usize>,
) -> (r: String)
    ensures
        r@ == context_text_of(opt_context(ctx), max_files, max_manifest_chars, budget),
{
    match ctx {
        None => {
            let mut out = "\nProject context\ncache: disabled\nbudgets: max_files=".to_owned();
            out.append(decimal_size(max_files).as_str());
            out.append(", max_manifest_chars=");
            out.append(decimal_size(max_manifest_chars).as_str());
            out.append("\n");
            out
        },
        Some(c) => {
            let chars = char_count(c.text.as_str());
            let hit: &str = if c.cache_hit {
                "hit"
            } else {
                "rebuilt"
            };
            let mut out = "\nProject context\ncache: ".to_owned();
            out.append(hit);
            out.append("\npath: ");
            out.append(c.cache_path.as_str());
            out.append("\nchars: ");
            out.append(decimal_size(chars).as_str());
            out.append("\ntokens~: ");
            out.append(decimal_size(estimated_tokens(chars)).as_str());
            out.append("\nbudget fit: ");
            out.append(context_fit_label(chars, effective_context_budget(budget)).as_str());
            out.append("\nbudgets: max_files=");
            out.append(decimal_size(max_files).as_str());
            out.append(", max_manifest_chars=");
            out.append(decimal_size(max_manifest_chars).as_str());
            out.append("\n");
            out
        },
    }
}

/// The changes that are shown, and dots where there are more.
pub open spec fn change_lines(c: LocalChangeSummary) -> Seq<char> {
    if c.changes@.len() == 0 {
        Seq::empty()
    } else {
        let shown = if c.changes@.len() < 8 {
            c.changes@.len()
        } else {
            8
        };
        flat(Seq::new(shown, |i: int| "- "@ + c.changes@[i]@ + "\n"@)) + (if c.changes@.len() > 8
            || c.truncated {
            "- ...\n"@
        } else {
            Seq::empty()
        })
    }
}

/// What is shown of the local changes.
pub open spec fn changes_text_of(changes: Option<LocalChangeSummary>) -> Seq<char> {
    match changes {
        Some(c) => "\nLocal changes\nstatus: "@ + summary_line_of(c) + "\n"@ + change_lines(c),
        None => "\nLocal changes\nstatus: unavailable (not a git repository or git unavailable)\n"@,
    }
}

fn write_change_lines(c: &LocalChangeSummary) -> (r: String)
    ensures
        r@ == change_lines(*c),
{
    let mut out = String::new();
    if c.changes.len() == 0 {
        proof {
            assert(out@ =~= Seq::empty());
        }
        return out;
    }
    let shown: usize = if c.changes.len() < 8 {
        c.changes.len()
    } else {
        8
    };
    let ghost one = |i: int| "- "@ + c.changes@[i]@ + "\n"@;
    let mut i: usize = 0;
    proof {
        assert(flat(Seq::new(0, one)) =~= Seq::empty());
        assert(out@ =~= Seq::empty());
    }
    while i < shown
        invariant
            i <= shown <= c.changes@.len(),
            one == (|i: int| "- "@ + c.changes@[i]@ + "\n"@),
            out@ == flat(Seq::new(i as nat, one)),
        decreases shown - i,
    {
        out.append("- ");
        out.append(c.changes[i].as_str());
        out.append("\n");
        proof {
            lemma_flat_push(Seq::new(i as nat, one), one(i as int));
            assert(Seq::new((i + 1) as nat, one) =~= Seq::new(i as nat, one).push(one(i as int)));
            assert(out@ =~= flat(Seq::new(i as nat, one)) + one(i as int));
        }
        i = i + 1;
    }
    let ghost lines = out@;
    if c.changes.len() > 8 || c.truncated {
        out.append("- ...\n");
    } else {
        proof {
            assert(lines =~= lines + Seq::<char>::empty());
        }
    }
    proof {
        assert(Seq::new(i as nat, one) =~= Seq::new(
            shown as nat,
            |i: int| "- "@ + c.changes@[i]@ + "\n"@,
        ));
    }
    out
}

/// What is shown of the local changes.
pub fn preflight_changes_text(changes: Option<&LocalChangeSummary>) -> (r: String)
    ensures
        r@ == changes_text_of(opt_changes(changes)),
{
    match changes {
        Some(c) => {
            let mut out = "\nLocal changes\nstatus: ".to_owned();
            out.append(c.summary_line().as_str());
            out.append("\n");
            out.append(write_change_lines(c).as_str());
            out
        },
        None => "\nLocal changes\nstatus: unavailable (not a git repository or git unavailable)\n".to_owned(),
    }
}

/// How much of the project context each first prompt takes.
pub open spec fn context_share(f: PromptForecast) -> nat {
    if f.first_context_prompts == 0 {
        0
    } else {
        (f.project_context_payload_chars as nat) / (f.first_context_prompts as nat)
    }
}

pub open spec fn calls_text(f: PromptForecast) -> Seq<char> {
    "\nPrompt forecast\nplanned calls: "@ + dec(f.total()) + " base, "@ + dec(f.worst())
        + " worst-case (planning="@ + dec(f.planning_prompts as nat) + ", recommendation="@
        + dec(f.recommendation_prompts as nat) + ", execution="@
        + dec(f.execution_prompts as nat) + ")\n"@
}

pub open spec fn repair_text(f: PromptForecast) -> Seq<char> {
    if f.max_vote_repair_prompts > 0 {
        "repair risk: 0.."@ + dec(f.max_vote_repair_prompts as nat)
            + " extra vote prompt(s); common vote aliases and unambiguous candidate mentions avoid repair\n"@
    } else {
        Seq::empty()
    }
}

pub open spec fn waits_text(f: PromptForecast, turns: usize, sequential: bool) -> Seq<char> {
    if sequential {
        "planning waits: "@ + dec(turns as nat) + " sequential planner turn(s)\n"@
    } else {
        "planning waits: "@ + dec(rounds_of(turns as nat, f.planner_count as nat))
            + " parallel round(s) x "@ + dec(f.planner_count as nat) + " planner(s)\n"@
    }
}

pub open spec fn known_text(f: PromptForecast) -> Seq<char> {
    "known local payload: "@ + dec(f.known_payload_chars as nat) + " chars (~"@
        + dec(tokens_of(f.known_payload_chars as nat)) + " tokens)\n"@
}

pub open spec fn payload_text(
    f: PromptForecast,
    context: PreflightContextSummary,
    budget: Option<usize>,
) -> Seq<char> {
    match context.project_context_chars {
        Some(chars) => ("project context payload: "@ + dec(context_share(f)) + " chars x "@
            + dec(f.first_context_prompts as nat) + " first planner prompt(s) = "@
            + dec(f.project_context_payload_chars as nat) + " chars\n"@) + (match effective_budget(budget) {
            Some(cap) => if chars > cap {
                "hint: project context source is "@ + dec(chars as nat)
                    + " chars, budgeted to first-turn payloads by the context cap.\n"@
            } else {
                Seq::empty()
            },
            None => Seq::empty(),
        }),
        None => "project context payload: disabled/unavailable\n"@,
    }
}

pub open spec fn handoff_payload_text(f: PromptForecast, include_execution: bool) -> Seq<char> {
    if !include_execution {
        Seq::empty()
    } else if f.local_change_payload_chars == 0 {
        "local-change handoff payload: unavailable/clean\n"@
    } else {
        "local-change handoff payload: "@ + dec(f.local_change_payload_chars as nat)
            + " chars (~"@ + dec(tokens_of(f.local_change_payload_chars as nat)) + " tokens)\n"@
    }
}

pub open spec fn cap_text(budget: Option<usize>) -> Seq<char> {
    "explicit context cap: "@ + budget_label(budget)
        + "\nnote: forecast excludes model replies, provider-side resumed memory, media tokenization, and later transcript growth; the session report records actual prompt telemetry.\n"@
}

pub open spec fn run_advice_line(a: AdviceView) -> Seq<char> {
    "- ["@ + level_name(a.level) + "] "@ + a.title + ": "@ + a.detail + "\n"@
}

pub open spec fn run_advice_text(items: Seq<AdviceView>) -> Seq<char> {
    if items.len() == 0 {
        Seq::empty()
    } else {
        "\nRun advice\n"@ + flat(Seq::new(items.len(), |i: int| run_advice_line(items[i])))
    }
}

/// What is shown of what the prompts are expected to take.
pub open spec fn forecast_text_of(
    q: PreflightRequest,
    f: PromptForecast,
    context: PreflightContextSummary,
) -> Seq<char> {
    calls_text(f) + repair_text(f) + waits_text(f, q.turns, q.sequential) + known_text(f)
        + payload_text(f, context, q.context_budget_chars) + handoff_payload_text(
        f,
        q.include_execution,
    ) + cap_text(q.context_budget_chars) + run_advice_text(
        run_advice(advice_input(q, &f, &context)),
    )
}

fn write_calls(f: &PromptForecast) -> (r: String)
    requires
        f.worst() <= usize::MAX,
    ensures
        r@ == calls_text(*f),
{
    let mut out = "\nPrompt forecast\nplanned calls: ".to_owned();
    out.append(decimal_size(f.total_prompts()).as_str());
    out.append(" base, ");
    out.append(decimal_size(f.worst_case_total_prompts()).as_str());
    out.append(" worst-case (planning=");
    out.append(decimal_size(f.planning_prompts).as_str());
    out.append(", recommendation=");
    out.append(decimal_size(f.recommendation_prompts).as_str());
    out.append(", execution=");
    out.append(decimal_size(f.execution_prompts).as_str());
    out.append(")\n");
    out
}

fn write_repair(f: &PromptForecast) -> (r: String)
    ensures
        r@ == repair_text(*f),
{
    if f.max_vote_repair_prompts > 0 {
        let mut out = "repair risk: 0..".to_owned();
        out.append(decimal_size(f.max_vote_repair_prompts).as_str());
        out.append(" extra vote prompt(s); common vote aliases and unambiguous candidate mentions avoid repair\n");
        out
    } else {
        let out = String::new();
        proof {
            assert(out@ =~= Seq::empty());
        }
        out
    }
}

fn write_waits(f: &PromptForecast, turns: usize, sequential: bool) -> (r: String)
    ensures
        r@ == waits_text(*f, turns, sequential),
{
    if sequential {
        let mut out = "planning waits: ".to_owned();
        out.append(decimal_size(turns).as_str());
        out.append(" sequential planner turn(s)\n");
        out
    } else {
        let mut out = "planning waits: ".to_owned();
        out.append(decimal_size(parallel_rounds(turns, f.planner_count)).as_str());
        out.append(" parallel round(s) x ");
        out.append(decimal_size(f.planner_count).as_str());
        out.append(" planner(s)\n");
        out
    }
}

fn write_known(f: &PromptForecast) -> (r: String)
    ensures
        r@ == known_text(*f),
{
    let mut out = "known local payload: ".to_owned();
    out.append(decimal_size(f.known_payload_chars).as_str());
    out.append(" chars (~");
    out.append(decimal_size(estimated_tokens(f.known_payload_chars)).as_str());
    out.append(" tokens)\n");
    out
}

fn write_payload(
    f: &PromptForecast,
    context: &PreflightContextSummary,
    budget: Option<usize>,
) -> (r: String)
    ensures
        r@ == payload_text(*f, *context, budget),
{
    match context.project_context_chars {
        Some(chars) => {
            let share: usize = if f.first_context_prompts == 0 {
                0
            } else {
                f.project_context_payload_chars / f.first_context_prompts
            };
            let mut out = "project context payload: ".to_owned();
            out.append(decimal_size(share).as_str());
            out.append(" chars x ");
            out.append(decimal_size(f.first_context_prompts).as_str());
            out.append(" first planner prompt(s) = ");
            out.append(decimal_size(f.project_context_payload_chars).as_str());
            out.append(" chars\n");
            let mut hint = String::new();
            if let Some(cap) = effective_context_budget(budget) {
                if chars > cap {
                    hint.append("hint: project context source is ");
                    hint.append(decimal_size(chars).as_str());
                    hint.append(" chars, budgeted to first-turn payloads by the context cap.\n");
                }
            }
            proof {
                assert(hint@ =~= (match effective_budget(budget) {
                    Some(cap) => if chars > cap {
                        "hint: project context source is "@ + dec(chars as nat)
                            + " chars, budgeted to first-turn payloads by the context cap.\n"@
                    } else {
                        Seq::empty()
                    },
                    None => Seq::empty(),
                }));
            }
            out.append(hint.as_str());
            out
        },
        None => "project context payload: disabled/unavailable\n".to_owned(),
    }
}

fn write_handoff(f: &PromptForecast, include_execution: bool) -> (r: String)
    ensures
        r@ == handoff_payload_text(*f, include_execution),
{
    if !include_execution {
        let out = String::new();
        proof {
            assert(out@ =~= Seq::empty());
        }
        out
    } else if f.local_change_payload_chars == 0 {
        "local-change handoff payload: unavailable/clean\n".to_owned()
    } else {
        let mut out = "local-change handoff payload: ".to_owned();
        out.append(decimal_size(f.local_change_payload_chars).as_str());
        out.append(" chars (~");
        out.append(decimal_size(estimated_tokens(f.local_change_payload_chars)).as_str());
        out.append(" tokens)\n");
        out
    }
}

fn write_cap(budget: Option<usize>) -> (r: String)
    ensures
        r@ == cap_text(budget),
{
    let mut out = "explicit context cap: ".to_owned();
    out.append(context_budget_label(budget).as_str());
    out.append("\nnote: forecast excludes model replies, provider-side resumed memory, media tokenization, and later transcript growth; the session report records actual prompt telemetry.\n");
    out
}

fn write_run_advice_line(item: &RunAdvice) -> (r: String)
    ensures
        r@ == run_advice_line(item@),
{
    let mut out = "- [".to_owned();
    out.append(item.level.as_str());
    out.append("] ");
    out.append(item.title.as_str());
    out.append(": ");
    out.append(item.detail.as_str());
    out.append("\n");
    out
}

fn write_run_advice(items: &Vec<RunAdvice>) -> (r: String)
    ensures
        r@ == run_advice_text(advices(items@)),
{
    if items.len() == 0 {
        let out = String::new();
        proof {
            assert(out@ =~= Seq::empty());
        }
        return out;
    }
    let ghost one = |i: int| run_advice_line(advices(items@)[i]);
    let mut lines = String::new();
    let mut i: usize = 0;
    proof {
        assert(flat(Seq::new(0, one)) =~= Seq::empty());
        assert(lines@ =~= Seq::empty());
    }
    while i < items.len()
        invariant
            i <= items.len(),
            one == (|i: int| run_advice_line(advices(items@)[i])),
            lines@ == flat(Seq::new(i as nat, one)),
        decreases items.len() - i,
    {
        lines.append(write_run_advice_line(&items[i]).as_str());
        proof {
            lemma_flat_push(Seq::new(i as nat, one), one(i as int));
            assert(Seq::new((i + 1) as nat, one) =~= Seq::new(i as nat, one).push(one(i as int)));
        }
        i = i + 1;
    }
    proof {
        assert(Seq::new(i as nat, one) =~= Seq::new(
            advices(items@).len(),
            |i: int| run_advice_line(advices(items@)[i]),
        ));
    }
    let mut out = "\nRun advice\n".to_owned();
    out.append(lines.as_str());
    out
}

/// What is shown of what the prompts are expected to take.
pub fn prompt_forecast_text(
    q: &PreflightRequest,
    f: &PromptForecast,
    context: &PreflightContextSummary,
) -> (r: String)
    requires
        f.worst() <= usize::MAX,
    ensures
        r@ == forecast_text_of(*q, *f, *context),
{
    let mut out = write_calls(f);
    out.append(write_repair(f).as_str());
    out.append(write_waits(f, q.turns, q.sequential).as_str());
    out.append(write_known(f).as_str());
    out.append(write_payload(f, context, q.context_budget_chars).as_str());
    out.append(write_handoff(f, q.include_execution).as_str());
    out.append(write_cap(q.context_budget_chars).as_str());
    out.append(write_run_advice(&advice(q, f, context)).as_str());
    out
}

pub open spec fn demo_word(demo: bool) -> Seq<char> {
    if demo {
        " demo"@
    } else {
        Seq::empty()
    }
}

pub open spec fn execution_line(q: PreflightRequest) -> Seq<char> {
    if q.include_execution {
        "execution: "@ + execution_word(q.separate_executor) + "\n"@
    } else {
        Seq::empty()
    }
}

pub open spec fn path_line(head: Seq<char>, path: Option<Seq<char>>) -> Seq<char> {
    match path {
        Some(p) => head + p + "\n"@,
        None => Seq::empty(),
    }
}

pub open spec fn worktree_line(fate: Option<WorktreeFate>) -> Seq<char> {
    match fate {
        Some(f) => "executor worktree: "@ + worktree_words(f) + "\n"@,
        None => Seq::empty(),
    }
}

fn write_path_line(head: &str, path: &Option<String>) -> (r: String)
    ensures
        r@ == path_line(head@, crate::text::opt_text(*path)),
{
    match path {
        Some(p) => {
            let mut out = head.to_owned();
            out.append(p.as_str());
            out.append("\n");
            out
        },
        None => {
            let out = String::new();
            proof {
                assert(out@ =~= Seq::empty());
            }
            out
        },
    }
}

/// What is shown of what was asked for; of the worktree where there is an
/// executor.
pub fn dry_run_text(q: &PreflightRequest, fate: Option<WorktreeFate>) -> (r: String)
    ensures
        r@ == "Tales dry run\nmode: "@ + q.mode@ + demo_word(q.demo) + "\ncwd: "@ + q.cwd@
            + "\ntask: "@ + q.prompt@ + "\nturns: "@ + dec(q.turns as nat) + "\nplanning: "@
            + planning_word(q.sequential) + "\n"@ + execution_line(*q) + "sandbox: "@
            + q.sandbox@ + "\ncontext budget: "@ + budget_label(q.context_budget_chars) + "\n"@
            + path_line("report path: "@, crate::text::opt_text(q.report_path))
            + path_line("report json path: "@, crate::text::opt_text(q.report_json_path))
            + worktree_line(fate),
{
    let demo: &str = if q.demo {
        " demo"
    } else {
        ""
    };
    proof {
        reveal_strlit("");
        assert(demo@ =~= demo_word(q.demo));
    }
    let mut execution = String::new();
    if q.include_execution {
        execution.append("execution: ");
        execution.append(execution_shape(q.separate_executor));
        execution.append("\n");
    }
    proof {
        assert(execution@ =~= execution_line(*q));
    }
    let report = write_path_line("report path: ", &q.report_path);
    let report_json = write_path_line("report json path: ", &q.report_json_path);
    let mut worktree = String::new();
    if let Some(f) = fate {
        worktree.append("executor worktree: ");
        worktree.append(worktree_text(f));
        worktree.append("\n");
    }
    proof {
        assert(worktree@ =~= worktree_line(fate));
    }
    let mut out = "Tales dry run\nmode: ".to_owned();
    out.append(q.mode.as_str());
    out.append(demo);
    out.append("\ncwd: ");
    out.append(q.cwd.as_str());
    out.append("\ntask: ");
    out.append(q.prompt.as_str());
    out.append("\nturns: ");
    out.append(decimal_size(q.turns).as_str());
    out.append("\nplanning: ");
    out.append(planning_mode(q.sequential));
    out.append("\n");
    out.append(execution.as_str());
    out.append("sandbox: ");
    out.append(q.sandbox.as_str());
    out.append("\ncontext budget: ");
    out.append(context_budget_label(q.context_budget_chars).as_str());
    out.append("\n");
    out.append(report.as_str());
    out.append(report_json.as_str());
    out.append(worktree.as_str());
    out
}

} // verus!
