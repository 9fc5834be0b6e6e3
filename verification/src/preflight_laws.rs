//! What holds of what is said before a run: its session, its forecast and the
//! advice that is given.
use vstd::prelude::*;
use crate::agent::{found_path, FoundBin};
use crate::labels::effective_budget;
use crate::context::tokens_of;
use crate::count_laws::tells;
use crate::json::{jbool, jopt_str, jstr};
use crate::numeral::dec;
use crate::preflight::{
    agent_doc, agent_rows, agent_text, agents_text_of, allowed_are, calls_text, change_lines,
    fate_of, handoff_payload_text, is_planner, keys_among, known_text, mode_named, planners_among,
    repair_text, run_advice_line, run_advice_text, seat_of, seats_of, session_is, summary_of,
    waits_text, worktree_doc, AgentRow, PreflightRequest, WorktreeFate,
};
use crate::changes::{handoff_text, LocalChangeSummary};
use crate::project_context::ProjectContext;
use crate::prompt_forecast::{
    advice_item_doc, level_name, rounds_of, run_advice, AdviceLevel, AdviceView, ForecastInput,
    PromptForecast, RunAdviceInput,
};
use crate::registry::row_of;
use crate::session::{mode_name, seat_views, ExecutionPermission, SessionConfig, SessionMode};
use crate::text::{flat, opt_text};
use crate::text_laws::{
    group_says, law_concatenation_keeps_every_part, lemma_pair_is_said, lemma_says_all_each,
    lemma_says_through, says,
};

verus! {

// ---- The session -----------------------------------------------------------------

/// A mode is read back from its name; what names none is a run.
pub proof fn law_modes_are_read_back(m: SessionMode, s: Seq<char>)
    ensures
        mode_named(mode_name(m)) == m,
        s != "discuss"@ && s != "solo"@ && s != "eval"@ ==> mode_named(s) == SessionMode::Run,
{
    reveal_strlit("run");
    reveal_strlit("discuss");
    reveal_strlit("solo");
    reveal_strlit("eval");
    assert("run"@.len() == 3 && "discuss"@.len() == 7 && "solo"@.len() == 4 && "eval"@.len() == 4);
    assert("solo"@[0] == 's' && "eval"@[0] == 'e');
}

/// A session is what was asked for: its task, directory, turns and limits, and a
/// seat for each agent, in order, with its tool, model and effort. The executor
/// alone may write.
pub proof fn law_sessions_are_as_asked_for(c: SessionConfig, q: PreflightRequest, i: int)
    requires
        session_is(c, q),
    ensures
        c.task@ == q.prompt@,
        c.cwd@ == q.cwd@,
        c.turns == q.turns,
        c.sequential == q.sequential,
        c.sandbox@ == q.sandbox@,
        c.prompt_budget.context_budget_chars == effective_budget(q.context_budget_chars),
        c.prompt_budget.project_context_enabled == !q.no_project_context,
        c.prompt_budget.refresh_project_context == q.refresh_project_context,
        c.prompt_budget.project_context_max_files == q.project_context_max_files,
        c.prompt_budget.project_context_max_manifest_chars == q.project_context_max_manifest_chars,
        opt_text(c.report_paths.markdown) == opt_text(q.report_path),
        opt_text(c.report_paths.json) == opt_text(q.report_json_path),
        c.seats@.len() == q.agents@.len(),
        0 <= i < q.agents@.len() ==> {
            let seat = c.seats@[i]@;
            let a = q.agents@[i]@;
            &&& seat.role == a.role
            &&& seat.tool_key == a.key
            &&& seat.model == a.model
            &&& seat.effort == a.effort
            &&& seat.execution_permission == ExecutionPermission::WorkspaceWrite <==> a.role
                == "executor"@
        },
{
    let rows = agent_rows(q.agents@);
    assert(seat_views(c.seats@).len() == seats_of(rows).len());
    if 0 <= i < q.agents@.len() {
        assert(seat_views(c.seats@)[i] == c.seats@[i]@);
        assert(seats_of(rows)[i] == seat_of(rows[i]));
    }
}

/// Where someone is to execute, only executors of the roster may; else every tool
/// of the roster may be recommended, each once.
pub proof fn law_executors_are_allowed(
    allowed: Seq<Seq<char>>,
    agents: Seq<AgentRow>,
    include_execution: bool,
    i: int,
)
    requires
        allowed_are(allowed, agents, include_execution),
    ensures
        0 <= i < agents.len() && include_execution && agents[i].role == "executor"@
            ==> allowed.contains(agents[i].key),
        0 <= i < agents.len() && !include_execution ==> allowed.contains(agents[i].key),
        0 <= i < allowed.len() ==> keys_among(agents).contains(allowed[i]),
{
    let keep = |a: AgentRow| include_execution && a.role == "executor"@;
    let ex = agents.filter(keep);
    crate::session_laws::lemma_kept(agents, keep, i);
    if ex.len() > 0 {
        crate::session_laws::lemma_kept(agents, keep, 0);
        if 0 <= i < agents.len() && keep(agents[i]) {
            let m = choose|m: int| 0 <= m < ex.len() && ex[m] == agents[i];
            assert(allowed[m] == agents[i].key);
        }
        if 0 <= i < allowed.len() {
            let m = choose|m: int| 0 <= m < agents.len() && agents[m] == ex[i];
            assert(keys_among(agents)[m] == allowed[i]);
        }
    } else {
        if 0 <= i < agents.len() {
            assert(keys_among(agents)[i] == agents[i].key);
            assert(keys_among(agents).contains(agents[i].key));
        }
        if 0 <= i < allowed.len() {
            assert(allowed.contains(allowed[i]));
        }
    }
}

/// As many planners are counted as draft or criticise, and one where none does.
pub proof fn law_planners_are_counted(agents: Seq<AgentRow>, a: AgentRow)
    ensures
        planners_among(agents) >= 1,
        !is_planner(a) ==> planners_among(agents.push(a)) == planners_among(agents),
        is_planner(a) && (exists|i: int| 0 <= i < agents.len() && is_planner(#[trigger] agents[i]))
            ==> planners_among(agents.push(a)) == planners_among(agents) + 1,
        is_planner(a) <==> a.role == "drafter"@ || a.role == "critic"@,
        planners_among(seq![a]) == 1,
{
    let keep = |a: AgentRow| is_planner(a);
    agents.lemma_filter_push(a, keep);
    if exists|i: int| 0 <= i < agents.len() && is_planner(#[trigger] agents[i]) {
        let i = choose|i: int| 0 <= i < agents.len() && is_planner(#[trigger] agents[i]);
        crate::session_laws::lemma_kept(agents, keep, i);
    }
    Seq::<AgentRow>::empty().lemma_filter_push(a, keep);
    assert(Seq::<AgentRow>::empty().push(a) =~= seq![a]);
    assert(Seq::<AgentRow>::empty().filter(keep).len() == 0) by {
        reveal(Seq::filter);
    }
}

/// A worktree is made where it is wanted, the run is real and the directory is in a
/// repository; it is told whether it is, and whether it was wanted.
pub proof fn law_worktrees_need_a_repository(wanted: bool, demo: bool, git: bool)
    ensures
        fate_of(wanted, demo, git) == WorktreeFate::Enabled <==> wanted && !demo && git,
        fate_of(wanted, demo, git) == WorktreeFate::Disabled <==> !wanted,
        fate_of(wanted, demo, git) == WorktreeFate::IgnoredInDemo <==> wanted && demo,
        tells(worktree_doc(fate_of(wanted, demo, git)), "requested"@, jbool(wanted)),
        wanted ==> tells(
            worktree_doc(fate_of(wanted, demo, git)),
            "available"@,
            jbool(!demo && git),
        ),
{
    let o = worktree_doc(fate_of(wanted, demo, git))->Obj_0;
    assert(o[0] == ("requested"@, jbool(wanted)));
    if wanted {
        assert(o[1] == ("available"@, jbool(!demo && git)));
    }
}

/// What is known of a project and of its changes is measured as it will be sent.
pub proof fn law_contexts_are_measured(ctx: ProjectContext, changes: LocalChangeSummary)
    ensures
        ctx.text@.len() <= usize::MAX ==> summary_of(Some(ctx), None).project_context_chars == Some(
            ctx.text@.len() as usize,
        ),
        summary_of(Some(ctx), None).project_context_cache_hit == Some(ctx.cache_hit),
        summary_of(Some(ctx), None).local_change_handoff_chars is None,
        summary_of(None, Some(changes)).project_context_chars is None,
        summary_of(None, Some(changes)).project_context_cache_hit is None,
        summary_of(None, Some(changes)).local_change_handoff_chars == Some(
            handoff_text(changes).len() as usize,
        ),
{
}

/// An agent is told of with its role, its tool and what it was asked for; one whose
/// tool is known with where that is installed, if anywhere.
pub proof fn law_agents_are_told(a: AgentRow, demo: bool, found: Seq<FoundBin>)
    ensures
        tells(agent_doc(a, demo, found), "role"@, jstr(a.role)),
        tells(agent_doc(a, demo, found), "key"@, jstr(a.key)),
        tells(agent_doc(a, demo, found), "model_override"@, jopt_str(a.model)),
        tells(agent_doc(a, demo, found), "effort_override"@, jopt_str(a.effort)),
        tells(agent_doc(a, demo, found), "demo_mock"@, jbool(demo)),
        row_of(a.key) matches Some(row) ==> tells(
            agent_doc(a, demo, found),
            "installed"@,
            jbool(found_path(found, row.bin) is Some),
        ) && tells(
            agent_doc(a, demo, found),
            "bin_path"@,
            jopt_str(found_path(found, row.bin)),
        ) && tells(agent_doc(a, demo, found), "bin"@, jstr(row.bin)),
        row_of(a.key) is None ==> tells(agent_doc(a, demo, found), "installed"@, jbool(false)),
{
    let o = agent_doc(a, demo, found)->Obj_0;
    assert(o[0] == ("role"@, jstr(a.role)));
    assert(o[1] == ("key"@, jstr(a.key)));
    assert(o[8] == ("model_override"@, jopt_str(a.model)));
    assert(o[10] == ("effort_override"@, jopt_str(a.effort)));
    assert(o[14] == ("demo_mock"@, jbool(demo)));
    match row_of(a.key) {
        Some(row) => {
            assert(o[4] == ("bin"@, jstr(row.bin)));
            assert(o[5] == ("bin_path"@, jopt_str(found_path(found, row.bin))));
            assert(o[6] == ("installed"@, jbool(found_path(found, row.bin) is Some)));
        },
        None => {
            assert(o[6] == ("installed"@, jbool(false)));
        },
    }
}

/// The agents are shown one after the other, each with its role, its tool, its model
/// and its effort, and with where its tool is.
pub proof fn law_agents_are_shown(agents: Seq<AgentRow>, demo: bool, found: Seq<FoundBin>, i: int)
    requires
        0 <= i < agents.len(),
    ensures
        ({
            let t = agents_text_of(agents, demo, found);
            let a = agents[i];
            &&& says(t, agent_text(a, demo, found))
            &&& says(agent_text(a, demo, found), a.role)
            &&& says(agent_text(a, demo, found), a.key)
            &&& a.model matches Some(m) ==> says(agent_text(a, demo, found), m)
            &&& a.effort matches Some(m) ==> says(agent_text(a, demo, found), m)
            &&& row_of(a.key) matches Some(row) ==> (found_path(found, row.bin) matches Some(p) ==> says(
                agent_text(a, demo, found),
                p,
            ))
            &&& row_of(a.key) matches Some(row) ==> (found_path(found, row.bin) is None ==> says(
                agent_text(a, demo, found),
                "missing"@,
            ))
        }),
{
    broadcast use group_says;

    let lines = Seq::new(agents.len(), |k: int| agent_text(agents[k], demo, found));
    law_concatenation_keeps_every_part(lines, Seq::empty());
    lemma_says_all_each(flat(lines), lines, i);
    lemma_says_through(agents_text_of(agents, demo, found), flat(lines), lines[i]);
}

// ---- The forecast ----------------------------------------------------------------

/// At worst every vote is asked for twice, and nothing else is.
pub proof fn law_votes_are_repaired_once(input: ForecastInput, r: PromptForecast)
    requires
        input.foretells(r),
    ensures
        r.total() == r.planning_prompts + r.recommendation_prompts + r.execution_prompts,
        r.worst() == r.planning_prompts + 2 * r.recommendation_prompts + r.execution_prompts,
        input.include_execution ==> r.recommendation_prompts == r.planner_count
            && r.execution_prompts == 1,
        !input.include_execution ==> r.recommendation_prompts == 0 && r.execution_prompts == 0,
        input.sequential ==> r.planning_prompts == input.turns,
{
}

// ---- Advice ----------------------------------------------------------------------

/// Whether advice of a kind is given at a level.
pub open spec fn given(items: Seq<AdviceView>, key: Seq<char>, level: AdviceLevel) -> bool {
    exists|k: int|
        0 <= k < items.len() && (#[trigger] items[k]).key == key && items[k].level == level
}

/// One for a thing that holds.
pub open spec fn one_if(b: bool) -> nat {
    if b {
        1
    } else {
        0
    }
}

proof fn lemma_parts(
    a: Seq<AdviceView>,
    b: Seq<AdviceView>,
    c: Seq<AdviceView>,
    d: Seq<AdviceView>,
    key: Seq<char>,
    level: AdviceLevel,
)
    ensures
        given(a, key, level) || given(b, key, level) || given(c, key, level) || given(d, key, level)
            <==> given(a + b + c + d, key, level),
{
    let s = a + b + c + d;
    if given(a, key, level) {
        let k = choose|k: int|
            0 <= k < a.len() && (#[trigger] a[k]).key == key && a[k].level == level;
        assert(s[k] == a[k]);
    }
    if given(b, key, level) {
        let k = choose|k: int|
            0 <= k < b.len() && (#[trigger] b[k]).key == key && b[k].level == level;
        assert(s[a.len() + k] == b[k]);
    }
    if given(c, key, level) {
        let k = choose|k: int|
            0 <= k < c.len() && (#[trigger] c[k]).key == key && c[k].level == level;
        assert(s[a.len() + b.len() + k] == c[k]);
    }
    if given(d, key, level) {
        let k = choose|k: int|
            0 <= k < d.len() && (#[trigger] d[k]).key == key && d[k].level == level;
        assert(s[a.len() + b.len() + c.len() + k] == d[k]);
    }
    if given(s, key, level) {
        let k = choose|k: int|
            0 <= k < s.len() && (#[trigger] s[k]).key == key && s[k].level == level;
        if k < a.len() {
            assert(a[k] == s[k]);
        } else if k < a.len() + b.len() {
            assert(b[k - a.len()] == s[k]);
        } else if k < a.len() + b.len() + c.len() {
            assert(c[k - a.len() - b.len()] == s[k]);
        } else {
            assert(d[k - a.len() - b.len() - c.len()] == s[k]);
        }
    }
}

/// Planning in turn is warned of, and planning at once by several is said to be
/// good. Whoever goes without a project context, or without a limit on it, is
/// warned; one that was kept, or that is cut to its limit, is said to be good.
pub proof fn law_planning_is_advised(input: RunAdviceInput)
    ensures
        ({
            let a = run_advice(input);
            let c = (*input.context).project_context_chars;
            let hit = (*input.context).project_context_cache_hit;
            let cap = input.effective_context_budget_chars;
            &&& input.sequential ==> given(a, "planning_shape"@, AdviceLevel::Warn)
            &&& !input.sequential && (*input.forecast).planner_count > 1 ==> given(
                a,
                "planning_shape"@,
                AdviceLevel::Good,
            )
            &&& c is None ==> given(a, "project_context_cache"@, AdviceLevel::Warn)
            &&& c is Some && hit == Some(true) ==> given(
                a,
                "project_context_cache"@,
                AdviceLevel::Good,
            )
            &&& c is Some && hit == Some(false) ==> given(
                a,
                "project_context_cache"@,
                AdviceLevel::Info,
            )
            &&& c is Some && cap is None ==> given(a, "context_cap"@, AdviceLevel::Warn)
            &&& c is Some && cap is Some && c->0 > cap->0 ==> given(
                a,
                "context_cap"@,
                AdviceLevel::Good,
            )
            &&& c is Some && cap is Some && 2 * c->0 < cap->0 ==> given(
                a,
                "context_cap"@,
                AdviceLevel::Info,
            )
        }),
{
    let a = crate::prompt_forecast::shape_advice(input);
    let b = crate::prompt_forecast::cache_advice(input);
    let c = crate::prompt_forecast::cap_advice(input);
    let d = crate::prompt_forecast::execution_advice(input);
    lemma_parts(a, b, c, d, "planning_shape"@, AdviceLevel::Warn);
    lemma_parts(a, b, c, d, "planning_shape"@, AdviceLevel::Good);
    lemma_parts(a, b, c, d, "project_context_cache"@, AdviceLevel::Warn);
    lemma_parts(a, b, c, d, "project_context_cache"@, AdviceLevel::Good);
    lemma_parts(a, b, c, d, "project_context_cache"@, AdviceLevel::Info);
    lemma_parts(a, b, c, d, "context_cap"@, AdviceLevel::Warn);
    lemma_parts(a, b, c, d, "context_cap"@, AdviceLevel::Good);
    lemma_parts(a, b, c, d, "context_cap"@, AdviceLevel::Info);
    if a.len() > 0 {
        assert(a[0].key == "planning_shape"@);
    }
    if b.len() > 0 {
        assert(b[0].key == "project_context_cache"@);
    }
    if c.len() > 0 {
        assert(c[0].key == "context_cap"@);
    }
}

/// Of an execution it is said who executes; that votes may have to be repaired,
/// where there are any; and that there are local changes, with a warning where they
/// are large. Without an execution none of this is said.
pub proof fn law_execution_is_advised(input: RunAdviceInput)
    ensures
        ({
            let a = run_advice(input);
            let n = (*input.context).local_change_handoff_chars;
            &&& input.include_execution && input.separate_executor ==> given(
                a,
                "tiered_execution"@,
                AdviceLevel::Good,
            )
            &&& input.include_execution && !input.separate_executor ==> given(
                a,
                "tiered_execution"@,
                AdviceLevel::Info,
            )
            &&& input.include_execution && (*input.forecast).max_vote_repair_prompts > 0 ==> given(
                a,
                "vote_repair"@,
                AdviceLevel::Warn,
            )
            &&& input.include_execution && n is Some && n->0 > 8_000 ==> given(
                a,
                "local_change_handoff"@,
                AdviceLevel::Warn,
            )
            &&& input.include_execution && n is Some && 0 < n->0 <= 8_000 ==> given(
                a,
                "local_change_handoff"@,
                AdviceLevel::Info,
            )
        }),
{
    let a = crate::prompt_forecast::shape_advice(input);
    let b = crate::prompt_forecast::cache_advice(input);
    let c = crate::prompt_forecast::cap_advice(input);
    let d = crate::prompt_forecast::execution_advice(input);
    lemma_parts(a, b, c, d, "tiered_execution"@, AdviceLevel::Good);
    lemma_parts(a, b, c, d, "tiered_execution"@, AdviceLevel::Info);
    lemma_parts(a, b, c, d, "vote_repair"@, AdviceLevel::Warn);
    lemma_parts(a, b, c, d, "local_change_handoff"@, AdviceLevel::Warn);
    lemma_parts(a, b, c, d, "local_change_handoff"@, AdviceLevel::Info);
    if input.include_execution {
        let e = crate::prompt_forecast::repair_advice(*input.forecast);
        let f = crate::prompt_forecast::changes_advice((*input.context).local_change_handoff_chars);
        assert(d[0].key == "tiered_execution"@);
        if e.len() > 0 {
            assert(d[1] == e[0]);
        }
        if f.len() > 0 {
            assert(d[1 + e.len() as int] == f[0]);
        }
    }
}

/// No other advice is given, and none twice.
pub proof fn law_advice_is_given_once(input: RunAdviceInput)
    ensures
        ({
            let c = (*input.context).project_context_chars;
            let n = (*input.context).local_change_handoff_chars;
            let cap = input.effective_context_budget_chars;
            run_advice(input).len() == one_if(
                input.sequential || (*input.forecast).planner_count > 1,
            ) + one_if(c is None || (*input.context).project_context_cache_hit is Some) + one_if(
                c is Some && (cap is None || c->0 > cap->0 || 2 * c->0 < cap->0),
            ) + one_if(input.include_execution) + one_if(
                input.include_execution && (*input.forecast).max_vote_repair_prompts > 0,
            ) + one_if(input.include_execution && n is Some && n->0 > 0)
        }),
{
}

/// Advice is told as it is given.
pub proof fn law_advice_is_told(item: AdviceView)
    ensures
        tells(advice_item_doc(item), "key"@, jstr(item.key)),
        tells(advice_item_doc(item), "level"@, jstr(level_name(item.level))),
        tells(advice_item_doc(item), "title"@, jstr(item.title)),
        tells(advice_item_doc(item), "detail"@, jstr(item.detail)),
{
    let o = advice_item_doc(item)->Obj_0;
    assert(o[0] == ("key"@, jstr(item.key)));
    assert(o[1] == ("level"@, jstr(level_name(item.level))));
    assert(o[2] == ("title"@, jstr(item.title)));
    assert(o[3] == ("detail"@, jstr(item.detail)));
}

// ---- What is shown of the forecast -----------------------------------------------------

/// The forecast that is shown holds the calls that are planned, at best and at worst,
/// what each part of the run takes of them, and the payload that is known.
pub proof fn law_forecasts_are_shown(f: PromptForecast, turns: usize)
    ensures
        says(calls_text(f), dec(f.total()) + " base, "@),
        says(calls_text(f), dec(f.worst()) + " worst-case (planning="@),
        says(calls_text(f), dec(f.planning_prompts as nat) + ", recommendation="@),
        says(calls_text(f), dec(f.recommendation_prompts as nat) + ", execution="@),
        says(calls_text(f), dec(f.execution_prompts as nat)),
        f.max_vote_repair_prompts > 0 ==> says(
            repair_text(f),
            dec(f.max_vote_repair_prompts as nat),
        ),
        f.max_vote_repair_prompts == 0 ==> repair_text(f).len() == 0,
        says(waits_text(f, turns, true), dec(turns as nat)),
        says(waits_text(f, turns, false), dec(f.planner_count as nat)),
        says(
            waits_text(f, turns, false),
            dec(rounds_of(turns as nat, f.planner_count as nat)),
        ),
        says(known_text(f), dec(f.known_payload_chars as nat)),
        says(known_text(f), dec(tokens_of(f.known_payload_chars as nat))),
        handoff_payload_text(f, false).len() == 0,
        f.local_change_payload_chars > 0 ==> says(
            handoff_payload_text(f, true),
            dec(f.local_change_payload_chars as nat),
        ),
{
    broadcast use group_says;

    let a = "\nPrompt forecast\nplanned calls: "@;
    let b = a + dec(f.total()) + " base, "@;
    let c = b + dec(f.worst()) + " worst-case (planning="@;
    let d = c + dec(f.planning_prompts as nat) + ", recommendation="@;
    let e = d + dec(f.recommendation_prompts as nat) + ", execution="@;
    lemma_pair_is_said(a, dec(f.total()), " base, "@);
    lemma_pair_is_said(b, dec(f.worst()), " worst-case (planning="@);
    lemma_pair_is_said(c, dec(f.planning_prompts as nat), ", recommendation="@);
    lemma_pair_is_said(d, dec(f.recommendation_prompts as nat), ", execution="@);
}

/// Advice is shown with its level, its title and what it says; the changes that are
/// shown are the first eight, and that there are more is marked.
pub proof fn law_advice_and_changes_are_shown(
    items: Seq<AdviceView>,
    c: LocalChangeSummary,
    i: int,
)
    ensures
        0 <= i < items.len() ==> says(run_advice_text(items), run_advice_line(items[i])) && says(
            run_advice_line(items[i]),
            level_name(items[i].level),
        ) && says(run_advice_line(items[i]), items[i].title) && says(
            run_advice_line(items[i]),
            items[i].detail,
        ),
        items.len() == 0 ==> run_advice_text(items).len() == 0,
        0 <= i < c.changes@.len() && i < 8 ==> says(
            change_lines(c),
            "- "@ + c.changes@[i]@ + "\n"@,
        ),
        c.changes@.len() > 8 || (c.truncated && c.changes@.len() > 0) ==> says(
            change_lines(c),
            "- ...\n"@,
        ),
{
    broadcast use group_says;

    let lines = Seq::new(items.len(), |k: int| run_advice_line(items[k]));
    law_concatenation_keeps_every_part(lines, Seq::empty());
    if 0 <= i < items.len() {
        lemma_says_all_each(flat(lines), lines, i);
        lemma_says_through(run_advice_text(items), flat(lines), lines[i]);
    }
    let n = if c.changes@.len() < 8 {
        c.changes@.len()
    } else {
        8
    };
    let shown = Seq::new(n, |k: int| "- "@ + c.changes@[k]@ + "\n"@);
    law_concatenation_keeps_every_part(shown, Seq::empty());
    if 0 <= i < c.changes@.len() && i < 8 {
        lemma_says_all_each(flat(shown), shown, i);
        lemma_says_through(change_lines(c), flat(shown), shown[i]);
    }
}

} // verus!
