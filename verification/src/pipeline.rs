//! Runs from the command line: what is asked for is checked, the agents are
//! seated, and what happens is told.
use std::collections::HashMap;
use vstd::prelude::*;
use crate::agent::{AgentEvent, FoundBin, Happening, SpawnCtx};
use crate::arith::{ceil_div, quotient_up};
use crate::artifacts::{delivery_word, label_texts};
use crate::conductor::{AgentId, Role};
use crate::error::{reports, TalesError};
use crate::event::{Notice, OrchestratorEvent};
use crate::labels::{format_scores, preview_chars, previewed, scores_line};
use crate::numeral::{dec, decimal, decimal_size, hex, hexadecimal};
use crate::path::{join, joined};
use crate::preflight::{agent_rows, demo_word, AgentRow, PreflightAgent};
use crate::project_context::ProjectContext;
use crate::report::ProjectContextReport;
use crate::roster::{effort_problem, readiness_problem, validate_effort, validate_tool_readiness};
use crate::telemetry::{format_token_usage, usage_text};
use crate::text::{
    char_count, chars_of, copy_opt, lemma_texts_push, lower_text, opt_str, same, same_ci,
    same_ignoring_case, text_between, texts, to_lower,
};

verus! {

broadcast use vstd::std_specs::hash::group_hash_axioms;

/// The path of a report seen from the working directory.
pub fn resolve_report_path(cwd: &str, path: &Option<String>) -> (r: Option<String>)
    ensures
        crate::text::opt_text(r) == (match *path {
            Some(p) => Some(joined(cwd@, p@)),
            None => None,
        }),
{
    match path {
        Some(p) => Some(join(cwd, p.as_str())),
        None => None,
    }
}

// ---- What is asked for -----------------------------------------------------

/// A run as it was asked for.
#[derive(Debug)]
pub struct RunOptions {
    pub prompt: String,
    pub drafter: String,
    pub critic: String,
    /// Who executes; nothing for a discussion.
    pub execute: Option<String>,
    pub drafter_model: Option<String>,
    pub critic_model: Option<String>,
    pub execute_model: Option<String>,
    pub drafter_effort: Option<String>,
    pub critic_effort: Option<String>,
    pub execute_effort: Option<String>,
    pub sandbox: String,
    pub demo: bool,
    pub dry_run: bool,
    pub json_output: bool,
}

/// Who of the seats executes.
#[derive(Clone, Copy, Debug, PartialEq, Eq, Structural)]
pub enum ExecutorSeat {
    /// No one: it is a discussion.
    Nobody,
    Drafter,
    Critic,
    /// A tool of its own, which sits out the discussion.
    Separate,
}

/// Who of the seats executes: the first that has the executor's name, whatever
/// the case of its letters.
pub open spec fn seat_of(o: RunOptions) -> ExecutorSeat {
    match o.execute {
        None => ExecutorSeat::Nobody,
        Some(e) => if lower_text(o.drafter@) == lower_text(e@) {
            ExecutorSeat::Drafter
        } else if lower_text(o.critic@) == lower_text(e@) {
            ExecutorSeat::Critic
        } else {
            ExecutorSeat::Separate
        },
    }
}

/// What is wrong with the choice of a model or an effort for the executor: a
/// participant brings its own.
pub open spec fn executor_choice_problem(o: RunOptions) -> Option<Seq<char>> {
    match o.execute {
        None => None,
        Some(e) => if seat_of(o) == ExecutorSeat::Separate {
            None
        } else if o.execute_model is Some {
            Some("--execute-model is only valid when --execute ('"@ + e@
                + "') is a different tool from --drafter/--critic (same-tool tiering isn't supported yet)"@)
        } else if o.execute_effort is Some {
            Some("--execute-effort is only valid when --execute ('"@ + e@
                + "') is a different tool from --drafter/--critic"@)
        } else {
            None
        },
    }
}

/// The tools that a run needs.
pub open spec fn needed_tools(o: RunOptions) -> Seq<Seq<char>> {
    seq![o.drafter@, o.critic@] + (match o.execute {
        Some(e) => if seat_of(o) == ExecutorSeat::Separate {
            seq![e@]
        } else {
            Seq::empty()
        },
        None => Seq::empty(),
    })
}

/// What is wrong with the tools or the efforts of a run.
pub open spec fn tools_problem(o: RunOptions, found: Seq<FoundBin>) -> Option<Seq<char>> {
    match readiness_problem(needed_tools(o), found) {
        Some(p) => Some(p),
        None => match effort_problem(o.drafter@, crate::text::opt_text(o.drafter_effort)) {
            Some(p) => Some(p),
            None => match effort_problem(o.critic@, crate::text::opt_text(o.critic_effort)) {
                Some(p) => Some(p),
                None => match o.execute {
                    Some(e) => if seat_of(o) == ExecutorSeat::Separate {
                        effort_problem(e@, crate::text::opt_text(o.execute_effort))
                    } else {
                        None
                    },
                    None => None,
                },
            },
        },
    }
}

/// What is wrong with a run as it was asked for. Mock agents need no tools.
pub open spec fn run_problem(o: RunOptions, found: Seq<FoundBin>) -> Option<Seq<char>> {
    if o.json_output && !o.dry_run {
        Some("--json requires --dry-run"@)
    } else {
        match executor_choice_problem(o) {
            Some(p) => Some(p),
            None => if o.demo {
                None
            } else {
                tools_problem(o, found)
            },
        }
    }
}

/// Who of the seats executes.
pub fn executor_seat(o: &RunOptions) -> (r: ExecutorSeat)
    ensures
        r == seat_of(*o),
{
    match &o.execute {
        None => ExecutorSeat::Nobody,
        Some(e) => {
            let wanted = to_lower(e.as_str());
            if same(to_lower(o.drafter.as_str()).as_str(), wanted.as_str()) {
                ExecutorSeat::Drafter
            } else if same(to_lower(o.critic.as_str()).as_str(), wanted.as_str()) {
                ExecutorSeat::Critic
            } else {
                ExecutorSeat::Separate
            }
        },
    }
}

fn opt_ref<'a>(o: &'a Option<String>) -> (r: Option<&'a str>)
    ensures
        opt_str(r) == crate::text::opt_text(*o),
{
    match o {
        Some(s) => Some(s.as_str()),
        None => None,
    }
}

fn tools_of(o: &RunOptions) -> (r: Vec<String>)
    ensures
        texts(r@) == needed_tools(*o),
{
    let mut keys: Vec<String> = vec![o.drafter.clone(), o.critic.clone()];
    if let Some(e) = &o.execute {
        if executor_seat(o) == ExecutorSeat::Separate {
            keys.push(e.clone());
        }
    }
    proof {
        assert(texts(keys@) =~= needed_tools(*o));
    }
    keys
}

/// Whether the efforts that were chosen are ones that the tools know.
pub fn validate_pipeline_efforts(o: &RunOptions) -> (r: Result<(), TalesError>)
    ensures
        reports(
            r,
            match effort_problem(o.drafter@, crate::text::opt_text(o.drafter_effort)) {
                Some(p) => Some(p),
                None => match effort_problem(o.critic@, crate::text::opt_text(o.critic_effort)) {
                    Some(p) => Some(p),
                    None => match o.execute {
                        Some(e) => if seat_of(*o) == ExecutorSeat::Separate {
                            effort_problem(e@, crate::text::opt_text(o.execute_effort))
                        } else {
                            None
                        },
                        None => None,
                    },
                },
            },
        ),
{
    if let Err(e) = validate_effort(o.drafter.as_str(), opt_ref(&o.drafter_effort)) {
        return Err(e);
    }
    if let Err(e) = validate_effort(o.critic.as_str(), opt_ref(&o.critic_effort)) {
        return Err(e);
    }
    if let Some(e) = &o.execute {
        if executor_seat(o) == ExecutorSeat::Separate {
            return validate_effort(e.as_str(), opt_ref(&o.execute_effort));
        }
    }
    Ok(())
}

/// Checks a run as it was asked for.
pub fn validate_run(o: &RunOptions, found: &Vec<FoundBin>) -> (r: Result<(), TalesError>)
    ensures
        reports(r, run_problem(*o, found@)),
{
    if o.json_output && !o.dry_run {
        return Err(TalesError::Other("--json requires --dry-run".to_owned()));
    }
    if let Some(e) = &o.execute {
        if executor_seat(o) != ExecutorSeat::Separate {
            if o.execute_model.is_some() {
                let mut m = "--execute-model is only valid when --execute ('".to_owned();
                m.append(e.as_str());
                m.append("') is a different tool from --drafter/--critic (same-tool tiering isn't supported yet)");
                return Err(TalesError::Other(m));
            }
            if o.execute_effort.is_some() {
                let mut m = "--execute-effort is only valid when --execute ('".to_owned();
                m.append(e.as_str());
                m.append("') is a different tool from --drafter/--critic");
                return Err(TalesError::Other(m));
            }
        }
    }
    if o.demo {
        return Ok(());
    }
    if let Err(e) = validate_tool_readiness(&tools_of(o), found) {
        return Err(e);
    }
    validate_pipeline_efforts(o)
}

// ---- The seats -------------------------------------------------------------

/// The agents of a run: the planners, and who executes with the model and the
/// effort that it has.
pub open spec fn agents_of(o: RunOptions) -> Seq<AgentRow> {
    let drafter = AgentRow {
        role: "drafter"@,
        key: o.drafter@,
        model: crate::text::opt_text(o.drafter_model),
        effort: crate::text::opt_text(o.drafter_effort),
    };
    let critic = AgentRow {
        role: "critic"@,
        key: o.critic@,
        model: crate::text::opt_text(o.critic_model),
        effort: crate::text::opt_text(o.critic_effort),
    };
    seq![drafter, critic] + (match o.execute {
        None => Seq::empty(),
        Some(e) => match seat_of(o) {
            ExecutorSeat::Drafter => seq![AgentRow { role: "executor"@, key: e@, ..drafter }],
            ExecutorSeat::Critic => seq![AgentRow { role: "executor"@, key: e@, ..critic }],
            _ => seq![
                AgentRow {
                    role: "executor"@,
                    key: e@,
                    model: crate::text::opt_text(o.execute_model),
                    effort: crate::text::opt_text(o.execute_effort),
                },
            ],
        },
    })
}

/// The agents of a run.
pub fn preflight_agents(o: &RunOptions) -> (r: Vec<PreflightAgent>)
    ensures
        agent_rows(r@) == agents_of(*o),
{
    let mut out: Vec<PreflightAgent> = Vec::new();
    out.push(
        PreflightAgent {
            role: "drafter",
            key: o.drafter.clone(),
            model: copy_opt(&o.drafter_model),
            effort: copy_opt(&o.drafter_effort),
        },
    );
    out.push(
        PreflightAgent {
            role: "critic",
            key: o.critic.clone(),
            model: copy_opt(&o.critic_model),
            effort: copy_opt(&o.critic_effort),
        },
    );
    if let Some(e) = &o.execute {
        let (model, effort) = match executor_seat(o) {
            ExecutorSeat::Drafter => (copy_opt(&o.drafter_model), copy_opt(&o.drafter_effort)),
            ExecutorSeat::Critic => (copy_opt(&o.critic_model), copy_opt(&o.critic_effort)),
            _ => (copy_opt(&o.execute_model), copy_opt(&o.execute_effort)),
        };
        out.push(PreflightAgent { role: "executor", key: e.clone(), model, effort });
    }
    proof {
        assert(agent_rows(out@) =~= agents_of(*o));
    }
    out
}

/// A run that passed its check has exactly one agent that executes, and only a
/// tool of its own brings a model or an effort of its own.
pub proof fn law_checked_runs_have_one_executor(o: RunOptions, found: Seq<FoundBin>)
    requires
        run_problem(o, found) is None,
        o.execute is Some,
    ensures
        agents_of(o).len() == 3,
        agents_of(o)[2].role == "executor"@,
        agents_of(o)[2].key == o.execute->0@,
        agents_of(o)[0].role != "executor"@,
        agents_of(o)[1].role != "executor"@,
        seat_of(o) != ExecutorSeat::Separate ==> o.execute_model is None && o.execute_effort is None,
{
    reveal_strlit("drafter");
    reveal_strlit("critic");
    reveal_strlit("executor");
    assert("drafter"@.len() == 7 && "critic"@.len() == 6 && "executor"@.len() == 8);
}

/// The directory in which a seat works: the executor in its own where it has
/// one, everyone else in the common one.
pub open spec fn seat_dir_of(
    o: RunOptions,
    seat: ExecutorSeat,
    cwd: Seq<char>,
    exec_cwd: Seq<char>,
) -> Seq<char> {
    if seat == seat_of(o) {
        exec_cwd
    } else {
        cwd
    }
}

/// The tools to which an agent is limited: an Anthropic agent that executes works on
/// files only.
pub open spec fn limited_tools(o: RunOptions, label: Seq<char>) -> Option<Seq<Seq<char>>> {
    match o.execute {
        Some(e) => if lower_text(label) == lower_text(e@) && lower_text(label) == "anthropic"@ {
            Some(seq!["Write"@, "Edit"@, "MultiEdit"@, "Read"@])
        } else {
            None
        },
        None => None,
    }
}

pub open spec fn opt_texts(v: Option<Vec<String>>) -> Option<Seq<Seq<char>>> {
    match v {
        Some(v) => Some(texts(v@)),
        None => None,
    }
}

fn file_tools() -> (r: Vec<String>)
    ensures
        texts(r@) == seq!["Write"@, "Edit"@, "MultiEdit"@, "Read"@],
{
    let r = vec![
        "Write".to_owned(),
        "Edit".to_owned(),
        "MultiEdit".to_owned(),
        "Read".to_owned(),
    ];
    proof {
        assert(texts(r@) =~= seq!["Write"@, "Edit"@, "MultiEdit"@, "Read"@]);
    }
    r
}

/// The tools to which an agent is limited.
pub fn tools_for(o: &RunOptions, label: &str) -> (r: Option<Vec<String>>)
    ensures
        opt_texts(r) == limited_tools(*o, label@),
{
    match &o.execute {
        Some(e) => {
            let lower = to_lower(label);
            if same(lower.as_str(), to_lower(e.as_str()).as_str()) && same(
                lower.as_str(),
                "anthropic",
            ) {
                Some(file_tools())
            } else {
                None
            }
        },
        None => None,
    }
}

/// The tool that has a seat, with its model and its effort.
pub open spec fn seat_row(o: RunOptions, seat: ExecutorSeat) -> AgentRow {
    AgentRow {
        role: match seat {
            ExecutorSeat::Drafter => "drafter"@,
            ExecutorSeat::Critic => "critic"@,
            _ => "executor"@,
        },
        key: match seat {
            ExecutorSeat::Drafter => o.drafter@,
            ExecutorSeat::Critic => o.critic@,
            _ => o.execute->0@,
        },
        model: crate::text::opt_text(
            match seat {
                ExecutorSeat::Drafter => o.drafter_model,
                ExecutorSeat::Critic => o.critic_model,
                _ => o.execute_model,
            },
        ),
        effort: crate::text::opt_text(
            match seat {
                ExecutorSeat::Drafter => o.drafter_effort,
                ExecutorSeat::Critic => o.critic_effort,
                _ => o.execute_effort,
            },
        ),
    }
}

/// Whether an agent is started as its seat asks for.
pub open spec fn is_seated(
    ctx: SpawnCtx,
    o: RunOptions,
    seat: ExecutorSeat,
    agent: AgentId,
    cwd: Seq<char>,
    exec_cwd: Seq<char>,
) -> bool {
    let row = seat_row(o, seat);
    &&& ctx.agent == agent
    &&& ctx.label@ == row.key
    &&& ctx.cwd@ == seat_dir_of(o, seat, cwd, exec_cwd)
    &&& crate::text::opt_text(ctx.model) == row.model
    &&& crate::text::opt_text(ctx.effort) == row.effort
    &&& ctx.permission_mode@ == "acceptEdits"@
    &&& ctx.sandbox@ == o.sandbox@
    &&& opt_texts(ctx.allowed_tools) == limited_tools(o, row.key)
}

/// What the agent of a seat is started with. A seat that no one takes gives
/// nothing.
pub fn seat_ctx(
    o: &RunOptions,
    seat: ExecutorSeat,
    agent: AgentId,
    cwd: &str,
    exec_cwd: &str,
) -> (r: Option<SpawnCtx>)
    ensures
        r matches Some(ctx) ==> is_seated(ctx, *o, seat, agent, cwd@, exec_cwd@),
        r is None <==> (seat == ExecutorSeat::Nobody || (seat == ExecutorSeat::Separate && seat_of(
            *o,
        ) != ExecutorSeat::Separate)),
        match r {
            Some(ctx) => {
                let label = match seat {
                    ExecutorSeat::Drafter => o.drafter@,
                    ExecutorSeat::Critic => o.critic@,
                    _ => o.execute->0@,
                };
                &&& ctx.agent == agent
                &&& ctx.label@ == label
                &&& ctx.cwd@ == seat_dir_of(*o, seat, cwd@, exec_cwd@)
                &&& crate::text::opt_text(ctx.model) == crate::text::opt_text(
                    match seat {
                        ExecutorSeat::Drafter => o.drafter_model,
                        ExecutorSeat::Critic => o.critic_model,
                        _ => o.execute_model,
                    },
                )
                &&& crate::text::opt_text(ctx.effort) == crate::text::opt_text(
                    match seat {
                        ExecutorSeat::Drafter => o.drafter_effort,
                        ExecutorSeat::Critic => o.critic_effort,
                        _ => o.execute_effort,
                    },
                )
                &&& ctx.permission_mode@ == "acceptEdits"@
                &&& ctx.sandbox@ == o.sandbox@
                &&& opt_texts(ctx.allowed_tools) == limited_tools(*o, label)
            },
            None => true,
        },
{
    let executes = executor_seat(o);
    let dir: &str = if seat == executes {
        exec_cwd
    } else {
        cwd
    };
    let (label, model, effort): (&String, Option<String>, Option<String>) = match seat {
        ExecutorSeat::Nobody => {
            return None;
        },
        ExecutorSeat::Drafter => (
            &o.drafter,
            copy_opt(&o.drafter_model),
            copy_opt(&o.drafter_effort),
        ),
        ExecutorSeat::Critic => (
            &o.critic,
            copy_opt(&o.critic_model),
            copy_opt(&o.critic_effort),
        ),
        ExecutorSeat::Separate => match &o.execute {
            Some(e) => {
                if executes != ExecutorSeat::Separate {
                    return None;
                }
                (e, copy_opt(&o.execute_model), copy_opt(&o.execute_effort))
            },
            None => {
                return None;
            },
        },
    };
    Some(
        SpawnCtx {
            agent,
            label: label.clone(),
            cwd: dir.to_owned(),
            model,
            effort,
            permission_mode: "acceptEdits".to_owned(),
            sandbox: o.sandbox.clone(),
            allowed_tools: tools_for(o, label.as_str()),
        },
    )
}

/// At most one of the seats works in the executor's own directory.
pub proof fn law_one_seat_has_the_worktree(
    o: RunOptions,
    a: ExecutorSeat,
    b: ExecutorSeat,
    cwd: Seq<char>,
    exec_cwd: Seq<char>,
)
    requires
        cwd != exec_cwd,
        seat_dir_of(o, a, cwd, exec_cwd) == exec_cwd,
        seat_dir_of(o, b, cwd, exec_cwd) == exec_cwd,
    ensures
        a == b,
{
}

/// The name of the worktree of a run.
pub fn worktree_run_id(executor: AgentId) -> (r: String)
    ensures
        r@ == "run-"@ + hex(executor as nat, 32).take(8),
{
    let digits = chars_of(hexadecimal(executor, 32).as_str());
    proof {
        lemma_hex_len(executor as nat, 32);
        assert(digits@.subrange(0, 8) =~= hex(executor as nat, 32).take(8));
    }
    let mut out = "run-".to_owned();
    out.append(text_between(&digits, 0, 8).as_str());
    out
}

proof fn lemma_hex_len(n: nat, width: nat)
    ensures
        hex(n, width).len() == width,
    decreases width,
{
    if width > 0 {
        lemma_hex_len(n / 16, (width - 1) as nat);
    }
}

// ---- The engine ------------------------------------------------------------

/// How long a turn may take, in seconds: at least one.
pub fn turn_timeout(secs: u64) -> (r: u64)
    ensures
        r == (if secs == 0 {
            1
        } else {
            secs
        }),
{
    if secs == 0 {
        1
    } else {
        secs
    }
}

/// The report on the project context of a run.
pub fn context_report(ctx: &ProjectContext, max_files: usize, max_manifest_chars: usize) -> (r:
    ProjectContextReport)
    ensures
        r.cache_hit == ctx.cache_hit,
        r.cache_path@ == ctx.cache_path@,
        r.chars == ctx.text@.len(),
        r.max_files == max_files,
        r.max_manifest_chars == max_manifest_chars,
{
    ProjectContextReport {
        cache_hit: ctx.cache_hit,
        cache_path: ctx.cache_path.clone(),
        chars: char_count(ctx.text.as_str()),
        max_files,
        max_manifest_chars,
    }
}

/// What is said of the project context of a run.
pub fn context_line(ctx: &ProjectContext, max_files: usize, max_manifest_chars: usize) -> (r:
    String)
    ensures
        r@ == "● project context "@ + cache_word(ctx.cache_hit) + " ("@ + ctx.cache_path@
            + ", max_files="@ + dec(max_files as nat) + ", max_manifest_chars="@
            + dec(max_manifest_chars as nat) + ")\n"@,
{
    let hit: &str = if ctx.cache_hit {
        "cache hit"
    } else {
        "cached"
    };
    let mut out = "● project context ".to_owned();
    out.append(hit);
    out.append(" (");
    out.append(ctx.cache_path.as_str());
    out.append(", max_files=");
    out.append(decimal_size(max_files).as_str());
    out.append(", max_manifest_chars=");
    out.append(decimal_size(max_manifest_chars).as_str());
    out.append(")\n");
    out
}

pub open spec fn cache_word(hit: bool) -> Seq<char> {
    if hit {
        "cache hit"@
    } else {
        "cached"@
    }
}

// ---- Mock agents -----------------------------------------------------------

/// How often each mock planner speaks.
pub open spec fn demo_turns(max_turns: nat, sequential: bool, planners: nat) -> nat {
    let p = if planners == 0 {
        1
    } else {
        planners
    };
    if sequential {
        if ceil_div(max_turns, p) == 0 {
            1
        } else {
            ceil_div(max_turns, p)
        }
    } else if max_turns / p < 2 {
        2
    } else if max_turns / p > 6 {
        6
    } else {
        max_turns / p
    }
}

/// How often each mock planner speaks.
pub fn demo_planning_turns(max_turns: usize, sequential: bool, planners: usize) -> (r: usize)
    ensures
        r == demo_turns(max_turns as nat, sequential, planners as nat),
{
    let p: usize = if planners == 0 {
        1
    } else {
        planners
    };
    if sequential {
        let n = quotient_up(max_turns, p);
        if n == 0 {
            1
        } else {
            n
        }
    } else {
        let n: usize = max_turns / p;
        if n < 2 {
            2
        } else if n > 6 {
            6
        } else {
            n
        }
    }
}

/// What a mock planner says in a turn.
pub open spec fn demo_reply(label: Seq<char>, role: Role, n: nat) -> Seq<char> {
    match role {
        Role::Drafter => "Demo draft "@ + dec(n) + " from "@ + label
            + ":\n- inspect the existing structure\n- make the smallest coherent change\n- verify with focused tests"@,
        Role::Critic => "Demo critique "@ + dec(n) + " from "@ + label
            + ":\n- check edge cases before execution\n- keep token context compact\n- require a clear verification step"@,
        _ => "Demo planning response "@ + dec(n) + " from "@ + label + "."@,
    }
}

/// What a mock planner says.
pub open spec fn demo_replies(label: Seq<char>, role: Role, count: nat) -> Seq<Seq<char>> {
    Seq::new(count, |i: int| demo_reply(label, role, (i + 1) as nat))
}

fn write_demo_reply(label: &str, role: Role, idx: usize) -> (r: String)
    requires
        idx < usize::MAX,
    ensures
        r@ == demo_reply(label@, role, (idx + 1) as nat),
{
    let number = decimal_size(idx + 1);
    match role {
        Role::Drafter => {
            let mut out = "Demo draft ".to_owned();
            out.append(number.as_str());
            out.append(" from ");
            out.append(label);
            out.append(":\n- inspect the existing structure\n- make the smallest coherent change\n- verify with focused tests");
            out
        },
        Role::Critic => {
            let mut out = "Demo critique ".to_owned();
            out.append(number.as_str());
            out.append(" from ");
            out.append(label);
            out.append(":\n- check edge cases before execution\n- keep token context compact\n- require a clear verification step");
            out
        },
        _ => {
            let mut out = "Demo planning response ".to_owned();
            out.append(number.as_str());
            out.append(" from ");
            out.append(label);
            out.append(".");
            out
        },
    }
}

/// What a mock planner says.
pub fn demo_planning_responses(label: &str, role: Role, count: usize) -> (r: Vec<String>)
    ensures
        texts(r@) == demo_replies(label@, role, count as nat),
{
    let ghost one = |i: int| demo_reply(label@, role, (i + 1) as nat);
    let mut out: Vec<String> = Vec::new();
    let mut i: usize = 0;
    proof {
        assert(texts(out@) =~= Seq::new(0, one));
    }
    while i < count
        invariant
            i <= count,
            one == (|i: int| demo_reply(label@, role, (i + 1) as nat)),
            texts(out@) == Seq::new(i as nat, one),
        decreases count - i,
    {
        let x = write_demo_reply(label, role, i);
        proof {
            lemma_texts_push(out@, x);
            assert(Seq::new((i + 1) as nat, one) =~= Seq::new(i as nat, one).push(x@));
        }
        out.push(x);
        i = i + 1;
    }
    proof {
        assert(texts(out@) =~= demo_replies(label@, role, count as nat));
    }
    out
}

pub open spec fn demo_vote(label: Seq<char>, execute: Seq<char>) -> Seq<char> {
    "{\"recommended_executor\":\""@ + execute
        + "\",\"confidence\":0.86,\"rationale\":\"demo vote from "@ + label + ": "@ + execute
        + " is selected for the implementation pass\"}"@
}

pub open spec fn demo_planner_execution(label: Seq<char>) -> Seq<char> {
    "Demo execution by "@ + label
        + ":\n- consumed the compact execution packet\n- applied the agreed plan in mock mode\n- no files were changed"@
}

pub open spec fn demo_execution(label: Seq<char>) -> Seq<char> {
    "Demo execution by "@ + label
        + ":\n- received the compact execution packet\n- completed the mock implementation pass\n- no files were changed"@
}

/// What a mock planner says in a run: its turns, its vote, and what it says
/// where it executes.
pub fn demo_planner_responses(label: &str, role: Role, planning_turns: usize, execute: &str) -> (r:
    Vec<String>)
    ensures
        texts(r@) == demo_replies(label@, role, planning_turns as nat).push(
            demo_vote(label@, execute@),
        ).push(demo_planner_execution(label@)),
{
    let mut out = demo_planning_responses(label, role, planning_turns);
    let mut vote = "{\"recommended_executor\":\"".to_owned();
    vote.append(execute);
    vote.append("\",\"confidence\":0.86,\"rationale\":\"demo vote from ");
    vote.append(label);
    vote.append(": ");
    vote.append(execute);
    vote.append(" is selected for the implementation pass\"}");
    proof {
        lemma_texts_push(out@, vote);
    }
    out.push(vote);
    let mut done = "Demo execution by ".to_owned();
    done.append(label);
    done.append(":\n- consumed the compact execution packet\n- applied the agreed plan in mock mode\n- no files were changed");
    proof {
        lemma_texts_push(out@, done);
    }
    out.push(done);
    out
}

/// What a mock executor says.
pub fn demo_executor_responses(label: &str) -> (r: Vec<String>)
    ensures
        texts(r@) == seq![demo_execution(label@)],
{
    let mut done = "Demo execution by ".to_owned();
    done.append(label);
    done.append(":\n- received the compact execution packet\n- completed the mock implementation pass\n- no files were changed");
    let out = vec![done];
    proof {
        assert(texts(out@) =~= seq![demo_execution(label@)]);
    }
    out
}

// ---- What is told ----------------------------------------------------------

/// What is said of who executes.
pub open spec fn tier_text(o: RunOptions) -> Seq<char> {
    match o.execute {
        None => Seq::empty(),
        Some(e) => if seat_of(o) == ExecutorSeat::Separate {
            match o.execute_model {
                Some(m) => "  (tiered: "@ + o.drafter@ + "+"@ + o.critic@ + " plan → "@ + e@
                    + "/"@ + m@ + " executes)"@,
                None => "  (tiered: "@ + o.drafter@ + "+"@ + o.critic@ + " plan → "@ + e@
                    + " executes)"@,
            }
        } else {
            "  (executor: "@ + e@ + ")"@
        },
    }
}

fn write_tier(o: &RunOptions) -> (r: String)
    ensures
        r@ == tier_text(*o),
{
    match &o.execute {
        None => {
            let out = String::new();
            proof {
                assert(out@ =~= Seq::empty());
            }
            out
        },
        Some(e) => {
            if executor_seat(o) == ExecutorSeat::Separate {
                match &o.execute_model {
                    Some(m) => {
                        let mut out = "  (tiered: ".to_owned();
                        out.append(o.drafter.as_str());
                        out.append("+");
                        out.append(o.critic.as_str());
                        out.append(" plan → ");
                        out.append(e.as_str());
                        out.append("/");
                        out.append(m.as_str());
                        out.append(" executes)");
                        out
                    },
                    None => {
                        let mut out = "  (tiered: ".to_owned();
                        out.append(o.drafter.as_str());
                        out.append("+");
                        out.append(o.critic.as_str());
                        out.append(" plan → ");
                        out.append(e.as_str());
                        out.append(" executes)");
                        out
                    },
                }
            } else {
                let mut out = "  (executor: ".to_owned();
                out.append(e.as_str());
                out.append(")");
                out
            }
        },
    }
}

fn demo_suffix(demo: bool) -> (r: &'static str)
    ensures
        r@ == demo_word(demo),
{
    proof {
        reveal_strlit("");
        assert(""@ =~= Seq::empty());
    }
    if demo {
        " demo"
    } else {
        ""
    }
}

/// What is said when a run starts.
pub fn run_banner(o: &RunOptions) -> (r: String)
    ensures
        r@ == "\n=== run"@ + demo_word(o.demo) + ": "@ + o.prompt@ + tier_text(*o) + " ===\n"@,
{
    let mut out = "\n=== run".to_owned();
    out.append(demo_suffix(o.demo));
    out.append(": ");
    out.append(o.prompt.as_str());
    out.append(write_tier(o).as_str());
    out.append(" ===\n");
    out
}

/// What is said when a discussion starts.
pub fn discussion_banner(o: &RunOptions, turns: usize) -> (r: String)
    ensures
        r@ == "\n=== discussion"@ + demo_word(o.demo) + ": "@ + o.prompt@ + " ("@
            + dec(turns as nat) + " turns) ===\n"@,
{
    let mut out = "\n=== discussion".to_owned();
    out.append(demo_suffix(o.demo));
    out.append(": ");
    out.append(o.prompt.as_str());
    out.append(" (");
    out.append(decimal_size(turns).as_str());
    out.append(" turns) ===\n");
    out
}

/// What a report is written as.
#[derive(Clone, Copy, Debug, PartialEq, Eq, Structural)]
pub enum ReportKind {
    Markdown,
    Summary,
}

pub open spec fn report_words(kind: ReportKind) -> Seq<char> {
    match kind {
        ReportKind::Markdown => "session report"@,
        ReportKind::Summary => "session summary JSON"@,
    }
}

/// What is logged when a report was written, or could not be.
pub fn report_written(kind: ReportKind, path: &str, failure: Option<&str>) -> (r:
    OrchestratorEvent)
    ensures
        r@ == (match opt_str(failure) {
            None => Notice::Log {
                level: "info"@,
                msg: report_words(kind) + " written to "@ + path@,
            },
            Some(e) => Notice::Log {
                level: "warn"@,
                msg: "failed to write "@ + report_words(kind) + " to "@ + path@ + ": "@ + e,
            },
        }),
{
    let words: &str = match kind {
        ReportKind::Markdown => "session report",
        ReportKind::Summary => "session summary JSON",
    };
    match failure {
        None => {
            let mut msg = words.to_owned();
            msg.append(" written to ");
            msg.append(path);
            OrchestratorEvent::Log { level: "info".to_owned(), msg }
        },
        Some(e) => {
            let mut msg = "failed to write ".to_owned();
            msg.append(words);
            msg.append(" to ");
            msg.append(path);
            msg.append(": ");
            msg.append(e);
            OrchestratorEvent::Log { level: "warn".to_owned(), msg }
        },
    }
}

/// Shows what happens in a run.
pub struct Printer {
    labels: HashMap<AgentId, String>,
}

impl View for Printer {
    type V = Map<AgentId, Seq<char>>;

    closed spec fn view(&self) -> Map<AgentId, Seq<char>> {
        label_texts(self.labels@)
    }
}

/// The name under which an agent is shown.
pub open spec fn who(labels: Map<AgentId, Seq<char>>, agent: AgentId) -> Seq<char> {
    if labels.contains_key(agent) {
        labels[agent]
    } else {
        "?"@
    }
}

pub open spec fn call_word(confident: bool) -> Seq<char> {
    if confident {
        "consensus"@
    } else {
        "needs your call"@
    }
}

/// What is shown of an event. The cost is given as it is shown.
pub open spec fn told_event(labels: Map<AgentId, Seq<char>>, n: Notice, cost: Seq<char>) -> Option<
    Seq<char>,
> {
    match n {
        Notice::AgentSpawned { label, .. } => Some("● enrolled "@ + label + "\n"@),
        Notice::Log { msg, .. } => Some("\n──────── "@ + msg + " ────────\n"@),
        Notice::Message { agent, text } => Some(
            "\n"@ + who(labels, agent) + ":\n"@ + text + "\n"@,
        ),
        Notice::UserMessage { text } => Some("\nyou:\n"@ + text + "\n"@),
        Notice::ToolActivity { agent, summary } => Some(
            "  ⚙ "@ + who(labels, agent) + ": "@ + summary + "\n"@,
        ),
        Notice::RecommendationReady { executor, rationale, confident, scores } => Some("\n★ recommended executor: "@
            + executor + " ("@ + call_word(confident) + ")\n"@ + scores_line(scores) + "\n"@
            + rationale + "\n"@),
        Notice::ExecutionPacket { executor, text, included_in_prompt } => Some("\n──────── execution packet for "@
            + executor + " ("@ + delivery_word(included_in_prompt) + ") ────────\n"@
            + previewed(text, 1800) + "\n"@),
        Notice::SessionReport { markdown, .. } => Some("\n──────── session report ────────\n"@
            + previewed(markdown, 3000) + "\n"@),
        Notice::TurnComplete { cost_usd, token_usage, .. } => if cost_usd is Some {
            Some("  (session cost $"@ + cost + ")\n"@)
        } else {
            match token_usage {
                Some(u) => Some("  ("@ + usage_text(u) + ")\n"@),
                None => None,
            }
        },
        Notice::Fatal { msg } => Some("✗ fatal: "@ + msg + "\n"@),
        _ => None,
    }
}

/// The names behind an event.
pub open spec fn labels_after(labels: Map<AgentId, Seq<char>>, n: Notice) -> Map<
    AgentId,
    Seq<char>,
> {
    match n {
        Notice::AgentSpawned { agent, label, .. } => labels.insert(agent, label),
        _ => labels,
    }
}

impl Printer {
    pub fn new() -> (r: Printer)
        ensures
            r@ == Map::<AgentId, Seq<char>>::empty(),
    {
        let r = Printer { labels: HashMap::new() };
        proof {
            assert(r@ =~= Map::empty());
        }
        r
    }

    fn who(&self, agent: AgentId) -> (r: String)
        ensures
            r@ == who(self@, agent),
    {
        match self.labels.get(&agent) {
            Some(label) => label.clone(),
            None => "?".to_owned(),
        }
    }

    fn learn(&mut self, ev: &OrchestratorEvent)
        ensures
            final(self)@ == labels_after(old(self)@, ev@),
    {
        let ghost was = self@;
        if let OrchestratorEvent::AgentSpawned { agent, label, .. } = ev {
            self.labels.insert(*agent, label.clone());
            proof {
                assert(self@ =~= was.insert(*agent, label@));
            }
        }
    }

    fn tell(&self, ev: &OrchestratorEvent, cost: &str) -> (r: Option<String>)
        ensures
            crate::text::opt_text(r) == told_event(self@, ev@, cost@),
    {
        match ev {
            OrchestratorEvent::AgentSpawned { label, .. } => {
                let mut out = "● enrolled ".to_owned();
                out.append(label.as_str());
                out.append("\n");
                Some(out)
            },
            OrchestratorEvent::Log { msg, .. } => {
                let mut out = "\n──────── ".to_owned();
                out.append(msg.as_str());
                out.append(" ────────\n");
                Some(out)
            },
            OrchestratorEvent::Message { agent, text } => {
                let mut out = "\n".to_owned();
                out.append(self.who(*agent).as_str());
                out.append(":\n");
                out.append(text.as_str());
                out.append("\n");
                Some(out)
            },
            OrchestratorEvent::UserMessage { text } => {
                let mut out = "\nyou:\n".to_owned();
                out.append(text.as_str());
                out.append("\n");
                Some(out)
            },
            OrchestratorEvent::ToolActivity { agent, summary } => {
                let mut out = "  ⚙ ".to_owned();
                out.append(self.who(*agent).as_str());
                out.append(": ");
                out.append(summary.as_str());
                out.append("\n");
                Some(out)
            },
            OrchestratorEvent::RecommendationReady { executor, rationale, confident, scores } => {
                let call: &str = if *confident {
                    "consensus"
                } else {
                    "needs your call"
                };
                let mut out = "\n★ recommended executor: ".to_owned();
                out.append(executor.as_str());
                out.append(" (");
                out.append(call);
                out.append(")\n");
                out.append(format_scores(scores).as_str());
                out.append("\n");
                out.append(rationale.as_str());
                out.append("\n");
                Some(out)
            },
            OrchestratorEvent::ExecutionPacket { executor, text, included_in_prompt } => {
                let delivery: &str = if *included_in_prompt {
                    "sent to prompt"
                } else {
                    "session audit"
                };
                let mut out = "\n──────── execution packet for ".to_owned();
                out.append(executor.as_str());
                out.append(" (");
                out.append(delivery);
                out.append(") ────────\n");
                out.append(preview_chars(text.as_str(), 1800).as_str());
                out.append("\n");
                Some(out)
            },
            OrchestratorEvent::SessionReport { markdown, .. } => {
                let mut out = "\n──────── session report ────────\n".to_owned();
                out.append(preview_chars(markdown.as_str(), 3000).as_str());
                out.append("\n");
                Some(out)
            },
            OrchestratorEvent::TurnComplete { cost_usd, token_usage, .. } => {
                if cost_usd.is_some() {
                    let mut out = "  (session cost $".to_owned();
                    out.append(cost);
                    out.append(")\n");
                    return Some(out);
                }
                match token_usage {
                    Some(u) => {
                        let mut out = "  (".to_owned();
                        out.append(format_token_usage(*u).as_str());
                        out.append(")\n");
                        Some(out)
                    },
                    None => None,
                }
            },
            OrchestratorEvent::Fatal { msg } => {
                let mut out = "✗ fatal: ".to_owned();
                out.append(msg.as_str());
                out.append("\n");
                Some(out)
            },
            _ => None,
        }
    }

    /// What is shown of an event, if anything; the names of new agents are
    /// remembered. The cost is given as it is shown.
    pub fn show(&mut self, ev: &OrchestratorEvent, cost: &str) -> (r: Option<String>)
        ensures
            crate::text::opt_text(r) == told_event(old(self)@, ev@, cost@),
            final(self)@ == labels_after(old(self)@, ev@),
    {
        let r = self.tell(ev, cost);
        self.learn(ev);
        r
    }
}

// ---- One agent alone -------------------------------------------------------

/// What a single agent is started with: an Anthropic agent works on files only.
pub fn solo_ctx(
    agent: AgentId,
    label: &str,
    cwd: &str,
    model: &Option<String>,
    effort: &Option<String>,
    sandbox: &str,
) -> (r: SpawnCtx)
    ensures
        r.agent == agent,
        r.label@ == label@,
        r.cwd@ == cwd@,
        crate::text::opt_text(r.model) == crate::text::opt_text(*model),
        crate::text::opt_text(r.effort) == crate::text::opt_text(*effort),
        r.permission_mode@ == "acceptEdits"@,
        r.sandbox@ == sandbox@,
        opt_texts(r.allowed_tools) == (if same_ci(label@, "anthropic"@) {
            Some(seq!["Write"@, "Edit"@, "MultiEdit"@, "Read"@])
        } else {
            None
        }),
{
    let allowed_tools = if same_ignoring_case(label, "anthropic") {
        Some(file_tools())
    } else {
        None
    };
    SpawnCtx {
        agent,
        label: label.to_owned(),
        cwd: cwd.to_owned(),
        model: copy_opt(model),
        effort: copy_opt(effort),
        permission_mode: "acceptEdits".to_owned(),
        sandbox: sandbox.to_owned(),
        allowed_tools,
    }
}

/// What is to be done behind an event of a single agent.
#[derive(Clone, Copy, Debug, PartialEq, Eq, Structural)]
pub enum SoloNext {
    /// Wait for the next.
    Wait,
    /// Shut the agent down, and wait for the next.
    Shutdown,
    /// Stop.
    Stop,
}

/// What follows from an event of a single agent.
#[derive(Debug)]
pub struct SoloStep {
    /// What is shown.
    pub shown: String,
    /// Whether it is shown among the errors.
    pub error: bool,
    /// Whether the reply has come in pieces so far.
    pub streaming: bool,
    pub next: SoloNext,
}

/// How an exit code is shown.
pub open spec fn code_text(code: Option<i32>) -> Seq<char> {
    match code {
        Some(n) => "Some("@ + (if n < 0 {
            "-"@ + dec((-n) as nat)
        } else {
            dec(n as nat)
        }) + ")"@,
        None => "None"@,
    }
}

fn write_code(code: Option<i32>) -> (r: String)
    ensures
        r@ == code_text(code),
{
    match code {
        Some(n) => {
            let wide: i64 = n as i64;
            let mut digits = String::new();
            if wide < 0 {
                digits.append("-");
                digits.append(decimal((-wide) as u64).as_str());
            } else {
                digits.append(decimal(wide as u64).as_str());
            }
            proof {
                assert(digits@ =~= (if n < 0 {
                    "-"@ + dec((-n) as nat)
                } else {
                    dec(n as nat)
                }));
            }
            let mut out = "Some(".to_owned();
            out.append(digits.as_str());
            out.append(")");
            out
        },
        None => "None".to_owned(),
    }
}

/// What is shown of an event of a single agent. The whole reply is shown only
/// where it did not come in pieces.
pub open spec fn solo_text(h: Happening, streaming: bool, cost: Seq<char>) -> Seq<char> {
    match h {
        Happening::SessionReady { native_session_id, .. } => "● session "@ + native_session_id
            + "\n"@,
        Happening::Skills { skills, .. } => "● "@ + dec(skills.len()) + " skills available\n"@,
        Happening::TurnStarted { turn, .. } => "\n[turn "@ + dec(turn as nat) + "] "@,
        Happening::TokenDelta { text, .. } => text,
        Happening::MessageFinal { text, .. } => if streaming {
            Seq::empty()
        } else {
            text
        },
        Happening::ToolCall { name, .. } => "\n  ⚙ tool: "@ + name + "\n"@,
        Happening::TurnComplete { cost_usd, .. } => if cost_usd is Some {
            "\n✓ turn complete ($"@ + cost + ")\n"@
        } else {
            "\n✓ turn complete\n"@
        },
        Happening::Error { message, fatal, .. } => "\n✗ error"@ + (if fatal {
            " (fatal)"@
        } else {
            Seq::empty()
        }) + ": "@ + message + "\n"@,
        Happening::Exited { code, .. } => "● agent exited ("@ + code_text(code) + ")\n"@,
    }
}

/// What is to be done behind an event of a single agent.
pub open spec fn solo_next(h: Happening) -> SoloNext {
    match h {
        Happening::TurnComplete { .. } => SoloNext::Shutdown,
        Happening::Exited { .. } => SoloNext::Stop,
        _ => SoloNext::Wait,
    }
}

fn write_solo(event: &AgentEvent, streaming: bool, cost: &str) -> (r: String)
    ensures
        r@ == solo_text(event@, streaming, cost@),
{
    match event {
        AgentEvent::SessionReady { native_session_id, .. } => {
            let mut out = "● session ".to_owned();
            out.append(native_session_id.as_str());
            out.append("\n");
            out
        },
        AgentEvent::Skills { skills, .. } => {
            let mut out = "● ".to_owned();
            out.append(decimal_size(skills.len()).as_str());
            out.append(" skills available\n");
            out
        },
        AgentEvent::TurnStarted { turn, .. } => {
            let mut out = "\n[turn ".to_owned();
            out.append(decimal(*turn).as_str());
            out.append("] ");
            out
        },
        AgentEvent::TokenDelta { text, .. } => text.clone(),
        AgentEvent::MessageFinal { text, .. } => {
            if streaming {
                let out = String::new();
                proof {
                    assert(out@ =~= Seq::empty());
                }
                out
            } else {
                text.clone()
            }
        },
        AgentEvent::ToolCall { name, .. } => {
            let mut out = "\n  ⚙ tool: ".to_owned();
            out.append(name.as_str());
            out.append("\n");
            out
        },
        AgentEvent::TurnComplete { cost_usd, .. } => {
            if cost_usd.is_some() {
                let mut out = "\n✓ turn complete ($".to_owned();
                out.append(cost);
                out.append(")\n");
                out
            } else {
                "\n✓ turn complete\n".to_owned()
            }
        },
        AgentEvent::Error { message, fatal, .. } => {
            let mark: &str = if *fatal {
                " (fatal)"
            } else {
                ""
            };
            proof {
                reveal_strlit("");
                assert(mark@ =~= (if *fatal {
                    " (fatal)"@
                } else {
                    Seq::empty()
                }));
            }
            let mut out = "\n✗ error".to_owned();
            out.append(mark);
            out.append(": ");
            out.append(message.as_str());
            out.append("\n");
            out
        },
        AgentEvent::Exited { code, .. } => {
            let mut out = "● agent exited (".to_owned();
            out.append(write_code(*code).as_str());
            out.append(")\n");
            out
        },
    }
}

/// What follows from an event of a single agent. The cost is given as it is
/// shown.
pub fn solo_step(event: &AgentEvent, streaming: bool, cost: &str) -> (r: SoloStep)
    ensures
        r.shown@ == solo_text(event@, streaming, cost@),
        r.error == (event@ is Error),
        r.streaming == (streaming || event@ is TokenDelta),
        r.next == solo_next(event@),
{
    let shown = write_solo(event, streaming, cost);
    let (error, piece, next): (bool, bool, SoloNext) = match event {
        AgentEvent::TokenDelta { .. } => (false, true, SoloNext::Wait),
        AgentEvent::TurnComplete { .. } => (false, false, SoloNext::Shutdown),
        AgentEvent::Error { .. } => (true, false, SoloNext::Wait),
        AgentEvent::Exited { .. } => (false, false, SoloNext::Stop),
        _ => (false, false, SoloNext::Wait),
    };
    SoloStep { shown, error, streaming: streaming || piece, next }
}

/// A reply that came in pieces is not shown a second time.
pub proof fn law_streamed_replies_are_shown_once(h: Happening, cost: Seq<char>)
    requires
        h is MessageFinal,
    ensures
        solo_text(h, true, cost).len() == 0,
        solo_text(h, false, cost) == h->MessageFinal_text,
{
}

} // verus!
