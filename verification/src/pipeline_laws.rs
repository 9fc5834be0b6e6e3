//! What holds of a run that is asked for at once: who has which seat, what is
//! refused, and what is shown of it.
use vstd::prelude::*;
use crate::agent::{FoundBin, Happening, SpawnCtx};
use crate::conductor::{AgentId, Role};
use crate::event::Notice;
use crate::pipeline::{
    agents_of, code_text, demo_replies, demo_turns, demo_vote, is_seated, labels_after,
    limited_tools, needed_tools, run_problem, seat_of, seat_row, solo_next, solo_text, told_event,
    who, ExecutorSeat, RunOptions, SoloNext,
};
use crate::numeral::dec;
use crate::roster::{effort_problem, readiness_problem};
use crate::text::{lower_text, opt_text};
use crate::text_laws::{group_says, says};

verus! {

// ---- Seats -----------------------------------------------------------------------

/// Whoever is asked to execute does so from the seat that it has among the
/// planners, the drafter's before the critic's, however its name is written. One
/// that does not plan sits apart. Without an executor nobody executes.
pub proof fn law_planners_execute_from_their_seats(o: RunOptions)
    ensures
        o.execute is None <==> seat_of(o) == ExecutorSeat::Nobody,
        o.execute matches Some(e) ==> lower_text(o.drafter@) == lower_text(e@) ==> seat_of(o)
            == ExecutorSeat::Drafter,
        o.execute matches Some(e) ==> lower_text(o.drafter@) != lower_text(e@) && lower_text(
            o.critic@,
        ) == lower_text(e@) ==> seat_of(o) == ExecutorSeat::Critic,
        o.execute matches Some(e) ==> lower_text(o.drafter@) != lower_text(e@) && lower_text(
            o.critic@,
        ) != lower_text(e@) ==> seat_of(o) == ExecutorSeat::Separate,
{
}

/// Both planners are needed, and an executor that sits apart; nothing else is.
pub proof fn law_every_seat_needs_its_tool(o: RunOptions)
    ensures
        needed_tools(o).contains(o.drafter@),
        needed_tools(o).contains(o.critic@),
        seat_of(o) == ExecutorSeat::Separate ==> needed_tools(o).contains(o.execute->0@),
        seat_of(o) == ExecutorSeat::Separate ==> needed_tools(o).len() == 3,
        seat_of(o) != ExecutorSeat::Separate ==> needed_tools(o).len() == 2,
{
    let n = needed_tools(o);
    assert(n[0] == o.drafter@ && n[1] == o.critic@);
    if seat_of(o) == ExecutorSeat::Separate {
        assert(n[2] == o.execute->0@);
    }
}

/// A run is begun where nothing speaks against it, and only there: a report as
/// text comes from a trial alone; an executor that also plans has no model and no
/// effort beside its own; and, but for a demonstration, the tools are ready and
/// have the efforts that are asked for.
pub proof fn law_runs_are_refused_for_a_reason(o: RunOptions, found: Seq<FoundBin>)
    ensures
        run_problem(o, found) is None <==> {
            &&& o.json_output ==> o.dry_run
            &&& o.execute is Some && seat_of(o) != ExecutorSeat::Separate ==> o.execute_model is None
                && o.execute_effort is None
            &&& o.demo || {
                &&& readiness_problem(needed_tools(o), found) is None
                &&& effort_problem(o.drafter@, opt_text(o.drafter_effort)) is None
                &&& effort_problem(o.critic@, opt_text(o.critic_effort)) is None
                &&& seat_of(o) == ExecutorSeat::Separate ==> effort_problem(
                    o.execute->0@,
                    opt_text(o.execute_effort),
                ) is None
            }
        },
{
}

/// The roster of a run: the drafter, the critic and, where there is one, the
/// executor. One that has a planner's seat has that planner's model and effort;
/// one that sits apart has its own.
pub proof fn law_executors_keep_the_settings_of_their_seat(o: RunOptions)
    ensures
        agents_of(o)[0] == seat_row(o, ExecutorSeat::Drafter),
        agents_of(o)[1] == seat_row(o, ExecutorSeat::Critic),
        agents_of(o)[0].key == o.drafter@ && agents_of(o)[0].model == opt_text(o.drafter_model)
            && agents_of(o)[0].effort == opt_text(o.drafter_effort),
        agents_of(o)[1].key == o.critic@ && agents_of(o)[1].model == opt_text(o.critic_model)
            && agents_of(o)[1].effort == opt_text(o.critic_effort),
        o.execute is None ==> agents_of(o).len() == 2,
        o.execute matches Some(e) ==> {
            let x = agents_of(o)[2];
            &&& agents_of(o).len() == 3
            &&& x.role == "executor"@
            &&& x.key == e@
            &&& seat_of(o) == ExecutorSeat::Drafter ==> x.model == opt_text(o.drafter_model)
                && x.effort == opt_text(o.drafter_effort)
            &&& seat_of(o) == ExecutorSeat::Critic ==> x.model == opt_text(o.critic_model)
                && x.effort == opt_text(o.critic_effort)
            &&& seat_of(o) == ExecutorSeat::Separate ==> x.model == opt_text(o.execute_model)
                && x.effort == opt_text(o.execute_effort)
        },
{
}

/// An agent is started under its own name, with its seat's model and effort, in the
/// executor's directory where it executes and in the common one else. What it may
/// use is limited only where it executes.
pub proof fn law_agents_start_as_their_seat_asks(
    ctx: SpawnCtx,
    o: RunOptions,
    seat: ExecutorSeat,
    agent: AgentId,
    cwd: Seq<char>,
    exec_cwd: Seq<char>,
)
    requires
        is_seated(ctx, o, seat, agent, cwd, exec_cwd),
    ensures
        ctx.agent == agent,
        ctx.sandbox@ == o.sandbox@,
        seat == ExecutorSeat::Drafter ==> ctx.label@ == o.drafter@ && opt_text(ctx.model)
            == opt_text(o.drafter_model) && opt_text(ctx.effort) == opt_text(o.drafter_effort),
        seat == ExecutorSeat::Critic ==> ctx.label@ == o.critic@ && opt_text(ctx.model) == opt_text(
            o.critic_model,
        ) && opt_text(ctx.effort) == opt_text(o.critic_effort),
        seat == ExecutorSeat::Separate && o.execute is Some ==> ctx.label@ == o.execute->0@
            && opt_text(ctx.model) == opt_text(o.execute_model) && opt_text(ctx.effort) == opt_text(
            o.execute_effort,
        ),
        seat == seat_of(o) ==> ctx.cwd@ == exec_cwd,
        seat != seat_of(o) ==> ctx.cwd@ == cwd,
        o.execute is None ==> ctx.allowed_tools is None,
        o.execute matches Some(e) ==> lower_text(ctx.label@) != lower_text(e@) ==> ctx.allowed_tools
            is None,
{
}

/// An Anthropic executor writes, edits and reads files, and is given nothing else;
/// other executors are not limited.
pub proof fn law_one_tool_is_limited(o: RunOptions, label: Seq<char>)
    ensures
        limited_tools(o, label) is Some ==> lower_text(label) == "anthropic"@ && o.execute is Some,
        o.execute matches Some(e) ==> lower_text(label) == lower_text(e@) && lower_text(label)
            == "anthropic"@ ==> (limited_tools(o, label) matches Some(t) && t.len() == 4
            && t.contains("Write"@) && t.contains("Edit"@) && t.contains("MultiEdit"@)
            && t.contains("Read"@)),
{
    let t = seq!["Write"@, "Edit"@, "MultiEdit"@, "Read"@];
    assert(t[0] == "Write"@ && t[1] == "Edit"@ && t[2] == "MultiEdit"@ && t[3] == "Read"@);
}

// ---- Demonstrations ----------------------------------------------------------------

/// A demonstration's planners have enough to say: together as many turns as were
/// asked for, where they speak in turn, and each from two to six where they speak at
/// once. They say it in order, each time anew.
pub proof fn law_demonstrations_last_long_enough(
    max_turns: nat,
    planners: nat,
    label: Seq<char>,
    role: Role,
    count: nat,
    i: int,
)
    ensures
        planners > 0 ==> demo_turns(max_turns, true, planners) * planners >= max_turns,
        planners > 0 && max_turns > 0 ==> (demo_turns(max_turns, true, planners) - 1) * planners
            < max_turns,
        demo_turns(max_turns, true, planners) >= 1,
        2 <= demo_turns(max_turns, false, planners) <= 6,
        demo_replies(label, role, count).len() == count,
        0 <= i < count ==> says(demo_replies(label, role, count)[i], label) && says(
            demo_replies(label, role, count)[i],
            dec((i + 1) as nat),
        ),
{
    broadcast use group_says;

    if planners > 0 {
        lemma_rounds(max_turns as int, planners as int);
    }
}

pub proof fn lemma_rounds(n: int, p: int)
    requires
        n >= 0,
        p > 0,
    ensures
        crate::arith::ceil_div(n as nat, p as nat) * p >= n,
        n > 0 ==> (crate::arith::ceil_div(n as nat, p as nat) - 1) * p < n,
        crate::arith::ceil_div(n as nat, p as nat) == 0 ==> n == 0,
{
    vstd::arithmetic::div_mod::lemma_fundamental_div_mod(n, p);
    vstd::arithmetic::div_mod::lemma_mod_bound(n, p);
    let q = n / p;
    let r = n % p;
    vstd::arithmetic::mul::lemma_mul_is_commutative(p, q);
    vstd::arithmetic::mul::lemma_mul_is_distributive_add_other_way(p, q, 1);
    vstd::arithmetic::mul::lemma_mul_is_distributive_sub_other_way(p, q, 1);
    if n > 0 {
        vstd::arithmetic::div_mod::lemma_div_pos_is_pos(n, p);
    }
}

/// A demonstration's vote is for the executor that was asked for.
pub proof fn law_demonstrations_vote_for_the_executor(label: Seq<char>, execute: Seq<char>)
    ensures
        says(demo_vote(label, execute), "{\"recommended_executor\":\""@ + execute),
        says(demo_vote(label, execute), label),
{
    broadcast use group_says;

}

// ---- What is shown -----------------------------------------------------------------

/// What an agent says is shown under its name, and so is what it does; what the user
/// says, what is noted and what fails is shown in full.
pub proof fn law_what_is_said_is_shown(
    labels: Map<AgentId, Seq<char>>,
    agent: AgentId,
    text: Seq<char>,
    cost: Seq<char>,
)
    ensures
        told_event(labels, Notice::Message { agent, text }, cost) matches Some(t) && says(
            t,
            who(labels, agent),
        ) && says(t, text),
        told_event(labels, Notice::UserMessage { text }, cost) matches Some(t) && says(t, text),
        told_event(
            labels,
            Notice::ToolActivity { agent, summary: text },
            cost,
        ) matches Some(t) && says(t, who(labels, agent)) && says(t, text),
        told_event(labels, Notice::Fatal { msg: text }, cost) matches Some(t) && says(t, text),
        labels.contains_key(agent) ==> who(labels, agent) == labels[agent],
        labels_after(labels, Notice::Message { agent, text }) == labels,
{
    broadcast use group_says;

}

/// An agent is known by the name that it was enrolled under last.
pub proof fn law_agents_are_known_by_their_names(
    labels: Map<AgentId, Seq<char>>,
    n: Notice,
    other: AgentId,
    cost: Seq<char>,
)
    requires
        n is AgentSpawned,
    ensures
        who(labels_after(labels, n), n->AgentSpawned_agent) == n->AgentSpawned_label,
        other != n->AgentSpawned_agent ==> who(labels_after(labels, n), other) == who(labels, other),
        told_event(labels, n, cost) matches Some(t) && says(t, n->AgentSpawned_label),
{
    broadcast use group_says;

}

/// A recommendation is shown with the executor, whether there was a consensus, and
/// why; what a turn cost is shown before what it used.
pub proof fn law_recommendations_are_shown(labels: Map<AgentId, Seq<char>>, n: Notice, cost: Seq<char>)
    ensures
        n is RecommendationReady ==> (told_event(labels, n, cost) matches Some(t) && says(
            t,
            n->RecommendationReady_executor,
        ) && says(t, n->RecommendationReady_rationale) && says(
            t,
            if n->RecommendationReady_confident {
                "consensus"@
            } else {
                "needs your call"@
            },
        )),
        n is TurnComplete && n->TurnComplete_cost_usd is Some ==> (told_event(
            labels,
            n,
            cost,
        ) matches Some(t) && says(t, cost)),
        n is TurnComplete && n->TurnComplete_cost_usd is None && n->TurnComplete_token_usage is None
            ==> told_event(labels, n, cost) is None,
{
    broadcast use group_says;

}

/// A lone agent is shut down when its turn is complete, and waited for until it has
/// gone; nothing else ends the wait.
pub proof fn law_lone_agents_have_one_turn(h: Happening)
    ensures
        h is TurnComplete <==> solo_next(h) == SoloNext::Shutdown,
        h is Exited <==> solo_next(h) == SoloNext::Stop,
{
}

/// What a lone agent says is shown: its reply in pieces or as a whole, the tools
/// that it uses, its errors, and how it went.
pub proof fn law_lone_agents_are_heard(h: Happening, streaming: bool, cost: Seq<char>)
    ensures
        h is TokenDelta ==> solo_text(h, streaming, cost) == h->TokenDelta_text,
        h is MessageFinal && !streaming ==> solo_text(h, streaming, cost) == h->MessageFinal_text,
        h is MessageFinal && streaming ==> solo_text(h, streaming, cost).len() == 0,
        h is ToolCall ==> says(solo_text(h, streaming, cost), h->ToolCall_name),
        h is Error ==> says(solo_text(h, streaming, cost), h->Error_message),
        h is Error && h->Error_fatal ==> says(solo_text(h, streaming, cost), " (fatal)"@),
        h is Exited ==> says(solo_text(h, streaming, cost), code_text(h->Exited_code)),
        h is TurnComplete && h->TurnComplete_cost_usd is Some ==> says(
            solo_text(h, streaming, cost),
            cost,
        ),
{
    broadcast use group_says;

}

} // verus!
