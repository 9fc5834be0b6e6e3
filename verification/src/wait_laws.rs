//! What holds of the engine while it waits for a round, and of what it reports when a
//! run is over.
use vstd::prelude::*;
use crate::agent::AgentEvent;
use crate::blackboard::Utterance;
use crate::conductor::{role_name, AgentId, RosterEntry};
use crate::engine_laws::lemma_round_ended;
use crate::event::Notice;
use crate::machine::{
    active, all_asked, all_timed_out, are_contributions, are_reported, at_rest, discuss_rounds_on,
    interact_rounds_on, label_of, labelled, next_vote, pending_after, phase_entries, phase_stats,
    reported_entries, round_over, round_recorded, skills_line, step, timed_out, Effect, Input,
    Phase, PhaseStats, Reported, StageView, State,
};
use crate::numeral::dec;
use crate::report::RunOutcome;
use crate::session_laws::lemma_kept;
use crate::session_report::session_report;
use crate::telemetry::{phase_label, CostReport, PromptPhase};
use crate::text::{first_n, join};
use crate::text_laws::{
    group_says, law_joining_keeps_every_part, lemma_says_all_each, lemma_says_through, says,
};
use crate::turn_laws::{about, is_end, telling};

verus! {

// ---- Waiting for a round -----------------------------------------------------------

/// A round goes on until everyone is done. What an agent says last is kept for it, and
/// whoever ends its turn is waited for no longer; everyone else still is. What comes
/// from an agent that is done is passed over.
pub proof fn law_rounds_wait_for_everyone(
    pre: State,
    members: Seq<RosterEntry>,
    pending: Seq<AgentId>,
    finals: Map<AgentId, String>,
    e: AgentEvent,
    post: State,
    other: AgentId,
)
    requires
        pre.stage == (StageView::Round { members, pending, finals }),
        step(pre, Input::Event(e), post),
        !(e is Skills),
    ensures
        !pending.contains(about(e)) ==> post == pre,
        pending.contains(about(e)) && e is MessageFinal ==> post.stage == (StageView::Round {
            members,
            pending,
            finals: finals.insert(about(e), e->MessageFinal_text),
        }) && post.transcript == pre.transcript,
        pending.contains(about(e)) && !(e is MessageFinal) && !is_end(e, about(e)) ==> post.stage
            == pre.stage && post.transcript == pre.transcript,
        pending.contains(about(e)) && is_end(e, about(e)) && pending.contains(other) && other
            != about(e) ==> {
            &&& post.stage is Round
            &&& post.stage->members == members
            &&& post.stage->finals == finals
            &&& post.stage->pending.contains(other)
            &&& !post.stage->pending.contains(about(e))
            &&& post.transcript == pre.transcript
        },
        pending.contains(about(e)) ==> (telling(e) matches Some(n) ==> post.out.len()
            > pre.out.len() && post.out[pre.out.len() as int] == Effect::Emit(n)),
{
    let s = at_rest(pre);
    let left = pending_after(pending, e);
    let me = about(e);
    let keep = |a: AgentId| a != me;
    if pending.contains(me) {
        if is_end(e, me) {
            let k = choose|k: int| 0 <= k < pending.len() && pending[k] == other;
            lemma_kept(pending, keep, k);
            if pending.contains(other) && other != me {
                assert(left.contains(other));
                assert(left.len() > 0);
                if left.contains(me) {
                    let m = choose|m: int| 0 <= m < left.len() && left[m] == me;
                    lemma_kept(pending, keep, m);
                }
            }
        } else {
            let k = choose|k: int| 0 <= k < pending.len() && pending[k] == me;
            assert(left == pending);
            assert(pending.len() > 0);
        }
        let t = crate::machine::passed_on(s, e);
        if left.len() == 0 {
            let now = crate::machine::finals_after(finals, e);
            lemma_round_ended(t, members, now, post);
        }
        assert(telling(e) is Some ==> t.out.len() > pre.out.len() && t.out[pre.out.len() as int]
            == Effect::Emit(telling(e)->0));
    }
}

/// What an agent can do is noted in mid-round, and the round goes on as it was.
pub proof fn law_skills_are_noted_in_rounds(
    pre: State,
    members: Seq<RosterEntry>,
    pending: Seq<AgentId>,
    finals: Map<AgentId, String>,
    e: AgentEvent,
    post: State,
)
    requires
        pre.stage == (StageView::Round { members, pending, finals }),
        step(pre, Input::Event(e), post),
        e is Skills,
    ensures
        post.skills == pre.skills.insert(about(e), e->Skills_skills),
        post.stage == pre.stage,
        post.transcript == pre.transcript,
        post.terminated == pre.terminated,
{
}

/// The skills of an agent are told under its name: how many there are, and the first
/// of them.
pub proof fn law_skills_are_told(label: Seq<char>, skills: Seq<Seq<char>>, i: int)
    ensures
        says(skills_line(label, skills), label),
        says(skills_line(label, skills), dec(skills.len())),
        0 <= i < skills.len() && i < 14 ==> says(skills_line(label, skills), skills[i]),
        skills.len() > 14 ==> says(
            skills_line(label, skills),
            " +"@ + dec((skills.len() - 14) as nat) + " more"@,
        ),
{
    broadcast use group_says;

    let parts = first_n(skills, 14);
    law_joining_keeps_every_part(parts, ", "@, Seq::empty());
    let all = join(parts, ", "@);
    if 0 <= i < skills.len() && i < 14 {
        assert(parts[i] == skills[i]);
        lemma_says_all_each(all, parts, i);
        lemma_says_through(skills_line(label, skills), all, parts[i]);
    }
}

/// The name of an agent is the one that it has first on the roster.
pub proof fn law_agents_have_the_name_of_their_entry(roster: Seq<RosterEntry>, agent: AgentId, k: int)
    ensures
        0 <= k < roster.len() && roster[k].agent == agent && (forall|j: int|
            0 <= j < k ==> (#[trigger] roster[j]).agent != agent) ==> label_of(roster, agent)
            == roster[k].label@,
    decreases roster.len(),
{
    if 0 < k < roster.len() && roster[k].agent == agent && (forall|j: int|
        0 <= j < k ==> (#[trigger] roster[j]).agent != agent) {
        let t = roster.skip(1);
        assert(roster[0].agent != agent);
        assert(t[k - 1] == roster[k]);
        assert forall|j: int| 0 <= j < k - 1 implies (#[trigger] t[j]).agent != agent by {
            assert(t[j] == roster[j + 1]);
        }
        law_agents_have_the_name_of_their_entry(t, agent, k - 1);
    }
}

// ---- Late agents -----------------------------------------------------------------------

proof fn lemma_late(s: State, agents: Seq<AgentId>, i: int)
    ensures
        ({
            let t = all_timed_out(s, agents);
            &&& forall|x: AgentId| #[trigger]
                t.terminated.contains(x) <==> s.terminated.contains(x) || agents.contains(x)
            &&& 0 <= i < agents.len() ==> exists|k: int|
                s.out.len() <= k < t.out.len() && #[trigger] t.out[k] == (Effect::Stop {
                    agent: agents[i],
                })
            &&& s.out.len() <= t.out.len()
        }),
    decreases agents.len(),
{
    if agents.len() > 0 {
        let init = agents.drop_last();
        lemma_late(s, init, i);
        let b = all_timed_out(s, init);
        let t = timed_out(b, agents.last());
        assert forall|x: AgentId| #[trigger] t.terminated.contains(x) <==> s.terminated.contains(x)
            || agents.contains(x) by {
            if init.contains(x) {
                let m = choose|m: int| 0 <= m < init.len() && init[m] == x;
                assert(agents[m] == x);
            }
            if agents.contains(x) && x != agents.last() {
                let m = choose|m: int| 0 <= m < agents.len() && agents[m] == x;
                assert(init[m] == x);
            }
            assert(agents[agents.len() - 1] == agents.last());
        }
        if 0 <= i < init.len() {
            let k = choose|k: int|
                s.out.len() <= k < b.out.len() && #[trigger] b.out[k] == (Effect::Stop {
                    agent: init[i],
                });
            assert(t.out[k] == b.out[k]);
        } else if i == init.len() {
            assert(t.out[(b.out.len() + 1) as int] == (Effect::Stop { agent: agents[i] }));
        }
    }
}

proof fn lemma_recording_shuts_none(
    s: State,
    members: Seq<RosterEntry>,
    added: Seq<Utterance>,
    n: nat,
)
    ensures
        round_recorded(s, members, added, n).terminated == s.terminated,
    decreases n,
{
    if n > 0 {
        lemma_recording_shuts_none(s, members, added, (n - 1) as nat);
    }
}

proof fn lemma_asking_shuts_none(s: State, members: Seq<RosterEntry>, n: nat)
    ensures
        all_asked(s, members, n).terminated == s.terminated,
    decreases n,
{
    if n > 0 {
        lemma_asking_shuts_none(s, members, (n - 1) as nat);
    }
}

proof fn lemma_voting_shuts_none(s: State)
    ensures
        next_vote(s).terminated == s.terminated,
    decreases s.roster.len() - s.voter,
{
    if s.voter < s.roster.len() {
        lemma_voting_shuts_none(State { voter: s.voter + 1, ..s });
    }
}

proof fn lemma_going_on_shuts_none(s: State)
    ensures
        discuss_rounds_on(s).terminated == s.terminated,
        interact_rounds_on(s).terminated == s.terminated,
{
    lemma_asking_shuts_none(s, active(s), active(s).len());
    let t = State {
        voter: 0,
        votes: Seq::empty(),
        ..crate::machine::in_phase(s, Phase::Recommending)
    };
    lemma_voting_shuts_none(t);
}

/// Whoever has not finished when a round takes too long is shut down; no one else is.
/// The round is then over.
pub proof fn law_late_planners_are_shut_down(
    pre: State,
    members: Seq<RosterEntry>,
    pending: Seq<AgentId>,
    finals: Map<AgentId, String>,
    post: State,
    i: int,
    x: AgentId,
)
    requires
        pre.stage == (StageView::Round { members, pending, finals }),
        step(pre, Input::TimedOut, post),
    ensures
        post.terminated.contains(x) <==> pre.terminated.contains(x) || pending.contains(x),
        0 <= i < pending.len() ==> exists|k: int|
            pre.out.len() <= k < post.out.len() && #[trigger] post.out[k] == (Effect::Stop {
                agent: pending[i],
            }),
{
    let s = at_rest(pre);
    let t = all_timed_out(s, pending);
    lemma_late(s, pending, i);
    lemma_round_ended(t, members, finals, post);
    let added = choose|added: Seq<Utterance>| #[trigger]
        are_contributions(added, members, finals) && post == round_over(t, members, added);
    lemma_recording_shuts_none(t, members, added, members.len());
    let r = round_recorded(t, members, added, members.len());
    let r2 = State {
        rounds_left: if r.rounds_left > 0 {
            (r.rounds_left - 1) as nat
        } else {
            0
        },
        first_round: false,
        ..r
    };
    lemma_going_on_shuts_none(r2);
    assert(post.terminated == t.terminated);
    assert(t.terminated.contains(x) <==> s.terminated.contains(x) || pending.contains(x));
    if 0 <= i < pending.len() {
        let k = choose|k: int|
            s.out.len() <= k < t.out.len() && #[trigger] t.out[k] == (Effect::Stop {
                agent: pending[i],
            });
        assert(post.out[k] == t.out[k]);
    }
}

// ---- What is reported ------------------------------------------------------------------

/// Whoever on the roster has numbers is reported with them, under its name and role, in
/// the order of the roster; whoever has none is not.
pub proof fn law_everyone_with_numbers_is_reported<V>(
    roster: Seq<RosterEntry>,
    by_agent: Map<AgentId, V>,
    e: RosterEntry,
    i: int,
)
    ensures
        by_agent.dom().contains(e.agent) ==> reported_entries(roster.push(e), by_agent)
            == reported_entries(roster, by_agent).push(
            (e.label@ + " ("@ + role_name(e.role) + ")"@, by_agent[e.agent]),
        ),
        !by_agent.dom().contains(e.agent) ==> reported_entries(roster.push(e), by_agent)
            == reported_entries(roster, by_agent),
        reported_entries(Seq::empty(), by_agent).len() == 0,
        0 <= i < roster.len() && by_agent.dom().contains(roster[i].agent) ==> reported_entries(
            roster,
            by_agent,
        ).contains(
            (
                roster[i].label@ + " ("@ + role_name(roster[i].role) + ")"@,
                by_agent[roster[i].agent],
            ),
        ),
    decreases roster.len(),
{
    assert(roster.push(e).drop_last() =~= roster);
    if roster.len() > 0 {
        let t = roster.drop_last();
        law_everyone_with_numbers_is_reported(t, by_agent, e, i);
        if 0 <= i < roster.len() && by_agent.dom().contains(roster[i].agent) {
            let all = reported_entries(roster, by_agent);
            let x = (
                roster[i].label@ + " ("@ + role_name(roster[i].role) + ")"@,
                by_agent[roster[i].agent],
            );
            if i < t.len() {
                assert(t[i] == roster[i]);
                let b = reported_entries(t, by_agent);
                let k = choose|k: int| 0 <= k < b.len() && b[k] == x;
                assert(all[k] == x);
            } else {
                assert(all[all.len() - 1] == x);
            }
        }
    }
}

/// Every phase that sent prompts is reported under its own name, and no other.
pub proof fn law_every_phase_is_reported(p: PhaseStats, phase: PromptPhase, k: int)
    ensures
        phase_stats(p, phase) matches Some(stats) ==> phase_entries(p).contains(
            (phase_label(phase), stats),
        ),
        0 <= k < phase_entries(p).len() ==> exists|q: PromptPhase|
            phase_stats(p, q) is Some && phase_entries(p)[k] == (
                #[trigger] phase_label(q),
                phase_stats(p, q)->0,
            ),
        phase_entries(p).len() <= 5,
{
    let a = crate::machine::phase_entry(p, PromptPhase::Planning);
    let b = crate::machine::phase_entry(p, PromptPhase::PlanningSynthesis);
    let c = crate::machine::phase_entry(p, PromptPhase::Recommendation);
    let d = crate::machine::phase_entry(p, PromptPhase::VoteRepair);
    let e = crate::machine::phase_entry(p, PromptPhase::Execution);
    let all = phase_entries(p);
    let i1 = a.len() as int;
    let i2 = i1 + b.len();
    let i3 = i2 + c.len();
    let i4 = i3 + d.len();
    match phase {
        PromptPhase::Planning => if a.len() > 0 {
            assert(all[0] == a[0]);
        },
        PromptPhase::PlanningSynthesis => if b.len() > 0 {
            assert(all[i1] == b[0]);
        },
        PromptPhase::Recommendation => if c.len() > 0 {
            assert(all[i2] == c[0]);
        },
        PromptPhase::VoteRepair => if d.len() > 0 {
            assert(all[i3] == d[0]);
        },
        PromptPhase::Execution => if e.len() > 0 {
            assert(all[i4] == e[0]);
        },
    }
    if 0 <= k < all.len() {
        if k < i1 {
            assert(all[k] == (phase_label(PromptPhase::Planning), p.planning->0));
        } else if k < i2 {
            assert(all[k] == (phase_label(PromptPhase::PlanningSynthesis), p.synthesis->0));
        } else if k < i3 {
            assert(all[k] == (phase_label(PromptPhase::Recommendation), p.recommendation->0));
        } else if k < i4 {
            assert(all[k] == (phase_label(PromptPhase::VoteRepair), p.repair->0));
        } else {
            assert(all[k] == (phase_label(PromptPhase::Execution), p.execution->0));
        }
    }
}

/// When a run is over it is reported, with how it ended and all that was counted; and
/// it stays over.
pub proof fn law_runs_end_with_their_report(
    pre: State,
    outcome: RunOutcome,
    costs: CostReport,
    post: State,
)
    requires
        pre.stage == (StageView::Report { outcome }),
        step(pre, Input::Costs(costs), post),
    ensures
        post.stage == (StageView::Finished { outcome }),
        post.transcript == pre.transcript,
        post.out.len() == pre.out.len() + 1,
        exists|r: Reported|
            {
                &&& labelled(#[trigger] r.usage) == reported_entries(pre.roster, pre.usage)
                &&& labelled(r.prompts) == reported_entries(pre.roster, pre.prompts)
                &&& labelled(r.phases) == phase_entries(pre.phases)
                &&& post.out.last() matches Effect::Emit(Notice::SessionReport { markdown, summary })
                    && markdown == session_report(
                    pre.task,
                    pre.transcript,
                    pre.recommendation,
                    outcome,
                    pre.budget,
                    pre.report,
                    pre.changes,
                    pre.salvaged as nat,
                    costs,
                    r.usage,
                    r.prompts,
                    r.phases,
                )
            },
{
    let s = at_rest(pre);
    let r = choose|r: Reported| #[trigger]
        are_reported(r, s) && post == crate::machine::report_made(s, outcome, costs, r);
    reveal(crate::machine::report_notice);
    let n = crate::machine::report_notice(s, outcome, costs, r);
    assert(post.out.last() == Effect::Emit(n));
    assert(labelled(r.usage) == reported_entries(pre.roster, pre.usage));
    assert(labelled(r.prompts) == reported_entries(pre.roster, pre.prompts));
    assert(labelled(r.phases) == phase_entries(pre.phases));
}

} // verus!
