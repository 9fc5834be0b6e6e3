//! What holds of turns: whose turn it is, what is made of the agent's reports,
//! and what is left of the turn when it is over.
use vstd::prelude::*;
use crate::agent::AgentEvent;
use crate::blackboard::Utterance;
use crate::conductor::{entry_at, has_turn, AgentId, RosterEntry};
use crate::event::Notice;
use crate::machine::{
    at_rest, contributed, discuss_on, in_phase, interact_on, next_vote, passed_on, recommend,
    reply_is, step, timed_out, turn_done, turn_ended, turn_over, turn_taken, Effect, Input, Job,
    Phase, Purpose, StageView, State,
};
use crate::report::RunOutcome;
use crate::text::is_space;
use crate::text_laws::law_empty_turns_are_marked;

verus! {

/// Whether a report is a whole reply of an agent.
pub open spec fn is_reply(e: AgentEvent, agent: AgentId) -> bool {
    e matches AgentEvent::MessageFinal { agent: a, .. } && a == agent
}

/// Whether a report says that an agent's turn is over: it is complete, or the
/// agent failed for good, or its process ended.
pub open spec fn is_end(e: AgentEvent, agent: AgentId) -> bool {
    match e {
        AgentEvent::TurnComplete { agent: a, .. } => a == agent,
        AgentEvent::Error { agent: a, fatal, .. } => a == agent && fatal,
        AgentEvent::Exited { agent: a, .. } => a == agent,
        _ => false,
    }
}

/// Whether an input ends an agent's turn.
pub open spec fn ends(input: Input, agent: AgentId) -> bool {
    match input {
        Input::Event(e) => is_end(e, agent),
        Input::TimedOut => true,
        Input::Closed => true,
        _ => false,
    }
}

/// Whether the states are those of one turn while the agents report: it begins
/// with nothing said, and no report ends it.
pub open spec fn is_turn(
    entry: RosterEntry,
    purpose: Purpose,
    events: Seq<AgentEvent>,
    states: Seq<State>,
) -> bool {
    &&& states.len() == events.len() + 1
    &&& states[0].stage == (StageView::Turn { entry, purpose, said: None })
    &&& forall|i: int|
        0 <= i < events.len() ==> !is_end(#[trigger] events[i], entry.agent) && step(
            states[i],
            Input::Event(events[i]),
            states[i + 1],
        )
}

/// Whether `last` is the place of the last whole reply of an agent among
/// reports: -1 where there is none.
pub open spec fn is_last_reply(events: Seq<AgentEvent>, agent: AgentId, last: int) -> bool {
    &&& -1 <= last < events.len()
    &&& last >= 0 ==> is_reply(events[last], agent)
    &&& forall|i: int| last < i < events.len() ==> !is_reply(#[trigger] events[i], agent)
}

/// The reply at a place among reports.
pub open spec fn reply_at(events: Seq<AgentEvent>, last: int) -> Option<String> {
    if last >= 0 {
        Some(events[last]->MessageFinal_text)
    } else {
        None
    }
}

proof fn lemma_turn_keeps_the_last_reply(
    entry: RosterEntry,
    purpose: Purpose,
    events: Seq<AgentEvent>,
    states: Seq<State>,
    last: int,
)
    requires
        is_turn(entry, purpose, events, states),
        is_last_reply(events, entry.agent, last),
    ensures
        states.last().stage == (StageView::Turn {
            entry,
            purpose,
            said: reply_at(events, last),
        }),
        states.last().transcript == states[0].transcript,
        states.last().job == states[0].job,
        states.last().phase == states[0].phase,
        states.last().roster == states[0].roster,
        states.last().terminated == states[0].terminated,
        states.last().drafts == states[0].drafts,
        states.last().decision == states[0].decision,
    decreases events.len(),
{
    if events.len() > 0 {
        let n = events.len() - 1;
        let before = events.drop_last();
        let init = states.drop_last();
        assert(forall|i: int| 0 <= i < before.len() ==> before[i] == events[i]);
        assert forall|i: int| 0 <= i < before.len() implies !is_end(
            #[trigger] before[i],
            entry.agent,
        ) && step(init[i], Input::Event(before[i]), init[i + 1]) by {
            assert(!is_end(events[i], entry.agent));
        }
        assert(!is_end(events[n], entry.agent));
        if last == n {
            let prior = lemma_some_last_reply(before, entry.agent);
            lemma_turn_keeps_the_last_reply(entry, purpose, before, init, prior);
        } else {
            assert(is_last_reply(before, entry.agent, last));
            lemma_turn_keeps_the_last_reply(entry, purpose, before, init, last);
            assert(!is_reply(events[n], entry.agent));
        }
    }
}

proof fn lemma_some_last_reply(events: Seq<AgentEvent>, agent: AgentId) -> (last: int)
    ensures
        is_last_reply(events, agent, last),
    decreases events.len(),
{
    if events.len() == 0 {
        -1
    } else if is_reply(events.last(), agent) {
        events.len() - 1
    } else {
        let k = lemma_some_last_reply(events.drop_last(), agent);
        assert forall|i: int| k < i < events.len() implies !is_reply(#[trigger] events[i], agent) by {
            if i < events.len() - 1 {
                assert(events.drop_last()[i] == events[i]);
            }
        }
        k
    }
}

proof fn lemma_over(
    s: State,
    entry: RosterEntry,
    purpose: Purpose,
    said: Option<String>,
    post: State,
)
    requires
        turn_ended(s, entry, purpose, said, post),
    ensures
        match purpose {
            Purpose::Planning => {
                &&& post.transcript.len() == s.transcript.len() + 1
                &&& post.transcript.drop_last() == s.transcript
                &&& post.transcript.last().label == entry.label
                &&& post.transcript.last().role == entry.role
                &&& match said {
                    Some(text) => (exists|i: int|
                        0 <= i < text@.len() && !is_space(#[trigger] text@[i]))
                        ==> post.transcript.last().text@ == text@,
                    None => post.transcript.last().text@ == "(no output this turn)"@,
                }
            },
            Purpose::Vote => post.stage == (StageView::Ballot {
                entry,
                repair: false,
                said: said,
            }) && post.transcript == s.transcript,
            Purpose::VoteRepair => post.stage == (StageView::Ballot {
                entry,
                repair: true,
                said: said,
            }) && post.transcript == s.transcript,
            Purpose::Execution => {
                &&& post.phase == Phase::Done
                &&& post.stage matches StageView::Report { outcome }
                &&& outcome matches RunOutcome::Executed { executor, output }
                &&& executor == entry.label
                &&& match said {
                    Some(text) => output@ == text@,
                    None => output@.len() == 0,
                }
            },
        },
{
    let (u, o) = choose|u: Utterance, outcome: RunOutcome| #[trigger]
        reply_is(entry, purpose, said, u, outcome) && post == turn_done(
            s,
            entry,
            purpose,
            said,
            u,
            outcome,
        );
    if purpose == Purpose::Planning {
        let c = contributed(s, entry, u);
        lemma_going_on_records_nothing(c);
        match said {
            Some(text) => law_empty_turns_are_marked(text@),
            None => law_empty_turns_are_marked(Seq::empty()),
        }
        assert(post.transcript == s.transcript.push(u));
        assert(post.transcript.drop_last() =~= s.transcript);
    }
}

/// The state in which a turn is over that an input ended.
spec fn ended_by(pre: State, entry: RosterEntry, end: Input) -> State {
    let s = at_rest(pre);
    match end {
        Input::Event(e) => passed_on(s, e),
        Input::TimedOut => timed_out(s, entry.agent),
        _ => turn_over(s, entry.agent, None, None),
    }
}

proof fn lemma_ended_by(
    pre: State,
    entry: RosterEntry,
    purpose: Purpose,
    said: Option<String>,
    end: Input,
    post: State,
)
    requires
        pre.stage == (StageView::Turn { entry, purpose, said }),
        ends(end, entry.agent),
        step(pre, end, post),
    ensures
        turn_ended(ended_by(pre, entry, end), entry, purpose, said, post),
        ended_by(pre, entry, end).transcript == pre.transcript,
        ended_by(pre, entry, end).job == pre.job,
{
}

/// What counts of a turn is the last whole reply of its agent. It is recorded,
/// under the agent's label and role, where the turn was one of the discussion;
/// it is the ballot where it was a vote; it is the output where it was the
/// execution. Where the agent gave none, the discussion records that, and the
/// ballot and the output are empty.
pub proof fn law_the_last_reply_counts(
    entry: RosterEntry,
    purpose: Purpose,
    events: Seq<AgentEvent>,
    states: Seq<State>,
    last: int,
    end: Input,
    post: State,
)
    requires
        is_turn(entry, purpose, events, states),
        is_last_reply(events, entry.agent, last),
        ends(end, entry.agent),
        step(states.last(), end, post),
    ensures
        match purpose {
            Purpose::Planning => {
                &&& post.transcript.len() == states[0].transcript.len() + 1
                &&& post.transcript.drop_last() == states[0].transcript
                &&& post.transcript.last().label == entry.label
                &&& post.transcript.last().role == entry.role
                &&& match reply_at(events, last) {
                    Some(text) => (exists|i: int|
                        0 <= i < text@.len() && !is_space(#[trigger] text@[i]))
                        ==> post.transcript.last().text@ == text@,
                    None => post.transcript.last().text@ == "(no output this turn)"@,
                }
            },
            Purpose::Vote => post.stage == (StageView::Ballot {
                entry,
                repair: false,
                said: reply_at(events, last),
            }) && post.transcript == states[0].transcript,
            Purpose::VoteRepair => post.stage == (StageView::Ballot {
                entry,
                repair: true,
                said: reply_at(events, last),
            }) && post.transcript == states[0].transcript,
            Purpose::Execution => {
                &&& post.phase == Phase::Done
                &&& post.stage matches StageView::Report { outcome }
                &&& outcome matches RunOutcome::Executed { executor, output }
                &&& executor == entry.label
                &&& match reply_at(events, last) {
                    Some(text) => output@ == text@,
                    None => output@.len() == 0,
                }
            },
        },
{
    lemma_turn_keeps_the_last_reply(entry, purpose, events, states, last);
    let said = reply_at(events, last);
    lemma_ended_by(states.last(), entry, purpose, said, end, post);
    lemma_over(ended_by(states.last(), entry, end), entry, purpose, said, post);
}

proof fn lemma_going_on_records_nothing(s: State)
    ensures
        discuss_on(s).transcript == s.transcript,
        interact_on(s).transcript == s.transcript,
        recommend(s).transcript == s.transcript,
        discuss_on(s).last_seen == s.last_seen,
        interact_on(s).last_seen == s.last_seen,
    decreases s.max_turns - s.taken,
{
    lemma_votes_record_nothing(
        State {
            voter: 0,
            votes: Seq::empty(),
            ..in_phase(s, Phase::Recommending)
        },
    );
    if has_turn(s.speakers, s.max_turns, s.taken) {
        lemma_going_on_records_nothing(turn_taken(s));
    }
}

proof fn lemma_votes_record_nothing(s: State)
    ensures
        next_vote(s).transcript == s.transcript,
        next_vote(s).last_seen == s.last_seen,
    decreases s.roster.len() - s.voter,
{
    if s.voter < s.roster.len() {
        lemma_votes_record_nothing(State { voter: s.voter + 1, ..s });
    }
}

/// Whether a state differs from another in what is under way alone: what was
/// gathered of the agents is the same, and what was told is only more.
spec fn gathered(a: State, b: State) -> bool {
    &&& b.costs == a.costs && b.usage == a.usage && b.terminated == a.terminated
    &&& b.skills == a.skills && b.media == a.media && b.roster == a.roster
    &&& b.resumable == a.resumable && b.task == a.task && b.decision == a.decision
    &&& b.budget == a.budget && b.project == a.project && b.job == a.job
    &&& b.speakers == a.speakers && b.max_turns == a.max_turns
    &&& b.salvaged == a.salvaged
    &&& a.out.len() <= b.out.len()
    &&& forall|i: int| 0 <= i < a.out.len() ==> b.out[i] == a.out[i]
}

proof fn lemma_voting_gathers(s: State)
    ensures
        gathered(s, next_vote(s)),
    decreases s.roster.len() - s.voter,
{
    if s.voter < s.roster.len() {
        lemma_voting_gathers(State { voter: s.voter + 1, ..s });
    }
}

proof fn lemma_recommending_gathers(s: State)
    ensures
        gathered(s, recommend(s)),
        recommend(s).phase == Phase::Recommending,
{
    let t = State { voter: 0, votes: Seq::empty(), ..in_phase(s, Phase::Recommending) };
    lemma_voting_gathers(t);
    lemma_voting_phase(t);
}

proof fn lemma_voting_phase(s: State)
    ensures
        next_vote(s).phase == s.phase,
    decreases s.roster.len() - s.voter,
{
    if s.voter < s.roster.len() {
        lemma_voting_phase(State { voter: s.voter + 1, ..s });
    }
}

/// Where turns go on to: to the next agent that was not shut down, in order.
spec fn turn_goes_to(s: State, post: State, k: nat) -> bool {
    &&& s.taken <= k < s.max_turns
    &&& s.speakers.len() > 0
    &&& !s.terminated.contains(s.speakers[(k % s.speakers.len()) as int].agent)
    &&& forall|j: nat|
        s.taken <= j < k ==> s.terminated.contains(
            (#[trigger] s.speakers[(j % s.speakers.len()) as int]).agent,
        )
    &&& post.stage == (StageView::Turn {
        entry: s.speakers[(k % s.speakers.len()) as int],
        purpose: Purpose::Planning,
        said: None,
    })
    &&& post.taken == k + 1
}

proof fn lemma_discussing(s: State)
    ensures
        gathered(s, discuss_on(s)),
        discuss_on(s).stage is Report ==> discuss_on(s).stage->Report_outcome is Discussed && (
        forall|j: nat|
            s.taken <= j < s.max_turns && s.speakers.len() > 0 ==> s.terminated.contains(
                (#[trigger] s.speakers[(j % s.speakers.len()) as int]).agent,
            )),
        !(discuss_on(s).stage is Report) ==> exists|k: nat| #[trigger]
            turn_goes_to(s, discuss_on(s), k),
    decreases s.max_turns - s.taken,
{
    if has_turn(s.speakers, s.max_turns, s.taken) {
        let e = entry_at(s.speakers, s.taken);
        let t = turn_taken(s);
        if s.terminated.contains(e.agent) {
            lemma_discussing(t);
            assert(gathered(s, t));
            if !(discuss_on(s).stage is Report) {
                let k = choose|k: nat| #[trigger] turn_goes_to(t, discuss_on(t), k);
                assert(turn_goes_to(s, discuss_on(s), k));
            }
        } else {
            assert(turn_goes_to(s, discuss_on(s), s.taken));
        }
    }
}

proof fn lemma_over_gathers(
    s: State,
    entry: RosterEntry,
    purpose: Purpose,
    said: Option<String>,
    post: State,
)
    requires
        turn_ended(s, entry, purpose, said, post),
    ensures
        gathered(s, post),
{
    let (u, o) = choose|u: Utterance, outcome: RunOutcome| #[trigger]
        reply_is(entry, purpose, said, u, outcome) && post == turn_done(
            s,
            entry,
            purpose,
            said,
            u,
            outcome,
        );
    if purpose == Purpose::Planning {
        let c = contributed(s, entry, u);
        lemma_discussing(c);
        lemma_recommending_gathers(c);
    }
}

/// The agent that a report is about.
pub open spec fn about(e: AgentEvent) -> AgentId {
    match e {
        AgentEvent::SessionReady { agent, .. } => agent,
        AgentEvent::Skills { agent, .. } => agent,
        AgentEvent::TurnStarted { agent, .. } => agent,
        AgentEvent::TokenDelta { agent, .. } => agent,
        AgentEvent::MessageFinal { agent, .. } => agent,
        AgentEvent::ToolCall { agent, .. } => agent,
        AgentEvent::TurnComplete { agent, .. } => agent,
        AgentEvent::Error { agent, .. } => agent,
        AgentEvent::Exited { agent, .. } => agent,
    }
}

/// What the outside world is told of a report on a turn, if anything.
pub open spec fn telling(e: AgentEvent) -> Option<Notice> {
    match e {
        AgentEvent::TokenDelta { agent, text, .. } => Some(Notice::Token { agent, text: text@ }),
        AgentEvent::MessageFinal { agent, text, .. } => Some(
            Notice::Message { agent, text: text@ },
        ),
        AgentEvent::ToolCall { agent, name, .. } => Some(
            Notice::ToolActivity { agent, summary: name@ },
        ),
        AgentEvent::TurnComplete { agent, cost_usd, token_usage, .. } => Some(
            Notice::TurnComplete { agent, cost_usd, token_usage },
        ),
        AgentEvent::Error { message, fatal, .. } => Some(
            Notice::Log {
                level: if fatal {
                    "error"@
                } else {
                    "warn"@
                },
                msg: message@,
            },
        ),
        AgentEvent::Exited { agent, code } => Some(Notice::AgentExited { agent, code }),
        _ => None,
    }
}

proof fn lemma_passed_on(s: State, e: AgentEvent)
    ensures
        telling(e) matches Some(n) ==> passed_on(s, e).out.len() > s.out.len() && passed_on(
            s,
            e,
        ).out[s.out.len() as int] == Effect::Emit(n),
        telling(e) is None ==> passed_on(s, e) == s,
        forall|i: int| 0 <= i < s.out.len() ==> passed_on(s, e).out[i] == s.out[i],
        passed_on(s, e).terminated == s.terminated,
        passed_on(s, e).skills == s.skills,
        passed_on(s, e).costs == (match e {
            AgentEvent::TurnComplete { agent, cost_usd: Some(c), .. } => s.costs.insert(agent, c),
            _ => s.costs,
        }),
        passed_on(s, e).usage == (match e {
            AgentEvent::TurnComplete { agent, token_usage: Some(u), .. } => s.usage.insert(
                agent,
                if s.usage.dom().contains(agent) {
                    crate::usage::add_usage(s.usage[agent], u)
                } else {
                    crate::usage::add_usage(crate::usage::no_usage(), u)
                },
            ),
            _ => s.usage,
        }),
{
}

/// While an agent's turn is under way, its reports are told as they come, and
/// what another agent reports is passed over, but for its skills, which are kept
/// whenever they are told. What a turn cost replaces what the session cost
/// before, and what it used is added to what was used before. No report shuts an
/// agent down.
pub proof fn law_reports_are_told_and_counted(
    pre: State,
    entry: RosterEntry,
    purpose: Purpose,
    said: Option<String>,
    e: AgentEvent,
    post: State,
)
    requires
        pre.stage == (StageView::Turn { entry, purpose, said }),
        step(pre, Input::Event(e), post),
    ensures
        about(e) != entry.agent && !(e is Skills) ==> post == pre,
        e is Skills ==> post.skills == pre.skills.insert(about(e), e->Skills_skills) && post.stage
            == pre.stage && post.transcript == pre.transcript,
        !(e is Skills) ==> post.skills == pre.skills,
        about(e) == entry.agent ==> (telling(e) matches Some(n) ==> post.out.len() > pre.out.len()
            && post.out[pre.out.len() as int] == Effect::Emit(n)),
        post.terminated == pre.terminated,
        post.costs == (match e {
            AgentEvent::TurnComplete { agent, cost_usd: Some(c), .. } => if agent == entry.agent {
                pre.costs.insert(agent, c)
            } else {
                pre.costs
            },
            _ => pre.costs,
        }),
        match e {
            AgentEvent::TurnComplete { agent, token_usage: Some(u), .. } => agent == entry.agent
                ==> {
                &&& post.usage.dom() == pre.usage.dom().insert(agent)
                &&& post.usage[agent] == (if pre.usage.dom().contains(agent) {
                    crate::usage::add_usage(pre.usage[agent], u)
                } else {
                    crate::usage::add_usage(crate::usage::no_usage(), u)
                })
            },
            _ => post.usage == pre.usage,
        },
{
    let s = at_rest(pre);
    lemma_passed_on(s, e);
    if e is Skills {
    } else if about(e) == entry.agent && is_end(e, entry.agent) {
        lemma_ended_by(pre, entry, purpose, said, Input::Event(e), post);
        lemma_over_gathers(passed_on(s, e), entry, purpose, said, post);
    }
    if let AgentEvent::TurnComplete { agent, token_usage: Some(u), .. } = e {
        if agent == entry.agent {
            assert(post.usage.dom() =~= pre.usage.dom().insert(agent));
        }
    }
}

/// An agent whose turn takes too long is shut down, and it alone.
pub proof fn law_slow_agents_are_shut_down(
    pre: State,
    entry: RosterEntry,
    purpose: Purpose,
    said: Option<String>,
    post: State,
)
    requires
        pre.stage == (StageView::Turn { entry, purpose, said }),
        step(pre, Input::TimedOut, post),
    ensures
        post.terminated == pre.terminated.insert(entry.agent),
        exists|k: int|
            pre.out.len() <= k < post.out.len() && #[trigger] post.out[k] == (Effect::Stop {
                agent: entry.agent,
            }),
        post.costs == pre.costs,
        post.usage == pre.usage,
{
    let s = at_rest(pre);
    let t = timed_out(s, entry.agent);
    lemma_ended_by(pre, entry, purpose, said, Input::TimedOut, post);
    lemma_over_gathers(t, entry, purpose, said, post);
    assert(t.out[(pre.out.len() + 1) as int] == (Effect::Stop { agent: entry.agent }));
    assert(post.out[(pre.out.len() + 1) as int] == t.out[(pre.out.len() + 1) as int]);
}

// ---- Whose turn it is ------------------------------------------------------------

/// Whether a state started a turn of an agent after the first `from` effects.
pub open spec fn started_for(s: State, from: int, k: int, agent: AgentId) -> bool {
    from <= k < s.out.len() && (s.out[k] matches Effect::Start { agent: a, .. } && a == agent)
}

/// In an interactive discussion in turns, the next turn is that of the agent
/// whose place follows, and turns are given out until there are no more; an agent
/// that was shut down is passed over, and counts as having had its turn. When
/// none is left the agents are asked for their votes.
pub proof fn law_turns_go_round(pre: State, post: State)
    requires
        pre.stage is Notes,
        !pre.in_rounds,
        step(pre, Input::NoCommand, post),
    ensures
        pre.speakers.len() == 0 || pre.taken >= pre.max_turns ==> post.phase == Phase::Recommending,
        pre.speakers.len() > 0 && pre.taken < pre.max_turns ==> {
            let e = pre.speakers[(pre.taken % pre.speakers.len()) as int];
            &&& post.taken == pre.taken + 1
            &&& !pre.terminated.contains(e.agent) ==> {
                &&& post.stage == (StageView::Turn {
                    entry: e,
                    purpose: Purpose::Planning,
                    said: None,
                })
                &&& exists|k: int| #[trigger]
                    started_for(post, pre.out.len() as int, k, e.agent)
            }
            &&& pre.terminated.contains(e.agent) ==> if pre.taken + 1 < pre.max_turns {
                post.stage is Notes
            } else {
                post.phase == Phase::Recommending
            }
        },
{
    let s = at_rest(pre);
    lemma_recommending_gathers(s);
    lemma_recommending_gathers(turn_taken(s));
    lemma_recommending_takes_none(s);
    lemma_recommending_takes_none(turn_taken(s));
    if has_turn(s.speakers, s.max_turns, s.taken) {
        let e = entry_at(s.speakers, s.taken);
        if !s.terminated.contains(e.agent) {
            assert(started_for(post, pre.out.len() as int, (pre.out.len() + 2) as int, e.agent));
        }
    }
}

proof fn lemma_recommending_takes_none(s: State)
    ensures
        recommend(s).taken == s.taken,
{
    lemma_voting_takes_none(
        State { voter: 0, votes: Seq::empty(), ..in_phase(s, Phase::Recommending) },
    );
}

proof fn lemma_voting_takes_none(s: State)
    ensures
        next_vote(s).taken == s.taken,
    decreases s.roster.len() - s.voter,
{
    if s.voter < s.roster.len() {
        lemma_voting_takes_none(State { voter: s.voter + 1, ..s });
    }
}

/// Whether `k` is the place of the next turn after `taken`: the first that is
/// left whose agent was not shut down.
pub open spec fn next_place(
    speakers: Seq<RosterEntry>,
    terminated: Set<AgentId>,
    taken: nat,
    max_turns: nat,
    k: nat,
) -> bool {
    &&& taken <= k < max_turns
    &&& speakers.len() > 0
    &&& !terminated.contains(speakers[(k % speakers.len()) as int].agent)
    &&& forall|j: nat|
        taken <= j < k ==> terminated.contains(
            (#[trigger] speakers[(j % speakers.len()) as int]).agent,
        )
}

/// In a discussion alone that goes in turns, the end of a turn leads to the next
/// agent in order that was not shut down; the discussion ends where there is
/// none, and only there.
pub proof fn law_discussions_go_round(
    pre: State,
    entry: RosterEntry,
    said: Option<String>,
    end: Input,
    post: State,
)
    requires
        pre.stage == (StageView::Turn { entry, purpose: Purpose::Planning, said }),
        pre.job == Job::Discuss,
        ends(end, entry.agent),
        step(pre, end, post),
    ensures
        match post.stage {
            StageView::Turn { entry: e, purpose, .. } => purpose == Purpose::Planning && exists|
                k: nat,
            | #[trigger]
                next_place(pre.speakers, post.terminated, pre.taken, pre.max_turns, k) && e
                    == pre.speakers[(k % pre.speakers.len()) as int] && post.taken == k + 1,
            StageView::Report { outcome } => outcome is Discussed && forall|k: nat|
                !#[trigger] next_place(pre.speakers, post.terminated, pre.taken, pre.max_turns, k),
            _ => false,
        },
{
    let t = ended_by(pre, entry, end);
    lemma_ended_by(pre, entry, Purpose::Planning, said, end, post);
    lemma_over_gathers(t, entry, Purpose::Planning, said, post);
    let (u, o) = choose|u: Utterance, outcome: RunOutcome| #[trigger]
        reply_is(entry, Purpose::Planning, said, u, outcome) && post == turn_done(
            t,
            entry,
            Purpose::Planning,
            said,
            u,
            outcome,
        );
    let c = contributed(t, entry, u);
    lemma_discussing(c);
    if post.stage is Report {
        assert forall|k: nat|
            !#[trigger] next_place(
                pre.speakers,
                post.terminated,
                pre.taken,
                pre.max_turns,
                k,
            ) by {}
    } else {
        let k = choose|k: nat| #[trigger] turn_goes_to(c, post, k);
        assert(next_place(pre.speakers, post.terminated, pre.taken, pre.max_turns, k));
    }
}

/// Whoever contributes has seen all up to its own contribution, and nobody else
/// has seen more than before.
pub proof fn law_speakers_have_seen_what_they_said(
    pre: State,
    entry: RosterEntry,
    said: Option<String>,
    end: Input,
    post: State,
)
    requires
        pre.stage == (StageView::Turn { entry, purpose: Purpose::Planning, said }),
        ends(end, entry.agent),
        step(pre, end, post),
    ensures
        post.last_seen == pre.last_seen.insert(entry.agent, (pre.transcript.len() + 1) as usize),
{
    let t = ended_by(pre, entry, end);
    lemma_ended_by(pre, entry, Purpose::Planning, said, end, post);
    let (u, o) = choose|u: Utterance, outcome: RunOutcome| #[trigger]
        reply_is(entry, Purpose::Planning, said, u, outcome) && post == turn_done(
            t,
            entry,
            Purpose::Planning,
            said,
            u,
            outcome,
        );
    lemma_going_on_records_nothing(contributed(t, entry, u));
}

} // verus!
