//! What holds of every run of the engine.
use vstd::prelude::*;
use crate::agent::Attachment;
use crate::blackboard::Utterance;
use crate::conductor::{entry_at, has_turn, plans, AgentId, RosterEntry};
use crate::event::UserCommand;
use crate::machine::{
    active, all_asked, all_timed_out, are_contributions, at_rest, ballot_read, command_note,
    command_taken, contributed, decided, discuss_on, discuss_rounds_on, discussion_begun, due,
    ends_turn, executor_entry, finals_after, got, in_phase, interact_on, interact_rounds_on,
    interaction_begun, job_begun, labels, logged, media_given, next_vote, notes_taken, opens_gate,
    passed_on, pending_after, reads_as, recommend, recommendation_begun, recommended, reply_is,
    round_begun, round_ended, round_over, round_recorded, round_step, rounds_set, salvage_noted,
    step, tally_step, tells_skills, timed_out, turn_done, turn_ended, turn_over, turn_step,
    turn_taken, turns_set, vote_source, Input, Job, Phase, Purpose, StageView, State,
};
use crate::recommend::{recommended_by, ExecutionVote, Recommendation};
use crate::report::RunOutcome;
use crate::scan::trim;

verus! {

/// Whether `b` starts with `a`.
pub open spec fn starts_as<A>(b: Seq<A>, a: Seq<A>) -> bool {
    a.len() <= b.len() && forall|i: int| 0 <= i < a.len() ==> a[i] == b[i]
}

/// Whether nothing that was recorded, told or shut down in `a` is lost in `b`,
/// and the roster is the same.
pub open spec fn keeps(a: State, b: State) -> bool {
    &&& b.roster == a.roster
    &&& starts_as(b.transcript, a.transcript)
    &&& starts_as(b.out, a.out)
    &&& forall|x: AgentId| a.terminated.contains(x) ==> b.terminated.contains(x)
}

/// Whether no agent that was shut down takes a turn of the discussion, takes
/// part in a round or is asked for a vote.
pub open spec fn live(s: State) -> bool {
    match s.stage {
        StageView::Turn { entry, purpose, .. } => (purpose == Purpose::Planning || purpose
            == Purpose::Vote) ==> !s.terminated.contains(entry.agent),
        StageView::Round { members, .. } => forall|i: int|
            0 <= i < members.len() ==> !s.terminated.contains((#[trigger] members[i]).agent),
        _ => true,
    }
}

proof fn lemma_discuss_on(s: State)
    ensures
        keeps(s, discuss_on(s)),
        discuss_on(s).phase == s.phase,
        live(discuss_on(s)),
    decreases s.max_turns - s.taken,
{
    if has_turn(s.speakers, s.max_turns, s.taken) {
        let e = entry_at(s.speakers, s.taken);
        if s.terminated.contains(e.agent) {
            lemma_discuss_on(turn_taken(s));
        }
    }
}

proof fn lemma_next_vote(s: State)
    ensures
        keeps(s, next_vote(s)),
        next_vote(s).phase == s.phase,
        live(next_vote(s)),
    decreases s.roster.len() - s.voter,
{
    if s.voter < s.roster.len() {
        let e = s.roster[s.voter as int];
        if !plans(e.role) || s.terminated.contains(e.agent) {
            lemma_next_vote(State { voter: s.voter + 1, ..s });
        }
    }
}

proof fn lemma_recommend(s: State)
    ensures
        keeps(s, recommend(s)),
        recommend(s).phase == Phase::Recommending,
        live(recommend(s)),
{
    let s1 = State { voter: 0, votes: Seq::empty(), ..in_phase(s, Phase::Recommending) };
    lemma_next_vote(s1);
}

proof fn lemma_all_asked(s: State, members: Seq<RosterEntry>, n: nat)
    ensures
        keeps(s, all_asked(s, members, n)),
        all_asked(s, members, n).phase == s.phase,
        all_asked(s, members, n).terminated == s.terminated,
    decreases n,
{
    if n > 0 {
        lemma_all_asked(s, members, (n - 1) as nat);
    }
}

proof fn lemma_round_begun(s: State)
    ensures
        keeps(s, round_begun(s)),
        round_begun(s).phase == s.phase,
        live(round_begun(s)),
{
    let members = active(s);
    lemma_all_asked(s, members, members.len());
    let keep = |e: RosterEntry| plans(e.role) && !s.terminated.contains(e.agent);
    assert forall|i: int| 0 <= i < members.len() implies !s.terminated.contains(
        (#[trigger] members[i]).agent,
    ) by {
        s.roster.lemma_filter_pred(keep, i);
    }
}

proof fn lemma_interact_on(s: State)
    ensures
        keeps(s, interact_on(s)),
        interact_on(s).phase == s.phase || interact_on(s).phase == Phase::Recommending,
        live(interact_on(s)),
{
    lemma_recommend(s);
}

proof fn lemma_rounds_on(s: State)
    ensures
        keeps(s, discuss_rounds_on(s)),
        discuss_rounds_on(s).phase == s.phase,
        live(discuss_rounds_on(s)),
        keeps(s, interact_rounds_on(s)),
        interact_rounds_on(s).phase == s.phase || interact_rounds_on(s).phase
            == Phase::Recommending,
        live(interact_rounds_on(s)),
{
    lemma_round_begun(s);
    lemma_recommend(s);
}

proof fn lemma_recorded(s: State, members: Seq<RosterEntry>, added: Seq<Utterance>, n: nat)
    ensures
        keeps(s, round_recorded(s, members, added, n)),
        round_recorded(s, members, added, n).phase == s.phase,
    decreases n,
{
    if n > 0 {
        lemma_recorded(s, members, added, (n - 1) as nat);
    }
}

proof fn lemma_round_over(s: State, members: Seq<RosterEntry>, added: Seq<Utterance>)
    ensures
        keeps(s, round_over(s, members, added)),
        round_over(s, members, added).phase == s.phase || round_over(s, members, added).phase
            == Phase::Recommending,
        live(round_over(s, members, added)),
{
    lemma_recorded(s, members, added, members.len());
    let s1 = round_recorded(s, members, added, members.len());
    let s2 = State {
        rounds_left: if s1.rounds_left > 0 {
            (s1.rounds_left - 1) as nat
        } else {
            0
        },
        first_round: false,
        ..s1
    };
    lemma_rounds_on(s2);
}

proof fn lemma_all_timed_out(s: State, agents: Seq<AgentId>)
    ensures
        keeps(s, all_timed_out(s, agents)),
        all_timed_out(s, agents).phase == s.phase,
    decreases agents.len(),
{
    if agents.len() > 0 {
        lemma_all_timed_out(s, agents.drop_last());
    }
}

proof fn lemma_notes_taken(s: State)
    ensures
        keeps(s, notes_taken(s)),
        notes_taken(s).phase == s.phase || notes_taken(s).phase == Phase::Recommending,
        live(notes_taken(s)),
{
    lemma_recommend(s);
    lemma_round_begun(s);
    lemma_interact_on(turn_taken(s));
}

proof fn lemma_turn_done(
    s: State,
    entry: RosterEntry,
    purpose: Purpose,
    said: Option<String>,
    u: Utterance,
    outcome: RunOutcome,
)
    ensures
        ({
            let t = turn_done(s, entry, purpose, said, u, outcome);
            keeps(s, t) && live(t) && (t.phase == s.phase || t.phase == Phase::Recommending
                || t.phase == Phase::Done)
        }),
{
    let s1 = contributed(s, entry, u);
    lemma_discuss_on(s1);
    lemma_interact_on(s1);
}

proof fn lemma_turn_ended(
    s: State,
    entry: RosterEntry,
    purpose: Purpose,
    said: Option<String>,
    post: State,
)
    requires
        turn_ended(s, entry, purpose, said, post),
    ensures
        keeps(s, post),
        live(post),
        post.phase == s.phase || post.phase == Phase::Recommending || post.phase == Phase::Done,
{
    let (u, o) = choose|u: Utterance, outcome: RunOutcome| #[trigger]
        reply_is(entry, purpose, said, u, outcome) && post == turn_done(
            s,
            entry,
            purpose,
            said,
            u,
            outcome,
        );
    lemma_turn_done(s, entry, purpose, said, u, o);
}

pub proof fn lemma_round_ended(
    s: State,
    members: Seq<RosterEntry>,
    finals: Map<AgentId, String>,
    post: State,
)
    requires
        round_ended(s, members, finals, post),
    ensures
        keeps(s, post),
        live(post),
        post.phase == s.phase || post.phase == Phase::Recommending,
{
    let added = choose|added: Seq<Utterance>| #[trigger]
        are_contributions(added, members, finals) && post == round_over(s, members, added);
    lemma_round_over(s, members, added);
}

/// Whether a command confirms an agent of the roster while the user is asked.
pub open spec fn confirms(s: State, c: UserCommand) -> bool {
    c matches UserCommand::ConfirmExecution { executor } && s.phase == Phase::AwaitingConfirmation
        && executor_entry(s.roster, trim(executor@)) is Some
}

proof fn lemma_decided(s: State, c: UserCommand, u: Utterance)
    ensures
        keeps(s, decided(s, c, u)),
        live(decided(s, c, u)),
        decided(s, c, u).phase == Phase::Executing ==> s.phase == Phase::Executing || confirms(
            s,
            c,
        ),
{
}

proof fn lemma_ballot(
    s: State,
    entry: RosterEntry,
    repair: bool,
    text: Seq<char>,
    v: ExecutionVote,
    source: Option<crate::recommend::VoteParseSource>,
)
    ensures
        ({
            let t = ballot_read(s, entry, repair, text, source, v);
            keeps(s, t) && live(t) && t.phase == s.phase
        }),
{
    let s1 = salvage_noted(s, entry.label@, repair, source);
    lemma_next_vote(State { votes: s1.votes.push(v), ..s1 });
    lemma_next_vote(logged(s1, "warn"@, entry.label@ + " returned no parseable vote"@));
}

/// Nothing that was recorded, told or shut down is ever lost, and the roster
/// stays as it is.
pub proof fn law_nothing_is_lost(pre: State, input: Input, post: State)
    requires
        step(pre, input, post),
    ensures
        keeps(pre, post),
{
    lemma_step(pre, input, post);
}

/// An agent that was shut down takes no turn of the discussion, takes part in
/// no round and is not asked for a vote.
pub proof fn law_shut_down_agents_stay_out(pre: State, input: Input, post: State)
    requires
        live(pre),
        step(pre, input, post),
    ensures
        live(post),
{
    lemma_step(pre, input, post);
}

/// The engine comes to execute in one way only: the user confirms, while asked
/// or before, an agent of the roster, and the engine waits for that decision.
pub proof fn law_execution_needs_confirmation(pre: State, input: Input, post: State)
    requires
        pre.phase != Phase::Executing,
        step(pre, input, post),
        post.phase == Phase::Executing,
    ensures
        match pre.stage {
            StageView::Gate => input matches Input::Command(c) && confirms(pre, c),
            StageView::Tally => pre.decision matches Some(c) && confirms(
                (State { phase: Phase::AwaitingConfirmation, ..pre }),
                c,
            ),
            _ => false,
        },
{
    lemma_step(pre, input, post);
}

proof fn lemma_turn_step(
    pre: State,
    entry: RosterEntry,
    purpose: Purpose,
    said: Option<String>,
    event: crate::agent::AgentEvent,
    post: State,
)
    requires
        pre.stage == (StageView::Turn { entry, purpose, said }),
        turn_step(pre, entry, purpose, said, event, post),
    ensures
        keeps(pre, post),
        live(pre) ==> live(post),
        post.phase == pre.phase || post.phase == Phase::Recommending || post.phase == Phase::Done,
{
    let s = at_rest(pre);
    if !tells_skills(event) && crate::agent::agent_of(event@) == entry.agent && ends_turn(event) {
        lemma_turn_ended(passed_on(s, event), entry, purpose, said, post);
    }
}

proof fn lemma_round_step(
    pre: State,
    members: Seq<RosterEntry>,
    pending: Seq<AgentId>,
    finals: Map<AgentId, String>,
    event: crate::agent::AgentEvent,
    post: State,
)
    requires
        pre.stage == (StageView::Round { members, pending, finals }),
        round_step(pre, members, pending, finals, event, post),
    ensures
        keeps(pre, post),
        live(pre) ==> live(post),
        post.phase == pre.phase || post.phase == Phase::Recommending,
{
    let s = at_rest(pre);
    if !tells_skills(event) && pending.contains(crate::agent::agent_of(event@)) {
        let left = pending_after(pending, event);
        let now = finals_after(finals, event);
        if left.len() == 0 {
            lemma_round_ended(passed_on(s, event), members, now, post);
        }
    }
}

proof fn lemma_tally_step(s: State, tallies: Seq<crate::recommend::Tally>, post: State)
    requires
        tally_step(s, tallies, post),
    ensures
        keeps(s, post),
        live(post),
        post.phase == Phase::Executing ==> s.phase == Phase::Executing || (s.decision matches Some(
            c,
        ) && confirms((State { phase: Phase::AwaitingConfirmation, ..s }), c)),
{
    if s.roster.len() > 0 {
        let (rec, u) = choose|rec: Recommendation, u: Utterance| #[trigger]
            recommended_by(rec, s.votes, labels(s.roster), tallies) && #[trigger] opens_gate(
                recommended(s, rec),
                u,
                post,
            );
        let r = recommended(s, rec);
        match r.decision {
            Some(c) => {
                lemma_decided(State { decision: None, ..r }, c, u);
            },
            None => {},
        }
    }
}

proof fn lemma_step(pre: State, input: Input, post: State)
    requires
        step(pre, input, post),
    ensures
        keeps(pre, post),
        live(pre) ==> live(post),
        pre.phase != Phase::Executing && post.phase == Phase::Executing ==> match pre.stage {
            StageView::Gate => input matches Input::Command(c) && confirms(pre, c),
            StageView::Tally => pre.decision matches Some(c) && confirms(
                (State { phase: Phase::AwaitingConfirmation, ..pre }),
                c,
            ),
            _ => false,
        },
{
    let s = at_rest(pre);
    match pre.stage {
        StageView::Notes => match input {
            Input::Command(c) => {
                let u = choose|u: Utterance| #[trigger]
                    command_note(c, u) && post == command_taken(s, c, u);
            },
            Input::NoCommand => {
                lemma_notes_taken(s);
            },
            _ => {},
        },
        StageView::Turn { entry, purpose, said } => match input {
            Input::Event(event) => {
                lemma_turn_step(pre, entry, purpose, said, event, post);
            },
            Input::TimedOut => {
                lemma_turn_ended(timed_out(s, entry.agent), entry, purpose, said, post);
            },
            Input::Closed => {
                lemma_turn_ended(turn_over(s, entry.agent, None, None), entry, purpose, said, post);
            },
            _ => {},
        },
        StageView::Round { members, pending, finals } => match input {
            Input::Event(event) => {
                lemma_round_step(pre, members, pending, finals, event, post);
            },
            Input::TimedOut => {
                lemma_all_timed_out(s, pending);
                lemma_round_ended(all_timed_out(s, pending), members, finals, post);
            },
            Input::Closed => {
                lemma_round_ended(s, members, finals, post);
            },
            _ => {},
        },
        StageView::Ballot { entry, repair, said } => match input {
            Input::Ballot(raw) => {
                let text = crate::machine::said_text(said);
                let source = vote_source(text, raw, labels(s.roster));
                let v = choose|v: ExecutionVote| #[trigger]
                    reads_as(s, entry, text, raw, v) && post == ballot_read(
                        s,
                        entry,
                        repair,
                        text,
                        source,
                        v,
                    );
                lemma_ballot(s, entry, repair, text, v, source);
            },
            _ => {},
        },
        StageView::Tally => match input {
            Input::Tallies(tallies) => {
                if tallies@.len() == s.roster.len() {
                    lemma_tally_step(s, tallies@, post);
                }
            },
            _ => {},
        },
        StageView::Gate => match input {
            Input::Command(c) => {
                let u = choose|u: Utterance| #[trigger]
                    command_note(c, u) && post == decided(s, c, u);
                lemma_decided(s, c, u);
            },
            _ => {},
        },
        _ => {},
    }
}

/// No run begins by executing.
pub proof fn law_no_run_begins_by_executing(s: State, task: Seq<char>, max_turns: nat)
    ensures
        discussion_begun(s, task, max_turns).phase == Phase::Planning,
        interaction_begun(s, task, max_turns).phase == Phase::Planning || interaction_begun(
            s,
            task,
            max_turns,
        ).phase == Phase::Recommending,
        recommendation_begun(s).phase == Phase::Recommending,
        live(discussion_begun(s, task, max_turns)),
        live(interaction_begun(s, task, max_turns)),
        live(recommendation_begun(s)),
{
    let d = job_begun(s, Job::Discuss, task);
    lemma_rounds_on(rounds_set(d, max_turns));
    lemma_discuss_on(turns_set(d, s.roster, max_turns));
    let i = job_begun(s, Job::Interactive, task);
    lemma_rounds_on(rounds_set(i, max_turns));
    lemma_interact_on(turns_set(i, crate::machine::planners(s.roster), max_turns));
    lemma_recommend(State { job: Job::Recommend, ..at_rest(s) });
}

/// Each shared file reaches each agent once: after a delivery nothing is due,
/// and of files that are shared later only those are.
pub proof fn law_files_are_delivered_once(s: State, agent: AgentId, more: Seq<Attachment>)
    requires
        got(s, agent) <= s.media.len() <= usize::MAX,
    ensures
        due(media_given(s, agent), agent) == Seq::<Attachment>::empty(),
        due(
            (State { media: s.media + more, ..media_given(s, agent) }),
            agent,
        ) == more,
{
    let s1 = media_given(s, agent);
    assert(due((State { media: s.media + more, ..s1 }), agent) =~= more);
}

/// However the replies came in, a round adds one contribution per planner to
/// the transcript, in the order of the roster.
pub proof fn law_rounds_are_recorded_in_order(
    s: State,
    members: Seq<RosterEntry>,
    finals: Map<AgentId, String>,
    post: State,
)
    requires
        round_ended(s, members, finals, post),
    ensures
        post.transcript.len() == s.transcript.len() + members.len(),
        starts_as(post.transcript, s.transcript),
        forall|i: int|
            0 <= i < members.len() ==> crate::machine::is_contribution(
                #[trigger] post.transcript[s.transcript.len() + i],
                members[i],
                crate::machine::final_of(finals, members[i].agent),
            ),
{
    let added = choose|added: Seq<Utterance>| #[trigger]
        are_contributions(added, members, finals) && post == round_over(s, members, added);
    lemma_recorded_text(s, members, added, members.len());
    let s1 = round_recorded(s, members, added, members.len());
    let s2 = State {
        rounds_left: if s1.rounds_left > 0 {
            (s1.rounds_left - 1) as nat
        } else {
            0
        },
        first_round: false,
        ..s1
    };
    lemma_rounds_say_nothing(s2);
    assert forall|i: int| 0 <= i < members.len() implies crate::machine::is_contribution(
        #[trigger] post.transcript[s.transcript.len() + i],
        members[i],
        crate::machine::final_of(finals, members[i].agent),
    ) by {
        assert(post.transcript[s.transcript.len() + i] == added[i]);
    }
}

proof fn lemma_recorded_text(s: State, members: Seq<RosterEntry>, added: Seq<Utterance>, n: nat)
    requires
        n <= added.len(),
    ensures
        round_recorded(s, members, added, n).transcript == s.transcript + added.take(n as int),
    decreases n,
{
    if n > 0 {
        lemma_recorded_text(s, members, added, (n - 1) as nat);
        assert(s.transcript + added.take(n as int) =~= (s.transcript + added.take(n - 1)).push(
            added[n - 1],
        ));
    } else {
        assert(s.transcript + added.take(0) =~= s.transcript);
    }
}

proof fn lemma_votes_say_nothing(s: State)
    ensures
        next_vote(s).transcript == s.transcript,
    decreases s.roster.len() - s.voter,
{
    if s.voter < s.roster.len() {
        let e = s.roster[s.voter as int];
        if !plans(e.role) || s.terminated.contains(e.agent) {
            lemma_votes_say_nothing(State { voter: s.voter + 1, ..s });
        }
    }
}

proof fn lemma_asking_says_nothing(s: State, members: Seq<RosterEntry>, n: nat)
    ensures
        all_asked(s, members, n).transcript == s.transcript,
    decreases n,
{
    if n > 0 {
        lemma_asking_says_nothing(s, members, (n - 1) as nat);
    }
}

proof fn lemma_rounds_say_nothing(s: State)
    ensures
        discuss_rounds_on(s).transcript == s.transcript,
        interact_rounds_on(s).transcript == s.transcript,
{
    lemma_asking_says_nothing(s, active(s), active(s).len());
    lemma_votes_say_nothing(
        State { voter: 0, votes: Seq::empty(), ..in_phase(s, Phase::Recommending) },
    );
}

} // verus!
