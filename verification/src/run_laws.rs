//! What holds of a whole interactive run, from its beginning to its outcome.
use vstd::prelude::*;
use crate::agent::AgentEvent;
use crate::blackboard::Utterance;
use crate::conductor::{AgentId, RosterEntry};
use crate::engine_laws::confirms;
use crate::event::UserCommand;
use crate::machine::{
    active, all_asked, all_timed_out, are_contributions, at_rest, ballot_read, ballot_step,
    command_note, command_taken, contributed, decided, ends_turn, executor_entry, finals_after,
    gate_opened, in_phase, interact_on, interact_rounds_on, interaction_begun, job_begun, labels,
    logged, next_vote, notes_taken, opens_gate, passed_on, pending_after, planners, reads_as,
    recommend, recommended, reply_is, round_begun, round_ended, round_over, round_recorded,
    round_step, rounds_set, said_text, salvage_noted, step, tally_step, tells_skills, timed_out,
    turn_done, turn_ended, turn_over, turn_step, turn_taken, turns_set, vote_source, Input, Job,
    Phase, Purpose, StageView, State,
};
use crate::recommend::{recommended_by, ExecutionVote, Recommendation, Tally};
use crate::report::RunOutcome;
use crate::scan::trim;
use crate::text::same_ci;

verus! {

// ---- Runs ----------------------------------------------------------------------

/// Whether the states are those of an interactive run that begins at `start`
/// and takes in the inputs one after the other.
pub open spec fn is_run(
    start: State,
    task: Seq<char>,
    max_turns: nat,
    inputs: Seq<Input>,
    states: Seq<State>,
) -> bool {
    &&& states.len() == inputs.len() + 1
    &&& states[0] == interaction_begun(start, task, max_turns)
    &&& forall|i: int|
        0 <= i < inputs.len() ==> step(#[trigger] states[i], inputs[i], states[i + 1])
}

/// Whether a run received a command: among its inputs, or before it began, where
/// a decision was pending then.
pub open spec fn received(start: State, inputs: Seq<Input>, c: UserCommand) -> bool {
    start.decision == Some(c) || exists|i: int|
        0 <= i < inputs.len() && #[trigger] inputs[i] == Input::Command(c)
}

/// Whether a command confirms an agent of a roster by its label, whatever the
/// case of the letters and the space round it.
pub open spec fn names_executor(
    roster: Seq<RosterEntry>,
    c: UserCommand,
    entry: RosterEntry,
) -> bool {
    c matches UserCommand::ConfirmExecution { executor } && executor_entry(
        roster,
        trim(executor@),
    ) == Some(entry)
}

/// Whether an agent was confirmed by a command that was heard.
pub open spec fn approved(
    roster: Seq<RosterEntry>,
    heard: spec_fn(UserCommand) -> bool,
    entry: RosterEntry,
) -> bool {
    exists|c: UserCommand| #[trigger] heard(c) && names_executor(roster, c, entry)
}

/// Whether an outcome follows from commands that were heard.
pub open spec fn justified(
    roster: Seq<RosterEntry>,
    heard: spec_fn(UserCommand) -> bool,
    outcome: RunOutcome,
    phase: Phase,
) -> bool {
    match outcome {
        RunOutcome::Executed { executor, .. } => phase == Phase::Done && exists|e: RosterEntry|
            #[trigger] approved(roster, heard, e) && e.label == executor,
        RunOutcome::Rejected => phase == Phase::Done && heard(UserCommand::Reject),
        RunOutcome::Aborted => true,
        RunOutcome::Discussed => false,
    }
}

/// What holds of every state of an interactive run.
pub open spec fn on_course(
    roster: Seq<RosterEntry>,
    heard: spec_fn(UserCommand) -> bool,
    s: State,
) -> bool {
    &&& s.roster == roster
    &&& s.job == Job::Interactive
    &&& (s.decision matches Some(c) ==> heard(c))
    &&& match s.stage {
        StageView::Turn { entry, purpose, .. } => purpose == Purpose::Execution ==> approved(
            roster,
            heard,
            entry,
        ),
        StageView::Report { outcome } => justified(roster, heard, outcome, s.phase),
        StageView::Finished { outcome } => justified(roster, heard, outcome, s.phase),
        _ => true,
    }
}

// ---- What the parts of a step leave alone ---------------------------------------

/// Whether two states belong to the same job on the same roster with the same
/// decision pending.
spec fn same_run(a: State, b: State) -> bool {
    b.roster == a.roster && b.job == a.job && b.decision == a.decision
}

/// Whether a state neither executes nor reports.
spec fn underway(s: State) -> bool {
    match s.stage {
        StageView::Turn { purpose, .. } => purpose != Purpose::Execution,
        StageView::Report { .. } => false,
        StageView::Finished { .. } => false,
        _ => true,
    }
}

proof fn lemma_next_vote(s: State)
    ensures
        same_run(s, next_vote(s)),
        underway(next_vote(s)),
    decreases s.roster.len() - s.voter,
{
    if s.voter < s.roster.len() {
        lemma_next_vote(State { voter: s.voter + 1, ..s });
    }
}

proof fn lemma_recommend(s: State)
    ensures
        same_run(s, recommend(s)),
        underway(recommend(s)),
{
    lemma_next_vote(
        State { voter: 0, votes: Seq::empty(), ..in_phase(s, Phase::Recommending) },
    );
}

proof fn lemma_all_asked(s: State, members: Seq<RosterEntry>, n: nat)
    ensures
        same_run(s, all_asked(s, members, n)),
    decreases n,
{
    if n > 0 {
        lemma_all_asked(s, members, (n - 1) as nat);
    }
}

proof fn lemma_round_begun(s: State)
    ensures
        same_run(s, round_begun(s)),
        underway(round_begun(s)),
{
    lemma_all_asked(s, active(s), active(s).len());
}

proof fn lemma_recorded(s: State, members: Seq<RosterEntry>, added: Seq<Utterance>, n: nat)
    ensures
        same_run(s, round_recorded(s, members, added, n)),
    decreases n,
{
    if n > 0 {
        lemma_recorded(s, members, added, (n - 1) as nat);
    }
}

proof fn lemma_all_timed_out(s: State, agents: Seq<AgentId>)
    ensures
        same_run(s, all_timed_out(s, agents)),
    decreases agents.len(),
{
    if agents.len() > 0 {
        lemma_all_timed_out(s, agents.drop_last());
    }
}

proof fn lemma_on(s: State)
    ensures
        same_run(s, interact_on(s)),
        underway(interact_on(s)),
        same_run(s, interact_rounds_on(s)),
        underway(interact_rounds_on(s)),
{
    lemma_recommend(s);
}

proof fn lemma_notes_taken(s: State)
    ensures
        same_run(s, notes_taken(s)),
        underway(notes_taken(s)),
{
    lemma_recommend(s);
    lemma_round_begun(s);
    lemma_on(turn_taken(s));
}

proof fn lemma_round_ended(
    s: State,
    members: Seq<RosterEntry>,
    finals: Map<AgentId, String>,
    post: State,
)
    requires
        s.job == Job::Interactive,
        round_ended(s, members, finals, post),
    ensures
        same_run(s, post),
        underway(post),
{
    let added = choose|added: Seq<Utterance>| #[trigger]
        are_contributions(added, members, finals) && post == round_over(s, members, added);
    lemma_recorded(s, members, added, members.len());
    let s1 = round_recorded(s, members, added, members.len());
    lemma_on(
        State {
            rounds_left: if s1.rounds_left > 0 {
                (s1.rounds_left - 1) as nat
            } else {
                0
            },
            first_round: false,
            ..s1
        },
    );
}

proof fn lemma_ballot_step(
    s: State,
    entry: RosterEntry,
    repair: bool,
    said: Option<String>,
    raw: Option<crate::recommend::RawVote>,
    post: State,
)
    requires
        ballot_step(s, entry, repair, said, raw, post),
    ensures
        same_run(s, post),
        underway(post),
{
    let text = said_text(said);
    let source = vote_source(text, raw, labels(s.roster));
    let v = choose|v: ExecutionVote| #[trigger]
        reads_as(s, entry, text, raw, v) && post == ballot_read(s, entry, repair, text, source, v);
    let s1 = salvage_noted(s, entry.label@, repair, source);
    lemma_next_vote(State { votes: s1.votes.push(v), ..s1 });
    lemma_next_vote(logged(s1, "warn"@, entry.label@ + " returned no parseable vote"@));
}

// ---- A step stays on course -------------------------------------------------------

proof fn lemma_turn_ended(
    roster: Seq<RosterEntry>,
    heard: spec_fn(UserCommand) -> bool,
    s: State,
    entry: RosterEntry,
    purpose: Purpose,
    said: Option<String>,
    post: State,
)
    requires
        s.roster == roster,
        s.job == Job::Interactive,
        s.decision matches Some(c) ==> heard(c),
        purpose == Purpose::Execution ==> approved(roster, heard, entry),
        turn_ended(s, entry, purpose, said, post),
    ensures
        on_course(roster, heard, post),
{
    let (u, o) = choose|u: Utterance, outcome: RunOutcome| #[trigger]
        reply_is(entry, purpose, said, u, outcome) && post == turn_done(
            s,
            entry,
            purpose,
            said,
            u,
            outcome,
        );
    lemma_on(contributed(s, entry, u));
    if purpose == Purpose::Execution {
        assert(approved(roster, heard, entry));
    }
}

proof fn lemma_decided(
    roster: Seq<RosterEntry>,
    heard: spec_fn(UserCommand) -> bool,
    s: State,
    c: UserCommand,
    u: Utterance,
)
    requires
        s.roster == roster,
        s.job == Job::Interactive,
        s.decision matches Some(d) ==> heard(d),
        heard(c),
    ensures
        on_course(roster, heard, decided(s, c, u)),
{
    if confirms(s, c) {
        let executor = c->ConfirmExecution_executor;
        let entry = executor_entry(roster, trim(executor@))->Some_0;
        assert(names_executor(roster, c, entry));
        assert(approved(roster, heard, entry));
    }
}

proof fn lemma_tally_step(
    roster: Seq<RosterEntry>,
    heard: spec_fn(UserCommand) -> bool,
    s: State,
    tallies: Seq<Tally>,
    post: State,
)
    requires
        s.roster == roster,
        s.job == Job::Interactive,
        s.decision matches Some(c) ==> heard(c),
        tally_step(s, tallies, post),
    ensures
        on_course(roster, heard, post),
{
    if s.roster.len() > 0 {
        let (rec, u) = choose|rec: Recommendation, u: Utterance| #[trigger]
            recommended_by(rec, s.votes, labels(s.roster), tallies) && #[trigger] opens_gate(
                recommended(s, rec),
                u,
                post,
            );
        let r = recommended(s, rec);
        assert(post == gate_opened(r, u));
        match r.decision {
            Some(c) => {
                lemma_decided(roster, heard, State { decision: None, ..r }, c, u);
            },
            None => {},
        }
    }
}

proof fn lemma_step_stays_on_course(
    roster: Seq<RosterEntry>,
    heard: spec_fn(UserCommand) -> bool,
    pre: State,
    input: Input,
    post: State,
)
    requires
        on_course(roster, heard, pre),
        input matches Input::Command(c) ==> heard(c),
        step(pre, input, post),
    ensures
        on_course(roster, heard, post),
{
    let s = at_rest(pre);
    match pre.stage {
        StageView::Notes => match input {
            Input::Command(c) => {
                let u = choose|u: Utterance| #[trigger]
                    command_note(c, u) && post == command_taken(s, c, u);
            },
            Input::NoCommand => {
                lemma_notes_taken(s);
            },
            _ => {},
        },
        StageView::Turn { entry, purpose, said } => match input {
            Input::Event(event) => {
                lemma_turn_event(roster, heard, pre, entry, purpose, said, event, post);
            },
            Input::TimedOut => {
                let t = timed_out(s, entry.agent);
                lemma_turn_ended(roster, heard, t, entry, purpose, said, post);
            },
            Input::Closed => {
                let t = turn_over(s, entry.agent, None, None);
                lemma_turn_ended(roster, heard, t, entry, purpose, said, post);
            },
            _ => {},
        },
        StageView::Round { members, pending, finals } => match input {
            Input::Event(event) => {
                lemma_round_event(pre, members, pending, finals, event, post);
            },
            Input::TimedOut => {
                lemma_all_timed_out(s, pending);
                lemma_round_ended(all_timed_out(s, pending), members, finals, post);
            },
            Input::Closed => {
                lemma_round_ended(s, members, finals, post);
            },
            _ => {},
        },
        StageView::Ballot { entry, repair, said } => match input {
            Input::Ballot(raw) => {
                lemma_ballot_step(s, entry, repair, said, raw, post);
            },
            _ => {},
        },
        StageView::Tally => match input {
            Input::Tallies(tallies) => {
                if tallies@.len() == s.roster.len() {
                    lemma_tally_step(roster, heard, s, tallies@, post);
                }
            },
            _ => {},
        },
        StageView::Gate => match input {
            Input::Command(c) => {
                let u = choose|u: Utterance| #[trigger]
                    command_note(c, u) && post == decided(s, c, u);
                lemma_decided(roster, heard, s, c, u);
            },
            _ => {},
        },
        _ => {},
    }
}

proof fn lemma_turn_event(
    roster: Seq<RosterEntry>,
    heard: spec_fn(UserCommand) -> bool,
    pre: State,
    entry: RosterEntry,
    purpose: Purpose,
    said: Option<String>,
    event: AgentEvent,
    post: State,
)
    requires
        on_course(roster, heard, pre),
        pre.stage == (StageView::Turn { entry, purpose, said }),
        turn_step(pre, entry, purpose, said, event, post),
    ensures
        on_course(roster, heard, post),
{
    let s = at_rest(pre);
    if !tells_skills(event) && crate::agent::agent_of(event@) == entry.agent && ends_turn(event) {
        lemma_turn_ended(roster, heard, passed_on(s, event), entry, purpose, said, post);
    }
}

proof fn lemma_round_event(
    pre: State,
    members: Seq<RosterEntry>,
    pending: Seq<AgentId>,
    finals: Map<AgentId, String>,
    event: AgentEvent,
    post: State,
)
    requires
        pre.job == Job::Interactive,
        pre.stage == (StageView::Round { members, pending, finals }),
        round_step(pre, members, pending, finals, event, post),
    ensures
        same_run(pre, post),
        underway(post),
{
    let s = at_rest(pre);
    if !tells_skills(event) && pending.contains(crate::agent::agent_of(event@)) {
        let left = pending_after(pending, event);
        if left.len() == 0 {
            lemma_round_ended(passed_on(s, event), members, finals_after(finals, event), post);
        }
    }
}

proof fn lemma_runs_stay_on_course(
    start: State,
    task: Seq<char>,
    max_turns: nat,
    inputs: Seq<Input>,
    states: Seq<State>,
    n: int,
)
    requires
        is_run(start, task, max_turns, inputs, states),
        0 <= n < states.len(),
    ensures
        on_course(start.roster, |c: UserCommand| received(start, inputs, c), states[n]),
    decreases n,
{
    let heard = |c: UserCommand| received(start, inputs, c);
    if n == 0 {
        let s = job_begun(start, Job::Interactive, task);
        lemma_on(rounds_set(s, max_turns));
        lemma_on(turns_set(s, planners(start.roster), max_turns));
    } else {
        lemma_runs_stay_on_course(start, task, max_turns, inputs, states, n - 1);
        assert(step(states[n - 1], inputs[n - 1], states[n - 1 + 1]));
        lemma_step_stays_on_course(
            start.roster,
            heard,
            states[n - 1],
            inputs[n - 1],
            states[n],
        );
    }
}

// ---- Laws ------------------------------------------------------------------------

/// A run ends as the user decided. An execution was confirmed by a command that
/// the run received, under the label of an agent of the roster, and the engine is
/// done; a rejection was asked for. A run that received neither a confirmation
/// nor a rejection is aborted, where it ends with an outcome at all.
pub proof fn law_runs_end_as_the_user_decided(
    start: State,
    task: Seq<char>,
    max_turns: nat,
    inputs: Seq<Input>,
    states: Seq<State>,
)
    requires
        is_run(start, task, max_turns, inputs, states),
    ensures
        states.last().stage matches StageView::Finished { outcome } ==> match outcome {
            RunOutcome::Executed { executor, .. } => {
                &&& states.last().phase == Phase::Done
                &&& exists|c: UserCommand, e: RosterEntry| #[trigger]
                    received(start, inputs, c) && #[trigger] names_executor(start.roster, c, e)
                        && start.roster.contains(e) && e.label == executor
            },
            RunOutcome::Rejected => received(start, inputs, UserCommand::Reject),
            RunOutcome::Aborted => true,
            RunOutcome::Discussed => false,
        },
        (states.last().stage matches StageView::Finished { outcome } && forall|c: UserCommand|
            #[trigger]
            received(start, inputs, c) ==> !(c is ConfirmExecution) && !(c is Reject))
            ==> states.last().stage->Finished_outcome is Aborted,
{
    let heard = |c: UserCommand| received(start, inputs, c);
    let n = states.len() - 1;
    lemma_runs_stay_on_course(start, task, max_turns, inputs, states, n);
    let last = states[n];
    if let StageView::Finished { outcome } = last.stage {
        if let RunOutcome::Executed { executor, .. } = outcome {
            let e = choose|e: RosterEntry| #[trigger]
                approved(start.roster, heard, e) && e.label == executor;
            let c = choose|c: UserCommand| #[trigger]
                heard(c) && names_executor(start.roster, c, e);
            assert(received(start, inputs, c));
            lemma_executor_is_enrolled(
                start.roster,
                trim(c->ConfirmExecution_executor@),
            );
        }
        if outcome is Rejected {
            assert(heard(UserCommand::Reject));
            assert(received(start, inputs, UserCommand::Reject));
        }
    }
}

/// The agent that a label names is on the roster, and has that label.
pub proof fn lemma_executor_is_enrolled(roster: Seq<RosterEntry>, label: Seq<char>)
    ensures
        executor_entry(roster, label) matches Some(e) ==> roster.contains(e) && same_ci(
            e.label@,
            label,
        ),
    decreases roster.len(),
{
    if roster.len() > 0 {
        if same_ci(roster[0].label@, label) {
            assert(roster.contains(roster[0]));
        } else {
            lemma_executor_is_enrolled(roster.skip(1), label);
            if executor_entry(roster.skip(1), label) is Some {
                let e = executor_entry(roster.skip(1), label)->Some_0;
                let k = choose|k: int| 0 <= k < roster.skip(1).len() && roster.skip(1)[k] == e;
                assert(roster[k + 1] == e);
            }
        }
    }
}

/// A confirmation that names no agent of the roster leaves the question open:
/// the engine says so and waits on.
pub proof fn law_unknown_executors_leave_the_question_open(
    pre: State,
    executor: String,
    post: State,
)
    requires
        pre.stage is Gate,
        executor_entry(pre.roster, trim(executor@)) is None,
        step(pre, Input::Command(UserCommand::ConfirmExecution { executor }), post),
    ensures
        post.stage is Gate,
        post.phase == pre.phase,
        post.decision == pre.decision,
        post.transcript == pre.transcript,
        post.out.len() == pre.out.len() + 1,
{
    let c = UserCommand::ConfirmExecution { executor };
    let u = choose|u: Utterance| #[trigger]
        command_note(c, u) && post == decided(at_rest(pre), c, u);
}

} // verus!
