//! What holds of votes, of the user's decision and of the execution.
use vstd::prelude::*;
use crate::agent::paths;
use crate::blackboard::Utterance;
use crate::conductor::{plans, AgentId, Role, RosterEntry};
use crate::event::{Notice, UserCommand};
use crate::machine::{
    at_rest, ballot_read, command_note, command_taken, decided, due, executor_entry, in_phase,
    interaction_begun, is_resumable, labels, logged, media_given, next_vote, noted, opens_gate,
    phase_stats, reads_as, recommend, recommended, salvage_noted, said_text, shared_names, started,
    step, vote_source, planners, Effect, Input, Job, Phase, Purpose, StageView, State,
};
use crate::prompt_laws::{law_repairs_show_the_reply, law_voters_are_told_the_candidates};
use crate::prompts::EXECUTION_RULES;
use crate::recommend::{
    law_a_plan_needs_every_vote, named_candidates, recommended_by, ExecutionVote, RawVote,
    Recommendation,
};
use crate::report::RunOutcome;
use crate::run_laws::lemma_executor_is_enrolled;
use crate::scan::{is_blank, trim};
use crate::telemetry::{PromptPhase, PromptStats};
use crate::text::{join, same_ci};
use crate::text_laws::{group_says, law_joining_keeps_every_part, says, says_all};

verus! {

// ---- Votes ---------------------------------------------------------------------

/// Whether the engine goes on to the vote of the first planner from a place on
/// that was not shut down, or to the count where there is none.
pub open spec fn asks_next(s: State, from: int, post: State) -> bool {
    match post.stage {
        StageView::Turn { entry, purpose, said } => purpose == Purpose::Vote && said is None
            && exists|k: int| #[trigger] is_next_voter(s, from, k) && entry == s.roster[k]
            && post.voter == k + 1,
        StageView::Tally => forall|k: int| !#[trigger] is_next_voter(s, from, k),
        _ => false,
    }
}

/// Whether `k` is the place of the first planner from a place on that was not
/// shut down.
pub open spec fn is_next_voter(s: State, from: int, k: int) -> bool {
    &&& from <= k < s.roster.len()
    &&& s.roster[k].role == Role::Drafter || s.roster[k].role == Role::Critic
    &&& !s.terminated.contains(s.roster[k].agent)
    &&& forall|j: int|
        from <= j < k ==> !((#[trigger] s.roster[j]).role == Role::Drafter || s.roster[j].role
            == Role::Critic) || s.terminated.contains(s.roster[j].agent)
}

/// Whether a state asked an agent after the first `from` effects with a prompt
/// that says something.
pub open spec fn asked_about(s: State, from: int, k: int, agent: AgentId, part: Seq<char>) -> bool {
    from <= k < s.out.len() && (s.out[k] matches Effect::Start { agent: a, prompt, .. } && a == agent
        && says(prompt, part))
}

proof fn lemma_next_vote(s: State)
    ensures
        asks_next(s, s.voter as int, next_vote(s)),
        next_vote(s).votes == s.votes,
        next_vote(s).salvaged == s.salvaged,
        next_vote(s).transcript == s.transcript,
        next_vote(s).phase == s.phase,
        next_vote(s).stage matches StageView::Turn { entry, .. } ==> next_vote(s).out.len()
            == s.out.len() + 1 && asked_about(
            next_vote(s),
            s.out.len() as int,
            s.out.len() as int,
            entry.agent,
            s.task,
        ),
    decreases s.roster.len() - s.voter,
{
    broadcast use group_says;

    let from = s.voter as int;
    if s.voter < s.roster.len() {
        let e = s.roster[from];
        let s1 = State { voter: s.voter + 1, ..s };
        if !plans(e.role) || s.terminated.contains(e.agent) {
            lemma_next_vote(s1);
            let post = next_vote(s);
            if post.stage is Turn {
                let k = choose|k: int| #[trigger]
                    is_next_voter(s1, from + 1, k) && post.stage->Turn_entry == s1.roster[k] && post.voter
                        == k + 1;
                assert(is_next_voter(s, from, k));
            } else {
                assert forall|k: int| !#[trigger] is_next_voter(s, from, k) by {
                    if is_next_voter(s, from, k) {
                        assert(is_next_voter(s1, from + 1, k));
                    }
                }
            }
        } else {
            assert(is_next_voter(s, from, from));
            law_voters_are_told_the_candidates(
                s.task,
                labels(s.roster),
                crate::handoff::vote_context(s.transcript, s.budget),
                Seq::empty(),
                seq!['x'],
            );
        }
    } else {
        assert forall|k: int| !#[trigger] is_next_voter(s, from, k) by {}
    }
}

/// When the votes are asked for, the first planner that was not shut down is the
/// first to be asked, with nothing counted yet.
pub proof fn law_votes_begin_with_the_first_planner(s: State)
    ensures
        asks_next(s, 0, recommend(s)),
        recommend(s).votes == Seq::<ExecutionVote>::empty(),
        recommend(s).phase == Phase::Recommending,
{
    let t = State { voter: 0, votes: Seq::empty(), ..in_phase(s, Phase::Recommending) };
    lemma_next_vote(t);
    lemma_asks_next_same(s, t, 0, recommend(s));
}

proof fn lemma_asks_next_same(s: State, t: State, from: int, post: State)
    requires
        asks_next(t, from, post),
        t.roster == s.roster,
        t.terminated == s.terminated,
    ensures
        asks_next(s, from, post),
{
    assert(forall|k: int| is_next_voter(t, from, k) ==> #[trigger] is_next_voter(s, from, k));
    assert(forall|k: int| #[trigger] is_next_voter(s, from, k) ==> is_next_voter(t, from, k));
    match post.stage {
        StageView::Turn { entry, purpose, said } => {
            let k = choose|k: int| #[trigger]
                is_next_voter(t, from, k) && entry == t.roster[k] && post.voter == k + 1;
            assert(is_next_voter(s, from, k));
        },
        _ => {},
    }
}

/// A vote object in an agent's reply is that agent's vote: for the nominee
/// without the white space around it, with the confidence, the wish for a plan
/// and the reason that it states. It is counted behind the votes before it, and
/// the next planner is asked.
pub proof fn law_ballots_are_counted_as_cast(
    pre: State,
    entry: RosterEntry,
    repair: bool,
    said: Option<String>,
    raw: RawVote,
    post: State,
)
    requires
        pre.stage == (StageView::Ballot { entry, repair, said }),
        step(pre, Input::Ballot(Some(raw)), post),
    ensures
        post.votes.len() == pre.votes.len() + 1,
        post.votes.drop_last() == pre.votes,
        ({
            let v = post.votes.last();
            &&& v.voter == entry.agent
            &&& v.voter_label == entry.label
            &&& v.recommended_executor@ == trim(raw.recommended_executor@)
            &&& v.confidence == raw.confidence
            &&& v.needs_plan == raw.needs_plan
            &&& v.rationale == raw.rationale
        }),
        post.salvaged == pre.salvaged,
        asks_next(pre, pre.voter as int, post),
        post.transcript == pre.transcript,
{
    let s = at_rest(pre);
    let text = said_text(said);
    let source = vote_source(text, Some(raw), labels(s.roster));
    let v = choose|v: ExecutionVote| #[trigger]
        reads_as(s, entry, text, Some(raw), v) && post == ballot_read(
            s,
            entry,
            repair,
            text,
            source,
            v,
        );
    let s1 = salvage_noted(s, entry.label@, repair, source);
    let t = State { votes: s1.votes.push(v), ..s1 };
    lemma_next_vote(t);
    lemma_asks_next_same(pre, t, pre.voter as int, post);
    assert(post.votes.drop_last() =~= pre.votes);
}

/// A reply without a vote object that names exactly one candidate is a vote for
/// that candidate, without a wish for a plan, and is counted as salvaged. One
/// that names none or several is no vote: its agent is asked once more, and after
/// that the next planner is.
pub proof fn law_prose_is_a_vote_where_it_is_plain(
    pre: State,
    entry: RosterEntry,
    repair: bool,
    said: Option<String>,
    post: State,
)
    requires
        pre.stage == (StageView::Ballot { entry, repair, said }),
        step(pre, Input::Ballot(None), post),
        pre.salvaged < usize::MAX,
    ensures
        ({
            let text = match said {
                Some(t) => t@,
                None => Seq::empty(),
            };
            let named = named_candidates(text, labels(pre.roster));
            if named.len() == 1 {
                &&& post.votes.len() == pre.votes.len() + 1
                &&& post.votes.drop_last() == pre.votes
                &&& post.votes.last().voter == entry.agent
                &&& post.votes.last().voter_label == entry.label
                &&& post.votes.last().recommended_executor@ == named[0]
                &&& !post.votes.last().needs_plan
                &&& post.salvaged == pre.salvaged + 1
                &&& asks_next(pre, pre.voter as int, post)
            } else {
                &&& post.votes == pre.votes
                &&& post.salvaged == pre.salvaged
                &&& repair ==> asks_next(pre, pre.voter as int, post)
                &&& !repair ==> {
                    &&& post.stage == (StageView::Turn {
                        entry,
                        purpose: Purpose::VoteRepair,
                        said: None,
                    })
                    &&& exists|k: int| #[trigger]
                        asked_about(post, pre.out.len() as int, k, entry.agent, pre.task)
                }
            }
        }),
{
    let s = at_rest(pre);
    let text = said_text(said);
    let source = vote_source(text, None, labels(s.roster));
    let v = choose|v: ExecutionVote| #[trigger]
        reads_as(s, entry, text, None, v) && post == ballot_read(
            s,
            entry,
            repair,
            text,
            source,
            v,
        );
    let s1 = salvage_noted(s, entry.label@, repair, source);
    let t = State { votes: s1.votes.push(v), ..s1 };
    lemma_next_vote(t);
    let w = logged(s1, "warn"@, entry.label@ + " returned no parseable vote"@);
    lemma_next_vote(w);
    if source is Some {
        lemma_asks_next_same(pre, t, pre.voter as int, post);
        assert(post.votes.drop_last() =~= pre.votes);
    } else if repair {
        lemma_asks_next_same(pre, w, pre.voter as int, post);
    } else {
        law_repairs_show_the_reply(
            s.task,
            labels(s.roster),
            is_resumable(s, entry.agent),
            crate::handoff::vote_context(s.transcript, s.budget),
            text,
            seq!['x'],
        );
        assert(asked_about(
            post,
            pre.out.len() as int,
            (pre.out.len() + 1) as int,
            entry.agent,
            pre.task,
        ));
    }
}

// ---- The recommendation ----------------------------------------------------------

/// When the votes are counted the recommendation rests on all of them; it is
/// announced with its executor, the user is asked about that executor, and
/// nothing goes on before the user decides. A plan is wanted only where every
/// vote wants it.
pub proof fn law_counts_lead_to_the_question(
    pre: State,
    tallies: Vec<crate::recommend::Tally>,
    post: State,
    i: int,
)
    requires
        pre.stage is Tally,
        tallies@.len() == pre.roster.len(),
        pre.roster.len() > 0,
        pre.decision is None,
        step(pre, Input::Tallies(tallies), post),
    ensures
        post.recommendation matches Some(rec) && {
            &&& rec.votes@ == pre.votes
            &&& exists|k: int|
                0 <= k < pre.roster.len() && rec.executor@ == (#[trigger] pre.roster[k]).label@
            &&& 0 <= i < pre.votes.len() && !pre.votes[i].needs_plan ==> !rec.needs_plan
            &&& post.phase == Phase::AwaitingConfirmation
            &&& post.out.len() == pre.out.len() + 3
            &&& post.out[pre.out.len() as int] matches Effect::Emit(
                Notice::RecommendationReady { executor, rationale, confident, .. },
            ) && executor == rec.executor@ && rationale == rec.rationale@ && confident
                == rec.confident
            &&& post.out[(pre.out.len() + 2) as int] matches Effect::Emit(
                Notice::AwaitingConfirmation { prompt },
            ) && says(prompt, rec.executor@)
        },
        match pre.job {
            Job::Interactive => post.stage is Gate,
            _ => post.stage is Recommended,
        },
        post.transcript == pre.transcript,
{
    broadcast use group_says;

    let s = at_rest(pre);
    let (rec, u) = choose|rec: Recommendation, u: Utterance| #[trigger]
        recommended_by(rec, s.votes, labels(s.roster), tallies@) && #[trigger] opens_gate(
            recommended(s, rec),
            u,
            post,
        );
    law_a_plan_needs_every_vote(rec, s.votes, labels(s.roster), tallies@, i);
    crate::recommend::law_executor_leads(rec, s.votes, labels(s.roster), tallies@);
    let c = labels(s.roster);
    let k = choose|k: int|
        0 <= k < c.len() && rec.executor@ == #[trigger] c[k] && (forall|j: int|
            0 <= j < c.len() ==> crate::reals::place((#[trigger] tallies@[j]).value.bits)
                <= crate::reals::place(tallies@[k].value.bits)) && (forall|j: int|
            0 <= j < k ==> crate::reals::place((#[trigger] tallies@[j]).value.bits)
                < crate::reals::place(tallies@[k].value.bits));
    assert(pre.roster[k].label@ == c[k]);
}

// ---- The decision ------------------------------------------------------------------

/// A confirmation starts the agent that it names, the first of the roster with
/// that label: the agent is asked to carry the task out, the engine waits for it,
/// and the outside world is told.
pub proof fn law_confirmations_start_the_agent_they_name(pre: State, executor: String, post: State)
    requires
        pre.stage is Gate,
        pre.phase == Phase::AwaitingConfirmation,
        !is_blank(executor@),
        executor_entry(pre.roster, trim(executor@)) is Some,
        step(pre, Input::Command(UserCommand::ConfirmExecution { executor }), post),
    ensures
        ({
            let e = executor_entry(pre.roster, trim(executor@))->Some_0;
            &&& pre.roster.contains(e)
            &&& same_ci(e.label@, trim(executor@))
            &&& post.phase == Phase::Executing
            &&& post.stage == (StageView::Turn {
                entry: e,
                purpose: Purpose::Execution,
                said: None,
            })
            &&& exists|k: int| #[trigger]
                asked_about(post, pre.out.len() as int, k, e.agent, pre.task)
            &&& exists|k: int| #[trigger]
                asked_about(post, pre.out.len() as int, k, e.agent, EXECUTION_RULES@)
        }),
        post.transcript == pre.transcript,
{
    broadcast use group_says;

    lemma_executor_is_enrolled(pre.roster, trim(executor@));
    let s = at_rest(pre);
    let c = UserCommand::ConfirmExecution { executor };
    let u = choose|u: Utterance| #[trigger] command_note(c, u) && post == decided(s, c, u);
    let e = executor_entry(pre.roster, trim(executor@))->Some_0;
    let k = (pre.out.len() + 4) as int;
    assert(post.out.len() == pre.out.len() + 5);
    assert(asked_about(post, pre.out.len() as int, k, e.agent, pre.task));
    assert(asked_about(post, pre.out.len() as int, k, e.agent, EXECUTION_RULES@));
}

/// Of several agents the first with a label is meant, whatever the case of the
/// letters.
pub proof fn law_labels_mean_the_first_agent(roster: Seq<RosterEntry>, label: Seq<char>, k: int)
    requires
        0 <= k < roster.len(),
        same_ci(roster[k].label@, label),
        forall|j: int| 0 <= j < k ==> !same_ci((#[trigger] roster[j]).label@, label),
    ensures
        executor_entry(roster, label) == Some(roster[k]),
    decreases roster.len(),
{
    if k > 0 {
        let rest = roster.skip(1);
        assert(!same_ci(roster[0].label@, label));
        assert(rest[k - 1] == roster[k]);
        assert forall|j: int| 0 <= j < k - 1 implies !same_ci((#[trigger] rest[j]).label@, label) by {
            assert(rest[j] == roster[j + 1]);
        }
        law_labels_mean_the_first_agent(rest, label, k - 1);
    }
}

/// A refusal ends the run as rejected, the end of everything as aborted, and the
/// end of the user's commands as aborted too. A note is recorded as the user's
/// and leaves the question open.
pub proof fn law_other_decisions_execute_nothing(pre: State, c: UserCommand, post: State)
    requires
        pre.stage is Gate,
        pre.phase == Phase::AwaitingConfirmation,
        !(c is ConfirmExecution),
        step(pre, Input::Command(c), post),
    ensures
        c is Reject ==> post.stage == (StageView::Report { outcome: RunOutcome::Rejected })
            && post.phase == Phase::Done,
        c is Shutdown ==> post.stage == (StageView::Report { outcome: RunOutcome::Aborted }),
        c is StartTurn ==> post == pre,
        c matches UserCommand::InjectNote { text, attachments, .. } ==> {
            &&& post.stage is Gate
            &&& post.phase == pre.phase
            &&& noted_as(pre, text@, attachments@, post)
        },
        forall|k: int| pre.out.len() <= k < post.out.len() ==> (#[trigger] post.out[k]) is Emit,
{
    let s = at_rest(pre);
    let u = choose|u: Utterance| #[trigger] command_note(c, u) && post == decided(s, c, u);
    lemma_noted(s, c, u);
}

/// Whether a note is recorded: it is the last of the transcript, the user's own,
/// with its text and the names of its files, and its files are to be shared.
pub open spec fn noted_as(
    pre: State,
    text: Seq<char>,
    attachments: Seq<String>,
    post: State,
) -> bool {
    &&& post.transcript.len() == pre.transcript.len() + 1
    &&& post.transcript.drop_last() == pre.transcript
    &&& post.transcript.last().role == Role::Human
    &&& post.transcript.last().label@ == "you"@
    &&& says(post.transcript.last().text@, text)
    &&& attachments.len() == 0 ==> post.transcript.last().text@ == text
    &&& says_all(post.transcript.last().text@, shared_names(attachments))
    &&& post.media.len() == pre.media.len() + attachments.len()
    &&& forall|i: int| 0 <= i < pre.media.len() ==> post.media[i] == pre.media[i]
    &&& forall|i: int|
        0 <= i < attachments.len() ==> post.media[pre.media.len() + i].path == #[trigger] attachments[i]
    &&& post.out.len() == pre.out.len() + 1
    &&& post.out.last() == Effect::Emit(
        Notice::UserMessage { text: post.transcript.last().text@ },
    )
}

proof fn lemma_noted(s: State, c: UserCommand, u: Utterance)
    requires
        command_note(c, u),
    ensures
        c matches UserCommand::InjectNote { text, attachments, .. } ==> noted_as(
            s,
            text@,
            attachments@,
            noted(s, attachments@, u),
        ),
{
    broadcast use group_says;

    if let UserCommand::InjectNote { text, attachments, .. } = c {
        let post = noted(s, attachments@, u);
        assert(post.transcript.drop_last() =~= s.transcript);
        let names = shared_names(attachments@);
        law_joining_keeps_every_part(names, ", "@, Seq::empty());
        if attachments@.len() == 0 {
            assert(names =~= Seq::empty());
            reveal(says_all);
            assert(crate::text_laws::says_each_at(u.text@, Seq::empty(), names));
        } else {
            let list = join(names, ", "@);
            assert(says_all("[attached: "@ + list + "]"@, names));
        }
    }
}

/// What the user says during the discussion is taken in: a note is recorded, a
/// decision is kept for when it is asked for, the last one counting, and the end
/// of everything ends the run. Nothing is executed.
pub proof fn law_commands_are_taken_in(pre: State, c: UserCommand, post: State)
    requires
        pre.stage is Notes,
        step(pre, Input::Command(c), post),
    ensures
        c matches UserCommand::InjectNote { text, attachments, .. } ==> {
            &&& post.stage is Notes
            &&& noted_as(pre, text@, attachments@, post)
            &&& post.decision == pre.decision
        },
        c is ConfirmExecution || c is Reject ==> post.decision == Some(c) && post.stage is Notes
            && post.transcript == pre.transcript && post.out == pre.out,
        c is Shutdown ==> post.stage == (StageView::Report { outcome: RunOutcome::Aborted }),
        c is StartTurn ==> post == pre,
        post.phase == pre.phase,
{
    let s = at_rest(pre);
    let u = choose|u: Utterance| #[trigger] command_note(c, u) && post == command_taken(s, c, u);
    lemma_noted(s, c, u);
}

// ---- What agents are given ---------------------------------------------------------

/// The shared files that an agent gets with a turn are all that were shared since
/// it last got any, in order; after that it has got all.
pub proof fn law_agents_get_what_was_shared_since(s: State, agent: AgentId)
    requires
        s.media.len() <= usize::MAX,
    ensures
        ({
            let had: nat = if s.delivered.dom().contains(agent) && s.delivered[agent]
                <= s.media.len() {
                s.delivered[agent] as nat
            } else if s.delivered.dom().contains(agent) {
                s.media.len()
            } else {
                0
            };
            &&& paths(due(s, agent)).len() == s.media.len() - had
            &&& forall|i: int|
                0 <= i < s.media.len() - had ==> (#[trigger] paths(due(s, agent))[i])
                    == s.media[had + i].path@
        }),
        s.media.len() <= media_given(s, agent).delivered[agent],
        forall|other: AgentId|
            other != agent ==> media_given(s, agent).delivered.dom().contains(other)
                == s.delivered.dom().contains(other) && #[trigger] media_given(
                s,
                agent,
            ).delivered[other] == s.delivered[other],
{
}

/// Every prompt is counted once for its agent and once for its phase, with its
/// length; other agents' and other phases' counts stay.
pub proof fn law_prompts_are_counted_once(
    s: State,
    agent: AgentId,
    phase: PromptPhase,
    prompt: Seq<char>,
    attachments: Seq<Seq<char>>,
    failure: Seq<char>,
    other: AgentId,
    elsewhere: PromptPhase,
)
    requires
        other != agent,
        elsewhere != phase,
        prompt.len() <= usize::MAX,
        s.prompts.dom().contains(agent) ==> s.prompts[agent].prompts < usize::MAX
            && s.prompts[agent].chars_sent + prompt.len() <= usize::MAX,
        phase_stats(s.phases, phase) matches Some(p) ==> p.prompts < usize::MAX && p.chars_sent
            + prompt.len() <= usize::MAX,
    ensures
        ({
            let t = started(s, agent, phase, prompt, attachments, failure);
            let before: PromptStats = if s.prompts.dom().contains(agent) {
                s.prompts[agent]
            } else {
                PromptStats { prompts: 0, chars_sent: 0, max_chars: 0 }
            };
            let spent: PromptStats = match phase_stats(s.phases, phase) {
                Some(p) => p,
                None => PromptStats { prompts: 0, chars_sent: 0, max_chars: 0 },
            };
            &&& t.prompts.dom().contains(agent)
            &&& t.prompts[agent].prompts == before.prompts + 1
            &&& t.prompts[agent].chars_sent == before.chars_sent + prompt.len()
            &&& t.prompts[agent].max_chars >= prompt.len()
            &&& t.prompts[agent].max_chars >= before.max_chars
            &&& t.prompts[agent].max_chars == prompt.len() || t.prompts[agent].max_chars
                == before.max_chars
            &&& t.prompts.dom().contains(other) == s.prompts.dom().contains(other)
            &&& t.prompts[other] == s.prompts[other]
            &&& phase_stats(t.phases, phase) matches Some(p)
            &&& p.prompts == spent.prompts + 1 && p.chars_sent == spent.chars_sent + prompt.len()
            &&& phase_stats(t.phases, elsewhere) == phase_stats(s.phases, elsewhere)
            &&& t.out == s.out.push(Effect::Start { agent, prompt, attachments, failure })
        }),
{
}

// ---- Beginnings --------------------------------------------------------------------

/// An interactive run is about its task, begins with planning, and goes in rounds
/// or in turns as it was asked to; only planners take turns in it.
pub proof fn law_runs_begin_with_their_task(s: State, task: Seq<char>, max_turns: nat)
    requires
        max_turns > 0,
        planners(s.roster).len() > 0,
    ensures
        ({
            let r = interaction_begun(s, task, max_turns);
            &&& r.task == task && r.job == Job::Interactive && r.phase == Phase::Planning
            &&& r.stage is Notes && r.in_rounds == s.parallel && r.roster == s.roster
            &&& r.transcript == s.transcript && r.terminated == s.terminated
            &&& s.parallel ==> r.first_round && r.drafts.dom() == Set::<AgentId>::empty()
                && r.rounds_left >= 2
            &&& !s.parallel ==> r.taken == 0 && r.max_turns == max_turns && r.speakers
                == s.roster.filter(
                |e: RosterEntry| e.role == Role::Drafter || e.role == Role::Critic,
            )
        }),
{
    let p = |e: RosterEntry| plans(e.role);
    let q = |e: RosterEntry| e.role == Role::Drafter || e.role == Role::Critic;
    assert(p =~= q);
}

} // verus!
