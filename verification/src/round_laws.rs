//! What holds of rounds: who takes part, what each planner is told of the
//! others, and what is left of a round when it is over.
use vstd::prelude::*;
use crate::agent::AgentEvent;
use crate::blackboard::Utterance;
use crate::conductor::{plans, AgentId, Role, RosterEntry};
use crate::context::{bounded, output_or_placeholder, shared_budget};
use crate::machine::{
    active, all_asked, all_timed_out, are_contributions, at_rest, discuss_rounds_on, distinct_ids,
    final_of, finals_after, in_phase, interact_rounds_on, is_resumable, member_prompt, next_vote,
    notes_taken, others_drafts, own_draft, passed_on, pending_after, recommend, round_begun,
    round_ended, round_over, round_recorded, step, Effect, Input, Phase, State,
};
use crate::prompt_laws::{
    law_first_rounds_tell_the_task, law_own_proposals_stand_apart,
    law_resumed_planners_are_not_told_their_own, law_round_prompts_tell_the_proposals, roomy,
    stands_apart,
};
use crate::prompts::{round_prompt, REVIEW_RULES, SYNTHESIS_RULES};
use crate::scan::{is_blank, trim};
use crate::text::{is_space, join, opt_text};
use crate::text_laws::{
    group_says, law_empty_turns_are_marked, law_joining_keeps_every_part, lemma_says_all_each,
    lemma_says_through, says,
};

verus! {

// ---- Who takes part --------------------------------------------------------------

/// Those of a roster who plan and were not shut down, in its order.
pub open spec fn live_planners(s: State) -> Seq<RosterEntry> {
    s.roster.filter(
        |e: RosterEntry|
            (e.role == Role::Drafter || e.role == Role::Critic) && !s.terminated.contains(e.agent),
    )
}

proof fn lemma_live_planners(s: State)
    ensures
        active(s) == live_planners(s),
{
    let p = |e: RosterEntry| plans(e.role) && !s.terminated.contains(e.agent);
    let q = |e: RosterEntry|
        (e.role == Role::Drafter || e.role == Role::Critic) && !s.terminated.contains(e.agent);
    assert(p =~= q);
}

/// Whether a step begins a round: the engine goes from the user's notes, or from
/// a round that it records, into a round.
pub open spec fn begins_round(pre: State, input: Input, post: State) -> bool {
    &&& step(pre, input, post)
    &&& post.stage is Round
    &&& pre.stage is Notes || (pre.stage is Round && post.transcript.len() > pre.transcript.len())
}

/// How much room the drafts of the members take.
pub open spec fn room_for(drafts: Map<AgentId, String>, members: Seq<RosterEntry>) -> nat
    decreases members.len(),
{
    if members.len() == 0 {
        0
    } else {
        room_for(drafts, members.drop_last()) + 7 + (if drafts.dom().contains(members.last().agent) {
            drafts[members.last().agent]@.len()
        } else {
            0
        })
    }
}

proof fn lemma_room(drafts: Map<AgentId, String>, members: Seq<RosterEntry>, agent: AgentId)
    ensures
        join(others_drafts(drafts, members, agent), "\n\n---\n\n"@).len() <= room_for(
            drafts,
            members,
        ),
    decreases members.len(),
{
    reveal_strlit("\n\n---\n\n");
    if members.len() > 0 {
        lemma_room(drafts, members.drop_last(), agent);
        let before = others_drafts(drafts, members.drop_last(), agent);
        let o = members.last().agent;
        if drafts.dom().contains(o) {
            law_joining_keeps_every_part(before, "\n\n---\n\n"@, drafts[o]@);
            if before.len() == 0 {
                assert(before.push(drafts[o]@) =~= seq![drafts[o]@]);
            }
        }
    }
}

proof fn lemma_others(drafts: Map<AgentId, String>, members: Seq<RosterEntry>, agent: AgentId, j: int)
    requires
        0 <= j < members.len(),
        members[j].agent != agent,
        drafts.dom().contains(members[j].agent),
    ensures
        exists|k: int|
            0 <= k < others_drafts(drafts, members, agent).len() && #[trigger] others_drafts(
                drafts,
                members,
                agent,
            )[k] == drafts[members[j].agent]@,
    decreases members.len(),
{
    let all = others_drafts(drafts, members, agent);
    if j == members.len() - 1 {
        assert(all[all.len() - 1] == drafts[members[j].agent]@);
    } else {
        let init = members.drop_last();
        assert(init[j] == members[j]);
        lemma_others(drafts, init, agent, j);
        let before = others_drafts(drafts, init, agent);
        let k = choose|k: int|
            0 <= k < before.len() && #[trigger] before[k] == drafts[init[j].agent]@;
        assert(all[k] == before[k]);
    }
}

/// A planner is told the drafts of the other members, of each that has one, in
/// the order of the roster, and not its own.
pub proof fn law_drafts_of_the_others_are_told_in_order(
    drafts: Map<AgentId, String>,
    members: Seq<RosterEntry>,
    agent: AgentId,
    mine: String,
)
    ensures
        others_drafts(drafts, members, agent) == members.filter(
            |e: RosterEntry| e.agent != agent && drafts.dom().contains(e.agent),
        ).map_values(|e: RosterEntry| drafts[e.agent]@),
        others_drafts(drafts.insert(agent, mine), members, agent) == others_drafts(
            drafts,
            members,
            agent,
        ),
    decreases members.len(),
{
    let keep = |e: RosterEntry| e.agent != agent && drafts.dom().contains(e.agent);
    let text = |e: RosterEntry| drafts[e.agent]@;
    if members.len() == 0 {
        assert(members.filter(keep) =~= Seq::empty()) by {
            reveal(Seq::filter);
        }
        assert(others_drafts(drafts, members, agent) =~= members.filter(keep).map_values(text));
    } else {
        let init = members.drop_last();
        law_drafts_of_the_others_are_told_in_order(drafts, init, agent, mine);
        assert(init.push(members.last()) =~= members);
        init.lemma_filter_push(members.last(), keep);
        if keep(members.last()) {
            assert(members.filter(keep) == init.filter(keep).push(members.last()));
            assert(members.filter(keep).map_values(text) =~= init.filter(keep).map_values(
                text,
            ).push(text(members.last())));
        } else {
            assert(members.filter(keep) == init.filter(keep));
        }
    }
}

// ---- What is told ----------------------------------------------------------------

/// Whether a state asked an agent after the first `from` effects, with a prompt.
pub open spec fn asked_with(s: State, from: int, k: int, agent: AgentId, prompt: Seq<char>) -> bool {
    from <= k < s.out.len() && (s.out[k] matches Effect::Start { agent: a, prompt: p, .. } && a
        == agent && p == prompt)
}

proof fn lemma_all_asked(s: State, members: Seq<RosterEntry>, n: nat, i: int)
    requires
        0 <= i < n <= members.len(),
    ensures
        ({
            let t = all_asked(s, members, n);
            &&& t.out.len() == s.out.len() + 2 * n
            &&& asked_with(
                t,
                s.out.len() as int,
                s.out.len() + 2 * i + 1,
                members[i].agent,
                member_prompt(s, members, members[i]),
            )
        }),
    decreases n,
{
    lemma_asking_keeps(s, members, (n - 1) as nat);
    let t = all_asked(s, members, (n - 1) as nat);
    let e = members[n - 1];
    assert(member_prompt(t, members, e) == member_prompt(s, members, e));
    if i < n - 1 {
        lemma_all_asked(s, members, (n - 1) as nat, i);
    }
}

proof fn lemma_asking_keeps(s: State, members: Seq<RosterEntry>, n: nat)
    ensures
        ({
            let t = all_asked(s, members, n);
            &&& t.out.len() == s.out.len() + 2 * n
            &&& forall|k: int| 0 <= k < s.out.len() ==> t.out[k] == s.out[k]
            &&& t.first_round == s.first_round && t.task == s.task && t.project == s.project
            &&& t.budget == s.budget && t.drafts == s.drafts && t.resumable == s.resumable
            &&& t.roster == s.roster && t.terminated == s.terminated && t.transcript == s.transcript
            &&& t.media == s.media && t.job == s.job && t.rounds_left == s.rounds_left
            &&& t.phase == s.phase && t.last_seen == s.last_seen && t.in_rounds == s.in_rounds
        }),
    decreases n,
{
    if n > 0 {
        lemma_asking_keeps(s, members, (n - 1) as nat);
    }
}

/// The state out of which a step begins a round.
spec fn before_round(pre: State, input: Input, post: State, b: State) -> bool {
    &&& post == round_begun(b)
    &&& b.out.len() >= pre.out.len()
    &&& b.roster == pre.roster && b.task == pre.task && b.project == pre.project
    &&& b.budget == pre.budget && b.resumable == pre.resumable
    &&& pre.stage is Notes ==> b.first_round == pre.first_round && b.drafts == pre.drafts
        && b.terminated == pre.terminated
    &&& pre.stage is Round ==> !b.first_round
}

proof fn lemma_recorded_keeps(s: State, members: Seq<RosterEntry>, added: Seq<Utterance>, n: nat)
    requires
        n <= added.len(),
    ensures
        ({
            let t = round_recorded(s, members, added, n);
            &&& t.out == s.out && t.roster == s.roster && t.task == s.task && t.project == s.project
            &&& t.budget == s.budget && t.resumable == s.resumable && t.terminated == s.terminated
            &&& t.job == s.job && t.rounds_left == s.rounds_left && t.in_rounds == s.in_rounds
            &&& t.transcript.len() == s.transcript.len() + n && t.phase == s.phase
        }),
    decreases n,
{
    if n > 0 {
        lemma_recorded_keeps(s, members, added, (n - 1) as nat);
    }
}

proof fn lemma_timed_out_keeps(s: State, agents: Seq<AgentId>)
    ensures
        ({
            let t = all_timed_out(s, agents);
            &&& t.out.len() >= s.out.len() && t.roster == s.roster && t.task == s.task
            &&& t.project == s.project && t.budget == s.budget && t.resumable == s.resumable
            &&& t.job == s.job && t.rounds_left == s.rounds_left && t.transcript == s.transcript
            &&& t.first_round == s.first_round && t.phase == s.phase
            &&& t.drafts == s.drafts
            &&& forall|a: AgentId| #[trigger]
                t.terminated.contains(a) <==> s.terminated.contains(a) || agents.contains(a)
        }),
    decreases agents.len(),
{
    if agents.len() > 0 {
        let init = agents.drop_last();
        lemma_timed_out_keeps(s, init);
        let t = all_timed_out(s, agents);
        assert(agents =~= init.push(agents.last()));
        assert forall|a: AgentId| #[trigger]
            t.terminated.contains(a) <==> s.terminated.contains(a) || agents.contains(a) by {
            if agents.contains(a) {
                let k = choose|k: int| 0 <= k < agents.len() && agents[k] == a;
                if k < init.len() {
                    assert(init[k] == a);
                    assert(init.contains(a));
                }
            }
            if init.contains(a) {
                let k = choose|k: int| 0 <= k < init.len() && init[k] == a;
                assert(agents[k] == a);
            }
            assert(agents[agents.len() - 1] == agents.last());
        }
    }
}

/// Where a step records a round, the state in which it was recorded.
spec fn round_base(pre: State, input: Input) -> State {
    let s = at_rest(pre);
    match input {
        Input::Event(e) => passed_on(s, e),
        Input::TimedOut => all_timed_out(s, pre.stage->Round_pending),
        _ => s,
    }
}

/// The last whole replies when a step records a round.
spec fn round_finals(pre: State, input: Input) -> Map<AgentId, String> {
    match input {
        Input::Event(e) => finals_after(pre.stage->finals, e),
        _ => pre.stage->finals,
    }
}

proof fn lemma_round_is_recorded(pre: State, input: Input, post: State)
    requires
        pre.stage is Round,
        step(pre, input, post),
        post.transcript.len() > pre.transcript.len(),
    ensures
        round_ended(
            round_base(pre, input),
            pre.stage->members,
            round_finals(pre, input),
            post,
        ),
        ({
            let t = round_base(pre, input);
            &&& t.out.len() >= pre.out.len() && t.roster == pre.roster && t.task == pre.task
            &&& t.project == pre.project && t.budget == pre.budget && t.resumable == pre.resumable
            &&& t.job == pre.job && t.rounds_left == pre.rounds_left
            &&& t.transcript == pre.transcript && t.phase == pre.phase
        }),
{
    if input is TimedOut {
        lemma_timed_out_keeps(at_rest(pre), pre.stage->Round_pending);
    }
}

spec fn after_recording(s: State, members: Seq<RosterEntry>, added: Seq<Utterance>) -> State {
    let s1 = round_recorded(s, members, added, members.len());
    State {
        rounds_left: if s1.rounds_left > 0 {
            (s1.rounds_left - 1) as nat
        } else {
            0
        },
        first_round: false,
        ..s1
    }
}

proof fn lemma_before_round(pre: State, input: Input, post: State) -> (b: State)
    requires
        begins_round(pre, input, post),
    ensures
        before_round(pre, input, post, b),
{
    let s = at_rest(pre);
    if pre.stage is Notes {
        lemma_recommending_is_no_round(s);
        assert(input is NoCommand);
        assert(post == notes_taken(s));
        if !s.in_rounds {
            lemma_recommending_is_no_round(crate::machine::turn_taken(s));
        }
        s
    } else {
        lemma_round_is_recorded(pre, input, post);
        let t = round_base(pre, input);
        let members = pre.stage->members;
        let finals = round_finals(pre, input);
        let added = choose|added: Seq<Utterance>| #[trigger]
            are_contributions(added, members, finals) && post == round_over(t, members, added);
        lemma_recorded_keeps(t, members, added, members.len());
        let b = after_recording(t, members, added);
        lemma_recommending_is_no_round(b);
        assert(post == round_begun(b));
        b
    }
}

proof fn lemma_recommending_is_no_round(s: State)
    ensures
        !(recommend(s).stage is Round),
        !(crate::machine::interact_on(s).stage is Round),
        !(interact_rounds_on(s).stage is Round),
        recommend(s).transcript == s.transcript,
        recommend(s).drafts == s.drafts,
        recommend(s).rounds_left == s.rounds_left,
        recommend(s).phase == Phase::Recommending,
{
    lemma_voting_is_no_round(
        State { voter: 0, votes: Seq::empty(), ..in_phase(s, Phase::Recommending) },
    );
}

proof fn lemma_voting_is_no_round(s: State)
    ensures
        !(next_vote(s).stage is Round),
        next_vote(s).transcript == s.transcript,
        next_vote(s).drafts == s.drafts,
        next_vote(s).rounds_left == s.rounds_left,
        next_vote(s).phase == s.phase,
    decreases s.roster.len() - s.voter,
{
    if s.voter < s.roster.len() {
        lemma_voting_is_no_round(State { voter: s.voter + 1, ..s });
    }
}

/// In every round each planner that was not shut down takes part, in the order
/// of the roster; each of them is asked and awaited.
pub proof fn law_every_live_planner_is_asked(pre: State, input: Input, post: State, i: int)
    requires
        begins_round(pre, input, post),
        0 <= i < post.stage->members.len(),
    ensures
        post.stage->members == live_planners(post),
        post.stage->Round_pending.contains(post.stage->members[i].agent),
        post.stage->finals.dom() == Set::<AgentId>::empty(),
        exists|k: int, p: Seq<char>| #[trigger]
            asked_with(post, pre.out.len() as int, k, post.stage->members[i].agent, p) && says(
                p,
                pre.task,
            ),
{
    let b = lemma_before_round(pre, input, post);
    let members = active(b);
    lemma_live_planners(b);
    lemma_asking_keeps(b, members, members.len());
    assert(live_planners(post) == live_planners(b)) by {
        assert(post.roster == b.roster && post.terminated == b.terminated);
    }
    lemma_distinct_ids(members, i);
    lemma_all_asked(b, members, members.len(), i);
    let p = member_prompt(b, members, members[i]);
    lemma_prompt_says_task(b, members, i);
    assert(asked_with(post, pre.out.len() as int, b.out.len() + 2 * i + 1, members[i].agent, p));
}

proof fn lemma_prompt_says_task(b: State, members: Seq<RosterEntry>, i: int)
    ensures
        says(member_prompt(b, members, members[i]), b.task),
{
    broadcast use group_says;

    let x = seq!['x'];
    match opt_text(b.project) {
        Some(t) => law_first_rounds_tell_the_task(b.task, t, b.budget, x),
        None => law_first_rounds_tell_the_task(b.task, Seq::empty(), b.budget, x),
    }
    law_round_prompts_tell_the_proposals(
        b.task,
        join(others_drafts(b.drafts, members, members[i].agent), "\n\n---\n\n"@),
        members[i].agent == members[0].agent,
        is_resumable(b, members[i].agent),
        own_draft(b.drafts, members[i].agent),
        b.budget,
        x,
    );
}

proof fn lemma_distinct_ids(members: Seq<RosterEntry>, i: int)
    requires
        0 <= i < members.len(),
    ensures
        distinct_ids(members).contains(members[i].agent),
    decreases members.len(),
{
    let init = members.drop_last();
    let before = distinct_ids(init);
    if i < init.len() {
        assert(init[i] == members[i]);
        lemma_distinct_ids(init, i);
        let k = choose|k: int| 0 <= k < before.len() && before[k] == members[i].agent;
        if !before.contains(members.last().agent) {
            assert(before.push(members.last().agent)[k] == members[i].agent);
        }
    } else if !before.contains(members.last().agent) {
        let all = before.push(members.last().agent);
        assert(all[all.len() - 1] == members[i].agent);
    }
}

/// In a round after the first, each planner is told what every other planner of
/// the round said in the round before. `part` is any piece of that, and `i` and
/// `j` are the places of the two planners.
pub proof fn law_planners_are_told_each_others_drafts(
    pre: State,
    input: Input,
    post: State,
    i: int,
    j: int,
    part: Seq<char>,
)
    requires
        begins_round(pre, input, post),
        !post.first_round,
        0 <= i < post.stage->members.len(),
        0 <= j < post.stage->members.len(),
        post.stage->members[i].agent != post.stage->members[j].agent,
        post.drafts.dom().contains(post.stage->members[j].agent),
        says(post.drafts[post.stage->members[j].agent]@, part),
        part.len() > 0,
        !is_space(part[0]),
        !is_space(part.last()),
        roomy(post.budget, 2 * room_for(post.drafts, post.stage->members) + 1),
    ensures
        exists|k: int, p: Seq<char>| #[trigger]
            asked_with(post, pre.out.len() as int, k, post.stage->members[i].agent, p) && says(
                p,
                part,
            ),
{
    broadcast use group_says;

    let b = lemma_before_round(pre, input, post);
    let members = active(b);
    lemma_asking_keeps(b, members, members.len());
    lemma_all_asked(b, members, members.len(), i);
    let e = members[i];
    let p = member_prompt(b, members, e);
    let parts = others_drafts(b.drafts, members, e.agent);
    lemma_others(b.drafts, members, e.agent, j);
    let k = choose|k: int|
        0 <= k < parts.len() && #[trigger] parts[k] == b.drafts[members[j].agent]@;
    let others = join(parts, "\n\n---\n\n"@);
    law_joining_keeps_every_part(parts, "\n\n---\n\n"@, Seq::empty());
    lemma_says_all_each(others, parts, k);
    lemma_says_through(others, parts[k], part);
    lemma_room(b.drafts, members, e.agent);
    law_round_prompts_tell_the_proposals(
        b.task,
        others,
        e.agent == members[0].agent,
        is_resumable(b, e.agent),
        own_draft(b.drafts, e.agent),
        b.budget,
        part,
    );
    assert(asked_with(post, pre.out.len() as int, b.out.len() + 2 * i + 1, e.agent, p));
}

/// A planner's prompt with its own draft set.
spec fn prompt_with(s: State, members: Seq<RosterEntry>, e: RosterEntry, own: String) -> Seq<char> {
    member_prompt(State { drafts: s.drafts.insert(e.agent, own), ..s }, members, e)
}

proof fn lemma_prompt_with(s: State, members: Seq<RosterEntry>, e: RosterEntry, own: String)
    requires
        !s.first_round,
    ensures
        prompt_with(s, members, e, own) == round_prompt(
            s.task,
            join(others_drafts(s.drafts, members, e.agent), "\n\n---\n\n"@),
            e.agent == members[0].agent,
            is_resumable(s, e.agent),
            own@,
            s.budget,
        ),
{
    law_drafts_of_the_others_are_told_in_order(s.drafts, members, e.agent, own);
}

/// A planner's own draft is not among the proposals that it is told: one that
/// remembers its draft is asked the same whatever it was.
pub proof fn law_own_drafts_are_no_proposals(
    s: State,
    members: Seq<RosterEntry>,
    e: RosterEntry,
    a: String,
    b: String,
)
    requires
        is_resumable(s, e.agent),
    ensures
        member_prompt((State { drafts: s.drafts.insert(e.agent, a), ..s }), members, e)
            == member_prompt((State { drafts: s.drafts.insert(e.agent, b), ..s }), members, e),
{
    if !s.first_round {
        lemma_prompt_with(s, members, e, a);
        lemma_prompt_with(s, members, e, b);
        law_resumed_planners_are_not_told_their_own(
            s.task,
            join(others_drafts(s.drafts, members, e.agent), "\n\n---\n\n"@),
            e.agent == members[0].agent,
            a@,
            b@,
            s.budget,
        );
    }
}

/// Whether a planner's prompt is its own draft between two texts, whatever the
/// draft.
pub open spec fn has_own_section(
    s: State,
    members: Seq<RosterEntry>,
    e: RosterEntry,
    x: Seq<char>,
    y: Seq<char>,
) -> bool {
    forall|own: String|
        !is_blank(own@) ==> member_prompt(
            (State { drafts: #[trigger] s.drafts.insert(e.agent, own), ..s }),
            members,
            e,
        ) == x + trim(bounded(own@, shared_budget(s.budget, 2))) + y
}

/// Of what a planner without a memory of its own is asked, its own draft decides
/// one section alone: what stands before and behind that is the same whatever the
/// draft.
pub proof fn law_own_drafts_have_a_section(s: State, members: Seq<RosterEntry>, e: RosterEntry)
    requires
        !is_resumable(s, e.agent),
        !s.first_round,
    ensures
        exists|x: Seq<char>, y: Seq<char>| #[trigger] has_own_section(s, members, e, x, y),
{
    let others = join(others_drafts(s.drafts, members, e.agent), "\n\n---\n\n"@);
    let merges = e.agent == members[0].agent;
    law_own_proposals_stand_apart(s.task, others, merges, s.budget);
    let (x, y) = choose|x: Seq<char>, y: Seq<char>| #[trigger]
        stands_apart(s.task, others, merges, s.budget, x, y);
    assert forall|own: String| !is_blank(own@) implies member_prompt(
        (State { drafts: #[trigger] s.drafts.insert(e.agent, own), ..s }),
        members,
        e,
    ) == x + trim(bounded(own@, shared_budget(s.budget, 2))) + y by {
        lemma_prompt_with(s, members, e, own);
    }
    assert(has_own_section(s, members, e, x, y));
}

/// In a round after the first, the first planner is asked to merge the
/// proposals, and every other to review them.
pub proof fn law_the_first_planner_merges(pre: State, input: Input, post: State, i: int)
    requires
        begins_round(pre, input, post),
        !post.first_round,
        0 <= i < post.stage->members.len(),
    ensures
        exists|k: int, p: Seq<char>| #[trigger]
            asked_with(post, pre.out.len() as int, k, post.stage->members[i].agent, p) && says(
                p,
                if post.stage->members[i].agent == post.stage->members[0].agent {
                    SYNTHESIS_RULES@
                } else {
                    REVIEW_RULES@
                },
            ),
{
    broadcast use group_says;

    let b = lemma_before_round(pre, input, post);
    let members = active(b);
    lemma_asking_keeps(b, members, members.len());
    lemma_all_asked(b, members, members.len(), i);
    let p = member_prompt(b, members, members[i]);
    assert(asked_with(post, pre.out.len() as int, b.out.len() + 2 * i + 1, members[i].agent, p));
}

// ---- What is left of a round -------------------------------------------------------

/// What an agent said in a round, as it is recorded.
pub open spec fn spoken(finals: Map<AgentId, String>, agent: AgentId) -> Seq<char> {
    if finals.dom().contains(agent) && exists|i: int|
        0 <= i < finals[agent]@.len() && !is_space(#[trigger] finals[agent]@[i]) {
        finals[agent]@
    } else {
        "(no output this turn)"@
    }
}

proof fn lemma_spoken(finals: Map<AgentId, String>, agent: AgentId)
    ensures
        output_or_placeholder(final_of(finals, agent)) == spoken(finals, agent),
{
    law_empty_turns_are_marked(final_of(finals, agent));
}

proof fn lemma_recorded_drafts(
    s: State,
    members: Seq<RosterEntry>,
    added: Seq<Utterance>,
    n: nat,
    i: int,
)
    requires
        n <= members.len(),
        n <= added.len(),
        0 <= i < n,
        forall|a: int, b: int|
            0 <= a < b < members.len() ==> (#[trigger] members[a]).agent != (
            #[trigger] members[b]).agent,
    ensures
        ({
            let t = round_recorded(s, members, added, n);
            &&& t.drafts.dom().contains(members[i].agent)
            &&& t.drafts[members[i].agent] == added[i].text
            &&& t.transcript[s.transcript.len() + i] == added[i]
            &&& t.last_seen.dom().contains(members[i].agent)
            &&& t.last_seen[members[i].agent] == (s.transcript.len() + i + 1) as usize
        }),
    decreases n,
{
    lemma_recorded_keeps(s, members, added, (n - 1) as nat);
    if i < n - 1 {
        lemma_recorded_drafts(s, members, added, (n - 1) as nat, i);
        assert(members[i].agent != members[n - 1].agent);
    }
}

proof fn lemma_going_on_keeps(s: State)
    ensures
        ({
            let d = discuss_rounds_on(s);
            let i = interact_rounds_on(s);
            &&& d.drafts == s.drafts && d.transcript == s.transcript && d.last_seen == s.last_seen
            &&& i.drafts == s.drafts && i.transcript == s.transcript && i.last_seen == s.last_seen
            &&& d.rounds_left == s.rounds_left && i.rounds_left == s.rounds_left
            &&& d.terminated == s.terminated && i.terminated == s.terminated
        }),
{
    lemma_asking_keeps(s, active(s), active(s).len());
    lemma_recommending_keeps(s);
}

proof fn lemma_recommending_keeps(s: State)
    ensures
        ({
            let r = recommend(s);
            &&& r.drafts == s.drafts && r.transcript == s.transcript && r.last_seen == s.last_seen
            &&& r.rounds_left == s.rounds_left && r.terminated == s.terminated
        }),
{
    lemma_voting_keeps(
        State { voter: 0, votes: Seq::empty(), ..in_phase(s, Phase::Recommending) },
    );
}

proof fn lemma_voting_keeps(s: State)
    ensures
        ({
            let r = next_vote(s);
            &&& r.drafts == s.drafts && r.transcript == s.transcript && r.last_seen == s.last_seen
            &&& r.rounds_left == s.rounds_left && r.terminated == s.terminated
        }),
    decreases s.roster.len() - s.voter,
{
    if s.voter < s.roster.len() {
        lemma_voting_keeps(State { voter: s.voter + 1, ..s });
    }
}

/// When a round is over, the last whole reply of each planner is recorded under
/// its label and role and kept as its draft, and the planner has seen all up to
/// its own contribution.
pub proof fn law_rounds_keep_what_each_planner_said(pre: State, input: Input, post: State, i: int)
    requires
        pre.stage is Round,
        step(pre, input, post),
        post.transcript.len() > pre.transcript.len(),
        0 <= i < pre.stage->members.len(),
        forall|a: int, b: int|
            0 <= a < b < pre.stage->members.len() ==> (#[trigger] pre.stage->members[a]).agent != (
            #[trigger] pre.stage->members[b]).agent,
    ensures
        ({
            let e = pre.stage->members[i];
            let said = spoken(pre.stage->finals, e.agent);
            &&& post.transcript.len() == pre.transcript.len() + pre.stage->members.len()
            &&& post.transcript[pre.transcript.len() + i].label == e.label
            &&& post.transcript[pre.transcript.len() + i].role == e.role
            &&& post.transcript[pre.transcript.len() + i].text@ == said
            &&& post.drafts.dom().contains(e.agent)
            &&& post.drafts[e.agent]@ == said
            &&& post.last_seen.dom().contains(e.agent)
            &&& post.last_seen[e.agent] == (pre.transcript.len() + i + 1) as usize
            &&& !post.first_round
            &&& post.rounds_left == (if pre.rounds_left > 0 {
                pre.rounds_left - 1
            } else {
                0
            })
        }),
{
    lemma_round_is_recorded(pre, input, post);
    let t = round_base(pre, input);
    let members = pre.stage->members;
    let finals = round_finals(pre, input);
    let added = choose|added: Seq<Utterance>| #[trigger]
        are_contributions(added, members, finals) && post == round_over(t, members, added);
    lemma_recorded_keeps(t, members, added, members.len());
    lemma_recorded_drafts(t, members, added, members.len(), i);
    lemma_going_on_keeps(after_recording(t, members, added));
    lemma_first_stays(after_recording(t, members, added));
    lemma_spoken(finals, members[i].agent);
    assert(crate::machine::is_contribution(
        added[i],
        members[i],
        final_of(finals, members[i].agent),
    ));
    if let Input::Event(e) = input {
        lemma_last_report_is_no_reply(pre, e, post);
    }
}

proof fn lemma_first_stays(s: State)
    ensures
        discuss_rounds_on(s).first_round == s.first_round,
        interact_rounds_on(s).first_round == s.first_round,
{
    lemma_asking_keeps(s, active(s), active(s).len());
    lemma_voting_first(
        State { voter: 0, votes: Seq::empty(), ..in_phase(s, Phase::Recommending) },
    );
}

proof fn lemma_voting_first(s: State)
    ensures
        next_vote(s).first_round == s.first_round,
    decreases s.roster.len() - s.voter,
{
    if s.voter < s.roster.len() {
        lemma_voting_first(State { voter: s.voter + 1, ..s });
    }
}

proof fn lemma_last_report_is_no_reply(pre: State, e: AgentEvent, post: State)
    requires
        pre.stage is Round,
        step(pre, Input::Event(e), post),
        post.transcript.len() > pre.transcript.len(),
    ensures
        round_finals(pre, Input::Event(e)) == pre.stage->finals,
{
    let pending = pre.stage->Round_pending;
    if e is MessageFinal {
        assert(pending.contains(crate::agent::agent_of(e@)));
        assert(pending_after(pending, e) == pending);
        assert(pending.len() > 0);
        assert(false);
    }
}

} // verus!
