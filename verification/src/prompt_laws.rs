//! What holds of the prompts: what each of them tells its agent, and what it
//! leaves out.
use vstd::prelude::*;
use crate::blackboard::{
    by_humans, by_planners, last_n, transcript_after, transcript_view, utterance_block, Utterance,
};
use crate::changes::{handoff_text, LocalChangeSummary};
use crate::conductor::{plans, role_name, Role};
use crate::context::{
    bounded, budgeted_sections, context_block, is_packet, shared_budget, told_sections,
};
use crate::handoff::{
    execution_packet, note_block, notes_section, output_block, outputs_section,
    packet_recommendation, packet_sections, recent_notes, recent_outputs, vote_context,
};
use crate::prompts::{
    change_note, execution_prompt, proposals, round_one_prompt, round_prompt, turn_prompt,
    vote_discussion, vote_prompt, vote_repair_prompt, REVIEW_RULES, SYNTHESIS_RULES,
};
use crate::recommend::Recommendation;
use crate::scan::{is_blank, trim};
use crate::text::{flat, is_space};
use crate::text_laws::{
    group_says, law_budgets_cut_the_beginning_alone, law_concatenation_keeps_every_part,
    law_joining_keeps_every_part, law_trimming_takes_outer_space_alone, lemma_says_all_each,
    lemma_says_in, lemma_says_through, lemma_trim_ends, lemma_trim_says, says, says_all, says_at,
};

verus! {

/// Whether a text of so many characters goes into a budget whole.
pub open spec fn roomy(budget: Option<usize>, chars: nat) -> bool {
    match budget {
        None => true,
        Some(n) => n == 0 || chars <= n,
    }
}

/// A part that neither begins nor ends with white space is in what a budget
/// leaves of a text that fits, where it is in the text.
pub proof fn lemma_bounded_says(text: Seq<char>, budget: Option<usize>, part: Seq<char>)
    requires
        roomy(budget, text.len()),
        says(text, part),
        part.len() > 0,
        !is_space(part[0]),
        !is_space(part.last()),
    ensures
        says(bounded(text, budget), part),
{
    law_trimming_takes_outer_space_alone(text);
    lemma_trim_says(text, part);
    match budget {
        None => {
            law_budgets_cut_the_beginning_alone(text, 0);
        },
        Some(n) => {
            law_budgets_cut_the_beginning_alone(text, n);
        },
    }
}

// ---- Rounds --------------------------------------------------------------------

/// In a later round a planner is told the task and what the others proposed;
/// where it does not remember its own proposal it is told that too.
pub proof fn law_round_prompts_tell_the_proposals(
    task: Seq<char>,
    others: Seq<char>,
    synthesize: bool,
    resumable: bool,
    own: Seq<char>,
    budget: Option<usize>,
    part: Seq<char>,
)
    requires
        part.len() > 0,
        !is_space(part[0]),
        !is_space(part.last()),
    ensures
        says(round_prompt(task, others, synthesize, resumable, own, budget), task),
        says(others, part) && roomy(budget, 2 * others.len() + 1) ==> says(
            round_prompt(task, others, synthesize, resumable, own, budget),
            part,
        ),
        !resumable && says(own, part) && roomy(budget, 2 * own.len() + 1) ==> says(
            round_prompt(task, others, synthesize, false, own, budget),
            part,
        ),
{
    broadcast use group_says;

    let p = round_prompt(task, others, synthesize, resumable, own, budget);
    let share = shared_budget(budget, 2);
    let body = proposals(others, resumable, own, budget);
    if says(others, part) && roomy(budget, 2 * others.len() + 1) {
        lemma_bounded_says(others, share, part);
        lemma_trim_says(bounded(others, share), part);
        lemma_bounded_says(others, budget, part);
        lemma_trim_says(bounded(others, budget), part);
        assert(says(body, part));
    }
    if !resumable && says(own, part) && roomy(budget, 2 * own.len() + 1) {
        lemma_bounded_says(own, share, part);
        lemma_trim_says(bounded(own, share), part);
        lemma_not_blank(own, part);
        assert(says(body, part));
    }
}

proof fn lemma_not_blank(text: Seq<char>, part: Seq<char>)
    requires
        says(text, part),
        part.len() > 0,
        !is_space(part[0]),
    ensures
        !is_blank(text),
{
    law_trimming_takes_outer_space_alone(text);
    reveal(says);
    let i = choose|i: int| #[trigger] says_at(text, i, part);
    assert(text[i] == text.subrange(i, i + part.len())[0]);
}

/// A planner that resumes its session is told the same whatever it proposed
/// itself.
pub proof fn law_resumed_planners_are_not_told_their_own(
    task: Seq<char>,
    others: Seq<char>,
    synthesize: bool,
    own: Seq<char>,
    other_own: Seq<char>,
    budget: Option<usize>,
)
    ensures
        round_prompt(task, others, synthesize, true, own, budget) == round_prompt(
            task,
            others,
            synthesize,
            true,
            other_own,
            budget,
        ),
{
}

/// Whether the prompt of a planner without a memory of its own is its own
/// proposal between two texts, whatever that proposal.
pub open spec fn stands_apart(
    task: Seq<char>,
    others: Seq<char>,
    synthesize: bool,
    budget: Option<usize>,
    x: Seq<char>,
    y: Seq<char>,
) -> bool {
    forall|mine: Seq<char>|
        !is_blank(mine) ==> #[trigger] round_prompt(task, others, synthesize, false, mine, budget)
            == x + trim(bounded(mine, shared_budget(budget, 2))) + y
}

/// What a planner without a memory of its own proposed stands in a section of
/// its own: nothing else in its prompt depends on it.
pub proof fn law_own_proposals_stand_apart(
    task: Seq<char>,
    others: Seq<char>,
    synthesize: bool,
    budget: Option<usize>,
)
    ensures
        exists|x: Seq<char>, y: Seq<char>| #[trigger]
            stands_apart(task, others, synthesize, budget, x, y),
{
    let share = shared_budget(budget, 2);
    let rules = if synthesize {
        SYNTHESIS_RULES@
    } else {
        REVIEW_RULES@
    };
    let x = "Task: "@ + task + "\n\n"@ + "Your proposal:\n"@;
    let y = "\n\nThe other planner proposed:\n"@ + trim(bounded(others, share)) + rules;
    assert forall|mine: Seq<char>| !is_blank(mine) implies #[trigger] round_prompt(
        task,
        others,
        synthesize,
        false,
        mine,
        budget,
    ) == x + trim(bounded(mine, share)) + y by {
        assert(round_prompt(task, others, synthesize, false, mine, budget) =~= x + trim(
            bounded(mine, share),
        ) + y);
    }
    assert(stands_apart(task, others, synthesize, budget, x, y));
}

/// In the first round a planner is told the task and the project context, and
/// nothing of any proposal.
pub proof fn law_first_rounds_tell_the_task(
    task: Seq<char>,
    project: Seq<char>,
    budget: Option<usize>,
    part: Seq<char>,
)
    requires
        part.len() > 0,
        !is_space(part[0]),
        !is_space(part.last()),
    ensures
        says(round_one_prompt(task, Some(project), budget), task),
        says(round_one_prompt(task, None, budget), task),
        says(project, part) && roomy(budget, project.len()) ==> says(
            round_one_prompt(task, Some(project), budget),
            part,
        ),
{
    broadcast use group_says;

    if says(project, part) && roomy(budget, project.len()) {
        lemma_block_says(project, budget, part);
    }
}

proof fn lemma_block_says(project: Seq<char>, budget: Option<usize>, part: Seq<char>)
    requires
        part.len() > 0,
        !is_space(part[0]),
        !is_space(part.last()),
        says(project, part),
        roomy(budget, project.len()),
    ensures
        says(context_block(Some(project), budget), part),
{
    broadcast use group_says;

    lemma_not_blank(project, part);
    lemma_trim_says(project, part);
    law_trimming_takes_outer_space_alone(project);
}

// ---- Votes -----------------------------------------------------------------------

/// A voter is told the task and every candidate, in order; where it does not
/// remember the discussion it is told that too, and else it is told the same
/// whatever was discussed.
pub proof fn law_voters_are_told_the_candidates(
    task: Seq<char>,
    candidates: Seq<Seq<char>>,
    context: Seq<char>,
    other: Seq<char>,
    part: Seq<char>,
)
    requires
        part.len() > 0,
        !is_space(part[0]),
        !is_space(part.last()),
    ensures
        says(vote_prompt(task, candidates, true, context), task),
        says(vote_prompt(task, candidates, false, context), task),
        says_all(vote_prompt(task, candidates, true, context), candidates),
        says_all(vote_prompt(task, candidates, false, context), candidates),
        says(context, part) ==> says(vote_prompt(task, candidates, false, context), part),
        vote_prompt(task, candidates, true, context) == vote_prompt(task, candidates, true, other),
{
    lemma_vote_prompt(task, candidates, true, context, part);
    lemma_vote_prompt(task, candidates, false, context, part);
}

proof fn lemma_vote_prompt(
    task: Seq<char>,
    candidates: Seq<Seq<char>>,
    resumable: bool,
    context: Seq<char>,
    part: Seq<char>,
)
    requires
        part.len() > 0,
        !is_space(part[0]),
        !is_space(part.last()),
    ensures
        says(vote_prompt(task, candidates, resumable, context), task),
        says_all(vote_prompt(task, candidates, resumable, context), candidates),
        !resumable && says(context, part) ==> says(
            vote_prompt(task, candidates, resumable, context),
            part,
        ),
{
    broadcast use group_says;

    law_joining_keeps_every_part(candidates, ", "@, Seq::empty());
    if !resumable && says(context, part) {
        lemma_discussion_says(context, part);
    }
}

proof fn lemma_discussion_says(context: Seq<char>, part: Seq<char>)
    requires
        part.len() > 0,
        !is_space(part[0]),
        !is_space(part.last()),
        says(context, part),
    ensures
        says(vote_discussion(false, context), part),
{
    broadcast use group_says;

    lemma_not_blank(context, part);
    lemma_trim_says(context, part);
}

/// Who is asked for a vote again is told the task, every candidate, and the end
/// of what it replied.
pub proof fn law_repairs_show_the_reply(
    task: Seq<char>,
    candidates: Seq<Seq<char>>,
    resumable: bool,
    context: Seq<char>,
    previous: Seq<char>,
    part: Seq<char>,
)
    requires
        part.len() > 0,
        !is_space(part[0]),
        !is_space(part.last()),
    ensures
        says(vote_repair_prompt(task, candidates, resumable, context, previous), task),
        says_all(vote_repair_prompt(task, candidates, resumable, context, previous), candidates),
        says(previous, part) && previous.len() <= 1_200 ==> says(
            vote_repair_prompt(task, candidates, resumable, context, previous),
            part,
        ),
        !resumable && says(context, part) ==> says(
            vote_repair_prompt(task, candidates, resumable, context, previous),
            part,
        ),
        trim(previous).len() > 1_200 ==> says(
            vote_repair_prompt(task, candidates, resumable, context, previous),
            trim(previous).skip(trim(previous).len() - 1_200),
        ),
{
    broadcast use group_says;

    let shown = bounded(previous, Some(1_200));
    law_joining_keeps_every_part(candidates, " | "@, Seq::empty());
    law_budgets_cut_the_beginning_alone(previous, 1_200);
    if says(previous, part) && previous.len() <= 1_200 {
        lemma_bounded_says(previous, Some(1_200), part);
    }
    if !resumable && says(context, part) {
        lemma_discussion_says(context, part);
    }
    if trim(previous).len() > 1_200 {
        let end = trim(previous).skip(trim(previous).len() - 1_200);
        assert(shown =~= shown.take(shown.len() - 1_200) + end);
        assert(says(shown, end));
    }
}

// ---- Turns -----------------------------------------------------------------------

/// An utterance with its speaker's label and role above it, up to a character
/// that is no white space.
pub open spec fn heard(u: Utterance, n: int) -> Seq<char> {
    "["@ + u.label@ + " — "@ + role_name(u.role) + "]\n"@ + u.text@.take(n)
}

proof fn lemma_heard_block(u: Utterance, n: int)
    requires
        0 < n <= u.text@.len(),
        !is_space(u.text@[n - 1]),
    ensures
        says(utterance_block(u), heard(u, n)),
        heard(u, n).len() > 0,
        !is_space(heard(u, n)[0]),
        !is_space(heard(u, n).last()),
{
    let h = "["@ + u.label@ + " — "@ + role_name(u.role) + "]\n"@;
    let rest = u.text@.skip(n) + "\n\n"@;
    assert(u.text@ =~= u.text@.take(n) + u.text@.skip(n));
    assert(h + u.text@ + "\n\n"@ =~= (h + u.text@.take(n)) + rest);
    lemma_says_in(Seq::empty(), heard(u, n), rest);
    reveal_strlit("[");
    assert(heard(u, n)[0] == '[');
    assert(heard(u, n).last() == u.text@[n - 1]);
}

proof fn lemma_heard(t: Seq<Utterance>, k: int, n: int)
    requires
        0 <= k < t.len(),
        0 < n <= t[k].text@.len(),
        !is_space(t[k].text@[n - 1]),
    ensures
        says(transcript_view(t), heard(t[k], n)),
        heard(t[k], n).len() > 0,
        !is_space(heard(t[k], n)[0]),
        !is_space(heard(t[k], n).last()),
{
    broadcast use group_says;

    let parts = Seq::new(t.len(), |i: int| utterance_block(t[i]));
    law_concatenation_keeps_every_part(parts, Seq::empty());
    lemma_says_all_each(flat(parts), parts, k);
    let u = t[k];
    lemma_heard_block(u, n);
    lemma_says_through(transcript_view(t), utterance_block(u), heard(u, n));
}

/// A planner that resumes its session is told, after its first turn, everything
/// that is new, with who said it. `n` is where one of its texts is cut that ends
/// with white space.
pub proof fn law_resumed_planners_hear_all_news(
    role: Role,
    task: Seq<char>,
    t: Seq<Utterance>,
    from: usize,
    budget: Option<usize>,
    project: Option<Seq<char>>,
    k: int,
    n: int,
)
    requires
        role == Role::Drafter || role == Role::Critic,
        from <= k < t.len(),
        0 < n <= t[k].text@.len(),
        !is_space(t[k].text@[n - 1]),
        roomy(budget, transcript_after(t, from).len()),
    ensures
        says(
            turn_prompt(role, task, t, true, transcript_after(t, from), false, budget, project),
            heard(t[k], n),
        ),
        role == Role::Critic ==> says(
            turn_prompt(role, task, t, true, transcript_after(t, from), true, budget, project),
            heard(t[k], n),
        ),
{
    broadcast use group_says;

    let delta = transcript_after(t, from);
    let part = heard(t[k], n);
    let tail = t.skip(from as int);
    assert(tail[k - from] == t[k]);
    lemma_heard(tail, k - from, n);
    lemma_bounded_says(delta, budget, part);
}

/// A drafter without a memory of its own is told the whole discussion with who
/// said what, and a critic without one what was said last.
pub proof fn law_planners_without_memory_are_told_the_discussion(
    task: Seq<char>,
    t: Seq<Utterance>,
    delta: Seq<char>,
    first_time: bool,
    budget: Option<usize>,
    project: Option<Seq<char>>,
    k: int,
    n: int,
)
    requires
        0 <= k < t.len(),
        0 < n <= t[k].text@.len(),
        !is_space(t[k].text@[n - 1]),
        roomy(budget, transcript_view(t).len()),
        roomy(budget, t.last().text@.len()),
    ensures
        says(
            turn_prompt(Role::Drafter, task, t, false, delta, first_time, budget, project),
            heard(t[k], n),
        ),
        says(
            turn_prompt(Role::Critic, task, t, false, delta, first_time, budget, project),
            trim(t.last().text@),
        ),
{
    broadcast use group_says;

    let part = heard(t[k], n);
    lemma_heard(t, k, n);
    lemma_bounded_says(transcript_view(t), budget, part);
    law_trimming_takes_outer_space_alone(t.last().text@);
}

/// Whoever is new to a discussion, and whoever has no memory of it, is told the
/// task; and whoever is new the project context.
pub proof fn law_newcomers_are_told_the_task(
    role: Role,
    task: Seq<char>,
    t: Seq<Utterance>,
    resumable: bool,
    delta: Seq<char>,
    first_time: bool,
    budget: Option<usize>,
    project: Seq<char>,
    part: Seq<char>,
)
    requires
        first_time || !resumable,
        part.len() > 0,
        !is_space(part[0]),
        !is_space(part.last()),
    ensures
        says(
            turn_prompt(role, task, t, resumable, delta, first_time, budget, Some(project)),
            task,
        ),
        first_time && (role == Role::Drafter || role == Role::Critic) && says(project, part)
            && roomy(budget, project.len()) ==> says(
            turn_prompt(role, task, t, resumable, delta, first_time, budget, Some(project)),
            part,
        ),
{
    broadcast use group_says;

    if says(project, part) && roomy(budget, project.len()) {
        lemma_block_says(project, budget, part);
    }
}

// ---- The handoff -----------------------------------------------------------------

/// The last few of a list are its end, as many as asked for or all of them.
pub proof fn law_the_last_few_are_the_end<A>(s: Seq<A>, n: nat)
    ensures
        last_n(s, n).len() == (if s.len() < n {
            s.len()
        } else {
            n
        }),
        forall|i: int|
            0 <= i < last_n(s, n).len() ==> (#[trigger] last_n(s, n)[i]) == s[s.len() - last_n(
                s,
                n,
            ).len() + i],
{
}

/// Whether an utterance is among the last four by planners.
pub open spec fn is_recent_output(t: Seq<Utterance>, u: Utterance) -> bool {
    exists|i: int|
        0 <= i < 4 && i < by_planners(t).len() && #[trigger] by_planners(t)[by_planners(t).len() - 1 - i]
            == u
}

/// Whether an utterance is among the last three by the user.
pub open spec fn is_recent_note(t: Seq<Utterance>, u: Utterance) -> bool {
    exists|i: int|
        0 <= i < 3 && i < by_humans(t).len() && #[trigger] by_humans(t)[by_humans(t).len() - 1 - i]
            == u
}

/// Planners are drafters and critics; what the user and executors say is not
/// theirs. Both kinds keep their order.
pub proof fn law_utterances_are_told_apart(t: Seq<Utterance>)
    ensures
        by_planners(t) == t.filter(
            |u: Utterance| u.role == Role::Drafter || u.role == Role::Critic,
        ),
        by_humans(t) == t.filter(|u: Utterance| u.role == Role::Human),
{
    let p = |u: Utterance| plans(u.role);
    let q = |u: Utterance| u.role == Role::Drafter || u.role == Role::Critic;
    assert(p =~= q);
}

proof fn lemma_outputs_say(t: Seq<Utterance>, u: Utterance)
    requires
        is_recent_output(t, u),
    ensures
        says(outputs_section(t), u.label@ + " — "@ + role_name(u.role)),
        says(outputs_section(t), trim(u.text@)),
{
    broadcast use group_says;

    let all = by_planners(t);
    let few = recent_outputs(t);
    let i = choose|i: int| 0 <= i < 4 && i < all.len() && #[trigger] all[all.len() - 1 - i] == u;
    let k = few.len() - 1 - i;
    assert(few[k] == u);
    let parts = Seq::new(few.len(), |j: int| output_block(few[j]));
    law_concatenation_keeps_every_part(parts, Seq::empty());
    lemma_says_all_each(flat(parts), parts, k);
    let who = u.label@ + " — "@ + role_name(u.role);
    assert("["@ + u.label@ + " — "@ + role_name(u.role) =~= "["@ + who);
    assert(says("["@ + u.label@ + " — "@ + role_name(u.role), who));
    assert(says(output_block(u), who));
    assert(says(output_block(u), trim(u.text@)));
    assert(says(outputs_section(t), parts[k]));
    lemma_says_through(outputs_section(t), output_block(u), who);
    lemma_says_through(outputs_section(t), output_block(u), trim(u.text@));
}

proof fn lemma_notes_say(t: Seq<Utterance>, u: Utterance)
    requires
        is_recent_note(t, u),
    ensures
        says(notes_section(t), trim(u.text@)),
        recent_notes(t).len() > 0,
{
    broadcast use group_says;

    let all = by_humans(t);
    let few = recent_notes(t);
    let i = choose|i: int| 0 <= i < 3 && i < all.len() && #[trigger] all[all.len() - 1 - i] == u;
    let k = few.len() - 1 - i;
    assert(few[k] == u);
    let parts = Seq::new(few.len(), |j: int| note_block(few[j]));
    law_concatenation_keeps_every_part(parts, Seq::empty());
    lemma_says_all_each(flat(parts), parts, k);
    assert(says(note_block(u), trim(u.text@)));
    assert(says(notes_section(t), parts[k]));
    lemma_says_through(notes_section(t), note_block(u), trim(u.text@));
}

/// What voters are told of the discussion holds the last four outputs of
/// planners and the last three notes of the user.
pub proof fn law_voters_hear_the_latest(t: Seq<Utterance>, budget: Option<usize>, u: Utterance)
    requires
        is_recent_output(t, u) || is_recent_note(t, u),
        !is_blank(u.text@),
        roomy(budget, notes_section(t).len() + 1 + outputs_section(t).len()),
    ensures
        says(vote_context(t, budget), trim(u.text@)),
{
    broadcast use group_says;

    reveal_strlit("\n");
    let notes = notes_section(t);
    let whole = (if notes.len() == 0 {
        notes
    } else {
        notes + "\n"@
    }) + outputs_section(t);
    let part = trim(u.text@);
    if is_recent_output(t, u) {
        lemma_outputs_say(t, u);
    } else {
        lemma_notes_say(t, u);
        if notes.len() == 0 {
            assert(says(notes, part));
        }
    }
    assert(says(whole, part));
    lemma_trim_ends(u.text@);
    lemma_bounded_says(whole, budget, part);
}

proof fn lemma_told_section(sections: Seq<Seq<char>>, k: int)
    requires
        0 <= k < sections.len(),
        !is_blank(sections[k]),
    ensures
        exists|j: int|
            0 <= j < told_sections(sections).len() && #[trigger] told_sections(sections)[j] == trim(
                sections[k],
            ),
    decreases sections.len(),
{
    let told = told_sections(sections);
    let init = sections.drop_last();
    let before = told_sections(init);
    if k == sections.len() - 1 {
        assert(told[told.len() - 1] == trim(sections[k]));
    } else {
        assert(init[k] == sections[k]);
        lemma_told_section(init, k);
        let j = choose|j: int| 0 <= j < before.len() && #[trigger] before[j] == trim(init[k]);
        assert(told[j] == before[j]);
    }
}

proof fn lemma_sections_say(sections: Seq<Seq<char>>, k: int, part: Seq<char>)
    requires
        0 <= k < sections.len(),
        says(sections[k], part),
        part.len() > 0,
        !is_space(part[0]),
        !is_space(part.last()),
    ensures
        says(budgeted_sections(sections, None), part),
{
    broadcast use group_says;

    lemma_not_blank(sections[k], part);
    lemma_told_section(sections, k);
    let told = told_sections(sections);
    let j = choose|j: int| 0 <= j < told.len() && #[trigger] told[j] == trim(sections[k]);
    lemma_trim_says(sections[k], part);
    let parts = Seq::new(told.len(), |i: int| "\n"@ + told[i] + "\n"@);
    law_concatenation_keeps_every_part(parts, Seq::empty());
    lemma_says_all_each(flat(parts), parts, j);
    assert(says(parts[j], part));
    lemma_says_through(flat(parts), parts[j], part);
}

/// The handoff to an executor names the task and the executor. Where nothing has
/// to be left out it holds who was recommended, the last notes of the user, the
/// last outputs of the planners and the local changes.
pub proof fn law_handoffs_hold_what_was_agreed(
    task: Seq<char>,
    executor: Seq<char>,
    t: Seq<Utterance>,
    rec: Option<Recommendation>,
    budget: Option<usize>,
    changes: Option<LocalChangeSummary>,
    u: Utterance,
)
    ensures
        says(execution_packet(task, executor, t, rec, budget, changes), task),
        says(execution_packet(task, executor, t, rec, budget, changes), executor),
        is_packet(execution_packet(task, executor, t, rec, budget, changes)),
        (is_recent_output(t, u) || is_recent_note(t, u)) && !is_blank(u.text@) ==> says(
            execution_packet(task, executor, t, rec, None, changes),
            trim(u.text@),
        ),
        rec matches Some(r) ==> !is_blank(r.executor@) ==> says(
            execution_packet(task, executor, t, rec, None, changes),
            trim(r.executor@),
        ),
{
    lemma_packet_header(task, executor, t, rec, budget, changes);
    let sections = packet_sections(t, rec, changes);
    let first: int = if rec is Some {
        1
    } else {
        0
    };
    let notes: int = if recent_notes(t).len() == 0 {
        0
    } else {
        1
    };
    if (is_recent_output(t, u) || is_recent_note(t, u)) && !is_blank(u.text@) {
        lemma_trim_ends(u.text@);
        if is_recent_output(t, u) {
            lemma_outputs_say(t, u);
            assert(sections[first + notes] == outputs_section(t));
            lemma_sections_say(sections, first + notes, trim(u.text@));
        } else {
            lemma_notes_say(t, u);
            assert(sections[first] == notes_section(t));
            lemma_sections_say(sections, first, trim(u.text@));
        }
        lemma_packet_says(task, executor, t, rec, changes, trim(u.text@));
    }
    if let Some(r) = rec {
        if !is_blank(r.executor@) {
            lemma_trim_ends(r.executor@);
            lemma_recommendation_says(r);
            assert(sections[0] == packet_recommendation(r));
            lemma_says_through(packet_recommendation(r), r.executor@, trim(r.executor@));
            lemma_sections_say(sections, 0, trim(r.executor@));
            lemma_packet_says(task, executor, t, rec, changes, trim(r.executor@));
        }
    }
}

proof fn lemma_recommendation_says(r: Recommendation)
    ensures
        says(packet_recommendation(r), r.executor@),
{
    broadcast use group_says;

}

proof fn lemma_packet_says(
    task: Seq<char>,
    executor: Seq<char>,
    t: Seq<Utterance>,
    rec: Option<Recommendation>,
    changes: Option<LocalChangeSummary>,
    part: Seq<char>,
)
    requires
        says(budgeted_sections(packet_sections(t, rec, changes), None), part),
    ensures
        says(execution_packet(task, executor, t, rec, None, changes), part),
{
    broadcast use group_says;

}

proof fn lemma_packet_header(
    task: Seq<char>,
    executor: Seq<char>,
    t: Seq<Utterance>,
    rec: Option<Recommendation>,
    budget: Option<usize>,
    changes: Option<LocalChangeSummary>,
)
    ensures
        says(execution_packet(task, executor, t, rec, budget, changes), task),
        says(execution_packet(task, executor, t, rec, budget, changes), executor),
        is_packet(execution_packet(task, executor, t, rec, budget, changes)),
{
    broadcast use group_says;

    let p = execution_packet(task, executor, t, rec, budget, changes);
    reveal_strlit("Execution packet\nTask: ");
    reveal_strlit("Execution packet\n");
    let head = "Execution packet\nTask: "@;
    assert(p.subrange(0, 23) =~= head);
    assert(head.subrange(0, 17) =~= "Execution packet\n"@);
    assert(head[0] == 'E');
    assert(p[0] == 'E' && p[21] == ':');
    assert(head[21] == ':');
    law_trimming_takes_outer_space_alone(p);
    let (a, b) = choose|a: int, b: int|
        #![trigger p.subrange(a, b)]
        0 <= a <= b <= p.len() && trim(p) == p.subrange(a, b) && (forall|i: int|
            0 <= i < a ==> is_space(#[trigger] p[i])) && (forall|i: int|
            b <= i < p.len() ==> is_space(#[trigger] p[i])) && (a < b ==> !is_space(p[a])
            && !is_space(p[b - 1]));
    assert(a == 0) by {
        if a > 0 {
            assert(is_space(p[0]));
        }
    }
    assert(b > 21) by {
        if b <= 21 {
            assert(is_space(p[21]));
        }
    }
    assert(trim(p).subrange(0, 17) =~= "Execution packet\n"@) by {
        assert forall|i: int| 0 <= i < 17 implies trim(p)[i] == head[i] by {
            assert(p.subrange(0, 23)[i] == head[i]);
        }
    }
}

/// An executor that was not part of the discussion is told the task and the whole
/// handoff, whatever the budget, since the handoff is within it already; one that
/// was is told the task, and of the local changes.
pub proof fn law_executors_are_told_the_handoff(
    task: Seq<char>,
    packet: Seq<char>,
    budget: Option<usize>,
    changes: Option<LocalChangeSummary>,
    part: Seq<char>,
)
    requires
        part.len() > 0,
        !is_space(part[0]),
        !is_space(part.last()),
    ensures
        says(execution_prompt(task, packet, true, budget, changes), task),
        says(execution_prompt(task, packet, false, budget, changes), task),
        is_packet(packet) && says(packet, part) ==> says(
            execution_prompt(task, packet, false, budget, changes),
            part,
        ),
        says(packet, part) && roomy(budget, packet.len()) ==> says(
            execution_prompt(task, packet, false, budget, changes),
            part,
        ),
        changes matches Some(c) ==> handoff_text(c).len() <= 2_000 && says(handoff_text(c), part)
            ==> says(execution_prompt(task, packet, true, budget, changes), part),
{
    broadcast use group_says;

    if says(packet, part) {
        lemma_trim_says(packet, part);
        if !is_packet(packet) && roomy(budget, packet.len()) {
            law_trimming_takes_outer_space_alone(packet);
            lemma_bounded_says(trim(packet), budget, part);
        }
    }
    if let Some(c) = changes {
        if handoff_text(c).len() <= 2_000 && says(handoff_text(c), part) {
            lemma_bounded_says(handoff_text(c), Some(2_000), part);
            assert(says(change_note(changes), part));
        }
    }
}

} // verus!
