//! What holds of how a context is fitted into its budget, and of the plans that a
//! conductor learns from.
use vstd::prelude::*;
use crate::context::{
    body_budget, body_of, bounded, bounded_edges, bounded_project, bounded_project_section,
    bounded_section, budgeted_sections, capped_marker, capped_sections, context_block,
    execution_context, head_share, heading_of, is_heading, project_sections, section_lines,
    sections_from, shared_budget, tail_of, tail_share, told_sections,
};
use crate::coordinator::{shape_word, Shape};
use crate::count_laws::tells;
use crate::dataset::{
    coordination_doc, escalate_doc, escalation_causes, is_hard, plan_doc, plan_driver, plan_reason,
    risk_list, role_order, roster_doc, roster_rows, touches, verify_doc, verify_method,
};
use crate::json::{jbool, jstr, jtexts};
use crate::numeral::dec;
use crate::scan::{is_blank, lines_of, starts, trim};
use crate::text::flat;
use crate::text_laws::{
    group_says, law_concatenation_keeps_every_part, law_trimming_takes_outer_space_alone,
    lemma_says_all_each, lemma_says_through, lemma_trim_ends, lemma_trim_says, says,
};
use crate::vocabulary::{
    algorithmic_words_spec, ambiguity_words_spec, breadth_words_spec, correctness_words_spec,
    volume_words_spec,
};

verus! {

// ---- Budgets -----------------------------------------------------------------------

/// A text that is cut in the middle keeps its beginning and its end: half of the
/// budget each, and all of the budget together. A text that fits, or that has no
/// limit, is left whole.
pub proof fn law_edges_are_kept(text: Seq<char>, m: usize)
    ensures
        bounded_edges(text, None) == trim(text),
        bounded_edges(text, Some(0)) == trim(text),
        trim(text).len() <= m ==> bounded_edges(text, Some(m)) == trim(text),
        m > 0 && trim(text).len() > m ==> says(
            bounded_edges(text, Some(m)),
            trim(text).take(head_share(m as nat) as int),
        ) && says(bounded_edges(text, Some(m)), tail_of(trim(text), tail_share(m as nat))),
        m >= 2 ==> head_share(m as nat) + tail_share(m as nat) == m,
        m >= 2 ==> head_share(m as nat) <= tail_share(m as nat) <= head_share(m as nat) + 1,
        head_share(m as nat) >= 1 && tail_share(m as nat) >= 1,
{
    broadcast use group_says;

}

/// Each of several sections has the same share of the budget, and no more than a
/// character for each is left over.
pub proof fn law_shares_are_even(m: usize, n: nat)
    requires
        n > 1,
        m >= n,
    ensures
        shared_budget(Some(m), n) matches Some(share) && share * n <= m && m < (share + 1) * n,
        shared_budget(None, n) is None,
        shared_budget(Some(m), 1) == Some(m),
{
    crate::count_laws::lemma_quotient(m as int, n as int);
    assert((m as int) / (n as int) >= 1) by {
        vstd::arithmetic::div_mod::lemma_div_is_ordered(n as int, m as int, n as int);
        vstd::arithmetic::div_mod::lemma_div_by_self(n as int);
    }
}

/// A section's heading and its body share what the section may take.
pub proof fn law_headings_count(heading: Seq<char>, m: usize)
    ensures
        body_budget(heading, None) is None,
        m > heading.len() + 1 ==> (body_budget(heading, Some(m)) matches Some(b) && heading.len() + 1
            + b == m),
        m <= heading.len() + 1 ==> body_budget(heading, Some(m)) == Some(1usize),
{
}

/// The sections that have anything to say are told, in order, without the space
/// around them.
pub proof fn law_blank_sections_are_left_out(sections: Seq<Seq<char>>, s: Seq<char>, i: int)
    ensures
        is_blank(s) ==> told_sections(sections.push(s)) == told_sections(sections),
        !is_blank(s) ==> told_sections(sections.push(s)) == told_sections(sections).push(trim(s)),
        told_sections(Seq::empty()).len() == 0,
        0 <= i < sections.len() && !is_blank(sections[i]) ==> told_sections(sections).contains(
            trim(sections[i]),
        ),
    decreases sections.len(),
{
    assert(sections.push(s).drop_last() =~= sections);
    if sections.len() > 0 {
        let t = sections.drop_last();
        law_blank_sections_are_left_out(t, s, i);
        if 0 <= i < sections.len() && !is_blank(sections[i]) {
            let all = told_sections(sections);
            if i < t.len() {
                assert(t[i] == sections[i]);
                let b = told_sections(t);
                let k = choose|k: int| 0 <= k < b.len() && b[k] == trim(sections[i]);
                assert(all[k] == trim(sections[i]));
            } else {
                assert(all[all.len() - 1] == trim(sections[i]));
            }
        }
    }
}

/// Within the budget every section is told in full; beyond it every section is still
/// there, with its heading.
pub proof fn law_every_section_is_told(sections: Seq<Seq<char>>, budget: Option<usize>, i: int)
    requires
        0 <= i < told_sections(sections).len(),
    ensures
        budget is None ==> says(budgeted_sections(sections, budget), told_sections(sections)[i]),
        budget matches Some(m) ==> trim(section_lines(told_sections(sections))).len() <= m ==> says(
            budgeted_sections(sections, budget),
            told_sections(sections)[i],
        ),
        budget matches Some(m) ==> trim(section_lines(told_sections(sections))).len() > m ==> says(
            budgeted_sections(sections, budget),
            bounded_section(
                told_sections(sections)[i],
                shared_budget(budget, told_sections(sections).len()),
            ),
        ),
        says(
            bounded_section(told_sections(sections)[i], budget),
            heading_of(told_sections(sections)[i]),
        ),
{
    broadcast use group_says;

    let told = told_sections(sections);
    let whole = Seq::new(told.len(), |k: int| "\n"@ + told[k] + "\n"@);
    let share = shared_budget(budget, told.len());
    let cut = Seq::new(told.len(), |k: int| "\n"@ + bounded_section(told[k], share) + "\n"@);
    law_concatenation_keeps_every_part(whole, Seq::empty());
    law_concatenation_keeps_every_part(cut, Seq::empty());
    lemma_says_all_each(flat(whole), whole, i);
    lemma_says_all_each(flat(cut), cut, i);
    assert(says(whole[i], told[i]));
    assert(says(cut[i], bounded_section(told[i], share)));
    lemma_says_through(flat(whole), whole[i], told[i]);
    lemma_says_through(flat(cut), cut[i], bounded_section(told[i], share));
}

/// A packet goes to the executor whole, however long it is; any other context is
/// fitted into the budget.
pub proof fn law_packets_go_whole(context: Seq<char>, budget: Option<usize>)
    ensures
        starts(trim(context), "Execution packet\n"@) ==> execution_context(context, budget) == trim(
            context,
        ),
        !starts(trim(context), "Execution packet\n"@) ==> execution_context(context, budget)
            == bounded(trim(context), budget),
{
}

proof fn lemma_sections(rest: Seq<Seq<char>>, current: Seq<char>, i: int)
    ensures
        0 <= i < sections_from(rest, current).len() ==> !is_blank(sections_from(rest, current)[i]),
        !is_blank(current) ==> sections_from(rest, current).len() > 0,
        !is_blank(current) && rest.len() > 0 && is_heading(rest[0]) ==> sections_from(
            rest,
            current,
        )[0] == trim(current),
        !is_blank(current) && (forall|k: int| 0 <= k < rest.len() ==> !is_heading(#[trigger] rest[k]))
            ==> sections_from(rest, current).len() <= 1,
    decreases rest.len(),
{
    if rest.len() == 0 {
        lemma_trim_ends(current);
        lemma_trimmed_blank(current);
    } else if is_heading(rest[0]) && !is_blank(current) {
        lemma_trimmed_blank(current);
        lemma_sections(rest.skip(1), rest[0] + "\n"@, i - 1);
    } else {
        lemma_sections(rest.skip(1), current + rest[0] + "\n"@, i);
        if !is_blank(current) {
            lemma_more_is_not_blank(current, rest[0] + "\n"@);
            assert(current + rest[0] + "\n"@ =~= current + (rest[0] + "\n"@));
        }
        assert forall|k: int| 0 <= k < rest.skip(1).len() implies rest.skip(1)[k] == rest[k + 1] by {}
        if forall|k: int| 0 <= k < rest.len() ==> !is_heading(#[trigger] rest[k]) {
            assert forall|k: int| 0 <= k < rest.skip(1).len() implies !is_heading(
                #[trigger] rest.skip(1)[k],
            ) by {
                assert(rest.skip(1)[k] == rest[k + 1]);
            }
        }
    }
}

proof fn lemma_trimmed_blank(s: Seq<char>)
    ensures
        is_blank(trim(s)) == is_blank(s),
{
    lemma_trim_ends(s);
    law_trimming_takes_outer_space_alone(s);
    law_trimming_takes_outer_space_alone(trim(s));
}

proof fn lemma_more_is_not_blank(a: Seq<char>, b: Seq<char>)
    requires
        !is_blank(a),
    ensures
        !is_blank(a + b),
{
    broadcast use group_says;

    lemma_trim_ends(a);
    lemma_says_through(a + b, a, trim(a));
    lemma_trim_says(a + b, trim(a));
    reveal(says);
}

/// A project context is parted at its headings, and no part is blank; within the
/// budget, or without a limit, it is told in full.
pub proof fn law_project_contexts_are_parted_at_headings(
    text: Seq<char>,
    max: Option<usize>,
    i: int,
)
    ensures
        0 <= i < project_sections(text).len() ==> !is_blank(project_sections(text)[i]),
        bounded_project(text, None) == trim(text),
        max matches Some(m) ==> m == 0 || trim(text).len() <= m ==> bounded_project(text, max)
            == trim(text),
        max matches Some(m) ==> m > 0 && trim(text).len() > m && project_sections(trim(text)).len()
            <= 1 ==> bounded_project(text, max) == bounded(trim(text), max),
        context_block(None, max).len() == 0,
        is_blank(text) ==> context_block(Some(text), max).len() == 0,
        !is_blank(text) ==> says(context_block(Some(text), max), bounded_project(trim(text), max)),
{
    broadcast use group_says;

    lemma_sections(lines_of(text), Seq::empty(), i);
}

/// A project context over its budget keeps every section: as many are told of as there
/// are, each with its heading.
pub proof fn law_capped_contexts_keep_their_headings(
    sections: Seq<Seq<char>>,
    share: Option<usize>,
    i: int,
)
    requires
        0 <= i < sections.len(),
    ensures
        says(capped_sections(sections, share), bounded_project_section(sections[i], share)),
        is_heading(heading_of(sections[i])) && !is_blank(body_of(sections[i])) ==> says(
            capped_sections(sections, share),
            heading_of(sections[i]),
        ),
        says(capped_marker(sections.len()), dec(sections.len())),
{
    broadcast use group_says;

    let parts = Seq::new(
        sections.len(),
        |k: int| bounded_project_section(sections[k], share) + "\n"@,
    );
    law_concatenation_keeps_every_part(parts, Seq::empty());
    lemma_says_all_each(flat(parts), parts, i);
    let b = bounded_project_section(sections[i], share);
    assert(says(parts[i], b));
    lemma_says_through(flat(parts), parts[i], b);
    if is_heading(heading_of(sections[i])) && !is_blank(body_of(sections[i])) {
        assert(says(b, heading_of(sections[i])));
        lemma_says_through(flat(parts), b, heading_of(sections[i]));
    }
}

// ---- Plans -----------------------------------------------------------------------------

/// A task is hard where one model does it alone or where it must be correct.
pub proof fn law_correct_tasks_are_hard(task: Seq<char>, s: Shape)
    ensures
        s is Solo ==> is_hard(task, s),
        touches(task, correctness_words_spec()) ==> is_hard(task, s),
        !(s is Solo) && !touches(task, correctness_words_spec()) ==> !is_hard(task, s),
{
}

/// The risks of a task are those that its words tell of; what would raise its tier is
/// a failed check, and beside it doubt where the task is not hard and care where it
/// must be correct.
pub proof fn law_risks_are_what_the_words_tell(task: Seq<char>, s: Shape)
    ensures
        touches(task, ambiguity_words_spec()) ==> risk_list(task).contains("unclear requirements"@),
        touches(task, breadth_words_spec()) ==> risk_list(task).contains("large blast radius"@),
        touches(task, correctness_words_spec()) ==> risk_list(task).contains(
            "correctness-critical"@,
        ),
        !touches(task, ambiguity_words_spec()) && !touches(task, breadth_words_spec()) && !touches(
            task,
            correctness_words_spec(),
        ) ==> risk_list(task).len() == 0,
        escalation_causes(task, s).contains("failed_verification"@),
        !is_hard(task, s) ==> escalation_causes(task, s).contains("low_confidence"@),
        touches(task, correctness_words_spec()) ==> escalation_causes(task, s).contains(
            "security_sensitive"@,
        ),
        is_hard(task, s) && !touches(task, correctness_words_spec()) ==> escalation_causes(
            task,
            s,
        ).len() == 1,
{
    let r = risk_list(task);
    let a: int = if touches(task, ambiguity_words_spec()) {
        1
    } else {
        0
    };
    let b: int = if touches(task, breadth_words_spec()) {
        1
    } else {
        0
    };
    if a == 1 {
        assert(r[0] == "unclear requirements"@);
    }
    if b == 1 {
        assert(r[a] == "large blast radius"@);
    }
    if touches(task, correctness_words_spec()) {
        assert(r[a + b] == "correctness-critical"@);
    }
    let e = escalation_causes(task, s);
    assert(e[0] == "failed_verification"@);
    if !is_hard(task, s) {
        assert(e[1] == "low_confidence"@);
    }
    if touches(task, correctness_words_spec()) {
        assert(e[e.len() - 1] == "security_sensitive"@);
    }
}

/// A plan is driven by the first thing that the task tells of: how hard it is to
/// compute, then how much there is of it, then how open it is, then how correct it
/// must be.
pub proof fn law_plans_are_driven_by_the_task(task: Seq<char>, s: Shape)
    ensures
        touches(task, algorithmic_words_spec()) ==> plan_driver(task) == "algorithmic difficulty"@,
        !touches(task, algorithmic_words_spec()) && touches(task, volume_words_spec())
            ==> plan_driver(task) == "mechanical volume"@,
        !touches(task, algorithmic_words_spec()) && !touches(task, volume_words_spec()) && touches(
            task,
            ambiguity_words_spec(),
        ) ==> plan_driver(task) == "architectural ambiguity"@,
        !touches(task, algorithmic_words_spec()) && !touches(task, volume_words_spec())
            && !touches(task, ambiguity_words_spec()) && touches(task, correctness_words_spec())
            ==> plan_driver(task) == "correctness risk"@,
        says(plan_reason(task, s), plan_driver(task)),
{
    broadcast use group_says;

}

/// Hard work is executed by the strongest model; bulk work by a cheap one whatever it
/// is; and each plan has one who executes.
pub proof fn law_hard_work_goes_to_the_strongest(s: Shape, i: int)
    ensures
        0 <= i < roster_rows(s, true).len() && roster_rows(s, true)[i].role == "executor"@ ==> (
        !(s is Tiered) ==> roster_rows(s, true)[i].model == "opus"@),
        0 <= i < roster_rows(s, false).len() && roster_rows(s, false)[i].role == "executor"@ ==> (
        !(s is Tiered) ==> roster_rows(s, false)[i].model == "sonnet"@),
        roster_rows(Shape::Tiered, true) == roster_rows(Shape::Tiered, false),
        roster_rows(Shape::Tiered, true)[1].role == "executor"@ && roster_rows(
            Shape::Tiered,
            true,
        )[1].model == "haiku"@,
        role_order(s).contains("executor"@),
        verify_method(s) == "review"@ <==> s is Debate,
{
    reveal_strlit("executor");
    reveal_strlit("verifier");
    reveal_strlit("drafter");
    reveal_strlit("critic");
    reveal_strlit("inspector");
    reveal_strlit("review");
    reveal_strlit("tests");
    assert("executor"@.len() == 8 && "executor"@[0] == 'e');
    assert("verifier"@.len() == 8 && "verifier"@[0] == 'v');
    assert("drafter"@.len() == 7 && "critic"@.len() == 6 && "inspector"@.len() == 9);
    assert("review"@.len() == 6 && "tests"@.len() == 5);
    match s {
        Shape::Solo => {
            assert(role_order(s)[0] == "executor"@);
        },
        Shape::Debate => {
            assert(role_order(s)[2] == "executor"@);
        },
        Shape::Tiered => {
            assert(role_order(s)[1] == "executor"@);
        },
    }
}

/// A plan tells its shape, its roster, its risks, why it is as it is, how it is
/// checked and when it is given up.
pub proof fn law_plans_are_told(task: Seq<char>, s: Shape)
    ensures
        tells(plan_doc(task, s), "shape"@, jstr(shape_word(s))),
        tells(plan_doc(task, s), "roster"@, roster_doc(roster_rows(s, is_hard(task, s)))),
        tells(plan_doc(task, s), "risks"@, jtexts(risk_list(task))),
        tells(plan_doc(task, s), "rationale"@, jstr(plan_reason(task, s))),
        tells(plan_doc(task, s), "verify"@, verify_doc(s)),
        tells(plan_doc(task, s), "escalate"@, escalate_doc(task, s)),
        tells(plan_doc(task, s), "coordination"@, coordination_doc(s)),
        tells(escalate_doc(task, s), "if"@, jtexts(escalation_causes(task, s))),
        tells(coordination_doc(s), "order"@, jtexts(role_order(s))),
        tells(coordination_doc(s), "parallelizable"@, jbool(s is Debate)),
        tells(verify_doc(s), "method"@, jstr(verify_method(s))),
{
    let o = plan_doc(task, s)->Obj_0;
    assert(o[0] == ("coordination"@, coordination_doc(s)));
    assert(o[2] == ("escalate"@, escalate_doc(task, s)));
    assert(o[3] == ("rationale"@, jstr(plan_reason(task, s))));
    assert(o[4] == ("risks"@, jtexts(risk_list(task))));
    assert(o[5] == ("roster"@, roster_doc(roster_rows(s, is_hard(task, s)))));
    assert(o[7] == ("shape"@, jstr(shape_word(s))));
    assert(o[8] == ("verify"@, verify_doc(s)));
    let e = escalate_doc(task, s)->Obj_0;
    assert(e[0] == ("if"@, jtexts(escalation_causes(task, s))));
    let c = coordination_doc(s)->Obj_0;
    assert(c[1] == ("order"@, jtexts(role_order(s))));
    assert(c[2] == ("parallelizable"@, jbool(s is Debate)));
    let v = verify_doc(s)->Obj_0;
    assert(v[1] == ("method"@, jstr(verify_method(s))));
}

} // verus!
