//! What voters and executors are told of the discussion.
use vstd::prelude::*;
use crate::blackboard::{
    by_humans, by_planners, last_human, last_n, last_planner, Blackboard, Utterance,
};
use crate::changes::{handoff_text, opt_changes, LocalChangeSummary};
use crate::conductor::role_name;
use crate::context::{bounded, bounded_context, budgeted_execution_sections, budgeted_sections};
use crate::recommend::{truth_str, truth_text, Recommendation, Score};
use crate::scan::{blank, is_blank, trim, trimmed};
use crate::text::{flat, join, join_texts, lemma_flat_push, lemma_texts_push, texts};

verus! {

// ---- Recent utterances -----------------------------------------------------

/// A human's note under its label.
pub open spec fn note_block(u: Utterance) -> Seq<char> {
    "["@ + u.label@ + "]\n"@ + trim(u.text@) + "\n"@
}

/// Notes one behind the other.
pub open spec fn note_blocks(t: Seq<Utterance>) -> Seq<char> {
    flat(Seq::new(t.len(), |i: int| note_block(t[i])))
}

/// A planner's output under its label and role.
pub open spec fn output_block(u: Utterance) -> Seq<char> {
    "["@ + u.label@ + " — "@ + role_name(u.role) + "]\n"@ + trim(u.text@) + "\n\n"@
}

/// Outputs one behind the other.
pub open spec fn output_blocks(t: Seq<Utterance>) -> Seq<char> {
    flat(Seq::new(t.len(), |i: int| output_block(t[i])))
}

/// The last three notes by humans.
pub open spec fn recent_notes(t: Seq<Utterance>) -> Seq<Utterance> {
    last_n(by_humans(t), 3)
}

/// The last four outputs of planners.
pub open spec fn recent_outputs(t: Seq<Utterance>) -> Seq<Utterance> {
    last_n(by_planners(t), 4)
}

/// The section on what humans said last; nothing where they said nothing.
pub open spec fn notes_section(t: Seq<Utterance>) -> Seq<char> {
    if recent_notes(t).len() == 0 {
        Seq::empty()
    } else {
        "Latest human direction:\n"@ + note_blocks(recent_notes(t))
    }
}

/// The section on what planners said last.
pub open spec fn outputs_section(t: Seq<Utterance>) -> Seq<char> {
    "Latest planner outputs:\n"@ + (if recent_outputs(t).len() == 0 {
        "(no planner output recorded)\n"@
    } else {
        output_blocks(recent_outputs(t))
    })
}

fn append_notes(out: &mut String, notes: &Vec<Utterance>)
    ensures
        final(out)@ == old(out)@ + note_blocks(notes@),
{
    let ghost before = out@;
    let ghost f = |k: int| note_block(notes@[k]);
    let mut i: usize = 0;
    proof {
        assert(flat(Seq::new(0, f)) =~= Seq::empty());
        assert(before + Seq::<char>::empty() =~= before);
    }
    while i < notes.len()
        invariant
            i <= notes.len(),
            f == (|k: int| note_block(notes@[k])),
            out@ == before + flat(Seq::new(i as nat, f)),
        decreases notes.len() - i,
    {
        let u = &notes[i];
        let ghost mid = out@;
        out.append("[");
        out.append(u.label.as_str());
        out.append("]\n");
        out.append(trimmed(u.text.as_str()).as_str());
        out.append("\n");
        proof {
            let done = Seq::new(i as nat, f);
            lemma_flat_push(done, f(i as int));
            assert(Seq::new((i + 1) as nat, f) =~= done.push(f(i as int)));
            assert(out@ =~= mid + f(i as int));
            assert(before + (flat(done) + f(i as int)) =~= mid + f(i as int));
        }
        i = i + 1;
    }
    proof {
        assert(Seq::new(i as nat, f) =~= Seq::new(notes@.len(), |k: int| note_block(notes@[k])));
    }
}

fn append_outputs(out: &mut String, outputs: &Vec<Utterance>)
    ensures
        final(out)@ == old(out)@ + output_blocks(outputs@),
{
    let ghost before = out@;
    let ghost f = |k: int| output_block(outputs@[k]);
    let mut i: usize = 0;
    proof {
        assert(flat(Seq::new(0, f)) =~= Seq::empty());
        assert(before + Seq::<char>::empty() =~= before);
    }
    while i < outputs.len()
        invariant
            i <= outputs.len(),
            f == (|k: int| output_block(outputs@[k])),
            out@ == before + flat(Seq::new(i as nat, f)),
        decreases outputs.len() - i,
    {
        let u = &outputs[i];
        let ghost mid = out@;
        out.append("[");
        out.append(u.label.as_str());
        out.append(" — ");
        out.append(u.role.name());
        out.append("]\n");
        out.append(trimmed(u.text.as_str()).as_str());
        out.append("\n\n");
        proof {
            let done = Seq::new(i as nat, f);
            lemma_flat_push(done, f(i as int));
            assert(Seq::new((i + 1) as nat, f) =~= done.push(f(i as int)));
            assert(out@ =~= mid + f(i as int));
            assert(before + (flat(done) + f(i as int)) =~= mid + f(i as int));
        }
        i = i + 1;
    }
    proof {
        assert(Seq::new(i as nat, f) =~= Seq::new(
            outputs@.len(),
            |k: int| output_block(outputs@[k]),
        ));
    }
}

fn write_notes_section(t: &Vec<Utterance>) -> (r: String)
    ensures
        r@ == notes_section(t@),
{
    let notes = last_human(t, 3);
    let mut out = String::new();
    if !notes.is_empty() {
        out = "Latest human direction:\n".to_owned();
        append_notes(&mut out, &notes);
    }
    out
}

fn write_outputs_section(t: &Vec<Utterance>) -> (r: String)
    ensures
        r@ == outputs_section(t@),
{
    let outputs = last_planner(t, 4);
    let mut out = "Latest planner outputs:\n".to_owned();
    if outputs.is_empty() {
        out.append("(no planner output recorded)\n");
    } else {
        append_outputs(&mut out, &outputs);
    }
    out
}

/// The discussion as stateless voters are told it.
pub open spec fn vote_context(t: Seq<Utterance>, budget: Option<usize>) -> Seq<char> {
    let notes = notes_section(t);
    bounded(
        (if notes.len() == 0 {
            notes
        } else {
            notes + "\n"@
        }) + outputs_section(t),
        budget,
    )
}

/// Compact discussion context for stateless recommendation votes: recent human
/// direction and the latest planner outputs.
pub fn compose_vote_context(bb: &Blackboard, context_budget_chars: Option<usize>) -> (r: String)
    ensures
        r@ == vote_context(bb.transcript@, context_budget_chars),
{
    let mut body = write_notes_section(&bb.transcript);
    if !body.as_str().is_empty() {
        body.append("\n");
    }
    body.append(write_outputs_section(&bb.transcript).as_str());
    bounded_context(body.as_str(), context_budget_chars)
}

// ---- The execution packet --------------------------------------------------

/// A candidate and its score.
pub open spec fn score_text(s: Score) -> Seq<char> {
    s.executor@ + "="@ + s.value.shown@
}

/// The candidates and their scores.
pub open spec fn score_texts(scores: Seq<Score>) -> Seq<Seq<char>> {
    Seq::new(scores.len(), |i: int| score_text(scores[i]))
}

/// The scores, each as its candidate and value.
pub fn score_parts(scores: &Vec<Score>) -> (r: Vec<String>)
    ensures
        texts(r@) == score_texts(scores@),
{
    let mut parts: Vec<String> = Vec::new();
    let mut i: usize = 0;
    while i < scores.len()
        invariant
            i <= scores.len(),
            texts(parts@) == score_texts(scores@).take(i as int),
        decreases scores.len() - i,
    {
        let mut s = scores[i].executor.clone();
        s.append("=");
        s.append(scores[i].value.shown.as_str());
        proof {
            lemma_texts_push(parts@, s);
            assert(score_texts(scores@).take(i + 1) =~= score_texts(scores@).take(i as int).push(
                s@,
            ));
        }
        parts.push(s);
        i = i + 1;
    }
    proof {
        assert(score_texts(scores@).take(i as int) =~= score_texts(scores@));
    }
    parts
}

/// The scores on one line.
pub fn write_scores(scores: &Vec<Score>) -> (r: String)
    ensures
        r@ == join(score_texts(scores@), ", "@),
{
    join_texts(&score_parts(scores), ", ")
}

/// The line that names the recommended executor, behind `key`.
pub open spec fn recommended_line(key: Seq<char>, rec: Recommendation) -> Seq<char> {
    key + rec.executor@ + " (confident: "@ + truth_text(rec.confident) + ")\n"@
        + "- formal_plan_requested_by_both: "@ + truth_text(rec.needs_plan) + "\n"@
}

/// The section of a packet on the recommendation.
pub open spec fn packet_recommendation(rec: Recommendation) -> Seq<char> {
    "Recommendation:\n"@ + recommended_line("- recommended: "@, rec) + (if is_blank(
        rec.rationale@,
    ) {
        Seq::empty()
    } else {
        "- rationale:\n"@ + trim(rec.rationale@) + "\n"@
    }) + (if rec.scores@.len() == 0 {
        Seq::empty()
    } else {
        "- scores: "@ + join(score_texts(rec.scores@), ", "@) + "\n"@
    })
}

/// Writes the line that names the recommended executor, behind `key`.
pub fn append_recommended(out: &mut String, key: &str, rec: &Recommendation)
    ensures
        final(out)@ == old(out)@ + recommended_line(key@, *rec),
{
    let ghost before = out@;
    out.append(key);
    out.append(rec.executor.as_str());
    out.append(" (confident: ");
    out.append(truth_str(rec.confident));
    out.append(")\n");
    out.append("- formal_plan_requested_by_both: ");
    out.append(truth_str(rec.needs_plan));
    out.append("\n");
    proof {
        assert(out@ =~= before + recommended_line(key@, *rec));
    }
}

fn write_packet_recommendation(rec: &Recommendation) -> (r: String)
    ensures
        r@ == packet_recommendation(*rec),
{
    let mut out = "Recommendation:\n".to_owned();
    append_recommended(&mut out, "- recommended: ", rec);
    let mut why = String::new();
    if !blank(rec.rationale.as_str()) {
        why.append("- rationale:\n");
        why.append(trimmed(rec.rationale.as_str()).as_str());
        why.append("\n");
    }
    proof {
        assert(why@ =~= (if is_blank(rec.rationale@) {
            Seq::empty()
        } else {
            "- rationale:\n"@ + trim(rec.rationale@) + "\n"@
        }));
    }
    out.append(why.as_str());
    let mut scores = String::new();
    if !rec.scores.is_empty() {
        scores.append("- scores: ");
        scores.append(write_scores(&rec.scores).as_str());
        scores.append("\n");
    }
    proof {
        assert(scores@ =~= (if rec.scores@.len() == 0 {
            Seq::empty()
        } else {
            "- scores: "@ + join(score_texts(rec.scores@), ", "@) + "\n"@
        }));
    }
    out.append(scores.as_str());
    out
}

/// The recommendation that an optional reference leads to.
pub open spec fn opt_rec(r: Option<&Recommendation>) -> Option<Recommendation> {
    match r {
        Some(r) => Some(*r),
        None => None,
    }
}

/// The sections of a packet.
pub open spec fn packet_sections(
    t: Seq<Utterance>,
    rec: Option<Recommendation>,
    changes: Option<LocalChangeSummary>,
) -> Seq<Seq<char>> {
    (match rec {
        Some(rec) => seq![packet_recommendation(rec)],
        None => Seq::empty(),
    }) + (if recent_notes(t).len() == 0 {
        Seq::empty()
    } else {
        seq![notes_section(t)]
    }) + seq![outputs_section(t)] + (match changes {
        Some(c) => seq![handoff_text(c)],
        None => Seq::empty(),
    })
}

/// The first lines of a packet.
pub open spec fn packet_header(task: Seq<char>, executor: Seq<char>) -> Seq<char> {
    "Execution packet\nTask: "@ + task + "\nChosen executor: "@ + executor
        + "\nContext policy: compact packet; older debate may be omitted.\n"@
}

/// The handoff to an executor that was not part of the discussion.
pub open spec fn execution_packet(
    task: Seq<char>,
    executor: Seq<char>,
    t: Seq<Utterance>,
    rec: Option<Recommendation>,
    budget: Option<usize>,
    changes: Option<LocalChangeSummary>,
) -> Seq<char> {
    packet_header(task, executor) + budgeted_sections(packet_sections(t, rec, changes), budget)
}

/// Compact deterministic handoff for executors that do not already have the
/// planning session in memory.
pub fn compose_execution_packet(
    task: &str,
    executor_label: &str,
    bb: &Blackboard,
    recommendation: Option<&Recommendation>,
    context_budget_chars: Option<usize>,
    local_changes: Option<&LocalChangeSummary>,
) -> (r: String)
    ensures
        r@ == execution_packet(
            task@,
            executor_label@,
            bb.transcript@,
            opt_rec(recommendation),
            context_budget_chars,
            opt_changes(local_changes),
        ),
{
    let mut sections: Vec<String> = Vec::new();
    if let Some(rec) = recommendation {
        sections.push(write_packet_recommendation(rec));
    }
    let notes = write_notes_section(&bb.transcript);
    if !last_human(&bb.transcript, 3).is_empty() {
        sections.push(notes);
    }
    sections.push(write_outputs_section(&bb.transcript));
    if let Some(changes) = local_changes {
        sections.push(changes.to_handoff_text());
    }
    proof {
        assert(texts(sections@) =~= packet_sections(
            bb.transcript@,
            opt_rec(recommendation),
            opt_changes(local_changes),
        ));
    }
    let mut header = "Execution packet\nTask: ".to_owned();
    header.append(task);
    header.append("\nChosen executor: ");
    header.append(executor_label);
    header.append("\nContext policy: compact packet; older debate may be omitted.\n");
    header.append(budgeted_execution_sections(&sections, context_budget_chars).as_str());
    header
}

} // verus!
