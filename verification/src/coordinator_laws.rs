//! What holds of how a task is weighed and of the answers of a conductor.
use vstd::prelude::*;
use crate::coordinator::{
    counts_of, hits, joints, named_signals, shape_word, shown_signals, sixths, strongest, tier_for,
    told_rationale, Features, Shape, BALANCED_FROM_BITS, STRONG_FROM_BITS,
};
use crate::count_laws::tells;
use crate::dataset::CONDUCTOR_SYSTEM;
use crate::json::{jbool, jstr, member, Doc};
use crate::llm_conductor::{
    braced, content_of, decision_candidates, last_at, named_shape, request_doc, said_doc,
    unit_difficulty, without_slashes,
};
use crate::reals::{place, ONE_BITS};
use crate::recommend::Measure;
use crate::scan::{char_from, has, trim, words_of};
use crate::session_laws::lemma_kept;
use crate::text::ascii_lower;
use crate::text_laws::{group_says, says};
use crate::vocabulary::{
    algorithmic_words_spec, ambiguity_words_spec, breadth_words_spec, correctness_words_spec,
    verifiability_words_spec, volume_words_spec,
};

verus! {

// ---- What is counted ---------------------------------------------------------------

/// One word more counts once where it occurs, and not at all where it does not.
pub proof fn law_words_count_once(s: Seq<char>, needles: Seq<Seq<char>>, n: Seq<char>)
    ensures
        hits(s, needles.push(n)) == hits(s, needles) + (if has(s, n) {
            1nat
        } else {
            0nat
        }),
        hits(s, Seq::empty()) == 0,
        hits(s, needles) <= needles.len(),
    decreases needles.len(),
{
    let keep = |m: Seq<char>| has(s, m);
    needles.lemma_filter_push(n, keep);
    assert(Seq::<Seq<char>>::empty().filter(keep).len() == 0) by {
        reveal(Seq::filter);
    }
    needles.lemma_filter_len(keep);
}

/// Whether a count tells that a word of a list occurs.
pub open spec fn told_by(s: Seq<char>, words: Seq<Seq<char>>, count: usize) -> bool {
    count > 0 <==> exists|i: int| 0 <= i < words.len() && has(s, #[trigger] words[i])
}

proof fn lemma_told(s: Seq<char>, words: Seq<Seq<char>>, count: usize)
    requires
        count == hits(s, words),
    ensures
        told_by(s, words, count),
{
    let keep = |m: Seq<char>| has(s, m);
    if count > 0 {
        lemma_kept(words, keep, 0);
        let w = words.filter(keep)[0];
        let i = choose|i: int| 0 <= i < words.len() && words[i] == w;
        assert(has(s, words[i]));
    }
    if exists|i: int| 0 <= i < words.len() && has(s, #[trigger] words[i]) {
        let i = choose|i: int| 0 <= i < words.len() && has(s, #[trigger] words[i]);
        lemma_kept(words, keep, i);
    }
}

/// A task's characters and words are all counted. Each other number is there where
/// the task, in small letters, has a word of its kind, and only there. Requirements
/// are counted as far as six.
pub proof fn law_features_tell_what_occurs(f: Features, task: Seq<char>)
    requires
        counts_of(f, task),
    ensures
        f.chars == task.len(),
        f.words == words_of(task).len(),
        f.requirements <= 6,
        joints(ascii_lower(task)) <= 6 ==> f.requirements == joints(ascii_lower(task)),
        joints(ascii_lower(task)) > 6 ==> f.requirements == 6,
        told_by(ascii_lower(task), algorithmic_words_spec(), f.algorithmic),
        told_by(ascii_lower(task), volume_words_spec(), f.volume),
        told_by(ascii_lower(task), ambiguity_words_spec(), f.ambiguity),
        told_by(ascii_lower(task), correctness_words_spec(), f.correctness),
        told_by(ascii_lower(task), breadth_words_spec(), f.breadth),
        told_by(ascii_lower(task), verifiability_words_spec(), f.verifiability),
{
    let s = ascii_lower(task);
    lemma_told(s, algorithmic_words_spec(), f.algorithmic);
    lemma_told(s, volume_words_spec(), f.volume);
    lemma_told(s, ambiguity_words_spec(), f.ambiguity);
    lemma_told(s, correctness_words_spec(), f.correctness);
    lemma_told(s, breadth_words_spec(), f.breadth);
    lemma_told(s, verifiability_words_spec(), f.verifiability);
}

/// A signal is as strong as its share of what is full, and no stronger than full.
pub proof fn law_signals_grow_until_full(n: nat, full: nat)
    requires
        full == 2 || full == 3,
    ensures
        n <= full ==> sixths(n, full) * full == 6 * n,
        n >= full ==> sixths(n, full) == 6,
        sixths(n, full) <= sixths(n + 1, full),
{
    assert(2 * n * 3 == 6 * n) by (nonlinear_arith);
    assert(3 * n * 2 == 6 * n) by (nonlinear_arith);
}

/// A choice is explained by the shape and by the strongest signals, the strongest
/// first; where there is none, that is said.
pub proof fn law_choices_are_explained(f: Features, shape: Shape)
    ensures
        says(told_rationale(f, shape), shape_word(shape)),
        shown_signals(f).len() > 0 ==> says(
            told_rationale(f, shape),
            shown_signals(f)[strongest(shown_signals(f))].1,
        ),
        shown_signals(f).len() > 1 ==> ({
            let rest = shown_signals(f).remove(strongest(shown_signals(f)));
            says(told_rationale(f, shape), rest[strongest(rest)].1)
        }),
        shown_signals(f).len() == 0 ==> says(
            told_rationale(f, shape),
            " by default — no strong task signals detected"@,
        ),
{
    broadcast use group_says;

    if shown_signals(f).len() > 0 {
        lemma_strongest_in(shown_signals(f));
    }
}

proof fn lemma_strongest_in(s: Seq<(nat, Seq<char>)>)
    requires
        s.len() > 0,
    ensures
        0 <= strongest(s) < s.len(),
        forall|k: int| 0 <= k < s.len() ==> (#[trigger] s[k]).0 <= s[strongest(s)].0,
        forall|k: int| 0 <= k < strongest(s) ==> (#[trigger] s[k]).0 < s[strongest(s)].0,
    decreases s.len(),
{
    if s.len() > 1 {
        let t = s.drop_last();
        lemma_strongest_in(t);
        assert forall|k: int| 0 <= k < t.len() implies t[k] == s[k] by {}
        assert(s.last() == s[s.len() - 1]);
        assert forall|k: int| 0 <= k < s.len() implies (#[trigger] s[k]).0 <= s[strongest(s)].0 by {
            if k < t.len() {
                assert(t[k] == s[k]);
            }
        }
        assert forall|k: int| 0 <= k < strongest(s) implies (#[trigger] s[k]).0 < s[strongest(
            s,
        )].0 by {
            if k < t.len() {
                assert(t[k] == s[k]);
            }
        }
    }
}

/// A signal is shown where it was counted: each number under its own name.
pub proof fn law_counted_signals_are_shown(f: Features, k: int)
    ensures
        0 <= k < shown_signals(f).len() ==> shown_signals(f)[k].0 > 0,
        f.algorithmic > 0 ==> shown_signals(f).contains(
            (sixths(f.algorithmic as nat, 3), "algorithmic difficulty"@),
        ),
        f.volume > 0 ==> shown_signals(f).contains(
            (sixths(f.volume as nat, 3), "mechanical volume"@),
        ),
        f.ambiguity > 0 ==> shown_signals(f).contains(
            (sixths(f.ambiguity as nat, 3), "ambiguity/architecture"@),
        ),
        f.correctness > 0 ==> shown_signals(f).contains(
            (sixths(f.correctness as nat, 3), "correctness criticality"@),
        ),
        f.breadth > 0 ==> shown_signals(f).contains(
            (sixths(f.breadth as nat, 2), "codebase breadth"@),
        ),
        f.requirements > 0 ==> shown_signals(f).contains(
            (f.requirements as nat, "many requirements"@),
        ),
{
    let keep = |s: (nat, Seq<char>)| s.0 >= 1;
    let n = named_signals(f);
    lemma_kept(n, keep, k);
    lemma_kept(n, keep, 0);
    lemma_kept(n, keep, 1);
    lemma_kept(n, keep, 2);
    lemma_kept(n, keep, 3);
    lemma_kept(n, keep, 4);
    lemma_kept(n, keep, 5);
    assert(n[0] == (sixths(f.algorithmic as nat, 3), "algorithmic difficulty"@));
    assert(n[1] == (sixths(f.volume as nat, 3), "mechanical volume"@));
    assert(n[2] == (sixths(f.ambiguity as nat, 3), "ambiguity/architecture"@));
    assert(n[3] == (sixths(f.correctness as nat, 3), "correctness criticality"@));
    assert(n[4] == (sixths(f.breadth as nat, 2), "codebase breadth"@));
    assert(n[5] == (f.requirements as nat, "many requirements"@));
}

/// A tier begins at its threshold, and not before.
pub proof fn law_tiers_begin_at_their_threshold(bits: u64)
    ensures
        tier_for(bits) is Strong <==> place(bits) >= place(STRONG_FROM_BITS),
        tier_for(bits) is Cheap <==> place(bits) < place(STRONG_FROM_BITS) && place(bits) < place(
            BALANCED_FROM_BITS,
        ),
{
}

// ---- A conductor's answers ------------------------------------------------------------

/// A conductor is asked about the task, behind the rules, and for one answer.
pub proof fn law_conductors_are_asked_about_the_task(model: Seq<char>, task: Seq<char>)
    ensures
        tells(request_doc(model, task), "model"@, jstr(model)),
        tells(request_doc(model, task), "stream"@, jbool(false)),
        tells(
            request_doc(model, task),
            "messages"@,
            Doc::Arr(seq![said_doc("system"@, CONDUCTOR_SYSTEM@), said_doc("user"@, task)]),
        ),
        tells(said_doc("user"@, task), "content"@, jstr(task)),
        tells(said_doc("user"@, task), "role"@, jstr("user"@)),
{
    let o = request_doc(model, task)->Obj_0;
    assert(o[0] == ("model"@, jstr(model)));
    assert(o[1].0 == "messages"@);
    assert(o[3] == ("stream"@, jbool(false)));
    let q = said_doc("user"@, task)->Obj_0;
    assert(q[0] == ("role"@, jstr("user"@)));
    assert(q[1] == ("content"@, jstr(task)));
}

/// The answer is what the first choice says; a reply without choices has none.
pub proof fn law_the_first_choice_answers(reply: Doc, choices: Seq<Doc>, message: Doc, text: Seq<char>)
    ensures
        member(reply, "choices"@) == Some(Doc::Arr(choices)) && choices.len() > 0 && member(
            choices[0],
            "message"@,
        ) == Some(message) && member(message, "content"@) == Some(Doc::Str(text)) ==> content_of(
            reply,
        ) == Some(text),
        member(reply, "choices"@) is None ==> content_of(reply) is None,
        member(reply, "choices"@) == Some(Doc::Arr(Seq::empty())) ==> content_of(reply) is None,
{
}

proof fn lemma_last_at(s: Seq<char>, c: char)
    ensures
        last_at(s, c) matches Some(k) ==> 0 <= k < s.len() && s[k] == c && (forall|j: int|
            k < j < s.len() ==> #[trigger] s[j] != c),
        last_at(s, c) is None ==> forall|j: int| 0 <= j < s.len() ==> #[trigger] s[j] != c,
    decreases s.len(),
{
    if s.len() > 0 && s.last() != c {
        let t = s.drop_last();
        lemma_last_at(t, c);
        assert forall|j: int| 0 <= j < t.len() implies t[j] == s[j] by {}
        assert forall|j: int|
            0 <= j < s.len() && (last_at(t, c) is None || j > last_at(t, c)->0) implies #[trigger] s[j]
            != c by {
            if j < t.len() {
                assert(t[j] == s[j]);
            }
        }
    }
}

/// What stands in braces is taken whole: it begins with a brace and ends with one,
/// and no closing brace follows. The whole reply is tried before it.
pub proof fn law_braces_are_taken_whole(content: Seq<char>)
    ensures
        decision_candidates(content)[0] == trim(content),
        braced(content) matches Some(s) ==> s.len() >= 2 && s.last() == '}'
            && decision_candidates(content).len() == 2 && decision_candidates(content)[1] == s,
        braced(content) is None ==> decision_candidates(content).len() == 1,
        braced(content) matches Some(s) ==> exists|b: int|
            0 <= b < content.len() && (#[trigger] content[b]) == '}' && (forall|j: int|
                b < j < content.len() ==> #[trigger] content[j] != '}') && s == content.subrange(
                b + 1 - s.len(),
                b + 1,
            ),
{
    lemma_last_at(content, '}');
    if braced(content) is Some {
        let a = char_from(content, '{', 0)->0;
        let b = last_at(content, '}')->0;
        crate::scan::lemma_char_from(content, '{', 0);
        let s = braced(content)->0;
        assert(s.last() == content[b]);
        assert(s =~= content.subrange(b + 1 - s.len(), b + 1));
    }
}

/// A shape is named by its word, whatever the size of the letters and the space
/// around them; nothing else names one.
pub proof fn law_shapes_are_named_by_their_word(s: Seq<char>, t: Seq<char>, shape: Shape)
    ensures
        ascii_lower(trim(s)) == ascii_lower(trim(t)) ==> named_shape(s) == named_shape(t),
        named_shape(s) == Some(shape) ==> ascii_lower(trim(s)) == shape_word(shape),
        ascii_lower(trim(s)) == shape_word(shape) ==> named_shape(s) == Some(shape),
{
    reveal_strlit("solo");
    reveal_strlit("debate");
    reveal_strlit("tiered");
    assert("solo"@.len() == 4 && "debate"@.len() == 6 && "tiered"@.len() == 6);
    assert("debate"@[0] == 'd' && "tiered"@[0] == 't');
}

/// A difficulty lies between nothing and one; one that does is left as it is.
pub proof fn law_difficulties_lie_between_zero_and_one(d: Measure)
    ensures
        0 <= place(d.bits) <= place(ONE_BITS) ==> unit_difficulty(d) == (d.bits, d.shown@),
        place(d.bits) < 0 ==> unit_difficulty(d).0 == 0,
        place(d.bits) > place(ONE_BITS) && place(d.bits) >= 0 ==> unit_difficulty(d).0 == ONE_BITS,
{
}

/// The address has no slash at its end, and is otherwise as it was given.
pub proof fn law_addresses_end_without_a_slash(s: Seq<char>)
    ensures
        without_slashes(s).len() == 0 || without_slashes(s).last() != '/',
        without_slashes(s).len() <= s.len(),
        s.take(without_slashes(s).len() as int) == without_slashes(s),
        forall|i: int| without_slashes(s).len() <= i < s.len() ==> #[trigger] s[i] == '/',
    decreases s.len(),
{
    if s.len() > 0 && s.last() == '/' {
        let t = s.drop_last();
        law_addresses_end_without_a_slash(t);
        let w = without_slashes(t);
        assert(s.take(w.len() as int) =~= t.take(w.len() as int));
        assert forall|i: int| w.len() <= i < s.len() implies #[trigger] s[i] == '/' by {
            if i < t.len() {
                assert(t[i] == s[i]);
            }
        }
    } else {
        assert(s.take(s.len() as int) =~= s);
    }
}

} // verus!
