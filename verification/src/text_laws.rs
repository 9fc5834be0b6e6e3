//! What holds of texts: what they say, and what trimming, joining and budgets
//! leave of it.
use vstd::prelude::*;
use crate::context::{bounded, output_or_placeholder, shared_budget};
use crate::scan::{
    is_blank, lead_spaces, lemma_lead_spaces, lemma_tail_spaces, tail_spaces, trim, trim_start,
};
use crate::text::{flat, is_space, join};

verus! {

/// Whether a part stands in a text at a place.
pub open spec fn says_at(text: Seq<char>, i: int, part: Seq<char>) -> bool {
    0 <= i && i + part.len() <= text.len() && text.subrange(i, i + part.len()) == part
}

/// Whether a part stands somewhere in a text.
#[verifier::opaque]
pub open spec fn says(text: Seq<char>, part: Seq<char>) -> bool {
    exists|i: int| #[trigger] says_at(text, i, part)
}

/// Whether parts stand in a text at places, one behind the other.
pub open spec fn says_each_at(text: Seq<char>, at: Seq<int>, parts: Seq<Seq<char>>) -> bool {
    &&& at.len() == parts.len()
    &&& forall|k: int| 0 <= k < at.len() ==> says_at(text, #[trigger] at[k], parts[k])
    &&& forall|j: int, k: int|
        0 <= j < k < at.len() ==> (#[trigger] at[j]) + parts[j].len() <= (#[trigger] at[k])
}

/// Whether parts stand in a text, one behind the other.
#[verifier::opaque]
pub open spec fn says_all(text: Seq<char>, parts: Seq<Seq<char>>) -> bool {
    exists|at: Seq<int>| #[trigger] says_each_at(text, at, parts)
}

/// A text says what its parts say.
pub broadcast proof fn lemma_sums_say(a: Seq<char>, b: Seq<char>, part: Seq<char>)
    ensures
        says(a, part) || says(b, part) ==> #[trigger] says(a + b, part),
{
    reveal(says);
    if says(a, part) {
        let i = choose|i: int| #[trigger] says_at(a, i, part);
        assert((a + b).subrange(i, i + part.len()) =~= a.subrange(i, i + part.len()));
        assert(says_at(a + b, i, part));
    }
    if says(b, part) {
        let i = choose|i: int| #[trigger] says_at(b, i, part);
        assert((a + b).subrange(a.len() + i, a.len() + i + part.len()) =~= b.subrange(
            i,
            i + part.len(),
        ));
        assert(says_at(a + b, a.len() + i, part));
    }
}

/// A text says itself.
pub broadcast proof fn lemma_texts_say_themselves(a: Seq<char>)
    ensures
        #[trigger] says(a, a),
{
    reveal(says);
    assert(a.subrange(0, a.len() as int) =~= a);
    assert(says_at(a, 0, a));
}

pub proof fn lemma_says_in(x: Seq<char>, part: Seq<char>, y: Seq<char>)
    ensures
        says(x + part + y, part),
        says(x + part, part),
        says(part + y, part),
        says(part, part),
{
    reveal(says);
    assert((x + part + y).subrange(x.len() as int, (x.len() + part.len()) as int) =~= part);
    assert(says_at(x + part + y, x.len() as int, part));
    assert((x + part).subrange(x.len() as int, (x.len() + part.len()) as int) =~= part);
    assert(says_at(x + part, x.len() as int, part));
    assert((part + y).subrange(0, part.len() as int) =~= part);
    assert(says_at(part + y, 0, part));
    assert(part.subrange(0, part.len() as int) =~= part);
    assert(says_at(part, 0, part));
}

/// What stands last in a text and what stands before it are said together.
pub proof fn lemma_pair_is_said(x: Seq<char>, a: Seq<char>, b: Seq<char>)
    ensures
        says(x + a + b, a + b),
{
    broadcast use group_says;

    assert(x + a + b =~= x + (a + b));
}

/// What a part says is said by the whole.
pub proof fn lemma_says_through(text: Seq<char>, mid: Seq<char>, part: Seq<char>)
    requires
        says(text, mid),
        says(mid, part),
    ensures
        says(text, part),
{
    reveal(says);
    let i = choose|i: int| #[trigger] says_at(text, i, mid);
    let j = choose|j: int| #[trigger] says_at(mid, j, part);
    let here = text.subrange(i + j, i + j + part.len());
    assert forall|k: int| 0 <= k < part.len() implies #[trigger] here[k] == part[k] by {
        assert(text.subrange(i, i + mid.len())[j + k] == mid[j + k]);
        assert(mid.subrange(j, j + part.len())[k] == part[k]);
    }
    assert(here =~= part);
    assert(says_at(text, i + j, part));
}

pub proof fn lemma_says_all_within(x: Seq<char>, text: Seq<char>, y: Seq<char>, parts: Seq<Seq<char>>)
    requires
        says_all(text, parts),
    ensures
        says_all(x + text + y, parts),
{
    reveal(says_all);
    let at = choose|at: Seq<int>| #[trigger] says_each_at(text, at, parts);
    let whole = x + text + y;
    let to = Seq::new(at.len(), |k: int| at[k] + x.len());
    assert forall|k: int| 0 <= k < to.len() implies says_at(whole, #[trigger] to[k], parts[k]) by {
        assert(says_at(text, at[k], parts[k]));
        assert(whole.subrange(to[k], to[k] + parts[k].len()) =~= text.subrange(
            at[k],
            at[k] + parts[k].len(),
        ));
    }
    assert forall|j: int, k: int| 0 <= j < k < to.len() implies (#[trigger] to[j]) + parts[j].len()
        <= (#[trigger] to[k]) by {
        assert(at[j] + parts[j].len() <= at[k]);
    }
    assert(says_each_at(whole, to, parts));
}

/// A text says in order what one of its parts says in order.
pub broadcast proof fn lemma_sums_say_all(a: Seq<char>, b: Seq<char>, parts: Seq<Seq<char>>)
    ensures
        says_all(a, parts) || says_all(b, parts) ==> #[trigger] says_all(a + b, parts),
{
    if says_all(a, parts) {
        lemma_says_all_within(Seq::empty(), a, b, parts);
        assert(Seq::<char>::empty() + a + b =~= a + b);
    }
    if says_all(b, parts) {
        lemma_says_all_within(a, b, Seq::empty(), parts);
        assert(a + b + Seq::<char>::empty() =~= a + b);
    }
}

pub broadcast group group_says {
    lemma_sums_say,
    lemma_sums_say_all,
    lemma_texts_say_themselves,
}

pub proof fn lemma_says_all_more(text: Seq<char>, parts: Seq<Seq<char>>, x: Seq<char>, part: Seq<char>)
    requires
        says_all(text, parts),
    ensures
        says_all(text + x + part, parts.push(part)),
{
    reveal(says_all);
    let at = choose|at: Seq<int>| #[trigger] says_each_at(text, at, parts);
    let whole = text + x + part;
    let end = (text.len() + x.len()) as int;
    let to = at.push(end);
    let all = parts.push(part);
    assert forall|k: int| 0 <= k < to.len() implies says_at(whole, #[trigger] to[k], all[k]) by {
        if k < at.len() {
            assert(says_at(text, at[k], parts[k]));
            assert(whole.subrange(at[k], at[k] + parts[k].len()) =~= text.subrange(
                at[k],
                at[k] + parts[k].len(),
            ));
        } else {
            assert(whole.subrange(end, end + part.len()) =~= part);
        }
    }
    assert forall|j: int, k: int| 0 <= j < k < to.len() implies (#[trigger] to[j]) + all[j].len()
        <= (#[trigger] to[k]) by {
        assert(says_at(text, at[j], parts[j]));
        if k < at.len() {
            assert(at[j] + parts[j].len() <= at[k]);
        }
    }
    assert(says_each_at(whole, to, all));
}

pub proof fn lemma_says_all_each(text: Seq<char>, parts: Seq<Seq<char>>, k: int)
    requires
        says_all(text, parts),
        0 <= k < parts.len(),
    ensures
        says(text, parts[k]),
{
    reveal(says_all);
    reveal(says);
    let at = choose|at: Seq<int>| #[trigger] says_each_at(text, at, parts);
    assert(says_at(text, at[k], parts[k]));
}

proof fn lemma_says_nothing()
    ensures
        says_all(Seq::empty(), Seq::empty()),
{
    reveal(says_all);
    assert(says_each_at(Seq::empty(), Seq::empty(), Seq::empty()));
}

// ---- Joining -----------------------------------------------------------------

/// Joined texts are said one behind the other, with the separator between
/// neighbours and nothing else.
pub proof fn law_joining_keeps_every_part(parts: Seq<Seq<char>>, sep: Seq<char>, more: Seq<char>)
    ensures
        says_all(join(parts, sep), parts),
        join(seq![more], sep) == more,
        parts.len() > 0 ==> join(parts.push(more), sep) == join(parts, sep) + sep + more,
        join(Seq::empty(), sep).len() == 0,
    decreases parts.len(),
{
    assert(parts.push(more).drop_last() =~= parts);
    if parts.len() == 0 {
        lemma_says_nothing();
        assert(parts =~= Seq::empty());
    } else {
        let init = parts.drop_last();
        law_joining_keeps_every_part(init, sep, more);
        assert(init.push(parts.last()) =~= parts);
        if parts.len() == 1 {
            assert(init =~= Seq::empty());
            lemma_says_nothing();
            lemma_says_all_more(Seq::empty(), init, Seq::empty(), parts.last());
            assert(Seq::<char>::empty() + Seq::<char>::empty() + parts.last() =~= parts.last());
        } else {
            lemma_says_all_more(join(init, sep), init, sep, parts.last());
        }
    }
}

/// Texts one behind the other: all of them, in order, and nothing between.
pub proof fn law_concatenation_keeps_every_part(parts: Seq<Seq<char>>, more: Seq<char>)
    ensures
        says_all(flat(parts), parts),
        flat(parts.push(more)) == flat(parts) + more,
        flat(Seq::empty()).len() == 0,
    decreases parts.len(),
{
    assert(parts.push(more).drop_last() =~= parts);
    if parts.len() == 0 {
        lemma_says_nothing();
        assert(parts =~= Seq::empty());
    } else {
        let init = parts.drop_last();
        law_concatenation_keeps_every_part(init, more);
        assert(init.push(parts.last()) =~= parts);
        lemma_says_all_more(flat(init), init, Seq::empty(), parts.last());
        assert(flat(init) + Seq::<char>::empty() + parts.last() =~= flat(init) + parts.last());
    }
}

// ---- Trimming ----------------------------------------------------------------

/// Trimming takes the white space around a text and nothing else: what is left
/// is a stretch of the text with white space alone before and behind it, and
/// neither begins nor ends with white space.
pub proof fn law_trimming_takes_outer_space_alone(s: Seq<char>)
    ensures
        exists|a: int, b: int|
            #![trigger s.subrange(a, b)]
            0 <= a <= b <= s.len() && trim(s) == s.subrange(a, b) && (forall|i: int|
                0 <= i < a ==> is_space(#[trigger] s[i])) && (forall|i: int|
                b <= i < s.len() ==> is_space(#[trigger] s[i])) && (a < b ==> !is_space(s[a])
                && !is_space(s[b - 1])),
        is_blank(s) <==> forall|i: int| 0 <= i < s.len() ==> is_space(#[trigger] s[i]),
        trim(trim(s)) == trim(s),
{
    let a = lead_spaces(s) as int;
    lemma_lead_spaces(s);
    let t = trim_start(s);
    lemma_tail_spaces(t);
    let b = s.len() - tail_spaces(t);
    assert(trim(s) =~= s.subrange(a, b));
    assert forall|i: int| b <= i < s.len() implies is_space(#[trigger] s[i]) by {
        assert(t[i - a] == s[i]);
    }
    if a < b {
        assert(t[t.len() - tail_spaces(t) - 1] == s[b - 1]);
        assert(!is_space(s[a]));
    } else {
        assert forall|i: int| 0 <= i < s.len() implies is_space(#[trigger] s[i]) by {}
    }
    let r = trim(s);
    lemma_lead_spaces(r);
    if r.len() > 0 {
        assert(r[0] == s[a]);
        assert(r[r.len() - 1] == s[b - 1]);
        assert(lead_spaces(r) == 0);
        assert(r.skip(0) =~= r);
        assert(tail_spaces(r) == 0);
        assert(r.take(r.len() as int) =~= r);
    } else {
        assert(trim(r) =~= r);
    }
    assert(is_blank(s) ==> a == b);
    if is_blank(s) {
        assert forall|i: int| 0 <= i < s.len() implies is_space(#[trigger] s[i]) by {}
    }
}

/// A part that neither begins nor ends with white space is in the trimmed text,
/// where it is in the text.
pub proof fn lemma_trim_says(s: Seq<char>, part: Seq<char>)
    requires
        says(s, part),
        part.len() > 0,
        !is_space(part[0]),
        !is_space(part.last()),
    ensures
        says(trim(s), part),
{
    reveal(says);
    let i = choose|i: int| #[trigger] says_at(s, i, part);
    law_trimming_takes_outer_space_alone(s);
    let (a, b) = choose|a: int, b: int|
        #![trigger s.subrange(a, b)]
        0 <= a <= b <= s.len() && trim(s) == s.subrange(a, b) && (forall|i: int|
            0 <= i < a ==> is_space(#[trigger] s[i])) && (forall|i: int|
            b <= i < s.len() ==> is_space(#[trigger] s[i])) && (a < b ==> !is_space(s[a])
            && !is_space(s[b - 1]));
    assert(s[i] == s.subrange(i, i + part.len())[0]);
    assert(s[i + part.len() - 1] == s.subrange(i, i + part.len())[part.len() - 1]);
    assert(a <= i && i + part.len() <= b);
    let here = trim(s).subrange(i - a, i - a + part.len());
    assert forall|k: int| 0 <= k < part.len() implies #[trigger] here[k] == part[k] by {
        assert(s.subrange(i, i + part.len())[k] == part[k]);
    }
    assert(here =~= part);
    assert(says_at(trim(s), i - a, part));
}

/// A trimmed text that holds anything neither begins nor ends with white space.
pub proof fn lemma_trim_ends(s: Seq<char>)
    ensures
        trim(s).len() > 0 ==> !is_space(trim(s)[0]) && !is_space(trim(s).last()),
        says(s, trim(s)),
{
    reveal(says);
    law_trimming_takes_outer_space_alone(s);
    let (a, b) = choose|a: int, b: int|
        #![trigger s.subrange(a, b)]
        0 <= a <= b <= s.len() && trim(s) == s.subrange(a, b) && (forall|i: int|
            0 <= i < a ==> is_space(#[trigger] s[i])) && (forall|i: int|
            b <= i < s.len() ==> is_space(#[trigger] s[i])) && (a < b ==> !is_space(s[a])
            && !is_space(s[b - 1]));
    assert(s.subrange(a, a + trim(s).len()) =~= trim(s));
    assert(says_at(s, a, trim(s)));
}

/// White space around a text is all that separates it from what is recorded of
/// it, and a turn in which nothing was said is recorded as such.
pub proof fn law_empty_turns_are_marked(text: Seq<char>)
    ensures
        (exists|i: int| 0 <= i < text.len() && !is_space(#[trigger] text[i]))
            ==> output_or_placeholder(text) == text,
        (forall|i: int| 0 <= i < text.len() ==> is_space(#[trigger] text[i]))
            ==> output_or_placeholder(text) == "(no output this turn)"@,
{
    law_trimming_takes_outer_space_alone(text);
}

// ---- Budgets -----------------------------------------------------------------

/// A text goes in whole, but for the white space around it, where there is no
/// budget, where the budget is zero, and where it fits; else its last characters
/// go in, as many as the budget has.
pub proof fn law_budgets_cut_the_beginning_alone(text: Seq<char>, max: usize)
    ensures
        bounded(text, None) == trim(text),
        bounded(text, Some(0)) == trim(text),
        trim(text).len() <= max ==> bounded(text, Some(max)) == trim(text),
        0 < max < trim(text).len() ==> {
            let r = bounded(text, Some(max));
            &&& r.len() > max
            &&& r.skip(r.len() - max) == trim(text).skip(trim(text).len() - max)
            &&& says(r, "earlier context omitted"@)
        },
{
    reveal(says);
    if 0 < max < trim(text).len() {
        let r = bounded(text, Some(max));
        assert(r.skip(r.len() - max) =~= trim(text).skip(trim(text).len() - max));
        reveal_strlit("(earlier context omitted; showing last ");
        reveal_strlit("earlier context omitted");
        let h = "(earlier context omitted; showing last "@;
        assert(h.subrange(1, 24) =~= "earlier context omitted"@);
        assert(r.subrange(1, 24) =~= h.subrange(1, 24));
        assert(says_at(r, 1, "earlier context omitted"@));
    }
}

/// Two sections share a budget evenly, and each gets something.
pub proof fn law_two_sections_share_evenly(max: usize)
    ensures
        shared_budget(None, 2) is None,
        shared_budget(Some(0), 2) == Some(0usize),
        max > 0 ==> (shared_budget(Some(max), 2) matches Some(n) && n > 0 && ((max == 1 && n == 1)
            || 2 * n == max || 2 * n + 1 == max)),
{
}

} // verus!
