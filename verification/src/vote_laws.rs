//! What holds of how a vote is found in a reply.
use vstd::prelude::*;
use crate::recommend::{
    first_object, is_boundary, mentions, named_candidates, named_from, object_end, stands_alone,
};
use crate::scan::{char_from, find_from, lemma_char_from, lemma_find_from, occurs_at, trim};
use crate::session_laws::lemma_kept;
use crate::text::ascii_lower;

verus! {

/// Whether a name stands on its own at a place of a text.
pub open spec fn named_at(h: Seq<char>, n: Seq<char>, k: int) -> bool {
    n.len() > 0 && occurs_at(h, n, k) && stands_alone(h, k, k + n.len())
}

proof fn lemma_named(h: Seq<char>, n: Seq<char>, from: int)
    requires
        0 <= from,
    ensures
        named_from(h, n, from) ==> exists|k: int| from <= k && #[trigger] named_at(h, n, k),
        (forall|i: int| 0 <= i < n.len() ==> !is_boundary(#[trigger] n[i])) && (exists|k: int|
            from <= k && #[trigger] named_at(h, n, k)) ==> named_from(h, n, from),
    decreases h.len() - from,
{
    if n.len() > 0 {
        lemma_find_from(h, n, from);
        match find_from(h, n, from) {
            Some(k) => {
                if stands_alone(h, k, k + n.len()) {
                    assert(named_at(h, n, k));
                } else {
                    lemma_named(h, n, k + n.len());
                    if named_from(h, n, from) {
                        let m = choose|m: int| k + n.len() <= m && #[trigger] named_at(h, n, m);
                        assert(named_at(h, n, m));
                    }
                    if (forall|i: int| 0 <= i < n.len() ==> !is_boundary(#[trigger] n[i])) && (exists|
                        m: int,
                    |
                        from <= m && #[trigger] named_at(h, n, m)) {
                        let m = choose|m: int| from <= m && #[trigger] named_at(h, n, m);
                        assert(m >= k);
                        assert(m != k);
                        if m < k + n.len() {
                            let c = n[m - 1 - k];
                            assert(h.subrange(k, k + n.len())[m - 1 - k] == h[m - 1]);
                            assert(h[m - 1] == c);
                            assert(!is_boundary(c));
                            assert(false);
                        }
                        assert(k + n.len() <= m && named_at(h, n, m));
                    }
                }
            },
            None => {
                if exists|k: int| from <= k && #[trigger] named_at(h, n, k) {
                    let k = choose|k: int| from <= k && #[trigger] named_at(h, n, k);
                    assert(!occurs_at(h, n, k));
                }
            },
        }
    }
}

/// A candidate is mentioned where its name stands on its own in a text, whatever the
/// size of the letters: not as a part of a longer word, nor where it is blank. Every
/// such place counts where the name itself is one word.
pub proof fn law_mentions_stand_on_their_own(text: Seq<char>, candidate: Seq<char>)
    ensures
        ({
            let h = ascii_lower(text);
            let n = ascii_lower(trim(candidate));
            &&& mentions(text, candidate) ==> exists|k: int| 0 <= k && #[trigger] named_at(h, n, k)
            &&& (forall|i: int| 0 <= i < n.len() ==> !is_boundary(#[trigger] n[i])) && (exists|
                k: int,
            |
                0 <= k && #[trigger] named_at(h, n, k)) ==> mentions(text, candidate)
            &&& trim(candidate).len() == 0 ==> !mentions(text, candidate)
        }),
{
    let h = ascii_lower(text);
    let n = ascii_lower(trim(candidate));
    lemma_named(h, n, 0);
}

/// Letters and digits, underscores and hyphens make words; everything else parts
/// them.
pub proof fn law_words_hold_together(c: char)
    ensures
        'a' <= c && c <= 'z' ==> !is_boundary(c),
        'A' <= c && c <= 'Z' ==> !is_boundary(c),
        '0' <= c && c <= '9' ==> !is_boundary(c),
        !is_boundary('_') && !is_boundary('-'),
        is_boundary(' ') && is_boundary('.') && is_boundary(',') && is_boundary('\n'),
{
}

/// Of the candidates exactly those are named that are mentioned, in their order.
pub proof fn law_named_candidates_are_mentioned(text: Seq<char>, candidates: Seq<Seq<char>>, i: int)
    ensures
        0 <= i < named_candidates(text, candidates).len() ==> mentions(
            text,
            named_candidates(text, candidates)[i],
        ) && candidates.contains(named_candidates(text, candidates)[i]),
        0 <= i < candidates.len() && mentions(text, candidates[i]) ==> named_candidates(
            text,
            candidates,
        ).contains(candidates[i]),
        named_candidates(text, candidates).len() <= candidates.len(),
{
    let keep = |c: Seq<char>| mentions(text, c);
    lemma_kept(candidates, keep, i);
    candidates.lemma_filter_len(keep);
}

// ---- Objects -------------------------------------------------------------------------

proof fn lemma_plain_run(s: Seq<char>, i: int, end: int, depth: nat)
    requires
        0 <= i <= end < s.len(),
        s[end] == '}',
        depth == 1,
        forall|k: int|
            i <= k < end ==> #[trigger] s[k] != '{' && s[k] != '}' && s[k] != '"',
    ensures
        object_end(s, i, depth, false, false) == Some(end),
    decreases end - i,
{
    if i < end {
        assert(s[i] != '{' && s[i] != '}' && s[i] != '"');
        lemma_plain_run(s, i + 1, end, depth);
    }
}

proof fn lemma_quoted_run(s: Seq<char>, i: int, end: int, depth: nat)
    requires
        0 <= i <= end < s.len(),
        s[end] == '"',
        forall|k: int| i <= k < end ==> #[trigger] s[k] != '"' && s[k] != '\\',
    ensures
        object_end(s, i, depth, true, false) == object_end(s, end + 1, depth, false, false),
    decreases end - i,
{
    if i < end {
        assert(s[i] != '"' && s[i] != '\\');
        lemma_quoted_run(s, i + 1, end, depth);
    }
}

/// An object is taken whole, whatever stands before and behind it: from its brace to
/// the one that closes it.
pub proof fn law_objects_are_found_in_prose(before: Seq<char>, body: Seq<char>, after: Seq<char>)
    requires
        !before.contains('{'),
        forall|k: int|
            0 <= k < body.len() ==> #[trigger] body[k] != '{' && body[k] != '}' && body[k] != '"',
    ensures
        first_object(before + (seq!['{'] + body + seq!['}']) + after) == Some(
            seq!['{'] + body + seq!['}'],
        ),
{
    let object = seq!['{'] + body + seq!['}'];
    let s = before + object + after;
    let a = before.len() as int;
    let end = a + 1 + body.len();
    assert(s[a] == '{');
    assert(s[end] == '}');
    lemma_first_brace(before, object + after);
    assert(before + (object + after) =~= s);
    assert forall|k: int| a + 1 <= k < end implies #[trigger] s[k] != '{' && s[k] != '}' && s[k]
        != '"' by {
        assert(s[k] == body[k - a - 1]);
    }
    lemma_plain_run(s, a + 1, end, 1);
    assert(object_end(s, a, 0, false, false) == Some(end));
    assert(s.subrange(a, end + 1) =~= object);
}

proof fn lemma_first_brace(before: Seq<char>, rest: Seq<char>)
    requires
        !before.contains('{'),
        rest.len() > 0,
        rest[0] == '{',
    ensures
        char_from(before + rest, '{', 0) == Some(before.len() as int),
{
    let s = before + rest;
    assert(s[before.len() as int] == '{');
    lemma_char_from(s, '{', 0);
    let k = char_from(s, '{', 0)->0;
    if k < before.len() {
        assert(before[k] == s[k]);
        assert(before.contains('{'));
    }
}

/// Braces within quotes close nothing.
pub proof fn law_quoted_braces_close_nothing(before: Seq<char>, quoted: Seq<char>, after: Seq<char>)
    requires
        !before.contains('{'),
        forall|k: int| 0 <= k < quoted.len() ==> #[trigger] quoted[k] != '"' && quoted[k] != '\\',
    ensures
        first_object(before + (seq!['{', '"'] + quoted + seq!['"', '}']) + after) == Some(
            seq!['{', '"'] + quoted + seq!['"', '}'],
        ),
{
    let object = seq!['{', '"'] + quoted + seq!['"', '}'];
    let s = before + object + after;
    let a = before.len() as int;
    let close = a + 2 + quoted.len();
    assert(s[a] == '{');
    assert(s[a + 1] == '"');
    assert(s[close] == '"');
    assert(s[close + 1] == '}');
    lemma_first_brace(before, object + after);
    assert(before + (object + after) =~= s);
    assert forall|k: int| a + 2 <= k < close implies #[trigger] s[k] != '"' && s[k] != '\\' by {
        assert(s[k] == quoted[k - a - 2]);
    }
    lemma_quoted_run(s, a + 2, close, 1);
    reveal_with_fuel(object_end, 3);
    assert(object_end(s, a + 1, 1, false, false) == object_end(s, a + 2, 1, true, false));
    assert(object_end(s, close + 1, 1, false, false) == Some(close + 1));
    assert(object_end(s, a, 0, false, false) == Some(close + 1));
    assert(s.subrange(a, close + 2) =~= object);
}

} // verus!
