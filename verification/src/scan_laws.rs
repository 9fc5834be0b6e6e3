//! What holds of texts that are searched, split and replaced in.
use vstd::prelude::*;
use crate::scan::{
    char_from, find_from, has, lead_spaces, lemma_char_from, lemma_find_from, lines_of, occurrences,
    occurs_at, replaced, split_at_char, starts, trim_start, without_cr, word_len, words_of,
};
use crate::text::{ascii_lower, first_n, is_space, join, same_ci};

verus! {

// ---- Splitting ---------------------------------------------------------------------

proof fn lemma_join_from_the_front(a: Seq<char>, rest: Seq<Seq<char>>, sep: Seq<char>)
    requires
        rest.len() > 0,
    ensures
        join(seq![a] + rest, sep) == a + sep + join(rest, sep),
    decreases rest.len(),
{
    let all = seq![a] + rest;
    if rest.len() == 1 {
        assert(all.drop_last() =~= seq![a]);
        assert(join(seq![a], sep) == a);
        assert(all.last() == rest[0]);
    } else {
        let init = rest.drop_last();
        lemma_join_from_the_front(a, init, sep);
        assert(all.drop_last() =~= seq![a] + init);
        assert(all.last() == rest.last());
        assert(a + sep + join(init, sep) + sep + rest.last() =~= a + sep + (join(init, sep) + sep
            + rest.last()));
    }
}

/// A text that is split at a character is the text again when its parts are joined
/// with that character; and none of the parts has it.
pub proof fn law_joining_undoes_splitting(s: Seq<char>, c: char, i: int)
    ensures
        join(split_at_char(s, c), seq![c]) == s,
        split_at_char(s, c).len() > 0,
        0 <= i < split_at_char(s, c).len() ==> !split_at_char(s, c)[i].contains(c),
    decreases s.len(),
{
    lemma_char_from(s, c, 0);
    match char_from(s, c, 0) {
        None => {
            assert(join(seq![s], seq![c]) == s);
            if 0 <= i < split_at_char(s, c).len() && s.contains(c) {
                let k = choose|k: int| 0 <= k < s.len() && s[k] == c;
                assert(s[k] != c);
            }
        },
        Some(k) => {
            let rest = split_at_char(s.skip(k + 1), c);
            law_joining_undoes_splitting(s.skip(k + 1), c, i - 1);
            lemma_join_from_the_front(s.take(k), rest, seq![c]);
            assert(s.take(k) + seq![c] + s.skip(k + 1) =~= s);
            if i == 0 && s.take(k).contains(c) {
                let j = choose|j: int| 0 <= j < s.take(k).len() && s.take(k)[j] == c;
                assert(s[j] == c);
            }
        },
    }
}

proof fn lemma_split_line(a: Seq<char>, c: char, b: Seq<char>)
    requires
        !a.contains(c),
    ensures
        split_at_char(a + seq![c] + b, c) == seq![a] + split_at_char(b, c),
        split_at_char(a, c) == seq![a],
{
    let s = a + seq![c] + b;
    lemma_char_from(s, c, 0);
    assert(s[a.len() as int] == c);
    let k = char_from(s, c, 0)->0;
    if k < a.len() {
        assert(a[k] == s[k]);
        assert(a.contains(c));
    }
    assert(k == a.len());
    assert(s.take(k) =~= a);
    assert(s.skip(k + 1) =~= b);
    lemma_char_from(a, c, 0);
    if char_from(a, c, 0) is Some {
        assert(a.contains(a[char_from(a, c, 0)->0]));
    }
}

/// The lines of a text are what stands between its line breaks, without a carriage
/// return before one; a break at the end begins no line of its own.
pub proof fn law_lines_end_at_breaks(a: Seq<char>, b: Seq<char>)
    requires
        !a.contains('\n'),
    ensures
        lines_of(a + seq!['\n'] + b) == seq![without_cr(a)] + lines_of(b),
        a.len() > 0 ==> lines_of(a) == seq![a],
        lines_of(Seq::empty()).len() == 0,
{
    lemma_split_line(a, '\n', b);
    let p = split_at_char(b, '\n');
    let q = seq![a] + p;
    law_joining_undoes_splitting(b, '\n', 0);
    assert(q.last() == p.last());
    let s = a + seq!['\n'] + b;
    assert(lines_of(s) =~= seq![without_cr(a)] + lines_of(b));
    assert(seq![a].last() == a);
    if a.len() > 0 {
        assert(lines_of(a) =~= seq![a]);
    }
    assert(!Seq::<char>::empty().contains('\n'));
    lemma_split_line(Seq::empty(), '\n', b);
    assert(seq![Seq::<char>::empty()].last() == Seq::<char>::empty());
}

/// The carriage return is all that is taken off a line.
pub proof fn law_lines_lose_the_carriage_return_alone(s: Seq<char>)
    ensures
        without_cr(s.push('\r')) == s,
        s.len() == 0 || s.last() != '\r' ==> without_cr(s) == s,
{
    assert(s.push('\r').drop_last() =~= s);
}

// ---- Words ---------------------------------------------------------------------------

proof fn lemma_word_len(w: Seq<char>, rest: Seq<char>)
    requires
        forall|i: int| 0 <= i < w.len() ==> !is_space(#[trigger] w[i]),
        rest.len() == 0 || is_space(rest[0]),
    ensures
        word_len(w + rest) == w.len(),
    decreases w.len(),
{
    let s = w + rest;
    if w.len() > 0 {
        assert(s[0] == w[0]);
        assert(s.skip(1) =~= w.skip(1) + rest);
        assert forall|i: int| 0 <= i < w.skip(1).len() implies !is_space(#[trigger] w.skip(1)[i]) by {
            assert(w.skip(1)[i] == w[i + 1]);
        }
        lemma_word_len(w.skip(1), rest);
    } else {
        assert(s =~= rest);
    }
}

/// Words are parted by white space and by nothing else: a word and white space
/// behind it are that word and the words that follow, and white space alone makes
/// none.
pub proof fn law_words_are_parted_by_space(w: Seq<char>, c: char, rest: Seq<char>)
    requires
        w.len() > 0,
        forall|i: int| 0 <= i < w.len() ==> !is_space(#[trigger] w[i]),
        is_space(c),
    ensures
        words_of(w + seq![c] + rest) == seq![w] + words_of(rest),
        words_of(w) == seq![w],
        words_of(seq![c] + rest) == words_of(rest),
        words_of(Seq::empty()).len() == 0,
{
    lemma_space_first(c, rest);
    let s = w + seq![c] + rest;
    let tail = seq![c] + rest;
    assert(s =~= w + tail);
    assert(s[0] == w[0]);
    assert(lead_spaces(s) == 0);
    assert(trim_start(s) =~= s);
    lemma_word_len(w, tail);
    assert(s.take(w.len() as int) =~= w);
    assert(s.skip(w.len() as int) =~= tail);
    assert(lead_spaces(w) == 0);
    assert(trim_start(w) =~= w);
    assert(w + Seq::<char>::empty() =~= w);
    lemma_word_len(w, Seq::empty());
    assert(w.take(w.len() as int) =~= w);
    assert(w.skip(w.len() as int) =~= Seq::empty());
    assert(trim_start(Seq::empty()).len() == 0);
    assert(words_of(Seq::empty()).len() == 0);
    assert(words_of(w) =~= seq![w]);
}

proof fn lemma_space_first(c: char, rest: Seq<char>)
    requires
        is_space(c),
    ensures
        words_of(seq![c] + rest) == words_of(rest),
{
    let s = seq![c] + rest;
    assert(s.skip(1) =~= rest);
    assert(lead_spaces(s) == 1 + lead_spaces(rest));
    crate::scan::lemma_lead_spaces(rest);
    assert(trim_start(s) =~= trim_start(rest));
}

// ---- Replacing -------------------------------------------------------------------------

/// Every occurrence is replaced, from the front, and nothing else is changed: a text
/// without one stays as it is, and so does one in which something is replaced by
/// itself.
pub proof fn law_occurrences_alone_are_replaced(s: Seq<char>, from: Seq<char>, to: Seq<char>)
    requires
        from.len() > 0,
    ensures
        replaced(from + s, from, to) == to + replaced(s, from, to),
        s.len() > 0 && !starts(s, from) ==> replaced(s, from, to) == seq![s[0]] + replaced(
            s.skip(1),
            from,
            to,
        ),
        !(has(s, from)) ==> replaced(s, from, to) == s,
        replaced(s, from, from) == s,
    decreases s.len(),
{
    let t = from + s;
    assert(t.subrange(0, from.len() as int) =~= from);
    assert(starts(t, from));
    assert(t.skip(from.len() as int) =~= s);
    if s.len() > 0 {
        law_occurrences_alone_are_replaced(s.skip(1), from, to);
        if starts(s, from) {
            law_occurrences_alone_are_replaced(s.skip(from.len() as int), from, to);
            assert(from + s.skip(from.len() as int) =~= s) by {
                assert(s.subrange(0, from.len() as int) == from);
                assert(s =~= s.subrange(0, from.len() as int) + s.skip(from.len() as int));
            }
        } else {
            assert(seq![s[0]] + s.skip(1) =~= s);
        }
        if !(has(s, from)) {
            assert(!occurs_at(s, from, 0));
            if has(s.skip(1), from) {
                let i = choose|i: int| occurs_at(s.skip(1), from, i);
                assert(s.subrange(i + 1, i + 1 + from.len()) =~= s.skip(1).subrange(
                    i,
                    i + from.len(),
                ));
                assert(occurs_at(s, from, i + 1));
            }
        }
    }
}

/// Occurrences are counted from the front, each of its own characters: there is none
/// where the text does not have the part, and one more where it begins with it.
pub proof fn law_occurrences_are_counted(s: Seq<char>, p: Seq<char>)
    requires
        p.len() > 0,
    ensures
        occurrences(p + s, p) == 1 + occurrences(s, p),
        occurrences(s, p) > 0 <==> has(s, p),
    decreases s.len(),
{
    let t = p + s;
    assert(t.subrange(0, p.len() as int) =~= p);
    assert(starts(t, p));
    assert(t.skip(p.len() as int) =~= s);
    if s.len() == 0 {
        if has(s, p) {
            let i = choose|i: int| occurs_at(s, p, i);
            assert(false);
        }
    } else if starts(s, p) {
        assert(occurs_at(s, p, 0));
    } else {
        law_occurrences_are_counted(s.skip(1), p);
        if has(s.skip(1), p) {
            let i = choose|i: int| occurs_at(s.skip(1), p, i);
            assert(s.subrange(i + 1, i + 1 + p.len()) =~= s.skip(1).subrange(i, i + p.len()));
            assert(occurs_at(s, p, i + 1));
        }
        if has(s, p) {
            let i = choose|i: int| occurs_at(s, p, i);
            assert(i > 0);
            assert(s.skip(1).subrange(i - 1, i - 1 + p.len()) =~= s.subrange(i, i + p.len()));
            assert(occurs_at(s.skip(1), p, i - 1));
        }
    }
}

/// What is found is the first occurrence.
pub proof fn law_the_first_occurrence_is_found(s: Seq<char>, p: Seq<char>, j: int)
    ensures
        find_from(s, p, 0) matches Some(k) ==> occurs_at(s, p, k) && (0 <= j < k ==> !occurs_at(
            s,
            p,
            j,
        )),
        find_from(s, p, 0) is None ==> !occurs_at(s, p, j),
{
    lemma_find_from(s, p, 0);
}

// ---- Small letters ---------------------------------------------------------------------

/// Capital letters become small, one for one; everything else stays. Texts that
/// differ in this alone are taken for the same.
pub proof fn law_capitals_become_small(s: Seq<char>, i: int)
    ensures
        ascii_lower(s).len() == s.len(),
        0 <= i < s.len() && !('A' <= s[i] && s[i] <= 'Z') ==> ascii_lower(s)[i] == s[i],
        0 <= i < s.len() && 'A' <= s[i] && s[i] <= 'Z' ==> 'a' <= ascii_lower(s)[i]
            && ascii_lower(s)[i] <= 'z' && ascii_lower(s)[i] as u32 - 'a' as u32 == s[i] as u32
            - 'A' as u32,
        ascii_lower(ascii_lower(s)) == ascii_lower(s),
        same_ci(s, ascii_lower(s)),
{
    assert(ascii_lower(ascii_lower(s)) =~= ascii_lower(s));
}

/// The first few are the beginning, all of it where there are no more.
pub proof fn law_the_first_few_are_the_beginning<A>(s: Seq<A>, n: nat, i: int)
    ensures
        s.len() <= n ==> first_n(s, n) == s,
        s.len() > n ==> first_n(s, n).len() == n,
        0 <= i < first_n(s, n).len() ==> first_n(s, n)[i] == s[i],
{
}

} // verus!
