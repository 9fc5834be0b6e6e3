//! Searching, trimming, splitting and replacing in texts.
use vstd::prelude::*;
use crate::text::{chars_of, is_space, lemma_texts_push, space, text_between, texts};

verus! {

// ---- Substrings ------------------------------------------------------------

/// Whether `p` stands in `s` at position `i`.
pub open spec fn occurs_at(s: Seq<char>, p: Seq<char>, i: int) -> bool {
    0 <= i && i + p.len() <= s.len() && s.subrange(i, i + p.len()) == p
}

/// Whether `p` stands in `s` at some position.
pub open spec fn has(s: Seq<char>, p: Seq<char>) -> bool {
    exists|i: int| occurs_at(s, p, i)
}

/// Whether `s` starts with `p`.
pub open spec fn starts(s: Seq<char>, p: Seq<char>) -> bool {
    occurs_at(s, p, 0)
}

/// Whether `s` ends with `p`.
pub open spec fn ends(s: Seq<char>, p: Seq<char>) -> bool {
    occurs_at(s, p, s.len() - p.len())
}

/// The first position at or behind `from` at which `p` stands in `s`.
pub open spec fn find_from(s: Seq<char>, p: Seq<char>, from: int) -> Option<int>
    decreases s.len() - from + 1,
{
    if from < 0 || from + p.len() > s.len() {
        None
    } else if occurs_at(s, p, from) {
        Some(from)
    } else {
        find_from(s, p, from + 1)
    }
}

pub proof fn lemma_find_from(s: Seq<char>, p: Seq<char>, from: int)
    requires
        0 <= from,
    ensures
        match find_from(s, p, from) {
            Some(k) => from <= k && occurs_at(s, p, k) && forall|i: int|
                from <= i < k ==> !occurs_at(s, p, i),
            None => forall|i: int| from <= i ==> !occurs_at(s, p, i),
        },
    decreases s.len() - from + 1,
{
    if from + p.len() > s.len() {
    } else if occurs_at(s, p, from) {
    } else {
        lemma_find_from(s, p, from + 1);
    }
}

/// The first place of `p` settles whether `s` holds `p`.
pub proof fn lemma_has_is_found(s: Seq<char>, p: Seq<char>)
    ensures
        has(s, p) == find_from(s, p, 0).is_some(),
{
    lemma_find_from(s, p, 0);
    if has(s, p) {
        let i = choose|i: int| occurs_at(s, p, i);
        assert(occurs_at(s, p, i));
    }
}

/// Whether `p` stands in `s` at position `i`.
pub fn matches_at(s: &Vec<char>, p: &Vec<char>, i: usize) -> (r: bool)
    ensures
        r == occurs_at(s@, p@, i as int),
{
    if i > s.len() || p.len() > s.len() - i {
        return false;
    }
    let mut k: usize = 0;
    while k < p.len()
        invariant
            k <= p.len(),
            i + p.len() <= s.len(),
            s@.subrange(i as int, i + k) == p@.take(k as int),
        decreases p.len() - k,
    {
        if s[i + k] != p[k] {
            proof {
                assert(s@.subrange(i as int, i + p@.len())[k as int] != p@[k as int]);
            }
            return false;
        }
        proof {
            assert(s@.subrange(i as int, i + k + 1) =~= p@.take(k + 1));
        }
        k = k + 1;
    }
    proof {
        assert(p@.take(k as int) =~= p@);
    }
    true
}

/// The first position at or behind `from` at which `p` stands in `s`.
pub fn find_chars(s: &Vec<char>, p: &Vec<char>, from: usize) -> (r: Option<usize>)
    ensures
        match r {
            Some(k) => find_from(s@, p@, from as int) == Some(k as int),
            None => find_from(s@, p@, from as int).is_none(),
        },
{
    let mut i: usize = from;
    while i <= s.len() && p.len() <= s.len() - i
        invariant
            find_from(s@, p@, from as int) == find_from(s@, p@, i as int),
        decreases s.len() - i,
    {
        if matches_at(s, p, i) {
            return Some(i);
        }
        if i == s.len() {
            proof {
                assert(find_from(s@, p@, i + 1).is_none());
            }
            return None;
        }
        i = i + 1;
    }
    None
}

/// Whether `s` holds `p`.
pub fn contains(s: &str, p: &str) -> (r: bool)
    ensures
        r == has(s@, p@),
{
    let sc = chars_of(s);
    let pc = chars_of(p);
    proof {
        lemma_has_is_found(s@, p@);
    }
    find_chars(&sc, &pc, 0).is_some()
}

/// Whether `s` starts with `p`.
pub fn starts_with(s: &str, p: &str) -> (r: bool)
    ensures
        r == starts(s@, p@),
{
    matches_at(&chars_of(s), &chars_of(p), 0)
}

/// Whether `s` ends with `p`.
pub fn ends_with(s: &str, p: &str) -> (r: bool)
    ensures
        r == ends(s@, p@),
{
    let sc = chars_of(s);
    let pc = chars_of(p);
    if pc.len() > sc.len() {
        return false;
    }
    matches_at(&sc, &pc, sc.len() - pc.len())
}

/// `s` with every occurrence of `from`, found from left to right without
/// overlap, replaced by `to`.
pub open spec fn replaced(s: Seq<char>, from: Seq<char>, to: Seq<char>) -> Seq<char>
    decreases s.len(),
{
    if from.len() == 0 || s.len() == 0 {
        s
    } else if starts(s, from) {
        to + replaced(s.skip(from.len() as int), from, to)
    } else {
        seq![s[0]] + replaced(s.skip(1), from, to)
    }
}

/// `s` with every occurrence of `from` replaced by `to`.
pub fn replace(s: &str, from: &str, to: &str) -> (r: String)
    requires
        from@.len() > 0,
    ensures
        r@ == replaced(s@, from@, to@),
{
    let sc = chars_of(s);
    let fc = chars_of(from);
    let mut out = String::new();
    let mut i: usize = 0;
    proof {
        assert(s@.skip(0) =~= s@);
        assert(out@ + replaced(s@, from@, to@) =~= replaced(s@, from@, to@));
    }
    while i < sc.len()
        invariant
            i <= sc.len(),
            sc@ == s@,
            fc@ == from@,
            fc@.len() > 0,
            out@ + replaced(s@.skip(i as int), from@, to@) == replaced(s@, from@, to@),
        decreases sc.len() - i,
    {
        let ghost rest = s@.skip(i as int);
        let hit = matches_at(&sc, &fc, i);
        proof {
            if i + from@.len() <= s@.len() {
                assert(rest.subrange(0, from@.len() as int) =~= s@.subrange(
                    i as int,
                    i + from@.len(),
                ));
            }
            assert(hit == starts(rest, from@));
        }
        if hit {
            proof {
                assert(rest.skip(from@.len() as int) =~= s@.skip(i + from@.len()));
                assert(out@ + (to@ + replaced(s@.skip(i + from@.len()), from@, to@)) =~= (out@
                    + to@) + replaced(s@.skip(i + from@.len()), from@, to@));
            }
            out.append(to);
            i = i + fc.len();
        } else {
            proof {
                assert(rest.skip(1) =~= s@.skip(i + 1));
                assert(rest[0] == s@[i as int]);
                assert(out@ + (seq![s@[i as int]] + replaced(s@.skip(i + 1), from@, to@))
                    =~= out@.push(s@[i as int]) + replaced(s@.skip(i + 1), from@, to@));
            }
            out.push(sc[i]);
            i = i + 1;
        }
    }
    proof {
        assert(s@.skip(i as int) =~= Seq::<char>::empty());
        assert(out@ + Seq::<char>::empty() =~= out@);
        assert(replaced(Seq::<char>::empty(), from@, to@) =~= Seq::<char>::empty());
    }
    out
}

/// How often `p` occurs in `s`, counted from left to right without overlap.
pub open spec fn occurrences(s: Seq<char>, p: Seq<char>) -> nat
    decreases s.len(),
{
    if p.len() == 0 || s.len() == 0 {
        0
    } else if starts(s, p) {
        1 + occurrences(s.skip(p.len() as int), p)
    } else {
        occurrences(s.skip(1), p)
    }
}

/// How often `p` occurs in `s`, counted from left to right without overlap.
pub fn count(s: &str, p: &str) -> (r: usize)
    requires
        p@.len() > 0,
    ensures
        r == occurrences(s@, p@),
{
    let sc = chars_of(s);
    let pc = chars_of(p);
    let mut n: usize = 0;
    let mut i: usize = 0;
    proof {
        assert(s@.skip(0) =~= s@);
    }
    while i < sc.len()
        invariant
            n <= i <= sc.len(),
            sc@ == s@,
            pc@ == p@,
            pc@.len() > 0,
            n + occurrences(s@.skip(i as int), p@) == occurrences(s@, p@),
        decreases sc.len() - i,
    {
        let ghost rest = s@.skip(i as int);
        let hit = matches_at(&sc, &pc, i);
        proof {
            if i + p@.len() <= s@.len() {
                assert(rest.subrange(0, p@.len() as int) =~= s@.subrange(i as int, i + p@.len()));
            }
            assert(hit == starts(rest, p@));
        }
        if hit {
            proof {
                assert(rest.skip(p@.len() as int) =~= s@.skip(i + p@.len()));
            }
            n = n + 1;
            i = i + pc.len();
        } else {
            proof {
                assert(rest.skip(1) =~= s@.skip(i + 1));
            }
            i = i + 1;
        }
    }
    n
}

// ---- Trimming --------------------------------------------------------------

/// How many white-space characters a text starts with.
pub open spec fn lead_spaces(s: Seq<char>) -> nat
    decreases s.len(),
{
    if s.len() == 0 || !is_space(s[0]) {
        0
    } else {
        1 + lead_spaces(s.skip(1))
    }
}

/// How many white-space characters a text ends with.
pub open spec fn tail_spaces(s: Seq<char>) -> nat
    decreases s.len(),
{
    if s.len() == 0 || !is_space(s.last()) {
        0
    } else {
        1 + tail_spaces(s.drop_last())
    }
}

/// A text without the white space it starts with.
pub open spec fn trim_start(s: Seq<char>) -> Seq<char> {
    s.skip(lead_spaces(s) as int)
}

/// A text without the white space it ends with.
pub open spec fn trim_end(s: Seq<char>) -> Seq<char> {
    s.take(s.len() - tail_spaces(s))
}

/// A text without the white space around it.
pub open spec fn trim(s: Seq<char>) -> Seq<char> {
    trim_end(trim_start(s))
}

pub proof fn lemma_lead_spaces(s: Seq<char>)
    ensures
        lead_spaces(s) <= s.len(),
        forall|i: int| 0 <= i < lead_spaces(s) ==> is_space(s[i]),
        lead_spaces(s) < s.len() ==> !is_space(s[lead_spaces(s) as int]),
    decreases s.len(),
{
    if s.len() == 0 || !is_space(s[0]) {
    } else {
        lemma_lead_spaces(s.skip(1));
        let n = lead_spaces(s.skip(1));
        assert forall|i: int| 0 <= i < 1 + n implies is_space(s[i]) by {
            if i > 0 {
                assert(s.skip(1)[i - 1] == s[i]);
            }
        }
        if 1 + n < s.len() {
            assert(s.skip(1)[n as int] == s[1 + n as int]);
        }
    }
}

pub proof fn lemma_tail_spaces(s: Seq<char>)
    ensures
        tail_spaces(s) <= s.len(),
        forall|i: int| s.len() - tail_spaces(s) <= i < s.len() ==> is_space(s[i]),
        tail_spaces(s) < s.len() ==> !is_space(s[s.len() - tail_spaces(s) - 1]),
    decreases s.len(),
{
    if s.len() == 0 || !is_space(s.last()) {
    } else {
        lemma_tail_spaces(s.drop_last());
        let n = tail_spaces(s.drop_last());
        assert forall|i: int| s.len() - (1 + n) <= i < s.len() implies is_space(s[i]) by {
            if i < s.len() - 1 {
                assert(s.drop_last()[i] == s[i]);
            }
        }
        if 1 + n < s.len() {
            assert(s.drop_last()[s.len() - 1 - n - 1] == s[s.len() - (1 + n) - 1]);
        }
    }
}

proof fn lemma_lead_spaces_unique(s: Seq<char>, n: int)
    requires
        0 <= n <= s.len(),
        forall|i: int| 0 <= i < n ==> is_space(s[i]),
        n < s.len() ==> !is_space(s[n]),
    ensures
        lead_spaces(s) == n,
{
    lemma_lead_spaces(s);
    let k = lead_spaces(s) as int;
    if k < n {
        assert(is_space(s[k]));
    }
    if n < k {
        assert(is_space(s[n]));
    }
}

proof fn lemma_tail_spaces_unique(s: Seq<char>, n: int)
    requires
        0 <= n <= s.len(),
        forall|i: int| s.len() - n <= i < s.len() ==> is_space(s[i]),
        n < s.len() ==> !is_space(s[s.len() - n - 1]),
    ensures
        tail_spaces(s) == n,
{
    lemma_tail_spaces(s);
    let k = tail_spaces(s) as int;
    if k < n {
        assert(is_space(s[s.len() - k - 1]));
    }
    if n < k {
        assert(is_space(s[s.len() - n - 1]));
    }
}

/// A text without the white space it starts with.
pub fn trimmed_start(s: &str) -> (r: String)
    ensures
        r@ == trim_start(s@),
{
    let sc = chars_of(s);
    let mut a: usize = 0;
    while a < sc.len() && space(sc[a])
        invariant
            a <= sc.len(),
            sc@ == s@,
            forall|i: int| 0 <= i < a ==> is_space(s@[i]),
        decreases sc.len() - a,
    {
        a = a + 1;
    }
    proof {
        lemma_lead_spaces_unique(s@, a as int);
        assert(s@.skip(a as int) =~= s@.subrange(a as int, s@.len() as int));
    }
    text_between(&sc, a, sc.len())
}

/// A text without the white space it ends with.
pub fn trimmed_end(s: &str) -> (r: String)
    ensures
        r@ == trim_end(s@),
{
    let sc = chars_of(s);
    let mut b: usize = sc.len();
    while b > 0 && space(sc[b - 1])
        invariant
            b <= sc.len(),
            sc@ == s@,
            forall|i: int| b <= i < s@.len() ==> is_space(s@[i]),
        decreases b,
    {
        b = b - 1;
    }
    proof {
        lemma_tail_spaces_unique(s@, s@.len() - b);
        assert(s@.take(b as int) =~= s@.subrange(0, b as int));
    }
    text_between(&sc, 0, b)
}

/// A text without the white space around it.
pub fn trimmed(s: &str) -> (r: String)
    ensures
        r@ == trim(s@),
{
    trimmed_end(trimmed_start(s).as_str())
}

/// Whether a text holds nothing but white space.
pub open spec fn is_blank(s: Seq<char>) -> bool {
    trim(s).len() == 0
}

pub fn blank(s: &str) -> (r: bool)
    ensures
        r == is_blank(s@),
{
    trimmed(s).as_str().is_empty()
}

// ---- Splitting -------------------------------------------------------------

/// The first position at or behind `from` that holds `c`.
pub open spec fn char_from(s: Seq<char>, c: char, from: int) -> Option<int>
    decreases s.len() - from,
{
    if from < 0 || from >= s.len() {
        None
    } else if s[from] == c {
        Some(from)
    } else {
        char_from(s, c, from + 1)
    }
}

/// The pieces of a text between the occurrences of `c`.
pub open spec fn split_at_char(s: Seq<char>, c: char) -> Seq<Seq<char>>
    decreases s.len(),
    via split_at_char_decreases
{
    match char_from(s, c, 0) {
        None => seq![s],
        Some(k) => seq![s.take(k)] + split_at_char(s.skip(k + 1), c),
    }
}

#[via_fn]
proof fn split_at_char_decreases(s: Seq<char>, c: char) {
    lemma_char_from(s, c, 0);
}

pub proof fn lemma_char_from(s: Seq<char>, c: char, from: int)
    requires
        0 <= from,
    ensures
        match char_from(s, c, from) {
            Some(k) => from <= k < s.len() && s[k] == c && forall|i: int|
                from <= i < k ==> s[i] != c,
            None => forall|i: int| from <= i < s.len() ==> s[i] != c,
        },
    decreases s.len() - from,
{
    if from >= s.len() {
    } else if s[from] == c {
    } else {
        lemma_char_from(s, c, from + 1);
    }
}

proof fn lemma_char_from_unique(s: Seq<char>, c: char, k: int)
    requires
        0 <= k < s.len(),
        s[k] == c,
        forall|i: int| 0 <= i < k ==> s[i] != c,
    ensures
        char_from(s, c, 0) == Some(k),
{
    lemma_char_from(s, c, 0);
}

proof fn lemma_no_char(s: Seq<char>, c: char)
    requires
        forall|i: int| 0 <= i < s.len() ==> s[i] != c,
    ensures
        char_from(s, c, 0).is_none(),
{
    lemma_char_from(s, c, 0);
}

pub proof fn lemma_split_nonempty(s: Seq<char>, c: char)
    ensures
        split_at_char(s, c).len() > 0,
{
}

/// The pieces of a text between the occurrences of `c`.
pub fn split_char(s: &str, c: char) -> (r: Vec<String>)
    ensures
        texts(r@) == split_at_char(s@, c),
{
    let sc = chars_of(s);
    let mut out: Vec<String> = Vec::new();
    let mut start: usize = 0;
    let mut i: usize = 0;
    proof {
        assert(s@.skip(0) =~= s@);
        assert(texts(out@) + split_at_char(s@, c) =~= split_at_char(s@, c));
    }
    while i < sc.len()
        invariant
            start <= i <= sc.len(),
            sc@ == s@,
            forall|k: int| start <= k < i ==> s@[k] != c,
            texts(out@) + split_at_char(s@.skip(start as int), c) == split_at_char(s@, c),
        decreases sc.len() - i,
    {
        if sc[i] == c {
            let piece = text_between(&sc, start, i);
            proof {
                let rest = s@.skip(start as int);
                let k = i - start;
                assert forall|j: int| 0 <= j < k implies rest[j] != c by {
                    assert(rest[j] == s@[start + j]);
                }
                assert(rest[k] == s@[i as int]);
                lemma_char_from_unique(rest, c, k);
                assert(rest.take(k) =~= piece@);
                assert(rest.skip(k + 1) =~= s@.skip(i + 1));
                lemma_texts_push(out@, piece);
                let tail = split_at_char(s@.skip(i + 1), c);
                assert(texts(out@) + (seq![piece@] + tail) =~= texts(out@).push(piece@) + tail);
            }
            out.push(piece);
            start = i + 1;
        }
        i = i + 1;
    }
    let last = text_between(&sc, start, sc.len());
    proof {
        let rest = s@.skip(start as int);
        assert forall|j: int| 0 <= j < rest.len() implies rest[j] != c by {
            assert(rest[j] == s@[start + j]);
        }
        lemma_no_char(rest, c);
        assert(rest =~= last@);
        lemma_texts_push(out@, last);
        assert(texts(out@) + seq![last@] =~= texts(out@).push(last@));
    }
    out.push(last);
    out
}

/// A line without the carriage return it ends with.
pub open spec fn without_cr(s: Seq<char>) -> Seq<char> {
    if s.len() > 0 && s.last() == '\r' {
        s.drop_last()
    } else {
        s
    }
}

/// The lines of a text. A line ends with a line feed, or a carriage return and
/// a line feed; the last one may have no ending.
pub open spec fn lines_of(s: Seq<char>) -> Seq<Seq<char>> {
    let p = split_at_char(s, '\n');
    let ended = Seq::new((p.len() - 1) as nat, |i: int| without_cr(p[i]));
    if p.last().len() == 0 {
        ended
    } else {
        ended.push(p.last())
    }
}

fn strip_cr(s: &str) -> (r: String)
    ensures
        r@ == without_cr(s@),
{
    let sc = chars_of(s);
    if sc.len() > 0 && sc[sc.len() - 1] == '\r' {
        text_between(&sc, 0, sc.len() - 1)
    } else {
        s.to_owned()
    }
}

/// The lines of a text.
pub fn lines(s: &str) -> (r: Vec<String>)
    ensures
        texts(r@) == lines_of(s@),
{
    let pieces = split_char(s, '\n');
    let ghost p = split_at_char(s@, '\n');
    proof {
        lemma_split_nonempty(s@, '\n');
        assert(texts(pieces@).len() == pieces@.len());
    }
    let mut out: Vec<String> = Vec::new();
    let mut i: usize = 0;
    while i < pieces.len() - 1
        invariant
            pieces.len() > 0,
            i <= pieces.len() - 1,
            p == texts(pieces@),
            texts(out@) == Seq::new(i as nat, |j: int| without_cr(p[j])),
        decreases pieces.len() - i,
    {
        let line = strip_cr(pieces[i].as_str());
        proof {
            assert(p[i as int] == pieces@[i as int]@);
            lemma_texts_push(out@, line);
            assert(Seq::new((i + 1) as nat, |j: int| without_cr(p[j])) =~= Seq::new(
                i as nat,
                |j: int| without_cr(p[j]),
            ).push(line@));
        }
        out.push(line);
        i = i + 1;
    }
    proof {
        assert(p.last() == pieces@[pieces@.len() - 1]@);
    }
    if !pieces[i].as_str().is_empty() {
        proof {
            lemma_texts_push(out@, pieces@[i as int]);
        }
        out.push(pieces[i].clone());
    }
    out
}

/// The number of characters a text has before its first white space.
pub open spec fn word_len(s: Seq<char>) -> nat
    decreases s.len(),
{
    if s.len() == 0 || is_space(s[0]) {
        0
    } else {
        1 + word_len(s.skip(1))
    }
}

/// The longest runs of characters that are not white space, in order.
pub open spec fn words_of(s: Seq<char>) -> Seq<Seq<char>>
    decreases s.len(),
    via words_of_decreases
{
    let t = trim_start(s);
    if t.len() == 0 {
        Seq::empty()
    } else {
        seq![t.take(word_len(t) as int)] + words_of(t.skip(word_len(t) as int))
    }
}

#[via_fn]
proof fn words_of_decreases(s: Seq<char>) {
    lemma_lead_spaces(s);
    let t = trim_start(s);
    if t.len() > 0 {
        assert(t[0] == s[lead_spaces(s) as int]);
        lemma_word_len(t);
    }
}

pub proof fn lemma_word_len(s: Seq<char>)
    ensures
        word_len(s) <= s.len(),
        forall|i: int| 0 <= i < word_len(s) ==> !is_space(s[i]),
        word_len(s) < s.len() ==> is_space(s[word_len(s) as int]),
    decreases s.len(),
{
    if s.len() == 0 || is_space(s[0]) {
    } else {
        lemma_word_len(s.skip(1));
        let n = word_len(s.skip(1));
        assert forall|i: int| 0 <= i < 1 + n implies !is_space(s[i]) by {
            if i > 0 {
                assert(s.skip(1)[i - 1] == s[i]);
            }
        }
        if 1 + n < s.len() {
            assert(s.skip(1)[n as int] == s[1 + n as int]);
        }
    }
}

proof fn lemma_word_len_unique(s: Seq<char>, n: int)
    requires
        0 <= n <= s.len(),
        forall|i: int| 0 <= i < n ==> !is_space(s[i]),
        n < s.len() ==> is_space(s[n]),
    ensures
        word_len(s) == n,
{
    lemma_word_len(s);
    let k = word_len(s) as int;
    if k < n {
        assert(!is_space(s[k]));
    }
    if n < k {
        assert(!is_space(s[n]));
    }
}

/// The longest runs of characters that are not white space, in order.
pub fn words(s: &str) -> (r: Vec<String>)
    ensures
        texts(r@) == words_of(s@),
{
    let sc = chars_of(s);
    let mut out: Vec<String> = Vec::new();
    let mut i: usize = 0;
    proof {
        assert(s@.skip(0) =~= s@);
        assert(texts(out@) + words_of(s@) =~= words_of(s@));
    }
    loop
        invariant
            i <= sc.len(),
            sc@ == s@,
            texts(out@) + words_of(s@.skip(i as int)) == words_of(s@),
        decreases sc.len() - i,
    {
        let mut a: usize = i;
        while a < sc.len() && space(sc[a])
            invariant
                i <= a <= sc.len(),
                sc@ == s@,
                forall|k: int| i <= k < a ==> is_space(s@[k]),
            decreases sc.len() - a,
        {
            a = a + 1;
        }
        let ghost rest = s@.skip(i as int);
        let ghost t = trim_start(rest);
        proof {
            assert forall|k: int| 0 <= k < a - i implies is_space(rest[k]) by {
                assert(rest[k] == s@[i + k]);
            }
            if a < s@.len() {
                assert(rest[a - i] == s@[a as int]);
            }
            lemma_lead_spaces_unique(rest, a - i);
            assert(t =~= s@.skip(a as int));
        }
        if a == sc.len() {
            proof {
                assert(words_of(rest) =~= Seq::empty());
                assert(texts(out@) + words_of(rest) =~= texts(out@));
            }
            return out;
        }
        let mut b: usize = a;
        while b < sc.len() && !space(sc[b])
            invariant
                a <= b <= sc.len(),
                sc@ == s@,
                forall|k: int| a <= k < b ==> !is_space(s@[k]),
            decreases sc.len() - b,
        {
            b = b + 1;
        }
        let word = text_between(&sc, a, b);
        proof {
            assert forall|k: int| 0 <= k < b - a implies !is_space(t[k]) by {
                assert(t[k] == s@[a + k]);
            }
            if b < s@.len() {
                assert(t[b - a] == s@[b as int]);
            }
            lemma_word_len_unique(t, b - a);
            assert(t.take(b - a) =~= word@);
            assert(t.skip(b - a) =~= s@.skip(b as int));
            lemma_texts_push(out@, word);
            let tail = words_of(s@.skip(b as int));
            assert(texts(out@) + (seq![word@] + tail) =~= texts(out@).push(word@) + tail);
        }
        out.push(word);
        i = b;
    }
}

} // verus!
