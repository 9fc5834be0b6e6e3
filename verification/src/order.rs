//! The order of texts, and lists of texts kept in that order.
use vstd::prelude::*;
use crate::text::{chars_of, texts};

verus! {

/// Whether `a` comes before `b`, or is `b`, in the order of their characters
/// from the front.
pub open spec fn text_le(a: Seq<char>, b: Seq<char>) -> bool
    decreases a.len(),
{
    if a.len() == 0 {
        true
    } else if b.len() == 0 {
        false
    } else if a[0] == b[0] {
        text_le(a.skip(1), b.skip(1))
    } else {
        a[0] < b[0]
    }
}

pub proof fn lemma_text_le_reflexive(a: Seq<char>)
    ensures
        text_le(a, a),
    decreases a.len(),
{
    if a.len() > 0 {
        lemma_text_le_reflexive(a.skip(1));
    }
}

pub proof fn lemma_text_le_total(a: Seq<char>, b: Seq<char>)
    ensures
        text_le(a, b) || text_le(b, a),
    decreases a.len(),
{
    if a.len() > 0 && b.len() > 0 && a[0] == b[0] {
        lemma_text_le_total(a.skip(1), b.skip(1));
    }
}

pub proof fn lemma_text_le_antisymmetric(a: Seq<char>, b: Seq<char>)
    requires
        text_le(a, b),
        text_le(b, a),
    ensures
        a == b,
    decreases a.len(),
{
    if a.len() > 0 && b.len() > 0 {
        lemma_text_le_antisymmetric(a.skip(1), b.skip(1));
        assert(a =~= seq![a[0]] + a.skip(1));
        assert(b =~= seq![b[0]] + b.skip(1));
    } else {
        assert(a =~= b);
    }
}

pub proof fn lemma_text_le_transitive(a: Seq<char>, b: Seq<char>, c: Seq<char>)
    requires
        text_le(a, b),
        text_le(b, c),
    ensures
        text_le(a, c),
    decreases a.len(),
{
    if a.len() > 0 && b.len() > 0 && c.len() > 0 && a[0] == b[0] && b[0] == c[0] {
        lemma_text_le_transitive(a.skip(1), b.skip(1), c.skip(1));
    }
}

fn le_from(a: &Vec<char>, b: &Vec<char>, i: usize) -> (r: bool)
    requires
        i <= a.len(),
        i <= b.len(),
    ensures
        r == text_le(a@.skip(i as int), b@.skip(i as int)),
    decreases a.len() - i,
{
    let ghost x = a@.skip(i as int);
    let ghost y = b@.skip(i as int);
    if i == a.len() {
        return true;
    }
    if i == b.len() {
        return false;
    }
    proof {
        assert(x[0] == a@[i as int]);
        assert(y[0] == b@[i as int]);
        assert(x.skip(1) =~= a@.skip(i + 1));
        assert(y.skip(1) =~= b@.skip(i + 1));
    }
    if a[i] == b[i] {
        le_from(a, b, i + 1)
    } else {
        a[i] < b[i]
    }
}

/// Whether `a` comes before `b` or is `b`.
pub fn le(a: &str, b: &str) -> (r: bool)
    ensures
        r == text_le(a@, b@),
{
    let x = chars_of(a);
    let y = chars_of(b);
    proof {
        assert(x@.skip(0) =~= x@);
        assert(y@.skip(0) =~= y@);
    }
    le_from(&x, &y, 0)
}

/// Whether every text comes strictly before the ones behind it.
pub open spec fn rising(s: Seq<Seq<char>>) -> bool {
    forall|i: int, j: int| 0 <= i < j < s.len() ==> text_le(#[trigger] s[i], #[trigger] s[j]) && s[i] != s[j]
}

/// Whether `s` holds, in rising order and each once, exactly the texts that
/// occur in `of`.
pub open spec fn sorted_set_of(s: Seq<Seq<char>>, of: Seq<Seq<char>>) -> bool {
    &&& rising(s)
    &&& forall|t: Seq<char>| #[trigger] s.contains(t) <==> of.contains(t)
}

/// The texts of a list in rising order, each once. No other list is the
/// result.
pub proof fn law_sorted_sets_are_unique(a: Seq<Seq<char>>, b: Seq<Seq<char>>, of: Seq<Seq<char>>)
    requires
        sorted_set_of(a, of),
        sorted_set_of(b, of),
    ensures
        a == b,
{
    assert(a.take(0) =~= b.take(0));
    lemma_rising_prefix(a, b, of, 0);
}

proof fn lemma_rising_prefix(a: Seq<Seq<char>>, b: Seq<Seq<char>>, of: Seq<Seq<char>>, n: int)
    requires
        sorted_set_of(a, of),
        sorted_set_of(b, of),
        0 <= n <= a.len(),
        n <= b.len(),
        a.take(n) == b.take(n),
    ensures
        a == b,
    decreases a.len() - n,
{
    assert forall|k: int| 0 <= k < n implies a[k] == b[k] by {
        assert(a.take(n)[k] == b.take(n)[k]);
    }
    if n == a.len() {
        if n < b.len() {
            assert(b.contains(b[n]));
            assert(a.contains(b[n]));
            let k = choose|k: int| 0 <= k < a.len() && a[k] == b[n];
            assert(b[k] == b[n]);
        }
        assert(a =~= b);
    } else if n == b.len() {
        assert(a.contains(a[n]));
        assert(b.contains(a[n]));
        let k = choose|k: int| 0 <= k < b.len() && b[k] == a[n];
        assert(a[k] == a[n]);
    } else {
        assert(a.contains(a[n]));
        assert(b.contains(b[n]));
        assert(b.contains(a[n]));
        assert(a.contains(b[n]));
        let k = choose|k: int| 0 <= k < b.len() && b[k] == a[n];
        let m = choose|m: int| 0 <= m < a.len() && a[m] == b[n];
        if k < n {
            assert(a[k] == a[n]);
        }
        if m < n {
            assert(b[m] == b[n]);
        }
        if k > n && m > n {
            assert(text_le(b[n], b[k]));
            assert(text_le(a[n], a[m]));
            lemma_text_le_antisymmetric(a[n], b[n]);
        }
        assert(a[n] == b[n]);
        assert(a.take(n + 1) =~= b.take(n + 1));
        lemma_rising_prefix(a, b, of, n + 1);
    }
}

/// Puts `item` into a rising list, unless the list holds it.
pub fn insert_sorted(list: &mut Vec<String>, item: String)
    requires
        rising(texts(old(list)@)),
    ensures
        sorted_set_of(texts(final(list)@), texts(old(list)@).push(item@)),
{
    let ghost before = texts(list@);
    let mut i: usize = 0;
    while i < list.len() && le(list[i].as_str(), item.as_str())
        invariant
            i <= list.len(),
            before == texts(list@),
            rising(before),
            forall|k: int| 0 <= k < i ==> text_le(#[trigger] before[k], item@) && before[k] != item@,
        decreases list.len() - i,
    {
        if list[i] == item {
            proof {
                assert(before[i as int] == item@);
                assert forall|t: Seq<char>| #[trigger] before.contains(t) <==> before.push(
                    item@,
                ).contains(t) by {
                    if before.contains(t) {
                        let k = choose|k: int| 0 <= k < before.len() && before[k] == t;
                        assert(before.push(item@)[k] == t);
                    }
                    if before.push(item@).contains(t) {
                        let k = choose|k: int|
                            0 <= k < before.push(item@).len() && before.push(item@)[k] == t;
                        if k == before.len() {
                            assert(before[i as int] == t);
                        } else {
                            assert(before[k] == t);
                        }
                    }
                }
            }
            return ;
        }
        i = i + 1;
    }
    let ghost text = item@;
    list.insert(i, item);
    proof {
        let after = texts(list@);
        assert(after =~= before.insert(i as int, text));
        assert forall|k: int| i <= k < before.len() implies text_le(text, #[trigger] before[k])
            && before[k] != text by {
            lemma_text_le_total(before[i as int], text);
            lemma_text_le_reflexive(text);
            if k > i {
                assert(text_le(before[i as int], before[k]));
                lemma_text_le_transitive(text, before[i as int], before[k]);
                if before[k] == text {
                    lemma_text_le_antisymmetric(before[i as int], text);
                }
            }
        }
        assert forall|a: int, b: int| 0 <= a < b < after.len() implies text_le(
            #[trigger] after[a],
            #[trigger] after[b],
        ) && after[a] != after[b] by {
            let x = if a < i {
                a
            } else {
                a - 1
            };
            let y = if b < i {
                b
            } else {
                b - 1
            };
            if a != i {
                assert(after[a] == before[x]);
            }
            if b != i {
                assert(after[b] == before[y]);
            }
        }
        assert forall|t: Seq<char>| #[trigger] after.contains(t) <==> before.push(text).contains(
            t,
        ) by {
            if after.contains(t) {
                let k = choose|k: int| 0 <= k < after.len() && after[k] == t;
                if k < i {
                    assert(before.push(text)[k] == t);
                } else if k == i {
                    assert(before.push(text)[before.len() as int] == t);
                } else {
                    assert(before.push(text)[k - 1] == t);
                }
            }
            if before.push(text).contains(t) {
                let k = choose|k: int| 0 <= k < before.len() + 1 && before.push(text)[k] == t;
                if k == before.len() {
                    assert(after[i as int] == t);
                } else if k < i {
                    assert(after[k] == t);
                } else {
                    assert(after[k + 1] == t);
                }
            }
        }
    }
}

proof fn lemma_push_contains(a: Seq<Seq<char>>, b: Seq<Seq<char>>, x: Seq<char>)
    requires
        forall|t: Seq<char>| #[trigger] a.contains(t) <==> b.contains(t),
    ensures
        forall|t: Seq<char>| #[trigger] a.push(x).contains(t) <==> b.push(x).contains(t),
{
    assert forall|t: Seq<char>| #[trigger] a.push(x).contains(t) <==> b.push(x).contains(t) by {
        lemma_contains_push(a, x, t);
        lemma_contains_push(b, x, t);
        assert(a.contains(t) <==> b.contains(t));
    }
}

proof fn lemma_contains_push(a: Seq<Seq<char>>, x: Seq<char>, t: Seq<char>)
    ensures
        a.push(x).contains(t) <==> (a.contains(t) || t == x),
{
    if a.contains(t) {
        let k = choose|k: int| 0 <= k < a.len() && a[k] == t;
        assert(a.push(x)[k] == t);
    }
    if t == x {
        assert(a.push(x)[a.len() as int] == t);
    }
    if a.push(x).contains(t) {
        let k = choose|k: int| 0 <= k < a.push(x).len() && a.push(x)[k] == t;
        if k < a.len() {
            assert(a[k] == t);
        }
    }
}

/// The texts of a list in rising order, each once.
pub fn sorted_set(list: &Vec<String>) -> (r: Vec<String>)
    ensures
        sorted_set_of(texts(r@), texts(list@)),
{
    let mut out: Vec<String> = Vec::new();
    let mut i: usize = 0;
    while i < list.len()
        invariant
            i <= list.len(),
            sorted_set_of(texts(out@), texts(list@).take(i as int)),
        decreases list.len() - i,
    {
        let ghost seen = texts(list@).take(i as int);
        let ghost before = texts(out@);
        proof {
            assert(texts(list@).take(i + 1) =~= seen.push(list@[i as int]@));
            lemma_push_contains(before, seen, list@[i as int]@);
        }
        insert_sorted(&mut out, list[i].clone());
        i = i + 1;
    }
    proof {
        assert(texts(list@).take(i as int) =~= texts(list@));
    }
    out
}

} // verus!
