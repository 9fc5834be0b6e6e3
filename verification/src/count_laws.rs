//! What holds of the counts that a run keeps: prompts, characters and tokens.
use vstd::prelude::*;
use crate::arith::capped_size;
use crate::context::tokens_of;
use crate::json::{jnum, jopt_u64, jstr, Doc};
use crate::numeral::dec;
use crate::telemetry::{
    after_prompt, busiest, cached_total, input_total, largest_prompt, largest_usage, percent_ratio,
    stats_doc, stats_line, stats_of, total_chars, total_prompts, usage_doc, usage_line, usage_parts,
    usage_text, usage_total, PromptStats,
};
use crate::text::join;
use crate::text_laws::{
    group_says, law_joining_keeps_every_part, lemma_says_all_each, lemma_says_through, says,
    says_all,
};
use crate::usage::{add_usage, law_usage_associates, no_usage, total_of, TokenUsage};

verus! {

/// Whether an object has a member.
pub open spec fn tells(d: Doc, name: Seq<char>, value: Doc) -> bool {
    d matches Doc::Obj(f) && f.contains((name, value))
}

// ---- Prompts -------------------------------------------------------------------

/// One prompt more counts once, adds its characters, and is the largest where it
/// is larger than all before.
pub proof fn law_prompts_add_their_characters(s: PromptStats, chars: usize)
    ensures
        s.prompts < usize::MAX ==> after_prompt(s, chars as nat).prompts == s.prompts + 1,
        s.chars_sent + chars <= usize::MAX ==> after_prompt(s, chars as nat).chars_sent
            == s.chars_sent + chars,
        after_prompt(s, chars as nat).max_chars >= chars,
        after_prompt(s, chars as nat).max_chars >= s.max_chars,
        after_prompt(s, chars as nat).max_chars == chars || after_prompt(s, chars as nat).max_chars
            == s.max_chars,
{
}

/// The totals of two lists are the totals of each, added, as far as a machine can
/// count; and those of a list of one are what it holds.
pub proof fn law_totals_add_up(
    a: Seq<(String, PromptStats)>,
    b: Seq<(String, PromptStats)>,
    x: (String, PromptStats),
)
    ensures
        total_prompts(a + b) == capped_size((total_prompts(a) + total_prompts(b)) as int),
        total_chars(a + b) == capped_size((total_chars(a) + total_chars(b)) as int),
        total_prompts(seq![x]) == x.1.prompts,
        total_chars(seq![x]) == x.1.chars_sent,
    decreases b.len(),
{
    assert(seq![x].drop_last() =~= Seq::<(String, PromptStats)>::empty());
    reveal_with_fuel(total_prompts, 2);
    reveal_with_fuel(total_chars, 2);
    lemma_totals_fit(a);
    lemma_totals_fit(b);
    if b.len() == 0 {
        assert(a + b =~= a);
    } else {
        law_totals_add_up(a, b.drop_last(), x);
        lemma_totals_fit(b.drop_last());
        assert((a + b).drop_last() =~= a + b.drop_last());
        assert((a + b).last() == b.last());
    }
}

proof fn lemma_totals_fit(a: Seq<(String, PromptStats)>)
    ensures
        total_prompts(a) <= usize::MAX,
        total_chars(a) <= usize::MAX,
{
}

/// The largest prompt of a list is one of its agents' largest, and none of them
/// sent a larger one.
pub proof fn law_no_prompt_is_larger(s: Seq<(String, PromptStats)>, i: int)
    ensures
        0 <= i < s.len() ==> s[i].1.max_chars <= largest_prompt(s),
        s.len() > 0 ==> exists|k: int|
            0 <= k < s.len() && #[trigger] s[k].1.max_chars == largest_prompt(s),
        s.len() == 0 ==> largest_prompt(s) == 0,
    decreases s.len(),
{
    if s.len() > 0 {
        let t = s.drop_last();
        law_no_prompt_is_larger(t, i);
        if t.len() > 0 && largest_prompt(s) == largest_prompt(t) {
            let k = choose|k: int|
                0 <= k < t.len() && #[trigger] t[k].1.max_chars == largest_prompt(t);
            assert(s[k].1.max_chars == largest_prompt(s));
        } else {
            assert(s[s.len() - 1].1.max_chars == largest_prompt(s));
        }
        if 0 <= i < t.len() {
            assert(t[i] == s[i]);
        }
    }
}

/// The busiest agent is one to which no fewer characters were sent than to any
/// other; of several, the last.
pub proof fn law_the_busiest_was_sent_the_most(s: Seq<(String, PromptStats)>, i: int)
    ensures
        busiest(s) is None <==> s.len() == 0,
        busiest(s) matches Some(k) ==> 0 <= k < s.len(),
        busiest(s) matches Some(k) ==> 0 <= i < s.len() ==> s[i].1.chars_sent <= s[k].1.chars_sent,
        busiest(s) matches Some(k) ==> k < i < s.len() ==> s[i].1.chars_sent < s[k].1.chars_sent,
    decreases s.len(),
{
    if s.len() > 0 {
        let t = s.drop_last();
        law_the_busiest_was_sent_the_most(t, i);
    }
}

/// Counts are found under the label that they were kept under, the first where
/// there are several; and nothing is found under any other.
pub proof fn law_counts_are_found_by_label(s: Seq<(String, PromptStats)>, label: Seq<char>, k: int)
    ensures
        0 <= k < s.len() && s[k].0@ == label && (forall|j: int|
            0 <= j < k ==> (#[trigger] s[j]).0@ != label) ==> stats_of(s, label) == Some(s[k].1),
        (forall|j: int| 0 <= j < s.len() ==> (#[trigger] s[j]).0@ != label) ==> stats_of(s, label)
            is None,
    decreases s.len(),
{
    if s.len() > 0 {
        let t = s.skip(1);
        law_counts_are_found_by_label(t, label, k - 1);
        assert forall|j: int| 0 <= j < t.len() implies t[j] == s[j + 1] by {}
    }
}

/// What is shown of an agent's prompts names it and holds how many there were,
/// their characters and tokens, and the same of the largest.
pub proof fn law_prompt_counts_are_shown(label: Seq<char>, s: PromptStats)
    ensures
        says(stats_line(label, s), label + ": prompts="@ + dec(s.prompts as nat)),
        says(stats_line(label, s), " chars="@ + dec(s.chars_sent as nat)),
        says(stats_line(label, s), " tokens~"@ + dec(tokens_of(s.chars_sent as nat))),
        says(stats_line(label, s), " max="@ + dec(s.max_chars as nat)),
        says(stats_line(label, s), " max_tokens~"@ + dec(tokens_of(s.max_chars as nat))),
        tells(stats_doc(label, s), "label"@, jstr(label)),
        tells(stats_doc(label, s), "prompts"@, jnum(s.prompts as int)),
        tells(stats_doc(label, s), "chars"@, jnum(s.chars_sent as int)),
        tells(
            stats_doc(label, s),
            "tokens_estimate"@,
            jnum(tokens_of(s.chars_sent as nat) as int),
        ),
        tells(stats_doc(label, s), "max_chars"@, jnum(s.max_chars as int)),
        tells(
            stats_doc(label, s),
            "max_tokens_estimate"@,
            jnum(tokens_of(s.max_chars as nat) as int),
        ),
{
    broadcast use group_says;

    let n = dec(s.prompts as nat);
    let c = dec(s.chars_sent as nat);
    let t = dec(tokens_of(s.chars_sent as nat));
    let m = dec(s.max_chars as nat);
    let u = dec(tokens_of(s.max_chars as nat));
    let a = label + ": prompts="@ + n;
    let b = " chars="@ + c;
    let d = " tokens~"@ + t;
    let e = " max="@ + m;
    let f = " max_tokens~"@ + u;
    assert(stats_line(label, s) =~= "- "@ + a + b + d + e + f + "\n"@);
    let o = stats_doc(label, s)->Obj_0;
    assert(o[0] == ("label"@, jstr(label)));
    assert(o[1] == ("prompts"@, jnum(s.prompts as int)));
    assert(o[2] == ("chars"@, jnum(s.chars_sent as int)));
    assert(o[3] == ("tokens_estimate"@, jnum(tokens_of(s.chars_sent as nat) as int)));
    assert(o[4] == ("max_chars"@, jnum(s.max_chars as int)));
    assert(o[5] == ("max_tokens_estimate"@, jnum(tokens_of(s.max_chars as nat) as int)));
}

/// Four characters are taken for a token, and a rest for one more.
pub proof fn law_tokens_are_rounded_up(chars: nat)
    ensures
        4 * tokens_of(chars) >= chars,
        4 * tokens_of(chars) < chars + 4,
{
}

// ---- Tokens --------------------------------------------------------------------

/// What is added of two reports is the sum where both tell, and what one tells
/// where the other is silent; nothing is told where neither does.
pub open spec fn added(a: Option<u64>, b: Option<u64>, r: Option<u64>) -> bool {
    &&& a is None && b is None ==> r is None
    &&& a is Some && b is None ==> r == a
    &&& a is None && b is Some ==> r == b
    &&& a is Some && b is Some && a->0 + b->0 <= u64::MAX ==> r is Some && r->0 == a->0 + b->0
    &&& a is Some && b is Some && a->0 + b->0 > u64::MAX ==> r is Some && r->0 == u64::MAX
}

/// Reports are added count by count.
pub proof fn law_reports_are_added_count_by_count(a: TokenUsage, b: TokenUsage)
    ensures
        added(a.input_tokens, b.input_tokens, add_usage(a, b).input_tokens),
        added(a.cached_input_tokens, b.cached_input_tokens, add_usage(a, b).cached_input_tokens),
        added(a.output_tokens, b.output_tokens, add_usage(a, b).output_tokens),
        added(
            a.reasoning_output_tokens,
            b.reasoning_output_tokens,
            add_usage(a, b).reasoning_output_tokens,
        ),
        added(a.total_tokens, b.total_tokens, add_usage(a, b).total_tokens),
{
}

/// The total of a report is what it tells as its total. Else it is the tokens
/// that went in and came out, those of reasoning among them; tokens from a cache
/// went in already and are not counted again.
pub proof fn law_cached_tokens_are_not_counted_again(u: TokenUsage, cached: Option<u64>)
    ensures
        u.total_tokens is Some ==> total_of(u) == u.total_tokens,
        total_of(TokenUsage { cached_input_tokens: cached, ..u }) == total_of(u),
        u.total_tokens is None && u.input_tokens is None && u.output_tokens is None
            && u.reasoning_output_tokens is None ==> total_of(u) is None,
        u.total_tokens is None && u.input_tokens is Some && u.output_tokens is Some
            && u.reasoning_output_tokens is Some && u.input_tokens->0 + u.output_tokens->0
            + u.reasoning_output_tokens->0 <= u64::MAX ==> total_of(u) is Some && total_of(u)->0
            == u.input_tokens->0 + u.output_tokens->0 + u.reasoning_output_tokens->0,
        u.total_tokens is None && u.input_tokens is Some && u.output_tokens is Some
            && u.reasoning_output_tokens is None && u.input_tokens->0 + u.output_tokens->0
            <= u64::MAX ==> total_of(u) is Some && total_of(u)->0 == u.input_tokens->0
            + u.output_tokens->0,
        u.total_tokens is None && u.input_tokens is Some && u.output_tokens is None
            && u.reasoning_output_tokens is None ==> total_of(u) == u.input_tokens,
        u.total_tokens is None && u.input_tokens is None && u.output_tokens is Some
            && u.reasoning_output_tokens is None ==> total_of(u) == u.output_tokens,
        u.total_tokens is None && u.input_tokens is None && u.output_tokens is None
            ==> total_of(u) == u.reasoning_output_tokens,
{
}

/// The usage of two lists is the usage of each, added; that of a list of one is
/// its own. The tokens that went in, and those of them that came from a cache, are
/// those of the whole usage.
pub proof fn law_usage_adds_up(
    a: Seq<(String, TokenUsage)>,
    b: Seq<(String, TokenUsage)>,
    x: (String, TokenUsage),
)
    ensures
        usage_total(a + b) == add_usage(usage_total(a), usage_total(b)),
        usage_total(seq![x]) == x.1,
        input_total(a) == usage_total(a).input_tokens,
        usage_total(a).cached_input_tokens is Some ==> cached_total(a) == usage_total(
            a,
        ).cached_input_tokens->0,
        usage_total(a).cached_input_tokens is None ==> cached_total(a) == 0,
    decreases a.len() + b.len(),
{
    assert(seq![x].drop_last() =~= Seq::<(String, TokenUsage)>::empty());
    reveal_with_fuel(usage_total, 2);
    if b.len() == 0 {
        assert(a + b =~= a);
        if a.len() > 0 {
            law_usage_adds_up(a.drop_last(), b, x);
        }
    } else {
        law_usage_adds_up(a, b.drop_last(), x);
        assert((a + b).drop_last() =~= a + b.drop_last());
        assert((a + b).last() == b.last());
        law_usage_associates(usage_total(a), usage_total(b.drop_last()), b.last().1);
    }
}

/// The largest report is one that tells a total, and none tells a larger; of
/// several, the last. There is none only where no report tells a total.
pub proof fn law_no_report_is_larger(s: Seq<(String, TokenUsage)>, i: int)
    ensures
        largest_usage(s) matches Some(k) ==> 0 <= k < s.len() && total_of(s[k].1) is Some,
        largest_usage(s) is None && 0 <= i < s.len() ==> total_of(s[i].1) is None,
        largest_usage(s) matches Some(k) ==> 0 <= i < s.len() && total_of(s[i].1) is Some ==> total_of(
            s[i].1,
        )->0 <= total_of(s[k].1)->0,
        largest_usage(s) matches Some(k) ==> k < i < s.len() && total_of(s[i].1) is Some ==> total_of(
            s[i].1,
        )->0 < total_of(s[k].1)->0,
    decreases s.len(),
{
    if s.len() > 0 {
        law_no_report_is_larger(s.drop_last(), i);
    }
}

/// What is shown of a usage holds every count that was told, under its name; and
/// it says so where none was.
pub proof fn law_told_counts_are_shown(label: Seq<char>, u: TokenUsage)
    ensures
        says(usage_line(label, u), label),
        u.input_tokens is Some ==> says(usage_line(label, u), "input="@ + dec(u.input_tokens->0 as nat))
            && says(usage_text(u), "input="@ + dec(u.input_tokens->0 as nat)),
        u.cached_input_tokens is Some ==> says(
            usage_line(label, u),
            "cached_input="@ + dec(u.cached_input_tokens->0 as nat),
        ) && says(usage_text(u), "cached_input="@ + dec(u.cached_input_tokens->0 as nat)),
        u.output_tokens is Some ==> says(
            usage_line(label, u),
            "output="@ + dec(u.output_tokens->0 as nat),
        ) && says(usage_text(u), "output="@ + dec(u.output_tokens->0 as nat)),
        u.reasoning_output_tokens is Some ==> says(
            usage_line(label, u),
            "reasoning_output="@ + dec(u.reasoning_output_tokens->0 as nat),
        ) && says(usage_text(u), "reasoning_output="@ + dec(u.reasoning_output_tokens->0 as nat)),
        total_of(u) is Some ==> says(usage_line(label, u), "total="@ + dec(total_of(u)->0 as nat))
            && says(usage_text(u), "total="@ + dec(total_of(u)->0 as nat)),
        u == no_usage() ==> usage_text(u) == "tokens unavailable"@ && says(
            usage_line(label, u),
            "unavailable"@,
        ),
{
    broadcast use group_says;

    let parts = usage_parts(u);
    law_joining_keeps_every_part(parts, ", "@, Seq::empty());
    if u.input_tokens is Some {
        lemma_shown(label, u, "input="@ + dec(u.input_tokens->0 as nat), if total_of(u) is Some {
            1
        } else {
            0
        });
    }
    let t: int = if total_of(u) is Some {
        1
    } else {
        0
    };
    let i: int = if u.input_tokens is Some {
        1
    } else {
        0
    };
    let c: int = if u.cached_input_tokens is Some {
        1
    } else {
        0
    };
    let o: int = if u.output_tokens is Some {
        1
    } else {
        0
    };
    if u.cached_input_tokens is Some {
        lemma_shown(label, u, "cached_input="@ + dec(u.cached_input_tokens->0 as nat), t + i);
    }
    if u.output_tokens is Some {
        lemma_shown(label, u, "output="@ + dec(u.output_tokens->0 as nat), t + i + c);
    }
    if u.reasoning_output_tokens is Some {
        lemma_shown(
            label,
            u,
            "reasoning_output="@ + dec(u.reasoning_output_tokens->0 as nat),
            t + i + c + o,
        );
    }
    if total_of(u) is Some {
        lemma_shown(label, u, "total="@ + dec(total_of(u)->0 as nat), 0);
    }
}

proof fn lemma_shown(label: Seq<char>, u: TokenUsage, part: Seq<char>, k: int)
    requires
        0 <= k < usage_parts(u).len(),
        usage_parts(u)[k] == part,
    ensures
        says(usage_line(label, u), part),
        says(usage_text(u), part),
{
    broadcast use group_says;

    let parts = usage_parts(u);
    law_joining_keeps_every_part(parts, ", "@, Seq::empty());
    let all = join(parts, ", "@);
    assert(says_all(all, parts));
    lemma_says_all_each(all, parts, k);
    lemma_says_through(usage_line(label, u), all, part);
    lemma_says_through(usage_text(u), all, part);
}

/// A usage is told count by count, and with what its counts come to.
pub proof fn law_usage_is_told(u: TokenUsage)
    ensures
        tells(usage_doc(u), "input_tokens"@, jopt_u64(u.input_tokens)),
        tells(usage_doc(u), "cached_input_tokens"@, jopt_u64(u.cached_input_tokens)),
        tells(usage_doc(u), "output_tokens"@, jopt_u64(u.output_tokens)),
        tells(usage_doc(u), "reasoning_output_tokens"@, jopt_u64(u.reasoning_output_tokens)),
        tells(usage_doc(u), "total_tokens"@, jopt_u64(u.total_tokens)),
        tells(usage_doc(u), "total_or_sum"@, jopt_u64(total_of(u))),
{
    let o = usage_doc(u)->Obj_0;
    assert(o[0] == ("input_tokens"@, jopt_u64(u.input_tokens)));
    assert(o[1] == ("cached_input_tokens"@, jopt_u64(u.cached_input_tokens)));
    assert(o[2] == ("output_tokens"@, jopt_u64(u.output_tokens)));
    assert(o[3] == ("reasoning_output_tokens"@, jopt_u64(u.reasoning_output_tokens)));
    assert(o[4] == ("total_tokens"@, jopt_u64(u.total_tokens)));
    assert(o[5] == ("total_or_sum"@, jopt_u64(total_of(u))));
}

/// A percentage is the largest that the part reaches of the whole; nothing is no
/// part of anything.
pub proof fn law_percentages_are_rounded_down(part: u64, whole: u64)
    ensures
        whole == 0 ==> percent_ratio(part, whole) == 0,
        whole > 0 && part * 100 <= u64::MAX ==> percent_ratio(part, whole) * whole <= part * 100
            && part * 100 < (percent_ratio(part, whole) + 1) * whole,
        whole > 0 && whole * 100 <= u64::MAX ==> percent_ratio(whole, whole) == 100,
{
    if whole > 0 && part * 100 <= u64::MAX {
        lemma_quotient(part * 100, whole as int);
    }
    if whole > 0 && whole * 100 <= u64::MAX {
        vstd::arithmetic::div_mod::lemma_div_multiples_vanish(100, whole as int);
        assert(whole * 100 == 100 * whole);
    }
}

pub proof fn lemma_quotient(n: int, d: int)
    requires
        n >= 0,
        d > 0,
    ensures
        (n / d) * d <= n < (n / d + 1) * d,
        0 <= n / d <= n,
{
    vstd::arithmetic::div_mod::lemma_fundamental_div_mod(n, d);
    vstd::arithmetic::div_mod::lemma_mod_bound(n, d);
    vstd::arithmetic::div_mod::lemma_div_pos_is_pos(n, d);
    vstd::arithmetic::div_mod::lemma_div_nonincreasing(n, d);
    vstd::arithmetic::mul::lemma_mul_is_commutative(d, n / d);
    vstd::arithmetic::mul::lemma_mul_is_distributive_add_other_way(d, n / d, 1);
}

} // verus!
