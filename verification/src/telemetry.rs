//! What a run cost and how much was sent.
use vstd::prelude::*;
use crate::arith::capped_size;
use crate::context::{estimated_tokens, tokens_of};
use crate::json::{jnum, jopt_u64, jstr, opt_num, size, text, Doc, Fields, Json};
use crate::numeral::{dec, decimal, decimal_size};
use crate::recommend::Measure;
use crate::text::{join, join_texts, lemma_texts_push, texts};
use crate::usage::{add_usage, capped, no_usage, total_of, TokenUsage};

verus! {

/// The prompts that were sent to an agent, or in a phase.
#[derive(Clone, Copy, Debug, PartialEq, Eq, Structural)]
pub struct PromptStats {
    pub prompts: usize,
    pub chars_sent: usize,
    pub max_chars: usize,
}

/// What agents reported that they cost. `total` is the sum over the entries.
#[derive(Debug)]
pub struct CostReport {
    pub total: Measure,
    pub entries: Vec<(String, Measure)>,
}

/// Which part of a run a prompt belongs to.
#[derive(Clone, Copy, Debug, PartialEq, Eq, Structural)]
pub enum PromptPhase {
    Planning,
    PlanningSynthesis,
    Recommendation,
    VoteRepair,
    Execution,
}

/// The name of a phase in reports.
pub open spec fn phase_label(p: PromptPhase) -> Seq<char> {
    match p {
        PromptPhase::Planning => "planning"@,
        PromptPhase::PlanningSynthesis => "planning_synthesis"@,
        PromptPhase::Recommendation => "recommendation_vote"@,
        PromptPhase::VoteRepair => "vote_repair"@,
        PromptPhase::Execution => "execution"@,
    }
}

impl PromptPhase {
    pub fn label(self) -> (r: &'static str)
        ensures
            r@ == phase_label(self),
    {
        match self {
            PromptPhase::Planning => "planning",
            PromptPhase::PlanningSynthesis => "planning_synthesis",
            PromptPhase::Recommendation => "recommendation_vote",
            PromptPhase::VoteRepair => "vote_repair",
            PromptPhase::Execution => "execution",
        }
    }
}

// ---- Prompts ---------------------------------------------------------------

/// How many prompts were sent, as far as a size can count them.
pub open spec fn total_prompts(s: Seq<(String, PromptStats)>) -> nat
    decreases s.len(),
{
    if s.len() == 0 {
        0
    } else {
        capped_size(total_prompts(s.drop_last()) + s.last().1.prompts) as nat
    }
}

/// How many characters were sent, as far as a size can count them.
pub open spec fn total_chars(s: Seq<(String, PromptStats)>) -> nat
    decreases s.len(),
{
    if s.len() == 0 {
        0
    } else {
        capped_size(total_chars(s.drop_last()) + s.last().1.chars_sent) as nat
    }
}

/// How many characters the largest prompt had.
pub open spec fn largest_prompt(s: Seq<(String, PromptStats)>) -> usize
    decreases s.len(),
{
    if s.len() == 0 {
        0
    } else {
        crate::arith::max_size(largest_prompt(s.drop_last()), s.last().1.max_chars)
    }
}

/// The totals over all agents.
pub fn totals(s: &Vec<(String, PromptStats)>) -> (r: PromptStats)
    ensures
        r.prompts == total_prompts(s@),
        r.chars_sent == total_chars(s@),
        r.max_chars == largest_prompt(s@),
{
    let mut prompts: usize = 0;
    let mut chars: usize = 0;
    let mut most: usize = 0;
    let mut i: usize = 0;
    while i < s.len()
        invariant
            i <= s.len(),
            prompts == total_prompts(s@.take(i as int)),
            chars == total_chars(s@.take(i as int)),
            most == largest_prompt(s@.take(i as int)),
        decreases s.len() - i,
    {
        proof {
            assert(s@.take(i + 1).drop_last() =~= s@.take(i as int));
        }
        prompts = prompts.saturating_add(s[i].1.prompts);
        chars = chars.saturating_add(s[i].1.chars_sent);
        most = crate::arith::larger(most, s[i].1.max_chars);
        i = i + 1;
    }
    proof {
        assert(s@.take(i as int) =~= s@);
    }
    PromptStats { prompts, chars_sent: chars, max_chars: most }
}

/// The place of the entry that sent the most characters; the last of several.
pub open spec fn busiest(s: Seq<(String, PromptStats)>) -> Option<int>
    decreases s.len(),
{
    if s.len() == 0 {
        None
    } else {
        let before = busiest(s.drop_last());
        match before {
            Some(k) => if s.last().1.chars_sent >= s[k].1.chars_sent {
                Some(s.len() - 1)
            } else {
                before
            },
            None => Some(s.len() - 1),
        }
    }
}

pub fn busiest_entry(s: &Vec<(String, PromptStats)>) -> (r: Option<usize>)
    ensures
        match r {
            Some(k) => k < s@.len() && busiest(s@) == Some(k as int),
            None => s@.len() == 0,
        },
{
    let mut best: Option<usize> = None;
    let mut i: usize = 0;
    while i < s.len()
        invariant
            i <= s.len(),
            match best {
                Some(k) => k < i && busiest(s@.take(i as int)) == Some(k as int),
                None => i == 0,
            },
        decreases s.len() - i,
    {
        proof {
            assert(s@.take(i + 1).drop_last() =~= s@.take(i as int));
        }
        best =
        match best {
            Some(k) => if s[i].1.chars_sent >= s[k].1.chars_sent {
                Some(i)
            } else {
                Some(k)
            },
            None => Some(i),
        };
        i = i + 1;
    }
    proof {
        assert(s@.take(i as int) =~= s@);
    }
    best
}

/// The first entry with a label.
pub open spec fn stats_of(s: Seq<(String, PromptStats)>, label: Seq<char>) -> Option<PromptStats>
    decreases s.len(),
{
    if s.len() == 0 {
        None
    } else if s[0].0@ == label {
        Some(s[0].1)
    } else {
        stats_of(s.skip(1), label)
    }
}

pub fn find_stats(s: &Vec<(String, PromptStats)>, label: &str) -> (r: Option<PromptStats>)
    ensures
        r == stats_of(s@, label@),
{
    let mut i: usize = 0;
    proof {
        assert(s@.skip(0) =~= s@);
    }
    while i < s.len()
        invariant
            i <= s.len(),
            stats_of(s@, label@) == stats_of(s@.skip(i as int), label@),
        decreases s.len() - i,
    {
        proof {
            assert(s@.skip(i as int)[0] == s@[i as int]);
            assert(s@.skip(i as int).skip(1) =~= s@.skip(i + 1));
        }
        if crate::text::same(s[i].0.as_str(), label) {
            return Some(s[i].1);
        }
        i = i + 1;
    }
    None
}

/// What a prompt of `chars` characters makes of the prompts sent before. The
/// counts stop at the largest size.
pub open spec fn after_prompt(s: PromptStats, chars: nat) -> PromptStats {
    PromptStats {
        prompts: capped_size(s.prompts + 1),
        chars_sent: capped_size(s.chars_sent + chars),
        max_chars: crate::arith::max_size(s.max_chars, chars as usize),
    }
}

/// Counts a prompt of `chars` characters.
pub fn count_prompt(s: PromptStats, chars: usize) -> (r: PromptStats)
    ensures
        r == after_prompt(s, chars as nat),
{
    PromptStats {
        prompts: s.prompts.saturating_add(1),
        chars_sent: s.chars_sent.saturating_add(chars),
        max_chars: crate::arith::larger(s.max_chars, chars),
    }
}

/// No prompt sent.
pub fn no_prompts() -> (r: PromptStats)
    ensures
        r == (PromptStats { prompts: 0, chars_sent: 0, max_chars: 0 }),
{
    PromptStats { prompts: 0, chars_sent: 0, max_chars: 0 }
}

/// The line on the prompts under a label.
pub open spec fn stats_line(label: Seq<char>, s: PromptStats) -> Seq<char> {
    "- "@ + label + ": prompts="@ + dec(s.prompts as nat) + " chars="@ + dec(s.chars_sent as nat)
        + " tokens~"@ + dec(tokens_of(s.chars_sent as nat)) + " max="@ + dec(s.max_chars as nat)
        + " max_tokens~"@ + dec(tokens_of(s.max_chars as nat)) + "\n"@
}

pub fn write_stats_line(label: &str, s: PromptStats) -> (r: String)
    ensures
        r@ == stats_line(label@, s),
{
    let mut out = "- ".to_owned();
    out.append(label);
    out.append(": prompts=");
    out.append(decimal_size(s.prompts).as_str());
    out.append(" chars=");
    out.append(decimal_size(s.chars_sent).as_str());
    out.append(" tokens~");
    out.append(decimal_size(estimated_tokens(s.chars_sent)).as_str());
    out.append(" max=");
    out.append(decimal_size(s.max_chars).as_str());
    out.append(" max_tokens~");
    out.append(decimal_size(estimated_tokens(s.max_chars)).as_str());
    out.append("\n");
    out
}

/// The document on the prompts under a label.
pub open spec fn stats_doc(label: Seq<char>, s: PromptStats) -> Doc {
    Doc::Obj(
        seq![
            ("label"@, jstr(label)),
            ("prompts"@, jnum(s.prompts as int)),
            ("chars"@, jnum(s.chars_sent as int)),
            ("tokens_estimate"@, jnum(tokens_of(s.chars_sent as nat) as int)),
            ("max_chars"@, jnum(s.max_chars as int)),
            ("max_tokens_estimate"@, jnum(tokens_of(s.max_chars as nat) as int)),
        ],
    )
}

pub fn prompt_stats_json(label: &str, s: PromptStats) -> (r: Json)
    ensures
        r@ == stats_doc(label@, s),
{
    let mut f = Fields::new();
    f.put("label", text(label));
    f.put("prompts", size(s.prompts));
    f.put("chars", size(s.chars_sent));
    f.put("tokens_estimate", size(estimated_tokens(s.chars_sent)));
    f.put("max_chars", size(s.max_chars));
    f.put("max_tokens_estimate", size(estimated_tokens(s.max_chars)));
    proof {
        assert(f@ =~= stats_doc(label@, s)->Obj_0);
    }
    f.object()
}

// ---- Tokens ----------------------------------------------------------------

/// The usage over all agents.
pub open spec fn usage_total(s: Seq<(String, TokenUsage)>) -> TokenUsage
    decreases s.len(),
{
    if s.len() == 0 {
        no_usage()
    } else {
        add_usage(usage_total(s.drop_last()), s.last().1)
    }
}

pub fn total_usage(s: &Vec<(String, TokenUsage)>) -> (r: TokenUsage)
    ensures
        r == usage_total(s@),
{
    let mut total = TokenUsage::default();
    let mut i: usize = 0;
    while i < s.len()
        invariant
            i <= s.len(),
            total == usage_total(s@.take(i as int)),
        decreases s.len() - i,
    {
        proof {
            assert(s@.take(i + 1).drop_last() =~= s@.take(i as int));
        }
        total.add(s[i].1);
        i = i + 1;
    }
    proof {
        assert(s@.take(i as int) =~= s@);
    }
    total
}

/// The input tokens that agents reported, together.
pub open spec fn input_total(s: Seq<(String, TokenUsage)>) -> Option<u64>
    decreases s.len(),
{
    if s.len() == 0 {
        None
    } else {
        crate::usage::add_counts(input_total(s.drop_last()), s.last().1.input_tokens)
    }
}

pub fn reported_input_tokens(s: &Vec<(String, TokenUsage)>) -> (r: Option<u64>)
    ensures
        r == input_total(s@),
{
    let mut total: u64 = 0;
    let mut seen = false;
    let mut i: usize = 0;
    while i < s.len()
        invariant
            i <= s.len(),
            !seen ==> total == 0,
            input_total(s@.take(i as int)) == (if seen {
                Some(total)
            } else {
                None
            }),
        decreases s.len() - i,
    {
        proof {
            assert(s@.take(i + 1).drop_last() =~= s@.take(i as int));
        }
        if let Some(input) = s[i].1.input_tokens {
            total = total.saturating_add(input);
            seen = true;
        }
        i = i + 1;
    }
    proof {
        assert(s@.take(i as int) =~= s@);
    }
    if seen {
        Some(total)
    } else {
        None
    }
}

/// The cached input tokens that agents reported, together, as far as a count
/// goes.
pub open spec fn cached_total(s: Seq<(String, TokenUsage)>) -> nat
    decreases s.len(),
{
    if s.len() == 0 {
        0
    } else {
        match s.last().1.cached_input_tokens {
            Some(n) => capped(cached_total(s.drop_last()) + n) as nat,
            None => cached_total(s.drop_last()),
        }
    }
}

pub fn cached_input_tokens(s: &Vec<(String, TokenUsage)>) -> (r: u64)
    ensures
        r == cached_total(s@),
{
    let mut total: u64 = 0;
    let mut i: usize = 0;
    while i < s.len()
        invariant
            i <= s.len(),
            total == cached_total(s@.take(i as int)),
        decreases s.len() - i,
    {
        proof {
            assert(s@.take(i + 1).drop_last() =~= s@.take(i as int));
        }
        if let Some(n) = s[i].1.cached_input_tokens {
            total = total.saturating_add(n);
        }
        i = i + 1;
    }
    proof {
        assert(s@.take(i as int) =~= s@);
    }
    total
}

/// The place of the largest usage among those with a total; the last of
/// several.
pub open spec fn largest_usage(s: Seq<(String, TokenUsage)>) -> Option<int>
    decreases s.len(),
{
    if s.len() == 0 {
        None
    } else {
        let before = largest_usage(s.drop_last());
        match total_of(s.last().1) {
            None => before,
            Some(n) => match before {
                Some(k) => if n >= total_of(s[k].1)->0 {
                    Some(s.len() - 1)
                } else {
                    before
                },
                None => Some(s.len() - 1),
            },
        }
    }
}

pub fn largest_reported(s: &Vec<(String, TokenUsage)>) -> (r: Option<(usize, u64)>)
    ensures
        match r {
            Some((k, n)) => k < s@.len() && largest_usage(s@) == Some(k as int) && total_of(
                s@[k as int].1,
            ) == Some(n),
            None => largest_usage(s@).is_none(),
        },
{
    let mut best: Option<(usize, u64)> = None;
    let mut i: usize = 0;
    while i < s.len()
        invariant
            i <= s.len(),
            match best {
                Some((k, n)) => k < i && largest_usage(s@.take(i as int)) == Some(k as int)
                    && total_of(s@[k as int].1) == Some(n),
                None => largest_usage(s@.take(i as int)).is_none(),
            },
        decreases s.len() - i,
    {
        proof {
            assert(s@.take(i + 1).drop_last() =~= s@.take(i as int));
        }
        if let Some(n) = s[i].1.total_or_sum() {
            best =
            match best {
                Some((k, m)) => if n >= m {
                    Some((i, n))
                } else {
                    Some((k, m))
                },
                None => Some((i, n)),
            };
        }
        i = i + 1;
    }
    proof {
        assert(s@.take(i as int) =~= s@);
    }
    best
}

/// A count behind its name, if it was reported.
pub open spec fn count_part(name: Seq<char>, n: Option<u64>) -> Seq<Seq<char>> {
    match n {
        Some(n) => seq![name + dec(n as nat)],
        None => Seq::empty(),
    }
}

/// The counts of a usage but for the total.
pub open spec fn detail_parts(u: TokenUsage) -> Seq<Seq<char>> {
    count_part("input="@, u.input_tokens) + count_part("cached_input="@, u.cached_input_tokens)
        + count_part("output="@, u.output_tokens) + count_part(
        "reasoning_output="@,
        u.reasoning_output_tokens,
    )
}

/// The counts of a usage, the total first.
pub open spec fn usage_parts(u: TokenUsage) -> Seq<Seq<char>> {
    count_part("total="@, total_of(u)) + detail_parts(u)
}

fn push_count(parts: &mut Vec<String>, name: &str, n: Option<u64>)
    ensures
        texts(final(parts)@) == texts(old(parts)@) + count_part(name@, n),
{
    if let Some(n) = n {
        let mut s = name.to_owned();
        s.append(decimal(n).as_str());
        proof {
            lemma_texts_push(parts@, s);
        }
        parts.push(s);
    }
    proof {
        assert(texts(parts@) =~= texts(old(parts)@) + count_part(name@, n));
    }
}

/// The counts of a usage but for the total.
pub fn usage_details(u: &TokenUsage) -> (r: Vec<String>)
    ensures
        texts(r@) == detail_parts(*u),
{
    let mut parts: Vec<String> = Vec::new();
    push_count(&mut parts, "input=", u.input_tokens);
    push_count(&mut parts, "cached_input=", u.cached_input_tokens);
    push_count(&mut parts, "output=", u.output_tokens);
    push_count(&mut parts, "reasoning_output=", u.reasoning_output_tokens);
    proof {
        assert(texts(parts@) =~= detail_parts(*u));
    }
    parts
}

/// The counts of a usage, the total first.
pub fn usage_list(u: &TokenUsage) -> (r: Vec<String>)
    ensures
        texts(r@) == usage_parts(*u),
{
    let mut parts: Vec<String> = Vec::new();
    push_count(&mut parts, "total=", u.total_or_sum());
    push_count(&mut parts, "input=", u.input_tokens);
    push_count(&mut parts, "cached_input=", u.cached_input_tokens);
    push_count(&mut parts, "output=", u.output_tokens);
    push_count(&mut parts, "reasoning_output=", u.reasoning_output_tokens);
    proof {
        assert(texts(parts@) =~= usage_parts(*u));
    }
    parts
}

/// The line on the usage under a label.
pub open spec fn usage_line(label: Seq<char>, u: TokenUsage) -> Seq<char> {
    let parts = usage_parts(u);
    "- "@ + label + ": "@ + (if parts.len() == 0 {
        "unavailable"@
    } else {
        join(parts, ", "@)
    }) + "\n"@
}

pub fn format_token_usage_line(label: &str, usage: TokenUsage) -> (r: String)
    ensures
        r@ == usage_line(label@, usage),
{
    let parts = usage_list(&usage);
    proof {
        assert(texts(parts@).len() == parts@.len());
    }
    let mut out = "- ".to_owned();
    out.append(label);
    out.append(": ");
    if parts.is_empty() {
        out.append("unavailable");
    } else {
        out.append(join_texts(&parts, ", ").as_str());
    }
    out.append("\n");
    out
}

/// A usage on the console.
pub open spec fn usage_text(u: TokenUsage) -> Seq<char> {
    let parts = usage_parts(u);
    if parts.len() == 0 {
        "tokens unavailable"@
    } else {
        "tokens "@ + join(parts, ", "@)
    }
}

/// A usage on the console.
pub fn format_token_usage(usage: TokenUsage) -> (r: String)
    ensures
        r@ == usage_text(usage),
{
    let parts = usage_list(&usage);
    proof {
        assert(texts(parts@).len() == parts@.len());
    }
    if parts.is_empty() {
        return "tokens unavailable".to_owned();
    }
    let mut out = "tokens ".to_owned();
    out.append(join_texts(&parts, ", ").as_str());
    out
}

/// The document on a usage.
pub open spec fn usage_doc(u: TokenUsage) -> Doc {
    Doc::Obj(
        seq![
            ("input_tokens"@, jopt_u64(u.input_tokens)),
            ("cached_input_tokens"@, jopt_u64(u.cached_input_tokens)),
            ("output_tokens"@, jopt_u64(u.output_tokens)),
            ("reasoning_output_tokens"@, jopt_u64(u.reasoning_output_tokens)),
            ("total_tokens"@, jopt_u64(u.total_tokens)),
            ("total_or_sum"@, jopt_u64(total_of(u))),
        ],
    )
}

pub fn token_usage_json(usage: TokenUsage) -> (r: Json)
    ensures
        r@ == usage_doc(usage),
{
    let mut f = Fields::new();
    f.put("input_tokens", opt_num(usage.input_tokens));
    f.put("cached_input_tokens", opt_num(usage.cached_input_tokens));
    f.put("output_tokens", opt_num(usage.output_tokens));
    f.put("reasoning_output_tokens", opt_num(usage.reasoning_output_tokens));
    f.put("total_tokens", opt_num(usage.total_tokens));
    f.put("total_or_sum", opt_num(usage.total_or_sum()));
    proof {
        assert(f@ =~= usage_doc(usage)->Obj_0);
    }
    f.object()
}

/// How much a number is of another, in percent, rounded down; zero of nothing.
pub open spec fn percent_ratio(numerator: u64, denominator: u64) -> u64 {
    if denominator == 0 {
        0
    } else {
        (capped(numerator * 100) / denominator) as u64
    }
}

pub fn ratio_percent(numerator: u64, denominator: u64) -> (r: u64)
    ensures
        r == percent_ratio(numerator, denominator),
{
    if denominator == 0 {
        0
    } else {
        crate::arith::saturating_product_u64(numerator, 100) / denominator
    }
}

} // verus!
