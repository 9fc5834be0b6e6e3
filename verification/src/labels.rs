//! Short texts that commands show.
use vstd::prelude::*;
use crate::agent::AgentCaps;
use crate::arith::{capped_size, ceil_div, quotient_up, saturating_product};
use crate::context::{estimated_tokens, tokens_of, DEFAULT_CONTEXT_BUDGET_CHARS};
use crate::numeral::{dec, decimal_size};
use crate::recommend::Score;
use crate::registry::{row_of, tool_info};
use crate::text::{chars_of, join, join_texts, lemma_texts_push, text_between, texts};

verus! {

/// The first characters of a text, at most `n`.
pub open spec fn head_of(s: Seq<char>, n: nat) -> Seq<char> {
    if s.len() <= n {
        s
    } else {
        s.take(n as int)
    }
}

/// The first characters of a text, at most `n`.
pub fn head(s: &str, n: usize) -> (r: String)
    ensures
        r@ == head_of(s@, n as nat),
{
    let sc = chars_of(s);
    let end: usize = if sc.len() <= n {
        sc.len()
    } else {
        n
    };
    proof {
        assert(s@.subrange(0, end as int) =~= head_of(s@, n as nat));
    }
    text_between(&sc, 0, end)
}

/// A text, cut with a note where it is longer than `n` characters.
pub open spec fn previewed(s: Seq<char>, n: nat) -> Seq<char> {
    head_of(s, n) + (if s.len() > n {
        "\n... truncated ..."@
    } else {
        Seq::empty()
    })
}

/// A text, cut with a note where it is longer than `max_chars` characters.
pub fn preview_chars(text: &str, max_chars: usize) -> (r: String)
    ensures
        r@ == previewed(text@, max_chars as nat),
{
    let mut out = head(text, max_chars);
    if chars_of(text).len() > max_chars {
        out.append("\n... truncated ...");
    } else {
        proof {
            assert(out@ =~= out@ + Seq::<char>::empty());
        }
    }
    out
}

/// A text, cut with dots where it is longer than `n` characters.
pub open spec fn short_preview(s: Seq<char>, n: nat) -> Seq<char> {
    head_of(s, n) + (if s.len() > n {
        "..."@
    } else {
        Seq::empty()
    })
}

/// A text, cut with dots where it is longer than `limit` characters.
pub fn json_preview(text: &str, limit: usize) -> (r: String)
    ensures
        r@ == short_preview(text@, limit as nat),
{
    let mut out = head(text, limit);
    if chars_of(text).len() > limit {
        out.append("...");
    } else {
        proof {
            assert(out@ =~= out@ + Seq::<char>::empty());
        }
    }
    out
}

/// A text, filled up with spaces to `n` characters.
pub open spec fn padded(s: Seq<char>, n: nat) -> Seq<char> {
    s + Seq::new(
        if s.len() < n {
            (n - s.len()) as nat
        } else {
            0
        },
        |i: int| ' ',
    )
}

/// A text, filled up with spaces to `n` characters.
pub fn pad(s: &str, n: usize) -> (r: String)
    ensures
        r@ == padded(s@, n as nat),
{
    let mut out = s.to_owned();
    let mut i: usize = chars_of(s).len();
    let ghost from = i as int;
    proof {
        assert(out@ =~= s@ + Seq::new(0, |i: int| ' '));
    }
    while i < n
        invariant
            from == s@.len(),
            from <= i,
            i <= n || i == from,
            out@ == s@ + Seq::new((i - from) as nat, |i: int| ' '),
        decreases n - i,
    {
        out.push(' ');
        proof {
            assert(out@ =~= s@ + Seq::new((i + 1 - from) as nat, |i: int| ' '));
        }
        i = i + 1;
    }
    proof {
        assert(out@ =~= padded(s@, n as nat));
    }
    out
}

/// The name for people of a tool; its key where the tool is unknown.
pub open spec fn label_of(key: Seq<char>) -> Seq<char> {
    match row_of(key) {
        Some(row) => row.pretty,
        None => key,
    }
}

/// The name for people of a tool; its key where the tool is unknown.
pub fn tool_label(key: &str) -> (r: String)
    ensures
        r@ == label_of(key@),
{
    match tool_info(key) {
        Some(info) => info.pretty.to_owned(),
        None => key.to_owned(),
    }
}

pub open spec fn bool_word(b: bool) -> Seq<char> {
    if b {
        "true"@
    } else {
        "false"@
    }
}

/// The word for a truth value.
pub fn truth_word(b: bool) -> (r: &'static str)
    ensures
        r@ == bool_word(b),
{
    if b {
        "true"
    } else {
        "false"
    }
}

/// What a tool can do, in one line.
pub open spec fn caps_line(caps: AgentCaps) -> Seq<char> {
    "resume="@ + bool_word(caps.resumable) + ", midturn="@ + bool_word(caps.midturn_injection)
        + ", structured="@ + bool_word(caps.structured_output) + ", mcp="@ + bool_word(caps.mcp)
}

/// What a tool can do, in one line.
pub fn format_caps(caps: AgentCaps) -> (r: String)
    ensures
        r@ == caps_line(caps),
{
    let mut out = "resume=".to_owned();
    out.append(truth_word(caps.resumable));
    out.append(", midturn=");
    out.append(truth_word(caps.midturn_injection));
    out.append(", structured=");
    out.append(truth_word(caps.structured_output));
    out.append(", mcp=");
    out.append(truth_word(caps.mcp));
    out
}

// ---- Scores ----------------------------------------------------------------

pub open spec fn score_part(s: Score) -> Seq<char> {
    s.executor@ + "="@ + s.value.shown@
}

/// The parts of the line on scores: the first four, and how many more there
/// are.
pub open spec fn score_parts(scores: Seq<Score>) -> Seq<Seq<char>> {
    if scores.len() <= 4 {
        Seq::new(scores.len(), |i: int| score_part(scores[i]))
    } else {
        Seq::new(4, |i: int| score_part(scores[i])).push(
            "+"@ + dec((scores.len() - 4) as nat) + " more"@,
        )
    }
}

/// The line on scores.
pub open spec fn scores_line(scores: Seq<Score>) -> Seq<char> {
    if scores.len() == 0 {
        "scores: unavailable"@
    } else {
        "scores: "@ + join(score_parts(scores), ", "@)
    }
}

/// The line on scores.
pub fn format_scores(scores: &Vec<Score>) -> (r: String)
    ensures
        r@ == scores_line(scores@),
{
    if scores.len() == 0 {
        return "scores: unavailable".to_owned();
    }
    let shown: usize = if scores.len() <= 4 {
        scores.len()
    } else {
        4
    };
    let ghost one = |i: int| score_part(scores@[i]);
    let mut parts: Vec<String> = Vec::new();
    let mut i: usize = 0;
    proof {
        assert(texts(parts@) =~= Seq::new(0, one));
    }
    while i < shown
        invariant
            i <= shown <= scores.len(),
            one == (|i: int| score_part(scores@[i])),
            texts(parts@) == Seq::new(i as nat, one),
        decreases shown - i,
    {
        let mut part = scores[i].executor.clone();
        part.append("=");
        part.append(scores[i].value.shown.as_str());
        proof {
            lemma_texts_push(parts@, part);
            assert(Seq::new((i + 1) as nat, one) =~= Seq::new(i as nat, one).push(part@));
        }
        parts.push(part);
        i = i + 1;
    }
    if scores.len() > 4 {
        let mut more = "+".to_owned();
        more.append(decimal_size(scores.len() - 4).as_str());
        more.append(" more");
        proof {
            lemma_texts_push(parts@, more);
        }
        parts.push(more);
    }
    proof {
        assert(texts(parts@) =~= score_parts(scores@));
    }
    let mut out = "scores: ".to_owned();
    out.append(join_texts(&parts, ", ").as_str());
    out
}

// ---- Budgets ---------------------------------------------------------------

/// How a budget is shown that was asked for.
pub open spec fn budget_label(chars: Option<usize>) -> Seq<char> {
    match chars {
        Some(chars) => if chars == 0 {
            "unlimited"@
        } else {
            dec(chars as nat) + " chars (~"@ + dec(tokens_of(chars as nat)) + " tokens)"@
        },
        None => "default "@ + dec(DEFAULT_CONTEXT_BUDGET_CHARS as nat) + " chars (~"@
            + dec(tokens_of(DEFAULT_CONTEXT_BUDGET_CHARS as nat)) + " tokens)"@,
    }
}

/// How a budget is shown that was asked for.
pub fn context_budget_label(chars: Option<usize>) -> (r: String)
    ensures
        r@ == budget_label(chars),
{
    match chars {
        Some(chars) => {
            if chars == 0 {
                return "unlimited".to_owned();
            }
            let mut out = decimal_size(chars).as_str().to_owned();
            out.append(" chars (~");
            out.append(decimal_size(estimated_tokens(chars)).as_str());
            out.append(" tokens)");
            out
        },
        None => {
            let mut out = "default ".to_owned();
            out.append(decimal_size(DEFAULT_CONTEXT_BUDGET_CHARS).as_str());
            out.append(" chars (~");
            out.append(decimal_size(estimated_tokens(DEFAULT_CONTEXT_BUDGET_CHARS)).as_str());
            out.append(" tokens)");
            out
        },
    }
}

/// The budget that holds where this one was asked for: none where zero was,
/// the default where nothing was.
pub open spec fn effective_budget(chars: Option<usize>) -> Option<usize> {
    match chars {
        Some(n) => if n == 0 {
            None
        } else {
            Some(n)
        },
        None => Some(DEFAULT_CONTEXT_BUDGET_CHARS),
    }
}

/// The budget that holds where this one was asked for.
pub fn effective_context_budget(chars: Option<usize>) -> (r: Option<usize>)
    ensures
        r == effective_budget(chars),
{
    match chars {
        Some(n) => if n == 0 {
            None
        } else {
            Some(n)
        },
        None => Some(DEFAULT_CONTEXT_BUDGET_CHARS),
    }
}

/// How much of a budget a context takes, in percent, rounded up.
pub open spec fn percent_of(chars: usize, budget: usize) -> nat {
    if budget == 0 {
        0
    } else {
        ceil_div(capped_size(chars * 100) as nat, budget as nat)
    }
}

fn percentage(chars: usize, budget: usize) -> (r: usize)
    ensures
        r == percent_of(chars, budget),
{
    if budget == 0 {
        0
    } else {
        quotient_up(saturating_product(chars, 100), budget)
    }
}

pub open spec fn fit_word(chars: usize, budget: usize) -> Seq<char> {
    if chars > budget {
        "over budget"@
    } else {
        "fits"@
    }
}

fn fits_word(chars: usize, budget: usize) -> (r: &'static str)
    ensures
        r@ == fit_word(chars, budget),
{
    if chars > budget {
        "over budget"
    } else {
        "fits"
    }
}

/// How a context fits a budget.
pub open spec fn fit_label(chars: usize, budget: Option<usize>) -> Seq<char> {
    match budget {
        Some(budget) => dec(chars as nat) + "/"@ + dec(budget as nat) + " chars ("@
            + dec(percent_of(chars, budget)) + "%, ~"@ + dec(tokens_of(chars as nat)) + "/"@
            + dec(tokens_of(budget as nat)) + " tokens) - "@ + fit_word(chars, budget),
        None => dec(chars as nat) + " chars (~"@ + dec(tokens_of(chars as nat))
            + " tokens) - unlimited budget"@,
    }
}

/// How a context fits a budget.
pub fn context_fit_label(chars: usize, budget_chars: Option<usize>) -> (r: String)
    ensures
        r@ == fit_label(chars, budget_chars),
{
    match budget_chars {
        Some(budget) => {
            let mut out = decimal_size(chars).as_str().to_owned();
            out.append("/");
            out.append(decimal_size(budget).as_str());
            out.append(" chars (");
            out.append(decimal_size(percentage(chars, budget)).as_str());
            out.append("%, ~");
            out.append(decimal_size(estimated_tokens(chars)).as_str());
            out.append("/");
            out.append(decimal_size(estimated_tokens(budget)).as_str());
            out.append(" tokens) - ");
            out.append(fits_word(chars, budget));
            out
        },
        None => {
            let mut out = decimal_size(chars).as_str().to_owned();
            out.append(" chars (~");
            out.append(decimal_size(estimated_tokens(chars)).as_str());
            out.append(" tokens) - unlimited budget");
            out
        },
    }
}

/// A context that is shown as fitting takes at most all of the budget.
pub proof fn law_what_fits_takes_at_most_all(chars: usize, budget: usize)
    requires
        budget > 0,
        chars <= budget,
        chars * 100 <= usize::MAX,
    ensures
        percent_of(chars, budget) <= 100,
{
    let n = (chars * 100) as nat;
    let b = budget as nat;
    assert(n <= 100 * b) by (nonlinear_arith)
        requires
            n == chars * 100,
            b == budget,
            chars <= budget,
    ;
    assert(ceil_div(n, b) <= 100) by {
        vstd::arithmetic::div_mod::lemma_fundamental_div_mod(n as int, b as int);
        vstd::arithmetic::div_mod::lemma_div_is_ordered(n as int, 100 * b as int, b as int);
        vstd::arithmetic::div_mod::lemma_div_multiples_vanish(100, b as int);
        if n / b == 100 {
            assert(b * 100 == 100 * b) by (nonlinear_arith);
        }
    }
}

} // verus!
