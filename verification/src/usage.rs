//! Token usage as providers report it.
use vstd::prelude::*;

verus! {

/// Provider-reported token usage for one or more completed turns.
#[derive(Clone, Copy, Debug, PartialEq, Eq, Structural)]
pub struct TokenUsage {
    pub input_tokens: Option<u64>,
    pub cached_input_tokens: Option<u64>,
    pub output_tokens: Option<u64>,
    pub reasoning_output_tokens: Option<u64>,
    pub total_tokens: Option<u64>,
}

/// A sum that stops at the largest number there is.
pub open spec fn capped(n: int) -> u64 {
    if n > u64::MAX {
        u64::MAX
    } else {
        n as u64
    }
}

/// The sum of the counts that are there; nothing where neither is.
pub open spec fn add_counts(a: Option<u64>, b: Option<u64>) -> Option<u64> {
    match (a, b) {
        (Some(a), Some(b)) => Some(capped(a + b)),
        (Some(a), None) => Some(a),
        (None, b) => b,
    }
}

/// No usage reported.
pub open spec fn no_usage() -> TokenUsage {
    TokenUsage {
        input_tokens: None,
        cached_input_tokens: None,
        output_tokens: None,
        reasoning_output_tokens: None,
        total_tokens: None,
    }
}

/// Two usages taken together, count by count.
pub open spec fn add_usage(a: TokenUsage, b: TokenUsage) -> TokenUsage {
    TokenUsage {
        input_tokens: add_counts(a.input_tokens, b.input_tokens),
        cached_input_tokens: add_counts(a.cached_input_tokens, b.cached_input_tokens),
        output_tokens: add_counts(a.output_tokens, b.output_tokens),
        reasoning_output_tokens: add_counts(a.reasoning_output_tokens, b.reasoning_output_tokens),
        total_tokens: add_counts(a.total_tokens, b.total_tokens),
    }
}

/// The reported total; where none was reported, the sum of the input, output
/// and reasoning counts that were.
pub open spec fn total_of(u: TokenUsage) -> Option<u64> {
    match u.total_tokens {
        Some(n) => Some(n),
        None => add_counts(
            add_counts(u.input_tokens, u.output_tokens),
            u.reasoning_output_tokens,
        ),
    }
}

fn add_optional_u64(a: Option<u64>, b: Option<u64>) -> (r: Option<u64>)
    ensures
        r == add_counts(a, b),
{
    match (a, b) {
        (Some(a), Some(b)) => Some(a.saturating_add(b)),
        (Some(a), None) => Some(a),
        (None, Some(b)) => Some(b),
        (None, None) => None,
    }
}

impl Default for TokenUsage {
    fn default() -> (r: Self)
        ensures
            r == no_usage(),
    {
        TokenUsage {
            input_tokens: None,
            cached_input_tokens: None,
            output_tokens: None,
            reasoning_output_tokens: None,
            total_tokens: None,
        }
    }
}

impl TokenUsage {
    /// Whether nothing was reported.
    pub fn is_empty(&self) -> (r: bool)
        ensures
            r == (*self == no_usage()),
    {
        self.input_tokens.is_none() && self.cached_input_tokens.is_none()
            && self.output_tokens.is_none() && self.reasoning_output_tokens.is_none()
            && self.total_tokens.is_none()
    }

    /// Takes another usage in, count by count.
    pub fn add(&mut self, other: TokenUsage)
        ensures
            *final(self) == add_usage(*old(self), other),
    {
        self.input_tokens = add_optional_u64(self.input_tokens, other.input_tokens);
        self.cached_input_tokens = add_optional_u64(
            self.cached_input_tokens,
            other.cached_input_tokens,
        );
        self.output_tokens = add_optional_u64(self.output_tokens, other.output_tokens);
        self.reasoning_output_tokens = add_optional_u64(
            self.reasoning_output_tokens,
            other.reasoning_output_tokens,
        );
        self.total_tokens = add_optional_u64(self.total_tokens, other.total_tokens);
    }

    /// The reported total, or the sum of the reported parts.
    pub fn total_or_sum(&self) -> (r: Option<u64>)
        ensures
            r == total_of(*self),
    {
        match self.total_tokens {
            Some(n) => Some(n),
            None => add_optional_u64(
                add_optional_u64(self.input_tokens, self.output_tokens),
                self.reasoning_output_tokens,
            ),
        }
    }
}

/// The order in which usages are taken together does not matter.
pub proof fn law_usage_commutes(a: TokenUsage, b: TokenUsage)
    ensures
        add_usage(a, b) == add_usage(b, a),
{
}

/// How usages are grouped when they are taken together does not matter.
pub proof fn law_usage_associates(a: TokenUsage, b: TokenUsage, c: TokenUsage)
    ensures
        add_usage(add_usage(a, b), c) == add_usage(a, add_usage(b, c)),
{
}

/// Taking in a usage that reports nothing changes nothing.
pub proof fn law_no_usage_is_neutral(a: TokenUsage)
    ensures
        add_usage(a, no_usage()) == a,
        add_usage(no_usage(), a) == a,
{
}

} // verus!
