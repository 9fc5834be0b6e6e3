//! Recommendation stage: the agents vote on who should execute the plan.
//!
//! After the discussion, each agent is asked to nominate an executor with a
//! confidence. [`aggregate`] ranks the candidates by the confidence they
//! gathered and produces a [`Recommendation`]. It is advisory: the user
//! confirms or overrides it before anything is executed.
//!
//! Confidences are real numbers. They are added outside; [`tally_slots`] says
//! which vote counts for which candidate.
use vstd::prelude::*;
use crate::conductor::AgentId;
use crate::reals::{is_above, place};
use crate::scan::{find_chars, find_from, occurs_at, trim, trimmed, words, words_of};
use crate::text::{
    alnum, ascii_lower, ascii_only, chars_of, flat, is_alnum, join, join_texts, lemma_flat_push, lower_text,
    text_between, texts, to_ascii_lower, to_lower,
};
use crate::text_laws::{
    group_says, law_concatenation_keeps_every_part, lemma_says_all_each, lemma_says_through, says,
    says_at,
};

verus! {

/// A real number that was measured outside: the bits of the double that it is,
/// and how it is shown.
#[derive(Debug)]
pub struct Measure {
    pub bits: u64,
    pub shown: String,
}

impl Clone for Measure {
    fn clone(&self) -> (r: Self)
        ensures
            r == *self,
    {
        Measure { bits: self.bits, shown: self.shown.clone() }
    }
}

/// The bits of the double one half.
pub const HALF_BITS: u64 = 0x3fe0000000000000;

/// The bits of the double for the smallest lead that counts, one millionth.
pub const TIE_MARGIN_BITS: u64 = 0x3eb0c6f7a0000000;

/// How an agent's vote was understood.
#[derive(Clone, Copy, Debug, PartialEq, Eq, Structural)]
pub enum VoteParseSource {
    Json,
    CandidateMention,
}

/// The name of the way a vote was understood.
pub open spec fn source_name(s: VoteParseSource) -> Seq<char> {
    match s {
        VoteParseSource::Json => "json"@,
        VoteParseSource::CandidateMention => "candidate_mention"@,
    }
}

impl VoteParseSource {
    pub fn as_str(self) -> (r: &'static str)
        ensures
            r@ == source_name(self),
    {
        match self {
            VoteParseSource::Json => "json",
            VoteParseSource::CandidateMention => "candidate_mention",
        }
    }
}

/// One agent's nomination.
#[derive(Debug)]
pub struct ExecutionVote {
    pub voter: AgentId,
    pub voter_label: String,
    pub recommended_executor: String,
    pub confidence: Measure,
    pub needs_plan: bool,
    pub rationale: String,
    pub parse_source: VoteParseSource,
}

/// What a candidate gathered.
#[derive(Debug)]
pub struct Score {
    pub executor: String,
    pub value: Measure,
}

/// The aggregated recommendation across all votes.
#[derive(Debug)]
pub struct Recommendation {
    /// The candidate with the highest score.
    pub executor: String,
    /// Score per candidate, highest first.
    pub scores: Vec<Score>,
    pub votes: Vec<ExecutionVote>,
    /// Human-readable summary of why.
    pub rationale: String,
    /// Whether every vote says that a formal plan is needed.
    pub needs_plan: bool,
    /// Whether a candidate has a positive score that no other comes close to.
    /// Where not, `executor` is only preselected.
    pub confident: bool,
}

/// A vote as it was read from an agent's reply.
#[derive(Debug)]
pub struct ParsedVote {
    pub recommended_executor: String,
    pub confidence: Measure,
    pub needs_plan: bool,
    pub rationale: String,
    pub source: VoteParseSource,
}

/// The fields of a vote object, with the confidence brought between zero and
/// one.
#[derive(Debug)]
pub struct RawVote {
    pub recommended_executor: String,
    pub confidence: Measure,
    pub needs_plan: bool,
    pub rationale: String,
}

// ---- Finding the object in a reply -----------------------------------------

/// The position of the brace that closes the object begun, read on from `i`:
/// `depth` objects are open, and the position may lie in a string, behind a
/// backslash.
pub open spec fn object_end(s: Seq<char>, i: int, depth: nat, in_string: bool, escaped: bool) -> Option<
    int,
>
    decreases s.len() - i,
{
    if i < 0 || i >= s.len() {
        None
    } else if in_string {
        if escaped {
            object_end(s, i + 1, depth, true, false)
        } else if s[i] == '\\' {
            object_end(s, i + 1, depth, true, true)
        } else if s[i] == '"' {
            object_end(s, i + 1, depth, false, false)
        } else {
            object_end(s, i + 1, depth, true, false)
        }
    } else if s[i] == '"' {
        object_end(s, i + 1, depth, true, false)
    } else if s[i] == '{' {
        object_end(s, i + 1, depth + 1, false, false)
    } else if s[i] == '}' {
        if depth <= 1 {
            Some(i)
        } else {
            object_end(s, i + 1, (depth - 1) as nat, false, false)
        }
    } else {
        object_end(s, i + 1, depth, false, false)
    }
}

/// The first brace and all up to the brace that closes it.
pub open spec fn first_object(s: Seq<char>) -> Option<Seq<char>> {
    match crate::scan::char_from(s, '{', 0) {
        Some(start) => match object_end(s, start, 0, false, false) {
            Some(end) => Some(s.subrange(start, end + 1)),
            None => None,
        },
        None => None,
    }
}

/// The first balanced object in a text. Braces in strings do not count.
pub fn first_json_object(text: &str) -> (r: Option<String>)
    ensures
        crate::text::opt_text(r) == first_object(text@),
{
    let c = chars_of(text);
    let mut start: usize = 0;
    while start < c.len() && c[start] != '{'
        invariant
            start <= c.len(),
            c@ == text@,
            crate::scan::char_from(text@, '{', 0) == crate::scan::char_from(
                text@,
                '{',
                start as int,
            ),
        decreases c.len() - start,
    {
        start = start + 1;
    }
    if start == c.len() {
        return None;
    }
    let mut depth: usize = 0;
    let mut in_string = false;
    let mut escaped = false;
    let mut i: usize = start;
    while i < c.len()
        invariant
            start <= i <= c.len(),
            start < c.len(),
            c@ == text@,
            depth <= i,
            escaped ==> in_string,
            crate::scan::char_from(text@, '{', 0) == Some(start as int),
            object_end(text@, start as int, 0, false, false) == object_end(
                text@,
                i as int,
                depth as nat,
                in_string,
                escaped,
            ),
        decreases c.len() - i,
    {
        let ch = c[i];
        if in_string {
            if escaped {
                escaped = false;
            } else if ch == '\\' {
                escaped = true;
            } else if ch == '"' {
                in_string = false;
            }
        } else if ch == '"' {
            in_string = true;
        } else if ch == '{' {
            depth = depth + 1;
        } else if ch == '}' {
            if depth <= 1 {
                return Some(text_between(&c, start, i + 1));
            }
            depth = depth - 1;
        }
        i = i + 1;
    }
    None
}

proof fn lemma_object_end(s: Seq<char>, i: int, depth: nat, in_string: bool, escaped: bool)
    requires
        0 <= i,
    ensures
        match object_end(s, i, depth, in_string, escaped) {
            Some(k) => i <= k < s.len() && s[k] == '}',
            None => true,
        },
    decreases s.len() - i,
{
    if i >= s.len() {
    } else if in_string {
        if escaped {
            lemma_object_end(s, i + 1, depth, true, false);
        } else if s[i] == '\\' {
            lemma_object_end(s, i + 1, depth, true, true);
        } else if s[i] == '"' {
            lemma_object_end(s, i + 1, depth, false, false);
        } else {
            lemma_object_end(s, i + 1, depth, true, false);
        }
    } else if s[i] == '"' {
        lemma_object_end(s, i + 1, depth, true, false);
    } else if s[i] == '{' {
        lemma_object_end(s, i + 1, depth + 1, false, false);
    } else if s[i] == '}' {
        if depth > 1 {
            lemma_object_end(s, i + 1, (depth - 1) as nat, false, false);
        }
    } else {
        lemma_object_end(s, i + 1, depth, false, false);
    }
}

/// The object found in a text starts at the first opening brace and ends with a
/// closing one; what stands around it plays no part.
pub proof fn law_object_is_braced(s: Seq<char>)
    ensures
        match first_object(s) {
            Some(o) => o.len() >= 2 && o[0] == '{' && o.last() == '}' && crate::scan::has(s, o),
            None => true,
        },
{
    crate::scan::lemma_char_from(s, '{', 0);
    match crate::scan::char_from(s, '{', 0) {
        Some(start) => {
            lemma_object_end(s, start, 0, false, false);
            match object_end(s, start, 0, false, false) {
                Some(end) => {
                    let o = s.subrange(start, end + 1);
                    assert(o[0] == s[start]);
                    assert(o.last() == s[end]);
                    assert(start != end);
                    assert(s.subrange(start, start + o.len()) =~= o);
                    assert(occurs_at(s, o, start));
                },
                None => {},
            }
        },
        None => {},
    }
}

// ---- Finding a candidate in prose ------------------------------------------

/// Whether a character may stand next to a label.
pub open spec fn is_boundary(c: char) -> bool {
    !is_alnum(c) && c != '_' && c != '-'
}

pub fn label_boundary(c: char) -> (r: bool)
    ensures
        r == is_boundary(c),
{
    !alnum(c) && c != '_' && c != '-'
}

/// Whether what stands in `h` from `k` up to `end` has a boundary on each side.
pub open spec fn stands_alone(h: Seq<char>, k: int, end: int) -> bool {
    (k == 0 || is_boundary(h[k - 1])) && (end == h.len() || is_boundary(h[end]))
}

/// Whether one of the occurrences of `n` in `h`, found from `from` on without
/// overlap, stands alone.
pub open spec fn named_from(h: Seq<char>, n: Seq<char>, from: int) -> bool
    decreases h.len() - from,
    via named_from_decreases
{
    if n.len() == 0 || from < 0 {
        false
    } else {
        match find_from(h, n, from) {
            Some(k) => stands_alone(h, k, k + n.len()) || named_from(h, n, k + n.len()),
            None => false,
        }
    }
}

#[via_fn]
proof fn named_from_decreases(h: Seq<char>, n: Seq<char>, from: int) {
    if n.len() > 0 && from >= 0 {
        crate::scan::lemma_find_from(h, n, from);
    }
}

/// Whether a text names a candidate, in any case of ASCII letters, as a label
/// of its own.
pub open spec fn mentions(text: Seq<char>, candidate: Seq<char>) -> bool {
    named_from(ascii_lower(text), ascii_lower(trim(candidate)), 0)
}

/// Whether a text names a candidate as a label of its own.
pub fn mentions_candidate(text: &str, candidate: &str) -> (r: bool)
    ensures
        r == mentions(text@, candidate@),
{
    let needle = chars_of(to_ascii_lower(trimmed(candidate).as_str()).as_str());
    if needle.len() == 0 {
        return false;
    }
    let hay = chars_of(to_ascii_lower(text).as_str());
    let ghost h = ascii_lower(text@);
    let ghost n = ascii_lower(trim(candidate@));
    let mut offset: usize = 0;
    while offset <= hay.len()
        invariant
            hay@ == h,
            needle@ == n,
            h == ascii_lower(text@),
            n == ascii_lower(trim(candidate@)),
            n.len() > 0,
            offset <= hay.len(),
            named_from(h, n, 0) == named_from(h, n, offset as int),
        decreases hay.len() - offset,
    {
        proof {
            crate::scan::lemma_find_from(h, n, offset as int);
        }
        match find_chars(&hay, &needle, offset) {
            None => return false,
            Some(k) => {
                proof {
                    assert(occurs_at(h, n, k as int));
                }
                let len: usize = hay.len();
                let end: usize = k + needle.len();
                let before_ok = k == 0 || label_boundary(hay[k - 1]);
                let after_ok = end == len || label_boundary(hay[end]);
                if before_ok && after_ok {
                    return true;
                }
                offset = end;
            },
        }
    }
    false
}

/// The words of a text on one line, and an ellipsis in place of what is beyond
/// `max` characters.
pub open spec fn on_one_line(text: Seq<char>, max: nat) -> Seq<char> {
    let line = join(words_of(text), " "@);
    if line.len() <= max {
        line
    } else {
        line.take(max as int) + "..."@
    }
}

/// The words of a text on one line, cut to a length.
pub fn compact_one_line(text: &str, max_chars: usize) -> (r: String)
    ensures
        r@ == on_one_line(text@, max_chars as nat),
{
    let line = join_texts(&words(text), " ");
    let c = chars_of(line.as_str());
    if c.len() <= max_chars {
        return line;
    }
    proof {
        assert(line@.take(max_chars as int) =~= line@.subrange(0, max_chars as int));
    }
    let mut out = text_between(&c, 0, max_chars);
    out.append("...");
    out
}

/// The candidates that a text names.
pub open spec fn named_candidates(text: Seq<char>, candidates: Seq<Seq<char>>) -> Seq<Seq<char>> {
    candidates.filter(|c: Seq<char>| mentions(text, c))
}

/// Whether a parsed vote is `executor`, half confident, without a plan, for the
/// reason that a reply in prose gives.
pub open spec fn is_salvaged(v: ParsedVote, executor: Seq<char>, text: Seq<char>) -> bool {
    &&& v.recommended_executor@ == executor
    &&& v.confidence.bits == HALF_BITS
    &&& v.confidence.shown@ == "0.50"@
    &&& !v.needs_plan
    &&& v.rationale@ == "salvaged from prose vote: "@ + on_one_line(text, 180)
    &&& v.source == VoteParseSource::CandidateMention
}

/// A vote read from prose that names exactly one candidate.
pub fn parse_single_candidate_mention(text: &str, candidates: &Vec<String>) -> (r: Option<
    ParsedVote,
>)
    ensures
        ({
            let named = named_candidates(text@, texts(candidates@));
            match r {
                Some(v) => named.len() == 1 && is_salvaged(v, named[0], text@),
                None => named.len() != 1,
            }
        }),
{
    let ghost c = texts(candidates@);
    let ghost keep = |x: Seq<char>| mentions(text@, x);
    let mut count: usize = 0;
    let mut which: usize = 0;
    let mut i: usize = 0;
    proof {
        assert(c.take(0).filter(keep) =~= Seq::empty());
    }
    while i < candidates.len()
        invariant
            i <= candidates.len(),
            c == texts(candidates@),
            keep == (|x: Seq<char>| mentions(text@, x)),
            count <= i,
            count == c.take(i as int).filter(keep).len(),
            count > 0 ==> which < i && c.take(i as int).filter(keep).last() == c[which as int],
        decreases candidates.len() - i,
    {
        proof {
            assert(c.take(i + 1) =~= c.take(i as int).push(c[i as int]));
            c.take(i as int).lemma_filter_push(c[i as int], keep);
            assert(c[i as int] == candidates@[i as int]@);
        }
        if mentions_candidate(text, candidates[i].as_str()) {
            count = count + 1;
            which = i;
        }
        i = i + 1;
    }
    proof {
        assert(c.take(i as int) =~= c);
    }
    if count != 1 {
        return None;
    }
    let mut rationale = "salvaged from prose vote: ".to_owned();
    rationale.append(compact_one_line(text, 180).as_str());
    Some(
        ParsedVote {
            recommended_executor: candidates[which].clone(),
            confidence: Measure { bits: HALF_BITS, shown: "0.50".to_owned() },
            needs_plan: false,
            rationale,
            source: VoteParseSource::CandidateMention,
        },
    )
}

/// Whether a parsed vote says what a vote object says.
pub open spec fn is_read_from(v: ParsedVote, raw: RawVote) -> bool {
    &&& v.recommended_executor@ == trim(raw.recommended_executor@)
    &&& v.confidence == raw.confidence
    &&& v.needs_plan == raw.needs_plan
    &&& v.rationale == raw.rationale
    &&& v.source == VoteParseSource::Json
}

/// A vote as its object says.
pub fn parse_vote_json(raw: Option<RawVote>) -> (r: Option<ParsedVote>)
    ensures
        match raw {
            Some(raw) => r.is_some() && is_read_from(r->0, raw),
            None => r.is_none(),
        },
{
    match raw {
        Some(raw) => Some(
            ParsedVote {
                recommended_executor: trimmed(raw.recommended_executor.as_str()),
                confidence: raw.confidence,
                needs_plan: raw.needs_plan,
                rationale: raw.rationale,
                source: VoteParseSource::Json,
            },
        ),
        None => None,
    }
}

/// The nominee, the confidence and the reason of a vote object. `raw` is what
/// the object that [`first_json_object`] finds in a reply reads as, if it reads
/// as a vote.
pub fn parse_vote(raw: Option<RawVote>) -> (r: Option<(String, Measure, String)>)
    ensures
        match raw {
            Some(raw) => match r {
                Some(v) => v.0@ == trim(raw.recommended_executor@) && v.1 == raw.confidence && v.2
                    == raw.rationale,
                None => false,
            },
            None => r.is_none(),
        },
{
    match parse_vote_json(raw) {
        Some(v) => Some((v.recommended_executor, v.confidence, v.rationale)),
        None => None,
    }
}

/// A vote from its object where the reply holds one, else from the one
/// candidate that the reply names.
pub fn parse_vote_lenient(text: &str, raw: Option<RawVote>, candidates: &Vec<String>) -> (r: Option<
    ParsedVote,
>)
    ensures
        match raw {
            Some(raw) => r.is_some() && is_read_from(r->0, raw),
            None => {
                let named = named_candidates(text@, texts(candidates@));
                match r {
                    Some(v) => named.len() == 1 && is_salvaged(v, named[0], text@),
                    None => named.len() != 1,
                }
            },
        },
{
    if raw.is_some() {
        return parse_vote_json(raw);
    }
    parse_single_candidate_mention(text, candidates)
}

// ---- Tallying --------------------------------------------------------------

/// A label as it is compared: without white space around it, in lower case.
pub open spec fn normal(s: Seq<char>) -> Seq<char> {
    lower_text(trim(s))
}

/// A label as labels are compared.
pub fn norm(s: &str) -> (r: String)
    ensures
        r@ == normal(s@),
        ascii_only(trim(s@)) ==> r@ == ascii_lower(trim(s@)),
{
    to_lower(trimmed(s).as_str())
}

/// The first candidate that a nomination means, from `i` on.
pub open spec fn slot_from(nominee: Seq<char>, candidates: Seq<Seq<char>>, i: int) -> Option<usize>
    decreases candidates.len() - i,
{
    if i < 0 || i >= candidates.len() {
        None
    } else if normal(candidates[i]) == normal(nominee) {
        Some(i as usize)
    } else {
        slot_from(nominee, candidates, i + 1)
    }
}

/// The candidate that a nomination counts for, if any.
pub fn slot_of(nominee: &str, candidates: &Vec<String>) -> (r: Option<usize>)
    ensures
        r == slot_from(nominee@, texts(candidates@), 0),
        r.is_some() ==> r->0 < candidates@.len(),
{
    let target = norm(nominee);
    let mut i: usize = 0;
    while i < candidates.len()
        invariant
            i <= candidates.len(),
            target@ == normal(nominee@),
            slot_from(nominee@, texts(candidates@), 0) == slot_from(
                nominee@,
                texts(candidates@),
                i as int,
            ),
        decreases candidates.len() - i,
    {
        if norm(candidates[i].as_str()) == target {
            return Some(i);
        }
        i = i + 1;
    }
    None
}

/// For each vote the candidate it counts for, if any.
pub open spec fn slots_of(votes: Seq<ExecutionVote>, candidates: Seq<Seq<char>>) -> Seq<
    Option<usize>,
> {
    Seq::new(votes.len(), |i: int| slot_from(votes[i].recommended_executor@, candidates, 0))
}

/// For each vote the candidate it counts for, if any.
pub fn tally_slots(votes: &Vec<ExecutionVote>, candidates: &Vec<String>) -> (r: Vec<Option<usize>>)
    ensures
        r@ == slots_of(votes@, texts(candidates@)),
{
    let mut out: Vec<Option<usize>> = Vec::new();
    let mut i: usize = 0;
    while i < votes.len()
        invariant
            i <= votes.len(),
            out@ == slots_of(votes@, texts(candidates@)).take(i as int),
        decreases votes.len() - i,
    {
        let slot = slot_of(votes[i].recommended_executor.as_str(), candidates);
        proof {
            assert(slots_of(votes@, texts(candidates@)).take(i + 1) =~= slots_of(
                votes@,
                texts(candidates@),
            ).take(i as int).push(slot));
        }
        out.push(slot);
        i = i + 1;
    }
    proof {
        assert(out@ =~= slots_of(votes@, texts(candidates@)));
    }
    out
}

/// What a candidate gathered: the sum of the confidences that count for it, and
/// the bits of that sum with the smallest lead that counts added.
#[derive(Debug)]
pub struct Tally {
    pub value: Measure,
    pub margin_bits: u64,
}

/// A candidate in the ranking.
pub struct Ranked {
    pub slot: nat,
    /// Where its score stands among the numbers.
    pub place: int,
}

/// A ranking with one more candidate put behind all that have no less.
pub open spec fn with_ranked(s: Seq<Ranked>, x: Ranked) -> Seq<Ranked>
    decreases s.len(),
{
    if s.len() == 0 || s.last().place >= x.place {
        s.push(x)
    } else {
        with_ranked(s.drop_last(), x).push(s.last())
    }
}

/// The first `n` candidates, the highest score first; of equal scores the
/// earlier candidate first.
pub open spec fn ranking(tallies: Seq<Tally>, n: nat) -> Seq<Ranked>
    decreases n,
{
    if n == 0 {
        Seq::empty()
    } else {
        with_ranked(
            ranking(tallies, (n - 1) as nat),
            Ranked { slot: (n - 1) as nat, place: place(tallies[n - 1].value.bits) },
        )
    }
}

proof fn lemma_with_ranked(s: Seq<Ranked>, x: Ranked, k: int)
    requires
        0 <= k <= s.len(),
        k > 0 ==> s[k - 1].place >= x.place,
        forall|i: int| k <= i < s.len() ==> (#[trigger] s[i]).place < x.place,
    ensures
        with_ranked(s, x) == s.insert(k, x),
    decreases s.len() - k,
{
    if k == s.len() {
        assert(s.insert(k, x) =~= s.push(x));
    } else {
        assert(s[s.len() - 1].place < x.place);
        lemma_with_ranked(s.drop_last(), x, k);
        assert(s.insert(k, x) =~= s.drop_last().insert(k, x).push(s.last()));
    }
}

/// Whether scores are the ranked candidates' names and values.
pub open spec fn scores_are(
    scores: Seq<Score>,
    ranked: Seq<Ranked>,
    candidates: Seq<Seq<char>>,
    tallies: Seq<Tally>,
) -> bool {
    &&& scores.len() == ranked.len()
    &&& forall|i: int|
        0 <= i < scores.len() ==> score_is(
            #[trigger] scores[i],
            ranked[i].slot,
            candidates,
            tallies,
        )
}

/// Whether a score is the name and the value of the candidate in a slot.
pub open spec fn score_is(
    score: Score,
    slot: nat,
    candidates: Seq<Seq<char>>,
    tallies: Seq<Tally>,
) -> bool {
    &&& slot < candidates.len()
    &&& slot < tallies.len()
    &&& score.executor@ == candidates[slot as int]
    &&& score.value == tallies[slot as int].value
}

fn rank_candidates(tallies: &Vec<Tally>) -> (r: Vec<usize>)
    ensures
        r@.len() == tallies@.len(),
        ranking(tallies@, tallies@.len()).len() == r@.len(),
        forall|i: int|
            0 <= i < r@.len() ==> {
                &&& r@[i] == ranking(tallies@, tallies@.len())[i].slot
                &&& (#[trigger] r@[i]) < tallies@.len()
                &&& place(tallies@[r@[i] as int].value.bits) == ranking(
                    tallies@,
                    tallies@.len(),
                )[i].place
            },
{
    let mut out: Vec<usize> = Vec::new();
    let mut n: usize = 0;
    while n < tallies.len()
        invariant
            n <= tallies.len(),
            out@.len() == n,
            ranking(tallies@, n as nat).len() == n,
            forall|i: int|
                0 <= i < out@.len() ==> {
                    &&& out@[i] == ranking(tallies@, n as nat)[i].slot
                    &&& (#[trigger] out@[i]) < n
                    &&& place(tallies@[out@[i] as int].value.bits) == ranking(tallies@, n as nat)[i].place
                },
        decreases tallies.len() - n,
    {
        let ghost before = ranking(tallies@, n as nat);
        let ghost x = Ranked { slot: n as nat, place: place(tallies@[n as int].value.bits) };
        let bits: u64 = tallies[n].value.bits;
        let mut k: usize = out.len();
        while k > 0 && is_above(bits, tallies[out[k - 1]].value.bits)
            invariant
                k <= out.len(),
                n < tallies.len(),
                out@.len() == n,
                before.len() == n,
                bits == tallies@[n as int].value.bits,
                before == ranking(tallies@, n as nat),
                forall|i: int|
                    0 <= i < out@.len() ==> {
                        &&& out@[i] == before[i].slot
                        &&& (#[trigger] out@[i]) < n
                        &&& place(tallies@[out@[i] as int].value.bits) == before[i].place
                    },
                forall|i: int| k <= i < before.len() ==> (#[trigger] before[i]).place < place(bits),
            decreases k,
        {
            proof {
                assert(out@[k - 1] < n);
                assert(before[k - 1].place < place(bits));
            }
            k = k - 1;
        }
        proof {
            if k > 0 {
                assert(out@[k - 1] < n);
            }
            lemma_with_ranked(before, x, k as int);
            assert(ranking(tallies@, (n + 1) as nat) == before.insert(k as int, x));
        }
        let ghost was = out@;
        out.insert(k, n);
        proof {
            let now = before.insert(k as int, x);
            assert forall|i: int| 0 <= i < out@.len() implies {
                &&& out@[i] == now[i].slot
                &&& (#[trigger] out@[i]) < n + 1
                &&& place(tallies@[out@[i] as int].value.bits) == now[i].place
            } by {
                if i < k {
                    assert(out@[i] == was[i]);
                } else if i > k {
                    assert(out@[i] == was[i - 1]);
                }
            }
        }
        n = n + 1;
    }
    out
}

/// The line of the rationale on a vote.
pub open spec fn vote_line(v: ExecutionVote) -> Seq<char> {
    "- "@ + v.voter_label@ + " → "@ + v.recommended_executor@ + " (conf "@ + v.confidence.shown@
        + ", needs_plan="@ + truth_text(v.needs_plan) + "): "@ + trim(v.rationale@) + "\n"@
}

/// A truth value in words.
pub open spec fn truth_text(b: bool) -> Seq<char> {
    if b {
        "true"@
    } else {
        "false"@
    }
}

pub fn truth_str(b: bool) -> (r: &'static str)
    ensures
        r@ == truth_text(b),
{
    if b {
        "true"
    } else {
        "false"
    }
}

/// The lines of the rationale on the votes.
pub open spec fn vote_lines(votes: Seq<ExecutionVote>) -> Seq<char> {
    flat(Seq::new(votes.len(), |i: int| vote_line(votes[i])))
}

/// Whether the best score is above zero.
pub open spec fn has_leader(tallies: Seq<Tally>) -> bool {
    place(tallies[ranking(tallies, tallies.len())[0].slot as int].value.bits) > 0
}

/// Whether the best score is above the second best by more than the smallest
/// lead that counts.
pub open spec fn leader_alone(tallies: Seq<Tally>) -> bool {
    let r = ranking(tallies, tallies.len());
    let second = if r.len() > 1 {
        tallies[r[1].slot as int].margin_bits
    } else {
        TIE_MARGIN_BITS
    };
    place(tallies[r[0].slot as int].value.bits) > place(second)
}

/// Whether a formal plan is asked for: by two votes or more, and by all.
pub open spec fn plan_wanted(votes: Seq<ExecutionVote>) -> bool {
    votes.len() >= 2 && forall|i: int| 0 <= i < votes.len() ==> (#[trigger] votes[i]).needs_plan
}

/// The summary of why a candidate is recommended.
pub open spec fn rationale_of(
    votes: Seq<ExecutionVote>,
    candidates: Seq<Seq<char>>,
    tallies: Seq<Tally>,
) -> Seq<char> {
    let top = ranking(tallies, tallies.len())[0].slot as int;
    let doubt = if !has_leader(tallies) {
        "(no scored vote — defaulting to the first candidate; please choose)\n"@
    } else if !leader_alone(tallies) {
        "(tied executor vote at "@ + tallies[top].value.shown@ + " — preselecting "@
            + candidates[top] + " by roster order; please choose)\n"@
    } else {
        Seq::empty()
    };
    let plan = if plan_wanted(votes) {
        "(both planner votes requested a formal plan; ask before turning this discussion into one)\n"@
    } else {
        Seq::empty()
    };
    doubt + plan + vote_lines(votes)
}

fn append_votes(out: &mut String, votes: &Vec<ExecutionVote>)
    ensures
        final(out)@ == old(out)@ + vote_lines(votes@),
{
    let ghost before = out@;
    let ghost f = |k: int| vote_line(votes@[k]);
    let mut i: usize = 0;
    proof {
        assert(flat(Seq::new(0, f)) =~= Seq::empty());
        assert(before + Seq::<char>::empty() =~= before);
    }
    while i < votes.len()
        invariant
            i <= votes.len(),
            f == (|k: int| vote_line(votes@[k])),
            out@ == before + flat(Seq::new(i as nat, f)),
        decreases votes.len() - i,
    {
        let v = &votes[i];
        let ghost mid = out@;
        out.append("- ");
        out.append(v.voter_label.as_str());
        out.append(" → ");
        out.append(v.recommended_executor.as_str());
        out.append(" (conf ");
        out.append(v.confidence.shown.as_str());
        out.append(", needs_plan=");
        out.append(truth_str(v.needs_plan));
        out.append("): ");
        out.append(trimmed(v.rationale.as_str()).as_str());
        out.append("\n");
        proof {
            let done = Seq::new(i as nat, f);
            lemma_flat_push(done, f(i as int));
            assert(Seq::new((i + 1) as nat, f) =~= done.push(f(i as int)));
            assert(out@ =~= mid + f(i as int));
            assert(before + (flat(done) + f(i as int)) =~= mid + f(i as int));
        }
        i = i + 1;
    }
    proof {
        assert(Seq::new(i as nat, f) =~= Seq::new(votes@.len(), |k: int| vote_line(votes@[k])));
    }
}

fn all_need_plan(votes: &Vec<ExecutionVote>) -> (r: bool)
    ensures
        r == plan_wanted(votes@),
{
    if votes.len() < 2 {
        return false;
    }
    let mut i: usize = 0;
    while i < votes.len()
        invariant
            i <= votes.len(),
            votes.len() >= 2,
            forall|k: int| 0 <= k < i ==> (#[trigger] votes@[k]).needs_plan,
        decreases votes.len() - i,
    {
        if !votes[i].needs_plan {
            return false;
        }
        i = i + 1;
    }
    true
}

/// Whether a recommendation is what votes and tallies make.
pub open spec fn recommended_by(
    r: Recommendation,
    votes: Seq<ExecutionVote>,
    candidates: Seq<Seq<char>>,
    tallies: Seq<Tally>,
) -> bool {
    let ranked = ranking(tallies, tallies.len());
    &&& r.executor@ == candidates[ranked[0].slot as int]
    &&& scores_are(r.scores@, ranked, candidates, tallies)
    &&& r.votes@ == votes
    &&& r.rationale@ == rationale_of(votes, candidates, tallies)
    &&& r.needs_plan == plan_wanted(votes)
    &&& r.confident == (has_leader(tallies) && leader_alone(tallies))
}

/// Ranks the candidates by what they gathered and says whether one stands out.
/// `tallies` holds for each candidate the sum over the votes that
/// [`tally_slots`] counts for it. Nothing is recommended where there is no
/// candidate.
pub fn aggregate(
    votes: Vec<ExecutionVote>,
    candidates: &Vec<String>,
    tallies: &Vec<Tally>,
) -> (r: Option<Recommendation>)
    requires
        tallies@.len() == candidates@.len(),
    ensures
        r.is_none() == (candidates@.len() == 0),
        r.is_some() ==> recommended_by(r->0, votes@, texts(candidates@), tallies@),
{
    if candidates.is_empty() {
        return None;
    }
    let order = rank_candidates(tallies);
    let ghost ranked = ranking(tallies@, tallies@.len());
    let ghost c = texts(candidates@);
    let mut scores: Vec<Score> = Vec::new();
    let mut i: usize = 0;
    while i < order.len()
        invariant
            i <= order.len(),
            order@.len() == tallies@.len(),
            tallies@.len() == candidates@.len(),
            c == texts(candidates@),
            ranked == ranking(tallies@, tallies@.len()),
            ranked.len() == order@.len(),
            forall|k: int|
                0 <= k < order@.len() ==> order@[k] == ranked[k].slot && (#[trigger] order@[k])
                    < tallies@.len(),
            scores@.len() == i,
            forall|k: int|
                0 <= k < i ==> score_is(#[trigger] scores@[k], ranked[k].slot, c, tallies@),
        decreases order.len() - i,
    {
        let slot: usize = order[i];
        scores.push(
            Score { executor: candidates[slot].clone(), value: tallies[slot].value.clone() },
        );
        i = i + 1;
    }
    let top: usize = order[0];
    let has_positive_leader = is_above(tallies[top].value.bits, 0);
    let second: u64 = if order.len() > 1 {
        tallies[order[1]].margin_bits
    } else {
        TIE_MARGIN_BITS
    };
    let has_unique_leader = is_above(tallies[top].value.bits, second);
    let needs_plan = all_need_plan(&votes);
    let mut rationale = String::new();
    if !has_positive_leader {
        rationale.append("(no scored vote — defaulting to the first candidate; please choose)\n");
    } else if !has_unique_leader {
        rationale.append("(tied executor vote at ");
        rationale.append(tallies[top].value.shown.as_str());
        rationale.append(" — preselecting ");
        rationale.append(candidates[top].as_str());
        rationale.append(" by roster order; please choose)\n");
    }
    let ghost doubt = rationale@;
    if needs_plan {
        rationale.append(
            "(both planner votes requested a formal plan; ask before turning this discussion into one)\n",
        );
    }
    append_votes(&mut rationale, &votes);
    proof {
        assert(rationale@ =~= rationale_of(votes@, c, tallies@));
    }
    Some(
        Recommendation {
            executor: candidates[top].clone(),
            scores,
            votes,
            rationale,
            needs_plan,
            confident: has_positive_leader && has_unique_leader,
        },
    )
}

// ---- Laws ------------------------------------------------------------------

/// Whether a ranking lists the first `n` candidates: each once, by falling
/// score, equal scores in the candidates' order.
pub open spec fn is_ranking(r: Seq<Ranked>, tallies: Seq<Tally>, n: nat) -> bool {
    &&& r.len() == n
    &&& forall|i: int|
        0 <= i < r.len() ==> (#[trigger] r[i]).slot < n && r[i].place
            == place(tallies[r[i].slot as int].value.bits)
    &&& forall|i: int, j: int|
        0 <= i < j < r.len() ==> {
            &&& (#[trigger] r[i]).slot != (#[trigger] r[j]).slot
            &&& (r[i].place > r[j].place || (r[i].place == r[j].place && r[i].slot < r[j].slot))
        }
}

proof fn lemma_ranked_place(s: Seq<Ranked>, x: Ranked) -> (k: int)
    requires
        forall|i: int, j: int|
            0 <= i < j < s.len() ==> (#[trigger] s[i]).place >= (#[trigger] s[j]).place,
    ensures
        0 <= k <= s.len(),
        forall|i: int| 0 <= i < k ==> (#[trigger] s[i]).place >= x.place,
        forall|i: int| k <= i < s.len() ==> (#[trigger] s[i]).place < x.place,
        with_ranked(s, x) == s.insert(k, x),
    decreases s.len(),
{
    if s.len() == 0 || s.last().place >= x.place {
        assert forall|i: int| 0 <= i < s.len() implies (#[trigger] s[i]).place >= x.place by {
            if i < s.len() - 1 {
                assert(s[i].place >= s[s.len() - 1].place);
            }
        }
        lemma_with_ranked(s, x, s.len() as int);
        s.len() as int
    } else {
        let init = s.drop_last();
        assert forall|i: int, j: int| 0 <= i < j < init.len() implies (#[trigger] init[i]).place >= (
        #[trigger] init[j]).place by {
            assert(s[i].place >= s[j].place);
        }
        let k = lemma_ranked_place(init, x);
        assert forall|i: int| 0 <= i < k implies (#[trigger] s[i]).place >= x.place by {
            assert(init[i].place >= x.place);
        }
        assert forall|i: int| k <= i < s.len() implies (#[trigger] s[i]).place < x.place by {
            if i < init.len() {
                assert(init[i].place < x.place);
            }
        }
        lemma_with_ranked(s, x, k);
        k
    }
}

/// The ranking lists every candidate once, by falling score; of equal scores
/// the earlier candidate comes first.
pub proof fn law_ranking_is_stable(tallies: Seq<Tally>, n: nat)
    requires
        n <= tallies.len(),
    ensures
        is_ranking(ranking(tallies, n), tallies, n),
    decreases n,
{
    if n > 0 {
        law_ranking_is_stable(tallies, (n - 1) as nat);
        let s = ranking(tallies, (n - 1) as nat);
        let x = Ranked { slot: (n - 1) as nat, place: place(tallies[n - 1].value.bits) };
        assert forall|i: int, j: int| 0 <= i < j < s.len() implies (#[trigger] s[i]).place >= (
        #[trigger] s[j]).place by {
            assert(s[i].slot != s[j].slot);
        }
        let k = lemma_ranked_place(s, x);
        let r = s.insert(k, x);
        assert forall|i: int| 0 <= i < r.len() implies (#[trigger] r[i]).slot < n && r[i].place
            == place(tallies[r[i].slot as int].value.bits) by {
            if i < k {
                assert(r[i] == s[i]);
            } else if i > k {
                assert(r[i] == s[i - 1]);
            }
        }
        assert forall|i: int, j: int| 0 <= i < j < r.len() implies {
            &&& (#[trigger] r[i]).slot != (#[trigger] r[j]).slot
            &&& (r[i].place > r[j].place || (r[i].place == r[j].place && r[i].slot < r[j].slot))
        } by {
            if i < k {
                assert(r[i] == s[i]);
                assert(s[i].slot < n - 1);
            } else if i > k {
                assert(r[i] == s[i - 1]);
                assert(s[i - 1].slot < n - 1);
            }
            if j < k {
                assert(r[j] == s[j]);
                assert(s[j].slot < n - 1);
            } else if j > k {
                assert(r[j] == s[j - 1]);
                assert(s[j - 1].slot < n - 1);
            }
        }
    }
}

/// The recommended executor is always one of the candidates, and no candidate
/// gathered more. Of several with the most, it is the first.
pub proof fn law_executor_leads(
    r: Recommendation,
    votes: Seq<ExecutionVote>,
    candidates: Seq<Seq<char>>,
    tallies: Seq<Tally>,
)
    requires
        candidates.len() > 0,
        tallies.len() == candidates.len(),
        recommended_by(r, votes, candidates, tallies),
    ensures
        exists|k: int|
            0 <= k < candidates.len() && r.executor@ == #[trigger] candidates[k] && (forall|j: int|
                0 <= j < candidates.len() ==> place((#[trigger] tallies[j]).value.bits)
                    <= place(tallies[k].value.bits)) && (forall|j: int|
                0 <= j < k ==> place((#[trigger] tallies[j]).value.bits) < place(tallies[k].value.bits)),
{
    law_ranking_is_stable(tallies, tallies.len());
    let ranked = ranking(tallies, tallies.len());
    let k = ranked[0].slot as int;
    assert forall|j: int| 0 <= j < candidates.len() implies place((#[trigger] tallies[j]).value.bits)
        <= place(tallies[k].value.bits) && (j < k ==> place(tallies[j].value.bits) < place(
        tallies[k].value.bits,
    )) by {
        lemma_every_slot_ranked(tallies, tallies.len(), j as nat);
        let m = choose|m: int| 0 <= m < ranked.len() && (#[trigger] ranked[m]).slot == j;
        if m > 0 {
            assert(ranked[0].slot != ranked[m].slot);
        }
    }
    assert(r.executor@ == candidates[k]);
}

proof fn lemma_every_slot_ranked(tallies: Seq<Tally>, n: nat, j: nat)
    requires
        n <= tallies.len(),
        j < n,
    ensures
        exists|m: int|
            0 <= m < ranking(tallies, n).len() && (#[trigger] ranking(tallies, n)[m]).slot == j,
    decreases n,
{
    law_ranking_is_stable(tallies, (n - 1) as nat);
    let s = ranking(tallies, (n - 1) as nat);
    let x = Ranked { slot: (n - 1) as nat, place: place(tallies[n - 1].value.bits) };
    assert forall|a: int, b: int| 0 <= a < b < s.len() implies (#[trigger] s[a]).place >= (
    #[trigger] s[b]).place by {
        assert(s[a].slot != s[b].slot);
    }
    let k = lemma_ranked_place(s, x);
    let r = ranking(tallies, n);
    if j == n - 1 {
        assert(r[k].slot == j);
    } else {
        lemma_every_slot_ranked(tallies, (n - 1) as nat, j);
        let m = choose|m: int| 0 <= m < s.len() && (#[trigger] s[m]).slot == j;
        if m < k {
            assert(r[m] == s[m]);
        } else {
            assert(r[m + 1] == s[m]);
        }
    }
}

/// The scores list every candidate once, by falling value; of equal values the
/// earlier candidate comes first.
pub proof fn law_scores_fall(
    r: Recommendation,
    votes: Seq<ExecutionVote>,
    candidates: Seq<Seq<char>>,
    tallies: Seq<Tally>,
)
    requires
        tallies.len() == candidates.len(),
        recommended_by(r, votes, candidates, tallies),
    ensures
        r.scores@.len() == candidates.len(),
        forall|i: int, j: int|
            0 <= i < j < r.scores@.len() ==> place((#[trigger] r.scores@[i]).value.bits) >= place(
                (#[trigger] r.scores@[j]).value.bits,
            ),
        forall|c: int|
            0 <= c < candidates.len() ==> exists|i: int|
                0 <= i < r.scores@.len() && (#[trigger] r.scores@[i]).executor@
                    == #[trigger] candidates[c] && r.scores@[i].value == tallies[c].value,
{
    law_ranking_is_stable(tallies, tallies.len());
    let ranked = ranking(tallies, tallies.len());
    assert forall|i: int, j: int| 0 <= i < j < r.scores@.len() implies place(
        (#[trigger] r.scores@[i]).value.bits,
    ) >= place((#[trigger] r.scores@[j]).value.bits) by {
        assert(ranked[i].slot != ranked[j].slot);
    }
    assert forall|c: int| 0 <= c < candidates.len() implies exists|i: int|
        0 <= i < r.scores@.len() && (#[trigger] r.scores@[i]).executor@
            == #[trigger] candidates[c] && r.scores@[i].value == tallies[c].value by {
        lemma_every_slot_ranked(tallies, tallies.len(), c as nat);
        let m = choose|m: int| 0 <= m < ranked.len() && (#[trigger] ranked[m]).slot == c;
        assert(score_is(r.scores@[m], ranked[m].slot, candidates, tallies));
    }
}

/// A recommendation is presented as consensus where, and only where, the first
/// score is above zero and above the margin of the second.
pub proof fn law_consensus_needs_a_lead(
    r: Recommendation,
    votes: Seq<ExecutionVote>,
    candidates: Seq<Seq<char>>,
    tallies: Seq<Tally>,
)
    requires
        candidates.len() > 0,
        tallies.len() == candidates.len(),
        recommended_by(r, votes, candidates, tallies),
    ensures
        r.scores@.len() > 0,
        r.executor@ == r.scores@[0].executor@,
        r.confident ==> place(r.scores@[0].value.bits) > 0,
        r.scores@.len() == 1 ==> r.confident == (place(r.scores@[0].value.bits) > place(
            TIE_MARGIN_BITS,
        )),
        r.scores@.len() > 1 ==> exists|k: int|
            0 <= k < tallies.len() && (#[trigger] tallies[k]).value == r.scores@[1].value
                && r.scores@[1].executor@ == candidates[k] && r.confident == (place(
                r.scores@[0].value.bits,
            ) > 0 && place(r.scores@[0].value.bits) > place(tallies[k].margin_bits)),
{
    law_ranking_is_stable(tallies, tallies.len());
    let ranked = ranking(tallies, tallies.len());
    assert(score_is(r.scores@[0], ranked[0].slot, candidates, tallies));
    if ranked.len() > 1 {
        assert(score_is(r.scores@[1], ranked[1].slot, candidates, tallies));
        let k = ranked[1].slot as int;
        assert(tallies[k].value == r.scores@[1].value);
    }
}

/// A recommendation is never presented as consensus where no candidate gathered
/// anything.
pub proof fn law_no_votes_no_confidence(
    r: Recommendation,
    votes: Seq<ExecutionVote>,
    candidates: Seq<Seq<char>>,
    tallies: Seq<Tally>,
)
    requires
        candidates.len() > 0,
        tallies.len() == candidates.len(),
        recommended_by(r, votes, candidates, tallies),
        forall|i: int| 0 <= i < tallies.len() ==> place((#[trigger] tallies[i]).value.bits) == 0,
    ensures
        !r.confident,
        r.executor@ == candidates[0],
{
    law_ranking_is_stable(tallies, tallies.len());
    law_executor_leads(r, votes, candidates, tallies);
    let ranked = ranking(tallies, tallies.len());
    assert(ranked[0].slot < tallies.len());
    lemma_every_slot_ranked(tallies, tallies.len(), 0);
    let m = choose|m: int| 0 <= m < ranked.len() && (#[trigger] ranked[m]).slot == 0;
    if m > 0 {
        assert(ranked[0].slot != ranked[m].slot);
        assert(place(tallies[ranked[m].slot as int].value.bits) == 0);
    }
}

/// A formal plan is asked for where at least two planners voted and every one of
/// them asked for it. One vote against it is enough, whichever vote that is.
pub proof fn law_a_plan_needs_every_vote(
    r: Recommendation,
    votes: Seq<ExecutionVote>,
    candidates: Seq<Seq<char>>,
    tallies: Seq<Tally>,
    i: int,
)
    requires
        recommended_by(r, votes, candidates, tallies),
    ensures
        0 <= i < votes.len() && !votes[i].needs_plan ==> !r.needs_plan,
        votes.len() < 2 ==> !r.needs_plan,
        votes.len() >= 2 && (forall|k: int| 0 <= k < votes.len() ==> (#[trigger] votes[k]).needs_plan)
            ==> r.needs_plan,
{
}

/// Neither the executor nor the plan nor the confidence depends on the order in
/// which the votes came in.
pub proof fn law_the_order_of_votes_does_not_matter(
    a: Recommendation,
    b: Recommendation,
    votes: Seq<ExecutionVote>,
    others: Seq<ExecutionVote>,
    candidates: Seq<Seq<char>>,
    tallies: Seq<Tally>,
)
    requires
        recommended_by(a, votes, candidates, tallies),
        recommended_by(b, others, candidates, tallies),
        votes.to_multiset() == others.to_multiset(),
    ensures
        a.needs_plan == b.needs_plan,
        a.executor@ == b.executor@,
        a.confident == b.confident,
{
    votes.to_multiset_ensures();
    others.to_multiset_ensures();
    assert(votes.len() == votes.to_multiset().len());
    assert forall|i: int| 0 <= i < votes.len() implies others.contains(#[trigger] votes[i]) by {
        assert(votes.contains(votes[i]));
        assert(others.to_multiset().count(votes[i]) > 0);
    }
    assert forall|i: int| 0 <= i < others.len() implies votes.contains(#[trigger] others[i]) by {
        assert(others.contains(others[i]));
        assert(votes.to_multiset().count(others[i]) > 0);
    }
    if plan_wanted(votes) {
        assert forall|i: int| 0 <= i < others.len() implies (#[trigger] others[i]).needs_plan by {
            let k = choose|k: int| 0 <= k < votes.len() && votes[k] == others[i];
            assert(votes[k].needs_plan);
        }
    }
    if plan_wanted(others) {
        assert forall|i: int| 0 <= i < votes.len() implies (#[trigger] votes[i]).needs_plan by {
            let k = choose|k: int| 0 <= k < others.len() && others[k] == votes[i];
            assert(others[k].needs_plan);
        }
    }
}

/// A vote counts for the first candidate whose label is its nominee's, as labels
/// are compared, and for no other; white space around the nominee does not
/// matter.
pub proof fn law_votes_count_for_their_nominee(
    votes: Seq<ExecutionVote>,
    candidates: Seq<Seq<char>>,
    v: int,
    k: int,
)
    requires
        0 <= v < votes.len(),
        candidates.len() <= usize::MAX,
        0 <= k < candidates.len(),
    ensures
        slots_of(votes, candidates).len() == votes.len(),
        slots_of(votes, candidates)[v] == Some(k as usize) <==> normal(candidates[k]) == normal(
            votes[v].recommended_executor@,
        ) && (forall|j: int|
            0 <= j < k ==> normal(#[trigger] candidates[j]) != normal(
                votes[v].recommended_executor@,
            )),
        slots_of(votes, candidates)[v] is None ==> normal(candidates[k]) != normal(
            votes[v].recommended_executor@,
        ),
        trim(candidates[k]) == trim(votes[v].recommended_executor@) ==> slots_of(
            votes,
            candidates,
        )[v] is Some,
{
    lemma_slot_from(votes[v].recommended_executor@, candidates, 0);
}

proof fn lemma_slot_from(nominee: Seq<char>, candidates: Seq<Seq<char>>, i: int)
    requires
        0 <= i <= candidates.len(),
        candidates.len() <= usize::MAX,
    ensures
        match slot_from(nominee, candidates, i) {
            Some(k) => i <= k < candidates.len() && normal(candidates[k as int]) == normal(nominee)
                && (forall|j: int|
                i <= j < k ==> normal(#[trigger] candidates[j]) != normal(nominee)),
            None => forall|j: int|
                i <= j < candidates.len() ==> normal(#[trigger] candidates[j]) != normal(nominee),
        },
    decreases candidates.len() - i,
{
    if i < candidates.len() && normal(candidates[i]) != normal(nominee) {
        lemma_slot_from(nominee, candidates, i + 1);
    }
}

/// The rationale tells every vote in the order in which they came in: who voted,
/// for whom, and why. It tells of doubt exactly where the recommendation is no
/// consensus, and of a plan exactly where one is asked for.
pub proof fn law_rationales_tell_every_vote(
    r: Recommendation,
    votes: Seq<ExecutionVote>,
    candidates: Seq<Seq<char>>,
    tallies: Seq<Tally>,
    i: int,
)
    requires
        recommended_by(r, votes, candidates, tallies),
        0 <= i < votes.len(),
    ensures
        says(r.rationale@, votes[i].voter_label@ + " → "@ + votes[i].recommended_executor@),
        says(r.rationale@, trim(votes[i].rationale@)),
        says(r.rationale@, votes[i].confidence.shown@),
        r.votes@ == votes,
        r.needs_plan ==> says(r.rationale@, "both planner votes requested a formal plan"@),
        !r.confident ==> says(r.rationale@, "please choose"@),
        r.confident && !r.needs_plan ==> r.rationale@ == flat(
            Seq::new(votes.len(), |k: int| vote_line(votes[k])),
        ),
{
    broadcast use group_says;

    let f = |k: int| vote_line(votes[k]);
    let parts = Seq::new(votes.len(), f);
    law_concatenation_keeps_every_part(parts, Seq::empty());
    lemma_says_all_each(flat(parts), parts, i);
    lemma_vote_line(votes[i]);
    let line = vote_line(votes[i]);
    let who = votes[i].voter_label@ + " → "@ + votes[i].recommended_executor@;
    assert(says(r.rationale@, line));
    lemma_says_through(r.rationale@, line, who);
    lemma_says_through(r.rationale@, line, trim(votes[i].rationale@));
    lemma_says_through(r.rationale@, line, votes[i].confidence.shown@);
    lemma_doubt_words(tallies, candidates);
    if r.confident && !r.needs_plan {
        assert(Seq::<char>::empty() + Seq::<char>::empty() + flat(parts) =~= flat(parts));
    }
}

proof fn lemma_vote_line(v: ExecutionVote)
    ensures
        says(vote_line(v), v.voter_label@ + " → "@ + v.recommended_executor@),
        says(vote_line(v), trim(v.rationale@)),
        says(vote_line(v), v.confidence.shown@),
{
    broadcast use group_says;

    let who = v.voter_label@ + " → "@ + v.recommended_executor@;
    assert("- "@ + v.voter_label@ + " → "@ + v.recommended_executor@ =~= "- "@ + who);
    assert(says("- "@ + v.voter_label@ + " → "@ + v.recommended_executor@, who));
}

proof fn lemma_doubt_words(tallies: Seq<Tally>, candidates: Seq<Seq<char>>)
    ensures
        says(
            "(no scored vote — defaulting to the first candidate; please choose)\n"@,
            "please choose"@,
        ),
        says(" by roster order; please choose)\n"@, "please choose"@),
        says(
            "(both planner votes requested a formal plan; ask before turning this discussion into one)\n"@,
            "both planner votes requested a formal plan"@,
        ),
{
    reveal(says);
    reveal_strlit("please choose");
    reveal_strlit("both planner votes requested a formal plan");
    reveal_strlit("(no scored vote — defaulting to the first candidate; please choose)\n");
    reveal_strlit(" by roster order; please choose)\n");
    reveal_strlit(
        "(both planner votes requested a formal plan; ask before turning this discussion into one)\n",
    );
    let a = "(no scored vote — defaulting to the first candidate; please choose)\n"@;
    let b = " by roster order; please choose)\n"@;
    let c =
        "(both planner votes requested a formal plan; ask before turning this discussion into one)\n"@;
    assert(a.subrange(53, 66) =~= "please choose"@);
    assert(says_at(a, 53, "please choose"@));
    assert(b.subrange(18, 31) =~= "please choose"@);
    assert(says_at(b, 18, "please choose"@));
    assert(c.subrange(1, 43) =~= "both planner votes requested a formal plan"@);
    assert(says_at(c, 1, "both planner votes requested a formal plan"@));
}

} // verus!
