//! How a task is coordinated: the shapes of collaboration, what is counted in
//! a task to tell them apart, and what is said of the choice.
//!
//! The perceptron that weighs the counts works on floating-point numbers and
//! stands outside. What it is fed, how its result is read and what is written
//! about it is decided here.
use vstd::prelude::*;
use crate::error::{told_error, TalesError};
use crate::numeral::{dec, decimal};
use crate::path::{join, joined};
use crate::reals::{is_above, place};
use crate::recommend::Measure;
use crate::scan::{contains, count, has, occurrences, words, words_of};
use crate::text::{ascii_lower, char_count, to_ascii_lower};
use crate::vocabulary::{
    algorithmic_words, algorithmic_words_spec, ambiguity_words, ambiguity_words_spec,
    breadth_words, breadth_words_spec, correctness_words, correctness_words_spec, strs,
    verifiability_words, verifiability_words_spec, volume_words, volume_words_spec,
};

verus! {

/// The schema of a saved coordinator.
pub const SCHEMA_VERSION: u8 = 1;

/// How many features a task has.
pub const FEATURE_DIM: usize = 10;

/// How many hidden neurons the perceptron has.
pub const HIDDEN_DIM: usize = 8;

/// How agents collaborate on a task.
#[derive(Clone, Copy, Debug, PartialEq, Eq, Structural)]
pub enum Shape {
    /// One strong model plans and executes.
    Solo,
    /// A drafter and a critic argue, and then one of them executes.
    Debate,
    /// Strong models plan, and a cheap one executes.
    Tiered,
}

/// The word for a shape.
pub open spec fn shape_word(s: Shape) -> Seq<char> {
    match s {
        Shape::Solo => "solo"@,
        Shape::Debate => "debate"@,
        Shape::Tiered => "tiered"@,
    }
}

/// When a shape wins.
pub open spec fn shape_blurb(s: Shape) -> Seq<char> {
    match s {
        Shape::Solo => "one strong model plans + executes (algorithmically hard, self-contained)"@,
        Shape::Debate => "drafter/critic argue, then execute (ambiguous, architecture-defining)"@,
        Shape::Tiered => "strong models plan, a cheap model executes (voluminous, mechanical)"@,
    }
}

/// The place of a shape among the outputs of the perceptron.
pub open spec fn shape_index(s: Shape) -> nat {
    match s {
        Shape::Solo => 0,
        Shape::Debate => 1,
        Shape::Tiered => 2,
    }
}

impl Shape {
    /// The shapes in the order of their places.
    pub fn all() -> (r: [Shape; 3])
        ensures
            r@ == seq![Shape::Solo, Shape::Debate, Shape::Tiered],
    {
        let r: [Shape; 3] = [Shape::Solo, Shape::Debate, Shape::Tiered];
        proof {
            assert(r@ =~= seq![Shape::Solo, Shape::Debate, Shape::Tiered]);
        }
        r
    }

    /// The place of the shape among the outputs of the perceptron.
    pub fn index(self) -> (r: usize)
        ensures
            r == shape_index(self),
    {
        match self {
            Shape::Solo => 0,
            Shape::Debate => 1,
            Shape::Tiered => 2,
        }
    }

    /// The shape at a place.
    pub fn from_index(i: usize) -> (r: Option<Shape>)
        ensures
            match r {
                Some(s) => shape_index(s) == i,
                None => i > 2,
            },
    {
        match i {
            0 => Some(Shape::Solo),
            1 => Some(Shape::Debate),
            2 => Some(Shape::Tiered),
            _ => None,
        }
    }

    /// The word for the shape.
    pub fn as_str(self) -> (r: &'static str)
        ensures
            r@ == shape_word(self),
    {
        match self {
            Shape::Solo => "solo",
            Shape::Debate => "debate",
            Shape::Tiered => "tiered",
        }
    }

    /// When the shape wins.
    pub fn blurb(self) -> (r: &'static str)
        ensures
            r@ == shape_blurb(self),
    {
        match self {
            Shape::Solo => "one strong model plans + executes (algorithmically hard, self-contained)",
            Shape::Debate => "drafter/critic argue, then execute (ambiguous, architecture-defining)",
            Shape::Tiered => "strong models plan, a cheap model executes (voluminous, mechanical)",
        }
    }
}

/// Places and shapes are in one-to-one correspondence.
pub proof fn law_shapes_have_distinct_places(a: Shape, b: Shape)
    ensures
        shape_index(a) < 3,
        shape_index(a) == shape_index(b) ==> a == b,
{
}

/// How capable the model is with which an execution starts.
#[derive(Clone, Copy, Debug, PartialEq, Eq, Structural)]
pub enum Tier {
    Cheap,
    Balanced,
    Strong,
}

/// The word for a tier.
pub open spec fn tier_word(t: Tier) -> Seq<char> {
    match t {
        Tier::Cheap => "cheap"@,
        Tier::Balanced => "balanced"@,
        Tier::Strong => "strong"@,
    }
}

/// The bits of the double to which the single-precision 0.6 widens.
pub const STRONG_FROM_BITS: u64 = 0x3fe3333340000000;

/// The bits of the double to which the single-precision 0.35 widens.
pub const BALANCED_FROM_BITS: u64 = 0x3fd6666660000000;

/// The tier for a difficulty, given by the bits of the double that it is.
pub open spec fn tier_for(bits: u64) -> Tier {
    if place(bits) >= place(STRONG_FROM_BITS) {
        Tier::Strong
    } else if place(bits) >= place(BALANCED_FROM_BITS) {
        Tier::Balanced
    } else {
        Tier::Cheap
    }
}

impl Tier {
    /// The word for the tier.
    pub fn as_str(self) -> (r: &'static str)
        ensures
            r@ == tier_word(self),
    {
        match self {
            Tier::Cheap => "cheap",
            Tier::Balanced => "balanced",
            Tier::Strong => "strong",
        }
    }

    /// The tier for a difficulty.
    pub fn from_difficulty(difficulty: &Measure) -> (r: Tier)
        ensures
            r == tier_for(difficulty.bits),
    {
        if !is_above(STRONG_FROM_BITS, difficulty.bits) {
            Tier::Strong
        } else if !is_above(BALANCED_FROM_BITS, difficulty.bits) {
            Tier::Balanced
        } else {
            Tier::Cheap
        }
    }
}

/// A harder task never starts with a weaker model.
pub proof fn law_tiers_rise_with_difficulty(a: u64, b: u64)
    requires
        place(a) <= place(b),
    ensures
        tier_for(a) is Strong ==> tier_for(b) is Strong,
        tier_for(a) is Balanced ==> !(tier_for(b) is Cheap),
{
}

/// The names of the numbers that a model reads of a task, in their order.
pub open spec fn feature_names_spec() -> Seq<Seq<char>> {
    seq![
        "length"@,
        "word_count"@,
        "requirement_count"@,
        "algorithmic"@,
        "volume"@,
        "ambiguity"@,
        "correctness"@,
        "breadth"@,
        "verifiability"@,
        "bias"@,
    ]
}

/// The names of the numbers that a model reads of a task, in their order.
pub const FEATURE_NAMES: [&'static str; 10] = [
    "length",
    "word_count",
    "requirement_count",
    "algorithmic",
    "volume",
    "ambiguity",
    "correctness",
    "breadth",
    "verifiability",
    "bias",
];

/// There is a name for every number that a model reads.
pub proof fn law_every_feature_is_named()
    ensures
        FEATURE_NAMES@.len() == FEATURE_DIM,
        strs(FEATURE_NAMES@) == feature_names_spec(),
{
    assert(strs(FEATURE_NAMES@) =~= feature_names_spec());
}

/// What is counted in a task.
#[derive(Clone, Copy, Debug, PartialEq, Eq, Structural)]
pub struct Features {
    /// Characters.
    pub chars: usize,
    /// Words.
    pub words: usize,
    /// Commas, line breaks and the words that join clauses, at most six.
    pub requirements: usize,
    /// Which words of each kind occur, counted.
    pub algorithmic: usize,
    pub volume: usize,
    pub ambiguity: usize,
    pub correctness: usize,
    pub breadth: usize,
    pub verifiability: usize,
}

/// How many of the words occur in a text.
pub open spec fn hits(s: Seq<char>, needles: Seq<Seq<char>>) -> nat {
    needles.filter(|n: Seq<char>| has(s, n)).len()
}

/// How many places in a text join requirements.
pub open spec fn joints(s: Seq<char>) -> nat {
    occurrences(s, ","@) + occurrences(s, " and "@) + occurrences(s, "\n"@) + occurrences(
        s,
        " then "@,
    )
}

/// Whether the counts are those of a task.
pub open spec fn counts_of(f: Features, task: Seq<char>) -> bool {
    let s = ascii_lower(task);
    &&& f.chars == task.len()
    &&& f.words == words_of(task).len()
    &&& f.requirements == (if joints(s) < 6 {
        joints(s)
    } else {
        6
    })
    &&& f.algorithmic == hits(s, algorithmic_words_spec())
    &&& f.volume == hits(s, volume_words_spec())
    &&& f.ambiguity == hits(s, ambiguity_words_spec())
    &&& f.correctness == hits(s, correctness_words_spec())
    &&& f.breadth == hits(s, breadth_words_spec())
    &&& f.verifiability == hits(s, verifiability_words_spec())
}

/// How many of the words occur in a text.
fn keyword_hits(s: &str, needles: &Vec<&'static str>) -> (r: usize)
    ensures
        r == hits(s@, strs(needles@)),
{
    let ghost all = strs(needles@);
    let ghost keep = |n: Seq<char>| has(s@, n);
    let mut r: usize = 0;
    let mut i: usize = 0;
    proof {
        assert(all.take(0).filter(keep) =~= Seq::empty());
    }
    while i < needles.len()
        invariant
            r <= i <= needles.len(),
            all == strs(needles@),
            keep == (|n: Seq<char>| has(s@, n)),
            r == all.take(i as int).filter(keep).len(),
        decreases needles.len() - i,
    {
        proof {
            all.take(i as int).lemma_filter_push(all[i as int], keep);
            assert(all.take(i + 1) =~= all.take(i as int).push(all[i as int]));
        }
        if contains(s, needles[i]) {
            r = r + 1;
        }
        i = i + 1;
    }
    proof {
        assert(all.take(i as int) =~= all);
    }
    r
}

fn at_most_six(n: usize) -> (r: usize)
    ensures
        r == (if n < 6 {
            n
        } else {
            6
        }),
{
    if n < 6 {
        n
    } else {
        6
    }
}

/// How many places in a text join requirements, at most six.
fn requirement_count(s: &str) -> (r: usize)
    ensures
        r == (if joints(s@) < 6 {
            joints(s@)
        } else {
            6
        }),
{
    proof {
        reveal_strlit(",");
        reveal_strlit(" and ");
        reveal_strlit("\n");
        reveal_strlit(" then ");
    }
    let commas = at_most_six(count(s, ","));
    let ands = at_most_six(count(s, " and "));
    let breaks = at_most_six(count(s, "\n"));
    let thens = at_most_six(count(s, " then "));
    at_most_six(commas + ands + breaks + thens)
}

/// What is counted in a task.
pub fn extract_features(task: &str) -> (r: Features)
    ensures
        counts_of(r, task@),
{
    let lower = to_ascii_lower(task);
    Features {
        chars: char_count(task),
        words: words(task).len(),
        requirements: requirement_count(lower.as_str()),
        algorithmic: keyword_hits(lower.as_str(), &algorithmic_words()),
        volume: keyword_hits(lower.as_str(), &volume_words()),
        ambiguity: keyword_hits(lower.as_str(), &ambiguity_words()),
        correctness: keyword_hits(lower.as_str(), &correctness_words()),
        breadth: keyword_hits(lower.as_str(), &breadth_words()),
        verifiability: keyword_hits(lower.as_str(), &verifiability_words()),
    }
}

/// A task has the same features every time, and they do not depend on the
/// case of its ASCII letters.
pub proof fn law_features_follow_from_the_task(f: Features, g: Features, a: Seq<char>, b: Seq<char>)
    requires
        counts_of(f, a),
        counts_of(g, b),
        ascii_lower(a) == ascii_lower(b),
    ensures
        f.requirements == g.requirements,
        f.algorithmic == g.algorithmic,
        f.volume == g.volume,
        f.ambiguity == g.ambiguity,
        f.correctness == g.correctness,
        f.breadth == g.breadth,
        f.verifiability == g.verifiability,
        a == b ==> f == g,
{
}

/// The share, in sixths and at most all, that `n` is of `full`, which is 2 or
/// 3.
pub open spec fn sixths(n: nat, full: nat) -> nat {
    if n >= full {
        6
    } else if full == 3 {
        2 * n
    } else {
        3 * n
    }
}

fn share(n: usize, full: usize) -> (r: usize)
    requires
        full == 2 || full == 3,
    ensures
        r == sixths(n as nat, full as nat),
{
    if n >= full {
        6
    } else if full == 3 {
        2 * n
    } else {
        3 * n
    }
}

/// The features worth naming, each with its strength in sixths.
pub open spec fn named_signals(f: Features) -> Seq<(nat, Seq<char>)> {
    seq![
        (sixths(f.algorithmic as nat, 3), "algorithmic difficulty"@),
        (sixths(f.volume as nat, 3), "mechanical volume"@),
        (sixths(f.ambiguity as nat, 3), "ambiguity/architecture"@),
        (sixths(f.correctness as nat, 3), "correctness criticality"@),
        (sixths(f.breadth as nat, 2), "codebase breadth"@),
        (f.requirements as nat, "many requirements"@),
    ]
}

/// The features that show at all.
pub open spec fn shown_signals(f: Features) -> Seq<(nat, Seq<char>)> {
    named_signals(f).filter(|s: (nat, Seq<char>)| s.0 >= 1)
}

/// The place of the strongest signal, of the first of them at a tie.
pub open spec fn strongest(s: Seq<(nat, Seq<char>)>) -> int
    decreases s.len(),
{
    if s.len() <= 1 {
        0
    } else {
        let k = strongest(s.drop_last());
        if s.last().0 > s[k].0 {
            s.len() - 1
        } else {
            k
        }
    }
}

/// Why a task goes the way it does: the one or two strongest signals.
pub open spec fn told_rationale(f: Features, shape: Shape) -> Seq<char> {
    let shown = shown_signals(f);
    if shown.len() == 0 {
        shape_word(shape) + " by default — no strong task signals detected"@
    } else {
        let first = shape_word(shape) + " — driven by "@ + shown[strongest(shown)].1;
        let rest = shown.remove(strongest(shown));
        if rest.len() == 0 {
            first
        } else {
            first + " + "@ + rest[strongest(rest)].1
        }
    }
}

/// The contents of a list of signals.
pub open spec fn signals_view(v: Seq<(usize, &'static str)>) -> Seq<(nat, Seq<char>)> {
    Seq::new(v.len(), |i: int| (v[i].0 as nat, v[i].1@))
}

proof fn lemma_strongest(s: Seq<(nat, Seq<char>)>)
    requires
        s.len() > 0,
    ensures
        0 <= strongest(s) < s.len(),
        forall|i: int| 0 <= i < s.len() ==> (#[trigger] s[i]).0 <= s[strongest(s)].0,
        forall|i: int| 0 <= i < strongest(s) ==> (#[trigger] s[i]).0 < s[strongest(s)].0,
    decreases s.len(),
{
    if s.len() > 1 {
        let d = s.drop_last();
        lemma_strongest(d);
        assert forall|i: int| 0 <= i < s.len() implies (#[trigger] s[i]).0 <= s[strongest(s)].0 by {
            if i < d.len() {
                assert(d[i] == s[i]);
            }
        }
        assert forall|i: int| 0 <= i < strongest(s) implies (#[trigger] s[i]).0 < s[strongest(
            s,
        )].0 by {
            assert(d[i] == s[i]);
        }
    }
}

fn strongest_signal(v: &Vec<(usize, &'static str)>) -> (r: usize)
    requires
        v@.len() > 0,
    ensures
        r == strongest(signals_view(v@)),
        r < v@.len(),
{
    let ghost all = signals_view(v@);
    let mut best: usize = 0;
    let mut i: usize = 1;
    while i < v.len()
        invariant
            1 <= i <= v.len(),
            best < i,
            all == signals_view(v@),
            best == strongest(all.take(i as int)),
        decreases v.len() - i,
    {
        proof {
            assert(all.take(i + 1).drop_last() =~= all.take(i as int));
            assert(all.take(i + 1).last() == all[i as int]);
            assert(all.take(i + 1)[best as int] == all[best as int]);
        }
        if v[i].0 > v[best].0 {
            best = i;
        }
        i = i + 1;
    }
    proof {
        assert(all.take(i as int) =~= all);
    }
    best
}

fn signals(f: &Features) -> (r: Vec<(usize, &'static str)>)
    ensures
        signals_view(r@) == shown_signals(*f),
{
    let all: Vec<(usize, &'static str)> = vec![
        (share(f.algorithmic, 3), "algorithmic difficulty"),
        (share(f.volume, 3), "mechanical volume"),
        (share(f.ambiguity, 3), "ambiguity/architecture"),
        (share(f.correctness, 3), "correctness criticality"),
        (share(f.breadth, 2), "codebase breadth"),
        (f.requirements, "many requirements"),
    ];
    let ghost spec_all = named_signals(*f);
    let ghost keep = |s: (nat, Seq<char>)| s.0 >= 1;
    let mut out: Vec<(usize, &'static str)> = Vec::new();
    let mut i: usize = 0;
    proof {
        assert(signals_view(all@) =~= spec_all);
        assert(spec_all.take(0).filter(keep) =~= Seq::empty());
        assert(signals_view(out@) =~= Seq::empty());
    }
    while i < all.len()
        invariant
            i <= all.len(),
            spec_all == signals_view(all@),
            keep == (|s: (nat, Seq<char>)| s.0 >= 1),
            signals_view(out@) == spec_all.take(i as int).filter(keep),
        decreases all.len() - i,
    {
        let one = all[i];
        proof {
            spec_all.take(i as int).lemma_filter_push(spec_all[i as int], keep);
            assert(spec_all.take(i + 1) =~= spec_all.take(i as int).push(spec_all[i as int]));
            assert(signals_view(out@.push(one)) =~= signals_view(out@).push(spec_all[i as int]));
        }
        if one.0 >= 1 {
            out.push(one);
        }
        i = i + 1;
    }
    proof {
        assert(spec_all.take(i as int) =~= spec_all);
    }
    out
}

/// Why a task goes the way it does: the one or two strongest signals.
pub fn rationale(f: &Features, shape: Shape) -> (r: String)
    ensures
        r@ == told_rationale(*f, shape),
{
    let mut shown = signals(f);
    let mut out = shape.as_str().to_owned();
    if shown.len() == 0 {
        out.append(" by default — no strong task signals detected");
        return out;
    }
    let first = strongest_signal(&shown);
    let ghost before = signals_view(shown@);
    out.append(" — driven by ");
    out.append(shown[first].1);
    shown.remove(first);
    proof {
        assert(signals_view(shown@) =~= before.remove(first as int));
    }
    if shown.len() > 0 {
        let second = strongest_signal(&shown);
        out.append(" + ");
        out.append(shown[second].1);
    }
    out
}

/// A rationale names the strongest signal of the task: no other that shows is
/// stronger.
pub proof fn law_rationale_names_the_strongest(f: Features, k: int)
    requires
        0 <= k < shown_signals(f).len(),
    ensures
        0 <= strongest(shown_signals(f)) < shown_signals(f).len(),
        shown_signals(f)[k].0 <= shown_signals(f)[strongest(shown_signals(f))].0,
{
    lemma_strongest(shown_signals(f));
}

/// The choice made for a task.
#[derive(Debug)]
pub struct Strategy {
    pub shape: Shape,
    /// How probable each shape is, in the order of the shapes.
    pub shape_probs: [u64; 3],
    /// How much is at risk, from zero to one.
    pub difficulty: Measure,
    pub tier: Tier,
    /// How sure the choice is; shown in percent.
    pub confidence: Measure,
    pub rationale: String,
}

impl Strategy {
    /// The choice in one line.
    pub fn summary_line(&self) -> (r: String)
        ensures
            r@ == "coordinator: "@ + shape_word(self.shape) + " ("@ + self.confidence.shown@
                + "% conf) · difficulty "@ + self.difficulty.shown@ + " · start "@ + tier_word(
                self.tier,
            ) + " — "@ + shape_blurb(self.shape),
    {
        let mut out = "coordinator: ".to_owned();
        out.append(self.shape.as_str());
        out.append(" (");
        out.append(self.confidence.shown.as_str());
        out.append("% conf) · difficulty ");
        out.append(self.difficulty.shown.as_str());
        out.append(" · start ");
        out.append(self.tier.as_str());
        out.append(" — ");
        out.append(self.shape.blurb());
        out
    }
}

/// The choice that follows from what the perceptron says of a task: the shape
/// at the place of its strongest output, or the first where there is no such
/// place, the tier for the difficulty, and the strongest signals as the
/// reason.
pub fn predicted(
    f: &Features,
    best: usize,
    shape_probs: [u64; 3],
    difficulty: Measure,
    confidence: Measure,
) -> (r: Strategy)
    ensures
        best <= 2 ==> shape_index(r.shape) == best,
        best > 2 ==> r.shape is Solo,
        r.shape_probs == shape_probs,
        r.difficulty == difficulty,
        r.tier == tier_for(difficulty.bits),
        r.confidence == confidence,
        r.rationale@ == told_rationale(*f, r.shape),
{
    let shape = match Shape::from_index(best) {
        Some(s) => s,
        None => Shape::Solo,
    };
    let tier = Tier::from_difficulty(&difficulty);
    Strategy { shape, shape_probs, difficulty, tier, confidence, rationale: rationale(f, shape) }
}

/// Where the coordinator of a workspace is kept.
pub fn default_model_path(workspace: &str) -> (r: String)
    ensures
        r@ == joined(joined(workspace@, ".tales"@), "coordinator.json"@),
{
    join(join(workspace, ".tales").as_str(), "coordinator.json")
}

/// What is said of a saved coordinator of another schema.
pub open spec fn schema_complaint(found: u8) -> Seq<char> {
    "coordinator schema "@ + dec(found as nat) + " != supported "@ + dec(SCHEMA_VERSION as nat)
        + " — retrain with `tales coordinator train`"@
}

/// Refuses a saved coordinator of another schema.
pub fn check_schema(found: u8) -> (r: Result<(), TalesError>)
    ensures
        match r {
            Ok(()) => found == SCHEMA_VERSION,
            Err(e) => found != SCHEMA_VERSION && e is Other && told_error(e) == schema_complaint(
                found,
            ),
        },
{
    if found == SCHEMA_VERSION {
        return Ok(());
    }
    let mut out = "coordinator schema ".to_owned();
    out.append(decimal(found as u64).as_str());
    out.append(" != supported ");
    out.append(decimal(SCHEMA_VERSION as u64).as_str());
    out.append(" — retrain with `tales coordinator train`");
    Err(TalesError::Other(out))
}

/// A small generator of reproducible numbers, from which the weights of the
/// perceptron start.
pub struct SplitMix64 {
    pub state: u64,
}

/// The state behind a state.
pub open spec fn mix_state(s: u64) -> u64 {
    s.wrapping_add(0x9e3779b97f4a7c15)
}

/// The number that a state gives.
pub open spec fn mix_output(s: u64) -> u64 {
    let a = (s ^ (s >> 30)).wrapping_mul(0xbf58476d1ce4e5b9);
    let b = (a ^ (a >> 27)).wrapping_mul(0x94d049bb133111eb);
    b ^ (b >> 31)
}

impl SplitMix64 {
    /// The next number.
    pub fn next_u64(&mut self) -> (r: u64)
        ensures
            final(self).state == mix_state(old(self).state),
            r == mix_output(final(self).state),
    {
        self.state = self.state.wrapping_add(0x9e3779b97f4a7c15);
        let z: u64 = self.state;
        let a: u64 = (z ^ (z >> 30)).wrapping_mul(0xbf58476d1ce4e5b9);
        let b: u64 = (a ^ (a >> 27)).wrapping_mul(0x94d049bb133111eb);
        b ^ (b >> 31)
    }
}

} // verus!
