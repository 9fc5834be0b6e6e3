//! Routing by a conductor model that a local server runs: what it is asked,
//! how its reply is read, and the decisions that are kept so that no task is
//! asked twice.
use vstd::prelude::*;
use crate::coordinator::{shape_index, shape_word, tier_for, Shape, Strategy, Tier};
use crate::dataset::CONDUCTOR_SYSTEM;
use crate::error::TalesError;
use crate::json::{
    doc_str, docs, jbool, jstr, lemma_docs_push, list, member, text, truth, Doc, Fields, Json,
    Number,
};
use crate::json_read::{read_json, read_text};
use crate::numeral::{hex, hexadecimal};
use crate::path::{join, joined};
use crate::project_context::{extend_byte, extend_text, hash_byte, hash_text, HASH_START};
use crate::reals::{is_above, place, ONE_BITS};
use crate::recommend::Measure;
use crate::scan::{char_from, lead_spaces, tail_spaces, trim, trim_end, trim_start, trimmed};
use crate::text::{ascii_lower, chars_of, is_space, same, text_between, texts, to_ascii_lower};

verus! {

/// Where a local server listens unless told otherwise.
pub const DEFAULT_URL: &'static str = "http://localhost:8080/v1";

/// The model asked for unless told otherwise.
pub const DEFAULT_MODEL: &'static str = "tales-conductor";

/// A conductor model behind a server.
#[derive(Debug)]
pub struct LlmConductor {
    pub base_url: String,
    pub model: String,
    /// Whether decisions are kept.
    pub cache: bool,
}

/// A text without the slashes it ends with.
pub open spec fn without_slashes(s: Seq<char>) -> Seq<char>
    decreases s.len(),
{
    if s.len() > 0 && s.last() == '/' {
        without_slashes(s.drop_last())
    } else {
        s
    }
}

fn trim_slashes(s: &str) -> (r: String)
    ensures
        r@ == without_slashes(s@),
{
    let sc = chars_of(s);
    let mut n: usize = sc.len();
    proof {
        assert(s@.take(n as int) =~= s@);
    }
    while n > 0 && sc[n - 1] == '/'
        invariant
            n <= sc.len(),
            sc@ == s@,
            without_slashes(s@.take(n as int)) == without_slashes(s@),
        decreases n,
    {
        proof {
            assert(s@.take(n as int).drop_last() =~= s@.take(n - 1));
            assert(s@.take(n as int).last() == s@[n - 1]);
        }
        n = n - 1;
    }
    proof {
        assert(s@.take(n as int) =~= s@.subrange(0, n as int));
        if n > 0 {
            assert(s@.take(n as int).last() == s@[n - 1]);
        }
    }
    text_between(&sc, 0, n)
}

/// What the server is asked about a task.
pub open spec fn request_doc(model: Seq<char>, task: Seq<char>) -> Doc {
    Doc::Obj(
        seq![
            ("model"@, jstr(model)),
            (
                "messages"@,
                Doc::Arr(
                    seq![
                        said_doc("system"@, CONDUCTOR_SYSTEM@),
                        said_doc("user"@, task),
                    ],
                ),
            ),
            ("temperature"@, Doc::Num(Number::Real(0))),
            ("stream"@, jbool(false)),
        ],
    )
}

pub open spec fn said_doc(role: Seq<char>, content: Seq<char>) -> Doc {
    Doc::Obj(seq![("role"@, jstr(role)), ("content"@, jstr(content))])
}

fn said(role: &str, content: &str) -> (r: Json)
    ensures
        r@ == said_doc(role@, content@),
{
    let mut f = Fields::new();
    f.put("role", text(role));
    f.put("content", text(content));
    proof {
        assert(f@ =~= said_doc(role@, content@)->Obj_0);
    }
    f.object()
}

impl LlmConductor {
    /// A conductor at an address, with the default model, keeping decisions.
    pub fn new(base_url: String) -> (r: LlmConductor)
        ensures
            r.base_url == base_url,
            r.model@ == DEFAULT_MODEL@,
            r.cache,
    {
        LlmConductor { base_url, model: DEFAULT_MODEL.to_owned(), cache: true }
    }

    /// The conductor with another model.
    pub fn with_model(self, model: String) -> (r: LlmConductor)
        ensures
            r == (LlmConductor { model, ..self }),
    {
        LlmConductor { base_url: self.base_url, model, cache: self.cache }
    }

    /// The conductor keeping decisions or not.
    pub fn with_cache(self, enabled: bool) -> (r: LlmConductor)
        ensures
            r == (LlmConductor { cache: enabled, ..self }),
    {
        LlmConductor { base_url: self.base_url, model: self.model, cache: enabled }
    }

    /// Where the question goes.
    pub fn endpoint(&self) -> (r: String)
        ensures
            r@ == without_slashes(self.base_url@) + "/chat/completions"@,
    {
        let mut out = trim_slashes(self.base_url.as_str());
        out.append("/chat/completions");
        out
    }

    /// What the server is asked about a task.
    pub fn request_body(&self, task: &str) -> (r: Json)
        ensures
            r@ == request_doc(self.model@, task@),
    {
        let ghost goal = request_doc(self.model@, task@);
        let mut messages: Vec<Json> = Vec::new();
        let a = said("system", CONDUCTOR_SYSTEM);
        let b = said("user", task);
        proof {
            lemma_docs_push(messages@, a);
            lemma_docs_push(messages@.push(a), b);
        }
        messages.push(a);
        messages.push(b);
        proof {
            assert(docs(messages@) =~= goal->Obj_0[1].1->Arr_0);
        }
        let mut f = Fields::new();
        f.put("model", text(self.model.as_str()));
        f.put("messages", list(messages));
        f.put("temperature", Json::Num(Number::Real(0)));
        f.put("stream", truth(false));
        proof {
            assert(f@ =~= goal->Obj_0);
        }
        f.object()
    }

    /// What was decided of a task before, as a choice; nothing where decisions
    /// are not kept, where there is none, or where it names no shape.
    pub fn remembered(&self, cache: &DecisionCache, task: &str) -> (r: Option<Strategy>)
        ensures
            match r {
                Some(s) => self.cache && (cached(cache@, self.model@, task@) matches Some(d)
                    && named_shape(d.shape) matches Some(shape) && certain(
                    s,
                    shape,
                    d.difficulty,
                    self.base_url@,
                )),
                None => !self.cache || (match cached(cache@, self.model@, task@) {
                    Some(d) => named_shape(d.shape) is None,
                    None => true,
                }),
            },
    {
        if !self.cache {
            return None;
        }
        match cache.lookup(self.model.as_str(), task) {
            Some(d) => match shape_from_str(d.shape.as_str()) {
                Some(shape) => Some(strategy_from(shape, d.difficulty, self.base_url.as_str())),
                None => None,
            },
            None => None,
        }
    }
}

// ---- Reading the reply -----------------------------------------------------

/// The first item of a list.
pub open spec fn first_item(d: Option<Doc>) -> Option<Doc> {
    match d {
        Some(Doc::Arr(a)) => if a.len() > 0 {
            Some(a[0])
        } else {
            None
        },
        _ => None,
    }
}

/// What the model said, in the reply of the server.
pub open spec fn content_of(reply: Doc) -> Option<Seq<char>> {
    match first_item(member(reply, "choices"@)) {
        Some(choice) => match member(choice, "message"@) {
            Some(message) => doc_str(member(message, "content"@)),
            None => None,
        },
        None => None,
    }
}

/// What the model said, in the reply of the server.
pub fn reply_content(reply: &Json) -> (r: Result<String, TalesError>)
    ensures
        match r {
            Ok(s) => content_of(reply@) == Some(s@),
            Err(e) => content_of(reply@) is None && (e matches TalesError::Other(m) && m@
                == "conductor reply missing message content"@),
        },
{
    if let Some(choices) = reply.get("choices") {
        if let Json::Arr(a) = choices {
            if a.len() > 0 {
                proof {
                    assert(choices@->Arr_0[0] == a@[0]@);
                }
                if let Some(message) = a[0].get("message") {
                    if let Some(content) = message.get("content") {
                        if let Some(s) = content.as_str() {
                            return Ok(s.to_owned());
                        }
                    }
                }
            }
        }
    }
    Err(TalesError::Other("conductor reply missing message content".to_owned()))
}

/// What the model said, in the text of the server's reply.
pub fn read_reply(text: &str) -> (r: Result<String, TalesError>)
    ensures
        match read_text(text@) {
            Ok(reply) => match content_of(reply) {
                Some(content) => r matches Ok(s) && s@ == content,
                None => r matches Err(TalesError::Other(m)) && m@
                    == "conductor reply missing message content"@,
            },
            Err(e) => r matches Err(TalesError::Json(m)) && m@ == e,
        },
{
    match read_json(text) {
        Ok(reply) => reply_content(&reply),
        Err(e) => Err(e),
    }
}

/// The last position of a character.
pub open spec fn last_at(s: Seq<char>, c: char) -> Option<int>
    decreases s.len(),
{
    if s.len() == 0 {
        None
    } else if s.last() == c {
        Some(s.len() - 1)
    } else {
        last_at(s.drop_last(), c)
    }
}

/// What stands from the first opening to the last closing brace.
pub open spec fn braced(s: Seq<char>) -> Option<Seq<char>> {
    match (char_from(s, '{', 0), last_at(s, '}')) {
        (Some(a), Some(b)) => if b > a {
            Some(s.subrange(a, b + 1))
        } else {
            None
        },
        _ => None,
    }
}

/// The texts in which a decision is looked for, in this order: all that was
/// said, and what stands in braces.
pub open spec fn decision_candidates(content: Seq<char>) -> Seq<Seq<char>> {
    seq![trim(content)] + (match braced(content) {
        Some(s) => seq![s],
        None => Seq::empty(),
    })
}

fn braced_part(s: &str) -> (r: Option<String>)
    ensures
        match r {
            Some(t) => braced(s@) == Some(t@),
            None => braced(s@) is None,
        },
{
    let sc = chars_of(s);
    let mut a: usize = 0;
    while a < sc.len() && sc[a] != '{'
        invariant
            a <= sc.len(),
            sc@ == s@,
            char_from(s@, '{', 0) == char_from(s@, '{', a as int),
        decreases sc.len() - a,
    {
        a = a + 1;
    }
    if a == sc.len() {
        return None;
    }
    let mut b: usize = sc.len();
    proof {
        assert(s@.take(b as int) =~= s@);
    }
    while b > 0 && sc[b - 1] != '}'
        invariant
            b <= sc.len(),
            sc@ == s@,
            last_at(s@, '}') == last_at(s@.take(b as int), '}'),
        decreases b,
    {
        proof {
            assert(s@.take(b as int).drop_last() =~= s@.take(b - 1));
            assert(s@.take(b as int).last() == s@[b - 1]);
        }
        b = b - 1;
    }
    if b == 0 {
        return None;
    }
    proof {
        assert(s@.take(b as int).last() == s@[b - 1]);
    }
    if b - 1 > a {
        Some(text_between(&sc, a, b))
    } else {
        None
    }
}

/// The texts in which a decision is looked for, in this order.
pub fn decision_texts(content: &str) -> (r: Vec<String>)
    ensures
        texts(r@) == decision_candidates(content@),
{
    let mut out: Vec<String> = vec![trimmed(content)];
    if let Some(t) = braced_part(content) {
        out.push(t);
    }
    proof {
        assert(texts(out@) =~= decision_candidates(content@));
    }
    out
}

/// The shape that a text names, whatever the white space around it and the
/// case of its letters.
pub open spec fn named_shape(s: Seq<char>) -> Option<Shape> {
    let w = ascii_lower(trim(s));
    if w == "solo"@ {
        Some(Shape::Solo)
    } else if w == "debate"@ {
        Some(Shape::Debate)
    } else if w == "tiered"@ {
        Some(Shape::Tiered)
    } else {
        None
    }
}

/// The shape that a text names.
pub fn shape_from_str(s: &str) -> (r: Option<Shape>)
    ensures
        r == named_shape(s@),
{
    let w = to_ascii_lower(trimmed(s).as_str());
    if same(w.as_str(), "solo") {
        Some(Shape::Solo)
    } else if same(w.as_str(), "debate") {
        Some(Shape::Debate)
    } else if same(w.as_str(), "tiered") {
        Some(Shape::Tiered)
    } else {
        None
    }
}

/// The word for a shape names that shape: what is kept of a choice is read
/// back as it was.
pub proof fn law_shape_words_are_read_back(s: Shape)
    ensures
        named_shape(shape_word(s)) == Some(s),
{
    reveal_strlit("solo");
    reveal_strlit("debate");
    reveal_strlit("tiered");
    let w = shape_word(s);
    lemma_nothing_to_trim(w);
    assert(ascii_lower(w) =~= w);
    assert("solo"@.len() == 4 && "debate"@.len() == 6 && "tiered"@.len() == 6);
    assert("debate"@[0] == 'd' && "tiered"@[0] == 't');
}

proof fn lemma_nothing_to_trim(w: Seq<char>)
    requires
        w.len() > 0,
        !is_space(w[0]),
        !is_space(w.last()),
    ensures
        trim(w) == w,
{
    assert(lead_spaces(w) == 0);
    assert(trim_start(w) =~= w);
    assert(tail_spaces(w) == 0);
    assert(trim_end(w) =~= w);
}

/// A difficulty brought between zero and one: its bits, and how it is shown.
pub open spec fn unit_difficulty(d: Measure) -> (u64, Seq<char>) {
    if place(d.bits) < 0 {
        (0, "0.00"@)
    } else if place(d.bits) > place(ONE_BITS) {
        (ONE_BITS, "1.00"@)
    } else {
        (d.bits, d.shown@)
    }
}

fn within_unit(d: Measure) -> (r: Measure)
    ensures
        (r.bits, r.shown@) == unit_difficulty(d),
{
    if is_above(0, d.bits) {
        Measure { bits: 0, shown: "0.00".to_owned() }
    } else if is_above(d.bits, ONE_BITS) {
        Measure { bits: ONE_BITS, shown: "1.00".to_owned() }
    } else {
        d
    }
}

/// Whether a choice is one made without doubt: all probability on one shape.
pub open spec fn certain(s: Strategy, shape: Shape, difficulty: Measure, url: Seq<char>) -> bool {
    &&& s.shape == shape
    &&& s.shape_probs@ == Seq::new(
        3,
        |i: int|
            if i == shape_index(shape) {
                ONE_BITS
            } else {
                0
            },
    )
    &&& (s.difficulty.bits, s.difficulty.shown@) == unit_difficulty(difficulty)
    &&& s.tier == tier_for(s.difficulty.bits)
    &&& s.confidence.bits == ONE_BITS
    &&& s.confidence.shown@ == "100"@
    &&& s.rationale@ == "llm conductor @ "@ + url
}

/// The choice for a shape and a difficulty that the model named.
pub fn strategy_from(shape: Shape, difficulty: Measure, url: &str) -> (r: Strategy)
    ensures
        certain(r, shape, difficulty, url@),
{
    let shape_probs: [u64; 3] = match shape {
        Shape::Solo => [ONE_BITS, 0, 0],
        Shape::Debate => [0, ONE_BITS, 0],
        Shape::Tiered => [0, 0, ONE_BITS],
    };
    let difficulty = within_unit(difficulty);
    let tier = Tier::from_difficulty(&difficulty);
    let mut rationale = "llm conductor @ ".to_owned();
    rationale.append(url);
    let r = Strategy {
        shape,
        shape_probs,
        difficulty,
        tier,
        confidence: Measure { bits: ONE_BITS, shown: "100".to_owned() },
        rationale,
    };
    proof {
        assert(r.shape_probs@ =~= Seq::new(
            3,
            |i: int|
                if i == shape_index(shape) {
                    ONE_BITS
                } else {
                    0
                },
        ));
    }
    r
}

/// A decision of the model.
#[derive(Debug)]
pub struct Decision {
    pub shape: String,
    /// From zero to one.
    pub difficulty: Measure,
}

/// The contents of a [`Decision`].
pub struct DecisionView {
    pub shape: Seq<char>,
    pub difficulty: Measure,
}

impl View for Decision {
    type V = DecisionView;

    open spec fn view(&self) -> DecisionView {
        DecisionView { shape: self.shape@, difficulty: self.difficulty }
    }
}

/// The choice that follows from what the model said, with the decision found
/// in it, if any.
pub fn decided(content: &str, decision: Option<Decision>, url: &str) -> (r: Result<
    Strategy,
    TalesError,
>)
    ensures
        match r {
            Ok(s) => decision matches Some(d) && named_shape(d.shape@) matches Some(shape)
                && certain(s, shape, d.difficulty, url@),
            Err(e) => e matches TalesError::Other(m) && (match decision {
                None => m@ == "conductor reply was not a decision: "@ + content@,
                Some(d) => named_shape(d.shape@) is None && m@
                    == "conductor returned unknown shape '"@ + d.shape@ + "'"@,
            }),
        },
{
    match decision {
        None => {
            let mut m = "conductor reply was not a decision: ".to_owned();
            m.append(content);
            Err(TalesError::Other(m))
        },
        Some(d) => match shape_from_str(d.shape.as_str()) {
            Some(shape) => Ok(strategy_from(shape, d.difficulty, url)),
            None => {
                let mut m = "conductor returned unknown shape '".to_owned();
                m.append(d.shape.as_str());
                m.append("'");
                Err(TalesError::Other(m))
            },
        },
    }
}

/// What can go wrong between the question and the reply.
#[derive(Debug)]
pub enum ExchangeFailure {
    /// The question did not get through.
    Request(String),
    /// The server answered with an error status.
    Status(String),
    /// The reply could not be read.
    Body(String),
}

/// What went wrong between the question and the reply.
pub fn exchange_error(failure: ExchangeFailure) -> (r: TalesError)
    ensures
        r matches TalesError::Other(m) && m@ == (match failure {
            ExchangeFailure::Request(e) => "conductor request failed: "@ + e@,
            ExchangeFailure::Status(s) => "conductor returned HTTP "@ + s@,
            ExchangeFailure::Body(e) => "conductor body read failed: "@ + e@,
        }),
{
    let mut out;
    match failure {
        ExchangeFailure::Request(e) => {
            out = "conductor request failed: ".to_owned();
            out.append(e.as_str());
        },
        ExchangeFailure::Status(s) => {
            out = "conductor returned HTTP ".to_owned();
            out.append(s.as_str());
        },
        ExchangeFailure::Body(e) => {
            out = "conductor body read failed: ".to_owned();
            out.append(e.as_str());
        },
    }
    TalesError::Other(out)
}

// ---- Decisions that are kept -----------------------------------------------

/// The schema of the kept decisions.
pub const CACHE_SCHEMA_VERSION: u32 = 1;

/// A kept decision, with the question that it answers.
#[derive(Debug)]
pub struct CacheEntry {
    pub model: String,
    pub task: String,
    pub shape: String,
    pub difficulty: Measure,
}

/// The contents of a [`CacheEntry`].
pub struct EntryView {
    pub model: Seq<char>,
    pub task: Seq<char>,
    pub shape: Seq<char>,
    pub difficulty: Measure,
}

/// The contents of a kept decision.
pub open spec fn entry_view(e: CacheEntry) -> EntryView {
    EntryView { model: e.model@, task: e.task@, shape: e.shape@, difficulty: e.difficulty }
}

/// The kept decisions, each under the key of its question.
#[derive(Debug)]
pub struct DecisionCache {
    pub entries: Vec<(String, CacheEntry)>,
}

impl View for DecisionCache {
    type V = Seq<(Seq<char>, EntryView)>;

    open spec fn view(&self) -> Seq<(Seq<char>, EntryView)> {
        Seq::new(
            self.entries@.len(),
            |i: int| (self.entries@[i].0@, entry_view(self.entries@[i].1)),
        )
    }
}

/// The key of a question: a hash over the model, what it is told, and the
/// task.
pub open spec fn cache_key(model: Seq<char>, task: Seq<char>) -> Seq<char> {
    let a = hash_byte(hash_text(HASH_START, model), 0x1f);
    let b = hash_byte(hash_text(a, CONDUCTOR_SYSTEM@), 0x1f);
    hex(hash_text(b, task) as nat, 16)
}

/// The key of a question.
pub fn key(model: &str, task: &str) -> (r: String)
    ensures
        r@ == cache_key(model@, task@),
{
    let a = extend_byte(extend_text(HASH_START, model), 0x1f);
    let b = extend_byte(extend_text(a, CONDUCTOR_SYSTEM), 0x1f);
    hexadecimal(extend_text(b, task) as u128, 16)
}

/// Where an entry with a key stands; the first of several.
pub open spec fn place_of(s: Seq<(Seq<char>, EntryView)>, key: Seq<char>) -> Option<int>
    decreases s.len(),
{
    if s.len() == 0 {
        None
    } else {
        match place_of(s.drop_last(), key) {
            Some(k) => Some(k),
            None => if s.last().0 == key {
                Some(s.len() - 1)
            } else {
                None
            },
        }
    }
}

/// What was decided of a question before: the entry under its key, where that
/// entry answers this very question.
pub open spec fn cached(
    s: Seq<(Seq<char>, EntryView)>,
    model: Seq<char>,
    task: Seq<char>,
) -> Option<DecisionView> {
    match place_of(s, cache_key(model, task)) {
        Some(k) => if s[k].1.model == model && s[k].1.task == task {
            Some(DecisionView { shape: s[k].1.shape, difficulty: s[k].1.difficulty })
        } else {
            None
        },
        None => None,
    }
}

/// The decisions with one more, which takes the place of one under the same
/// key.
pub open spec fn with_entry(
    s: Seq<(Seq<char>, EntryView)>,
    key: Seq<char>,
    e: EntryView,
) -> Seq<(Seq<char>, EntryView)> {
    match place_of(s, key) {
        Some(k) => s.update(k, (key, e)),
        None => s.push((key, e)),
    }
}

proof fn lemma_place_of(s: Seq<(Seq<char>, EntryView)>, key: Seq<char>)
    ensures
        match place_of(s, key) {
            Some(k) => 0 <= k < s.len() && s[k].0 == key && forall|i: int|
                0 <= i < k ==> (#[trigger] s[i]).0 != key,
            None => forall|i: int| 0 <= i < s.len() ==> (#[trigger] s[i]).0 != key,
        },
    decreases s.len(),
{
    if s.len() > 0 {
        let d = s.drop_last();
        lemma_place_of(d, key);
        assert forall|i: int| 0 <= i < d.len() implies d[i] == #[trigger] s[i] by {}
    }
}

proof fn lemma_place_is_first(s: Seq<(Seq<char>, EntryView)>, key: Seq<char>, k: int)
    requires
        0 <= k < s.len(),
        s[k].0 == key,
        forall|i: int| 0 <= i < k ==> (#[trigger] s[i]).0 != key,
    ensures
        place_of(s, key) == Some(k),
{
    lemma_place_of(s, key);
}

/// A decision that was kept is found again: asking the same of the same model
/// gives what was kept last.
pub proof fn law_kept_decisions_are_found(
    s: Seq<(Seq<char>, EntryView)>,
    e: EntryView,
)
    ensures
        cached(with_entry(s, cache_key(e.model, e.task), e), e.model, e.task) == Some(
            DecisionView { shape: e.shape, difficulty: e.difficulty },
        ),
{
    let key = cache_key(e.model, e.task);
    let t = with_entry(s, key, e);
    lemma_place_of(s, key);
    match place_of(s, key) {
        Some(k) => {
            assert forall|i: int| 0 <= i < k implies (#[trigger] t[i]).0 != key by {
                assert(t[i] == s[i]);
            }
            lemma_place_is_first(t, key, k);
        },
        None => {
            assert forall|i: int| 0 <= i < s.len() implies (#[trigger] t[i]).0 != key by {
                assert(t[i] == s[i]);
            }
            lemma_place_is_first(t, key, s.len() as int);
        },
    }
}

/// Keeping a decision leaves what is found for questions under other keys.
pub proof fn law_other_decisions_stay(
    s: Seq<(Seq<char>, EntryView)>,
    e: EntryView,
    model: Seq<char>,
    task: Seq<char>,
)
    requires
        cache_key(model, task) != cache_key(e.model, e.task),
    ensures
        cached(with_entry(s, cache_key(e.model, e.task), e), model, task) == cached(
            s,
            model,
            task,
        ),
{
    let key = cache_key(e.model, e.task);
    let other = cache_key(model, task);
    let t = with_entry(s, key, e);
    lemma_place_of(s, key);
    lemma_place_of(s, other);
    lemma_place_of(t, other);
    assert forall|i: int| 0 <= i < s.len() implies ((#[trigger] s[i]).0 == other <==> t[i].0
        == other) by {}
    match place_of(s, other) {
        Some(k) => {
            assert forall|i: int| 0 <= i < k implies (#[trigger] t[i]).0 != other by {
                assert(s[i].0 != other);
            }
            assert(t[k] == s[k]);
            lemma_place_is_first(t, other, k);
        },
        None => {
            match place_of(t, other) {
                Some(j) => {
                    if j < s.len() {
                        assert(s[j].0 != other);
                    }
                },
                None => {},
            }
        },
    }
}

/// A decision is never given for another question, even under the same key.
pub proof fn law_collisions_are_no_answers(
    s: Seq<(Seq<char>, EntryView)>,
    e: EntryView,
    model: Seq<char>,
    task: Seq<char>,
)
    requires
        cache_key(model, task) == cache_key(e.model, e.task),
        model != e.model || task != e.task,
    ensures
        cached(with_entry(s, cache_key(e.model, e.task), e), model, task) is None,
{
    let key = cache_key(e.model, e.task);
    let t = with_entry(s, key, e);
    lemma_place_of(s, key);
    lemma_place_of(t, key);
    match place_of(s, key) {
        Some(k) => {
            assert forall|i: int| 0 <= i < k implies (#[trigger] t[i]).0 != key by {
                assert(t[i] == s[i]);
            }
            lemma_place_is_first(t, key, k);
        },
        None => {
            assert forall|i: int| 0 <= i < s.len() implies (#[trigger] t[i]).0 != key by {
                assert(t[i] == s[i]);
            }
            lemma_place_is_first(t, key, s.len() as int);
        },
    }
}

impl DecisionCache {
    /// No decisions.
    pub fn empty() -> (r: DecisionCache)
        ensures
            r@ == Seq::<(Seq<char>, EntryView)>::empty(),
    {
        let r = DecisionCache { entries: Vec::new() };
        proof {
            assert(r@ =~= Seq::empty());
        }
        r
    }

    /// The decisions that were read, or none where their schema is another.
    pub fn of_file(schema_version: u32, entries: Vec<(String, CacheEntry)>) -> (r: DecisionCache)
        ensures
            schema_version == CACHE_SCHEMA_VERSION ==> r.entries == entries,
            schema_version != CACHE_SCHEMA_VERSION ==> r@ == Seq::<
                (Seq<char>, EntryView),
            >::empty(),
    {
        if schema_version == CACHE_SCHEMA_VERSION {
            DecisionCache { entries }
        } else {
            DecisionCache::empty()
        }
    }

    fn place(&self, key: &str) -> (r: Option<usize>)
        ensures
            match r {
                Some(k) => place_of(self@, key@) == Some(k as int) && k < self.entries@.len(),
                None => place_of(self@, key@) is None,
            },
    {
        let mut i: usize = 0;
        while i < self.entries.len()
            invariant
                i <= self.entries.len(),
                place_of(self@.take(i as int), key@) is None,
            decreases self.entries.len() - i,
        {
            proof {
                assert(self@.take(i + 1).drop_last() =~= self@.take(i as int));
                assert(self@.take(i + 1).last() == self@[i as int]);
            }
            if same(self.entries[i].0.as_str(), key) {
                proof {
                    lemma_place_of(self@.take(i as int), key@);
                    assert forall|k: int| 0 <= k < i implies (#[trigger] self@[k]).0 != key@ by {
                        assert(self@.take(i as int)[k] == self@[k]);
                    }
                    lemma_place_is_first(self@, key@, i as int);
                }
                return Some(i);
            }
            i = i + 1;
        }
        proof {
            assert(self@.take(i as int) =~= self@);
        }
        None
    }

    /// What was decided of a question before.
    pub fn lookup(&self, model: &str, task: &str) -> (r: Option<Decision>)
        ensures
            match r {
                Some(d) => cached(self@, model@, task@) == Some(d@),
                None => cached(self@, model@, task@) is None,
            },
    {
        let k = key(model, task);
        match self.place(k.as_str()) {
            Some(i) => {
                let e = &self.entries[i].1;
                proof {
                    assert(self@[i as int].1 == entry_view(*e));
                }
                if same(e.model.as_str(), model) && same(e.task.as_str(), task) {
                    Some(Decision { shape: e.shape.clone(), difficulty: e.difficulty.clone() })
                } else {
                    None
                }
            },
            None => None,
        }
    }

    /// Keeps a decision.
    pub fn store(&mut self, model: &str, task: &str, strategy: &Strategy)
        ensures
            final(self)@ == with_entry(
                old(self)@,
                cache_key(model@, task@),
                EntryView {
                    model: model@,
                    task: task@,
                    shape: shape_word(strategy.shape),
                    difficulty: strategy.difficulty,
                },
            ),
    {
        let k = key(model, task);
        let ghost was = self@;
        let entry = CacheEntry {
            model: model.to_owned(),
            task: task.to_owned(),
            shape: strategy.shape.as_str().to_owned(),
            difficulty: strategy.difficulty.clone(),
        };
        let ghost e = entry_view(entry);
        match self.place(k.as_str()) {
            Some(i) => {
                self.entries.set(i, (k, entry));
                proof {
                    assert(self@ =~= was.update(i as int, (k@, e)));
                }
            },
            None => {
                self.entries.push((k, entry));
                proof {
                    assert(self@ =~= was.push((k@, e)));
                }
            },
        }
    }
}

/// Where the decisions of a workspace are kept.
pub fn cache_path(workspace: &str) -> (r: String)
    ensures
        r@ == joined(joined(workspace@, ".tales"@), "conductor-cache.json"@),
{
    join(join(workspace, ".tales").as_str(), "conductor-cache.json")
}

} // verus!
