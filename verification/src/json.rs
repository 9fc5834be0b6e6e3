//! JSON documents as plain values.
//!
//! A document that the library writes or reads is a [`Json`]. Its contents,
//! with the texts as sequences of characters, are its [`Doc`]: contracts speak
//! of that.
use vstd::prelude::*;
use crate::text::{same, texts};

verus! {

/// A number as a document holds it.
#[derive(Clone, Copy, Debug, PartialEq, Eq, Structural)]
pub enum Number {
    /// Zero or above.
    Unsigned(u64),
    /// Below zero.
    Negative(i64),
    /// With a fraction or an exponent: the bits of the double that it is.
    Real(u64),
}

/// A JSON document.
#[derive(Debug)]
pub enum Json {
    Null,
    Bool(bool),
    Num(Number),
    Str(String),
    Arr(Vec<Json>),
    Obj(Vec<(String, Json)>),
}

/// The contents of a [`Json`].
pub enum Doc {
    Null,
    Bool(bool),
    Num(Number),
    Str(Seq<char>),
    Arr(Seq<Doc>),
    Obj(Seq<(Seq<char>, Doc)>),
}

impl View for Json {
    type V = Doc;

    open spec fn view(&self) -> Doc {
        self.doc()
    }
}

impl Json {
    /// The contents of a document.
    pub open spec fn doc(self) -> Doc
        decreases self,
    {
        match self {
            Json::Null => Doc::Null,
            Json::Bool(b) => Doc::Bool(b),
            Json::Num(n) => Doc::Num(n),
            Json::Str(s) => Doc::Str(s@),
            Json::Arr(a) => Doc::Arr(
                Seq::new(
                    a@.len(),
                    |i: int|
                        if 0 <= i < a@.len() {
                            a@[i].doc()
                        } else {
                            Doc::Null
                        },
                ),
            ),
            Json::Obj(f) => Doc::Obj(
                Seq::new(
                    f@.len(),
                    |i: int|
                        if 0 <= i < f@.len() {
                            (f@[i].0@, f@[i].1.doc())
                        } else {
                            (Seq::empty(), Doc::Null)
                        },
                ),
            ),
        }
    }
}

/// The contents of a list of documents.
pub open spec fn docs(v: Seq<Json>) -> Seq<Doc> {
    Seq::new(v.len(), |i: int| v[i].doc())
}

/// The contents of a list of named documents.
pub open spec fn fields(v: Seq<(String, Json)>) -> Seq<(Seq<char>, Doc)> {
    Seq::new(v.len(), |i: int| (v[i].0@, v[i].1.doc()))
}

// ---- Documents that contracts name -----------------------------------------

/// A text.
pub open spec fn jstr(s: Seq<char>) -> Doc {
    Doc::Str(s)
}

/// A number from zero up.
pub open spec fn jnum(n: int) -> Doc {
    Doc::Num(Number::Unsigned(n as u64))
}

/// A truth value.
pub open spec fn jbool(b: bool) -> Doc {
    Doc::Bool(b)
}

/// A text, or null where there is none.
pub open spec fn jopt_str(s: Option<Seq<char>>) -> Doc {
    match s {
        Some(s) => Doc::Str(s),
        None => Doc::Null,
    }
}

/// A number, or null where there is none.
pub open spec fn jopt_u64(n: Option<u64>) -> Doc {
    match n {
        Some(n) => jnum(n as int),
        None => Doc::Null,
    }
}

/// A size, or null where there is none.
pub open spec fn jopt_size(n: Option<usize>) -> Doc {
    match n {
        Some(n) => jnum(n as int),
        None => Doc::Null,
    }
}

/// A list of texts.
pub open spec fn jtexts(v: Seq<Seq<char>>) -> Doc {
    Doc::Arr(Seq::new(v.len(), |i: int| Doc::Str(v[i])))
}

// ---- Building --------------------------------------------------------------

/// Nothing.
pub fn null() -> (r: Json)
    ensures
        r@ == Doc::Null,
{
    Json::Null
}

/// A text.
pub fn text(s: &str) -> (r: Json)
    ensures
        r@ == jstr(s@),
{
    Json::Str(s.to_owned())
}

/// A number from zero up.
pub fn num(n: u64) -> (r: Json)
    ensures
        r@ == jnum(n as int),
{
    Json::Num(Number::Unsigned(n))
}

/// A size.
pub fn size(n: usize) -> (r: Json)
    ensures
        r@ == jnum(n as int),
{
    num(n as u64)
}

/// A truth value.
pub fn truth(b: bool) -> (r: Json)
    ensures
        r@ == jbool(b),
{
    Json::Bool(b)
}

/// A text, or null where there is none.
pub fn opt_text(s: Option<&str>) -> (r: Json)
    ensures
        r@ == jopt_str(crate::text::opt_str(s)),
{
    match s {
        Some(s) => text(s),
        None => Json::Null,
    }
}

/// A text, or null where there is none.
pub fn opt_string(s: &Option<String>) -> (r: Json)
    ensures
        r@ == jopt_str(crate::text::opt_text(*s)),
{
    match s {
        Some(s) => text(s.as_str()),
        None => Json::Null,
    }
}

/// A number, or null where there is none.
pub fn opt_num(n: Option<u64>) -> (r: Json)
    ensures
        r@ == jopt_u64(n),
{
    match n {
        Some(n) => num(n),
        None => Json::Null,
    }
}

/// A size, or null where there is none.
pub fn opt_size(n: Option<usize>) -> (r: Json)
    ensures
        r@ == jopt_size(n),
{
    match n {
        Some(n) => size(n),
        None => Json::Null,
    }
}

/// A list of documents.
pub fn list(v: Vec<Json>) -> (r: Json)
    ensures
        r@ == Doc::Arr(docs(v@)),
{
    let r = Json::Arr(v);
    proof {
        assert(r.doc()->Arr_0 =~= docs(v@));
    }
    r
}

/// A list of texts.
pub fn text_list(v: &Vec<String>) -> (r: Json)
    ensures
        r@ == jtexts(texts(v@)),
{
    let mut out: Vec<Json> = Vec::new();
    let mut i: usize = 0;
    while i < v.len()
        invariant
            i <= v.len(),
            docs(out@) == Seq::new(i as nat, |k: int| Doc::Str(v@[k]@)),
        decreases v.len() - i,
    {
        let item = text(v[i].as_str());
        proof {
            assert(docs(out@.push(item)) =~= docs(out@).push(item@));
            assert(Seq::new((i + 1) as nat, |k: int| Doc::Str(v@[k]@)) =~= Seq::new(
                i as nat,
                |k: int| Doc::Str(v@[k]@),
            ).push(item@));
        }
        out.push(item);
        i = i + 1;
    }
    proof {
        assert(docs(out@) =~= Seq::new(texts(v@).len(), |k: int| Doc::Str(texts(v@)[k])));
    }
    list(out)
}

/// Named documents in the order in which they were put in.
pub struct Fields {
    entries: Vec<(String, Json)>,
}

impl View for Fields {
    type V = Seq<(Seq<char>, Doc)>;

    closed spec fn view(&self) -> Seq<(Seq<char>, Doc)> {
        fields(self.entries@)
    }
}

impl Fields {
    pub fn new() -> (r: Fields)
        ensures
            r@ == Seq::<(Seq<char>, Doc)>::empty(),
    {
        let r = Fields { entries: Vec::new() };
        proof {
            assert(r@ =~= Seq::empty());
        }
        r
    }

    /// Puts a document under a name behind the others.
    pub fn put(&mut self, name: &str, value: Json)
        ensures
            final(self)@ == old(self)@.push((name@, value@)),
    {
        let ghost before = self.entries@;
        self.entries.push((name.to_owned(), value));
        proof {
            assert(fields(self.entries@) =~= fields(before).push((name@, value@)));
        }
    }

    /// The object that holds the named documents.
    pub fn object(self) -> (r: Json)
        ensures
            r@ == Doc::Obj(self@),
    {
        let r = Json::Obj(self.entries);
        proof {
            assert(r.doc()->Obj_0 =~= fields(self.entries@));
        }
        r
    }
}

/// A list of documents under way.
pub proof fn lemma_docs_push(v: Seq<Json>, x: Json)
    ensures
        docs(v.push(x)) == docs(v).push(x@),
{
    assert(docs(v.push(x)) =~= docs(v).push(x@));
}

// ---- Reading ---------------------------------------------------------------

/// What an object holds under a name; the first of several. Nothing where the
/// document is no object or has no such name.
pub open spec fn member(d: Doc, name: Seq<char>) -> Option<Doc> {
    match d {
        Doc::Obj(f) => member_in(f, name),
        _ => None,
    }
}

pub open spec fn member_in(f: Seq<(Seq<char>, Doc)>, name: Seq<char>) -> Option<Doc>
    decreases f.len(),
{
    if f.len() == 0 {
        None
    } else if f[0].0 == name {
        Some(f[0].1)
    } else {
        member_in(f.skip(1), name)
    }
}

/// The member that a path of names leads to.
pub open spec fn member2(d: Doc, a: Seq<char>, b: Seq<char>) -> Option<Doc> {
    match member(d, a) {
        Some(x) => member(x, b),
        None => None,
    }
}

/// The text that a document is.
pub open spec fn doc_str(d: Option<Doc>) -> Option<Seq<char>> {
    match d {
        Some(Doc::Str(s)) => Some(s),
        _ => None,
    }
}

/// The number from zero up that a document is.
pub open spec fn doc_u64(d: Option<Doc>) -> Option<u64> {
    match d {
        Some(Doc::Num(Number::Unsigned(n))) => Some(n),
        _ => None,
    }
}

/// The number that a document is.
pub open spec fn doc_num(d: Option<Doc>) -> Option<Number> {
    match d {
        Some(Doc::Num(n)) => Some(n),
        _ => None,
    }
}

/// The elements of a document that is a list; none of any other.
pub open spec fn doc_items(d: Option<Doc>) -> Seq<Doc> {
    match d {
        Some(Doc::Arr(a)) => a,
        _ => Seq::empty(),
    }
}

/// The contents of an optional document.
pub open spec fn opt_doc(j: Option<&Json>) -> Option<Doc> {
    match j {
        Some(j) => Some(j@),
        None => None,
    }
}

impl Json {
    /// What an object holds under a name.
    pub fn get(&self, name: &str) -> (r: Option<&Json>)
        ensures
            opt_doc(r) == member(self@, name@),
    {
        match self {
            Json::Obj(f) => {
                let ghost all = fields(f@);
                proof {
                    assert(self@->Obj_0 =~= all);
                    assert(all.skip(0) =~= all);
                }
                let mut i: usize = 0;
                while i < f.len()
                    invariant
                        i <= f.len(),
                        all == fields(f@),
                        member_in(all, name@) == member_in(all.skip(i as int), name@),
                        self@ == Doc::Obj(all),
                    decreases f.len() - i,
                {
                    proof {
                        assert(all.skip(i as int)[0] == (f@[i as int].0@, f@[i as int].1.doc()));
                        assert(all.skip(i as int).skip(1) =~= all.skip(i + 1));
                    }
                    if same(f[i].0.as_str(), name) {
                        return Some(&f[i].1);
                    }
                    i = i + 1;
                }
                None
            },
            _ => None,
        }
    }

    /// What the object under `a` holds under `b`.
    pub fn get2(&self, a: &str, b: &str) -> (r: Option<&Json>)
        ensures
            opt_doc(r) == member2(self@, a@, b@),
    {
        match self.get(a) {
            Some(x) => x.get(b),
            None => None,
        }
    }

    /// The text that a document is.
    pub fn as_str(&self) -> (r: Option<&str>)
        ensures
            crate::text::opt_str(r) == doc_str(Some(self@)),
    {
        match self {
            Json::Str(s) => Some(s.as_str()),
            _ => None,
        }
    }

    /// The number from zero up that a document is.
    pub fn as_u64(&self) -> (r: Option<u64>)
        ensures
            r == doc_u64(Some(self@)),
    {
        match self {
            Json::Num(Number::Unsigned(n)) => Some(*n),
            _ => None,
        }
    }

    /// The number that a document is.
    pub fn as_number(&self) -> (r: Option<Number>)
        ensures
            r == doc_num(Some(self@)),
    {
        match self {
            Json::Num(n) => Some(*n),
            _ => None,
        }
    }

    /// Whether a document is an object.
    pub fn is_object(&self) -> (r: bool)
        ensures
            r == (self@ is Obj),
    {
        match self {
            Json::Obj(_) => true,
            _ => false,
        }
    }

    /// The truth value that a document is.
    pub fn as_bool(&self) -> (r: Option<bool>)
        ensures
            r == (match self@ {
                Doc::Bool(b) => Some(b),
                _ => None,
            }),
    {
        match self {
            Json::Bool(b) => Some(*b),
            _ => None,
        }
    }

    /// Whether a document is null.
    pub fn is_null(&self) -> (r: bool)
        ensures
            r == (self@ is Null),
    {
        match self {
            Json::Null => true,
            _ => false,
        }
    }

    /// How many elements a list has.
    pub fn items(&self) -> (r: usize)
        ensures
            r == doc_items(Some(self@)).len(),
    {
        match self {
            Json::Arr(a) => a.len(),
            _ => 0,
        }
    }

    /// One element of a list.
    pub fn item(&self, i: usize) -> (r: &Json)
        requires
            i < doc_items(Some(self@)).len(),
        ensures
            r@ == doc_items(Some(self@))[i as int],
    {
        match self {
            Json::Arr(a) => &a[i],
            _ => self,
        }
    }
}

/// The text under a name of an object.
pub fn str_at<'a>(j: &'a Json, name: &str) -> (r: Option<&'a str>)
    ensures
        crate::text::opt_str(r) == doc_str(member(j@, name@)),
{
    match j.get(name) {
        Some(x) => x.as_str(),
        None => None,
    }
}

/// A copy of a document.
pub fn copy(j: &Json) -> (r: Json)
    ensures
        r@ == j@,
    decreases j,
{
    match j {
        Json::Null => Json::Null,
        Json::Bool(b) => Json::Bool(*b),
        Json::Num(n) => Json::Num(*n),
        Json::Str(s) => Json::Str(s.clone()),
        Json::Arr(a) => {
            let mut out: Vec<Json> = Vec::new();
            let mut i: usize = 0;
            while i < a.len()
                invariant
                    i <= a.len(),
                    *j == Json::Arr(*a),
                    docs(out@) == docs(a@).take(i as int),
                decreases a.len() - i,
            {
                proof {
                    assert(decreases_to!(*j => j->Arr_0));
                    assert(decreases_to!(*a => a@));
                    assert(decreases_to!(a@ => a@[i as int]));
                }
                let x = copy(&a[i]);
                proof {
                    lemma_docs_push(out@, x);
                    assert(docs(a@).take(i + 1) =~= docs(a@).take(i as int).push(x@));
                }
                out.push(x);
                i = i + 1;
            }
            proof {
                assert(docs(a@).take(i as int) =~= docs(a@));
                assert(j@->Arr_0 =~= docs(a@));
            }
            list(out)
        },
        Json::Obj(f) => {
            let mut out = Fields::new();
            let mut i: usize = 0;
            while i < f.len()
                invariant
                    i <= f.len(),
                    *j == Json::Obj(*f),
                    out@ == fields(f@).take(i as int),
                decreases f.len() - i,
            {
                proof {
                    assert(decreases_to!(*j => j->Obj_0));
                    assert(decreases_to!(*f => f@));
                    assert(decreases_to!(f@ => f@[i as int]));
                    assert(decreases_to!(f@[i as int] => f@[i as int].1));
                }
                let x = copy(&f[i].1);
                proof {
                    assert(fields(f@).take(i + 1) =~= fields(f@).take(i as int).push(
                        (f@[i as int].0@, x@),
                    ));
                }
                out.put(f[i].0.as_str(), x);
                i = i + 1;
            }
            proof {
                assert(fields(f@).take(i as int) =~= fields(f@));
                assert(j@->Obj_0 =~= fields(f@));
            }
            out.object()
        },
    }
}

} // verus!
