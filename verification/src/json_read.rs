//! JSON documents from their text, as `serde_json` reads it.
use vstd::prelude::*;
use crate::error::TalesError;
use crate::json::{docs, fields, lemma_docs_push, Doc, Json, Number};
use crate::scan::{blank, is_blank};

verus! {

// ---- What serde_json reads -----------------------------------------------------

/// A value as `serde_json` holds it.
#[verifier::external_type_specification]
#[verifier::external_body]
pub struct ExValue(serde_json::Value);

/// What `serde_json::from_str::<serde_json::Value>` makes of a text: the
/// document that it holds, or why it is none, in words.
pub uninterp spec fn read_text(s: Seq<char>) -> Result<Doc, Seq<char>>;

/// The document that a `serde_json::Value` holds.
pub uninterp spec fn value_doc(v: serde_json::Value) -> Doc;

/// `serde_json::from_str` for a `serde_json::Value`.
///
/// Believed of it: the text alone decides whether it is read, as which document,
/// and with which words it is refused. Which texts hold which documents is left
/// unsaid.
#[verifier::external_body]
fn parse_value(text: &str) -> (r: Result<serde_json::Value, String>)
    ensures
        read_text(text@) == (match r {
            Ok(v) => Ok(value_doc(v)),
            Err(e) => Err(e@),
        }),
{
    match serde_json::from_str::<serde_json::Value>(text) {
        Ok(v) => Ok(v),
        Err(e) => Err(e.to_string()),
    }
}

/// A value of `serde_json`, opened by one level.
enum Opened<'a> {
    Null,
    Bool(bool),
    Num(Number),
    Str(String),
    Arr(&'a Vec<serde_json::Value>),
    Obj(Vec<(&'a String, &'a serde_json::Value)>),
}

/// The document that an opened value holds.
spec fn opened_doc(o: Opened) -> Doc {
    match o {
        Opened::Null => Doc::Null,
        Opened::Bool(b) => Doc::Bool(b),
        Opened::Num(n) => Doc::Num(n),
        Opened::Str(s) => Doc::Str(s@),
        Opened::Arr(a) => Doc::Arr(Seq::new(a@.len(), |i: int| value_doc(a@[i]))),
        Opened::Obj(f) => Doc::Obj(Seq::new(f@.len(), |i: int| (f@[i].0@, value_doc(*f@[i].1)))),
    }
}

/// The variants of `serde_json::Value`.
///
/// Believed of it: a value holds what its variant holds. A number is unsigned,
/// else negative, else a double; an object is its names and values in the order
/// of its map.
#[verifier::external_body]
fn open_value<'a>(v: &'a serde_json::Value) -> (r: Opened<'a>)
    ensures
        value_doc(*v) == opened_doc(r),
{
    match v {
        serde_json::Value::Null => Opened::Null,
        serde_json::Value::Bool(b) => Opened::Bool(*b),
        serde_json::Value::Number(n) => Opened::Num(match (n.as_u64(), n.as_i64()) {
            (Some(u), _) => Number::Unsigned(u),
            (None, Some(i)) => Number::Negative(i),
            (None, None) => Number::Real(n.as_f64().unwrap_or_default().to_bits()),
        }),
        serde_json::Value::String(s) => Opened::Str(s.clone()),
        serde_json::Value::Array(a) => Opened::Arr(a),
        serde_json::Value::Object(m) => Opened::Obj(m.iter().collect()),
    }
}

// ---- Documents -----------------------------------------------------------------

/// A value as the library holds it.
fn json_of(v: &serde_json::Value) -> (r: Json)
    ensures
        r@ == value_doc(*v),
    decreases value_doc(*v),
{
    match open_value(v) {
        Opened::Null => Json::Null,
        Opened::Bool(b) => Json::Bool(b),
        Opened::Num(n) => Json::Num(n),
        Opened::Str(s) => Json::Str(s),
        Opened::Arr(a) => {
            let ghost all = value_doc(*v)->Arr_0;
            let mut out: Vec<Json> = Vec::new();
            let mut i: usize = 0;
            while i < a.len()
                invariant
                    i <= a.len(),
                    value_doc(*v) == Doc::Arr(all),
                    all == Seq::new(a@.len(), |i: int| value_doc(a@[i])),
                    docs(out@) == all.take(i as int),
                decreases a.len() - i,
            {
                proof {
                    assert(decreases_to!(value_doc(*v) => value_doc(*v)->Arr_0));
                    assert(decreases_to!(all => all[i as int]));
                    assert(all[i as int] == value_doc(a@[i as int]));
                }
                let x = json_of(&a[i]);
                proof {
                    lemma_docs_push(out@, x);
                    assert(all.take(i + 1) =~= all.take(i as int).push(x@));
                }
                out.push(x);
                i = i + 1;
            }
            proof {
                assert(all.take(i as int) =~= all);
                assert(Json::Arr(out)@->Arr_0 =~= docs(out@));
            }
            Json::Arr(out)
        },
        Opened::Obj(f) => {
            let ghost all = value_doc(*v)->Obj_0;
            let mut out: Vec<(String, Json)> = Vec::new();
            let mut i: usize = 0;
            while i < f.len()
                invariant
                    i <= f.len(),
                    value_doc(*v) == Doc::Obj(all),
                    all == Seq::new(f@.len(), |i: int| (f@[i].0@, value_doc(*f@[i].1))),
                    fields(out@) == all.take(i as int),
                decreases f.len() - i,
            {
                proof {
                    assert(decreases_to!(value_doc(*v) => value_doc(*v)->Obj_0));
                    assert(decreases_to!(all => all[i as int]));
                    assert(decreases_to!(all[i as int] => all[i as int].1));
                    assert(all[i as int] == (f@[i as int].0@, value_doc(*f@[i as int].1)));
                }
                let name = f[i].0.as_str().to_owned();
                let x = json_of(f[i].1);
                let ghost was = out@;
                out.push((name, x));
                proof {
                    assert(fields(out@) =~= fields(was).push((name@, x@)));
                    assert(all.take(i + 1) =~= all.take(i as int).push(all[i as int]));
                }
                i = i + 1;
            }
            proof {
                assert(all.take(i as int) =~= all);
                assert(Json::Obj(out)@->Obj_0 =~= fields(out@));
            }
            Json::Obj(out)
        },
    }
}

/// The document that a text holds, or why it is none.
pub fn read_json(text: &str) -> (r: Result<Json, TalesError>)
    ensures
        match r {
            Ok(j) => read_text(text@) == Ok::<Doc, Seq<char>>(j@),
            Err(e) => e matches TalesError::Json(m) && read_text(text@) == Err::<Doc, Seq<char>>(
                m@,
            ),
        },
{
    match parse_value(text) {
        Ok(v) => Ok(json_of(&v)),
        Err(e) => Err(TalesError::Json(e)),
    }
}

/// The document on a line of a stream: none on a blank line, nor on one that
/// holds something else.
pub open spec fn line_doc(line: Seq<char>) -> Option<Doc> {
    if is_blank(line) {
        None
    } else {
        read_text(line).ok()
    }
}

/// The document on a line of a stream.
pub fn read_json_line(line: &str) -> (r: Option<Json>)
    ensures
        line_doc(line@) == (match r {
            Some(j) => Some(j@),
            None => None,
        }),
{
    if blank(line) {
        return None;
    }
    match read_json(line) {
        Ok(j) => Some(j),
        Err(_) => None,
    }
}

} // verus!
