//! JSON documents as text, on one line and without spaces.
use vstd::prelude::*;
use crate::json::{Doc, Json, Number};
use crate::numeral::{dec, decimal, hex};
use crate::text::{flat, join, join_texts, lemma_texts_push, texts};

verus! {

/// How a character stands inside a quoted text.
pub open spec fn escaped(c: char) -> Seq<char> {
    if c == '"' {
        seq!['\\', '"']
    } else if c == '\\' {
        seq!['\\', '\\']
    } else if c == '\u{8}' {
        seq!['\\', 'b']
    } else if c == '\t' {
        seq!['\\', 't']
    } else if c == '\n' {
        seq!['\\', 'n']
    } else if c == '\u{c}' {
        seq!['\\', 'f']
    } else if c == '\r' {
        seq!['\\', 'r']
    } else if (c as u32) < 32 {
        seq!['\\', 'u', '0', '0'] + hex(c as nat, 2)
    } else {
        seq![c]
    }
}

/// A text in quotes.
pub open spec fn quoted(s: Seq<char>) -> Seq<char> {
    seq!['"'] + flat(Seq::new(s.len(), |i: int| escaped(s[i]))) + seq!['"']
}

/// `serde_json::to_string` on a text.
///
/// Believed of it: it does not fail on a text, and gives the text between two
/// quotation marks, with a backslash before quotation marks and backslashes,
/// the control characters below space in their short or four-digit form, and
/// every other character as it is.
#[verifier::external_body]
pub(crate) fn quote(s: &str) -> (r: String)
    ensures
        r@ == quoted(s@),
{
    serde_json::to_string(s).unwrap_or_default()
}

/// Whether a document holds no number with a fraction or an exponent.
pub open spec fn whole(d: Doc) -> bool
    decreases d,
{
    match d {
        Doc::Num(n) => !(n is Real),
        Doc::Arr(a) => forall|i: int| 0 <= i < a.len() ==> whole(#[trigger] a[i]),
        Doc::Obj(f) => forall|i: int| 0 <= i < f.len() ==> whole((#[trigger] f[i]).1),
        _ => true,
    }
}

/// A document without such numbers as text.
pub open spec fn compact_text(d: Doc) -> Seq<char>
    decreases d, 1nat,
{
    match d {
        Doc::Null => "null"@,
        Doc::Bool(b) => if b {
            "true"@
        } else {
            "false"@
        },
        Doc::Num(n) => match n {
            Number::Unsigned(u) => dec(u as nat),
            Number::Negative(i) => "-"@ + dec(distance(i)),
            Number::Real(_) => Seq::empty(),
        },
        Doc::Str(s) => quoted(s),
        Doc::Arr(_) => "["@ + join(compact_parts(d), ","@) + "]"@,
        Doc::Obj(_) => "{"@ + join(compact_parts(d), ","@) + "}"@,
    }
}

/// The parts of a document as text: the items of a list, the names and values
/// of an object.
pub open spec fn compact_parts(d: Doc) -> Seq<Seq<char>>
    decreases d, 0nat,
{
    match d {
        Doc::Arr(a) => Seq::new(
            a.len(),
            |i: int|
                if 0 <= i < a.len() {
                    compact_text(a[i])
                } else {
                    Seq::empty()
                },
        ),
        Doc::Obj(f) => Seq::new(
            f.len(),
            |i: int|
                if 0 <= i < f.len() {
                    quoted(f[i].0) + ":"@ + compact_text(f[i].1)
                } else {
                    Seq::empty()
                },
        ),
        _ => Seq::empty(),
    }
}

/// How far a number is from zero.
pub open spec fn distance(i: i64) -> nat {
    if i < 0 {
        (-i) as nat
    } else {
        i as nat
    }
}

fn magnitude(i: i64) -> (r: u64)
    ensures
        r == distance(i),
{
    if i >= 0 {
        i as u64
    } else if i == i64::MIN {
        0x8000000000000000u64
    } else {
        (-i) as u64
    }
}

/// A document without fractions and exponents as text.
pub fn compact(j: &Json) -> (r: String)
    requires
        whole(j@),
    ensures
        r@ == compact_text(j@),
    decreases j,
{
    match j {
        Json::Null => "null".to_owned(),
        Json::Bool(b) => if *b {
            "true".to_owned()
        } else {
            "false".to_owned()
        },
        Json::Num(n) => match n {
            Number::Unsigned(u) => decimal(*u),
            Number::Negative(i) => {
                let mut out = "-".to_owned();
                out.append(decimal(magnitude(*i)).as_str());
                out
            },
            Number::Real(_) => String::new(),
        },
        Json::Str(s) => quote(s.as_str()),
        Json::Arr(a) => {
            let ghost d = j@->Arr_0;
            let mut parts: Vec<String> = Vec::new();
            let mut i: usize = 0;
            proof {
                assert(texts(parts@) =~= compact_parts(j@).take(0));
            }
            while i < a.len()
                invariant
                    i <= a.len(),
                    *j == Json::Arr(*a),
                    d == j@->Arr_0,
                    whole(j@),
                    texts(parts@) == compact_parts(j@).take(i as int),
                decreases a.len() - i,
            {
                proof {
                    assert(decreases_to!(*j => j->Arr_0));
                    assert(decreases_to!(*a => a@));
                    assert(decreases_to!(a@ => a@[i as int]));
                    assert(d[i as int] == a@[i as int]@);
                }
                let x = compact(&a[i]);
                proof {
                    lemma_texts_push(parts@, x);
                    assert(compact_parts(j@).take(i + 1) =~= compact_parts(j@).take(i as int).push(x@));
                }
                parts.push(x);
                i = i + 1;
            }
            proof {
                assert(compact_parts(j@).take(i as int) =~= compact_parts(j@));
            }
            let mut out = "[".to_owned();
            out.append(join_texts(&parts, ",").as_str());
            out.append("]");
            out
        },
        Json::Obj(f) => {
            let ghost d = j@->Obj_0;
            let mut parts: Vec<String> = Vec::new();
            let mut i: usize = 0;
            proof {
                assert(texts(parts@) =~= compact_parts(j@).take(0));
            }
            while i < f.len()
                invariant
                    i <= f.len(),
                    *j == Json::Obj(*f),
                    d == j@->Obj_0,
                    whole(j@),
                    texts(parts@) == compact_parts(j@).take(i as int),
                decreases f.len() - i,
            {
                proof {
                    assert(decreases_to!(*j => j->Obj_0));
                    assert(decreases_to!(*f => f@));
                    assert(decreases_to!(f@ => f@[i as int]));
                    assert(decreases_to!(f@[i as int] => f@[i as int].1));
                    assert(d[i as int] == (f@[i as int].0@, f@[i as int].1@));
                }
                let mut x = quote(f[i].0.as_str());
                x.append(":");
                x.append(compact(&f[i].1).as_str());
                proof {
                    lemma_texts_push(parts@, x);
                    assert(compact_parts(j@).take(i + 1) =~= compact_parts(j@).take(i as int).push(x@));
                }
                parts.push(x);
                i = i + 1;
            }
            proof {
                assert(compact_parts(j@).take(i as int) =~= compact_parts(j@));
            }
            let mut out = "{".to_owned();
            out.append(join_texts(&parts, ",").as_str());
            out.append("}");
            out
        },
    }
}

// ---- One line ---------------------------------------------------------------

/// Whether a text stands on one line.
pub open spec fn one_line(s: Seq<char>) -> bool {
    forall|i: int| 0 <= i < s.len() ==> #[trigger] s[i] != '\n'
}

proof fn lemma_dec_one_line(n: nat)
    ensures
        one_line(dec(n)),
    decreases n,
{
    if n >= 10 {
        lemma_dec_one_line(n / 10);
    }
}

proof fn lemma_hex_one_line(n: nat, width: nat)
    ensures
        one_line(hex(n, width)),
    decreases width,
{
    if width > 0 {
        lemma_hex_one_line(n / 16, (width - 1) as nat);
    }
}

proof fn lemma_flat_one_line(parts: Seq<Seq<char>>)
    requires
        forall|i: int| 0 <= i < parts.len() ==> one_line(#[trigger] parts[i]),
    ensures
        one_line(flat(parts)),
    decreases parts.len(),
{
    if parts.len() > 0 {
        assert forall|i: int| 0 <= i < parts.drop_last().len() implies one_line(
            #[trigger] parts.drop_last()[i],
        ) by {
            assert(parts.drop_last()[i] == parts[i]);
        }
        lemma_flat_one_line(parts.drop_last());
    }
}

proof fn lemma_join_one_line(parts: Seq<Seq<char>>, sep: Seq<char>)
    requires
        forall|i: int| 0 <= i < parts.len() ==> one_line(#[trigger] parts[i]),
        one_line(sep),
    ensures
        one_line(join(parts, sep)),
    decreases parts.len(),
{
    if parts.len() > 1 {
        assert forall|i: int| 0 <= i < parts.drop_last().len() implies one_line(
            #[trigger] parts.drop_last()[i],
        ) by {
            assert(parts.drop_last()[i] == parts[i]);
        }
        lemma_join_one_line(parts.drop_last(), sep);
    }
}

proof fn lemma_quoted_one_line(s: Seq<char>)
    ensures
        one_line(quoted(s)),
{
    let parts = Seq::new(s.len(), |i: int| escaped(s[i]));
    assert forall|i: int| 0 <= i < parts.len() implies one_line(#[trigger] parts[i]) by {
        lemma_hex_one_line(s[i] as nat, 2);
    }
    lemma_flat_one_line(parts);
}

/// A document as text stands on one line, whatever its texts hold.
pub proof fn law_compact_text_is_one_line(d: Doc)
    ensures
        one_line(compact_text(d)),
    decreases d,
{
    reveal_strlit("null");
    reveal_strlit("true");
    reveal_strlit("false");
    reveal_strlit("-");
    reveal_strlit(",");
    reveal_strlit(":");
    reveal_strlit("[");
    reveal_strlit("]");
    reveal_strlit("{");
    reveal_strlit("}");
    match d {
        Doc::Num(n) => match n {
            Number::Unsigned(u) => {
                lemma_dec_one_line(u as nat);
            },
            Number::Negative(i) => {
                lemma_dec_one_line(distance(i));
            },
            Number::Real(_) => {},
        },
        Doc::Str(s) => {
            lemma_quoted_one_line(s);
        },
        Doc::Arr(a) => {
            let parts = compact_parts(d);
            assert forall|i: int| 0 <= i < parts.len() implies one_line(#[trigger] parts[i]) by {
                assert(decreases_to!(d => a[i]));
                law_compact_text_is_one_line(a[i]);
            }
            lemma_join_one_line(parts, ","@);
        },
        Doc::Obj(f) => {
            let parts = compact_parts(d);
            assert forall|i: int| 0 <= i < parts.len() implies one_line(#[trigger] parts[i]) by {
                assert(decreases_to!(d => f[i].1));
                law_compact_text_is_one_line(f[i].1);
                lemma_quoted_one_line(f[i].0);
            }
            lemma_join_one_line(parts, ","@);
        },
        _ => {},
    }
}

} // verus!
