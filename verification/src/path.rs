//! Paths as text, with `/` between their components.
use vstd::prelude::*;
use crate::scan::split_at_char;
use crate::scan::split_char;
use crate::text::{chars_of, same, text_between, texts};

verus! {

/// Whether a path starts at the root.
pub open spec fn is_rooted(p: Seq<char>) -> bool {
    p.len() > 0 && p[0] == '/'
}

/// The path that `rel` names seen from `base`: `rel` itself where it starts at
/// the root, else `rel` below `base`.
pub open spec fn joined(base: Seq<char>, rel: Seq<char>) -> Seq<char> {
    if is_rooted(rel) {
        rel
    } else if base.len() == 0 || base.last() == '/' {
        base + rel
    } else {
        base + "/"@ + rel
    }
}

/// Whether a path starts at the root.
pub fn rooted(p: &str) -> (r: bool)
    ensures
        r == is_rooted(p@),
{
    let c = chars_of(p);
    c.len() > 0 && c[0] == '/'
}

/// The path that `rel` names seen from `base`.
pub fn join(base: &str, rel: &str) -> (r: String)
    ensures
        r@ == joined(base@, rel@),
{
    if rooted(rel) {
        return rel.to_owned();
    }
    let c = chars_of(base);
    let mut out = base.to_owned();
    if c.len() > 0 && c[c.len() - 1] != '/' {
        out.append("/");
    }
    out.append(rel);
    out
}

/// Whether a piece between slashes is a component of the path: not empty, and
/// not the dot that stands for the directory itself.
pub open spec fn is_component(piece: Seq<char>) -> bool {
    piece.len() > 0 && piece != "."@
}

/// The last component in a list of pieces.
pub open spec fn last_component(pieces: Seq<Seq<char>>) -> Option<Seq<char>>
    decreases pieces.len(),
{
    if pieces.len() == 0 {
        None
    } else if is_component(pieces.last()) {
        Some(pieces.last())
    } else {
        last_component(pieces.drop_last())
    }
}

/// The name of the file or directory that a path leads to: its last component,
/// unless that one leads upwards.
pub open spec fn file_name_of(p: Seq<char>) -> Option<Seq<char>> {
    match last_component(split_at_char(p, '/')) {
        Some(name) => if name == ".."@ {
            None
        } else {
            Some(name)
        },
        None => None,
    }
}

/// The name of the file or directory that a path leads to.
pub fn file_name(p: &str) -> (r: Option<String>)
    ensures
        match r {
            Some(name) => file_name_of(p@) == Some(name@),
            None => file_name_of(p@).is_none(),
        },
{
    let pieces = split_char(p, '/');
    let mut n: usize = pieces.len();
    proof {
        assert(texts(pieces@).take(n as int) =~= texts(pieces@));
    }
    while n > 0
        invariant
            n <= pieces.len(),
            texts(pieces@) == split_at_char(p@, '/'),
            last_component(texts(pieces@)) == last_component(texts(pieces@).take(n as int)),
        decreases n,
    {
        proof {
            assert(texts(pieces@).take(n as int).last() == pieces@[n - 1]@);
            assert(texts(pieces@).take(n as int).drop_last() =~= texts(pieces@).take(n - 1));
        }
        let piece = pieces[n - 1].as_str();
        if !piece.is_empty() && !same(piece, ".") {
            if same(piece, "..") {
                return None;
            }
            return Some(pieces[n - 1].clone());
        }
        n = n - 1;
    }
    None
}

/// The last position of a dot in a name.
pub open spec fn last_dot(s: Seq<char>) -> Option<int>
    decreases s.len(),
{
    if s.len() == 0 {
        None
    } else if s.last() == '.' {
        Some(s.len() - 1)
    } else {
        last_dot(s.drop_last())
    }
}

/// What stands behind the last dot of a file's name, unless the name has no
/// dot or its only dot is its first character.
pub open spec fn extension_of(p: Seq<char>) -> Option<Seq<char>> {
    match file_name_of(p) {
        Some(name) => match last_dot(name) {
            Some(k) => if k == 0 {
                None
            } else {
                Some(name.skip(k + 1))
            },
            None => None,
        },
        None => None,
    }
}

/// What stands behind the last dot of a file's name.
pub fn extension(p: &str) -> (r: Option<String>)
    ensures
        match r {
            Some(ext) => extension_of(p@) == Some(ext@),
            None => extension_of(p@).is_none(),
        },
{
    let name = match file_name(p) {
        Some(name) => name,
        None => return None,
    };
    let c = chars_of(name.as_str());
    let mut n: usize = c.len();
    proof {
        assert(name@.take(n as int) =~= name@);
    }
    while n > 0
        invariant
            n <= c.len(),
            c@ == name@,
            file_name_of(p@) == Some(name@),
            last_dot(name@) == last_dot(name@.take(n as int)),
        decreases n,
    {
        proof {
            assert(name@.take(n as int).last() == name@[n - 1]);
            assert(name@.take(n as int).drop_last() =~= name@.take(n - 1));
        }
        if c[n - 1] == '.' {
            if n == 1 {
                return None;
            }
            proof {
                assert(name@.skip(n as int) =~= name@.subrange(n as int, name@.len() as int));
            }
            return Some(text_between(&c, n, c.len()));
        }
        n = n - 1;
    }
    None
}

} // verus!
