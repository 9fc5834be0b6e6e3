//! What is known of the build.
use vstd::prelude::*;
use crate::json::{jopt_str, jstr, opt_text, text, truth, Doc, Fields, Json};
use crate::scan::{blank, is_blank};
use crate::text::{opt_str, same};

verus! {

/// The version of the package.
pub const VERSION: &'static str = "0.1.0";

/// What the build recorded, as it was recorded.
pub struct BuildRecord<'a> {
    pub git_sha: Option<&'a str>,
    pub git_dirty: Option<&'a str>,
    pub target: Option<&'a str>,
    pub profile: Option<&'a str>,
}

/// A recorded text, unless it is blank.
pub open spec fn told(value: Option<&str>) -> Option<Seq<char>> {
    match value {
        Some(s) => if is_blank(s@) {
            None
        } else {
            Some(s@)
        },
        None => None,
    }
}

fn non_empty<'a>(value: Option<&'a str>) -> (r: Option<&'a str>)
    ensures
        opt_str(r) == told(value),
{
    match value {
        Some(s) => if blank(s) {
            None
        } else {
            Some(s)
        },
        None => None,
    }
}

/// Whether the build recorded that the working tree was changed.
pub open spec fn dirty_of(value: Option<&str>) -> Option<bool> {
    match told(value) {
        Some(s) => if s == "true"@ {
            Some(true)
        } else if s == "false"@ {
            Some(false)
        } else {
            None
        },
        None => None,
    }
}

/// The version with the commit it was built from, where that is known.
pub open spec fn long_version_of(b: BuildRecord) -> Seq<char> {
    match told(b.git_sha) {
        Some(sha) => VERSION@ + " (git "@ + sha + (if dirty_of(b.git_dirty) == Some(true) {
            "-dirty"@
        } else {
            Seq::empty()
        }) + ")"@,
        None => VERSION@,
    }
}

/// The version of the package.
pub fn version() -> (r: &'static str)
    ensures
        r@ == VERSION@,
{
    VERSION
}

/// The version with the commit it was built from, where that is known.
pub fn long_version(b: &BuildRecord) -> (r: String)
    ensures
        r@ == long_version_of(*b),
{
    let mut out = VERSION.to_owned();
    if let Some(sha) = git_sha(b) {
        out.append(" (git ");
        out.append(sha);
        let mut mark = String::new();
        if let Some(true) = git_dirty(b) {
            mark = "-dirty".to_owned();
        }
        out.append(mark.as_str());
        out.append(")");
    }
    out
}

/// The commit the build was made from.
pub fn git_sha<'a>(b: &BuildRecord<'a>) -> (r: Option<&'a str>)
    ensures
        opt_str(r) == told(b.git_sha),
{
    non_empty(b.git_sha)
}

/// Whether the working tree was changed when the build was made.
pub fn git_dirty(b: &BuildRecord) -> (r: Option<bool>)
    ensures
        r == dirty_of(b.git_dirty),
{
    match non_empty(b.git_dirty) {
        Some(s) => if same(s, "true") {
            Some(true)
        } else if same(s, "false") {
            Some(false)
        } else {
            None
        },
        None => None,
    }
}

/// The platform the build was made for.
pub fn build_target<'a>(b: &BuildRecord<'a>) -> (r: Option<&'a str>)
    ensures
        opt_str(r) == told(b.target),
{
    non_empty(b.target)
}

/// The profile the build was made with.
pub fn build_profile<'a>(b: &BuildRecord<'a>) -> (r: Option<&'a str>)
    ensures
        opt_str(r) == told(b.profile),
{
    non_empty(b.profile)
}

/// The document on the build.
pub open spec fn build_doc(b: BuildRecord) -> Doc {
    Doc::Obj(
        seq![
            ("version"@, jstr(VERSION@)),
            ("git_sha"@, jopt_str(told(b.git_sha))),
            (
                "git_dirty"@,
                match dirty_of(b.git_dirty) {
                    Some(d) => Doc::Bool(d),
                    None => Doc::Null,
                },
            ),
            ("target"@, jopt_str(told(b.target))),
            ("profile"@, jopt_str(told(b.profile))),
        ],
    )
}

/// The document on the build.
pub fn json(b: &BuildRecord) -> (r: Json)
    ensures
        r@ == build_doc(*b),
{
    let mut f = Fields::new();
    f.put("version", text(VERSION));
    f.put("git_sha", opt_text(git_sha(b)));
    f.put(
        "git_dirty",
        match git_dirty(b) {
            Some(d) => truth(d),
            None => crate::json::null(),
        },
    );
    f.put("target", opt_text(build_target(b)));
    f.put("profile", opt_text(build_profile(b)));
    proof {
        assert(f@ =~= build_doc(*b)->Obj_0);
    }
    f.object()
}

} // verus!
