//! The state of the working tree, as `git status --short --branch` prints it.
use vstd::prelude::*;
use crate::context::{estimated_tokens, tokens_of};
use crate::json::{
    jbool, jnum, jopt_str, jstr, jtexts, null, opt_string, size, text, text_list, truth, Doc,
    Fields, Json,
};
use crate::numeral::{dec, decimal_size};
use crate::scan::{
    contains, has, lines, lines_of, replace, replaced, split_at_char, split_char, starts,
    starts_with, trim, trim_end, trimmed, trimmed_end,
};
use crate::text::{
    append_lines, ascii_lower, char_count, chars_of, first_n, first_texts, join, join_texts,
    lemma_texts_push, opt_text, prefixed_lines, same, text_between, texts, to_ascii_lower,
};

verus! {

/// How many changes a handoff shows unless told otherwise.
pub const DEFAULT_LOCAL_CHANGE_LINES: usize = 40;

/// How many changes the project context shows.
pub const MAX_GIT_STATUS_LINES: usize = 80;

// ---- Which paths are left out ----------------------------------------------

/// Whether a path lies below a directory for generated output.
pub open spec fn is_generated(path: Seq<char>) -> bool {
    ||| starts(path, "output/"@)
    ||| starts(path, "tmp/"@)
    ||| starts(path, "video/out/"@)
    ||| has(path, "/output/"@)
    ||| has(path, "/tmp/"@)
}

pub fn is_generated_output_path(path: &str) -> (r: bool)
    ensures
        r == is_generated(path@),
{
    starts_with(path, "output/") || starts_with(path, "tmp/") || starts_with(path, "video/out/")
        || contains(path, "/output/") || contains(path, "/tmp/")
}

/// Whether a component names a directory of dependencies, build products or
/// bookkeeping.
pub open spec fn is_skipped_name(name: Seq<char>) -> bool {
    ||| name == ".git"@
    ||| name == ".hg"@
    ||| name == ".svn"@
    ||| name == ".tales"@
    ||| name == ".playwright-cli"@
    ||| name == "target"@
    ||| name == "node_modules"@
    ||| name == ".next"@
    ||| name == "dist"@
    ||| name == "build"@
    ||| name == ".cache"@
    ||| name == ".turbo"@
    ||| name == "coverage"@
    ||| name == ".DS_Store"@
}

fn skipped_name(s: &str) -> (r: bool)
    ensures
        r == is_skipped_name(s@),
{
    same(s, ".git") || same(s, ".hg") || same(s, ".svn") || same(s, ".tales") || same(
        s,
        ".playwright-cli",
    ) || same(s, "target") || same(s, "node_modules") || same(s, ".next") || same(s, "dist")
        || same(s, "build") || same(s, ".cache") || same(s, ".turbo") || same(s, "coverage")
        || same(s, ".DS_Store")
}

/// Whether a path is left out of the project context: it is generated, or one
/// of its components is left out.
pub open spec fn is_skipped(rel: Seq<char>) -> bool {
    ||| is_generated(replaced(rel, "\\"@, "/"@))
    ||| exists|i: int|
        0 <= i < split_at_char(rel, '/').len() && is_skipped_name(
            #[trigger] split_at_char(rel, '/')[i],
        )
}

pub fn should_skip(rel: &str) -> (r: bool)
    ensures
        r == is_skipped(rel@),
{
    proof {
        reveal_strlit("\\");
    }
    if is_generated_output_path(replace(rel, "\\", "/").as_str()) {
        return true;
    }
    let parts = split_char(rel, '/');
    let ghost p = split_at_char(rel@, '/');
    let mut i: usize = 0;
    while i < parts.len()
        invariant
            i <= parts.len(),
            p == split_at_char(rel@, '/'),
            texts(parts@) == p,
            forall|k: int| 0 <= k < i ==> !is_skipped_name(#[trigger] p[k]),
        decreases parts.len() - i,
    {
        proof {
            assert(p[i as int] == parts@[i as int]@);
        }
        if skipped_name(parts[i].as_str()) {
            return true;
        }
        i = i + 1;
    }
    false
}

/// What stands behind the last dot of a path; all of it where there is no dot.
pub open spec fn ending(rel: Seq<char>) -> Seq<char> {
    split_at_char(rel, '.').last()
}

pub fn ending_of(rel: &str) -> (r: String)
    ensures
        r@ == ending(rel@),
{
    let parts = split_char(rel, '.');
    proof {
        crate::scan::lemma_split_nonempty(rel@, '.');
        assert(texts(parts@).last() == parts@.last()@);
    }
    parts[parts.len() - 1].clone()
}

/// Whether a path ends as pictures, films, documents and archives do.
pub open spec fn is_media(rel: Seq<char>) -> bool {
    let e = ascii_lower(ending(rel));
    ||| e == "png"@
    ||| e == "jpg"@
    ||| e == "jpeg"@
    ||| e == "gif"@
    ||| e == "webp"@
    ||| e == "mp4"@
    ||| e == "mov"@
    ||| e == "webm"@
    ||| e == "pdf"@
    ||| e == "zip"@
    ||| e == "gz"@
    ||| e == "tar"@
    ||| e == "wasm"@
}

pub fn is_binary_or_media(rel: &str) -> (r: bool)
    ensures
        r == is_media(rel@),
{
    let lower = to_ascii_lower(ending_of(rel).as_str());
    let e = lower.as_str();
    same(e, "png") || same(e, "jpg") || same(e, "jpeg") || same(e, "gif") || same(e, "webp")
        || same(e, "mp4") || same(e, "mov") || same(e, "webm") || same(e, "pdf") || same(e, "zip")
        || same(e, "gz") || same(e, "tar") || same(e, "wasm")
}

// ---- Status lines ----------------------------------------------------------

/// How many bytes UTF-8 takes for a character.
pub open spec fn utf8_len(c: char) -> nat {
    let n = c as u32;
    if n < 0x80 {
        1
    } else if n < 0x800 {
        2
    } else if n < 0x10000 {
        3
    } else {
        4
    }
}

/// What stands behind the first `n` bytes of a text, if a character starts
/// there or the text ends there.
pub open spec fn behind_bytes(s: Seq<char>, n: nat) -> Option<Seq<char>>
    decreases s.len(),
{
    if n == 0 {
        Some(s)
    } else if s.len() == 0 || utf8_len(s[0]) > n {
        None
    } else {
        behind_bytes(s.skip(1), (n - utf8_len(s[0])) as nat)
    }
}

fn char_bytes(c: char) -> (r: usize)
    ensures
        r == utf8_len(c),
{
    let n: u32 = c as u32;
    if n < 0x80 {
        1
    } else if n < 0x800 {
        2
    } else if n < 0x10000 {
        3
    } else {
        4
    }
}

fn skip_bytes(s: &str, n: usize) -> (r: Option<String>)
    ensures
        match r {
            Some(t) => behind_bytes(s@, n as nat) == Some(t@),
            None => behind_bytes(s@, n as nat).is_none(),
        },
{
    let c = chars_of(s);
    let mut i: usize = 0;
    let mut left: usize = n;
    proof {
        assert(s@.skip(0) =~= s@);
    }
    while left > 0
        invariant
            i <= c.len(),
            c@ == s@,
            behind_bytes(s@, n as nat) == behind_bytes(s@.skip(i as int), left as nat),
        decreases left,
    {
        if i == c.len() {
            return None;
        }
        proof {
            assert(s@.skip(i as int)[0] == c@[i as int]);
            assert(s@.skip(i as int).skip(1) =~= s@.skip(i + 1));
        }
        let w: usize = char_bytes(c[i]);
        if w > left {
            return None;
        }
        left = left - w;
        i = i + 1;
    }
    proof {
        assert(s@.skip(i as int) =~= s@.subrange(i as int, s@.len() as int));
    }
    Some(text_between(&c, i, c.len()))
}

/// The pieces of a text between the occurrences of `sep`, which is not empty.
pub open spec fn split_at_text(s: Seq<char>, sep: Seq<char>) -> Seq<Seq<char>>
    decreases s.len(),
    via split_at_text_decreases
{
    if sep.len() == 0 {
        seq![s]
    } else {
        match crate::scan::find_from(s, sep, 0) {
            None => seq![s],
            Some(k) => seq![s.take(k)] + split_at_text(s.skip(k + sep.len()), sep),
        }
    }
}

#[via_fn]
proof fn split_at_text_decreases(s: Seq<char>, sep: Seq<char>) {
    crate::scan::lemma_find_from(s, sep, 0);
}

fn split_text(s: &str, sep: &str) -> (r: Vec<String>)
    requires
        sep@.len() > 0,
    ensures
        texts(r@) == split_at_text(s@, sep@),
{
    let mut rest = chars_of(s);
    let pc = chars_of(sep);
    let mut out: Vec<String> = Vec::new();
    proof {
        assert(texts(out@) + split_at_text(s@, sep@) =~= split_at_text(s@, sep@));
    }
    loop
        invariant
            pc@ == sep@,
            sep@.len() > 0,
            texts(out@) + split_at_text(rest@, sep@) == split_at_text(s@, sep@),
        decreases rest@.len(),
    {
        proof {
            crate::scan::lemma_find_from(rest@, sep@, 0);
        }
        match crate::scan::find_chars(&rest, &pc, 0) {
            None => {
                let last = text_between(&rest, 0, rest.len());
                proof {
                    assert(last@ =~= rest@);
                    lemma_texts_push(out@, last);
                    assert(texts(out@) + seq![last@] =~= texts(out@).push(last@));
                }
                out.push(last);
                return out;
            },
            Some(k) => {
                proof {
                    assert(crate::scan::occurs_at(rest@, sep@, k as int));
                }
                let end: usize = rest.len();
                let piece = text_between(&rest, 0, k);
                let tail = text_between(&rest, k + pc.len(), end);
                proof {
                    assert(piece@ =~= rest@.take(k as int));
                    assert(tail@ =~= rest@.skip(k + sep@.len()));
                    lemma_texts_push(out@, piece);
                    let more = split_at_text(tail@, sep@);
                    assert(texts(out@) + (seq![piece@] + more) =~= texts(out@).push(piece@)
                        + more);
                }
                out.push(piece);
                rest = chars_of(tail.as_str());
            },
        }
    }
}

/// A text without the quotation marks around it.
pub open spec fn without_quotes(s: Seq<char>) -> Seq<char>
    decreases s.len(),
{
    if s.len() > 0 && s[0] == '"' {
        without_quotes(s.skip(1))
    } else if s.len() > 0 && s.last() == '"' {
        without_quotes(s.drop_last())
    } else {
        s
    }
}

fn strip_quotes(s: &str) -> (r: String)
    ensures
        r@ == without_quotes(s@),
{
    let c = chars_of(s);
    let mut a: usize = 0;
    let mut b: usize = c.len();
    proof {
        assert(s@.subrange(0, s@.len() as int) =~= s@);
    }
    while a < b && (c[a] == '"' || c[b - 1] == '"')
        invariant
            a <= b <= c.len(),
            c@ == s@,
            without_quotes(s@) == without_quotes(s@.subrange(a as int, b as int)),
        decreases b - a,
    {
        let ghost mid = s@.subrange(a as int, b as int);
        proof {
            assert(mid[0] == c@[a as int]);
            assert(mid.last() == c@[b - 1]);
            assert(mid.skip(1) =~= s@.subrange(a + 1, b as int));
            assert(mid.drop_last() =~= s@.subrange(a as int, b - 1));
        }
        if c[a] == '"' {
            a = a + 1;
        } else {
            b = b - 1;
        }
    }
    proof {
        let mid = s@.subrange(a as int, b as int);
        if a < b {
            assert(mid[0] == c@[a as int]);
            assert(mid.last() == c@[b - 1]);
        }
    }
    text_between(&c, a, b)
}

/// The part of a status line that names paths.
pub open spec fn path_part(line: Seq<char>) -> Seq<char> {
    trim(
        match behind_bytes(line, 3) {
            Some(rest) => rest,
            None => line,
        },
    )
}

/// The paths a status line names: one, or two around an arrow.
pub open spec fn line_paths(line: Seq<char>) -> Seq<Seq<char>> {
    let p = split_at_text(path_part(line), " -> "@);
    Seq::new(p.len(), |i: int| without_quotes(trim(p[i])))
}

/// Whether the path of a status line is left out; media only where `media` is
/// set.
pub open spec fn is_skipped_path(path: Seq<char>, media: bool) -> bool {
    ||| path.len() == 0
    ||| is_skipped(path)
    ||| (media && is_media(path))
    ||| is_generated(path)
}

/// Whether a status line is left out: it names paths, and all of them are left
/// out.
pub open spec fn is_skipped_line(line: Seq<char>, media: bool) -> bool {
    path_part(line).len() > 0 && forall|i: int|
        0 <= i < line_paths(line).len() ==> is_skipped_path(#[trigger] line_paths(line)[i], media)
}

/// Whether the project context leaves a path of a status line out.
pub fn git_status_path_should_skip(path: &str) -> (r: bool)
    ensures
        r == (is_skipped(path@) || is_media(path@) || is_generated(path@)),
{
    should_skip(path) || is_binary_or_media(path) || is_generated_output_path(path)
}

fn line_should_skip(line: &str, media: bool) -> (r: bool)
    ensures
        r == is_skipped_line(line@, media),
{
    let part = match skip_bytes(line, 3) {
        Some(rest) => trimmed(rest.as_str()),
        None => trimmed(line),
    };
    if part.as_str().is_empty() {
        return false;
    }
    proof {
        reveal_strlit(" -> ");
    }
    let paths = split_text(part.as_str(), " -> ");
    let ghost all = line_paths(line@);
    let mut i: usize = 0;
    while i < paths.len()
        invariant
            i <= paths.len(),
            part@ == path_part(line@),
            part@.len() > 0,
            all == line_paths(line@),
            texts(paths@) == split_at_text(path_part(line@), " -> "@),
            forall|k: int| 0 <= k < i ==> is_skipped_path(#[trigger] all[k], media),
        decreases paths.len() - i,
    {
        let path = strip_quotes(trimmed(paths[i].as_str()).as_str());
        proof {
            assert(texts(paths@)[i as int] == paths@[i as int]@);
            assert(all[i as int] == path@);
        }
        let p = path.as_str();
        let skip = p.is_empty() || should_skip(p) || (media && is_binary_or_media(p))
            || is_generated_output_path(p);
        if !skip {
            return false;
        }
        i = i + 1;
    }
    true
}

/// Whether the project context leaves a status line out.
pub fn git_status_line_should_skip(line: &str) -> (r: bool)
    ensures
        r == is_skipped_line(line@, true),
{
    line_should_skip(line, true)
}

/// Whether a handoff leaves a status line out.
pub fn local_change_line_should_skip(line: &str) -> (r: bool)
    ensures
        r == is_skipped_line(line@, false),
{
    line_should_skip(line, false)
}

/// The lines of a status report that hold something, without the white space
/// they end with.
pub open spec fn status_entries(stdout: Seq<char>) -> Seq<Seq<char>> {
    let l = lines_of(stdout);
    Seq::new(l.len(), |i: int| trim_end(l[i])).filter(|s: Seq<char>| s.len() > 0)
}

/// The branch that the last heading line among the entries names.
pub open spec fn status_branch(entries: Seq<Seq<char>>) -> Option<Seq<char>>
    decreases entries.len(),
{
    if entries.len() == 0 {
        None
    } else if starts(entries.last(), "## "@) {
        Some(trim(entries.last().skip(3)))
    } else {
        status_branch(entries.drop_last())
    }
}

/// The changes among the entries that are not left out.
pub open spec fn status_changes(entries: Seq<Seq<char>>, media: bool) -> Seq<Seq<char>> {
    entries.filter(|s: Seq<char>| !starts(s, "## "@) && !is_skipped_line(s, media))
}

/// How many changes among the entries are left out.
pub open spec fn status_omitted(entries: Seq<Seq<char>>, media: bool) -> nat {
    entries.filter(|s: Seq<char>| !starts(s, "## "@) && is_skipped_line(s, media)).len()
}

/// What a status report says.
pub struct Status {
    pub branch: Option<String>,
    pub changes: Vec<String>,
    pub truncated: bool,
    pub omitted: usize,
}

fn entries_of(stdout: &str) -> (r: Vec<String>)
    ensures
        texts(r@) == status_entries(stdout@),
{
    let all = lines(stdout);
    let ghost l = lines_of(stdout@);
    let ghost cut = Seq::new(l.len(), |i: int| trim_end(l[i]));
    let ghost keep = |s: Seq<char>| s.len() > 0;
    let mut out: Vec<String> = Vec::new();
    let mut i: usize = 0;
    proof {
        assert(cut.take(0).filter(keep) =~= Seq::empty());
        assert(texts(out@) =~= Seq::empty());
    }
    while i < all.len()
        invariant
            i <= all.len(),
            texts(all@) == l,
            cut == Seq::new(l.len(), |i: int| trim_end(l[i])),
            keep == (|s: Seq<char>| s.len() > 0),
            texts(out@) == cut.take(i as int).filter(keep),
        decreases all.len() - i,
    {
        let line = trimmed_end(all[i].as_str());
        proof {
            assert(l[i as int] == all@[i as int]@);
            assert(cut.take(i + 1) =~= cut.take(i as int).push(line@));
            cut.take(i as int).lemma_filter_push(line@, keep);
            lemma_texts_push(out@, line);
        }
        if !line.as_str().is_empty() {
            out.push(line);
        }
        i = i + 1;
    }
    proof {
        assert(cut.take(i as int) =~= cut);
    }
    out
}

/// Reads a status report, showing at most `max` changes.
fn read_status(stdout: &str, media: bool, max: usize) -> (r: Status)
    ensures
        ({
            let entries = status_entries(stdout@);
            let changes = status_changes(entries, media);
            &&& opt_text(r.branch) == status_branch(entries)
            &&& texts(r.changes@) == first_n(changes, max as nat)
            &&& r.truncated == (changes.len() > max)
            &&& r.omitted == status_omitted(entries, media)
        }),
{
    let entries = entries_of(stdout);
    let ghost e = status_entries(stdout@);
    let ghost shown = |s: Seq<char>| !starts(s, "## "@) && !is_skipped_line(s, media);
    let ghost hidden = |s: Seq<char>| !starts(s, "## "@) && is_skipped_line(s, media);
    let mut branch: Option<String> = None;
    let mut changes: Vec<String> = Vec::new();
    let mut truncated = false;
    let mut omitted: usize = 0;
    let mut i: usize = 0;
    proof {
        reveal_strlit("## ");
        assert(e.take(0).filter(shown) =~= Seq::empty());
        assert(e.take(0).filter(hidden) =~= Seq::empty());
        assert(texts(changes@) =~= first_n(Seq::<Seq<char>>::empty(), max as nat));
    }
    while i < entries.len()
        invariant
            i <= entries.len(),
            texts(entries@) == e,
            "## "@.len() == 3,
            shown == (|s: Seq<char>| !starts(s, "## "@) && !is_skipped_line(s, media)),
            hidden == (|s: Seq<char>| !starts(s, "## "@) && is_skipped_line(s, media)),
            opt_text(branch) == status_branch(e.take(i as int)),
            texts(changes@) == first_n(e.take(i as int).filter(shown), max as nat),
            truncated == (e.take(i as int).filter(shown).len() > max),
            omitted == e.take(i as int).filter(hidden).len(),
            omitted <= i,
        decreases entries.len() - i,
    {
        let raw = entries[i].as_str();
        let ghost done = e.take(i as int);
        let ghost before = done.filter(shown);
        proof {
            assert(e[i as int] == entries@[i as int]@);
            assert(e.take(i + 1) =~= done.push(raw@));
            done.lemma_filter_push(raw@, shown);
            done.lemma_filter_push(raw@, hidden);
            assert(done.push(raw@).drop_last() =~= done);
        }
        if starts_with(raw, "## ") {
            let c = chars_of(raw);
            let name = trimmed(text_between(&c, 3, c.len()).as_str());
            proof {
                assert(raw@.skip(3) =~= raw@.subrange(3, raw@.len() as int));
            }
            branch = Some(name);
        } else if line_should_skip(raw, media) {
            omitted = omitted + 1;
        } else if changes.len() >= max {
            truncated = true;
            proof {
                assert(texts(changes@).len() == changes@.len());
                if before.len() > max {
                    assert(before.push(raw@).take(max as int) =~= before.take(max as int));
                } else {
                    assert(before.push(raw@).take(max as int) =~= before);
                }
            }
        } else {
            proof {
                assert(texts(changes@).len() == changes@.len());
                lemma_texts_push(changes@, entries@[i as int]);
            }
            changes.push(entries[i].clone());
        }
        i = i + 1;
    }
    proof {
        assert(e.take(i as int) =~= e);
    }
    Status { branch, changes, truncated, omitted }
}

/// Whether a branch, changes and counts are what a status tells: the changes
/// that are not left out, the first of them, and how many were.
pub open spec fn is_status(
    entries: Seq<Seq<char>>,
    media: bool,
    max: nat,
    branch: Option<Seq<char>>,
    changes: Seq<Seq<char>>,
    truncated: bool,
    omitted: nat,
) -> bool {
    let all = status_changes(entries, media);
    &&& branch == status_branch(entries)
    &&& changes == first_n(all, max)
    &&& truncated == (all.len() > max)
    &&& omitted == status_omitted(entries, media)
}

/// What the project context shows of a status report.
pub fn git_status(stdout: &str) -> (r: Status)
    ensures
        is_status(
            status_entries(stdout@),
            true,
            MAX_GIT_STATUS_LINES as nat,
            opt_text(r.branch),
            texts(r.changes@),
            r.truncated,
            r.omitted as nat,
        ),
        ({
            let entries = status_entries(stdout@);
            let changes = status_changes(entries, true);
            &&& opt_text(r.branch) == status_branch(entries)
            &&& texts(r.changes@) == first_n(changes, MAX_GIT_STATUS_LINES as nat)
            &&& r.truncated == (changes.len() > MAX_GIT_STATUS_LINES)
            &&& r.omitted == status_omitted(entries, true)
        }),
{
    read_status(stdout, true, MAX_GIT_STATUS_LINES)
}

/// What is changed locally, for a handoff.
#[derive(Debug)]
pub struct LocalChangeSummary {
    pub branch: Option<String>,
    pub changes: Vec<String>,
    pub truncated: bool,
    pub omitted: usize,
}

/// Reads what is changed locally from a status report. At least one change is
/// shown, at most `max_lines`.
pub fn local_change_summary(stdout: &str, max_lines: usize) -> (r: LocalChangeSummary)
    ensures
        is_status(
            status_entries(stdout@),
            false,
            if max_lines == 0 {
                1
            } else {
                max_lines as nat
            },
            opt_text(r.branch),
            texts(r.changes@),
            r.truncated,
            r.omitted as nat,
        ),
        ({
            let max = if max_lines == 0 {
                1nat
            } else {
                max_lines as nat
            };
            let entries = status_entries(stdout@);
            let changes = status_changes(entries, false);
            &&& opt_text(r.branch) == status_branch(entries)
            &&& texts(r.changes@) == first_n(changes, max)
            &&& r.truncated == (changes.len() > max)
            &&& r.omitted == status_omitted(entries, false)
        }),
{
    let max: usize = if max_lines == 0 {
        1
    } else {
        max_lines
    };
    let s = read_status(stdout, false, max);
    LocalChangeSummary {
        branch: s.branch,
        changes: s.changes,
        truncated: s.truncated,
        omitted: s.omitted,
    }
}

// ---- Telling the changes ---------------------------------------------------

/// Whether nothing is changed.
pub open spec fn clean(c: LocalChangeSummary) -> bool {
    c.changes@.len() == 0 && c.omitted == 0 && !c.truncated
}

/// The parts of the line that sums the changes up.
pub open spec fn summary_parts(c: LocalChangeSummary) -> Seq<Seq<char>> {
    let branch = match c.branch {
        Some(b) => seq!["branch "@ + b@],
        None => Seq::empty(),
    };
    let n = dec(c.changes@.len());
    let count = if c.changes@.len() == 0 {
        "clean"@
    } else if c.truncated {
        "at least "@ + n + " visible change(s)"@
    } else {
        n + " visible change(s)"@
    };
    let omitted = if c.omitted > 0 {
        seq![dec(c.omitted as nat) + " generated/dependency entry(ies) omitted"@]
    } else {
        Seq::empty()
    };
    branch.push(count) + omitted
}

/// The line that sums the changes up.
pub open spec fn summary_line_of(c: LocalChangeSummary) -> Seq<char> {
    join(summary_parts(c), "; "@)
}

/// What a status section says of the branch.
pub open spec fn branch_line(branch: Option<Seq<char>>) -> Seq<char> {
    match branch {
        Some(b) => "- branch: "@ + b + "\n"@,
        None => Seq::empty(),
    }
}

/// What a status section says of the changes; `cut` is the line that follows
/// them where some are not shown.
pub open spec fn change_lines(changes: Seq<Seq<char>>, truncated: bool, cut: Seq<char>) -> Seq<char> {
    if changes.len() == 0 {
        "- changes: clean\n"@
    } else {
        "- changes:\n"@ + prefixed_lines(changes, "  - "@) + (if truncated {
            cut
        } else {
            Seq::empty()
        })
    }
}

pub open spec fn handoff_cut(shown: nat) -> Seq<char> {
    "  - ... (status truncated after "@ + dec(shown) + " visible entries)\n"@
}

/// The section of a handoff that tells the changes.
pub open spec fn handoff_text(c: LocalChangeSummary) -> Seq<char> {
    "Local changes before execution (git status --short)\n"@ + branch_line(opt_text(c.branch))
        + change_lines(texts(c.changes@), c.truncated, handoff_cut(c.changes@.len())) + (
    if c.omitted > 0 {
        "- omitted_generated_or_dependency_entries: "@ + dec(c.omitted as nat) + "\n"@
    } else {
        Seq::empty()
    })
        + "- guidance: preserve unrelated existing changes; inspect touched files before editing.\n"@
}

/// Writes what a status section says of the branch and the changes.
pub fn append_changes(
    out: &mut String,
    branch: &Option<String>,
    changes: &Vec<String>,
    truncated: bool,
    cut: &str,
)
    ensures
        final(out)@ == old(out)@ + branch_line(opt_text(*branch)) + change_lines(
            texts(changes@),
            truncated,
            cut@,
        ),
{
    let ghost before = out@;
    if let Some(b) = branch {
        out.append("- branch: ");
        out.append(b.as_str());
        out.append("\n");
    }
    proof {
        assert(out@ =~= before + branch_line(opt_text(*branch)));
        assert(texts(changes@).len() == changes@.len());
    }
    let ghost mid = out@;
    if changes.is_empty() {
        out.append("- changes: clean\n");
    } else {
        out.append("- changes:\n");
        append_lines(out, changes, "  - ");
        if truncated {
            out.append(cut);
        }
        proof {
            assert(out@ =~= mid + change_lines(texts(changes@), truncated, cut@));
        }
    }
}

impl LocalChangeSummary {
    /// Whether nothing is changed.
    pub fn is_clean(&self) -> (r: bool)
        ensures
            r == clean(*self),
    {
        self.changes.is_empty() && self.omitted == 0 && !self.truncated
    }

    /// The line that sums the changes up.
    pub fn summary_line(&self) -> (r: String)
        ensures
            r@ == summary_line_of(*self),
    {
        let mut parts: Vec<String> = Vec::new();
        if let Some(branch) = &self.branch {
            let mut s = "branch ".to_owned();
            s.append(branch.as_str());
            parts.push(s);
        }
        let mut count = String::new();
        if self.changes.is_empty() {
            count.append("clean");
        } else {
            if self.truncated {
                count.append("at least ");
            }
            count.append(decimal_size(self.changes.len()).as_str());
            count.append(" visible change(s)");
        }
        parts.push(count);
        if self.omitted > 0 {
            let mut s = decimal_size(self.omitted);
            s.append(" generated/dependency entry(ies) omitted");
            parts.push(s);
        }
        proof {
            assert(texts(parts@) =~~= summary_parts(*self));
        }
        join_texts(&parts, "; ")
    }

    /// The section of a handoff that tells the changes.
    pub fn to_handoff_text(&self) -> (r: String)
        ensures
            r@ == handoff_text(*self),
    {
        let mut cut = "  - ... (status truncated after ".to_owned();
        cut.append(decimal_size(self.changes.len()).as_str());
        cut.append(" visible entries)\n");
        let mut out = "Local changes before execution (git status --short)\n".to_owned();
        append_changes(&mut out, &self.branch, &self.changes, self.truncated, cut.as_str());
        let ghost mid = out@;
        if self.omitted > 0 {
            out.append("- omitted_generated_or_dependency_entries: ");
            out.append(decimal_size(self.omitted).as_str());
            out.append("\n");
        }
        proof {
            assert(out@ =~= mid + (if self.omitted > 0 {
                "- omitted_generated_or_dependency_entries: "@ + dec(self.omitted as nat) + "\n"@
            } else {
                Seq::empty()
            }));
        }
        out.append(
            "- guidance: preserve unrelated existing changes; inspect touched files before editing.\n",
        );
        out
    }
}

/// The status document on the local changes.
pub open spec fn changes_doc(changes: Option<LocalChangeSummary>) -> Doc {
    match changes {
        Some(c) => {
            let chars = handoff_text(c).len();
            Doc::Obj(
                seq![
                    ("available"@, jbool(true)),
                    ("summary"@, jstr(summary_line_of(c))),
                    ("branch"@, jopt_str(opt_text(c.branch))),
                    ("clean"@, jbool(clean(c))),
                    ("visible_count"@, jnum(c.changes@.len() as int)),
                    ("visible_changes"@, jnum(c.changes@.len() as int)),
                    ("changes"@, jtexts(texts(c.changes@))),
                    ("preview"@, jtexts(texts(first_n(c.changes@, 8)))),
                    ("truncated"@, jbool(c.truncated)),
                    ("omitted"@, jnum(c.omitted as int)),
                    ("omitted_generated_or_dependency_entries"@, jnum(c.omitted as int)),
                    ("handoff_chars"@, jnum(chars as int)),
                    ("handoff_tokens_estimate"@, jnum(tokens_of(chars) as int)),
                ],
            )
        },
        None => Doc::Obj(
            seq![
                ("available"@, jbool(false)),
                ("summary"@, jstr("unavailable"@)),
                ("reason"@, jstr("not a git repository or git unavailable"@)),
                ("handoff_chars"@, Doc::Null),
                ("handoff_tokens_estimate"@, Doc::Null),
            ],
        ),
    }
}

/// The changes that an optional reference leads to.
pub open spec fn opt_changes(c: Option<&LocalChangeSummary>) -> Option<LocalChangeSummary> {
    match c {
        Some(c) => Some(*c),
        None => None,
    }
}

/// The status document on the local changes.
pub fn local_change_summary_status_json(changes: Option<&LocalChangeSummary>) -> (r: Json)
    ensures
        r@ == changes_doc(opt_changes(changes)),
{
    let mut f = Fields::new();
    match changes {
        Some(c) => {
            let chars: usize = char_count(c.to_handoff_text().as_str());
            f.put("available", truth(true));
            f.put("summary", text(c.summary_line().as_str()));
            f.put("branch", opt_string(&c.branch));
            f.put("clean", truth(c.is_clean()));
            f.put("visible_count", size(c.changes.len()));
            f.put("visible_changes", size(c.changes.len()));
            f.put("changes", text_list(&c.changes));
            f.put("preview", text_list(&first_texts(&c.changes, 8)));
            f.put("truncated", truth(c.truncated));
            f.put("omitted", size(c.omitted));
            f.put("omitted_generated_or_dependency_entries", size(c.omitted));
            f.put("handoff_chars", size(chars));
            f.put("handoff_tokens_estimate", size(estimated_tokens(chars)));
            proof {
                assert(f@ =~= changes_doc(opt_changes(changes))->Obj_0);
            }
            f.object()
        },
        None => {
            f.put("available", truth(false));
            f.put("summary", text("unavailable"));
            f.put("reason", text("not a git repository or git unavailable"));
            f.put("handoff_chars", null());
            f.put("handoff_tokens_estimate", null());
            proof {
                assert(f@ =~= changes_doc(opt_changes(changes))->Obj_0);
            }
            f.object()
        },
    }
}

} // verus!
