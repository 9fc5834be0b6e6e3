//! The cached map of a project that planners are oriented with.
//!
//! Walking the directory tree, running git and reading and writing the cache
//! file happen outside; what is made of their results happens here.
use vstd::prelude::*;
use crate::arith::{capped_size, ceil_div, larger, max_size, quotient_up, saturating_product};
use crate::changes::{
    append_changes, branch_line, change_lines, ending, ending_of, is_binary_or_media, is_media,
    Status, MAX_GIT_STATUS_LINES,
};
use crate::context::{estimated_tokens, tokens_of};
use crate::json::{jbool, jnum, jstr, null, size, text, truth, Doc, Fields, Json};
use crate::numeral::{dec, decimal, decimal_size, hex, hexadecimal};
use crate::order::{le, text_le};
use crate::path::joined;
use crate::scan::{
    char_from, ends, ends_with, find_chars, find_from, lines, lines_of, occurs_at, split_at_char,
    starts, starts_with, trim, trimmed,
};
use crate::text::{
    append_lines, char_count, chars_of, first_n, flat, lemma_flat_push, lemma_texts_push, opt_str,
    opt_text, prefixed_lines, same, text_between, texts,
};

verus! {

/// The first line of a cache file.
pub const CACHE_VERSION: &'static str = "project-context-v7";

/// How many files the file map holds unless told otherwise.
pub const DEFAULT_MAX_FILES: usize = 220;

/// How many characters of a manifest are excerpted unless told otherwise.
pub const DEFAULT_MAX_MANIFEST_CHARS: usize = 1_200;

/// How the project context is to be built.
#[derive(Debug)]
pub struct ProjectContextOptions {
    pub max_files: usize,
    pub max_manifest_chars: usize,
    pub refresh: bool,
    pub cache_dir: Option<String>,
}

impl Default for ProjectContextOptions {
    fn default() -> (r: Self)
        ensures
            r.max_files == 220,
            r.max_manifest_chars == 1_200,
            !r.refresh,
            r.cache_dir.is_none(),
    {
        ProjectContextOptions {
            max_files: DEFAULT_MAX_FILES,
            max_manifest_chars: DEFAULT_MAX_MANIFEST_CHARS,
            refresh: false,
            cache_dir: None,
        }
    }
}

/// A project context and where it came from.
#[derive(Debug)]
pub struct ProjectContext {
    pub text: String,
    pub cache_hit: bool,
    pub cache_path: String,
}

/// A file of the project.
#[derive(Debug)]
pub struct FileInfo {
    pub rel: String,
    pub len: u64,
    pub modified_nanos: u128,
    pub manifest_excerpt_hash: Option<u64>,
}

impl Clone for FileInfo {
    fn clone(&self) -> (r: Self)
        ensures
            r == *self,
    {
        FileInfo {
            rel: self.rel.clone(),
            len: self.len,
            modified_nanos: self.modified_nanos,
            manifest_excerpt_hash: self.manifest_excerpt_hash,
        }
    }
}

/// The files that the project context tells of.
#[derive(Debug)]
pub struct CollectedFiles {
    pub files: Vec<FileInfo>,
    pub manifest_files: Vec<FileInfo>,
    pub truncated: bool,
}

// ---- What kind of file a path names ----------------------------------------

/// Whether a path names a manifest.
pub open spec fn manifest(rel: Seq<char>) -> bool {
    ||| rel == "README.md"@
    ||| rel == "Cargo.toml"@
    ||| rel == "package.json"@
    ||| ends(rel, "/Cargo.toml"@)
    ||| ends(rel, "/package.json"@)
    ||| ends(rel, "/pyproject.toml"@)
    ||| ends(rel, "/go.mod"@)
    ||| ends(rel, "/deno.json"@)
}

pub fn is_manifest(rel: &str) -> (r: bool)
    ensures
        r == manifest(rel@),
{
    same(rel, "README.md") || same(rel, "Cargo.toml") || same(rel, "package.json") || ends_with(
        rel,
        "/Cargo.toml",
    ) || ends_with(rel, "/package.json") || ends_with(rel, "/pyproject.toml") || ends_with(
        rel,
        "/go.mod",
    ) || ends_with(rel, "/deno.json")
}

/// Whether a path names the file at which a program or library starts.
pub open spec fn source_entry(rel: Seq<char>) -> bool {
    ||| ends(rel, "/src/main.rs"@)
    ||| ends(rel, "/src/lib.rs"@)
    ||| ends(rel, "/src/main.ts"@)
    ||| ends(rel, "/src/index.ts"@)
    ||| ends(rel, "/src/main.tsx"@)
    ||| ends(rel, "/src/index.tsx"@)
    ||| ends(rel, "/main.py"@)
    ||| ends(rel, "/app.py"@)
    ||| rel == "src/main.rs"@
    ||| rel == "src/lib.rs"@
    ||| rel == "main.py"@
    ||| rel == "app.py"@
}

pub fn is_source_entry(rel: &str) -> (r: bool)
    ensures
        r == source_entry(rel@),
{
    ends_with(rel, "/src/main.rs") || ends_with(rel, "/src/lib.rs") || ends_with(
        rel,
        "/src/main.ts",
    ) || ends_with(rel, "/src/index.ts") || ends_with(rel, "/src/main.tsx") || ends_with(
        rel,
        "/src/index.tsx",
    ) || ends_with(rel, "/main.py") || ends_with(rel, "/app.py") || same(rel, "src/main.rs")
        || same(rel, "src/lib.rs") || same(rel, "main.py") || same(rel, "app.py")
}

/// Whether a path ends as source files do.
pub open spec fn source_file(rel: Seq<char>) -> bool {
    let e = ending(rel);
    ||| e == "rs"@
    ||| e == "ts"@
    ||| e == "tsx"@
    ||| e == "js"@
    ||| e == "jsx"@
    ||| e == "py"@
    ||| e == "go"@
    ||| e == "swift"@
    ||| e == "kt"@
    ||| e == "java"@
    ||| e == "c"@
    ||| e == "cc"@
    ||| e == "cpp"@
    ||| e == "h"@
    ||| e == "hpp"@
    ||| e == "toml"@
    ||| e == "json"@
    ||| e == "yaml"@
    ||| e == "yml"@
    ||| e == "html"@
    ||| e == "css"@
}

pub fn is_source_file(rel: &str) -> (r: bool)
    ensures
        r == source_file(rel@),
{
    let end = ending_of(rel);
    let e = end.as_str();
    same(e, "rs") || same(e, "ts") || same(e, "tsx") || same(e, "js") || same(e, "jsx") || same(
        e,
        "py",
    ) || same(e, "go") || same(e, "swift") || same(e, "kt") || same(e, "java") || same(e, "c")
        || same(e, "cc") || same(e, "cpp") || same(e, "h") || same(e, "hpp") || same(e, "toml")
        || same(e, "json") || same(e, "yaml") || same(e, "yml") || same(e, "html") || same(e, "css")
}

/// Whether a path names documentation or configuration.
pub open spec fn doc_or_config(rel: Seq<char>) -> bool {
    ||| rel == "README.md"@
    ||| rel == "LICENSE"@
    ||| rel == ".gitignore"@
    ||| ends(rel, ".md"@)
    ||| ends(rel, ".toml"@)
    ||| ends(rel, ".json"@)
    ||| ends(rel, ".yaml"@)
    ||| ends(rel, ".yml"@)
}

pub fn is_doc_or_config(rel: &str) -> (r: bool)
    ensures
        r == doc_or_config(rel@),
{
    same(rel, "README.md") || same(rel, "LICENSE") || same(rel, ".gitignore") || ends_with(
        rel,
        ".md",
    ) || ends_with(rel, ".toml") || ends_with(rel, ".json") || ends_with(rel, ".yaml") || ends_with(
        rel,
        ".yml",
    )
}

/// Whether a path is hidden or belongs to a harness.
pub open spec fn hidden(rel: Seq<char>) -> bool {
    starts(rel, "."@) || starts(rel, "codex/"@) || starts(rel, ".anthropic/"@)
}

pub fn is_hidden_or_harness_file(rel: &str) -> (r: bool)
    ensures
        r == hidden(rel@),
{
    starts_with(rel, ".") || starts_with(rel, "codex/") || starts_with(rel, ".anthropic/")
}

/// How late a file comes when not all find room: manifests first, then where
/// programs start, other sources, documentation, the rest, what is hidden, and
/// media last.
pub open spec fn rank(rel: Seq<char>) -> u8 {
    if manifest(rel) {
        0
    } else if hidden(rel) {
        5
    } else if source_entry(rel) {
        1
    } else if source_file(rel) {
        2
    } else if doc_or_config(rel) {
        3
    } else if is_media(rel) {
        6
    } else {
        4
    }
}

pub fn context_rank(rel: &str) -> (r: u8)
    ensures
        r == rank(rel@),
{
    if is_manifest(rel) {
        0
    } else if is_hidden_or_harness_file(rel) {
        5
    } else if is_source_entry(rel) {
        1
    } else if is_source_file(rel) {
        2
    } else if is_doc_or_config(rel) {
        3
    } else if is_binary_or_media(rel) {
        6
    } else {
        4
    }
}

// ---- Choosing the files ----------------------------------------------------

/// Whether `a` may stand before `b`: by path, or by rank and then by path.
pub open spec fn file_le(a: FileInfo, b: FileInfo, by_rank: bool) -> bool {
    if by_rank && rank(a.rel@) != rank(b.rel@) {
        rank(a.rel@) < rank(b.rel@)
    } else {
        text_le(a.rel@, b.rel@)
    }
}

fn may_precede(a: &FileInfo, b: &FileInfo, by_rank: bool) -> (r: bool)
    ensures
        r == file_le(*a, *b, by_rank),
{
    if by_rank {
        let x: u8 = context_rank(a.rel.as_str());
        let y: u8 = context_rank(b.rel.as_str());
        if x != y {
            return x < y;
        }
    }
    le(a.rel.as_str(), b.rel.as_str())
}

/// A sorted list with one more file put behind all that may stand before it.
pub open spec fn with_file(s: Seq<FileInfo>, x: FileInfo, by_rank: bool) -> Seq<FileInfo>
    decreases s.len(),
{
    if s.len() == 0 || file_le(s.last(), x, by_rank) {
        s.push(x)
    } else {
        with_file(s.drop_last(), x, by_rank).push(s.last())
    }
}

/// The files in order; those that may stand either way keep their order.
pub open spec fn sorted_files(s: Seq<FileInfo>, by_rank: bool) -> Seq<FileInfo>
    decreases s.len(),
{
    if s.len() == 0 {
        Seq::empty()
    } else {
        with_file(sorted_files(s.drop_last(), by_rank), s.last(), by_rank)
    }
}

proof fn lemma_with_file(s: Seq<FileInfo>, x: FileInfo, by_rank: bool, k: int)
    requires
        0 <= k <= s.len(),
        k > 0 ==> file_le(s[k - 1], x, by_rank),
        forall|i: int| k <= i < s.len() ==> !file_le(#[trigger] s[i], x, by_rank),
    ensures
        with_file(s, x, by_rank) == s.insert(k, x),
    decreases s.len() - k,
{
    if k == s.len() {
        assert(s.insert(k, x) =~= s.push(x));
    } else {
        assert(!file_le(s[s.len() - 1], x, by_rank));
        lemma_with_file(s.drop_last(), x, by_rank, k);
        assert(s.insert(k, x) =~= s.drop_last().insert(k, x).push(s.last()));
    }
}

fn sort_files(files: &Vec<FileInfo>, by_rank: bool) -> (r: Vec<FileInfo>)
    ensures
        r@ == sorted_files(files@, by_rank),
{
    let mut out: Vec<FileInfo> = Vec::new();
    let mut i: usize = 0;
    while i < files.len()
        invariant
            i <= files.len(),
            out@ == sorted_files(files@.take(i as int), by_rank),
        decreases files.len() - i,
    {
        let mut k: usize = out.len();
        while k > 0 && !may_precede(&out[k - 1], &files[i], by_rank)
            invariant
                i < files.len(),
                k <= out.len(),
                forall|j: int|
                    k <= j < out.len() ==> !file_le(#[trigger] out@[j], files@[i as int], by_rank),
            decreases k,
        {
            k = k - 1;
        }
        proof {
            lemma_with_file(out@, files@[i as int], by_rank, k as int);
            assert(files@.take(i + 1).drop_last() =~= files@.take(i as int));
        }
        out.insert(k, files[i].clone());
        i = i + 1;
    }
    proof {
        assert(files@.take(i as int) =~= files@);
    }
    out
}

fn first_files(files: &Vec<FileInfo>, n: usize) -> (r: Vec<FileInfo>)
    ensures
        r@ == first_n(files@, n as nat),
{
    let mut out: Vec<FileInfo> = Vec::new();
    let mut i: usize = 0;
    while i < files.len() && i < n
        invariant
            i <= files.len(),
            i <= n,
            out@ == files@.take(i as int),
        decreases files.len() - i,
    {
        out.push(files[i].clone());
        i = i + 1;
    }
    proof {
        if files@.len() <= n {
            assert(files@.take(i as int) =~= files@);
        }
    }
    out
}

/// The first manifests among the files, at most sixteen.
pub open spec fn manifests_of(files: Seq<FileInfo>) -> Seq<FileInfo> {
    first_n(files.filter(|f: FileInfo| manifest(f.rel@)), 16)
}

/// The first manifests among the files, at most sixteen.
pub fn manifest_files(files: &Vec<FileInfo>) -> (r: Vec<FileInfo>)
    ensures
        r@ == manifests_of(files@),
{
    let ghost keep = |f: FileInfo| manifest(f.rel@);
    let mut all: Vec<FileInfo> = Vec::new();
    let mut i: usize = 0;
    while i < files.len()
        invariant
            i <= files.len(),
            keep == (|f: FileInfo| manifest(f.rel@)),
            all@ == files@.take(i as int).filter(keep),
        decreases files.len() - i,
    {
        proof {
            assert(files@.take(i + 1) =~= files@.take(i as int).push(files@[i as int]));
            files@.take(i as int).lemma_filter_push(files@[i as int], keep);
        }
        if is_manifest(files[i].rel.as_str()) {
            all.push(files[i].clone());
        }
        i = i + 1;
    }
    proof {
        assert(files@.take(i as int) =~= files@);
    }
    first_files(&all, 16)
}

/// How many files are looked at before the best are chosen.
pub open spec fn collection_limit(max_files: usize) -> usize {
    max_size(capped_size(max_files * 4), 512)
}

/// How many files are looked at before the best are chosen.
pub fn collection_cap(max_files: usize) -> (r: usize)
    ensures
        r == collection_limit(max_files),
{
    larger(saturating_product(max_files, 4), 512)
}

/// Whether files are what is collected of the files that were found: the most
/// important ones, as many as asked for, in the order of their paths, and the
/// first manifests.
pub open spec fn is_collection(r: CollectedFiles, found: Seq<FileInfo>, max_files: usize) -> bool {
    let ranked = sorted_files(found, true);
    &&& r.files@ == sorted_files(first_n(ranked, max_files as nat), false)
    &&& r.manifest_files@ == manifests_of(ranked)
    &&& r.truncated == (found.len() > max_files)
}

/// Chooses among the files found: the first `max_files` by rank, told in the
/// order of their paths, and the first manifests by rank.
pub fn collect_files(found: &Vec<FileInfo>, max_files: usize) -> (r: CollectedFiles)
    ensures
        is_collection(r, found@, max_files),
        ({
            let ranked = sorted_files(found@, true);
            &&& r.files@ == sorted_files(first_n(ranked, max_files as nat), false)
            &&& r.manifest_files@ == manifests_of(ranked)
            &&& r.truncated == (found@.len() > max_files)
        }),
{
    let ranked = sort_files(found, true);
    let manifests = manifest_files(&ranked);
    let chosen = first_files(&ranked, max_files);
    CollectedFiles {
        files: sort_files(&chosen, false),
        manifest_files: manifests,
        truncated: found.len() > max_files,
    }
}

/// The paths of the first manifests among the files, at most sixteen.
pub open spec fn manifest_rels(files: Seq<FileInfo>) -> Seq<Seq<char>> {
    let m = manifests_of(files);
    Seq::new(m.len(), |i: int| m[i].rel@)
}

/// The paths of the first manifests among the files.
pub fn manifest_paths(files: &Vec<FileInfo>) -> (r: Vec<String>)
    ensures
        texts(r@) == manifest_rels(files@),
{
    let m = manifest_files(files);
    let mut out: Vec<String> = Vec::new();
    let mut i: usize = 0;
    while i < m.len()
        invariant
            i <= m.len(),
            texts(out@) == Seq::new(i as nat, |k: int| m@[k].rel@),
        decreases m.len() - i,
    {
        proof {
            lemma_texts_push(out@, m@[i as int].rel);
            assert(Seq::new((i + 1) as nat, |k: int| m@[k].rel@) =~= Seq::new(
                i as nat,
                |k: int| m@[k].rel@,
            ).push(m@[i as int].rel@));
        }
        out.push(m[i].rel.clone());
        i = i + 1;
    }
    proof {
        assert(texts(out@) =~= manifest_rels(files@));
    }
    out
}

// ---- Excerpts --------------------------------------------------------------

/// The beginning of a text, and a line that says so where there is more.
pub open spec fn excerpt_of(s: Seq<char>, max: nat) -> Seq<char> {
    let t = trim(s);
    if t.len() <= max {
        t
    } else {
        t.take(max as int) + "\n... (excerpt truncated)"@
    }
}

pub fn excerpt(s: &str, max_chars: usize) -> (r: String)
    ensures
        r@ == excerpt_of(s@, max_chars as nat),
{
    let t = trimmed(s);
    let c = chars_of(t.as_str());
    if c.len() <= max_chars {
        return t;
    }
    proof {
        assert(t@.take(max_chars as int) =~= t@.subrange(0, max_chars as int));
    }
    let mut out = text_between(&c, 0, max_chars);
    out.append("\n... (excerpt truncated)");
    out
}

// ---- Signatures ------------------------------------------------------------

/// One step of the FNV-1a hash.
pub open spec fn hash_step(h: u64, b: u8) -> u64 {
    (h ^ (b as u64)).wrapping_mul(0x100000001b3)
}

/// The FNV-1a hash of bytes, gone on with from `h`.
pub open spec fn hash_bytes(h: u64, bytes: Seq<u8>) -> u64
    decreases bytes.len(),
{
    if bytes.len() == 0 {
        h
    } else {
        hash_step(hash_bytes(h, bytes.drop_last()), bytes.last())
    }
}

/// Where the FNV-1a hash starts.
pub const HASH_START: u64 = 0xcbf29ce484222325;

/// Goes on with the FNV-1a hash over bytes.
pub fn stable_hash_extend(hash: u64, bytes: &[u8]) -> (r: u64)
    ensures
        r == hash_bytes(hash, bytes@),
{
    let mut h: u64 = hash;
    let mut i: usize = 0;
    while i < bytes.len()
        invariant
            i <= bytes.len(),
            h == hash_bytes(hash, bytes@.take(i as int)),
        decreases bytes.len() - i,
    {
        proof {
            assert(bytes@.take(i + 1).drop_last() =~= bytes@.take(i as int));
        }
        let x: u64 = h ^ (bytes[i] as u64);
        h = x.wrapping_mul(0x100000001b3);
        i = i + 1;
    }
    proof {
        assert(bytes@.take(i as int) =~= bytes@);
    }
    h
}

/// The bytes of a text in UTF-8.
pub open spec fn utf8(s: Seq<char>) -> Seq<u8> {
    vstd::utf8::encode_utf8(s)
}

/// The hash gone on with over a text.
pub open spec fn hash_text(h: u64, s: Seq<char>) -> u64 {
    hash_bytes(h, utf8(s))
}

/// The hash gone on with over one byte.
pub open spec fn hash_byte(h: u64, b: u8) -> u64 {
    hash_bytes(h, seq![b])
}

pub(crate) fn extend_text(h: u64, s: &str) -> (r: u64)
    ensures
        r == hash_text(h, s@),
{
    stable_hash_extend(h, s.as_bytes())
}

pub(crate) fn extend_byte(h: u64, b: u8) -> (r: u64)
    ensures
        r == hash_byte(h, b),
{
    let v: Vec<u8> = vec![b];
    proof {
        assert(v@ =~= seq![b]);
    }
    stable_hash_extend(h, v.as_slice())
}

/// A number as bytes, the lowest first.
pub open spec fn le_bytes(n: nat, width: nat) -> Seq<u8>
    decreases width,
{
    if width == 0 {
        Seq::empty()
    } else {
        seq![(n % 256) as u8] + le_bytes(n / 256, (width - 1) as nat)
    }
}

fn low_bytes(n: u128, width: u8) -> (r: Vec<u8>)
    ensures
        r@ == le_bytes(n as nat, width as nat),
{
    let mut out: Vec<u8> = Vec::new();
    let mut rest: u128 = n;
    let mut i: u8 = 0;
    proof {
        assert(out@ + le_bytes(n as nat, width as nat) =~= le_bytes(n as nat, width as nat));
    }
    while i < width
        invariant
            i <= width,
            out@ + le_bytes(rest as nat, (width - i) as nat) == le_bytes(n as nat, width as nat),
        decreases width - i,
    {
        let b: u8 = (rest % 256) as u8;
        proof {
            let tail = le_bytes((rest / 256) as nat, (width - i - 1) as nat);
            assert(out@ + (seq![b] + tail) =~= out@.push(b) + tail);
        }
        out.push(b);
        rest = rest / 256;
        i = i + 1;
    }
    proof {
        assert(out@ + Seq::<u8>::empty() =~= out@);
    }
    out
}

fn extend_number(h: u64, n: u128, width: u8) -> (r: u64)
    ensures
        r == hash_bytes(h, le_bytes(n as nat, width as nat)),
{
    stable_hash_extend(h, low_bytes(n, width).as_slice())
}

/// The hash of texts, each closed by the byte 255.
pub open spec fn hash_parts(parts: Seq<Seq<char>>) -> u64
    decreases parts.len(),
{
    if parts.len() == 0 {
        HASH_START
    } else {
        hash_byte(hash_text(hash_parts(parts.drop_last()), parts.last()), 0xff)
    }
}

/// The hash of texts, each closed by the byte 255.
pub fn stable_hash_parts(parts: &Vec<&str>) -> (r: u64)
    ensures
        r == hash_parts(Seq::new(parts@.len(), |i: int| parts@[i]@)),
{
    let ghost p = Seq::new(parts@.len(), |i: int| parts@[i]@);
    let mut h: u64 = HASH_START;
    let mut i: usize = 0;
    while i < parts.len()
        invariant
            i <= parts.len(),
            p == Seq::new(parts@.len(), |i: int| parts@[i]@),
            h == hash_parts(p.take(i as int)),
        decreases parts.len() - i,
    {
        proof {
            assert(p.take(i + 1).drop_last() =~= p.take(i as int));
        }
        h = extend_byte(extend_text(h, parts[i]), 0xff);
        i = i + 1;
    }
    proof {
        assert(p.take(i as int) =~= p);
    }
    h
}

/// The hash gone on with over a file of the map.
pub open spec fn hash_file(h: u64, f: FileInfo) -> u64 {
    let a = hash_bytes(hash_text(h, f.rel@), le_bytes(f.len as nat, 8));
    hash_byte(
        a,
        if manifest(f.rel@) {
            2
        } else {
            3
        },
    )
}

/// The hash gone on with over the files of the map.
pub open spec fn hash_files(h: u64, files: Seq<FileInfo>) -> u64
    decreases files.len(),
{
    if files.len() == 0 {
        h
    } else {
        hash_file(hash_files(h, files.drop_last()), files.last())
    }
}

/// The hash gone on with over a manifest: the excerpt's hash, or the time of
/// the last change where it could not be read.
pub open spec fn hash_manifest(h: u64, f: FileInfo) -> u64 {
    let a = hash_bytes(hash_text(h, f.rel@), le_bytes(f.len as nat, 8));
    match f.manifest_excerpt_hash {
        Some(x) => hash_bytes(hash_byte(a, 1), le_bytes(x as nat, 8)),
        None => hash_bytes(hash_byte(a, 0), le_bytes(f.modified_nanos as nat, 16)),
    }
}

/// The hash gone on with over the manifests.
pub open spec fn hash_manifests(h: u64, files: Seq<FileInfo>) -> u64
    decreases files.len(),
{
    if files.len() == 0 {
        h
    } else {
        hash_manifest(hash_manifests(h, files.drop_last()), files.last())
    }
}

/// The signature of what a project context is built from.
pub open spec fn signature_of(
    root: Seq<char>,
    files: Seq<FileInfo>,
    manifest_files: Seq<FileInfo>,
    max_files: usize,
    max_manifest_chars: usize,
) -> Seq<char> {
    let start = hash_parts(seq![CACHE_VERSION@, root]);
    let limits = hash_bytes(
        hash_bytes(start, le_bytes(max_files as nat, 8)),
        le_bytes(max_manifest_chars as nat, 8),
    );
    let mapped = hash_byte(hash_files(limits, files), 0xfe);
    hex(hash_manifests(mapped, manifest_files) as nat, 16)
}

/// The signature of what a project context is built from.
pub fn signature_for(
    root: &str,
    files: &Vec<FileInfo>,
    manifest_files: &Vec<FileInfo>,
    max_files: usize,
    max_manifest_chars: usize,
) -> (r: String)
    ensures
        r@ == signature_of(root@, files@, manifest_files@, max_files, max_manifest_chars),
{
    let parts: Vec<&str> = vec![CACHE_VERSION, root];
    proof {
        assert(Seq::new(parts@.len(), |i: int| parts@[i]@) =~= seq![CACHE_VERSION@, root@]);
    }
    let mut h: u64 = stable_hash_parts(&parts);
    h = extend_number(h, max_files as u128, 8);
    h = extend_number(h, max_manifest_chars as u128, 8);
    let ghost limits = h;
    let mut i: usize = 0;
    while i < files.len()
        invariant
            i <= files.len(),
            h == hash_files(limits, files@.take(i as int)),
        decreases files.len() - i,
    {
        let f = &files[i];
        proof {
            assert(files@.take(i + 1).drop_last() =~= files@.take(i as int));
        }
        h = extend_number(extend_text(h, f.rel.as_str()), f.len as u128, 8);
        h = extend_byte(
            h,
            if is_manifest(f.rel.as_str()) {
                2
            } else {
                3
            },
        );
        i = i + 1;
    }
    proof {
        assert(files@.take(i as int) =~= files@);
    }
    h = extend_byte(h, 0xfe);
    let ghost mapped = h;
    let mut k: usize = 0;
    while k < manifest_files.len()
        invariant
            k <= manifest_files.len(),
            h == hash_manifests(mapped, manifest_files@.take(k as int)),
        decreases manifest_files.len() - k,
    {
        let f = &manifest_files[k];
        proof {
            assert(manifest_files@.take(k + 1).drop_last() =~= manifest_files@.take(k as int));
        }
        h = extend_number(extend_text(h, f.rel.as_str()), f.len as u128, 8);
        match f.manifest_excerpt_hash {
            Some(x) => {
                h = extend_number(extend_byte(h, 1), x as u128, 8);
            },
            None => {
                h = extend_number(extend_byte(h, 0), f.modified_nanos, 16);
            },
        }
        k = k + 1;
    }
    proof {
        assert(manifest_files@.take(k as int) =~= manifest_files@);
    }
    hexadecimal(h as u128, 16)
}

/// The hash of a manifest's excerpt.
pub fn manifest_excerpt_hash(manifest_text: &str, max_chars: usize) -> (r: u64)
    ensures
        r == hash_text(HASH_START, excerpt_of(manifest_text@, max_chars as nat)),
{
    extend_text(HASH_START, excerpt(manifest_text, max_chars).as_str())
}

// ---- The cache file --------------------------------------------------------

/// The contents of a cache file.
pub open spec fn payload_of(signature: Seq<char>, body: Seq<char>) -> Seq<char> {
    CACHE_VERSION@ + "\nsignature:"@ + signature + "\n---\n"@ + body
}

/// The contents of a cache file.
pub fn cache_payload(signature: &str, body: &str) -> (r: String)
    ensures
        r@ == payload_of(signature@, body@),
{
    let mut out = CACHE_VERSION.to_owned();
    out.append("\nsignature:");
    out.append(signature);
    out.append("\n---\n");
    out.append(body);
    out
}

/// Whether the header of a cache file is of this version and names the
/// signature.
pub open spec fn header_fits(header: Seq<char>, signature: Seq<char>) -> bool {
    let l = lines_of(header);
    &&& l.len() > 0
    &&& l[0] == CACHE_VERSION@
    &&& exists|i: int| 0 <= i < l.len() && #[trigger] l[i] == "signature:"@ + signature
}

/// The project context that a cache file holds, if its header fits.
pub open spec fn cached_context(payload: Seq<char>, signature: Seq<char>) -> Option<Seq<char>> {
    match find_from(payload, "\n---\n"@, 0) {
        Some(k) => if header_fits(payload.take(k), signature) {
            Some(payload.skip(k + 5))
        } else {
            None
        },
        None => None,
    }
}

/// The project context that a cache file holds, if its header fits.
pub fn read_cached_context(payload: &str, signature: &str) -> (r: Option<String>)
    ensures
        opt_text(r) == cached_context(payload@, signature@),
{
    let c = chars_of(payload);
    let sep = chars_of("\n---\n");
    proof {
        reveal_strlit("\n---\n");
        crate::scan::lemma_find_from(payload@, "\n---\n"@, 0);
    }
    let k = match find_chars(&c, &sep, 0) {
        Some(k) => k,
        None => return None,
    };
    proof {
        assert(occurs_at(payload@, "\n---\n"@, k as int));
        assert(payload@.take(k as int) =~= payload@.subrange(0, k as int));
        assert(payload@.skip(k + 5) =~= payload@.subrange(k + 5, payload@.len() as int));
    }
    let header = text_between(&c, 0, k);
    let all = lines(header.as_str());
    let ghost l = lines_of(header@);
    proof {
        assert(all@.len() == l.len());
    }
    if all.len() == 0 {
        return None;
    }
    proof {
        assert(l[0] == all@[0]@);
    }
    if !same(all[0].as_str(), CACHE_VERSION) {
        return None;
    }
    let mut expected = "signature:".to_owned();
    expected.append(signature);
    let mut i: usize = 0;
    while i < all.len()
        invariant
            i <= all.len(),
            texts(all@) == l,
            l == lines_of(header@),
            header@ == payload@.take(k as int),
            l.len() > 0,
            l[0] == CACHE_VERSION@,
            expected@ == "signature:"@ + signature@,
            find_from(payload@, "\n---\n"@, 0) == Some(k as int),
            k + 5 <= c.len(),
            c@ == payload@,
            payload@.skip(k + 5) == payload@.subrange(k + 5, payload@.len() as int),
            forall|j: int| 0 <= j < i ==> #[trigger] l[j] != expected@,
        decreases all.len() - i,
    {
        proof {
            assert(l[i as int] == all@[i as int]@);
        }
        if all[i] == expected {
            return Some(text_between(&c, k + 5, c.len()));
        }
        i = i + 1;
    }
    None
}

/// The name of the cache file of a project.
pub open spec fn cache_name(root: Seq<char>) -> Seq<char> {
    hex(hash_parts(seq![root]) as nat, 16) + ".txt"@
}

/// Where the cache file of a project lies.
pub fn cache_path_for(root: &str, dir: &str) -> (r: String)
    ensures
        r@ == joined(dir@, cache_name(root@)),
{
    let parts: Vec<&str> = vec![root];
    proof {
        assert(Seq::new(parts@.len(), |i: int| parts@[i]@) =~= seq![root@]);
    }
    let mut name = hexadecimal(stable_hash_parts(&parts) as u128, 16);
    name.append(".txt");
    crate::path::join(dir, name.as_str())
}

/// Where cache files lie unless told otherwise, from the settings of the
/// environment: its own one, the user's cache directory, the home directory, or
/// else the directory for temporary files.
pub open spec fn cache_dir_of(
    own: Option<Seq<char>>,
    xdg: Option<Seq<char>>,
    home: Option<Seq<char>>,
    temp: Seq<char>,
) -> Seq<char> {
    match (own, xdg, home) {
        (Some(dir), _, _) => joined(dir, "project-context"@),
        (None, Some(dir), _) => joined(joined(dir, "tales"@), "project-context"@),
        (None, None, Some(dir)) => joined(
            joined(joined(dir, ".cache"@), "tales"@),
            "project-context"@,
        ),
        (None, None, None) => joined(joined(temp, "tales"@), "project-context"@),
    }
}

/// Where cache files lie unless told otherwise.
pub fn default_cache_dir(
    own: Option<&str>,
    xdg: Option<&str>,
    home: Option<&str>,
    temp: &str,
) -> (r: String)
    ensures
        r@ == cache_dir_of(opt_str(own), opt_str(xdg), opt_str(home), temp@),
{
    if let Some(dir) = own {
        return crate::path::join(dir, "project-context");
    }
    let base = if let Some(dir) = xdg {
        crate::path::join(dir, "tales")
    } else if let Some(dir) = home {
        crate::path::join(crate::path::join(dir, ".cache").as_str(), "tales")
    } else {
        crate::path::join(temp, "tales")
    };
    crate::path::join(base.as_str(), "project-context")
}

// ---- The text --------------------------------------------------------------

/// The first lines of a project context.
pub open spec fn context_head(root: Seq<char>, files: nat, truncated: bool, max_files: usize) -> Seq<
    char,
> {
    "Project context (cached by Tales)\n"@ + "Root: "@ + root + "\n"@ + "Indexed files: "@ + dec(files)
        + "\n"@ + (if truncated {
        "Truncated: yes (max_files="@ + dec(max_files as nat)
            + "; increase --max-files for a broader map)\n"@
    } else {
        "Truncated: no\n"@
    })
}

/// The line of the file map on a file.
pub open spec fn map_line(f: FileInfo) -> Seq<char> {
    "- "@ + f.rel@ + " ("@ + dec(f.len as nat) + " bytes)\n"@
}

/// The lines of the file map.
pub open spec fn map_lines(files: Seq<FileInfo>) -> Seq<char> {
    flat(Seq::new(files.len(), |i: int| map_line(files[i])))
}

/// The excerpt of one manifest; nothing where it could not be read.
pub open spec fn excerpt_block(rel: Seq<char>, body: Option<Seq<char>>, max: nat) -> Seq<char> {
    match body {
        Some(body) => "--- "@ + rel + " ---\n"@ + excerpt_of(body, max) + "\n"@,
        None => Seq::empty(),
    }
}

/// The excerpts of the manifests.
pub open spec fn excerpt_blocks(
    rels: Seq<Seq<char>>,
    bodies: Seq<Option<Seq<char>>>,
    max: nat,
) -> Seq<char> {
    flat(Seq::new(rels.len(), |i: int| excerpt_block(rels[i], bodies[i], max)))
}

/// What was read of each manifest.
pub open spec fn bodies_of(v: Seq<Option<String>>) -> Seq<Option<Seq<char>>> {
    Seq::new(v.len(), |i: int| opt_text(v[i]))
}

/// A project context, without the state of the working tree.
pub open spec fn context_text(
    root: Seq<char>,
    files: Seq<FileInfo>,
    rels: Seq<Seq<char>>,
    bodies: Seq<Option<Seq<char>>>,
    truncated: bool,
    max_files: usize,
    max_manifest_chars: nat,
) -> Seq<char> {
    context_head(root, files.len(), truncated, max_files) + (if rels.len() > 0 {
        "\nImportant manifests:\n"@ + prefixed_lines(rels, "- "@)
    } else {
        Seq::empty()
    }) + "\nFile map:\n"@ + map_lines(files) + (if rels.len() > 0 {
        "\nManifest excerpts:\n"@ + excerpt_blocks(rels, bodies, max_manifest_chars)
    } else {
        Seq::empty()
    })
}

fn append_map(out: &mut String, files: &Vec<FileInfo>)
    ensures
        final(out)@ == old(out)@ + map_lines(files@),
{
    let ghost before = out@;
    let ghost f = |k: int| map_line(files@[k]);
    let mut i: usize = 0;
    proof {
        assert(flat(Seq::new(0, f)) =~= Seq::empty());
        assert(before + Seq::<char>::empty() =~= before);
    }
    while i < files.len()
        invariant
            i <= files.len(),
            f == (|k: int| map_line(files@[k])),
            out@ == before + flat(Seq::new(i as nat, f)),
        decreases files.len() - i,
    {
        let info = &files[i];
        proof {
            let done = Seq::new(i as nat, f);
            lemma_flat_push(done, f(i as int));
            assert(Seq::new((i + 1) as nat, f) =~= done.push(f(i as int)));
            assert(before + (flat(done) + f(i as int)) =~= out@ + "- "@ + info.rel@ + " ("@ + dec(
                info.len as nat,
            ) + " bytes)\n"@);
        }
        out.append("- ");
        out.append(info.rel.as_str());
        out.append(" (");
        out.append(decimal(info.len).as_str());
        out.append(" bytes)\n");
        i = i + 1;
    }
    proof {
        assert(Seq::new(i as nat, f) =~= Seq::new(files@.len(), |k: int| map_line(files@[k])));
    }
}

fn append_excerpts(out: &mut String, rels: &Vec<String>, bodies: &Vec<Option<String>>, max: usize)
    requires
        bodies@.len() == rels@.len(),
    ensures
        final(out)@ == old(out)@ + excerpt_blocks(texts(rels@), bodies_of(bodies@), max as nat),
{
    let ghost before = out@;
    let ghost r = texts(rels@);
    let ghost b = bodies_of(bodies@);
    let ghost f = |k: int| excerpt_block(r[k], b[k], max as nat);
    let mut i: usize = 0;
    proof {
        assert(flat(Seq::new(0, f)) =~= Seq::empty());
        assert(before + Seq::<char>::empty() =~= before);
    }
    while i < rels.len()
        invariant
            i <= rels.len(),
            bodies@.len() == rels@.len(),
            r == texts(rels@),
            b == bodies_of(bodies@),
            f == (|k: int| excerpt_block(r[k], b[k], max as nat)),
            out@ == before + flat(Seq::new(i as nat, f)),
        decreases rels.len() - i,
    {
        let ghost mid = out@;
        proof {
            let done = Seq::new(i as nat, f);
            lemma_flat_push(done, f(i as int));
            assert(Seq::new((i + 1) as nat, f) =~= done.push(f(i as int)));
            assert(before + (flat(done) + f(i as int)) =~= mid + f(i as int));
        }
        if let Some(body) = &bodies[i] {
            let cut = excerpt(body.as_str(), max);
            proof {
                assert(mid + f(i as int) =~= mid + "--- "@ + rels@[i as int]@ + " ---\n"@ + cut@
                    + "\n"@);
            }
            out.append("--- ");
            out.append(rels[i].as_str());
            out.append(" ---\n");
            out.append(cut.as_str());
            out.append("\n");
        } else {
            proof {
                assert(mid + f(i as int) =~= mid);
            }
        }
        i = i + 1;
    }
    proof {
        assert(Seq::new(i as nat, f) =~= Seq::new(
            r.len(),
            |k: int| excerpt_block(r[k], b[k], max as nat),
        ));
    }
}

/// Builds a project context. `bodies` holds what was read of each manifest, in
/// the order of [`manifest_paths`].
pub fn build_context_text(
    root: &str,
    files: &Vec<FileInfo>,
    manifest_files: &Vec<FileInfo>,
    bodies: &Vec<Option<String>>,
    truncated: bool,
    max_files: usize,
    max_manifest_chars: usize,
) -> (r: String)
    requires
        bodies@.len() == manifest_rels(manifest_files@).len(),
    ensures
        r@ == context_text(
            root@,
            files@,
            manifest_rels(manifest_files@),
            bodies_of(bodies@),
            truncated,
            max_files,
            max_manifest_chars as nat,
        ),
{
    let rels = manifest_paths(manifest_files);
    let ghost rs = manifest_rels(manifest_files@);
    let ghost bs = bodies_of(bodies@);
    proof {
        assert(rels@.len() == rs.len());
    }
    let mut out = "Project context (cached by Tales)\n".to_owned();
    out.append("Root: ");
    out.append(root);
    out.append("\n");
    out.append("Indexed files: ");
    out.append(decimal_size(files.len()).as_str());
    out.append("\n");
    let mut cut = String::new();
    if truncated {
        cut.append("Truncated: yes (max_files=");
        cut.append(decimal_size(max_files).as_str());
        cut.append("; increase --max-files for a broader map)\n");
    } else {
        cut.append("Truncated: no\n");
    }
    proof {
        assert(cut@ =~= (if truncated {
            "Truncated: yes (max_files="@ + dec(max_files as nat)
                + "; increase --max-files for a broader map)\n"@
        } else {
            "Truncated: no\n"@
        }));
    }
    out.append(cut.as_str());
    let ghost head = out@;
    let mut listed = String::new();
    if !rels.is_empty() {
        listed.append("\nImportant manifests:\n");
        append_lines(&mut listed, &rels, "- ");
    }
    proof {
        assert(listed@ =~= (if rs.len() > 0 {
            "\nImportant manifests:\n"@ + prefixed_lines(rs, "- "@)
        } else {
            Seq::empty()
        }));
    }
    out.append(listed.as_str());
    out.append("\nFile map:\n");
    append_map(&mut out, files);
    let mut quoted = String::new();
    if !rels.is_empty() {
        quoted.append("\nManifest excerpts:\n");
        append_excerpts(&mut quoted, &rels, bodies, max_manifest_chars);
    }
    proof {
        assert(quoted@ =~= (if rs.len() > 0 {
            "\nManifest excerpts:\n"@ + excerpt_blocks(rs, bs, max_manifest_chars as nat)
        } else {
            Seq::empty()
        }));
    }
    out.append(quoted.as_str());
    out
}

/// The line that follows the changes where some are not shown.
pub open spec fn status_cut() -> Seq<char> {
    "  - ... (status truncated after "@ + dec(MAX_GIT_STATUS_LINES as nat) + " entries)\n"@
}

/// The section on the working tree.
pub open spec fn status_section(s: Status) -> Seq<char> {
    "\nGit working tree:\n"@ + branch_line(opt_text(s.branch)) + change_lines(
        texts(s.changes@),
        s.truncated,
        status_cut(),
    )
}

pub fn git_status_section(status: &Status) -> (r: String)
    ensures
        r@ == status_section(*status),
{
    let mut cut = "  - ... (status truncated after ".to_owned();
    cut.append(decimal_size(MAX_GIT_STATUS_LINES).as_str());
    cut.append(" entries)\n");
    let mut out = "\nGit working tree:\n".to_owned();
    append_changes(&mut out, &status.branch, &status.changes, status.truncated, cut.as_str());
    out
}

/// A project context with the section on the working tree before its file map,
/// or at its end where it has none.
pub open spec fn with_section(body: Seq<char>, section: Seq<char>) -> Seq<char> {
    match find_from(body, "\nFile map:\n"@, 0) {
        Some(k) => body.take(k) + section + body.skip(k),
        None => body + section,
    }
}

/// A project context with the state of the working tree, where it is known.
pub open spec fn with_status(body: Seq<char>, status: Option<Status>) -> Seq<char> {
    match status {
        Some(s) => with_section(body, status_section(s)),
        None => body,
    }
}

/// The status that an optional reference leads to.
pub open spec fn opt_status(s: Option<&Status>) -> Option<Status> {
    match s {
        Some(s) => Some(*s),
        None => None,
    }
}

pub fn with_git_status_context(body: String, git_status: Option<&Status>) -> (r: String)
    ensures
        r@ == with_status(body@, opt_status(git_status)),
{
    let status = match git_status {
        Some(s) => s,
        None => return body,
    };
    let section = git_status_section(status);
    let c = chars_of(body.as_str());
    let mark = chars_of("\nFile map:\n");
    proof {
        crate::scan::lemma_find_from(body@, "\nFile map:\n"@, 0);
    }
    match find_chars(&c, &mark, 0) {
        Some(k) => {
            proof {
                assert(occurs_at(body@, "\nFile map:\n"@, k as int));
                assert(body@.take(k as int) =~= body@.subrange(0, k as int));
                assert(body@.skip(k as int) =~= body@.subrange(k as int, body@.len() as int));
            }
            let mut out = text_between(&c, 0, k);
            out.append(section.as_str());
            out.append(text_between(&c, k, c.len()).as_str());
            out
        },
        None => {
            let mut out = body;
            out.append(section.as_str());
            out
        },
    }
}

// ---- Status documents ------------------------------------------------------

/// How much of a budget a context takes, in percent, rounded up.
pub open spec fn percent_of(context_chars: usize, budget: usize) -> nat {
    if budget == 0 {
        0
    } else {
        ceil_div(capped_size(context_chars * 100) as nat, budget as nat)
    }
}

/// How much of a budget a context takes, in percent, rounded up.
pub fn percent(context_chars: usize, budget: usize) -> (r: usize)
    ensures
        r == percent_of(context_chars, budget),
{
    if budget == 0 {
        0
    } else {
        quotient_up(saturating_product(context_chars, 100), budget)
    }
}

/// The document on how a context fits a budget.
pub open spec fn fit_doc(context_chars: usize, budget: Option<usize>) -> Doc {
    match budget {
        Some(b) => Doc::Obj(
            seq![
                (
                    "status"@,
                    jstr(
                        if context_chars > b {
                            "over_budget"@
                        } else {
                            "fits"@
                        },
                    ),
                ),
                ("context_chars"@, jnum(context_chars as int)),
                ("budget_chars"@, jnum(b as int)),
                ("percent"@, jnum(percent_of(context_chars, b) as int)),
                ("context_tokens_estimate"@, jnum(tokens_of(context_chars as nat) as int)),
                ("budget_tokens_estimate"@, jnum(tokens_of(b as nat) as int)),
            ],
        ),
        None => Doc::Obj(
            seq![
                ("status"@, jstr("unlimited"@)),
                ("context_chars"@, jnum(context_chars as int)),
                ("budget_chars"@, Doc::Null),
                ("percent"@, Doc::Null),
                ("context_tokens_estimate"@, jnum(tokens_of(context_chars as nat) as int)),
                ("budget_tokens_estimate"@, Doc::Null),
            ],
        ),
    }
}

/// The document on how a context fits a budget.
pub fn context_budget_fit_json(context_chars: usize, budget_chars: Option<usize>) -> (r: Json)
    ensures
        r@ == fit_doc(context_chars, budget_chars),
{
    let mut f = Fields::new();
    match budget_chars {
        Some(b) => {
            f.put(
                "status",
                text(
                    if context_chars > b {
                        "over_budget"
                    } else {
                        "fits"
                    },
                ),
            );
            f.put("context_chars", size(context_chars));
            f.put("budget_chars", size(b));
            f.put("percent", size(percent(context_chars, b)));
            f.put("context_tokens_estimate", size(estimated_tokens(context_chars)));
            f.put("budget_tokens_estimate", size(estimated_tokens(b)));
            proof {
                assert(f@ =~= fit_doc(context_chars, budget_chars)->Obj_0);
            }
            f.object()
        },
        None => {
            f.put("status", text("unlimited"));
            f.put("context_chars", size(context_chars));
            f.put("budget_chars", null());
            f.put("percent", null());
            f.put("context_tokens_estimate", size(estimated_tokens(context_chars)));
            f.put("budget_tokens_estimate", null());
            proof {
                assert(f@ =~= fit_doc(context_chars, budget_chars)->Obj_0);
            }
            f.object()
        },
    }
}

/// The document on the two budgets of a project context.
pub open spec fn budgets_doc(max_files: usize, max_manifest_chars: usize) -> Doc {
    Doc::Obj(
        seq![
            ("max_files"@, jnum(max_files as int)),
            ("max_manifest_chars"@, jnum(max_manifest_chars as int)),
        ],
    )
}

pub fn budgets_json(max_files: usize, max_manifest_chars: usize) -> (r: Json)
    ensures
        r@ == budgets_doc(max_files, max_manifest_chars),
{
    let mut f = Fields::new();
    f.put("max_files", size(max_files));
    f.put("max_manifest_chars", size(max_manifest_chars));
    proof {
        assert(f@ =~= budgets_doc(max_files, max_manifest_chars)->Obj_0);
    }
    f.object()
}

/// The project context that an optional reference leads to.
pub open spec fn opt_context(c: Option<&ProjectContext>) -> Option<ProjectContext> {
    match c {
        Some(c) => Some(*c),
        None => None,
    }
}

/// The status document on a project context.
pub open spec fn context_doc(
    ctx: Option<ProjectContext>,
    refresh: bool,
    max_files: usize,
    max_manifest_chars: usize,
    budget: Option<usize>,
) -> Doc {
    let own = match ctx {
        Some(c) => {
            let chars = c.text@.len();
            let fit = fit_doc(chars as usize, budget);
            seq![
                ("enabled"@, jbool(true)),
                ("refresh"@, jbool(refresh)),
                ("cache_hit"@, jbool(c.cache_hit)),
                ("cache_path"@, jstr(c.cache_path@)),
                ("chars"@, jnum(chars as int)),
                ("tokens_estimate"@, jnum(tokens_of(chars) as int)),
                ("budget_fit"@, fit),
                ("default_budget_fit"@, fit),
            ]
        },
        None => seq![
            ("enabled"@, jbool(false)),
            ("refresh"@, jbool(refresh)),
            ("cache_hit"@, Doc::Null),
            ("cache_path"@, Doc::Null),
            ("chars"@, Doc::Null),
            ("tokens_estimate"@, Doc::Null),
            ("budget_fit"@, Doc::Null),
            ("default_budget_fit"@, Doc::Null),
        ],
    };
    Doc::Obj(
        own + seq![
            ("max_files"@, jnum(max_files as int)),
            ("max_manifest_chars"@, jnum(max_manifest_chars as int)),
            (
                "max_manifest_tokens_estimate"@,
                jnum(tokens_of(max_manifest_chars as nat) as int),
            ),
            ("budgets"@, budgets_doc(max_files, max_manifest_chars)),
        ],
    )
}

/// The status document on a project context.
pub fn project_context_status_json(
    ctx: Option<&ProjectContext>,
    refresh: bool,
    max_files: usize,
    max_manifest_chars: usize,
    budget_chars: Option<usize>,
) -> (r: Json)
    ensures
        r@ == context_doc(
            opt_context(ctx),
            refresh,
            max_files,
            max_manifest_chars,
            budget_chars,
        ),
{
    project_context_fields(ctx, refresh, max_files, max_manifest_chars, budget_chars).object()
}

/// The fields of the status document on a project context.
pub fn project_context_fields(
    ctx: Option<&ProjectContext>,
    refresh: bool,
    max_files: usize,
    max_manifest_chars: usize,
    budget_chars: Option<usize>,
) -> (r: Fields)
    ensures
        Doc::Obj(r@) == context_doc(
            opt_context(ctx),
            refresh,
            max_files,
            max_manifest_chars,
            budget_chars,
        ),
{
    let mut f = Fields::new();
    match ctx {
        Some(c) => {
            let chars: usize = char_count(c.text.as_str());
            f.put("enabled", truth(true));
            f.put("refresh", truth(refresh));
            f.put("cache_hit", truth(c.cache_hit));
            f.put("cache_path", text(c.cache_path.as_str()));
            f.put("chars", size(chars));
            f.put("tokens_estimate", size(estimated_tokens(chars)));
            f.put("budget_fit", context_budget_fit_json(chars, budget_chars));
            f.put("default_budget_fit", context_budget_fit_json(chars, budget_chars));
        },
        None => {
            f.put("enabled", truth(false));
            f.put("refresh", truth(refresh));
            f.put("cache_hit", null());
            f.put("cache_path", null());
            f.put("chars", null());
            f.put("tokens_estimate", null());
            f.put("budget_fit", null());
            f.put("default_budget_fit", null());
        },
    }
    f.put("max_files", size(max_files));
    f.put("max_manifest_chars", size(max_manifest_chars));
    f.put("max_manifest_tokens_estimate", size(estimated_tokens(max_manifest_chars)));
    f.put("budgets", budgets_json(max_files, max_manifest_chars));
    proof {
        assert(f@ =~= context_doc(
            opt_context(ctx),
            refresh,
            max_files,
            max_manifest_chars,
            budget_chars,
        )->Obj_0);
    }
    f
}

// ---- Laws ------------------------------------------------------------------

/// Whether two files differ at most in the time of their last change and in
/// the hash of their excerpt.
pub open spec fn same_but_times(a: FileInfo, b: FileInfo) -> bool {
    a.rel@ == b.rel@ && a.len == b.len
}

/// The signature does not depend on when a file of the map was changed: two
/// maps with the same paths and sizes have the same signature.
pub proof fn law_signature_ignores_map_times(
    root: Seq<char>,
    a: Seq<FileInfo>,
    b: Seq<FileInfo>,
    manifests: Seq<FileInfo>,
    max_files: usize,
    max_manifest_chars: usize,
)
    requires
        a.len() == b.len(),
        forall|i: int| 0 <= i < a.len() ==> same_but_times(#[trigger] a[i], b[i]),
    ensures
        signature_of(root, a, manifests, max_files, max_manifest_chars) == signature_of(
            root,
            b,
            manifests,
            max_files,
            max_manifest_chars,
        ),
{
    let start = hash_parts(seq![CACHE_VERSION@, root]);
    let limits = hash_bytes(
        hash_bytes(start, le_bytes(max_files as nat, 8)),
        le_bytes(max_manifest_chars as nat, 8),
    );
    lemma_hash_files_eq(limits, a, b);
}

proof fn lemma_hash_files_eq(h: u64, a: Seq<FileInfo>, b: Seq<FileInfo>)
    requires
        a.len() == b.len(),
        forall|i: int| 0 <= i < a.len() ==> same_but_times(#[trigger] a[i], b[i]),
    ensures
        hash_files(h, a) == hash_files(h, b),
    decreases a.len(),
{
    if a.len() > 0 {
        assert(same_but_times(a[a.len() - 1], b[b.len() - 1]));
        assert forall|i: int| 0 <= i < a.drop_last().len() implies same_but_times(
            #[trigger] a.drop_last()[i],
            b.drop_last()[i],
        ) by {
            assert(same_but_times(a[i], b[i]));
        }
        lemma_hash_files_eq(h, a.drop_last(), b.drop_last());
    }
}

/// The signature does not depend on when a manifest was changed where the hash
/// of its excerpt is known.
pub proof fn law_signature_ignores_known_manifest_times(
    root: Seq<char>,
    files: Seq<FileInfo>,
    a: Seq<FileInfo>,
    b: Seq<FileInfo>,
    max_files: usize,
    max_manifest_chars: usize,
)
    requires
        a.len() == b.len(),
        forall|i: int|
            0 <= i < a.len() ==> same_but_times(#[trigger] a[i], b[i])
                && a[i].manifest_excerpt_hash.is_some() && a[i].manifest_excerpt_hash
                == b[i].manifest_excerpt_hash,
    ensures
        signature_of(root, files, a, max_files, max_manifest_chars) == signature_of(
            root,
            files,
            b,
            max_files,
            max_manifest_chars,
        ),
{
    let start = hash_parts(seq![CACHE_VERSION@, root]);
    let limits = hash_bytes(
        hash_bytes(start, le_bytes(max_files as nat, 8)),
        le_bytes(max_manifest_chars as nat, 8),
    );
    lemma_hash_manifests_eq(hash_byte(hash_files(limits, files), 0xfe), a, b);
}

proof fn lemma_hash_manifests_eq(h: u64, a: Seq<FileInfo>, b: Seq<FileInfo>)
    requires
        a.len() == b.len(),
        forall|i: int|
            0 <= i < a.len() ==> same_but_times(#[trigger] a[i], b[i])
                && a[i].manifest_excerpt_hash.is_some() && a[i].manifest_excerpt_hash
                == b[i].manifest_excerpt_hash,
    ensures
        hash_manifests(h, a) == hash_manifests(h, b),
    decreases a.len(),
{
    if a.len() > 0 {
        assert(same_but_times(a[a.len() - 1], b[b.len() - 1]));
        assert forall|i: int| 0 <= i < a.drop_last().len() implies same_but_times(
            #[trigger] a.drop_last()[i],
            b.drop_last()[i],
        ) && a.drop_last()[i].manifest_excerpt_hash.is_some()
            && a.drop_last()[i].manifest_excerpt_hash
            == b.drop_last()[i].manifest_excerpt_hash by {
            assert(same_but_times(a[i], b[i]));
        }
        lemma_hash_manifests_eq(h, a.drop_last(), b.drop_last());
    }
}

/// Whether files stand in order.
pub open spec fn in_order(s: Seq<FileInfo>, by_rank: bool) -> bool {
    forall|i: int, j: int| 0 <= i < j < s.len() ==> file_le(#[trigger] s[i], #[trigger] s[j], by_rank)
}

proof fn lemma_file_le_total(a: FileInfo, b: FileInfo, by_rank: bool)
    ensures
        file_le(a, b, by_rank) || file_le(b, a, by_rank),
{
    crate::order::lemma_text_le_total(a.rel@, b.rel@);
}

proof fn lemma_file_le_transitive(a: FileInfo, b: FileInfo, c: FileInfo, by_rank: bool)
    requires
        file_le(a, b, by_rank),
        file_le(b, c, by_rank),
    ensures
        file_le(a, c, by_rank),
{
    if !(by_rank && (rank(a.rel@) != rank(b.rel@) || rank(b.rel@) != rank(c.rel@))) {
        crate::order::lemma_text_le_transitive(a.rel@, b.rel@, c.rel@);
    }
}

proof fn lemma_with_file_sorted(s: Seq<FileInfo>, x: FileInfo, by_rank: bool)
    requires
        in_order(s, by_rank),
    ensures
        in_order(with_file(s, x, by_rank), by_rank),
        with_file(s, x, by_rank).to_multiset() == s.to_multiset().insert(x),
        forall|f: FileInfo|
            (forall|i: int| 0 <= i < s.len() ==> file_le(#[trigger] s[i], f, by_rank)) && file_le(
                x,
                f,
                by_rank,
            ) ==> forall|i: int|
                0 <= i < with_file(s, x, by_rank).len() ==> file_le(
                    #[trigger] with_file(s, x, by_rank)[i],
                    f,
                    by_rank,
                ),
    decreases s.len(),
{
    broadcast use vstd::seq_lib::group_to_multiset_ensures;

    let r = with_file(s, x, by_rank);
    if s.len() == 0 || file_le(s.last(), x, by_rank) {
        assert forall|i: int, j: int| 0 <= i < j < r.len() implies file_le(
            #[trigger] r[i],
            #[trigger] r[j],
            by_rank,
        ) by {
            if j == s.len() {
                if i < s.len() - 1 {
                    assert(file_le(s[i], s[s.len() - 1], by_rank));
                    lemma_file_le_transitive(s[i], s[s.len() - 1], x, by_rank);
                }
            } else {
                assert(file_le(s[i], s[j], by_rank));
            }
        }
    } else {
        let init = s.drop_last();
        let last = s.last();
        assert(in_order(init, by_rank)) by {
            assert forall|i: int, j: int| 0 <= i < j < init.len() implies file_le(
                #[trigger] init[i],
                #[trigger] init[j],
                by_rank,
            ) by {
                assert(file_le(s[i], s[j], by_rank));
            }
        }
        lemma_with_file_sorted(init, x, by_rank);
        let w = with_file(init, x, by_rank);
        lemma_file_le_total(last, x, by_rank);
        assert forall|i: int| 0 <= i < init.len() implies file_le(
            #[trigger] init[i],
            last,
            by_rank,
        ) by {
            assert(file_le(s[i], s[s.len() - 1], by_rank));
        }
        assert forall|i: int, j: int| 0 <= i < j < r.len() implies file_le(
            #[trigger] r[i],
            #[trigger] r[j],
            by_rank,
        ) by {
            if j == w.len() {
                assert(file_le(w[i], last, by_rank));
            } else {
                assert(file_le(w[i], w[j], by_rank));
            }
        }
        assert(init.push(last) =~= s);
        assert(s.to_multiset() == init.to_multiset().insert(last));
        assert(init.to_multiset().insert(x).insert(last) =~= init.to_multiset().insert(last).insert(
            x,
        ));
    }
}

/// Sorting files neither loses nor adds any, and puts them in order.
pub proof fn law_sorting_keeps_files(s: Seq<FileInfo>, by_rank: bool)
    ensures
        in_order(sorted_files(s, by_rank), by_rank),
        sorted_files(s, by_rank).to_multiset() == s.to_multiset(),
    decreases s.len(),
{
    broadcast use vstd::seq_lib::group_to_multiset_ensures;

    if s.len() > 0 {
        law_sorting_keeps_files(s.drop_last(), by_rank);
        lemma_with_file_sorted(sorted_files(s.drop_last(), by_rank), s.last(), by_rank);
        assert(s.drop_last().push(s.last()) =~= s);
    } else {
        assert(s =~= Seq::empty());
    }
}

/// Whether a text is free of line breaks.
pub open spec fn one_line_only(s: Seq<char>) -> bool {
    forall|i: int| 0 <= i < s.len() ==> #[trigger] s[i] != '\n'
}

proof fn lemma_payload_header(signature: Seq<char>, body: Seq<char>)
    requires
        one_line_only(signature),
    ensures
        ({
            let header = CACHE_VERSION@ + "\nsignature:"@ + signature;
            &&& find_from(payload_of(signature, body), "\n---\n"@, 0) == Some(header.len() as int)
            &&& payload_of(signature, body).take(header.len() as int) == header
            &&& payload_of(signature, body).skip((header.len() + 5) as int) == body
        }),
{
    reveal_strlit("project-context-v7");
    reveal_strlit("\nsignature:");
    reveal_strlit("\n---\n");
    let header = CACHE_VERSION@ + "\nsignature:"@ + signature;
    let p = payload_of(signature, body);
    let sep = "\n---\n"@;
    let n = header.len() as int;
    assert(p.take(n) =~= header);
    assert(p.skip(n + 5) =~= body);
    assert(p.subrange(n, n + 5) =~= sep);
    assert(occurs_at(p, sep, n));
    assert forall|i: int| 0 <= i < n implies !occurs_at(p, sep, i) by {
        if occurs_at(p, sep, i) {
            assert(p.subrange(i, i + 5)[0] == p[i]);
            assert(p.subrange(i, i + 5)[1] == p[i + 1]);
            if i < 18 {
                assert(p[i] == CACHE_VERSION@[i]);
            } else if i == 18 {
                assert(p[19] == "\nsignature:"@[1]);
            } else if i < 29 {
                assert(p[i] == "\nsignature:"@[i - 18]);
            } else {
                assert(p[i] == signature[i - 29]);
            }
        }
    }
    crate::scan::lemma_find_from(p, sep, 0);
}

proof fn lemma_header_lines(signature: Seq<char>)
    requires
        one_line_only(signature),
    ensures
        lines_of(CACHE_VERSION@ + "\nsignature:"@ + signature) == seq![
            CACHE_VERSION@,
            "signature:"@ + signature,
        ],
{
    reveal_strlit("project-context-v7");
    reveal_strlit("\nsignature:");
    reveal_strlit("signature:");
    let header = CACHE_VERSION@ + "\nsignature:"@ + signature;
    let second = "signature:"@ + signature;
    assert(header[18] == '\n');
    assert forall|i: int| 0 <= i < 18 implies header[i] != '\n' by {
        assert(header[i] == CACHE_VERSION@[i]);
    }
    crate::scan::lemma_char_from(header, '\n', 0);
    assert(char_from(header, '\n', 0) == Some(18int));
    assert(header.take(18) =~= CACHE_VERSION@);
    assert(header.skip(19) =~= second);
    assert forall|i: int| 0 <= i < second.len() implies second[i] != '\n' by {
        if i >= 10 {
            assert(second[i] == signature[i - 10]);
        }
    }
    crate::scan::lemma_char_from(second, '\n', 0);
    assert(char_from(second, '\n', 0).is_none());
    let p = split_at_char(header, '\n');
    assert(split_at_char(second, '\n') =~= seq![second]);
    assert(p =~= seq![CACHE_VERSION@, second]);
    assert(crate::scan::without_cr(CACHE_VERSION@) =~= CACHE_VERSION@);
    assert(lines_of(header) =~= seq![CACHE_VERSION@, second]);
}

/// What was written to the cache under a signature is read back under that
/// signature, whole.
pub proof fn law_cache_reads_back(signature: Seq<char>, body: Seq<char>)
    requires
        one_line_only(signature),
    ensures
        cached_context(payload_of(signature, body), signature) == Some(body),
{
    lemma_payload_header(signature, body);
    lemma_header_lines(signature);
    let l = lines_of(CACHE_VERSION@ + "\nsignature:"@ + signature);
    assert(l[1] == "signature:"@ + signature);
}

/// What was written to the cache under one signature is not read under another.
pub proof fn law_cache_refuses_other_signature(
    signature: Seq<char>,
    other: Seq<char>,
    body: Seq<char>,
)
    requires
        one_line_only(signature),
        signature != other,
    ensures
        cached_context(payload_of(signature, body), other).is_none(),
{
    reveal_strlit("signature:");
    reveal_strlit("project-context-v7");
    lemma_payload_header(signature, body);
    lemma_header_lines(signature);
    let l = lines_of(CACHE_VERSION@ + "\nsignature:"@ + signature);
    let want = "signature:"@ + other;
    assert forall|i: int| 0 <= i < l.len() implies #[trigger] l[i] != want by {
        if i == 0 {
            assert(l[0][0] == 'p');
            assert(want[0] == 's');
        } else if l[i] == want {
            assert(l[i].skip(10) =~= signature);
            assert(want.skip(10) =~= other);
        }
    }
}

/// Signatures are free of line breaks, so the laws on the cache hold of them.
pub proof fn law_signatures_are_one_line(n: nat, width: nat)
    ensures
        one_line_only(hex(n, width)),
    decreases width,
{
    if width > 0 {
        law_signatures_are_one_line(n / 16, (width - 1) as nat);
        let s = hex(n, width);
        let before = hex(n / 16, (width - 1) as nat);
        assert forall|i: int| 0 <= i < s.len() implies #[trigger] s[i] != '\n' by {
            if i < before.len() {
                assert(s[i] == before[i]);
            }
        }
    }
}

} // verus!
