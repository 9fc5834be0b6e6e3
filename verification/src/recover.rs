//! Runs that were saved: reading them back, in which order they are listed,
//! and which of them is meant.
use vstd::prelude::*;
use crate::artifacts::{runs_dir, runs_dir_of};
use crate::error::TalesError;
use crate::json::{
    doc_str, doc_u64, docs, jopt_str, jopt_u64, jstr, lemma_docs_push, list, member, opt_num,
    opt_string, text, Doc, Fields, Json,
};
use crate::json_read::{read_json, read_text};
use crate::numeral::{decimal, opt_dec, parse_u64, parsed_u64};
use crate::order::{
    le, lemma_text_le_antisymmetric, lemma_text_le_total, lemma_text_le_transitive, text_le,
};
use crate::path::{file_name, file_name_of, join, joined};
use crate::scan::{lemma_split_nonempty, split_at_char, split_char};
use crate::text::{chars_of, flat, lemma_flat_push, opt_text, same};

verus! {

/// A run that was saved.
#[derive(Debug)]
pub struct RecoverRun {
    pub id: String,
    pub path: String,
    pub task: Option<String>,
    pub status: Option<String>,
    pub executor: Option<String>,
    pub updated_unix: Option<u64>,
}

/// The contents of a [`RecoverRun`].
pub struct RunView {
    pub id: Seq<char>,
    pub path: Seq<char>,
    pub task: Option<Seq<char>>,
    pub status: Option<Seq<char>>,
    pub executor: Option<Seq<char>>,
    pub updated_unix: Option<u64>,
}

impl View for RecoverRun {
    type V = RunView;

    open spec fn view(&self) -> RunView {
        RunView {
            id: self.id@,
            path: self.path@,
            task: opt_text(self.task),
            status: opt_text(self.status),
            executor: opt_text(self.executor),
            updated_unix: self.updated_unix,
        }
    }
}

/// The contents of a list of runs.
pub open spec fn run_views(v: Seq<RecoverRun>) -> Seq<RunView> {
    Seq::new(v.len(), |i: int| v[i]@)
}

/// The name of a run's directory.
pub open spec fn run_id(path: Seq<char>) -> Seq<char> {
    match file_name_of(path) {
        Some(n) => n,
        None => "run"@,
    }
}

/// When a run started, as its name tells.
pub open spec fn started_in_name(id: Seq<char>) -> Option<u64> {
    parsed_u64(split_at_char(id, '-')[0])
}

/// What a manifest holds under a name.
pub open spec fn told_of(manifest: Option<Doc>, name: Seq<char>) -> Option<Doc> {
    match manifest {
        Some(m) => member(m, name),
        None => None,
    }
}

/// The run at a path with its manifest, if it has one that can be read.
pub open spec fn run_of(path: Seq<char>, manifest: Option<Doc>) -> RunView {
    RunView {
        id: run_id(path),
        path,
        task: doc_str(told_of(manifest, "task"@)),
        status: doc_str(told_of(manifest, "status"@)),
        executor: doc_str(told_of(manifest, "executor"@)),
        updated_unix: match doc_u64(told_of(manifest, "updated_unix"@)) {
            Some(n) => Some(n),
            None => started_in_name(run_id(path)),
        },
    }
}

/// The contents of an optional document.
pub open spec fn opt_manifest(m: Option<Json>) -> Option<Doc> {
    match m {
        Some(j) => Some(j@),
        None => None,
    }
}

fn string_in(manifest: &Option<Json>, name: &str) -> (r: Option<String>)
    ensures
        opt_text(r) == doc_str(told_of(opt_manifest(*manifest), name@)),
{
    match manifest {
        Some(m) => match m.get(name) {
            Some(v) => match v.as_str() {
                Some(s) => Some(s.to_owned()),
                None => None,
            },
            None => None,
        },
        None => None,
    }
}

fn number_in(manifest: &Option<Json>, name: &str) -> (r: Option<u64>)
    ensures
        r == doc_u64(told_of(opt_manifest(*manifest), name@)),
{
    match manifest {
        Some(m) => match m.get(name) {
            Some(v) => v.as_u64(),
            None => None,
        },
        None => None,
    }
}

/// The run at a path with its manifest, if it has one that can be read.
pub fn load_recover_run(path: String, manifest: Option<Json>) -> (r: RecoverRun)
    ensures
        r@ == run_of(path@, opt_manifest(manifest)),
{
    let id = match file_name(path.as_str()) {
        Some(n) => n,
        None => "run".to_owned(),
    };
    let pieces = split_char(id.as_str(), '-');
    proof {
        lemma_split_nonempty(id@, '-');
        assert(crate::text::texts(pieces@)[0] == pieces@[0]@);
    }
    let updated_unix = match number_in(&manifest, "updated_unix") {
        Some(n) => Some(n),
        None => parse_u64(&chars_of(pieces[0].as_str())),
    };
    RecoverRun {
        id,
        task: string_in(&manifest, "task"),
        status: string_in(&manifest, "status"),
        executor: string_in(&manifest, "executor"),
        updated_unix,
        path,
    }
}

/// The document of a record, where there is one and it can be read.
pub open spec fn record_doc(record: Option<Seq<char>>) -> Option<Doc> {
    match record {
        Some(text) => read_text(text).ok(),
        None => None,
    }
}

/// The run at a path with the text of its record, where it has one.
pub fn read_recover_run(path: String, record: Option<String>) -> (r: RecoverRun)
    ensures
        r@ == run_of(path@, record_doc(opt_text(record))),
{
    let manifest = match record {
        Some(text) => match read_json(text.as_str()) {
            Ok(j) => Some(j),
            Err(_) => None,
        },
        None => None,
    };
    load_recover_run(path, manifest)
}

// ---- Order -----------------------------------------------------------------

/// Whether a moment is later than another; a known one is later than an
/// unknown.
pub open spec fn later(a: Option<u64>, b: Option<u64>) -> bool {
    match (a, b) {
        (Some(x), Some(y)) => x > y,
        (Some(_), None) => true,
        _ => false,
    }
}

/// Whether a run is listed before another: the later one, and at the same time
/// the one with the greater name.
pub open spec fn listed_before(a: RunView, b: RunView) -> bool {
    later(a.updated_unix, b.updated_unix) || (a.updated_unix == b.updated_unix && text_le(
        b.id,
        a.id,
    ) && a.id != b.id)
}

/// Where a run goes in a list: before the first that it is listed before.
pub open spec fn run_place(s: Seq<RunView>, x: RunView) -> int
    decreases s.len(),
{
    if s.len() == 0 {
        0
    } else if listed_before(x, s[0]) {
        0
    } else {
        1 + run_place(s.skip(1), x)
    }
}

/// The runs in the order in which they are listed; those of the same time and
/// name stay as they stood.
pub open spec fn arranged(s: Seq<RunView>) -> Seq<RunView>
    decreases s.len(),
{
    if s.len() == 0 {
        s
    } else {
        let r = arranged(s.drop_last());
        r.insert(run_place(r, s.last()), s.last())
    }
}

proof fn lemma_run_place(s: Seq<RunView>, x: RunView)
    ensures
        0 <= run_place(s, x) <= s.len(),
        forall|i: int| 0 <= i < run_place(s, x) ==> !listed_before(x, #[trigger] s[i]),
        run_place(s, x) < s.len() ==> listed_before(x, s[run_place(s, x)]),
    decreases s.len(),
{
    if s.len() > 0 && !listed_before(x, s[0]) {
        lemma_run_place(s.skip(1), x);
        assert forall|i: int| 0 <= i < run_place(s, x) implies !listed_before(x, #[trigger] s[i]) by {
            if i > 0 {
                assert(s.skip(1)[i - 1] == s[i]);
            }
        }
    }
}

proof fn lemma_place_unique(s: Seq<RunView>, x: RunView, k: int)
    requires
        0 <= k <= s.len(),
        forall|i: int| 0 <= i < k ==> !listed_before(x, #[trigger] s[i]),
        k < s.len() ==> listed_before(x, s[k]),
    ensures
        run_place(s, x) == k,
{
    lemma_run_place(s, x);
    let p = run_place(s, x);
    if p < k {
        assert(!listed_before(x, s[p]));
    }
    if k < p {
        assert(!listed_before(x, s[k]));
    }
}

/// Whether a list is in the order in which runs are listed.
pub open spec fn in_order(s: Seq<RunView>) -> bool {
    forall|i: int, j: int| 0 <= i < j < s.len() ==> !listed_before(#[trigger] s[j], #[trigger] s[i])
}

proof fn lemma_listed_transitive(a: RunView, b: RunView, c: RunView)
    requires
        !listed_before(b, a),
        !listed_before(c, b),
    ensures
        !listed_before(c, a),
{
    lemma_text_le_total(a.id, b.id);
    lemma_text_le_total(b.id, c.id);
    lemma_text_le_total(a.id, c.id);
    if listed_before(c, a) {
        if c.updated_unix == a.updated_unix {
            assert(a.updated_unix == b.updated_unix);
            lemma_text_le_transitive(c.id, b.id, a.id);
            lemma_text_le_antisymmetric(a.id, c.id);
        }
    }
}

proof fn lemma_listed_asymmetric(a: RunView, b: RunView)
    requires
        listed_before(a, b),
    ensures
        !listed_before(b, a),
{
    if a.updated_unix == b.updated_unix && listed_before(b, a) {
        lemma_text_le_antisymmetric(a.id, b.id);
    }
}

/// The list of runs holds every run once, and none is listed behind one that
/// it should come before: the newest stands first.
pub proof fn law_runs_are_listed_newest_first(s: Seq<RunView>)
    ensures
        in_order(arranged(s)),
        arranged(s).to_multiset() == s.to_multiset(),
        arranged(s).len() == s.len(),
    decreases s.len(),
{
    broadcast use vstd::seq_lib::group_to_multiset_ensures;

    if s.len() > 0 {
        let r = arranged(s.drop_last());
        let x = s.last();
        law_runs_are_listed_newest_first(s.drop_last());
        lemma_run_place(r, x);
        let p = run_place(r, x);
        let t = r.insert(p, x);
        assert forall|i: int, j: int| 0 <= i < j < t.len() implies !listed_before(
            #[trigger] t[j],
            #[trigger] t[i],
        ) by {
            let a = if i < p {
                i
            } else {
                i - 1
            };
            let b = if j < p {
                j
            } else {
                j - 1
            };
            if i == p {
                assert(t[j] == r[b]);
                lemma_listed_asymmetric(x, r[p]);
                if b > p {
                    assert(!listed_before(r[b], r[p]));
                    lemma_listed_transitive(x, r[p], r[b]);
                }
            } else if j == p {
                assert(t[i] == r[a]);
            } else {
                assert(t[i] == r[a] && t[j] == r[b]);
            }
        }
        assert(s =~= s.drop_last().push(x));
        assert(t.to_multiset() =~= r.to_multiset().insert(x));
    } else {
        assert(arranged(s) =~= s);
    }
}

fn comes_before(a: &RecoverRun, b: &RecoverRun) -> (r: bool)
    ensures
        r == listed_before(a@, b@),
{
    let (is_later, same_time): (bool, bool) = match (a.updated_unix, b.updated_unix) {
        (Some(x), Some(y)) => (x > y, x == y),
        (Some(_), None) => (true, false),
        (None, Some(_)) => (false, false),
        (None, None) => (false, true),
    };
    is_later || (same_time && le(b.id.as_str(), a.id.as_str()) && !same(a.id.as_str(), b.id.as_str()))
}

/// The runs in the order in which they are listed.
pub fn sort_runs(runs: Vec<RecoverRun>) -> (r: Vec<RecoverRun>)
    ensures
        run_views(r@) == arranged(run_views(runs@)),
{
    let ghost all = run_views(runs@);
    let mut rest = runs;
    let mut out: Vec<RecoverRun> = Vec::new();
    let n: usize = rest.len();
    let mut i: usize = 0;
    proof {
        assert(run_views(out@) =~= arranged(all.take(0)));
        assert(run_views(rest@) =~= all.skip(0));
    }
    while i < n
        invariant
            i <= n,
            n == all.len(),
            run_views(rest@) == all.skip(i as int),
            run_views(out@) == arranged(all.take(i as int)),
        decreases n - i,
    {
        proof {
            assert(run_views(rest@).len() == n - i);
        }
        let ghost held = rest@;
        let x = rest.remove(0);
        let ghost sorted = run_views(out@);
        proof {
            assert(x@ == all.skip(i as int)[0]);
            assert forall|k: int| 0 <= k < rest@.len() implies #[trigger] rest@[k]@ == all.skip(
                i + 1,
            )[k] by {
                assert(rest@[k] == held[k + 1]);
                assert(run_views(held)[k + 1] == all.skip(i as int)[k + 1]);
            }
            assert(run_views(rest@) =~= all.skip(i + 1));
        }
        let mut k: usize = 0;
        while k < out.len() && !comes_before(&x, &out[k])
            invariant
                k <= out.len(),
                sorted == run_views(out@),
                forall|m: int| 0 <= m < k ==> !listed_before(x@, #[trigger] sorted[m]),
            decreases out.len() - k,
        {
            k = k + 1;
        }
        proof {
            lemma_place_unique(sorted, x@, k as int);
            assert(all.take(i + 1).drop_last() =~= all.take(i as int));
            assert(all.take(i + 1).last() == x@);
        }
        let ghost item = x@;
        out.insert(k, x);
        proof {
            assert(run_views(out@) =~= sorted.insert(k as int, item));
        }
        i = i + 1;
    }
    proof {
        assert(all.take(n as int) =~= all);
    }
    out
}

// ---- Choice ----------------------------------------------------------------

/// Which run is meant.
#[derive(Debug)]
pub enum Meant {
    /// None in particular: all are listed.
    All,
    /// The one at a place of the list.
    Listed(usize),
    /// The one at a path, if there is a directory.
    At(String),
}

/// The place of the run with a name; the first of several.
pub open spec fn place_of_id(s: Seq<RunView>, id: Seq<char>) -> Option<int>
    decreases s.len(),
{
    if s.len() == 0 {
        None
    } else {
        match place_of_id(s.drop_last(), id) {
            Some(k) => Some(k),
            None => if s.last().id == id {
                Some(s.len() - 1)
            } else {
                None
            },
        }
    }
}

/// The path that a name of a run may stand for.
pub open spec fn run_path(cwd: Seq<char>, id_or_path: Seq<char>) -> Seq<char> {
    joined(runs_dir_of(cwd), id_or_path)
}

fn find_run(runs: &Vec<RecoverRun>, id: &str) -> (r: Option<usize>)
    ensures
        match r {
            Some(k) => place_of_id(run_views(runs@), id@) == Some(k as int) && k < runs@.len(),
            None => place_of_id(run_views(runs@), id@) is None,
        },
{
    let ghost all = run_views(runs@);
    let mut found: Option<usize> = None;
    let mut i: usize = 0;
    proof {
        assert(all.take(0) =~= Seq::empty());
    }
    while i < runs.len()
        invariant
            i <= runs.len(),
            all == run_views(runs@),
            match found {
                Some(k) => place_of_id(all.take(i as int), id@) == Some(k as int) && k < i,
                None => place_of_id(all.take(i as int), id@) is None,
            },
        decreases runs.len() - i,
    {
        proof {
            assert(all.take(i + 1).drop_last() =~= all.take(i as int));
            assert(all.take(i + 1).last() == all[i as int]);
        }
        if found.is_none() && same(runs[i].id.as_str(), id) {
            found = Some(i);
        }
        i = i + 1;
    }
    proof {
        assert(all.take(i as int) =~= all);
    }
    found
}

/// The text that is given, if any.
pub open spec fn opt_str(t: Option<&str>) -> Option<Seq<char>> {
    match t {
        Some(s) => Some(s@),
        None => None,
    }
}

/// Whether a run is the one that is meant.
pub open spec fn is_meant(
    m: Meant,
    cwd: Seq<char>,
    runs: Seq<RunView>,
    run: Option<Seq<char>>,
    latest: bool,
) -> bool {
    match run {
        Some(id) => match place_of_id(runs, id) {
            Some(k) => m matches Meant::Listed(i) && i == k,
            None => m matches Meant::At(p) && p@ == run_path(cwd, id),
        },
        None => if latest {
            m matches Meant::Listed(i) && i == 0
        } else {
            m is All
        },
    }
}

/// Which run is meant: the one that is named, else the newest where that was
/// asked for, else none in particular. A name that is not in the list is taken
/// as a path below the runs of the workspace.
pub fn choose_run(cwd: &str, runs: &Vec<RecoverRun>, run: Option<&str>, latest: bool) -> (r: Meant)
    requires
        runs@.len() > 0,
    ensures
        is_meant(r, cwd@, run_views(runs@), opt_str(run), latest),
        match run {
            Some(id) => match place_of_id(run_views(runs@), id@) {
                Some(k) => r matches Meant::Listed(i) && i == k,
                None => r matches Meant::At(p) && p@ == run_path(cwd@, id@),
            },
            None => if latest {
                r matches Meant::Listed(i) && i == 0
            } else {
                r is All
            },
        },
{
    match run {
        Some(id) => match find_run(runs, id) {
            Some(k) => Meant::Listed(k),
            None => Meant::At(join(runs_dir(cwd).as_str(), id)),
        },
        None => if latest {
            Meant::Listed(0)
        } else {
            Meant::All
        },
    }
}

/// What is said where no run is found under a name.
pub fn unknown_run(id_or_path: &str) -> (r: TalesError)
    ensures
        r matches TalesError::Other(m) && m@ == "no Tales run artifact found for "@ + id_or_path@,
{
    let mut m = "no Tales run artifact found for ".to_owned();
    m.append(id_or_path);
    TalesError::Other(m)
}

// ---- What is shown ---------------------------------------------------------

pub open spec fn run_doc(r: RunView) -> Doc {
    Doc::Obj(
        seq![
            ("id"@, jstr(r.id)),
            ("path"@, jstr(r.path)),
            ("task"@, jopt_str(r.task)),
            ("status"@, jopt_str(r.status)),
            ("executor"@, jopt_str(r.executor)),
            ("updated_unix"@, jopt_u64(r.updated_unix)),
            ("plan_path"@, jstr(joined(r.path, "plan.md"@))),
            ("events_path"@, jstr(joined(r.path, "events.jsonl"@))),
            ("manifest_path"@, jstr(joined(r.path, "run.json"@))),
        ],
    )
}

/// A run as a document.
pub fn recover_run_json(run: &RecoverRun) -> (r: Json)
    ensures
        r@ == run_doc(run@),
{
    let mut f = Fields::new();
    f.put("id", text(run.id.as_str()));
    f.put("path", text(run.path.as_str()));
    f.put("task", opt_string(&run.task));
    f.put("status", opt_string(&run.status));
    f.put("executor", opt_string(&run.executor));
    f.put("updated_unix", opt_num(run.updated_unix));
    f.put("plan_path", text(join(run.path.as_str(), "plan.md").as_str()));
    f.put("events_path", text(join(run.path.as_str(), "events.jsonl").as_str()));
    f.put("manifest_path", text(join(run.path.as_str(), "run.json").as_str()));
    proof {
        assert(f@ =~= run_doc(run@)->Obj_0);
    }
    f.object()
}

pub open spec fn runs_doc(runs: Seq<RunView>) -> Doc {
    Doc::Obj(seq![("runs"@, Doc::Arr(Seq::new(runs.len(), |i: int| run_doc(runs[i]))))])
}

/// The runs as a document.
pub fn runs_json(runs: &Vec<RecoverRun>) -> (r: Json)
    ensures
        r@ == runs_doc(run_views(runs@)),
{
    let ghost one = |i: int| run_doc(run_views(runs@)[i]);
    let mut all: Vec<Json> = Vec::new();
    let mut i: usize = 0;
    proof {
        assert(docs(all@) =~= Seq::new(0, one));
    }
    while i < runs.len()
        invariant
            i <= runs.len(),
            one == (|i: int| run_doc(run_views(runs@)[i])),
            docs(all@) == Seq::new(i as nat, one),
        decreases runs.len() - i,
    {
        let x = recover_run_json(&runs[i]);
        proof {
            lemma_docs_push(all@, x);
            assert(Seq::new((i + 1) as nat, one) =~= Seq::new(i as nat, one).push(x@));
        }
        all.push(x);
        i = i + 1;
    }
    let mut f = Fields::new();
    f.put("runs", list(all));
    proof {
        assert(f@ =~= runs_doc(run_views(runs@))->Obj_0);
    }
    f.object()
}

/// One run and its plan, if that was read, as a document.
pub fn chosen_run_json(run: &RecoverRun, plan: &Option<String>) -> (r: Json)
    ensures
        r@ == Doc::Obj(
            seq![("run"@, run_doc(run@)), ("plan"@, jopt_str(opt_text(*plan)))],
        ),
{
    let mut f = Fields::new();
    f.put("run", recover_run_json(run));
    f.put("plan", opt_string(plan));
    proof {
        assert(f@ =~= seq![("run"@, run_doc(run@)), ("plan"@, jopt_str(opt_text(*plan)))]);
    }
    f.object()
}

pub open spec fn or_else(t: Option<Seq<char>>, other: Seq<char>) -> Seq<char> {
    match t {
        Some(s) => s,
        None => other,
    }
}

fn string_or<'a>(t: &'a Option<String>, other: &'a str) -> (r: &'a str)
    ensures
        r@ == or_else(opt_text(*t), other@),
{
    match t {
        Some(s) => s.as_str(),
        None => other,
    }
}

fn number_or(n: Option<u64>, other: &str) -> (r: String)
    ensures
        r@ == or_else(opt_dec(n), other@),
{
    match n {
        Some(n) => decimal(n),
        None => other.to_owned(),
    }
}

/// The line on a run.
pub open spec fn run_line(r: RunView) -> Seq<char> {
    "- "@ + r.id + "  status="@ + or_else(r.status, "unknown"@) + "  executor="@
        + or_else(r.executor, "-"@) + "  updated="@ + or_else(opt_dec(r.updated_unix), "-"@)
        + "  task="@ + or_else(r.task, "-"@) + "\n"@
}

/// The line on a run.
pub fn recover_run_line(run: &RecoverRun) -> (r: String)
    ensures
        r@ == run_line(run@),
{
    let mut out = "- ".to_owned();
    out.append(run.id.as_str());
    out.append("  status=");
    out.append(string_or(&run.status, "unknown"));
    out.append("  executor=");
    out.append(string_or(&run.executor, "-"));
    out.append("  updated=");
    out.append(number_or(run.updated_unix, "-").as_str());
    out.append("  task=");
    out.append(string_or(&run.task, "-"));
    out.append("\n");
    out
}

/// What is shown of one run.
pub fn recover_run_text(run: &RecoverRun) -> (r: String)
    ensures
        r@ == run_line(run@) + "  plan: "@ + joined(run@.path, "plan.md"@) + "\n  events: "@
            + joined(run@.path, "events.jsonl"@) + "\n  manifest: "@
            + joined(run@.path, "run.json"@) + "\n"@,
{
    let mut out = recover_run_line(run).as_str().to_owned();
    out.append("  plan: ");
    out.append(join(run.path.as_str(), "plan.md").as_str());
    out.append("\n  events: ");
    out.append(join(run.path.as_str(), "events.jsonl").as_str());
    out.append("\n  manifest: ");
    out.append(join(run.path.as_str(), "run.json").as_str());
    out.append("\n");
    out
}

/// The lines on all runs.
pub open spec fn run_lines(runs: Seq<RunView>) -> Seq<char> {
    flat(Seq::new(runs.len(), |i: int| run_line(runs[i])))
}

/// What is shown of all runs.
pub fn recover_list_text(cwd: &str, runs: &Vec<RecoverRun>) -> (r: String)
    ensures
        r@ == "Tales run artifacts in "@ + runs_dir_of(cwd@) + "\n"@
            + run_lines(run_views(runs@))
            + "\nUse `tales recover --latest --print` or `tales recover <run-id> --print`.\n"@,
{
    let ghost one = |i: int| run_line(run_views(runs@)[i]);
    let mut lines = String::new();
    let mut i: usize = 0;
    proof {
        assert(flat(Seq::new(0, one)) =~= Seq::empty());
        assert(lines@ =~= Seq::empty());
    }
    while i < runs.len()
        invariant
            i <= runs.len(),
            one == (|i: int| run_line(run_views(runs@)[i])),
            lines@ == flat(Seq::new(i as nat, one)),
        decreases runs.len() - i,
    {
        lines.append(recover_run_line(&runs[i]).as_str());
        proof {
            lemma_flat_push(Seq::new(i as nat, one), one(i as int));
            assert(Seq::new((i + 1) as nat, one) =~= Seq::new(i as nat, one).push(one(i as int)));
        }
        i = i + 1;
    }
    proof {
        assert(lines@ == run_lines(run_views(runs@)));
    }
    let mut out = "Tales run artifacts in ".to_owned();
    out.append(runs_dir(cwd).as_str());
    out.append("\n");
    out.append(lines.as_str());
    out.append("\nUse `tales recover --latest --print` or `tales recover <run-id> --print`.\n");
    out
}

/// What is shown where there are no runs.
pub fn no_runs_text(cwd: &str) -> (r: String)
    ensures
        r@ == "No Tales run artifacts found under "@ + runs_dir_of(cwd@) + "\n"@,
{
    let mut out = "No Tales run artifacts found under ".to_owned();
    out.append(runs_dir(cwd).as_str());
    out.append("\n");
    out
}

} // verus!
