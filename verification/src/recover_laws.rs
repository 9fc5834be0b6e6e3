//! What holds of the runs that are found again.
use vstd::prelude::*;
use crate::count_laws::tells;
use crate::json::{doc_str, doc_u64, jopt_str, jopt_u64, jstr, member, Doc};
use crate::numeral::{dec, opt_dec};
use crate::order::text_le;
use crate::path::joined;
use crate::recover::{
    arranged, is_meant, law_runs_are_listed_newest_first, listed_before, or_else, place_of_id,
    run_doc, run_id, run_line, run_lines, run_of, run_path, runs_doc, started_in_name, Meant,
    RunView,
};
use crate::text_laws::{
    group_says, law_concatenation_keeps_every_part, lemma_pair_is_said, lemma_says_all_each,
    lemma_says_through, says, says_all,
};

verus! {

/// A run is told as its record tells it. Where the record tells no time, or there
/// is none, its time is the one that its directory is named after; and without a
/// record nothing else is known.
pub proof fn law_records_tell_of_runs(path: Seq<char>, record: Doc)
    ensures
        run_of(path, Some(record)).path == path,
        run_of(path, Some(record)).id == run_id(path),
        run_of(path, Some(record)).task == doc_str(member(record, "task"@)),
        run_of(path, Some(record)).status == doc_str(member(record, "status"@)),
        run_of(path, Some(record)).executor == doc_str(member(record, "executor"@)),
        doc_u64(member(record, "updated_unix"@)) is Some ==> run_of(path, Some(record)).updated_unix
            == doc_u64(member(record, "updated_unix"@)),
        doc_u64(member(record, "updated_unix"@)) is None ==> run_of(path, Some(record)).updated_unix
            == started_in_name(run_id(path)),
        run_of(path, None).id == run_id(path),
        run_of(path, None).path == path,
        run_of(path, None).updated_unix == started_in_name(run_id(path)),
        run_of(path, None).task is None,
        run_of(path, None).status is None,
        run_of(path, None).executor is None,
{
}

/// Of two runs the later is listed first, and one whose time is known before one
/// whose time is not. Of runs of one time the greater name is first.
pub proof fn law_later_runs_are_listed_first(s: Seq<RunView>, i: int, j: int)
    requires
        0 <= i < j < s.len(),
    ensures
        ({
            let a = arranged(s)[i];
            let b = arranged(s)[j];
            &&& a.updated_unix is None ==> b.updated_unix is None
            &&& a.updated_unix is Some && b.updated_unix is Some ==> a.updated_unix->0
                >= b.updated_unix->0
            &&& a.updated_unix == b.updated_unix ==> text_le(b.id, a.id) || !text_le(a.id, b.id)
                || a.id == b.id
        }),
{
    law_runs_are_listed_newest_first(s);
    assert(!listed_before(arranged(s)[j], arranged(s)[i]));
}

/// A name means the first run of that name; one that no run has is a path below
/// the runs. Without a name the newest is meant where that was asked for, and no
/// run in particular else.
pub proof fn law_names_mean_the_first_run(
    m: Meant,
    cwd: Seq<char>,
    runs: Seq<RunView>,
    id: Seq<char>,
    latest: bool,
    k: int,
)
    ensures
        is_meant(m, cwd, runs, Some(id), latest) && 0 <= k < runs.len() && runs[k].id == id && (forall|
            j: int,
        |
            0 <= j < k ==> (#[trigger] runs[j]).id != id) ==> (m matches Meant::Listed(i) && i == k),
        is_meant(m, cwd, runs, Some(id), latest) && (forall|j: int|
            0 <= j < runs.len() ==> (#[trigger] runs[j]).id != id) ==> (m matches Meant::At(p) && p@
            == run_path(cwd, id)),
        is_meant(m, cwd, runs, None, true) ==> (m matches Meant::Listed(i) && i == 0),
        is_meant(m, cwd, runs, None, false) ==> m is All,
{
    lemma_place(runs, id, k);
}

proof fn lemma_place(runs: Seq<RunView>, id: Seq<char>, k: int)
    ensures
        0 <= k < runs.len() && runs[k].id == id && (forall|j: int|
            0 <= j < k ==> (#[trigger] runs[j]).id != id) ==> place_of_id(runs, id) == Some(k),
        (forall|j: int| 0 <= j < runs.len() ==> (#[trigger] runs[j]).id != id) ==> place_of_id(
            runs,
            id,
        ) is None,
    decreases runs.len(),
{
    if runs.len() > 0 {
        let t = runs.drop_last();
        lemma_place(t, id, k);
        assert forall|j: int| 0 <= j < t.len() implies t[j] == runs[j] by {}
        assert(runs.last() == runs[runs.len() - 1]);
        if 0 <= k < t.len() {
            assert(t[k] == runs[k]);
        }
        if forall|j: int| 0 <= j < k ==> (#[trigger] runs[j]).id != id {
            assert forall|j: int| 0 <= j < k && j < t.len() implies (#[trigger] t[j]).id != id by {
                assert(t[j] == runs[j]);
            }
            if k == t.len() {
                assert(forall|j: int| 0 <= j < t.len() ==> (#[trigger] t[j]).id != id);
            }
        }
        if forall|j: int| 0 <= j < runs.len() ==> (#[trigger] runs[j]).id != id {
            assert forall|j: int| 0 <= j < t.len() implies (#[trigger] t[j]).id != id by {
                assert(t[j] == runs[j]);
            }
        }
    }
}

/// What is told of a run: its name, where it lies, what it was for, how it stands,
/// who executed it and when it last changed, and its files.
pub proof fn law_runs_are_told(r: RunView)
    ensures
        tells(run_doc(r), "id"@, jstr(r.id)),
        tells(run_doc(r), "path"@, jstr(r.path)),
        tells(run_doc(r), "task"@, jopt_str(r.task)),
        tells(run_doc(r), "status"@, jopt_str(r.status)),
        tells(run_doc(r), "executor"@, jopt_str(r.executor)),
        tells(run_doc(r), "updated_unix"@, jopt_u64(r.updated_unix)),
        tells(run_doc(r), "plan_path"@, jstr(joined(r.path, "plan.md"@))),
        tells(run_doc(r), "events_path"@, jstr(joined(r.path, "events.jsonl"@))),
        tells(run_doc(r), "manifest_path"@, jstr(joined(r.path, "run.json"@))),
{
    let o = run_doc(r)->Obj_0;
    assert(o[0] == ("id"@, jstr(r.id)));
    assert(o[1] == ("path"@, jstr(r.path)));
    assert(o[2] == ("task"@, jopt_str(r.task)));
    assert(o[3] == ("status"@, jopt_str(r.status)));
    assert(o[4] == ("executor"@, jopt_str(r.executor)));
    assert(o[5] == ("updated_unix"@, jopt_u64(r.updated_unix)));
    assert(o[6] == ("plan_path"@, jstr(joined(r.path, "plan.md"@))));
    assert(o[7] == ("events_path"@, jstr(joined(r.path, "events.jsonl"@))));
    assert(o[8] == ("manifest_path"@, jstr(joined(r.path, "run.json"@))));
}

/// The line of a run names it and says of it what is known.
pub proof fn law_run_lines_say_what_is_known(r: RunView)
    ensures
        says(run_line(r), "- "@ + r.id),
        r.status matches Some(s) ==> says(run_line(r), "  status="@ + s),
        r.status is None ==> says(run_line(r), "  status="@ + "unknown"@),
        r.executor matches Some(s) ==> says(run_line(r), "  executor="@ + s),
        r.executor is None ==> says(run_line(r), "  executor="@ + "-"@),
        r.updated_unix matches Some(n) ==> says(run_line(r), "  updated="@ + dec(n as nat)),
        r.updated_unix is None ==> says(run_line(r), "  updated="@ + "-"@),
        r.task matches Some(s) ==> says(run_line(r), "  task="@ + s),
        r.task is None ==> says(run_line(r), "  task="@ + "-"@),
{
    broadcast use group_says;

    let st = or_else(r.status, "unknown"@);
    let ex = or_else(r.executor, "-"@);
    let up = or_else(opt_dec(r.updated_unix), "-"@);
    let ta = or_else(r.task, "-"@);
    let a = "- "@ + r.id;
    let b = a + "  status="@ + st;
    let c = b + "  executor="@ + ex;
    let d = c + "  updated="@ + up;
    lemma_pair_is_said(a, "  status="@, st);
    lemma_pair_is_said(b, "  executor="@, ex);
    lemma_pair_is_said(c, "  updated="@, up);
    lemma_pair_is_said(d, "  task="@, ta);
}

/// All runs are listed, in order.
pub proof fn law_every_run_is_listed(runs: Seq<RunView>, i: int)
    ensures
        says_all(run_lines(runs), Seq::new(runs.len(), |k: int| run_line(runs[k]))),
        0 <= i < runs.len() ==> says(run_lines(runs), runs[i].id),
        runs_doc(runs) matches Doc::Obj(f) && f.len() == 1 && f[0].0 == "runs"@ && (f[0].1 matches Doc::Arr(
            a,
        ) && a.len() == runs.len() && (0 <= i < runs.len() ==> a[i] == run_doc(runs[i]))),
{
    broadcast use group_says;

    let lines = Seq::new(runs.len(), |k: int| run_line(runs[k]));
    law_concatenation_keeps_every_part(lines, Seq::empty());
    if 0 <= i < runs.len() {
        lemma_says_all_each(run_lines(runs), lines, i);
        assert(says(lines[i], runs[i].id));
        lemma_says_through(run_lines(runs), lines[i], runs[i].id);
    }
}

} // verus!
