//! What holds of what is kept of a run while it goes on.
use vstd::prelude::*;
use crate::artifacts::{
    executor_line, manifest_doc, plan_markdown_of, record_fields, run_dir_of, run_name, section_of,
    shown_as, slug_of, slug_run, snapshot_after, status_after, usage_record, with_section,
    RunArtifacts, SnapshotView, SLUG_CHARS,
};
use crate::conductor::AgentId;
use crate::count_laws::tells;
use crate::event::Notice;
use crate::json::{jbool, jnum, jopt_str, jopt_u64, jstr, jtexts, Doc};
use crate::numeral::dec;
use crate::path::joined;
use crate::scan::{is_blank, trim};
use crate::text::{is_alnum, opt_text, texts};
use crate::text_laws::{group_says, says};
use crate::usage::TokenUsage;

verus! {

// ---- Names -------------------------------------------------------------------------

/// A run is named after the time that it began and its task, and after the attempt
/// where that is not the first.
pub proof fn law_runs_are_named_after_their_time_and_task(started: u64, task: Seq<char>, attempt: u64)
    ensures
        run_name(started, task, attempt).take((dec(started as nat) + "-"@ + slug_of(task)).len() as int)
            == dec(started as nat) + "-"@ + slug_of(task),
        attempt <= 1 ==> run_name(started, task, attempt) == dec(started as nat) + "-"@ + slug_of(
            task,
        ),
        attempt > 1 ==> run_name(started, task, attempt) == dec(started as nat) + "-"@ + slug_of(
            task,
        ) + ("-"@ + dec(attempt as nat)),
{
    let base = dec(started as nat) + "-"@ + slug_of(task);
    assert(run_name(started, task, attempt).take(base.len() as int) =~= base);
    if attempt <= 1 {
        assert(base + Seq::<char>::empty() =~= base);
    }
}

/// Letters and digits stand in a name as they are, one after the other, until it is
/// full; and whatever is no letter, digit or gap leaves no trace.
pub proof fn law_names_keep_letters_and_digits(s: Seq<char>, c: char)
    ensures
        s.len() <= SLUG_CHARS && (forall|i: int| 0 <= i < s.len() ==> is_alnum(#[trigger] s[i]))
            ==> slug_run(s) == s,
        slug_run(s).len() <= SLUG_CHARS,
        slug_run(s).len() < SLUG_CHARS && is_alnum(c) ==> slug_run(s.push(c)) == slug_run(s).push(c),
        !is_alnum(c) && !crate::text::is_space(c) && c != '-' && c != '_' ==> slug_run(s.push(c))
            == slug_run(s),
    decreases s.len(),
{
    assert(s.push(c).drop_last() =~= s);
    if s.len() > 0 {
        let t = s.drop_last();
        law_names_keep_letters_and_digits(t, c);
        if s.len() <= SLUG_CHARS && (forall|i: int| 0 <= i < s.len() ==> is_alnum(#[trigger] s[i])) {
            assert forall|i: int| 0 <= i < t.len() implies is_alnum(#[trigger] t[i]) by {
                assert(t[i] == s[i]);
            }
            assert(is_alnum(s[s.len() - 1]));
            assert(t.push(s.last()) =~= s);
        }
    }
}

// ---- Records -------------------------------------------------------------------------

/// The record of a run tells its task, where it lies, how it stands, who executes and
/// when it began and last changed.
pub proof fn law_records_tell_the_run(
    a: RunArtifacts,
    status: Seq<char>,
    executor: Option<Seq<char>>,
    now: u64,
)
    ensures
        ({
            let d = manifest_doc(a, status, executor, now);
            &&& tells(d, "mode"@, jstr(a.mode@))
            &&& tells(d, "task"@, jstr(a.task@))
            &&& tells(d, "workspace"@, jstr(a.workspace@))
            &&& tells(d, "run_dir"@, jstr(run_dir_of(a)))
            &&& tells(d, "started_unix"@, jnum(a.started_at as int))
            &&& tells(d, "updated_unix"@, jnum(now as int))
            &&& tells(d, "status"@, jstr(status))
            &&& tells(d, "executor"@, jopt_str(executor))
            &&& tells(d, "roster"@, jtexts(texts(a.roster@)))
            &&& tells(d, "plan_path"@, jstr(joined(run_dir_of(a), "plan.md"@)))
            &&& tells(d, "events_path"@, jstr(joined(run_dir_of(a), "events.jsonl"@)))
            &&& tells(d, "report_path"@, jopt_str(opt_text(a.report_path)))
            &&& tells(d, "report_json_path"@, jopt_str(opt_text(a.report_json_path)))
        }),
{
    let o = manifest_doc(a, status, executor, now)->Obj_0;
    assert(o[2] == ("mode"@, jstr(a.mode@)));
    assert(o[3] == ("task"@, jstr(a.task@)));
    assert(o[4] == ("workspace"@, jstr(a.workspace@)));
    assert(o[5] == ("run_dir"@, jstr(run_dir_of(a))));
    assert(o[6] == ("started_unix"@, jnum(a.started_at as int)));
    assert(o[7] == ("updated_unix"@, jnum(now as int)));
    assert(o[8] == ("status"@, jstr(status)));
    assert(o[9] == ("executor"@, jopt_str(executor)));
    assert(o[10] == ("roster"@, jtexts(texts(a.roster@))));
    assert(o[11] == ("plan_path"@, jstr(joined(run_dir_of(a), "plan.md"@))));
    assert(o[12] == ("events_path"@, jstr(joined(run_dir_of(a), "events.jsonl"@))));
    assert(o[13] == ("report_path"@, jopt_str(opt_text(a.report_path))));
    assert(o[14] == ("report_json_path"@, jopt_str(opt_text(a.report_json_path))));
}

/// A run that recovers from its record is the run that was recorded.
pub proof fn law_recorded_runs_are_found_again(
    a: RunArtifacts,
    status: Seq<char>,
    executor: Option<Seq<char>>,
    now: u64,
    path: Seq<char>,
)
    ensures
        ({
            let r = crate::recover::run_of(path, Some(manifest_doc(a, status, executor, now)));
            &&& r.task == Some(a.task@)
            &&& r.status == Some(status)
            &&& r.executor == executor
            &&& r.updated_unix == Some(now)
        }),
{
    reveal_strlit("kind");
    reveal_strlit("schema_version");
    reveal_strlit("mode");
    reveal_strlit("task");
    reveal_strlit("workspace");
    reveal_strlit("run_dir");
    reveal_strlit("started_unix");
    reveal_strlit("updated_unix");
    reveal_strlit("status");
    reveal_strlit("executor");
    let d = manifest_doc(a, status, executor, now);
    let f = d->Obj_0;
    assert(f[0].0.len() == 4 && f[0].0[0] == 'k');
    assert(f[1].0.len() == 14);
    assert(f[2].0.len() == 4 && f[2].0[0] == 'm');
    assert("task"@.len() == 4 && "task"@[0] == 't');
    assert(f[4].0.len() == 9);
    assert(f[5].0.len() == 7);
    assert(f[6].0.len() == 12 && f[6].0[0] == 's');
    assert("updated_unix"@.len() == 12 && "updated_unix"@[0] == 'u');
    assert("status"@.len() == 6);
    assert("executor"@.len() == 8);
    lemma_member(f, "task"@, 3);
    lemma_member(f, "status"@, 8);
    lemma_member(f, "executor"@, 9);
    lemma_member(f, "updated_unix"@, 7);
}

proof fn lemma_member(f: Seq<(Seq<char>, Doc)>, name: Seq<char>, k: int)
    requires
        0 <= k < f.len(),
        f[k].0 == name,
        forall|j: int| 0 <= j < k ==> (#[trigger] f[j]).0 != name,
    ensures
        crate::json::member_in(f, name) == Some(f[k].1),
    decreases f.len(),
{
    if k > 0 {
        assert(f[0].0 != name);
        let t = f.skip(1);
        assert(t[k - 1] == f[k]);
        assert forall|j: int| 0 <= j < k - 1 implies (#[trigger] t[j]).0 != name by {
            assert(t[j] == f[j + 1]);
        }
        lemma_member(t, name, k - 1);
    }
}

/// The plan that is kept names the task and how the run stands, and holds all that
/// was said.
pub proof fn law_kept_plans_hold_the_transcript(
    a: RunArtifacts,
    status: Seq<char>,
    executor: Seq<char>,
    transcript: Seq<char>,
)
    ensures
        says(plan_markdown_of(a, status, Some(executor), transcript), status),
        says(plan_markdown_of(a, status, Some(executor), transcript), a.task@),
        says(plan_markdown_of(a, status, Some(executor), transcript), executor),
        !is_blank(transcript) ==> says(
            plan_markdown_of(a, status, Some(executor), transcript),
            trim(transcript),
        ),
        !is_blank(transcript) ==> says(
            plan_markdown_of(a, status, None, transcript),
            trim(transcript),
        ),
        executor_line(None).len() == 0,
{
    broadcast use group_says;

    let line = executor_line(Some(executor));
    assert(says(line, executor));
    let p = plan_markdown_of(a, status, Some(executor), transcript);
    assert(says(p, line));
    crate::text_laws::lemma_says_through(p, line, executor);
}

// ---- Snapshots -----------------------------------------------------------------------

/// What is said is kept under the name of whoever said it, and so is every other
/// notice that is kept; nothing that was kept before is changed.
pub proof fn law_notices_are_kept_under_their_title(s: SnapshotView, n: Notice, agent: AgentId)
    ensures
        section_of(s, n) matches Some((title, body)) ==> says(snapshot_after(s, n).transcript, title)
            && says(snapshot_after(s, n).transcript, trim(body)),
        section_of(s, n) is None ==> snapshot_after(s, n).transcript == s.transcript,
        n matches Notice::Message { agent, text } ==> section_of(s, n) == Some(
            (shown_as(s.labels, agent), text),
        ),
        n matches Notice::UserMessage { text } ==> section_of(s, n) == Some(("You"@, text)),
        n matches Notice::Fatal { msg } ==> (section_of(s, n) matches Some(p) && p.1 == msg),
        n matches Notice::SessionReport { markdown, .. } ==> (section_of(s, n) matches Some(p) && p.1
            == markdown),
        n matches Notice::ExecutionPacket { executor, text, .. } ==> (section_of(
            s,
            n,
        ) matches Some(p) && says(p.1, text) && says(p.1, executor)),
        n matches Notice::RecommendationReady { executor, rationale, .. } ==> (section_of(
            s,
            n,
        ) matches Some(p) && says(p.1, rationale) && says(p.1, executor)),
        n is AgentSpawned ==> shown_as(snapshot_after(s, n).labels, n->AgentSpawned_agent)
            == n->AgentSpawned_label,
        !(n is AgentSpawned) ==> snapshot_after(s, n).labels == s.labels,
{
    broadcast use group_says;

}

/// How a run stands follows its notices: it waits for the user where it asks, is done
/// when its last phase is over, and has failed after a fatal error. Who executes is
/// who was recommended or handed the plan last.
pub proof fn law_runs_stand_as_they_were_noticed(s: SnapshotView, n: Notice)
    ensures
        n is AwaitingConfirmation ==> status_after(s, n) == "awaiting_executor"@,
        n is RecommendationReady ==> status_after(s, n) == "recommended"@,
        n is ExecutionPacket ==> status_after(s, n) == "execution_packet"@,
        n is Fatal ==> status_after(s, n) == "failed"@,
        n matches Notice::PhaseChanged { phase } ==> phase == "done"@ ==> status_after(s, n)
            == "done"@,
        n matches Notice::PhaseChanged { phase } ==> phase == "executing"@ ==> status_after(s, n)
            == "executing"@,
        n matches Notice::PhaseChanged { phase } ==> phase == "recommending"@ ==> status_after(s, n)
            == "recommending"@,
        n is Message || n is UserMessage || n is ToolActivity || n is Log || n is TurnComplete
            || n is AgentSpawned ==> status_after(s, n) == s.status,
        n matches Notice::RecommendationReady { executor, .. } ==> snapshot_after(s, n).executor
            == Some(executor),
        n matches Notice::ExecutionPacket { executor, .. } ==> snapshot_after(s, n).executor == Some(
            executor,
        ),
        !(n is RecommendationReady) && !(n is ExecutionPacket) ==> snapshot_after(s, n).executor
            == s.executor,
{
    reveal_strlit("done");
    reveal_strlit("executing");
    reveal_strlit("recommending");
    assert("done"@.len() == 4 && "executing"@.len() == 9 && "recommending"@.len() == 12);
}

/// A section stands behind what was there, with its title and its text.
pub proof fn law_sections_are_put_behind(transcript: Seq<char>, title: Seq<char>, body: Seq<char>)
    ensures
        with_section(transcript, title, body).take(transcript.len() as int) == transcript,
        says(with_section(transcript, title, body), "## "@ + title),
        says(with_section(transcript, title, body), trim(body)),
{
    broadcast use group_says;

    assert(with_section(transcript, title, body).take(transcript.len() as int) =~= transcript);
    let lead = if transcript.len() == 0 {
        Seq::<char>::empty()
    } else {
        transcript + "\n\n"@
    };
    crate::text_laws::lemma_pair_is_said(lead, "## "@, title);
}

/// What is said is recorded in full, with its length; so are packets and reports.
pub proof fn law_notices_are_recorded(n: Notice, u: TokenUsage)
    ensures
        n matches Notice::Message { text, .. } ==> record_fields(n).contains(("text"@, jstr(text)))
            && record_fields(n).contains(("chars"@, jnum(text.len() as int))),
        n matches Notice::UserMessage { text } ==> record_fields(n).contains(("text"@, jstr(text))),
        n matches Notice::ExecutionPacket { executor, text, included_in_prompt } ==> record_fields(
            n,
        ).contains(("text"@, jstr(text))) && record_fields(n).contains(
            ("executor"@, jstr(executor)),
        ) && record_fields(n).contains(("included_in_prompt"@, jbool(included_in_prompt))),
        n matches Notice::RecommendationReady { executor, rationale, confident, .. }
            ==> record_fields(n).contains(("executor"@, jstr(executor))) && record_fields(
            n,
        ).contains(("rationale"@, jstr(rationale))) && record_fields(n).contains(
            ("confident"@, jbool(confident)),
        ),
        n matches Notice::SessionReport { markdown, summary } ==> record_fields(n).contains(
            ("markdown"@, jstr(markdown)),
        ) && record_fields(n).contains(("summary"@, summary)),
        tells(usage_record(Some(u)), "input_tokens"@, jopt_u64(u.input_tokens)),
        tells(usage_record(Some(u)), "output_tokens"@, jopt_u64(u.output_tokens)),
        tells(usage_record(Some(u)), "total_tokens"@, jopt_u64(u.total_tokens)),
{
    let f = record_fields(n);
    match n {
        Notice::Message { text, .. } => {
            assert(f[1] == ("chars"@, jnum(text.len() as int)));
            assert(f[2] == ("text"@, jstr(text)));
        },
        Notice::UserMessage { text } => {
            assert(f[1] == ("text"@, jstr(text)));
        },
        Notice::ExecutionPacket { executor, text, included_in_prompt } => {
            assert(f[0] == ("executor"@, jstr(executor)));
            assert(f[2] == ("included_in_prompt"@, jbool(included_in_prompt)));
            assert(f[3] == ("text"@, jstr(text)));
        },
        Notice::RecommendationReady { executor, rationale, confident, .. } => {
            assert(f[0] == ("executor"@, jstr(executor)));
            assert(f[1] == ("rationale"@, jstr(rationale)));
            assert(f[2] == ("confident"@, jbool(confident)));
        },
        Notice::SessionReport { markdown, summary } => {
            assert(f[1] == ("markdown"@, jstr(markdown)));
            assert(f[2] == ("summary"@, summary));
        },
        _ => {},
    }
    let o = usage_record(Some(u))->Obj_0;
    assert(o[0] == ("input_tokens"@, jopt_u64(u.input_tokens)));
    assert(o[1] == ("output_tokens"@, jopt_u64(u.output_tokens)));
    assert(o[2] == ("total_tokens"@, jopt_u64(u.total_tokens)));
}

} // verus!
