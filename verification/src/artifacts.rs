//! What a run leaves on disk: its manifest, its log of events and its rolling
//! plan.
use std::collections::HashMap;
use vstd::prelude::*;
use crate::conductor::AgentId;
use crate::event::{Notice, OrchestratorEvent};
use crate::ids::{id_text, write_id};
use crate::json::{
    copy, docs, jbool, jnum, jopt_str, jopt_u64, jstr, jtexts, lemma_docs_push, list, null, num,
    opt_num, opt_string, opt_text, size, text, text_list, truth, Doc, Fields, Json, Number,
};
use crate::labels::{format_scores, json_preview, label_of, scores_line, short_preview, tool_label};
use crate::numeral::{dec, decimal};
use crate::path::{is_rooted, join, joined};
use crate::recommend::Score;
use crate::scan::{is_blank, trim, trimmed};
use crate::text::{
    alnum, char_count, char_to_lower, chars_of, copy_opt, flat, is_alnum, is_space, join_texts,
    lemma_texts_push, lower_forms, opt_str, same, space, text_between, texts,
};
use crate::usage::TokenUsage;

verus! {

broadcast use vstd::std_specs::hash::group_hash_axioms;

/// The directory of a workspace that holds what belongs to runs.
pub const TALES_DIR: &'static str = ".tales";

/// The directory in it that holds a directory for each run.
pub const RUNS_DIR: &'static str = "runs";

/// How many characters the name of a run takes from its task, at most.
pub const SLUG_CHARS: usize = 48;

/// The directory that holds a directory for each run of a workspace.
pub open spec fn runs_dir_of(cwd: Seq<char>) -> Seq<char> {
    joined(joined(cwd, TALES_DIR@), RUNS_DIR@)
}

/// The directory that holds a directory for each run of a workspace.
pub fn runs_dir(cwd: &str) -> (r: String)
    ensures
        r@ == runs_dir_of(cwd@),
{
    join(join(cwd, TALES_DIR).as_str(), RUNS_DIR)
}

// ---- Names of runs ---------------------------------------------------------

/// The characters of a text in lower case.
pub open spec fn lowered(s: Seq<char>) -> Seq<char> {
    flat(Seq::new(s.len(), |i: int| lower_forms(s[i])))
}

/// A name with one more character of the task: letters and digits go in as
/// they are, white space, hyphens and underscores as one hyphen, the rest not
/// at all.
pub open spec fn slug_step(name: Seq<char>, c: char) -> Seq<char> {
    if is_alnum(c) {
        name.push(c)
    } else if (is_space(c) || c == '-' || c == '_') && !(name.len() > 0 && name.last() == '-') {
        name.push('-')
    } else {
        name
    }
}

/// What a name takes from the characters of a task; nothing more once it is
/// long enough.
pub open spec fn slug_run(s: Seq<char>) -> Seq<char>
    decreases s.len(),
{
    if s.len() == 0 {
        Seq::empty()
    } else {
        let name = slug_run(s.drop_last());
        if name.len() >= SLUG_CHARS {
            name
        } else {
            slug_step(name, s.last())
        }
    }
}

/// A text without the hyphens it ends with.
pub open spec fn without_tail(s: Seq<char>) -> Seq<char>
    decreases s.len(),
{
    if s.len() > 0 && s.last() == '-' {
        without_tail(s.drop_last())
    } else {
        s
    }
}

/// A text without the hyphens it starts with.
pub open spec fn without_lead(s: Seq<char>) -> Seq<char>
    decreases s.len(),
{
    if s.len() > 0 && s[0] == '-' {
        without_lead(s.skip(1))
    } else {
        s
    }
}

/// The part of a run's name that comes from its task.
pub open spec fn slug_of(task: Seq<char>) -> Seq<char> {
    let name = without_tail(without_lead(slug_run(lowered(task))));
    if name.len() == 0 {
        "run"@
    } else {
        name
    }
}

fn lower_chars(s: &str) -> (r: Vec<char>)
    ensures
        r@ == lowered(s@),
{
    let sc = chars_of(s);
    let ghost one = |i: int| lower_forms(s@[i]);
    let mut out: Vec<char> = Vec::new();
    let mut i: usize = 0;
    proof {
        assert(flat(Seq::new(0, one)) =~= Seq::empty());
    }
    while i < sc.len()
        invariant
            i <= sc.len(),
            sc@ == s@,
            one == (|i: int| lower_forms(s@[i])),
            out@ == flat(Seq::new(i as nat, one)),
        decreases sc.len() - i,
    {
        let mut forms = char_to_lower(sc[i]);
        let ghost was = out@;
        out.append(&mut forms);
        proof {
            assert(Seq::new((i + 1) as nat, one).drop_last() =~= Seq::new(i as nat, one));
            assert(out@ =~= was + one(i as int));
        }
        i = i + 1;
    }
    out
}

/// The part of a run's name that comes from its task.
pub fn slug(input: &str) -> (r: String)
    ensures
        r@ == slug_of(input@),
{
    let lower = lower_chars(input);
    let mut name: Vec<char> = Vec::new();
    let mut i: usize = 0;
    proof {
        assert(lower@.take(0) =~= Seq::empty());
    }
    while i < lower.len() && name.len() < SLUG_CHARS
        invariant
            i <= lower.len(),
            lower@ == lowered(input@),
            name@ == slug_run(lower@.take(i as int)),
        decreases lower.len() - i,
    {
        let c = lower[i];
        proof {
            assert(lower@.take(i + 1).drop_last() =~= lower@.take(i as int));
            assert(lower@.take(i + 1).last() == c);
        }
        if alnum(c) {
            name.push(c);
        } else if (space(c) || c == '-' || c == '_') && !(name.len() > 0 && name[name.len() - 1]
            == '-') {
            name.push('-');
        }
        i = i + 1;
    }
    proof {
        if i < lower@.len() {
            lemma_slug_is_full(lower@, i as int, lower@.len() as int);
        }
        assert(lower@.take(lower@.len() as int) =~= lower@);
        assert(name@ == slug_run(lower@));
    }
    let mut from: usize = 0;
    proof {
        assert(name@.skip(0) =~= name@);
    }
    while from < name.len() && name[from] == '-'
        invariant
            from <= name.len(),
            without_lead(name@.skip(from as int)) == without_lead(name@),
        decreases name.len() - from,
    {
        proof {
            assert(name@.skip(from as int).skip(1) =~= name@.skip(from + 1));
        }
        from = from + 1;
    }
    let ghost led = name@.skip(from as int);
    proof {
        assert(led == without_lead(name@));
    }
    let mut to: usize = name.len();
    proof {
        assert(name@.subrange(from as int, to as int) =~= led);
    }
    while to > from && name[to - 1] == '-'
        invariant
            from <= to <= name.len(),
            without_tail(name@.subrange(from as int, to as int)) == without_tail(led),
        decreases to,
    {
        proof {
            assert(name@.subrange(from as int, to as int).drop_last() =~= name@.subrange(
                from as int,
                to - 1,
            ));
            assert(name@.subrange(from as int, to as int).last() == name@[to - 1]);
        }
        to = to - 1;
    }
    proof {
        if to > from {
            assert(name@.subrange(from as int, to as int).last() == name@[to - 1]);
        }
        assert(name@.subrange(from as int, to as int) == without_tail(led));
    }
    if to == from {
        "run".to_owned()
    } else {
        text_between(&name, from, to)
    }
}

proof fn lemma_slug_is_full(s: Seq<char>, i: int, j: int)
    requires
        0 <= i <= j <= s.len(),
        slug_run(s.take(i)).len() >= SLUG_CHARS,
    ensures
        slug_run(s.take(j)) == slug_run(s.take(i)),
    decreases j - i,
{
    if i < j {
        lemma_slug_is_full(s, i, j - 1);
        assert(s.take(j).drop_last() =~= s.take(j - 1));
    }
}

proof fn lemma_slug_run(s: Seq<char>)
    ensures
        slug_run(s).len() <= SLUG_CHARS,
        forall|i: int| 0 <= i < slug_run(s).len() ==> is_alnum(#[trigger] slug_run(s)[i])
            || slug_run(s)[i] == '-',
    decreases s.len(),
{
    if s.len() > 0 {
        lemma_slug_run(s.drop_last());
    }
}

proof fn lemma_without_tail(s: Seq<char>)
    ensures
        without_tail(s).len() <= s.len(),
        without_tail(s) == s.take(without_tail(s).len() as int),
    decreases s.len(),
{
    if s.len() > 0 && s.last() == '-' {
        lemma_without_tail(s.drop_last());
        assert(s.drop_last().take(without_tail(s).len() as int) =~= s.take(
            without_tail(s).len() as int,
        ));
    } else {
        assert(s.take(s.len() as int) =~= s);
    }
}

proof fn lemma_without_lead(s: Seq<char>)
    ensures
        without_lead(s).len() <= s.len(),
        without_lead(s) == s.skip(s.len() - without_lead(s).len()),
    decreases s.len(),
{
    if s.len() > 0 && s[0] == '-' {
        lemma_without_lead(s.skip(1));
        assert(s.skip(1).skip(s.skip(1).len() - without_lead(s).len()) =~= s.skip(
            s.len() - without_lead(s).len(),
        ));
    } else {
        assert(s.skip(0) =~= s);
    }
}

/// The part of a run's name that comes from its task is a short name of
/// letters, digits and hyphens, whatever the task holds: never empty, and
/// never a path.
pub proof fn law_slugs_are_plain_names(task: Seq<char>)
    ensures
        0 < slug_of(task).len() <= SLUG_CHARS,
        forall|i: int| 0 <= i < slug_of(task).len() ==> is_alnum(#[trigger] slug_of(task)[i])
            || slug_of(task)[i] == '-',
{
    reveal_strlit("run");
    let run = slug_run(lowered(task));
    lemma_slug_run(lowered(task));
    lemma_without_lead(run);
    lemma_without_tail(without_lead(run));
}

/// The name of a run's directory: when it started and its task, with a number
/// behind it from the second attempt on.
pub open spec fn run_name(started: u64, task: Seq<char>, attempt: u64) -> Seq<char> {
    dec(started as nat) + "-"@ + slug_of(task) + (if attempt <= 1 {
        Seq::empty()
    } else {
        "-"@ + dec(attempt as nat)
    })
}

/// The name of a run's directory.
pub fn run_dir_name(started: u64, task: &str, attempt: u64) -> (r: String)
    ensures
        r@ == run_name(started, task@, attempt),
{
    let mut out = decimal(started);
    out.append("-");
    out.append(slug(task).as_str());
    let mut number = String::new();
    if attempt > 1 {
        number.append("-");
        number.append(decimal(attempt).as_str());
    }
    proof {
        assert(number@ =~= (if attempt <= 1 {
            Seq::empty()
        } else {
            "-"@ + dec(attempt as nat)
        }));
    }
    out.append(number.as_str());
    out
}

// ---- The files of a run ----------------------------------------------------

/// A run and where its files are.
#[derive(Debug)]
pub struct RunArtifacts {
    /// The name of the run's directory.
    pub name: String,
    pub started_at: u64,
    pub mode: String,
    pub task: String,
    pub workspace: String,
    pub roster: Vec<String>,
    pub report_path: Option<String>,
    pub report_json_path: Option<String>,
}

/// The directory of a run.
pub open spec fn run_dir_of(a: RunArtifacts) -> Seq<char> {
    joined(runs_dir_of(a.workspace@), a.name@)
}

/// The line of the plan on the executor.
pub open spec fn executor_line(executor: Option<Seq<char>>) -> Seq<char> {
    match executor {
        Some(key) => "- Executor: "@ + label_of(key) + " (`"@ + key + "`)\n"@,
        None => Seq::empty(),
    }
}

/// The lines of the plan on the reports.
pub open spec fn report_lines(markdown: Option<Seq<char>>, json: Option<Seq<char>>) -> Seq<char> {
    (match markdown {
        Some(p) => "- Report markdown: "@ + p + "\n"@,
        None => Seq::empty(),
    }) + (match json {
        Some(p) => "- Report JSON: "@ + p + "\n"@,
        None => Seq::empty(),
    })
}

/// What the plan shows of the transcript.
pub open spec fn shown_transcript(transcript: Seq<char>) -> Seq<char> {
    if is_blank(transcript) {
        "_Planning has started. No transcript has been captured yet._"@
    } else {
        trim(transcript)
    }
}

/// The names for people of tools.
pub open spec fn labels_of(keys: Seq<Seq<char>>) -> Seq<Seq<char>> {
    Seq::new(keys.len(), |i: int| label_of(keys[i]))
}

/// The rolling plan of a run.
pub open spec fn plan_markdown_of(
    a: RunArtifacts,
    status: Seq<char>,
    executor: Option<Seq<char>>,
    transcript: Seq<char>,
) -> Seq<char> {
    "# Tales "@ + a.mode@ + " plan\n\n- Status: "@ + status + "\n- Task: "@ + a.task@
        + "\n- Workspace: "@ + a.workspace@ + "\n- Roster: "@
        + crate::text::join(labels_of(texts(a.roster@)), " + "@) + "\n- Started unix time: "@
        + dec(a.started_at as nat) + "\n"@ + executor_line(executor)
        + report_lines(crate::text::opt_text(a.report_path), crate::text::opt_text(a.report_json_path))
        + "## Current transcript and plan\n\n"@ + shown_transcript(transcript) + "\n"@
}

pub open spec fn manifest_doc(
    a: RunArtifacts,
    status: Seq<char>,
    executor: Option<Seq<char>>,
    now: u64,
) -> Doc {
    Doc::Obj(
        seq![
            ("kind"@, jstr("tales_run_manifest"@)),
            ("schema_version"@, jnum(1)),
            ("mode"@, jstr(a.mode@)),
            ("task"@, jstr(a.task@)),
            ("workspace"@, jstr(a.workspace@)),
            ("run_dir"@, jstr(run_dir_of(a))),
            ("started_unix"@, jnum(a.started_at as int)),
            ("updated_unix"@, jnum(now as int)),
            ("status"@, jstr(status)),
            ("executor"@, jopt_str(executor)),
            ("roster"@, jtexts(texts(a.roster@))),
            ("plan_path"@, jstr(joined(run_dir_of(a), "plan.md"@))),
            ("events_path"@, jstr(joined(run_dir_of(a), "events.jsonl"@))),
            ("report_path"@, jopt_str(crate::text::opt_text(a.report_path))),
            ("report_json_path"@, jopt_str(crate::text::opt_text(a.report_json_path))),
        ],
    )
}

fn tool_labels(keys: &Vec<String>) -> (r: Vec<String>)
    ensures
        texts(r@) == labels_of(texts(keys@)),
{
    let ghost one = |i: int| label_of(texts(keys@)[i]);
    let mut out: Vec<String> = Vec::new();
    let mut i: usize = 0;
    proof {
        assert(texts(out@) =~= Seq::new(0, one));
    }
    while i < keys.len()
        invariant
            i <= keys.len(),
            one == (|i: int| label_of(texts(keys@)[i])),
            texts(out@) == Seq::new(i as nat, one),
        decreases keys.len() - i,
    {
        let label = tool_label(keys[i].as_str());
        proof {
            lemma_texts_push(out@, label);
            assert(Seq::new((i + 1) as nat, one) =~= Seq::new(i as nat, one).push(label@));
        }
        out.push(label);
        i = i + 1;
    }
    proof {
        assert(texts(out@) =~= labels_of(texts(keys@)));
    }
    out
}

impl RunArtifacts {
    /// The directory of the run.
    pub fn dir(&self) -> (r: String)
        ensures
            r@ == run_dir_of(*self),
    {
        join(runs_dir(self.workspace.as_str()).as_str(), self.name.as_str())
    }

    pub fn manifest_path(&self) -> (r: String)
        ensures
            r@ == joined(run_dir_of(*self), "run.json"@),
    {
        join(self.dir().as_str(), "run.json")
    }

    pub fn events_path(&self) -> (r: String)
        ensures
            r@ == joined(run_dir_of(*self), "events.jsonl"@),
    {
        join(self.dir().as_str(), "events.jsonl")
    }

    pub fn plan_path(&self) -> (r: String)
        ensures
            r@ == joined(run_dir_of(*self), "plan.md"@),
    {
        join(self.dir().as_str(), "plan.md")
    }

    /// The directory of the run seen from the workspace.
    pub fn relative_dir(&self) -> (r: String)
        ensures
            r@ == ".tales/runs/"@ + self.name@,
    {
        let mut out = ".tales/runs/".to_owned();
        out.append(self.name.as_str());
        out
    }

    /// The manifest of the run.
    pub fn manifest(&self, status: &str, executor: Option<&str>, now: u64) -> (r: Json)
        ensures
            r@ == manifest_doc(*self, status@, opt_str(executor), now),
    {
        let mut f = Fields::new();
        f.put("kind", text("tales_run_manifest"));
        f.put("schema_version", num(1));
        f.put("mode", text(self.mode.as_str()));
        f.put("task", text(self.task.as_str()));
        f.put("workspace", text(self.workspace.as_str()));
        f.put("run_dir", text(self.dir().as_str()));
        f.put("started_unix", num(self.started_at));
        f.put("updated_unix", num(now));
        f.put("status", text(status));
        f.put("executor", opt_text(executor));
        f.put("roster", text_list(&self.roster));
        f.put("plan_path", text(self.plan_path().as_str()));
        f.put("events_path", text(self.events_path().as_str()));
        f.put("report_path", opt_string(&self.report_path));
        f.put("report_json_path", opt_string(&self.report_json_path));
        proof {
            assert(f@ =~= manifest_doc(*self, status@, opt_str(executor), now)->Obj_0);
        }
        f.object()
    }

    /// The rolling plan of the run.
    pub fn plan_markdown(&self, status: &str, executor: Option<&str>, transcript: &str) -> (r:
        String)
        ensures
            r@ == plan_markdown_of(*self, status@, opt_str(executor), transcript@),
    {
        let a = self;
        let labels = tool_labels(&self.roster);
        let mut executor_part = String::new();
        if let Some(key) = executor {
            executor_part.append("- Executor: ");
            executor_part.append(tool_label(key).as_str());
            executor_part.append(" (`");
            executor_part.append(key);
            executor_part.append("`)\n");
            proof {
                assert(executor_part@ =~= executor_line(opt_str(executor)));
            }
        } else {
            proof {
                assert(executor_part@ =~= executor_line(opt_str(executor)));
            }
        }
        let mut reports = String::new();
        if let Some(p) = &self.report_path {
            reports.append("- Report markdown: ");
            reports.append(p.as_str());
            reports.append("\n");
        }
        let ghost first = reports@;
        if let Some(p) = &self.report_json_path {
            reports.append("- Report JSON: ");
            reports.append(p.as_str());
            reports.append("\n");
        }
        proof {
            assert(reports@ =~= report_lines(
                crate::text::opt_text(self.report_path),
                crate::text::opt_text(self.report_json_path),
            ));
        }
        let mut shown = trimmed(transcript);
        if shown.as_str().is_empty() {
            shown = "_Planning has started. No transcript has been captured yet._".to_owned();
        }
        proof {
            assert(shown@ == shown_transcript(transcript@));
        }
        let mut out = "# Tales ".to_owned();
        out.append(a.mode.as_str());
        out.append(" plan\n\n- Status: ");
        out.append(status);
        out.append("\n- Task: ");
        out.append(a.task.as_str());
        out.append("\n- Workspace: ");
        out.append(a.workspace.as_str());
        out.append("\n- Roster: ");
        out.append(join_texts(&labels, " + ").as_str());
        out.append("\n- Started unix time: ");
        out.append(decimal(a.started_at).as_str());
        out.append("\n");
        out.append(executor_part.as_str());
        out.append(reports.as_str());
        out.append("## Current transcript and plan\n\n");
        out.append(shown.as_str());
        out.append("\n");
        out
    }
}

/// The directory of a run is where its relative name leads from the workspace.
pub proof fn law_run_directories_lie_below_the_workspace(a: RunArtifacts)
    requires
        !is_rooted(a.name@),
    ensures
        run_dir_of(a) == joined(a.workspace@, ".tales/runs/"@ + a.name@),
{
    reveal_strlit(".tales");
    reveal_strlit("runs");
    reveal_strlit("/");
    reveal_strlit(".tales/runs/");
    assert(run_dir_of(a) =~= joined(a.workspace@, ".tales/runs/"@ + a.name@));
}

pub open spec fn manual_event_doc(kind: Seq<char>, message: Seq<char>, now: u64) -> Doc {
    Doc::Obj(
        seq![
            ("time_unix"@, jnum(now as int)),
            ("kind"@, jstr(kind)),
            ("message"@, jstr(message)),
        ],
    )
}

/// An entry of the log that the command itself writes.
pub fn manual_event(kind: &str, message: &str, now: u64) -> (r: Json)
    ensures
        r@ == manual_event_doc(kind@, message@, now),
{
    let mut f = Fields::new();
    f.put("time_unix", num(now));
    f.put("kind", text(kind));
    f.put("message", text(message));
    proof {
        assert(f@ =~= manual_event_doc(kind@, message@, now)->Obj_0);
    }
    f.object()
}

// ---- The state of a run ----------------------------------------------------

/// The state of a run as far as its files show it.
pub struct ArtifactSnapshot {
    labels: HashMap<AgentId, String>,
    transcript: String,
    status: String,
    executor: Option<String>,
}

/// The contents of an [`ArtifactSnapshot`].
pub struct SnapshotView {
    pub labels: Map<AgentId, Seq<char>>,
    pub transcript: Seq<char>,
    pub status: Seq<char>,
    pub executor: Option<Seq<char>>,
}

/// The name under which an agent is shown: its label, or its identifier where
/// it has none.
pub open spec fn shown_as(labels: Map<AgentId, Seq<char>>, agent: AgentId) -> Seq<char> {
    if labels.contains_key(agent) {
        labels[agent]
    } else {
        id_text(agent)
    }
}

/// A transcript with one more section.
pub open spec fn with_section(transcript: Seq<char>, title: Seq<char>, body: Seq<char>) -> Seq<
    char,
> {
    (if transcript.len() == 0 {
        Seq::empty()
    } else {
        transcript + "\n\n"@
    }) + "## "@ + title + "\n\n"@ + trim(body) + "\n"@
}

/// The state that an event tells of.
pub open spec fn status_word(n: Notice) -> Seq<char> {
    match n {
        Notice::AwaitingConfirmation { .. } => "awaiting_executor"@,
        Notice::RecommendationReady { .. } => "recommended"@,
        Notice::ExecutionPacket { .. } => "execution_packet"@,
        Notice::SessionReport { .. } => "report_ready"@,
        Notice::Fatal { .. } => "failed"@,
        Notice::PhaseChanged { phase } => if phase == "done"@ {
            "done"@
        } else if phase == "executing"@ {
            "executing"@
        } else if phase == "recommending"@ {
            "recommending"@
        } else {
            "planning"@
        },
        _ => "planning"@,
    }
}

/// The state that an event tells of.
pub fn event_status(ev: &OrchestratorEvent) -> (r: &'static str)
    ensures
        r@ == status_word(ev@),
{
    match ev {
        OrchestratorEvent::AwaitingConfirmation { .. } => "awaiting_executor",
        OrchestratorEvent::RecommendationReady { .. } => "recommended",
        OrchestratorEvent::ExecutionPacket { .. } => "execution_packet",
        OrchestratorEvent::SessionReport { .. } => "report_ready",
        OrchestratorEvent::Fatal { .. } => "failed",
        OrchestratorEvent::PhaseChanged { phase } => {
            if same(phase.as_str(), "done") {
                "done"
            } else if same(phase.as_str(), "executing") {
                "executing"
            } else if same(phase.as_str(), "recommending") {
                "recommending"
            } else {
                "planning"
            }
        },
        _ => "planning",
    }
}

pub open spec fn confidence_word(confident: bool) -> Seq<char> {
    if confident {
        "consensus"@
    } else {
        "needs review"@
    }
}

pub open spec fn delivery_word(included: bool) -> Seq<char> {
    if included {
        "sent to prompt"@
    } else {
        "session audit"@
    }
}

pub open spec fn recommendation_body(
    executor: Seq<char>,
    rationale: Seq<char>,
    confident: bool,
    scores: Seq<Score>,
) -> Seq<char> {
    "Executor: "@ + label_of(executor) + " (`"@ + executor + "`)\nConfidence: "@
        + confidence_word(confident) + "\n"@ + scores_line(scores) + "\n\n"@ + rationale
}

pub open spec fn packet_body(executor: Seq<char>, text: Seq<char>, included: bool) -> Seq<char> {
    "Executor: "@ + label_of(executor) + " (`"@ + executor + "`)\nDelivery: "@
        + delivery_word(included) + "\n\n"@ + text
}

/// The section that an event adds to the transcript: its title and its text.
pub open spec fn section_of(s: SnapshotView, n: Notice) -> Option<(Seq<char>, Seq<char>)> {
    match n {
        Notice::Message { agent, text } => Some((shown_as(s.labels, agent), text)),
        Notice::UserMessage { text } => Some(("You"@, text)),
        Notice::ToolActivity { agent, summary } => Some(
            ("Tool activity"@, shown_as(s.labels, agent) + ": "@ + summary),
        ),
        Notice::RecommendationReady { executor, rationale, confident, scores } => Some(
            ("Recommendation"@, recommendation_body(executor, rationale, confident, scores)),
        ),
        Notice::ExecutionPacket { executor, text, included_in_prompt } => Some(
            ("Execution packet"@, packet_body(executor, text, included_in_prompt)),
        ),
        Notice::SessionReport { markdown, .. } => Some(("Session report"@, markdown)),
        Notice::AwaitingConfirmation { prompt } => Some(("Awaiting confirmation"@, prompt)),
        Notice::PhaseChanged { phase } => Some(("Phase"@, phase)),
        Notice::Log { level, msg } => if level == "warn"@ || level == "error"@ {
            Some(("Log"@, level + ": "@ + msg))
        } else {
            None
        },
        Notice::Fatal { msg } => Some(("Fatal error"@, msg)),
        _ => None,
    }
}

/// The state behind an event.
pub open spec fn status_after(s: SnapshotView, n: Notice) -> Seq<char> {
    match n {
        Notice::SessionReport { .. } => if s.status != "done"@ && s.status != "failed"@ {
            "report_ready"@
        } else {
            s.status
        },
        Notice::RecommendationReady { .. } => status_word(n),
        Notice::ExecutionPacket { .. } => status_word(n),
        Notice::AwaitingConfirmation { .. } => status_word(n),
        Notice::PhaseChanged { .. } => status_word(n),
        Notice::Fatal { .. } => status_word(n),
        _ => s.status,
    }
}

/// The executor behind an event.
pub open spec fn executor_after(s: SnapshotView, n: Notice) -> Option<Seq<char>> {
    match n {
        Notice::RecommendationReady { executor, .. } => Some(executor),
        Notice::ExecutionPacket { executor, .. } => Some(executor),
        _ => s.executor,
    }
}

/// The state of a run behind an event.
pub open spec fn snapshot_after(s: SnapshotView, n: Notice) -> SnapshotView {
    SnapshotView {
        labels: match n {
            Notice::AgentSpawned { agent, label, .. } => s.labels.insert(agent, label),
            _ => s.labels,
        },
        transcript: match section_of(s, n) {
            Some((title, body)) => with_section(s.transcript, title, body),
            None => s.transcript,
        },
        status: status_after(s, n),
        executor: executor_after(s, n),
    }
}

/// The labels as texts.
pub open spec fn label_texts(m: Map<AgentId, String>) -> Map<AgentId, Seq<char>> {
    Map::new(|a: AgentId| m.contains_key(a), |a: AgentId| m[a]@)
}

impl View for ArtifactSnapshot {
    type V = SnapshotView;

    closed spec fn view(&self) -> SnapshotView {
        SnapshotView {
            labels: label_texts(self.labels@),
            transcript: self.transcript@,
            status: self.status@,
            executor: crate::text::opt_text(self.executor),
        }
    }
}

/// The state of a run that starts.
pub open spec fn fresh_snapshot() -> SnapshotView {
    SnapshotView {
        labels: Map::empty(),
        transcript: Seq::empty(),
        status: "planning"@,
        executor: None,
    }
}

impl ArtifactSnapshot {
    /// The state of a run that starts.
    pub fn new() -> (r: ArtifactSnapshot)
        ensures
            r@ == fresh_snapshot(),
    {
        let r = ArtifactSnapshot {
            labels: HashMap::new(),
            transcript: String::new(),
            status: "planning".to_owned(),
            executor: None,
        };
        proof {
            assert(r@.labels =~= Map::empty());
            assert(r@.transcript =~= Seq::empty());
        }
        r
    }

    pub fn transcript(&self) -> (r: &str)
        ensures
            r@ == self@.transcript,
    {
        self.transcript.as_str()
    }

    pub fn status(&self) -> (r: &str)
        ensures
            r@ == self@.status,
    {
        self.status.as_str()
    }

    pub fn executor(&self) -> (r: Option<String>)
        ensures
            crate::text::opt_text(r) == self@.executor,
    {
        copy_opt(&self.executor)
    }

    /// The name under which an agent is shown.
    pub fn label_for(&self, agent: AgentId) -> (r: String)
        ensures
            r@ == shown_as(self@.labels, agent),
    {
        match self.labels.get(&agent) {
            Some(label) => label.clone(),
            None => write_id(agent),
        }
    }

    fn push_section(&mut self, title: &str, body: &str)
        ensures
            final(self)@ == (SnapshotView {
                transcript: with_section(old(self)@.transcript, title@, body@),
                ..old(self)@
            }),
    {
        let ghost was = self.transcript@;
        let mut out = String::new();
        if !self.transcript.as_str().is_empty() {
            out.append(self.transcript.as_str());
            out.append("\n\n");
        }
        proof {
            assert(out@ =~= (if was.len() == 0 {
                Seq::empty()
            } else {
                was + "\n\n"@
            }));
        }
        out.append("## ");
        out.append(title);
        out.append("\n\n");
        out.append(trimmed(body).as_str());
        out.append("\n");
        self.transcript = out;
    }

    fn set_status(&mut self, status: &str)
        ensures
            final(self)@ == (SnapshotView { status: status@, ..old(self)@ }),
    {
        self.status = status.to_owned();
    }

    fn set_executor(&mut self, executor: &str)
        ensures
            final(self)@ == (SnapshotView { executor: Some(executor@), ..old(self)@ }),
    {
        self.executor = Some(executor.to_owned());
    }

    fn set_label(&mut self, agent: AgentId, label: &str)
        ensures
            final(self)@ == (SnapshotView {
                labels: old(self)@.labels.insert(agent, label@),
                ..old(self)@
            }),
    {
        let ghost was = self@;
        self.labels.insert(agent, label.to_owned());
        proof {
            assert(self@.labels =~= was.labels.insert(agent, label@));
        }
    }

    /// Takes an event in. The result tells whether the files of the run change.
    pub fn apply(&mut self, ev: &OrchestratorEvent) -> (r: bool)
        ensures
            final(self)@ == snapshot_after(old(self)@, ev@),
            r == (section_of(old(self)@, ev@) is Some),
    {
        match ev {
            OrchestratorEvent::AgentSpawned { agent, label, .. } => {
                self.set_label(*agent, label.as_str());
                false
            },
            OrchestratorEvent::Message { agent, text } => {
                let title = self.label_for(*agent);
                self.push_section(title.as_str(), text.as_str());
                true
            },
            OrchestratorEvent::UserMessage { text } => {
                self.push_section("You", text.as_str());
                true
            },
            OrchestratorEvent::ToolActivity { agent, summary } => {
                let mut body = self.label_for(*agent);
                body.append(": ");
                body.append(summary.as_str());
                self.push_section("Tool activity", body.as_str());
                true
            },
            OrchestratorEvent::RecommendationReady { executor, rationale, confident, scores } => {
                let confidence: &str = if *confident {
                    "consensus"
                } else {
                    "needs review"
                };
                let mut body = "Executor: ".to_owned();
                body.append(tool_label(executor.as_str()).as_str());
                body.append(" (`");
                body.append(executor.as_str());
                body.append("`)\nConfidence: ");
                body.append(confidence);
                body.append("\n");
                body.append(format_scores(scores).as_str());
                body.append("\n\n");
                body.append(rationale.as_str());
                self.set_status("recommended");
                self.set_executor(executor.as_str());
                self.push_section("Recommendation", body.as_str());
                true
            },
            OrchestratorEvent::ExecutionPacket { executor, text, included_in_prompt } => {
                let delivery: &str = if *included_in_prompt {
                    "sent to prompt"
                } else {
                    "session audit"
                };
                let mut body = "Executor: ".to_owned();
                body.append(tool_label(executor.as_str()).as_str());
                body.append(" (`");
                body.append(executor.as_str());
                body.append("`)\nDelivery: ");
                body.append(delivery);
                body.append("\n\n");
                body.append(text.as_str());
                self.set_status("execution_packet");
                self.set_executor(executor.as_str());
                self.push_section("Execution packet", body.as_str());
                true
            },
            OrchestratorEvent::SessionReport { markdown, .. } => {
                if !same(self.status.as_str(), "done") && !same(self.status.as_str(), "failed") {
                    self.set_status("report_ready");
                }
                self.push_section("Session report", markdown.as_str());
                true
            },
            OrchestratorEvent::AwaitingConfirmation { prompt } => {
                self.set_status("awaiting_executor");
                self.push_section("Awaiting confirmation", prompt.as_str());
                true
            },
            OrchestratorEvent::PhaseChanged { phase } => {
                self.set_status(event_status(ev));
                self.push_section("Phase", phase.as_str());
                true
            },
            OrchestratorEvent::Log { level, msg } => {
                if same(level.as_str(), "warn") || same(level.as_str(), "error") {
                    let mut body = level.clone();
                    body.append(": ");
                    body.append(msg.as_str());
                    self.push_section("Log", body.as_str());
                    true
                } else {
                    false
                }
            },
            OrchestratorEvent::Fatal { msg } => {
                self.set_status("failed");
                self.push_section("Fatal error", msg.as_str());
                true
            },
            _ => false,
        }
    }
}

/// The plan only grows: an event keeps all that the transcript told before,
/// and puts its section behind it.
pub proof fn law_transcripts_only_grow(s: SnapshotView, n: Notice)
    ensures
        snapshot_after(s, n).transcript.len() >= s.transcript.len(),
        snapshot_after(s, n).transcript.take(s.transcript.len() as int) == s.transcript,
{
    let t = snapshot_after(s, n).transcript;
    assert(t.take(s.transcript.len() as int) =~= s.transcript);
}

/// A run that is over stays over until another phase begins or something else
/// is decided: the report does not take its end back.
pub proof fn law_reports_do_not_reopen_runs(s: SnapshotView, n: Notice)
    requires
        n is SessionReport,
        s.status == "done"@ || s.status == "failed"@,
    ensures
        snapshot_after(s, n).status == s.status,
{
}

// ---- The log of events -----------------------------------------------------

pub open spec fn scores_doc(scores: Seq<Score>) -> Doc {
    Doc::Arr(Seq::new(scores.len(), |i: int| score_doc(scores[i])))
}

pub open spec fn score_doc(s: Score) -> Doc {
    Doc::Arr(seq![jstr(s.executor@), Doc::Num(Number::Real(s.value.bits))])
}

pub open spec fn usage_record(u: Option<TokenUsage>) -> Doc {
    match u {
        Some(u) => Doc::Obj(
            seq![
                ("input_tokens"@, jopt_u64(u.input_tokens)),
                ("output_tokens"@, jopt_u64(u.output_tokens)),
                ("total_tokens"@, jopt_u64(u.total_tokens)),
            ],
        ),
        None => Doc::Null,
    }
}

pub open spec fn cost_doc(c: Option<Number>) -> Doc {
    match c {
        Some(n) => Doc::Num(n),
        None => Doc::Null,
    }
}

pub open spec fn code_doc(code: Option<i32>) -> Doc {
    match code {
        Some(n) => if n < 0 {
            Doc::Num(Number::Negative(n as i64))
        } else {
            Doc::Num(Number::Unsigned(n as u64))
        },
        None => Doc::Null,
    }
}

/// The kind under which an event is logged.
pub open spec fn record_kind(n: Notice) -> Seq<char> {
    match n {
        Notice::AgentSpawned { .. } => "agent_spawned"@,
        Notice::Token { .. } => "token"@,
        Notice::TurnStarted { .. } => "turn_started"@,
        Notice::Message { .. } => "message"@,
        Notice::UserMessage { .. } => "user_message"@,
        Notice::ToolActivity { .. } => "tool_activity"@,
        Notice::TurnComplete { .. } => "turn_complete"@,
        Notice::AgentExited { .. } => "agent_exited"@,
        Notice::PhaseChanged { .. } => "phase_changed"@,
        Notice::RecommendationReady { .. } => "recommendation_ready"@,
        Notice::ExecutionPacket { .. } => "execution_packet"@,
        Notice::SessionReport { .. } => "session_report"@,
        Notice::AwaitingConfirmation { .. } => "awaiting_confirmation"@,
        Notice::Log { .. } => "log"@,
        Notice::Fatal { .. } => "fatal"@,
    }
}

/// What is logged of an event besides its time and kind.
pub open spec fn record_fields(n: Notice) -> Seq<(Seq<char>, Doc)> {
    match n {
        Notice::AgentSpawned { agent, label, session_id } => seq![
            ("agent"@, jstr(id_text(agent))),
            ("label"@, jstr(label)),
            ("session_id"@, jstr(session_id)),
        ],
        Notice::Token { agent, text } => seq![
            ("agent"@, jstr(id_text(agent))),
            ("chars"@, jnum(text.len() as int)),
            ("preview"@, jstr(short_preview(text, 240))),
        ],
        Notice::TurnStarted { agent, role } => seq![
            ("agent"@, jstr(id_text(agent))),
            ("role"@, jstr(role)),
        ],
        Notice::Message { agent, text } => seq![
            ("agent"@, jstr(id_text(agent))),
            ("chars"@, jnum(text.len() as int)),
            ("text"@, jstr(text)),
        ],
        Notice::UserMessage { text } => seq![
            ("chars"@, jnum(text.len() as int)),
            ("text"@, jstr(text)),
        ],
        Notice::ToolActivity { agent, summary } => seq![
            ("agent"@, jstr(id_text(agent))),
            ("summary"@, jstr(summary)),
        ],
        Notice::TurnComplete { agent, cost_usd, token_usage } => seq![
            ("agent"@, jstr(id_text(agent))),
            ("cost_usd"@, cost_doc(cost_usd)),
            ("token_usage"@, usage_record(token_usage)),
        ],
        Notice::AgentExited { agent, code } => seq![
            ("agent"@, jstr(id_text(agent))),
            ("code"@, code_doc(code)),
        ],
        Notice::PhaseChanged { phase } => seq![("phase"@, jstr(phase))],
        Notice::RecommendationReady { executor, rationale, confident, scores } => seq![
            ("executor"@, jstr(executor)),
            ("rationale"@, jstr(rationale)),
            ("confident"@, jbool(confident)),
            ("scores"@, scores_doc(scores)),
        ],
        Notice::ExecutionPacket { executor, text, included_in_prompt } => seq![
            ("executor"@, jstr(executor)),
            ("chars"@, jnum(text.len() as int)),
            ("included_in_prompt"@, jbool(included_in_prompt)),
            ("text"@, jstr(text)),
        ],
        Notice::SessionReport { markdown, summary } => seq![
            ("markdown_chars"@, jnum(markdown.len() as int)),
            ("markdown"@, jstr(markdown)),
            ("summary"@, summary),
        ],
        Notice::AwaitingConfirmation { prompt } => seq![("prompt"@, jstr(prompt))],
        Notice::Log { level, msg } => seq![("level"@, jstr(level)), ("message"@, jstr(msg))],
        Notice::Fatal { msg } => seq![("message"@, jstr(msg))],
    }
}

/// The entry of the log for an event.
pub open spec fn record_doc(n: Notice, now: u64) -> Doc {
    Doc::Obj(
        seq![("time_unix"@, jnum(now as int)), ("kind"@, jstr(record_kind(n)))] + record_fields(n),
    )
}

fn scores_json(scores: &Vec<Score>) -> (r: Json)
    ensures
        r@ == scores_doc(scores@),
{
    let ghost one = |i: int| score_doc(scores@[i]);
    let mut out: Vec<Json> = Vec::new();
    let mut i: usize = 0;
    proof {
        assert(docs(out@) =~= Seq::new(0, one));
    }
    while i < scores.len()
        invariant
            i <= scores.len(),
            one == (|i: int| score_doc(scores@[i])),
            docs(out@) == Seq::new(i as nat, one),
        decreases scores.len() - i,
    {
        let pair = vec![
            text(scores[i].executor.as_str()),
            Json::Num(Number::Real(scores[i].value.bits)),
        ];
        proof {
            assert(docs(pair@) =~= score_doc(scores@[i as int])->Arr_0);
        }
        let x = list(pair);
        proof {
            lemma_docs_push(out@, x);
            assert(Seq::new((i + 1) as nat, one) =~= Seq::new(i as nat, one).push(x@));
        }
        out.push(x);
        i = i + 1;
    }
    list(out)
}

fn usage_json(u: &Option<TokenUsage>) -> (r: Json)
    ensures
        r@ == usage_record(*u),
{
    match u {
        Some(u) => {
            let mut f = Fields::new();
            f.put("input_tokens", opt_num(u.input_tokens));
            f.put("output_tokens", opt_num(u.output_tokens));
            f.put("total_tokens", opt_num(u.total_tokens));
            proof {
                assert(f@ =~= usage_record(Some(*u))->Obj_0);
            }
            f.object()
        },
        None => null(),
    }
}

fn code_json(code: Option<i32>) -> (r: Json)
    ensures
        r@ == code_doc(code),
{
    match code {
        Some(n) => if n < 0 {
            Json::Num(Number::Negative(n as i64))
        } else {
            Json::Num(Number::Unsigned(n as u64))
        },
        None => null(),
    }
}

fn id_json(agent: AgentId) -> (r: Json)
    ensures
        r@ == jstr(id_text(agent)),
{
    text(write_id(agent).as_str())
}

fn kind_word(ev: &OrchestratorEvent) -> (r: &'static str)
    ensures
        r@ == record_kind(ev@),
{
    match ev {
        OrchestratorEvent::AgentSpawned { .. } => "agent_spawned",
        OrchestratorEvent::Token { .. } => "token",
        OrchestratorEvent::TurnStarted { .. } => "turn_started",
        OrchestratorEvent::Message { .. } => "message",
        OrchestratorEvent::UserMessage { .. } => "user_message",
        OrchestratorEvent::ToolActivity { .. } => "tool_activity",
        OrchestratorEvent::TurnComplete { .. } => "turn_complete",
        OrchestratorEvent::AgentExited { .. } => "agent_exited",
        OrchestratorEvent::PhaseChanged { .. } => "phase_changed",
        OrchestratorEvent::RecommendationReady { .. } => "recommendation_ready",
        OrchestratorEvent::ExecutionPacket { .. } => "execution_packet",
        OrchestratorEvent::SessionReport { .. } => "session_report",
        OrchestratorEvent::AwaitingConfirmation { .. } => "awaiting_confirmation",
        OrchestratorEvent::Log { .. } => "log",
        OrchestratorEvent::Fatal { .. } => "fatal",
    }
}

/// The entry of the log for an event.
pub fn event_record(ev: &OrchestratorEvent, now: u64) -> (r: Json)
    ensures
        r@ == record_doc(ev@, now),
{
    let mut f = Fields::new();
    f.put("time_unix", num(now));
    f.put("kind", text(kind_word(ev)));
    match ev {
        OrchestratorEvent::AgentSpawned { agent, label, session_id } => {
            f.put("agent", id_json(*agent));
            f.put("label", text(label.as_str()));
            f.put("session_id", text(session_id.as_str()));
        },
        OrchestratorEvent::Token { agent, text: t } => {
            f.put("agent", id_json(*agent));
            f.put("chars", size(char_count(t.as_str())));
            f.put("preview", text(json_preview(t.as_str(), 240).as_str()));
        },
        OrchestratorEvent::TurnStarted { agent, role } => {
            f.put("agent", id_json(*agent));
            f.put("role", text(role.as_str()));
        },
        OrchestratorEvent::Message { agent, text: t } => {
            f.put("agent", id_json(*agent));
            f.put("chars", size(char_count(t.as_str())));
            f.put("text", text(t.as_str()));
        },
        OrchestratorEvent::UserMessage { text: t } => {
            f.put("chars", size(char_count(t.as_str())));
            f.put("text", text(t.as_str()));
        },
        OrchestratorEvent::ToolActivity { agent, summary } => {
            f.put("agent", id_json(*agent));
            f.put("summary", text(summary.as_str()));
        },
        OrchestratorEvent::TurnComplete { agent, cost_usd, token_usage } => {
            f.put("agent", id_json(*agent));
            let cost = match cost_usd {
                Some(n) => Json::Num(*n),
                None => null(),
            };
            f.put("cost_usd", cost);
            f.put("token_usage", usage_json(token_usage));
        },
        OrchestratorEvent::AgentExited { agent, code } => {
            f.put("agent", id_json(*agent));
            f.put("code", code_json(*code));
        },
        OrchestratorEvent::PhaseChanged { phase } => {
            f.put("phase", text(phase.as_str()));
        },
        OrchestratorEvent::RecommendationReady { executor, rationale, confident, scores } => {
            f.put("executor", text(executor.as_str()));
            f.put("rationale", text(rationale.as_str()));
            f.put("confident", truth(*confident));
            f.put("scores", scores_json(scores));
        },
        OrchestratorEvent::ExecutionPacket { executor, text: t, included_in_prompt } => {
            f.put("executor", text(executor.as_str()));
            f.put("chars", size(char_count(t.as_str())));
            f.put("included_in_prompt", truth(*included_in_prompt));
            f.put("text", text(t.as_str()));
        },
        OrchestratorEvent::SessionReport { markdown, summary } => {
            f.put("markdown_chars", size(char_count(markdown.as_str())));
            f.put("markdown", text(markdown.as_str()));
            f.put("summary", copy(summary));
        },
        OrchestratorEvent::AwaitingConfirmation { prompt } => {
            f.put("prompt", text(prompt.as_str()));
        },
        OrchestratorEvent::Log { level, msg } => {
            f.put("level", text(level.as_str()));
            f.put("message", text(msg.as_str()));
        },
        OrchestratorEvent::Fatal { msg } => {
            f.put("message", text(msg.as_str()));
        },
    }
    proof {
        assert(f@ =~= record_doc(ev@, now)->Obj_0);
    }
    f.object()
}

} // verus!
