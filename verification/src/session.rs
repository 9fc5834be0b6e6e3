//! What a session is configured with.
use vstd::prelude::*;
use crate::changes::DEFAULT_LOCAL_CHANGE_LINES;
use crate::context::DEFAULT_CONTEXT_BUDGET_CHARS;
use crate::error::{reports, TalesError};
use crate::json::{
    docs, jbool, jnum, jopt_size, jopt_str, jstr, jtexts, lemma_docs_push, list, num, opt_size,
    opt_string, size, text, text_list, truth, Doc, Fields, Json,
};
use crate::path::is_rooted;
use crate::recommend::Measure;
use crate::registry::{row_of, tool_info};
use crate::roster::{
    effort_problem, is_named, named, roster_problem, validate_effort, validate_roster,
};
use crate::scan::{blank, contains, ends_with, ends, has, is_blank, lines, lines_of, trim, trimmed};
use crate::text::{first_n, lemma_texts_push, lower_text, opt_text, same, texts, to_lower};

verus! {

/// What a session is for.
#[derive(Clone, Copy, Debug, PartialEq, Eq, Structural)]
pub enum SessionMode {
    Discuss,
    Run,
    Solo,
    Eval,
}

/// Where an agent works.
#[derive(Clone, Copy, Debug, PartialEq, Eq, Structural)]
pub enum CwdPolicy {
    Shared,
    SeparateWorktree,
}

/// What an agent may do while it executes.
#[derive(Clone, Copy, Debug, PartialEq, Eq, Structural)]
pub enum ExecutionPermission {
    ReadOnly,
    WorkspaceWrite,
    DangerFullAccess,
    AcceptEdits,
}

/// The name of a mode.
pub open spec fn mode_name(m: SessionMode) -> Seq<char> {
    match m {
        SessionMode::Discuss => "discuss"@,
        SessionMode::Run => "run"@,
        SessionMode::Solo => "solo"@,
        SessionMode::Eval => "eval"@,
    }
}

/// The name of a directory policy.
pub open spec fn policy_name(p: CwdPolicy) -> Seq<char> {
    match p {
        CwdPolicy::Shared => "shared"@,
        CwdPolicy::SeparateWorktree => "separate_worktree"@,
    }
}

/// The name of a permission.
pub open spec fn permission_name(p: ExecutionPermission) -> Seq<char> {
    match p {
        ExecutionPermission::ReadOnly => "read_only"@,
        ExecutionPermission::WorkspaceWrite => "workspace_write"@,
        ExecutionPermission::DangerFullAccess => "danger_full_access"@,
        ExecutionPermission::AcceptEdits => "accept_edits"@,
    }
}

impl SessionMode {
    pub fn name(self) -> (r: &'static str)
        ensures
            r@ == mode_name(self),
    {
        match self {
            SessionMode::Discuss => "discuss",
            SessionMode::Run => "run",
            SessionMode::Solo => "solo",
            SessionMode::Eval => "eval",
        }
    }
}

impl CwdPolicy {
    pub fn name(self) -> (r: &'static str)
        ensures
            r@ == policy_name(self),
    {
        match self {
            CwdPolicy::Shared => "shared",
            CwdPolicy::SeparateWorktree => "separate_worktree",
        }
    }
}

impl ExecutionPermission {
    pub fn name(self) -> (r: &'static str)
        ensures
            r@ == permission_name(self),
    {
        match self {
            ExecutionPermission::ReadOnly => "read_only",
            ExecutionPermission::WorkspaceWrite => "workspace_write",
            ExecutionPermission::DangerFullAccess => "danger_full_access",
            ExecutionPermission::AcceptEdits => "accept_edits",
        }
    }
}

/// An agent's place in a session.
#[derive(Debug)]
pub struct AgentSeatConfig {
    pub role: String,
    pub tool_key: String,
    pub model: Option<String>,
    pub effort: Option<String>,
    pub cwd_policy: CwdPolicy,
    pub execution_permission: ExecutionPermission,
}

/// An agent's place in a session, as a value.
pub struct SeatView {
    pub role: Seq<char>,
    pub tool_key: Seq<char>,
    pub model: Option<Seq<char>>,
    pub effort: Option<Seq<char>>,
    pub cwd_policy: CwdPolicy,
    pub execution_permission: ExecutionPermission,
}

impl View for AgentSeatConfig {
    type V = SeatView;

    open spec fn view(&self) -> SeatView {
        SeatView {
            role: self.role@,
            tool_key: self.tool_key@,
            model: opt_text(self.model),
            effort: opt_text(self.effort),
            cwd_policy: self.cwd_policy,
            execution_permission: self.execution_permission,
        }
    }
}

/// A list of seats as values.
pub open spec fn seat_views(v: Seq<AgentSeatConfig>) -> Seq<SeatView> {
    Seq::new(v.len(), |i: int| v[i]@)
}

impl AgentSeatConfig {
    /// A seat in the shared directory with write access to the workspace.
    pub fn new(role: String, tool_key: String) -> (r: Self)
        ensures
            r@ == (SeatView {
                role: role@,
                tool_key: tool_key@,
                model: None,
                effort: None,
                cwd_policy: CwdPolicy::Shared,
                execution_permission: ExecutionPermission::WorkspaceWrite,
            }),
    {
        AgentSeatConfig {
            role,
            tool_key,
            model: None,
            effort: None,
            cwd_policy: CwdPolicy::Shared,
            execution_permission: ExecutionPermission::WorkspaceWrite,
        }
    }
}

/// How much prompts may carry.
#[derive(Clone, Copy, Debug, PartialEq, Eq)]
pub struct PromptBudgetConfig {
    pub context_budget_chars: Option<usize>,
    pub project_context_enabled: bool,
    pub refresh_project_context: bool,
    pub project_context_max_files: usize,
    pub project_context_max_manifest_chars: usize,
    pub local_change_handoff_lines: usize,
}

/// The budgets that hold where nothing else is asked for.
pub open spec fn default_budget() -> PromptBudgetConfig {
    PromptBudgetConfig {
        context_budget_chars: Some(DEFAULT_CONTEXT_BUDGET_CHARS),
        project_context_enabled: true,
        refresh_project_context: false,
        project_context_max_files: 220,
        project_context_max_manifest_chars: 1_200,
        local_change_handoff_lines: DEFAULT_LOCAL_CHANGE_LINES,
    }
}

impl Default for PromptBudgetConfig {
    fn default() -> (r: Self)
        ensures
            r == default_budget(),
    {
        PromptBudgetConfig {
            context_budget_chars: Some(DEFAULT_CONTEXT_BUDGET_CHARS),
            project_context_enabled: true,
            refresh_project_context: false,
            project_context_max_files: 220,
            project_context_max_manifest_chars: 1_200,
            local_change_handoff_lines: DEFAULT_LOCAL_CHANGE_LINES,
        }
    }
}

/// Who may execute, and whether anyone has to agree.
#[derive(Debug)]
pub struct ExecutionPolicy {
    pub recommend_only: bool,
    pub approval_required: bool,
    pub allowed_executors: Vec<String>,
}

impl ExecutionPolicy {
    /// A policy under which nothing is executed without approval.
    pub fn recommend_only(allowed_executors: Vec<String>) -> (r: Self)
        ensures
            r.recommend_only,
            r.approval_required,
            r.allowed_executors@ == allowed_executors@,
    {
        ExecutionPolicy { recommend_only: true, approval_required: true, allowed_executors }
    }
}

/// Where a session's reports go.
#[derive(Debug)]
pub struct ReportPaths {
    pub markdown: Option<String>,
    pub json: Option<String>,
}

/// All that a session is configured with.
#[derive(Debug)]
pub struct SessionConfig {
    pub schema_version: u8,
    pub task: String,
    pub cwd: String,
    pub mode: SessionMode,
    pub turns: usize,
    pub sequential: bool,
    pub sandbox: String,
    pub seats: Vec<AgentSeatConfig>,
    pub prompt_budget: PromptBudgetConfig,
    pub execution_policy: ExecutionPolicy,
    pub report_paths: ReportPaths,
}

// ---- Validation ----------------------------------------------------------------

/// The tools of a list of seats.
pub open spec fn seat_tools(seats: Seq<SeatView>) -> Seq<Seq<char>> {
    Seq::new(seats.len(), |i: int| seats[i].tool_key)
}

/// What is wrong with a seat: an unknown tool, or an effort that the tool does
/// not have.
pub open spec fn seat_problem(seat: SeatView) -> Option<Seq<char>> {
    if row_of(seat.tool_key) is None {
        Some("unknown tool: "@ + seat.tool_key)
    } else {
        effort_problem(seat.tool_key, seat.effort)
    }
}

/// What is wrong with the first seat with which anything is.
pub open spec fn seats_problem(seats: Seq<SeatView>) -> Option<Seq<char>>
    decreases seats.len(),
{
    if seats.len() == 0 {
        None
    } else {
        match seats_problem(seats.drop_last()) {
            Some(p) => Some(p),
            None => seat_problem(seats.last()),
        }
    }
}

/// The first allowed executor that is neither a seat's tool nor a known one.
pub open spec fn executors_problem(
    executors: Seq<Seq<char>>,
    tools: Seq<Seq<char>>,
) -> Option<Seq<char>>
    decreases executors.len(),
{
    if executors.len() == 0 {
        None
    } else {
        match executors_problem(executors.drop_last(), tools) {
            Some(p) => Some(p),
            None => if !named(tools, executors.last()) && row_of(executors.last()) is None {
                Some("unknown allowed executor: "@ + executors.last())
            } else {
                None
            },
        }
    }
}

impl SessionConfig {
    /// The first thing that is wrong with the configuration.
    pub open spec fn problem(&self, cwd_is_dir: bool) -> Option<Seq<char>> {
        let seats = seat_views(self.seats@);
        if is_blank(self.task@) {
            Some("session task cannot be empty"@)
        } else if self.turns == 0 {
            Some("session turns must be greater than zero"@)
        } else if !cwd_is_dir {
            Some("session cwd is not a directory: "@ + self.cwd@)
        } else if seats.len() == 0 {
            Some("session needs at least one agent seat"@)
        } else {
            match roster_problem(seat_tools(seats)) {
                Some(p) => Some(p),
                None => match seats_problem(seats) {
                    Some(p) => Some(p),
                    None => executors_problem(
                        texts(self.execution_policy.allowed_executors@),
                        seat_tools(seats),
                    ),
                },
            }
        }
    }

    fn tools(&self) -> (r: Vec<String>)
        ensures
            texts(r@) == seat_tools(seat_views(self.seats@)),
    {
        let ghost seats = seat_views(self.seats@);
        let mut out: Vec<String> = Vec::new();
        let mut i: usize = 0;
        while i < self.seats.len()
            invariant
                i <= self.seats@.len(),
                seats == seat_views(self.seats@),
                texts(out@) == Seq::new(i as nat, |k: int| seats[k].tool_key),
            decreases self.seats@.len() - i,
        {
            let next = self.seats[i].tool_key.clone();
            proof {
                lemma_texts_push(out@, next);
                assert(Seq::new((i + 1) as nat, |k: int| seats[k].tool_key) =~= Seq::new(
                    i as nat,
                    |k: int| seats[k].tool_key,
                ).push(next@));
            }
            out.push(next);
            i = i + 1;
        }
        proof {
            assert(texts(out@) =~= seat_tools(seats));
        }
        out
    }

    fn validate_seats(&self) -> (r: Result<(), TalesError>)
        ensures
            reports(r, seats_problem(seat_views(self.seats@))),
    {
        let ghost seats = seat_views(self.seats@);
        let mut i: usize = 0;
        while i < self.seats.len()
            invariant
                i <= self.seats@.len(),
                seats == seat_views(self.seats@),
                seats_problem(seats.take(i as int)) is None,
            decreases self.seats@.len() - i,
        {
            let seat = &self.seats[i];
            proof {
                assert(seats.take(i + 1).drop_last() =~= seats.take(i as int));
                assert(seats.take(i + 1).last() == seat@);
                lemma_first_seat_problem(seats, i + 1);
            }
            if tool_info(seat.tool_key.as_str()).is_none() {
                let mut out = "unknown tool: ".to_owned();
                out.append(seat.tool_key.as_str());
                return Err(TalesError::Other(out));
            }
            let effort = match &seat.effort {
                Some(e) => Some(e.as_str()),
                None => None,
            };
            if let Err(e) = validate_effort(seat.tool_key.as_str(), effort) {
                return Err(e);
            }
            i = i + 1;
        }
        proof {
            assert(seats.take(i as int) =~= seats);
        }
        Ok(())
    }

    fn validate_executors(&self, tools: &Vec<String>) -> (r: Result<(), TalesError>)
        ensures
            reports(
                r,
                executors_problem(
                    texts(self.execution_policy.allowed_executors@),
                    texts(tools@),
                ),
            ),
    {
        let allowed = &self.execution_policy.allowed_executors;
        let ghost all = texts(allowed@);
        let mut i: usize = 0;
        while i < allowed.len()
            invariant
                i <= allowed@.len(),
                allowed@ == self.execution_policy.allowed_executors@,
                all == texts(allowed@),
                executors_problem(all.take(i as int), texts(tools@)) is None,
            decreases allowed@.len() - i,
        {
            let executor = allowed[i].as_str();
            proof {
                assert(all.take(i + 1).drop_last() =~= all.take(i as int));
                assert(all.take(i + 1).last() == executor@);
                lemma_first_executor_problem(all, texts(tools@), i + 1);
            }
            if !is_named(tools, executor) && tool_info(executor).is_none() {
                let mut out = "unknown allowed executor: ".to_owned();
                out.append(executor);
                return Err(TalesError::Other(out));
            }
            i = i + 1;
        }
        proof {
            assert(all.take(i as int) =~= all);
        }
        Ok(())
    }

    /// Refuses a configuration that cannot run. Whether the working directory
    /// is one is looked up by the caller.
    pub fn validate(&self, cwd_is_dir: bool) -> (r: Result<(), TalesError>)
        ensures
            reports(r, self.problem(cwd_is_dir)),
    {
        proof {
            assert(seat_views(self.seats@).len() == self.seats@.len());
        }
        if blank(self.task.as_str()) {
            return Err(TalesError::Other("session task cannot be empty".to_owned()));
        }
        if self.turns == 0 {
            return Err(TalesError::Other("session turns must be greater than zero".to_owned()));
        }
        if !cwd_is_dir {
            let mut out = "session cwd is not a directory: ".to_owned();
            out.append(self.cwd.as_str());
            return Err(TalesError::Other(out));
        }
        if self.seats.len() == 0 {
            return Err(TalesError::Other("session needs at least one agent seat".to_owned()));
        }
        let tools = self.tools();
        if let Err(e) = validate_roster(&tools) {
            return Err(e);
        }
        if let Err(e) = self.validate_seats() {
            return Err(e);
        }
        self.validate_executors(&tools)
    }
}

proof fn lemma_first_seat_problem(seats: Seq<SeatView>, n: int)
    requires
        0 <= n <= seats.len(),
    ensures
        seats_problem(seats.take(n)) is Some ==> seats_problem(seats) == seats_problem(
            seats.take(n),
        ),
    decreases seats.len() - n,
{
    if n == seats.len() {
        assert(seats.take(n) =~= seats);
    } else {
        assert(seats.take(n + 1).drop_last() =~= seats.take(n));
        lemma_first_seat_problem(seats, n + 1);
    }
}

proof fn lemma_first_executor_problem(all: Seq<Seq<char>>, tools: Seq<Seq<char>>, n: int)
    requires
        0 <= n <= all.len(),
    ensures
        executors_problem(all.take(n), tools) is Some ==> executors_problem(all, tools)
            == executors_problem(all.take(n), tools),
    decreases all.len() - n,
{
    if n == all.len() {
        assert(all.take(n) =~= all);
    } else {
        assert(all.take(n + 1).drop_last() =~= all.take(n));
        lemma_first_executor_problem(all, tools, n + 1);
    }
}

/// In a configuration that may run, every seat's tool is known and understands
/// the effort it is asked for, and every allowed executor is known or a seat's
/// tool.
pub proof fn law_valid_sessions_are_sound(config: SessionConfig)
    requires
        config.problem(true) is None,
    ensures
        !is_blank(config.task@) && config.turns > 0 && config.seats@.len() > 0,
        forall|i: int|
            0 <= i < config.seats@.len() ==> seat_problem(
                (#[trigger] seat_views(config.seats@)[i]),
            ) is None,
        forall|i: int|
            0 <= i < config.execution_policy.allowed_executors@.len() ==> {
                let e = #[trigger] texts(config.execution_policy.allowed_executors@)[i];
                named(seat_tools(seat_views(config.seats@)), e) || row_of(e) is Some
            },
{
    let seats = seat_views(config.seats@);
    let tools = seat_tools(seats);
    let allowed = texts(config.execution_policy.allowed_executors@);
    assert forall|i: int| 0 <= i < seats.len() implies seat_problem(#[trigger] seats[i]) is None by {
        lemma_first_seat_problem(seats, i + 1);
        assert(seats.take(i + 1).last() == seats[i]);
    }
    assert forall|i: int| 0 <= i < allowed.len() implies {
        let e = #[trigger] allowed[i];
        named(tools, e) || row_of(e) is Some
    } by {
        lemma_first_executor_problem(allowed, tools, i + 1);
        assert(allowed.take(i + 1).last() == allowed[i]);
    }
}

/// The directory that was asked for, or what is said where it cannot be opened.
pub open spec fn canonical(resolved: Result<Seq<char>, Seq<char>>, is_dir: bool) -> Result<
    Seq<char>,
    Seq<char>,
> {
    match resolved {
        Ok(path) => if is_dir {
            Ok(path)
        } else {
            Err("workspace must be a directory: "@ + path)
        },
        Err(e) => Err("cannot open workspace: "@ + e),
    }
}

/// What is known of a directory that was asked for: the path to which it
/// resolved or why it did not, and whether a directory stands there.
pub fn canonicalize_dir(resolved: Result<String, String>, is_dir: bool) -> (r: Result<
    String,
    TalesError,
>)
    ensures
        match canonical(
            match resolved {
                Ok(path) => Ok(path@),
                Err(e) => Err(e@),
            },
            is_dir,
        ) {
            Ok(path) => r matches Ok(p) && p@ == path,
            Err(told) => r matches Err(TalesError::Other(m)) && m@ == told,
        },
{
    match resolved {
        Ok(path) => if is_dir {
            Ok(path)
        } else {
            let mut out = "workspace must be a directory: ".to_owned();
            out.append(path.as_str());
            Err(TalesError::Other(out))
        },
        Err(e) => {
            let mut out = "cannot open workspace: ".to_owned();
            out.append(e.as_str());
            Err(TalesError::Other(out))
        },
    }
}

/// A file tree: to which file each path leads, if to any, the path of each file
/// with all links resolved, and which files are directories.
pub struct FileTree {
    pub leads_to: spec_fn(Seq<char>) -> Option<int>,
    pub path_of: spec_fn(int) -> Seq<char>,
    pub is_dir: spec_fn(int) -> bool,
}

impl FileTree {
    /// Whether the path of every file that a path leads to is rooted, and leads to
    /// that file.
    pub open spec fn wf(self) -> bool {
        forall|path: Seq<char>|
            (#[trigger] (self.leads_to)(path)) matches Some(n) ==> is_rooted((self.path_of)(n)) && (
            self.leads_to)((self.path_of)(n)) == Some(n)
    }

    /// What the tree answers for a path: the path of the file, or else why there
    /// is none.
    pub open spec fn resolved(self, path: Seq<char>, why: Seq<char>) -> Result<
        Seq<char>,
        Seq<char>,
    > {
        match (self.leads_to)(path) {
            Some(n) => Ok((self.path_of)(n)),
            None => Err(why),
        }
    }

    /// Whether a path leads to a directory.
    pub open spec fn has_dir(self, path: Seq<char>) -> bool {
        (self.leads_to)(path) matches Some(n) && (self.is_dir)(n)
    }
}

/// A path opens exactly where it leads to a directory; it does not where it leads
/// nowhere or to a plain file. The directory that opens has a rooted path, and
/// opens as itself. `why` and `again` are what the tree says where a path leads
/// nowhere.
pub proof fn law_opened_directories_stay(
    tree: FileTree,
    path: Seq<char>,
    why: Seq<char>,
    again: Seq<char>,
)
    requires
        tree.wf(),
    ensures
        canonical(tree.resolved(path, why), tree.has_dir(path)) is Ok <==> tree.has_dir(path),
        canonical(tree.resolved(path, why), tree.has_dir(path)) matches Ok(p) ==> is_rooted(p)
            && canonical(tree.resolved(p, again), tree.has_dir(p)) == Ok::<Seq<char>, Seq<char>>(p),
{
}

// ---- Documents -----------------------------------------------------------------

pub open spec fn seat_doc(seat: SeatView) -> Doc {
    Doc::Obj(
        seq![
            ("role"@, jstr(seat.role)),
            ("tool_key"@, jstr(seat.tool_key)),
            ("model"@, jopt_str(seat.model)),
            ("effort"@, jopt_str(seat.effort)),
            ("cwd_policy"@, jstr(policy_name(seat.cwd_policy))),
            ("execution_permission"@, jstr(permission_name(seat.execution_permission))),
        ],
    )
}

pub open spec fn budget_doc(b: PromptBudgetConfig) -> Doc {
    Doc::Obj(
        seq![
            ("context_budget_chars"@, jopt_size(b.context_budget_chars)),
            ("project_context_enabled"@, jbool(b.project_context_enabled)),
            ("refresh_project_context"@, jbool(b.refresh_project_context)),
            ("project_context_max_files"@, jnum(b.project_context_max_files as int)),
            (
                "project_context_max_manifest_chars"@,
                jnum(b.project_context_max_manifest_chars as int),
            ),
            ("local_change_handoff_lines"@, jnum(b.local_change_handoff_lines as int)),
        ],
    )
}

pub open spec fn policy_doc(p: ExecutionPolicy) -> Doc {
    Doc::Obj(
        seq![
            ("recommend_only"@, jbool(p.recommend_only)),
            ("approval_required"@, jbool(p.approval_required)),
            ("allowed_executors"@, jtexts(texts(p.allowed_executors@))),
        ],
    )
}

pub open spec fn paths_doc(p: ReportPaths) -> Doc {
    Doc::Obj(
        seq![
            ("markdown"@, jopt_str(opt_text(p.markdown))),
            ("json"@, jopt_str(opt_text(p.json))),
        ],
    )
}

pub open spec fn seat_docs(seats: Seq<SeatView>) -> Seq<Doc> {
    Seq::new(seats.len(), |i: int| seat_doc(seats[i]))
}

/// A configuration as a document.
pub open spec fn config_doc(c: SessionConfig) -> Doc {
    Doc::Obj(
        seq![
            ("schema_version"@, jnum(c.schema_version as int)),
            ("task"@, jstr(c.task@)),
            ("cwd"@, jstr(c.cwd@)),
            ("mode"@, jstr(mode_name(c.mode))),
            ("turns"@, jnum(c.turns as int)),
            ("sequential"@, jbool(c.sequential)),
            ("sandbox"@, jstr(c.sandbox@)),
            ("seats"@, Doc::Arr(seat_docs(seat_views(c.seats@)))),
            ("prompt_budget"@, budget_doc(c.prompt_budget)),
            ("execution_policy"@, policy_doc(c.execution_policy)),
            ("report_paths"@, paths_doc(c.report_paths)),
        ],
    )
}

impl AgentSeatConfig {
    pub fn to_json(&self) -> (r: Json)
        ensures
            r@ == seat_doc(self@),
    {
        let mut f = Fields::new();
        f.put("role", text(self.role.as_str()));
        f.put("tool_key", text(self.tool_key.as_str()));
        f.put("model", opt_string(&self.model));
        f.put("effort", opt_string(&self.effort));
        f.put("cwd_policy", text(self.cwd_policy.name()));
        f.put("execution_permission", text(self.execution_permission.name()));
        proof {
            assert(f@ =~= seat_doc(self@)->Obj_0);
        }
        f.object()
    }
}

impl PromptBudgetConfig {
    pub fn to_json(&self) -> (r: Json)
        ensures
            r@ == budget_doc(*self),
    {
        let mut f = Fields::new();
        f.put("context_budget_chars", opt_size(self.context_budget_chars));
        f.put("project_context_enabled", truth(self.project_context_enabled));
        f.put("refresh_project_context", truth(self.refresh_project_context));
        f.put("project_context_max_files", size(self.project_context_max_files));
        f.put("project_context_max_manifest_chars", size(self.project_context_max_manifest_chars));
        f.put("local_change_handoff_lines", size(self.local_change_handoff_lines));
        proof {
            assert(f@ =~= budget_doc(*self)->Obj_0);
        }
        f.object()
    }
}

impl ExecutionPolicy {
    pub fn to_json(&self) -> (r: Json)
        ensures
            r@ == policy_doc(*self),
    {
        let mut f = Fields::new();
        f.put("recommend_only", truth(self.recommend_only));
        f.put("approval_required", truth(self.approval_required));
        f.put("allowed_executors", text_list(&self.allowed_executors));
        proof {
            assert(f@ =~= policy_doc(*self)->Obj_0);
        }
        f.object()
    }
}

impl ReportPaths {
    pub fn to_json(&self) -> (r: Json)
        ensures
            r@ == paths_doc(*self),
    {
        let mut f = Fields::new();
        f.put("markdown", opt_string(&self.markdown));
        f.put("json", opt_string(&self.json));
        proof {
            assert(f@ =~= paths_doc(*self)->Obj_0);
        }
        f.object()
    }
}

/// The seats that plan, in order.
pub open spec fn planning_seats(seats: Seq<SeatView>) -> Seq<SeatView> {
    seats.filter(|s: SeatView| is_planning_role(s.role))
}

/// Whether a role takes part in planning.
pub open spec fn is_planning_role(role: Seq<char>) -> bool {
    role == "drafter"@ || role == "critic"@ || role == "planner"@ || role == "inspector"@
}

impl SessionConfig {
    fn seats_json(&self) -> (r: Json)
        ensures
            r@ == Doc::Arr(seat_docs(seat_views(self.seats@))),
    {
        let ghost seats = seat_views(self.seats@);
        let ghost one = |i: int| seat_doc(seats[i]);
        let mut out: Vec<Json> = Vec::new();
        let mut i: usize = 0;
        proof {
            assert(docs(out@) =~= Seq::new(0, one));
        }
        while i < self.seats.len()
            invariant
                i <= self.seats@.len(),
                seats == seat_views(self.seats@),
                one == (|i: int| seat_doc(seats[i])),
                docs(out@) == Seq::new(i as nat, one),
            decreases self.seats@.len() - i,
        {
            let next = self.seats[i].to_json();
            proof {
                lemma_docs_push(out@, next);
                assert(seats[i as int] == self.seats@[i as int]@);
                assert(Seq::new((i + 1) as nat, one) =~= Seq::new(i as nat, one).push(next@));
            }
            out.push(next);
            i = i + 1;
        }
        proof {
            assert(docs(out@) =~= seat_docs(seats));
        }
        list(out)
    }

    /// The configuration as a document.
    pub fn to_json(&self) -> (r: Json)
        ensures
            r@ == config_doc(*self),
    {
        let mut f = Fields::new();
        f.put("schema_version", num(self.schema_version as u64));
        f.put("task", text(self.task.as_str()));
        f.put("cwd", text(self.cwd.as_str()));
        f.put("mode", text(self.mode.name()));
        f.put("turns", size(self.turns));
        f.put("sequential", truth(self.sequential));
        f.put("sandbox", text(self.sandbox.as_str()));
        f.put("seats", self.seats_json());
        f.put("prompt_budget", self.prompt_budget.to_json());
        f.put("execution_policy", self.execution_policy.to_json());
        f.put("report_paths", self.report_paths.to_json());
        proof {
            assert(f@ =~= config_doc(*self)->Obj_0);
        }
        f.object()
    }

    /// The tools of the planners, in the order of their seats.
    pub fn planner_tools(&self) -> (r: Vec<String>)
        ensures
            texts(r@) == seat_tools(planning_seats(seat_views(self.seats@))),
            texts(r@) == seat_tools(
                seat_views(self.seats@).filter(|s: SeatView| is_planning_role(s.role)),
            ),
    {
        let ghost seats = seat_views(self.seats@);
        let ghost keep = |s: SeatView| is_planning_role(s.role);
        let mut out: Vec<String> = Vec::new();
        let mut i: usize = 0;
        proof {
            assert(seats.take(0).filter(keep) =~= Seq::empty());
            assert(texts(out@) =~= seat_tools(seats.take(0).filter(keep)));
        }
        while i < self.seats.len()
            invariant
                i <= self.seats@.len(),
                seats == seat_views(self.seats@),
                keep == (|s: SeatView| is_planning_role(s.role)),
                texts(out@) == seat_tools(seats.take(i as int).filter(keep)),
            decreases self.seats@.len() - i,
        {
            let seat = &self.seats[i];
            let role = seat.role.as_str();
            let ghost kept = seats.take(i as int).filter(keep);
            proof {
                seats.take(i as int).lemma_filter_push(seats[i as int], keep);
                assert(seats.take(i + 1) =~= seats.take(i as int).push(seats[i as int]));
                assert(seats[i as int] == seat@);
            }
            if same(role, "drafter") || same(role, "critic") || same(role, "planner") || same(
                role,
                "inspector",
            ) {
                let next = seat.tool_key.clone();
                proof {
                    lemma_texts_push(out@, next);
                    assert(seat_tools(kept.push(seat@)) =~= seat_tools(kept).push(next@));
                }
                out.push(next);
            }
            i = i + 1;
        }
        proof {
            assert(seats.take(i as int) =~= seats);
        }
        out
    }
}

// ---- A transcript in short -----------------------------------------------------

/// What a role contributes to a plan.
#[derive(Debug)]
pub struct RoleArtifact {
    pub role: String,
    pub summary: String,
    pub risks: Vec<String>,
    pub files_or_areas: Vec<String>,
    pub recommended_next_action: String,
    pub confidence: Measure,
}

/// A transcript in short.
#[derive(Debug)]
pub struct TranscriptCompact {
    pub task: String,
    pub decisions: Vec<String>,
    pub risks: Vec<String>,
    pub open_questions: Vec<String>,
    pub proposed_executor: Option<String>,
}

/// The lines of a transcript without the space round them, blank ones left
/// out.
pub open spec fn spoken_lines(transcript: Seq<char>) -> Seq<Seq<char>> {
    lines_of(transcript).map_values(|l: Seq<char>| trim(l)).filter(|l: Seq<char>| l.len() > 0)
}

/// Whether a line tells of a decision.
pub open spec fn tells_decision(line: Seq<char>) -> bool {
    let l = lower_text(line);
    has(l, "decide"@) || has(l, "recommend"@) || has(l, "plan:"@) || has(l, "approved"@)
}

/// Whether a line tells of a risk.
pub open spec fn tells_risk(line: Seq<char>) -> bool {
    let l = lower_text(line);
    has(l, "risk"@) || has(l, "edge"@) || has(l, "fail"@) || has(l, "warning"@)
}

/// Whether a line asks something.
pub open spec fn asks(line: Seq<char>) -> bool {
    ends(line, "?"@)
}

/// Whether a line mentions a candidate, whatever the case.
pub open spec fn mentions(line: Seq<char>, candidate: Seq<char>) -> bool {
    has(lower_text(line), lower_text(candidate))
}

/// The first candidate that a line mentions.
pub open spec fn mentioned(line: Seq<char>, candidates: Seq<Seq<char>>) -> Option<Seq<char>>
    decreases candidates.len(),
{
    if candidates.len() == 0 {
        None
    } else {
        match mentioned(line, candidates.drop_last()) {
            Some(c) => Some(c),
            None => if mentions(line, candidates.last()) {
                Some(candidates.last())
            } else {
                None
            },
        }
    }
}

/// The candidate that the first line to mention one mentions first.
pub open spec fn proposed(lines: Seq<Seq<char>>, candidates: Seq<Seq<char>>) -> Option<Seq<char>>
    decreases lines.len(),
{
    if lines.len() == 0 {
        None
    } else {
        match proposed(lines.drop_last(), candidates) {
            Some(c) => Some(c),
            None => mentioned(lines.last(), candidates),
        }
    }
}

fn spoken(transcript: &str) -> (r: Vec<String>)
    ensures
        texts(r@) == spoken_lines(transcript@),
{
    let all = lines(transcript);
    let ghost cut = lines_of(transcript@).map_values(|l: Seq<char>| trim(l));
    let ghost keep = |l: Seq<char>| l.len() > 0;
    let mut out: Vec<String> = Vec::new();
    let mut i: usize = 0;
    proof {
        assert(cut.take(0).filter(keep) =~= Seq::empty());
        assert(texts(out@) =~= Seq::empty());
        assert(cut.len() == all@.len());
    }
    while i < all.len()
        invariant
            i <= all@.len(),
            texts(all@) == lines_of(transcript@),
            cut == lines_of(transcript@).map_values(|l: Seq<char>| trim(l)),
            cut.len() == all@.len(),
            keep == (|l: Seq<char>| l.len() > 0),
            texts(out@) == cut.take(i as int).filter(keep),
        decreases all@.len() - i,
    {
        let line = trimmed(all[i].as_str());
        proof {
            assert(texts(all@)[i as int] == all@[i as int]@);
            assert(cut[i as int] == line@);
            cut.take(i as int).lemma_filter_push(line@, keep);
            assert(cut.take(i + 1) =~= cut.take(i as int).push(line@));
            lemma_texts_push(out@, line);
        }
        if line.as_str().unicode_len() > 0 {
            out.push(line);
        }
        i = i + 1;
    }
    proof {
        assert(cut.take(i as int) =~= cut);
    }
    out
}

fn first_mentioned(lower: &str, line: Ghost<Seq<char>>, candidates: &Vec<String>) -> (r: Option<
    String,
>)
    requires
        lower@ == lower_text(line@),
    ensures
        opt_text(r) == mentioned(line@, texts(candidates@)),
{
    let ghost all = texts(candidates@);
    let mut found: Option<String> = None;
    let mut i: usize = 0;
    while i < candidates.len()
        invariant
            i <= candidates@.len(),
            all == texts(candidates@),
            lower@ == lower_text(line@),
            opt_text(found) == mentioned(line@, all.take(i as int)),
        decreases candidates@.len() - i,
    {
        let candidate = candidates[i].as_str();
        proof {
            assert(all.take(i + 1).drop_last() =~= all.take(i as int));
            assert(all.take(i + 1).last() == candidate@);
        }
        if found.is_none() && contains(lower, to_lower(candidate).as_str()) {
            found = Some(candidate.to_owned());
        }
        i = i + 1;
    }
    proof {
        assert(all.take(i as int) =~= all);
    }
    found
}

/// Adds a line to the first `limit` lines of a kind.
fn keep_line(
    out: &mut Vec<String>,
    line: &str,
    fits: bool,
    limit: usize,
    seen: Ghost<Seq<Seq<char>>>,
    keep: Ghost<spec_fn(Seq<char>) -> bool>,
)
    requires
        texts(old(out)@) == first_n(seen@.filter(keep@), limit as nat),
        fits == keep@(line@),
    ensures
        texts(final(out)@) == first_n(seen@.push(line@).filter(keep@), limit as nat),
{
    proof {
        seen@.lemma_filter_push(line@, keep@);
        assert(texts(out@).len() == out@.len());
    }
    let ghost kept = seen@.filter(keep@);
    if fits && out.len() < limit {
        let next = line.to_owned();
        proof {
            lemma_texts_push(out@, next);
        }
        out.push(next);
    } else if fits {
        proof {
            assert(kept.push(line@).take(limit as int) =~= kept.take(limit as int));
            if kept.len() == limit {
                assert(kept.take(limit as int) =~= kept);
            }
        }
    }
}

/// Whether a transcript is compacted as it should be.
pub open spec fn is_compact(
    r: TranscriptCompact,
    task: Seq<char>,
    transcript: Seq<char>,
    candidates: Seq<Seq<char>>,
) -> bool {
    let lines = spoken_lines(transcript);
    &&& r.task@ == trim(task)
    &&& texts(r.decisions@) == first_n(lines.filter(|l: Seq<char>| tells_decision(l)), 6)
    &&& texts(r.risks@) == first_n(lines.filter(|l: Seq<char>| tells_risk(l)), 6)
    &&& texts(r.open_questions@) == first_n(lines.filter(|l: Seq<char>| asks(l)), 4)
    &&& opt_text(r.proposed_executor) == proposed(lines, candidates)
}

/// Picks the decisions, the risks, the open questions and the proposed executor
/// out of a transcript.
pub fn compact_transcript(task: &str, transcript: &str, candidates: &Vec<String>) -> (r:
    TranscriptCompact)
    ensures
        is_compact(r, task@, transcript@, texts(candidates@)),
        r.task@ == trim(task@),
        texts(r.decisions@) == first_n(
            spoken_lines(transcript@).filter(|l: Seq<char>| tells_decision(l)),
            6,
        ),
        texts(r.risks@) == first_n(
            spoken_lines(transcript@).filter(|l: Seq<char>| tells_risk(l)),
            6,
        ),
        texts(r.open_questions@) == first_n(
            spoken_lines(transcript@).filter(|l: Seq<char>| asks(l)),
            4,
        ),
        opt_text(r.proposed_executor) == proposed(
            spoken_lines(transcript@),
            texts(candidates@),
        ),
{
    let said = spoken(transcript);
    let ghost all = spoken_lines(transcript@);
    let ghost p1 = |l: Seq<char>| tells_decision(l);
    let ghost p2 = |l: Seq<char>| tells_risk(l);
    let ghost p3 = |l: Seq<char>| asks(l);
    let mut decisions: Vec<String> = Vec::new();
    let mut risks: Vec<String> = Vec::new();
    let mut questions: Vec<String> = Vec::new();
    let mut executor: Option<String> = None;
    let mut i: usize = 0;
    proof {
        assert(all.take(0).filter(p1) =~= Seq::empty());
        assert(all.take(0).filter(p2) =~= Seq::empty());
        assert(all.take(0).filter(p3) =~= Seq::empty());
        assert(texts(decisions@) =~= Seq::empty());
        assert(texts(risks@) =~= Seq::empty());
        assert(texts(questions@) =~= Seq::empty());
    }
    while i < said.len()
        invariant
            i <= said@.len(),
            all == texts(said@),
            p1 == (|l: Seq<char>| tells_decision(l)),
            p2 == (|l: Seq<char>| tells_risk(l)),
            p3 == (|l: Seq<char>| asks(l)),
            texts(decisions@) == first_n(all.take(i as int).filter(p1), 6),
            texts(risks@) == first_n(all.take(i as int).filter(p2), 6),
            texts(questions@) == first_n(all.take(i as int).filter(p3), 4),
            opt_text(executor) == proposed(all.take(i as int), texts(candidates@)),
        decreases said@.len() - i,
    {
        let line = said[i].as_str();
        let lower_string = to_lower(line);
        let lower = lower_string.as_str();
        let ghost seen = all.take(i as int);
        proof {
            assert(all.take(i + 1) =~= seen.push(line@));
            assert(all.take(i + 1).drop_last() =~= seen);
        }
        let decides = contains(lower, "decide") || contains(lower, "recommend") || contains(
            lower,
            "plan:",
        ) || contains(lower, "approved");
        let risky = contains(lower, "risk") || contains(lower, "edge") || contains(lower, "fail")
            || contains(lower, "warning");
        let asking = ends_with(line, "?");
        keep_line(&mut decisions, line, decides, 6, Ghost(seen), Ghost(p1));
        keep_line(&mut risks, line, risky, 6, Ghost(seen), Ghost(p2));
        keep_line(&mut questions, line, asking, 4, Ghost(seen), Ghost(p3));
        if executor.is_none() {
            executor = first_mentioned(lower, Ghost(line@), candidates);
        }
        i = i + 1;
    }
    proof {
        assert(all.take(i as int) =~= all);
    }
    TranscriptCompact {
        task: trimmed(task),
        decisions,
        risks,
        open_questions: questions,
        proposed_executor: executor,
    }
}

} // verus!
