//! The engine as a machine: its state, and what each input makes of it.
//!
//! [`State`] is the state of an [`Orchestrator`](crate::orchestrator::Orchestrator)
//! as a value. The functions here say how a run goes on from a state; what the
//! outside world is told and asked to do is at the end of the state, in order.
use vstd::prelude::*;
use crate::agent::{agent_of, paths, shown_name, AgentEvent, Attachment};
use crate::arith::capped_size;
use crate::build_info::BuildRecord;
use crate::blackboard::{transcript_after, Utterance};
use crate::changes::LocalChangeSummary;
use crate::conductor::{entry_at, has_turn, plans, role_name, AgentId, Role, RosterEntry};
use crate::context::{output_or_placeholder, DEFAULT_CONTEXT_BUDGET_CHARS};
use crate::event::{Notice, UserCommand};
use crate::handoff::{execution_packet, vote_context};
use crate::json::Number;
use crate::numeral::dec;
use crate::prompt_forecast::rounds_of;
use crate::prompts::{
    execution_prompt, round_one_prompt, round_prompt, turn_prompt, vote_prompt, vote_repair_prompt,
};
use crate::recommend::{
    named_candidates, recommended_by, ExecutionVote, RawVote, Recommendation, Tally,
    VoteParseSource, HALF_BITS,
};
use crate::report::{ProjectContextReport, RunOutcome};
use crate::scan::{is_blank, trim};
use crate::session_report::session_report;
use crate::summary::session_summary;
use crate::telemetry::{after_prompt, phase_label, CostReport, PromptPhase, PromptStats};
use crate::text::{first_n, join, opt_text, same_ci, texts};
use crate::usage::{add_usage, no_usage, TokenUsage};

verus! {

/// The phase of a run.
#[derive(Clone, Copy, Debug, PartialEq, Eq, Structural)]
pub enum Phase {
    Idle,
    Planning,
    Recommending,
    AwaitingConfirmation,
    Executing,
    Done,
}

/// What a turn is for.
#[derive(Clone, Copy, Debug, PartialEq, Eq, Structural)]
pub enum Purpose {
    Planning,
    Vote,
    VoteRepair,
    Execution,
}

/// What the engine was asked to run.
#[derive(Clone, Copy, Debug, PartialEq, Eq, Structural)]
pub enum Job {
    /// The discussion alone.
    Discuss,
    /// The recommendation alone.
    Recommend,
    /// All of it, with the user's decision in between.
    Interactive,
}

/// The prompts that were sent, by phase.
#[derive(Clone, Copy, Debug, PartialEq, Eq, Structural)]
pub struct PhaseStats {
    pub planning: Option<PromptStats>,
    pub synthesis: Option<PromptStats>,
    pub recommendation: Option<PromptStats>,
    pub repair: Option<PromptStats>,
    pub execution: Option<PromptStats>,
}

/// What the outside world is told and asked to do.
pub enum Effect {
    /// Tell everyone.
    Emit(Notice),
    /// Start a turn of an agent. Where that fails, `failure` stands before the
    /// reason.
    Start {
        agent: AgentId,
        prompt: Seq<char>,
        attachments: Seq<Seq<char>>,
        failure: Seq<char>,
    },
    /// Shut an agent down.
    Stop { agent: AgentId },
}

/// Where a run stands.
pub enum StageView {
    /// Nothing is under way.
    Rest,
    /// The user's pending commands are taken in.
    Notes,
    /// An agent's turn is under way; `said` is its last whole reply.
    Turn { entry: RosterEntry, purpose: Purpose, said: Option<String> },
    /// A round is under way: `pending` are the agents that are not done, and
    /// `finals` holds the last whole replies.
    Round { members: Seq<RosterEntry>, pending: Seq<AgentId>, finals: Map<AgentId, String> },
    /// An agent's vote is to be read.
    Ballot { entry: RosterEntry, repair: bool, said: Option<String> },
    /// The votes are to be counted.
    Tally,
    /// The user's decision is awaited.
    Gate,
    /// The run is over and to be reported on.
    Report { outcome: RunOutcome },
    /// The run is over.
    Finished { outcome: RunOutcome },
    /// The recommendation is made.
    Recommended,
    /// The run failed.
    Failed { reason: Seq<char> },
}

/// The state of the engine.
pub struct State {
    /// The agents, in the order in which they were enrolled.
    pub roster: Seq<RosterEntry>,
    /// Whether an agent keeps its session from turn to turn.
    pub resumable: Map<AgentId, bool>,
    pub task: Seq<char>,
    pub transcript: Seq<Utterance>,
    pub phase: Phase,
    /// A decision that the user made before it was asked for.
    pub decision: Option<UserCommand>,
    /// The files that the user shared.
    pub media: Seq<Attachment>,
    /// How many of the files an agent got.
    pub delivered: Map<AgentId, usize>,
    pub skills: Map<AgentId, Vec<String>>,
    /// The agents that were shut down because a turn took too long.
    pub terminated: Set<AgentId>,
    /// How much of the transcript an agent was shown.
    pub last_seen: Map<AgentId, usize>,
    /// Whether the planners speak at the same time.
    pub parallel: bool,
    pub budget: Option<usize>,
    pub recommendation: Option<Recommendation>,
    pub costs: Map<AgentId, Number>,
    pub usage: Map<AgentId, TokenUsage>,
    pub prompts: Map<AgentId, PromptStats>,
    pub phases: PhaseStats,
    pub project: Option<String>,
    pub report: Option<ProjectContextReport>,
    pub changes: Option<LocalChangeSummary>,
    pub salvaged: usize,
    /// How long a turn may take, in words.
    pub timeout: Seq<char>,
    /// What the build recorded.
    pub build: BuildRecord<'static>,
    pub job: Job,
    /// Who takes turns, how many turns there are and how many were given out.
    pub speakers: Seq<RosterEntry>,
    pub max_turns: nat,
    pub taken: nat,
    /// Whether the run under way goes in rounds, how many rounds are left, and
    /// whether none is over.
    pub in_rounds: bool,
    pub rounds_left: nat,
    pub first_round: bool,
    /// What the planners said in the round before.
    pub drafts: Map<AgentId, String>,
    /// How far in the roster votes were asked for.
    pub voter: nat,
    pub votes: Seq<ExecutionVote>,
    pub stage: StageView,
    /// What was told and asked for so far.
    pub out: Seq<Effect>,
}

// ---- Small steps ---------------------------------------------------------------

/// The state with nothing under way.
pub open spec fn at_rest(s: State) -> State {
    State { stage: StageView::Rest, ..s }
}

pub open spec fn told(s: State, n: Notice) -> State {
    State { out: s.out.push(Effect::Emit(n)), ..s }
}

pub open spec fn logged(s: State, level: Seq<char>, msg: Seq<char>) -> State {
    told(s, Notice::Log { level, msg })
}

/// The name under which a phase is announced.
pub open spec fn phase_name(p: Phase) -> Seq<char> {
    match p {
        Phase::Idle => "idle"@,
        Phase::Planning => "discussion"@,
        Phase::Recommending => "recommending"@,
        Phase::AwaitingConfirmation => "awaitingconfirmation"@,
        Phase::Executing => "executing"@,
        Phase::Done => "done"@,
    }
}

/// The name of a phase in messages.
pub open spec fn phase_word(p: Phase) -> Seq<char> {
    match p {
        Phase::Idle => "Idle"@,
        Phase::Planning => "Planning"@,
        Phase::Recommending => "Recommending"@,
        Phase::AwaitingConfirmation => "AwaitingConfirmation"@,
        Phase::Executing => "Executing"@,
        Phase::Done => "Done"@,
    }
}

pub open spec fn in_phase(s: State, p: Phase) -> State {
    told(State { phase: p, ..s }, Notice::PhaseChanged { phase: phase_name(p) })
}

/// An agent's turn is over.
pub open spec fn turn_over(
    s: State,
    agent: AgentId,
    cost: Option<Number>,
    used: Option<TokenUsage>,
) -> State {
    let before = if s.usage.dom().contains(agent) {
        s.usage[agent]
    } else {
        no_usage()
    };
    told(
        State {
            costs: (match cost {
                Some(c) => s.costs.insert(agent, c),
                None => s.costs,
            }),
            usage: (match used {
                Some(u) => s.usage.insert(agent, add_usage(before, u)),
                None => s.usage,
            }),
            ..s
        },
        Notice::TurnComplete { agent, cost_usd: cost, token_usage: used },
    )
}

/// The label of an agent, or nothing.
pub open spec fn label_of(roster: Seq<RosterEntry>, agent: AgentId) -> Seq<char>
    decreases roster.len(),
{
    if roster.len() == 0 {
        Seq::empty()
    } else if roster[0].agent == agent {
        roster[0].label@
    } else {
        label_of(roster.skip(1), agent)
    }
}

/// How an agent's skills are announced: their number and the first of them.
pub open spec fn skills_line(label: Seq<char>, skills: Seq<Seq<char>>) -> Seq<char> {
    label + " has "@ + dec(skills.len()) + " skills: "@ + join(first_n(skills, 14), ", "@) + (
    if skills.len() > 14 {
        " +"@ + dec((skills.len() - 14) as nat) + " more"@
    } else {
        Seq::empty()
    })
}

pub open spec fn with_skills(s: State, agent: AgentId, skills: Vec<String>) -> State {
    let s1 = logged(s, "skills"@, skills_line(label_of(s.roster, agent), texts(skills@)));
    State { skills: s1.skills.insert(agent, skills), ..s1 }
}

/// The prompts of a phase, where there were any.
pub open spec fn phase_stats(p: PhaseStats, phase: PromptPhase) -> Option<PromptStats> {
    match phase {
        PromptPhase::Planning => p.planning,
        PromptPhase::PlanningSynthesis => p.synthesis,
        PromptPhase::Recommendation => p.recommendation,
        PromptPhase::VoteRepair => p.repair,
        PromptPhase::Execution => p.execution,
    }
}

pub open spec fn with_phase_stats(
    p: PhaseStats,
    phase: PromptPhase,
    stats: PromptStats,
) -> PhaseStats {
    match phase {
        PromptPhase::Planning => PhaseStats { planning: Some(stats), ..p },
        PromptPhase::PlanningSynthesis => PhaseStats { synthesis: Some(stats), ..p },
        PromptPhase::Recommendation => PhaseStats { recommendation: Some(stats), ..p },
        PromptPhase::VoteRepair => PhaseStats { repair: Some(stats), ..p },
        PromptPhase::Execution => PhaseStats { execution: Some(stats), ..p },
    }
}

/// No prompts.
pub open spec fn nothing_sent() -> PromptStats {
    PromptStats { prompts: 0, chars_sent: 0, max_chars: 0 }
}

/// A prompt of so many characters is counted for its agent and its phase.
pub open spec fn prompt_counted(
    s: State,
    agent: AgentId,
    phase: PromptPhase,
    chars: nat,
) -> State {
    let mine = if s.prompts.dom().contains(agent) {
        s.prompts[agent]
    } else {
        nothing_sent()
    };
    let all = match phase_stats(s.phases, phase) {
        Some(p) => p,
        None => nothing_sent(),
    };
    State {
        prompts: s.prompts.insert(agent, after_prompt(mine, chars)),
        phases: with_phase_stats(s.phases, phase, after_prompt(all, chars)),
        ..s
    }
}

/// How many of the shared files an agent got.
pub open spec fn got(s: State, agent: AgentId) -> usize {
    if s.delivered.dom().contains(agent) {
        s.delivered[agent]
    } else {
        0
    }
}

/// The shared files that an agent did not get yet.
pub open spec fn due(s: State, agent: AgentId) -> Seq<Attachment> {
    if got(s, agent) >= s.media.len() {
        Seq::empty()
    } else {
        s.media.skip(got(s, agent) as int)
    }
}

/// An agent got the shared files that were due.
pub open spec fn media_given(s: State, agent: AgentId) -> State {
    State {
        delivered: s.delivered.insert(
            agent,
            if got(s, agent) >= s.media.len() {
                got(s, agent)
            } else {
                s.media.len() as usize
            },
        ),
        ..s
    }
}

pub open spec fn is_resumable(s: State, agent: AgentId) -> bool {
    s.resumable.dom().contains(agent) && s.resumable[agent]
}

/// A turn is started with a prompt, which is counted.
pub open spec fn started(
    s: State,
    agent: AgentId,
    phase: PromptPhase,
    prompt: Seq<char>,
    attachments: Seq<Seq<char>>,
    failure: Seq<char>,
) -> State {
    let s1 = prompt_counted(s, agent, phase, prompt.len());
    State { out: s1.out.push(Effect::Start { agent, prompt, attachments, failure }), ..s1 }
}

pub open spec fn waiting_for(s: State, entry: RosterEntry, purpose: Purpose) -> State {
    State { stage: StageView::Turn { entry, purpose, said: None }, ..s }
}

/// The run is over.
pub open spec fn to_report(s: State, outcome: RunOutcome) -> State {
    State { stage: StageView::Report { outcome }, ..s }
}

/// The text of a reply; nothing where there was none.
pub open spec fn said_text(said: Option<String>) -> Seq<char> {
    match said {
        Some(t) => t@,
        None => Seq::empty(),
    }
}

// ---- What the user says --------------------------------------------------------

/// The names of shared files.
pub open spec fn shared_names(attachments: Seq<String>) -> Seq<Seq<char>> {
    Seq::new(attachments.len(), |i: int| shown_name(attachments[i]@))
}

/// What is recorded of a note: its text, and the names of the files with it.
pub open spec fn note_text(text: Seq<char>, attachments: Seq<String>) -> Seq<char> {
    if attachments.len() == 0 {
        text
    } else {
        text + (if text.len() == 0 {
            Seq::empty()
        } else {
            "\n"@
        }) + ("[attached: "@ + join(shared_names(attachments), ", "@) + "]"@)
    }
}

/// Files as attachments.
pub open spec fn as_media(attachments: Seq<String>) -> Seq<Attachment> {
    Seq::new(attachments.len(), |i: int| Attachment { path: attachments[i] })
}

/// Whether an utterance is what a human noted.
pub open spec fn is_note(u: Utterance, text: Seq<char>, attachments: Seq<String>) -> bool {
    &&& u.label@ == "you"@
    &&& u.role == Role::Human
    &&& u.text@ == note_text(text, attachments)
}

/// A note is recorded as `u`, and its files are to be shared.
pub open spec fn noted(s: State, attachments: Seq<String>, u: Utterance) -> State {
    let s1 = told(s, Notice::UserMessage { text: u.text@ });
    State { media: s1.media + as_media(attachments), transcript: s1.transcript.push(u), ..s1 }
}

// ---- The discussion ------------------------------------------------------------

/// Whether an utterance is what an agent contributed.
pub open spec fn is_contribution(u: Utterance, e: RosterEntry, text: Seq<char>) -> bool {
    &&& u.label == e.label
    &&& u.role == e.role
    &&& u.text@ == output_or_placeholder(text)
}

/// A contribution is recorded. Its speaker has seen all up to it.
pub open spec fn contributed(s: State, e: RosterEntry, u: Utterance) -> State {
    let t = s.transcript.push(u);
    State { transcript: t, last_seen: s.last_seen.insert(e.agent, t.len() as usize), ..s }
}

/// The prompt of a planner whose turn it is.
pub open spec fn planning_prompt(s: State, e: RosterEntry) -> Seq<char> {
    let known = s.last_seen.dom().contains(e.agent);
    let seen = if known {
        s.last_seen[e.agent]
    } else {
        0
    };
    turn_prompt(
        e.role,
        s.task,
        s.transcript,
        is_resumable(s, e.agent),
        transcript_after(s.transcript, seen),
        !known,
        s.budget,
        opt_text(s.project),
    )
}

/// A turn of the discussion alone begins.
pub open spec fn discuss_turn(s: State, e: RosterEntry) -> State {
    let s1 = logged(s, "info"@, "→ "@ + e.label@ + " speaking as "@ + role_name(e.role));
    let s2 = started(
        s1,
        e.agent,
        PromptPhase::Planning,
        planning_prompt(s, e),
        Seq::empty(),
        "send to agent failed: "@,
    );
    waiting_for(s2, e, Purpose::Planning)
}

/// A turn of an interactive discussion begins.
pub open spec fn interactive_turn(s: State, e: RosterEntry) -> State {
    let s1 = told(s, Notice::TurnStarted { agent: e.agent, role: role_name(e.role) });
    let s2 = logged(s1, "info"@, e.label@ + " speaking as "@ + role_name(e.role));
    let s3 = started(
        media_given(s2, e.agent),
        e.agent,
        PromptPhase::Planning,
        planning_prompt(s, e),
        paths(due(s, e.agent)),
        "send failed: "@,
    );
    waiting_for(s3, e, Purpose::Planning)
}

/// A turn is given out.
pub open spec fn turn_taken(s: State) -> State {
    State { taken: s.taken + 1, ..s }
}

/// The discussion alone goes on with the next agent that is not shut down, and
/// ends where no turns are left.
pub open spec fn discuss_on(s: State) -> State
    decreases s.max_turns - s.taken,
{
    if !has_turn(s.speakers, s.max_turns, s.taken) {
        to_report(s, RunOutcome::Discussed)
    } else {
        let e = entry_at(s.speakers, s.taken);
        if s.terminated.contains(e.agent) {
            discuss_on(turn_taken(s))
        } else {
            discuss_turn(turn_taken(s), e)
        }
    }
}

/// The user's commands are taken in before each turn of an interactive
/// discussion; where no turns are left the recommendation follows.
pub open spec fn interact_on(s: State) -> State {
    if has_turn(s.speakers, s.max_turns, s.taken) {
        State { stage: StageView::Notes, ..s }
    } else {
        recommend(s)
    }
}

/// The planners that are not shut down.
pub open spec fn active(s: State) -> Seq<RosterEntry> {
    s.roster.filter(|e: RosterEntry| plans(e.role) && !s.terminated.contains(e.agent))
}

/// The identifiers of agents, each once.
pub open spec fn distinct_ids(members: Seq<RosterEntry>) -> Seq<AgentId>
    decreases members.len(),
{
    if members.len() == 0 {
        Seq::empty()
    } else {
        let before = distinct_ids(members.drop_last());
        if before.contains(members.last().agent) {
            before
        } else {
            before.push(members.last().agent)
        }
    }
}

/// What the others said in the round before, those of them that said anything.
pub open spec fn others_drafts(
    drafts: Map<AgentId, String>,
    members: Seq<RosterEntry>,
    agent: AgentId,
) -> Seq<Seq<char>>
    decreases members.len(),
{
    if members.len() == 0 {
        Seq::empty()
    } else {
        let before = others_drafts(drafts, members.drop_last(), agent);
        let o = members.last().agent;
        if o != agent && drafts.dom().contains(o) {
            before.push(drafts[o]@)
        } else {
            before
        }
    }
}

/// What an agent said in the round before.
pub open spec fn own_draft(drafts: Map<AgentId, String>, agent: AgentId) -> Seq<char> {
    if drafts.dom().contains(agent) {
        drafts[agent]@
    } else {
        Seq::empty()
    }
}

/// The prompt of a planner in a round. In the first round each drafts alone;
/// later the first planner merges while the others review.
pub open spec fn member_prompt(s: State, members: Seq<RosterEntry>, e: RosterEntry) -> Seq<char> {
    if s.first_round {
        round_one_prompt(s.task, opt_text(s.project), s.budget)
    } else {
        round_prompt(
            s.task,
            join(others_drafts(s.drafts, members, e.agent), "\n\n---\n\n"@),
            e.agent == members[0].agent,
            is_resumable(s, e.agent),
            own_draft(s.drafts, e.agent),
            s.budget,
        )
    }
}

/// A planner is asked in a round.
pub open spec fn asked(s: State, members: Seq<RosterEntry>, e: RosterEntry) -> State {
    let s1 = told(s, Notice::TurnStarted { agent: e.agent, role: role_name(e.role) });
    started(
        media_given(s1, e.agent),
        e.agent,
        if s.first_round {
            PromptPhase::Planning
        } else {
            PromptPhase::PlanningSynthesis
        },
        member_prompt(s, members, e),
        paths(due(s, e.agent)),
        "send to agent failed: "@,
    )
}

/// The first `n` planners are asked.
pub open spec fn all_asked(s: State, members: Seq<RosterEntry>, n: nat) -> State
    decreases n,
{
    if n == 0 {
        s
    } else {
        asked(all_asked(s, members, (n - 1) as nat), members, members[n - 1])
    }
}

/// A round begins: every planner that is not shut down is asked, in the order
/// of the roster.
pub open spec fn round_begun(s: State) -> State {
    let members = active(s);
    State {
        stage: StageView::Round {
            members,
            pending: distinct_ids(members),
            finals: Map::empty(),
        },
        ..all_asked(s, members, members.len())
    }
}

/// The discussion alone goes on with the next round, and ends where no rounds
/// or no planners are left.
pub open spec fn discuss_rounds_on(s: State) -> State {
    if s.rounds_left > 0 && active(s).len() > 0 {
        round_begun(s)
    } else {
        to_report(s, RunOutcome::Discussed)
    }
}

/// The user's commands are taken in before each round of an interactive
/// discussion; where no rounds are left the recommendation follows.
pub open spec fn interact_rounds_on(s: State) -> State {
    if s.rounds_left > 0 {
        State { stage: StageView::Notes, ..s }
    } else {
        recommend(s)
    }
}

/// The reply of an agent in a round; nothing where there was none.
pub open spec fn final_of(finals: Map<AgentId, String>, agent: AgentId) -> Seq<char> {
    if finals.dom().contains(agent) {
        finals[agent]@
    } else {
        Seq::empty()
    }
}

/// Whether utterances are what the planners of a round contributed, in the
/// order of the roster.
pub open spec fn are_contributions(
    added: Seq<Utterance>,
    members: Seq<RosterEntry>,
    finals: Map<AgentId, String>,
) -> bool {
    &&& added.len() == members.len()
    &&& forall|i: int|
        0 <= i < added.len() ==> is_contribution(
            #[trigger] added[i],
            members[i],
            final_of(finals, members[i].agent),
        )
}

/// The first `n` contributions of a round are recorded.
pub open spec fn round_recorded(
    s: State,
    members: Seq<RosterEntry>,
    added: Seq<Utterance>,
    n: nat,
) -> State
    decreases n,
{
    if n == 0 {
        State { drafts: Map::empty(), ..s }
    } else {
        let s1 = round_recorded(s, members, added, (n - 1) as nat);
        let e = members[n - 1];
        let s2 = contributed(s1, e, added[n - 1]);
        State { drafts: s2.drafts.insert(e.agent, added[n - 1].text), ..s2 }
    }
}

/// A round is over: the contributions are recorded in the order of the roster,
/// whoever was done first, and the discussion goes on.
pub open spec fn round_over(s: State, members: Seq<RosterEntry>, added: Seq<Utterance>) -> State {
    let s1 = round_recorded(s, members, added, members.len());
    let s2 = State {
        rounds_left: if s1.rounds_left > 0 {
            (s1.rounds_left - 1) as nat
        } else {
            0
        },
        first_round: false,
        ..s1
    };
    match s2.job {
        Job::Discuss => discuss_rounds_on(s2),
        _ => interact_rounds_on(s2),
    }
}

/// The user's pending commands are taken in: the next turn or round begins.
pub open spec fn notes_taken(s: State) -> State {
    if s.in_rounds {
        if active(s).len() == 0 {
            recommend(s)
        } else {
            round_begun(s)
        }
    } else if !has_turn(s.speakers, s.max_turns, s.taken) {
        recommend(s)
    } else {
        let e = entry_at(s.speakers, s.taken);
        if s.terminated.contains(e.agent) {
            interact_on(turn_taken(s))
        } else {
            interactive_turn(turn_taken(s), e)
        }
    }
}

// ---- Turns and rounds under way ------------------------------------------------

/// How the log is told of an agent's error.
pub open spec fn error_level(fatal: bool) -> Seq<char> {
    if fatal {
        "error"@
    } else {
        "warn"@
    }
}

/// What an agent whose turn it is reports, passed on.
pub open spec fn passed_on(s: State, event: AgentEvent) -> State {
    match event {
        AgentEvent::TokenDelta { agent, text, .. } => told(s, Notice::Token { agent, text: text@ }),
        AgentEvent::MessageFinal { agent, text, .. } => told(
            s,
            Notice::Message { agent, text: text@ },
        ),
        AgentEvent::ToolCall { agent, name, .. } => told(
            s,
            Notice::ToolActivity { agent, summary: name@ },
        ),
        AgentEvent::TurnComplete { agent, cost_usd, token_usage, .. } => turn_over(
            s,
            agent,
            cost_usd,
            token_usage,
        ),
        AgentEvent::Error { agent, message, fatal } => {
            let s1 = logged(s, error_level(fatal), message@);
            if fatal {
                turn_over(s1, agent, None, None)
            } else {
                s1
            }
        },
        AgentEvent::Exited { agent, code } => turn_over(
            told(s, Notice::AgentExited { agent, code }),
            agent,
            None,
            None,
        ),
        _ => s,
    }
}

/// Whether a report ends its agent's turn.
pub open spec fn ends_turn(event: AgentEvent) -> bool {
    match event {
        AgentEvent::TurnComplete { .. } => true,
        AgentEvent::Error { fatal, .. } => fatal,
        AgentEvent::Exited { .. } => true,
        _ => false,
    }
}

/// An agent that took too long is shut down.
pub open spec fn timed_out(s: State, agent: AgentId) -> State {
    let s1 = logged(
        s,
        "error"@,
        "turn timed out after "@ + s.timeout + "; terminating this agent"@,
    );
    turn_over(
        State {
            out: s1.out.push(Effect::Stop { agent }),
            terminated: s1.terminated.insert(agent),
            ..s1
        },
        agent,
        None,
        None,
    )
}

/// The agents that took too long are shut down, one after the other.
pub open spec fn all_timed_out(s: State, agents: Seq<AgentId>) -> State
    decreases agents.len(),
{
    if agents.len() == 0 {
        s
    } else {
        timed_out(all_timed_out(s, agents.drop_last()), agents.last())
    }
}

/// A turn is over with a reply. `u` is what is recorded of it, where it was a
/// turn of the discussion, and `outcome` the outcome, where it was the
/// execution.
pub open spec fn turn_done(
    s: State,
    entry: RosterEntry,
    purpose: Purpose,
    said: Option<String>,
    u: Utterance,
    outcome: RunOutcome,
) -> State {
    match purpose {
        Purpose::Planning => {
            let s1 = contributed(s, entry, u);
            match s.job {
                Job::Discuss => discuss_on(s1),
                _ => interact_on(s1),
            }
        },
        Purpose::Vote => State { stage: StageView::Ballot { entry, repair: false, said }, ..s },
        Purpose::VoteRepair => State {
            stage: StageView::Ballot { entry, repair: true, said },
            ..s
        },
        Purpose::Execution => to_report(in_phase(s, Phase::Done), outcome),
    }
}

/// Whether `u` and `outcome` are what a turn's reply makes of it.
pub open spec fn reply_is(
    entry: RosterEntry,
    purpose: Purpose,
    said: Option<String>,
    u: Utterance,
    outcome: RunOutcome,
) -> bool {
    match purpose {
        Purpose::Planning => is_contribution(u, entry, said_text(said)),
        Purpose::Execution => outcome matches RunOutcome::Executed { executor, output }
            && executor == entry.label && output@ == said_text(said),
        _ => true,
    }
}

/// The last whole reply after a report.
pub open spec fn said_after(said: Option<String>, event: AgentEvent) -> Option<String> {
    match event {
        AgentEvent::MessageFinal { text, .. } => Some(text),
        _ => said,
    }
}

/// The last whole replies after a report.
pub open spec fn finals_after(finals: Map<AgentId, String>, event: AgentEvent) -> Map<
    AgentId,
    String,
> {
    match event {
        AgentEvent::MessageFinal { agent, text, .. } => finals.insert(agent, text),
        _ => finals,
    }
}

/// The agents that are not done after a report.
pub open spec fn pending_after(pending: Seq<AgentId>, event: AgentEvent) -> Seq<AgentId> {
    if ends_turn(event) {
        pending.filter(|a: AgentId| a != agent_of(event@))
    } else {
        pending
    }
}

/// Whether a report is one of skills, which are taken note of at any time.
pub open spec fn tells_skills(event: AgentEvent) -> bool {
    event is Skills
}

// ---- The recommendation --------------------------------------------------------

/// The labels of the roster.
pub open spec fn labels(roster: Seq<RosterEntry>) -> Seq<Seq<char>> {
    Seq::new(roster.len(), |i: int| roster[i].label@)
}

/// Votes are asked for.
pub open spec fn recommend(s: State) -> State {
    next_vote(State { voter: 0, votes: Seq::empty(), ..in_phase(s, Phase::Recommending) })
}

/// A vote is asked for.
pub open spec fn vote_asked(s: State, e: RosterEntry) -> State {
    let s1 = started(
        s,
        e.agent,
        PromptPhase::Recommendation,
        vote_prompt(
            s.task,
            labels(s.roster),
            is_resumable(s, e.agent),
            vote_context(s.transcript, s.budget),
        ),
        Seq::empty(),
        "send to agent failed: "@,
    );
    waiting_for(s1, e, Purpose::Vote)
}

/// The next planner that is not shut down is asked for its vote; where none is
/// left the votes are counted.
pub open spec fn next_vote(s: State) -> State
    decreases s.roster.len() - s.voter,
{
    if s.voter >= s.roster.len() {
        State { stage: StageView::Tally, ..s }
    } else {
        let e = s.roster[s.voter as int];
        let s1 = State { voter: s.voter + 1, ..s };
        if !plans(e.role) || s.terminated.contains(e.agent) {
            next_vote(s1)
        } else {
            vote_asked(s1, e)
        }
    }
}

/// How a reply is understood as a vote, if it is.
pub open spec fn vote_source(
    text: Seq<char>,
    raw: Option<RawVote>,
    candidates: Seq<Seq<char>>,
) -> Option<VoteParseSource> {
    match raw {
        Some(_) => Some(VoteParseSource::Json),
        None => if named_candidates(text, candidates).len() == 1 {
            Some(VoteParseSource::CandidateMention)
        } else {
            None
        },
    }
}

/// Whether a vote is what an agent's reply says.
pub open spec fn is_vote(
    v: ExecutionVote,
    entry: RosterEntry,
    text: Seq<char>,
    raw: Option<RawVote>,
    candidates: Seq<Seq<char>>,
) -> bool {
    &&& v.voter == entry.agent
    &&& v.voter_label == entry.label
    &&& match raw {
        Some(raw) => {
            &&& v.recommended_executor@ == trim(raw.recommended_executor@)
            &&& v.confidence == raw.confidence
            &&& v.needs_plan == raw.needs_plan
            &&& v.rationale == raw.rationale
            &&& v.parse_source == VoteParseSource::Json
        },
        None => {
            &&& v.recommended_executor@ == named_candidates(text, candidates)[0]
            &&& v.confidence.bits == HALF_BITS
            &&& v.confidence.shown@ == "0.50"@
            &&& !v.needs_plan
            &&& v.rationale@ == "salvaged from prose vote: "@ + crate::recommend::on_one_line(
                text,
                180,
            )
            &&& v.parse_source == VoteParseSource::CandidateMention
        },
    }
}

/// A vote that was read out of prose is counted as such.
pub open spec fn salvage_noted(
    s: State,
    label: Seq<char>,
    repair: bool,
    source: Option<VoteParseSource>,
) -> State {
    if source == Some(VoteParseSource::CandidateMention) {
        logged(
            State { salvaged: capped_size(s.salvaged + 1), ..s },
            "info"@,
            label + (if repair {
                " repair returned prose vote; salvaged unambiguous candidate"@
            } else {
                " returned prose vote; salvaged unambiguous candidate without repair"@
            }),
        )
    } else {
        s
    }
}

/// An agent whose reply was no vote is asked once more.
pub open spec fn repair_asked(s: State, e: RosterEntry, text: Seq<char>) -> State {
    let s1 = logged(
        s,
        "warn"@,
        e.label@ + " returned no parseable vote; asking once for JSON"@,
    );
    let s2 = started(
        s1,
        e.agent,
        PromptPhase::VoteRepair,
        vote_repair_prompt(
            s.task,
            labels(s.roster),
            is_resumable(s, e.agent),
            vote_context(s.transcript, s.budget),
            text,
        ),
        Seq::empty(),
        "send vote repair failed: "@,
    );
    waiting_for(s2, e, Purpose::VoteRepair)
}

/// A ballot is read; `v` is the vote, where there is one.
pub open spec fn ballot_read(
    s: State,
    entry: RosterEntry,
    repair: bool,
    text: Seq<char>,
    source: Option<VoteParseSource>,
    v: ExecutionVote,
) -> State {
    let s1 = salvage_noted(s, entry.label@, repair, source);
    match source {
        Some(_) => next_vote(State { votes: s1.votes.push(v), ..s1 }),
        None => if repair {
            next_vote(logged(s1, "warn"@, entry.label@ + " returned no parseable vote"@))
        } else {
            repair_asked(s1, entry, text)
        },
    }
}

/// How the user is asked for a decision.
pub open spec fn gate_prompt(rec: Recommendation) -> Seq<char> {
    (if rec.confident {
        if rec.needs_plan {
            "Both agents recommend a formal plan first. Preselected executor: "@
        } else {
            "Recommended executor: "@
        }
    } else {
        "No clear executor consensus. Preselected executor: "@
    }) + rec.executor@ + ". Confirm, override, or reject."@
}

/// The recommendation is made, and the user is asked for a decision.
pub open spec fn recommended(s: State, rec: Recommendation) -> State {
    let s1 = told(
        State { recommendation: Some(rec), votes: Seq::empty(), ..s },
        Notice::RecommendationReady {
            executor: rec.executor@,
            rationale: rec.rationale@,
            confident: rec.confident,
            scores: rec.scores@,
        },
    );
    told(
        in_phase(s1, Phase::AwaitingConfirmation),
        Notice::AwaitingConfirmation { prompt: gate_prompt(rec) },
    )
}

// ---- The approval point ------------------------------------------------------------------

/// The first agent with a label, whatever the case of its letters.
pub open spec fn executor_entry(roster: Seq<RosterEntry>, label: Seq<char>) -> Option<RosterEntry>
    decreases roster.len(),
{
    if roster.len() == 0 {
        None
    } else if same_ci(roster[0].label@, label) {
        Some(roster[0])
    } else {
        executor_entry(roster.skip(1), label)
    }
}

/// Why an executor cannot be confirmed.
pub open spec fn confirm_problem(s: State, executor: Seq<char>) -> Option<Seq<char>> {
    if s.phase != Phase::AwaitingConfirmation {
        Some("cannot confirm execution from phase "@ + phase_word(s.phase))
    } else if is_blank(executor) {
        Some("executor must be non-empty"@)
    } else if executor_entry(s.roster, trim(executor)) is None {
        Some("unknown executor '"@ + executor + "'"@)
    } else {
        None
    }
}

/// The agent that a confirmed name means.
pub open spec fn chosen(s: State, executor: Seq<char>) -> RosterEntry {
    executor_entry(s.roster, trim(executor))->Some_0
}

/// The execution begins.
pub open spec fn execution_begun(s: State, e: RosterEntry) -> State {
    let packet = execution_packet(
        s.task,
        e.label@,
        s.transcript,
        s.recommendation,
        s.budget,
        s.changes,
    );
    let in_session = plans(e.role) && is_resumable(s, e.agent);
    let s1 = told(
        s,
        Notice::ExecutionPacket {
            executor: e.label@,
            text: packet,
            included_in_prompt: !in_session,
        },
    );
    let s2 = told(s1, Notice::TurnStarted { agent: e.agent, role: "Executor"@ });
    let s3 = logged(s2, "info"@, "executing with "@ + e.label@);
    let s4 = started(
        media_given(s3, e.agent),
        e.agent,
        PromptPhase::Execution,
        execution_prompt(s.task, packet, in_session, s.budget, s.changes),
        paths(due(s, e.agent)),
        "send failed: "@,
    );
    waiting_for(s4, e, Purpose::Execution)
}

/// The approval point waits for the user.
pub open spec fn at_gate(s: State) -> State {
    State { stage: StageView::Gate, ..s }
}

/// The user decides. `u` is what is recorded of a note.
pub open spec fn decided(s: State, c: UserCommand, u: Utterance) -> State {
    match c {
        UserCommand::ConfirmExecution { executor } => match confirm_problem(s, executor@) {
            Some(problem) => at_gate(logged(s, "warn"@, problem)),
            None => execution_begun(in_phase(s, Phase::Executing), chosen(s, executor@)),
        },
        UserCommand::Reject => if s.phase == Phase::AwaitingConfirmation {
            to_report(in_phase(s, Phase::Done), RunOutcome::Rejected)
        } else {
            State {
                stage: StageView::Failed {
                    reason: "cannot reject from phase "@ + phase_word(s.phase),
                },
                ..s
            }
        },
        UserCommand::InjectNote { attachments, .. } => at_gate(noted(s, attachments@, u)),
        UserCommand::StartTurn { .. } => at_gate(s),
        UserCommand::Shutdown => to_report(s, RunOutcome::Aborted),
    }
}

/// The approval point opens: a decision that was made before counts.
pub open spec fn gate_opened(s: State, u: Utterance) -> State {
    match s.decision {
        Some(c) => decided(State { decision: None, ..s }, c, u),
        None => at_gate(s),
    }
}

/// A command comes in during the discussion.
pub open spec fn command_taken(s: State, c: UserCommand, u: Utterance) -> State {
    match c {
        UserCommand::InjectNote { attachments, .. } => State {
            stage: StageView::Notes,
            ..noted(s, attachments@, u)
        },
        UserCommand::Shutdown => to_report(s, RunOutcome::Aborted),
        UserCommand::StartTurn { .. } => State { stage: StageView::Notes, ..s },
        _ => State { decision: Some(c), stage: StageView::Notes, ..s },
    }
}

/// Whether `u` is what is recorded of a command, where it is a note.
pub open spec fn command_note(c: UserCommand, u: Utterance) -> bool {
    c matches UserCommand::InjectNote { text, attachments, .. } ==> is_note(
        u,
        text@,
        attachments@,
    )
}

// ---- Inputs --------------------------------------------------------------------

/// What the outside world hands the engine.
#[derive(Debug)]
pub enum Input {
    /// An agent reported something.
    Event(AgentEvent),
    /// The time for the turn or the round is up.
    TimedOut,
    /// No agent will report anything any more.
    Closed,
    /// The user asks for something.
    Command(UserCommand),
    /// The user asks for nothing: during the discussion nothing is pending, at
    /// the approval point nothing will come any more.
    NoCommand,
    /// The vote object in the reply of the agent that votes, if there is one.
    Ballot(Option<RawVote>),
    /// What each member of the roster gathered.
    Tallies(Vec<Tally>),
    /// What the agents reported that they cost.
    Costs(CostReport),
}

/// Whether a turn goes from `pre` to `post` on a report.
pub open spec fn turn_step(
    pre: State,
    entry: RosterEntry,
    purpose: Purpose,
    said: Option<String>,
    event: AgentEvent,
    post: State,
) -> bool {
    let s = at_rest(pre);
    if tells_skills(event) {
        post == State {
            stage: pre.stage,
            ..with_skills(s, agent_of(event@), event->Skills_skills)
        }
    } else if agent_of(event@) != entry.agent {
        post == pre
    } else if ends_turn(event) {
        turn_ended(passed_on(s, event), entry, purpose, said, post)
    } else {
        post == State {
            stage: StageView::Turn { entry, purpose, said: said_after(said, event) },
            ..passed_on(s, event)
        }
    }
}

/// Whether a turn that is over leads from `s` to `post`.
pub open spec fn turn_ended(
    s: State,
    entry: RosterEntry,
    purpose: Purpose,
    said: Option<String>,
    post: State,
) -> bool {
    exists|u: Utterance, outcome: RunOutcome| #[trigger]
        reply_is(entry, purpose, said, u, outcome) && post == turn_done(
            s,
            entry,
            purpose,
            said,
            u,
            outcome,
        )
}

/// Whether a round that is over leads from `s` to `post`.
pub open spec fn round_ended(
    s: State,
    members: Seq<RosterEntry>,
    finals: Map<AgentId, String>,
    post: State,
) -> bool {
    exists|added: Seq<Utterance>| #[trigger]
        are_contributions(added, members, finals) && post == round_over(s, members, added)
}

/// Whether a round goes from `pre` to `post` on a report.
pub open spec fn round_step(
    pre: State,
    members: Seq<RosterEntry>,
    pending: Seq<AgentId>,
    finals: Map<AgentId, String>,
    event: AgentEvent,
    post: State,
) -> bool {
    let s = at_rest(pre);
    if tells_skills(event) {
        post == State {
            stage: pre.stage,
            ..with_skills(s, agent_of(event@), event->Skills_skills)
        }
    } else if !pending.contains(agent_of(event@)) {
        post == pre
    } else {
        let left = pending_after(pending, event);
        let now = finals_after(finals, event);
        if left.len() == 0 {
            round_ended(passed_on(s, event), members, now, post)
        } else {
            post == State {
                stage: StageView::Round { members, pending: left, finals: now },
                ..passed_on(s, event)
            }
        }
    }
}

/// Whether a ballot leads from `s` to `post`.
pub open spec fn ballot_step(
    s: State,
    entry: RosterEntry,
    repair: bool,
    said: Option<String>,
    raw: Option<RawVote>,
    post: State,
) -> bool {
    let text = said_text(said);
    let source = vote_source(text, raw, labels(s.roster));
    exists|v: ExecutionVote| #[trigger]
        reads_as(s, entry, text, raw, v) && post == ballot_read(s, entry, repair, text, source, v)
}

/// Whether `v` is the vote that a reply holds, where it holds one.
pub open spec fn reads_as(
    s: State,
    entry: RosterEntry,
    text: Seq<char>,
    raw: Option<RawVote>,
    v: ExecutionVote,
) -> bool {
    vote_source(text, raw, labels(s.roster)) is Some ==> is_vote(
        v,
        entry,
        text,
        raw,
        labels(s.roster),
    )
}

/// Whether the tallies lead from `s` to `post`.
pub open spec fn tally_step(s: State, tallies: Seq<Tally>, post: State) -> bool {
    if s.roster.len() == 0 {
        post == State {
            stage: StageView::Failed { reason: "no candidates to recommend"@ },
            ..s
        }
    } else {
        exists|rec: Recommendation, u: Utterance| #[trigger]
            recommended_by(rec, s.votes, labels(s.roster), tallies) && #[trigger] opens_gate(
                recommended(s, rec),
                u,
                post,
            )
    }
}

/// Whether a recommendation that was made leads from `s` to `post`: to the
/// approval point, where that was asked for.
pub open spec fn opens_gate(s: State, u: Utterance, post: State) -> bool {
    match s.job {
        Job::Interactive => (s.decision matches Some(c) ==> command_note(c, u)) && post
            == gate_opened(s, u),
        _ => post == State { stage: StageView::Recommended, ..s },
    }
}

// ---- The report ----------------------------------------------------------------

/// The agents of the roster for which something was reported, with what was.
pub open spec fn reported_entries<V>(roster: Seq<RosterEntry>, by_agent: Map<AgentId, V>) -> Seq<
    (Seq<char>, V),
>
    decreases roster.len(),
{
    if roster.len() == 0 {
        Seq::empty()
    } else {
        let before = reported_entries(roster.drop_last(), by_agent);
        let e = roster.last();
        if by_agent.dom().contains(e.agent) {
            before.push((e.label@ + " ("@ + role_name(e.role) + ")"@, by_agent[e.agent]))
        } else {
            before
        }
    }
}

/// A list under labels, as values.
pub open spec fn labelled<V>(list: Seq<(String, V)>) -> Seq<(Seq<char>, V)> {
    Seq::new(list.len(), |i: int| (list[i].0@, list[i].1))
}

/// A phase's prompts under its name, where there were any.
pub open spec fn phase_entry(p: PhaseStats, phase: PromptPhase) -> Seq<(Seq<char>, PromptStats)> {
    match phase_stats(p, phase) {
        Some(stats) => seq![(phase_label(phase), stats)],
        None => Seq::empty(),
    }
}

/// The prompts by phase, in the order of the phases.
pub open spec fn phase_entries(p: PhaseStats) -> Seq<(Seq<char>, PromptStats)> {
    phase_entry(p, PromptPhase::Planning) + phase_entry(p, PromptPhase::PlanningSynthesis)
        + phase_entry(p, PromptPhase::Recommendation) + phase_entry(p, PromptPhase::VoteRepair)
        + phase_entry(p, PromptPhase::Execution)
}

/// What was reported of a run.
pub struct Reported {
    pub usage: Seq<(String, TokenUsage)>,
    pub prompts: Seq<(String, PromptStats)>,
    pub phases: Seq<(String, PromptStats)>,
}

/// Whether lists hold what was reported of a run.
pub open spec fn are_reported(r: Reported, s: State) -> bool {
    &&& labelled(r.usage) == reported_entries(s.roster, s.usage)
    &&& labelled(r.prompts) == reported_entries(s.roster, s.prompts)
    &&& labelled(r.phases) == phase_entries(s.phases)
}

/// The report on a run, in text and as a document.
#[verifier::opaque]
pub open spec fn report_notice(
    s: State,
    outcome: RunOutcome,
    costs: CostReport,
    r: Reported,
) -> Notice {
    Notice::SessionReport {
        markdown: session_report(
            s.task,
            s.transcript,
            s.recommendation,
            outcome,
            s.budget,
            s.report,
            s.changes,
            s.salvaged as nat,
            costs,
            r.usage,
            r.prompts,
            r.phases,
        ),
        summary: session_summary(
            s.task,
            s.transcript,
            s.build,
            s.recommendation,
            outcome,
            s.budget,
            s.report,
            s.changes,
            s.salvaged as nat,
            costs,
            r.usage,
            r.prompts,
            r.phases,
        ),
    }
}

/// The run is reported on.
pub open spec fn report_made(s: State, outcome: RunOutcome, costs: CostReport, r: Reported) -> State {
    State {
        stage: StageView::Finished { outcome },
        ..told(s, report_notice(s, outcome, costs, r))
    }
}

/// Whether reporting on a run leads from `s` to `post`.
pub open spec fn report_step(s: State, outcome: RunOutcome, costs: CostReport, post: State) -> bool {
    exists|r: Reported| #[trigger]
        are_reported(r, s) && post == report_made(s, outcome, costs, r)
}

// ---- The beginning -------------------------------------------------------------

/// The state of a new engine.
pub open spec fn fresh(build: BuildRecord<'static>, timeout: Seq<char>) -> State {
    State {
        roster: Seq::empty(),
        resumable: Map::empty(),
        task: Seq::empty(),
        transcript: Seq::empty(),
        phase: Phase::Idle,
        decision: None,
        media: Seq::empty(),
        delivered: Map::empty(),
        skills: Map::empty(),
        terminated: Set::empty(),
        last_seen: Map::empty(),
        parallel: false,
        budget: Some(DEFAULT_CONTEXT_BUDGET_CHARS),
        recommendation: None,
        costs: Map::empty(),
        usage: Map::empty(),
        prompts: Map::empty(),
        phases: PhaseStats {
            planning: None,
            synthesis: None,
            recommendation: None,
            repair: None,
            execution: None,
        },
        project: None,
        report: None,
        changes: None,
        salvaged: 0,
        timeout,
        build,
        job: Job::Discuss,
        speakers: Seq::empty(),
        max_turns: 0,
        taken: 0,
        in_rounds: false,
        rounds_left: 0,
        first_round: true,
        drafts: Map::empty(),
        voter: 0,
        votes: Seq::empty(),
        stage: StageView::Rest,
        out: Seq::empty(),
    }
}

/// An agent is enrolled.
pub open spec fn enrolled(s: State, e: RosterEntry, resumable: bool) -> State {
    told(
        State {
            roster: s.roster.push(e),
            resumable: s.resumable.insert(e.agent, resumable),
            ..s
        },
        Notice::AgentSpawned { agent: e.agent, label: e.label@, session_id: Seq::empty() },
    )
}

/// The planners of a roster.
pub open spec fn planners(roster: Seq<RosterEntry>) -> Seq<RosterEntry> {
    roster.filter(|e: RosterEntry| plans(e.role))
}

/// A run of a job on a task begins.
pub open spec fn job_begun(s: State, job: Job, task: Seq<char>) -> State {
    in_phase(State { task, job, in_rounds: s.parallel, ..at_rest(s) }, Phase::Planning)
}

/// A run goes in rounds.
pub open spec fn rounds_set(s: State, max_turns: nat) -> State {
    State {
        rounds_left: rounds_of(max_turns, planners(s.roster).len()),
        first_round: true,
        drafts: Map::empty(),
        ..s
    }
}

/// A run goes in turns.
pub open spec fn turns_set(s: State, speakers: Seq<RosterEntry>, max_turns: nat) -> State {
    State { speakers, max_turns, taken: 0, ..s }
}

/// The discussion alone begins: everyone on the roster takes turns, or the
/// planners go in rounds.
pub open spec fn discussion_begun(s: State, task: Seq<char>, max_turns: nat) -> State {
    let s1 = job_begun(s, Job::Discuss, task);
    if s.parallel {
        discuss_rounds_on(rounds_set(s1, max_turns))
    } else {
        discuss_on(turns_set(s1, s.roster, max_turns))
    }
}

/// An interactive run begins: the planners take turns or go in rounds.
pub open spec fn interaction_begun(s: State, task: Seq<char>, max_turns: nat) -> State {
    let s1 = job_begun(s, Job::Interactive, task);
    if s.parallel {
        interact_rounds_on(rounds_set(s1, max_turns))
    } else {
        interact_on(turns_set(s1, planners(s.roster), max_turns))
    }
}

/// The recommendation alone begins.
pub open spec fn recommendation_begun(s: State) -> State {
    recommend(State { job: Job::Recommend, ..at_rest(s) })
}

// ---- The machine ---------------------------------------------------------------

/// Whether a command during the discussion leads from `s` to `post`.
pub open spec fn command_step(s: State, c: UserCommand, post: State) -> bool {
    exists|u: Utterance| #[trigger] command_note(c, u) && post == command_taken(s, c, u)
}

/// Whether a command at the approval point leads from `s` to `post`.
pub open spec fn gate_step(s: State, c: UserCommand, post: State) -> bool {
    exists|u: Utterance| #[trigger] command_note(c, u) && post == decided(s, c, u)
}

/// Whether the engine goes from `pre` to `post` on an input. An input that the
/// engine does not wait for changes nothing.
pub open spec fn step(pre: State, input: Input, post: State) -> bool {
    let s = at_rest(pre);
    match pre.stage {
        StageView::Notes => match input {
            Input::Command(c) => command_step(s, c, post),
            Input::NoCommand => post == notes_taken(s),
            _ => post == pre,
        },
        StageView::Turn { entry, purpose, said } => match input {
            Input::Event(event) => turn_step(pre, entry, purpose, said, event, post),
            Input::TimedOut => turn_ended(
                timed_out(s, entry.agent),
                entry,
                purpose,
                said,
                post,
            ),
            Input::Closed => turn_ended(
                turn_over(s, entry.agent, None, None),
                entry,
                purpose,
                said,
                post,
            ),
            _ => post == pre,
        },
        StageView::Round { members, pending, finals } => match input {
            Input::Event(event) => round_step(pre, members, pending, finals, event, post),
            Input::TimedOut => round_ended(all_timed_out(s, pending), members, finals, post),
            Input::Closed => round_ended(s, members, finals, post),
            _ => post == pre,
        },
        StageView::Ballot { entry, repair, said } => match input {
            Input::Ballot(raw) => ballot_step(s, entry, repair, said, raw, post),
            _ => post == pre,
        },
        StageView::Tally => match input {
            Input::Tallies(tallies) => if tallies@.len() == s.roster.len() {
                tally_step(s, tallies@, post)
            } else {
                post == pre
            },
            _ => post == pre,
        },
        StageView::Gate => match input {
            Input::Command(c) => gate_step(s, c, post),
            Input::NoCommand => post == to_report(s, RunOutcome::Aborted),
            _ => post == pre,
        },
        StageView::Report { outcome } => match input {
            Input::Costs(costs) => report_step(s, outcome, costs, post),
            _ => post == pre,
        },
        _ => post == pre,
    }
}

} // verus!
