//! What the engine tells the outside world, and what it is asked to do.
use vstd::prelude::*;
use crate::conductor::AgentId;
use crate::json::{copy, Doc, Json, Number};
use crate::recommend::Score;
use crate::usage::TokenUsage;

verus! {

/// What the engine tells the outside world.
#[allow(inconsistent_fields)]
#[derive(Debug)]
pub enum OrchestratorEvent {
    /// An agent came up.
    AgentSpawned { agent: AgentId, label: String, session_id: String },
    /// A piece of an agent's reply.
    Token { agent: AgentId, text: String },
    /// An agent's turn starts.
    TurnStarted { agent: AgentId, role: String },
    /// An agent's whole reply.
    Message { agent: AgentId, text: String },
    /// What a human wrote.
    UserMessage { text: String },
    /// An agent used a tool.
    ToolActivity { agent: AgentId, summary: String },
    /// An agent's turn is over. The cost is what its session cost so far, the
    /// usage what this turn used.
    TurnComplete {
        agent: AgentId,
        cost_usd: Option<Number>,
        token_usage: Option<TokenUsage>,
    },
    /// An agent's process ended.
    AgentExited { agent: AgentId, code: Option<i32> },
    /// Another phase began.
    PhaseChanged { phase: String },
    /// The agents recommend an executor.
    RecommendationReady {
        executor: String,
        rationale: String,
        confident: bool,
        scores: Vec<Score>,
    },
    /// What the executor is handed.
    ExecutionPacket { executor: String, text: String, included_in_prompt: bool },
    /// The report on the run.
    SessionReport { markdown: String, summary: Json },
    /// The engine waits for the user's decision.
    AwaitingConfirmation { prompt: String },
    /// A line for the log.
    Log { level: String, msg: String },
    /// The run cannot go on.
    Fatal { msg: String },
}

/// What the engine tells the outside world, as a value.
#[allow(inconsistent_fields)]
pub enum Notice {
    AgentSpawned { agent: AgentId, label: Seq<char>, session_id: Seq<char> },
    Token { agent: AgentId, text: Seq<char> },
    TurnStarted { agent: AgentId, role: Seq<char> },
    Message { agent: AgentId, text: Seq<char> },
    UserMessage { text: Seq<char> },
    ToolActivity { agent: AgentId, summary: Seq<char> },
    TurnComplete {
        agent: AgentId,
        cost_usd: Option<Number>,
        token_usage: Option<TokenUsage>,
    },
    AgentExited { agent: AgentId, code: Option<i32> },
    PhaseChanged { phase: Seq<char> },
    RecommendationReady {
        executor: Seq<char>,
        rationale: Seq<char>,
        confident: bool,
        scores: Seq<Score>,
    },
    ExecutionPacket { executor: Seq<char>, text: Seq<char>, included_in_prompt: bool },
    SessionReport { markdown: Seq<char>, summary: Doc },
    AwaitingConfirmation { prompt: Seq<char> },
    Log { level: Seq<char>, msg: Seq<char> },
    Fatal { msg: Seq<char> },
}

impl View for OrchestratorEvent {
    type V = Notice;

    open spec fn view(&self) -> Notice {
        match *self {
            OrchestratorEvent::AgentSpawned { agent, label, session_id } => Notice::AgentSpawned {
                agent,
                label: label@,
                session_id: session_id@,
            },
            OrchestratorEvent::Token { agent, text } => Notice::Token { agent, text: text@ },
            OrchestratorEvent::TurnStarted { agent, role } => Notice::TurnStarted {
                agent,
                role: role@,
            },
            OrchestratorEvent::Message { agent, text } => Notice::Message { agent, text: text@ },
            OrchestratorEvent::UserMessage { text } => Notice::UserMessage { text: text@ },
            OrchestratorEvent::ToolActivity { agent, summary } => Notice::ToolActivity {
                agent,
                summary: summary@,
            },
            OrchestratorEvent::TurnComplete { agent, cost_usd, token_usage } =>
                Notice::TurnComplete { agent, cost_usd, token_usage },
            OrchestratorEvent::AgentExited { agent, code } => Notice::AgentExited { agent, code },
            OrchestratorEvent::PhaseChanged { phase } => Notice::PhaseChanged { phase: phase@ },
            OrchestratorEvent::RecommendationReady { executor, rationale, confident, scores } =>
                Notice::RecommendationReady {
                    executor: executor@,
                    rationale: rationale@,
                    confident,
                    scores: scores@,
                },
            OrchestratorEvent::ExecutionPacket { executor, text, included_in_prompt } =>
                Notice::ExecutionPacket { executor: executor@, text: text@, included_in_prompt },
            OrchestratorEvent::SessionReport { markdown, summary } => Notice::SessionReport {
                markdown: markdown@,
                summary: summary@,
            },
            OrchestratorEvent::AwaitingConfirmation { prompt } => Notice::AwaitingConfirmation {
                prompt: prompt@,
            },
            OrchestratorEvent::Log { level, msg } => Notice::Log { level: level@, msg: msg@ },
            OrchestratorEvent::Fatal { msg } => Notice::Fatal { msg: msg@ },
        }
    }
}

/// The same scores once more.
pub fn copy_scores(scores: &Vec<Score>) -> (r: Vec<Score>)
    ensures
        r@ == scores@,
{
    let mut out: Vec<Score> = Vec::new();
    let mut i: usize = 0;
    while i < scores.len()
        invariant
            i <= scores@.len(),
            out@ == scores@.take(i as int),
        decreases scores@.len() - i,
    {
        let s = &scores[i];
        out.push(Score { executor: s.executor.clone(), value: s.value.clone() });
        i = i + 1;
    }
    proof {
        assert(scores@.take(i as int) =~= scores@);
    }
    out
}

impl Clone for OrchestratorEvent {
    fn clone(&self) -> (r: Self)
        ensures
            r@ == self@,
    {
        match self {
            OrchestratorEvent::AgentSpawned { agent, label, session_id } =>
                OrchestratorEvent::AgentSpawned {
                    agent: *agent,
                    label: label.clone(),
                    session_id: session_id.clone(),
                },
            OrchestratorEvent::Token { agent, text } => OrchestratorEvent::Token {
                agent: *agent,
                text: text.clone(),
            },
            OrchestratorEvent::TurnStarted { agent, role } => OrchestratorEvent::TurnStarted {
                agent: *agent,
                role: role.clone(),
            },
            OrchestratorEvent::Message { agent, text } => OrchestratorEvent::Message {
                agent: *agent,
                text: text.clone(),
            },
            OrchestratorEvent::UserMessage { text } => OrchestratorEvent::UserMessage {
                text: text.clone(),
            },
            OrchestratorEvent::ToolActivity { agent, summary } => OrchestratorEvent::ToolActivity {
                agent: *agent,
                summary: summary.clone(),
            },
            OrchestratorEvent::TurnComplete { agent, cost_usd, token_usage } =>
                OrchestratorEvent::TurnComplete {
                    agent: *agent,
                    cost_usd: *cost_usd,
                    token_usage: *token_usage,
                },
            OrchestratorEvent::AgentExited { agent, code } => OrchestratorEvent::AgentExited {
                agent: *agent,
                code: *code,
            },
            OrchestratorEvent::PhaseChanged { phase } => OrchestratorEvent::PhaseChanged {
                phase: phase.clone(),
            },
            OrchestratorEvent::RecommendationReady { executor, rationale, confident, scores } =>
                OrchestratorEvent::RecommendationReady {
                    executor: executor.clone(),
                    rationale: rationale.clone(),
                    confident: *confident,
                    scores: copy_scores(scores),
                },
            OrchestratorEvent::ExecutionPacket { executor, text, included_in_prompt } =>
                OrchestratorEvent::ExecutionPacket {
                    executor: executor.clone(),
                    text: text.clone(),
                    included_in_prompt: *included_in_prompt,
                },
            OrchestratorEvent::SessionReport { markdown, summary } =>
                OrchestratorEvent::SessionReport {
                    markdown: markdown.clone(),
                    summary: copy(summary),
                },
            OrchestratorEvent::AwaitingConfirmation { prompt } =>
                OrchestratorEvent::AwaitingConfirmation { prompt: prompt.clone() },
            OrchestratorEvent::Log { level, msg } => OrchestratorEvent::Log {
                level: level.clone(),
                msg: msg.clone(),
            },
            OrchestratorEvent::Fatal { msg } => OrchestratorEvent::Fatal { msg: msg.clone() },
        }
    }
}

/// What a frontend can ask the engine to do.
#[derive(Debug)]
pub enum UserCommand {
    /// Start a turn of an agent.
    StartTurn { agent: AgentId, prompt: String },
    /// Say something in the discussion, with files to share.
    InjectNote { agent: AgentId, text: String, attachments: Vec<String> },
    /// Carry the plan out with an executor.
    ConfirmExecution { executor: String },
    /// Do not carry the plan out.
    Reject,
    /// End everything.
    Shutdown,
}

} // verus!
