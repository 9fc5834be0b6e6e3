//! The engine: it drives agents through a discussion to a recommendation, to
//! the user's decision and to the execution.
//!
//! The engine waits for nothing itself. [`Orchestrator::waiting`] says what it
//! waits for, [`Orchestrator::advance`] takes it in, and
//! [`Orchestrator::take_actions`] hands out what is to be done.
use vstd::prelude::*;
use std::collections::{HashMap, HashSet};
use vstd::std_specs::hash::*;
use crate::agent::{event_agent, paths, AgentCaps, AgentEvent, Attachment};
use crate::blackboard::{Blackboard, Utterance};
use crate::build_info::BuildRecord;
use crate::changes::LocalChangeSummary;
use crate::conductor::{
    entry_at, has_turn, plans, AgentId, Conductor, Role, RosterEntry, RuleConductor,
};
use crate::context::{no_output_placeholder, DEFAULT_CONTEXT_BUDGET_CHARS};
use crate::error::TalesError;
use crate::event::{copy_scores, OrchestratorEvent, UserCommand};
use crate::handoff::{compose_execution_packet, compose_vote_context};
use crate::json::Number;
use crate::machine::{
    active, all_asked, all_timed_out, are_contributions, are_reported, as_media, asked, at_rest,
    ballot_read, ballot_step, chosen, command_note, command_step, command_taken, confirm_problem,
    contributed, decided, discuss_on, discuss_rounds_on, discuss_turn, discussion_begun,
    distinct_ids, due, enrolled, execution_begun, executor_entry, final_of, fresh, gate_prompt,
    gate_step, in_phase, interact_on, interact_rounds_on, interaction_begun, interactive_turn,
    is_contribution, is_note, is_resumable, job_begun, label_of, labelled, labels, logged,
    media_given, member_prompt, next_vote, note_text, noted, notes_taken, opens_gate,
    others_drafts, own_draft, passed_on, phase_entries, phase_entry, phase_name, phase_stats,
    phase_word, planners, planning_prompt, prompt_counted, reads_as, recommend,
    recommendation_begun, recommended, repair_asked, reply_is, report_made, report_notice,
    report_step, reported_entries, round_begun, round_ended, round_recorded, round_step,
    rounds_set, said_text, salvage_noted, shared_names, started, step, tally_step, timed_out, told,
    turn_done, turn_ended, turn_over, turn_step, turn_taken, vote_asked, vote_source, with_skills,
    Effect, Input, Job, Phase, PhaseStats, Purpose, Reported, StageView, State,
};
use crate::numeral::decimal_size;
use crate::prompt_forecast::{parallel_rounds, rounds_of};
use crate::prompts::{
    compose_execution_prompt, compose_prompt, compose_round1_prompt, compose_round_synth_prompt,
    compose_vote_prompt, compose_vote_repair_prompt,
};
use crate::recommend::{
    aggregate, parse_vote_lenient, recommended_by, ExecutionVote, RawVote, Recommendation, Tally,
    VoteParseSource,
};
use crate::report::{ProjectContextReport, RunFacts, RunOutcome};
use crate::scan::{blank, is_blank, trimmed};
use crate::session_report::compose_session_report;
use crate::summary::compose_session_summary;
use crate::telemetry::{count_prompt, no_prompts, CostReport, PromptPhase, PromptStats};
use crate::text::{
    char_count, first_n, first_texts, join_texts, lemma_texts_push, same_ignoring_case, texts,
};
use crate::usage::TokenUsage;

verus! {

broadcast use vstd::std_specs::hash::group_hash_axioms;

/// What is to be done in the outside world.
#[derive(Debug)]
pub enum Action {
    /// Tell everyone.
    Emit(OrchestratorEvent),
    /// Start a turn of an agent. Where that fails, `failure` stands before the
    /// reason.
    Start {
        agent: AgentId,
        prompt: String,
        attachments: Vec<Attachment>,
        failure: &'static str,
    },
    /// Shut an agent down.
    Stop { agent: AgentId },
}

impl View for Action {
    type V = Effect;

    open spec fn view(&self) -> Effect {
        match *self {
            Action::Emit(e) => Effect::Emit(e@),
            Action::Start { agent, prompt, attachments, failure } => Effect::Start {
                agent,
                prompt: prompt@,
                attachments: paths(attachments@),
                failure: failure@,
            },
            Action::Stop { agent } => Effect::Stop { agent },
        }
    }
}

/// A list of actions as values.
pub open spec fn effects(v: Seq<Action>) -> Seq<Effect> {
    Seq::new(v.len(), |i: int| v[i]@)
}

/// Where a run stands.
enum Stage {
    Rest,
    Notes,
    Turn { entry: RosterEntry, purpose: Purpose, said: Option<String> },
    Round {
        members: Vec<RosterEntry>,
        pending: Vec<AgentId>,
        finals: HashMap<AgentId, String>,
    },
    Ballot { entry: RosterEntry, repair: bool, said: Option<String> },
    Tally,
    Gate,
    Report { outcome: RunOutcome },
    Finished { outcome: RunOutcome },
    Recommended,
    Failed { reason: String },
}

impl View for Stage {
    type V = StageView;

    closed spec fn view(&self) -> StageView {
        match *self {
            Stage::Rest => StageView::Rest,
            Stage::Notes => StageView::Notes,
            Stage::Turn { entry, purpose, said } => StageView::Turn { entry, purpose, said },
            Stage::Round { members, pending, finals } => StageView::Round {
                members: members@,
                pending: pending@,
                finals: finals@,
            },
            Stage::Ballot { entry, repair, said } => StageView::Ballot { entry, repair, said },
            Stage::Tally => StageView::Tally,
            Stage::Gate => StageView::Gate,
            Stage::Report { outcome } => StageView::Report { outcome },
            Stage::Finished { outcome } => StageView::Finished { outcome },
            Stage::Recommended => StageView::Recommended,
            Stage::Failed { reason } => StageView::Failed { reason: reason@ },
        }
    }
}

/// Drives a set of agents through a discussion.
pub struct Orchestrator {
    roster: Vec<RosterEntry>,
    resumable: HashMap<AgentId, bool>,
    blackboard: Blackboard,
    phase: Phase,
    pending_decision: Option<UserCommand>,
    pending_media: Vec<Attachment>,
    media_delivered: HashMap<AgentId, usize>,
    skills: HashMap<AgentId, Vec<String>>,
    terminated: HashSet<AgentId>,
    last_seen: HashMap<AgentId, usize>,
    parallel_rounds: bool,
    context_budget_chars: Option<usize>,
    last_recommendation: Option<Recommendation>,
    latest_cost_usd: HashMap<AgentId, Number>,
    reported_token_usage: HashMap<AgentId, TokenUsage>,
    prompt_stats: HashMap<AgentId, PromptStats>,
    prompt_phase_stats: PhaseStats,
    project_context: Option<String>,
    project_context_report: Option<ProjectContextReport>,
    local_changes: Option<LocalChangeSummary>,
    salvaged_votes: usize,
    turn_timeout: String,
    build: BuildRecord<'static>,
    job: Job,
    conductor: RuleConductor,
    in_rounds: bool,
    rounds_left: usize,
    first_round: bool,
    drafts: HashMap<AgentId, String>,
    voter: usize,
    votes: Vec<ExecutionVote>,
    stage: Stage,
    actions: Vec<Action>,
}

impl View for Orchestrator {
    type V = State;

    closed spec fn view(&self) -> State {
        State {
            roster: self.roster@,
            resumable: self.resumable@,
            task: self.blackboard.task@,
            transcript: self.blackboard.transcript@,
            phase: self.phase,
            decision: self.pending_decision,
            media: self.pending_media@,
            delivered: self.media_delivered@,
            skills: self.skills@,
            terminated: self.terminated@,
            last_seen: self.last_seen@,
            parallel: self.parallel_rounds,
            budget: self.context_budget_chars,
            recommendation: self.last_recommendation,
            costs: self.latest_cost_usd@,
            usage: self.reported_token_usage@,
            prompts: self.prompt_stats@,
            phases: self.prompt_phase_stats,
            project: self.project_context,
            report: self.project_context_report,
            changes: self.local_changes,
            salvaged: self.salvaged_votes,
            timeout: self.turn_timeout@,
            build: self.build,
            job: self.job,
            speakers: self.conductor.roster(),
            max_turns: self.conductor.max_turns(),
            taken: self.conductor.taken(),
            in_rounds: self.in_rounds,
            rounds_left: self.rounds_left as nat,
            first_round: self.first_round,
            drafts: self.drafts@,
            voter: self.voter as nat,
            votes: self.votes@,
            stage: self.stage@,
            out: effects(self.actions@),
        }
    }
}

proof fn lemma_effects_push(v: Seq<Action>, a: Action)
    ensures
        effects(v.push(a)) == effects(v).push(a@),
{
    assert(effects(v.push(a)) =~= effects(v).push(a@));
}

fn copy_roster(v: &Vec<RosterEntry>) -> (r: Vec<RosterEntry>)
    ensures
        r@ == v@,
{
    let mut out: Vec<RosterEntry> = Vec::new();
    let mut i: usize = 0;
    while i < v.len()
        invariant
            i <= v@.len(),
            out@ == v@.take(i as int),
        decreases v@.len() - i,
    {
        out.push(v[i].clone());
        i = i + 1;
    }
    proof {
        assert(v@.take(i as int) =~= v@);
    }
    out
}

fn phase_title(p: Phase) -> (r: &'static str)
    ensures
        r@ == phase_name(p),
{
    match p {
        Phase::Idle => "idle",
        Phase::Planning => "discussion",
        Phase::Recommending => "recommending",
        Phase::AwaitingConfirmation => "awaitingconfirmation",
        Phase::Executing => "executing",
        Phase::Done => "done",
    }
}

fn phase_in_words(p: Phase) -> (r: &'static str)
    ensures
        r@ == phase_word(p),
{
    match p {
        Phase::Idle => "Idle",
        Phase::Planning => "Planning",
        Phase::Recommending => "Recommending",
        Phase::AwaitingConfirmation => "AwaitingConfirmation",
        Phase::Executing => "Executing",
        Phase::Done => "Done",
    }
}

fn stats_in(p: &PhaseStats, phase: PromptPhase) -> (r: Option<PromptStats>)
    ensures
        r == phase_stats(*p, phase),
{
    match phase {
        PromptPhase::Planning => p.planning,
        PromptPhase::PlanningSynthesis => p.synthesis,
        PromptPhase::Recommendation => p.recommendation,
        PromptPhase::VoteRepair => p.repair,
        PromptPhase::Execution => p.execution,
    }
}

// ---- Small steps ---------------------------------------------------------------

impl Orchestrator {
    fn act(&mut self, a: Action)
        ensures
            final(self)@ == (State { out: old(self)@.out.push(a@), ..old(self)@ }),
    {
        proof {
            lemma_effects_push(self.actions@, a);
        }
        self.actions.push(a);
    }

    fn emit(&mut self, e: OrchestratorEvent)
        ensures
            final(self)@ == told(old(self)@, e@),
    {
        self.act(Action::Emit(e));
    }

    fn log(&mut self, level: &str, msg: String)
        ensures
            final(self)@ == logged(old(self)@, level@, msg@),
    {
        self.emit(OrchestratorEvent::Log { level: level.to_owned(), msg });
    }

    fn set_phase(&mut self, phase: Phase)
        ensures
            final(self)@ == in_phase(old(self)@, phase),
    {
        self.phase = phase;
        self.emit(OrchestratorEvent::PhaseChanged { phase: phase_title(phase).to_owned() });
    }

    fn set_stage(&mut self, stage: Stage)
        ensures
            final(self)@ == (State { stage: stage@, ..old(self)@ }),
    {
        self.stage = stage;
    }

    fn emit_turn_complete(
        &mut self,
        agent: AgentId,
        cost_usd: Option<Number>,
        token_usage: Option<TokenUsage>,
    )
        ensures
            final(self)@ == turn_over(old(self)@, agent, cost_usd, token_usage),
    {
        if let Some(cost) = cost_usd {
            self.latest_cost_usd.insert(agent, cost);
        }
        if let Some(usage) = token_usage {
            let mut sum = match self.reported_token_usage.get(&agent) {
                Some(u) => *u,
                None => TokenUsage::default(),
            };
            sum.add(usage);
            self.reported_token_usage.insert(agent, sum);
        }
        self.emit(OrchestratorEvent::TurnComplete { agent, cost_usd, token_usage });
    }

    fn label_for(&self, agent: AgentId) -> (r: String)
        ensures
            r@ == label_of(self@.roster, agent),
    {
        let ghost roster = self.roster@;
        let mut i: usize = 0;
        proof {
            assert(roster.skip(0) =~= roster);
        }
        while i < self.roster.len()
            invariant
                i <= self.roster@.len(),
                roster == self.roster@,
                label_of(roster, agent) == label_of(roster.skip(i as int), agent),
            decreases self.roster@.len() - i,
        {
            proof {
                assert(roster.skip(i as int).skip(1) =~= roster.skip(i + 1));
            }
            if self.roster[i].agent == agent {
                return self.roster[i].label.clone();
            }
            i = i + 1;
        }
        String::new()
    }

    fn record_skills(&mut self, agent: AgentId, skills: Vec<String>)
        ensures
            final(self)@ == with_skills(old(self)@, agent, skills),
    {
        let n = skills.len();
        let mut msg = self.label_for(agent);
        msg.append(" has ");
        msg.append(decimal_size(n).as_str());
        msg.append(" skills: ");
        let shown = first_texts(&skills, 14);
        proof {
            assert(texts(shown@) =~= first_n(texts(skills@), 14));
        }
        msg.append(join_texts(&shown, ", ").as_str());
        let mut more = String::new();
        if n > 14 {
            more.append(" +");
            more.append(decimal_size(n - 14).as_str());
            more.append(" more");
        }
        proof {
            assert(more@ =~= (if skills@.len() > 14 {
                " +"@ + crate::numeral::dec((skills@.len() - 14) as nat) + " more"@
            } else {
                Seq::empty()
            }));
        }
        msg.append(more.as_str());
        self.log("skills", msg);
        self.skills.insert(agent, skills);
    }

    fn record_prompt_sent(&mut self, agent: AgentId, phase: PromptPhase, prompt: &str)
        ensures
            final(self)@ == prompt_counted(old(self)@, agent, phase, prompt@.len()),
    {
        let chars = char_count(prompt);
        let mine = match self.prompt_stats.get(&agent) {
            Some(s) => *s,
            None => no_prompts(),
        };
        self.prompt_stats.insert(agent, count_prompt(mine, chars));
        let all = match stats_in(&self.prompt_phase_stats, phase) {
            Some(s) => s,
            None => no_prompts(),
        };
        let now = Some(count_prompt(all, chars));
        match phase {
            PromptPhase::Planning => {
                self.prompt_phase_stats.planning = now;
            },
            PromptPhase::PlanningSynthesis => {
                self.prompt_phase_stats.synthesis = now;
            },
            PromptPhase::Recommendation => {
                self.prompt_phase_stats.recommendation = now;
            },
            PromptPhase::VoteRepair => {
                self.prompt_phase_stats.repair = now;
            },
            PromptPhase::Execution => {
                self.prompt_phase_stats.execution = now;
            },
        }
    }

    /// The shared files that an agent did not get yet; they count as delivered.
    fn media_for(&mut self, agent: AgentId) -> (r: Vec<Attachment>)
        ensures
            final(self)@ == media_given(old(self)@, agent),
            paths(r@) == paths(due(old(self)@, agent)),
    {
        let mut out: Vec<Attachment> = Vec::new();
        let ghost media = self.pending_media@;
        let delivered: usize = match self.media_delivered.get(&agent) {
            Some(n) => *n,
            None => 0,
        };
        if delivered >= self.pending_media.len() {
            self.media_delivered.insert(agent, delivered);
            proof {
                assert(paths(out@) =~= paths(Seq::<Attachment>::empty()));
            }
            return out;
        }
        let mut i: usize = delivered;
        proof {
            assert(paths(out@) =~= paths(media.subrange(delivered as int, delivered as int)));
        }
        while i < self.pending_media.len()
            invariant
                delivered <= i <= self.pending_media@.len(),
                media == self.pending_media@,
                self@ == old(self)@,
                paths(out@) == paths(media.subrange(delivered as int, i as int)),
            decreases self.pending_media@.len() - i,
        {
            let next = self.pending_media[i].clone();
            proof {
                assert(paths(out@.push(next)) =~= paths(out@).push(next@));
                assert(paths(media.subrange(delivered as int, i + 1)) =~= paths(
                    media.subrange(delivered as int, i as int),
                ).push(media[i as int]@));
            }
            out.push(next);
            i = i + 1;
        }
        proof {
            assert(media.subrange(delivered as int, i as int) =~= media.skip(delivered as int));
        }
        self.media_delivered.insert(agent, self.pending_media.len());
        out
    }

    /// Whether an agent keeps its session from turn to turn.
    fn is_resumable(&self, agent: AgentId) -> (r: bool)
        ensures
            r == is_resumable(self@, agent),
    {
        match self.resumable.get(&agent) {
            Some(b) => *b,
            None => false,
        }
    }

    fn start(
        &mut self,
        agent: AgentId,
        phase: PromptPhase,
        prompt: String,
        attachments: Vec<Attachment>,
        failure: &'static str,
    )
        ensures
            final(self)@ == started(
                old(self)@,
                agent,
                phase,
                prompt@,
                paths(attachments@),
                failure@,
            ),
    {
        self.record_prompt_sent(agent, phase, prompt.as_str());
        self.act(Action::Start { agent, prompt, attachments, failure });
    }
}

// ---- What is said --------------------------------------------------------------

impl Orchestrator {
    /// Records a note of the user, and keeps its files to share them.
    fn record_human(&mut self, text: String, attachments: Vec<String>)
        ensures
            is_note(final(self)@.transcript.last(), text@, attachments@),
            final(self)@ == noted(
                old(self)@,
                attachments@,
                final(self)@.transcript.last(),
            ),
    {
        let mut told_text = text.clone();
        if attachments.len() > 0 {
            let mut names: Vec<String> = Vec::new();
            let mut i: usize = 0;
            let ghost media = self.pending_media@;
            let ghost before = self@;
            proof {
                assert(media + as_media(attachments@.take(0)) =~= media);
                assert(texts(names@) =~= shared_names(attachments@.take(0)));
            }
            while i < attachments.len()
                invariant
                    i <= attachments@.len(),
                    texts(names@) == shared_names(attachments@.take(i as int)),
                    self@ == (State {
                        media: media + as_media(attachments@.take(i as int)),
                        ..before
                    }),
                decreases attachments@.len() - i,
            {
                let a = Attachment::new(attachments[i].clone());
                let name = a.name();
                proof {
                    lemma_texts_push(names@, name);
                    assert(shared_names(attachments@.take(i + 1)) =~= shared_names(
                        attachments@.take(i as int),
                    ).push(name@));
                    assert(media + as_media(attachments@.take(i + 1)) =~= (media + as_media(
                        attachments@.take(i as int),
                    )).push(a));
                }
                names.push(name);
                self.pending_media.push(a);
                i = i + 1;
            }
            proof {
                assert(attachments@.take(i as int) =~= attachments@);
            }
            let empty = text.as_str().unicode_len() == 0;
            let mut gap = String::new();
            if !empty {
                gap.append("\n");
            }
            proof {
                assert(gap@ =~= (if text@.len() == 0 {
                    Seq::empty()
                } else {
                    "\n"@
                }));
            }
            told_text.append(gap.as_str());
            let mut list = "[attached: ".to_owned();
            list.append(join_texts(&names, ", ").as_str());
            list.append("]");
            told_text.append(list.as_str());
        } else {
            proof {
                assert(self@.media + as_media(attachments@) =~= self@.media);
            }
        }
        assert(told_text@ == note_text(text@, attachments@));
        self.emit(OrchestratorEvent::UserMessage { text: told_text.clone() });
        self.blackboard.record("you".to_owned(), Role::Human, told_text);
    }

    /// Records what an agent contributed; it has seen all up to it.
    fn contribute(&mut self, entry: &RosterEntry, text: String)
        ensures
            is_contribution(final(self)@.transcript.last(), *entry, text@),
            final(self)@ == contributed(old(self)@, *entry, final(self)@.transcript.last()),
    {
        self.blackboard.record(entry.label.clone(), entry.role, no_output_placeholder(text));
        self.last_seen.insert(entry.agent, self.blackboard.transcript.len());
    }

    fn compose_turn(&self, entry: &RosterEntry) -> (r: String)
        ensures
            r@ == planning_prompt(self@, *entry),
    {
        let resumable = self.is_resumable(entry.agent);
        let seen: usize = match self.last_seen.get(&entry.agent) {
            Some(n) => *n,
            None => 0,
        };
        let first_time = !self.last_seen.contains_key(&entry.agent);
        let delta = self.blackboard.transcript_text_from(seen);
        let project = match &self.project_context {
            Some(p) => Some(p.as_str()),
            None => None,
        };
        compose_prompt(
            entry.role,
            self.blackboard.task.as_str(),
            &self.blackboard,
            resumable,
            delta.as_str(),
            first_time,
            self.context_budget_chars,
            project,
        )
    }
}

// ---- The discussion ------------------------------------------------------------

impl Orchestrator {
    fn begin_discuss_turn(&mut self, entry: RosterEntry)
        ensures
            final(self)@ == discuss_turn(old(self)@, entry),
    {
        let prompt = self.compose_turn(&entry);
        let mut msg = "→ ".to_owned();
        msg.append(entry.label.as_str());
        msg.append(" speaking as ");
        msg.append(entry.role.name());
        self.log("info", msg);
        let none: Vec<Attachment> = Vec::new();
        proof {
            assert(paths(none@) =~= Seq::empty());
        }
        self.start(entry.agent, PromptPhase::Planning, prompt, none, "send to agent failed: ");
        self.set_stage(Stage::Turn { entry, purpose: Purpose::Planning, said: None });
    }

    fn begin_interactive_turn(&mut self, entry: RosterEntry)
        ensures
            final(self)@ == interactive_turn(old(self)@, entry),
    {
        let prompt = self.compose_turn(&entry);
        self.emit(
            OrchestratorEvent::TurnStarted {
                agent: entry.agent,
                role: entry.role.name().to_owned(),
            },
        );
        let mut msg = entry.label.clone();
        msg.append(" speaking as ");
        msg.append(entry.role.name());
        self.log("info", msg);
        let attachments = self.media_for(entry.agent);
        self.start(entry.agent, PromptPhase::Planning, prompt, attachments, "send failed: ");
        self.set_stage(Stage::Turn { entry, purpose: Purpose::Planning, said: None });
    }

    /// Gives out the next turn, where there is one.
    fn next_entry(&mut self) -> (r: Option<RosterEntry>)
        ensures
            ({
                let s = old(self)@;
                if has_turn(s.speakers, s.max_turns, s.taken) {
                    r == Some(entry_at(s.speakers, s.taken)) && final(self)@ == turn_taken(s)
                } else {
                    r is None && final(self)@ == s
                }
            }),
    {
        match self.conductor.next_turn(&self.blackboard) {
            Some(plan) => Some(
                RosterEntry { agent: plan.agent, label: plan.label, role: plan.role },
            ),
            None => None,
        }
    }

    /// Goes on with the discussion alone.
    fn go_on_discussing(&mut self)
        ensures
            final(self)@ == discuss_on(old(self)@),
    {
        let ghost goal = discuss_on(self@);
        loop
            invariant
                goal == discuss_on(old(self)@),
                goal == discuss_on(self@),
            decreases self@.max_turns - self@.taken,
        {
            let ghost before = self@;
            match self.next_entry() {
                None => {
                    self.set_stage(Stage::Report { outcome: RunOutcome::Discussed });
                    return ;
                },
                Some(entry) => {
                    if !self.terminated.contains(&entry.agent) {
                        self.begin_discuss_turn(entry);
                        return ;
                    }
                    assert(self@.terminated.contains(entry.agent));
                },
            }
        }
    }

    /// Goes on with an interactive discussion in turns.
    fn go_on_interacting(&mut self)
        ensures
            final(self)@ == interact_on(old(self)@),
    {
        if self.conductor.has_next() {
            self.set_stage(Stage::Notes);
        } else {
            self.begin_recommendation();
        }
    }

    /// The planners that are not shut down.
    fn active_planners(&self) -> (r: Vec<RosterEntry>)
        ensures
            r@ == active(self@),
    {
        let ghost keep = |e: RosterEntry| plans(e.role) && !self@.terminated.contains(e.agent);
        let ghost all = self.roster@;
        let mut out: Vec<RosterEntry> = Vec::new();
        let mut i: usize = 0;
        proof {
            assert(all.take(0).filter(keep) =~= Seq::empty());
        }
        while i < self.roster.len()
            invariant
                i <= self.roster@.len(),
                all == self.roster@,
                keep == (|e: RosterEntry|
                    plans(e.role) && !self@.terminated.contains(e.agent)),
                out@ == all.take(i as int).filter(keep),
            decreases self.roster@.len() - i,
        {
            let e = &self.roster[i];
            proof {
                all.take(i as int).lemma_filter_push(all[i as int], keep);
                assert(all.take(i + 1) =~= all.take(i as int).push(all[i as int]));
            }
            if e.role.is_planner() && !self.terminated.contains(&e.agent) {
                out.push(e.clone());
            }
            i = i + 1;
        }
        proof {
            assert(all.take(i as int) =~= all);
        }
        out
    }

    fn compose_member(&self, members: &Vec<RosterEntry>, entry: &RosterEntry) -> (r: String)
        requires
            members@.len() > 0,
        ensures
            r@ == member_prompt(self@, members@, *entry),
    {
        let task = self.blackboard.task.as_str();
        if self.first_round {
            let project = match &self.project_context {
                Some(p) => Some(p.as_str()),
                None => None,
            };
            return compose_round1_prompt(task, project, self.context_budget_chars);
        }
        let ghost all = members@;
        let mut others: Vec<String> = Vec::new();
        let mut i: usize = 0;
        proof {
            assert(texts(others@) =~= others_drafts(self@.drafts, all.take(0), entry.agent));
        }
        while i < members.len()
            invariant
                i <= members@.len(),
                all == members@,
                texts(others@) == others_drafts(
                    self@.drafts,
                    all.take(i as int),
                    entry.agent,
                ),
            decreases members@.len() - i,
        {
            let o = members[i].agent;
            proof {
                assert(all.take(i + 1).drop_last() =~= all.take(i as int));
                assert(all.take(i + 1).last() == all[i as int]);
            }
            if o != entry.agent {
                if let Some(d) = self.drafts.get(&o) {
                    let next = d.clone();
                    proof {
                        lemma_texts_push(others@, next);
                    }
                    others.push(next);
                }
            }
            i = i + 1;
        }
        proof {
            assert(all.take(i as int) =~= all);
        }
        let joined = join_texts(&others, "\n\n---\n\n");
        let own = match self.drafts.get(&entry.agent) {
            Some(d) => d.clone(),
            None => String::new(),
        };
        proof {
            assert(own@ =~= own_draft(self@.drafts, entry.agent));
        }
        compose_round_synth_prompt(
            task,
            joined.as_str(),
            entry.agent == members[0].agent,
            self.is_resumable(entry.agent),
            own.as_str(),
            self.context_budget_chars,
        )
    }

    fn ask_member(&mut self, members: &Vec<RosterEntry>, entry: &RosterEntry)
        requires
            members@.len() > 0,
        ensures
            final(self)@ == asked(old(self)@, members@, *entry),
    {
        let prompt = self.compose_member(members, entry);
        let phase = if self.first_round {
            PromptPhase::Planning
        } else {
            PromptPhase::PlanningSynthesis
        };
        self.emit(
            OrchestratorEvent::TurnStarted {
                agent: entry.agent,
                role: entry.role.name().to_owned(),
            },
        );
        let attachments = self.media_for(entry.agent);
        self.start(entry.agent, phase, prompt, attachments, "send to agent failed: ");
    }

    /// Begins a round with the planners that are not shut down.
    fn begin_round(&mut self)
        requires
            active(old(self)@).len() > 0,
        ensures
            final(self)@ == round_begun(old(self)@),
    {
        let members = self.active_planners();
        let ghost before = self@;
        let mut pending: Vec<AgentId> = Vec::new();
        let mut i: usize = 0;
        while i < members.len()
            invariant
                i <= members@.len(),
                members@.len() > 0,
                self@ == all_asked(before, members@, i as nat),
                pending@ == distinct_ids(members@.take(i as int)),
            decreases members@.len() - i,
        {
            let entry = &members[i];
            proof {
                assert(members@.take(i + 1).drop_last() =~= members@.take(i as int));
                assert(members@.take(i + 1).last() == members@[i as int]);
            }
            if !has_id(&pending, entry.agent) {
                pending.push(entry.agent);
            }
            self.ask_member(&members, entry);
            i = i + 1;
        }
        proof {
            assert(members@.take(i as int) =~= members@);
        }
        self.set_stage(Stage::Round { members, pending, finals: HashMap::new() });
    }

    /// Goes on with the rounds of the discussion alone.
    fn go_on_with_rounds(&mut self)
        ensures
            final(self)@ == discuss_rounds_on(old(self)@),
    {
        if self.rounds_left > 0 && self.active_planner_count() > 0 {
            self.begin_round();
        } else {
            self.set_stage(Stage::Report { outcome: RunOutcome::Discussed });
        }
    }

    fn go_on_interacting_in_rounds(&mut self)
        ensures
            final(self)@ == interact_rounds_on(old(self)@),
    {
        if self.rounds_left > 0 {
            self.set_stage(Stage::Notes);
        } else {
            self.begin_recommendation();
        }
    }

    /// How many planners are not shut down.
    fn active_planner_count(&self) -> (r: usize)
        ensures
            r == active(self@).len(),
    {
        self.active_planners().len()
    }

    /// Records what the planners of a round contributed, in the order of the
    /// roster, and goes on.
    fn finish_round(&mut self, members: Vec<RosterEntry>, finals: HashMap<AgentId, String>)
        ensures
            round_ended(old(self)@, members@, finals@, final(self)@),
    {
        let ghost before = self@;
        let ghost mut added: Seq<Utterance> = Seq::empty();
        self.drafts = HashMap::new();
        let mut i: usize = 0;
        proof {
            assert(self@.drafts =~= Map::empty());
        }
        while i < members.len()
            invariant
                i <= members@.len(),
                added.len() == i,
                forall|k: int|
                    0 <= k < i ==> is_contribution(
                        #[trigger] added[k],
                        members@[k],
                        final_of(finals@, members@[k].agent),
                    ),
                self@ == round_recorded(before, members@, added, i as nat),
            decreases members@.len() - i,
        {
            let entry = &members[i];
            let text = match finals.get(&entry.agent) {
                Some(t) => t.clone(),
                None => String::new(),
            };
            proof {
                assert(text@ =~= final_of(finals@, entry.agent));
            }
            self.contribute(entry, text);
            let ghost u = self@.transcript.last();
            let said = self.blackboard.last_utterance_text();
            self.drafts.insert(entry.agent, said);
            proof {
                lemma_recorded_prefix(before, members@, added, added.push(u), i as nat);
                added = added.push(u);
            }
            i = i + 1;
        }
        proof {
            assert(are_contributions(added, members@, finals@));
        }
        if self.rounds_left > 0 {
            self.rounds_left = self.rounds_left - 1;
        }
        self.first_round = false;
        match self.job {
            Job::Discuss => self.go_on_with_rounds(),
            _ => self.go_on_interacting_in_rounds(),
        }
    }

    /// Goes on when the user's pending commands are taken in.
    fn go_on_after_notes(&mut self)
        ensures
            final(self)@ == notes_taken(old(self)@),
    {
        if self.in_rounds {
            if self.active_planner_count() == 0 {
                self.begin_recommendation();
            } else {
                self.begin_round();
            }
            return ;
        }
        match self.next_entry() {
            None => self.begin_recommendation(),
            Some(entry) => if self.terminated.contains(&entry.agent) {
                self.go_on_interacting();
            } else {
                self.begin_interactive_turn(entry);
            },
        }
    }
}

proof fn lemma_recorded_prefix(
    s: State,
    members: Seq<RosterEntry>,
    a: Seq<Utterance>,
    b: Seq<Utterance>,
    n: nat,
)
    requires
        forall|k: int| 0 <= k < n ==> a[k] == b[k],
    ensures
        round_recorded(s, members, a, n) == round_recorded(s, members, b, n),
    decreases n,
{
    if n > 0 {
        lemma_recorded_prefix(s, members, a, b, (n - 1) as nat);
    }
}

fn has_id(v: &Vec<AgentId>, a: AgentId) -> (r: bool)
    ensures
        r == v@.contains(a),
{
    let mut i: usize = 0;
    while i < v.len()
        invariant
            i <= v@.len(),
            forall|k: int| 0 <= k < i ==> v@[k] != a,
        decreases v@.len() - i,
    {
        if v[i] == a {
            return true;
        }
        i = i + 1;
    }
    false
}

// ---- The recommendation --------------------------------------------------------

impl Orchestrator {
    /// The labels of the roster, which are the candidates.
    fn candidates(&self) -> (r: Vec<String>)
        ensures
            texts(r@) == labels(self@.roster),
            r@.len() == self@.roster.len(),
    {
        let mut out: Vec<String> = Vec::new();
        let mut i: usize = 0;
        while i < self.roster.len()
            invariant
                i <= self.roster@.len(),
                texts(out@) == Seq::new(i as nat, |k: int| self.roster@[k].label@),
            decreases self.roster@.len() - i,
        {
            let next = self.roster[i].label.clone();
            proof {
                lemma_texts_push(out@, next);
                assert(Seq::new((i + 1) as nat, |k: int| self.roster@[k].label@) =~= Seq::new(
                    i as nat,
                    |k: int| self.roster@[k].label@,
                ).push(next@));
            }
            out.push(next);
            i = i + 1;
        }
        proof {
            assert(texts(out@).len() == out@.len());
            assert(texts(out@) =~= labels(self.roster@));
        }
        out
    }

    fn ask_vote(&mut self, entry: RosterEntry)
        ensures
            final(self)@ == vote_asked(old(self)@, entry),
    {
        let context = compose_vote_context(&self.blackboard, self.context_budget_chars);
        let candidates = self.candidates();
        let prompt = compose_vote_prompt(
            self.blackboard.task.as_str(),
            &candidates,
            self.is_resumable(entry.agent),
            context.as_str(),
        );
        let none: Vec<Attachment> = Vec::new();
        proof {
            assert(paths(none@) =~= Seq::empty());
        }
        self.start(
            entry.agent,
            PromptPhase::Recommendation,
            prompt,
            none,
            "send to agent failed: ",
        );
        self.set_stage(Stage::Turn { entry, purpose: Purpose::Vote, said: None });
    }

    fn ask_repair(&mut self, entry: RosterEntry, text: &str)
        ensures
            final(self)@ == repair_asked(old(self)@, entry, text@),
    {
        let context = compose_vote_context(&self.blackboard, self.context_budget_chars);
        let candidates = self.candidates();
        let prompt = compose_vote_repair_prompt(
            self.blackboard.task.as_str(),
            &candidates,
            self.is_resumable(entry.agent),
            context.as_str(),
            text,
        );
        let mut msg = entry.label.clone();
        msg.append(" returned no parseable vote; asking once for JSON");
        self.log("warn", msg);
        let none: Vec<Attachment> = Vec::new();
        proof {
            assert(paths(none@) =~= Seq::empty());
        }
        self.start(
            entry.agent,
            PromptPhase::VoteRepair,
            prompt,
            none,
            "send vote repair failed: ",
        );
        self.set_stage(Stage::Turn { entry, purpose: Purpose::VoteRepair, said: None });
    }

    /// Asks the next planner that is not shut down for its vote.
    fn next_voter(&mut self)
        ensures
            final(self)@ == next_vote(old(self)@),
    {
        let ghost goal = next_vote(self@);
        while self.voter < self.roster.len()
            invariant
                goal == next_vote(old(self)@),
                goal == next_vote(self@),
            decreases self.roster@.len() - self.voter,
        {
            let entry = self.roster[self.voter].clone();
            self.voter = self.voter + 1;
            if entry.role.is_planner() && !self.terminated.contains(&entry.agent) {
                self.ask_vote(entry);
                return ;
            }
        }
        self.set_stage(Stage::Tally);
    }

    fn begin_recommendation(&mut self)
        ensures
            final(self)@ == recommend(old(self)@),
    {
        self.set_phase(Phase::Recommending);
        self.voter = 0;
        self.votes = Vec::new();
        proof {
            assert(self@.votes =~= Seq::empty());
        }
        self.next_voter();
    }

    fn note_salvage(&mut self, label: &str, repair: bool, source: Option<VoteParseSource>)
        ensures
            final(self)@ == salvage_noted(old(self)@, label@, repair, source),
    {
        if let Some(VoteParseSource::CandidateMention) = source {
            self.salvaged_votes = self.salvaged_votes.saturating_add(1);
            let mut msg = label.to_owned();
            if repair {
                msg.append(" repair returned prose vote; salvaged unambiguous candidate");
            } else {
                msg.append(" returned prose vote; salvaged unambiguous candidate without repair");
            }
            self.log("info", msg);
        }
    }

    fn read_ballot(
        &mut self,
        entry: RosterEntry,
        repair: bool,
        said: Option<String>,
        raw: Option<RawVote>,
    )
        ensures
            ballot_step(old(self)@, entry, repair, said, raw, final(self)@),
    {
        let text = match &said {
            Some(t) => t.clone(),
            None => String::new(),
        };
        proof {
            assert(text@ =~= said_text(said));
        }
        let candidates = self.candidates();
        let ghost before = self@;
        let ghost source = vote_source(text@, raw, labels(self@.roster));
        let parsed = parse_vote_lenient(text.as_str(), raw, &candidates);
        let found = match &parsed {
            Some(v) => Some(v.source),
            None => None,
        };
        assert(found == source);
        self.note_salvage(entry.label.as_str(), repair, found);
        match parsed {
            Some(vote) => {
                let v = ExecutionVote {
                    voter: entry.agent,
                    voter_label: entry.label.clone(),
                    recommended_executor: vote.recommended_executor,
                    confidence: vote.confidence,
                    needs_plan: vote.needs_plan,
                    rationale: vote.rationale,
                    parse_source: vote.source,
                };
                assert(reads_as(before, entry, text@, raw, v));
                self.votes.push(v);
                self.next_voter();
                assert(self@ == ballot_read(before, entry, repair, text@, source, v));
            },
            None => {
                let ghost v: ExecutionVote = arbitrary();
                assert(source is None);
                if repair {
                    let mut msg = entry.label.clone();
                    msg.append(" returned no parseable vote");
                    self.log("warn", msg);
                    self.next_voter();
                } else {
                    self.ask_repair(entry, text.as_str());
                }
                assert(reads_as(before, entry, text@, raw, v));
                assert(self@ == ballot_read(before, entry, repair, text@, source, v));
            },
        }
    }
}

// ---- The approval point ------------------------------------------------------------------

/// The recommendation that a run made, for its readers.
fn opt_ref(r: &Option<Recommendation>) -> (o: Option<&Recommendation>)
    ensures
        crate::handoff::opt_rec(o) == *r,
{
    match r {
        Some(x) => Some(x),
        None => None,
    }
}

fn changes_ref(r: &Option<LocalChangeSummary>) -> (o: Option<&LocalChangeSummary>)
    ensures
        crate::changes::opt_changes(o) == *r,
{
    match r {
        Some(x) => Some(x),
        None => None,
    }
}

fn report_ref(r: &Option<ProjectContextReport>) -> (o: Option<&ProjectContextReport>)
    ensures
        crate::report::opt_report(o) == *r,
{
    match r {
        Some(x) => Some(x),
        None => None,
    }
}

impl Orchestrator {
    fn find_executor(&self, label: &str) -> (r: Option<RosterEntry>)
        ensures
            r == executor_entry(self@.roster, label@),
    {
        let ghost roster = self.roster@;
        let mut i: usize = 0;
        proof {
            assert(roster.skip(0) =~= roster);
        }
        while i < self.roster.len()
            invariant
                i <= self.roster@.len(),
                roster == self.roster@,
                executor_entry(roster, label@) == executor_entry(roster.skip(i as int), label@),
            decreases self.roster@.len() - i,
        {
            proof {
                assert(roster.skip(i as int).skip(1) =~= roster.skip(i + 1));
            }
            if same_ignoring_case(self.roster[i].label.as_str(), label) {
                return Some(self.roster[i].clone());
            }
            i = i + 1;
        }
        None
    }

    /// Whether an executor can be confirmed, and which agent is meant.
    fn check_confirmation(&self, executor: &str) -> (r: Result<RosterEntry, String>)
        ensures
            match confirm_problem(self@, executor@) {
                Some(problem) => r matches Err(m) && m@ == problem,
                None => r == Ok::<RosterEntry, String>(chosen(self@, executor@)),
            },
    {
        if self.phase != Phase::AwaitingConfirmation {
            let mut msg = "cannot confirm execution from phase ".to_owned();
            msg.append(phase_in_words(self.phase));
            return Err(msg);
        }
        if blank(executor) {
            return Err("executor must be non-empty".to_owned());
        }
        match self.find_executor(trimmed(executor).as_str()) {
            Some(entry) => Ok(entry),
            None => {
                let mut msg = "unknown executor '".to_owned();
                msg.append(executor);
                msg.append("'");
                Err(msg)
            },
        }
    }

    /// The approval point. This is the only way into the execution: it is open only while
    /// the user is asked, and only for an agent of the roster. Returns the
    /// agent's label.
    pub fn confirm_execution(&mut self, executor: &str) -> (r: Result<String, TalesError>)
        ensures
            match confirm_problem(old(self)@, executor@) {
                Some(problem) => {
                    &&& r matches Err(TalesError::Other(m)) && m@ == problem
                    &&& final(self)@ == old(self)@
                },
                None => {
                    &&& r == Ok::<String, TalesError>(chosen(old(self)@, executor@).label)
                    &&& final(self)@ == in_phase(old(self)@, Phase::Executing)
                },
            },
    {
        match self.check_confirmation(executor) {
            Ok(entry) => {
                self.set_phase(Phase::Executing);
                Ok(entry.label)
            },
            Err(msg) => Err(TalesError::Other(msg)),
        }
    }

    /// The user declines to carry the plan out.
    pub fn reject(&mut self) -> (r: Result<(), TalesError>)
        ensures
            if old(self)@.phase == Phase::AwaitingConfirmation {
                r is Ok && final(self)@ == in_phase(old(self)@, Phase::Done)
            } else {
                &&& r matches Err(TalesError::Other(m)) && m@ == "cannot reject from phase "@
                    + phase_word(old(self)@.phase)
                &&& final(self)@ == old(self)@
            },
    {
        if self.phase != Phase::AwaitingConfirmation {
            let mut msg = "cannot reject from phase ".to_owned();
            msg.append(phase_in_words(self.phase));
            return Err(TalesError::Other(msg));
        }
        self.set_phase(Phase::Done);
        Ok(())
    }

    /// Has an agent carry out what was agreed.
    fn begin_execution(&mut self, entry: RosterEntry)
        ensures
            final(self)@ == execution_begun(old(self)@, entry),
    {
        let packet = compose_execution_packet(
            self.blackboard.task.as_str(),
            entry.label.as_str(),
            &self.blackboard,
            opt_ref(&self.last_recommendation),
            self.context_budget_chars,
            changes_ref(&self.local_changes),
        );
        let in_session = entry.role.is_planner() && self.is_resumable(entry.agent);
        let prompt = compose_execution_prompt(
            self.blackboard.task.as_str(),
            packet.as_str(),
            in_session,
            self.context_budget_chars,
            changes_ref(&self.local_changes),
        );
        self.emit(
            OrchestratorEvent::ExecutionPacket {
                executor: entry.label.clone(),
                text: packet,
                included_in_prompt: !in_session,
            },
        );
        self.emit(
            OrchestratorEvent::TurnStarted { agent: entry.agent, role: "Executor".to_owned() },
        );
        let mut msg = "executing with ".to_owned();
        msg.append(entry.label.as_str());
        self.log("info", msg);
        let attachments = self.media_for(entry.agent);
        self.start(entry.agent, PromptPhase::Execution, prompt, attachments, "send failed: ");
        self.set_stage(Stage::Turn { entry, purpose: Purpose::Execution, said: None });
    }

    /// Takes in a command at the approval point.
    fn decide(&mut self, command: UserCommand)
        ensures
            gate_step(old(self)@, command, final(self)@),
    {
        let ghost before = self@;
        let ghost mut u: Utterance = arbitrary();
        let ghost c = command;
        match command {
            UserCommand::ConfirmExecution { executor } => {
                match self.check_confirmation(executor.as_str()) {
                    Ok(entry) => {
                        self.set_phase(Phase::Executing);
                        self.begin_execution(entry);
                    },
                    Err(msg) => {
                        self.log("warn", msg);
                        self.set_stage(Stage::Gate);
                    },
                }
            },
            UserCommand::Reject => {
                if self.phase == Phase::AwaitingConfirmation {
                    self.set_phase(Phase::Done);
                    self.set_stage(Stage::Report { outcome: RunOutcome::Rejected });
                } else {
                    let mut reason = "cannot reject from phase ".to_owned();
                    reason.append(phase_in_words(self.phase));
                    self.set_stage(Stage::Failed { reason });
                }
            },
            UserCommand::InjectNote { text, attachments, .. } => {
                self.record_human(text, attachments);
                proof {
                    u = self@.transcript.last();
                }
                self.set_stage(Stage::Gate);
            },
            UserCommand::StartTurn { .. } => {
                self.set_stage(Stage::Gate);
            },
            UserCommand::Shutdown => {
                self.set_stage(Stage::Report { outcome: RunOutcome::Aborted });
            },
        }
        assert(command_note(c, u));
        assert(self@ == decided(before, c, u));
    }

    /// Takes in a command during the discussion.
    fn take_note(&mut self, command: UserCommand)
        ensures
            command_step(old(self)@, command, final(self)@),
    {
        let ghost before = self@;
        let ghost mut u: Utterance = arbitrary();
        let ghost c = command;
        match command {
            UserCommand::InjectNote { text, attachments, .. } => {
                self.record_human(text, attachments);
                proof {
                    u = self@.transcript.last();
                }
                self.set_stage(Stage::Notes);
            },
            UserCommand::Shutdown => {
                self.set_stage(Stage::Report { outcome: RunOutcome::Aborted });
            },
            UserCommand::StartTurn { .. } => {
                self.set_stage(Stage::Notes);
            },
            UserCommand::ConfirmExecution { .. } => {
                self.pending_decision = Some(command);
                self.set_stage(Stage::Notes);
            },
            UserCommand::Reject => {
                self.pending_decision = Some(command);
                self.set_stage(Stage::Notes);
            },
        }
        assert(command_note(c, u));
        assert(self@ == command_taken(before, c, u));
    }

    fn announce(&mut self, rec: Recommendation)
        ensures
            final(self)@ == (State {
                votes: old(self)@.votes,
                ..recommended(old(self)@, rec)
            }),
    {
        let mut prompt = String::new();
        if rec.confident {
            if rec.needs_plan {
                prompt.append(
                    "Both agents recommend a formal plan first. Preselected executor: ",
                );
            } else {
                prompt.append("Recommended executor: ");
            }
        } else {
            prompt.append("No clear executor consensus. Preselected executor: ");
        }
        prompt.append(rec.executor.as_str());
        prompt.append(". Confirm, override, or reject.");
        assert(prompt@ =~= gate_prompt(rec));
        let event = OrchestratorEvent::RecommendationReady {
            executor: rec.executor.clone(),
            rationale: rec.rationale.clone(),
            confident: rec.confident,
            scores: copy_scores(&rec.scores),
        };
        self.last_recommendation = Some(rec);
        self.emit(event);
        self.set_phase(Phase::AwaitingConfirmation);
        self.emit(OrchestratorEvent::AwaitingConfirmation { prompt });
    }

    /// Goes to the approval point, where a decision that was made before counts.
    fn open_gate(&mut self)
        ensures
            exists|u: Utterance| #[trigger] opens_gate(old(self)@, u, final(self)@),
    {
        let ghost before = self@;
        match self.job {
            Job::Interactive => {
                let mut early: Option<UserCommand> = None;
                std::mem::swap(&mut early, &mut self.pending_decision);
                match early {
                    Some(c) => {
                        let ghost mid = self@;
                        self.decide(c);
                        proof {
                            let u = choose|u: Utterance| #[trigger]
                                command_note(c, u) && self@ == decided(mid, c, u);
                            assert(opens_gate(before, u, self@));
                        }
                    },
                    None => {
                        self.set_stage(Stage::Gate);
                        let ghost u: Utterance = arbitrary();
                        assert(opens_gate(before, u, self@));
                    },
                }
            },
            _ => {
                self.set_stage(Stage::Recommended);
                let ghost u: Utterance = arbitrary();
                assert(opens_gate(before, u, self@));
            },
        }
    }

    /// Counts the votes.
    fn count_votes(&mut self, tallies: Vec<Tally>)
        requires
            tallies@.len() == old(self)@.roster.len(),
        ensures
            tally_step(old(self)@, tallies@, final(self)@),
    {
        let candidates = self.candidates();
        let ghost before = self@;
        let mut votes: Vec<ExecutionVote> = Vec::new();
        std::mem::swap(&mut votes, &mut self.votes);
        proof {
            assert(self@.votes =~= Seq::empty());
        }
        if candidates.len() == 0 {
            std::mem::swap(&mut votes, &mut self.votes);
            self.set_stage(Stage::Failed { reason: "no candidates to recommend".to_owned() });
            return ;
        }
        match aggregate(votes, &candidates, &tallies) {
            Some(rec) => {
                assert(recommended_by(rec, before.votes, labels(before.roster), tallies@));
                self.announce(rec);
                assert(self@ == recommended(before, rec));
                self.open_gate();
            },
            None => {},
        }
    }
}

// ---- Turns and rounds under way ------------------------------------------------

impl Orchestrator {
    /// Passes on what an agent reports while it is its turn.
    fn pass_on(&mut self, event: &AgentEvent)
        ensures
            final(self)@ == passed_on(old(self)@, *event),
    {
        match event {
            AgentEvent::TokenDelta { agent, text, .. } => {
                self.emit(OrchestratorEvent::Token { agent: *agent, text: text.clone() });
            },
            AgentEvent::MessageFinal { agent, text, .. } => {
                self.emit(OrchestratorEvent::Message { agent: *agent, text: text.clone() });
            },
            AgentEvent::ToolCall { agent, name, .. } => {
                self.emit(
                    OrchestratorEvent::ToolActivity { agent: *agent, summary: name.clone() },
                );
            },
            AgentEvent::TurnComplete { agent, cost_usd, token_usage, .. } => {
                self.emit_turn_complete(*agent, *cost_usd, *token_usage);
            },
            AgentEvent::Error { agent, message, fatal } => {
                let level = if *fatal {
                    "error"
                } else {
                    "warn"
                };
                self.log(level, message.clone());
                if *fatal {
                    self.emit_turn_complete(*agent, None, None);
                }
            },
            AgentEvent::Exited { agent, code } => {
                self.emit(OrchestratorEvent::AgentExited { agent: *agent, code: *code });
                self.emit_turn_complete(*agent, None, None);
            },
            _ => {},
        }
    }

    /// Shuts an agent down that took too long.
    fn time_out(&mut self, agent: AgentId)
        ensures
            final(self)@ == timed_out(old(self)@, agent),
    {
        let mut msg = "turn timed out after ".to_owned();
        msg.append(self.turn_timeout.as_str());
        msg.append("; terminating this agent");
        self.log("error", msg);
        self.act(Action::Stop { agent });
        self.terminated.insert(agent);
        self.emit_turn_complete(agent, None, None);
    }

    fn time_out_all(&mut self, agents: &Vec<AgentId>)
        ensures
            final(self)@ == all_timed_out(old(self)@, agents@),
    {
        let ghost before = self@;
        let mut i: usize = 0;
        while i < agents.len()
            invariant
                i <= agents@.len(),
                before == old(self)@,
                self@ == all_timed_out(before, agents@.take(i as int)),
            decreases agents@.len() - i,
        {
            proof {
                assert(agents@.take(i + 1).drop_last() =~= agents@.take(i as int));
                assert(agents@.take(i + 1).last() == agents@[i as int]);
            }
            self.time_out(agents[i]);
            i = i + 1;
        }
        proof {
            assert(agents@.take(i as int) =~= agents@);
        }
    }

    /// Goes on when a turn is over.
    fn finish_turn(&mut self, entry: RosterEntry, purpose: Purpose, said: Option<String>)
        ensures
            turn_ended(old(self)@, entry, purpose, said, final(self)@),
    {
        let ghost before = self@;
        let ghost mut u: Utterance = arbitrary();
        let ghost mut o: RunOutcome = arbitrary();
        match purpose {
            Purpose::Planning => {
                let text = match &said {
                    Some(t) => t.clone(),
                    None => String::new(),
                };
                proof {
                    assert(text@ =~= said_text(said));
                }
                self.contribute(&entry, text);
                proof {
                    u = self@.transcript.last();
                }
                match self.job {
                    Job::Discuss => self.go_on_discussing(),
                    _ => self.go_on_interacting(),
                }
            },
            Purpose::Vote => {
                let ghost e = entry;
                self.set_stage(Stage::Ballot { entry, repair: false, said });
            },
            Purpose::VoteRepair => {
                self.set_stage(Stage::Ballot { entry, repair: true, said });
            },
            Purpose::Execution => {
                self.set_phase(Phase::Done);
                let output = match &said {
                    Some(t) => t.clone(),
                    None => String::new(),
                };
                proof {
                    assert(output@ =~= said_text(said));
                }
                let outcome = RunOutcome::Executed { executor: entry.label.clone(), output };
                proof {
                    o = outcome;
                }
                self.set_stage(Stage::Report { outcome });
            },
        }
        assert(reply_is(entry, purpose, said, u, o));
        assert(self@ == turn_done(before, entry, purpose, said, u, o));
    }

    fn turn_event(
        &mut self,
        entry: RosterEntry,
        purpose: Purpose,
        said: Option<String>,
        event: AgentEvent,
    )
        requires
            old(self)@.stage == StageView::Rest,
        ensures
            turn_step(
                (State {
                    stage: StageView::Turn { entry, purpose, said },
                    ..old(self)@
                }),
                entry,
                purpose,
                said,
                event,
                final(self)@,
            ),
    {
        let ghost e = event;
        let who = event_agent(&event);
        if let AgentEvent::Skills { agent, skills } = event {
            self.record_skills(agent, skills);
            self.set_stage(Stage::Turn { entry, purpose, said });
            return ;
        }
        if who != entry.agent {
            self.set_stage(Stage::Turn { entry, purpose, said });
            return ;
        }
        self.pass_on(&event);
        let over = match &event {
            AgentEvent::TurnComplete { .. } => true,
            AgentEvent::Error { fatal, .. } => *fatal,
            AgentEvent::Exited { .. } => true,
            _ => false,
        };
        if over {
            self.finish_turn(entry, purpose, said);
        } else {
            let now = match event {
                AgentEvent::MessageFinal { text, .. } => Some(text),
                _ => said,
            };
            self.set_stage(Stage::Turn { entry, purpose, said: now });
        }
    }

    fn round_event(
        &mut self,
        members: Vec<RosterEntry>,
        pending: Vec<AgentId>,
        finals: HashMap<AgentId, String>,
        event: AgentEvent,
    )
        requires
            old(self)@.stage == StageView::Rest,
        ensures
            round_step(
                (State {
                    stage: StageView::Round {
                        members: members@,
                        pending: pending@,
                        finals: finals@,
                    },
                    ..old(self)@
                }),
                members@,
                pending@,
                finals@,
                event,
                final(self)@,
            ),
    {
        let who = event_agent(&event);
        if let AgentEvent::Skills { agent, skills } = event {
            self.record_skills(agent, skills);
            self.set_stage(Stage::Round { members, pending, finals });
            return ;
        }
        if !has_id(&pending, who) {
            self.set_stage(Stage::Round { members, pending, finals });
            return ;
        }
        self.pass_on(&event);
        let over = match &event {
            AgentEvent::TurnComplete { .. } => true,
            AgentEvent::Error { fatal, .. } => *fatal,
            AgentEvent::Exited { .. } => true,
            _ => false,
        };
        let left = if over {
            without_id(&pending, who)
        } else {
            pending
        };
        let mut now = finals;
        if let AgentEvent::MessageFinal { agent, text, .. } = event {
            now.insert(agent, text);
        }
        if left.len() == 0 {
            self.finish_round(members, now);
        } else {
            self.set_stage(Stage::Round { members, pending: left, finals: now });
        }
    }
}

fn without_id(v: &Vec<AgentId>, a: AgentId) -> (r: Vec<AgentId>)
    ensures
        r@ == v@.filter(|x: AgentId| x != a),
{
    let ghost keep = |x: AgentId| x != a;
    let mut out: Vec<AgentId> = Vec::new();
    let mut i: usize = 0;
    proof {
        assert(v@.take(0).filter(keep) =~= Seq::empty());
    }
    while i < v.len()
        invariant
            i <= v@.len(),
            keep == (|x: AgentId| x != a),
            out@ == v@.take(i as int).filter(keep),
        decreases v@.len() - i,
    {
        proof {
            v@.take(i as int).lemma_filter_push(v@[i as int], keep);
            assert(v@.take(i + 1) =~= v@.take(i as int).push(v@[i as int]));
        }
        if v[i] != a {
            out.push(v[i]);
        }
        i = i + 1;
    }
    proof {
        assert(v@.take(i as int) =~= v@);
    }
    out
}

// ---- The report ----------------------------------------------------------------

/// The agents of the roster for which something was reported, with what was.
fn listed<V: Copy>(roster: &Vec<RosterEntry>, by_agent: &HashMap<AgentId, V>) -> (r: Vec<
    (String, V),
>)
    ensures
        labelled(r@) == reported_entries(roster@, by_agent@),
{
    let mut out: Vec<(String, V)> = Vec::new();
    let mut i: usize = 0;
    proof {
        assert(labelled(out@) =~= reported_entries(roster@.take(0), by_agent@));
    }
    while i < roster.len()
        invariant
            i <= roster@.len(),
            labelled(out@) == reported_entries(roster@.take(i as int), by_agent@),
        decreases roster@.len() - i,
    {
        let e = &roster[i];
        proof {
            assert(roster@.take(i + 1).drop_last() =~= roster@.take(i as int));
            assert(roster@.take(i + 1).last() == roster@[i as int]);
        }
        if let Some(v) = by_agent.get(&e.agent) {
            let mut label = e.label.clone();
            label.append(" (");
            label.append(e.role.name());
            label.append(")");
            let item = (label, *v);
            proof {
                assert(labelled(out@.push(item)) =~= labelled(out@).push((item.0@, item.1)));
            }
            out.push(item);
        }
        i = i + 1;
    }
    proof {
        assert(roster@.take(i as int) =~= roster@);
    }
    out
}

fn list_phase(out: &mut Vec<(String, PromptStats)>, p: &PhaseStats, phase: PromptPhase)
    ensures
        labelled(final(out)@) == labelled(old(out)@) + phase_entry(*p, phase),
{
    let ghost before = out@;
    if let Some(stats) = stats_in(p, phase) {
        out.push((phase.label().to_owned(), stats));
    }
    proof {
        assert(labelled(out@) =~= labelled(before) + phase_entry(*p, phase));
    }
}

fn listed_phases(p: &PhaseStats) -> (r: Vec<(String, PromptStats)>)
    ensures
        labelled(r@) == phase_entries(*p),
{
    let mut out: Vec<(String, PromptStats)> = Vec::new();
    proof {
        assert(labelled(out@) + phase_entry(*p, PromptPhase::Planning) =~= phase_entry(
            *p,
            PromptPhase::Planning,
        ));
    }
    list_phase(&mut out, p, PromptPhase::Planning);
    list_phase(&mut out, p, PromptPhase::PlanningSynthesis);
    list_phase(&mut out, p, PromptPhase::Recommendation);
    list_phase(&mut out, p, PromptPhase::VoteRepair);
    list_phase(&mut out, p, PromptPhase::Execution);
    out
}

impl Orchestrator {
    /// The report on the run.
    #[verifier::spinoff_prover]
    fn session_report(&self, outcome: &RunOutcome, costs: &CostReport) -> (event: OrchestratorEvent)
        ensures
            exists|r: Reported| #[trigger]
                are_reported(r, self@) && event@ == report_notice(self@, *outcome, *costs, r),
    {
        let usage = listed(&self.roster, &self.reported_token_usage);
        let prompts = listed(&self.roster, &self.prompt_stats);
        let phases = self.reported_prompt_phase_stats();
        let facts = RunFacts {
            recommendation: opt_ref(&self.last_recommendation),
            context_budget_chars: self.context_budget_chars,
            project_context: report_ref(&self.project_context_report),
            local_changes: changes_ref(&self.local_changes),
            salvaged_votes: self.salvaged_votes,
            costs,
            usage: &usage,
            prompts: &prompts,
            phases: &phases,
        };
        let markdown = compose_session_report(&self.blackboard, outcome, &facts);
        let summary = compose_session_summary(&self.blackboard, &self.build, outcome, &facts);
        proof {
            let r = Reported { usage: usage@, prompts: prompts@, phases: phases@ };
            reveal(report_notice);
            assert(are_reported(r, self@));
        }
        OrchestratorEvent::SessionReport { markdown, summary }
    }

    /// Reports on the run.
    #[verifier::spinoff_prover]
    fn emit_session_report(&mut self, outcome: RunOutcome, costs: CostReport)
        ensures
            report_step(old(self)@, outcome, costs, final(self)@),
    {
        let ghost before = self@;
        let event = self.session_report(&outcome, &costs);
        let ghost r = choose|r: Reported| #[trigger]
            are_reported(r, before) && event@ == report_notice(before, outcome, costs, r);
        self.emit(event);
        self.set_stage(Stage::Finished { outcome });
        assert(self@ == report_made(before, outcome, costs, r));
    }
}

// ---- The machine ---------------------------------------------------------------

impl Orchestrator {
    fn notes_input(&mut self, input: Input)
        requires
            old(self)@.stage == StageView::Rest,
        ensures
            step((State { stage: StageView::Notes, ..old(self)@ }), input, final(self)@),
    {
        match input {
            Input::Command(c) => self.take_note(c),
            Input::NoCommand => self.go_on_after_notes(),
            _ => self.set_stage(Stage::Notes),
        }
    }

    fn turn_input(
        &mut self,
        entry: RosterEntry,
        purpose: Purpose,
        said: Option<String>,
        input: Input,
    )
        requires
            old(self)@.stage == StageView::Rest,
        ensures
            step(
                (State {
                    stage: StageView::Turn { entry, purpose, said },
                    ..old(self)@
                }),
                input,
                final(self)@,
            ),
    {
        match input {
            Input::Event(event) => self.turn_event(entry, purpose, said, event),
            Input::TimedOut => {
                self.time_out(entry.agent);
                self.finish_turn(entry, purpose, said);
            },
            Input::Closed => {
                self.emit_turn_complete(entry.agent, None, None);
                self.finish_turn(entry, purpose, said);
            },
            _ => self.set_stage(Stage::Turn { entry, purpose, said }),
        }
    }

    fn round_input(
        &mut self,
        members: Vec<RosterEntry>,
        pending: Vec<AgentId>,
        finals: HashMap<AgentId, String>,
        input: Input,
    )
        requires
            old(self)@.stage == StageView::Rest,
        ensures
            step(
                (State {
                    stage: StageView::Round {
                        members: members@,
                        pending: pending@,
                        finals: finals@,
                    },
                    ..old(self)@
                }),
                input,
                final(self)@,
            ),
    {
        match input {
            Input::Event(event) => self.round_event(members, pending, finals, event),
            Input::TimedOut => {
                self.time_out_all(&pending);
                self.finish_round(members, finals);
            },
            Input::Closed => self.finish_round(members, finals),
            _ => self.set_stage(Stage::Round { members, pending, finals }),
        }
    }

    fn vote_input(&mut self, stage: Stage, input: Input)
        requires
            old(self)@.stage == StageView::Rest,
            stage@ is Ballot || stage@ is Tally,
        ensures
            step((State { stage: stage@, ..old(self)@ }), input, final(self)@),
    {
        match stage {
            Stage::Ballot { entry, repair, said } => match input {
                Input::Ballot(raw) => self.read_ballot(entry, repair, said, raw),
                _ => self.set_stage(Stage::Ballot { entry, repair, said }),
            },
            Stage::Tally => match input {
                Input::Tallies(tallies) => if tallies.len() == self.roster.len() {
                    self.count_votes(tallies);
                } else {
                    self.set_stage(Stage::Tally);
                },
                _ => self.set_stage(Stage::Tally),
            },
            _ => {},
        }
    }

    fn gate_input(&mut self, input: Input)
        requires
            old(self)@.stage == StageView::Rest,
        ensures
            step((State { stage: StageView::Gate, ..old(self)@ }), input, final(self)@),
    {
        match input {
            Input::Command(c) => self.decide(c),
            Input::NoCommand => self.set_stage(Stage::Report { outcome: RunOutcome::Aborted }),
            _ => self.set_stage(Stage::Gate),
        }
    }

    fn report_input(&mut self, outcome: RunOutcome, input: Input)
        requires
            old(self)@.stage == StageView::Rest,
        ensures
            step((State { stage: StageView::Report { outcome }, ..old(self)@ }), input, final(self)@),
    {
        match input {
            Input::Costs(costs) => self.emit_session_report(outcome, costs),
            _ => self.set_stage(Stage::Report { outcome }),
        }
    }

    /// Takes in what the outside world hands over, and goes on as far as
    /// possible. What the engine does not wait for changes nothing.
    pub fn advance(&mut self, input: Input)
        ensures
            step(old(self)@, input, final(self)@),
    {
        let ghost pre = self@;
        let mut stage = Stage::Rest;
        std::mem::swap(&mut stage, &mut self.stage);
        assert(self@ == at_rest(pre));
        assert((State { stage: stage@, ..self@ }) == pre);
        match stage {
            Stage::Notes => self.notes_input(input),
            Stage::Turn { entry, purpose, said } => self.turn_input(entry, purpose, said, input),
            Stage::Round { members, pending, finals } => self.round_input(
                members,
                pending,
                finals,
                input,
            ),
            Stage::Ballot { entry, repair, said } => self.vote_input(
                Stage::Ballot { entry, repair, said },
                input,
            ),
            Stage::Tally => self.vote_input(Stage::Tally, input),
            Stage::Gate => self.gate_input(input),
            Stage::Report { outcome } => self.report_input(outcome, input),
            other => {
                self.set_stage(other);
                assert(self@ == pre);
            },
        }
    }
}

// ---- The outside ---------------------------------------------------------------

/// What the engine waits for.
#[derive(Clone, Copy, Debug, PartialEq, Eq, Structural)]
pub enum Waiting {
    /// Nothing: no run is under way.
    Nothing,
    /// The user's pending commands, without waiting for more.
    Notes,
    /// The next report of an agent; the time starts anew with each.
    Turn,
    /// The next report of an agent; one time for the whole round.
    Round,
    /// The vote object in a reply.
    Ballot,
    /// What the candidates gathered.
    Tallies,
    /// The user's decision.
    Decision,
    /// What the agents cost.
    Costs,
}

/// What a stage waits for.
pub open spec fn waited_for(stage: StageView) -> Waiting {
    match stage {
        StageView::Notes => Waiting::Notes,
        StageView::Turn { .. } => Waiting::Turn,
        StageView::Round { .. } => Waiting::Round,
        StageView::Ballot { .. } => Waiting::Ballot,
        StageView::Tally => Waiting::Tallies,
        StageView::Gate => Waiting::Decision,
        StageView::Report { .. } => Waiting::Costs,
        _ => Waiting::Nothing,
    }
}

impl Orchestrator {
    /// An engine with no agents. `turn_timeout` says in words how long a turn
    /// may take.
    pub fn new(build: BuildRecord<'static>, turn_timeout: String) -> (r: Self)
        ensures
            r@ == fresh(build, turn_timeout@),
    {
        let r = Orchestrator {
            roster: Vec::new(),
            resumable: HashMap::new(),
            blackboard: Blackboard::default(),
            phase: Phase::Idle,
            pending_decision: None,
            pending_media: Vec::new(),
            media_delivered: HashMap::new(),
            skills: HashMap::new(),
            terminated: HashSet::new(),
            last_seen: HashMap::new(),
            parallel_rounds: false,
            context_budget_chars: Some(DEFAULT_CONTEXT_BUDGET_CHARS),
            last_recommendation: None,
            latest_cost_usd: HashMap::new(),
            reported_token_usage: HashMap::new(),
            prompt_stats: HashMap::new(),
            prompt_phase_stats: PhaseStats {
                planning: None,
                synthesis: None,
                recommendation: None,
                repair: None,
                execution: None,
            },
            project_context: None,
            project_context_report: None,
            local_changes: None,
            salvaged_votes: 0,
            turn_timeout,
            build,
            job: Job::Discuss,
            conductor: RuleConductor::new(Vec::new(), 0),
            in_rounds: false,
            rounds_left: 0,
            first_round: true,
            drafts: HashMap::new(),
            voter: 0,
            votes: Vec::new(),
            stage: Stage::Rest,
            actions: Vec::new(),
        };
        proof {
            assert(r@.out =~= Seq::empty());
        }
        r
    }

    /// What the engine waits for.
    pub fn waiting(&self) -> (r: Waiting)
        ensures
            r == waited_for(self@.stage),
    {
        match &self.stage {
            Stage::Notes => Waiting::Notes,
            Stage::Turn { .. } => Waiting::Turn,
            Stage::Round { .. } => Waiting::Round,
            Stage::Ballot { .. } => Waiting::Ballot,
            Stage::Tally => Waiting::Tallies,
            Stage::Gate => Waiting::Decision,
            Stage::Report { .. } => Waiting::Costs,
            _ => Waiting::Nothing,
        }
    }

    /// What is to be done in the outside world, in order. It is handed out
    /// once.
    pub fn take_actions(&mut self) -> (r: Vec<Action>)
        ensures
            effects(r@) == old(self)@.out,
            final(self)@ == (State { out: Seq::empty(), ..old(self)@ }),
    {
        let mut out: Vec<Action> = Vec::new();
        std::mem::swap(&mut out, &mut self.actions);
        proof {
            assert(effects(self.actions@) =~= Seq::empty());
        }
        out
    }

    /// The reply that is to be read as a vote.
    pub fn ballot_text(&self) -> (r: Option<&str>)
        ensures
            match self@.stage {
                StageView::Ballot { said: Some(t), .. } => r matches Some(x) && x@ == t@,
                _ => r is None,
            },
    {
        match &self.stage {
            Stage::Ballot { said: Some(t), .. } => Some(t.as_str()),
            _ => None,
        }
    }

    /// For each vote the place in the roster for which it counts, if any.
    pub fn vote_slots(&self) -> (r: Vec<Option<usize>>)
        ensures
            r@ == crate::recommend::slots_of(self@.votes, labels(self@.roster)),
    {
        crate::recommend::tally_slots(&self.votes, &self.candidates())
    }

    /// The votes so far.
    pub fn votes(&self) -> (r: &Vec<ExecutionVote>)
        ensures
            r@ == self@.votes,
    {
        &self.votes
    }

    /// The agents, in the order in which they were enrolled.
    pub fn roster(&self) -> (r: &Vec<RosterEntry>)
        ensures
            r@ == self@.roster,
    {
        &self.roster
    }

    /// What the agents reported that they cost, in the order of the roster.
    pub fn reported_costs(&self) -> (r: Vec<(String, Number)>)
        ensures
            labelled(r@) == reported_entries(self@.roster, self@.costs),
    {
        listed(&self.roster, &self.latest_cost_usd)
    }

    /// How the run ended, once it did.
    pub fn outcome(&self) -> (r: Option<&RunOutcome>)
        ensures
            match self@.stage {
                StageView::Finished { outcome } => r == Some(&outcome),
                _ => r is None,
            },
    {
        match &self.stage {
            Stage::Finished { outcome } => Some(outcome),
            _ => None,
        }
    }

    /// Why the run failed, if it did.
    pub fn failure(&self) -> (r: Option<&str>)
        ensures
            match self@.stage {
                StageView::Failed { reason } => r matches Some(x) && x@ == reason,
                _ => r is None,
            },
    {
        match &self.stage {
            Stage::Failed { reason } => Some(reason.as_str()),
            _ => None,
        }
    }

    /// The recommendation, once it is made.
    pub fn recommendation(&self) -> (r: Option<&Recommendation>)
        ensures
            crate::handoff::opt_rec(r) == self@.recommendation,
    {
        opt_ref(&self.last_recommendation)
    }

    /// How many votes were read out of prose.
    pub fn salvaged_votes(&self) -> (r: usize)
        ensures
            r == self@.salvaged,
    {
        self.salvaged_votes
    }

    /// What was sent in each phase that sent anything, under the phase's name.
    pub fn reported_prompt_phase_stats(&self) -> (r: Vec<(String, PromptStats)>)
        ensures
            labelled(r@) == phase_entries(self@.phases),
    {
        listed_phases(&self.prompt_phase_stats)
    }

    /// The skills that an agent's tool offers, where it told.
    pub fn skills(&self, agent: AgentId) -> (r: Option<&Vec<String>>)
        ensures
            if self@.skills.dom().contains(agent) {
                r == Some(&self@.skills[agent])
            } else {
                r is None
            },
    {
        self.skills.get(&agent)
    }

    /// Says in words how long a turn may take.
    pub fn set_turn_timeout(&mut self, timeout: String)
        ensures
            final(self)@ == (State { timeout: timeout@, ..old(self)@ }),
    {
        self.turn_timeout = timeout;
    }

    /// Whether the planners speak at the same time in the runs to come.
    pub fn set_parallel_rounds(&mut self, on: bool)
        ensures
            final(self)@ == (State { parallel: on, ..old(self)@ }),
    {
        self.parallel_rounds = on;
    }

    /// Caps the context that prompts carry. No cap and a cap of zero switch the
    /// limit off.
    pub fn set_context_budget_chars(&mut self, chars: Option<usize>)
        ensures
            final(self)@ == (State {
                budget: if chars == Some(0usize) {
                    None
                } else {
                    chars
                },
                ..old(self)@
            }),
    {
        self.context_budget_chars =
        match chars {
            Some(n) => if n > 0 {
                Some(n)
            } else {
                None
            },
            None => None,
        };
    }

    /// Sets the project context for first prompts, without the space round it.
    /// A blank one is none, and takes its report with it.
    pub fn set_project_context(&mut self, context: Option<String>)
        ensures
            match context {
                Some(text) => if is_blank(text@) {
                    final(self)@ == (State { project: None, report: None, ..old(self)@ })
                } else {
                    &&& final(self)@.project matches Some(p) && p@ == crate::scan::trim(text@)
                    &&& final(self)@ == (State {
                        project: final(self)@.project,
                        ..old(self)@
                    })
                },
                None => final(self)@ == (State { project: None, report: None, ..old(self)@ }),
            },
    {
        self.project_context =
        match context {
            Some(text) => if blank(text.as_str()) {
                None
            } else {
                Some(trimmed(text.as_str()))
            },
            None => None,
        };
        if self.project_context.is_none() {
            self.project_context_report = None;
        }
    }

    /// Sets what is reported of the project context, where there is one.
    pub fn set_project_context_report(&mut self, report: Option<ProjectContextReport>)
        ensures
            final(self)@ == (State {
                report: if old(self)@.project is Some {
                    report
                } else {
                    None
                },
                ..old(self)@
            }),
    {
        self.project_context_report = if self.project_context.is_some() {
            report
        } else {
            None
        };
    }

    /// Sets what is known of local changes.
    pub fn set_local_changes(&mut self, changes: Option<LocalChangeSummary>)
        ensures
            final(self)@ == (State { changes, ..old(self)@ }),
    {
        self.local_changes = changes;
    }

    /// The current phase.
    pub fn phase(&self) -> (r: Phase)
        ensures
            r == self@.phase,
    {
        self.phase
    }

    /// What was said so far.
    pub fn blackboard(&self) -> (r: &Blackboard)
        ensures
            r.task@ == self@.task,
            r.transcript@ == self@.transcript,
    {
        &self.blackboard
    }

    /// Enrolls an agent that was started. A blank label is refused.
    pub fn add_agent(&mut self, agent: AgentId, label: String, role: Role, caps: AgentCaps) -> (r:
        Result<AgentId, TalesError>)
        ensures
            if is_blank(label@) {
                &&& r matches Err(TalesError::Other(m)) && m@ == "agent label must be non-empty"@
                &&& final(self)@ == old(self)@
            } else {
                &&& r == Ok::<AgentId, TalesError>(agent)
                &&& final(self)@ == enrolled(
                    old(self)@,
                    (RosterEntry { agent, label, role }),
                    caps.resumable,
                )
            },
    {
        if let Err(e) = check_label(label.as_str()) {
            return Err(e);
        }
        self.resumable.insert(agent, caps.resumable);
        let told_label = label.clone();
        self.roster.push(RosterEntry { agent, label, role });
        self.emit(
            OrchestratorEvent::AgentSpawned {
                agent,
                label: told_label,
                session_id: String::new(),
            },
        );
        Ok(agent)
    }

    /// How many rounds a number of turns makes.
    fn round_count(&self, max_turns: usize) -> (r: usize)
        ensures
            r == rounds_of(max_turns as nat, planners(self@.roster).len()),
    {
        let n = self.planner_entries().len();
        parallel_rounds(max_turns, n)
    }

    fn planner_entries(&self) -> (r: Vec<RosterEntry>)
        ensures
            r@ == planners(self@.roster),
    {
        let ghost keep = |e: RosterEntry| plans(e.role);
        let ghost all = self.roster@;
        let mut out: Vec<RosterEntry> = Vec::new();
        let mut i: usize = 0;
        proof {
            assert(all.take(0).filter(keep) =~= Seq::empty());
        }
        while i < self.roster.len()
            invariant
                i <= self.roster@.len(),
                all == self.roster@,
                keep == (|e: RosterEntry| plans(e.role)),
                out@ == all.take(i as int).filter(keep),
            decreases self.roster@.len() - i,
        {
            let e = &self.roster[i];
            proof {
                all.take(i as int).lemma_filter_push(all[i as int], keep);
                assert(all.take(i + 1) =~= all.take(i as int).push(all[i as int]));
            }
            if e.role.is_planner() {
                out.push(e.clone());
            }
            i = i + 1;
        }
        proof {
            assert(all.take(i as int) =~= all);
        }
        out
    }

    fn begin_job(&mut self, job: Job, task: &str)
        ensures
            final(self)@ == job_begun(old(self)@, job, task@),
    {
        self.blackboard.task = task.to_owned();
        self.job = job;
        self.in_rounds = self.parallel_rounds;
        self.stage = Stage::Rest;
        self.set_phase(Phase::Planning);
    }

    fn set_rounds(&mut self, max_turns: usize)
        ensures
            final(self)@ == rounds_set(old(self)@, max_turns as nat),
    {
        self.rounds_left = self.round_count(max_turns);
        self.first_round = true;
        self.drafts = HashMap::new();
    }

    /// Begins the discussion alone.
    pub fn run_discussion(&mut self, task: &str, max_turns: usize)
        ensures
            final(self)@ == discussion_begun(old(self)@, task@, max_turns as nat),
    {
        self.begin_job(Job::Discuss, task);
        if self.parallel_rounds {
            self.set_rounds(max_turns);
            self.go_on_with_rounds();
        } else {
            self.conductor = RuleConductor::new(copy_roster(&self.roster), max_turns);
            self.go_on_discussing();
        }
    }

    /// Begins a run with the user in it: a discussion, the recommendation, the
    /// user's decision and the execution.
    pub fn run_interactive(&mut self, task: &str, max_turns: usize)
        ensures
            final(self)@ == interaction_begun(old(self)@, task@, max_turns as nat),
    {
        self.begin_job(Job::Interactive, task);
        if self.parallel_rounds {
            self.set_rounds(max_turns);
            self.go_on_interacting_in_rounds();
        } else {
            self.conductor = RuleConductor::new(self.planner_entries(), max_turns);
            self.go_on_interacting();
        }
    }

    /// Begins the recommendation alone: each planner is asked who should
    /// execute. Nothing is executed.
    pub fn run_recommendation(&mut self)
        ensures
            final(self)@ == recommendation_begun(old(self)@),
    {
        self.job = Job::Recommend;
        self.stage = Stage::Rest;
        self.begin_recommendation();
    }
}

/// Refuses a label that is blank.
pub fn check_label(label: &str) -> (r: Result<(), TalesError>)
    ensures
        crate::error::reports(
            r,
            if is_blank(label@) {
                Some("agent label must be non-empty"@)
            } else {
                None
            },
        ),
{
    if blank(label) {
        Err(TalesError::Other("agent label must be non-empty".to_owned()))
    } else {
        Ok(())
    }
}

} // verus!
