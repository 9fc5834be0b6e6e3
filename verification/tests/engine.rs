use serde_json::Value;
use tales::agent::{AgentCaps, AgentEvent};
use tales::build_info::BuildRecord;
use tales::conductor::Role;
use tales::event::{OrchestratorEvent, UserCommand};
use tales::json::Number;
use tales::machine::{Input, Phase};
use tales::mock::{MockAdapter, MockSession};
use tales::orchestrator::{check_label, Action, Orchestrator, Waiting};
use tales::recommend::{first_json_object, ExecutionVote, Measure, RawVote, Tally};
use tales::report::RunOutcome;
use tales::telemetry::CostReport;

fn measure(x: f32) -> Measure {
    Measure { bits: f64::from(x).to_bits(), shown: format!("{x:.2}") }
}

fn single(m: &Measure) -> f32 {
    f64::from_bits(m.bits) as f32
}

/// The vote object in a reply, under any of the names that agents use.
fn raw_vote(text: &str) -> Option<RawVote> {
    let v: Value = serde_json::from_str(&first_json_object(text)?).ok()?;
    let named = |names: &[&str]| names.iter().find_map(|n| v.get(*n)).cloned();
    let executor = named(&["recommended_executor", "executor", "agent", "tool"])?;
    let confidence = v["confidence"].as_f64().unwrap_or(0.5) as f32;
    Some(RawVote {
        recommended_executor: executor.as_str()?.to_string(),
        confidence: measure(confidence.clamp(0.0, 1.0)),
        needs_plan: v["needs_plan"].as_bool().unwrap_or(false),
        rationale: named(&["rationale", "reason", "why"])
            .and_then(|r| r.as_str().map(String::from))
            .unwrap_or_default(),
    })
}

/// What each candidate gathers.
fn tallies(votes: &[ExecutionVote], slots: &[Option<usize>], candidates: usize) -> Vec<Tally> {
    let mut sums = vec![0.0f32; candidates];
    for (vote, slot) in votes.iter().zip(slots) {
        if let Some(i) = slot {
            sums[*i] += single(&vote.confidence);
        }
    }
    sums.iter()
        .map(|s| Tally { value: measure(*s), margin_bits: f64::from(s + 1e-6f32).to_bits() })
        .collect()
}

/// A team of scripted agents and a user who says what was put down.
struct Team {
    engine: Orchestrator,
    sessions: Vec<MockSession>,
    waiting: Vec<AgentEvent>,
    commands: Vec<UserCommand>,
    told: Vec<OrchestratorEvent>,
    started: Vec<(u128, String)>,
}

impl Team {
    fn new() -> Team {
        let build = BuildRecord { git_sha: None, git_dirty: None, target: None, profile: None };
        Team {
            engine: Orchestrator::new(build, "600s".into()),
            sessions: vec![],
            waiting: vec![],
            commands: vec![],
            told: vec![],
            started: vec![],
        }
    }

    fn add(&mut self, label: &str, role: Role, responses: &[&str]) -> u128 {
        let id = self.sessions.len() as u128 + 1;
        let adapter = MockAdapter::new(responses.iter().map(|r| r.to_string()).collect());
        let caps = adapter.caps();
        self.engine.add_agent(id, label.into(), role, caps).unwrap();
        let session = MockSession::new(id, adapter);
        self.waiting.push(session.ready());
        self.sessions.push(session);
        id
    }

    /// Does what the engine asks for.
    fn act(&mut self) {
        for action in self.engine.take_actions() {
            match action {
                Action::Emit(e) => self.told.push(e),
                Action::Start { agent, prompt, .. } => {
                    self.started.push((agent, prompt));
                    let events = self.sessions[agent as usize - 1].respond();
                    self.waiting.extend(events);
                }
                Action::Stop { .. } => {}
            }
        }
    }

    /// Runs on until the engine waits for nothing.
    fn run(&mut self) {
        self.act();
        loop {
            let input = match self.engine.waiting() {
                Waiting::Nothing => return,
                Waiting::Notes | Waiting::Decision => {
                    if self.commands.is_empty() {
                        Input::NoCommand
                    } else {
                        Input::Command(self.commands.remove(0))
                    }
                }
                Waiting::Turn | Waiting::Round => {
                    if self.waiting.is_empty() {
                        Input::TimedOut
                    } else {
                        Input::Event(self.waiting.remove(0))
                    }
                }
                Waiting::Ballot => Input::Ballot(self.engine.ballot_text().and_then(raw_vote)),
                Waiting::Tallies => {
                    let slots = self.engine.vote_slots();
                    let n = self.engine.roster().len();
                    Input::Tallies(tallies(self.engine.votes(), &slots, n))
                }
                Waiting::Costs => {
                    let costs: Vec<(String, f64)> = self
                        .engine
                        .reported_costs()
                        .into_iter()
                        .map(|(label, n)| match n {
                            Number::Unsigned(u) => (label, u as f64),
                            Number::Negative(i) => (label, i as f64),
                            Number::Real(bits) => (label, f64::from_bits(bits)),
                        })
                        .collect();
                    let shown = |x: f64| Measure { bits: x.to_bits(), shown: format!("{x:.4}") };
                    Input::Costs(CostReport {
                        total: shown(costs.iter().map(|(_, x)| *x).sum()),
                        entries: costs.into_iter().map(|(l, x)| (l, shown(x))).collect(),
                    })
                }
            };
            self.engine.advance(input);
            self.act();
        }
    }

    fn prompted_phases(&self) -> String {
        self.told
            .iter()
            .filter_map(|e| match e {
                OrchestratorEvent::PhaseChanged { phase } => Some(phase.as_str()),
                _ => None,
            })
            .collect::<Vec<_>>()
            .join(" ")
    }
}

const AGREED: &str = r#"{"recommended_executor":"anthropic","confidence":0.8,"rationale":"agreed"}"#;

#[test]
fn recommendation_salvages_unambiguous_prose_vote_without_repair_prompt() {
    let mut team = Team::new();
    team.add(
        "anthropic",
        Role::Drafter,
        &["draft", "Anthropic should execute because the patch touches core files."],
    );
    team.add("codex", Role::Critic, &["critique", AGREED]);

    team.engine.run_discussion("task", 2);
    team.run();
    let before = team.started.len();
    team.engine.run_recommendation();
    team.run();

    let recommendation = team.engine.recommendation().unwrap();
    assert_eq!(recommendation.executor, "anthropic");
    assert_eq!(team.engine.salvaged_votes(), 1);
    assert!(
        !team.engine.reported_prompt_phase_stats().iter().any(|(phase, _)| phase == "vote_repair"),
        "salvaged vote should avoid the repair prompt"
    );
    assert_eq!(team.started.len() - before, 2);
    assert!(
        recommendation.rationale.contains("salvaged from prose vote"),
        "{}",
        recommendation.rationale
    );
}

fn planners() -> Team {
    let mut team = Team::new();
    team.add("anthropic", Role::Drafter, &["draft", AGREED, "done"]);
    team.add("codex", Role::Critic, &["critique", AGREED]);
    team
}

#[test]
fn confirmed_runs_execute() {
    let mut team = planners();
    team.engine.set_parallel_rounds(false);
    team.engine.run_interactive("task", 2);
    team.commands = vec![];
    while team.engine.waiting() != Waiting::Decision && team.engine.waiting() != Waiting::Nothing {
        step(&mut team);
    }
    assert_eq!(team.engine.phase(), Phase::AwaitingConfirmation);
    team.commands.push(UserCommand::ConfirmExecution { executor: "Anthropic".into() });
    team.run();
    match team.engine.outcome() {
        Some(RunOutcome::Executed { executor, output }) => {
            assert_eq!(executor, "anthropic");
            assert_eq!(output, "done");
        }
        other => panic!("{other:?}"),
    }
    assert!(team.prompted_phases().contains("executing"));
}

/// One step, with no command pending.
fn step(team: &mut Team) {
    team.act();
    let input = match team.engine.waiting() {
        Waiting::Notes => Input::NoCommand,
        Waiting::Turn | Waiting::Round => {
            if team.waiting.is_empty() {
                Input::TimedOut
            } else {
                Input::Event(team.waiting.remove(0))
            }
        }
        Waiting::Ballot => Input::Ballot(team.engine.ballot_text().and_then(raw_vote)),
        Waiting::Tallies => {
            let slots = team.engine.vote_slots();
            Input::Tallies(tallies(team.engine.votes(), &slots, team.engine.roster().len()))
        }
        other => panic!("{other:?}"),
    };
    team.engine.advance(input);
    team.act();
}

#[test]
fn nothing_is_executed_without_confirmation() {
    let mut team = planners();
    team.engine.run_interactive("task", 2);
    while team.engine.waiting() != Waiting::Decision {
        step(&mut team);
    }
    team.commands.push(UserCommand::Reject);
    team.run();
    assert!(matches!(team.engine.outcome(), Some(RunOutcome::Rejected)));
    assert!(!team.prompted_phases().contains("executing"));

    let mut gone = planners();
    gone.engine.run_interactive("task", 2);
    gone.run();
    assert!(matches!(gone.engine.outcome(), Some(RunOutcome::Aborted)));
}

#[test]
fn unknown_executors_leave_the_question_open() {
    let mut team = planners();
    team.engine.run_interactive("task", 2);
    while team.engine.waiting() != Waiting::Decision {
        step(&mut team);
    }
    for name in ["nobody", "   ", "anthropi"] {
        team.engine.advance(Input::Command(UserCommand::ConfirmExecution { executor: name.into() }));
        team.act();
        assert_eq!(team.engine.waiting(), Waiting::Decision);
        assert_eq!(team.engine.phase(), Phase::AwaitingConfirmation);
    }
    team.commands.push(UserCommand::ConfirmExecution { executor: "  ANTHROPIC ".into() });
    team.run();
    assert!(matches!(
        team.engine.outcome(),
        Some(RunOutcome::Executed { executor, .. }) if executor == "anthropic"
    ));
    assert_eq!(team.engine.phase(), Phase::Done);
}

#[test]
fn decisions_are_refused_before_their_time() {
    let mut team = planners();
    assert!(team.engine.confirm_execution("anthropic").is_err());
    assert!(team.engine.reject().is_err());
    assert!(check_label("  ").is_err());
    assert!(check_label("x").is_ok());
}

#[test]
fn discussions_record_who_spoke() {
    let mut team = planners();
    team.engine.set_parallel_rounds(false);
    team.engine.run_discussion("task", 2);
    team.run();
    let said: Vec<&str> =
        team.engine.blackboard().transcript.iter().map(|u| u.text.as_str()).collect();
    assert_eq!(said, vec!["draft", "critique"]);
    assert!(matches!(team.engine.outcome(), Some(RunOutcome::Discussed)));
}

#[test]
fn capabilities_decide_on_resuming() {
    let caps: AgentCaps = MockAdapter::new(vec![]).caps();
    assert!(!caps.mcp);
}
