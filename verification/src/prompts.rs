//! The prompts that agents are sent.
use vstd::prelude::*;
use crate::blackboard::{transcript_view, Blackboard, Utterance};
use crate::changes::{handoff_text, opt_changes, LocalChangeSummary};
use crate::conductor::Role;
use crate::context::{
    bounded, bounded_context, bounded_execution_prompt_context, context_block, execution_context,
    project_context_block, shared_budget, split_context_budget,
};
use crate::scan::{blank, is_blank, trim, trimmed};
use crate::text::{join, join_texts, opt_str, texts};

verus! {

/// How much of a malformed vote is shown back to its voter.
pub const VOTE_REPAIR_PREVIEW_CHARS: usize = 1_200;

pub const VOTE_RULES: &'static str = ".\nSet needs_plan=true only if this should become a formal plan before execution; if either planner says false, Tales will proceed to executor choice without making a plan.\nReply with ONLY a JSON object, no prose and no code fence:\n{\"recommended_executor\": \"<one of: ";

pub const VOTE_OBJECT_END: &'static str = ">\", \"confidence\": <number 0.0-1.0>, \"needs_plan\": <true|false>, \"rationale\": \"<one short sentence>\"}";

pub const VOTE_REPAIR_RULES: &'static str = "\n\nReply with ONLY this JSON object, no prose and no code fence:\n{\"recommended_executor\": \"<one of: ";

pub const DRAFTER_RULES: &'static str = "\nPropose the simplest viable implementation approach, the concrete files or components you would change, and the key risks. State whether the task really needs a formal plan. Ground each claim in the code shown above when it is provided rather than guessing. Be specific and brief; no preamble. Do not write a full plan unless the task clearly needs one.";

pub const CRITIC_RULES: &'static str = "\n\nChallenge concrete problems, missing edge cases, and whether a formal plan is actually needed. If the approach is sound with no blocking issues, say so plainly instead of inventing concerns. Be specific and brief; no preamble.";

pub const DRAFTER_REVISION_RULES: &'static str = "\n\nRespond with the updated implementation argument, converging on what is already settled rather than reopening it. If a formal plan is still needed, say why; otherwise end with the concrete, executable handoff (the files to change and the order of steps).";

pub const CRITIC_REVISION_RULES: &'static str = "\n\nCritique the update: remaining problems, gaps, and whether a formal plan is necessary. If nothing now blocks execution, say so plainly so the team can move on. Be specific and brief.";

pub const DRAFTER_FULL_RULES: &'static str = "\nUpdate the implementation argument to address the critic's points, converging on what is settled rather than reopening it. If a formal plan is needed, say why; otherwise end with the concrete, executable handoff (the files to change and the order of steps).";

pub const ROUND_ONE_RULES: &'static str = "\nProduce your own concise implementation argument: simplest viable approach, the concrete files or components you would change, the risks, and whether the task needs a formal plan. Ground each claim in the code shown above when it is provided rather than guessing. Do not write a full plan unless it clearly needs one. You'll compare with the other proposal next. Bullet points are fine; no preamble.";

pub const SYNTHESIS_RULES: &'static str = "\n\nIdentify the concrete defects and missing edge cases in the competing proposal, then produce the single merged implementation recommendation. Make it concrete and executable — name the files to change and the order of steps. If either side thinks no formal plan is needed, do not write one; keep only the execution guidance. Output only the merged recommendation.";

pub const REVIEW_RULES: &'static str = "\n\nAdversarially review the competing proposal: list its concrete problems, risks, missing edge cases, and whether a formal plan is actually needed. If it is sound with no blocking issues, say so plainly. Be specific and brief.";

pub const EXECUTION_RULES: &'static str = "Implement it now. If the discussion or execution packet says both planners requested a formal plan, write that concise plan first and ask the user before editing; otherwise proceed directly. Use your file-writing tool (Write/Edit) to create every file — it creates parent directories automatically, so do NOT use shell commands like mkdir. Create all the files the task needs for in this turn. When finished, briefly summarize what you wrote.";

pub const SESSION_EXECUTION: &'static str = "\n\nUse the discussion already in your session memory; do not make a formal plan unless both planners explicitly requested one.\n";

// ---- Voting ----------------------------------------------------------------

/// What a voter is told of the discussion. One that resumes its session is told
/// nothing again.
pub open spec fn vote_discussion(resumable: bool, planning_context: Seq<char>) -> Seq<char> {
    if resumable {
        "Use the discussion already in this session."@
    } else if is_blank(planning_context) {
        "No discussion context is available yet."@
    } else {
        "Discussion context:\n"@ + trim(planning_context)
    }
}

fn write_vote_discussion(resumable: bool, planning_context: &str) -> (r: String)
    ensures
        r@ == vote_discussion(resumable, planning_context@),
{
    if resumable {
        "Use the discussion already in this session.".to_owned()
    } else if blank(planning_context) {
        "No discussion context is available yet.".to_owned()
    } else {
        let mut out = "Discussion context:\n".to_owned();
        out.append(trimmed(planning_context).as_str());
        out
    }
}

/// The prompt that asks for a vote.
pub open spec fn vote_prompt(
    task: Seq<char>,
    candidates: Seq<Seq<char>>,
    resumable: bool,
    planning_context: Seq<char>,
) -> Seq<char> {
    "Based on our discussion of the task:\n"@ + task + "\n\n"@ + vote_discussion(
        resumable,
        planning_context,
    ) + "\n\nWhich agent should execute this? Candidates: "@ + join(candidates, ", "@)
        + VOTE_RULES@ + join(candidates, " | "@) + VOTE_OBJECT_END@
}

/// Prompt asking an agent to nominate an executor as a JSON object.
pub fn compose_vote_prompt(
    task: &str,
    candidates: &Vec<String>,
    resumable: bool,
    planning_context: &str,
) -> (r: String)
    ensures
        r@ == vote_prompt(task@, texts(candidates@), resumable, planning_context@),
{
    let mut out = "Based on our discussion of the task:\n".to_owned();
    out.append(task);
    out.append("\n\n");
    out.append(write_vote_discussion(resumable, planning_context).as_str());
    out.append("\n\nWhich agent should execute this? Candidates: ");
    out.append(join_texts(candidates, ", ").as_str());
    out.append(VOTE_RULES);
    out.append(join_texts(candidates, " | ").as_str());
    out.append(VOTE_OBJECT_END);
    out
}

/// The prompt that asks for a malformed vote again.
pub open spec fn vote_repair_prompt(
    task: Seq<char>,
    candidates: Seq<Seq<char>>,
    resumable: bool,
    planning_context: Seq<char>,
    previous: Seq<char>,
) -> Seq<char> {
    "Your previous executor vote was not valid JSON.\nTask: "@ + task + "\n\n"@ + vote_discussion(
        resumable,
        planning_context,
    ) + "\n\nPrevious response, for reference:\n"@ + bounded(
        previous,
        Some(VOTE_REPAIR_PREVIEW_CHARS),
    ) + VOTE_REPAIR_RULES@ + join(candidates, " | "@) + VOTE_OBJECT_END@
}

/// One-shot repair prompt for a malformed vote.
pub fn compose_vote_repair_prompt(
    task: &str,
    candidates: &Vec<String>,
    resumable: bool,
    planning_context: &str,
    previous_response: &str,
) -> (r: String)
    ensures
        r@ == vote_repair_prompt(
            task@,
            texts(candidates@),
            resumable,
            planning_context@,
            previous_response@,
        ),
{
    let mut out = "Your previous executor vote was not valid JSON.\nTask: ".to_owned();
    out.append(task);
    out.append("\n\n");
    out.append(write_vote_discussion(resumable, planning_context).as_str());
    out.append("\n\nPrevious response, for reference:\n");
    out.append(bounded_context(previous_response, Some(VOTE_REPAIR_PREVIEW_CHARS)).as_str());
    out.append(VOTE_REPAIR_RULES);
    out.append(join_texts(candidates, " | ").as_str());
    out.append(VOTE_OBJECT_END);
    out
}

// ---- Execution -------------------------------------------------------------

/// What an executor with the session in memory is told of local changes.
pub open spec fn change_note(changes: Option<LocalChangeSummary>) -> Seq<char> {
    match changes {
        Some(c) => "\n\n"@ + bounded(handoff_text(c), Some(2_000)) + "\n"@,
        None => Seq::empty(),
    }
}

/// The prompt that starts the execution.
pub open spec fn execution_prompt(
    task: Seq<char>,
    plan: Seq<char>,
    has_session_plan: bool,
    budget: Option<usize>,
    changes: Option<LocalChangeSummary>,
) -> Seq<char> {
    if has_session_plan {
        "You are now EXECUTING from the team discussion in this session.\nTask: "@ + task
            + SESSION_EXECUTION@ + change_note(changes) + EXECUTION_RULES@
    } else {
        "You are now EXECUTING from the team discussion.\nTask: "@ + task + "\n\nDiscussion:\n"@
            + execution_context(plan, budget) + "\n"@ + EXECUTION_RULES@
    }
}

/// Build the execution prompt. An executor that was a resumable planner has the
/// debate in its session; any other is given the plan.
pub fn compose_execution_prompt(
    task: &str,
    plan: &str,
    has_session_plan: bool,
    context_budget_chars: Option<usize>,
    local_changes: Option<&LocalChangeSummary>,
) -> (r: String)
    ensures
        r@ == execution_prompt(
            task@,
            plan@,
            has_session_plan,
            context_budget_chars,
            opt_changes(local_changes),
        ),
{
    if has_session_plan {
        let note = match local_changes {
            Some(c) => {
                let mut s = "\n\n".to_owned();
                s.append(bounded_context(c.to_handoff_text().as_str(), Some(2_000)).as_str());
                s.append("\n");
                s
            },
            None => String::new(),
        };
        let mut out =
            "You are now EXECUTING from the team discussion in this session.\nTask: ".to_owned();
        out.append(task);
        out.append(SESSION_EXECUTION);
        out.append(note.as_str());
        out.append(EXECUTION_RULES);
        out
    } else {
        let mut out = "You are now EXECUTING from the team discussion.\nTask: ".to_owned();
        out.append(task);
        out.append("\n\nDiscussion:\n");
        out.append(bounded_execution_prompt_context(plan, context_budget_chars).as_str());
        out.append("\n");
        out.append(EXECUTION_RULES);
        out
    }
}

// ---- Planning in turns -----------------------------------------------------

/// The drafter's first prompt.
pub open spec fn drafter_prompt(task: Seq<char>, block: Seq<char>) -> Seq<char> {
    "You are the DRAFTER in an implementation discussion with a critic.\nTask: "@ + task + "\n"@
        + block + DRAFTER_RULES@
}

/// The DRAFTER role intro for a planner's first turn. `block` is the project
/// context as a block, or empty.
pub fn drafter_intro(task: &str, block: &str) -> (r: String)
    ensures
        r@ == drafter_prompt(task@, block@),
{
    let mut out =
        "You are the DRAFTER in an implementation discussion with a critic.\nTask: ".to_owned();
    out.append(task);
    out.append("\n");
    out.append(block);
    out.append(DRAFTER_RULES);
    out
}

/// The critic's first prompt.
pub open spec fn critic_prompt(task: Seq<char>, block: Seq<char>, draft: Seq<char>) -> Seq<char> {
    "You are the CRITIC reviewing an implementation approach.\nTask: "@ + task + "\n\n"@ + block
        + "Latest draft:\n"@ + draft + CRITIC_RULES@
}

/// The CRITIC role intro reviewing a `draft`.
pub fn critic_intro(task: &str, block: &str, draft: &str) -> (r: String)
    ensures
        r@ == critic_prompt(task@, block@, draft@),
{
    let mut out = "You are the CRITIC reviewing an implementation approach.\nTask: ".to_owned();
    out.append(task);
    out.append("\n\n");
    out.append(block);
    out.append("Latest draft:\n");
    out.append(draft);
    out.append(CRITIC_RULES);
    out
}

/// The prompt for an agent without a memory of its own.
pub open spec fn full_prompt(
    role: Role,
    task: Seq<char>,
    t: Seq<Utterance>,
    budget: Option<usize>,
    project: Option<Seq<char>>,
) -> Seq<char> {
    match role {
        Role::Drafter => if t.len() == 0 {
            drafter_prompt(task, context_block(project, budget))
        } else {
            "You are the DRAFTER. Task: "@ + task + "\n\n"@ + context_block(project, budget)
                + "Discussion so far:\n"@ + bounded(transcript_view(t), budget)
                + DRAFTER_FULL_RULES@
        },
        Role::Critic => critic_prompt(
            task,
            context_block(project, budget),
            if t.len() == 0 {
                "(no draft yet)"@
            } else {
                bounded(t.last().text@, budget)
            },
        ),
        Role::Human | Role::Executor => task,
    }
}

/// The full-context prompt: re-sends the discussion and restates the role.
pub fn compose_prompt_full(
    role: Role,
    task: &str,
    bb: &Blackboard,
    context_budget_chars: Option<usize>,
    project_context: Option<&str>,
) -> (r: String)
    ensures
        r@ == full_prompt(
            role,
            task@,
            bb.transcript@,
            context_budget_chars,
            opt_str(project_context),
        ),
{
    match role {
        Role::Drafter => {
            let block = project_context_block(project_context, context_budget_chars);
            if bb.transcript.is_empty() {
                return drafter_intro(task, block.as_str());
            }
            let mut out = "You are the DRAFTER. Task: ".to_owned();
            out.append(task);
            out.append("\n\n");
            out.append(block.as_str());
            out.append("Discussion so far:\n");
            out.append(
                bounded_context(bb.transcript_text().as_str(), context_budget_chars).as_str(),
            );
            out.append(DRAFTER_FULL_RULES);
            out
        },
        Role::Critic => {
            let latest = match bb.last_text() {
                Some(text) => bounded_context(text, context_budget_chars),
                None => "(no draft yet)".to_owned(),
            };
            let block = project_context_block(project_context, context_budget_chars);
            critic_intro(task, block.as_str(), latest.as_str())
        },
        Role::Human | Role::Executor => task.to_owned(),
    }
}

/// The prompt for a planning turn: to an agent that resumes its session the
/// role once and then only what is new, to any other the whole discussion.
pub open spec fn turn_prompt(
    role: Role,
    task: Seq<char>,
    t: Seq<Utterance>,
    resumable: bool,
    delta: Seq<char>,
    first_time: bool,
    budget: Option<usize>,
    project: Option<Seq<char>>,
) -> Seq<char> {
    let orientation = if first_time {
        project
    } else {
        None
    };
    if !resumable {
        full_prompt(role, task, t, budget, orientation)
    } else {
        let news = bounded(delta, budget);
        match role {
            Role::Drafter => if first_time {
                drafter_prompt(task, context_block(orientation, budget))
            } else {
                "The critic responded:\n"@ + news + DRAFTER_REVISION_RULES@
            },
            Role::Critic => if first_time {
                critic_prompt(task, context_block(orientation, budget), news)
            } else {
                "The drafter revised:\n"@ + news + CRITIC_REVISION_RULES@
            },
            Role::Human | Role::Executor => task,
        }
    }
}

/// Build the prompt for a sequential planning turn.
pub fn compose_prompt(
    role: Role,
    task: &str,
    bb: &Blackboard,
    resumable: bool,
    delta: &str,
    first_time: bool,
    context_budget_chars: Option<usize>,
    project_context: Option<&str>,
) -> (r: String)
    ensures
        r@ == turn_prompt(
            role,
            task@,
            bb.transcript@,
            resumable,
            delta@,
            first_time,
            context_budget_chars,
            opt_str(project_context),
        ),
{
    let orientation = if first_time {
        project_context
    } else {
        None
    };
    if !resumable {
        return compose_prompt_full(role, task, bb, context_budget_chars, orientation);
    }
    let news = bounded_context(delta, context_budget_chars);
    match role {
        Role::Drafter => if first_time {
            let block = project_context_block(orientation, context_budget_chars);
            drafter_intro(task, block.as_str())
        } else {
            let mut out = "The critic responded:\n".to_owned();
            out.append(news.as_str());
            out.append(DRAFTER_REVISION_RULES);
            out
        },
        Role::Critic => if first_time {
            let block = project_context_block(orientation, context_budget_chars);
            critic_intro(task, block.as_str(), news.as_str())
        } else {
            let mut out = "The drafter revised:\n".to_owned();
            out.append(news.as_str());
            out.append(CRITIC_REVISION_RULES);
            out
        },
        Role::Human | Role::Executor => task.to_owned(),
    }
}

// ---- Planning in rounds ----------------------------------------------------

/// The prompt of the first parallel round.
pub open spec fn round_one_prompt(
    task: Seq<char>,
    project: Option<Seq<char>>,
    budget: Option<usize>,
) -> Seq<char> {
    "You are one of two expert implementers discussing the SAME task in parallel.\nTask: "@ + task
        + "\n"@ + context_block(project, budget) + ROUND_ONE_RULES@
}

/// Round-1 prompt for the parallel path: each planner drafts independently.
pub fn compose_round1_prompt(
    task: &str,
    project_context: Option<&str>,
    context_budget_chars: Option<usize>,
) -> (r: String)
    ensures
        r@ == round_one_prompt(task@, opt_str(project_context), context_budget_chars),
{
    let mut out =
        "You are one of two expert implementers discussing the SAME task in parallel.\nTask: ".to_owned();
    out.append(task);
    out.append("\n");
    out.append(project_context_block(project_context, context_budget_chars).as_str());
    out.append(ROUND_ONE_RULES);
    out
}

/// Whether a planner is shown its own proposal again.
pub open spec fn shows_own(resumable: bool, own: Seq<char>) -> bool {
    !resumable && !is_blank(own)
}

/// The proposals a planner is shown; two of them share the budget.
pub open spec fn proposals(
    others: Seq<char>,
    resumable: bool,
    own: Seq<char>,
    budget: Option<usize>,
) -> Seq<char> {
    if shows_own(resumable, own) {
        let share = shared_budget(budget, 2);
        "Your proposal:\n"@ + trim(bounded(own, share)) + "\n\nThe other planner proposed:\n"@ + trim(
            bounded(others, share),
        )
    } else {
        "The other planner proposed:\n"@ + trim(bounded(others, budget))
    }
}

/// The prompt of a later parallel round.
pub open spec fn round_prompt(
    task: Seq<char>,
    others: Seq<char>,
    synthesize: bool,
    resumable: bool,
    own: Seq<char>,
    budget: Option<usize>,
) -> Seq<char> {
    "Task: "@ + task + "\n\n"@ + proposals(others, resumable, own, budget) + (if synthesize {
        SYNTHESIS_RULES@
    } else {
        REVIEW_RULES@
    })
}

/// Round-2+ prompt for the parallel path. The synthesizer merges into one plan;
/// the other planner reviews.
pub fn compose_round_synth_prompt(
    task: &str,
    others: &str,
    synthesize: bool,
    resumable: bool,
    own: &str,
    context_budget_chars: Option<usize>,
) -> (r: String)
    ensures
        r@ == round_prompt(task@, others@, synthesize, resumable, own@, context_budget_chars),
{
    let mut shown = String::new();
    if !resumable && !blank(own) {
        let share = split_context_budget(context_budget_chars, 2);
        let mine = bounded_context(own, share);
        let theirs = bounded_context(others, share);
        shown = "Your proposal:\n".to_owned();
        shown.append(trimmed(mine.as_str()).as_str());
        shown.append("\n\nThe other planner proposed:\n");
        shown.append(trimmed(theirs.as_str()).as_str());
    } else {
        let theirs = bounded_context(others, context_budget_chars);
        shown = "The other planner proposed:\n".to_owned();
        shown.append(trimmed(theirs.as_str()).as_str());
    }
    let mut out = "Task: ".to_owned();
    out.append(task);
    out.append("\n\n");
    out.append(shown.as_str());
    if synthesize {
        out.append(SYNTHESIS_RULES);
    } else {
        out.append(REVIEW_RULES);
    }
    out
}

// ---- Laws ------------------------------------------------------------------

/// What an agent that resumes its session is sent does not depend on the
/// discussion so far, only on what is new: on its first turn with the project
/// context, on a later one without.
pub proof fn law_resumable_turns_send_only_news(
    role: Role,
    task: Seq<char>,
    a: Seq<Utterance>,
    b: Seq<Utterance>,
    delta: Seq<char>,
    budget: Option<usize>,
    p: Option<Seq<char>>,
    q: Option<Seq<char>>,
)
    ensures
        turn_prompt(role, task, a, true, delta, true, budget, p) == turn_prompt(
            role,
            task,
            b,
            true,
            delta,
            true,
            budget,
            p,
        ),
        turn_prompt(role, task, a, true, delta, false, budget, p) == turn_prompt(
            role,
            task,
            b,
            true,
            delta,
            false,
            budget,
            q,
        ),
{
}

/// The project context goes into an agent's first prompt only: later ones do
/// not depend on it.
pub proof fn law_project_context_only_once(
    role: Role,
    task: Seq<char>,
    t: Seq<Utterance>,
    resumable: bool,
    delta: Seq<char>,
    budget: Option<usize>,
    p: Option<Seq<char>>,
    q: Option<Seq<char>>,
)
    ensures
        turn_prompt(role, task, t, resumable, delta, false, budget, p) == turn_prompt(
            role,
            task,
            t,
            resumable,
            delta,
            false,
            budget,
            q,
        ),
{
}

/// The prompts to an executor that was a resumable planner do not carry the
/// plan again, whatever room there would be for it.
pub proof fn law_session_execution_omits_plan(
    task: Seq<char>,
    a: Seq<char>,
    b: Seq<char>,
    small: Option<usize>,
    large: Option<usize>,
    changes: Option<LocalChangeSummary>,
)
    ensures
        execution_prompt(task, a, true, small, changes) == execution_prompt(
            task,
            b,
            true,
            large,
            changes,
        ),
{
}

} // verus!
