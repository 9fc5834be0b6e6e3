//! Turn-taking: who speaks next in the discussion.
use vstd::prelude::*;
use crate::blackboard::Blackboard;

verus! {

/// What an agent is known by: the 128 bits of its unique identifier.
pub type AgentId = u128;

/// The part a participant plays in the discussion.
#[derive(Clone, Copy, Debug, PartialEq, Eq, Structural)]
pub enum Role {
    /// Proposes and revises the plan/solution.
    Drafter,
    /// Critiques the draft and asks clarifying questions.
    Critic,
    /// The human-in-the-loop, interjecting into the conversation.
    Human,
    /// Sits out the discussion and carries out what was agreed.
    Executor,
}

/// The name of a role.
pub open spec fn role_name(r: Role) -> Seq<char> {
    match r {
        Role::Drafter => "Drafter"@,
        Role::Critic => "Critic"@,
        Role::Human => "Human"@,
        Role::Executor => "Executor"@,
    }
}

/// Whether a role takes part in planning.
pub open spec fn plans(r: Role) -> bool {
    r == Role::Drafter || r == Role::Critic
}

impl Role {
    /// The name of the role.
    pub fn name(self) -> (r: &'static str)
        ensures
            r@ == role_name(self),
    {
        match self {
            Role::Drafter => "Drafter",
            Role::Critic => "Critic",
            Role::Human => "Human",
            Role::Executor => "Executor",
        }
    }

    /// Whether the role takes part in planning.
    pub fn is_planner(self) -> (r: bool)
        ensures
            r == plans(self),
    {
        matches!(self, Role::Drafter | Role::Critic)
    }
}

/// An agent enrolled in the discussion.
#[derive(Debug)]
pub struct RosterEntry {
    pub agent: AgentId,
    pub label: String,
    pub role: Role,
}

impl Clone for RosterEntry {
    fn clone(&self) -> (r: Self)
        ensures
            r == *self,
    {
        RosterEntry { agent: self.agent, label: self.label.clone(), role: self.role }
    }
}

/// The conductor's decision for the next step.
#[derive(Debug)]
pub struct TurnPlan {
    pub agent: AgentId,
    pub label: String,
    pub role: Role,
}

/// Decides who speaks next, or `None` to end the discussion.
pub trait Conductor {
    fn next_turn(&mut self, blackboard: &Blackboard) -> Option<TurnPlan>;
}

/// Deterministic round-robin over the roster for a fixed number of turns.
pub struct RuleConductor {
    roster: Vec<RosterEntry>,
    max_turns: usize,
    taken: usize,
}

impl RuleConductor {
    /// The agents that take turns, in order.
    pub closed spec fn roster(&self) -> Seq<RosterEntry> {
        self.roster@
    }

    /// How many turns there are in all.
    pub closed spec fn max_turns(&self) -> nat {
        self.max_turns as nat
    }

    /// How many turns were given out.
    pub closed spec fn taken(&self) -> nat {
        self.taken as nat
    }

    pub fn new(roster: Vec<RosterEntry>, max_turns: usize) -> (r: Self)
        ensures
            r.roster() == roster@,
            r.max_turns() == max_turns,
            r.taken() == 0,
    {
        RuleConductor { roster, max_turns, taken: 0 }
    }

    /// Whether there is another turn.
    pub fn has_next(&self) -> (r: bool)
        ensures
            r == has_turn(self.roster(), self.max_turns(), self.taken()),
    {
        !self.roster.is_empty() && self.taken < self.max_turns
    }
}

/// The entry whose turn it is after `taken` turns.
pub open spec fn entry_at(roster: Seq<RosterEntry>, taken: nat) -> RosterEntry {
    roster[(taken % roster.len()) as int]
}

/// Whether there is another turn.
pub open spec fn has_turn(roster: Seq<RosterEntry>, max_turns: nat, taken: nat) -> bool {
    roster.len() > 0 && taken < max_turns
}

impl Conductor for RuleConductor {
    fn next_turn(&mut self, _blackboard: &Blackboard) -> (r: Option<TurnPlan>)
        ensures
            final(self).roster() == old(self).roster(),
            final(self).max_turns() == old(self).max_turns(),
            r.is_some() == has_turn(old(self).roster(), old(self).max_turns(), old(self).taken()),
            match r {
                Some(plan) => {
                    let entry = entry_at(old(self).roster(), old(self).taken());
                    &&& plan.agent == entry.agent
                    &&& plan.label == entry.label
                    &&& plan.role == entry.role
                    &&& final(self).taken() == old(self).taken() + 1
                },
                None => final(self).taken() == old(self).taken(),
            },
    {
        if self.roster.is_empty() || self.taken >= self.max_turns {
            return None;
        }
        let i: usize = self.taken % self.roster.len();
        let plan = TurnPlan {
            agent: self.roster[i].agent,
            label: self.roster[i].label.clone(),
            role: self.roster[i].role,
        };
        self.taken = self.taken + 1;
        Some(plan)
    }
}

/// Over as many turns in a row as the roster has entries, every entry speaks
/// once: the one at place `i` after as many turns as bring the count to `i`.
pub proof fn law_round_robin_is_fair(roster: Seq<RosterEntry>, round: nat, i: nat)
    requires
        i < roster.len(),
    ensures
        entry_at(roster, round * roster.len() + i) == roster[i as int],
{
    vstd::arithmetic::div_mod::lemma_fundamental_div_mod_converse_mod(
        (round * roster.len() + i) as int,
        roster.len() as int,
        round as int,
        i as int,
    );
}

} // verus!
