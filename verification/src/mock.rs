//! An adapter that replays replies, for runs without models.
use vstd::prelude::*;
use crate::agent::{happenings, lemma_happenings_push, AgentCaps, AgentEvent, Happening, TurnId};
use crate::conductor::AgentId;
use crate::ids::{id_text, write_id};
use crate::scan::{words, words_of};
use crate::text::texts;
use crate::turns::{next_turn_id, turn_after};

verus! {

/// An adapter that replays a list of replies.
#[derive(Debug)]
pub struct MockAdapter {
    pub responses: Vec<String>,
}

impl MockAdapter {
    pub fn new(responses: Vec<String>) -> (r: Self)
        ensures
            r.responses == responses,
    {
        MockAdapter { responses }
    }

    pub fn caps(&self) -> (r: AgentCaps)
        ensures
            r == (AgentCaps {
                midturn_injection: true,
                structured_output: false,
                resumable: false,
                mcp: false,
            }),
    {
        AgentCaps { midturn_injection: true, structured_output: false, resumable: false, mcp: false }
    }
}

/// An agent's session: each turn consumes the next reply.
#[derive(Debug)]
pub struct MockSession {
    agent: AgentId,
    responses: Vec<String>,
    turn: TurnId,
}

/// What is replied when no reply is left.
pub const NO_MORE_RESPONSES: &'static str = "(mock: no more responses)";

/// A reply, word by word.
pub open spec fn word_deltas(agent: AgentId, turn: TurnId, words: Seq<Seq<char>>) -> Seq<
    Happening,
> {
    Seq::new(words.len(), |i: int| Happening::TokenDelta { agent, turn, text: words[i] + " "@ })
}

/// What a turn with a reply reports.
pub open spec fn mock_turn(agent: AgentId, turn: TurnId, reply: Seq<char>) -> Seq<Happening> {
    seq![Happening::TurnStarted { agent, turn }] + word_deltas(agent, turn, words_of(reply)) + seq![
        Happening::MessageFinal { agent, turn, text: reply },
        Happening::TurnComplete { agent, turn, cost_usd: None, token_usage: None },
    ]
}

impl MockSession {
    pub closed spec fn agent(&self) -> AgentId {
        self.agent
    }

    /// The replies that are left.
    pub closed spec fn left(&self) -> Seq<Seq<char>> {
        texts(self.responses@)
    }

    /// How many turns there were.
    pub closed spec fn turns(&self) -> TurnId {
        self.turn
    }

    pub fn new(agent: AgentId, adapter: MockAdapter) -> (r: Self)
        ensures
            r.agent() == agent,
            r.left() == texts(adapter.responses@),
            r.turns() == 0,
    {
        MockSession { agent, responses: adapter.responses, turn: 0 }
    }

    /// What the session reports when it is up.
    pub fn ready(&self) -> (r: AgentEvent)
        ensures
            r@ == (Happening::SessionReady {
                agent: self.agent(),
                native_session_id: "mock-"@ + id_text(self.agent()),
            }),
    {
        let mut native_session_id = "mock-".to_owned();
        native_session_id.append(write_id(self.agent).as_str());
        AgentEvent::SessionReady { agent: self.agent, native_session_id }
    }

    /// Takes a turn: the next reply, word by word and then whole.
    pub fn respond(&mut self) -> (r: Vec<AgentEvent>)
        ensures
            final(self).agent() == old(self).agent(),
            final(self).turns() == turn_after(old(self).turns()),
            if old(self).left().len() == 0 {
                &&& final(self).left() == old(self).left()
                &&& happenings(r@) == mock_turn(
                    old(self).agent(),
                    final(self).turns(),
                    NO_MORE_RESPONSES@,
                )
            } else {
                &&& final(self).left() == old(self).left().skip(1)
                &&& happenings(r@) == mock_turn(
                    old(self).agent(),
                    final(self).turns(),
                    old(self).left()[0],
                )
            },
    {
        self.turn = next_turn_id(self.turn);
        let agent = self.agent;
        let turn = self.turn;
        let ghost before = self.responses@;
        proof {
            assert(texts(before).len() == before.len());
        }
        let reply = if self.responses.len() == 0 {
            NO_MORE_RESPONSES.to_owned()
        } else {
            let r = self.responses.remove(0);
            proof {
                assert(texts(self.responses@) =~= texts(before).skip(1));
            }
            r
        };
        let mut out: Vec<AgentEvent> = Vec::new();
        out.push(AgentEvent::TurnStarted { agent, turn });
        let pieces = words(reply.as_str());
        let ghost all = words_of(reply@);
        let ghost head = seq![Happening::TurnStarted { agent, turn }];
        let mut i: usize = 0;
        proof {
            assert(happenings(out@) =~= head + word_deltas(agent, turn, all).take(0));
            assert(texts(pieces@).len() == pieces@.len());
        }
        while i < pieces.len()
            invariant
                i <= pieces@.len(),
                all == texts(pieces@),
                all.len() == pieces@.len(),
                head == seq![Happening::TurnStarted { agent, turn }],
                happenings(out@) == head + word_deltas(agent, turn, all).take(i as int),
            decreases pieces@.len() - i,
        {
            let mut text = pieces[i].clone();
            text.append(" ");
            let e = AgentEvent::TokenDelta { agent, turn, text };
            proof {
                lemma_happenings_push(out@, e);
                let d = word_deltas(agent, turn, all);
                assert(d.take(i + 1) =~= d.take(i as int).push(e@));
                assert(head + d.take(i as int).push(e@) =~= (head + d.take(i as int)).push(e@));
            }
            out.push(e);
            i = i + 1;
        }
        let m = AgentEvent::MessageFinal { agent, turn, text: reply };
        let done = AgentEvent::TurnComplete { agent, turn, cost_usd: None, token_usage: None };
        proof {
            let d = word_deltas(agent, turn, all);
            assert(d.take(i as int) =~= d);
            lemma_happenings_push(out@, m);
            lemma_happenings_push(out@.push(m), done);
            assert((head + d).push(m@).push(done@) =~= mock_turn(agent, turn, reply@));
        }
        out.push(m);
        out.push(done);
        out
    }
}

} // verus!
