//! What the adapters that run one process per turn have in common.
use vstd::prelude::*;
use crate::agent::{happenings, lemma_happenings_push, AgentEvent, Happening, TurnId};
use crate::conductor::AgentId;
use crate::scan::{trim, trimmed};
use crate::text::{flat, lemma_flat_push, texts};

verus! {

/// A note as it stands before a prompt.
pub open spec fn note_piece(note: Seq<char>) -> Seq<char> {
    "[note from orchestrator] "@ + note + "\n\n"@
}

/// A prompt behind the notes that wait for it.
pub open spec fn folded(pending: Seq<Seq<char>>, prompt: Seq<char>) -> Seq<char> {
    flat(Seq::new(pending.len(), |i: int| note_piece(pending[i]))) + prompt
}

/// Notes that came in between turns.
#[derive(Debug)]
pub struct Inbox {
    pub pending: Vec<String>,
}

impl Inbox {
    pub fn new() -> (r: Self)
        ensures
            texts(r.pending@) == Seq::<Seq<char>>::empty(),
    {
        let r = Inbox { pending: Vec::new() };
        proof {
            assert(texts(r.pending@) =~= Seq::empty());
        }
        r
    }

    /// Keeps a note for the next turn.
    pub fn inject(&mut self, note: String)
        ensures
            texts(final(self).pending@) == texts(old(self).pending@).push(note@),
    {
        proof {
            crate::text::lemma_texts_push(self.pending@, note);
        }
        self.pending.push(note);
    }

    /// Puts the notes that wait before a prompt. None waits after that.
    pub fn fold_prompt(&mut self, prompt: String) -> (r: String)
        ensures
            r@ == folded(texts(old(self).pending@), prompt@),
            texts(final(self).pending@) == Seq::<Seq<char>>::empty(),
    {
        let mut notes: Vec<String> = Vec::new();
        std::mem::swap(&mut notes, &mut self.pending);
        let ghost all = texts(notes@);
        let ghost one = |i: int| note_piece(all[i]);
        let mut buf = String::new();
        let mut i: usize = 0;
        proof {
            assert(texts(self.pending@) =~= Seq::empty());
            assert(flat(Seq::new(0, one)) =~= Seq::empty());
        }
        while i < notes.len()
            invariant
                i <= notes@.len(),
                all == texts(notes@),
                one == (|i: int| note_piece(all[i])),
                buf@ == flat(Seq::new(i as nat, one)),
            decreases notes@.len() - i,
        {
            proof {
                let done = Seq::new(i as nat, one);
                lemma_flat_push(done, one(i as int));
                assert(Seq::new((i + 1) as nat, one) =~= done.push(one(i as int)));
                assert(flat(done) + note_piece(all[i as int]) =~= buf@
                    + "[note from orchestrator] "@ + all[i as int] + "\n\n"@);
            }
            buf.append("[note from orchestrator] ");
            buf.append(notes[i].as_str());
            buf.append("\n\n");
            i = i + 1;
        }
        proof {
            assert(Seq::new(i as nat, one) =~= Seq::new(all.len(), |k: int| note_piece(all[k])));
        }
        buf.append(prompt.as_str());
        buf
    }
}

/// A prompt for which no note waits stays as it is.
pub proof fn law_no_notes_no_change(prompt: Seq<char>)
    ensures
        folded(Seq::empty(), prompt) == prompt,
{
    let none = Seq::<Seq<char>>::empty();
    assert(Seq::new(none.len(), |i: int| note_piece(none[i])) =~= Seq::<Seq<char>>::empty());
    assert(Seq::<char>::empty() + prompt =~= prompt);
}

/// The next turn's number. It stops at the largest there is.
pub open spec fn turn_after(turn: TurnId) -> TurnId {
    if turn == u64::MAX {
        u64::MAX
    } else {
        (turn + 1) as u64
    }
}

pub fn next_turn_id(turn: TurnId) -> (r: TurnId)
    ensures
        r == turn_after(turn),
{
    if turn == u64::MAX {
        turn
    } else {
        turn + 1
    }
}

/// What is reported where a command does not start.
pub fn spawn_failure(agent: AgentId, bin: &str, reason: &str) -> (r: AgentEvent)
    ensures
        r@ == (Happening::Error {
            agent,
            message: "failed to spawn "@ + bin@ + ": "@ + reason@,
            fatal: true,
        }),
{
    let mut message = "failed to spawn ".to_owned();
    message.append(bin);
    message.append(": ");
    message.append(reason);
    AgentEvent::Error { agent, message, fatal: true }
}

// ---- Commands that print their reply -------------------------------------------

/// A reply that is printed line by line.
#[derive(Debug)]
pub struct PlainReply {
    full: String,
}

/// What a reply that was printed reports at its end: the whole reply, where it
/// is not blank, and that the turn is over.
pub open spec fn reply_end(agent: AgentId, turn: TurnId, text: Seq<char>) -> Seq<Happening> {
    (if trim(text).len() == 0 {
        Seq::empty()
    } else {
        seq![Happening::MessageFinal { agent, turn, text: trim(text) }]
    }).push(Happening::TurnComplete { agent, turn, cost_usd: None, token_usage: None })
}

impl View for PlainReply {
    type V = Seq<char>;

    closed spec fn view(&self) -> Seq<char> {
        self.full@
    }
}

impl PlainReply {
    pub fn new() -> (r: Self)
        ensures
            r@ == Seq::<char>::empty(),
    {
        PlainReply { full: String::new() }
    }

    /// Takes in a line, and passes it on.
    pub fn line(&mut self, agent: AgentId, turn: TurnId, line: &str) -> (r: AgentEvent)
        ensures
            final(self)@ == old(self)@ + line@ + "\n"@,
            r@ == (Happening::TokenDelta { agent, turn, text: line@ + "\n"@ }),
    {
        self.full.append(line);
        self.full.append("\n");
        let mut text = line.to_owned();
        text.append("\n");
        AgentEvent::TokenDelta { agent, turn, text }
    }

    /// Whether anything was printed but white space.
    pub fn has_text(&self) -> (r: bool)
        ensures
            r == (trim(self@).len() > 0),
    {
        trimmed(self.full.as_str()).as_str().unicode_len() > 0
    }

    /// The end of the reply.
    pub fn finish(&self, agent: AgentId, turn: TurnId) -> (r: Vec<AgentEvent>)
        ensures
            happenings(r@) == reply_end(agent, turn, self@),
    {
        let mut out: Vec<AgentEvent> = Vec::new();
        proof {
            assert(happenings(out@) =~= Seq::empty());
        }
        let text = trimmed(self.full.as_str());
        if text.as_str().unicode_len() > 0 {
            let m = AgentEvent::MessageFinal { agent, turn, text };
            proof {
                lemma_happenings_push(out@, m);
                assert(happenings(out@).push(m@) =~= seq![m@]);
            }
            out.push(m);
        }
        let done = AgentEvent::TurnComplete { agent, turn, cost_usd: None, token_usage: None };
        proof {
            lemma_happenings_push(out@, done);
        }
        out.push(done);
        out
    }
}

/// Whatever a command prints, its turn ends, and with the end of the turn.
pub proof fn law_printed_turns_end(agent: AgentId, turn: TurnId, text: Seq<char>)
    ensures
        reply_end(agent, turn, text).len() > 0,
        reply_end(agent, turn, text).last() is TurnComplete,
{
}

} // verus!
