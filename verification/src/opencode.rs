//! The adapter for the `opencode` command.
use vstd::prelude::*;
use crate::agent::{kind_caps, AgentCaps, SpawnCtx, TurnId};
use crate::registry::AdapterKind;
use crate::scan::trim;
use crate::text::{opt_text, texts};
use crate::turns::{folded, next_turn_id, turn_after, Inbox, PlainReply};

verus! {

/// Adapter for the `opencode` command.
pub struct OpenCodeAdapter {
    bin: String,
}

impl View for OpenCodeAdapter {
    type V = Seq<char>;

    closed spec fn view(&self) -> Seq<char> {
        self.bin@
    }
}

impl OpenCodeAdapter {
    pub fn new() -> (r: Self)
        ensures
            r@ == "opencode"@,
    {
        OpenCodeAdapter { bin: "opencode".to_owned() }
    }

    /// An adapter that runs another command.
    pub fn with_bin(bin: String) -> (r: Self)
        ensures
            r@ == bin@,
    {
        OpenCodeAdapter { bin }
    }

    /// The command that the adapter runs.
    pub fn bin(&self) -> (r: &str)
        ensures
            r@ == self@,
    {
        self.bin.as_str()
    }

    pub fn caps(&self) -> (r: AgentCaps)
        ensures
            r == kind_caps(AdapterKind::OpenCode),
    {
        AgentCaps {
            midturn_injection: false,
            structured_output: false,
            resumable: true,
            mcp: true,
        }
    }
}

impl Default for OpenCodeAdapter {
    fn default() -> (r: Self)
        ensures
            r@ == "opencode"@,
    {
        OpenCodeAdapter::new()
    }
}

/// An agent's session: one `opencode run` per turn, going on with the session of
/// the directory once a turn succeeded.
#[derive(Debug)]
pub struct OpenCodeSession {
    pub ctx: SpawnCtx,
    /// Whether a turn succeeded, so that later ones go on with its session.
    pub started_session: bool,
    pub turn: TurnId,
    pub inbox: Inbox,
}

/// The arguments of a turn.
pub open spec fn opencode_args(
    started: bool,
    model: Option<Seq<char>>,
    prompt: Seq<char>,
) -> Seq<Seq<char>> {
    seq!["run"@] + (if started {
        seq!["--continue"@]
    } else {
        Seq::empty()
    }) + (match model {
        Some(m) => seq!["--model"@, m],
        None => Seq::empty(),
    }) + seq![prompt]
}

impl OpenCodeSession {
    pub fn new(ctx: SpawnCtx) -> (r: Self)
        ensures
            r.ctx == ctx,
            !r.started_session,
            r.turn == 0,
            texts(r.inbox.pending@) == Seq::<Seq<char>>::empty(),
    {
        OpenCodeSession { ctx, started_session: false, turn: 0, inbox: Inbox::new() }
    }

    /// The arguments of a turn.
    pub fn build_args(&self, prompt: &str) -> (r: Vec<String>)
        ensures
            texts(r@) == opencode_args(self.started_session, opt_text(self.ctx.model), prompt@),
    {
        let mut args: Vec<String> = Vec::new();
        args.push("run".to_owned());
        if self.started_session {
            args.push("--continue".to_owned());
        }
        if let Some(model) = &self.ctx.model {
            args.push("--model".to_owned());
            args.push(model.clone());
        }
        args.push(prompt.to_owned());
        proof {
            assert(texts(args@) =~= opencode_args(
                self.started_session,
                opt_text(self.ctx.model),
                prompt@,
            ));
        }
        args
    }

    /// Begins a turn with a prompt and the notes that wait for it.
    pub fn begin_turn(&mut self, prompt: String) -> (r: Vec<String>)
        ensures
            final(self).ctx == old(self).ctx,
            final(self).started_session == old(self).started_session,
            final(self).turn == turn_after(old(self).turn),
            texts(final(self).inbox.pending@) == Seq::<Seq<char>>::empty(),
            texts(r@) == opencode_args(
                old(self).started_session,
                opt_text(old(self).ctx.model),
                folded(texts(old(self).inbox.pending@), prompt@),
            ),
    {
        let full = self.inbox.fold_prompt(prompt);
        self.turn = next_turn_id(self.turn);
        self.build_args(full.as_str())
    }

    /// Ends a turn. Only one that succeeded and printed something leaves a
    /// session to go on with.
    pub fn end_turn(&mut self, reply: &PlainReply, code: Option<i32>)
        ensures
            final(self).ctx == old(self).ctx,
            final(self).turn == old(self).turn,
            final(self).inbox == old(self).inbox,
            final(self).started_session == (old(self).started_session || (code == Some(0i32)
                && trim(reply@).len() > 0)),
    {
        let ok = match code {
            Some(c) => c == 0,
            None => false,
        };
        if ok && reply.has_text() {
            self.started_session = true;
        }
    }
}

} // verus!
