//! The adapter for any command that prints its reply.
use vstd::prelude::*;
use crate::agent::{kind_caps, AgentCaps, SpawnCtx, TurnId};
use crate::registry::{AdapterKind, ToolInfo, ToolRow};
use crate::text::{copy_texts, opt_text, texts};
use crate::turns::{folded, next_turn_id, turn_after, Inbox};

verus! {

/// How to run one turn of a command.
#[derive(Debug)]
pub struct GenericSpec {
    pub bin: String,
    /// Fixed arguments before the model and the prompt.
    pub run_args: Vec<String>,
    /// The flag that chooses a model, or nothing.
    pub model_flag: String,
    /// The flag before the prompt, or nothing.
    pub prompt_flag: String,
}

/// How to run one turn of a command, as a value.
pub struct GenericView {
    pub bin: Seq<char>,
    pub run_args: Seq<Seq<char>>,
    pub model_flag: Seq<char>,
    pub prompt_flag: Seq<char>,
}

impl View for GenericSpec {
    type V = GenericView;

    open spec fn view(&self) -> GenericView {
        GenericView {
            bin: self.bin@,
            run_args: texts(self.run_args@),
            model_flag: self.model_flag@,
            prompt_flag: self.prompt_flag@,
        }
    }
}

impl Clone for GenericSpec {
    fn clone(&self) -> (r: Self)
        ensures
            r@ == self@,
    {
        GenericSpec {
            bin: self.bin.clone(),
            run_args: copy_texts(&self.run_args),
            model_flag: self.model_flag.clone(),
            prompt_flag: self.prompt_flag.clone(),
        }
    }
}

/// How a row says that its command is run.
pub open spec fn generic_spec(row: ToolRow) -> GenericView {
    GenericView {
        bin: row.bin,
        run_args: row.run_args,
        model_flag: row.model_flag,
        prompt_flag: row.prompt_flag,
    }
}

/// Adapter for any command that takes a prompt and prints its reply.
#[derive(Debug)]
pub struct GenericAdapter {
    pub invocation: GenericSpec,
}

impl View for GenericAdapter {
    type V = GenericView;

    open spec fn view(&self) -> GenericView {
        self.invocation@
    }
}

impl GenericAdapter {
    pub fn new(invocation: GenericSpec) -> (r: Self)
        ensures
            r@ == invocation@,
    {
        GenericAdapter { invocation }
    }

    /// The adapter that a registry row describes.
    pub fn from_info(info: &ToolInfo) -> (r: Self)
        ensures
            r@ == generic_spec(info@),
    {
        GenericAdapter::new(
            GenericSpec {
                bin: info.bin.to_owned(),
                run_args: copy_texts(&info.run_args),
                model_flag: info.model_flag.to_owned(),
                prompt_flag: info.prompt_flag.to_owned(),
            },
        )
    }

    pub fn caps(&self) -> (r: AgentCaps)
        ensures
            r == kind_caps(AdapterKind::Generic),
    {
        AgentCaps {
            midturn_injection: false,
            structured_output: false,
            resumable: false,
            mcp: false,
        }
    }
}

/// An agent's session: one process per turn, with nothing kept between them but
/// the notes that wait.
#[derive(Debug)]
pub struct GenericSession {
    pub invocation: GenericSpec,
    pub ctx: SpawnCtx,
    pub turn: TurnId,
    pub inbox: Inbox,
}

/// The arguments of a turn: the fixed ones, the model behind its flag where the
/// command has one, and the prompt, behind its flag where it has one.
pub open spec fn generic_args(
    g: GenericView,
    model: Option<Seq<char>>,
    prompt: Seq<char>,
) -> Seq<Seq<char>> {
    g.run_args + (match model {
        Some(m) => if g.model_flag.len() == 0 {
            Seq::empty()
        } else {
            seq![g.model_flag, m]
        },
        None => Seq::empty(),
    }) + (if g.prompt_flag.len() == 0 {
        seq![prompt]
    } else {
        seq![g.prompt_flag, prompt]
    })
}

impl GenericSession {
    pub fn new(invocation: GenericSpec, ctx: SpawnCtx) -> (r: Self)
        ensures
            r.invocation == invocation,
            r.ctx == ctx,
            r.turn == 0,
            texts(r.inbox.pending@) == Seq::<Seq<char>>::empty(),
    {
        GenericSession { invocation, ctx, turn: 0, inbox: Inbox::new() }
    }

    /// The arguments of a turn.
    pub fn build_args(&self, prompt: &str) -> (r: Vec<String>)
        ensures
            texts(r@) == generic_args(self.invocation@, opt_text(self.ctx.model), prompt@),
    {
        let mut args = copy_texts(&self.invocation.run_args);
        if let Some(model) = &self.ctx.model {
            if self.invocation.model_flag.as_str().unicode_len() > 0 {
                args.push(self.invocation.model_flag.clone());
                args.push(model.clone());
            }
        }
        if self.invocation.prompt_flag.as_str().unicode_len() > 0 {
            args.push(self.invocation.prompt_flag.clone());
        }
        args.push(prompt.to_owned());
        proof {
            assert(texts(args@) =~= generic_args(
                self.invocation@,
                opt_text(self.ctx.model),
                prompt@,
            ));
        }
        args
    }

    /// Begins a turn with a prompt and the notes that wait for it.
    pub fn begin_turn(&mut self, prompt: String) -> (r: Vec<String>)
        ensures
            final(self).invocation == old(self).invocation,
            final(self).ctx == old(self).ctx,
            final(self).turn == turn_after(old(self).turn),
            texts(final(self).inbox.pending@) == Seq::<Seq<char>>::empty(),
            texts(r@) == generic_args(
                old(self).invocation@,
                opt_text(old(self).ctx.model),
                folded(texts(old(self).inbox.pending@), prompt@),
            ),
    {
        let full = self.inbox.fold_prompt(prompt);
        self.turn = next_turn_id(self.turn);
        self.build_args(full.as_str())
    }
}

} // verus!
