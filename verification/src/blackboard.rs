//! Shared discussion state: the transcript the agents build together.
use vstd::prelude::*;
use crate::arith::capped_size;
use crate::conductor::{plans, role_name, Role};
use crate::text::{flat, lemma_flat_push};

verus! {

/// One contribution to the discussion.
#[derive(Debug)]
pub struct Utterance {
    pub label: String,
    pub role: Role,
    pub text: String,
}

impl Clone for Utterance {
    fn clone(&self) -> (r: Self)
        ensures
            r == *self,
    {
        Utterance { label: self.label.clone(), role: self.role, text: self.text.clone() }
    }
}

/// The collaborative scratchpad: the task plus every utterance so far.
#[derive(Debug)]
pub struct Blackboard {
    pub task: String,
    pub transcript: Vec<Utterance>,
}

impl Default for Blackboard {
    fn default() -> (r: Self)
        ensures
            r.task@ == Seq::<char>::empty(),
            r.transcript@ == Seq::<Utterance>::empty(),
    {
        Blackboard { task: String::new(), transcript: Vec::new() }
    }
}

/// An utterance under a heading with its speaker's label and role.
pub open spec fn utterance_block(u: Utterance) -> Seq<char> {
    "["@ + u.label@ + " — "@ + role_name(u.role) + "]\n"@ + u.text@ + "\n\n"@
}

/// A transcript, utterance by utterance.
pub open spec fn transcript_view(t: Seq<Utterance>) -> Seq<char> {
    flat(Seq::new(t.len(), |i: int| utterance_block(t[i])))
}

/// The transcript from an utterance on; nothing where there are not so many.
pub open spec fn transcript_after(t: Seq<Utterance>, from: usize) -> Seq<char> {
    if from <= t.len() {
        transcript_view(t.skip(from as int))
    } else {
        transcript_view(t.skip(t.len() as int))
    }
}

/// The utterances from `from` on, under their headings.
pub fn transcript_from(t: &Vec<Utterance>, from: usize) -> (r: String)
    requires
        from <= t.len(),
    ensures
        r@ == transcript_view(t@.skip(from as int)),
{
    let mut out = String::new();
    let mut i: usize = from;
    let ghost part = t@.skip(from as int);
    while i < t.len()
        invariant
            from <= i <= t.len(),
            part == t@.skip(from as int),
            out@ == flat(Seq::new((i - from) as nat, |k: int| utterance_block(part[k]))),
        decreases t.len() - i,
    {
        let u = &t[i];
        proof {
            let done = Seq::new((i - from) as nat, |k: int| utterance_block(part[k]));
            assert(part[i - from] == t@[i as int]);
            lemma_flat_push(done, utterance_block(*u));
            assert(Seq::new((i + 1 - from) as nat, |k: int| utterance_block(part[k]))
                =~= done.push(utterance_block(*u)));
            assert(out@ + utterance_block(*u) =~= out@ + "["@ + u.label@ + " — "@ + role_name(
                u.role,
            ) + "]\n"@ + u.text@ + "\n\n"@);
        }
        out.append("[");
        out.append(u.label.as_str());
        out.append(" — ");
        out.append(u.role.name());
        out.append("]\n");
        out.append(u.text.as_str());
        out.append("\n\n");
        i = i + 1;
    }
    out
}

/// The utterances whose role passes, in order.
pub open spec fn by_humans(t: Seq<Utterance>) -> Seq<Utterance> {
    t.filter(|u: Utterance| u.role == Role::Human)
}

/// The utterances of planners, in order.
pub open spec fn by_planners(t: Seq<Utterance>) -> Seq<Utterance> {
    t.filter(|u: Utterance| plans(u.role))
}

/// The last `n` elements, or all where there are fewer.
pub open spec fn last_n<A>(s: Seq<A>, n: nat) -> Seq<A> {
    if s.len() <= n {
        s
    } else {
        s.skip(s.len() - n)
    }
}

/// How many characters the texts of the utterances have together, as far as a
/// size can count them.
pub open spec fn transcript_chars(t: Seq<Utterance>) -> nat
    decreases t.len(),
{
    if t.len() == 0 {
        0
    } else {
        capped_size((transcript_chars(t.drop_last()) + t.last().text@.len()) as int) as nat
    }
}

impl Blackboard {
    /// Append an utterance.
    pub fn record(&mut self, label: String, role: Role, text: String)
        ensures
            final(self).task == old(self).task,
            final(self).transcript@ == old(self).transcript@.push(Utterance { label, role, text }),
    {
        self.transcript.push(Utterance { label, role, text });
    }

    /// The text of the most recent utterance, if any.
    pub fn last_text(&self) -> (r: Option<&str>)
        ensures
            match r {
                Some(s) => self.transcript@.len() > 0 && s@ == self.transcript@.last().text@,
                None => self.transcript@.len() == 0,
            },
    {
        if self.transcript.len() == 0 {
            None
        } else {
            Some(self.transcript[self.transcript.len() - 1].text.as_str())
        }
    }

    /// The text of the most recent utterance once more.
    pub fn last_utterance_text(&self) -> (r: String)
        requires
            self.transcript@.len() > 0,
        ensures
            r == self.transcript@.last().text,
    {
        self.transcript[self.transcript.len() - 1].text.clone()
    }

    /// The whole discussion, formatted for feeding back to an agent.
    pub fn transcript_text(&self) -> (r: String)
        ensures
            r@ == transcript_view(self.transcript@),
    {
        proof {
            assert(self.transcript@.skip(0) =~= self.transcript@);
        }
        transcript_from(&self.transcript, 0)
    }

    /// The discussion from an utterance on; nothing where there are not so many.
    pub fn transcript_text_from(&self, from: usize) -> (r: String)
        ensures
            r@ == transcript_after(self.transcript@, from),
    {
        if from <= self.transcript.len() {
            transcript_from(&self.transcript, from)
        } else {
            transcript_from(&self.transcript, self.transcript.len())
        }
    }

    /// How many characters were said.
    pub fn said_chars(&self) -> (r: usize)
        ensures
            r == transcript_chars(self.transcript@),
    {
        let mut total: usize = 0;
        let mut i: usize = 0;
        while i < self.transcript.len()
            invariant
                i <= self.transcript.len(),
                total == transcript_chars(self.transcript@.take(i as int)),
            decreases self.transcript.len() - i,
        {
            proof {
                assert(self.transcript@.take(i + 1).drop_last() =~= self.transcript@.take(
                    i as int,
                ));
            }
            total = total.saturating_add(self.transcript[i].text.as_str().unicode_len());
            i = i + 1;
        }
        proof {
            assert(self.transcript@.take(i as int) =~= self.transcript@);
        }
        total
    }
}

/// The last `n` utterances by humans, or by planners.
fn last_where(t: &Vec<Utterance>, human: bool, n: usize) -> (r: Vec<Utterance>)
    ensures
        human ==> r@ == last_n(by_humans(t@), n as nat),
        !human ==> r@ == last_n(by_planners(t@), n as nat),
{
    let ghost keep = if human {
        |u: Utterance| u.role == Role::Human
    } else {
        |u: Utterance| plans(u.role)
    };
    let mut all: Vec<Utterance> = Vec::new();
    let mut i: usize = 0;
    while i < t.len()
        invariant
            i <= t.len(),
            keep == (if human {
                |u: Utterance| u.role == Role::Human
            } else {
                |u: Utterance| plans(u.role)
            }),
            all@ == t@.take(i as int).filter(keep),
        decreases t.len() - i,
    {
        proof {
            assert(t@.take(i + 1) =~= t@.take(i as int).push(t@[i as int]));
            t@.take(i as int).lemma_filter_push(t@[i as int], keep);
        }
        let hit = if human {
            t[i].role == Role::Human
        } else {
            t[i].role.is_planner()
        };
        if hit {
            all.push(t[i].clone());
        }
        i = i + 1;
    }
    proof {
        assert(t@.take(i as int) =~= t@);
    }
    if all.len() <= n {
        return all;
    }
    let start: usize = all.len() - n;
    let mut out: Vec<Utterance> = Vec::new();
    let mut k: usize = start;
    while k < all.len()
        invariant
            start <= k <= all.len(),
            out@ == all@.subrange(start as int, k as int),
        decreases all.len() - k,
    {
        out.push(all[k].clone());
        k = k + 1;
    }
    proof {
        assert(out@ =~= all@.skip(start as int));
    }
    out
}

/// The last `n` utterances by humans.
pub fn last_human(t: &Vec<Utterance>, n: usize) -> (r: Vec<Utterance>)
    ensures
        r@ == last_n(by_humans(t@), n as nat),
{
    last_where(t, true, n)
}

/// The last `n` utterances by planners.
pub fn last_planner(t: &Vec<Utterance>, n: usize) -> (r: Vec<Utterance>)
    ensures
        r@ == last_n(by_planners(t@), n as nat),
{
    last_where(t, false, n)
}

} // verus!
