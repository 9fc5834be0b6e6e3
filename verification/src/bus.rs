//! What a frontend that joins late is told of what happened before.
use vstd::prelude::*;
use crate::blackboard::last_n;
use crate::event::{Notice, OrchestratorEvent};

verus! {

/// Whether an event is kept for those who join late. Pieces of replies are
/// not: the whole reply follows.
pub open spec fn is_durable(n: Notice) -> bool {
    !(n is Token)
}

/// Whether an event is kept for those who join late.
pub fn should_replay(event: &OrchestratorEvent) -> (r: bool)
    ensures
        r == is_durable(event@),
{
    !matches!(event, OrchestratorEvent::Token { .. })
}

/// The most recent durable events, at most as many as it was made for.
pub struct EventHistory {
    capacity: usize,
    events: Vec<OrchestratorEvent>,
}

/// A list of events as values.
pub open spec fn notices(v: Seq<OrchestratorEvent>) -> Seq<Notice> {
    Seq::new(v.len(), |i: int| v[i]@)
}

/// What is kept of `kept` and one more event.
pub open spec fn kept_after(kept: Seq<Notice>, capacity: nat, n: Notice) -> Seq<Notice> {
    if is_durable(n) {
        last_n(kept.push(n), capacity)
    } else {
        kept
    }
}

/// What is kept when events came one after the other.
pub open spec fn kept_of(all: Seq<Notice>, capacity: nat) -> Seq<Notice>
    decreases all.len(),
{
    if all.len() == 0 {
        Seq::empty()
    } else {
        kept_after(kept_of(all.drop_last(), capacity), capacity, all.last())
    }
}

impl EventHistory {
    /// How many events are kept at most.
    pub closed spec fn capacity(&self) -> nat {
        self.capacity as nat
    }

    /// The events that are kept, the oldest first.
    pub closed spec fn kept(&self) -> Seq<Notice> {
        notices(self.events@)
    }

    pub closed spec fn wf(&self) -> bool {
        self.events@.len() <= self.capacity
    }

    pub fn new(capacity: usize) -> (r: Self)
        ensures
            r.wf(),
            r.capacity() == capacity,
            r.kept() == Seq::<Notice>::empty(),
    {
        let r = EventHistory { capacity, events: Vec::new() };
        proof {
            assert(r.kept() =~= Seq::empty());
        }
        r
    }

    /// Keeps an event, if it is durable, and drops the oldest where there are
    /// too many.
    pub fn record(&mut self, event: &OrchestratorEvent)
        requires
            old(self).wf(),
        ensures
            final(self).wf(),
            final(self).capacity() == old(self).capacity(),
            final(self).kept() == kept_after(old(self).kept(), old(self).capacity(), event@),
            final(self).kept().len() <= final(self).capacity(),
    {
        if should_replay(event) {
            let ghost before = self.events@;
            if self.capacity > 0 {
                if self.events.len() >= self.capacity {
                    let _oldest = self.events.remove(0);
                }
                self.events.push(event.clone());
            }
            proof {
                assert(notices(self.events@) =~= last_n(
                    notices(before).push(event@),
                    self.capacity as nat,
                ));
            }
        }
    }

    /// The kept events, the oldest first.
    pub fn replay(&self) -> (r: Vec<OrchestratorEvent>)
        ensures
            notices(r@) == self.kept(),
    {
        let mut out: Vec<OrchestratorEvent> = Vec::new();
        let mut i: usize = 0;
        while i < self.events.len()
            invariant
                i <= self.events@.len(),
                notices(out@) == notices(self.events@).take(i as int),
            decreases self.events@.len() - i,
        {
            let e = self.events[i].clone();
            proof {
                assert(notices(out@.push(e)) =~= notices(out@).push(e@));
                assert(notices(self.events@).take(i + 1) =~= notices(self.events@).take(
                    i as int,
                ).push(self.events@[i as int]@));
            }
            out.push(e);
            i = i + 1;
        }
        proof {
            assert(notices(self.events@).take(i as int) =~= notices(self.events@));
        }
        out
    }
}

/// Those who join late are told the most recent durable events in their order,
/// however many came before, and no pieces of replies.
pub proof fn law_replay_is_recent_and_durable(all: Seq<Notice>, capacity: nat)
    ensures
        kept_of(all, capacity) == last_n(all.filter(|n: Notice| is_durable(n)), capacity),
    decreases all.len(),
{
    let durable = |n: Notice| is_durable(n);
    if all.len() == 0 {
        assert(all.filter(durable) =~= Seq::empty());
    } else {
        let before = all.drop_last();
        law_replay_is_recent_and_durable(before, capacity);
        before.lemma_filter_push(all.last(), durable);
        assert(before.push(all.last()) =~= all);
        let d = before.filter(durable);
        if is_durable(all.last()) {
            assert(last_n(last_n(d, capacity).push(all.last()), capacity) =~= last_n(
                d.push(all.last()),
                capacity,
            ));
        }
    }
}

} // verus!
