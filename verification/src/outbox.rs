//! The bounded hand-off between the registry and one connection.
//!
//! Envelopes wait here until the connection's transport takes them, oldest
//! first. The box never grows past its capacity: when it is full, the oldest
//! envelope makes room for the newest, since a snapshot that has been
//! superseded is of no use to anyone. Offering therefore never blocks and
//! never fails, however slow the viewer is.

use crate::server::Message;
use std::collections::VecDeque;
use vstd::prelude::*;

verus! {

/// An outbox as contracts see it.
pub struct OutboxState {
    /// The envelopes that wait, oldest first.
    pub pending: Seq<Message>,
    /// The most envelopes that may wait.
    pub capacity: usize,
}

impl OutboxState {
    /// No more envelopes wait than the capacity allows.
    pub open spec fn well_formed(self) -> bool {
        self.pending.len() <= self.capacity
    }

    /// The outbox after `msg` was offered, and the envelope that had to go to
    /// make room, if any. An outbox without any room lets the offer itself go.
    pub open spec fn offered(self, msg: Message) -> (OutboxState, Option<Message>) {
        if self.capacity == 0 {
            (self, Some(msg))
        } else if self.pending.len() < self.capacity {
            (OutboxState { pending: self.pending.push(msg), ..self }, None)
        } else {
            (
                OutboxState { pending: self.pending.drop_first().push(msg), ..self },
                Some(self.pending.first()),
            )
        }
    }

    /// The outbox after its oldest envelope was taken, and that envelope.
    pub open spec fn taken(self) -> (OutboxState, Option<Message>) {
        if self.pending.len() == 0 {
            (self, None)
        } else {
            (OutboxState { pending: self.pending.drop_first(), ..self }, Some(self.pending.first()))
        }
    }

    /// The outbox after each of `msgs` was offered in turn.
    pub open spec fn after_offers(self, msgs: Seq<Message>) -> OutboxState
        decreases msgs.len(),
    {
        if msgs.len() == 0 {
            self
        } else {
            self.after_offers(msgs.drop_last()).offered(msgs.last()).0
        }
    }
}

/// The outbound queue of one connection.
pub struct Outbox {
    queue: VecDeque<Message>,
    capacity: usize,
}

impl View for Outbox {
    type V = OutboxState;

    closed spec fn view(&self) -> OutboxState {
        OutboxState { pending: self.queue@, capacity: self.capacity }
    }
}

impl Outbox {
    #[verifier::type_invariant]
    spec fn inv(self) -> bool {
        self@.well_formed()
    }

    /// An empty outbox with room for `capacity` envelopes.
    pub fn new(capacity: usize) -> (outbox: Outbox)
        ensures
            outbox@ == (OutboxState { pending: Seq::empty(), capacity }),
    {
        Outbox { queue: VecDeque::new(), capacity }
    }

    /// The most envelopes that may wait.
    pub fn capacity(&self) -> (capacity: usize)
        ensures
            capacity == self@.capacity,
    {
        self.capacity
    }

    /// The number of envelopes that wait. It never exceeds the capacity.
    pub fn len(&self) -> (len: usize)
        ensures
            len == self@.pending.len(),
            self@.well_formed(),
    {
        proof {
            use_type_invariant(self);
        }
        self.queue.len()
    }

    /// Hands `msg` over. When the outbox is full, its oldest envelope is
    /// dropped to make room and returned.
    pub fn offer(&mut self, msg: Message) -> (dropped: Option<Message>)
        ensures
            (final(self)@, dropped) == old(self)@.offered(msg),
    {
        proof {
            use_type_invariant(&*self);
        }
        if self.capacity == 0 {
            return Some(msg);
        }
        let mut queue = VecDeque::new();
        std::mem::swap(&mut queue, &mut self.queue);
        let dropped = if queue.len() == self.capacity {
            queue.pop_front()
        } else {
            None
        };
        queue.push_back(msg);
        assert(queue@ =~= old(self)@.offered(msg).0.pending);
        self.queue = queue;
        dropped
    }

    /// Takes the oldest envelope that waits.
    pub fn take(&mut self) -> (msg: Option<Message>)
        ensures
            (final(self)@, msg) == old(self)@.taken(),
    {
        proof {
            use_type_invariant(&*self);
        }
        let mut queue = VecDeque::new();
        std::mem::swap(&mut queue, &mut self.queue);
        let msg = queue.pop_front();
        assert(queue@ =~= old(self)@.taken().0.pending);
        self.queue = queue;
        msg
    }
}

/// The envelopes at the end of `all` that fit into `capacity`.
pub open spec fn newest(all: Seq<Message>, capacity: usize) -> Seq<Message> {
    if all.len() <= capacity {
        all
    } else {
        all.skip(all.len() - capacity)
    }
}

/// However many envelopes are offered, the outbox holds the newest of them
/// that fit, in the order in which they were offered, and never more than its
/// capacity.
pub proof fn lemma_outbox_keeps_newest(outbox: OutboxState, msgs: Seq<Message>)
    requires
        outbox.well_formed(),
    ensures
        outbox.after_offers(msgs).capacity == outbox.capacity,
        outbox.after_offers(msgs).well_formed(),
        outbox.after_offers(msgs).pending == newest(outbox.pending + msgs, outbox.capacity),
    decreases msgs.len(),
{
    if msgs.len() == 0 {
        assert(outbox.pending + msgs =~= outbox.pending);
    } else {
        let earlier = msgs.drop_last();
        lemma_outbox_keeps_newest(outbox, earlier);
        let before = outbox.pending + earlier;
        let all = outbox.pending + msgs;
        assert(all =~= before.push(msgs.last()));
        assert(outbox.after_offers(msgs).pending =~= newest(all, outbox.capacity));
    }
}

/// What waits is taken in the order in which it was offered.
pub proof fn lemma_outbox_is_fifo(outbox: OutboxState)
    requires
        outbox.pending.len() > 0,
    ensures
        outbox.taken().1 == Some(outbox.pending[0]),
        outbox.taken().0.pending == outbox.pending.skip(1),
{
    assert(outbox.pending.drop_first() =~= outbox.pending.skip(1));
}

} // verus!
