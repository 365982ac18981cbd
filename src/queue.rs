//! The queue manager: buffers events while no relay is connected, evicting
//! the oldest on overflow, and drains them in order once a relay is ready.

use crate::frame_messages::{ClientPayload, FilterAck};
use crate::internal_messages::InternalMessage;
use std::collections::VecDeque;
use vstd::prelude::*;

verus! {

/// An event waiting to be relayed.
#[derive(Debug, Clone)]
pub enum QueueItem {
    ClientPayload(ClientPayload),
    FilterAck(FilterAck),
}

/// The last `cap` elements of `s`, or all of them when there are fewer.
pub open spec fn keep_last<A>(s: Seq<A>, cap: nat) -> Seq<A> {
    if s.len() <= cap {
        s
    } else {
        s.subrange(s.len() - cap, s.len() as int)
    }
}

/// The buffer after `x` arrives at a buffer `q` of capacity `cap`:
/// `x` goes to the back and, when that is too many, the oldest leave.
pub open spec fn bounded_push<A>(q: Seq<A>, cap: nat, x: A) -> Seq<A> {
    keep_last(q.push(x), cap)
}

/// The buffer after each of `xs` arrives in turn.
pub open spec fn enqueue_all<A>(q: Seq<A>, cap: nat, xs: Seq<A>) -> Seq<A>
    decreases xs.len(),
{
    if xs.len() == 0 {
        q
    } else {
        bounded_push(enqueue_all(q, cap, xs.drop_last()), cap, xs.last())
    }
}

pub proof fn lemma_keep_last_push<A>(s: Seq<A>, cap: nat, x: A)
    ensures
        keep_last(keep_last(s, cap).push(x), cap) == keep_last(s.push(x), cap),
{
    let k = keep_last(s, cap);
    if s.len() <= cap {
    } else {
        assert(keep_last(k.push(x), cap) =~= keep_last(s.push(x), cap));
    }
}

/// Events that arrive while no relay is connected are kept in arrival
/// order, and once there are more than the capacity only the newest
/// `cap` of them stay: the oldest are the ones lost.
pub proof fn lemma_overflow_drops_oldest<A>(q: Seq<A>, cap: nat, xs: Seq<A>)
    requires
        q.len() <= cap,
    ensures
        enqueue_all(q, cap, xs) == keep_last(q + xs, cap),
    decreases xs.len(),
{
    if xs.len() == 0 {
        assert(q + xs =~= q);
    } else {
        let init = xs.drop_last();
        lemma_overflow_drops_oldest(q, cap, init);
        lemma_keep_last_push(q + init, cap, xs.last());
        assert((q + init).push(xs.last()) =~= q + xs);
    }
}

/// With room for `cap` events and no relay, `cap + k` events in a row
/// leave the last `cap` of them, in arrival order: the first `k` are lost.
pub proof fn lemma_overflow_policy<A>(cap: nat, xs: Seq<A>)
    requires
        xs.len() >= cap,
    ensures
        enqueue_all(Seq::<A>::empty(), cap, xs) == xs.subrange(xs.len() - cap, xs.len() as int),
{
    lemma_overflow_drops_oldest(Seq::<A>::empty(), cap, xs);
    assert(Seq::<A>::empty() + xs =~= xs);
    if xs.len() == cap {
        assert(xs.subrange(0, xs.len() as int) =~= xs);
    }
}

/// What the thread that owns the relay must do after a message.
pub enum QueueStep<R> {
    /// Nothing.
    Idle,
    /// Write these items, in order, through the current relay.
    Relay(Vec<QueueItem>),
    /// Take this relay as the current one and write these items through it, in order.
    Attach(R, Vec<QueueItem>),
    /// Stop the queue.
    Stop,
}

pub struct QueueManager {
    items: VecDeque<QueueItem>,
    capacity: usize,
    connected: bool,
}

impl QueueManager {
    /// The buffered items, oldest first.
    pub closed spec fn items(&self) -> Seq<QueueItem> {
        self.items@
    }

    /// How many items the buffer holds at most.
    pub closed spec fn capacity(&self) -> nat {
        self.capacity as nat
    }

    /// Whether a relay is connected.
    pub closed spec fn connected(&self) -> bool {
        self.connected
    }

    pub closed spec fn wf(&self) -> bool {
        &&& self.items@.len() <= self.capacity
        &&& self.connected ==> self.items@.len() == 0
    }

    pub fn new(capacity: usize) -> (r: QueueManager)
        ensures
            r.wf(),
            r.items() == Seq::<QueueItem>::empty(),
            r.capacity() == capacity,
            !r.connected(),
    {
        QueueManager { items: VecDeque::new(), capacity, connected: false }
    }

    pub fn is_connected(&self) -> (r: bool)
        ensures
            r == self.connected(),
    {
        self.connected
    }

    pub fn len(&self) -> (r: usize)
        ensures
            r == self.items().len(),
    {
        self.items.len()
    }

    /// Puts `item` at the back of the buffer, evicting the oldest when full.
    fn buffer(&mut self, item: QueueItem)
        requires
            old(self).items@.len() <= old(self).capacity,
        ensures
            final(self).items@ == bounded_push(old(self).items@, old(self).capacity as nat, item),
            final(self).items@.len() <= final(self).capacity,
            final(self).capacity == old(self).capacity,
            final(self).connected == old(self).connected,
    {
        let ghost q = self.items@;
        if self.capacity == 0 {
            assert(bounded_push(q, 0, item) =~= Seq::<QueueItem>::empty());
            return;
        }
        if self.items.len() == self.capacity {
            self.items.pop_front();
        }
        self.items.push_back(item);
        assert(self.items@ =~= bounded_push(q, self.capacity as nat, item));
    }

    /// Sends `item` through the relay when one is connected, else buffers it.
    fn offer<R>(&mut self, item: QueueItem) -> (r: QueueStep<R>)
        requires
            old(self).wf(),
        ensures
            final(self).wf(),
            final(self).capacity() == old(self).capacity(),
            final(self).connected() == old(self).connected(),
            old(self).connected() ==> final(self).items() == old(self).items(),
            old(self).connected() ==> (r matches QueueStep::Relay(v) && v@ == seq![item]),
            !old(self).connected() ==> final(self).items() == bounded_push(
                old(self).items(),
                old(self).capacity(),
                item,
            ),
            !old(self).connected() ==> r is Idle,
    {
        if self.connected {
            let mut v: Vec<QueueItem> = Vec::new();
            v.push(item);
            QueueStep::Relay(v)
        } else {
            self.buffer(item);
            QueueStep::Idle
        }
    }

    /// Reacts to one message of the queue's mailbox.
    pub fn on_message<R>(&mut self, msg: InternalMessage<R>) -> (r: QueueStep<R>)
        requires
            old(self).wf(),
        ensures
            final(self).wf(),
            final(self).capacity() == old(self).capacity(),
            final(self).items().len() <= final(self).capacity(),
            match msg {
                InternalMessage::NewClientMessage(p) => if old(self).connected() {
                    &&& r matches QueueStep::Relay(v) && v@ == seq![QueueItem::ClientPayload(p)]
                    &&& final(self).items() == old(self).items()
                    &&& final(self).connected()
                } else {
                    &&& r is Idle
                    &&& final(self).items() == bounded_push(old(self).items(), old(self).capacity(), QueueItem::ClientPayload(p))
                    &&& !final(self).connected()
                },
                InternalMessage::FilterAck(a) => if old(self).connected() {
                    &&& r matches QueueStep::Relay(v) && v@ == seq![QueueItem::FilterAck(a)]
                    &&& final(self).items() == old(self).items()
                    &&& final(self).connected()
                } else {
                    &&& r is Idle
                    &&& final(self).items() == bounded_push(old(self).items(), old(self).capacity(), QueueItem::FilterAck(a))
                    &&& !final(self).connected()
                },
                InternalMessage::RelayReady(relay) => {
                    &&& r matches QueueStep::Attach(h, v) && h == relay && v@ == old(self).items()
                    &&& final(self).items() == Seq::<QueueItem>::empty()
                    &&& final(self).connected()
                },
                InternalMessage::NewFilter(_) => {
                    &&& r is Idle
                    &&& final(self).items() == old(self).items()
                    &&& final(self).connected() == old(self).connected()
                },
                InternalMessage::Shutdown => {
                    &&& r is Stop
                    &&& final(self).items() == old(self).items()
                    &&& final(self).connected() == old(self).connected()
                },
            },
    {
        match msg {
            InternalMessage::NewClientMessage(p) => self.offer(QueueItem::ClientPayload(p)),
            InternalMessage::FilterAck(a) => self.offer(QueueItem::FilterAck(a)),
            InternalMessage::RelayReady(relay) => {
                let drained = self.drain();
                self.connected = true;
                QueueStep::Attach(relay, drained)
            },
            InternalMessage::NewFilter(_) => QueueStep::Idle,
            InternalMessage::Shutdown => QueueStep::Stop,
        }
    }

    /// Empties the buffer, returning its items oldest first.
    fn drain(&mut self) -> (r: Vec<QueueItem>)
        ensures
            r@ == old(self).items@,
            final(self).items@ == Seq::<QueueItem>::empty(),
            final(self).capacity == old(self).capacity,
            final(self).connected == old(self).connected,
    {
        let mut out: Vec<QueueItem> = Vec::new();
        while self.items.len() > 0
            invariant
                out@ + self.items@ == old(self).items@,
                self.capacity == old(self).capacity,
                self.connected == old(self).connected,
            decreases self.items@.len(),
        {
            let ghost before = self.items@;
            match self.items.pop_front() {
                Some(x) => {
                    out.push(x);
                    assert(out@ + self.items@ =~= old(self).items@);
                },
                None => {},
            }
        }
        assert(out@ + self.items@ =~= out@);
        out
    }

    /// The relay failed: forget it and buffer `unsent` again, ahead of
    /// anything that arrived since, within the capacity.
    pub fn relay_lost(&mut self, unsent: Vec<QueueItem>)
        requires
            old(self).wf(),
        ensures
            final(self).wf(),
            final(self).capacity() == old(self).capacity(),
            final(self).items().len() <= final(self).capacity(),
            !final(self).connected(),
            final(self).items() == keep_last(unsent@ + old(self).items(), old(self).capacity()),
    {
        let later = self.drain();
        self.connected = false;
        let ghost all = unsent@ + later@;
        let mut pending = unsent;
        let ghost cap = self.capacity as nat;
        assert(keep_last(Seq::<QueueItem>::empty(), cap) =~= Seq::<QueueItem>::empty());
        while pending.len() > 0
            invariant
                self.items@.len() <= self.capacity,
                cap == self.capacity,
                self.capacity == old(self).capacity,
                !self.connected,
                pending@.len() <= unsent@.len(),
                unsent@.subrange(0, unsent@.len() - pending@.len()) + pending@ == unsent@,
                self.items@ == keep_last(unsent@.subrange(0, unsent@.len() - pending@.len()), cap),
            decreases pending@.len(),
        {
            let ghost done = unsent@.subrange(0, unsent@.len() - pending@.len());
            let x = pending.remove(0);
            proof {
                lemma_keep_last_push(done, cap, x);
                assert(done.push(x) =~= unsent@.subrange(0, unsent@.len() - pending@.len()));
                assert(unsent@.subrange(0, unsent@.len() - pending@.len()) + pending@ =~= unsent@);
            }
            self.buffer(x);
        }
        assert(unsent@.subrange(0, unsent@.len() as int) =~= unsent@);
        let mut rest = later;
        while rest.len() > 0
            invariant
                self.items@.len() <= self.capacity,
                cap == self.capacity,
                self.capacity == old(self).capacity,
                !self.connected,
                rest@.len() <= later@.len(),
                later@.subrange(0, later@.len() - rest@.len()) + rest@ == later@,
                self.items@ == keep_last(unsent@ + later@.subrange(0, later@.len() - rest@.len()), cap),
            decreases rest@.len(),
        {
            let ghost done = unsent@ + later@.subrange(0, later@.len() - rest@.len());
            let x = rest.remove(0);
            proof {
                lemma_keep_last_push(done, cap, x);
                assert(done.push(x) =~= unsent@ + later@.subrange(0, later@.len() - rest@.len()));
                assert(later@.subrange(0, later@.len() - rest@.len()) + rest@ =~= later@);
            }
            self.buffer(x);
        }
        assert(later@.subrange(0, later@.len() as int) =~= later@);
    }
}

} // verus!
