//! The bounded queue between a device's producers and its dispatcher.
use vstd::prelude::*;

use crate::event::Event;

verus! {

/// What a producer does when the queue is full.
#[derive(Clone, Copy, Debug, PartialEq, Eq, Structural)]
pub enum PushPolicy {
    /// Give the event up at once (log lines).
    DropWhenFull,
    /// Hold on to the event and wait for room (sensor readings).
    WaitWhenFull,
}

/// The outcome of offering an event to the queue.
#[derive(Debug)]
pub enum Offer {
    /// The event was queued.
    Accepted,
    /// The queue was full and the event was given up.
    Discarded(Event),
    /// The queue was full; the event is handed back to be offered again.
    MustWait(Event),
}

/// The contents of a queue with bound `bound` after `e` was offered to
/// `c`: the event is appended where there is room, and the queue is
/// unchanged otherwise.
pub open spec fn after_offer(c: Seq<Event>, bound: nat, e: Event) -> Seq<Event> {
    if c.len() < bound {
        c.push(e)
    } else {
        c
    }
}

/// The contents after each event of `pushed` was offered in turn.
pub open spec fn after_offers(c: Seq<Event>, bound: nat, pushed: Seq<Event>) -> Seq<Event>
    decreases pushed.len(),
{
    if pushed.len() == 0 {
        c
    } else {
        after_offer(after_offers(c, bound, pushed.drop_last()), bound, pushed.last())
    }
}

/// A first-in, first-out buffer of events that never holds more than its
/// capacity.
pub struct BoundedQueue {
    items: Vec<Event>,
    capacity: usize,
}

impl BoundedQueue {
    /// The queued events, oldest first.
    pub closed spec fn contents(&self) -> Seq<Event> {
        self.items@
    }

    /// The most events the queue may hold.
    pub closed spec fn bound(&self) -> nat {
        self.capacity as nat
    }

    /// The queue holds no more than its capacity.
    #[verifier::type_invariant]
    closed spec fn wf(&self) -> bool {
        self.items@.len() <= self.capacity
    }

    /// An empty queue that holds at most `capacity` events.
    pub fn new(capacity: usize) -> (q: BoundedQueue)
        ensures
            q.contents() == Seq::<Event>::empty(),
            q.bound() == capacity,
    {
        BoundedQueue { items: Vec::new(), capacity }
    }

    /// An empty queue sized for batches of at most `max_batch` events: it
    /// holds twice that many, so that the assembler has events to choose from.
    pub fn for_batch_size(max_batch: usize) -> (q: BoundedQueue)
        requires
            max_batch <= usize::MAX / 2,
        ensures
            q.contents() == Seq::<Event>::empty(),
            q.bound() == 2 * max_batch,
    {
        BoundedQueue::new(2 * max_batch)
    }

    /// The most events the queue may hold.
    pub fn capacity(&self) -> (r: usize)
        ensures
            r == self.bound(),
    {
        self.capacity
    }

    /// How many events are queued; never more than the capacity.
    pub fn len(&self) -> (r: usize)
        ensures
            r == self.contents().len(),
            r <= self.bound(),
    {
        proof {
            use_type_invariant(self);
        }
        self.items.len()
    }

    /// True when no event is queued.
    pub fn is_empty(&self) -> (r: bool)
        ensures
            r == (self.contents().len() == 0),
    {
        self.items.len() == 0
    }

    /// True when the queue holds as many events as it may.
    pub fn is_full(&self) -> (r: bool)
        ensures
            r == (self.contents().len() == self.bound()),
    {
        proof {
            use_type_invariant(self);
        }
        self.items.len() == self.capacity
    }

    /// Offers `e` to the queue. Where there is room it is queued; otherwise
    /// `policy` decides: the event is discarded, or handed back so that the
    /// producer can wait for room. The call itself never waits.
    pub fn offer(&mut self, e: Event, policy: PushPolicy) -> (r: Offer)
        ensures
            final(self).bound() == old(self).bound(),
            old(self).contents().len() <= old(self).bound(),
            final(self).contents() == after_offer(old(self).contents(), old(self).bound(), e),
            old(self).contents().len() < old(self).bound() ==> r is Accepted,
            old(self).contents().len() >= old(self).bound() ==> match policy {
                PushPolicy::DropWhenFull => r == Offer::Discarded(e),
                PushPolicy::WaitWhenFull => r == Offer::MustWait(e),
            },
    {
        proof {
            use_type_invariant(&*self);
        }
        if self.items.len() < self.capacity {
            let mut items: Vec<Event> = Vec::new();
            std::mem::swap(&mut items, &mut self.items);
            items.push(e);
            self.items = items;
            Offer::Accepted
        } else {
            match policy {
                PushPolicy::DropWhenFull => Offer::Discarded(e),
                PushPolicy::WaitWhenFull => Offer::MustWait(e),
            }
        }
    }

    /// Takes every queued event out, oldest first, leaving the queue empty.
    pub fn drain(&mut self) -> (r: Vec<Event>)
        ensures
            r@ == old(self).contents(),
            final(self).contents() == Seq::<Event>::empty(),
            final(self).bound() == old(self).bound(),
    {
        let mut taken: Vec<Event> = Vec::new();
        std::mem::swap(&mut taken, &mut self.items);
        taken
    }
}

/// Offering events one after another to a queue with room for `room` more
/// keeps the first `room` of them and discards the rest: the queue never
/// grows past its bound, and no offer waits.
pub proof fn lemma_offers_fill_then_discard(c: Seq<Event>, bound: nat, pushed: Seq<Event>)
    requires
        c.len() <= bound,
    ensures
        pushed.len() <= bound - c.len() ==> after_offers(c, bound, pushed) == c + pushed,
        pushed.len() > bound - c.len() ==> after_offers(c, bound, pushed) == c + pushed.take(
            bound - c.len(),
        ),
        after_offers(c, bound, pushed).len() <= bound,
    decreases pushed.len(),
{
    if pushed.len() == 0 {
        assert(c + pushed =~= c);
    } else {
        let p = pushed.drop_last();
        lemma_offers_fill_then_discard(c, bound, p);
        if pushed.len() <= bound - c.len() {
            assert(c + p.push(pushed.last()) =~= (c + p).push(pushed.last()));
            assert(p.push(pushed.last()) =~= pushed);
        } else if p.len() == bound - c.len() {
            assert(pushed.take(bound - c.len()) =~= p);
        } else {
            assert(pushed.take(bound - c.len()) =~= p.take(bound - c.len()));
        }
    }
}

} // verus!
