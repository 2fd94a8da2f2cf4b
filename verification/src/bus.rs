//! The event bus: one bounded queue that every daemon and the configuration
//! store publish to and a single consumer drains.

use std::collections::VecDeque;
use vstd::prelude::*;

use crate::action::{Action, Event};

verus! {

/// A queue of events, first in, first out. It holds no more than its
/// capacity: a publisher that finds it full keeps its event and tries again,
/// nothing is ever dropped.
#[derive(Debug)]
pub struct EventBus {
    queue: VecDeque<Action>,
    capacity: usize,
}

impl View for EventBus {
    type V = Seq<Event>;

    /// The events waiting, oldest first.
    closed spec fn view(&self) -> Seq<Event> {
        self.queue@.map_values(|action: Action| action@)
    }
}

impl EventBus {
    /// How many events the bus holds at most.
    pub closed spec fn limit(&self) -> nat {
        self.capacity as nat
    }

    pub closed spec fn wf(&self) -> bool {
        self.queue@.len() <= self.capacity
    }

    /// An empty bus for up to `capacity` events.
    pub fn new(capacity: usize) -> (r: EventBus)
        ensures
            r.wf(),
            r@ == Seq::<Event>::empty(),
            r.limit() == capacity,
    {
        let r = EventBus { queue: VecDeque::new(), capacity };
        assert(r@ =~= Seq::<Event>::empty());
        r
    }

    pub fn capacity(&self) -> (r: usize)
        ensures
            r == self.limit(),
    {
        self.capacity
    }

    pub fn len(&self) -> (r: usize)
        requires
            self.wf(),
        ensures
            r == self@.len(),
            r <= self.limit(),
    {
        self.queue.len()
    }

    pub fn is_empty(&self) -> (r: bool)
        requires
            self.wf(),
        ensures
            r == (self@.len() == 0),
    {
        self.queue.len() == 0
    }

    pub fn is_full(&self) -> (r: bool)
        requires
            self.wf(),
        ensures
            r == (self@.len() == self.limit()),
    {
        self.queue.len() >= self.capacity
    }

    /// Puts an event at the end of the queue. Where the bus is full the event
    /// comes back and the queue is as it was.
    pub fn publish(&mut self, action: Action) -> (r: Result<(), Action>)
        requires
            old(self).wf(),
        ensures
            final(self).wf(),
            final(self).limit() == old(self).limit(),
            match r {
                Ok(_) => old(self)@.len() < old(self).limit() && final(self)@ == old(self)@.push(action@),
                Err(back) => {
                    &&& old(self)@.len() == old(self).limit()
                    &&& final(self)@ == old(self)@
                    &&& back == action
                },
            },
    {
        if self.queue.len() >= self.capacity {
            return Err(action);
        }
        self.queue.push_back(action);
        assert(self@ =~= old(self)@.push(action@));
        Ok(())
    }

    /// Takes the oldest event off the queue.
    pub fn next(&mut self) -> (r: Option<Action>)
        requires
            old(self).wf(),
        ensures
            final(self).wf(),
            final(self).limit() == old(self).limit(),
            match r {
                Some(action) => old(self)@.len() > 0 && action@ == old(self)@[0] && final(self)@ == old(
                    self,
                )@.drop_first(),
                None => old(self)@.len() == 0 && final(self)@ == old(self)@,
            },
    {
        let r = self.queue.pop_front();
        assert(r is Some ==> self@ =~= old(self)@.drop_first());
        r
    }
}

/// What is published comes out in the order in which it went in: after a
/// queue of events, those published since, each once.
pub proof fn published_in_order(waiting: Seq<Event>, published: Seq<Event>)
    ensures
        drained(queued(waiting, published), (waiting.len() + published.len()) as nat) == waiting + published,
{
    lemma_drain_all(queued(waiting, published));
    lemma_queued(waiting, published);
}

/// The queue after the events are published one after the other.
pub open spec fn queued(waiting: Seq<Event>, published: Seq<Event>) -> Seq<Event>
    decreases published.len(),
{
    if published.len() == 0 {
        waiting
    } else {
        queued(waiting.push(published[0]), published.drop_first())
    }
}

/// The events that `n` takes bring out of the queue, in the order in which
/// they come.
pub open spec fn drained(waiting: Seq<Event>, n: nat) -> Seq<Event>
    decreases n,
{
    if n == 0 || waiting.len() == 0 {
        Seq::empty()
    } else {
        seq![waiting[0]] + drained(waiting.drop_first(), (n - 1) as nat)
    }
}

proof fn lemma_queued(waiting: Seq<Event>, published: Seq<Event>)
    ensures
        queued(waiting, published) == waiting + published,
    decreases published.len(),
{
    if published.len() == 0 {
        assert(waiting + published =~= waiting);
    } else {
        lemma_queued(waiting.push(published[0]), published.drop_first());
        assert(waiting.push(published[0]) + published.drop_first() =~= waiting + published);
    }
}

proof fn lemma_drain_all(waiting: Seq<Event>)
    ensures
        drained(waiting, waiting.len()) == waiting,
    decreases waiting.len(),
{
    if waiting.len() > 0 {
        lemma_drain_all(waiting.drop_first());
        assert(seq![waiting[0]] + waiting.drop_first() =~= waiting);
    }
}

} // verus!
