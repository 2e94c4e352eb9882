//! The bounded channel between the half of a pipeline that fetches and the
//! half that forwards.
//!
//! The channel is first in, first out. It never holds more than its capacity,
//! and it never drops an event: an event that does not fit is handed back to
//! the sender, who has to wait.

use std::collections::VecDeque;
use vstd::prelude::*;
use crate::event::{Event, EventView, views_of};

verus! {

/// What offering `event` to a queue of the given capacity does: the queue
/// afterwards, and the event if it was refused.
pub open spec fn after_send(queue: Seq<EventView>, capacity: nat, event: EventView) -> (
    Seq<EventView>,
    Option<EventView>,
) {
    if queue.len() < capacity {
        (queue.push(event), None)
    } else {
        (queue, Some(event))
    }
}

/// What a sender does who offers `events` one after the other to a queue that
/// nobody takes from, and stops at the first refusal: the queue afterwards,
/// and the events still in the sender's hands.
pub open spec fn send_until_full(queue: Seq<EventView>, capacity: nat, events: Seq<EventView>) -> (
    Seq<EventView>,
    Seq<EventView>,
)
    decreases events.len(),
{
    if events.len() == 0 {
        (queue, events)
    } else {
        let (next, refused) = after_send(queue, capacity, events.first());
        if refused is Some {
            (queue, events)
        } else {
            send_until_full(next, capacity, events.drop_first())
        }
    }
}

/// With nobody taking from the queue, the sender is stopped only by a full
/// queue, the queue never exceeds its capacity, and every event offered is
/// either in the queue, in the order offered, or still with the sender.
pub proof fn lemma_full_queue_loses_nothing(
    queue: Seq<EventView>,
    capacity: nat,
    events: Seq<EventView>,
)
    requires
        queue.len() <= capacity,
    ensures
        ({
            let (filled, held) = send_until_full(queue, capacity, events);
            &&& filled + held == queue + events
            &&& filled.len() <= capacity
            &&& held.len() > 0 ==> filled.len() == capacity
            &&& queue.len() + events.len() <= capacity ==> held.len() == 0
        }),
    decreases events.len(),
{
    if events.len() == 0 {
        assert(queue + events =~= queue);
    } else if queue.len() < capacity {
        let next = queue.push(events.first());
        lemma_full_queue_loses_nothing(next, capacity, events.drop_first());
        assert(next + events.drop_first() =~= queue + events);
    }
}

/// A bounded queue of events.
pub struct Channel {
    items: VecDeque<Event>,
    capacity: usize,
}

impl View for Channel {
    type V = Seq<EventView>;

    closed spec fn view(&self) -> Seq<EventView> {
        views_of(self.items@)
    }
}

impl Channel {
    /// The most events that the channel holds at once.
    pub closed spec fn spec_capacity(&self) -> nat {
        self.capacity as nat
    }

    /// The channel holds no more than its capacity. This is so of a new
    /// channel, and sending and taking keep it so.
    pub open spec fn within_capacity(&self) -> bool {
        self@.len() <= self.spec_capacity()
    }

    /// An empty channel that holds up to `capacity` events.
    pub fn new(capacity: usize) -> (r: Channel)
        ensures
            r@ == Seq::<EventView>::empty(),
            r.spec_capacity() == capacity,
    {
        let r = Channel { items: VecDeque::new(), capacity };
        assert(r@ =~= Seq::<EventView>::empty());
        r
    }

    /// The most events that the channel holds at once.
    pub fn capacity(&self) -> (r: usize)
        ensures
            r == self.spec_capacity(),
    {
        self.capacity
    }

    /// How many events are waiting in the channel.
    pub fn len(&self) -> (r: usize)
        ensures
            r == self@.len(),
    {
        self.items.len()
    }

    /// Whether no event is waiting.
    pub fn is_empty(&self) -> (r: bool)
        ensures
            r == (self@.len() == 0),
    {
        self.items.len() == 0
    }

    /// Whether the channel refuses the next event.
    pub fn is_full(&self) -> (r: bool)
        ensures
            r == (self@.len() >= self.spec_capacity()),
    {
        self.items.len() >= self.capacity
    }

    /// Puts `event` at the back of the channel. A full channel stays as it is
    /// and hands the event back.
    pub fn try_send(&mut self, event: Event) -> (r: Result<(), Event>)
        ensures
            final(self).spec_capacity() == old(self).spec_capacity(),
            final(self)@ == after_send(old(self)@, old(self).spec_capacity(), event@).0,
            old(self)@.len() < old(self).spec_capacity() ==> r is Ok,
            old(self)@.len() >= old(self).spec_capacity() ==> r == Err::<(), Event>(event),
    {
        if self.items.len() < self.capacity {
            let ghost before = self.items@;
            self.items.push_back(event);
            assert(views_of(self.items@) =~= views_of(before).push(event@));
            Ok(())
        } else {
            Err(event)
        }
    }

    /// Takes the event at the front of the channel, if there is one.
    pub fn try_recv(&mut self) -> (r: Option<Event>)
        ensures
            final(self).spec_capacity() == old(self).spec_capacity(),
            old(self)@.len() == 0 ==> r is None && final(self)@ == old(self)@,
            old(self)@.len() > 0 ==> r is Some && r->0@ == old(self)@.first() && final(self)@
                == old(self)@.drop_first(),
    {
        let ghost before = self.items@;
        let r = self.items.pop_front();
        proof {
            if before.len() > 0 {
                assert(views_of(self.items@) =~= views_of(before).drop_first());
            } else {
                assert(views_of(self.items@) =~= views_of(before));
            }
        }
        r
    }
}

} // verus!
