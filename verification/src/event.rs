//! The events that travel through a relay, and the messages that arrive from
//! the pub/sub network.

use vstd::prelude::*;

verus! {

/// A signed event as it was fetched. It is never changed afterwards.
#[derive(Debug)]
pub struct Event {
    /// The identifier that the network gave the event.
    pub id: String,
    /// When the event was created, in seconds.
    pub created_at: u64,
    /// What the event carries; the relay does not look inside.
    pub payload: String,
    /// The public key of the author.
    pub source_pubkey: String,
}

/// What an [`Event`] is, as plain values.
pub ghost struct EventView {
    pub id: Seq<char>,
    pub created_at: u64,
    pub payload: Seq<char>,
    pub source_pubkey: Seq<char>,
}

impl View for Event {
    type V = EventView;

    open spec fn view(&self) -> EventView {
        EventView {
            id: self.id@,
            created_at: self.created_at,
            payload: self.payload@,
            source_pubkey: self.source_pubkey@,
        }
    }
}

impl Event {
    /// An event made of the given parts.
    pub fn new(id: &str, created_at: u64, payload: &str, source_pubkey: &str) -> (r: Event)
        ensures
            r@ == (EventView {
                id: id@,
                created_at,
                payload: payload@,
                source_pubkey: source_pubkey@,
            }),
    {
        Event {
            id: id.to_owned(),
            created_at,
            payload: payload.to_owned(),
            source_pubkey: source_pubkey.to_owned(),
        }
    }

    /// A second copy of the event.
    pub fn duplicate(&self) -> (r: Event)
        ensures
            r == *self,
    {
        Event {
            id: self.id.clone(),
            created_at: self.created_at,
            payload: self.payload.clone(),
            source_pubkey: self.source_pubkey.clone(),
        }
    }
}

/// The identifiers of a sequence of events, in the same order.
pub open spec fn ids_of(events: Seq<EventView>) -> Seq<Seq<char>> {
    events.map_values(|e: EventView| e.id)
}

/// The views of a sequence of events, in the same order.
pub open spec fn views_of(events: Seq<Event>) -> Seq<EventView> {
    events.map_values(|e: Event| e@)
}

/// A message that arrived from the pub/sub network.
#[derive(Debug)]
pub struct Response {
    /// The text of the message.
    pub payload: String,
}

impl Response {
    /// The message as an event, received at `received_at`. A message carries
    /// no identifier of its own: its text stands for it, so that the same
    /// text is the same event. The author is not known.
    pub fn into_event(self, received_at: u64) -> (r: Event)
        ensures
            r@ == (EventView {
                id: self@,
                created_at: received_at,
                payload: self@,
                source_pubkey: Seq::empty(),
            }),
    {
        Event {
            id: self.payload.clone(),
            created_at: received_at,
            payload: self.payload,
            source_pubkey: String::new(),
        }
    }
}

impl View for Response {
    type V = Seq<char>;

    open spec fn view(&self) -> Seq<char> {
        self.payload@
    }
}

} // verus!
