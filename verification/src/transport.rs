//! The bookkeeping of the one session with the pub/sub backend: whether it is
//! up, when to try connecting again, what a message looks like on the wire,
//! and that the session is closed once and no more.
//!
//! The adapter performs no input or output. Its owner connects, sends and
//! closes, and tells the adapter what happened.

use vstd::prelude::*;
use crate::backoff::Backoff;
use crate::sink::{WakuMessage, base64_text};

verus! {

/// Whether the session with the backend is up.
#[derive(Clone, Copy, Debug, PartialEq, Eq, Structural)]
pub enum LinkState {
    /// There is no session, and one may be opened.
    Disconnected,
    /// The session is up.
    Connected,
    /// The session was closed for good.
    Closed,
}

/// How hard to try to connect.
#[derive(Clone, Copy, Debug, PartialEq, Eq, Structural)]
pub struct ReconnectPolicy {
    /// How many failures in a row are borne before the first session ever.
    pub startup_attempts: u32,
    /// The pauses between two attempts.
    pub backoff: Backoff,
}

/// What to do after the link was found down.
#[derive(Clone, Copy, Debug, PartialEq, Eq, Structural)]
pub enum ConnectDecision {
    /// Try to connect after `seconds`.
    Retry { seconds: u64 },
    /// Do not try again: the backend was never reached within the attempts
    /// allowed at startup, or the session was closed.
    GiveUp,
}

/// Why a message could not be sent.
#[derive(Clone, Copy, Debug, PartialEq, Eq, Structural)]
pub enum TransportError {
    /// The session is down for now. Sending may be tried again.
    Disconnected,
    /// The session was closed for good.
    Closed,
}

impl TransportError {
    /// Whether sending may be tried again later.
    pub open spec fn spec_retryable(self) -> bool {
        self is Disconnected
    }

    /// Whether sending may be tried again later.
    pub fn is_retryable(&self) -> (r: bool)
        ensures
            r == self.spec_retryable(),
    {
        match self {
            TransportError::Disconnected => true,
            TransportError::Closed => false,
        }
    }
}

/// What to do about the handler of inbound messages.
#[derive(Clone, Copy, Debug, PartialEq, Eq, Structural)]
pub enum Subscription {
    /// Register the handler with the session that is up.
    Register,
    /// There is no session now. The handler is to be registered as soon as
    /// one is up.
    Deferred,
    /// The adapter has its one handler already. Nothing is to be done.
    AlreadyRegistered,
}

/// One message as the backend takes it.
#[derive(Debug)]
pub struct Envelope {
    /// The pub/sub topic to publish on.
    pub pubsub_topic: String,
    /// The message with its content topic.
    pub message: WakuMessage,
}

/// What a [`TransportAdapter`] is, as plain values.
pub ghost struct TransportView {
    pub link: LinkState,
    /// Whether a session was ever up.
    pub ever_connected: bool,
    /// How many attempts to connect have failed in a row.
    pub failures: u32,
    /// Whether the adapter has its handler of inbound messages.
    pub subscribed: bool,
    pub policy: ReconnectPolicy,
    pub pubsub_topic: Seq<char>,
    pub content_topic: Seq<char>,
}

/// One more, but never past the largest number.
pub open spec fn counted_failure(n: u32) -> u32 {
    if n < u32::MAX {
        (n + 1) as u32
    } else {
        n
    }
}

/// A session is up. A closed adapter stays closed. The answer is whether
/// the handler of inbound messages is to be registered with this session:
/// that is so where the adapter has a handler and the session is new.
pub open spec fn spec_connected(v: TransportView) -> (TransportView, bool) {
    if v.link is Closed {
        (v, false)
    } else {
        (
            TransportView { link: LinkState::Connected, ever_connected: true, failures: 0, ..v },
            v.subscribed && v.link is Disconnected,
        )
    }
}

/// The owner asks for inbound messages. An adapter has one handler and no
/// more: only the first request makes one, and it stays through every
/// session until the adapter is closed.
pub open spec fn spec_subscribe(v: TransportView) -> (
    TransportView,
    Result<Subscription, TransportError>,
) {
    match v.link {
        LinkState::Closed => (v, Err(TransportError::Closed)),
        _ => if v.subscribed {
            (v, Ok(Subscription::AlreadyRegistered))
        } else {
            (
                TransportView { subscribed: true, ..v },
                Ok(
                    if v.link is Connected {
                        Subscription::Register
                    } else {
                        Subscription::Deferred
                    },
                ),
            )
        },
    }
}

/// An attempt to connect has failed. Before the first session ever, the
/// failure that reaches the number of attempts allowed at startup is the
/// last; later on, connecting is tried again without end, each time after a
/// longer pause, up to the ceiling.
pub open spec fn spec_connect_failed(v: TransportView) -> (TransportView, ConnectDecision) {
    if v.link is Closed {
        (v, ConnectDecision::GiveUp)
    } else {
        let failures = counted_failure(v.failures);
        let next = TransportView { link: LinkState::Disconnected, failures, ..v };
        if !v.ever_connected && failures >= v.policy.startup_attempts {
            (next, ConnectDecision::GiveUp)
        } else {
            (
                next,
                ConnectDecision::Retry {
                    seconds: v.policy.backoff.spec_delay((failures - 1) as nat),
                },
            )
        }
    }
}

/// The session was found down while running.
pub open spec fn spec_disconnected(v: TransportView) -> (TransportView, ConnectDecision) {
    match v.link {
        LinkState::Closed => (v, ConnectDecision::GiveUp),
        LinkState::Connected => (
            TransportView { link: LinkState::Disconnected, failures: 0, ..v },
            ConnectDecision::Retry { seconds: v.policy.backoff.spec_delay(0) },
        ),
        LinkState::Disconnected => (
            v,
            ConnectDecision::Retry { seconds: v.policy.backoff.spec_delay(v.failures as nat) },
        ),
    }
}

/// The adapter is closed for good and loses its handler. The answer is
/// whether it was open: that is when the owner releases what the backend
/// holds.
pub open spec fn spec_close(v: TransportView) -> (TransportView, bool) {
    (TransportView { link: LinkState::Closed, subscribed: false, ..v }, !(v.link is Closed))
}

/// The bookkeeping of the session with the pub/sub backend.
pub struct TransportAdapter {
    link: LinkState,
    ever_connected: bool,
    failures: u32,
    subscribed: bool,
    policy: ReconnectPolicy,
    pubsub_topic: String,
    content_topic: String,
}

impl View for TransportAdapter {
    type V = TransportView;

    closed spec fn view(&self) -> TransportView {
        TransportView {
            link: self.link,
            ever_connected: self.ever_connected,
            failures: self.failures,
            subscribed: self.subscribed,
            policy: self.policy,
            pubsub_topic: self.pubsub_topic@,
            content_topic: self.content_topic@,
        }
    }
}

impl TransportAdapter {
    /// An adapter without a session, for the topics given.
    pub fn new(policy: ReconnectPolicy, pubsub_topic: &str, content_topic: &str) -> (r:
        TransportAdapter)
        ensures
            r@ == (TransportView {
                link: LinkState::Disconnected,
                ever_connected: false,
                failures: 0,
                subscribed: false,
                policy,
                pubsub_topic: pubsub_topic@,
                content_topic: content_topic@,
            }),
    {
        TransportAdapter {
            link: LinkState::Disconnected,
            ever_connected: false,
            failures: 0,
            subscribed: false,
            policy,
            pubsub_topic: pubsub_topic.to_owned(),
            content_topic: content_topic.to_owned(),
        }
    }

    /// Whether the session is up.
    pub fn link(&self) -> (r: LinkState)
        ensures
            r == self@.link,
    {
        self.link
    }

    /// Whether the adapter has its handler of inbound messages.
    pub fn is_subscribed(&self) -> (r: bool)
        ensures
            r == self@.subscribed,
    {
        self.subscribed
    }

    /// Notes that a session is up, and says whether the handler of inbound
    /// messages is to be registered with it.
    pub fn on_connected(&mut self) -> (register: bool)
        ensures
            (final(self)@, register) == spec_connected(old(self)@),
    {
        match self.link {
            LinkState::Closed => false,
            LinkState::Connected => {
                self.ever_connected = true;
                self.failures = 0;
                false
            },
            LinkState::Disconnected => {
                self.link = LinkState::Connected;
                self.ever_connected = true;
                self.failures = 0;
                self.subscribed
            },
        }
    }

    /// Asks for inbound messages, and says what to do about the handler.
    pub fn subscribe(&mut self) -> (r: Result<Subscription, TransportError>)
        ensures
            (final(self)@, r) == spec_subscribe(old(self)@),
    {
        match self.link {
            LinkState::Closed => Err(TransportError::Closed),
            LinkState::Connected => {
                if self.subscribed {
                    Ok(Subscription::AlreadyRegistered)
                } else {
                    self.subscribed = true;
                    Ok(Subscription::Register)
                }
            },
            LinkState::Disconnected => {
                if self.subscribed {
                    Ok(Subscription::AlreadyRegistered)
                } else {
                    self.subscribed = true;
                    Ok(Subscription::Deferred)
                }
            },
        }
    }

    /// Notes that an attempt to connect has failed, and says what to do.
    pub fn on_connect_failed(&mut self) -> (r: ConnectDecision)
        ensures
            (final(self)@, r) == spec_connect_failed(old(self)@),
    {
        match self.link {
            LinkState::Closed => ConnectDecision::GiveUp,
            _ => {
                if self.failures < u32::MAX {
                    self.failures = self.failures + 1;
                }
                self.link = LinkState::Disconnected;
                if !self.ever_connected && self.failures >= self.policy.startup_attempts {
                    ConnectDecision::GiveUp
                } else {
                    ConnectDecision::Retry { seconds: self.policy.backoff.delay(self.failures - 1) }
                }
            },
        }
    }

    /// Notes that the session was found down, and says what to do.
    pub fn on_disconnected(&mut self) -> (r: ConnectDecision)
        ensures
            (final(self)@, r) == spec_disconnected(old(self)@),
    {
        match self.link {
            LinkState::Closed => ConnectDecision::GiveUp,
            LinkState::Connected => {
                self.link = LinkState::Disconnected;
                self.failures = 0;
                ConnectDecision::Retry { seconds: self.policy.backoff.delay(0) }
            },
            LinkState::Disconnected => ConnectDecision::Retry {
                seconds: self.policy.backoff.delay(self.failures),
            },
        }
    }

    /// The message that carries `text`, as the backend takes it: under the
    /// adapter's topics, the payload in base64. Without a session there is
    /// nothing to send on, and the error says whether that may change.
    pub fn publish(&self, text: &str) -> (r: Result<Envelope, TransportError>)
        ensures
            match self@.link {
                LinkState::Connected => r is Ok && r->Ok_0.pubsub_topic@ == self@.pubsub_topic
                    && r->Ok_0.message.content_topic@ == self@.content_topic
                    && r->Ok_0.message.payload@ == base64_text(text@),
                LinkState::Disconnected => r == Err::<Envelope, TransportError>(
                    TransportError::Disconnected,
                ),
                LinkState::Closed => r == Err::<Envelope, TransportError>(TransportError::Closed),
            },
    {
        match self.link {
            LinkState::Connected => Ok(
                Envelope {
                    pubsub_topic: self.pubsub_topic.clone(),
                    message: WakuMessage::encode(text, self.content_topic.as_str()),
                },
            ),
            LinkState::Disconnected => Err(TransportError::Disconnected),
            LinkState::Closed => Err(TransportError::Closed),
        }
    }

    /// Closes the adapter for good. The answer is `true` the first time
    /// only: that is when the owner releases what the backend holds.
    pub fn close(&mut self) -> (release: bool)
        ensures
            (final(self)@, release) == spec_close(old(self)@),
    {
        let release = match self.link {
            LinkState::Closed => false,
            _ => true,
        };
        self.link = LinkState::Closed;
        self.subscribed = false;
        release
    }
}

/// However an adapter is used, its owner is told to release the session at
/// most once: after a closing, no later closing says so, whatever happened
/// in between.
pub proof fn lemma_close_releases_once(v: TransportView)
    ensures
        !spec_close(spec_close(v).0).1,
        !spec_close(spec_connected(spec_close(v).0).0).1,
        !spec_close(spec_connect_failed(spec_close(v).0).0).1,
        !spec_close(spec_disconnected(spec_close(v).0).0).1,
        !spec_close(spec_subscribe(spec_close(v).0).0).1,
{
}

/// An adapter has one handler and no more: once it has one, a further
/// request makes no other. After an outage the handler is registered with
/// the new session, once.
pub proof fn lemma_one_handler(v: TransportView)
    requires
        v.subscribed,
        !(v.link is Closed),
    ensures
        spec_subscribe(v) == (v, Ok::<Subscription, TransportError>(Subscription::AlreadyRegistered)),
        spec_connected(spec_disconnected(v).0).1,
        !spec_connected(spec_connected(spec_disconnected(v).0).0).1,
{
}

/// While running, a link that is down is never given up: every failure is
/// answered with a pause of at most the ceiling.
pub proof fn lemma_reconnect_never_gives_up(v: TransportView)
    requires
        v.ever_connected,
        !(v.link is Closed),
    ensures
        spec_connect_failed(v).1 is Retry,
        spec_connect_failed(v).1->seconds <= v.policy.backoff.ceiling_secs,
        spec_connect_failed(v).0.ever_connected,
        !(spec_connect_failed(v).0.link is Closed),
{
}

} // verus!
