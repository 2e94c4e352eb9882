//! The supervisor: it turns the configuration into the parts of a relay.

use vstd::prelude::*;
use crate::backoff::Backoff;
use crate::config::Config;
use crate::consts::{
    CHANNEL_CAPACITY,
    FETCH_BACKOFF_SECS,
    FETCH_LIMIT,
    MAX_FORWARD_ATTEMPTS,
    POLL_INTERVAL_SECS,
    RETRY_BASE_SECS,
    RETRY_CEILING_SECS,
    STARTUP_CONNECT_ATTEMPTS,
};
use crate::cursor::CursorStore;
use crate::direction::Direction;
use crate::event::Event;
use crate::pipeline::{
    DrainState,
    PipelineSettings,
    PipelineState,
    PipelineView,
    RelayPipeline,
    value_of,
};
use crate::sink::{WakuMessage, WakuMessageView, base64_text};
use crate::transport::{LinkState, ReconnectPolicy, TransportAdapter, TransportView};

verus! {

/// The numbers that every pipeline of the application runs by.
pub open spec fn spec_settings() -> PipelineSettings {
    PipelineSettings {
        initial_watermark: 0,
        fetch_limit: FETCH_LIMIT,
        channel_capacity: CHANNEL_CAPACITY,
        poll_interval_secs: POLL_INTERVAL_SECS,
        fetch_backoff_secs: FETCH_BACKOFF_SECS,
        max_forward_attempts: MAX_FORWARD_ATTEMPTS,
        retry_backoff: Backoff { base_secs: RETRY_BASE_SECS, ceiling_secs: RETRY_CEILING_SECS },
    }
}

/// How hard the application tries to reach the pub/sub backend.
pub open spec fn spec_reconnect_policy() -> ReconnectPolicy {
    ReconnectPolicy {
        startup_attempts: STARTUP_CONNECT_ATTEMPTS,
        backoff: Backoff { base_secs: RETRY_BASE_SECS, ceiling_secs: RETRY_CEILING_SECS },
    }
}

/// A pipeline for `direction` over `store`, before it has started.
pub open spec fn spec_pipeline(direction: Direction, store: CursorStore) -> PipelineView {
    PipelineView {
        direction,
        settings: spec_settings(),
        state: PipelineState::Idle,
        watermark: value_of(store.watermark(direction)),
        ledger: store.ledger(),
        channel: Seq::empty(),
        batch: Seq::empty(),
        cursor: 0,
        batch_max: 0,
        enqueued: Seq::empty(),
        drain: DrainState::Waiting,
        in_flight: None,
        attempts: 0,
        delivered: 0,
        dropped: 0,
    }
}

/// The application: the configuration, and what is built from it.
pub struct App {
    config: Config,
}

impl App {
    /// The configuration that the application was made with.
    pub closed spec fn spec_config(&self) -> Config {
        self.config
    }

    /// The application for a configuration.
    pub fn new(config: Config) -> (r: App)
        ensures
            r.spec_config() == config,
    {
        App { config }
    }

    /// The configuration that the application was made with.
    pub fn config(&self) -> (r: &Config)
        ensures
            *r == self.spec_config(),
    {
        &self.config
    }

    /// The numbers that every pipeline of the application runs by.
    pub fn settings(&self) -> (r: PipelineSettings)
        ensures
            r == spec_settings(),
    {
        PipelineSettings {
            initial_watermark: 0,
            fetch_limit: FETCH_LIMIT,
            channel_capacity: CHANNEL_CAPACITY,
            poll_interval_secs: POLL_INTERVAL_SECS,
            fetch_backoff_secs: FETCH_BACKOFF_SECS,
            max_forward_attempts: MAX_FORWARD_ATTEMPTS,
            retry_backoff: Backoff { base_secs: RETRY_BASE_SECS, ceiling_secs: RETRY_CEILING_SECS },
        }
    }

    /// The adapter for the one session with the pub/sub backend, on the
    /// topics of the configuration. All directions share it.
    pub fn transport(&self) -> (r: TransportAdapter)
        ensures
            r@ == (TransportView {
                link: LinkState::Disconnected,
                ever_connected: false,
                failures: 0,
                subscribed: false,
                policy: spec_reconnect_policy(),
                pubsub_topic: self.spec_config().waku.pubsub_topic@,
                content_topic: self.spec_config().waku.content_topic@,
            }),
    {
        let policy = ReconnectPolicy {
            startup_attempts: STARTUP_CONNECT_ATTEMPTS,
            backoff: Backoff { base_secs: RETRY_BASE_SECS, ceiling_secs: RETRY_CEILING_SECS },
        };
        TransportAdapter::new(
            policy,
            self.config.waku.pubsub_topic.as_str(),
            self.config.waku.content_topic.as_str(),
        )
    }

    /// The pipeline for one direction, over the watermarks and the ledger in
    /// `store`.
    pub fn pipeline(&self, direction: Direction, store: CursorStore) -> (r: RelayPipeline)
        ensures
            r.wf(),
            r@ == spec_pipeline(direction, store),
            r.holds(&store),
    {
        RelayPipeline::new(direction, store, self.settings())
    }

    /// The pipeline from the polled network to the pub/sub network.
    pub fn from_nostr_to_waku(&self, store: CursorStore) -> (r: RelayPipeline)
        ensures
            r.wf(),
            r@ == spec_pipeline(Direction::NostrToWaku, store),
            r.holds(&store),
    {
        self.pipeline(Direction::NostrToWaku, store)
    }

    /// The pipeline from the pub/sub network to the polled network.
    pub fn from_waku_to_nostr(&self, store: CursorStore) -> (r: RelayPipeline)
        ensures
            r.wf(),
            r@ == spec_pipeline(Direction::WakuToNostr, store),
            r.holds(&store),
    {
        self.pipeline(Direction::WakuToNostr, store)
    }

    /// The pipeline from the polled network to the indexing webhook.
    pub fn from_nostr_to_indexdb(&self, store: CursorStore) -> (r: RelayPipeline)
        ensures
            r.wf(),
            r@ == spec_pipeline(Direction::NostrToIndexdb, store),
            r.holds(&store),
    {
        self.pipeline(Direction::NostrToIndexdb, store)
    }

    /// The message that carries `event` to the pub/sub network's send
    /// endpoint, under the content topic of the configuration.
    pub fn waku_message(&self, event: &Event) -> (r: WakuMessage)
        ensures
            r@ == (WakuMessageView {
                payload: base64_text(event.payload@),
                content_topic: self.spec_config().waku.content_topic@,
            }),
    {
        WakuMessage::from_event(event, self.config.waku.content_topic.as_str())
    }
}

} // verus!
