use nostr_waku_relay::backoff::Backoff;
use nostr_waku_relay::config::{
    Config, DatabaseConfig, IndexdbBackendConfig, NostrConfig, ServerConfig, WakuConfig,
};
use nostr_waku_relay::consts::{
    CHANNEL_CAPACITY, CLI_VERSION, FETCH_LIMIT, LOG_BASE_NAME, LOG_DEFAULT_LEVEL, LOG_KEY_ENV,
    LOG_PATH, LOG_TIME_FORMAT,
};
use nostr_waku_relay::cursor::CursorStore;
use nostr_waku_relay::direction::Direction;
use nostr_waku_relay::event::Event;
use nostr_waku_relay::logging::{log_file_name, log_level};
use nostr_waku_relay::pipeline::{Action, Input, PipelineSettings, PipelineState};
use nostr_waku_relay::source::{FetchRequest, FilterConfig, KIND_TEXT_NOTE};
use nostr_waku_relay::supervisor::App;
use nostr_waku_relay::transport::{ConnectDecision, LinkState};

fn config() -> Config {
    Config {
        server: ServerConfig { host: "127.0.0.1".to_string(), port: "8080".to_string() },
        database: DatabaseConfig {
            db_url: "sqlite://relay.db".to_string(),
            max_connect_pool: 10,
            min_connect_pool: 1,
            connect_timeout: 5,
            acquire_timeout: 5,
        },
        indexdb_backend: IndexdbBackendConfig { invite_url: "http://index/invite".to_string() },
        waku: WakuConfig {
            node_url: "http://node".to_string(),
            send_api: "http://node/relay/v1/auto/messages".to_string(),
            pubsub_topic: "/waku/2/rs/1/0".to_string(),
            content_topic: "/relay/1/events/json".to_string(),
            node_addr: "/ip4/127.0.0.1/tcp/60000".to_string(),
            cluster_id: "1".to_string(),
            shared: "0".to_string(),
            waku_bin: "./wakunode".to_string(),
        },
        nostr: NostrConfig {
            priv_key: "nsec1".to_string(),
            ws_url: "wss://relay.example".to_string(),
        },
    }
}

#[test]
fn the_settings_of_the_application() {
    let app = App::new(config());
    assert_eq!(
        app.settings(),
        PipelineSettings {
            initial_watermark: 0,
            fetch_limit: 100,
            channel_capacity: 100,
            poll_interval_secs: 10,
            fetch_backoff_secs: 10,
            max_forward_attempts: 4,
            retry_backoff: Backoff { base_secs: 1, ceiling_secs: 60 },
        }
    );
    assert_eq!(CHANNEL_CAPACITY, 100);
    assert_eq!(FETCH_LIMIT, 100);
}

#[test]
fn the_application_keeps_its_configuration() {
    let app = App::new(config());
    assert_eq!(app.config().waku.send_api, "http://node/relay/v1/auto/messages");
    assert_eq!(app.config().indexdb_backend.invite_url, "http://index/invite");
    assert_eq!(app.config().database.max_connect_pool, 10);
}

#[test]
fn each_direction_gets_its_own_pipeline() {
    let app = App::new(config());
    assert_eq!(app.from_nostr_to_waku(CursorStore::new()).direction(), Direction::NostrToWaku);
    assert_eq!(app.from_waku_to_nostr(CursorStore::new()).direction(), Direction::WakuToNostr);
    assert_eq!(
        app.from_nostr_to_indexdb(CursorStore::new()).direction(),
        Direction::NostrToIndexdb
    );
    let p = app.pipeline(Direction::NostrToWaku, CursorStore::new());
    assert_eq!(p.state(), PipelineState::Idle);
}

#[test]
fn a_pipeline_starts_from_the_stored_watermark_of_its_direction() {
    let app = App::new(config());
    let mut store = CursorStore::new();
    store.get_watermark(Direction::NostrToWaku, 500, 1);
    store.get_watermark(Direction::NostrToIndexdb, 900, 1);
    store.record_seen("a", 1);
    let mut p = app.from_nostr_to_indexdb(store);
    assert_eq!(p.watermark(), Some(900));
    assert!(p.has_seen("a"));
    assert_eq!(p.step(Input::Start, 0), Action::Fetch { since: 900, limit: 100 });
}

#[test]
fn the_transport_uses_the_topics_of_the_configuration() {
    let app = App::new(config());
    let mut transport = app.transport();
    assert_eq!(transport.link(), LinkState::Disconnected);
    for seconds in [1u64, 2, 4, 8] {
        assert_eq!(transport.on_connect_failed(), ConnectDecision::Retry { seconds });
    }
    assert_eq!(transport.on_connect_failed(), ConnectDecision::GiveUp);
    transport.on_connected();
    let envelope = transport.publish("x").unwrap();
    assert_eq!(envelope.pubsub_topic, "/waku/2/rs/1/0");
    assert_eq!(envelope.message.content_topic, "/relay/1/events/json");
    assert_eq!(envelope.message.payload, "eA==");
}

#[test]
fn the_message_for_the_send_endpoint() {
    let app = App::new(config());
    let message = app.waku_message(&Event::new("a", 1, "{\"id\":\"a\"}", "pk"));
    assert_eq!(message.payload, "eyJpZCI6ImEifQ==");
    assert_eq!(message.content_topic, "/relay/1/events/json");
}

#[test]
fn the_default_filter() {
    let filter = FilterConfig::default();
    assert_eq!(filter.kind, KIND_TEXT_NOTE);
    assert_eq!(filter.kind, 1);
    assert_eq!(filter.tag, "waku");
    assert_eq!(filter.limit, 100);
}

#[test]
fn a_fetch_request_takes_the_filter_and_the_watermark() {
    let filter = FilterConfig::new(30023, "relay", 25);
    assert_eq!(
        filter.request(1234),
        FetchRequest {
            kind: 30023,
            tag: "relay".to_string(),
            since: 1234,
            limit: 25,
            timeout_secs: 10
        }
    );
}

#[test]
fn the_name_of_a_log_file() {
    assert_eq!(log_file_name("2024-12-04_06-23-14"), "2024-12-04_06-23-14_app.log");
    assert_eq!(log_file_name(""), "_app.log");
}

#[test]
fn the_logging_level() {
    assert_eq!(log_level(Some("debug".to_string())), "debug");
    assert_eq!(log_level(Some("".to_string())), "");
    assert_eq!(log_level(None), "info");
}

#[test]
fn the_constants_of_the_application() {
    assert_eq!(LOG_TIME_FORMAT, "%Y-%m-%d_%H-%M-%S");
    assert_eq!(LOG_PATH, "logs");
    assert_eq!(LOG_BASE_NAME, "app");
    assert_eq!(LOG_KEY_ENV, "RUST_LOG");
    assert_eq!(LOG_DEFAULT_LEVEL, "info");
    assert_eq!(CLI_VERSION, "1.0");
}
