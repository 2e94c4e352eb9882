use nostr_waku_relay::backoff::Backoff;
use nostr_waku_relay::cursor::{CursorStore, Watermark};
use nostr_waku_relay::direction::Direction;
use nostr_waku_relay::event::Event;
use nostr_waku_relay::pipeline::{
    Action, DrainAction, DrainInput, DrainState, Input, Offer, PipelineSettings, PipelineState,
    RelayPipeline,
};
use nostr_waku_relay::transport::{ReconnectPolicy, TransportAdapter};

/// The time of every report in these tests.
const NOW: i64 = 1_700_000_100;

fn settings(capacity: usize, attempts: u32) -> PipelineSettings {
    PipelineSettings {
        initial_watermark: 0,
        fetch_limit: 100,
        channel_capacity: capacity,
        poll_interval_secs: 10,
        fetch_backoff_secs: 3,
        max_forward_attempts: attempts,
        retry_backoff: Backoff { base_secs: 1, ceiling_secs: 8 },
    }
}

fn event(id: &str, t: u64) -> Event {
    Event::new(id, t, "{}", "pk")
}

fn record(id: &str) -> Action {
    Action::RecordSeen { id: id.to_string() }
}

fn write(value: u64) -> Action {
    Action::WriteWatermark { direction: Direction::NostrToWaku, value }
}

fn forwarded_id(action: DrainAction) -> String {
    match action {
        DrainAction::Forward(e) => e.id,
        other => panic!("expected a forward, got {:?}", other),
    }
}

fn fresh_pipeline(capacity: usize, attempts: u32) -> RelayPipeline {
    RelayPipeline::new(Direction::NostrToWaku, CursorStore::new(), settings(capacity, attempts))
}

/// A pipeline that has handed on a batch of two events and sleeps.
fn after_first_batch() -> RelayPipeline {
    let mut p = fresh_pipeline(100, 4);
    assert_eq!(p.step(Input::Start, NOW), Action::Fetch { since: 0, limit: 100 });
    assert_eq!(p.state(), PipelineState::Fetching);
    assert_eq!(p.step(Input::Fetched(vec![event("a", 5), event("b", 8)]), NOW), record("a"));
    assert_eq!(p.state(), PipelineState::Deduping);
    assert_eq!(p.step(Input::SeenRecorded, NOW), record("b"));
    assert_eq!(p.step(Input::SeenRecorded, NOW), write(8));
    assert_eq!(p.state(), PipelineState::Draining);
    assert_eq!(p.watermark(), Some(0));
    assert_eq!(p.step(Input::WatermarkWritten, NOW), Action::Sleep { seconds: 10 });
    p
}

#[test]
fn a_new_pipeline_is_idle() {
    let p = fresh_pipeline(4, 4);
    assert_eq!(p.state(), PipelineState::Idle);
    assert_eq!(p.drain_state(), DrainState::Waiting);
    assert_eq!(p.direction(), Direction::NostrToWaku);
    assert_eq!(p.watermark(), None);
    assert_eq!(p.queued(), 0);
    assert_eq!(p.delivered(), 0);
    assert_eq!(p.dropped(), 0);
}

#[test]
fn first_batch_is_forwarded_and_recorded() {
    let mut p = after_first_batch();
    assert_eq!(p.state(), PipelineState::Sleeping);
    assert_eq!(p.watermark(), Some(8));
    assert!(p.has_seen("a"));
    assert!(p.has_seen("b"));
    assert!(!p.has_seen("c"));
    assert_eq!(p.queued(), 2);
    assert_eq!(forwarded_id(p.drain(DrainInput::Ready)), "a");
    assert_eq!(forwarded_id(p.drain(DrainInput::ForwardOk)), "b");
    assert!(matches!(p.drain(DrainInput::ForwardOk), DrainAction::AwaitItem));
    assert_eq!(p.delivered(), 2);
    assert_eq!(p.dropped(), 0);
}

#[test]
fn stale_duplicate_is_not_forwarded_again() {
    let mut p = after_first_batch();
    assert_eq!(p.step(Input::Woke, NOW), Action::Fetch { since: 8, limit: 100 });
    assert_eq!(p.step(Input::Fetched(vec![event("a", 5)]), NOW), Action::Sleep { seconds: 10 });
    assert_eq!(p.watermark(), Some(8));
    assert_eq!(p.queued(), 2);
    assert_eq!(p.state(), PipelineState::Sleeping);
}

#[test]
fn sink_fails_three_times_then_takes_the_event() {
    let mut p = fresh_pipeline(4, 4);
    p.step(Input::Start, NOW);
    assert_eq!(p.step(Input::Fetched(vec![event("c", 1)]), NOW), record("c"));
    assert_eq!(p.step(Input::SeenRecorded, NOW), write(1));

    let mut forwards = 0;
    assert_eq!(forwarded_id(p.drain(DrainInput::Ready)), "c");
    forwards += 1;
    for pause in [1u64, 2, 4] {
        match p.drain(DrainInput::ForwardFailed) {
            DrainAction::Backoff { seconds } => assert_eq!(seconds, pause),
            other => panic!("expected a pause, got {:?}", other),
        }
        assert_eq!(p.drain_state(), DrainState::BackingOff);
        assert_eq!(forwarded_id(p.drain(DrainInput::Ready)), "c");
        forwards += 1;
    }
    assert_eq!(forwards, 4);
    // The fourth attempt succeeds: the event is done and is not offered again.
    assert!(matches!(p.drain(DrainInput::ForwardOk), DrainAction::AwaitItem));
    assert!(matches!(p.drain(DrainInput::Ready), DrainAction::AwaitItem));
    assert!(matches!(p.drain(DrainInput::ForwardOk), DrainAction::Nothing));
    assert_eq!(p.delivered(), 1);
    assert_eq!(p.dropped(), 0);
    assert_eq!(p.queued(), 0);
}

#[test]
fn an_event_is_given_up_after_the_last_attempt_allowed() {
    let mut p = fresh_pipeline(4, 2);
    p.step(Input::Start, NOW);
    p.step(Input::Fetched(vec![event("x", 1), event("y", 2)]), NOW);
    p.step(Input::SeenRecorded, NOW);
    p.step(Input::SeenRecorded, NOW);
    assert_eq!(forwarded_id(p.drain(DrainInput::Ready)), "x");
    assert!(matches!(p.drain(DrainInput::ForwardFailed), DrainAction::Backoff { seconds: 1 }));
    assert_eq!(forwarded_id(p.drain(DrainInput::Ready)), "x");
    match p.drain(DrainInput::ForwardFailed) {
        DrainAction::Dropped(e) => assert_eq!(e.id, "x"),
        other => panic!("expected the event to be given up, got {:?}", other),
    }
    assert_eq!(p.dropped(), 1);
    assert_eq!(p.delivered(), 0);
    // The next event is not held up.
    assert_eq!(forwarded_id(p.drain(DrainInput::Ready)), "y");
    assert!(matches!(p.drain(DrainInput::ForwardOk), DrainAction::AwaitItem));
    assert_eq!(p.delivered(), 1);
}

#[test]
fn an_event_is_offered_once_even_where_no_attempt_is_allowed() {
    let mut p = fresh_pipeline(4, 0);
    p.step(Input::Start, NOW);
    p.step(Input::Fetched(vec![event("x", 1)]), NOW);
    p.step(Input::SeenRecorded, NOW);
    assert_eq!(forwarded_id(p.drain(DrainInput::Ready)), "x");
    assert!(matches!(p.drain(DrainInput::ForwardFailed), DrainAction::Dropped(_)));
    assert_eq!(p.dropped(), 1);
}

#[test]
fn a_malformed_event_is_passed_over_at_once() {
    let mut p = fresh_pipeline(4, 4);
    p.step(Input::Start, NOW);
    p.step(Input::Fetched(vec![event("bad", 1), event("good", 2)]), NOW);
    p.step(Input::SeenRecorded, NOW);
    p.step(Input::SeenRecorded, NOW);
    assert_eq!(forwarded_id(p.drain(DrainInput::Ready)), "bad");
    match p.drain(DrainInput::Malformed) {
        DrainAction::Dropped(e) => assert_eq!(e.id, "bad"),
        other => panic!("expected the event to be given up, got {:?}", other),
    }
    assert_eq!(forwarded_id(p.drain(DrainInput::Ready)), "good");
    assert_eq!(p.dropped(), 1);
}

#[test]
fn restart_forwards_only_what_is_new() {
    let mut store = CursorStore::new();
    store.get_watermark(Direction::NostrToWaku, 8, 1);
    store.record_seen("a", 1);
    store.record_seen("b", 1);
    let mut p = RelayPipeline::new(Direction::NostrToWaku, store, settings(100, 4));
    assert_eq!(p.watermark(), Some(8));
    assert_eq!(p.step(Input::Start, NOW), Action::Fetch { since: 8, limit: 100 });
    assert_eq!(
        p.step(Input::Fetched(vec![event("a", 5), event("b", 8), event("c", 9)]), NOW),
        record("c")
    );
    assert_eq!(p.step(Input::SeenRecorded, NOW), write(9));
    assert_eq!(p.queued(), 1);
    assert_eq!(forwarded_id(p.drain(DrainInput::Ready)), "c");
    assert!(matches!(p.drain(DrainInput::ForwardOk), DrainAction::AwaitItem));
    assert_eq!(p.step(Input::WatermarkWritten, NOW), Action::Sleep { seconds: 10 });
    assert_eq!(p.watermark(), Some(9));
}

#[test]
fn no_identifier_enters_the_channel_twice_over_overlapping_windows() {
    let mut p = fresh_pipeline(100, 4);
    let mut entered: Vec<String> = Vec::new();
    let windows: Vec<Vec<(&str, u64)>> = vec![
        vec![("a", 1), ("b", 2), ("c", 3)],
        vec![("b", 2), ("c", 3), ("d", 4)],
        vec![("a", 1), ("d", 4), ("d", 4), ("e", 5), ("a", 1)],
        vec![],
        vec![("e", 5), ("f", 6)],
    ];
    let mut action = p.step(Input::Start, NOW);
    for window in windows {
        assert!(matches!(action, Action::Fetch { .. }));
        let batch = window.iter().map(|(id, t)| event(id, *t)).collect();
        action = p.step(Input::Fetched(batch), NOW);
        loop {
            match action {
                Action::RecordSeen { .. } => action = p.step(Input::SeenRecorded, NOW),
                Action::WriteWatermark { .. } => action = p.step(Input::WatermarkWritten, NOW),
                Action::Sleep { .. } => break,
                other => panic!("unexpected {:?}", other),
            }
        }
        let mut answer = p.drain(DrainInput::Ready);
        while let DrainAction::Forward(e) = answer {
            entered.push(e.id);
            answer = p.drain(DrainInput::ForwardOk);
        }
        action = p.step(Input::Woke, NOW);
    }
    assert_eq!(entered, vec!["a", "b", "c", "d", "e", "f"]);
    assert_eq!(p.watermark(), Some(6));
}

#[test]
fn a_full_channel_holds_the_fetching_half_and_loses_nothing() {
    let mut p = fresh_pipeline(2, 4);
    p.step(Input::Start, NOW);
    assert_eq!(
        p.step(Input::Fetched(vec![event("a", 1), event("b", 2), event("c", 3)]), NOW),
        record("a")
    );
    assert_eq!(p.step(Input::SeenRecorded, NOW), record("b"));
    assert_eq!(p.step(Input::SeenRecorded, NOW), record("c"));
    // Two events are in the channel; the third has nowhere to go.
    assert_eq!(p.step(Input::SeenRecorded, NOW), Action::AwaitSpace);
    assert_eq!(p.state(), PipelineState::Enqueuing);
    assert_eq!(p.queued(), 2);
    // With the other half stalled, asking again changes nothing.
    assert_eq!(p.step(Input::SpaceAvailable, NOW), Action::AwaitSpace);
    assert_eq!(p.step(Input::SpaceAvailable, NOW), Action::AwaitSpace);
    assert_eq!(p.queued(), 2);
    assert_eq!(p.watermark(), Some(0));
    // Once an event has left, the event in hand enters.
    assert_eq!(forwarded_id(p.drain(DrainInput::Ready)), "a");
    assert_eq!(p.step(Input::SpaceAvailable, NOW), write(3));
    assert_eq!(p.queued(), 2);
    assert_eq!(forwarded_id(p.drain(DrainInput::ForwardOk)), "b");
    assert_eq!(forwarded_id(p.drain(DrainInput::ForwardOk)), "c");
    assert!(matches!(p.drain(DrainInput::ForwardOk), DrainAction::AwaitItem));
    assert_eq!(p.delivered(), 3);
}

#[test]
fn a_failed_fetch_leaves_the_watermark_and_is_tried_again() {
    let mut p = after_first_batch();
    assert_eq!(p.step(Input::Woke, NOW), Action::Fetch { since: 8, limit: 100 });
    assert_eq!(p.step(Input::FetchFailed, NOW), Action::Sleep { seconds: 3 });
    assert_eq!(p.state(), PipelineState::Sleeping);
    assert_eq!(p.watermark(), Some(8));
    assert_eq!(p.step(Input::Woke, NOW), Action::Fetch { since: 8, limit: 100 });
}

#[test]
fn a_failed_watermark_write_does_not_advance_the_watermark() {
    let mut p = fresh_pipeline(4, 4);
    p.step(Input::Start, NOW);
    p.step(Input::Fetched(vec![event("a", 5)]), NOW);
    assert_eq!(p.step(Input::SeenRecorded, NOW), write(5));
    assert_eq!(p.step(Input::PersistFailed, NOW), Action::Sleep { seconds: 10 });
    assert_eq!(p.watermark(), Some(0));
    // The next cycle asks for the same range; what was handed on is not
    // handed on again.
    assert_eq!(p.step(Input::Woke, NOW), Action::Fetch { since: 0, limit: 100 });
    assert_eq!(p.step(Input::Fetched(vec![event("a", 5)]), NOW), Action::Sleep { seconds: 10 });
    assert_eq!(p.queued(), 1);
}

#[test]
fn a_failed_ledger_write_ends_the_batch_without_the_event() {
    let mut p = fresh_pipeline(4, 4);
    p.step(Input::Start, NOW);
    assert_eq!(p.step(Input::Fetched(vec![event("a", 5), event("b", 6)]), NOW), record("a"));
    assert_eq!(p.step(Input::SeenRecorded, NOW), record("b"));
    assert_eq!(p.step(Input::PersistFailed, NOW), Action::Sleep { seconds: 3 });
    assert_eq!(p.state(), PipelineState::Sleeping);
    assert!(p.has_seen("a"));
    assert!(!p.has_seen("b"));
    assert_eq!(p.queued(), 1);
    assert_eq!(p.watermark(), Some(0));
    // The same range comes again: only the event that was not recorded
    // enters.
    assert_eq!(p.step(Input::Woke, NOW), Action::Fetch { since: 0, limit: 100 });
    assert_eq!(p.step(Input::Fetched(vec![event("a", 5), event("b", 6)]), NOW), record("b"));
    assert_eq!(p.step(Input::SeenRecorded, NOW), write(6));
    assert_eq!(p.queued(), 2);
}

#[test]
fn the_watermark_is_the_latest_time_among_what_entered() {
    let mut p = after_first_batch();
    p.step(Input::Woke, NOW);
    // Not in ascending order, and the latest event was seen before.
    let batch = vec![event("d", 20), event("c", 12), event("b", 99), event("e", 15)];
    assert_eq!(p.step(Input::Fetched(batch), NOW), record("d"));
    assert_eq!(p.step(Input::SeenRecorded, NOW), record("c"));
    assert_eq!(p.step(Input::SeenRecorded, NOW), record("e"));
    assert_eq!(p.step(Input::SeenRecorded, NOW), write(20));
    p.step(Input::WatermarkWritten, NOW);
    assert_eq!(p.watermark(), Some(20));
}

#[test]
fn events_older_than_the_watermark_still_enter_but_do_not_move_it() {
    let mut p = after_first_batch();
    p.step(Input::Woke, NOW);
    assert_eq!(p.step(Input::Fetched(vec![event("old", 2)]), NOW), record("old"));
    assert_eq!(p.step(Input::SeenRecorded, NOW), Action::Sleep { seconds: 10 });
    assert_eq!(p.watermark(), Some(8));
    assert_eq!(p.queued(), 3);
}

#[test]
fn an_empty_batch_ends_the_cycle() {
    let mut p = fresh_pipeline(4, 4);
    p.step(Input::Start, NOW);
    assert_eq!(p.step(Input::Fetched(vec![]), NOW), Action::Sleep { seconds: 10 });
    assert_eq!(p.state(), PipelineState::Sleeping);
    assert_eq!(p.watermark(), Some(0));
}

#[test]
fn the_initial_watermark_is_used_where_none_is_stored() {
    let mut custom = settings(4, 4);
    custom.initial_watermark = 1_700_000_000;
    custom.fetch_limit = 7;
    let mut p = RelayPipeline::new(Direction::NostrToIndexdb, CursorStore::new(), custom);
    assert_eq!(p.step(Input::Start, NOW), Action::Fetch { since: 1_700_000_000, limit: 7 });
    assert_eq!(p.watermark(), Some(1_700_000_000));
    assert_eq!(
        p.step(Input::Fetched(vec![event("a", 1_700_000_001)]), NOW),
        record("a")
    );
    assert_eq!(
        p.step(Input::SeenRecorded, NOW),
        Action::WriteWatermark { direction: Direction::NostrToIndexdb, value: 1_700_000_001 }
    );
}

#[test]
fn reports_that_do_not_belong_change_nothing() {
    let mut p = fresh_pipeline(4, 4);
    for input in [
        Input::Woke,
        Input::Fetched(vec![event("a", 1)]),
        Input::FetchFailed,
        Input::SeenRecorded,
        Input::SpaceAvailable,
        Input::WatermarkWritten,
        Input::PersistFailed,
    ] {
        assert_eq!(p.step(input, NOW), Action::Nothing);
        assert_eq!(p.state(), PipelineState::Idle);
    }
    assert!(!p.has_seen("a"));
    assert_eq!(p.queued(), 0);
    p.step(Input::Start, NOW);
    assert_eq!(p.step(Input::Start, NOW), Action::Nothing);
    assert_eq!(p.step(Input::SeenRecorded, NOW), Action::Nothing);
    assert_eq!(p.state(), PipelineState::Fetching);
    assert!(matches!(p.drain(DrainInput::ForwardOk), DrainAction::Nothing));
    assert!(matches!(p.drain(DrainInput::ForwardFailed), DrainAction::Nothing));
    assert!(matches!(p.drain(DrainInput::Malformed), DrainAction::Nothing));
}

#[test]
fn shutdown_stops_fetching_and_drains_what_is_left() {
    let mut p = after_first_batch();
    assert_eq!(p.step(Input::Shutdown, NOW), Action::Stop);
    assert_eq!(p.state(), PipelineState::ShuttingDown);
    assert_eq!(p.step(Input::Woke, NOW), Action::Stop);
    assert_eq!(p.step(Input::Start, NOW), Action::Stop);
    assert_eq!(p.step(Input::Fetched(vec![event("z", 50)]), NOW), Action::Stop);
    assert!(!p.has_seen("z"));
    assert_eq!(p.watermark(), Some(8));
    assert_eq!(forwarded_id(p.drain(DrainInput::Ready)), "a");
    assert_eq!(forwarded_id(p.drain(DrainInput::ForwardOk)), "b");
    assert!(matches!(p.drain(DrainInput::ForwardOk), DrainAction::Stop));
    assert!(matches!(p.drain(DrainInput::Ready), DrainAction::Stop));
}

#[test]
fn shutdown_in_the_middle_of_a_batch_keeps_what_was_done() {
    let mut p = fresh_pipeline(4, 4);
    p.step(Input::Start, NOW);
    p.step(Input::Fetched(vec![event("a", 1), event("b", 2)]), NOW);
    assert_eq!(p.step(Input::SeenRecorded, NOW), record("b"));
    assert_eq!(p.step(Input::Shutdown, NOW), Action::Stop);
    assert_eq!(p.step(Input::SeenRecorded, NOW), Action::Stop);
    assert!(p.has_seen("a"));
    assert!(!p.has_seen("b"));
    assert_eq!(p.queued(), 1);
    assert_eq!(p.watermark(), Some(0));
}

#[test]
fn offer_takes_each_identifier_once() {
    let mut p = RelayPipeline::new(Direction::WakuToNostr, CursorStore::new(), settings(1, 4));
    assert!(matches!(p.offer(event("m1", 1), NOW), Offer::Accepted));
    assert!(matches!(p.offer(event("m1", 1), NOW), Offer::Duplicate));
    match p.offer(event("m2", 2), NOW) {
        Offer::Full(back) => assert_eq!(back.id, "m2"),
        other => panic!("expected a full channel, got {:?}", other),
    }
    assert!(!p.has_seen("m2"));
    assert_eq!(forwarded_id(p.drain(DrainInput::Ready)), "m1");
    assert_eq!(p.drain_state(), DrainState::Forwarding);
    assert!(matches!(p.offer(event("m2", 2), NOW), Offer::Accepted));
    assert!(p.has_seen("m2"));
    assert_eq!(forwarded_id(p.drain(DrainInput::ForwardOk)), "m2");
}

#[test]
fn offer_is_refused_by_a_pipeline_that_polls_or_shuts_down() {
    let mut p = fresh_pipeline(4, 4);
    p.step(Input::Start, NOW);
    match p.offer(event("m", 1), NOW) {
        Offer::Rejected(back) => assert_eq!(back.id, "m"),
        other => panic!("expected a refusal, got {:?}", other),
    }
    let mut q = fresh_pipeline(4, 4);
    q.step(Input::Shutdown, NOW);
    assert!(matches!(q.offer(event("m", 1), NOW), Offer::Rejected(_)));
    assert!(!q.has_seen("m"));
}

#[test]
fn forwarding_fails_while_the_transport_is_down_and_goes_on_after() {
    let policy =
        ReconnectPolicy { startup_attempts: 3, backoff: Backoff { base_secs: 1, ceiling_secs: 4 } };
    let mut transport = TransportAdapter::new(policy, "pubsub", "content");
    transport.on_connected();
    let mut p = fresh_pipeline(4, 4);
    p.step(Input::Start, NOW);
    p.step(Input::Fetched(vec![event("a", 1), event("b", 2)]), NOW);
    p.step(Input::SeenRecorded, NOW);
    p.step(Input::SeenRecorded, NOW);

    let mut sent: Vec<String> = Vec::new();
    let mut answer = p.drain(DrainInput::Ready);
    let mut rounds = 0;
    loop {
        rounds += 1;
        if rounds == 2 {
            transport.on_disconnected();
        }
        if rounds == 4 {
            transport.on_connected();
        }
        answer = match answer {
            DrainAction::Forward(e) => match transport.publish(&e.payload) {
                Ok(_) => {
                    sent.push(e.id);
                    p.drain(DrainInput::ForwardOk)
                }
                Err(error) => {
                    assert!(error.is_retryable());
                    p.drain(DrainInput::ForwardFailed)
                }
            },
            DrainAction::Backoff { .. } => p.drain(DrainInput::Ready),
            DrainAction::AwaitItem => break,
            other => panic!("unexpected {:?}", other),
        };
    }
    assert_eq!(sent, vec!["a", "b"]);
    assert_eq!(p.delivered(), 2);
    assert_eq!(p.dropped(), 0);
    assert_eq!(p.state(), PipelineState::Draining);
}

#[test]
fn what_is_written_to_the_store_is_written_at_the_time_of_the_report() {
    let mut store = CursorStore::new();
    store.get_watermark(Direction::WakuToNostr, 3, 1);
    store.record_seen("old", 2);
    let mut p = RelayPipeline::new(Direction::NostrToWaku, store, settings(4, 4));
    assert_eq!(p.record_of(Direction::NostrToWaku), None);

    p.step(Input::Start, 10);
    assert_eq!(
        p.record_of(Direction::NostrToWaku),
        Some(Watermark { value: 0, updated_at: 10 })
    );
    p.step(Input::Fetched(vec![event("old", 4), event("a", 5), event("b", 8)]), 11);
    assert_eq!(p.first_seen("a"), None);
    p.step(Input::SeenRecorded, 12);
    p.step(Input::SeenRecorded, 13);
    assert_eq!(p.first_seen("a"), Some(12));
    assert_eq!(p.first_seen("b"), Some(13));
    assert_eq!(p.first_seen("old"), Some(2));
    assert_eq!(
        p.record_of(Direction::NostrToWaku),
        Some(Watermark { value: 0, updated_at: 10 })
    );
    p.step(Input::WatermarkWritten, 14);
    assert_eq!(
        p.record_of(Direction::NostrToWaku),
        Some(Watermark { value: 8, updated_at: 14 })
    );

    // A cycle that finds nothing new writes nothing.
    p.step(Input::Woke, 20);
    p.step(Input::Fetched(vec![event("a", 5)]), 21);
    p.drain(DrainInput::Ready);
    p.step(Input::Shutdown, 22);
    assert_eq!(
        p.record_of(Direction::NostrToWaku),
        Some(Watermark { value: 8, updated_at: 14 })
    );
    assert_eq!(p.first_seen("a"), Some(12));

    // The records of the other directions are never touched.
    assert_eq!(
        p.record_of(Direction::WakuToNostr),
        Some(Watermark { value: 3, updated_at: 1 })
    );
    assert_eq!(p.record_of(Direction::NostrToIndexdb), None);
}

#[test]
fn an_offered_event_is_recorded_at_the_time_it_is_handed_in() {
    let mut p = RelayPipeline::new(Direction::WakuToNostr, CursorStore::new(), settings(1, 4));
    assert!(matches!(p.offer(event("m1", 1), 100), Offer::Accepted));
    assert!(matches!(p.offer(event("m1", 1), 200), Offer::Duplicate));
    assert!(matches!(p.offer(event("m2", 1), 300), Offer::Full(_)));
    assert_eq!(p.first_seen("m1"), Some(100));
    assert_eq!(p.first_seen("m2"), None);
    assert_eq!(p.record_of(Direction::WakuToNostr), None);
}
