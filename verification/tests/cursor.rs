use nostr_waku_relay::cursor::{CursorStore, Watermark};
use nostr_waku_relay::direction::Direction;

#[test]
fn new_store_is_empty() {
    let store = CursorStore::new();
    assert_eq!(store.peek_watermark(Direction::NostrToWaku), None);
    assert_eq!(store.peek_watermark(Direction::WakuToNostr), None);
    assert_eq!(store.peek_watermark(Direction::NostrToIndexdb), None);
    assert!(!store.has_seen("a"));
    assert_eq!(store.first_seen("a"), None);
}

#[test]
fn get_watermark_creates_the_record_with_the_default() {
    let mut store = CursorStore::new();
    assert_eq!(store.get_watermark(Direction::NostrToWaku, 42, 1000), 42);
    assert_eq!(
        store.peek_watermark(Direction::NostrToWaku),
        Some(Watermark { value: 42, updated_at: 1000 })
    );
}

#[test]
fn get_watermark_returns_what_is_there_and_ignores_the_default() {
    let mut store = CursorStore::new();
    assert_eq!(store.get_watermark(Direction::NostrToWaku, 42, 1000), 42);
    assert_eq!(store.get_watermark(Direction::NostrToWaku, 7, 2000), 42);
    assert_eq!(store.get_watermark(Direction::NostrToWaku, 99, 3000), 42);
    assert_eq!(
        store.peek_watermark(Direction::NostrToWaku),
        Some(Watermark { value: 42, updated_at: 1000 })
    );
}

#[test]
fn advance_takes_the_larger_value() {
    let mut store = CursorStore::new();
    store.get_watermark(Direction::NostrToWaku, 5, 1);
    store.advance_watermark(Direction::NostrToWaku, 8, 2);
    assert_eq!(
        store.peek_watermark(Direction::NostrToWaku),
        Some(Watermark { value: 8, updated_at: 2 })
    );
}

#[test]
fn advance_with_a_smaller_or_equal_candidate_changes_nothing() {
    let mut store = CursorStore::new();
    store.get_watermark(Direction::NostrToWaku, 5, 1);
    store.advance_watermark(Direction::NostrToWaku, 8, 2);
    store.advance_watermark(Direction::NostrToWaku, 8, 3);
    store.advance_watermark(Direction::NostrToWaku, 3, 4);
    store.advance_watermark(Direction::NostrToWaku, 0, 5);
    assert_eq!(
        store.peek_watermark(Direction::NostrToWaku),
        Some(Watermark { value: 8, updated_at: 2 })
    );
}

#[test]
fn advance_without_a_record_changes_nothing() {
    let mut store = CursorStore::new();
    store.advance_watermark(Direction::NostrToWaku, 8, 2);
    store.advance_watermark(Direction::NostrToWaku, 9, 3);
    assert_eq!(store.peek_watermark(Direction::NostrToWaku), None);
}

#[test]
fn watermark_never_decreases_over_any_order_of_candidates() {
    let mut store = CursorStore::new();
    let mut last = store.get_watermark(Direction::NostrToIndexdb, 10, 0);
    let mut written = 0;
    for (time, candidate) in [3u64, 12, 11, 12, 0, u64::MAX, 5, u64::MAX].into_iter().enumerate() {
        let time = time as i64 + 1;
        store.advance_watermark(Direction::NostrToIndexdb, candidate, time);
        let shown = store.get_watermark(Direction::NostrToIndexdb, 0, time);
        assert!(shown >= last);
        assert_eq!(shown, last.max(candidate));
        // The time of writing moves with the value, and only with it.
        if shown > last {
            written = time;
        }
        assert_eq!(
            store.peek_watermark(Direction::NostrToIndexdb),
            Some(Watermark { value: shown, updated_at: written })
        );
        last = shown;
    }
    assert_eq!(last, u64::MAX);
    assert_eq!(written, 6);
}

#[test]
fn directions_do_not_share_a_watermark() {
    let mut store = CursorStore::new();
    store.get_watermark(Direction::NostrToWaku, 1, 10);
    store.get_watermark(Direction::WakuToNostr, 2, 20);
    store.advance_watermark(Direction::NostrToWaku, 100, 30);
    assert_eq!(
        store.peek_watermark(Direction::WakuToNostr),
        Some(Watermark { value: 2, updated_at: 20 })
    );
    assert_eq!(store.peek_watermark(Direction::NostrToIndexdb), None);
    assert_eq!(
        store.peek_watermark(Direction::NostrToWaku),
        Some(Watermark { value: 100, updated_at: 30 })
    );
}

#[test]
fn record_seen_is_idempotent_and_keeps_the_first_time() {
    let mut store = CursorStore::new();
    store.record_seen("a", 100);
    store.record_seen("a", 200);
    store.record_seen("a", 50);
    assert!(store.has_seen("a"));
    assert_eq!(store.first_seen("a"), Some(100));
    assert!(!store.has_seen("b"));
    assert!(!store.has_seen(""));
    assert!(!store.has_seen("aa"));
}

#[test]
fn record_seen_stamps_the_time_it_is_given() {
    let mut store = CursorStore::new();
    store.record_seen("early", -5);
    store.record_seen("late", i64::MAX);
    assert_eq!(store.first_seen("early"), Some(-5));
    assert_eq!(store.first_seen("late"), Some(i64::MAX));
}

#[test]
fn the_ledger_does_not_touch_the_watermarks() {
    let mut store = CursorStore::new();
    store.get_watermark(Direction::NostrToWaku, 4, 1);
    store.record_seen("a", 2);
    store.record_seen("b", 3);
    assert_eq!(
        store.peek_watermark(Direction::NostrToWaku),
        Some(Watermark { value: 4, updated_at: 1 })
    );
    assert_eq!(store.first_seen("b"), Some(3));
}
