use nostr_waku_relay::backoff::Backoff;

#[test]
fn the_delay_doubles_up_to_the_ceiling() {
    let backoff = Backoff { base_secs: 1, ceiling_secs: 60 };
    let delays: Vec<u64> = (0..9).map(|attempt| backoff.delay(attempt)).collect();
    assert_eq!(delays, vec![1, 2, 4, 8, 16, 32, 60, 60, 60]);
}

#[test]
fn the_delay_from_three_seconds() {
    let backoff = Backoff { base_secs: 3, ceiling_secs: 20 };
    assert_eq!(backoff.delay(0), 3);
    assert_eq!(backoff.delay(1), 6);
    assert_eq!(backoff.delay(2), 12);
    assert_eq!(backoff.delay(3), 20);
}

#[test]
fn a_base_of_zero_never_waits() {
    let backoff = Backoff { base_secs: 0, ceiling_secs: 60 };
    assert_eq!(backoff.delay(0), 0);
    assert_eq!(backoff.delay(u32::MAX), 0);
}

#[test]
fn a_base_above_the_ceiling_waits_the_ceiling() {
    let backoff = Backoff { base_secs: 10, ceiling_secs: 4 };
    assert_eq!(backoff.delay(0), 4);
    assert_eq!(backoff.delay(7), 4);
}

#[test]
fn a_ceiling_of_zero_never_waits() {
    let backoff = Backoff { base_secs: 5, ceiling_secs: 0 };
    assert_eq!(backoff.delay(0), 0);
    assert_eq!(backoff.delay(3), 0);
}

#[test]
fn the_delay_does_not_overflow() {
    let backoff = Backoff { base_secs: u64::MAX / 2 + 1, ceiling_secs: u64::MAX };
    assert_eq!(backoff.delay(0), u64::MAX / 2 + 1);
    assert_eq!(backoff.delay(1), u64::MAX);
    assert_eq!(backoff.delay(u32::MAX), u64::MAX);
    let wide = Backoff { base_secs: 1, ceiling_secs: u64::MAX };
    assert_eq!(wide.delay(63), 1u64 << 63);
    assert_eq!(wide.delay(64), u64::MAX);
    assert_eq!(wide.delay(1000), u64::MAX);
}

#[test]
fn the_delay_never_shrinks() {
    let backoff = Backoff { base_secs: 7, ceiling_secs: 1000 };
    let mut last = 0;
    for attempt in 0..40 {
        let delay = backoff.delay(attempt);
        assert!(delay >= last);
        assert!(delay <= 1000);
        last = delay;
    }
}
