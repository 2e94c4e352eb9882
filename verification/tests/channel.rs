use nostr_waku_relay::channel::Channel;
use nostr_waku_relay::event::Event;

fn event(id: &str) -> Event {
    Event::new(id, 1, "payload", "pk")
}

#[test]
fn new_channel_is_empty() {
    let channel = Channel::new(3);
    assert_eq!(channel.len(), 0);
    assert_eq!(channel.capacity(), 3);
    assert!(channel.is_empty());
    assert!(!channel.is_full());
}

#[test]
fn events_leave_in_the_order_they_entered() {
    let mut channel = Channel::new(3);
    assert!(channel.try_send(event("a")).is_ok());
    assert!(channel.try_send(event("b")).is_ok());
    assert!(channel.try_send(event("c")).is_ok());
    assert_eq!(channel.try_recv().unwrap().id, "a");
    assert_eq!(channel.try_recv().unwrap().id, "b");
    assert_eq!(channel.try_recv().unwrap().id, "c");
    assert!(channel.try_recv().is_none());
}

#[test]
fn a_full_channel_hands_the_event_back_and_keeps_what_it_has() {
    let mut channel = Channel::new(2);
    assert!(channel.try_send(event("a")).is_ok());
    assert!(channel.try_send(event("b")).is_ok());
    assert!(channel.is_full());
    let back = channel.try_send(event("c")).unwrap_err();
    assert_eq!(back.id, "c");
    assert_eq!(back.payload, "payload");
    assert_eq!(channel.len(), 2);
    assert_eq!(channel.try_recv().unwrap().id, "a");
    assert!(channel.try_send(back).is_ok());
    assert_eq!(channel.try_recv().unwrap().id, "b");
    assert_eq!(channel.try_recv().unwrap().id, "c");
}

#[test]
fn a_channel_without_room_takes_nothing() {
    let mut channel = Channel::new(0);
    assert!(channel.is_full());
    assert!(channel.is_empty());
    assert_eq!(channel.try_send(event("a")).unwrap_err().id, "a");
    assert!(channel.try_recv().is_none());
}

#[test]
fn an_empty_channel_gives_nothing() {
    let mut channel = Channel::new(1);
    assert!(channel.try_recv().is_none());
    assert_eq!(channel.len(), 0);
}
