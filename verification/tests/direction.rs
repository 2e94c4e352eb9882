use nostr_waku_relay::direction::Direction;

#[test]
fn every_direction_is_read_back_from_its_name() {
    for direction in [Direction::NostrToWaku, Direction::WakuToNostr, Direction::NostrToIndexdb] {
        assert_eq!(Direction::parse(direction.key()), Some(direction));
    }
}

#[test]
fn the_names_of_the_directions() {
    assert_eq!(Direction::NostrToWaku.key(), "a2b");
    assert_eq!(Direction::WakuToNostr.key(), "b2a");
    assert_eq!(Direction::NostrToIndexdb.key(), "a2index");
}

#[test]
fn the_names_differ() {
    assert_ne!(Direction::NostrToWaku.key(), Direction::WakuToNostr.key());
    assert_ne!(Direction::NostrToWaku.key(), Direction::NostrToIndexdb.key());
    assert_ne!(Direction::WakuToNostr.key(), Direction::NostrToIndexdb.key());
}

#[test]
fn other_text_names_no_direction() {
    for token in ["", "a2", "a2bb", "a2indexes", "B2A", "index", "a2b\n"] {
        assert_eq!(Direction::parse(token), None);
    }
}
