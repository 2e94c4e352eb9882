//! The directions in which events are relayed, and the names they go by on the
//! command line and in the persisted watermark records.

use vstd::prelude::*;

verus! {

/// One direction of relaying. Every direction owns a watermark of its own.
#[derive(Clone, Copy, Debug, PartialEq, Eq, Structural)]
pub enum Direction {
    /// From the polled network to the pub/sub network.
    NostrToWaku,
    /// From the pub/sub network to the polled network.
    WakuToNostr,
    /// From the polled network to the indexing webhook.
    NostrToIndexdb,
}

impl Direction {
    /// The name of the direction: the token that selects it on the command
    /// line and the key of its watermark record.
    pub open spec fn spec_key(self) -> Seq<char> {
        match self {
            Direction::NostrToWaku => "a2b"@,
            Direction::WakuToNostr => "b2a"@,
            Direction::NostrToIndexdb => "a2index"@,
        }
    }

    /// The name of the direction.
    pub fn key(&self) -> (r: &'static str)
        ensures
            r@ == self.spec_key(),
    {
        match self {
            Direction::NostrToWaku => "a2b",
            Direction::WakuToNostr => "b2a",
            Direction::NostrToIndexdb => "a2index",
        }
    }

    /// Reads a direction from its name. Any other text names no direction.
    pub fn parse(token: &str) -> (r: Option<Direction>)
        ensures
            r is Some ==> token@ == r->0.spec_key(),
            r is None ==> forall|d: Direction| token@ != d.spec_key(),
    {
        let owned = token.to_owned();
        if owned == "a2b".to_owned() {
            Some(Direction::NostrToWaku)
        } else if owned == "b2a".to_owned() {
            Some(Direction::WakuToNostr)
        } else if owned == "a2index".to_owned() {
            Some(Direction::NostrToIndexdb)
        } else {
            None
        }
    }
}

/// Two different directions never share a name, so they never share a
/// watermark record.
pub proof fn lemma_keys_distinct(a: Direction, b: Direction)
    ensures
        a.spec_key() == b.spec_key() <==> a == b,
{
    reveal_strlit("a2b");
    reveal_strlit("b2a");
    reveal_strlit("a2index");
    if a != b {
        assert(a.spec_key().len() != b.spec_key().len() || a.spec_key()[0] != b.spec_key()[0]);
    }
}

} // verus!
