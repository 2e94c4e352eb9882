//! The cursor store: one watermark for each direction, and the ledger of the
//! events that were already handed on.
//!
//! A watermark `w` says that every event created at or before `w` has been
//! dealt with. It only ever grows. The ledger only ever gains identifiers.

use vstd::prelude::*;
use crate::direction::Direction;

verus! {

/// The watermark record of one direction.
#[derive(Clone, Copy, Debug, PartialEq, Eq, Structural)]
pub struct Watermark {
    /// Events created at or before this time are done.
    pub value: u64,
    /// When the record was last written, in seconds since the Unix epoch.
    pub updated_at: i64,
}

/// One line of the ledger.
#[derive(Debug)]
pub struct SeenEvent {
    /// The identifier of the event.
    pub id: String,
    /// When the identifier was recorded, in seconds since the Unix epoch.
    pub first_seen: i64,
}

/// The larger of the present watermark and a candidate.
pub open spec fn advanced(current: u64, candidate: u64) -> u64 {
    if candidate > current {
        candidate
    } else {
        current
    }
}

/// The record of a direction after its watermark was read at `now`: what it
/// was, or a new one with the value `default`.
pub open spec fn read_record(row: Option<Watermark>, default: u64, now: i64) -> Watermark {
    match row {
        Some(row) => row,
        None => Watermark { value: default, updated_at: now },
    }
}

/// The record of a direction after `candidate` was offered at `now`. The
/// value is the larger of the two; the time of writing changes only with
/// the value. Where there is no record, none is made.
pub open spec fn advanced_record(row: Option<Watermark>, candidate: u64, now: i64) -> Option<
    Watermark,
> {
    match row {
        Some(row) => Some(
            if candidate > row.value {
                Watermark { value: candidate, updated_at: now }
            } else {
                row
            },
        ),
        None => None,
    }
}

/// The ledger after `id` was recorded at `now`: an identifier that is there
/// keeps its time.
pub open spec fn noted(seen: Map<Seq<char>, i64>, id: Seq<char>, now: i64) -> Map<Seq<char>, i64> {
    if seen.dom().contains(id) {
        seen
    } else {
        seen.insert(id, now)
    }
}

/// The watermark that results from offering the candidates one after the
/// other, starting from `start`.
pub open spec fn watermark_after(start: u64, candidates: Seq<u64>) -> u64
    decreases candidates.len(),
{
    if candidates.len() == 0 {
        start
    } else {
        advanced(watermark_after(start, candidates.drop_last()), candidates.last())
    }
}

/// The ledger that a sequence of lines stands for: each identifier with the
/// time of the first line that holds it.
pub open spec fn ledger_of(rows: Seq<SeenEvent>) -> Map<Seq<char>, i64>
    decreases rows.len(),
{
    if rows.len() == 0 {
        Map::empty()
    } else {
        let before = ledger_of(rows.drop_last());
        if before.dom().contains(rows.last().id@) {
            before
        } else {
            before.insert(rows.last().id@, rows.last().first_seen)
        }
    }
}

/// An identifier is in the ledger exactly when some line holds it.
pub proof fn lemma_ledger_of_contains(rows: Seq<SeenEvent>, id: Seq<char>)
    ensures
        ledger_of(rows).dom().contains(id) <==> exists|i: int|
            0 <= i < rows.len() && (#[trigger] rows[i]).id@ == id,
    decreases rows.len(),
{
    if rows.len() > 0 {
        let front = rows.drop_last();
        lemma_ledger_of_contains(front, id);
        if ledger_of(rows).dom().contains(id) {
            if ledger_of(front).dom().contains(id) {
                let i = choose|i: int| 0 <= i < front.len() && (#[trigger] front[i]).id@ == id;
                assert(rows[i].id@ == id);
            } else {
                assert(rows[rows.len() - 1].id@ == id);
            }
        }
        if exists|i: int| 0 <= i < rows.len() && (#[trigger] rows[i]).id@ == id {
            let i = choose|i: int| 0 <= i < rows.len() && (#[trigger] rows[i]).id@ == id;
            if i < front.len() {
                assert(front[i].id@ == id);
            }
        }
    }
}

/// The time that the ledger holds for an identifier is that of the first
/// line with the identifier.
pub proof fn lemma_ledger_of_first(rows: Seq<SeenEvent>, id: Seq<char>, i: int)
    requires
        0 <= i < rows.len(),
        rows[i].id@ == id,
        forall|j: int| 0 <= j < i ==> (#[trigger] rows[j]).id@ != id,
    ensures
        ledger_of(rows).dom().contains(id),
        ledger_of(rows)[id] == rows[i].first_seen,
    decreases rows.len(),
{
    let front = rows.drop_last();
    lemma_ledger_of_contains(front, id);
    if i < rows.len() - 1 {
        assert(front[i].id@ == id);
        lemma_ledger_of_first(front, id, i);
    } else {
        if ledger_of(front).dom().contains(id) {
            let j = choose|j: int| 0 <= j < front.len() && (#[trigger] front[j]).id@ == id;
            assert(rows[j].id@ == id);
        }
    }
}

/// A watermark never decreases, however many candidates are offered and in
/// whatever order: what is observed after the first `i` candidates is at most
/// what is observed after the first `j`, for `i <= j`.
pub proof fn lemma_watermark_never_decreases(start: u64, candidates: Seq<u64>, i: int, j: int)
    requires
        0 <= i <= j <= candidates.len(),
    ensures
        start <= watermark_after(start, candidates.take(i)) <= watermark_after(
            start,
            candidates.take(j),
        ),
    decreases j,
{
    if j == 0 {
        assert(candidates.take(0).len() == 0);
    } else if i == j {
        lemma_watermark_never_decreases(start, candidates, 0, j - 1);
        assert(candidates.take(j).drop_last() =~= candidates.take(j - 1));
    } else {
        lemma_watermark_never_decreases(start, candidates, i, j - 1);
        assert(candidates.take(j).drop_last() =~= candidates.take(j - 1));
    }
}

/// The value of an advanced record is the larger of the value it had and
/// the candidate, and a record that is offered the same candidate a second
/// time does not change, whenever that is.
pub proof fn lemma_advanced_record(row: Watermark, candidate: u64, now: i64, later: i64)
    ensures
        advanced_record(Some(row), candidate, now)->0.value == advanced(row.value, candidate),
        advanced_record(advanced_record(Some(row), candidate, now), candidate, later)
            == advanced_record(Some(row), candidate, now),
        candidate <= row.value ==> advanced_record(Some(row), candidate, now) == Some(row),
{
}

/// Offering the same candidate a second time changes nothing.
pub proof fn lemma_advance_idempotent(current: u64, candidate: u64)
    ensures
        advanced(advanced(current, candidate), candidate) == advanced(current, candidate),
        advanced(current, candidate) >= current,
        advanced(current, candidate) >= candidate,
        candidate <= current ==> advanced(current, candidate) == current,
{
}

/// The watermarks and the ledger, as they are held in memory.
pub struct CursorStore {
    nostr_to_waku: Option<Watermark>,
    waku_to_nostr: Option<Watermark>,
    nostr_to_indexdb: Option<Watermark>,
    ledger: Vec<SeenEvent>,
}

impl CursorStore {
    /// The watermark record of a direction, if it has one.
    pub closed spec fn watermark(&self, direction: Direction) -> Option<Watermark> {
        match direction {
            Direction::NostrToWaku => self.nostr_to_waku,
            Direction::WakuToNostr => self.waku_to_nostr,
            Direction::NostrToIndexdb => self.nostr_to_indexdb,
        }
    }

    /// The ledger: each recorded identifier with the time it was first seen.
    pub closed spec fn seen(&self) -> Map<Seq<char>, i64> {
        ledger_of(self.ledger@)
    }

    /// The identifiers in the ledger.
    pub open spec fn ledger(&self) -> Set<Seq<char>> {
        self.seen().dom()
    }

    /// Every direction but `direction` has the watermark record it had in
    /// `before`.
    pub open spec fn others_unchanged(&self, before: &CursorStore, direction: Direction) -> bool {
        forall|d: Direction| d != direction ==> self.watermark(d) == before.watermark(d)
    }

    /// A store with no watermark and an empty ledger.
    pub fn new() -> (r: CursorStore)
        ensures
            forall|d: Direction| r.watermark(d) is None,
            r.seen() == Map::<Seq<char>, i64>::empty(),
    {
        CursorStore {
            nostr_to_waku: None,
            waku_to_nostr: None,
            nostr_to_indexdb: None,
            ledger: Vec::new(),
        }
    }

    /// The watermark record of a direction, without touching the store.
    pub fn peek_watermark(&self, direction: Direction) -> (r: Option<Watermark>)
        ensures
            r == self.watermark(direction),
    {
        match direction {
            Direction::NostrToWaku => self.nostr_to_waku,
            Direction::WakuToNostr => self.waku_to_nostr,
            Direction::NostrToIndexdb => self.nostr_to_indexdb,
        }
    }

    fn put_watermark(&mut self, direction: Direction, row: Watermark)
        ensures
            final(self).watermark(direction) == Some(row),
            final(self).others_unchanged(old(self), direction),
            final(self).seen() == old(self).seen(),
    {
        match direction {
            Direction::NostrToWaku => {
                self.nostr_to_waku = Some(row);
            },
            Direction::WakuToNostr => {
                self.waku_to_nostr = Some(row);
            },
            Direction::NostrToIndexdb => {
                self.nostr_to_indexdb = Some(row);
            },
        }
    }

    /// The watermark of `direction`. Where the direction has none yet, the
    /// record is created with `default`, written at `now`, and `default` is
    /// returned.
    pub fn get_watermark(&mut self, direction: Direction, default: u64, now: i64) -> (r: u64)
        ensures
            final(self).watermark(direction) == Some(
                read_record(old(self).watermark(direction), default, now),
            ),
            r == read_record(old(self).watermark(direction), default, now).value,
            final(self).others_unchanged(old(self), direction),
            final(self).seen() == old(self).seen(),
    {
        match self.peek_watermark(direction) {
            Some(row) => row.value,
            None => {
                self.put_watermark(direction, Watermark { value: default, updated_at: now });
                default
            },
        }
    }

    /// Raises the watermark of `direction` to the larger of itself and
    /// `candidate`, and notes `now` as the time of writing. Nothing changes
    /// where the candidate is not above the watermark, or where the
    /// direction has no record yet.
    pub fn advance_watermark(&mut self, direction: Direction, candidate: u64, now: i64)
        ensures
            final(self).watermark(direction) == advanced_record(
                old(self).watermark(direction),
                candidate,
                now,
            ),
            final(self).others_unchanged(old(self), direction),
            final(self).seen() == old(self).seen(),
    {
        match self.peek_watermark(direction) {
            Some(row) => {
                if candidate > row.value {
                    self.put_watermark(direction, Watermark { value: candidate, updated_at: now });
                }
            },
            None => {},
        }
    }

    /// Whether the ledger holds `id`.
    pub fn has_seen(&self, id: &str) -> (r: bool)
        ensures
            r == self.ledger().contains(id@),
    {
        let wanted = id.to_owned();
        let mut i: usize = 0;
        while i < self.ledger.len()
            invariant
                i <= self.ledger.len(),
                wanted@ == id@,
                forall|j: int| 0 <= j < i ==> (#[trigger] self.ledger@[j]).id@ != id@,
            decreases self.ledger.len() - i,
        {
            if self.ledger[i].id == wanted {
                proof {
                    lemma_ledger_of_contains(self.ledger@, id@);
                }
                return true;
            }
            i += 1;
        }
        proof {
            lemma_ledger_of_contains(self.ledger@, id@);
        }
        false
    }

    /// When `id` was first recorded, if it ever was.
    pub fn first_seen(&self, id: &str) -> (r: Option<i64>)
        ensures
            r is Some <==> self.ledger().contains(id@),
            r is Some ==> r->0 == self.seen()[id@],
    {
        let wanted = id.to_owned();
        let mut i: usize = 0;
        while i < self.ledger.len()
            invariant
                i <= self.ledger.len(),
                wanted@ == id@,
                forall|j: int| 0 <= j < i ==> (#[trigger] self.ledger@[j]).id@ != id@,
            decreases self.ledger.len() - i,
        {
            if self.ledger[i].id == wanted {
                proof {
                    lemma_ledger_of_first(self.ledger@, id@, i as int);
                }
                return Some(self.ledger[i].first_seen);
            }
            i += 1;
        }
        proof {
            lemma_ledger_of_contains(self.ledger@, id@);
        }
        None
    }

    /// Records `id` as seen at `now`. Where the ledger holds `id` already,
    /// nothing changes: recording is idempotent.
    pub fn record_seen(&mut self, id: &str, now: i64)
        ensures
            final(self).seen() == noted(old(self).seen(), id@, now),
            forall|d: Direction| final(self).watermark(d) == old(self).watermark(d),
    {
        if !self.has_seen(id) {
            let ghost before = self.ledger@;
            let row = SeenEvent { id: id.to_owned(), first_seen: now };
            self.ledger.push(row);
            assert(self.ledger@.drop_last() =~= before);
        }
    }
}

} // verus!
