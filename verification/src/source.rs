//! What is asked of the polled network: which events, since when, how many
//! at most, and how long to wait for them.

use vstd::prelude::*;
use vstd::multiset::{Multiset, lemma_multiset_empty_len};
use vstd::seq_lib::{to_multiset_build, to_multiset_remove};
use crate::consts::{FETCH_LIMIT, FETCH_TIMEOUT_SECS};
use crate::event::{Event, EventView, views_of};

verus! {

/// The kind number of a short text note.
pub const KIND_TEXT_NOTE: u16 = 1;

/// Which events to fetch.
#[derive(Clone, Debug)]
pub struct FilterConfig {
    /// The kind of event.
    pub kind: u16,
    /// The hashtag that the events carry.
    pub tag: String,
    /// The most events to fetch at once.
    pub limit: usize,
}

/// One fetch, fully described.
#[derive(Debug, PartialEq, Eq)]
pub struct FetchRequest {
    /// The kind of event.
    pub kind: u16,
    /// The hashtag that the events carry.
    pub tag: String,
    /// Only events created at or after this time.
    pub since: u64,
    /// The most events to return.
    pub limit: usize,
    /// How long to wait for the network, in seconds.
    pub timeout_secs: u64,
}

impl FilterConfig {
    /// A filter for events of kind `kind` tagged `tag`, `limit` at most.
    pub fn new(kind: u16, tag: &str, limit: usize) -> (r: FilterConfig)
        ensures
            r.kind == kind,
            r.tag@ == tag@,
            r.limit == limit,
    {
        FilterConfig { kind, tag: tag.to_owned(), limit }
    }

    /// The fetch of what the filter lets through since `since`.
    pub fn request(&self, since: u64) -> (r: FetchRequest)
        ensures
            r.kind == self.kind,
            r.tag@ == self.tag@,
            r.since == since,
            r.limit == self.limit,
            r.timeout_secs == FETCH_TIMEOUT_SECS,
    {
        FetchRequest {
            kind: self.kind,
            tag: self.tag.clone(),
            since,
            limit: self.limit,
            timeout_secs: FETCH_TIMEOUT_SECS,
        }
    }
}

impl Default for FilterConfig {
    /// Text notes tagged `waku`, a hundred at most.
    fn default() -> (r: FilterConfig)
        ensures
            r.kind == KIND_TEXT_NOTE,
            r.tag@ == "waku"@,
            r.limit == FETCH_LIMIT,
    {
        FilterConfig { kind: KIND_TEXT_NOTE, tag: "waku".to_owned(), limit: FETCH_LIMIT }
    }
}

/// Whether the events stand oldest first: none was created before one that
/// stands ahead of it.
pub open spec fn ascending(events: Seq<EventView>) -> bool {
    forall|i: int, j: int|
        0 <= i <= j < events.len() ==> events[i].created_at <= events[j].created_at
}

/// Whether no event of `rest` was created before one of `done`.
pub open spec fn all_before(done: Seq<EventView>, rest: Seq<EventView>) -> bool {
    forall|i: int, j: int|
        0 <= i < done.len() && 0 <= j < rest.len() ==> done[i].created_at <= rest[j].created_at
}

/// The events that were created at `time`, in the order in which they
/// stand.
pub open spec fn at_time(events: Seq<EventView>, time: u64) -> Seq<EventView>
    decreases events.len(),
{
    if events.len() == 0 {
        Seq::empty()
    } else {
        let front = at_time(events.drop_last(), time);
        if events.last().created_at == time {
            front.push(events.last())
        } else {
            front
        }
    }
}

/// The events of a time in two sequences joined are those in the first,
/// then those in the second.
pub proof fn lemma_at_time_joined(a: Seq<EventView>, b: Seq<EventView>, time: u64)
    ensures
        at_time(a + b, time) == at_time(a, time) + at_time(b, time),
    decreases b.len(),
{
    if b.len() == 0 {
        assert(a + b =~= a);
        assert(at_time(a, time) + at_time(b, time) =~= at_time(a, time));
    } else {
        lemma_at_time_joined(a, b.drop_last(), time);
        assert((a + b).drop_last() =~= a + b.drop_last());
        assert((a + b).last() == b.last());
        assert(at_time(a + b, time) =~= at_time(a, time) + at_time(b, time));
    }
}

/// Where no event was created at a time, there are no events of that time.
pub proof fn lemma_at_time_none(events: Seq<EventView>, time: u64)
    requires
        forall|i: int| 0 <= i < events.len() ==> events[i].created_at != time,
    ensures
        at_time(events, time) == Seq::<EventView>::empty(),
    decreases events.len(),
{
    if events.len() > 0 {
        lemma_at_time_none(events.drop_last(), time);
    }
}

/// Taking out the first event of its time takes the first event away from
/// the events of that time, and nothing from those of any other time.
proof fn lemma_at_time_taken(events: Seq<EventView>, m: int, time: u64)
    requires
        0 <= m < events.len(),
        forall|j: int| 0 <= j < m ==> events[j].created_at != events[m].created_at,
    ensures
        at_time(events, time) == if events[m].created_at == time {
            seq![events[m]] + at_time(events.remove(m), time)
        } else {
            at_time(events.remove(m), time)
        },
{
    let head = events.take(m);
    let one = seq![events[m]];
    let tail = events.skip(m + 1);
    assert(events =~= (head + one) + tail);
    assert(events.remove(m) =~= head + tail);
    lemma_at_time_joined(head + one, tail, time);
    lemma_at_time_joined(head, one, time);
    lemma_at_time_joined(head, tail, time);
    assert(one.drop_last() =~= Seq::<EventView>::empty());
    assert(at_time(one.drop_last(), time) =~= Seq::<EventView>::empty());
    if events[m].created_at == time {
        lemma_at_time_none(head, time);
        assert(at_time(one, time) =~= one);
        assert(at_time(events, time) =~= one + at_time(events.remove(m), time));
    } else {
        assert(at_time(one, time) =~= Seq::<EventView>::empty());
        assert(at_time(events, time) =~= at_time(events.remove(m), time));
    }
}

proof fn lemma_no_events(events: Seq<EventView>)
    requires
        events.len() == 0,
    ensures
        events.to_multiset() == Multiset::<EventView>::empty(),
{
    events.to_multiset_ensures();
    lemma_multiset_empty_len(events.to_multiset());
    assert(events.to_multiset() =~= Multiset::<EventView>::empty());
}

/// The place in `events` of the event that was created first; of several
/// such, the one that stands first.
fn oldest(events: &Vec<Event>) -> (m: usize)
    requires
        events@.len() > 0,
    ensures
        m < events@.len(),
        forall|j: int| 0 <= j < events@.len() ==> events@[m as int].created_at <= events@[j].created_at,
        forall|j: int| 0 <= j < m ==> events@[m as int].created_at < events@[j].created_at,
{
    let mut m: usize = 0;
    let mut k: usize = 1;
    while k < events.len()
        invariant
            m < k <= events@.len(),
            forall|j: int| 0 <= j < k ==> events@[m as int].created_at <= events@[j].created_at,
            forall|j: int| 0 <= j < m ==> events@[m as int].created_at < events@[j].created_at,
        decreases events@.len() - k,
    {
        if events[k].created_at < events[m].created_at {
            m = k;
        }
        k += 1;
    }
    m
}

/// The events of a fetch, oldest first, as the pipeline expects them. The
/// result holds the same events as often as `events` does, none was created
/// before one that stands ahead of it, and events of the same creation time
/// stand in the order in which they came.
pub fn in_order(events: Vec<Event>) -> (r: Vec<Event>)
    ensures
        ascending(views_of(r@)),
        views_of(r@).to_multiset() == views_of(events@).to_multiset(),
        forall|time: u64| at_time(views_of(r@), time) == at_time(views_of(events@), time),
{
    let ghost given = views_of(events@);
    let mut rest = events;
    let mut done: Vec<Event> = Vec::new();
    assert(views_of(done@).to_multiset().add(views_of(rest@).to_multiset()) =~= given.to_multiset())
        by {
        lemma_no_events(views_of(done@));
    }
    assert forall|time: u64| at_time(views_of(done@), time) + at_time(views_of(rest@), time)
        == at_time(given, time) by {
        assert(at_time(views_of(done@), time) + at_time(views_of(rest@), time) =~= at_time(
            given,
            time,
        ));
    }
    while rest.len() > 0
        invariant
            ascending(views_of(done@)),
            all_before(views_of(done@), views_of(rest@)),
            views_of(done@).to_multiset().add(views_of(rest@).to_multiset())
                == given.to_multiset(),
            forall|time: u64|
                at_time(views_of(done@), time) + at_time(views_of(rest@), time) == at_time(
                    given,
                    time,
                ),
        decreases rest@.len(),
    {
        let ghost done_before = views_of(done@);
        let ghost rest_before = views_of(rest@);
        let m = oldest(&rest);
        let event = rest.remove(m);
        done.push(event);
        proof {
            let moved = rest_before[m as int];
            assert(views_of(rest@) =~= rest_before.remove(m as int));
            assert(views_of(done@) =~= done_before.push(moved));
            to_multiset_remove(rest_before, m as int);
            to_multiset_build(done_before, moved);
            assert(rest_before.to_multiset().count(moved) > 0) by {
                rest_before.to_multiset_ensures();
                assert(rest_before.contains(moved));
            }
            assert(views_of(done@).to_multiset().add(views_of(rest@).to_multiset())
                =~= done_before.to_multiset().add(rest_before.to_multiset()));
            assert forall|i: int, j: int|
                0 <= i < views_of(done@).len() && 0 <= j < views_of(rest@).len() implies views_of(
                done@,
            )[i].created_at <= views_of(rest@)[j].created_at by {
                let from = if j < m { j } else { j + 1 };
                assert(views_of(rest@)[j] == rest_before[from]);
                if i < done_before.len() {
                    assert(done_before[i].created_at <= rest_before[from].created_at);
                }
            }
            assert forall|time: u64| at_time(views_of(done@), time) + at_time(
                views_of(rest@),
                time,
            ) == at_time(given, time) by {
                lemma_at_time_taken(rest_before, m as int, time);
                assert(done_before.push(moved).drop_last() =~= done_before);
                assert(at_time(done_before, time) + at_time(rest_before, time) == at_time(
                    given,
                    time,
                ));
                assert(at_time(views_of(done@), time) + at_time(views_of(rest@), time) =~= at_time(
                    done_before,
                    time,
                ) + at_time(rest_before, time));
            }
            assert forall|i: int, j: int| 0 <= i <= j < views_of(done@).len() implies views_of(
                done@,
            )[i].created_at <= views_of(done@)[j].created_at by {
                if j == done_before.len() && i < j {
                    assert(done_before[i].created_at <= rest_before[m as int].created_at);
                }
            }
        }
    }
    proof {
        lemma_no_events(views_of(rest@));
    }
    assert(views_of(done@).to_multiset() =~= given.to_multiset());
    assert forall|time: u64| at_time(views_of(done@), time) == at_time(given, time) by {
        assert(at_time(views_of(done@), time) + at_time(views_of(rest@), time) =~= at_time(
            views_of(done@),
            time,
        ));
    }
    done
}

} // verus!
