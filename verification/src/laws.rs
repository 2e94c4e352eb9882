//! What holds of a pipeline over its whole life, whatever its caller reports
//! and in whatever order.

use vstd::prelude::*;
use crate::cursor::advanced;
use crate::event::{EventView, ids_of};
use crate::pipeline::{
    ActionView,
    DrainActionView,
    DrainInput,
    InputView,
    PipelineState,
    PipelineView,
    first_unseen,
    held,
    inv,
    lemma_drain_keeps_invariant,
    lemma_first_unseen,
    lemma_offer_keeps_invariant,
    lemma_step_keeps_invariant,
    spec_drain,
    spec_offer,
    spec_step,
};

verus! {

/// One thing that happens to a pipeline.
pub ghost enum Report {
    /// A report to the fetching half.
    Step(InputView),
    /// A report to the forwarding half.
    Drain(DrainInput),
    /// An event handed in from a subscription.
    Offer(EventView),
}

/// The pipeline after one report.
pub open spec fn spec_apply(v: PipelineView, report: Report) -> PipelineView {
    match report {
        Report::Step(input) => spec_step(v, input).0,
        Report::Drain(input) => spec_drain(v, input).0,
        Report::Offer(event) => spec_offer(v, event).0,
    }
}

/// The pipeline after a sequence of reports.
pub open spec fn spec_run(v: PipelineView, reports: Seq<Report>) -> PipelineView
    decreases reports.len(),
{
    if reports.len() == 0 {
        v
    } else {
        spec_apply(spec_run(v, reports.drop_last()), reports.last())
    }
}

/// The watermark that a pipeline shows; a pipeline that has not read its
/// watermark yet shows less than any watermark.
pub open spec fn observed(v: PipelineView) -> int {
    match v.watermark {
        Some(w) => w as int,
        None => -1,
    }
}

/// Whether `head` is how `whole` starts.
pub open spec fn starts_with(whole: Seq<Seq<char>>, head: Seq<Seq<char>>) -> bool {
    head.len() <= whole.len() && whole.take(head.len() as int) == head
}

/// What one report does to the channel and to the record of what entered
/// it: the forwarding half takes at most the event at the front; the others
/// add at most one event at the back, and the record gains the identifier of
/// just that event. The watermark does not decrease and the ledger loses
/// nothing.
pub proof fn lemma_apply(v: PipelineView, report: Report)
    requires
        inv(v),
    ensures
        inv(spec_apply(v, report)),
        observed(v) <= observed(spec_apply(v, report)),
        v.ledger.subset_of(spec_apply(v, report).ledger),
        match report {
            Report::Drain(_) => spec_apply(v, report).enqueued == v.enqueued && (spec_apply(
                v,
                report,
            ).channel == v.channel || (v.channel.len() > 0 && spec_apply(v, report).channel
                == v.channel.drop_first())),
            _ => (spec_apply(v, report).enqueued == v.enqueued && spec_apply(v, report).channel
                == v.channel) || exists|event: EventView|
                spec_apply(v, report).channel == v.channel.push(event) && spec_apply(
                    v,
                    report,
                ).enqueued == v.enqueued.push(event.id) && !v.enqueued.contains(event.id),
        },
{
    let after = spec_apply(v, report);
    match report {
        Report::Step(input) => {
            lemma_step_keeps_invariant(v, input);
            if after.channel != v.channel || after.enqueued != v.enqueued {
                let event = v.batch[v.cursor as int];
                if v.enqueued.contains(event.id) {
                    let i = choose|i: int| 0 <= i < v.enqueued.len() && v.enqueued[i] == event.id;
                    assert(v.ledger.contains(v.enqueued[i]));
                }
                assert(after.channel == v.channel.push(event));
                assert(after.enqueued == v.enqueued.push(event.id));
            }
        },
        Report::Drain(input) => {
            lemma_drain_keeps_invariant(v, input);
        },
        Report::Offer(event) => {
            lemma_offer_keeps_invariant(v, event);
            if after.channel != v.channel || after.enqueued != v.enqueued {
                if v.enqueued.contains(event.id) {
                    let i = choose|i: int| 0 <= i < v.enqueued.len() && v.enqueued[i] == event.id;
                    assert(v.ledger.contains(v.enqueued[i]));
                }
                assert(after.channel == v.channel.push(event));
            }
        },
    }
}

/// Nothing is handed on twice. Whatever happens to a pipeline, and however
/// often the same events are fetched, no identifier enters the channel a
/// second time. What had entered before is still on record, in the same
/// order.
pub proof fn lemma_nothing_enters_twice(v: PipelineView, reports: Seq<Report>)
    requires
        inv(v),
    ensures
        inv(spec_run(v, reports)),
        spec_run(v, reports).enqueued.no_duplicates(),
        starts_with(spec_run(v, reports).enqueued, v.enqueued),
    decreases reports.len(),
{
    if reports.len() == 0 {
        assert(v.enqueued.take(v.enqueued.len() as int) =~= v.enqueued);
    } else {
        let before = spec_run(v, reports.drop_last());
        lemma_nothing_enters_twice(v, reports.drop_last());
        lemma_apply(before, reports.last());
        let after = spec_run(v, reports);
        assert(after.enqueued.take(v.enqueued.len() as int) =~= before.enqueued.take(
            v.enqueued.len() as int,
        ));
    }
}

/// The watermark of a pipeline never decreases: what it shows after the
/// first `i` of a sequence of reports is at most what it shows after the
/// first `j`, for `i <= j`.
pub proof fn lemma_pipeline_watermark_never_decreases(
    v: PipelineView,
    reports: Seq<Report>,
    i: int,
    j: int,
)
    requires
        inv(v),
        0 <= i <= j <= reports.len(),
    ensures
        observed(spec_run(v, reports.take(i))) <= observed(spec_run(v, reports.take(j))),
    decreases j - i,
{
    if i < j {
        lemma_pipeline_watermark_never_decreases(v, reports, i, j - 1);
        lemma_nothing_enters_twice(v, reports.take(j - 1));
        assert(reports.take(j).drop_last() =~= reports.take(j - 1));
        lemma_apply(spec_run(v, reports.take(j - 1)), reports[j - 1]);
    }
}

/// The events of a batch that are new to a ledger, in the order of the
/// batch: those whose identifier the ledger does not hold and that no earlier
/// event of the batch shares.
pub open spec fn fresh(ledger: Set<Seq<char>>, batch: Seq<EventView>) -> Seq<EventView>
    decreases batch.len(),
{
    if batch.len() == 0 {
        Seq::empty()
    } else if ledger.contains(batch.first().id) {
        fresh(ledger, batch.drop_first())
    } else {
        seq![batch.first()] + fresh(ledger.insert(batch.first().id), batch.drop_first())
    }
}

/// The ledger after the identifiers of `events` were recorded.
pub open spec fn recorded(ledger: Set<Seq<char>>, events: Seq<EventView>) -> Set<Seq<char>>
    decreases events.len(),
{
    if events.len() == 0 {
        ledger
    } else {
        recorded(ledger.insert(events.first().id), events.drop_first())
    }
}

/// The latest creation time among `events`, or `start` if that is later.
pub open spec fn latest(start: u64, events: Seq<EventView>) -> u64
    decreases events.len(),
{
    if events.len() == 0 {
        start
    } else {
        latest(advanced(start, events.first().created_at), events.drop_first())
    }
}

/// The pipeline after `n` ledger writes in a row were reported done.
pub open spec fn acknowledged(v: PipelineView, n: nat) -> PipelineView
    decreases n,
{
    if n == 0 {
        v
    } else {
        acknowledged(spec_step(v, InputView::SeenRecorded).0, (n - 1) as nat)
    }
}

/// Events that the ledger holds add nothing to what is new.
proof fn lemma_fresh_skips_seen(ledger: Set<Seq<char>>, batch: Seq<EventView>, from: nat)
    requires
        from <= batch.len(),
    ensures
        fresh(ledger, batch.skip(from as int)) == fresh(
            ledger,
            batch.skip(first_unseen(ledger, batch, from) as int),
        ),
        first_unseen(ledger, batch, from) == batch.len() ==> fresh(
            ledger,
            batch.skip(from as int),
        ) == Seq::<EventView>::empty(),
    decreases batch.len() - from,
{
    if from < batch.len() && ledger.contains(batch[from as int].id) {
        lemma_fresh_skips_seen(ledger, batch, from + 1);
        assert(batch.skip(from as int).drop_first() =~= batch.skip(from as int + 1));
    }
}

/// What the rest of a batch does to a pipeline that has an unseen event in
/// hand and room in its channel for all that may follow.
proof fn lemma_rest_of_batch(v: PipelineView)
    requires
        inv(v),
        v.state is Deduping,
        v.channel.len() + (v.batch.len() - v.cursor) <= v.settings.channel_capacity,
    ensures
        ({
            let new = fresh(v.ledger, v.batch.skip(v.cursor as int));
            let end = acknowledged(v, new.len());
            &&& new.len() > 0
            &&& inv(end)
            &&& end == PipelineView {
                state: end.state,
                ledger: recorded(v.ledger, new),
                channel: v.channel + new,
                enqueued: v.enqueued + ids_of(new),
                batch_max: latest(v.batch_max, new),
                batch: Seq::empty(),
                cursor: 0,
                ..v
            }
            &&& end.state == if end.batch_max > v.watermark->0 {
                PipelineState::Draining
            } else {
                PipelineState::Sleeping
            }
        }),
    decreases v.batch.len() - v.cursor,
{
    let event = v.batch[v.cursor as int];
    let rest = v.batch.skip(v.cursor as int);
    let tail = v.batch.skip(v.cursor as int + 1);
    let ledger = v.ledger.insert(event.id);
    assert(rest.first() == event);
    assert(rest.drop_first() =~= tail);
    let new = fresh(v.ledger, rest);
    let more = fresh(ledger, tail);
    assert(new == seq![event] + more);
    assert(new.first() == event);
    assert(new.drop_first() =~= more);

    let next = spec_step(v, InputView::SeenRecorded).0;
    lemma_step_keeps_invariant(v, InputView::SeenRecorded);
    lemma_fresh_skips_seen(ledger, v.batch, v.cursor + 1);
    lemma_first_unseen(ledger, v.batch, v.cursor + 1);
    let i = first_unseen(ledger, v.batch, v.cursor + 1);
    assert(acknowledged(v, new.len()) == acknowledged(next, more.len()));
    if i < v.batch.len() {
        assert(next.state is Deduping);
        lemma_rest_of_batch(next);
        let end = acknowledged(next, more.len());
        assert(end.channel =~= v.channel + new);
        assert(end.enqueued =~= v.enqueued + ids_of(new));
    } else {
        assert(more.len() == 0);
        assert(next.channel =~= v.channel + new);
        assert(next.enqueued =~= v.enqueued + ids_of(new));
        assert(recorded(ledger, more) == ledger);
    }
    let end = acknowledged(v, new.len());
    assert(latest(v.batch_max, new) == latest(advanced(v.batch_max, event.created_at), more));
    assert(recorded(v.ledger, new) == recorded(ledger, more));
    assert(end.ledger == recorded(v.ledger, new));
    assert(end.batch_max == latest(v.batch_max, new));
    assert(end == PipelineView {
        state: end.state,
        ledger: recorded(v.ledger, new),
        channel: v.channel + new,
        enqueued: v.enqueued + ids_of(new),
        batch_max: latest(v.batch_max, new),
        batch: Seq::empty(),
        cursor: 0,
        ..v
    });
    assert(end.state == if end.batch_max > v.watermark->0 {
        PipelineState::Draining
    } else {
        PipelineState::Sleeping
    });
}

/// One cycle hands on exactly what is new. With room in the channel for the
/// whole batch, and every ledger write done, the events that enter the
/// channel are those of the batch that are new to the ledger, in the order
/// of the batch; their identifiers are recorded; and the watermark that is
/// then written is the latest creation time among them, if that is later
/// than the watermark.
pub proof fn lemma_cycle_forwards_what_is_new(v: PipelineView, batch: Seq<EventView>)
    requires
        inv(v),
        v.state is Fetching,
        v.channel.len() + batch.len() <= v.settings.channel_capacity,
    ensures
        ({
            let new = fresh(v.ledger, batch);
            let started = spec_step(v, InputView::Fetched(batch)).0;
            let end = acknowledged(started, new.len());
            let written = spec_step(end, InputView::WatermarkWritten).0;
            &&& inv(end)
            &&& end == PipelineView {
                state: end.state,
                ledger: recorded(v.ledger, new),
                channel: v.channel + new,
                enqueued: v.enqueued + ids_of(new),
                batch_max: latest(v.watermark->0, new),
                batch: Seq::empty(),
                cursor: 0,
                ..v
            }
            &&& end.state == if latest(v.watermark->0, new) > v.watermark->0 {
                PipelineState::Draining
            } else {
                PipelineState::Sleeping
            }
            &&& end.state is Draining ==> written.state is Sleeping && written.watermark == Some(
                latest(v.watermark->0, new),
            )
        }),
{
    let new = fresh(v.ledger, batch);
    let loaded = PipelineView { batch: batch, cursor: 0, ..v };
    let started = spec_step(v, InputView::Fetched(batch)).0;
    lemma_step_keeps_invariant(v, InputView::Fetched(batch));
    lemma_fresh_skips_seen(v.ledger, batch, 0);
    lemma_first_unseen(v.ledger, batch, 0);
    assert(batch.skip(0) =~= batch);
    let i = first_unseen(v.ledger, batch, 0);
    if i < batch.len() {
        lemma_rest_of_batch(started);
    } else {
        assert(new.len() == 0);
        assert(started.channel =~= v.channel + new);
        assert(started.enqueued =~= v.enqueued + ids_of(new));
    }
}

/// After a restart the ledger still knows what was handed on: a ledger that
/// holds the identifiers of `a` and `b` and not that of `c` finds nothing
/// new in a batch of `a`, `b` and `c` but `c`.
pub proof fn lemma_restart_forwards_only_the_new(
    ledger: Set<Seq<char>>,
    a: EventView,
    b: EventView,
    c: EventView,
)
    requires
        ledger.contains(a.id),
        ledger.contains(b.id),
        !ledger.contains(c.id),
    ensures
        fresh(ledger, seq![a, b, c]) == seq![c],
        recorded(ledger, seq![c]) == ledger.insert(c.id),
{
    let batch = seq![a, b, c];
    assert(batch.drop_first() =~= seq![b, c]);
    assert(seq![b, c].drop_first() =~= seq![c]);
    assert(seq![c].drop_first() =~= Seq::<EventView>::empty());
    reveal_with_fuel(fresh, 4);
    reveal_with_fuel(recorded, 2);
    assert(fresh(ledger, seq![c]) =~= seq![c]);
}

/// A full channel holds the fetching half up and takes nothing from it. The event in hand stays in hand, the channel stays
/// as it is, and nothing is recorded as having entered it. As soon as the
/// channel has room, the same event enters at the back.
pub proof fn lemma_full_channel_holds_the_event(v: PipelineView, input: InputView)
    requires
        inv(v),
        (v.state is Deduping && input is SeenRecorded) || (v.state is Enqueuing
            && input is SpaceAvailable),
    ensures
        ({
            let (after, action) = spec_step(v, input);
            let event = v.batch[v.cursor as int];
            &&& v.channel.len() >= v.settings.channel_capacity ==> {
                &&& action == ActionView::AwaitSpace
                &&& after.state is Enqueuing
                &&& after.channel == v.channel
                &&& after.enqueued == v.enqueued
                &&& after.batch == v.batch
                &&& after.cursor == v.cursor
            }
            &&& v.channel.len() < v.settings.channel_capacity ==> {
                &&& after.channel == v.channel.push(event)
                &&& after.enqueued == v.enqueued.push(event.id)
            }
        }),
{
}

/// The events that one report puts into the channel: one at most.
pub open spec fn spec_pushed(v: PipelineView, report: Report) -> Seq<EventView> {
    let after = spec_apply(v, report);
    if !(report is Drain) && after.enqueued.len() > v.enqueued.len() {
        seq![after.channel.last()]
    } else {
        Seq::empty()
    }
}

/// The events that one report takes out of the channel: one at most.
pub open spec fn spec_popped(v: PipelineView, report: Report) -> Seq<EventView> {
    if report is Drain && spec_apply(v, report).channel.len() < v.channel.len() {
        seq![v.channel.first()]
    } else {
        Seq::empty()
    }
}

/// All events that a sequence of reports puts into the channel, in order.
pub open spec fn all_pushed(v: PipelineView, reports: Seq<Report>) -> Seq<EventView>
    decreases reports.len(),
{
    if reports.len() == 0 {
        Seq::empty()
    } else {
        all_pushed(v, reports.drop_last()) + spec_pushed(
            spec_run(v, reports.drop_last()),
            reports.last(),
        )
    }
}

/// All events that a sequence of reports takes out of the channel, in order.
pub open spec fn all_popped(v: PipelineView, reports: Seq<Report>) -> Seq<EventView>
    decreases reports.len(),
{
    if reports.len() == 0 {
        Seq::empty()
    } else {
        all_popped(v, reports.drop_last()) + spec_popped(
            spec_run(v, reports.drop_last()),
            reports.last(),
        )
    }
}

/// The channel loses nothing and keeps the order. Whatever happens to a
/// pipeline, what was in the channel followed by what entered it is what
/// left it followed by what is in it now; and what entered it is what the
/// record of the pipeline says.
pub proof fn lemma_channel_keeps_all_in_order(v: PipelineView, reports: Seq<Report>)
    requires
        inv(v),
    ensures
        v.channel + all_pushed(v, reports) == all_popped(v, reports) + spec_run(v, reports).channel,
        v.enqueued + ids_of(all_pushed(v, reports)) == spec_run(v, reports).enqueued,
    decreases reports.len(),
{
    if reports.len() == 0 {
        assert(v.channel + all_pushed(v, reports) =~= all_popped(v, reports) + v.channel);
        assert(v.enqueued + ids_of(all_pushed(v, reports)) =~= v.enqueued);
    } else {
        let front = reports.drop_last();
        let before = spec_run(v, front);
        let after = spec_run(v, reports);
        lemma_channel_keeps_all_in_order(v, front);
        lemma_nothing_enters_twice(v, front);
        lemma_apply(before, reports.last());
        let pushed = spec_pushed(before, reports.last());
        let popped = spec_popped(before, reports.last());
        assert(before.channel + pushed =~= popped + after.channel);
        assert(before.enqueued + ids_of(pushed) =~= after.enqueued);
        assert(v.channel + all_pushed(v, reports) =~= (v.channel + all_pushed(v, front)) + pushed);
        assert(all_popped(v, reports) + after.channel =~= all_popped(v, front) + (popped
            + after.channel));
        assert(ids_of(all_pushed(v, reports)) =~= ids_of(all_pushed(v, front)) + ids_of(pushed));
    }
}

/// No event is given up in silence. An event leaves the hand of the
/// forwarding half only when the sink took it, or with an answer that names
/// it as given up; no other report touches it. The event in hand is never
/// offered more often than the settings allow, but for the one attempt that
/// every event gets.
pub proof fn lemma_never_given_up_in_silence(v: PipelineView, report: Report)
    requires
        inv(v),
        v.in_flight is Some,
    ensures
        v.attempts == 1 || v.attempts <= v.settings.max_forward_attempts,
        spec_apply(v, report).in_flight == v.in_flight || (report matches Report::Drain(input)
            && (input is ForwardOk || spec_drain(v, input).1 == DrainActionView::Dropped(
            v.in_flight->0,
        ))),
{
}

/// What is on its way to the sink, in hand or in the channel, is on record
/// and in the ledger, and no identifier is there twice.
pub proof fn lemma_held_is_on_record_once(v: PipelineView)
    requires
        inv(v),
    ensures
        ids_of(held(v)).no_duplicates(),
        forall|i: int|
            0 <= i < held(v).len() ==> v.enqueued.contains((#[trigger] held(v)[i]).id)
                && v.ledger.contains(held(v)[i].id),
{
    let ids = ids_of(held(v));
    let from = v.enqueued.len() - ids.len();
    assert forall|i: int| 0 <= i < ids.len() implies ids[i] == v.enqueued[from + i] by {
        assert(v.enqueued.skip(from)[i] == v.enqueued[from + i]);
    }
    assert forall|i: int| 0 <= i < held(v).len() implies v.enqueued.contains(
        (#[trigger] held(v)[i]).id,
    ) && v.ledger.contains(held(v)[i].id) by {
        assert(ids[i] == held(v)[i].id);
        assert(v.enqueued[from + i] == held(v)[i].id);
    }
}

/// What is held changes only at its two ends, and one event at a time: a
/// report leaves it as it is, or takes the first event away, or adds at the
/// end an event whose identifier was never on record.
pub proof fn lemma_held_changes_at_its_ends(v: PipelineView, report: Report)
    requires
        inv(v),
    ensures
        ({
            let after = spec_apply(v, report);
            ||| after.enqueued == v.enqueued && held(after) == held(v)
            ||| after.enqueued == v.enqueued && held(v).len() > 0 && held(after) == held(
                v,
            ).drop_first()
            ||| exists|event: EventView|
                held(after) == held(v).push(event) && after.enqueued == v.enqueued.push(event.id)
                    && !v.enqueued.contains(event.id)
        }),
{
    let after = spec_apply(v, report);
    lemma_apply(v, report);
    match report {
        Report::Drain(input) => {
            if v.drain is Forwarding && (input is ForwardOk || spec_drain(v, input).1 is Dropped) {
                assert(held(after) =~= held(v).drop_first());
            } else {
                assert(held(after) =~= held(v));
            }
        },
        _ => {
            if after.channel != v.channel || after.enqueued != v.enqueued {
                let event = choose|event: EventView|
                    after.channel == v.channel.push(event) && after.enqueued == v.enqueued.push(
                        event.id,
                    ) && !v.enqueued.contains(event.id);
                assert(held(after) =~= held(v).push(event));
            }
        },
    }
}

/// The pipeline is done with an identifier: it is on record as having
/// entered the channel, and it is neither in hand nor in the channel any
/// more.
pub open spec fn settled(v: PipelineView, id: Seq<char>) -> bool {
    v.enqueued.contains(id) && !ids_of(held(v)).contains(id)
}

/// An event that leaves the hand of the forwarding half, because the sink
/// took it or because it was given up, is one that the pipeline is done
/// with.
pub proof fn lemma_leaving_the_hand_settles(v: PipelineView, input: DrainInput)
    requires
        inv(v),
        v.drain is Forwarding,
        input is ForwardOk || spec_drain(v, input).1 is Dropped,
    ensures
        v.in_flight is Some,
        settled(spec_drain(v, input).0, v.in_flight->0.id),
{
    let after = spec_drain(v, input).0;
    let id = v.in_flight->0.id;
    lemma_held_is_on_record_once(v);
    assert(held(v)[0] == v.in_flight->0);
    assert(held(after) =~= held(v).drop_first());
    let ids = ids_of(held(v));
    assert(ids[0] == id);
    if ids_of(held(after)).contains(id) {
        let i = choose|i: int| 0 <= i < ids_of(held(after)).len() && ids_of(held(after))[i] == id;
        assert(ids[i + 1] == id);
    }
}

/// What the pipeline is done with, it stays done with: no report brings the
/// identifier back into the channel or into hand, and no answer to the
/// forwarding half asks to forward it again.
pub proof fn lemma_settled_stays_settled(v: PipelineView, id: Seq<char>, report: Report)
    requires
        inv(v),
        settled(v, id),
    ensures
        inv(spec_apply(v, report)),
        settled(spec_apply(v, report), id),
        report matches Report::Drain(input) ==> (spec_drain(v, input).1 matches DrainActionView::Forward(
            event,
        ) ==> event.id != id),
{
    let after = spec_apply(v, report);
    lemma_apply(v, report);
    lemma_held_changes_at_its_ends(v, report);
    let before_ids = ids_of(held(v));
    let after_ids = ids_of(held(after));
    let at = choose|i: int| 0 <= i < v.enqueued.len() && v.enqueued[i] == id;
    if after.enqueued != v.enqueued {
        let event = choose|event: EventView|
            held(after) == held(v).push(event) && after.enqueued == v.enqueued.push(event.id)
                && !v.enqueued.contains(event.id);
        assert(after.enqueued[at] == id);
        assert(after_ids =~= before_ids.push(event.id));
    } else if held(after) != held(v) {
        assert(after_ids =~= before_ids.drop_first());
    }
    if after_ids.contains(id) {
        let i = choose|i: int| 0 <= i < after_ids.len() && after_ids[i] == id;
        if after.enqueued != v.enqueued {
            if i < before_ids.len() {
                assert(before_ids[i] == id);
            }
        } else if held(after) != held(v) {
            assert(before_ids[i + 1] == id);
        } else {
            assert(before_ids[i] == id);
        }
    }
    if let Report::Drain(input) = report {
        if let DrainActionView::Forward(event) = spec_drain(v, input).1 {
            assert(after.in_flight == Some(event));
            assert(held(after)[0] == event);
            assert(after_ids[0] == event.id);
        }
    }
}

/// Once the sink took an event, or the event was given up, nothing that
/// happens later makes the pipeline forward that identifier again: it stays
/// settled through every sequence of reports, and the answer to each report
/// to the forwarding half names another event.
pub proof fn lemma_settled_is_never_forwarded_again(
    v: PipelineView,
    id: Seq<char>,
    reports: Seq<Report>,
    k: int,
)
    requires
        inv(v),
        settled(v, id),
        0 <= k < reports.len(),
    ensures
        settled(spec_run(v, reports), id),
        reports[k] matches Report::Drain(input) ==> (spec_drain(
            spec_run(v, reports.take(k)),
            input,
        ).1 matches DrainActionView::Forward(event) ==> event.id != id),
    decreases reports.len(),
{
    let front = reports.drop_last();
    lemma_nothing_enters_twice(v, front);
    if front.len() > 0 {
        lemma_settled_is_never_forwarded_again(v, id, front, if k < front.len() { k } else { 0 });
    }
    lemma_settled_stays_settled(spec_run(v, front), id, reports.last());
    if k == reports.len() - 1 {
        assert(reports.take(k) =~= front);
    } else {
        assert(reports.take(k) =~= front.take(k));
    }
}

} // verus!
