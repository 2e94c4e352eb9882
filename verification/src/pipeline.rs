//! The relay pipeline of one direction, as a state machine.
//!
//! The pipeline itself performs no input or output. Its caller fetches,
//! writes to the durable store, sleeps and forwards, and tells the pipeline
//! what happened; the pipeline answers with what to do next. One half of the
//! pipeline ([`RelayPipeline::step`]) fetches, removes what was seen before
//! and fills the bounded channel; the other half ([`RelayPipeline::drain`])
//! empties the channel towards the sink, one event at a time.

use vstd::prelude::*;
use crate::backoff::Backoff;
use crate::channel::{Channel, after_send};
use crate::cursor::{CursorStore, Watermark, advanced, noted};
use crate::direction::Direction;
use crate::event::{Event, EventView, ids_of, views_of};

verus! {

/// Where the fetching half of a pipeline stands.
#[derive(Clone, Copy, Debug, PartialEq, Eq, Structural)]
pub enum PipelineState {
    /// Not started yet.
    Idle,
    /// A fetch is under way.
    Fetching,
    /// An event that was not seen before is being recorded in the ledger.
    Deduping,
    /// A recorded event waits for room in the channel.
    Enqueuing,
    /// The batch is in the channel and the new watermark is being written,
    /// while the other half empties the channel.
    Draining,
    /// Waiting for the next cycle.
    Sleeping,
    /// Cancelled. Nothing is fetched any more.
    ShuttingDown,
}

/// Where the forwarding half of a pipeline stands.
#[derive(Clone, Copy, Debug, PartialEq, Eq, Structural)]
pub enum DrainState {
    /// No event is in hand.
    Waiting,
    /// The event in hand is being forwarded.
    Forwarding,
    /// The last attempt failed; the event in hand waits for its next attempt.
    BackingOff,
}

/// The numbers that a pipeline runs by.
#[derive(Clone, Copy, Debug, PartialEq, Eq, Structural)]
pub struct PipelineSettings {
    /// The watermark of a direction that has none yet.
    pub initial_watermark: u64,
    /// The most events to ask for in one fetch.
    pub fetch_limit: usize,
    /// How many events the channel holds.
    pub channel_capacity: usize,
    /// The pause between two cycles, in seconds.
    pub poll_interval_secs: u64,
    /// The pause after a failed fetch or a failed ledger write, in seconds.
    pub fetch_backoff_secs: u64,
    /// How often one event is offered to the sink before it is given up.
    pub max_forward_attempts: u32,
    /// The pauses between those attempts.
    pub retry_backoff: Backoff,
}

/// What the caller reports to the fetching half.
#[derive(Debug)]
pub enum Input {
    /// The task has started.
    Start,
    /// The fetch returned these events, oldest first.
    Fetched(Vec<Event>),
    /// The fetch failed or timed out.
    FetchFailed,
    /// The identifier asked for is now in the durable ledger.
    SeenRecorded,
    /// An event has left the channel.
    SpaceAvailable,
    /// The watermark asked for is now in the durable store.
    WatermarkWritten,
    /// The write asked for failed.
    PersistFailed,
    /// The pause is over.
    Woke,
    /// The process is shutting down.
    Shutdown,
}

/// What an [`Input`] is, as plain values.
pub ghost enum InputView {
    Start,
    Fetched(Seq<EventView>),
    FetchFailed,
    SeenRecorded,
    SpaceAvailable,
    WatermarkWritten,
    PersistFailed,
    Woke,
    Shutdown,
}

impl View for Input {
    type V = InputView;

    open spec fn view(&self) -> InputView {
        match self {
            Input::Start => InputView::Start,
            Input::Fetched(batch) => InputView::Fetched(views_of(batch@)),
            Input::FetchFailed => InputView::FetchFailed,
            Input::SeenRecorded => InputView::SeenRecorded,
            Input::SpaceAvailable => InputView::SpaceAvailable,
            Input::WatermarkWritten => InputView::WatermarkWritten,
            Input::PersistFailed => InputView::PersistFailed,
            Input::Woke => InputView::Woke,
            Input::Shutdown => InputView::Shutdown,
        }
    }
}

/// What the fetching half asks of its caller.
#[derive(Debug, PartialEq, Eq)]
pub enum Action {
    /// Fetch at most `limit` events created since `since`, then report
    /// `Fetched` or `FetchFailed`.
    Fetch { since: u64, limit: usize },
    /// Write `id` to the durable ledger, then report `SeenRecorded` or
    /// `PersistFailed`.
    RecordSeen { id: String },
    /// The channel is full: wait until an event has left it, then report
    /// `SpaceAvailable`.
    AwaitSpace,
    /// Write `value` as the watermark of `direction` to the durable store,
    /// then report `WatermarkWritten` or `PersistFailed`.
    WriteWatermark { direction: Direction, value: u64 },
    /// Pause for `seconds`, then report `Woke`.
    Sleep { seconds: u64 },
    /// Stop the task.
    Stop,
    /// The report does not belong to the present state; nothing changed.
    Nothing,
}

/// What an [`Action`] is, as plain values.
pub ghost enum ActionView {
    Fetch { since: u64, limit: usize },
    RecordSeen { id: Seq<char> },
    AwaitSpace,
    WriteWatermark { direction: Direction, value: u64 },
    Sleep { seconds: u64 },
    Stop,
    Nothing,
}

impl View for Action {
    type V = ActionView;

    open spec fn view(&self) -> ActionView {
        match self {
            Action::Fetch { since, limit } => ActionView::Fetch { since: *since, limit: *limit },
            Action::RecordSeen { id } => ActionView::RecordSeen { id: id@ },
            Action::AwaitSpace => ActionView::AwaitSpace,
            Action::WriteWatermark { direction, value } => ActionView::WriteWatermark {
                direction: *direction,
                value: *value,
            },
            Action::Sleep { seconds } => ActionView::Sleep { seconds: *seconds },
            Action::Stop => ActionView::Stop,
            Action::Nothing => ActionView::Nothing,
        }
    }
}

/// What the caller reports to the forwarding half.
#[derive(Clone, Copy, Debug, PartialEq, Eq, Structural)]
pub enum DrainInput {
    /// The caller is free: it has nothing in hand, or the pause before the
    /// next attempt is over.
    Ready,
    /// The sink took the event.
    ForwardOk,
    /// The sink refused the event, or could not be reached.
    ForwardFailed,
    /// The event could not be put into the form that the sink takes.
    Malformed,
}

/// What the forwarding half asks of its caller.
#[derive(Debug)]
pub enum DrainAction {
    /// Offer this event to the sink once, then report `ForwardOk` or
    /// `ForwardFailed`.
    Forward(Event),
    /// Pause for `seconds`, then report `Ready`.
    Backoff { seconds: u64 },
    /// This event was given up after the last attempt allowed. Make that
    /// known, then report `Ready`.
    Dropped(Event),
    /// The channel is empty: wait until an event is in it, then report
    /// `Ready`.
    AwaitItem,
    /// The pipeline is shutting down and the channel is empty: stop the task.
    Stop,
    /// The report does not belong to the present state; nothing changed.
    Nothing,
}

/// What a [`DrainAction`] is, as plain values.
pub ghost enum DrainActionView {
    Forward(EventView),
    Backoff { seconds: u64 },
    Dropped(EventView),
    AwaitItem,
    Stop,
    Nothing,
}

impl View for DrainAction {
    type V = DrainActionView;

    open spec fn view(&self) -> DrainActionView {
        match self {
            DrainAction::Forward(event) => DrainActionView::Forward(event@),
            DrainAction::Backoff { seconds } => DrainActionView::Backoff { seconds: *seconds },
            DrainAction::Dropped(event) => DrainActionView::Dropped(event@),
            DrainAction::AwaitItem => DrainActionView::AwaitItem,
            DrainAction::Stop => DrainActionView::Stop,
            DrainAction::Nothing => DrainActionView::Nothing,
        }
    }
}

/// What became of an event that was handed to [`RelayPipeline::offer`].
#[derive(Debug)]
pub enum Offer {
    /// The event was recorded and is in the channel.
    Accepted,
    /// The ledger holds the event's identifier: the event was passed over.
    Duplicate,
    /// The channel is full. The event comes back; offer it again later.
    Full(Event),
    /// The pipeline polls, or is shutting down. The event comes back.
    Rejected(Event),
}

/// What an [`Offer`] is, as plain values.
pub ghost enum OfferView {
    Accepted,
    Duplicate,
    Full(EventView),
    Rejected(EventView),
}

impl View for Offer {
    type V = OfferView;

    open spec fn view(&self) -> OfferView {
        match self {
            Offer::Accepted => OfferView::Accepted,
            Offer::Duplicate => OfferView::Duplicate,
            Offer::Full(event) => OfferView::Full(event@),
            Offer::Rejected(event) => OfferView::Rejected(event@),
        }
    }
}

/// What a pipeline is, as plain values.
pub ghost struct PipelineView {
    /// The direction that the pipeline serves.
    pub direction: Direction,
    /// The numbers it runs by.
    pub settings: PipelineSettings,
    /// Where the fetching half stands.
    pub state: PipelineState,
    /// The watermark of the direction, once it has been read.
    pub watermark: Option<u64>,
    /// The identifiers in the ledger.
    pub ledger: Set<Seq<char>>,
    /// The events in the channel, oldest first.
    pub channel: Seq<EventView>,
    /// The batch that is being worked on.
    pub batch: Seq<EventView>,
    /// The place in the batch of the event in hand; all before it are done.
    pub cursor: nat,
    /// The latest creation time among the events of this batch that went
    /// into the channel, or the watermark if that is later.
    pub batch_max: u64,
    /// The identifiers of all events that ever went into the channel, in the
    /// order in which they went.
    pub enqueued: Seq<Seq<char>>,
    /// Where the forwarding half stands.
    pub drain: DrainState,
    /// The event that the forwarding half has in hand.
    pub in_flight: Option<EventView>,
    /// How often the event in hand has been offered to the sink.
    pub attempts: nat,
    /// How many events the sink took.
    pub delivered: u64,
    /// How many events were given up.
    pub dropped: u64,
}

/// The place of the first event at or after `from` whose identifier is not
/// in the ledger; the length of the batch if there is none.
pub open spec fn first_unseen(ledger: Set<Seq<char>>, batch: Seq<EventView>, from: nat) -> nat
    decreases batch.len() - from,
{
    if from >= batch.len() {
        batch.len()
    } else if !ledger.contains(batch[from as int].id) {
        from
    } else {
        first_unseen(ledger, batch, from + 1)
    }
}

/// One more, but never past the largest number.
pub open spec fn counted(n: u64) -> u64 {
    if n < u64::MAX {
        (n + 1) as u64
    } else {
        n
    }
}

/// The start of a cycle: the watermark is read, or created with its initial
/// value, and a fetch since the watermark is asked for.
pub open spec fn spec_begin(v: PipelineView) -> (PipelineView, ActionView) {
    let w = match v.watermark {
        Some(w) => w,
        None => v.settings.initial_watermark,
    };
    (
        PipelineView {
            state: PipelineState::Fetching,
            watermark: Some(w),
            batch: Seq::empty(),
            cursor: 0,
            batch_max: w,
            ..v
        },
        ActionView::Fetch { since: w, limit: v.settings.fetch_limit },
    )
}

/// The end of a batch. Where an event of the batch was created after the
/// watermark, the new watermark is to be written; otherwise the cycle is
/// over.
pub open spec fn spec_finish(v: PipelineView) -> (PipelineView, ActionView) {
    if v.watermark is Some && v.batch_max > v.watermark->0 {
        (
            PipelineView { state: PipelineState::Draining, batch: Seq::empty(), cursor: 0, ..v },
            ActionView::WriteWatermark { direction: v.direction, value: v.batch_max },
        )
    } else {
        (
            PipelineView { state: PipelineState::Sleeping, batch: Seq::empty(), cursor: 0, ..v },
            ActionView::Sleep { seconds: v.settings.poll_interval_secs },
        )
    }
}

/// Events that the ledger holds are passed over. The first one that it does
/// not hold is taken in hand and is to be recorded; with none left the batch
/// ends.
pub open spec fn spec_scan(v: PipelineView) -> (PipelineView, ActionView) {
    let i = first_unseen(v.ledger, v.batch, v.cursor);
    if i < v.batch.len() {
        (
            PipelineView { state: PipelineState::Deduping, cursor: i, ..v },
            ActionView::RecordSeen { id: v.batch[i as int].id },
        )
    } else {
        spec_finish(v)
    }
}

/// The event in hand goes to the back of the channel, and the rest of the
/// batch is looked through. A full channel changes nothing: the event stays
/// in hand and the pipeline waits for room.
pub open spec fn spec_enqueue(v: PipelineView) -> (PipelineView, ActionView) {
    let event = v.batch[v.cursor as int];
    let (queue, refused) = after_send(v.channel, v.settings.channel_capacity as nat, event);
    if refused is None {
        spec_scan(
            PipelineView {
                channel: queue,
                batch_max: advanced(v.batch_max, event.created_at),
                enqueued: v.enqueued.push(event.id),
                cursor: v.cursor + 1,
                ..v
            },
        )
    } else {
        (PipelineView { state: PipelineState::Enqueuing, ..v }, ActionView::AwaitSpace)
    }
}

/// What a report does to the fetching half: the pipeline afterwards, and
/// what it asks for.
///
/// - `Shutdown`, in any state: the pipeline shuts down and asks to stop.
///   Once shut down, it answers every report so.
/// - `Start` when idle, `Woke` when sleeping: a cycle begins.
/// - `Fetched` when fetching: the batch is looked through.
/// - `FetchFailed` when fetching: the watermark stays; after a pause the
///   same range is fetched again.
/// - `SeenRecorded` when deduping: the event in hand is in the ledger now
///   and goes to the channel.
/// - `PersistFailed` when deduping: the batch ends where it stands, without
///   the event in hand. The watermark stays, so that the next cycle fetches
///   the same range again.
/// - `SpaceAvailable` when enqueuing: the event in hand is offered to the
///   channel again.
/// - `WatermarkWritten` when draining: the watermark advances to the latest
///   creation time of what entered the channel.
/// - `PersistFailed` when draining: the watermark stays.
/// - Any other report: nothing changes.
pub open spec fn spec_step(v: PipelineView, input: InputView) -> (PipelineView, ActionView) {
    if input is Shutdown || v.state is ShuttingDown {
        (PipelineView { state: PipelineState::ShuttingDown, ..v }, ActionView::Stop)
    } else {
        match (v.state, input) {
            (PipelineState::Idle, InputView::Start) => spec_begin(v),
            (PipelineState::Sleeping, InputView::Woke) => spec_begin(v),
            (PipelineState::Fetching, InputView::Fetched(batch)) => spec_scan(
                PipelineView { batch: batch, cursor: 0, ..v },
            ),
            (PipelineState::Fetching, InputView::FetchFailed) => (
                PipelineView { state: PipelineState::Sleeping, ..v },
                ActionView::Sleep { seconds: v.settings.fetch_backoff_secs },
            ),
            (PipelineState::Deduping, InputView::SeenRecorded) => spec_enqueue(
                PipelineView { ledger: v.ledger.insert(v.batch[v.cursor as int].id), ..v },
            ),
            (PipelineState::Deduping, InputView::PersistFailed) => (
                PipelineView {
                    state: PipelineState::Sleeping,
                    batch: Seq::empty(),
                    cursor: 0,
                    ..v
                },
                ActionView::Sleep { seconds: v.settings.fetch_backoff_secs },
            ),
            (PipelineState::Enqueuing, InputView::SpaceAvailable) => spec_enqueue(v),
            (PipelineState::Draining, InputView::WatermarkWritten) => (
                PipelineView {
                    state: PipelineState::Sleeping,
                    watermark: match v.watermark {
                        Some(w) => Some(advanced(w, v.batch_max)),
                        None => None,
                    },
                    ..v
                },
                ActionView::Sleep { seconds: v.settings.poll_interval_secs },
            ),
            (PipelineState::Draining, InputView::PersistFailed) => (
                PipelineView { state: PipelineState::Sleeping, ..v },
                ActionView::Sleep { seconds: v.settings.poll_interval_secs },
            ),
            _ => (v, ActionView::Nothing),
        }
    }
}

/// The forwarding half takes the event at the front of the channel in hand
/// and asks for its first attempt. With an empty channel it waits, or stops
/// if the pipeline is shutting down.
pub open spec fn spec_take(v: PipelineView) -> (PipelineView, DrainActionView) {
    if v.channel.len() > 0 {
        (
            PipelineView {
                channel: v.channel.drop_first(),
                drain: DrainState::Forwarding,
                in_flight: Some(v.channel.first()),
                attempts: 1,
                ..v
            },
            DrainActionView::Forward(v.channel.first()),
        )
    } else if v.state is ShuttingDown {
        (v, DrainActionView::Stop)
    } else {
        (v, DrainActionView::AwaitItem)
    }
}

/// The event in hand is given up, and the answer names it.
pub open spec fn spec_give_up(v: PipelineView) -> (PipelineView, DrainActionView) {
    (
        PipelineView {
            drain: DrainState::Waiting,
            in_flight: None,
            attempts: 0,
            dropped: counted(v.dropped),
            ..v
        },
        DrainActionView::Dropped(v.in_flight->0),
    )
}

/// What a report does to the forwarding half: the pipeline afterwards, and
/// what it asks for.
///
/// An event is offered to the sink until the sink takes it, at most
/// `max_forward_attempts` times (but once at least), with a growing pause
/// between two attempts. After the last failure the event is given up, and
/// the answer says so. An event that cannot be put into the form that the
/// sink takes is given up at once, and the next one is not held up by it.
pub open spec fn spec_drain(v: PipelineView, input: DrainInput) -> (PipelineView, DrainActionView) {
    match (v.drain, input) {
        (DrainState::Waiting, DrainInput::Ready) => spec_take(v),
        (DrainState::BackingOff, DrainInput::Ready) => (
            PipelineView { drain: DrainState::Forwarding, attempts: v.attempts + 1, ..v },
            DrainActionView::Forward(v.in_flight->0),
        ),
        (DrainState::Forwarding, DrainInput::ForwardOk) => spec_take(
            PipelineView {
                drain: DrainState::Waiting,
                in_flight: None,
                attempts: 0,
                delivered: counted(v.delivered),
                ..v
            },
        ),
        (DrainState::Forwarding, DrainInput::ForwardFailed) => if v.attempts
            < v.settings.max_forward_attempts {
            (
                PipelineView { drain: DrainState::BackingOff, ..v },
                DrainActionView::Backoff {
                    seconds: v.settings.retry_backoff.spec_delay((v.attempts - 1) as nat),
                },
            )
        } else {
            spec_give_up(v)
        },
        (DrainState::Forwarding, DrainInput::Malformed) => spec_give_up(v),
        _ => (v, DrainActionView::Nothing),
    }
}

/// What handing in an event from a subscription does: the pipeline
/// afterwards, and what became of the event.
///
/// Only a pipeline that does not poll takes events this way. An event whose
/// identifier the ledger holds is passed over. A full channel changes
/// nothing. Otherwise the identifier is recorded and the event goes to the
/// back of the channel.
pub open spec fn spec_offer(v: PipelineView, event: EventView) -> (PipelineView, OfferView) {
    if !(v.state is Idle) {
        (v, OfferView::Rejected(event))
    } else if v.ledger.contains(event.id) {
        (v, OfferView::Duplicate)
    } else if v.channel.len() >= v.settings.channel_capacity {
        (v, OfferView::Full(event))
    } else {
        (
            PipelineView {
                ledger: v.ledger.insert(event.id),
                channel: v.channel.push(event),
                enqueued: v.enqueued.push(event.id),
                ..v
            },
            OfferView::Accepted,
        )
    }
}

/// The events that are on their way to the sink, in the order in which they
/// go: the one in hand, then those in the channel.
pub open spec fn held(v: PipelineView) -> Seq<EventView> {
    match v.in_flight {
        Some(event) => seq![event] + v.channel,
        None => v.channel,
    }
}

/// Whether `tail` is how `whole` ends.
pub open spec fn ends_with_ids(whole: Seq<Seq<char>>, tail: Seq<Seq<char>>) -> bool {
    tail.len() <= whole.len() && whole.skip(whole.len() - tail.len()) == tail
}

/// What holds of a pipeline whatever its state.
pub open spec fn base_inv(v: PipelineView) -> bool {
    &&& v.cursor <= v.batch.len()
    &&& ends_with_ids(v.enqueued, ids_of(held(v)))
    &&& v.channel.len() <= v.settings.channel_capacity
    &&& v.enqueued.no_duplicates()
    &&& forall|i: int| 0 <= i < v.enqueued.len() ==> v.ledger.contains(#[trigger] v.enqueued[i])
    &&& v.drain is Waiting <==> v.in_flight is None
    &&& v.in_flight is Some ==> v.attempts >= 1 && (v.attempts == 1 || v.attempts
        <= v.settings.max_forward_attempts)
    &&& v.drain is BackingOff ==> v.attempts < v.settings.max_forward_attempts
}

/// The watermark has been read, and nothing of the batch is later than
/// `batch_max`.
pub open spec fn cycle_inv(v: PipelineView) -> bool {
    v.watermark is Some && v.batch_max >= v.watermark->0
}

/// What holds of a pipeline at all times.
pub open spec fn inv(v: PipelineView) -> bool {
    &&& base_inv(v)
    &&& !(v.state is Idle || v.state is ShuttingDown) ==> cycle_inv(v)
    &&& v.state is Fetching ==> v.batch_max == v.watermark->0
    &&& v.state is Deduping ==> v.cursor < v.batch.len() && !v.ledger.contains(
        v.batch[v.cursor as int].id,
    )
    &&& v.state is Enqueuing ==> v.cursor < v.batch.len() && v.ledger.contains(
        v.batch[v.cursor as int].id,
    ) && !v.enqueued.contains(v.batch[v.cursor as int].id)
}

/// Between `from` and the first unseen event, every event is in the ledger;
/// the first unseen event is not.
pub proof fn lemma_first_unseen(ledger: Set<Seq<char>>, batch: Seq<EventView>, from: nat)
    requires
        from <= batch.len(),
    ensures
        from <= first_unseen(ledger, batch, from) <= batch.len(),
        first_unseen(ledger, batch, from) < batch.len() ==> !ledger.contains(
            batch[first_unseen(ledger, batch, from) as int].id,
        ),
        forall|i: int|
            from <= i < first_unseen(ledger, batch, from) ==> ledger.contains(
                (#[trigger] batch[i]).id,
            ),
    decreases batch.len() - from,
{
    if from < batch.len() && ledger.contains(batch[from as int].id) {
        lemma_first_unseen(ledger, batch, from + 1);
    }
}

/// An identifier that a sequence without duplicates does not hold can be
/// added at its end.
pub proof fn lemma_push_fresh(ids: Seq<Seq<char>>, id: Seq<char>)
    requires
        ids.no_duplicates(),
        !ids.contains(id),
    ensures
        ids.push(id).no_duplicates(),
{
    let pushed = ids.push(id);
    assert forall|i: int, j: int|
        0 <= i < pushed.len() && 0 <= j < pushed.len() && i != j implies pushed[i] != pushed[j] by {
        if i < ids.len() && j < ids.len() {
        } else if i < ids.len() {
            assert(ids.contains(ids[i]));
        } else {
            assert(ids.contains(ids[j]));
        }
    }
}

/// What ends a sequence still ends it after both have gained the same
/// identifier.
proof fn lemma_tail_grows(whole: Seq<Seq<char>>, tail: Seq<Seq<char>>, id: Seq<char>)
    requires
        ends_with_ids(whole, tail),
    ensures
        ends_with_ids(whole.push(id), tail.push(id)),
{
    assert(whole.push(id).skip(whole.len() + 1 - (tail.len() + 1)) =~= whole.skip(
        whole.len() - tail.len(),
    ).push(id));
}

/// What ends a sequence still ends it without its first identifier.
proof fn lemma_tail_shrinks(whole: Seq<Seq<char>>, tail: Seq<Seq<char>>)
    requires
        ends_with_ids(whole, tail),
        tail.len() > 0,
    ensures
        ends_with_ids(whole, tail.drop_first()),
{
    assert(whole.skip(whole.len() - (tail.len() - 1)) =~= whole.skip(
        whole.len() - tail.len(),
    ).drop_first());
}

/// An event that enters the channel, and the record with it, leaves what is
/// held at the end of the record.
proof fn lemma_held_gains(v: PipelineView, event: EventView)
    requires
        ends_with_ids(v.enqueued, ids_of(held(v))),
    ensures
        ends_with_ids(
            v.enqueued.push(event.id),
            ids_of(held(PipelineView { channel: v.channel.push(event), ..v })),
        ),
{
    let after = PipelineView { channel: v.channel.push(event), ..v };
    assert(held(after) =~= held(v).push(event));
    assert(ids_of(held(after)) =~= ids_of(held(v)).push(event.id));
    lemma_tail_grows(v.enqueued, ids_of(held(v)), event.id);
}

/// Taking the event at the front of the channel in hand changes nothing of
/// what is held; letting go of the event in hand takes the first away.
proof fn lemma_held_moves(v: PipelineView)
    requires
        ends_with_ids(v.enqueued, ids_of(held(v))),
    ensures
        v.in_flight is None && v.channel.len() > 0 ==> held(
            PipelineView {
                channel: v.channel.drop_first(),
                in_flight: Some(v.channel.first()),
                ..v
            },
        ) == held(v),
        v.in_flight is Some ==> ends_with_ids(
            v.enqueued,
            ids_of(held(PipelineView { in_flight: None, ..v })),
        ),
{
    if v.in_flight is None && v.channel.len() > 0 {
        let after = PipelineView {
            channel: v.channel.drop_first(),
            in_flight: Some(v.channel.first()),
            ..v
        };
        assert(held(after) =~= held(v));
    }
    if v.in_flight is Some {
        let after = PipelineView { in_flight: None, ..v };
        assert(held(after) =~= held(v).drop_first());
        assert(ids_of(held(after)) =~= ids_of(held(v)).drop_first());
        lemma_tail_shrinks(v.enqueued, ids_of(held(v)));
    }
}

proof fn lemma_scan_keeps_invariant(v: PipelineView)
    requires
        base_inv(v),
        cycle_inv(v),
    ensures
        inv(spec_scan(v).0),
{
    lemma_first_unseen(v.ledger, v.batch, v.cursor);
}

proof fn lemma_enqueue_keeps_invariant(v: PipelineView)
    requires
        base_inv(v),
        cycle_inv(v),
        v.cursor < v.batch.len(),
        v.ledger.contains(v.batch[v.cursor as int].id),
        !v.enqueued.contains(v.batch[v.cursor as int].id),
    ensures
        inv(spec_enqueue(v).0),
{
    let event = v.batch[v.cursor as int];
    if v.channel.len() < v.settings.channel_capacity {
        let next = PipelineView {
            channel: v.channel.push(event),
            batch_max: advanced(v.batch_max, event.created_at),
            enqueued: v.enqueued.push(event.id),
            cursor: v.cursor + 1,
            ..v
        };
        lemma_push_fresh(v.enqueued, event.id);
        lemma_held_gains(v, event);
        assert(held(next) == held(PipelineView { channel: v.channel.push(event), ..v }));
        lemma_scan_keeps_invariant(next);
    }
}

/// No report to the fetching half breaks what holds of a pipeline.
pub proof fn lemma_step_keeps_invariant(v: PipelineView, input: InputView)
    requires
        inv(v),
    ensures
        inv(spec_step(v, input).0),
{
    if input is Shutdown || v.state is ShuttingDown {
    } else {
        match (v.state, input) {
            (PipelineState::Fetching, InputView::Fetched(batch)) => {
                lemma_scan_keeps_invariant(PipelineView { batch: batch, cursor: 0, ..v });
            },
            (PipelineState::Deduping, InputView::SeenRecorded) => {
                let id = v.batch[v.cursor as int].id;
                let recorded = PipelineView { ledger: v.ledger.insert(id), ..v };
                if v.enqueued.contains(id) {
                    let i = choose|i: int| 0 <= i < v.enqueued.len() && v.enqueued[i] == id;
                    assert(v.ledger.contains(v.enqueued[i]));
                }
                lemma_enqueue_keeps_invariant(recorded);
            },
            (PipelineState::Enqueuing, InputView::SpaceAvailable) => {
                lemma_enqueue_keeps_invariant(v);
            },
            _ => {},
        }
    }
}

/// No report to the forwarding half breaks what holds of a pipeline.
pub proof fn lemma_drain_keeps_invariant(v: PipelineView, input: DrainInput)
    requires
        inv(v),
    ensures
        inv(spec_drain(v, input).0),
{
    lemma_held_moves(v);
    match (v.drain, input) {
        (DrainState::Forwarding, DrainInput::ForwardOk) => {
            let freed = PipelineView {
                drain: DrainState::Waiting,
                in_flight: None,
                attempts: 0,
                delivered: counted(v.delivered),
                ..v
            };
            assert(held(freed) == held(PipelineView { in_flight: None, ..v }));
            lemma_held_moves(freed);
            if freed.channel.len() > 0 {
                assert(held(spec_take(freed).0) == held(
                    PipelineView {
                        channel: freed.channel.drop_first(),
                        in_flight: Some(freed.channel.first()),
                        ..freed
                    },
                ));
            }
        },
        (DrainState::Waiting, DrainInput::Ready) => {
            if v.channel.len() > 0 {
                assert(held(spec_take(v).0) == held(
                    PipelineView {
                        channel: v.channel.drop_first(),
                        in_flight: Some(v.channel.first()),
                        ..v
                    },
                ));
            }
        },
        (DrainState::BackingOff, DrainInput::Ready) => {
            assert(held(spec_drain(v, input).0) == held(v));
        },
        _ => {
            assert(held(spec_drain(v, input).0) == held(v) || held(spec_drain(v, input).0)
                == held(PipelineView { in_flight: None, ..v }));
        },
    }
}

/// Handing in an event breaks nothing that holds of a pipeline.
pub proof fn lemma_offer_keeps_invariant(v: PipelineView, event: EventView)
    requires
        inv(v),
    ensures
        inv(spec_offer(v, event).0),
{
    if v.state is Idle && !v.ledger.contains(event.id) && v.channel.len()
        < v.settings.channel_capacity {
        if v.enqueued.contains(event.id) {
            let i = choose|i: int| 0 <= i < v.enqueued.len() && v.enqueued[i] == event.id;
            assert(v.ledger.contains(v.enqueued[i]));
        }
        lemma_push_fresh(v.enqueued, event.id);
        lemma_held_gains(v, event);
        assert(held(spec_offer(v, event).0) == held(
            PipelineView { channel: v.channel.push(event), ..v },
        ));
    }
}

/// The value of a watermark record, if there is one.
pub open spec fn value_of(row: Option<Watermark>) -> Option<u64> {
    match row {
        Some(row) => Some(row.value),
        None => None,
    }
}

/// The record of a pipeline's own direction after a report at `now`, given
/// the record before and the watermark that the pipeline shows afterwards.
/// A record whose value stays is not touched; a value that is new is written
/// at `now`.
pub open spec fn restamped(row: Option<Watermark>, watermark: Option<u64>, now: i64) -> Option<
    Watermark,
> {
    match watermark {
        Some(value) => Some(
            if row is Some && row->0.value == value {
                row->0
            } else {
                Watermark { value, updated_at: now }
            },
        ),
        None => None,
    }
}

/// The times of a ledger after a report at `now`, given the times before and
/// the identifiers that the ledger holds afterwards. An identifier that was
/// there keeps its time; one that is new has the time `now`.
pub open spec fn stamped(seen: Map<Seq<char>, i64>, ledger: Set<Seq<char>>, now: i64) -> Map<
    Seq<char>,
    i64,
> {
    Map::new(
        |id: Seq<char>| ledger.contains(id),
        |id: Seq<char>|
            if seen.dom().contains(id) {
                seen[id]
            } else {
                now
            },
    )
}

/// A ledger that gains nothing keeps its times, and a ledger that gains one
/// identifier has it at the time of the report.
pub proof fn lemma_stamped(seen: Map<Seq<char>, i64>, id: Seq<char>, now: i64)
    ensures
        stamped(seen, seen.dom(), now) == seen,
        stamped(seen, noted(seen, id, now).dom(), now) == noted(seen, id, now),
{
    assert(stamped(seen, seen.dom(), now) =~= seen);
    assert(stamped(seen, noted(seen, id, now).dom(), now) =~= noted(seen, id, now));
}

/// The relay pipeline of one direction.
pub struct RelayPipeline {
    direction: Direction,
    settings: PipelineSettings,
    state: PipelineState,
    store: CursorStore,
    channel: Channel,
    batch: Vec<Event>,
    cursor: usize,
    batch_max: u64,
    enqueued: Ghost<Seq<Seq<char>>>,
    drain: DrainState,
    in_flight: Option<Event>,
    attempts: u32,
    delivered: u64,
    dropped: u64,
}

impl View for RelayPipeline {
    type V = PipelineView;

    closed spec fn view(&self) -> PipelineView {
        PipelineView {
            direction: self.direction,
            settings: self.settings,
            state: self.state,
            watermark: value_of(self.store.watermark(self.direction)),
            ledger: self.store.ledger(),
            channel: self.channel@,
            batch: views_of(self.batch@),
            cursor: self.cursor as nat,
            batch_max: self.batch_max,
            enqueued: self.enqueued@,
            drain: self.drain,
            in_flight: match self.in_flight {
                Some(event) => Some(event@),
                None => None,
            },
            attempts: self.attempts as nat,
            delivered: self.delivered,
            dropped: self.dropped,
        }
    }
}

impl RelayPipeline {
    spec fn shape_ok(&self) -> bool {
        &&& self.channel.spec_capacity() == self.settings.channel_capacity
        &&& self.cursor <= self.batch@.len()
    }

    /// The watermark record that the pipeline's store holds for a direction.
    /// The pipeline reads and writes the record of its own direction only.
    pub closed spec fn record(&self, direction: Direction) -> Option<Watermark> {
        self.store.watermark(direction)
    }

    /// The ledger of the pipeline's store: each identifier with the time it
    /// was first seen.
    pub closed spec fn seen(&self) -> Map<Seq<char>, i64> {
        self.store.seen()
    }

    /// The store of the pipeline holds what `store` holds.
    pub open spec fn holds(&self, store: &CursorStore) -> bool {
        &&& forall|d: Direction| self.record(d) == store.watermark(d)
        &&& self.seen() == store.seen()
    }

    /// The store is as it was in `before`.
    pub open spec fn store_kept(&self, before: &RelayPipeline) -> bool {
        &&& forall|d: Direction| self.record(d) == before.record(d)
        &&& self.seen() == before.seen()
    }

    /// The store is what a report at `now` makes of the store of `before`:
    /// the records of the other directions stay; the record of the
    /// pipeline's own direction and the times of the ledger follow what the
    /// pipeline shows now.
    pub open spec fn store_follows(&self, before: &RelayPipeline, now: i64) -> bool {
        &&& forall|d: Direction| d != before@.direction ==> self.record(d) == before.record(d)
        &&& self.record(before@.direction) == restamped(
            before.record(before@.direction),
            self@.watermark,
            now,
        )
        &&& self.seen() == stamped(before.seen(), self@.ledger, now)
    }

    /// What a pipeline shows of its store is what the store holds: the
    /// value of the record of its direction, and the identifiers of the
    /// ledger.
    pub proof fn lemma_view_of_store(&self)
        ensures
            self@.watermark == value_of(self.record(self@.direction)),
            self@.ledger == self.seen().dom(),
    {
    }

    /// The pipeline is in order: what holds of a pipeline at all times holds
    /// of this one. `new` makes a pipeline that is in order, and `step`,
    /// `drain` and `offer` keep it so; nothing else makes or changes one.
    pub closed spec fn wf(&self) -> bool {
        &&& self.shape_ok()
        &&& inv(self@)
    }

    /// What is in order is a pipeline of which [`inv`] holds.
    pub proof fn lemma_wf_inv(&self)
        requires
            self.wf(),
        ensures
            inv(self@),
    {
    }

    /// A pipeline for `direction` that has not started, over the watermarks
    /// and the ledger in `store`, with an empty channel.
    pub fn new(direction: Direction, store: CursorStore, settings: PipelineSettings) -> (r:
        RelayPipeline)
        ensures
            r.wf(),
            r@ == (PipelineView {
                direction,
                settings,
                state: PipelineState::Idle,
                watermark: value_of(store.watermark(direction)),
                ledger: store.ledger(),
                channel: Seq::empty(),
                batch: Seq::empty(),
                cursor: 0,
                batch_max: 0,
                enqueued: Seq::empty(),
                drain: DrainState::Waiting,
                in_flight: None,
                attempts: 0,
                delivered: 0,
                dropped: 0,
            }),
            r.holds(&store),
    {
        let r = RelayPipeline {
            direction,
            settings,
            state: PipelineState::Idle,
            store,
            channel: Channel::new(settings.channel_capacity),
            batch: Vec::new(),
            cursor: 0,
            batch_max: 0,
            enqueued: Ghost(Seq::empty()),
            drain: DrainState::Waiting,
            in_flight: None,
            attempts: 0,
            delivered: 0,
            dropped: 0,
        };
        assert(r@.batch =~= Seq::<EventView>::empty());
        assert(ids_of(held(r@)) =~= r@.enqueued.skip(0));
        r
    }

    /// The direction that the pipeline serves.
    pub fn direction(&self) -> (r: Direction)
        ensures
            r == self@.direction,
    {
        self.direction
    }

    /// Where the fetching half stands.
    pub fn state(&self) -> (r: PipelineState)
        ensures
            r == self@.state,
    {
        self.state
    }

    /// Where the forwarding half stands.
    pub fn drain_state(&self) -> (r: DrainState)
        ensures
            r == self@.drain,
    {
        self.drain
    }

    /// The watermark of the direction, once it has been read.
    pub fn watermark(&self) -> (r: Option<u64>)
        ensures
            r == self@.watermark,
    {
        match self.store.peek_watermark(self.direction) {
            Some(row) => Some(row.value),
            None => None,
        }
    }

    /// Whether the ledger holds `id`.
    pub fn has_seen(&self, id: &str) -> (r: bool)
        ensures
            r == self@.ledger.contains(id@),
    {
        self.store.has_seen(id)
    }

    /// The watermark record that the store holds for a direction.
    pub fn record_of(&self, direction: Direction) -> (r: Option<Watermark>)
        ensures
            r == self.record(direction),
    {
        self.store.peek_watermark(direction)
    }

    /// When `id` was first recorded, if it ever was.
    pub fn first_seen(&self, id: &str) -> (r: Option<i64>)
        ensures
            r is Some <==> self.seen().dom().contains(id@),
            r is Some ==> r->0 == self.seen()[id@],
    {
        self.store.first_seen(id)
    }

    /// How many events wait in the channel.
    pub fn queued(&self) -> (r: usize)
        ensures
            r == self@.channel.len(),
    {
        self.channel.len()
    }

    /// How many events the sink took.
    pub fn delivered(&self) -> (r: u64)
        ensures
            r == self@.delivered,
    {
        self.delivered
    }

    /// How many events were given up after the last attempt allowed.
    pub fn dropped(&self) -> (r: u64)
        ensures
            r == self@.dropped,
    {
        self.dropped
    }

    fn begin(&mut self, now: i64) -> (action: Action)
        requires
            old(self).shape_ok(),
        ensures
            final(self).shape_ok(),
            (final(self)@, action@) == spec_begin(old(self)@),
            final(self).store_follows(old(self), now),
    {
        proof {
            lemma_stamped(self.seen(), Seq::empty(), now);
        }
        let w = self.store.get_watermark(self.direction, self.settings.initial_watermark, now);
        self.state = PipelineState::Fetching;
        self.batch = Vec::new();
        self.cursor = 0;
        self.batch_max = w;
        assert(self@.batch =~= Seq::<EventView>::empty());
        Action::Fetch { since: w, limit: self.settings.fetch_limit }
    }

    fn finish(&mut self) -> (action: Action)
        requires
            old(self).shape_ok(),
        ensures
            final(self).shape_ok(),
            (final(self)@, action@) == spec_finish(old(self)@),
            final(self).store_kept(old(self)),
    {
        let above = match self.store.peek_watermark(self.direction) {
            Some(row) => self.batch_max > row.value,
            None => false,
        };
        self.batch = Vec::new();
        self.cursor = 0;
        assert(self@.batch =~= Seq::<EventView>::empty());
        if above {
            self.state = PipelineState::Draining;
            Action::WriteWatermark { direction: self.direction, value: self.batch_max }
        } else {
            self.state = PipelineState::Sleeping;
            Action::Sleep { seconds: self.settings.poll_interval_secs }
        }
    }

    fn scan(&mut self) -> (action: Action)
        requires
            old(self).shape_ok(),
        ensures
            final(self).shape_ok(),
            (final(self)@, action@) == spec_scan(old(self)@),
            final(self).store_kept(old(self)),
    {
        let n = self.batch.len();
        let mut i = self.cursor;
        let mut found = false;
        while i < n && !found
            invariant
                n == self.batch@.len(),
                self.cursor <= i <= n,
                found ==> i < n && !self.store.ledger().contains(self.batch@[i as int].id@),
                first_unseen(self.store.ledger(), views_of(self.batch@), self.cursor as nat)
                    == first_unseen(self.store.ledger(), views_of(self.batch@), i as nat),
            decreases (n - i) + (if found { 0int } else { 1int }),
        {
            if self.store.has_seen(self.batch[i].id.as_str()) {
                i += 1;
            } else {
                found = true;
            }
        }
        if found {
            self.cursor = i;
            self.state = PipelineState::Deduping;
            Action::RecordSeen { id: self.batch[i].id.clone() }
        } else {
            self.finish()
        }
    }

    fn enqueue(&mut self) -> (action: Action)
        requires
            old(self).shape_ok(),
            old(self).cursor < old(self).batch@.len(),
        ensures
            final(self).shape_ok(),
            (final(self)@, action@) == spec_enqueue(old(self)@),
            final(self).store_kept(old(self)),
    {
        let ghost before = self@;
        let ghost event = self.batch@[self.cursor as int]@;
        let n = self.batch.len();
        let created_at = self.batch[self.cursor].created_at;
        let copy = self.batch[self.cursor].duplicate();
        match self.channel.try_send(copy) {
            Ok(()) => {
                if created_at > self.batch_max {
                    self.batch_max = created_at;
                }
                self.enqueued = Ghost(self.enqueued@.push(event.id));
                assert(self.cursor < n);
                self.cursor += 1;
                assert(self@ == (PipelineView {
                    channel: before.channel.push(event),
                    batch_max: advanced(before.batch_max, event.created_at),
                    enqueued: before.enqueued.push(event.id),
                    cursor: before.cursor + 1,
                    ..before
                }));
                self.scan()
            },
            Err(_) => {
                self.state = PipelineState::Enqueuing;
                Action::AwaitSpace
            },
        }
    }

    /// Takes a report for the fetching half, made at `now` (in seconds
    /// since the Unix epoch), and answers with what to do next. What is
    /// written to the store is written at `now`.
    pub fn step(&mut self, input: Input, now: i64) -> (action: Action)
        requires
            old(self).wf(),
        ensures
            final(self).wf(),
            (final(self)@, action@) == spec_step(old(self)@, input@),
            final(self).store_follows(old(self), now),
    {
        proof {
            lemma_step_keeps_invariant(self@, input@);
            lemma_stamped(
                self.seen(),
                if self.cursor < self.batch@.len() {
                    self.batch@[self.cursor as int].id@
                } else {
                    Seq::empty()
                },
                now,
            );
        }
        if self.state == PipelineState::ShuttingDown {
            return Action::Stop;
        }
        match input {
            Input::Shutdown => {
                self.state = PipelineState::ShuttingDown;
                Action::Stop
            },
            Input::Start => {
                if self.state == PipelineState::Idle {
                    self.begin(now)
                } else {
                    Action::Nothing
                }
            },
            Input::Woke => {
                if self.state == PipelineState::Sleeping {
                    self.begin(now)
                } else {
                    Action::Nothing
                }
            },
            Input::Fetched(batch) => {
                if self.state == PipelineState::Fetching {
                    self.batch = batch;
                    self.cursor = 0;
                    self.scan()
                } else {
                    Action::Nothing
                }
            },
            Input::FetchFailed => {
                if self.state == PipelineState::Fetching {
                    self.state = PipelineState::Sleeping;
                    Action::Sleep { seconds: self.settings.fetch_backoff_secs }
                } else {
                    Action::Nothing
                }
            },
            Input::SeenRecorded => {
                if self.state == PipelineState::Deduping {
                    self.store.record_seen(self.batch[self.cursor].id.as_str(), now);
                    self.enqueue()
                } else {
                    Action::Nothing
                }
            },
            Input::SpaceAvailable => {
                if self.state == PipelineState::Enqueuing {
                    self.enqueue()
                } else {
                    Action::Nothing
                }
            },
            Input::WatermarkWritten => {
                if self.state == PipelineState::Draining {
                    self.store.advance_watermark(self.direction, self.batch_max, now);
                    self.state = PipelineState::Sleeping;
                    Action::Sleep { seconds: self.settings.poll_interval_secs }
                } else {
                    Action::Nothing
                }
            },
            Input::PersistFailed => {
                if self.state == PipelineState::Deduping {
                    self.state = PipelineState::Sleeping;
                    self.batch = Vec::new();
                    self.cursor = 0;
                    assert(self@.batch =~= Seq::<EventView>::empty());
                    Action::Sleep { seconds: self.settings.fetch_backoff_secs }
                } else if self.state == PipelineState::Draining {
                    self.state = PipelineState::Sleeping;
                    Action::Sleep { seconds: self.settings.poll_interval_secs }
                } else {
                    Action::Nothing
                }
            },
        }
    }

    fn take(&mut self) -> (action: DrainAction)
        requires
            old(self).shape_ok(),
        ensures
            final(self).shape_ok(),
            (final(self)@, action@) == spec_take(old(self)@),
            final(self).store_kept(old(self)),
    {
        match self.channel.try_recv() {
            Some(event) => {
                let copy = event.duplicate();
                self.in_flight = Some(event);
                self.attempts = 1;
                self.drain = DrainState::Forwarding;
                DrainAction::Forward(copy)
            },
            None => {
                if self.state == PipelineState::ShuttingDown {
                    DrainAction::Stop
                } else {
                    DrainAction::AwaitItem
                }
            },
        }
    }

    fn give_up(&mut self) -> (action: DrainAction)
        requires
            old(self).shape_ok(),
            old(self).in_flight is Some,
        ensures
            final(self).shape_ok(),
            (final(self)@, action@) == spec_give_up(old(self)@),
            final(self).store_kept(old(self)),
    {
        match self.in_flight.take() {
            Some(event) => {
                self.attempts = 0;
                self.drain = DrainState::Waiting;
                if self.dropped < u64::MAX {
                    self.dropped = self.dropped + 1;
                }
                DrainAction::Dropped(event)
            },
            None => DrainAction::Nothing,
        }
    }

    /// Takes a report for the forwarding half and answers with what to do
    /// next.
    pub fn drain(&mut self, input: DrainInput) -> (action: DrainAction)
        requires
            old(self).wf(),
        ensures
            final(self).wf(),
            (final(self)@, action@) == spec_drain(old(self)@, input),
            final(self).store_kept(old(self)),
    {
        proof {
            lemma_drain_keeps_invariant(self@, input);
        }
        match (self.drain, input) {
            (DrainState::Waiting, DrainInput::Ready) => self.take(),
            (DrainState::BackingOff, DrainInput::Ready) => {
                match &self.in_flight {
                    Some(event) => {
                        let copy = event.duplicate();
                        self.attempts = self.attempts + 1;
                        self.drain = DrainState::Forwarding;
                        DrainAction::Forward(copy)
                    },
                    None => DrainAction::Nothing,
                }
            },
            (DrainState::Forwarding, DrainInput::ForwardOk) => {
                self.in_flight = None;
                self.attempts = 0;
                self.drain = DrainState::Waiting;
                if self.delivered < u64::MAX {
                    self.delivered = self.delivered + 1;
                }
                self.take()
            },
            (DrainState::Forwarding, DrainInput::ForwardFailed) => {
                if self.attempts < self.settings.max_forward_attempts {
                    self.drain = DrainState::BackingOff;
                    DrainAction::Backoff {
                        seconds: self.settings.retry_backoff.delay(self.attempts - 1),
                    }
                } else {
                    self.give_up()
                }
            },
            (DrainState::Forwarding, DrainInput::Malformed) => self.give_up(),
            _ => DrainAction::Nothing,
        }
    }

    /// Hands in an event that arrived through a subscription at `now` (in
    /// seconds since the Unix epoch). An event that is taken is recorded at
    /// `now`.
    pub fn offer(&mut self, event: Event, now: i64) -> (r: Offer)
        requires
            old(self).wf(),
        ensures
            final(self).wf(),
            (final(self)@, r@) == spec_offer(old(self)@, event@),
            final(self).store_follows(old(self), now),
    {
        proof {
            lemma_offer_keeps_invariant(self@, event@);
            lemma_stamped(self.seen(), event@.id, now);
        }
        if self.state != PipelineState::Idle {
            Offer::Rejected(event)
        } else if self.store.has_seen(event.id.as_str()) {
            Offer::Duplicate
        } else if self.channel.is_full() {
            Offer::Full(event)
        } else {
            let ghost before = self@;
            let ghost view = event@;
            self.store.record_seen(event.id.as_str(), now);
            let sent = self.channel.try_send(event);
            self.enqueued = Ghost(self.enqueued@.push(view.id));
            assert(self@ == (PipelineView {
                ledger: before.ledger.insert(view.id),
                channel: before.channel.push(view),
                enqueued: before.enqueued.push(view.id),
                ..before
            }));
            Offer::Accepted
        }
    }
}

} // verus!
