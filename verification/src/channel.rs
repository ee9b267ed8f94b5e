//! The broadcast channels of the `tokio` crate, over which those who watch the server are told
//! what happens.
//!
//! A channel takes values through a shared reference. Its sender is held exclusively here, so
//! handing it a value takes it by mutable reference.
use crate::event::BusEvent;
use vstd::prelude::*;

verus! {

#[verifier::external_type_specification]
#[verifier::external_body]
#[verifier::reject_recursive_types(T)]
pub struct ExSender<T>(tokio::sync::broadcast::Sender<T>);

#[verifier::external_type_specification]
#[verifier::external_body]
#[verifier::reject_recursive_types(T)]
pub struct ExReceiver<T>(tokio::sync::broadcast::Receiver<T>);

/// How much room a channel may have: its slots, rounded up to a power of two, can still be
/// counted in bytes.
pub const MAX_CAPACITY: usize = usize::MAX / 1024;

// ---- events ----

pub type EventSender = tokio::sync::broadcast::Sender<BusEvent>;

pub type EventReceiver = tokio::sync::broadcast::Receiver<BusEvent>;

/// The events that the channel was handed, in their order.
pub uninterp spec fn events_handed(tx: EventSender) -> Seq<BusEvent>;

/// How many events the channel keeps for a receiver that falls behind, at least.
pub uninterp spec fn event_room(tx: EventSender) -> nat;

/// Which channel the sender hands events to.
pub uninterp spec fn event_line(tx: EventSender) -> int;

/// Which channel the receiver gets its events from.
pub uninterp spec fn event_line_heard(rx: EventReceiver) -> int;

/// The place, among the events that the channel was handed, of the next one for the receiver.
pub uninterp spec fn event_next(rx: EventReceiver) -> nat;

/// `broadcast::channel`: a channel that was handed nothing. It keeps `capacity` events for a
/// receiver that falls behind. There is no channel with room for none, nor one whose room cannot
/// be counted in bytes.
#[verifier::external_body]
pub(crate) fn event_channel(capacity: usize) -> (tx: EventSender)
    requires
        0 < capacity <= MAX_CAPACITY,
    ensures
        (events_handed(tx) == Seq::<BusEvent>::empty()),
        event_room(tx) == capacity,
{
    tokio::sync::broadcast::channel(capacity).0
}

/// `Sender::send`: the channel is handed the event, behind those before it. Without a receiver
/// it is dropped.
#[verifier::external_body]
pub(crate) fn event_send(tx: &mut EventSender, event: BusEvent)
    ensures
        events_handed(*final(tx)) == events_handed(*old(tx)).push(event),
        event_room(*final(tx)) == event_room(*old(tx)),
        event_line(*final(tx)) == event_line(*old(tx)),
{
    let _ = tx.send(event);
}

/// `Sender::subscribe`: a receiver that gets the events handed over after this call.
#[verifier::external_body]
pub(crate) fn event_subscribe(tx: &EventSender) -> (rx: EventReceiver)
    ensures
        event_next(rx) == events_handed(*tx).len(),
        event_line_heard(rx) == event_line(*tx),
{
    tx.subscribe()
}

/// `Receiver::try_recv` on a receiver of the channel of `tx`: the next event for the receiver;
/// `Ok(None)` where it has got all that the channel was handed; or `Err` with the number of events
/// that it has lost, the oldest of those for it, where it was further behind than the channel has
/// room for. What it got or lost does not come again.
#[verifier::external_body]
pub(crate) fn event_try_recv(tx: &EventSender, rx: &mut EventReceiver) -> (r: Result<
    Option<BusEvent>,
    u64,
>)
    requires
        event_line_heard(*old(rx)) == event_line(*tx),
    ensures
        event_line_heard(*final(rx)) == event_line_heard(*old(rx)),
        (match r {
            Ok(Some(e)) => {
                &&& event_next(*old(rx)) < events_handed(*tx).len()
                &&& e == events_handed(*tx)[event_next(*old(rx)) as int]
                &&& event_next(*final(rx)) == event_next(*old(rx)) + 1
            },
            Ok(None) => {
                &&& event_next(*old(rx)) == events_handed(*tx).len()
                &&& event_next(*final(rx)) == event_next(*old(rx))
            },
            Err(lost) => {
                &&& lost > 0
                &&& event_next(*final(rx)) == event_next(*old(rx)) + lost
                &&& event_next(*final(rx)) + event_room(*tx) <= events_handed(*tx).len()
            },
        }),
{
    match rx.try_recv() {
        Ok(e) => Ok(Some(e)),
        Err(tokio::sync::broadcast::error::TryRecvError::Lagged(lost)) => Err(lost),
        Err(_) => Ok(None),
    }
}

// ---- bare signals ----

pub type SignalSender = tokio::sync::broadcast::Sender<()>;

pub type SignalReceiver = tokio::sync::broadcast::Receiver<()>;

/// How many signals the channel was handed.
pub uninterp spec fn signals_handed(tx: SignalSender) -> nat;

/// How many signals the channel keeps for a receiver that falls behind, at least.
pub uninterp spec fn signal_room(tx: SignalSender) -> nat;

/// Which channel the sender hands signals to.
pub uninterp spec fn signal_line(tx: SignalSender) -> int;

/// Which channel the receiver gets its signals from.
pub uninterp spec fn signal_line_heard(rx: SignalReceiver) -> int;

/// The place, among the signals that the channel was handed, of the next one for the receiver.
pub uninterp spec fn signal_next(rx: SignalReceiver) -> nat;

/// `broadcast::channel`: a channel that was handed nothing. It keeps `capacity` signals for a
/// receiver that falls behind. There is no channel with room for none, nor one whose room cannot
/// be counted in bytes.
#[verifier::external_body]
pub(crate) fn signal_channel(capacity: usize) -> (tx: SignalSender)
    requires
        0 < capacity <= MAX_CAPACITY,
    ensures
        signals_handed(tx) == 0,
        signal_room(tx) == capacity,
{
    tokio::sync::broadcast::channel(capacity).0
}

/// `Sender::send`: the channel is handed one more signal. Without a receiver it is dropped.
#[verifier::external_body]
pub(crate) fn signal_send(tx: &mut SignalSender)
    ensures
        signals_handed(*final(tx)) == signals_handed(*old(tx)) + 1,
        signal_room(*final(tx)) == signal_room(*old(tx)),
        signal_line(*final(tx)) == signal_line(*old(tx)),
{
    let _ = tx.send(());
}

/// `Sender::subscribe`: a receiver that gets the signals handed over after this call.
#[verifier::external_body]
pub(crate) fn signal_subscribe(tx: &SignalSender) -> (rx: SignalReceiver)
    ensures
        signal_next(rx) == signals_handed(*tx),
        signal_line_heard(rx) == signal_line(*tx),
{
    tx.subscribe()
}

/// `Receiver::try_recv` on a receiver of the channel of `tx`: `Ok(true)` where it gets its next
/// signal; `Ok(false)` where it has got all that the channel was handed; or `Err` with the number
/// of signals that it has lost, where it was further behind than the channel has room for. What it
/// got or lost does not come again.
#[verifier::external_body]
pub(crate) fn signal_try_recv(tx: &SignalSender, rx: &mut SignalReceiver) -> (r: Result<bool, u64>)
    requires
        signal_line_heard(*old(rx)) == signal_line(*tx),
    ensures
        signal_line_heard(*final(rx)) == signal_line_heard(*old(rx)),
        (match r {
            Ok(true) => {
                &&& signal_next(*old(rx)) < signals_handed(*tx)
                &&& signal_next(*final(rx)) == signal_next(*old(rx)) + 1
            },
            Ok(false) => {
                &&& signal_next(*old(rx)) == signals_handed(*tx)
                &&& signal_next(*final(rx)) == signal_next(*old(rx))
            },
            Err(lost) => {
                &&& lost > 0
                &&& signal_next(*final(rx)) == signal_next(*old(rx)) + lost
                &&& signal_next(*final(rx)) + signal_room(*tx) <= signals_handed(*tx)
            },
        }),
{
    match rx.try_recv() {
        Ok(()) => Ok(true),
        Err(tokio::sync::broadcast::error::TryRecvError::Lagged(lost)) => Err(lost),
        Err(_) => Ok(false),
    }
}

} // verus!
