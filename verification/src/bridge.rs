//! The event bridge: the two channels connecting the synchronous tick domain
//! to the asynchronous network domain.
//!
//! The inbound channel carries batches of already-decoded semantic events,
//! one batch per received network frame; the network domain is its only
//! producer and the tick its only consumer. The outbound channel carries
//! individual semantic events awaiting encoding and transmission; the tick is
//! its only producer. Both channels are unbounded — the explicit capacity
//! policy of this bridge; what bounds a tick's work is its own drain limit,
//! not a channel capacity. Both ends used by the tick are strictly
//! non-blocking:
//! the tick polls what is available and proceeds with nothing when the
//! channel is empty or gone, so it never waits on network activity.

use vstd::prelude::*;
use crate::events::SemanticInputEvent;

verus! {

/// What one non-blocking poll of the inbound channel found.
pub enum InboundPoll {
    /// One received frame's batch of decoded events, in frame order.
    Batch(Vec<SemanticInputEvent>),
    /// Nothing is buffered right now; the tick proceeds with zero remote
    /// events.
    Empty,
    /// The network domain dropped its sending end: degraded mode, not a
    /// crash.
    Closed,
}

/// Declares std::sync::mpsc::Receiver so the inbound bridge endpoint can
/// appear in signatures; the value is opaque, only `poll_inbound` touches it.
#[verifier::external_type_specification]
#[verifier::external_body]
#[verifier::reject_recursive_types(T)]
pub struct ExReceiver<T>(std::sync::mpsc::Receiver<T>);

/// Declares futures::channel::mpsc::UnboundedSender so the outbound bridge
/// endpoint can appear in signatures; the value is opaque, only
/// `send_outbound` touches it.
#[verifier::external_type_specification]
#[verifier::external_body]
#[verifier::reject_recursive_types(T)]
pub struct ExUnboundedSender<T>(futures::channel::mpsc::UnboundedSender<T>);

/// Relies on std::sync::mpsc::Receiver::try_recv: it returns a buffered value
/// immediately, or Empty when nothing is buffered, or Disconnected when every
/// sender is gone; it never blocks. What it returns depends on the network
/// domain, so nothing more is stated; the tick handles every outcome.
#[verifier::external_body]
pub(crate) fn poll_inbound(rx: &std::sync::mpsc::Receiver<Vec<SemanticInputEvent>>) -> InboundPoll {
    match rx.try_recv() {
        Ok(batch) => InboundPoll::Batch(batch),
        Err(std::sync::mpsc::TryRecvError::Empty) => InboundPoll::Empty,
        Err(std::sync::mpsc::TryRecvError::Disconnected) => InboundPoll::Closed,
    }
}

/// Relies on futures::channel::mpsc::UnboundedSender::unbounded_send: it
/// queues the message without blocking and fails exactly when the receiving
/// end is gone. Whether the receiver is still there depends on the network
/// domain, so only the two outcomes are distinguished.
#[verifier::external_body]
pub(crate) fn send_outbound(
    tx: &futures::channel::mpsc::UnboundedSender<SemanticInputEvent>,
    event: SemanticInputEvent,
) -> bool {
    match tx.unbounded_send(event) {
        Ok(()) => true,
        Err(_) => false,
    }
}

/// Drains whatever batches the inbound channel holds right now, in arrival
/// order, polling at most `max_batches` times so one tick does work bounded
/// by its own configuration, not by network activity. Returns the batches
/// and whether the channel turned out closed.
pub fn drain_inbound(
    rx: &std::sync::mpsc::Receiver<Vec<SemanticInputEvent>>,
    max_batches: usize,
) -> (r: (Vec<Vec<SemanticInputEvent>>, bool))
    ensures
        r.0@.len() <= max_batches,
{
    let mut batches: Vec<Vec<SemanticInputEvent>> = Vec::new();
    let mut closed = false;
    let mut i: usize = 0;
    while i < max_batches
        invariant
            batches@.len() <= i <= max_batches,
        decreases max_batches - i,
    {
        match poll_inbound(rx) {
            InboundPoll::Batch(batch) => {
                batches.push(batch);
            },
            InboundPoll::Empty => {
                return (batches, closed);
            },
            InboundPoll::Closed => {
                closed = true;
                return (batches, closed);
            },
        }
        i = i + 1;
    }
    (batches, closed)
}

} // verus!
