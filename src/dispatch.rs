use vstd::prelude::*;

use crate::event::{LogEvent, Timestamp};
use std::sync::atomic::{AtomicBool, Ordering};
use tokio::sync::mpsc::UnboundedSender;

verus! {

#[verifier::external_type_specification]
#[verifier::external_body]
#[verifier::reject_recursive_types(T)]
pub struct ExUnboundedSender<T>(UnboundedSender<T>);

/// Relies on tokio's `UnboundedSender::send`: it never blocks, and when the
/// receiving end is gone it fails and hands the message back in its error.
#[verifier::external_body]
fn enqueue(tx: &UnboundedSender<LogEvent>, event: LogEvent) -> (r: Result<(), LogEvent>)
    ensures
        r matches Err(back) ==> back == event,
{
    tx.send(event).map_err(|err| err.0)
}

/// Relies on chrono's `From<SystemTime> for DateTime<Utc>` and
/// `DateTime::timestamp_millis`: the system clock, in milliseconds since the
/// epoch. The conversion accepts clocks set before 1970, where `Utc::now`
/// would panic. Nothing is promised of the value.
#[verifier::external_body]
fn now_utc() -> (r: Timestamp) {
    let now = chrono::DateTime::<chrono::Utc>::from(std::time::SystemTime::now());
    Timestamp { millis: now.timestamp_millis() }
}

/// Synchronous entry point for log events. Dispatching never blocks and never
/// fails from the caller's point of view.
pub trait Dispatcher {
    fn dispatch(&self, input: LogEvent);
}

/// A dispatcher that drops every event; used when export is disabled.
pub struct NoopDispatcher {}

impl NoopDispatcher {
    pub fn new() -> (r: NoopDispatcher) {
        NoopDispatcher {  }
    }

    /// Accepts the bytes as a written log line and drops them.
    pub fn write(&self, buf: &[u8]) -> (r: usize)
        ensures
            r == buf@.len(),
    {
        buf.len()
    }
}

impl Dispatcher for NoopDispatcher {
    fn dispatch(&self, input: LogEvent) {
    }
}

/// What became of one dispatched event.
#[derive(Clone, Copy, Debug, PartialEq, Eq, Structural)]
pub enum DispatchOutcome {
    /// The event is on the exporter's queue.
    Queued,
    /// The exporter has stopped and the event is lost; `first` is set for the
    /// first such loss of this dispatcher, the one worth a diagnostic.
    Dropped { first: bool },
}

impl DispatchOutcome {
    /// The outcome of an enqueue attempt, given whether a loss had already
    /// been noted before it.
    pub fn of_attempt(queued: bool, noted_before: bool) -> (r: DispatchOutcome)
        ensures
            queued ==> r == DispatchOutcome::Queued,
            !queued ==> r == (DispatchOutcome::Dropped { first: !noted_before }),
    {
        if queued {
            DispatchOutcome::Queued
        } else {
            DispatchOutcome::Dropped { first: !noted_before }
        }
    }
}

/// A dispatcher that puts events on the unbounded queue that a background
/// exporter drains.
pub struct CloudWatchDispatcher {
    tx: UnboundedSender<LogEvent>,
    loss_noted: AtomicBool,
}

impl CloudWatchDispatcher {
    /// A dispatcher over the sending end of the exporter's queue.
    pub fn from_sender(tx: UnboundedSender<LogEvent>) -> (r: CloudWatchDispatcher) {
        CloudWatchDispatcher { tx, loss_noted: AtomicBool::new(false) }
    }

    /// Enqueues the event without blocking. Once the exporter is gone the event
    /// is dropped, and only the first loss is flagged for a diagnostic.
    pub fn try_dispatch(&self, event: LogEvent) -> (r: DispatchOutcome) {
        match enqueue(&self.tx, event) {
            Ok(()) => DispatchOutcome::of_attempt(true, false),
            Err(_) => {
                let noted_before = self.loss_noted.swap(true, Ordering::Relaxed);
                DispatchOutcome::of_attempt(false, noted_before)
            },
        }
    }

    /// Dispatches the bytes as one log line stamped with the current time.
    /// The whole buffer counts as written; the outcome of the enqueue comes
    /// back beside that count, for a caller that reports the first loss.
    pub fn write_reporting(&self, buf: &[u8]) -> (r: (usize, DispatchOutcome))
        ensures
            r.0 == buf@.len(),
    {
        let event = LogEvent::from_bytes(buf, now_utc());
        let outcome = self.try_dispatch(event);
        (buf.len(), outcome)
    }

    /// Dispatches the bytes as one log line stamped with the current time;
    /// the whole buffer counts as written.
    pub fn write(&self, buf: &[u8]) -> (r: usize)
        ensures
            r == buf@.len(),
    {
        self.write_reporting(buf).0
    }
}

impl Dispatcher for CloudWatchDispatcher {
    fn dispatch(&self, input: LogEvent) {
        self.try_dispatch(input);
    }
}

} // verus!
