use tracing_cloudwatch::dispatch::{CloudWatchDispatcher, DispatchOutcome, Dispatcher, NoopDispatcher};
use tracing_cloudwatch::event::{LogEvent, Timestamp};

fn event(message: &str) -> LogEvent {
    LogEvent::new(message.to_string(), Timestamp::from_millis(7))
}

#[test]
fn noop_dispatcher_accepts_everything() {
    let dispatcher = NoopDispatcher::new();
    dispatcher.dispatch(event("dropped"));
    assert_eq!(dispatcher.write(b"hello"), 5);
    assert_eq!(dispatcher.write(b""), 0);
}

#[test]
fn queued_events_arrive_in_order() {
    let (tx, mut rx) = tokio::sync::mpsc::unbounded_channel();
    let dispatcher = CloudWatchDispatcher::from_sender(tx);
    assert_eq!(dispatcher.try_dispatch(event("one")), DispatchOutcome::Queued);
    dispatcher.dispatch(event("two"));
    assert_eq!(rx.try_recv().unwrap().message, "one");
    let second = rx.try_recv().unwrap();
    assert_eq!(second.message, "two");
    assert_eq!(second.timestamp.millis, 7);
    assert!(rx.try_recv().is_err());
}

#[test]
fn only_first_loss_is_flagged() {
    let (tx, rx) = tokio::sync::mpsc::unbounded_channel();
    let dispatcher = CloudWatchDispatcher::from_sender(tx);
    drop(rx);
    assert_eq!(dispatcher.try_dispatch(event("a")), DispatchOutcome::Dropped { first: true });
    assert_eq!(dispatcher.try_dispatch(event("b")), DispatchOutcome::Dropped { first: false });
    dispatcher.dispatch(event("c"));
    assert_eq!(dispatcher.write(b"lost"), 4);
}

#[test]
fn written_bytes_become_one_event() {
    let (tx, mut rx) = tokio::sync::mpsc::unbounded_channel();
    let dispatcher = CloudWatchDispatcher::from_sender(tx);
    assert_eq!(dispatcher.write(b"line one\n"), 9);
    let received = rx.try_recv().unwrap();
    assert_eq!(received.message, "line one\n");
    assert!(received.timestamp.millis > 0);
}

#[test]
fn invalid_utf8_is_repaired() {
    let repaired = LogEvent::from_bytes(&[b'o', b'k', 0xff, b'!'], Timestamp::from_millis(3));
    assert_eq!(repaired.message, "ok\u{fffd}!");
    assert_eq!(repaired.timestamp.millis, 3);
    let plain = LogEvent::from_bytes(b"plain", Timestamp::from_millis(0));
    assert_eq!(plain.message, "plain");
    assert_eq!(LogEvent::from_bytes(b"", Timestamp::from_millis(0)).message, "");
}

#[test]
fn outcome_of_attempt() {
    assert_eq!(DispatchOutcome::of_attempt(true, true), DispatchOutcome::Queued);
    assert_eq!(DispatchOutcome::of_attempt(false, false), DispatchOutcome::Dropped { first: true });
    assert_eq!(DispatchOutcome::of_attempt(false, true), DispatchOutcome::Dropped { first: false });
}

#[test]
fn write_reports_first_loss() {
    let (tx, rx) = tokio::sync::mpsc::unbounded_channel();
    let dispatcher = CloudWatchDispatcher::from_sender(tx);
    assert_eq!(dispatcher.write_reporting(b"kept"), (4, DispatchOutcome::Queued));
    drop(rx);
    assert_eq!(dispatcher.write_reporting(b"lost"), (4, DispatchOutcome::Dropped { first: true }));
    assert_eq!(dispatcher.write_reporting(b"again"), (5, DispatchOutcome::Dropped { first: false }));
}
