use vstd::prelude::*;

use crate::client::PutLogsError;
use crate::event::{message_bytes, payload_bytes, LogDestination, LogEvent};

verus! {

/// How the exporter groups events into batches, and where it sends them.
pub struct ExportConfig {
    pub destination: LogDestination,
    /// A batch is flushed as soon as it holds this many events.
    pub max_batch_size: usize,
    /// A batch is flushed as soon as its messages hold this many bytes.
    pub max_batch_bytes: usize,
    /// A batch is flushed once this many milliseconds have passed since its
    /// first event arrived.
    pub flush_interval_ms: u64,
}

/// What the exporter learns from its surroundings. Times are milliseconds on
/// a monotonic clock.
pub enum Signal {
    /// An event came off the queue at the given time.
    Event(LogEvent, u64),
    /// The clock reads the given time.
    Tick(u64),
}

/// The size trigger: the events reach the count or the byte threshold.
pub open spec fn size_reached(cfg: ExportConfig, events: Seq<LogEvent>) -> bool {
    events.len() >= cfg.max_batch_size || payload_bytes(events) >= cfg.max_batch_bytes
}

/// The time trigger: the flush interval has passed between `since` and `now`.
pub open spec fn interval_elapsed(cfg: ExportConfig, since: u64, now: u64) -> bool {
    now as int - since as int >= cfg.flush_interval_ms as int
}

/// One transition of the accumulation, from the pending events and the arrival
/// time of the first of them: the batch flushed, if any, and the new state.
pub open spec fn step(cfg: ExportConfig, events: Seq<LogEvent>, since: Option<u64>, signal: Signal) -> (
    Option<Seq<LogEvent>>,
    Seq<LogEvent>,
    Option<u64>,
) {
    match signal {
        Signal::Event(e, now) => {
            let grown = events.push(e);
            if size_reached(cfg, grown) {
                (Some(grown), Seq::empty(), None)
            } else {
                (
                    None,
                    grown,
                    if since is Some {
                        since
                    } else {
                        Some(now)
                    },
                )
            }
        },
        Signal::Tick(now) => {
            if events.len() > 0 && since is Some && interval_elapsed(cfg, since->0, now) {
                (Some(events), Seq::empty(), None)
            } else {
                (None, events, since)
            }
        },
    }
}

/// The batches flushed over a sequence of signals, and the state left after it.
pub open spec fn run(cfg: ExportConfig, events: Seq<LogEvent>, since: Option<u64>, signals: Seq<Signal>) -> (
    Seq<Seq<LogEvent>>,
    Seq<LogEvent>,
    Option<u64>,
)
    decreases signals.len(),
{
    if signals.len() == 0 {
        (Seq::empty(), events, since)
    } else {
        let (flushed, events2, since2) = step(cfg, events, since, signals[0]);
        let (rest, events3, since3) = run(cfg, events2, since2, signals.drop_first());
        (
            match flushed {
                Some(b) => seq![b] + rest,
                None => rest,
            },
            events3,
            since3,
        )
    }
}

/// The events that arrive over a sequence of signals, in order.
pub open spec fn arrivals(signals: Seq<Signal>) -> Seq<LogEvent>
    decreases signals.len(),
{
    if signals.len() == 0 {
        Seq::empty()
    } else {
        let tail = arrivals(signals.drop_first());
        match signals[0] {
            Signal::Event(e, _) => seq![e] + tail,
            Signal::Tick(_) => tail,
        }
    }
}

/// The final flush on closing: the pending events, unless there are none.
pub open spec fn drain(events: Seq<LogEvent>) -> Seq<Seq<LogEvent>> {
    if events.len() > 0 {
        seq![events]
    } else {
        Seq::empty()
    }
}

/// Every batch submitted by a fresh exporter that sees `signals` and then
/// finds its queue closed, in submission order.
pub open spec fn submitted(cfg: ExportConfig, signals: Seq<Signal>) -> Seq<Seq<LogEvent>> {
    let (batches, events, _) = run(cfg, Seq::empty(), None, signals);
    batches + drain(events)
}

proof fn lemma_run_conserves(cfg: ExportConfig, events: Seq<LogEvent>, since: Option<u64>, signals: Seq<Signal>)
    ensures
        run(cfg, events, since, signals).0.flatten() + run(cfg, events, since, signals).1 =~= events
            + arrivals(signals),
    decreases signals.len(),
{
    if signals.len() > 0 {
        let (flushed, events2, since2) = step(cfg, events, since, signals[0]);
        let tail = signals.drop_first();
        lemma_run_conserves(cfg, events2, since2, tail);
        let (rest, events3, _) = run(cfg, events2, since2, tail);
        if let Some(b) = flushed {
            let all = seq![b] + rest;
            assert(all[0] == b);
            assert(all.drop_first() =~= rest);
        }
        match signals[0] {
            Signal::Event(e, _) => {
                assert(arrivals(signals) == seq![e] + arrivals(tail));
            },
            Signal::Tick(_) => {
                assert(arrivals(signals) == arrivals(tail));
            },
        }
    }
}

proof fn lemma_run_nonempty(cfg: ExportConfig, events: Seq<LogEvent>, since: Option<u64>, signals: Seq<Signal>)
    ensures
        forall|i: int|
            0 <= i < run(cfg, events, since, signals).0.len() ==> (#[trigger] run(
                cfg,
                events,
                since,
                signals,
            ).0[i]).len() > 0,
    decreases signals.len(),
{
    if signals.len() > 0 {
        let (flushed, events2, since2) = step(cfg, events, since, signals[0]);
        let tail = signals.drop_first();
        lemma_run_nonempty(cfg, events2, since2, tail);
        let (rest, _, _) = run(cfg, events2, since2, tail);
        if let Some(b) = flushed {
            let all = seq![b] + rest;
            assert forall|i: int| 0 <= i < all.len() implies (#[trigger] all[i]).len() > 0 by {
                if i > 0 {
                    assert(all[i] == rest[i - 1]);
                }
            }
        }
    }
}

proof fn lemma_run_bounded(cfg: ExportConfig, events: Seq<LogEvent>, since: Option<u64>, signals: Seq<Signal>)
    requires
        cfg.max_batch_size >= 1,
        events.len() < cfg.max_batch_size,
    ensures
        forall|i: int|
            0 <= i < run(cfg, events, since, signals).0.len() ==> (#[trigger] run(
                cfg,
                events,
                since,
                signals,
            ).0[i]).len() <= cfg.max_batch_size,
        run(cfg, events, since, signals).1.len() < cfg.max_batch_size,
    decreases signals.len(),
{
    if signals.len() > 0 {
        let (flushed, events2, since2) = step(cfg, events, since, signals[0]);
        let tail = signals.drop_first();
        lemma_run_bounded(cfg, events2, since2, tail);
        let (rest, _, _) = run(cfg, events2, since2, tail);
        if let Some(b) = flushed {
            let all = seq![b] + rest;
            assert forall|i: int| 0 <= i < all.len() implies (#[trigger] all[i]).len()
                <= cfg.max_batch_size by {
                if i > 0 {
                    assert(all[i] == rest[i - 1]);
                }
            }
        }
    }
}

/// Every event that arrives is submitted exactly once, and in arrival order:
/// the submitted batches, joined end to end, are the arriving events.
pub proof fn lemma_submitted_preserves_events(cfg: ExportConfig, signals: Seq<Signal>)
    ensures
        submitted(cfg, signals).flatten() == arrivals(signals),
{
    lemma_run_conserves(cfg, Seq::empty(), None, signals);
    let (batches, events, _) = run(cfg, Seq::empty(), None, signals);
    assert(Seq::<LogEvent>::empty() + arrivals(signals) =~= arrivals(signals));
    if events.len() > 0 {
        assert(batches + drain(events) =~= batches.push(events));
        batches.lemma_flatten_push(events);
    } else {
        assert(batches + drain(events) =~= batches);
        assert(batches.flatten() + events =~= batches.flatten());
    }
}

/// No submitted batch is empty.
pub proof fn lemma_submitted_nonempty(cfg: ExportConfig, signals: Seq<Signal>)
    ensures
        forall|i: int|
            0 <= i < submitted(cfg, signals).len() ==> (#[trigger] submitted(cfg, signals)[i]).len()
                > 0,
{
    lemma_run_nonempty(cfg, Seq::empty(), None, signals);
    let (batches, events, _) = run(cfg, Seq::empty(), None, signals);
    let all = batches + drain(events);
    assert forall|i: int| 0 <= i < all.len() implies (#[trigger] all[i]).len() > 0 by {
        if i >= batches.len() {
            assert(all[i] == events);
        }
    }
}

/// With a size limit of at least one event, no submitted batch holds more
/// events than the limit, the final one included.
pub proof fn lemma_submitted_within_size(cfg: ExportConfig, signals: Seq<Signal>)
    requires
        cfg.max_batch_size >= 1,
    ensures
        forall|i: int|
            0 <= i < submitted(cfg, signals).len() ==> (#[trigger] submitted(cfg, signals)[i]).len()
                <= cfg.max_batch_size,
{
    lemma_run_bounded(cfg, Seq::empty(), None, signals);
    let (batches, events, _) = run(cfg, Seq::empty(), None, signals);
    let all = batches + drain(events);
    assert forall|i: int| 0 <= i < all.len() implies (#[trigger] all[i]).len()
        <= cfg.max_batch_size by {
        if i >= batches.len() {
            assert(all[i] == events);
        }
    }
}

/// The first event to arrive at an empty exporter, unless it fills a batch on
/// its own, starts the flush interval at its arrival time; any tick at least
/// one interval after that time flushes every pending event.
pub proof fn lemma_time_trigger(cfg: ExportConfig, events: Seq<LogEvent>, since: u64, now: u64)
    requires
        events.len() > 0,
        now as int >= since as int + cfg.flush_interval_ms as int,
    ensures
        step(cfg, events, Some(since), Signal::Tick(now)) == (
            Some(events),
            Seq::<LogEvent>::empty(),
            Option::<u64>::None,
        ),
        forall|e: LogEvent|
            !size_reached(cfg, seq![e]) ==> #[trigger] step(
                cfg,
                Seq::empty(),
                None,
                Signal::Event(e, since),
            ).2 == Some(since),
{
    assert forall|e: LogEvent| !size_reached(cfg, seq![e]) implies #[trigger] step(
        cfg,
        Seq::empty(),
        None,
        Signal::Event(e, since),
    ).2 == Some(since) by {
        assert(Seq::<LogEvent>::empty().push(e) =~= seq![e]);
    }
}

pub open spec fn batch_view(b: Option<Vec<LogEvent>>) -> Option<Seq<LogEvent>> {
    match b {
        Some(v) => Some(v@),
        None => None,
    }
}

/// The consuming side of the pipeline: accumulates events and decides when a
/// batch is flushed, and whether a failed delivery deserves a diagnostic.
pub struct BatchExporter {
    config: ExportConfig,
    pending: Vec<LogEvent>,
    pending_bytes: usize,
    since: Option<u64>,
    closed: bool,
    missing_reported: bool,
    failure_reported: bool,
}

impl BatchExporter {
    pub closed spec fn config_spec(&self) -> ExportConfig {
        self.config
    }

    /// Events accumulated and not yet flushed, in arrival order.
    pub closed spec fn pending_events(&self) -> Seq<LogEvent> {
        self.pending@
    }

    /// Arrival time of the first pending event.
    pub closed spec fn pending_since(&self) -> Option<u64> {
        self.since
    }

    /// The queue has closed and the final flush has been made.
    pub closed spec fn is_closed(&self) -> bool {
        self.closed
    }

    /// A missing destination has already been reported.
    pub closed spec fn missing_reported(&self) -> bool {
        self.missing_reported
    }

    /// Another delivery failure has already been reported.
    pub closed spec fn failure_reported(&self) -> bool {
        self.failure_reported
    }

    pub closed spec fn wf(&self) -> bool {
        &&& self.pending_bytes as nat == payload_bytes(self.pending@)
        &&& self.pending_bytes <= self.config.max_batch_bytes
        &&& self.pending@.len() > 0 ==> !size_reached(self.config, self.pending@)
        &&& (self.since is Some <==> self.pending@.len() > 0)
        &&& self.closed ==> self.pending@.len() == 0
    }

    pub fn new(config: ExportConfig) -> (r: BatchExporter)
        ensures
            r.wf(),
            r.config_spec() == config,
            r.pending_events() == Seq::<LogEvent>::empty(),
            r.pending_since() is None,
            !r.is_closed(),
            !r.missing_reported(),
            !r.failure_reported(),
    {
        BatchExporter {
            config,
            pending: Vec::new(),
            pending_bytes: 0,
            since: None,
            closed: false,
            missing_reported: false,
            failure_reported: false,
        }
    }

    pub fn config(&self) -> (r: &ExportConfig)
        ensures
            *r == self.config_spec(),
    {
        &self.config
    }

    pub fn destination(&self) -> (r: &LogDestination)
        ensures
            *r == self.config_spec().destination,
    {
        &self.config.destination
    }

    pub fn is_terminated(&self) -> (r: bool)
        ensures
            r == self.is_closed(),
    {
        self.closed
    }

    pub fn pending_len(&self) -> (r: usize)
        ensures
            r == self.pending_events().len(),
    {
        self.pending.len()
    }

    /// When the time trigger fires for the pending events, if there are any:
    /// the first arrival plus the flush interval, capped at the clock's range.
    pub fn next_deadline(&self) -> (r: Option<u64>)
        ensures
            self.pending_since() is None ==> r is None,
            self.pending_since() is Some ==> r == Some(
                if self.pending_since()->0 + self.config_spec().flush_interval_ms <= u64::MAX {
                    (self.pending_since()->0 + self.config_spec().flush_interval_ms) as u64
                } else {
                    u64::MAX
                },
            ),
    {
        match self.since {
            Some(t) => Some(t.saturating_add(self.config.flush_interval_ms)),
            None => None,
        }
    }

    fn take_pending(&mut self) -> (r: Vec<LogEvent>)
        ensures
            r@ == old(self).pending@,
            final(self).pending@ == Seq::<LogEvent>::empty(),
            final(self).pending_bytes == 0,
            final(self).since is None,
            final(self).config == old(self).config,
            final(self).closed == old(self).closed,
            final(self).missing_reported == old(self).missing_reported,
            final(self).failure_reported == old(self).failure_reported,
    {
        let mut batch: Vec<LogEvent> = Vec::new();
        std::mem::swap(&mut batch, &mut self.pending);
        self.pending_bytes = 0;
        self.since = None;
        batch
    }

    /// Adds an event that arrived at `now`; returns the batch when the size
    /// trigger fires.
    pub fn receive(&mut self, event: LogEvent, now: u64) -> (r: Option<Vec<LogEvent>>)
        requires
            old(self).wf(),
            !old(self).is_closed(),
        ensures
            final(self).wf(),
            final(self).config_spec() == old(self).config_spec(),
            !final(self).is_closed(),
            final(self).missing_reported() == old(self).missing_reported(),
            final(self).failure_reported() == old(self).failure_reported(),
            (batch_view(r), final(self).pending_events(), final(self).pending_since()) == step(
                old(self).config_spec(),
                old(self).pending_events(),
                old(self).pending_since(),
                Signal::Event(event, now),
            ),
    {
        let len = event.payload_len();
        let ghost before = self.pending@;
        self.pending.push(event);
        proof {
            assert(self.pending@.drop_last() =~= before);
        }
        if self.pending.len() >= self.config.max_batch_size || len >= self.config.max_batch_bytes
            - self.pending_bytes {
            Some(self.take_pending())
        } else {
            self.pending_bytes = self.pending_bytes + len;
            if self.since.is_none() {
                self.since = Some(now);
            }
            None
        }
    }

    /// Tells the exporter the time; returns the batch when the time trigger
    /// fires.
    pub fn tick(&mut self, now: u64) -> (r: Option<Vec<LogEvent>>)
        requires
            old(self).wf(),
        ensures
            final(self).wf(),
            final(self).config_spec() == old(self).config_spec(),
            final(self).is_closed() == old(self).is_closed(),
            final(self).missing_reported() == old(self).missing_reported(),
            final(self).failure_reported() == old(self).failure_reported(),
            (batch_view(r), final(self).pending_events(), final(self).pending_since()) == step(
                old(self).config_spec(),
                old(self).pending_events(),
                old(self).pending_since(),
                Signal::Tick(now),
            ),
    {
        match self.since {
            Some(t) => {
                if now >= t && now - t >= self.config.flush_interval_ms {
                    Some(self.take_pending())
                } else {
                    None
                }
            },
            None => None,
        }
    }

    /// Feeds one signal to the exporter.
    pub fn on_signal(&mut self, signal: Signal) -> (r: Option<Vec<LogEvent>>)
        requires
            old(self).wf(),
            !old(self).is_closed(),
        ensures
            final(self).wf(),
            final(self).config_spec() == old(self).config_spec(),
            !final(self).is_closed(),
            final(self).missing_reported() == old(self).missing_reported(),
            final(self).failure_reported() == old(self).failure_reported(),
            (batch_view(r), final(self).pending_events(), final(self).pending_since()) == step(
                old(self).config_spec(),
                old(self).pending_events(),
                old(self).pending_since(),
                signal,
            ),
    {
        match signal {
            Signal::Event(event, now) => self.receive(event, now),
            Signal::Tick(now) => self.tick(now),
        }
    }

    /// The queue has closed: returns the final batch, if anything is pending,
    /// and terminates the exporter.
    pub fn close(&mut self) -> (r: Option<Vec<LogEvent>>)
        requires
            old(self).wf(),
        ensures
            final(self).wf(),
            final(self).is_closed(),
            final(self).config_spec() == old(self).config_spec(),
            final(self).pending_events() == Seq::<LogEvent>::empty(),
            final(self).missing_reported() == old(self).missing_reported(),
            final(self).failure_reported() == old(self).failure_reported(),
            old(self).pending_events().len() > 0 ==> batch_view(r) == Some(
                old(self).pending_events(),
            ),
            old(self).pending_events().len() == 0 ==> r is None,
    {
        let r = if self.pending.len() > 0 {
            Some(self.take_pending())
        } else {
            None
        };
        self.closed = true;
        r
    }

    /// Takes note of how a delivery went. Nothing that happens to a batch stops
    /// the exporter: its pending events and its state stay as they were. The
    /// result says whether to emit a diagnostic, which happens at most once for
    /// a missing destination and once for any other failure.
    pub fn record(&mut self, result: &Result<(), PutLogsError>) -> (report: bool)
        requires
            old(self).wf(),
        ensures
            final(self).wf(),
            final(self).config_spec() == old(self).config_spec(),
            final(self).pending_events() == old(self).pending_events(),
            final(self).pending_since() == old(self).pending_since(),
            final(self).is_closed() == old(self).is_closed(),
            match result {
                Ok(()) => {
                    &&& !report
                    &&& final(self).missing_reported() == old(self).missing_reported()
                    &&& final(self).failure_reported() == old(self).failure_reported()
                },
                Err(PutLogsError::LogDestinationNotFound { .. }) => {
                    &&& report == !old(self).missing_reported()
                    &&& final(self).missing_reported()
                    &&& final(self).failure_reported() == old(self).failure_reported()
                },
                Err(PutLogsError::Other(_)) => {
                    &&& report == !old(self).failure_reported()
                    &&& final(self).failure_reported()
                    &&& final(self).missing_reported() == old(self).missing_reported()
                },
            },
    {
        match result {
            Ok(()) => false,
            Err(e) => {
                if e.is_destination_not_found() {
                    let first = !self.missing_reported;
                    self.missing_reported = true;
                    first
                } else {
                    let first = !self.failure_reported;
                    self.failure_reported = true;
                    first
                }
            },
        }
    }
}

} // verus!
