//! Per-client event history, frequency estimate and classification.
use vstd::prelude::*;
use lru_cache::LruCache;
use std::time::SystemTime;
use crate::clock::since_epoch;
use crate::lemmas::lemma_record_appends;
use crate::registry::{
    has_key, lemma_push_entry, lemma_without, log_of, lru_capacity, lru_entries, lru_insert,
    lru_len, lru_new, lru_remove, registry_wf, step,
};

verus! {

/// An event rate held exactly: `events` events over `secs` seconds.
#[derive(Clone, Copy, Debug, PartialEq, Eq, Structural)]
pub struct Frequency {
    pub events: u64,
    pub secs: u64,
}

impl Frequency {
    /// A rate is meaningful when its time span is not empty.
    pub open spec fn wf(self) -> bool {
        self.secs > 0
    }

    /// `self >= other` as rationals, compared by cross-multiplication.
    pub open spec fn at_least(self, other: Frequency) -> bool {
        self.events * other.secs >= other.events * self.secs
    }

    /// Whether this rate is at least `other`.
    pub fn is_at_least(&self, other: &Frequency) -> (r: bool)
        ensures
            r == self.at_least(*other),
    {
        let a: u64 = self.events;
        let b: u64 = other.secs;
        let c: u64 = other.events;
        let d: u64 = self.secs;
        proof {
            assert(a * b <= u64::MAX * u64::MAX) by (nonlinear_arith)
                requires a <= u64::MAX, b <= u64::MAX;
            assert(c * d <= u64::MAX * u64::MAX) by (nonlinear_arith)
                requires c <= u64::MAX, d <= u64::MAX;
        }
        (a as u128) * (b as u128) >= (c as u128) * (d as u128)
    }
}

/// Track this many clients.
pub const NUM_CLIENTS_TRACK: usize = 10000;

/// Track this many events per client.
pub const NUM_CLIENT_EVENTS: usize = 10;

/// Shortest time span, in seconds, over which a rate is measured.
pub const MIN_WINDOW_SECS: u64 = 10;

/// Confidence, in hundredths, given to a suspicious client.
pub const SUSP_PLACEHOLDER: u8 = 50;

/// Nanoseconds in one second.
pub const NANOS_PER_SEC: u32 = 1_000_000_000;

/// The rate a log holds before it has seen two events.
pub open spec fn zero_freq() -> Frequency {
    Frequency { events: 0, secs: 1 }
}

/// How a client is judged.
#[derive(Clone, Copy, Debug, PartialEq, Eq, Structural)]
pub enum ActorStatus {
    GoodActor,
    /// Suspicious, with a confidence in hundredths.
    SuspiciousActor(u8),
    BadActor,
}

/// One observed request: the wall-clock time at which it arrived, as
/// seconds and nanoseconds since the Unix epoch.
#[derive(Clone, Copy, Debug, PartialEq, Eq, Structural)]
pub struct Event {
    pub secs: u64,
    pub nanos: u32,
}

impl Event {
    /// The nanosecond part is below one second.
    pub open spec fn wf(self) -> bool {
        self.nanos < NANOS_PER_SEC
    }

    /// The time stamp in nanoseconds since the epoch.
    pub open spec fn ts(self) -> int {
        self.secs * NANOS_PER_SEC + self.nanos
    }

    /// An event now, by the system clock; a clock set before the epoch reads
    /// as the epoch.
    pub fn new() -> (r: Event)
        ensures
            r.wf(),
    {
        match since_epoch(&SystemTime::now()) {
            Ok(d) => Event { secs: d.as_secs(), nanos: d.subsec_nanos() },
            Err(_) => Event { secs: 0, nanos: 0 },
        }
    }

    /// An event at the given time since the epoch.
    pub fn at(secs: u64, nanos: u32) -> (r: Event)
        requires
            nanos < NANOS_PER_SEC,
        ensures
            r == (Event { secs, nanos }),
            r.wf(),
    {
        Event { secs, nanos }
    }
}

/// Whole seconds from `a` to `b`, rounded down; `b` is not earlier than `a`.
pub open spec fn elapsed_secs(a: Event, b: Event) -> int {
    (b.ts() - a.ts()) / (NANOS_PER_SEC as int)
}

/// The rate over a window of events, oldest first.
pub open spec fn window_freq(evs: Seq<Event>) -> Frequency {
    let span = elapsed_secs(evs[0], evs.last());
    Frequency {
        events: evs.len() as u64,
        secs: if span < MIN_WINDOW_SECS { MIN_WINDOW_SECS } else { span as u64 },
    }
}

/// The events kept after `evt` arrives: when the log is full the oldest
/// goes first.
pub open spec fn push_window(evs: Seq<Event>, evt: Event) -> Seq<Event> {
    if evs.len() >= NUM_CLIENT_EVENTS {
        evs.drop_first().push(evt)
    } else {
        evs.push(evt)
    }
}

/// The rate after the window has become `evs`: recomputed from two events
/// on, kept as it was for a single event or when the clock went backwards.
pub open spec fn next_freq(prev: Frequency, evs: Seq<Event>) -> Frequency {
    if evs.len() < 2 || evs.last().ts() < evs[0].ts() {
        prev
    } else {
        window_freq(evs)
    }
}

/// What a client's log holds: its events, oldest first, and its rate.
pub struct LogView {
    pub events: Seq<Event>,
    pub freq: Frequency,
}

impl LogView {
    /// The log of a client not seen before.
    pub open spec fn empty() -> LogView {
        LogView { events: Seq::empty(), freq: zero_freq() }
    }

    pub open spec fn wf(self) -> bool {
        &&& self.events.len() <= NUM_CLIENT_EVENTS
        &&& forall|i: int| 0 <= i < self.events.len() ==> #[trigger] self.events[i].wf()
        &&& self.freq.wf()
    }

    /// The log after one more event.
    pub open spec fn record(self, evt: Event) -> LogView {
        let evs = push_window(self.events, evt);
        LogView { events: evs, freq: next_freq(self.freq, evs) }
    }
}

/// The judgement on a rate: bad from the bad threshold on, suspicious from
/// the suspicious one on, good below both.
pub open spec fn classify(f: Frequency, conf: DetectorConf) -> ActorStatus {
    if f.at_least(conf.bad_evt_freq) {
        ActorStatus::BadActor
    } else if f.at_least(conf.susp_evt_freq) {
        ActorStatus::SuspiciousActor(SUSP_PLACEHOLDER)
    } else {
        ActorStatus::GoodActor
    }
}

/// The recent events of one client and the rate they show.
pub struct IPData {
    pub events: Vec<Event>,
    pub evt_freq: Frequency,
}

impl View for IPData {
    type V = LogView;

    open spec fn view(&self) -> LogView {
        LogView { events: self.events@, freq: self.evt_freq }
    }
}

impl IPData {
    pub open spec fn wf(&self) -> bool {
        self@.wf()
    }

    /// An empty log.
    pub fn new() -> (r: IPData)
        ensures
            r@ == LogView::empty(),
    {
        IPData { events: Vec::new(), evt_freq: Frequency { events: 0, secs: 1 } }
    }

    /// The number of events held.
    pub fn num_events(&self) -> (r: usize)
        ensures
            r == self@.events.len(),
    {
        self.events.len()
    }

    /// Register an event for this client and recompute its rate.
    pub fn new_event(&mut self, evt: Event)
        requires
            old(self).wf(),
            evt.wf(),
        ensures
            final(self).wf(),
            final(self)@ == old(self)@.record(evt),
    {
        if self.events.len() >= NUM_CLIENT_EVENTS {
            self.events.remove(0);
        }
        self.events.push(evt);
        proof {
            lemma_record_appends(old(self)@, evt);
        }
        let n: usize = self.events.len();
        if n <= 1 {
            return;
        }
        let first = self.events[0];
        let last = self.events[n - 1];
        proof {
            assert(first.secs * 1_000_000_000int <= u64::MAX * 1_000_000_000int) by (nonlinear_arith)
                requires first.secs <= u64::MAX;
            assert(last.secs * 1_000_000_000int <= u64::MAX * 1_000_000_000int) by (nonlinear_arith)
                requires last.secs <= u64::MAX;
        }
        let ta: u128 = first.secs as u128 * NANOS_PER_SEC as u128 + first.nanos as u128;
        let tb: u128 = last.secs as u128 * NANOS_PER_SEC as u128 + last.nanos as u128;
        if tb < ta {
            return;
        }
        let diff: u128 = (tb - ta) / NANOS_PER_SEC as u128;
        proof {
            let t = (tb - ta) as int;
            assert(t < (u64::MAX + 1) * NANOS_PER_SEC) by (nonlinear_arith)
                requires t <= tb, tb == last.secs * 1_000_000_000int + last.nanos,
                    last.secs <= u64::MAX, last.nanos < 1_000_000_000int;
            assert(t / (NANOS_PER_SEC as int) <= u64::MAX) by (nonlinear_arith)
                requires t < (u64::MAX + 1) * 1_000_000_000int, t >= 0;
        }
        let secs: u64 = if diff < MIN_WINDOW_SECS as u128 { MIN_WINDOW_SECS } else { diff as u64 };
        self.evt_freq = Frequency { events: n as u64, secs };
    }
}

/// Thresholds, in events per second, from which a client is judged bad or
/// suspicious.
#[derive(Clone, Copy, Debug, PartialEq, Eq, Structural)]
pub struct DetectorConf {
    pub bad_evt_freq: Frequency,
    pub susp_evt_freq: Frequency,
}

impl DetectorConf {
    /// Both thresholds are rates, and the bad one is not below the
    /// suspicious one.
    pub open spec fn wf(self) -> bool {
        &&& self.bad_evt_freq.wf()
        &&& self.susp_evt_freq.wf()
        &&& self.bad_evt_freq.at_least(self.susp_evt_freq)
    }

    /// Bad from 30 requests a minute on, suspicious from 20 on.
    pub fn new() -> (r: DetectorConf)
        ensures
            r.bad_evt_freq == (Frequency { events: 30, secs: 60 }),
            r.susp_evt_freq == (Frequency { events: 20, secs: 60 }),
            r.wf(),
    {
        DetectorConf {
            bad_evt_freq: Frequency { events: 30, secs: 60 },
            susp_evt_freq: Frequency { events: 20, secs: 60 },
        }
    }

    /// Judge a client by the rate in its log.
    pub fn analyze_actor(&self, d: &IPData) -> (r: ActorStatus)
        ensures
            r == classify(d.evt_freq, *self),
    {
        if d.evt_freq.is_at_least(&self.bad_evt_freq) {
            ActorStatus::BadActor
        } else if d.evt_freq.is_at_least(&self.susp_evt_freq) {
            ActorStatus::SuspiciousActor(SUSP_PLACEHOLDER)
        } else {
            ActorStatus::GoodActor
        }
    }
}

/// The detection engine: the registry of tracked clients and the thresholds
/// they are judged by.
pub struct Detector {
    pub ip_map: LruCache<u128, IPData>,
    pub conf: DetectorConf,
}

impl Detector {
    /// The tracked clients, least recently used first.
    pub open spec fn clients(&self) -> Seq<(u128, LogView)> {
        lru_entries(self.ip_map)
    }

    /// How many clients the registry holds at most.
    pub open spec fn capacity(&self) -> nat {
        lru_capacity(self.ip_map)
    }

    pub open spec fn wf(&self) -> bool {
        &&& registry_wf(self.clients(), self.capacity())
        &&& self.capacity() == NUM_CLIENTS_TRACK
    }

    /// A detector that tracks no client yet.
    pub fn new(conf: DetectorConf) -> (r: Detector)
        ensures
            r.wf(),
            r.clients() == Seq::<(u128, LogView)>::empty(),
            r.conf == conf,
    {
        Detector { ip_map: lru_new(NUM_CLIENTS_TRACK), conf }
    }

    /// The number of clients tracked.
    pub fn num_clients(&self) -> (r: usize)
        ensures
            r == self.clients().len(),
    {
        lru_len(&self.ip_map)
    }

    /// Record that client `ip` sent a request at `evt`, and judge it by its
    /// updated rate.
    pub fn record_event(&mut self, ip: u128, evt: Event) -> (r: ActorStatus)
        requires
            old(self).wf(),
            evt.wf(),
        ensures
            final(self).wf(),
            final(self).conf == old(self).conf,
            final(self).clients() == step(old(self).clients(), old(self).capacity(), ip, evt),
            r == classify(log_of(old(self).clients(), ip).record(evt).freq, old(self).conf),
    {
        let ghost s = self.clients();
        let ghost cap = self.capacity();
        proof {
            lemma_without(s, cap, ip);
            if has_key(s, ip) {
                let idx = crate::registry::index_of(s, ip);
                assert(s[idx].1.wf());
            }
        }
        let mut d = match lru_remove(&mut self.ip_map, ip) {
            Some(d) => d,
            None => IPData::new(),
        };
        assert(d@ == log_of(s, ip));
        d.new_event(evt);
        let status = self.conf.analyze_actor(&d);
        proof {
            lemma_push_entry(self.clients(), cap, ip, d@);
        }
        lru_insert(&mut self.ip_map, ip, d);
        status
    }

    /// Register a request of client `ip` now, by the system clock, and
    /// return how suspicious the client is.
    pub fn new_event(&mut self, ip: u128) -> (r: ActorStatus)
        requires
            old(self).wf(),
        ensures
            final(self).wf(),
            final(self).conf == old(self).conf,
            exists|evt: Event|
                #![trigger log_of(old(self).clients(), ip).record(evt)]
                {
                    &&& evt.wf()
                    &&& final(self).clients() == step(
                        old(self).clients(),
                        old(self).capacity(),
                        ip,
                        evt,
                    )
                    &&& r == classify(
                        log_of(old(self).clients(), ip).record(evt).freq,
                        old(self).conf,
                    )
                },
    {
        let evt = Event::new();
        let r = self.record_event(ip, evt);
        r
    }
}

} // verus!
