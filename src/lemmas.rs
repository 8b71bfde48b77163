//! Laws of the detection engine, proved over the models that the
//! operations' contracts use.
use vstd::prelude::*;
use crate::detector::{
    classify, push_window, zero_freq, ActorStatus, DetectorConf, Event, Frequency, LogView,
    NUM_CLIENT_EVENTS, SUSP_PLACEHOLDER,
};
use crate::registry::{
    has_key, index_of, keys, lemma_push_entry, lemma_without, log_of, push_entry, registry_wf,
    step, without,
};

verus! {

/// The log of a client after the events `evts`, in arrival order.
pub open spec fn replay_log(evts: Seq<Event>) -> LogView
    decreases evts.len(),
{
    if evts.len() == 0 {
        LogView::empty()
    } else {
        replay_log(evts.drop_last()).record(evts.last())
    }
}

/// The registry, of capacity `cap`, after client `ids[i]` sent a request
/// at `evts[i]`, for each `i` in turn, from none tracked.
pub open spec fn replay_clients(cap: nat, ids: Seq<u128>, evts: Seq<Event>) -> Seq<
    (u128, LogView),
>
    recommends
        ids.len() == evts.len(),
    decreases ids.len(),
{
    if ids.len() == 0 {
        Seq::empty()
    } else {
        step(
            replay_clients(cap, ids.drop_last(), evts.drop_last()),
            cap,
            ids.last(),
            evts.last(),
        )
    }
}

/// One more event is appended as the newest; the log grows by one until it
/// is full, and from then on keeps its length by losing its oldest event.
pub proof fn lemma_record_appends(log: LogView, evt: Event)
    requires
        log.wf(),
        evt.wf(),
    ensures
        log.record(evt).wf(),
        log.record(evt).events.last() == evt,
        log.events.len() < NUM_CLIENT_EVENTS ==> log.record(evt).events == log.events.push(evt),
        log.events.len() == NUM_CLIENT_EVENTS ==> log.record(evt).events == log.events.subrange(
            1,
            NUM_CLIENT_EVENTS as int,
        ).push(evt),
{
    let evs = push_window(log.events, evt);
    assert forall|i: int| 0 <= i < evs.len() implies #[trigger] evs[i].wf() by {
        if i < evs.len() - 1 {
            let k: int = if log.events.len() >= NUM_CLIENT_EVENTS { i + 1 } else { i };
            assert(evs[i] == log.events[k]);
        }
    }
}

/// Whatever events arrive, a log holds at most `NUM_CLIENT_EVENTS` of them:
/// exactly the newest ones, in arrival order, so the oldest leaves first.
pub proof fn lemma_log_keeps_newest(evts: Seq<Event>)
    requires
        forall|i: int| 0 <= i < evts.len() ==> (#[trigger] evts[i]).wf(),
    ensures
        replay_log(evts).wf(),
        replay_log(evts).events.len() <= NUM_CLIENT_EVENTS,
        replay_log(evts).events == evts.subrange(
            if evts.len() > NUM_CLIENT_EVENTS { evts.len() - NUM_CLIENT_EVENTS } else { 0 },
            evts.len() as int,
        ),
    decreases evts.len(),
{
    if evts.len() > 0 {
        let init = evts.drop_last();
        assert forall|i: int| 0 <= i < init.len() implies (#[trigger] init[i]).wf() by {
            assert(init[i] == evts[i]);
        }
        lemma_log_keeps_newest(init);
        lemma_record_appends(replay_log(init), evts.last());
        let n = evts.len() as int;
        let m = NUM_CLIENT_EVENTS as int;
        if n - 1 < m {
            assert(replay_log(evts).events =~= evts.subrange(0, n));
        } else {
            assert(replay_log(evts).events =~= evts.subrange(n - m, n));
        }
    }
}

/// A rate needs two events: a log's first event leaves the rate at zero,
/// and whenever the log holds fewer than two events the rate is unchanged.
pub proof fn lemma_rate_needs_two_events(log: LogView, evt: Event)
    ensures
        LogView::empty().record(evt).freq == zero_freq(),
        log.record(evt).events.len() < 2 ==> log.record(evt).freq == log.freq,
{
}

/// Thresholds are inclusive: a rate equal to the bad threshold is bad, and
/// one equal to the suspicious threshold, below the bad one, is suspicious.
pub proof fn lemma_threshold_inclusive(f: Frequency, conf: DetectorConf)
    ensures
        f.events * conf.bad_evt_freq.secs == conf.bad_evt_freq.events * f.secs ==> classify(
            f,
            conf,
        ) == ActorStatus::BadActor,
        f.events * conf.susp_evt_freq.secs == conf.susp_evt_freq.events * f.secs
            && !f.at_least(conf.bad_evt_freq) ==> classify(f, conf)
            == ActorStatus::SuspiciousActor(SUSP_PLACEHOLDER),
{
}

/// A new client's entry goes in last; once the registry is over capacity
/// its least recently used entry leaves.
proof fn lemma_keys_push_entry(s: Seq<(u128, LogView)>, cap: nat, k: u128, v: LogView)
    ensures
        keys(push_entry(s, cap, k, v)) == if s.len() + 1 > cap {
            keys(s).push(k).drop_first()
        } else {
            keys(s).push(k)
        },
{
    assert(keys(s.push((k, v))) =~= keys(s).push(k));
    if s.len() + 1 > cap {
        assert(keys(s.push((k, v)).drop_first()) =~= keys(s.push((k, v))).drop_first());
    }
}

/// When distinct clients arrive one after another, none of them seen
/// again, the registry tracks the last `cap` of them, least recently
/// arrived first.
pub proof fn lemma_tracks_latest_clients(cap: nat, ids: Seq<u128>, evts: Seq<Event>)
    requires
        cap > 0,
        ids.len() == evts.len(),
        forall|i: int, j: int| 0 <= i < j < ids.len() ==> ids[i] != ids[j],
        forall|i: int| 0 <= i < evts.len() ==> (#[trigger] evts[i]).wf(),
    ensures
        registry_wf(replay_clients(cap, ids, evts), cap),
        keys(replay_clients(cap, ids, evts)) == ids.subrange(
            if ids.len() > cap { ids.len() - cap } else { 0 },
            ids.len() as int,
        ),
    decreases ids.len(),
{
    if ids.len() > 0 {
        let ids0 = ids.drop_last();
        let evts0 = evts.drop_last();
        assert forall|i: int| 0 <= i < evts0.len() implies (#[trigger] evts0[i]).wf() by {
            assert(evts0[i] == evts[i]);
        }
        lemma_tracks_latest_clients(cap, ids0, evts0);
        let s = replay_clients(cap, ids0, evts0);
        let k = ids.last();
        let n = ids.len() as int;
        let lo0: int = if n - 1 > cap { n - 1 - cap } else { 0 };
        assert(keys(s) == ids.subrange(lo0, n - 1));
        assert(s.len() == keys(s).len());
        if has_key(s, k) {
            let i = choose|i: int| 0 <= i < s.len() && s[i].0 == k;
            assert(keys(s)[i] == ids[lo0 + i]);
        }
        assert(without(s, k) == s);
        assert(log_of(s, k) == LogView::empty());
        lemma_record_appends(LogView::empty(), evts.last());
        lemma_push_entry(s, cap, k, LogView::empty().record(evts.last()));
        lemma_keys_push_entry(s, cap, k, LogView::empty().record(evts.last()));
        let lo: int = if n > cap { n - cap } else { 0 };
        assert(keys(replay_clients(cap, ids, evts)) =~= ids.subrange(lo, n));
    }
}

/// Past capacity, with each client arriving once, the registry stays full
/// and the first client to arrive is the one dropped.
pub proof fn lemma_evicts_least_recent(cap: nat, ids: Seq<u128>, evts: Seq<Event>)
    requires
        cap > 0,
        ids.len() == cap + 1,
        evts.len() == cap + 1,
        forall|i: int, j: int| 0 <= i < j < ids.len() ==> ids[i] != ids[j],
        forall|i: int| 0 <= i < evts.len() ==> (#[trigger] evts[i]).wf(),
    ensures
        replay_clients(cap, ids, evts).len() == cap,
        !has_key(replay_clients(cap, ids, evts), ids[0]),
        forall|i: int| 1 <= i <= cap ==> has_key(replay_clients(cap, ids, evts), #[trigger] ids[i]),
{
    lemma_tracks_latest_clients(cap, ids, evts);
    let s = replay_clients(cap, ids, evts);
    assert(keys(s).len() == s.len());
    if has_key(s, ids[0]) {
        let i = choose|i: int| 0 <= i < s.len() && s[i].0 == ids[0];
        assert(keys(s)[i] == ids[1 + i]);
    }
    assert forall|i: int| 1 <= i <= cap implies has_key(s, #[trigger] ids[i]) by {
        assert(keys(s)[i - 1] == ids[i]);
        assert(s[i - 1].0 == ids[i]);
    }
}

/// A client seen again moves to the most recently used end, the other
/// clients keep their order, nobody is dropped, and its log gains exactly
/// this one event.
pub proof fn lemma_requery(s: Seq<(u128, LogView)>, cap: nat, ip: u128, evt: Event)
    requires
        registry_wf(s, cap),
        has_key(s, ip),
        evt.wf(),
    ensures
        registry_wf(step(s, cap, ip, evt), cap),
        step(s, cap, ip, evt).len() == s.len(),
        keys(step(s, cap, ip, evt)) == keys(without(s, ip)).push(ip),
        log_of(step(s, cap, ip, evt), ip) == log_of(s, ip).record(evt),
{
    lemma_without(s, cap, ip);
    let w = without(s, ip);
    let v = log_of(s, ip).record(evt);
    assert(s[index_of(s, ip)].1.wf());
    lemma_record_appends(log_of(s, ip), evt);
    assert(cap > 0);
    lemma_push_entry(w, cap, ip, v);
    lemma_keys_push_entry(w, cap, ip, v);
    let t = step(s, cap, ip, evt);
    assert(t == w.push((ip, v)));
    assert(t[t.len() - 1].0 == ip);
    let j = index_of(t, ip);
    assert(j == t.len() - 1);
}

} // verus!
