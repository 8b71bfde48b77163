//! The bounded client registry: an `lru_cache::LruCache` from client
//! identifier to event log, seen through its contents in recency order.
use vstd::prelude::*;
use lru_cache::LruCache;
use std::hash::{BuildHasher, Hash};
use crate::detector::{Event, IPData, LogView};

verus! {

#[verifier::external_type_specification]
#[verifier::external_body]
#[verifier::reject_recursive_types(K)]
#[verifier::reject_recursive_types(V)]
#[verifier::reject_recursive_types(S)]
pub struct ExLruCache<K: Eq + Hash, V, S: BuildHasher>(LruCache<K, V, S>);

/// The entries of a cache, least recently used first.
pub uninterp spec fn lru_entries(c: LruCache<u128, IPData>) -> Seq<(u128, LogView)>;

/// The number of entries a cache was made to hold.
pub uninterp spec fn lru_capacity(c: LruCache<u128, IPData>) -> nat;

/// The client identifiers of a registry, least recently used first.
pub open spec fn keys(s: Seq<(u128, LogView)>) -> Seq<u128> {
    s.map_values(|p: (u128, LogView)| p.0)
}

/// No identifier occurs twice.
pub open spec fn keys_distinct(s: Seq<(u128, LogView)>) -> bool {
    forall|i: int, j: int| 0 <= i < j < s.len() ==> s[i].0 != s[j].0
}

pub open spec fn has_key(s: Seq<(u128, LogView)>, k: u128) -> bool {
    exists|i: int| 0 <= i < s.len() && s[i].0 == k
}

/// Where `k` stands in `s`, if it does.
pub open spec fn index_of(s: Seq<(u128, LogView)>, k: u128) -> int {
    choose|i: int| 0 <= i < s.len() && s[i].0 == k
}

/// `s` with the entry of `k` taken out, if there is one.
pub open spec fn without(s: Seq<(u128, LogView)>, k: u128) -> Seq<(u128, LogView)> {
    if has_key(s, k) {
        s.remove(index_of(s, k))
    } else {
        s
    }
}

/// `s` after an entry for a new key goes in as the most recently used:
/// past the capacity, the least recently used entry is dropped.
pub open spec fn push_entry(s: Seq<(u128, LogView)>, cap: nat, k: u128, v: LogView) -> Seq<
    (u128, LogView),
> {
    let t = s.push((k, v));
    if t.len() > cap {
        t.drop_first()
    } else {
        t
    }
}

/// The log held for `k`, or an empty one for a client not tracked.
pub open spec fn log_of(s: Seq<(u128, LogView)>, k: u128) -> LogView {
    if has_key(s, k) {
        s[index_of(s, k)].1
    } else {
        LogView::empty()
    }
}

/// The registry after one event of client `k`: its log, found or new,
/// records the event and goes back in as the most recently used entry.
pub open spec fn step(s: Seq<(u128, LogView)>, cap: nat, k: u128, evt: Event) -> Seq<
    (u128, LogView),
> {
    push_entry(without(s, k), cap, k, log_of(s, k).record(evt))
}

/// Keys distinct, no more entries than the capacity, every log well formed.
pub open spec fn registry_wf(s: Seq<(u128, LogView)>, cap: nat) -> bool {
    &&& keys_distinct(s)
    &&& s.len() <= cap
    &&& forall|i: int| 0 <= i < s.len() ==> (#[trigger] s[i]).1.wf()
}

/// Taking the entry of `k` out leaves no entry of `k` and keeps the rest
/// well formed.
pub proof fn lemma_without(s: Seq<(u128, LogView)>, cap: nat, k: u128)
    requires
        registry_wf(s, cap),
    ensures
        registry_wf(without(s, k), cap),
        !has_key(without(s, k), k),
        has_key(s, k) ==> without(s, k).len() == s.len() - 1,
        has_key(s, k) ==> s[index_of(s, k)].0 == k,
{
    if has_key(s, k) {
        let idx = index_of(s, k);
        let t = s.remove(idx);
        assert forall|j: int| 0 <= j < t.len() implies #[trigger] t[j] == (if j < idx {
            s[j]
        } else {
            s[j + 1]
        }) by {}
        assert forall|i: int, j: int| 0 <= i < j < t.len() implies t[i].0 != t[j].0 by {
            let a = if i < idx { i } else { i + 1 };
            let b = if j < idx { j } else { j + 1 };
            assert(t[i] == s[a] && t[j] == s[b]);
        }
        assert forall|i: int| 0 <= i < t.len() implies (#[trigger] t[i]).1.wf() by {
            let a = if i < idx { i } else { i + 1 };
            assert(t[i] == s[a]);
        }
        if has_key(t, k) {
            let j = choose|j: int| 0 <= j < t.len() && t[j].0 == k;
            let b = if j < idx { j } else { j + 1 };
            assert(t[j] == s[b]);
        }
    }
}

/// An entry for a key not yet present goes in keeping the registry well
/// formed, for a capacity above zero.
pub proof fn lemma_push_entry(s: Seq<(u128, LogView)>, cap: nat, k: u128, v: LogView)
    requires
        registry_wf(s, cap),
        cap > 0,
        !has_key(s, k),
        v.wf(),
    ensures
        registry_wf(push_entry(s, cap, k, v), cap),
{
    let t = s.push((k, v));
    assert forall|i: int, j: int| 0 <= i < j < t.len() implies t[i].0 != t[j].0 by {
        if j == s.len() {
            assert(t[i] == s[i]);
        }
    }
    assert forall|i: int| 0 <= i < t.len() implies (#[trigger] t[i]).1.wf() by {
        if i < s.len() {
            assert(t[i] == s[i]);
        }
    }
    if t.len() > cap {
        let u = t.drop_first();
        assert forall|i: int, j: int| 0 <= i < j < u.len() implies u[i].0 != u[j].0 by {
            assert(u[i] == t[i + 1] && u[j] == t[j + 1]);
        }
        assert forall|i: int| 0 <= i < u.len() implies (#[trigger] u[i]).1.wf() by {
            assert(u[i] == t[i + 1]);
        }
    }
}

/// Relies on `LruCache::new`: an empty cache that holds up to `capacity`
/// entries.
#[verifier::external_body]
pub(crate) fn lru_new(capacity: usize) -> (r: LruCache<u128, IPData>)
    ensures
        lru_entries(r) == Seq::<(u128, LogView)>::empty(),
        lru_capacity(r) == capacity,
{
    LruCache::new(capacity)
}

/// Relies on `LruCache::len`: the number of entries.
#[verifier::external_body]
pub(crate) fn lru_len(c: &LruCache<u128, IPData>) -> (r: usize)
    ensures
        r == lru_entries(*c).len(),
{
    c.len()
}

/// Relies on `LruCache::remove`: takes out the entry of `k`, if any, and
/// leaves the order of the others.
#[verifier::external_body]
pub(crate) fn lru_remove(c: &mut LruCache<u128, IPData>, k: u128) -> (r: Option<IPData>)
    requires
        keys_distinct(lru_entries(*old(c))),
    ensures
        lru_capacity(*final(c)) == lru_capacity(*old(c)),
        lru_entries(*final(c)) == without(lru_entries(*old(c)), k),
        has_key(lru_entries(*old(c)), k) ==> r is Some && r->0@ == lru_entries(
            *old(c),
        )[index_of(lru_entries(*old(c)), k)].1,
        !has_key(lru_entries(*old(c)), k) ==> r is None,
{
    c.remove(&k)
}

/// Relies on `LruCache::insert` for a key that is not in the cache: the
/// entry goes in as the most recently used, and past the capacity the least
/// recently used entry is dropped.
#[verifier::external_body]
pub(crate) fn lru_insert(c: &mut LruCache<u128, IPData>, k: u128, v: IPData)
    requires
        !has_key(lru_entries(*old(c)), k),
    ensures
        lru_capacity(*final(c)) == lru_capacity(*old(c)),
        lru_entries(*final(c)) == push_entry(lru_entries(*old(c)), lru_capacity(*old(c)), k, v@),
{
    c.insert(k, v);
}

} // verus!
