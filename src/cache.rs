//! Thread-safe cache that computes the value of each key at most once.
//!
//! A failed computation is never retried by the cache: every caller that
//! waited for it is told that it failed, and its pending marker is released,
//! so that a later call for the key computes afresh.
//!
//! The map from keys to slots sits behind one read/write lock that is held
//! only for single map operations. The value itself is computed with no lock
//! held, so callers for other keys are never held up by it. Callers that find
//! a key pending wait on that key's own completion signal.

use crate::signal::{new_signal, share_signal, wait_signal};
use crossbeam_channel::Receiver;
use std::collections::HashMap;
use std::hash::Hash;
use vstd::prelude::*;
use vstd::rwlock::RwLock;
use vstd::std_specs::hash::obeys_key_model;

verus! {

broadcast use vstd::std_specs::hash::group_hash_axioms;

/// State of one key of the cache.
pub enum Slot<V> {
    /// The caller that made claim number `.0` is computing the value; every
    /// receiver of the channel is woken once that caller is done, or has
    /// failed.
    Pending(u64, Receiver<()>),
    /// The published value, never changed again.
    Ready(V),
}

/// What a caller finds for its key.
pub enum Lookup<V> {
    /// A copy of the published value.
    Hit(V),
    /// Another caller is computing the value under the given claim number:
    /// wait on this signal.
    Wait(u64, Receiver<()>),
    /// The key had no slot.
    Absent,
}

/// A slot agrees with `rel` when it is pending, or holds a value related to
/// its key.
pub open spec fn slot_ok<K, V>(rel: spec_fn(K, V) -> bool, k: K, s: Slot<V>) -> bool {
    match s {
        Slot::Ready(v) => rel(k, v),
        Slot::Pending(..) => true,
    }
}

/// Every published value of the map is related to its key.
pub open spec fn table_ok<K, V>(rel: spec_fn(K, V) -> bool, m: Map<K, Slot<V>>) -> bool {
    forall|k: K| #[trigger] m.contains_key(k) ==> slot_ok(rel, k, m[k])
}

/// The relation does not tell a key or a value from its clones.
pub open spec fn clone_stable<K: Clone, V: Clone>(rel: spec_fn(K, V) -> bool) -> bool {
    &&& forall|k: K, k2: K, v: V|
        #![trigger rel(k, v), cloned(k, k2)]
        #![trigger rel(k2, v), cloned(k, k2)]
        cloned(k, k2) ==> (rel(k, v) <==> rel(k2, v))
    &&& forall|k: K, v: V, v2: V|
        #![trigger rel(k, v), cloned(v, v2)]
        rel(k, v) && cloned(v, v2) ==> rel(k, v2)
}

/// `r` is what a lookup of `k` in `m` reports.
pub open spec fn found_as<K, V: Clone>(m: Map<K, Slot<V>>, k: K, r: Lookup<V>) -> bool {
    match r {
        Lookup::Hit(v) => m.contains_key(k) && m[k] is Ready && cloned(m[k]->Ready_0, v),
        Lookup::Wait(n, _) => m.contains_key(k) && m[k] is Pending && m[k]->Pending_0 == n,
        Lookup::Absent => !m.contains_key(k),
    }
}

/// The map after a caller claims `k`: a pending slot is installed only where
/// the key had none.
pub open spec fn after_claim<K, V>(
    m: Map<K, Slot<V>>,
    k: K,
    claim_no: u64,
    signal: Receiver<()>,
) -> Map<K, Slot<V>> {
    if m.contains_key(k) {
        m
    } else {
        m.insert(k, Slot::Pending(claim_no, signal))
    }
}

/// The map after a waiter for claim `claim_no` of `k` found no value: the
/// marker of that claim is removed, and nothing else.
pub open spec fn after_release<K, V>(m: Map<K, Slot<V>>, k: K, claim_no: u64) -> Map<K, Slot<V>> {
    if m.contains_key(k) && m[k] is Pending && m[k]->Pending_0 == claim_no {
        m.remove(k)
    } else {
        m
    }
}

/// The map after a caller publishes `v` for `k`: a published value is
/// never replaced.
pub open spec fn after_publish<K, V>(m: Map<K, Slot<V>>, k: K, v: V) -> Map<K, Slot<V>> {
    if m.contains_key(k) && m[k] is Ready {
        m
    } else {
        m.insert(k, Slot::Ready(v))
    }
}

/// The lock's invariant for a given relation.
pub open spec fn table_pred<K, V>(rel: spec_fn(K, V) -> bool) -> spec_fn(
    (HashMap<K, Slot<V>>, u64),
) -> bool {
    |t: (HashMap<K, Slot<V>>, u64)| table_ok(rel, t.0@)
}

/// Reports the slot of `key`, copying a published value out.
fn probe<K: Eq + Hash, V: Clone>(t: &HashMap<K, Slot<V>>, key: &K) -> (r: Lookup<V>)
    requires
        obeys_key_model::<K>(),
    ensures
        found_as(t@, *key, r),
{
    match t.get(key) {
        Some(Slot::Ready(v)) => Lookup::Hit(v.clone()),
        Some(Slot::Pending(n, signal)) => Lookup::Wait(*n, share_signal(signal)),
        None => Lookup::Absent,
    }
}

/// Looks `key` up and, where it has no slot, installs a pending one under
/// `stored` (a copy of the key), in one step under the write lock.
fn claim<K: Eq + Hash + Clone, V: Clone>(
    t: &mut HashMap<K, Slot<V>>,
    key: &K,
    stored: K,
    claim_no: u64,
    signal: Receiver<()>,
) -> (r: Lookup<V>)
    requires
        obeys_key_model::<K>(),
    ensures
        found_as(old(t)@, *key, r),
        old(t)@.contains_key(*key) ==> final(t)@ == old(t)@,
        !old(t)@.contains_key(*key) ==> final(t)@ == old(t)@.insert(
            stored,
            Slot::Pending(claim_no, signal),
        ),
        stored == *key ==> final(t)@ == after_claim(old(t)@, *key, claim_no, signal),
{
    let r = probe(t, key);
    match r {
        Lookup::Absent => {
            t.insert(stored, Slot::Pending(claim_no, signal));
        },
        _ => {},
    }
    r
}

/// Publishes `v` under `key` unless a value is published there already;
/// returns a copy of the value that stands.
fn settle<K: Eq + Hash, V: Clone>(t: &mut HashMap<K, Slot<V>>, key: K, v: V) -> (r: V)
    requires
        obeys_key_model::<K>(),
    ensures
        final(t)@ == after_publish(old(t)@, key, v),
        final(t)@[key] is Ready,
        cloned(final(t)@[key]->Ready_0, r),
{
    match t.get(&key) {
        Some(Slot::Ready(w)) => w.clone(),
        _ => {
            let r = v.clone();
            t.insert(key, Slot::Ready(v));
            r
        },
    }
}

/// Looks `key` up for a waiter of claim `claim_no` and, where that claim's
/// marker is still there with no value, removes it, in one step under the
/// write lock.
fn release_failed<K: Eq + Hash, V: Clone>(
    t: &mut HashMap<K, Slot<V>>,
    key: &K,
    claim_no: u64,
) -> (r: Lookup<V>)
    requires
        obeys_key_model::<K>(),
    ensures
        found_as(old(t)@, *key, r),
        final(t)@ == after_release(old(t)@, *key, claim_no),
{
    let r = probe(t, key);
    match r {
        Lookup::Wait(n, _) => {
            if n == claim_no {
                t.remove(key);
            }
        },
        _ => {},
    }
    r
}

/// Reported to the callers that waited for a computation that failed.
#[derive(Debug, Clone, Copy, PartialEq, Eq, Structural)]
pub struct ComputeFailed;

/// What a caller returns once it has read its key's slot: the published
/// value if there is one, else the failure of the computation it waited for.
pub fn outcome<V>(seen: Lookup<V>) -> (r: Result<V, ComputeFailed>)
    ensures
        (r is Ok) == (seen is Hit),
        seen is Hit ==> r == Ok::<V, ComputeFailed>(seen->Hit_0),
{
    match seen {
        Lookup::Hit(v) => Ok(v),
        _ => Err(ComputeFailed),
    }
}

/// Cache that remembers the value computed for each key.
///
/// Each cache carries a relation between keys and values, fixed when it is
/// made; every value it hands out is related to its key. A cache made by
/// `default` relates every key to every value.
#[verifier::reject_recursive_types(K)]
#[verifier::reject_recursive_types(V)]
pub struct Cache<K: Eq + Hash + Clone, V: Clone> {
    table: RwLock<(HashMap<K, Slot<V>>, u64), spec_fn((HashMap<K, Slot<V>>, u64)) -> bool>,
    rel: Ghost<spec_fn(K, V) -> bool>,
}

impl<K: Eq + Hash + Clone, V: Clone> Cache<K, V> {
    #[verifier::type_invariant]
    spec fn well_formed(&self) -> bool {
        &&& clone_stable(self.rel@)
        &&& self.table.pred() == table_pred(self.rel@)
    }

    /// The relation that every value handed out for a key has to that key.
    pub closed spec fn relation(&self) -> spec_fn(K, V) -> bool {
        self.rel@
    }

    /// An empty cache whose values are related to their keys by `rel`.
    pub fn new(rel: Ghost<spec_fn(K, V) -> bool>) -> (r: Self)
        requires
            clone_stable(rel@),
        ensures
            r.relation() == rel@,
    {
        let t: HashMap<K, Slot<V>> = HashMap::new();
        let table = RwLock::new((t, 0u64), Ghost(table_pred(rel@)));
        Cache { table, rel }
    }

    /// Returns the value of `key`, computing it with `f` where no caller has
    /// done so yet.
    ///
    /// `f` runs with no lock held, so callers for other keys go on while it
    /// runs. Callers that find `key` being computed wait for that computation
    /// and receive a copy of its value instead of running their own `f`. If
    /// the computing caller fails before publishing, every caller that waited
    /// for it gets `Err(ComputeFailed)` (see `outcome`) and the failed
    /// claim's marker is released; the cache does not retry, but a later call
    /// computes afresh.
    ///
    /// Every value returned is related to `key` by `relation()`. A cache made
    /// by `default` relates every key to every value, so there this promises
    /// nothing about the value; make the cache with `new` and a relation
    /// (such as `|k, v| v == g(k)`) to have the value pinned down.
    pub fn get_or_insert_with<F: FnOnce(K) -> V>(&self, key: K, f: F) -> (r: Result<
        V,
        ComputeFailed,
    >)
        requires
            obeys_key_model::<K>(),
            f.requires((key,)),
            forall|v: V| f.ensures((key,), v) ==> (self.relation())(key, v),
        ensures
            r is Ok ==> (self.relation())(key, r->Ok_0),
    {
        proof {
            use_type_invariant(self);
        }
        let read = self.table.acquire_read();
        let seen = probe(&read.borrow().0, &key);
        proof {
            let m = read.view().0@;
            assert(m.contains_key(key) ==> slot_ok(self.rel@, key, m[key]));
        }
        read.release_read();
        match seen {
            Lookup::Wait(claim_no, signal) => self.await_value(&key, claim_no, signal),
            Lookup::Absent => {
                let (_done, signal) = new_signal();
                let stored = key.clone();
                let ((mut slots, claim_no), handle) = self.table.acquire_write();
                let ghost before = slots@;
                let claimed = claim(&mut slots, &key, stored, claim_no, signal);
                proof {
                    assert(table_ok(self.rel@, before));
                    assert(before.contains_key(key) ==> slot_ok(self.rel@, key, before[key]));
                    assert forall|k: K| #[trigger] slots@.contains_key(k) implies slot_ok(
                        self.rel@,
                        k,
                        slots@[k],
                    ) by {
                        if !before.contains_key(k) {
                            assert(slots@[k] is Pending);
                        }
                    }
                }
                let next = if claim_no == u64::MAX {
                    0
                } else {
                    claim_no + 1
                };
                handle.release_write((slots, next));
                // `_done` lives until this function returns, after the value
                // is published; dropping it, also while unwinding from a
                // failing `f`, wakes the waiters.
                match claimed {
                    Lookup::Wait(other, signal) => self.await_value(&key, other, signal),
                    Lookup::Absent => Ok(self.compute(key, f)),
                    hit => outcome(hit),
                }
            },
            hit => outcome(hit),
        }
    }

    /// Waits for the caller that made claim `claim_no` of `key` to finish,
    /// then returns the value it published; where it published none, removes
    /// its marker and reports `ComputeFailed`.
    fn await_value(&self, key: &K, claim_no: u64, signal: Receiver<()>) -> (r: Result<
        V,
        ComputeFailed,
    >)
        requires
            obeys_key_model::<K>(),
        ensures
            r is Ok ==> (self.relation())(*key, r->Ok_0),
    {
        proof {
            use_type_invariant(self);
        }
        wait_signal(&signal);
        let ((mut slots, next), handle) = self.table.acquire_write();
        let ghost before = slots@;
        let seen = release_failed(&mut slots, key, claim_no);
        proof {
            assert(table_ok(self.rel@, before));
            assert(before.contains_key(*key) ==> slot_ok(self.rel@, *key, before[*key]));
            assert forall|k: K| #[trigger] slots@.contains_key(k) implies slot_ok(
                self.rel@,
                k,
                slots@[k],
            ) by {
                assert(before.contains_key(k));
            }
        }
        handle.release_write((slots, next));
        outcome(seen)
    }

    /// Runs `f` on `key` with no lock held, publishes its value, and returns
    /// the value that stands for `key`.
    fn compute<F: FnOnce(K) -> V>(&self, key: K, f: F) -> (r: V)
        requires
            obeys_key_model::<K>(),
            f.requires((key,)),
            forall|v: V| f.ensures((key,), v) ==> (self.relation())(key, v),
        ensures
            (self.relation())(key, r),
    {
        proof {
            use_type_invariant(self);
        }
        let stored = key.clone();
        let ghost k = key;
        let v = f(key);
        proof {
            assert(cloned(k, stored));
        }
        self.publish(stored, v)
    }

    /// Publishes `v` as the value of `key` unless one is published already,
    /// and returns a copy of the value that stands.
    fn publish(&self, key: K, v: V) -> (r: V)
        requires
            obeys_key_model::<K>(),
            (self.relation())(key, v),
        ensures
            (self.relation())(key, r),
    {
        proof {
            use_type_invariant(self);
        }
        let ((mut slots, next), handle) = self.table.acquire_write();
        let ghost before = slots@;
        let ghost k0 = key;
        let r = settle(&mut slots, key, v);
        proof {
            assert(table_ok(self.rel@, before));
            assert(before.contains_key(k0) ==> slot_ok(self.rel@, k0, before[k0]));
            assert forall|k: K| #[trigger] slots@.contains_key(k) implies slot_ok(
                self.rel@,
                k,
                slots@[k],
            ) by {
                if k != k0 {
                    assert(before.contains_key(k));
                }
            }
        }
        handle.release_write((slots, next));
        r
    }
}

impl<K: Eq + Hash + Clone, V: Clone> Default for Cache<K, V> {
    /// An empty cache that relates every key to every value.
    fn default() -> (r: Self)
        ensures
            forall|k: K, v: V| #[trigger] (r.relation())(k, v),
    {
        Cache::new(Ghost(|k: K, v: V| true))
    }
}

/// Once a caller has claimed a key that had no slot, the key is pending
/// under that claim, a lookup no longer finds it absent, and a second claim
/// changes nothing: only the first claimant computes the value.
pub proof fn lemma_claim_once<K, V: Clone>(
    m: Map<K, Slot<V>>,
    k: K,
    first_no: u64,
    first: Receiver<()>,
    second_no: u64,
    second: Receiver<()>,
    r: Lookup<V>,
)
    requires
        !m.contains_key(k),
        found_as(after_claim(m, k, first_no, first), k, r),
    ensures
        after_claim(m, k, first_no, first).contains_key(k),
        after_claim(m, k, first_no, first)[k] == Slot::<V>::Pending(first_no, first),
        r is Wait && r->Wait_0 == first_no,
        after_claim(after_claim(m, k, first_no, first), k, second_no, second) == after_claim(
            m,
            k,
            first_no,
            first,
        ),
{
}

/// A published value stays: a lookup of its key reports a copy of it, the
/// copy is related to the key, and a claim leaves the map as it is.
pub proof fn lemma_ready_is_kept<K: Clone, V: Clone>(
    rel: spec_fn(K, V) -> bool,
    m: Map<K, Slot<V>>,
    k: K,
    claim_no: u64,
    signal: Receiver<()>,
    r: Lookup<V>,
)
    requires
        clone_stable(rel),
        table_ok(rel, m),
        m.contains_key(k),
        m[k] is Ready,
        found_as(m, k, r),
    ensures
        r is Hit,
        cloned(m[k]->Ready_0, r->Hit_0),
        rel(k, r->Hit_0),
        after_claim(m, k, claim_no, signal) == m,
{
    assert(slot_ok(rel, k, m[k]));
}

/// Claiming one key leaves the slot of every other key as it was.
pub proof fn lemma_claim_keeps_other_keys<K, V>(
    m: Map<K, Slot<V>>,
    k: K,
    other: K,
    claim_no: u64,
    signal: Receiver<()>,
)
    requires
        other != k,
    ensures
        after_claim(m, k, claim_no, signal).contains_key(other) == m.contains_key(other),
        m.contains_key(other) ==> after_claim(m, k, claim_no, signal)[other] == m[other],
{
}

/// Once a value is published for a key it never changes: publishing again,
/// claiming the key, and releasing any claim of it all leave the map as it
/// is.
pub proof fn lemma_published_value_stays<K, V>(
    m: Map<K, Slot<V>>,
    k: K,
    v: V,
    claim_no: u64,
    signal: Receiver<()>,
)
    requires
        m.contains_key(k),
        m[k] is Ready,
    ensures
        after_publish(m, k, v) == m,
        after_claim(m, k, claim_no, signal) == m,
        after_release(m, k, claim_no) == m,
{
}

/// A waiter releases only the marker of the claim it waited for: a fresh
/// claim made since is left in place, and after a release the key is free
/// to be claimed again.
pub proof fn lemma_release_only_failed_claim<K, V>(
    m: Map<K, Slot<V>>,
    k: K,
    failed_no: u64,
    fresh_no: u64,
    signal: Receiver<()>,
)
    requires
        m.contains_key(k),
        m[k] is Pending,
    ensures
        m[k]->Pending_0 == fresh_no && fresh_no != failed_no ==> after_release(m, k, failed_no)
            == m,
        m[k]->Pending_0 == failed_no ==> !after_release(m, k, failed_no).contains_key(k),
        m[k]->Pending_0 == failed_no ==> after_claim(
            after_release(m, k, failed_no),
            k,
            fresh_no,
            signal,
        )[k] == Slot::<V>::Pending(fresh_no, signal),
{
}

} // verus!
