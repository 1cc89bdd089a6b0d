//! The cache semantics that the synthesized wrapper relies on, stated over
//! one function's storage and proved once and for all.
//!
//! The wrapper that [`crate::synth`] derives looks a key up, computes on a
//! miss with the storage released, then stores the fresh value. This module
//! is that algorithm over the abstract storage capability — lookup, insert,
//! clear — with keys as the tuples of non-ignored argument values and the
//! clock reading passed in by the caller. Entries sit in
//! most-recently-used-first order, which is what the bounded container's
//! eviction consults. The laws at the end are the guarantees the generated
//! code gives: a cached key is not recomputed, ignored arguments never
//! affect the key, a stale entry is never surfaced, the bounded container
//! evicts exactly its least recently used entry, and a flush forgets
//! everything.

use vstd::prelude::*;

verus! {

/// One stored entry: the key (the tuple of non-ignored argument values),
/// the time its value was computed, and the value.
#[derive(Debug)]
pub struct Entry {
    pub key: Vec<u64>,
    pub stamp: u64,
    pub value: u64,
}

/// The spec-level value of an entry.
pub ghost struct EntryG {
    pub key: Seq<u64>,
    pub stamp: u64,
    pub value: u64,
}

impl View for Entry {
    type V = EntryG;

    open spec fn view(&self) -> EntryG {
        EntryG { key: self.key@, stamp: self.stamp, value: self.value }
    }
}

/// One function's storage: entries in most-recently-used-first order, the
/// capacity bound of the bounded mode, and the time-to-live of the
/// timestamped mode. Both modes are fixed when the storage is created, as
/// both are fixed per transformation.
#[derive(Debug)]
pub struct CacheState {
    entries: Vec<Entry>,
    capacity: Option<usize>,
    ttl: Option<u64>,
}

/// The spec-level value of the storage.
pub ghost struct CacheG {
    pub entries: Seq<EntryG>,
    pub capacity: Option<usize>,
    pub ttl: Option<u64>,
}

impl View for CacheState {
    type V = CacheG;

    closed spec fn view(&self) -> CacheG {
        CacheG {
            entries: self.entries@.map_values(|e: Entry| e@),
            capacity: self.capacity,
            ttl: self.ttl,
        }
    }
}

/// No key occurs twice.
pub open spec fn keys_distinct(es: Seq<EntryG>) -> bool {
    forall|i: int, j: int| 0 <= i < j < es.len() ==> es[i].key != es[j].key
}

/// Some entry holds this key.
pub open spec fn has_key(es: Seq<EntryG>, k: Seq<u64>) -> bool {
    exists|i: int| 0 <= i < es.len() && es[i].key == k
}

/// The position of the entry holding `k`, or -1.
pub open spec fn find_key(es: Seq<EntryG>, k: Seq<u64>) -> int
    decreases es.len(),
{
    if es.len() == 0 {
        -1
    } else if es[0].key == k {
        0
    } else {
        let r = find_key(es.drop_first(), k);
        if r < 0 {
            -1
        } else {
            r + 1
        }
    }
}

/// What [`find_key`] finds: the first position holding the key, or -1 when
/// none does.
pub proof fn lemma_find_key(es: Seq<EntryG>, k: Seq<u64>)
    ensures
        find_key(es, k) == -1 ==> !has_key(es, k),
        find_key(es, k) >= 0 ==> 0 <= find_key(es, k) < es.len() && es[find_key(es, k)].key == k,
    decreases es.len(),
{
    if es.len() == 0 {
    } else if es[0].key == k {
    } else {
        lemma_find_key(es.drop_first(), k);
        let r = find_key(es.drop_first(), k);
        if r < 0 {
            assert forall|i: int| 0 <= i < es.len() implies es[i].key != k by {
                if i > 0 {
                    assert(es.drop_first()[i - 1] == es[i]);
                }
            }
        } else {
            assert(es.drop_first()[r] == es[r + 1]);
        }
    }
}

/// Whether the entry is fresh at `now`: without a time-to-live every entry
/// is; with one, exactly the entries younger than it.
pub open spec fn fresh_at(e: EntryG, now: u64, ttl: Option<u64>) -> bool {
    match ttl {
        None => true,
        Some(d) => now >= e.stamp && now - e.stamp < d,
    }
}

/// The entry at `i` moved to the front: it becomes the most recently used.
pub open spec fn promote(es: Seq<EntryG>, i: int) -> Seq<EntryG>
    recommends
        0 <= i < es.len(),
{
    seq![es[i]] + es.subrange(0, i) + es.subrange(i + 1, es.len() as int)
}

/// Where each old entry stands after a promotion.
pub proof fn lemma_promote(es: Seq<EntryG>, j: int)
    requires
        0 <= j < es.len(),
    ensures
        promote(es, j).len() == es.len(),
        promote(es, j)[0] == es[j],
        forall|i: int| 0 <= i < j ==> promote(es, j)[i + 1] == es[i],
        forall|i: int| j < i < es.len() ==> promote(es, j)[i] == es[i],
{
}

/// A promotion keeps the keys distinct.
pub proof fn lemma_promote_distinct(es: Seq<EntryG>, j: int)
    requires
        0 <= j < es.len(),
        keys_distinct(es),
    ensures
        keys_distinct(promote(es, j)),
{
    lemma_promote(es, j);
    let ps = promote(es, j);
    assert forall|a: int, b: int| 0 <= a < b < ps.len() implies ps[a].key != ps[b].key by {
        let oa: int = if a == 0 {
            j
        } else if a <= j {
            a - 1
        } else {
            a
        };
        let ob: int = if b <= j {
            b - 1
        } else {
            b
        };
        assert(ps[a] == es[oa]);
        assert(ps[b] == es[ob]);
    }
}

/// What a lookup returns: the stored value, exactly when the key is present
/// and its entry is fresh. An expired hit is a miss: expired data is never
/// surfaced.
pub open spec fn lookup_result(s: CacheG, k: Seq<u64>, now: u64) -> Option<u64> {
    let i = find_key(s.entries, k);
    if i >= 0 && fresh_at(s.entries[i], now, s.ttl) {
        Some(s.entries[i].value)
    } else {
        None
    }
}

/// What a lookup leaves behind: a found key is promoted — the bounded
/// container refreshes recency on access — fresh or not; an absent key
/// changes nothing.
pub open spec fn lookup_state(s: CacheG, k: Seq<u64>, now: u64) -> CacheG {
    let i = find_key(s.entries, k);
    if i >= 0 {
        CacheG { entries: promote(s.entries, i), ..s }
    } else {
        s
    }
}

/// What an insert leaves behind: the new entry in front as most recently
/// used; an entry with the same key is replaced; when the bounded container
/// is full and the key is new, the least recently used entry — the last —
/// is evicted.
pub open spec fn insert_state(s: CacheG, k: Seq<u64>, v: u64, now: u64) -> CacheG {
    let e = EntryG { key: k, stamp: now, value: v };
    let i = find_key(s.entries, k);
    if i >= 0 {
        CacheG {
            entries: seq![e] + s.entries.subrange(0, i) + s.entries.subrange(
                i + 1,
                s.entries.len() as int,
            ),
            ..s
        }
    } else if s.capacity matches Some(c) && s.entries.len() >= c {
        CacheG { entries: seq![e] + s.entries.drop_last(), ..s }
    } else {
        CacheG { entries: seq![e] + s.entries, ..s }
    }
}

/// Well-formed storage: distinct keys, and within its bound when bounded.
pub open spec fn wf(s: CacheG) -> bool {
    &&& keys_distinct(s.entries)
    &&& match s.capacity {
        Some(c) => c >= 1 && s.entries.len() <= c,
        None => true,
    }
}

/// A lookup preserves well-formedness and the entry count.
pub proof fn lemma_lookup_wf(s: CacheG, k: Seq<u64>, now: u64)
    requires
        wf(s),
    ensures
        wf(lookup_state(s, k, now)),
        lookup_state(s, k, now).entries.len() == s.entries.len(),
        lookup_state(s, k, now).capacity == s.capacity,
        lookup_state(s, k, now).ttl == s.ttl,
{
    let i = find_key(s.entries, k);
    lemma_find_key(s.entries, k);
    if i >= 0 {
        lemma_promote_distinct(s.entries, i);
        lemma_promote(s.entries, i);
    }
}

/// An insert preserves well-formedness.
pub proof fn lemma_insert_wf(s: CacheG, k: Seq<u64>, v: u64, now: u64)
    requires
        wf(s),
    ensures
        wf(insert_state(s, k, v, now)),
        insert_state(s, k, v, now).capacity == s.capacity,
        insert_state(s, k, v, now).ttl == s.ttl,
{
    let es = s.entries;
    let e = EntryG { key: k, stamp: now, value: v };
    let i = find_key(es, k);
    lemma_find_key(es, k);
    if i >= 0 {
        lemma_find_key_prefix(es, k, i);
        let es2 = seq![e] + es.subrange(0, i) + es.subrange(i + 1, es.len() as int);
        assert forall|a: int, b: int| 0 <= a < b < es2.len() implies es2[a].key != es2[b].key by {
            let oa: int = if a == 0 {
                i
            } else if a <= i {
                a - 1
            } else {
                a
            };
            let ob: int = if b <= i {
                b - 1
            } else {
                b
            };
            if a > 0 {
                assert(es2[a] == es[oa]);
            }
            assert(es2[b] == es[ob]);
            if a == 0 {
                // the new entry's key k occurs in es only at position i
                assert(es2[b] == es[ob] && ob != i);
                if es[ob].key == k {
                    if ob < i {
                        assert(false);
                    } else {
                        assert(es[i].key == es[ob].key);
                        assert(false);
                    }
                }
            }
        }
    } else if s.capacity matches Some(c) && es.len() >= c {
        let es2 = seq![e] + es.drop_last();
        assert forall|a: int, b: int| 0 <= a < b < es2.len() implies es2[a].key != es2[b].key by {
            if a == 0 {
                assert(es2[b] == es[b - 1]);
                assert(!has_key(es, k));
                assert(es[b - 1].key != k);
            } else {
                assert(es2[a] == es[a - 1]);
                assert(es2[b] == es[b - 1]);
            }
        }
    } else {
        let es2 = seq![e] + es;
        assert forall|a: int, b: int| 0 <= a < b < es2.len() implies es2[a].key != es2[b].key by {
            if a == 0 {
                assert(es2[b] == es[b - 1]);
                assert(!has_key(es, k));
                assert(es[b - 1].key != k);
            } else {
                assert(es2[a] == es[a - 1]);
                assert(es2[b] == es[b - 1]);
            }
        }
    }
}

/// Before the found position every key differs from the sought one.
pub proof fn lemma_find_key_prefix(es: Seq<EntryG>, k: Seq<u64>, n: int)
    requires
        find_key(es, k) == n,
        0 <= n < es.len(),
    ensures
        forall|i: int| 0 <= i < n ==> es[i].key != k,
    decreases es.len(),
{
    if es.len() == 0 {
    } else if es[0].key == k {
    } else {
        lemma_find_key_prefix(es.drop_first(), k, n - 1);
        assert forall|i: int| 0 <= i < n implies es[i].key != k by {
            if i > 0 {
                assert(es.drop_first()[i - 1] == es[i]);
            }
        }
    }
}

/// One wrapper invocation, as a value: the cached value on a fresh hit,
/// else the freshly computed one; the flag says whether the computation
/// ran.
pub open spec fn call_result(s: CacheG, k: Seq<u64>, now: u64, computed: u64) -> (u64, bool) {
    match lookup_result(s, k, now) {
        Some(v) => (v, false),
        None => (computed, true),
    }
}

/// One wrapper invocation, as a state change: a fresh hit only promotes;
/// a miss stores the computed value over whatever the lookup left.
pub open spec fn call_state(s: CacheG, k: Seq<u64>, now: u64, computed: u64) -> CacheG {
    match lookup_result(s, k, now) {
        Some(_) => lookup_state(s, k, now),
        None => insert_state(lookup_state(s, k, now), k, computed, now),
    }
}

fn key_eq(a: &Vec<u64>, b: &Vec<u64>) -> (r: bool)
    ensures
        r == (a@ == b@),
{
    if a.len() != b.len() {
        return false;
    }
    let mut i: usize = 0;
    while i < a.len()
        invariant
            a@.len() == b@.len(),
            i <= a@.len(),
            forall|j: int| 0 <= j < i ==> a@[j] == b@[j],
        decreases a@.len() - i,
    {
        if a[i] != b[i] {
            return false;
        }
        i += 1;
    }
    proof {
        assert(a@ =~= b@);
    }
    true
}

fn dup_key(v: &Vec<u64>) -> (r: Vec<u64>)
    ensures
        r@ == v@,
{
    let mut r: Vec<u64> = Vec::new();
    let mut i: usize = 0;
    while i < v.len()
        invariant
            i <= v@.len(),
            r@ == v@.take(i as int),
        decreases v@.len() - i,
    {
        r.push(v[i]);
        proof {
            assert(v@.take(i + 1 as int) =~= v@.take(i as int).push(v@[i as int]));
        }
        i += 1;
    }
    proof {
        assert(v@.take(v@.len() as int) =~= v@);
    }
    r
}

impl CacheState {
    /// Fresh storage for one function: empty, with the capacity and
    /// time-to-live that the configuration fixed for it.
    pub fn new(capacity: Option<usize>, ttl: Option<u64>) -> (r: CacheState)
        requires
            capacity matches Some(c) ==> c >= 1,
        ensures
            r@ == (CacheG { entries: Seq::empty(), capacity, ttl }),
            wf(r@),
    {
        let r = CacheState { entries: Vec::new(), capacity, ttl };
        proof {
            assert(r@.entries =~= Seq::<EntryG>::empty());
        }
        r
    }

    fn find(&self, key: &Vec<u64>) -> (r: Option<usize>)
        ensures
            match r {
                Some(i) => find_key(self@.entries, key@) == i,
                None => find_key(self@.entries, key@) == -1,
            },
    {
        let ghost es = self@.entries;
        let mut i: usize = 0;
        while i < self.entries.len()
            invariant
                i <= es.len(),
                es == self@.entries,
                es.len() == self.entries@.len(),
                forall|j: int| 0 <= j < i ==> es[j].key != key@,
            decreases es.len() - i,
        {
            if key_eq(&self.entries[i].key, key) {
                proof {
                    lemma_find_key_found(es, key@, i as int);
                }
                return Some(i);
            }
            i += 1;
        }
        proof {
            lemma_find_key_absent(es, key@);
        }
        None
    }

    /// Looks `key` up at time `now`: returns the stored value exactly while
    /// its entry is fresh, and refreshes the entry's recency whenever the
    /// key is present. An expired hit is treated as a miss.
    pub fn get(&mut self, key: &Vec<u64>, now: u64) -> (r: Option<u64>)
        requires
            wf(old(self)@),
        ensures
            r == lookup_result(old(self)@, key@, now),
            final(self)@ == lookup_state(old(self)@, key@, now),
            wf(final(self)@),
    {
        let ghost s0 = self@;
        proof {
            lemma_lookup_wf(s0, key@, now);
        }
        match self.find(key) {
            None => None,
            Some(i) => {
                proof {
                    lemma_find_key(s0.entries, key@);
                }
                let e = self.entries.remove(i);
                let fresh = match self.ttl {
                    None => true,
                    Some(d) => now >= e.stamp && now - e.stamp < d,
                };
                let value = e.value;
                self.entries.insert(0, e);
                proof {
                    lemma_find_key(s0.entries, key@);
                    assert(self@.entries =~= promote(s0.entries, i as int));
                    assert(s0.entries[i as int] == self@.entries[0]);
                }
                if fresh {
                    Some(value)
                } else {
                    None
                }
            },
        }
    }

    /// Stores `key` with a value computed at `now`: replaces an entry with
    /// the same key, evicts the least recently used entry when the bounded
    /// container is full and the key is new, and leaves the new entry most
    /// recently used.
    pub fn put(&mut self, key: &Vec<u64>, value: u64, now: u64)
        requires
            wf(old(self)@),
        ensures
            final(self)@ == insert_state(old(self)@, key@, value, now),
            wf(final(self)@),
    {
        let ghost s0 = self@;
        proof {
            lemma_insert_wf(s0, key@, value, now);
        }
        let e = Entry { key: dup_key(key), stamp: now, value };
        match self.find(key) {
            Some(i) => {
                proof {
                    lemma_find_key(s0.entries, key@);
                }
                let _old = self.entries.remove(i);
                self.entries.insert(0, e);
                proof {
                    assert(self@.entries =~= seq![
                        EntryG { key: key@, stamp: now, value },
                    ] + s0.entries.subrange(0, i as int) + s0.entries.subrange(
                        i + 1,
                        s0.entries.len() as int,
                    ));
                }
            },
            None => {
                let full = match self.capacity {
                    Some(c) => self.entries.len() >= c,
                    None => false,
                };
                if full {
                    let _evicted = self.entries.pop();
                    proof {
                        assert(self@.entries =~= s0.entries.drop_last());
                    }
                }
                self.entries.insert(0, e);
                proof {
                    if full {
                        assert(self@.entries =~= seq![
                            EntryG { key: key@, stamp: now, value },
                        ] + s0.entries.drop_last());
                    } else {
                        assert(self@.entries =~= seq![
                            EntryG { key: key@, stamp: now, value },
                        ] + s0.entries);
                    }
                }
            },
        }
    }

    /// Empties the storage: the flush operation. The storage cell itself
    /// survives; an in-flight computation past its lookup is unaffected and
    /// re-populates the entry on its insert.
    pub fn clear(&mut self)
        requires
            wf(old(self)@),
        ensures
            final(self)@ == (CacheG { entries: Seq::empty(), ..old(self)@ }),
            wf(final(self)@),
    {
        self.entries.clear();
        proof {
            assert(self@.entries =~= Seq::<EntryG>::empty());
        }
    }

    /// One invocation of the generated wrapper at time `now`: lookup first;
    /// on a fresh hit the cached value comes back and nothing is computed;
    /// otherwise `computed` — what the renamed original returns while the
    /// storage is released — is stored and returned. The flag says whether
    /// the computation ran.
    pub fn wrapper_call(&mut self, key: &Vec<u64>, now: u64, computed: u64) -> (r: (u64, bool))
        requires
            wf(old(self)@),
        ensures
            r == call_result(old(self)@, key@, now, computed),
            final(self)@ == call_state(old(self)@, key@, now, computed),
            wf(final(self)@),
    {
        let ghost s0 = self@;
        proof {
            lemma_lookup_wf(s0, key@, now);
            lemma_insert_wf(lookup_state(s0, key@, now), key@, computed, now);
        }
        match self.get(key, now) {
            Some(v) => (v, false),
            None => {
                self.put(key, computed, now);
                (computed, true)
            },
        }
    }
}

/// A match at `n` with a clear prefix pins what [`find_key`] returns.
proof fn lemma_find_key_found(es: Seq<EntryG>, k: Seq<u64>, n: int)
    requires
        0 <= n < es.len(),
        es[n].key == k,
        forall|i: int| 0 <= i < n ==> es[i].key != k,
    ensures
        find_key(es, k) == n,
    decreases es.len(),
{
    if es[0].key == k {
    } else {
        assert forall|i: int| 0 <= i < n - 1 implies es.drop_first()[i].key != k by {
            assert(es.drop_first()[i] == es[i + 1]);
        }
        assert(es.drop_first()[n - 1] == es[n]);
        lemma_find_key_found(es.drop_first(), k, n - 1);
    }
}

/// A key that no entry holds is not found.
proof fn lemma_find_key_absent(es: Seq<EntryG>, k: Seq<u64>)
    requires
        forall|i: int| 0 <= i < es.len() ==> es[i].key != k,
    ensures
        find_key(es, k) == -1,
    decreases es.len(),
{
    if es.len() > 0 {
        assert forall|i: int| 0 <= i < es.len() - 1 implies es.drop_first()[i].key != k by {
            assert(es.drop_first()[i] == es[i + 1]);
        }
        lemma_find_key_absent(es.drop_first(), k);
    }
}

// ---------------------------------------------------------------------------
// The key.
// ---------------------------------------------------------------------------

/// The cache key of one invocation: the argument values at the non-ignored
/// positions, in declaration order. With nothing left the key is the unit
/// value — the empty tuple of a zero-parameter function.
pub open spec fn key_of(args: Seq<u64>, ignored: Seq<bool>) -> Seq<u64>
    recommends
        args.len() == ignored.len(),
    decreases args.len(),
{
    if args.len() == 0 {
        Seq::empty()
    } else {
        let rest = key_of(args.drop_first(), ignored.drop_first());
        if ignored[0] {
            rest
        } else {
            seq![args[0]] + rest
        }
    }
}

/// Builds the cache key of one invocation.
pub fn make_key(args: &Vec<u64>, ignored: &Vec<bool>) -> (r: Vec<u64>)
    requires
        args@.len() == ignored@.len(),
    ensures
        r@ == key_of(args@, ignored@),
{
    let mut r: Vec<u64> = Vec::new();
    let mut i: usize = 0;
    proof {
        assert(args@.skip(0) =~= args@);
        assert(ignored@.skip(0) =~= ignored@);
    }
    while i < args.len()
        invariant
            i <= args@.len(),
            args@.len() == ignored@.len(),
            key_of(args@, ignored@) == r@ + key_of(
                args@.skip(i as int),
                ignored@.skip(i as int),
            ),
        decreases args@.len() - i,
    {
        proof {
            assert(args@.skip(i as int).drop_first() =~= args@.skip(i + 1));
            assert(ignored@.skip(i as int).drop_first() =~= ignored@.skip(i + 1));
            assert(args@.skip(i as int)[0] == args@[i as int]);
            assert(ignored@.skip(i as int)[0] == ignored@[i as int]);
        }
        if !ignored[i] {
            let ghost r0 = r@;
            r.push(args[i]);
            proof {
                let rest = key_of(args@.skip(i + 1), ignored@.skip(i + 1));
                assert(r0 + (seq![args@[i as int]] + rest) =~= r@ + rest);
            }
        }
        i += 1;
    }
    proof {
        assert(args@.skip(args@.len() as int) =~= Seq::<u64>::empty());
        assert(ignored@.skip(args@.len() as int) =~= Seq::<bool>::empty());
        assert(r@ + Seq::<u64>::empty() =~= r@);
    }
    r
}

// ---------------------------------------------------------------------------
// The laws.
// ---------------------------------------------------------------------------

/// Ignored arguments never reach the key: two invocations that agree on
/// every non-ignored position build the same key, whatever their ignored
/// arguments hold — so the second finds exactly what the first cached.
pub proof fn lemma_key_of_ignores(args1: Seq<u64>, args2: Seq<u64>, ignored: Seq<bool>)
    requires
        args1.len() == ignored.len(),
        args2.len() == ignored.len(),
        forall|i: int| #![auto] 0 <= i < ignored.len() && !ignored[i] ==> args1[i] == args2[i],
    ensures
        key_of(args1, ignored) == key_of(args2, ignored),
    decreases ignored.len(),
{
    if ignored.len() > 0 {
        assert forall|i: int| #![auto]
            0 <= i < ignored.drop_first().len() && !ignored.drop_first()[i] implies args1.drop_first()[i]
            == args2.drop_first()[i] by {
            assert(ignored.drop_first()[i] == ignored[i + 1]);
            assert(args1.drop_first()[i] == args1[i + 1]);
            assert(args2.drop_first()[i] == args2[i + 1]);
        }
        lemma_key_of_ignores(args1.drop_first(), args2.drop_first(), ignored.drop_first());
        if !ignored[0] {
            assert(args1[0] == args2[0]);
        }
    }
}

/// A cached value is returned as long as it is fresh: right after a value
/// was stored for a key, looking that key up yields exactly that value —
/// unconditionally without a time-to-live, and within the time-to-live
/// otherwise. A wrapper invocation in that window is a hit: nothing is
/// recomputed.
pub proof fn lemma_hit_after_insert(s: CacheG, k: Seq<u64>, v: u64, t1: u64, t2: u64)
    requires
        wf(s),
        match s.ttl {
            None => true,
            Some(d) => t2 >= t1 && t2 - t1 < d,
        },
    ensures
        lookup_result(insert_state(s, k, v, t1), k, t2) == Some(v),
{
    let s2 = insert_state(s, k, v, t1);
    assert(s2.entries[0] == EntryG { key: k, stamp: t1, value: v });
    assert(find_key(s2.entries, k) == 0);
}

/// A stale entry is never surfaced: once the time-to-live has elapsed since
/// a key's value was stored, looking that key up misses, so the wrapper
/// recomputes and overwrites.
pub proof fn lemma_expired_entry_misses(s: CacheG, k: Seq<u64>, v: u64, t1: u64, t2: u64)
    requires
        wf(s),
        s.ttl matches Some(d) && (t2 < t1 || t2 - t1 >= d),
    ensures
        lookup_result(insert_state(s, k, v, t1), k, t2) == None::<u64>,
{
    let s2 = insert_state(s, k, v, t1);
    assert(s2.entries[0] == EntryG { key: k, stamp: t1, value: v });
    assert(find_key(s2.entries, k) == 0);
    assert(!fresh_at(s2.entries[0], t2, s.ttl));
}

/// After a flush every lookup misses: a call with a previously cached key
/// recomputes, even though its arguments are unchanged.
pub proof fn lemma_flush_then_miss(s: CacheG, k: Seq<u64>, now: u64)
    ensures
        lookup_result(CacheG { entries: Seq::empty(), ..s }, k, now) == None::<u64>,
{
}

/// An entry known to sit at `i` is what a fresh lookup of its key returns.
pub proof fn lemma_lookup_at(s: CacheG, i: int, t: u64)
    requires
        keys_distinct(s.entries),
        0 <= i < s.entries.len(),
        fresh_at(s.entries[i], t, s.ttl),
    ensures
        lookup_result(s, s.entries[i].key, t) == Some(s.entries[i].value),
{
    let k = s.entries[i].key;
    lemma_find_key(s.entries, k);
    let f = find_key(s.entries, k);
    if f == -1 {
        assert(has_key(s.entries, k));
        assert(false);
    }
    if f != i {
        assert(s.entries[f].key == s.entries[i].key);
        assert(false);
    }
}

/// Bounded eviction: storing a new key while the bounded container is full
/// evicts exactly the least recently used entry — the last. The new key
/// stands in front, every other entry survives one position later, the
/// count stays at capacity, and a later lookup of the evicted key misses,
/// so it would be recomputed.
pub proof fn lemma_insert_evicts_lru(s: CacheG, k: Seq<u64>, v: u64, now: u64, t: u64)
    requires
        wf(s),
        s.capacity matches Some(c) && s.entries.len() == c,
        !has_key(s.entries, k),
    ensures
        ({
            let s2 = insert_state(s, k, v, now);
            &&& s2.entries.len() == s.entries.len()
            &&& s2.entries[0] == EntryG { key: k, stamp: now, value: v }
            &&& forall|i: int| 0 <= i < s.entries.len() - 1 ==> s2.entries[i + 1] == s.entries[i]
            &&& !has_key(s2.entries, s.entries.last().key)
            &&& lookup_result(s2, s.entries.last().key, t) == None::<u64>
        }),
{
    let es = s.entries;
    let lk = es.last().key;
    lemma_find_key(es, k);
    let s2 = insert_state(s, k, v, now);
    assert(es[es.len() - 1].key == lk);
    assert(k != lk);
    assert forall|i: int| 0 <= i < s2.entries.len() implies s2.entries[i].key != lk by {
        if i == 0 {
        } else {
            assert(s2.entries[i] == es[i - 1]);
        }
    }
    lemma_find_key_absent(s2.entries, lk);
}

/// For the unbounded container without a time-to-live, a cached entry is
/// stable: whatever one later invocation does — a hit on any key, or a miss
/// that stores a new one — the entry survives with its value, and a lookup
/// of its key still returns that value. Iterated over a call sequence, this
/// is idempotence of caching: between flushes, a pure function's value is
/// computed at most once per key.
pub proof fn lemma_entry_stable_unbounded(
    s: CacheG,
    k: Seq<u64>,
    v: u64,
    k2: Seq<u64>,
    t2: u64,
    c2: u64,
    t: u64,
    t3: u64,
)
    requires
        wf(s),
        s.capacity is None,
        s.ttl is None,
        lookup_result(s, k, t) == Some(v),
    ensures
        wf(call_state(s, k2, t2, c2)),
        lookup_result(call_state(s, k2, t2, c2), k, t3) == Some(v),
{
    let es = s.entries;
    lemma_find_key(es, k);
    let i = find_key(es, k);
    assert(i >= 0 && es[i].key == k && es[i].value == v);
    lemma_find_key(es, k2);
    let j = find_key(es, k2);
    lemma_lookup_wf(s, k2, t2);
    lemma_insert_wf(lookup_state(s, k2, t2), k2, c2, t2);
    let s2 = call_state(s, k2, t2, c2);
    match lookup_result(s, k2, t2) {
        Some(_) => {
            assert(j >= 0);
            lemma_promote(es, j);
            let ni: int = if i == j {
                0
            } else if i < j {
                i + 1
            } else {
                i
            };
            assert(s2.entries[ni] == es[i]);
            lemma_lookup_at(s2, ni, t3);
        },
        None => {
            // without a time-to-live a present key is always fresh, so a
            // miss means the key is absent and the lookup changed nothing
            assert(j == -1);
            assert(lookup_state(s, k2, t2) == s);
            assert(s2.entries =~= seq![EntryG { key: k2, stamp: t2, value: c2 }] + es);
            assert(s2.entries[i + 1] == es[i]);
            lemma_lookup_at(s2, i + 1, t3);
        },
    }
}

/// A sequence of wrapper invocations, each a key with its time and the
/// value its computation would produce, applied in order.
pub open spec fn run_calls(s: CacheG, calls: Seq<(Seq<u64>, u64, u64)>) -> CacheG
    decreases calls.len(),
{
    if calls.len() == 0 {
        s
    } else {
        run_calls(call_state(s, calls[0].0, calls[0].1, calls[0].2), calls.drop_first())
    }
}

/// Idempotence of caching, in full: for the unbounded container without a
/// time-to-live, once a key's value is cached, any sequence of further
/// invocations — on this key or others — leaves it cached, and a call with
/// that key afterwards returns it as a hit with nothing recomputed. So
/// between flushes a pure function is computed at most once per key.
pub proof fn lemma_at_most_once_unbounded(
    s: CacheG,
    k: Seq<u64>,
    v: u64,
    calls: Seq<(Seq<u64>, u64, u64)>,
    t: u64,
    t3: u64,
    c3: u64,
)
    requires
        wf(s),
        s.capacity is None,
        s.ttl is None,
        lookup_result(s, k, t) == Some(v),
    ensures
        wf(run_calls(s, calls)),
        lookup_result(run_calls(s, calls), k, t3) == Some(v),
        call_result(run_calls(s, calls), k, t3, c3) == (v, false),
    decreases calls.len(),
{
    if calls.len() == 0 {
        // without a time-to-live a lookup result does not depend on the time
        lemma_find_key(s.entries, k);
    } else {
        lemma_entry_stable_unbounded(s, k, v, calls[0].0, calls[0].1, calls[0].2, t, t3);
        lemma_at_most_once_unbounded(
            call_state(s, calls[0].0, calls[0].1, calls[0].2),
            k,
            v,
            calls.drop_first(),
            t3,
            t3,
            c3,
        );
    }
}

/// Calling the wrapper twice with equal arguments computes at most once:
/// without a time-to-live, whatever the first invocation did, the second
/// one with the same key is a hit that returns the first one's result and
/// runs no computation — under any capacity, since the first invocation
/// left the key most recently used.
pub proof fn lemma_call_twice(s: CacheG, k: Seq<u64>, t1: u64, c1: u64, t2: u64, c2: u64)
    requires
        wf(s),
        s.ttl is None,
    ensures
        ({
            let first = call_result(s, k, t1, c1);
            call_result(call_state(s, k, t1, c1), k, t2, c2) == (first.0, false)
        }),
{
    let es = s.entries;
    lemma_find_key(es, k);
    let i = find_key(es, k);
    let s1 = call_state(s, k, t1, c1);
    match lookup_result(s, k, t1) {
        Some(v) => {
            lemma_promote(es, i);
            assert(s1.entries[0] == es[i]);
            assert(find_key(s1.entries, k) == 0);
        },
        None => {
            assert(i == -1);
            assert(lookup_state(s, k, t1) == s);
            assert(s1.entries[0] == EntryG { key: k, stamp: t1, value: c1 });
            assert(find_key(s1.entries, k) == 0);
        },
    }
}

} // verus!
