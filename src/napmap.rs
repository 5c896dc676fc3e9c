use vstd::prelude::*;
use vstd::laws_eq::obeys_concrete_eq;
use vstd::std_specs::cmp::PartialEqSpec;

verus! {

/// Index of the entry with key `k`, or -1 where there is none.
pub open spec fn index_of<K, V>(e: Seq<(K, V)>, k: K) -> int
    decreases e.len(),
{
    if e.len() == 0 {
        -1
    } else if e.last().0 == k {
        e.len() - 1
    } else {
        index_of(e.drop_last(), k)
    }
}

/// Index of the earliest entry whose key is not `k`, or -1 where there is none.
pub open spec fn first_other<K, V>(e: Seq<(K, V)>, k: K) -> int
    decreases e.len(),
{
    if e.len() == 0 {
        -1
    } else if e[0].0 != k {
        0
    } else {
        let j = first_other(e.subrange(1, e.len() as int), k);
        if j < 0 {
            -1
        } else {
            j + 1
        }
    }
}

/// The value stored under `k`.
pub open spec fn lookup<K, V>(e: Seq<(K, V)>, k: K) -> Option<V> {
    let i = index_of(e, k);
    if i >= 0 {
        Some(e[i].1)
    } else {
        None
    }
}

/// No key occurs twice.
pub open spec fn keys_unique<K, V>(e: Seq<(K, V)>) -> bool {
    forall|i: int, j: int| 0 <= i < j < e.len() ==> e[i].0 != e[j].0
}

/// The entries after making room for `k` in a map of capacity `bound`: when
/// it is full, the earliest entry whose key is not `k` leaves.
pub open spec fn evict<K, V>(e: Seq<(K, V)>, k: K, bound: nat) -> Seq<(K, V)> {
    if e.len() >= bound && first_other(e, k) >= 0 {
        e.remove(first_other(e, k))
    } else {
        e
    }
}

/// The entries after storing `v` under `k`: in place where `k` is present,
/// at the end otherwise.
pub open spec fn put<K, V>(e: Seq<(K, V)>, k: K, v: V) -> Seq<(K, V)> {
    let i = index_of(e, k);
    if i >= 0 {
        e.update(i, (k, v))
    } else {
        e.push((k, v))
    }
}

/// The entries after one insertion into a map of capacity `bound`.
pub open spec fn inserted<K, V>(e: Seq<(K, V)>, k: K, v: V, bound: nat) -> Seq<(K, V)> {
    put(evict(e, k, bound), k, v)
}

/// The entries after a run of insertions, in order.
pub open spec fn inserted_all<K, V>(e: Seq<(K, V)>, ops: Seq<(K, V)>, bound: nat) -> Seq<(K, V)>
    decreases ops.len(),
{
    if ops.len() == 0 {
        e
    } else {
        inserted(inserted_all(e, ops.drop_last(), bound), ops.last().0, ops.last().1, bound)
    }
}

proof fn lemma_index_of<K, V>(e: Seq<(K, V)>, k: K)
    ensures
        -1 <= index_of(e, k) < e.len(),
        index_of(e, k) >= 0 ==> e[index_of(e, k)].0 == k,
        index_of(e, k) < 0 ==> forall|j: int| 0 <= j < e.len() ==> e[j].0 != k,
    decreases e.len(),
{
    if e.len() > 0 && e.last().0 != k {
        lemma_index_of(e.drop_last(), k);
        if index_of(e, k) < 0 {
            assert forall|j: int| 0 <= j < e.len() implies e[j].0 != k by {
                if j < e.len() - 1 {
                    assert(e.drop_last()[j] == e[j]);
                }
            }
        }
    }
}

proof fn lemma_index_of_unique<K, V>(e: Seq<(K, V)>, k: K, i: int)
    requires
        keys_unique(e),
        0 <= i < e.len(),
        e[i].0 == k,
    ensures
        index_of(e, k) == i,
{
    lemma_index_of(e, k);
}

proof fn lemma_first_other<K, V>(e: Seq<(K, V)>, k: K)
    ensures
        -1 <= first_other(e, k) < e.len(),
        first_other(e, k) >= 0 ==> e[first_other(e, k)].0 != k,
        first_other(e, k) < 0 ==> forall|j: int| 0 <= j < e.len() ==> e[j].0 == k,
        keys_unique(e) && e.len() >= 2 ==> first_other(e, k) >= 0,
    decreases e.len(),
{
    if e.len() > 0 && e[0].0 == k {
        let tail = e.subrange(1, e.len() as int);
        lemma_first_other(tail, k);
        if first_other(tail, k) < 0 {
            assert forall|j: int| 0 <= j < e.len() implies e[j].0 == k by {
                if j > 0 {
                    assert(tail[j - 1] == e[j]);
                }
            }
        }
        if keys_unique(e) && e.len() >= 2 {
            assert(e[1].0 != e[0].0);
            assert(tail[0] == e[1]);
        }
    }
}

/// Capacity is never exceeded and keys stay unique: one insertion into a
/// map that holds at most `bound >= 1` entries, with unique keys, leaves it
/// so, and stores `v` under `k`.
pub proof fn lemma_inserted_within_bound<K, V>(e: Seq<(K, V)>, k: K, v: V, bound: nat)
    requires
        bound >= 1,
        e.len() <= bound,
        keys_unique(e),
    ensures
        inserted(e, k, v, bound).len() <= bound,
        keys_unique(inserted(e, k, v, bound)),
        lookup(inserted(e, k, v, bound), k) == Some(v),
{
    let d = evict(e, k, bound);
    lemma_first_other(e, k);
    if e.len() >= bound && first_other(e, k) >= 0 {
        assert(keys_unique(d)) by {
            assert forall|i: int, j: int| 0 <= i < j < d.len() implies d[i].0 != d[j].0 by {
                let f = first_other(e, k);
                let ii = if i < f { i } else { i + 1 };
                let jj = if j < f { j } else { j + 1 };
                assert(d[i] == e[ii]);
                assert(d[j] == e[jj]);
            }
        }
    }
    assert(d.len() <= bound);
    // when the map is full and `k` is absent, an entry has left
    if d.len() == bound {
        assert(e.len() == bound);
        assert(first_other(e, k) < 0);
        assert(e[0].0 == k);
    }
    lemma_index_of(d, k);
    let r = put(d, k, v);
    let i = index_of(d, k);
    if i >= 0 {
        assert(keys_unique(r)) by {
            assert forall|a: int, b: int| 0 <= a < b < r.len() implies r[a].0 != r[b].0 by {
                assert(r[a].0 == d[a].0);
                assert(r[b].0 == d[b].0);
            }
        }
        lemma_index_of_unique(r, k, i);
    } else {
        assert(keys_unique(r)) by {
            assert forall|a: int, b: int| 0 <= a < b < r.len() implies r[a].0 != r[b].0 by {
                if b == d.len() {
                    assert(r[a] == d[a]);
                } else {
                    assert(r[a] == d[a]);
                    assert(r[b] == d[b]);
                }
            }
        }
        lemma_index_of_unique(r, k, d.len() as int);
    }
}

/// A stored value is never replaced by insertions under other keys: after
/// `insert(k, v)` and any run of insertions none of which is under `k`,
/// looking up `k` gives `v`, unless `k` was evicted to make room.
pub proof fn lemma_value_kept<K, V>(e: Seq<(K, V)>, k: K, v: V, ops: Seq<(K, V)>, bound: nat)
    requires
        bound >= 1,
        e.len() <= bound,
        keys_unique(e),
        forall|i: int| 0 <= i < ops.len() ==> ops[i].0 != k,
    ensures
        lookup(inserted(e, k, v, bound), k) == Some(v),
        lookup(inserted_all(inserted(e, k, v, bound), ops, bound), k) is Some ==> lookup(
            inserted_all(inserted(e, k, v, bound), ops, bound),
            k,
        ) == Some(v),
    decreases ops.len(),
{
    lemma_inserted_within_bound(e, k, v, bound);
    if ops.len() > 0 {
        let rest = ops.drop_last();
        lemma_value_kept(e, k, v, rest, bound);
        lemma_inserted_all_wf(inserted(e, k, v, bound), rest, bound);
        let m = inserted_all(inserted(e, k, v, bound), rest, bound);
        let (k2, v2) = ops.last();
        lemma_lookup_other(m, k, k2, v2, bound);
    }
}

proof fn lemma_inserted_all_wf<K, V>(e: Seq<(K, V)>, ops: Seq<(K, V)>, bound: nat)
    requires
        bound >= 1,
        e.len() <= bound,
        keys_unique(e),
    ensures
        inserted_all(e, ops, bound).len() <= bound,
        keys_unique(inserted_all(e, ops, bound)),
    decreases ops.len(),
{
    if ops.len() > 0 {
        lemma_inserted_all_wf(e, ops.drop_last(), bound);
        lemma_inserted_within_bound(
            inserted_all(e, ops.drop_last(), bound),
            ops.last().0,
            ops.last().1,
            bound,
        );
    }
}

proof fn lemma_lookup_other<K, V>(e: Seq<(K, V)>, k: K, k2: K, v2: V, bound: nat)
    requires
        bound >= 1,
        e.len() <= bound,
        keys_unique(e),
        k2 != k,
    ensures
        lookup(inserted(e, k2, v2, bound), k) is Some ==> lookup(inserted(e, k2, v2, bound), k)
            == lookup(e, k),
{
    lemma_inserted_within_bound(e, k2, v2, bound);
    let d = evict(e, k2, bound);
    let r = put(d, k2, v2);
    lemma_index_of(r, k);
    if index_of(r, k) >= 0 {
        let i = index_of(r, k);
        lemma_index_of(d, k2);
        // the entry of `k` in `r` comes from `d`, and that of `d` from `e`
        assert(r[i] == d[i]);
        lemma_first_other(e, k2);
        let ei = if e.len() >= bound && first_other(e, k2) >= 0 && i >= first_other(e, k2) {
            i + 1
        } else {
            i
        };
        assert(d[i] == e[ei]);
        lemma_index_of_unique(e, k, ei);
    }
}

/// The waiters among `ws` that wait on `k`, in order of registration.
pub open spec fn waiting_on<K, W>(ws: Seq<(K, W)>, k: K) -> Seq<W>
    decreases ws.len(),
{
    if ws.len() == 0 {
        Seq::empty()
    } else if ws.last().0 == k {
        waiting_on(ws.drop_last(), k).push(ws.last().1)
    } else {
        waiting_on(ws.drop_last(), k)
    }
}

/// The waiters among `ws` that wait on another key than `k`.
pub open spec fn waiting_elsewhere<K, W>(ws: Seq<(K, W)>, k: K) -> Seq<(K, W)>
    decreases ws.len(),
{
    if ws.len() == 0 {
        ws
    } else if ws.last().0 == k {
        waiting_elsewhere(ws.drop_last(), k)
    } else {
        waiting_elsewhere(ws.drop_last(), k).push(ws.last())
    }
}

/// The lookups that wait for a key to be inserted, each with the means to
/// wake it.
pub struct WaitList<K, W> {
    waiters: Vec<(K, W)>,
}

impl<K: PartialEq, W> WaitList<K, W> {
    /// The waiters, in order of registration.
    pub closed spec fn waiters(&self) -> Seq<(K, W)> {
        self.waiters@
    }

    /// No one waits.
    pub fn new() -> (r: WaitList<K, W>)
        ensures
            r.waiters() == Seq::<(K, W)>::empty(),
    {
        WaitList { waiters: Vec::new() }
    }

    /// Registers `waker` as waiting on `key`.
    pub fn register(&mut self, key: K, waker: W)
        ensures
            final(self).waiters() == old(self).waiters().push((key, waker)),
    {
        self.waiters.push((key, waker));
    }

    /// Hands out every waiter on `key`, in order of registration, and keeps
    /// the others.
    pub fn release(&mut self, key: &K) -> (r: Vec<W>)
        requires
            obeys_concrete_eq::<K>(),
        ensures
            r@ == waiting_on(old(self).waiters(), *key),
            final(self).waiters() == waiting_elsewhere(old(self).waiters(), *key),
    {
        proof {
            reveal(obeys_concrete_eq);
        }
        let ghost ws = self.waiters@;
        let mut pending: Vec<(K, W)> = Vec::new();
        let mut woken: Vec<W> = Vec::new();
        // taken from the back, so both lists are built in reverse
        while self.waiters.len() > 0
            invariant
                K::obeys_eq_spec(),
                forall|x: K, y: K| x.eq_spec(&y) <==> (x == y),
                self.waiters@.len() <= ws.len(),
                self.waiters@ == ws.subrange(0, self.waiters@.len() as int),
                waiting_on(ws, *key) == waiting_on(self.waiters@, *key) + woken@.reverse(),
                waiting_elsewhere(ws, *key) == waiting_elsewhere(self.waiters@, *key)
                    + pending@.reverse(),
            decreases self.waiters@.len(),
        {
            let ghost before = self.waiters@;
            let (k, w) = self.waiters.pop().unwrap();
            assert(before.drop_last() == self.waiters@);
            if k == *key {
                let ghost wv = w;
                woken.push(w);
                proof {
                    assert(woken@.reverse() =~= seq![wv] + woken@.drop_last().reverse());
                    assert(waiting_on(before, *key) == waiting_on(self.waiters@, *key).push(wv));
                    assert(waiting_on(self.waiters@, *key).push(wv) + woken@.drop_last().reverse()
                        =~= waiting_on(self.waiters@, *key) + woken@.reverse());
                }
            } else {
                let ghost e = (k, w);
                pending.push((k, w));
                proof {
                    assert(pending@.reverse() =~= seq![e] + pending@.drop_last().reverse());
                    assert(waiting_elsewhere(before, *key) == waiting_elsewhere(self.waiters@, *key).push(e));
                    assert(waiting_elsewhere(self.waiters@, *key).push(e) + pending@.drop_last().reverse()
                        =~= waiting_elsewhere(self.waiters@, *key) + pending@.reverse());
                }
            }
        }
        assert(waiting_on(ws, *key) =~= woken@.reverse());
        assert(waiting_elsewhere(ws, *key) =~= pending@.reverse());
        let mut out: Vec<W> = Vec::new();
        while woken.len() > 0
            invariant
                out@ + woken@.reverse() == waiting_on(ws, *key),
            decreases woken@.len(),
        {
            let ghost before = woken@;
            let w = woken.pop().unwrap();
            proof {
                assert(before.reverse() =~= seq![w] + woken@.reverse());
            }
            out.push(w);
            assert(out@ + woken@.reverse() =~= out@.drop_last() + before.reverse());
        }
        assert(woken@.reverse() =~= Seq::<W>::empty());
        assert(out@ =~= waiting_on(ws, *key));
        while pending.len() > 0
            invariant
                self.waiters@ + pending@.reverse() == waiting_elsewhere(ws, *key),
            decreases pending@.len(),
        {
            let ghost before = pending@;
            let e = pending.pop().unwrap();
            proof {
                assert(before.reverse() =~= seq![e] + pending@.reverse());
            }
            self.waiters.push(e);
            assert(self.waiters@ + pending@.reverse() =~= self.waiters@.drop_last() + before.reverse());
        }
        assert(pending@.reverse() =~= Seq::<(K, W)>::empty());
        assert(self.waiters@ =~= waiting_elsewhere(ws, *key));
        out
    }

    /// Number of waiting lookups.
    pub fn len(&self) -> (r: usize)
        ensures
            r == self.waiters().len(),
    {
        self.waiters.len()
    }
}

/// No waiter is woken twice, and no other waiter is lost: `release(k)`
/// hands out exactly the waiters on `k` and keeps the rest, so a second
/// `release(k)` finds no one, while a lookup that waits on another key stays.
pub proof fn lemma_release_partitions<K, W>(ws: Seq<(K, W)>, k: K)
    ensures
        waiting_on(waiting_elsewhere(ws, k), k) == Seq::<W>::empty(),
        waiting_on(ws, k).len() + waiting_elsewhere(ws, k).len() == ws.len(),
        forall|k2: K| k2 != k ==> #[trigger] waiting_on(waiting_elsewhere(ws, k), k2) == waiting_on(ws, k2),
    decreases ws.len(),
{
    if ws.len() > 0 {
        lemma_release_partitions(ws.drop_last(), k);
        let rest = waiting_elsewhere(ws.drop_last(), k);
        if ws.last().0 != k {
            assert(waiting_elsewhere(ws, k).drop_last() == rest);
            assert(waiting_elsewhere(ws, k).last() == ws.last());
        }
        assert forall|k2: K| k2 != k implies #[trigger] waiting_on(waiting_elsewhere(ws, k), k2)
            == waiting_on(ws, k2) by {
            assert(waiting_on(rest, k2) == waiting_on(ws.drop_last(), k2));
        }
    }
}

/// Every lookup that began before an insertion observes the inserted value:
/// after `insert(k, v)` the map holds `v` under `k`, and releasing the
/// waiters of `k` wakes each lookup that was waiting on it, and no other.
pub proof fn lemma_waiters_observe<K, V, W>(e: Seq<(K, V)>, ws: Seq<(K, W)>, k: K, v: V, bound: nat)
    requires
        bound >= 1,
        e.len() <= bound,
        keys_unique(e),
    ensures
        lookup(inserted(e, k, v, bound), k) == Some(v),
        forall|i: int| 0 <= i < ws.len() && ws[i].0 == k ==> waiting_on(ws, k).contains(ws[i].1),
        waiting_on(waiting_elsewhere(ws, k), k) == Seq::<W>::empty(),
{
    lemma_inserted_within_bound(e, k, v, bound);
    lemma_release_partitions(ws, k);
    lemma_waiting_on_contains(ws, k);
}

proof fn lemma_waiting_on_contains<K, W>(ws: Seq<(K, W)>, k: K)
    ensures
        forall|i: int| 0 <= i < ws.len() && ws[i].0 == k ==> waiting_on(ws, k).contains(ws[i].1),
    decreases ws.len(),
{
    if ws.len() > 0 {
        let rest = ws.drop_last();
        lemma_waiting_on_contains(rest, k);
        assert forall|i: int| 0 <= i < ws.len() && ws[i].0 == k implies waiting_on(ws, k).contains(
            ws[i].1,
        ) by {
            if i == ws.len() - 1 {
                assert(waiting_on(ws, k).last() == ws[i].1);
            } else {
                assert(rest[i] == ws[i]);
                assert(waiting_on(rest, k).contains(ws[i].1));
                let j = choose|j: int| 0 <= j < waiting_on(rest, k).len() && waiting_on(rest, k)[j] == ws[i].1;
                if ws.last().0 == k {
                    assert(waiting_on(ws, k)[j] == ws[i].1);
                }
            }
        }
    }
}

/// Bounded map whose entries keep their order of insertion; the map under
/// the awaitable lookups of the transaction correlator.
pub struct NapMap<K, V> {
    entries: Vec<(K, V)>,
    bound: usize,
}

impl<K: PartialEq, V> NapMap<K, V> {
    /// The entries, earliest first.
    pub closed spec fn entries(&self) -> Seq<(K, V)> {
        self.entries@
    }

    /// The capacity the map was made with.
    pub closed spec fn bound(&self) -> nat {
        self.bound as nat
    }

    /// Capacity of at least one, never exceeded, and unique keys.
    pub open spec fn wf(&self) -> bool {
        &&& self.bound() >= 1
        &&& self.entries().len() <= self.bound()
        &&& keys_unique(self.entries())
    }

    /// An empty map of capacity `buffer`.
    pub fn new(buffer: usize) -> (r: NapMap<K, V>)
        requires
            buffer > 0,
        ensures
            r.wf(),
            r.bound() == buffer,
            r.entries() == Seq::<(K, V)>::empty(),
    {
        NapMap { entries: Vec::new(), bound: buffer }
    }

    /// Index of `key`, or `entries.len()` where it is absent.
    fn find(&self, key: &K) -> (r: usize)
        requires
            obeys_concrete_eq::<K>(),
            self.wf(),
        ensures
            r <= self.entries().len(),
            r < self.entries().len() ==> index_of(self.entries(), *key) == r,
            r == self.entries().len() ==> index_of(self.entries(), *key) == -1,
    {
        proof {
            reveal(obeys_concrete_eq);
        }
        let mut i: usize = 0;
        while i < self.entries.len()
            invariant
                obeys_concrete_eq::<K>(),
                K::obeys_eq_spec(),
                forall|x: K, y: K| x.eq_spec(&y) <==> (x == y),
                self.wf(),
                i <= self.entries@.len(),
                forall|j: int| 0 <= j < i ==> self.entries@[j].0 != *key,
            decreases self.entries@.len() - i,
        {
            if self.entries[i].0 == *key {
                proof {
                    lemma_index_of_unique(self.entries@, *key, i as int);
                }
                return i;
            }
            i = i + 1;
        }
        proof {
            lemma_index_of(self.entries@, *key);
        }
        i
    }

    /// Stores `value` under `key`. When the map is full, the earliest entry
    /// whose key is not `key` leaves first.
    pub fn insert(&mut self, key: K, value: V)
        requires
            old(self).wf(),
            obeys_concrete_eq::<K>(),
        ensures
            final(self).wf(),
            final(self).bound() == old(self).bound(),
            final(self).entries() == inserted(old(self).entries(), key, value, old(self).bound()),
    {
        proof {
            reveal(obeys_concrete_eq);
            lemma_first_other(self.entries@, key);
            lemma_inserted_within_bound(self.entries@, key, value, self.bound as nat);
        }
        if self.entries.len() >= self.bound {
            let ghost e = self.entries@;
            // the earliest entry, or the next one where the earliest is `key`
            let first_is_key = self.entries[0].0 == key;
            if !first_is_key {
                assert(first_other(e, key) == 0);
                self.entries.remove(0);
            } else if self.entries.len() > 1 {
                assert(first_other(e.subrange(1, e.len() as int), key) == 0) by {
                    assert(e.subrange(1, e.len() as int)[0] == e[1]);
                    assert(e[1].0 != e[0].0);
                }
                self.entries.remove(1);
            }
            assert(self.entries@ == evict(e, key, self.bound as nat));
        }
        let i = self.find(&key);
        if i < self.entries.len() {
            self.entries.set(i, (key, value));
        } else {
            self.entries.push((key, value));
        }
    }

    /// The value stored under `key`, where there is one.
    pub fn get(&self, key: &K) -> (r: Option<&V>)
        requires
            self.wf(),
            obeys_concrete_eq::<K>(),
        ensures
            match r {
                Some(v) => lookup(self.entries(), *key) == Some(*v),
                None => lookup(self.entries(), *key) is None,
            },
    {
        let i = self.find(key);
        if i < self.entries.len() {
            Some(&self.entries[i].1)
        } else {
            None
        }
    }

    /// Number of keys resident.
    pub fn len(&self) -> (r: usize)
        ensures
            r == self.entries().len(),
    {
        self.entries.len()
    }

    /// Whether no key is resident.
    pub fn is_empty(&self) -> (r: bool)
        ensures
            r == (self.entries().len() == 0),
    {
        self.entries.len() == 0
    }
}

} // verus!
