//! Fixed-capacity caches that share one driver object among structurally
//! equal descriptors, evicting the least recently used entry on overflow.
use vstd::prelude::*;

use lru::LruCache;
use std::collections::hash_map::RandomState;
use std::sync::Arc;

use crate::recency::{lru_capacity, lru_new, lru_order, lru_pop_lru, lru_promote, lru_push};

verus! {

/// A descriptor that is compared field by field, through its view.
pub trait CacheKey: View + Sized {
    fn same_key(&self, other: &Self) -> (r: bool)
        ensures
            r == (self@ == other@),
    ;
}

/// Whether some entry of `s` is stored under `k`.
pub open spec fn has_key<K, V>(s: Seq<(K, V)>, k: K) -> bool {
    exists|j: int| 0 <= j < s.len() && s[j].0 == k
}

/// The position of the entry stored under `k`.
pub open spec fn key_index<K, V>(s: Seq<(K, V)>, k: K) -> int {
    choose|j: int| 0 <= j < s.len() && s[j].0 == k
}

/// No two entries of `s` are stored under equal keys.
pub open spec fn distinct_keys<K, V>(s: Seq<(K, V)>) -> bool {
    forall|i: int, j: int| 0 <= i < s.len() && 0 <= j < s.len() && i != j ==> s[i].0 != s[j].0
}

/// One lookup of `k` in a cache of capacity `cap` whose entries, least recently used
/// first, go from `pre` to `post` and which hands back `r`. A hit hands back the
/// stored value and makes its entry the most recently used; a miss stores `r` as the
/// most recently used entry, first evicting the least recently used one when full.
pub open spec fn cache_step<K, V>(pre: Seq<(K, V)>, cap: nat, k: K, post: Seq<(K, V)>, r: V) -> bool {
    if has_key(pre, k) {
        let j = key_index(pre, k);
        r == pre[j].1 && post == pre.remove(j).push(pre[j])
    } else if pre.len() >= cap {
        post == pre.drop_first().push((k, r))
    } else {
        post == pre.push((k, r))
    }
}

/// A cache of shared objects keyed by descriptors.
pub struct ResourceCache<K, T> {
    slots: Vec<(K, Arc<T>)>,
    recency: LruCache<u64, (), RandomState>,
    capacity: usize,
}

impl<K: CacheKey, T> ResourceCache<K, T> {
    /// The entries, least recently used first.
    pub closed spec fn entries(&self) -> Seq<(K::V, Arc<T>)> {
        lru_order(self.recency).map_values(
            |s: u64| (self.slots@[s as int].0@, self.slots@[s as int].1),
        )
    }

    pub closed spec fn spec_capacity(&self) -> nat {
        self.capacity as nat
    }

    pub closed spec fn wf(&self) -> bool {
        let order = lru_order(self.recency);
        &&& self.capacity > 0
        &&& lru_capacity(self.recency) == self.capacity
        &&& self.slots.len() <= self.capacity
        &&& order.len() == self.slots.len()
        &&& order.no_duplicates()
        &&& forall|i: int| 0 <= i < order.len() ==> order[i] < self.slots.len()
        &&& forall|s: int| 0 <= s < self.slots.len() ==> order.contains(#[trigger] (s as u64))
        &&& forall|i: int, j: int|
            0 <= i < self.slots.len() && 0 <= j < self.slots.len() && i != j
                ==> self.slots@[i].0@ != self.slots@[j].0@
    }

    /// The entries of a well-formed cache fit its capacity and have distinct keys.
    pub proof fn lemma_entries_valid(&self)
        requires
            self.wf(),
        ensures
            self.spec_capacity() > 0,
            self.entries().len() <= self.spec_capacity(),
            distinct_keys(self.entries()),
    {
        let order = lru_order(self.recency);
        let e = self.entries();
        assert forall|a: int, b: int|
            0 <= a < e.len() && 0 <= b < e.len() && a != b implies e[a].0 != e[b].0 by {
            assert(order[a] != order[b]);
        }
    }

    /// An empty cache holding at most `capacity` objects.
    pub fn new(capacity: usize) -> (r: Self)
        requires
            capacity > 0,
        ensures
            r.wf(),
            r.entries() == Seq::<(K::V, Arc<T>)>::empty(),
            r.spec_capacity() == capacity,
    {
        let r = ResourceCache { slots: Vec::new(), recency: lru_new(capacity), capacity };
        assert(r.entries() =~= Seq::<(K::V, Arc<T>)>::empty());
        r
    }

    pub fn capacity(&self) -> (r: usize)
        ensures
            r == self.spec_capacity(),
    {
        self.capacity
    }

    pub fn len(&self) -> (r: usize)
        requires
            self.wf(),
        ensures
            r == self.entries().len(),
    {
        self.slots.len()
    }

    /// The object stored under `key`, or one made by `create` and stored; see
    /// [`cache_step`].
    pub fn get_or_create<F: FnOnce() -> T>(&mut self, key: K, create: F) -> (r: Arc<T>)
        requires
            old(self).wf(),
            create.requires(()),
        ensures
            final(self).wf(),
            final(self).spec_capacity() == old(self).spec_capacity(),
            cache_step(old(self).entries(), old(self).spec_capacity(), key@, final(self).entries(), r),
            !has_key(old(self).entries(), key@) ==> create.ensures((), *r),
    {
        let ghost pre = self.entries();
        let ghost order = lru_order(self.recency);
        let ghost cap = self.capacity;
        let n = self.slots.len();
        let mut i: usize = 0;
        while i < n
            invariant
                self.wf(),
                n == self.slots.len(),
                0 <= i <= n,
                forall|s: int| 0 <= s < i ==> self.slots@[s].0@ != key@,
                pre == self.entries(),
                order == lru_order(self.recency),
                cap == self.capacity,
                cap == old(self).capacity,
                pre == old(self).entries(),
            decreases n - i,
        {
            if self.slots[i].0.same_key(&key) {
                let ghost p = order.index_of(i as u64);
                proof {
                    assert(order.contains(i as u64));
                    assert(pre[p].0 == key@);
                    assert forall|j: int| 0 <= j < pre.len() && pre[j].0 == key@ implies j == p by {
                        if j != p {
                            assert(order[j] != order[p]);
                        }
                    }
                    assert(has_key(pre, key@));
                    assert(key_index(pre, key@) == p);
                    lemma_move_to_back(order, p, n as nat);
                }
                lru_promote(&mut self.recency, i as u64);
                let r = self.slots[i].1.clone();
                proof {
                    assert(r == pre[p].1);
                    assert(self.entries() =~= pre.remove(p).push(pre[p]));
                }
                return r;
            }
            i = i + 1;
        }
        proof {
            assert forall|j: int| 0 <= j < pre.len() implies pre[j].0 != key@ by {
                assert(order[j] < n);
            }
        }
        let value = Arc::new(create());
        if n < self.capacity {
            let pushed = lru_push(&mut self.recency, n as u64);
            self.slots.push((key, value.clone()));
            proof {
                assert(!order.contains(n as u64));
                assert(self.entries() =~= pre.push((key@, value)));
                assert forall|s: int| 0 <= s < self.slots.len() implies lru_order(
                    self.recency,
                ).contains(#[trigger] (s as u64)) by {
                    if s < n {
                        let w = order.index_of(s as u64);
                        assert(order.contains(s as u64));
                        assert(lru_order(self.recency)[w] == s as u64);
                    } else {
                        assert(lru_order(self.recency)[n as int] == s as u64);
                    }
                }
                assert(lru_order(self.recency).no_duplicates());
            }
            value
        } else {
            let evicted = lru_pop_lru(&mut self.recency);
            let s = evicted.unwrap() as usize;
            let pushed = lru_push(&mut self.recency, s as u64);
            self.slots.set(s, (key, value.clone()));
            proof {
                assert(order.drop_first().len() < self.capacity);
                assert(!order.drop_first().contains(s as u64));
                assert(order.drop_first() =~= order.remove(0));
                lemma_move_to_back(order, 0, n as nat);
                assert(self.entries() =~= pre.drop_first().push((key@, value)));
            }
            value
        }
    }
}

/// Moving one element of a permutation of `0..n` to the back keeps it a permutation.
proof fn lemma_move_to_back(order: Seq<u64>, p: int, n: nat)
    requires
        0 <= p < order.len(),
        order.len() == n,
        order.no_duplicates(),
        forall|i: int| 0 <= i < order.len() ==> order[i] < n,
        forall|s: int| 0 <= s < n ==> order.contains(#[trigger] (s as u64)),
    ensures
        ({
            let moved = order.remove(p).push(order[p]);
            &&& moved.len() == n
            &&& moved.no_duplicates()
            &&& forall|i: int| 0 <= i < moved.len() ==> moved[i] < n
            &&& forall|s: int| 0 <= s < n ==> moved.contains(#[trigger] (s as u64))
        }),
{
    let moved = order.remove(p).push(order[p]);
    let src = |i: int| if i == n - 1 { p } else if i < p { i } else { i + 1 };
    assert forall|i: int| 0 <= i < n implies moved[i] == order[src(i)] by {}
    assert forall|i: int, j: int| 0 <= i < n && 0 <= j < n && i != j implies moved[i] != moved[j] by {
        assert(src(i) != src(j));
    }
    assert forall|s: int| 0 <= s < n implies moved.contains(#[trigger] (s as u64)) by {
        assert(order.contains(s as u64));
        let w = order.index_of(s as u64);
        if w == p {
            assert(moved[n - 1] == s as u64);
        } else if w < p {
            assert(moved[w] == s as u64);
        } else {
            assert(moved[w - 1] == s as u64);
        }
    }
}

/// A lookup ends with the entry it looked up as the most recently used one, and keeps
/// keys distinct and within the capacity.
pub proof fn lemma_step_shape<K, V>(pre: Seq<(K, V)>, cap: nat, k: K, post: Seq<(K, V)>, r: V)
    requires
        cap > 0,
        pre.len() <= cap,
        distinct_keys(pre),
        cache_step(pre, cap, k, post, r),
    ensures
        post.len() > 0,
        post.last() == (k, r),
        post.len() <= cap,
        distinct_keys(post),
{
    if has_key(pre, k) {
        let j = key_index(pre, k);
        let moved = pre.remove(j).push(pre[j]);
        let src = |i: int| if i == pre.len() - 1 { j } else if i < j { i } else { i + 1 };
        assert forall|a: int, b: int|
            0 <= a < post.len() && 0 <= b < post.len() && a != b implies post[a].0 != post[b].0 by {
            assert(post[a] == pre[src(a)]);
            assert(post[b] == pre[src(b)]);
        }
    } else if pre.len() >= cap {
        assert forall|a: int, b: int|
            0 <= a < post.len() && 0 <= b < post.len() && a != b implies post[a].0 != post[b].0 by {
            if a < post.len() - 1 && b < post.len() - 1 {
                assert(post[a] == pre[a + 1]);
                assert(post[b] == pre[b + 1]);
            } else if a < post.len() - 1 {
                assert(post[a] == pre[a + 1]);
            } else {
                assert(post[b] == pre[b + 1]);
            }
        }
    } else {
        assert forall|a: int, b: int|
            0 <= a < post.len() && 0 <= b < post.len() && a != b implies post[a].0 != post[b].0 by {
            if a < pre.len() && b < pre.len() {
            } else if a < pre.len() {
                assert(post[a] == pre[a]);
            } else {
                assert(post[b] == pre[b]);
            }
        }
    }
}

/// Looking up two structurally equal descriptors one after the other hands back the
/// same object both times.
pub proof fn lemma_equal_keys_share_object<K, V>(
    c0: Seq<(K, V)>,
    cap: nat,
    k1: K,
    c1: Seq<(K, V)>,
    r1: V,
    k2: K,
    c2: Seq<(K, V)>,
    r2: V,
)
    requires
        cap > 0,
        c0.len() <= cap,
        distinct_keys(c0),
        cache_step(c0, cap, k1, c1, r1),
        cache_step(c1, cap, k2, c2, r2),
        k1 == k2,
    ensures
        r2 == r1,
        has_key(c1, k2),
{
    lemma_step_shape(c0, cap, k1, c1, r1);
    let last = c1.len() - 1;
    assert(c1[last].0 == k2);
    assert(has_key(c1, k2));
    let j = key_index(c1, k2);
    assert(j == last);
}

/// The entries after each of the first `i` lookups of pairwise distinct keys on an
/// empty cache that never fills: every key stays, in the order looked up.
proof fn lemma_fill<K, V>(cap: nat, keys: Seq<K>, states: Seq<Seq<(K, V)>>, results: Seq<V>, i: nat)
    requires
        i <= cap,
        keys.len() > cap,
        keys.no_duplicates(),
        states.len() > cap,
        results.len() > cap,
        states[0] == Seq::<(K, V)>::empty(),
        forall|t: int| 0 <= t < cap ==> cache_step(
            #[trigger] states[t],
            cap,
            keys[t],
            states[t + 1],
            results[t],
        ),
    ensures
        states[i as int].len() == i,
        forall|t: int| 0 <= t < i ==> #[trigger] states[i as int][t] == (keys[t], results[t]),
    decreases i,
{
    if i > 0 {
        let p = (i - 1) as nat;
        lemma_fill(cap, keys, states, results, p);
        let pre = states[p as int];
        assert(cache_step(pre, cap, keys[p as int], states[i as int], results[p as int]));
        assert(!has_key(pre, keys[p as int])) by {
            if has_key(pre, keys[p as int]) {
                let w = key_index(pre, keys[p as int]);
                assert(pre[w] == (keys[w], results[w]));
            }
        }
    }
}

/// On an empty cache of capacity `cap`, looking up `cap + 1` pairwise distinct keys in
/// order evicts the first one, the least recently used, and keeps the others in the
/// order they were looked up.
pub proof fn lemma_overflow_evicts_least_recent<K, V>(
    cap: nat,
    keys: Seq<K>,
    states: Seq<Seq<(K, V)>>,
    results: Seq<V>,
)
    requires
        cap > 0,
        keys.len() == cap + 1,
        keys.no_duplicates(),
        states.len() == cap + 2,
        results.len() == cap + 1,
        states[0] == Seq::<(K, V)>::empty(),
        forall|t: int| 0 <= t <= cap ==> cache_step(
            #[trigger] states[t],
            cap,
            keys[t],
            states[t + 1],
            results[t],
        ),
    ensures
        states[cap as int + 1].len() == cap,
        forall|t: int| 0 <= t < cap ==> #[trigger] states[cap as int + 1][t] == (keys[t + 1], results[t + 1]),
        !has_key(states[cap as int + 1], keys[0]),
{
    lemma_fill(cap, keys, states, results, cap);
    let full = states[cap as int];
    assert(cache_step(full, cap, keys[cap as int], states[cap as int + 1], results[cap as int]));
    assert(!has_key(full, keys[cap as int])) by {
        if has_key(full, keys[cap as int]) {
            let w = key_index(full, keys[cap as int]);
            assert(full[w] == (keys[w], results[w]));
        }
    }
    let last = states[cap as int + 1];
    assert forall|t: int| 0 <= t < cap implies #[trigger] last[t] == (keys[t + 1], results[t + 1]) by {
        if t < cap - 1 {
            assert(last[t] == full[t + 1]);
        }
    }
    if has_key(last, keys[0]) {
        let w = key_index(last, keys[0]);
        assert(last[w] == (keys[w + 1], results[w + 1]));
    }
}

/// The object stored under `k`.
pub open spec fn stored<K, V>(s: Seq<(K, V)>, k: K) -> V {
    s[key_index(s, k)].1
}

/// A lookup keeps the object stored under any key that is cached before and after it,
/// and leaves the looked-up key cached with the object it hands back.
pub proof fn lemma_step_keeps_stored<K, V>(
    pre: Seq<(K, V)>,
    cap: nat,
    k: K,
    post: Seq<(K, V)>,
    r: V,
    other: K,
)
    requires
        cap > 0,
        pre.len() <= cap,
        distinct_keys(pre),
        cache_step(pre, cap, k, post, r),
    ensures
        has_key(post, k),
        stored(post, k) == r,
        has_key(pre, other) && has_key(post, other) ==> stored(post, other) == stored(pre, other),
{
    lemma_step_shape(pre, cap, k, post, r);
    let last = post.len() - 1;
    assert(post[last].0 == k);
    assert(has_key(post, k));
    let w = key_index(post, k);
    if w != last {
        assert(post[w].0 != post[last].0);
    }
    if has_key(pre, other) && has_key(post, other) {
        let i = key_index(pre, other);
        let q = key_index(post, other);
        // The position of `pre[i]` in `post`.
        let moved: int = if has_key(pre, k) {
            let j = key_index(pre, k);
            if i == j {
                last
            } else if i < j {
                i
            } else {
                i - 1
            }
        } else if pre.len() >= cap {
            i - 1
        } else {
            i
        };
        if !has_key(pre, k) && pre.len() >= cap && i == 0 {
            // `other` was evicted, so it could only be cached again as `k`, which it is not.
            if q == last {
                assert(post[last].0 == k);
                assert(pre[key_index(pre, other)].0 == other);
            } else {
                assert(post[q] == pre[q + 1]);
                assert(pre[q + 1].0 != pre[0].0);
            }
        } else {
            assert(post[moved] == pre[i]);
            if q != moved {
                assert(post[q].0 != post[moved].0);
            }
        }
    }
}

/// Two lookups of structurally equal descriptors hand back the same object, whatever
/// is looked up in between, as long as the key stays cached: `keys[0]` and `keys[n]`
/// are equal and the key is cached in every state from the first lookup to the last.
pub proof fn lemma_cached_key_keeps_object<K, V>(
    cap: nat,
    keys: Seq<K>,
    states: Seq<Seq<(K, V)>>,
    results: Seq<V>,
)
    requires
        cap > 0,
        keys.len() >= 1,
        states.len() == keys.len() + 1,
        results.len() == keys.len(),
        states[0].len() <= cap,
        distinct_keys(states[0]),
        forall|t: int| 0 <= t < keys.len() ==> cache_step(
            #[trigger] states[t],
            cap,
            keys[t],
            states[t + 1],
            results[t],
        ),
        keys[keys.len() - 1] == keys[0],
        forall|t: int| 1 <= t < keys.len() ==> has_key(#[trigger] states[t], keys[0]),
    ensures
        results[keys.len() - 1] == results[0],
{
    lemma_kept_through(cap, keys, states, results, (keys.len() - 1) as nat);
    let n = keys.len() - 1;
    if n > 0 {
        assert(cache_step(states[n], cap, keys[n], states[n + 1], results[n]));
    }
}

proof fn lemma_kept_through<K, V>(cap: nat, keys: Seq<K>, states: Seq<Seq<(K, V)>>, results: Seq<V>, t: nat)
    requires
        cap > 0,
        keys.len() >= 1,
        t < keys.len(),
        states.len() == keys.len() + 1,
        results.len() == keys.len(),
        states[0].len() <= cap,
        distinct_keys(states[0]),
        forall|u: int| 0 <= u < keys.len() ==> cache_step(
            #[trigger] states[u],
            cap,
            keys[u],
            states[u + 1],
            results[u],
        ),
        forall|u: int| 1 <= u < keys.len() ==> has_key(#[trigger] states[u], keys[0]),
    ensures
        states[t as int].len() <= cap,
        distinct_keys(states[t as int]),
        t >= 1 ==> has_key(states[t as int], keys[0]) && stored(states[t as int], keys[0]) == results[0],
    decreases t,
{
    if t > 0 {
        let p = (t - 1) as nat;
        lemma_kept_through(cap, keys, states, results, p);
        assert(cache_step(states[p as int], cap, keys[p as int], states[t as int], results[p as int]));
        lemma_step_shape(states[p as int], cap, keys[p as int], states[t as int], results[p as int]);
        lemma_step_keeps_stored(states[p as int], cap, keys[p as int], states[t as int], results[p as int], keys[0]);
    }
}

} // verus!
