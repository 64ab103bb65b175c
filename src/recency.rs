//! Recency tracking for the object caches, kept by the `lru` crate.
use vstd::prelude::*;

use lru::LruCache;
use std::collections::hash_map::RandomState;
use std::num::NonZeroUsize;

verus! {

/// `lru::LruCache`, held opaque: what it holds is read only through the names below.
#[verifier::external_type_specification]
#[verifier::external_body]
#[verifier::reject_recursive_types(K)]
#[verifier::reject_recursive_types(V)]
#[verifier::reject_recursive_types(S)]
pub struct ExLruCache<K, V, S>(LruCache<K, V, S>);

/// The keys held by a recency list, least recently used first.
pub uninterp spec fn lru_order(c: LruCache<u64, (), RandomState>) -> Seq<u64>;

/// The capacity a recency list was made with.
pub uninterp spec fn lru_capacity(c: LruCache<u64, (), RandomState>) -> nat;

/// Relies on `LruCache::with_hasher`: an empty cache holding at most `cap` keys.
#[verifier::external_body]
pub(crate) fn lru_new(cap: usize) -> (r: LruCache<u64, (), RandomState>)
    requires
        cap > 0,
    ensures
        lru_order(r) == Seq::<u64>::empty(),
        lru_capacity(r) == cap,
{
    LruCache::with_hasher(NonZeroUsize::new(cap).unwrap(), RandomState::new())
}

/// Relies on `LruCache::promote`: a present key becomes the most recently used,
/// an absent key changes nothing.
#[verifier::external_body]
pub(crate) fn lru_promote(c: &mut LruCache<u64, (), RandomState>, k: u64)
    ensures
        lru_capacity(*final(c)) == lru_capacity(*old(c)),
        lru_order(*old(c)).contains(k) ==> lru_order(*final(c)) == lru_order(*old(c)).remove(
            lru_order(*old(c)).index_of(k),
        ).push(k),
        !lru_order(*old(c)).contains(k) ==> lru_order(*final(c)) == lru_order(*old(c)),
{
    c.promote(&k)
}

/// Relies on `LruCache::push`: a present key is refreshed and handed back; an absent
/// key is added as the most recently used, and when the cache is full the least
/// recently used key leaves and is handed back.
#[verifier::external_body]
pub(crate) fn lru_push(c: &mut LruCache<u64, (), RandomState>, k: u64) -> (r: Option<u64>)
    ensures
        lru_capacity(*final(c)) == lru_capacity(*old(c)),
        lru_order(*old(c)).contains(k) ==> r == Some(k) && lru_order(*final(c)) == lru_order(
            *old(c),
        ).remove(lru_order(*old(c)).index_of(k)).push(k),
        !lru_order(*old(c)).contains(k) && lru_order(*old(c)).len() < lru_capacity(*old(c))
            ==> r == Option::<u64>::None && lru_order(*final(c)) == lru_order(*old(c)).push(k),
        !lru_order(*old(c)).contains(k) && lru_order(*old(c)).len() == lru_capacity(*old(c))
            && lru_order(*old(c)).len() > 0 ==> r == Some(lru_order(*old(c))[0]) && lru_order(
            *final(c),
        ) == lru_order(*old(c)).drop_first().push(k),
{
    c.push(k, ()).map(|(key, _)| key)
}

/// Relies on `LruCache::pop_lru`: removes and hands back the least recently used key.
#[verifier::external_body]
pub(crate) fn lru_pop_lru(c: &mut LruCache<u64, (), RandomState>) -> (r: Option<u64>)
    ensures
        lru_capacity(*final(c)) == lru_capacity(*old(c)),
        lru_order(*old(c)).len() > 0 ==> r == Some(lru_order(*old(c))[0]) && lru_order(*final(c))
            == lru_order(*old(c)).drop_first(),
        lru_order(*old(c)).len() == 0 ==> r == Option::<u64>::None && lru_order(*final(c))
            == lru_order(*old(c)),
{
    c.pop_lru().map(|(key, _)| key)
}

} // verus!
