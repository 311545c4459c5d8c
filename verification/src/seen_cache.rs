//! The seen-gossip cache: bounded, least-recently-used duplicate filter.
//!
//! The cache itself comes from the `lru` crate; this module declares the
//! type to the verifier, names its contents, and wraps the calls the
//! behaviour makes. The key is the canonical byte form of a gossip message
//! (topics and data together), so duplicate suppression goes by content,
//! not by identity.

use vstd::prelude::*;

verus! {

#[verifier::external_type_specification]
#[verifier::external_body]
#[verifier::reject_recursive_types(K)]
#[verifier::reject_recursive_types(V)]
#[verifier::reject_recursive_types(S)]
pub struct ExLruCache<K, V, S>(lru::LruCache<K, V, S>);

/// The cache instantiated as the behaviour holds it: message bytes as the
/// key, the standard library's hasher.
pub type SeenCache = lru::LruCache<Vec<u8>, (), std::collections::hash_map::RandomState>;

/// The set of keys the cache currently holds.
pub uninterp spec fn lru_keys(cache: SeenCache) -> Set<Seq<u8>>;

/// The capacity the cache was made with.
pub uninterp spec fn lru_cap(cache: SeenCache) -> nat;

/// Relies on lru::LruCache::with_hasher: a fresh cache is empty and holds at most
/// `cap` entries ever after.
#[verifier::external_body]
pub(crate) fn lru_new(cap: usize) -> (r: SeenCache)
    requires
        cap >= 1,
    ensures
        lru_keys(r) == Set::<Seq<u8>>::empty(),
        lru_cap(r) == cap as nat,
{
    lru::LruCache::with_hasher(
        std::num::NonZeroUsize::new(cap).unwrap(),
        std::collections::hash_map::RandomState::new(),
    )
}

/// Relies on lru::LruCache::put: returns the old value exactly when the key
/// was already present (and then changes no key); a fresh key is inserted,
/// evicting the least-recently-used entry when the cache is full. Which
/// entry leaves is the crate's business: only its existence is stated.
#[verifier::external_body]
pub(crate) fn lru_put(cache: &mut SeenCache, key: Vec<u8>) -> (r: Option<()>)
    ensures
        lru_cap(*final(cache)) == lru_cap(*old(cache)),
        r is Some <==> lru_keys(*old(cache)).contains(key@),
        lru_keys(*final(cache)).contains(key@),
        lru_keys(*final(cache)).finite(),
        lru_keys(*final(cache)).len() <= lru_cap(*old(cache)),
        lru_keys(*old(cache)).contains(key@) ==> lru_keys(*final(cache)) == lru_keys(*old(cache)),
        !lru_keys(*old(cache)).contains(key@) && lru_keys(*old(cache)).finite() && lru_keys(
            *old(cache),
        ).len() < lru_cap(*old(cache)) ==> lru_keys(*final(cache)) == lru_keys(*old(cache)).insert(
            key@,
        ),
        !lru_keys(*old(cache)).contains(key@) ==> ((exists|evicted: Seq<u8>|
            lru_keys(*old(cache)).contains(evicted) && evicted != key@ && lru_keys(*final(cache))
                == lru_keys(*old(cache)).remove(evicted).insert(key@)) || lru_keys(*final(cache))
            == lru_keys(*old(cache)).insert(key@)),
{
    cache.put(key, ())
}

/// Relies on lru::LruCache::len: the number of keys currently held.
#[verifier::external_body]
pub(crate) fn lru_len(cache: &SeenCache) -> (r: usize)
    ensures
        r as nat == lru_keys(*cache).len(),
{
    cache.len()
}

} // verus!
