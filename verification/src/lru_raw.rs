//! The trusted boundary around `lru::LruCache`, which supplies the
//! recency-ordered map under the byte-budgeted container.
//!
//! The cache is modelled by `rec_seq`, its entries in recency order: index
//! 0 is the least recently used entry and the last index the most recently
//! used. Each wrapper states over that sequence what the crate's source
//! shows of the method it calls. The container stores only slot indices
//! here; the values themselves live in a vector the container owns.

use vstd::prelude::*;
use crate::mem_lru::{distinct_keys, has_key, promote};

verus! {

#[verifier::external_type_specification]
#[verifier::external_body]
#[verifier::reject_recursive_types(K)]
#[verifier::reject_recursive_types(V)]
#[verifier::reject_recursive_types(S)]
pub struct ExLruCache<K, V, S>(lru::LruCache<K, V, S>);

/// The entries of the recency map, least recently used first.
pub uninterp spec fn rec_seq(c: lru::LruCache<String, usize>) -> Seq<(Seq<char>, usize)>;

/// The capacity the recency map was constructed with.
pub uninterp spec fn rec_cap(c: lru::LruCache<String, usize>) -> usize;

/// Relies on `lru::LruCache::unbounded`: a fresh cache with no entries and
/// capacity `usize::MAX`, which therefore never evicts on its own.
#[verifier::external_body]
pub(crate) fn lru_new() -> (r: lru::LruCache<String, usize>)
    ensures
        rec_seq(r) == Seq::<(Seq<char>, usize)>::empty(),
        rec_cap(r) == usize::MAX,
{
    lru::LruCache::unbounded()
}

/// Relies on `lru::LruCache::len`: the number of entries held.
#[verifier::external_body]
pub(crate) fn lru_len(c: &lru::LruCache<String, usize>) -> (r: usize)
    ensures
        r == rec_seq(*c).len(),
{
    c.len()
}

/// Relies on `lru::LruCache::put`: with the key absent and the cache under
/// its capacity, the pair is inserted as the most recently used entry and
/// nothing is evicted.
#[verifier::external_body]
pub(crate) fn lru_put(c: &mut lru::LruCache<String, usize>, key: String, idx: usize)
    requires
        !has_key(rec_seq(*old(c)), key@),
        rec_seq(*old(c)).len() < rec_cap(*old(c)),
    ensures
        rec_seq(*final(c)) == rec_seq(*old(c)).push((key@, idx)),
        rec_cap(*final(c)) == rec_cap(*old(c)),
{
    let _ = c.put(key, idx);
}

/// Relies on `lru::LruCache::get`: a hit is promoted to most recently used
/// and its value returned; a miss changes nothing.
#[verifier::external_body]
pub(crate) fn lru_get(c: &mut lru::LruCache<String, usize>, key: &str) -> (r: Option<usize>)
    ensures
        rec_cap(*final(c)) == rec_cap(*old(c)),
        !has_key(rec_seq(*old(c)), key@) ==> r is None && rec_seq(*final(c)) == rec_seq(*old(c)),
        forall|i: int|
            0 <= i < rec_seq(*old(c)).len() && rec_seq(*old(c))[i].0 == key@ ==> r == Some(
                (#[trigger] rec_seq(*old(c))[i]).1,
            ) && rec_seq(*final(c)) == promote(rec_seq(*old(c)), i),
{
    c.get(key).copied()
}

/// Relies on `lru::LruCache::pop_entry`: the entry carrying the key is
/// removed and returned; the others keep their relative recency order.
#[verifier::external_body]
pub(crate) fn lru_pop_entry(c: &mut lru::LruCache<String, usize>, key: &str) -> (r: Option<
    (String, usize),
>)
    ensures
        rec_cap(*final(c)) == rec_cap(*old(c)),
        !has_key(rec_seq(*old(c)), key@) ==> r is None && rec_seq(*final(c)) == rec_seq(*old(c)),
        forall|i: int|
            0 <= i < rec_seq(*old(c)).len() && rec_seq(*old(c))[i].0 == key@ ==> r is Some
                && r.unwrap().0@ == (#[trigger] rec_seq(*old(c))[i]).0 && r.unwrap().1 == rec_seq(
                *old(c),
            )[i].1 && rec_seq(*final(c)) == rec_seq(*old(c)).remove(i),
{
    c.pop_entry(key)
}

/// Relies on `lru::LruCache::pop_lru`: the least recently used entry is
/// removed and returned; on an empty cache nothing happens.
#[verifier::external_body]
pub(crate) fn lru_pop_lru(c: &mut lru::LruCache<String, usize>) -> (r: Option<(String, usize)>)
    ensures
        rec_cap(*final(c)) == rec_cap(*old(c)),
        rec_seq(*old(c)).len() == 0 ==> r is None && rec_seq(*final(c)) == rec_seq(*old(c)),
        rec_seq(*old(c)).len() > 0 ==> r is Some && r.unwrap().0@ == rec_seq(*old(c))[0].0
            && r.unwrap().1 == rec_seq(*old(c))[0].1 && rec_seq(*final(c)) == rec_seq(
            *old(c),
        ).subrange(1, rec_seq(*old(c)).len() as int),
{
    c.pop_lru()
}

/// Relies on `lru::LruCache::clear`: every entry is dropped.
#[verifier::external_body]
pub(crate) fn lru_clear(c: &mut lru::LruCache<String, usize>)
    ensures
        rec_seq(*final(c)) == Seq::<(Seq<char>, usize)>::empty(),
        rec_cap(*final(c)) == rec_cap(*old(c)),
{
    c.clear()
}

} // verus!
