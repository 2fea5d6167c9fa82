//! The sharded cache: independently locked `MemLru` segments and a
//! deterministic key-to-segment hash.
//!
//! Each segment sits behind a verified reader-writer lock whose invariant
//! is the segment's well-formedness together with its configured budgets,
//! so every lock acquisition hands back a well-formed segment and every
//! release proves the budgets still hold. Keys in different segments never
//! contend for the same lock; keys in the same segment serialize. `clear`
//! locks each segment in turn rather than the whole cache at once: writers
//! may slip into an already-cleared segment while a later one is still
//! being cleared, an accepted trade of atomicity for throughput.

use vstd::prelude::*;
use vstd::rwlock::RwLock;
use vstd::string::StringSliceAdditionalSpecFns;
use vstd::utf8::encode_utf8;
use vstd::arithmetic::div_mod::lemma_fundamental_div_mod;
use crate::bytesized::ByteSized;
use crate::mem_lru::{has_key, key_index, promote, remove_key, spec_size_of, MemLru};
use crate::value::Value;

verus! {

/// FNV-1a 64-bit offset basis.
pub const FNV_OFFSET: u64 = 0xcbf29ce484222325;

/// FNV-1a 64-bit prime.
pub const FNV_PRIME: u64 = 0x100000001b3;

pub open spec fn spec_fnv1a_rec(bytes: Seq<u8>, acc: u64) -> u64
    decreases bytes.len(),
{
    if bytes.len() == 0 {
        acc
    } else {
        spec_fnv1a_rec(bytes.drop_first(), (acc ^ (bytes[0] as u64)).wrapping_mul(FNV_PRIME))
    }
}

/// The hash of a key: FNV-1a over its UTF-8 bytes. A pure function of the
/// key, so it is the same across calls, processes and machines.
pub open spec fn spec_hash(key: Seq<char>) -> u64 {
    spec_fnv1a_rec(encode_utf8(key), FNV_OFFSET)
}

/// The segment a key lives in: a pure function of the key and the segment
/// count alone, so distinct cache instances with the same count agree.
pub open spec fn spec_segment_of(key: Seq<char>, n: int) -> int
    recommends
        n > 0,
{
    spec_hash(key) as int % n
}

/// Sharding-determinism law: the segment a key maps to depends on the key
/// and the segment count alone, so two caches built with the same segment
/// count assign every key to the same index.
pub proof fn lemma_sharding_deterministic(c1: &Cache, c2: &Cache, key: Seq<char>)
    requires
        c1.wf(),
        c2.wf(),
        c1.spec_num_segments() == c2.spec_num_segments(),
    ensures
        spec_segment_of(key, c1.spec_num_segments() as int) == spec_segment_of(
            key,
            c2.spec_num_segments() as int,
        ),
{
}

/// The entry-count cap of the first segment: its integer share of the
/// global cap plus the remainder. A zero share, like a missing cap, means
/// that segment's count is unbounded.
pub open spec fn spec_first_len_share(max_len: Option<usize>, n: int) -> int
    recommends
        n > 0,
{
    match max_len {
        Some(l) => {
            let f = l as int / n + l as int % n;
            if f == 0 {
                usize::MAX as int
            } else {
                f
            }
        },
        None => usize::MAX as int,
    }
}

/// The entry-count cap of every segment after the first: its integer share
/// of the global cap, unbounded where that share is zero or no cap was
/// given.
pub open spec fn spec_rest_len_share(max_len: Option<usize>, n: int) -> int
    recommends
        n > 0,
{
    match max_len {
        Some(l) => if l as int / n == 0 {
            usize::MAX as int
        } else {
            l as int / n
        },
        None => usize::MAX as int,
    }
}

/// The lock invariant of one segment: well-formed, with the budgets it was
/// constructed with.
pub open spec fn seg_pred(max_bytesize: usize, max_len: usize) -> spec_fn(MemLru<Value>) -> bool {
    |m: MemLru<Value>| m.wf() && m.spec_max_bytesize() == max_bytesize && m.spec_max_len()
        == max_len
}

proof fn lemma_div_mod_sum_le(x: int, n: int)
    requires
        n >= 1,
        x >= 0,
    ensures
        x / n + x % n <= x,
{
    lemma_fundamental_div_mod(x, n);
    let q = x / n;
    let r = x % n;
    assert(q + r <= x) by (nonlinear_arith)
        requires
            x == n * q + r,
            0 <= r < n,
            x >= 0,
            n >= 1,
    ;
}

/// Hash a key to its FNV-1a 64-bit value.
fn hash_key(key: &str) -> (r: u64)
    ensures
        r == spec_hash(key@),
{
    let bytes = key.as_bytes();
    let ghost all = bytes@;
    proof {
        assert(all =~= all.subrange(0, all.len() as int));
        assert(all == encode_utf8(key@));
    }
    let mut acc: u64 = FNV_OFFSET;
    let mut i: usize = 0;
    while i < bytes.len()
        invariant
            i <= all.len(),
            bytes@ == all,
            all == encode_utf8(key@),
            spec_fnv1a_rec(all.subrange(i as int, all.len() as int), acc) == spec_hash(key@),
        decreases all.len() - i,
    {
        let b = bytes[i];
        proof {
            let tail = all.subrange(i as int, all.len() as int);
            assert(tail[0] == all[i as int]);
            assert(tail.drop_first() =~= all.subrange(i + 1, all.len() as int));
        }
        acc = (acc ^ (b as u64)).wrapping_mul(FNV_PRIME);
        i = i + 1;
    }
    proof {
        assert(all.subrange(all.len() as int, all.len() as int) =~= Seq::<u8>::empty());
    }
    acc
}

/// Configuration of a cache: how many segments to split the keyspace into,
/// and the overall byte and entry-count budgets to partition across them.
#[derive(Debug, Clone, Copy, PartialEq, Eq, Structural)]
pub struct CacheCfg {
    pub segments: usize,
    pub max_len: Option<usize>,
    pub max_bytesize: usize,
}

type Segment = RwLock<MemLru<Value>, spec_fn(MemLru<Value>) -> bool>;

/// The concurrency-safe, byte-budgeted, sharded key-value cache.
pub struct Cache {
    segments: Vec<Segment>,
    budgets: Ghost<Seq<(usize, usize)>>,
}

impl Cache {
    pub closed spec fn spec_num_segments(&self) -> nat {
        self.segments@.len()
    }

    /// The `(max_bytesize, max_len)` budgets of each segment.
    pub closed spec fn spec_budgets(&self) -> Seq<(usize, usize)> {
        self.budgets@
    }

    pub closed spec fn wf(&self) -> bool {
        &&& self.segments@.len() > 0
        &&& self.budgets@.len() == self.segments@.len()
        &&& forall|i: int|
            0 <= i < self.segments@.len() ==> (#[trigger] self.segments@[i]).pred() == seg_pred(
                self.budgets@[i].0,
                self.budgets@[i].1,
            )
    }

    /// Partition one global budget across `cfg.segments` segments, as
    /// evenly as integer division allows: the first segment absorbs the
    /// remainder. An entry-count share of zero means that segment's count
    /// is unbounded, as does a missing `max_len`.
    pub fn from_cfg(cfg: CacheCfg) -> (r: Cache)
        requires
            cfg.segments > 0,
        ensures
            r.wf(),
            r.spec_num_segments() == cfg.segments,
            r.spec_budgets().len() == cfg.segments,
            r.spec_budgets()[0].0 == cfg.max_bytesize / cfg.segments + cfg.max_bytesize
                % cfg.segments,
            forall|i: int|
                0 < i < cfg.segments ==> (#[trigger] r.spec_budgets()[i]).0 == cfg.max_bytesize
                    / cfg.segments,
            r.spec_budgets()[0].1 as int == spec_first_len_share(cfg.max_len, cfg.segments as int),
            forall|i: int|
                0 < i < cfg.segments ==> (#[trigger] r.spec_budgets()[i]).1 as int
                    == spec_rest_len_share(cfg.max_len, cfg.segments as int),
    {
        let n = cfg.segments;
        let base = cfg.max_bytesize / n;
        proof {
            lemma_div_mod_sum_le(cfg.max_bytesize as int, n as int);
        }
        let first_bytes = base + cfg.max_bytesize % n;
        let (first_len, rest_len): (usize, usize) = match cfg.max_len {
            Some(l) => {
                proof {
                    lemma_div_mod_sum_le(l as int, n as int);
                }
                let f = l / n + l % n;
                (if f == 0 { usize::MAX } else { f }, if l / n == 0 { usize::MAX } else { l / n })
            },
            None => (usize::MAX, usize::MAX),
        };
        proof {
            assert(first_len as int == spec_first_len_share(cfg.max_len, n as int));
            assert(rest_len as int == spec_rest_len_share(cfg.max_len, n as int));
        }
        let mut segments: Vec<Segment> = Vec::new();
        let ghost mut budgets: Seq<(usize, usize)> = Seq::empty();
        let first = MemLru::<Value>::with_max_bytesize_and_max_len(first_bytes, first_len);
        segments.push(RwLock::new(first, Ghost(seg_pred(first_bytes, first_len))));
        proof {
            budgets = budgets.push((first_bytes, first_len));
        }
        let mut i: usize = 1;
        while i < n
            invariant
                1 <= i <= n,
                rest_len >= 1,
                segments@.len() == i,
                budgets.len() == i,
                budgets[0] == (first_bytes, first_len),
                forall|j: int| 0 < j < i ==> (#[trigger] budgets[j]) == (base, rest_len),
                forall|j: int|
                    0 <= j < i ==> (#[trigger] segments@[j]).pred() == seg_pred(
                        budgets[j].0,
                        budgets[j].1,
                    ),
            decreases n - i,
        {
            let m = MemLru::<Value>::with_max_bytesize_and_max_len(base, rest_len);
            segments.push(RwLock::new(m, Ghost(seg_pred(base, rest_len))));
            proof {
                budgets = budgets.push((base, rest_len));
            }
            i = i + 1;
        }
        Cache { segments, budgets: Ghost(budgets) }
    }

    /// The number of segments the keyspace is split into.
    pub fn num_segments(&self) -> (r: usize)
        ensures
            r == self.spec_num_segments(),
    {
        self.segments.len()
    }

    /// The segment a key belongs to: the key's hash modulo the segment
    /// count. Deterministic in the key and the count alone, so repeated
    /// calls, and distinct caches built with the same segment count, agree.
    pub fn segment_of(&self, key: &str) -> (r: usize)
        requires
            self.wf(),
        ensures
            r as int == spec_segment_of(key@, self.spec_num_segments() as int),
            r < self.spec_num_segments(),
    {
        let h = hash_key(key);
        let n = self.segments.len();
        (h % (n as u64)) as usize
    }

    /// Store a value under a key, never expiring. The item is accepted
    /// exactly when its size fits its segment's byte budget; an oversized
    /// item is rejected rather than evicting the whole segment.
    pub fn set(&self, key: String, value: Vec<u8>) -> (r: bool)
        requires
            self.wf(),
        ensures
            r == (encode_utf8(key@).len() + value@.len() <= self.spec_budgets()[spec_segment_of(
                key@,
                self.spec_num_segments() as int,
            )].0),
    {
        let v = Value::new(value);
        self.store(key, v)
    }

    /// Store a value under a key with an expiration clock of `expiration`
    /// whole seconds, started now.
    pub fn set_with_expiration(&self, key: String, value: Vec<u8>, expiration: u32) -> (r: bool)
        requires
            self.wf(),
            expiration > 0,
        ensures
            r == (encode_utf8(key@).len() + value@.len() <= self.spec_budgets()[spec_segment_of(
                key@,
                self.spec_num_segments() as int,
            )].0),
    {
        let v = Value::with_expiration(value, expiration);
        self.store(key, v)
    }

    /// The shared insertion path: lock the owning segment, reject an
    /// oversized item, otherwise delegate to the segment.
    fn store(&self, key: String, v: Value) -> (r: bool)
        requires
            self.wf(),
        ensures
            r == (encode_utf8(key@).len() + v.spec_bytesize() <= self.spec_budgets()[
                spec_segment_of(key@, self.spec_num_segments() as int)].0),
    {
        let i = self.segment_of(key.as_str());
        let (mut m, handle) = self.segments[i].acquire_write();
        let kb = key.bytesize();
        let vb = v.bytesize();
        let maxb = m.max_bytesize();
        let fits = kb <= maxb && vb <= maxb - kb;
        if fits {
            proof {
                assert(spec_size_of(key@, v) <= m.spec_max_bytesize());
            }
            let _ = m.set(key, v);
        }
        handle.release_write(m);
        fits
    }

    /// Look a key up and hand back a copy of its bytes. The segment's lock
    /// is held for the whole lookup, expiry check and possible removal, so
    /// two readers cannot race to double-evict; what the lookup returns and
    /// changes is fixed by `get_live`'s contract.
    pub fn get(&self, key: &str) -> (r: Option<Vec<u8>>)
        requires
            self.wf(),
    {
        let i = self.segment_of(key);
        let (mut m, handle) = self.segments[i].acquire_write();
        let r = Self::get_live(&mut m, key);
        handle.release_write(m);
        r
    }

    /// Remove a key and hand back its bytes, unless the entry had already
    /// expired: an expired entry is still purged but reported absent. What
    /// the removal returns and changes is fixed by `remove_live`'s
    /// contract.
    pub fn remove(&self, key: &str) -> (r: Option<Vec<u8>>)
        requires
            self.wf(),
    {
        let i = self.segment_of(key);
        let (mut m, handle) = self.segments[i].acquire_write();
        let r = Self::remove_live(&mut m, key);
        handle.release_write(m);
        r
    }

    /// The per-segment read path of `get`, under the owning segment's
    /// lock: a present entry the clock has not expired is promoted to most
    /// recently used and a copy of its bytes handed back; a present entry
    /// the clock deems expired is purged — its bytes reclaimed — and
    /// reported absent; an absent key changes nothing. There is no
    /// background sweep: this lazy purge is the only way expired entries
    /// leave through reads.
    fn get_live(m: &mut MemLru<Value>, key: &str) -> (r: Option<Vec<u8>>)
        requires
            old(m).wf(),
        ensures
            final(m).wf(),
            final(m).spec_max_bytesize() == old(m).spec_max_bytesize(),
            final(m).spec_max_len() == old(m).spec_max_len(),
            !has_key(old(m).entries(), key@) ==> r is None && final(m).entries() == old(
                m,
            ).entries() && final(m).spec_bytesize() == old(m).spec_bytesize(),
            has_key(old(m).entries(), key@) ==> ({
                let ki = key_index(old(m).entries(), key@);
                let entry = old(m).entries()[ki].1;
                (r matches Some(b) && b@ == entry.spec_bytes() && final(m).entries() == promote(
                    old(m).entries(),
                    ki,
                ) && final(m).spec_bytesize() == old(m).spec_bytesize()) || (r is None
                    && entry.spec_expiration() is Some && final(m).entries() == remove_key(
                    old(m).entries(),
                    key@,
                ) && final(m).spec_bytesize() as int == old(m).spec_bytesize() - spec_size_of(
                    old(m).entries()[ki].0,
                    entry,
                ))
            }),
    {
        let ghost entries0 = old(m).entries();
        let ghost ki = key_index(entries0, key@);
        proof {
            m.lemma_entries_distinct();
        }
        let mut expired_hit = false;
        let r = match m.get(key) {
            None => None,
            Some(v) => {
                if v.expired() {
                    expired_hit = true;
                    None
                } else {
                    Some(v.duplicate().into_vec())
                }
            },
        };
        if expired_hit {
            // the hit was promoted to the most recently used end; removing
            // the key now takes exactly that entry back out
            let ghost entries1 = m.entries();
            proof {
                m.lemma_entries_distinct();
                assert(entries1 == promote(entries0, ki));
                assert(entries1[entries1.len() - 1] == entries0[ki]);
                let ki1 = key_index(entries1, key@);
                assert(0 <= ki1 < entries1.len() && entries1[ki1].0 == key@);
                assert(ki1 == entries1.len() - 1);
                assert(entries1.remove(entries1.len() - 1) =~= entries0.remove(ki));
            }
            let _ = m.remove(key);
            proof {
                assert(m.entries() == remove_key(entries0, key@));
            }
        }
        r
    }

    /// The per-segment path of `remove`, under the owning segment's lock:
    /// the keyed entry leaves and its bytes are reclaimed either way, but
    /// one the clock deems expired is reported absent rather than handed
    /// back; an absent key changes nothing.
    fn remove_live(m: &mut MemLru<Value>, key: &str) -> (r: Option<Vec<u8>>)
        requires
            old(m).wf(),
        ensures
            final(m).wf(),
            final(m).spec_max_bytesize() == old(m).spec_max_bytesize(),
            final(m).spec_max_len() == old(m).spec_max_len(),
            final(m).entries() == remove_key(old(m).entries(), key@),
            !has_key(old(m).entries(), key@) ==> r is None && final(m).spec_bytesize() == old(
                m,
            ).spec_bytesize(),
            has_key(old(m).entries(), key@) ==> ({
                let ki = key_index(old(m).entries(), key@);
                let entry = old(m).entries()[ki].1;
                final(m).spec_bytesize() as int == old(m).spec_bytesize() - spec_size_of(
                    old(m).entries()[ki].0,
                    entry,
                ) && ((r matches Some(b) && b@ == entry.spec_bytes()) || (r is None
                    && entry.spec_expiration() is Some))
            }),
    {
        match m.remove(key) {
            None => None,
            Some(v) => {
                if v.expired() {
                    None
                } else {
                    Some(v.into_vec())
                }
            },
        }
    }

    /// Clear every segment, locking each one in turn.
    pub fn clear(&self)
        requires
            self.wf(),
    {
        let mut i: usize = 0;
        while i < self.segments.len()
            invariant
                self.wf(),
                i <= self.spec_num_segments(),
            decreases self.spec_num_segments() - i,
        {
            let (mut m, handle) = self.segments[i].acquire_write();
            m.clear();
            handle.release_write(m);
            i = i + 1;
        }
    }
}

} // verus!
