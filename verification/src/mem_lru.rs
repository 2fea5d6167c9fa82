//! `MemLru`: a single-threaded, byte-budgeted, least-recently-used map over
//! one partition of the keyspace.
//!
//! The recency order lives in an `lru::LruCache` that maps each key to a
//! slot index; the values and their accounted sizes live in a slot vector
//! owned here. The container maintains two invariants at all times: the
//! tracked byte total equals the sum of the sizes of the held entries, and
//! that total never exceeds the byte budget.

use vstd::prelude::*;
use vstd::utf8::encode_utf8;
use core::marker::PhantomData;
use crate::bytesized::ByteSized;
use crate::lru_raw::{lru_clear, lru_get, lru_len, lru_new, lru_pop_entry, lru_pop_lru, lru_put,
    rec_cap, rec_seq};

verus! {

/// No two entries carry the same key.
pub open spec fn distinct_keys<T>(s: Seq<(Seq<char>, T)>) -> bool {
    forall|i: int, j: int| 0 <= i < j < s.len() ==> s[i].0 != s[j].0
}

/// Some entry carries the key.
pub open spec fn has_key<T>(s: Seq<(Seq<char>, T)>, k: Seq<char>) -> bool {
    exists|i: int| 0 <= i < s.len() && s[i].0 == k
}

/// The position of the entry carrying the key; meaningful when the keys
/// are distinct and the key is present.
pub open spec fn key_index<T>(s: Seq<(Seq<char>, T)>, k: Seq<char>) -> int {
    choose|i: int| 0 <= i < s.len() && s[i].0 == k
}

/// The sequence with the entry at `i` moved to the most recently used end.
pub open spec fn promote<T>(s: Seq<T>, i: int) -> Seq<T>
    recommends
        0 <= i < s.len(),
{
    s.remove(i).push(s[i])
}

/// The byte cost attributed to one entry: the UTF-8 length of its key plus
/// the footprint of its value.
pub open spec fn spec_size_of<V: ByteSized>(key: Seq<char>, value: V) -> int {
    encode_utf8(key).len() as int + value.spec_bytesize() as int
}

/// Total byte cost of a sequence of entries.
pub open spec fn sum_sizes<V: ByteSized>(s: Seq<(Seq<char>, V)>) -> int
    decreases s.len(),
{
    if s.len() == 0 {
        0
    } else {
        spec_size_of(s[0].0, s[0].1) + sum_sizes(s.drop_first())
    }
}

/// The entries with the one carrying `k` removed; unchanged when no entry
/// carries it.
pub open spec fn remove_key<V>(s: Seq<(Seq<char>, V)>, k: Seq<char>) -> Seq<(Seq<char>, V)> {
    if has_key(s, k) {
        s.remove(key_index(s, k))
    } else {
        s
    }
}

/// Entries left after evicting least-recently-used entries until an item of
/// size `item_size` fits the byte budget and the count budget.
pub open spec fn spec_evict<V: ByteSized>(
    s: Seq<(Seq<char>, V)>,
    item_size: int,
    max_bytesize: int,
    max_len: int,
) -> Seq<(Seq<char>, V)>
    decreases s.len(),
{
    if s.len() == 0 {
        s
    } else if sum_sizes(s) + item_size > max_bytesize || s.len() + 1 > max_len {
        spec_evict(s.subrange(1, s.len() as int), item_size, max_bytesize, max_len)
    } else {
        s
    }
}

/// The entries after `set(k, v)`: any previous entry for `k` leaves first,
/// then least-recently-used entries leave until the new item fits, then the
/// new entry arrives as most recently used.
pub open spec fn spec_after_set<V: ByteSized>(
    s: Seq<(Seq<char>, V)>,
    k: Seq<char>,
    v: V,
    max_bytesize: int,
    max_len: int,
) -> Seq<(Seq<char>, V)> {
    spec_evict(remove_key(s, k), spec_size_of(k, v), max_bytesize, max_len).push((k, v))
}

/// Eviction-order law: making room only ever removes entries from the
/// least-recently-used end; what survives is a suffix of the recency
/// order, unchanged and in order.
pub proof fn lemma_evict_drops_lru_prefix<V: ByteSized>(
    s: Seq<(Seq<char>, V)>,
    item_size: int,
    max_bytesize: int,
    max_len: int,
)
    ensures
        exists|k: int|
            0 <= k <= s.len() && spec_evict(s, item_size, max_bytesize, max_len) == s.subrange(
                k,
                s.len() as int,
            ),
    decreases s.len(),
{
    if s.len() == 0 {
        assert(s.subrange(0, 0) =~= s);
        assert(spec_evict(s, item_size, max_bytesize, max_len) == s.subrange(0, s.len() as int));
    } else if sum_sizes(s) + item_size > max_bytesize || s.len() + 1 > max_len {
        let t = s.subrange(1, s.len() as int);
        lemma_evict_drops_lru_prefix(t, item_size, max_bytesize, max_len);
        let k = choose|k: int|
            0 <= k <= t.len() && spec_evict(t, item_size, max_bytesize, max_len) == t.subrange(
                k,
                t.len() as int,
            );
        assert(t.subrange(k, t.len() as int) =~= s.subrange(k + 1, s.len() as int));
        assert(spec_evict(s, item_size, max_bytesize, max_len) == s.subrange(
            k + 1,
            s.len() as int,
        ));
    } else {
        assert(s.subrange(0, s.len() as int) =~= s);
        assert(spec_evict(s, item_size, max_bytesize, max_len) == s.subrange(0, s.len() as int));
    }
}

proof fn lemma_sum_push<V: ByteSized>(s: Seq<(Seq<char>, V)>, e: (Seq<char>, V))
    ensures
        sum_sizes(s.push(e)) == sum_sizes(s) + spec_size_of(e.0, e.1),
    decreases s.len(),
{
    let p = s.push(e);
    assert(p.len() == s.len() + 1);
    assert(sum_sizes(p) == spec_size_of(p[0].0, p[0].1) + sum_sizes(p.drop_first()));
    if s.len() == 0 {
        assert(p.drop_first() =~= Seq::<(Seq<char>, V)>::empty());
        assert(sum_sizes(p.drop_first()) == 0);
        assert(p[0] == e);
        assert(sum_sizes(s) == 0);
    } else {
        assert(p.drop_first() =~= s.drop_first().push(e));
        lemma_sum_push(s.drop_first(), e);
        assert(p[0] == s[0]);
        assert(sum_sizes(s) == spec_size_of(s[0].0, s[0].1) + sum_sizes(s.drop_first()));
    }
}

proof fn lemma_sum_remove<V: ByteSized>(s: Seq<(Seq<char>, V)>, i: int)
    requires
        0 <= i < s.len(),
    ensures
        sum_sizes(s.remove(i)) == sum_sizes(s) - spec_size_of(s[i].0, s[i].1),
    decreases s.len(),
{
    if i == 0 {
        assert(s.remove(0) =~= s.drop_first());
    } else {
        assert(s.remove(i).drop_first() =~= s.drop_first().remove(i - 1));
        lemma_sum_remove(s.drop_first(), i - 1);
        assert(s.remove(i)[0] == s[0]);
    }
}

proof fn lemma_sum_nonneg<V: ByteSized>(s: Seq<(Seq<char>, V)>)
    ensures
        sum_sizes(s) >= 0,
    decreases s.len(),
{
    if s.len() > 0 {
        lemma_sum_nonneg(s.drop_first());
    }
}

proof fn lemma_sum_drop_first<V: ByteSized>(s: Seq<(Seq<char>, V)>)
    requires
        s.len() > 0,
    ensures
        sum_sizes(s.subrange(1, s.len() as int)) == sum_sizes(s) - spec_size_of(s[0].0, s[0].1),
{
    assert(s.subrange(1, s.len() as int) =~= s.drop_first());
}

/// One stored entry: the value and its accounted size.
struct Slot<V> {
    value: V,
    size: usize,
}

pub struct MemLru<V> {
    inner: lru::LruCache<String, usize>,
    slots: Vec<Option<Slot<V>>>,
    free: Vec<usize>,
    bytesize: usize,
    max_bytesize: usize,
    max_len: usize,
}

impl<V: ByteSized> MemLru<V> {
    /// The held entries in recency order: least recently used first.
    pub closed spec fn entries(&self) -> Seq<(Seq<char>, V)> {
        rec_seq(self.inner).map(
            |i: int, e: (Seq<char>, usize)| (e.0, self.slots@[e.1 as int].unwrap().value),
        )
    }

    pub closed spec fn spec_bytesize(&self) -> usize {
        self.bytesize
    }

    pub closed spec fn spec_max_bytesize(&self) -> usize {
        self.max_bytesize
    }

    pub closed spec fn spec_max_len(&self) -> usize {
        self.max_len
    }

    /// Well-formedness: the recency map and the slot vector agree, sizes
    /// are accounted exactly, and the budgets hold.
    pub closed spec fn wf(&self) -> bool {
        let rs = rec_seq(self.inner);
        &&& rec_cap(self.inner) == usize::MAX
        &&& distinct_keys(rs)
        &&& (forall|i: int|
            0 <= i < rs.len() ==> (#[trigger] rs[i]).1 < self.slots@.len() && self.slots@[rs[i].1
                as int] is Some)
        &&& (forall|i: int, j: int| 0 <= i < j < rs.len() ==> rs[i].1 != rs[j].1)
        &&& (forall|i: int|
            0 <= i < rs.len() ==> (#[trigger] self.slots@[rs[i].1 as int].unwrap().size) as int
                == spec_size_of(rs[i].0, self.slots@[rs[i].1 as int].unwrap().value))
        &&& (forall|i: int|
            0 <= i < self.free@.len() ==> (#[trigger] self.free@[i]) < self.slots@.len()
                && self.slots@[self.free@[i] as int] is None)
        &&& (forall|i: int, j: int| 0 <= i < j < self.free@.len() ==> self.free@[i] != self.free@[j])
        &&& self.bytesize as int == sum_sizes(self.entries())
        &&& self.bytesize <= self.max_bytesize
        &&& rec_seq(self.inner).len() <= self.max_len
        &&& self.max_len >= 1
    }

    /// Accounting law: the byte total always equals the sum of the sizes
    /// of the entries currently held.
    pub proof fn lemma_accounting(&self)
        requires
            self.wf(),
        ensures
            self.spec_bytesize() as int == sum_sizes(self.entries()),
    {
    }

    /// Byte-bound law: the byte total never exceeds the byte budget.
    pub proof fn lemma_byte_bound(&self)
        requires
            self.wf(),
        ensures
            self.spec_bytesize() <= self.spec_max_bytesize(),
    {
    }

    /// No two held entries carry the same key.
    pub proof fn lemma_entries_distinct(&self)
        requires
            self.wf(),
        ensures
            distinct_keys(self.entries()),
            self.entries().len() <= self.spec_max_len(),
    {
        let rs = rec_seq(self.inner);
        assert forall|i: int, j: int| 0 <= i < j < self.entries().len() implies self.entries()[i].0
            != self.entries()[j].0 by {
            assert(rs[i].0 != rs[j].0);
        }
    }

    /// A container with a byte budget and no entry-count cap.
    pub fn with_max_bytesize(max_bytesize: usize) -> (r: Self)
        ensures
            r.wf(),
            r.entries() == Seq::<(Seq<char>, V)>::empty(),
            r.spec_bytesize() == 0,
            r.spec_max_bytesize() == max_bytesize,
            r.spec_max_len() == usize::MAX,
    {
        let r = MemLru {
            inner: lru_new(),
            slots: Vec::new(),
            free: Vec::new(),
            bytesize: 0,
            max_bytesize,
            max_len: usize::MAX,
        };
        proof {
            assert(r.entries() =~= Seq::<(Seq<char>, V)>::empty());
        }
        r
    }

    /// A container with both a byte budget and an entry-count cap.
    pub fn with_max_bytesize_and_max_len(max_bytesize: usize, max_len: usize) -> (r: Self)
        requires
            max_len >= 1,
        ensures
            r.wf(),
            r.entries() == Seq::<(Seq<char>, V)>::empty(),
            r.spec_bytesize() == 0,
            r.spec_max_bytesize() == max_bytesize,
            r.spec_max_len() == max_len,
    {
        let r = MemLru {
            inner: lru_new(),
            slots: Vec::new(),
            free: Vec::new(),
            bytesize: 0,
            max_bytesize,
            max_len,
        };
        proof {
            assert(r.entries() =~= Seq::<(Seq<char>, V)>::empty());
        }
        r
    }

    pub fn max_bytesize(&self) -> (r: usize)
        ensures
            r == self.spec_max_bytesize(),
    {
        self.max_bytesize
    }

    pub fn max_len(&self) -> (r: usize)
        ensures
            r == self.spec_max_len(),
    {
        self.max_len
    }

    pub fn bytesize(&self) -> (r: usize)
        ensures
            r == self.spec_bytesize(),
    {
        self.bytesize
    }

    pub fn len(&self) -> (r: usize)
        requires
            self.wf(),
        ensures
            r == self.entries().len(),
    {
        lru_len(&self.inner)
    }

    pub fn is_empty(&self) -> (r: bool)
        requires
            self.wf(),
        ensures
            r == (self.entries().len() == 0),
    {
        self.len() == 0
    }

    /// The byte cost that storing this pair would be accounted at.
    pub fn size_of(key: &String, value: &V) -> (r: usize)
        requires
            spec_size_of(key@, *value) <= usize::MAX,
        ensures
            r as int == spec_size_of(key@, *value),
    {
        key.bytesize() + value.bytesize()
    }

    /// Remove the entry carrying `key`, hand back its value, subtract its
    /// size. The shared removal path of `set` and `remove`.
    fn take_key(&mut self, key: &str) -> (r: Option<V>)
        requires
            old(self).wf(),
        ensures
            final(self).wf(),
            final(self).spec_max_bytesize() == old(self).spec_max_bytesize(),
            final(self).spec_max_len() == old(self).spec_max_len(),
            final(self).entries() == remove_key(old(self).entries(), key@),
            !has_key(old(self).entries(), key@) ==> r is None && final(self).spec_bytesize() == old(self).spec_bytesize(),
            has_key(old(self).entries(), key@) ==> {
                let ki = key_index(old(self).entries(), key@);
                r == Some(old(self).entries()[ki].1) && final(self).spec_bytesize() as int == old(self).spec_bytesize() - spec_size_of(
                    old(self).entries()[ki].0,
                    old(self).entries()[ki].1,
                )
            },
    {
        let ghost rs = rec_seq(self.inner);
        let ghost old_entries = old(self).entries();
        proof {
            assert forall|i: int| 0 <= i < rs.len() && rs[i].0 == key@ implies has_key(
                old_entries,
                key@,
            ) by {
                assert(old_entries[i].0 == key@);
            }
        }
        match lru_pop_entry(&mut self.inner, key) {
            None => {
                proof {
                    assert(!has_key(rs, key@));
                    assert(!has_key(old_entries, key@)) by {
                        if has_key(old_entries, key@) {
                            let i = choose|i: int|
                                0 <= i < old_entries.len() && old_entries[i].0 == key@;
                            assert(rs[i].0 == key@);
                        }
                    }
                    assert(final(self).entries() =~= old_entries);
                }
                None
            },
            Some((_k, idx)) => {
                proof {
                    assert(has_key(rs, key@));
                }
                let ghost ki = key_index(old_entries, key@);
                proof {
                    let w = choose|i: int| 0 <= i < rs.len() && rs[i].0 == key@;
                    assert(old_entries[w].0 == key@);
                    assert(0 <= ki < old_entries.len() && old_entries[ki].0 == key@);
                    assert(rs[ki].0 == key@);
                    // the popped entry is the one at ki
                    assert(rec_seq(self.inner) == rs.remove(ki));
                    assert(idx == rs[ki].1);
                    assert(idx < self.slots@.len() && self.slots@[idx as int] is Some);
                }
                let mut taken: Option<Slot<V>> = None;
                self.slots.set_and_swap(idx, &mut taken);
                self.free.push(idx);
                let slot = taken.unwrap();
                proof {
                    lemma_sum_remove(old_entries, ki);
                    lemma_sum_nonneg(old_entries.remove(ki));
                    assert(old_entries[ki].1 == old(self).slots@[idx as int].unwrap().value);
                    assert(slot.size as int == spec_size_of(old_entries[ki].0, old_entries[ki].1));
                    assert(sum_sizes(old_entries) == old(self).bytesize);
                }
                self.bytesize = self.bytesize - slot.size;
                proof {
                    let rs2 = rec_seq(self.inner);
                    // entries after: map over rs.remove(ki) with slots updated at idx only
                    assert forall|i: int| 0 <= i < rs2.len() implies (#[trigger] rs2[i]).1
                        != idx by {
                        if i < ki {
                            assert(rs2[i] == rs[i]);
                        } else {
                            assert(rs2[i] == rs[i + 1]);
                        }
                    }
                    assert(final(self).entries() =~= old_entries.remove(ki)) by {
                        assert forall|i: int| 0 <= i < rs2.len() implies final(self).entries()[i]
                            == old_entries.remove(ki)[i] by {
                            if i < ki {
                                assert(rs2[i] == rs[i]);
                            } else {
                                assert(rs2[i] == rs[i + 1]);
                            }
                        }
                    }
                    assert(remove_key(old_entries, key@) == old_entries.remove(ki));
                    // well-formedness of the new state
                    assert forall|i: int, j: int| 0 <= i < j < rs2.len() implies rs2[i].0 != rs2[j].0
                        && rs2[i].1 != rs2[j].1 by {
                        if j < ki {
                        } else if i < ki {
                            assert(rs2[j] == rs[j + 1]);
                        } else {
                            assert(rs2[i] == rs[i + 1] && rs2[j] == rs[j + 1]);
                        }
                    }
                    assert forall|i: int| 0 <= i < rs2.len() implies (#[trigger] rs2[i]).1
                        < final(self).slots@.len() && final(self).slots@[rs2[i].1 as int] is Some
                        && final(self).slots@[rs2[i].1 as int].unwrap().size as int == spec_size_of(
                        rs2[i].0,
                        final(self).slots@[rs2[i].1 as int].unwrap().value,
                    ) by {
                        if i < ki {
                            assert(rs2[i] == rs[i]);
                        } else {
                            assert(rs2[i] == rs[i + 1]);
                        }
                    }
                }
                Some(slot.value)
            },
        }
    }

    /// True when inserting an item of this size still needs an eviction.
    fn cannot_fit(&self, item_size: usize) -> (r: bool)
        requires
            self.wf(),
        ensures
            r == (self.spec_bytesize() + item_size > self.spec_max_bytesize()
                || self.entries().len() + 1 > self.spec_max_len()),
    {
        let n = lru_len(&self.inner);
        item_size > self.max_bytesize - self.bytesize || n >= self.max_len
    }

    /// Evict the single least-recently-used entry.
    fn evict_lru(&mut self)
        requires
            old(self).wf(),
            old(self).entries().len() > 0,
        ensures
            final(self).wf(),
            final(self).spec_max_bytesize() == old(self).spec_max_bytesize(),
            final(self).spec_max_len() == old(self).spec_max_len(),
            final(self).entries() == old(self).entries().subrange(
                1,
                old(self).entries().len() as int,
            ),
            final(self).spec_bytesize() as int == old(self).spec_bytesize() - spec_size_of(
                old(self).entries()[0].0,
                old(self).entries()[0].1,
            ),
    {
        let ghost rs = rec_seq(self.inner);
        let ghost old_entries = old(self).entries();
        match lru_pop_lru(&mut self.inner) {
            None => {
                proof {
                    assert(false);
                }
            },
            Some((_k, idx)) => {
                proof {
                    assert(idx == rs[0].1);
                    assert(idx < self.slots@.len() && self.slots@[idx as int] is Some);
                }
                let mut taken: Option<Slot<V>> = None;
                self.slots.set_and_swap(idx, &mut taken);
                self.free.push(idx);
                let slot = taken.unwrap();
                proof {
                    lemma_sum_drop_first(old_entries);
                    lemma_sum_nonneg(old_entries.subrange(1, old_entries.len() as int));
                    assert(slot.size as int == spec_size_of(old_entries[0].0, old_entries[0].1));
                }
                self.bytesize = self.bytesize - slot.size;
                proof {
                    let rs2 = rec_seq(self.inner);
                    assert(rs2 =~= rs.subrange(1, rs.len() as int));
                    assert forall|i: int| 0 <= i < rs2.len() implies (#[trigger] rs2[i]).1
                        != idx by {
                        assert(rs2[i] == rs[i + 1]);
                    }
                    assert(final(self).entries() =~= old_entries.subrange(
                        1,
                        old_entries.len() as int,
                    )) by {
                        assert forall|i: int| 0 <= i < rs2.len() implies final(self).entries()[i]
                            == old_entries.subrange(1, old_entries.len() as int)[i] by {
                            assert(rs2[i] == rs[i + 1]);
                        }
                    }
                    assert forall|i: int, j: int| 0 <= i < j < rs2.len() implies rs2[i].0 != rs2[j].0
                        && rs2[i].1 != rs2[j].1 by {
                        assert(rs2[i] == rs[i + 1] && rs2[j] == rs[j + 1]);
                    }
                    assert forall|i: int| 0 <= i < rs2.len() implies (#[trigger] rs2[i]).1
                        < final(self).slots@.len() && final(self).slots@[rs2[i].1 as int] is Some
                        && final(self).slots@[rs2[i].1 as int].unwrap().size as int == spec_size_of(
                        rs2[i].0,
                        final(self).slots@[rs2[i].1 as int].unwrap().value,
                    ) by {
                        assert(rs2[i] == rs[i + 1]);
                    }
                }
            },
        }
    }

    /// Insert a fresh, absent key as the most recently used entry.
    fn insert_fresh(&mut self, key: String, value: V, item_size: usize)
        requires
            old(self).wf(),
            !has_key(old(self).entries(), key@),
            item_size as int == spec_size_of(key@, value),
            old(self).spec_bytesize() + item_size <= old(self).spec_max_bytesize(),
            old(self).entries().len() + 1 <= old(self).spec_max_len(),
        ensures
            final(self).wf(),
            final(self).spec_max_bytesize() == old(self).spec_max_bytesize(),
            final(self).spec_max_len() == old(self).spec_max_len(),
            final(self).entries() == old(self).entries().push((key@, value)),
            final(self).spec_bytesize() == old(self).spec_bytesize() + item_size,
    {
        let ghost rs = rec_seq(self.inner);
        let ghost old_entries = old(self).entries();
        proof {
            assert forall|i: int| 0 <= i < rs.len() implies (#[trigger] rs[i]).0 != key@ by {
                assert(old_entries[i].0 == rs[i].0);
                if rs[i].0 == key@ {
                    assert(has_key(old_entries, key@));
                }
            }
        }
        let slot = Slot { value, size: item_size };
        let idx = match self.free.pop() {
            Some(i) => {
                self.slots.set(i, Some(slot));
                proof {
                    let fr = old(self).free@;
                    assert(i == fr[fr.len() - 1]);
                    assert(old(self).slots@[i as int] is None);
                    assert forall|j: int| 0 <= j < rs.len() implies (#[trigger] rs[j]).1 != i by {
                        assert(old(self).slots@[rs[j].1 as int] is Some);
                    }
                    assert forall|j: int| 0 <= j < self.free@.len() implies (#[trigger] self.free@[j])
                        != i by {
                        assert(self.free@[j] == fr[j]);
                    }
                }
                i
            },
            None => {
                let i = self.slots.len();
                self.slots.push(Some(slot));
                i
            },
        };
        proof {
            assert(rs.len() < usize::MAX);
        }
        lru_put(&mut self.inner, key, idx);
        self.bytesize = self.bytesize + item_size;
        proof {
            let rs2 = rec_seq(self.inner);
            assert(rs2 == rs.push((key@, idx)));
            assert forall|j: int| 0 <= j < rs.len() implies (#[trigger] rs[j]).1 != idx
                && final(self).slots@[rs[j].1 as int] == old(self).slots@[rs[j].1 as int] by {
                if idx < old(self).slots@.len() {
                    assert(old(self).slots@[rs[j].1 as int] is Some);
                }
            }
            assert(final(self).entries() =~= old_entries.push((key@, value))) by {
                assert forall|i: int| 0 <= i < rs2.len() implies final(self).entries()[i]
                    == old_entries.push((key@, value))[i] by {
                    if i < rs.len() {
                        assert(rs2[i] == rs[i]);
                    } else {
                        assert(rs2[i] == (key@, idx));
                        assert(final(self).slots@[idx as int].unwrap().value == value);
                    }
                }
            }
            lemma_sum_push(old_entries, (key@, value));
            // well-formedness of the new state
            assert forall|i: int, j: int| 0 <= i < j < rs2.len() implies rs2[i].0 != rs2[j].0
                && rs2[i].1 != rs2[j].1 by {
                if j < rs.len() {
                } else {
                    assert(rs2[j] == (key@, idx));
                    assert(rs2[i] == rs[i]);
                }
            }
            assert forall|i: int| 0 <= i < rs2.len() implies (#[trigger] rs2[i]).1 < final(self).slots@.len() && final(self).slots@[rs2[i].1 as int] is Some && final(self).slots@[rs2[i].1 as int].unwrap().size as int == spec_size_of(
                rs2[i].0,
                final(self).slots@[rs2[i].1 as int].unwrap().value,
            ) by {
                if i < rs.len() {
                    assert(rs2[i] == rs[i]);
                } else {
                    assert(rs2[i] == (key@, idx));
                }
            }
        }
    }

    /// Look a key up; a hit is promoted to most recently used and a
    /// reference to its value returned. The byte total does not change.
    pub fn get(&mut self, key: &str) -> (r: Option<&V>)
        requires
            old(self).wf(),
        ensures
            final(self).wf(),
            final(self).spec_max_bytesize() == old(self).spec_max_bytesize(),
            final(self).spec_max_len() == old(self).spec_max_len(),
            final(self).spec_bytesize() == old(self).spec_bytesize(),
            !has_key(old(self).entries(), key@) ==> r is None && final(self).entries() == old(self).entries(),
            has_key(old(self).entries(), key@) ==> {
                let ki = key_index(old(self).entries(), key@);
                r is Some && *r.unwrap() == old(self).entries()[ki].1 && final(self).entries()
                    == promote(old(self).entries(), ki)
            },
    {
        let ghost rs = rec_seq(self.inner);
        let ghost old_entries = old(self).entries();
        proof {
            assert forall|i: int| 0 <= i < rs.len() && rs[i].0 == key@ implies has_key(
                old_entries,
                key@,
            ) by {
                assert(old_entries[i].0 == key@);
            }
        }
        match lru_get(&mut self.inner, key) {
            None => {
                proof {
                    assert(!has_key(rs, key@));
                    assert(!has_key(old_entries, key@)) by {
                        if has_key(old_entries, key@) {
                            let i = choose|i: int|
                                0 <= i < old_entries.len() && old_entries[i].0 == key@;
                            assert(rs[i].0 == key@);
                        }
                    }
                    assert(final(self).entries() =~= old_entries);
                }
                None
            },
            Some(idx) => {
                let ghost ki = key_index(old_entries, key@);
                proof {
                    assert(has_key(rs, key@));
                    let w = choose|i: int| 0 <= i < rs.len() && rs[i].0 == key@;
                    assert(old_entries[w].0 == key@);
                    assert(0 <= ki < old_entries.len() && old_entries[ki].0 == key@);
                    assert(rs[ki].0 == key@);
                    assert(idx == rs[ki].1);
                    assert(rec_seq(self.inner) == promote(rs, ki));
                    assert(idx < self.slots@.len() && self.slots@[idx as int] is Some);
                    let rs2 = rec_seq(self.inner);
                    // recency promoted, same entries
                    assert(final(self).entries() =~= promote(old_entries, ki)) by {
                        assert forall|i: int| 0 <= i < rs2.len() implies final(self).entries()[i]
                            == promote(old_entries, ki)[i] by {
                            if i < rs2.len() - 1 {
                                assert(rs2[i] == rs.remove(ki)[i]);
                                if i < ki {
                                    assert(rs.remove(ki)[i] == rs[i]);
                                } else {
                                    assert(rs.remove(ki)[i] == rs[i + 1]);
                                }
                            } else {
                                assert(rs2[i] == rs[ki]);
                            }
                        }
                    }
                    // well-formedness under promotion
                    assert forall|i: int, j: int| 0 <= i < j < rs2.len() implies rs2[i].0 != rs2[j].0
                        && rs2[i].1 != rs2[j].1 by {
                        lemma_promote_pairwise(rs, ki, i, j);
                    }
                    assert forall|i: int| 0 <= i < rs2.len() implies (#[trigger] rs2[i]).1
                        < final(self).slots@.len() && final(self).slots@[rs2[i].1 as int] is Some
                        && final(self).slots@[rs2[i].1 as int].unwrap().size as int == spec_size_of(
                        rs2[i].0,
                        final(self).slots@[rs2[i].1 as int].unwrap().value,
                    ) by {
                        lemma_promote_index(rs, ki, i);
                        let w2 = choose|w2: int| 0 <= w2 < rs.len() && rs2[i] == rs[w2];
                        assert(rs2[i] == rs[w2]);
                    }
                    lemma_sum_remove(old_entries, ki);
                    lemma_sum_push(old_entries.remove(ki), old_entries[ki]);
                }
                match &self.slots[idx] {
                    Some(slot) => Some(&slot.value),
                    None => {
                        proof {
                            assert(false);
                        }
                        None
                    },
                }
            },
        }
    }

    /// Insert or overwrite `key`. Any previous entry for the key leaves
    /// first (its bytes subtracted, preventing double counting), then
    /// least-recently-used entries are evicted one at a time until the new
    /// item fits both budgets, then the entry arrives as most recently
    /// used. Hands back the overwritten value, if any.
    pub fn set(&mut self, key: String, value: V) -> (r: Option<V>)
        requires
            old(self).wf(),
            spec_size_of(key@, value) <= old(self).spec_max_bytesize(),
        ensures
            final(self).wf(),
            final(self).spec_max_bytesize() == old(self).spec_max_bytesize(),
            final(self).spec_max_len() == old(self).spec_max_len(),
            final(self).entries() == spec_after_set(
                old(self).entries(),
                key@,
                value,
                old(self).spec_max_bytesize() as int,
                old(self).spec_max_len() as int,
            ),
            final(self).spec_bytesize() as int == sum_sizes(final(self).entries()),
            !has_key(old(self).entries(), key@) ==> r is None,
            has_key(old(self).entries(), key@) ==> r == Some(
                old(self).entries()[key_index(old(self).entries(), key@)].1,
            ),
    {
        let ghost old_entries = old(self).entries();
        let item_size = key.bytesize() + value.bytesize();
        let ghost base = remove_key(old_entries, key@);
        let prev = self.take_key(key.as_str());
        while self.cannot_fit(item_size)
            invariant
                self.wf(),
                self.spec_max_bytesize() == old(self).spec_max_bytesize(),
                self.spec_max_len() == old(self).spec_max_len(),
                item_size as int == spec_size_of(key@, value),
                item_size <= self.spec_max_bytesize(),
                !has_key(self.entries(), key@),
                spec_evict(
                    self.entries(),
                    item_size as int,
                    self.spec_max_bytesize() as int,
                    self.spec_max_len() as int,
                ) == spec_evict(
                    base,
                    item_size as int,
                    self.spec_max_bytesize() as int,
                    self.spec_max_len() as int,
                ),
            decreases self.entries().len(),
        {
            proof {
                lemma_sum_nonneg(self.entries().subrange(1, self.entries().len() as int));
                lemma_sum_drop_first(self.entries());
                if self.entries().len() == 0 {
                    assert(sum_sizes(self.entries()) == 0);
                    assert(false);
                }
            }
            let ghost before = self.entries();
            self.evict_lru();
            proof {
                assert(before.subrange(1, before.len() as int) =~= self.entries());
                assert forall|i: int|
                    0 <= i < self.entries().len() && self.entries()[i].0 == key@ implies false by {
                    assert(before[i + 1].0 == key@);
                    assert(has_key(before, key@));
                }
            }
        }
        proof {
            assert(spec_evict(
                self.entries(),
                item_size as int,
                self.spec_max_bytesize() as int,
                self.spec_max_len() as int,
            ) == self.entries());
        }
        self.insert_fresh(key, value, item_size);
        proof {
            lemma_sum_push(
                spec_evict(
                    base,
                    item_size as int,
                    old(self).spec_max_bytesize() as int,
                    old(self).spec_max_len() as int,
                ),
                (key@, value),
            );
        }
        prev
    }

    /// Remove the entry carrying `key` and hand back its value; its bytes
    /// are subtracted from the total.
    pub fn remove(&mut self, key: &str) -> (r: Option<V>)
        requires
            old(self).wf(),
        ensures
            final(self).wf(),
            final(self).spec_max_bytesize() == old(self).spec_max_bytesize(),
            final(self).spec_max_len() == old(self).spec_max_len(),
            final(self).entries() == remove_key(old(self).entries(), key@),
            !has_key(old(self).entries(), key@) ==> r is None && final(self).spec_bytesize() == old(self).spec_bytesize(),
            has_key(old(self).entries(), key@) ==> {
                let ki = key_index(old(self).entries(), key@);
                r == Some(old(self).entries()[ki].1) && final(self).spec_bytesize() as int == old(self).spec_bytesize() - spec_size_of(
                    old(self).entries()[ki].0,
                    old(self).entries()[ki].1,
                )
            },
    {
        self.take_key(key)
    }

    /// Drop every entry and reset the byte total to zero.
    pub fn clear(&mut self)
        requires
            old(self).wf(),
        ensures
            final(self).wf(),
            final(self).spec_max_bytesize() == old(self).spec_max_bytesize(),
            final(self).spec_max_len() == old(self).spec_max_len(),
            final(self).entries() == Seq::<(Seq<char>, V)>::empty(),
            final(self).spec_bytesize() == 0,
    {
        lru_clear(&mut self.inner);
        self.slots.clear();
        self.free.clear();
        self.bytesize = 0;
        proof {
            assert(final(self).entries() =~= Seq::<(Seq<char>, V)>::empty());
        }
    }

    /// Start building a container.
    pub fn builder() -> (r: DefaultBuilder<V>)
        ensures
            r == (DefaultBuilder::<V> {
                max_len: UnboundedLen,
                max_bytesize: NoMaxByteSize,
                phantom: PhantomData,
            }),
    {
        DefaultBuilder::new()
    }
}

proof fn lemma_promote_pairwise(rs: Seq<(Seq<char>, usize)>, ki: int, i: int, j: int)
    requires
        0 <= ki < rs.len(),
        0 <= i < j < promote(rs, ki).len(),
        distinct_keys(rs),
        forall|a: int, b: int| 0 <= a < b < rs.len() ==> rs[a].1 != rs[b].1,
    ensures
        promote(rs, ki)[i].0 != promote(rs, ki)[j].0,
        promote(rs, ki)[i].1 != promote(rs, ki)[j].1,
{
    lemma_promote_index(rs, ki, i);
    lemma_promote_index(rs, ki, j);
    let p = promote(rs, ki);
    let a = choose|a: int| 0 <= a < rs.len() && p[i] == rs[a];
    let b = choose|b: int| 0 <= b < rs.len() && p[j] == rs[b];
    let a2 = if i < ki {
        i
    } else if i < p.len() - 1 {
        i + 1
    } else {
        ki
    };
    let b2 = if j < ki {
        j
    } else if j < p.len() - 1 {
        j + 1
    } else {
        ki
    };
    assert(p[i] == rs[a2] && p[j] == rs[b2]);
    assert(a2 != b2);
    if a2 < b2 {
        assert(rs[a2].0 != rs[b2].0 && rs[a2].1 != rs[b2].1);
    } else {
        assert(rs[b2].0 != rs[a2].0 && rs[b2].1 != rs[a2].1);
    }
}

proof fn lemma_promote_index(rs: Seq<(Seq<char>, usize)>, ki: int, i: int)
    requires
        0 <= ki < rs.len(),
        0 <= i < promote(rs, ki).len(),
    ensures
        exists|w: int| 0 <= w < rs.len() && promote(rs, ki)[i] == rs[w],
        promote(rs, ki)[i] == rs[if i < ki {
            i
        } else if i < promote(rs, ki).len() - 1 {
            i + 1
        } else {
            ki
        }],
{
    let p = promote(rs, ki);
    if i < ki {
        assert(p[i] == rs[i]);
    } else if i < p.len() - 1 {
        assert(p[i] == rs[i + 1]);
    } else {
        assert(p[i] == rs[ki]);
    }
}

/// A container-count bound left open at build time.
#[derive(Clone, PartialEq, Eq, Structural)]
pub struct UnboundedLen;

/// A byte budget not chosen yet: `build` is only offered once it is.
#[derive(Clone, PartialEq, Eq, Structural)]
pub struct NoMaxByteSize;

/// Builds a `MemLru` step by step; the types of `max_len` and
/// `max_bytesize` record which bounds were chosen.
pub struct MemLruBuilder<MaxLen, MaxByteSize, V> {
    pub max_len: MaxLen,
    pub max_bytesize: MaxByteSize,
    pub phantom: PhantomData<V>,
}

pub type DefaultBuilder<V> = MemLruBuilder<UnboundedLen, NoMaxByteSize, V>;

impl<V> DefaultBuilder<V> {
    pub(crate) fn new() -> (r: Self)
        ensures
            r == (DefaultBuilder::<V> {
                max_len: UnboundedLen,
                max_bytesize: NoMaxByteSize,
                phantom: PhantomData,
            }),
    {
        DefaultBuilder { max_len: UnboundedLen, max_bytesize: NoMaxByteSize, phantom: PhantomData }
    }
}

impl<S, V> MemLruBuilder<UnboundedLen, S, V> {
    /// Choose an entry-count cap.
    pub fn max_len(self, max_len: usize) -> (r: MemLruBuilder<usize, S, V>)
        requires
            max_len > 0,
        ensures
            r.max_len == max_len,
            r.max_bytesize == self.max_bytesize,
    {
        MemLruBuilder { max_len, max_bytesize: self.max_bytesize, phantom: PhantomData }
    }
}

impl<L, V> MemLruBuilder<L, NoMaxByteSize, V> {
    /// Choose the byte budget.
    pub fn max_bytesize(self, max_bytesize: usize) -> (r: MemLruBuilder<L, usize, V>)
        ensures
            r.max_bytesize == max_bytesize,
            r.max_len == self.max_len,
    {
        MemLruBuilder { max_len: self.max_len, max_bytesize, phantom: PhantomData }
    }
}

impl<V: ByteSized> MemLruBuilder<usize, usize, V> {
    pub fn build(self) -> (r: MemLru<V>)
        requires
            self.max_len > 0,
        ensures
            r.wf(),
            r.entries() == Seq::<(Seq<char>, V)>::empty(),
            r.spec_bytesize() == 0,
            r.spec_max_bytesize() == self.max_bytesize,
            r.spec_max_len() == self.max_len,
    {
        MemLru::with_max_bytesize_and_max_len(self.max_bytesize, self.max_len)
    }
}

impl<V: ByteSized> MemLruBuilder<UnboundedLen, usize, V> {
    pub fn build(self) -> (r: MemLru<V>)
        ensures
            r.wf(),
            r.entries() == Seq::<(Seq<char>, V)>::empty(),
            r.spec_bytesize() == 0,
            r.spec_max_bytesize() == self.max_bytesize,
            r.spec_max_len() == usize::MAX,
    {
        MemLru::with_max_bytesize(self.max_bytesize)
    }
}

} // verus!
