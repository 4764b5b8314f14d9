use vstd::prelude::*;

verus! {

/// One stored entry: the textual fingerprint and the artifact bundle bytes.
pub type EntryV = (Seq<char>, Seq<u8>);

/// Total bytes held by the entries.
pub open spec fn total_size(es: Seq<EntryV>) -> nat
    decreases es.len(),
{
    if es.len() == 0 {
        0
    } else {
        total_size(es.drop_last()) + es.last().1.len()
    }
}

/// Index of the entry holding key `k`, or -1 when there is none.
pub open spec fn index_of_key(es: Seq<EntryV>, k: Seq<char>) -> int
    decreases es.len(),
{
    if es.len() == 0 {
        -1
    } else if es[0].0 == k {
        0
    } else {
        let r = index_of_key(es.drop_first(), k);
        if r == -1 {
            -1
        } else {
            r + 1
        }
    }
}

pub open spec fn has_key(es: Seq<EntryV>, k: Seq<char>) -> bool {
    index_of_key(es, k) >= 0
}

/// No two entries share a key.
pub open spec fn unique_keys(es: Seq<EntryV>) -> bool {
    forall|i: int, j: int| 0 <= i < j < es.len() ==> (#[trigger] es[i]).0 != (#[trigger] es[j]).0
}

/// The entries with key `k` taken out, when it is present.
pub open spec fn remove_key(es: Seq<EntryV>, k: Seq<char>) -> Seq<EntryV> {
    if has_key(es, k) {
        es.remove(index_of_key(es, k))
    } else {
        es
    }
}

/// How many least-recently-used entries must leave, from the front, before
/// the total fits under `max`.
pub open spec fn evict_count(es: Seq<EntryV>, max: nat) -> int
    decreases es.len(),
{
    if total_size(es) <= max {
        0
    } else if es.len() == 0 {
        0
    } else {
        1 + evict_count(es.drop_first(), max)
    }
}

/// The entries after eviction: the surviving most-recently-used suffix.
pub open spec fn spec_evict(es: Seq<EntryV>, max: nat) -> Seq<EntryV> {
    es.skip(evict_count(es, max))
}

/// A put: any entry under the same key leaves, the new entry joins at the
/// most-recently-used end, then eviction restores the bound.
pub open spec fn spec_put(es: Seq<EntryV>, max: nat, k: Seq<char>, v: Seq<u8>) -> Seq<EntryV> {
    spec_evict(remove_key(es, k).push((k, v)), max)
}

/// What a lookup returns, without the recency effect.
pub open spec fn spec_lookup(es: Seq<EntryV>, k: Seq<char>) -> Option<Seq<u8>> {
    if has_key(es, k) {
        Some(es[index_of_key(es, k)].1)
    } else {
        None
    }
}

/// The entries after a hit on `k`: the entry moves to the
/// most-recently-used end.
pub open spec fn spec_touch(es: Seq<EntryV>, k: Seq<char>) -> Seq<EntryV> {
    if has_key(es, k) {
        let i = index_of_key(es, k);
        es.remove(i).push(es[i])
    } else {
        es
    }
}

pub proof fn lemma_index_of_key(es: Seq<EntryV>, k: Seq<char>)
    ensures
        -1 <= index_of_key(es, k) < es.len(),
        index_of_key(es, k) == -1 ==> (forall|j: int| 0 <= j < es.len() ==> (#[trigger] es[j]).0
            != k),
        index_of_key(es, k) >= 0 ==> {
            let i = index_of_key(es, k);
            &&& 0 <= i < es.len()
            &&& es[i].0 == k
            &&& (forall|j: int| 0 <= j < i ==> (#[trigger] es[j]).0 != k)
        },
    decreases es.len(),
{
    if es.len() > 0 && es[0].0 != k {
        lemma_index_of_key(es.drop_first(), k);
        if index_of_key(es, k) >= 0 {
            let i = index_of_key(es, k);
            assert forall|j: int| 0 <= j < i implies (#[trigger] es[j]).0 != k by {
                if j > 0 {
                    assert(es.drop_first()[j - 1] == es[j]);
                    assert(es.drop_first()[j - 1].0 != k);
                }
            }
        } else {
            assert forall|j: int| 0 <= j < es.len() implies (#[trigger] es[j]).0 != k by {
                if j > 0 {
                    assert(es.drop_first()[j - 1] == es[j]);
                    assert(es.drop_first()[j - 1].0 != k);
                }
            }
        }
    }
}

/// Dropping entries keeps the keys unique.
pub proof fn lemma_unique_remove(es: Seq<EntryV>, i: int)
    requires
        unique_keys(es),
        0 <= i < es.len(),
    ensures
        unique_keys(es.remove(i)),
        forall|j: int| 0 <= j < es.remove(i).len() ==> (#[trigger] es.remove(i)[j]).0 != es[i].0,
{
    assert forall|a: int, b: int|
        0 <= a < b < es.remove(i).len() implies (#[trigger] es.remove(i)[a]).0 != (
    #[trigger] es.remove(i)[b]).0 by {
        let a2 = if a < i { a } else { a + 1 };
        let b2 = if b < i { b } else { b + 1 };
        assert(es.remove(i)[a] == es[a2]);
        assert(es.remove(i)[b] == es[b2]);
    }
    assert forall|j: int| 0 <= j < es.remove(i).len() implies (#[trigger] es.remove(i)[j]).0
        != es[i].0 by {
        let j2 = if j < i { j } else { j + 1 };
        assert(es.remove(i)[j] == es[j2]);
    }
}

/// A new key at the end keeps the keys unique.
pub proof fn lemma_unique_push(es: Seq<EntryV>, e: EntryV)
    requires
        unique_keys(es),
        forall|j: int| 0 <= j < es.len() ==> (#[trigger] es[j]).0 != e.0,
    ensures
        unique_keys(es.push(e)),
{
    assert forall|a: int, b: int|
        0 <= a < b < es.push(e).len() implies (#[trigger] es.push(e)[a]).0 != (
    #[trigger] es.push(e)[b]).0 by {
        if b < es.len() {
            assert(es.push(e)[a] == es[a]);
            assert(es.push(e)[b] == es[b]);
        } else {
            assert(es.push(e)[a] == es[a]);
            assert(es.push(e)[b] == e);
        }
    }
}

/// Evicting a prefix keeps the keys unique.
pub proof fn lemma_unique_skip(es: Seq<EntryV>, n: int)
    requires
        unique_keys(es),
        0 <= n <= es.len(),
    ensures
        unique_keys(es.skip(n)),
{
    assert forall|a: int, b: int|
        0 <= a < b < es.skip(n).len() implies (#[trigger] es.skip(n)[a]).0 != (
    #[trigger] es.skip(n)[b]).0 by {
        assert(es.skip(n)[a] == es[n + a]);
        assert(es.skip(n)[b] == es[n + b]);
    }
}

/// The index is determined by its characterization: finding `k` at `i` with
/// no earlier occurrence pins `index_of_key` down.
pub proof fn lemma_index_of_key_exact(es: Seq<EntryV>, k: Seq<char>, i: int)
    requires
        0 <= i < es.len(),
        es[i].0 == k,
        forall|j: int| 0 <= j < i ==> (#[trigger] es[j]).0 != k,
    ensures
        index_of_key(es, k) == i,
    decreases es.len(),
{
    if i > 0 {
        lemma_index_of_key_exact(es.drop_first(), k, i - 1);
    }
}

pub proof fn lemma_index_of_key_none(es: Seq<EntryV>, k: Seq<char>)
    requires
        forall|j: int| 0 <= j < es.len() ==> (#[trigger] es[j]).0 != k,
    ensures
        index_of_key(es, k) == -1,
    decreases es.len(),
{
    if es.len() > 0 {
        lemma_index_of_key_none(es.drop_first(), k);
    }
}

/// Removing the entry at `i` takes exactly its bytes out of the total.
pub proof fn lemma_total_size_remove(es: Seq<EntryV>, i: int)
    requires
        0 <= i < es.len(),
    ensures
        total_size(es.remove(i)) + es[i].1.len() == total_size(es),
    decreases es.len(),
{
    if es.len() > 0 {
        if i == es.len() - 1 {
            assert(es.remove(i) =~= es.drop_last());
        } else {
            lemma_total_size_remove(es.drop_last(), i);
            assert(es.remove(i).drop_last() =~= es.drop_last().remove(i));
            assert(es.remove(i).last() == es.last());
        }
    }
}

pub proof fn lemma_total_size_push(es: Seq<EntryV>, e: EntryV)
    ensures
        total_size(es.push(e)) == total_size(es) + e.1.len(),
{
    assert(es.push(e).drop_last() =~= es);
    assert(es.push(e).last() == e);
}

pub proof fn lemma_total_size_drop_first(es: Seq<EntryV>)
    requires
        es.len() > 0,
    ensures
        total_size(es.drop_first()) + es[0].1.len() == total_size(es),
{
    lemma_total_size_remove(es, 0);
    assert(es.remove(0) =~= es.drop_first());
}

/// Eviction leaves no more than `max` bytes behind.
pub proof fn lemma_evict_bounded(es: Seq<EntryV>, max: nat)
    ensures
        total_size(spec_evict(es, max)) <= max,
        0 <= evict_count(es, max) <= es.len(),
    decreases es.len(),
{
    if total_size(es) <= max {
        assert(es.skip(0) =~= es);
    } else if es.len() == 0 {
        assert(es.skip(0) =~= es);
    } else {
        lemma_evict_bounded(es.drop_first(), max);
        assert(es.drop_first().skip(evict_count(es.drop_first(), max)) =~= es.skip(
            1 + evict_count(es.drop_first(), max),
        ));
    }
}

/// The most recent entry survives eviction whenever it fits alone.
pub proof fn lemma_evict_last_survives(es: Seq<EntryV>, max: nat)
    requires
        es.len() > 0,
        es.last().1.len() <= max,
    ensures
        evict_count(es, max) < es.len(),
        spec_evict(es, max).len() > 0,
        spec_evict(es, max).last() == es.last(),
    decreases es.len(),
{
    lemma_evict_bounded(es, max);
    if total_size(es) <= max {
        assert(es.skip(0) =~= es);
    } else {
        if es.len() == 1 {
            assert(es.drop_last() =~= Seq::<EntryV>::empty());
            assert(total_size(Seq::<EntryV>::empty()) == 0);
            assert(total_size(es) == es.last().1.len());
        } else {
            assert(es.drop_first().last() == es.last());
            lemma_evict_last_survives(es.drop_first(), max);
            lemma_evict_bounded(es.drop_first(), max);
            let n = 1 + evict_count(es.drop_first(), max);
            assert(es.drop_first().skip(evict_count(es.drop_first(), max)) =~= es.skip(n));
        }
    }
}

/// A bounded-size least-recently-used store of artifact bundles, keyed by
/// textual fingerprint: the in-memory core of the disk backend, with byte
/// accounting and eviction.
pub struct LruStore {
    entries: Vec<(String, Vec<u8>)>,
    max_size: u64,
    total: u64,
}

impl LruStore {
    /// The stored entries, least recently used first.
    pub closed spec fn view(&self) -> Seq<EntryV> {
        Seq::new(self.entries@.len(), |i: int| (self.entries@[i].0@, self.entries@[i].1@))
    }

    pub closed spec fn spec_max_size(&self) -> nat {
        self.max_size as nat
    }

    /// Well-formed: unique keys, an exact byte count, and the bound held.
    pub closed spec fn wf(&self) -> bool {
        &&& unique_keys(self@)
        &&& self.total as nat == total_size(self@)
        &&& total_size(self@) <= self.max_size as nat
    }

    /// An empty store bounded by `max_size` bytes.
    pub fn new(max_size: u64) -> (r: LruStore)
        ensures
            r.wf(),
            r@ == Seq::<EntryV>::empty(),
            r.spec_max_size() == max_size as nat,
    {
        let r = LruStore { entries: Vec::new(), max_size, total: 0 };
        proof {
            assert(r@ =~= Seq::<EntryV>::empty());
        }
        r
    }

    /// The bytes currently held.
    pub fn current_size(&self) -> (r: u64)
        requires
            self.wf(),
        ensures
            r as nat == total_size(self@),
            r as nat <= self.spec_max_size(),
    {
        self.total
    }

    /// The configured bound.
    pub fn max_size(&self) -> (r: u64)
        ensures
            r as nat == self.spec_max_size(),
    {
        self.max_size
    }

    /// How many entries are stored.
    pub fn len(&self) -> (r: usize)
        ensures
            r == self@.len(),
    {
        self.entries.len()
    }

    /// Index of the entry keyed `k`, if present.
    fn find(&self, key: &String) -> (r: Option<usize>)
        ensures
            match r {
                Option::Some(i) => i == index_of_key(self@, key@) && i < self@.len(),
                Option::None => !has_key(self@, key@),
            },
    {
        let mut i: usize = 0;
        while i < self.entries.len()
            invariant
                i <= self@.len(),
                self@.len() == self.entries@.len(),
                forall|j: int| 0 <= j < i ==> (#[trigger] self@[j]).0 != key@,
            decreases self@.len() - i,
        {
            let e = &self.entries[i];
            if e.0.eq(key) {
                proof {
                    lemma_index_of_key_exact(self@, key@, i as int);
                }
                return Some(i);
            }
            i = i + 1;
        }
        proof {
            lemma_index_of_key_none(self@, key@);
        }
        None
    }

    /// Store `data` under `key`: the previous entry under the key leaves,
    /// the new entry becomes most recent, and least-recently-used entries
    /// are evicted until the bound holds. Returns the evicted keys, oldest
    /// first, so a disk layer can unlink their files.
    pub fn put(&mut self, key: String, data: Vec<u8>) -> (evicted: Vec<String>)
        requires
            old(self).wf(),
        ensures
            final(self).wf(),
            final(self)@ == spec_put(old(self)@, old(self).spec_max_size(), key@, data@),
            final(self).spec_max_size() == old(self).spec_max_size(),
            evicted.deep_view() == {
                let mid = remove_key(old(self)@, key@).push((key@, data@));
                Seq::new(
                    evict_count(mid, old(self).spec_max_size()) as nat,
                    |i: int| mid[i].0,
                )
            },
    {
        let ghost es0 = self@;
        let ghost max = self.max_size as nat;
        // Drop any entry already stored under the key.
        match self.find(&key) {
            Option::Some(i) => {
                proof {
                    lemma_total_size_remove(self@, i as int);
                    lemma_index_of_key(es0, key@);
                    lemma_unique_remove(es0, i as int);
                }
                let e = self.entries.remove(i);
                self.total = self.total - (e.1.len() as u64);
                proof {
                    assert(self@ =~= es0.remove(index_of_key(es0, key@)));
                }
            },
            Option::None => {},
        }
        let ghost removed = remove_key(es0, key@);
        proof {
            assert(self@ == removed);
            lemma_index_of_key(es0, key@);
            if has_key(es0, key@) {
                lemma_unique_remove(es0, index_of_key(es0, key@));
                assert(unique_keys(removed));
                assert forall|j: int| 0 <= j < removed.len() implies (#[trigger] removed[j]).0
                    != key@ by {
                    assert(removed[j].0 != es0[index_of_key(es0, key@)].0);
                }
            } else {
                assert(removed == es0);
                assert forall|j: int| 0 <= j < removed.len() implies (#[trigger] removed[j]).0
                    != key@ by {
                    assert(es0[j].0 != key@);
                }
            }
        }
        // The new entry joins at the most-recently-used end. The running
        // total is widened while it may exceed the bound.
        let ghost kview = key@;
        let ghost dview = data@;
        let dlen = data.len();
        self.entries.push((key, data));
        let n0 = self.entries.len();
        let ghost mid = removed.push((kview, dview));
        proof {
            assert(self@ =~= mid);
            lemma_total_size_push(removed, (kview, dview));
            lemma_unique_push(removed, (kview, dview));
        }
        let mut wide: u128 = self.total as u128 + dlen as u128;
        let mut evicted: Vec<String> = Vec::new();
        proof {
            lemma_evict_bounded(mid, max);
            assert(evicted.deep_view() =~= Seq::<Seq<char>>::empty());
            assert(mid.skip(0) =~= mid);
            assert(evicted.deep_view() =~= Seq::new(0nat, |i: int| mid[i].0));
        }
        let mut dropped: usize = 0;
        while wide > self.max_size as u128
            invariant
                self.max_size as nat == max,
                wide == total_size(self@),
                self@ =~= mid.skip(dropped as int),
                0 <= dropped <= n0,
                n0 == mid.len(),
                evict_count(mid, max) == dropped + evict_count(self@, max),
                evicted.deep_view() =~= Seq::new(dropped as nat, |i: int| mid[i].0),
                self@.len() == self.entries@.len(),
            decreases self@.len(),
        {
            proof {
                assert(total_size(self@) > max);
                if self@.len() == 0 {
                    assert(total_size(self@) == 0);
                }
                assert(self@.len() > 0);
                lemma_total_size_drop_first(self@);
            }
            let ghost pre = self@;
            let ghost pre_evicted = evicted.deep_view();
            let e = self.entries.remove(0);
            evicted.push(e.0);
            wide = wide - (e.1.len() as u128);
            dropped = dropped + 1;
            proof {
                assert(self@ =~= pre.drop_first());
                assert(self@ =~= mid.skip(dropped as int));
                assert(evicted.deep_view() =~= pre_evicted.push(pre[0].0));
                assert(pre[0] == mid[dropped - 1]);
                assert(evicted.deep_view() =~= Seq::new(dropped as nat, |i: int| mid[i].0));
            }
        }
        proof {
            assert(evict_count(self@, max) == 0);
            assert(self@ =~= spec_evict(mid, max));
            lemma_evict_bounded(mid, max);
            lemma_unique_skip(mid, evict_count(mid, max));
        }
        self.total = wide as u64;
        evicted
    }

    /// Look `key` up: a hit hands back the bytes and makes the entry the
    /// most recently used; a miss changes nothing.
    pub fn get(&mut self, key: &String) -> (r: Option<Vec<u8>>)
        requires
            old(self).wf(),
        ensures
            final(self).wf(),
            final(self).spec_max_size() == old(self).spec_max_size(),
            final(self)@ == spec_touch(old(self)@, key@),
            match r {
                Option::Some(v) => spec_lookup(old(self)@, key@) == Some(v@),
                Option::None => spec_lookup(old(self)@, key@) is None,
            },
    {
        let ghost es0 = self@;
        match self.find(key) {
            Option::Some(i) => {
                proof {
                    lemma_index_of_key(es0, key@);
                    lemma_total_size_remove(es0, i as int);
                    lemma_unique_remove(es0, i as int);
                }
                let e = self.entries.remove(i);
                let out = e.1.clone();
                self.entries.push(e);
                proof {
                    assert(self@ =~= es0.remove(i as int).push(es0[i as int]));
                    lemma_total_size_push(es0.remove(i as int), es0[i as int]);
                    lemma_unique_push(es0.remove(i as int), es0[i as int]);
                }
                Some(out)
            },
            Option::None => None,
        }
    }
}

/// After a put the byte bound holds, whatever the store held before: the
/// store never exceeds its configured maximum.
pub proof fn lemma_put_bounded(es: Seq<EntryV>, max: nat, k: Seq<char>, v: Seq<u8>)
    ensures
        total_size(spec_put(es, max, k, v)) <= max,
{
    lemma_evict_bounded(remove_key(es, k).push((k, v)), max);
}

/// A put of a value that fits is visible: looking the key up afterwards
/// finds exactly the stored bytes, and keys stay unique.
pub proof fn lemma_put_get(es: Seq<EntryV>, max: nat, k: Seq<char>, v: Seq<u8>)
    requires
        unique_keys(es),
        v.len() <= max,
    ensures
        unique_keys(spec_put(es, max, k, v)),
        spec_lookup(spec_put(es, max, k, v), k) == Some(v),
{
    let removed = remove_key(es, k);
    lemma_index_of_key(es, k);
    if has_key(es, k) {
        lemma_unique_remove(es, index_of_key(es, k));
        assert forall|j: int| 0 <= j < removed.len() implies (#[trigger] removed[j]).0 != k by {
            assert(removed[j].0 != es[index_of_key(es, k)].0);
        }
    } else {
        assert forall|j: int| 0 <= j < removed.len() implies (#[trigger] removed[j]).0 != k by {
            assert(es[j].0 != k);
        }
    }
    let mid = removed.push((k, v));
    lemma_unique_push(removed, (k, v));
    lemma_evict_bounded(mid, max);
    lemma_evict_last_survives(mid, max);
    let out = spec_evict(mid, max);
    let n = evict_count(mid, max);
    lemma_unique_skip(mid, n);
    assert(out.last() == (k, v));
    assert(out[out.len() - 1].0 == k);
    assert forall|j: int| 0 <= j < out.len() - 1 implies (#[trigger] out[j]).0 != k by {
        assert(out[j].0 != out[out.len() - 1].0);
    }
    lemma_index_of_key_exact(out, k, out.len() - 1);
}

/// Storing the same value twice under a key behaves like storing it once:
/// the key still maps to exactly that value.
pub proof fn lemma_put_put_get(es: Seq<EntryV>, max: nat, k: Seq<char>, v: Seq<u8>)
    requires
        unique_keys(es),
        v.len() <= max,
    ensures
        spec_lookup(spec_put(spec_put(es, max, k, v), max, k, v), k) == Some(v),
{
    lemma_put_get(es, max, k, v);
    lemma_put_get(spec_put(es, max, k, v), max, k, v);
}

/// With a zero bound, every put of a non-empty value immediately evicts
/// everything: the store stays empty and every lookup misses.
pub proof fn lemma_put_max_zero(es: Seq<EntryV>, k: Seq<char>, v: Seq<u8>)
    requires
        v.len() > 0,
    ensures
        spec_put(es, 0, k, v) == Seq::<EntryV>::empty(),
        total_size(spec_put(es, 0, k, v)) == 0,
        forall|q: Seq<char>| #[trigger] spec_lookup(spec_put(es, 0, k, v), q) is None,
{
    let mid = remove_key(es, k).push((k, v));
    lemma_evict_bounded(mid, 0);
    let out = spec_evict(mid, 0);
    let n = evict_count(mid, 0);
    if out.len() > 0 {
        assert(out.last() == mid[n + out.len() - 1]);
        assert(n + out.len() - 1 == mid.len() - 1);
        assert(out.last() == (k, v));
        assert(total_size(out) == total_size(out.drop_last()) + out.last().1.len());
        assert(false);
    }
    assert(out =~= Seq::<EntryV>::empty());
    assert(total_size(out) == 0);
    assert forall|q: Seq<char>| #[trigger] spec_lookup(spec_put(es, 0, k, v), q) is None by {
        assert(index_of_key(out, q) == -1);
    }
}

} // verus!
