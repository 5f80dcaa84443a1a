//! Timestamp storage for cooldown buckets.
//!
//! A [`StampMap`] maps bucket keys to the timestamp of the last recorded
//! invocation for that key. It is an association list with unique keys,
//! viewed in specifications as a `Map<BucketKey, u64>`.

use vstd::prelude::*;

verus! {

/// The scope a recorded timestamp applies to: one value per cooldown bucket.
#[derive(Clone, Copy, PartialEq, Eq, Structural, Debug)]
pub enum BucketKey {
    /// The single global bucket.
    Global,
    /// One bucket per user id.
    User(u64),
    /// One bucket per guild id.
    Guild(u64),
    /// One bucket per channel id.
    Channel(u64),
    /// One bucket per (user id, guild id) pair.
    Member(u64, u64),
}

/// The map denoted by a sequence of key-value entries; a later entry wins.
spec fn entries_map(s: Seq<(BucketKey, u64)>) -> Map<BucketKey, u64>
    decreases s.len(),
{
    if s.len() == 0 {
        Map::empty()
    } else {
        entries_map(s.drop_last()).insert(s.last().0, s.last().1)
    }
}

/// Each key appears at most once in the entry sequence.
spec fn unique_keys(s: Seq<(BucketKey, u64)>) -> bool {
    forall|i: int, j: int| 0 <= i < j < s.len() ==> (#[trigger] s[i]).0 != (#[trigger] s[j]).0
}

/// A key that no entry of `s` carries is not in the denoted map.
proof fn lemma_key_absent(s: Seq<(BucketKey, u64)>, k: BucketKey)
    requires
        forall|i: int| 0 <= i < s.len() ==> (#[trigger] s[i]).0 != k,
    ensures
        !entries_map(s).contains_key(k),
    decreases s.len(),
{
    if s.len() > 0 {
        assert(forall|i: int| 0 <= i < s.drop_last().len() ==> (#[trigger] s.drop_last()[i]).0 != k);
        lemma_key_absent(s.drop_last(), k);
    }
}

/// With unique keys, the entry at index `i` gives the denoted map's value at its key.
proof fn lemma_key_at(s: Seq<(BucketKey, u64)>, i: int)
    requires
        unique_keys(s),
        0 <= i < s.len(),
    ensures
        entries_map(s).contains_key(s[i].0),
        entries_map(s)[s[i].0] == s[i].1,
    decreases s.len(),
{
    if i < s.len() - 1 {
        assert(forall|a: int, b: int|
            0 <= a < b < s.drop_last().len() ==> (#[trigger] s.drop_last()[a]).0 != (#[trigger] s.drop_last()[b]).0);
        lemma_key_at(s.drop_last(), i);
        assert(s[i].0 != s.last().0);
    }
}

/// Appending an entry inserts its key-value pair into the denoted map.
proof fn lemma_entries_map_push(s: Seq<(BucketKey, u64)>, e: (BucketKey, u64))
    ensures
        entries_map(s.push(e)) == entries_map(s).insert(e.0, e.1),
{
    assert(s.push(e).drop_last() =~= s);
    assert(s.push(e).last() == e);
}

/// With unique keys, removing the entry at index `i` removes its key from the denoted map.
proof fn lemma_entries_map_remove(s: Seq<(BucketKey, u64)>, i: int)
    requires
        unique_keys(s),
        0 <= i < s.len(),
    ensures
        entries_map(s.remove(i)) == entries_map(s).remove(s[i].0),
    decreases s.len(),
{
    let k = s[i].0;
    if i == s.len() - 1 {
        assert(s.remove(i) =~= s.drop_last());
        assert(forall|a: int| 0 <= a < s.drop_last().len() ==> (#[trigger] s.drop_last()[a]).0 != k);
        lemma_key_absent(s.drop_last(), k);
        assert(entries_map(s.drop_last()) =~= entries_map(s.drop_last()).insert(k, s[i].1).remove(k));
    } else {
        let t = s.drop_last();
        assert(forall|a: int, b: int|
            0 <= a < b < t.len() ==> (#[trigger] t[a]).0 != (#[trigger] t[b]).0);
        lemma_entries_map_remove(t, i);
        assert(s.remove(i).drop_last() =~= t.remove(i));
        assert(s.remove(i).last() == s.last());
        assert(k != s.last().0);
        assert(entries_map(t).remove(k).insert(s.last().0, s.last().1)
            =~= entries_map(t).insert(s.last().0, s.last().1).remove(k));
    }
}

/// Maps each bucket key to the timestamp of the last recorded invocation.
#[derive(Clone, Debug)]
pub struct StampMap {
    entries: Vec<(BucketKey, u64)>,
}

impl StampMap {
    /// The map this store denotes.
    pub closed spec fn view(self) -> Map<BucketKey, u64> {
        entries_map(self.entries@)
    }

    /// Well-formed: no key is stored twice.
    pub closed spec fn wf(self) -> bool {
        unique_keys(self.entries@)
    }

    /// An empty store: no timestamp recorded for any key.
    pub fn new() -> (r: StampMap)
        ensures
            r.wf(),
            r@ == Map::<BucketKey, u64>::empty(),
    {
        StampMap { entries: Vec::new() }
    }

    /// The index of the entry carrying `k`, if one exists.
    fn index_of(&self, k: BucketKey) -> (r: Option<usize>)
        ensures
            match r {
                Some(i) => i < self.entries@.len() && self.entries@[i as int].0 == k,
                None => forall|j: int| 0 <= j < self.entries@.len() ==> (#[trigger] self.entries@[j]).0 != k,
            },
    {
        let mut i: usize = 0;
        while i < self.entries.len()
            invariant
                i <= self.entries@.len(),
                forall|j: int| 0 <= j < i ==> (#[trigger] self.entries@[j]).0 != k,
            decreases self.entries@.len() - i,
        {
            if self.entries[i].0 == k {
                return Some(i);
            }
            i = i + 1;
        }
        None
    }

    /// The recorded timestamp for `k`, absent when `k` was never recorded.
    pub fn get(&self, k: BucketKey) -> (r: Option<u64>)
        requires
            self.wf(),
        ensures
            self@.contains_key(k) ==> r == Some(self@[k]),
            !self@.contains_key(k) ==> r is None,
    {
        match self.index_of(k) {
            Some(i) => {
                proof {
                    lemma_key_at(self.entries@, i as int);
                }
                Some(self.entries[i].1)
            }
            None => {
                proof {
                    lemma_key_absent(self.entries@, k);
                }
                None
            }
        }
    }

    /// Records `v` for `k`, overwriting any previously recorded timestamp.
    pub fn insert(&mut self, k: BucketKey, v: u64)
        requires
            old(self).wf(),
        ensures
            final(self).wf(),
            final(self)@ == old(self)@.insert(k, v),
    {
        let ghost s0 = self.entries@;
        match self.index_of(k) {
            Some(i) => {
                proof {
                    lemma_entries_map_remove(s0, i as int);
                }
                self.entries.remove(i);
                proof {
                    let s1 = self.entries@;
                    assert(forall|a: int, b: int|
                        0 <= a < b < s1.len() ==> (#[trigger] s1[a]).0 != (#[trigger] s1[b]).0);
                    assert(forall|a: int| 0 <= a < s1.len() ==> (#[trigger] s1[a]).0 != k) by {
                        assert(forall|a: int| 0 <= a < s1.len() ==> s1[a] == s0[a] || s1[a] == s0[a + 1]);
                    }
                    lemma_entries_map_push(s1, (k, v));
                    assert(entries_map(s0).remove(k).insert(k, v) =~= entries_map(s0).insert(k, v));
                }
                self.entries.push((k, v));
            }
            None => {
                proof {
                    lemma_entries_map_push(s0, (k, v));
                }
                self.entries.push((k, v));
            }
        }
    }
}

} // verus!
