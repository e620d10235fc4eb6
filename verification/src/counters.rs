//! Counters by key. A key that was never set counts zero.
use crate::primitives::Same;
use vstd::prelude::*;

verus! {

/// Counters by key.
#[derive(Debug)]
pub struct Counters<K> {
    entries: Vec<(K, u64)>,
}

/// The count listed first for a key, and zero where none is.
spec fn count_in<K>(entries: Seq<(K, u64)>, key: K) -> u64
    decreases entries.len(),
{
    if entries.len() == 0 {
        0
    } else if entries[0].0 == key {
        entries[0].1
    } else {
        count_in(entries.skip(1), key)
    }
}

/// Entries of other keys do not decide a count.
proof fn lemma_count_skips<K>(entries: Seq<(K, u64)>, key: K, n: int)
    requires
        0 <= n <= entries.len(),
        forall|i: int| 0 <= i < n ==> (#[trigger] entries[i]).0 != key,
    ensures
        count_in(entries, key) == count_in(entries.skip(n), key),
    decreases n,
{
    if n > 0 {
        let rest = entries.skip(1);
        assert forall|i: int| 0 <= i < n - 1 implies (#[trigger] rest[i]).0 != key by {
            assert(entries[i + 1].0 != key);
        }
        assert(entries[0].0 != key);
        lemma_count_skips(rest, key, n - 1);
        assert(rest.skip(n - 1) =~= entries.skip(n));
    } else {
        assert(entries.skip(0) =~= entries);
    }
}

/// Changing the entry of one key leaves the counts of the others.
proof fn lemma_count_update<K>(entries: Seq<(K, u64)>, k: int, count: u64, key: K)
    requires
        0 <= k < entries.len(),
        key != entries[k].0,
    ensures
        count_in(entries.update(k, (entries[k].0, count)), key) == count_in(entries, key),
    decreases entries.len(),
{
    let changed = entries.update(k, (entries[k].0, count));
    if k > 0 {
        assert(changed.skip(1) =~= entries.skip(1).update(k - 1, (entries[k].0, count)));
        lemma_count_update(entries.skip(1), k - 1, count, key);
    } else {
        assert(changed.skip(1) =~= entries.skip(1));
    }
}

/// A new entry at the end decides the count of its key where none did, and of no other.
proof fn lemma_count_push<K>(entries: Seq<(K, u64)>, entry: (K, u64), key: K)
    ensures
        key != entry.0 ==> count_in(entries.push(entry), key) == count_in(entries, key),
        (forall|i: int| 0 <= i < entries.len() ==> (#[trigger] entries[i]).0 != entry.0)
            ==> count_in(entries.push(entry), entry.0) == entry.1,
    decreases entries.len(),
{
    let longer = entries.push(entry);
    if entries.len() > 0 {
        assert(longer.skip(1) =~= entries.skip(1).push(entry));
        lemma_count_push(entries.skip(1), entry, key);
        if forall|i: int| 0 <= i < entries.len() ==> (#[trigger] entries[i]).0 != entry.0 {
            assert(entries[0].0 != entry.0);
            assert forall|i: int| 0 <= i < entries.skip(1).len() implies (
            #[trigger] entries.skip(1)[i]).0 != entry.0 by {
                assert(entries[i + 1].0 != entry.0);
            }
        }
    } else {
        assert(longer[0] == entry);
        assert(longer.skip(1) =~= entries);
        assert(count_in(entries, key) == 0);
    }
}

impl<K: Same> Counters<K> {
    /// The count of a key.
    pub closed spec fn count(self, key: K) -> u64 {
        count_in(self.entries@, key)
    }

    /// Every count is zero.
    pub fn new() -> (r: Counters<K>)
        ensures
            forall|key: K| #[trigger] r.count(key) == 0,
    {
        Counters { entries: Vec::new() }
    }

    /// The count of a key.
    pub fn get(&self, key: K) -> (r: u64)
        ensures
            r == self.count(key),
    {
        let mut i: usize = 0;
        while i < self.entries.len()
            invariant
                i <= self.entries@.len(),
                forall|j: int| 0 <= j < i ==> (#[trigger] self.entries@[j]).0 != key,
            decreases self.entries.len() - i,
        {
            if self.entries[i].0.same(&key) {
                proof {
                    lemma_count_skips(self.entries@, key, i as int);
                    assert(self.entries@.skip(i as int)[0] == self.entries@[i as int]);
                }
                return self.entries[i].1;
            }
            i = i + 1;
        }
        proof {
            lemma_count_skips(self.entries@, key, i as int);
        }
        0
    }

    /// Changes the count of a key.
    pub fn set(&mut self, key: K, count: u64)
        ensures
            final(self).count(key) == count,
            forall|other: K|
                other != key ==> #[trigger] final(self).count(other) == old(self).count(other),
    {
        let ghost before = self.entries@;
        let mut i: usize = 0;
        while i < self.entries.len()
            invariant
                i <= self.entries@.len(),
                self.entries@ == before,
                before == old(self).entries@,
                forall|j: int| 0 <= j < i ==> (#[trigger] before[j]).0 != key,
            decreases self.entries.len() - i,
        {
            if self.entries[i].0.same(&key) {
                self.entries[i] = (key, count);
                proof {
                    let after = self.entries@;
                    assert(after == before.update(i as int, (key, count)));
                    lemma_count_skips(after, key, i as int);
                    assert(after.skip(i as int)[0] == after[i as int]);
                    assert forall|other: K| other != key implies #[trigger] self.count(other)
                        == count_in(before, other) by {
                        lemma_count_update(before, i as int, count, other);
                    }
                }
                return;
            }
            i = i + 1;
        }
        self.entries.push((key, count));
        proof {
            lemma_count_push(before, (key, count), key);
            assert forall|other: K| other != key implies #[trigger] self.count(other)
                == count_in(before, other) by {
                lemma_count_push(before, (key, count), other);
            }
        }
    }
}

} // verus!
