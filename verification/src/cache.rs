//! Things kept for as long as the buffer they were made from is alive.
use vstd::prelude::*;

verus! {

/// Something that was made from a buffer, under the buffer's number.
#[derive(Debug)]
pub struct Entry<T> {
    pub key: u64,
    pub value: T,
}

/// Values by the buffer they were made from.
///
/// A list rather than a map: a compositor has as many entries here as it has
/// mapped surfaces, and the list is short.
#[derive(Debug)]
pub struct BufferCache<T> {
    pub entries: Vec<Entry<T>>,
}

/// The place of a key in a list, or where the list ends.
pub open spec fn key_index<T>(entries: Seq<Entry<T>>, key: u64) -> int
    decreases entries.len(),
{
    if entries.len() == 0 || entries[0].key == key {
        0
    } else {
        1 + key_index(entries.skip(1), key)
    }
}

/// The entries whose key is not among those given.
pub open spec fn without<T>(entries: Seq<Entry<T>>, keys: Seq<u64>) -> Seq<Entry<T>> {
    entries.filter(|e: Entry<T>| !keys.contains(e.key))
}

impl<T> BufferCache<T> {
    /// No buffer is listed twice.
    pub open spec fn is_valid(self) -> bool {
        forall|i: int, j: int|
            0 <= i < j < self.entries@.len() ==> (#[trigger] self.entries@[i]).key != (
            #[trigger] self.entries@[j]).key
    }

    /// What is kept for a buffer.
    pub open spec fn kept(self, key: u64) -> Option<T> {
        let index = key_index(self.entries@, key);
        if index < self.entries@.len() {
            Some(self.entries@[index].value)
        } else {
            None
        }
    }

    /// A cache with nothing in it.
    pub fn new() -> (cache: BufferCache<T>)
        ensures
            cache.entries@.len() == 0,
            cache.is_valid(),
    {
        BufferCache { entries: Vec::new() }
    }

    /// How many buffers something is kept for.
    pub fn len(&self) -> (len: usize)
        ensures
            len == self.entries@.len(),
    {
        self.entries.len()
    }

    /// The place of a buffer in the cache.
    pub fn find(&self, key: u64) -> (found: Option<usize>)
        ensures
            match found {
                Some(index) => index < self.entries@.len() && index == key_index(
                    self.entries@,
                    key,
                ) && self.entries@[index as int].key == key,
                None => key_index(self.entries@, key) == self.entries@.len() && forall|i: int|
                    0 <= i < self.entries@.len() ==> (#[trigger] self.entries@[i]).key != key,
            },
    {
        proof {
            assert(self.entries@.skip(0) =~= self.entries@);
        }
        for i in 0..self.entries.len()
            invariant
                key_index(self.entries@, key) == i + key_index(self.entries@.skip(i as int), key),
                forall|j: int| 0 <= j < i ==> (#[trigger] self.entries@[j]).key != key,
        {
            proof {
                assert(self.entries@.skip(i as int).skip(1) =~= self.entries@.skip(i + 1));
            }
            if self.entries[i].key == key {
                return Some(i);
            }
        }
        None
    }

    /// What is kept for a buffer.
    pub fn get(&self, key: u64) -> (value: Option<&T>)
        ensures
            match value {
                Some(value) => self.kept(key) == Some(*value),
                None => self.kept(key) is None,
            },
    {
        match self.find(key) {
            Some(index) => Some(&self.entries[index].value),
            None => None,
        }
    }

    /// Drop the entries of some buffers, keeping the others in order.
    pub fn forget(&mut self, keys: &Vec<u64>)
        ensures
            final(self).entries@ == without(old(self).entries@, keys@),
            old(self).is_valid() ==> final(self).is_valid(),
    {
        let ghost all = self.entries@;
        let ghost gone = |e: Entry<T>| !keys@.contains(e.key);
        let mut index: usize = 0;
        let ghost mut seen: int = 0;
        proof {
            reveal(Seq::filter);
            assert(all.skip(0) =~= all);
        }
        while index < self.entries.len()
            invariant
                gone == (|e: Entry<T>| !keys@.contains(e.key)),
                index <= self.entries@.len(),
                0 <= seen <= all.len(),
                self.entries@.len() - index == all.len() - seen,
                self.entries@.take(index as int) == all.take(seen).filter(gone),
                self.entries@.skip(index as int) == all.skip(seen),
            decreases self.entries@.len() - index,
        {
            let key: u64 = self.entries[index].key;
            let mut listed = false;
            for k in 0..keys.len()
                invariant
                    listed == keys@.take(k as int).contains(key),
            {
                proof {
                    assert(keys@.take(k + 1) =~= keys@.take(k as int).push(keys@[k as int]));
                    if keys@.take(k as int).contains(key) {
                        let w = choose|w: int| 0 <= w < k && keys@.take(k as int)[w] == key;
                        assert(keys@.take(k + 1)[w] == key);
                    }
                    if keys@[k as int] == key {
                        assert(keys@.take(k + 1)[k as int] == key);
                    }
                }
                if keys[k] == key {
                    listed = true;
                }
            }
            assert(keys@.take(keys@.len() as int) =~= keys@);
            proof {
                reveal(Seq::filter);
                assert(self.entries@.skip(index as int)[0] == all.skip(seen)[0]);
                assert(all.take(seen + 1).drop_last() =~= all.take(seen));
                assert(all.take(seen + 1).last() == self.entries@[index as int]);
            }
            let ghost before = self.entries@;
            if listed {
                self.entries.remove(index);
                assert(self.entries@.take(index as int) =~= before.take(index as int));
                assert(self.entries@.skip(index as int) =~= all.skip(seen + 1)) by {
                    assert(before.skip(index as int).skip(1) =~= all.skip(seen).skip(1));
                    assert(before.skip(index as int).skip(1) =~= self.entries@.skip(index as int));
                    assert(all.skip(seen).skip(1) =~= all.skip(seen + 1));
                }
            } else {
                assert(before.take(index + 1) =~= before.take(index as int).push(
                    before[index as int],
                ));
                assert(before.skip(index + 1) =~= all.skip(seen + 1)) by {
                    assert(before.skip(index as int).skip(1) =~= before.skip(index + 1));
                    assert(all.skip(seen).skip(1) =~= all.skip(seen + 1));
                }
                index = index + 1;
            }
            proof {
                seen = seen + 1;
            }
        }
        assert(self.entries@.take(index as int) =~= self.entries@);
        assert(all.take(seen) =~= all);
        assert(self.entries@ == without(all, keys@));
        proof {
            if old(self).is_valid() {
                lemma_without_keeps_distinct(all, keys@);
            }
        }
    }

    /// Keep something for a buffer that nothing is kept for yet.
    pub fn insert(&mut self, key: u64, value: T)
        requires
            old(self).kept(key) is None,
        ensures
            final(self).entries@ == old(self).entries@.push(Entry { key, value }),
            old(self).is_valid() ==> final(self).is_valid(),
    {
        proof {
            lemma_absent(self.entries@, key);
        }
        self.entries.push(Entry { key, value });
    }

    /// Keep something for a buffer in place of whatever was kept before.
    pub fn replace(&mut self, key: u64, value: T)
        ensures
            final(self).entries@ == without(old(self).entries@, seq![key]).push(
                Entry { key, value },
            ),
            old(self).is_valid() ==> final(self).is_valid(),
    {
        let keys: Vec<u64> = vec![key];
        assert(keys@ =~= seq![key]);
        self.forget(&keys);
        proof {
            assert forall|i: int| 0 <= i < self.entries@.len() implies (
            #[trigger] self.entries@[i]).key != key by {
                lemma_without(old(self).entries@, seq![key]);
                assert(seq![key].contains(key)) by {
                    assert(seq![key][0] == key);
                }
            }
        }
        self.entries.push(Entry { key, value });
    }
}

/// A key that is not found is nowhere in the list.
pub proof fn lemma_absent<T>(entries: Seq<Entry<T>>, key: u64)
    requires
        key_index(entries, key) >= entries.len(),
    ensures
        forall|i: int| 0 <= i < entries.len() ==> (#[trigger] entries[i]).key != key,
    decreases entries.len(),
{
    if entries.len() > 0 {
        lemma_absent(entries.skip(1), key);
        assert forall|i: int| 0 <= i < entries.len() implies (#[trigger] entries[i]).key != key by {
            if i > 0 {
                assert(entries.skip(1)[i - 1] == entries[i]);
            }
        }
    }
}

/// Where a key is in a list of distinct keys.
pub proof fn lemma_present<T>(entries: Seq<Entry<T>>, i: int)
    requires
        0 <= i < entries.len(),
        forall|a: int, b: int|
            0 <= a < b < entries.len() ==> (#[trigger] entries[a]).key != (
            #[trigger] entries[b]).key,
    ensures
        key_index(entries, entries[i].key) == i,
    decreases entries.len(),
{
    if i > 0 {
        assert(entries[0].key != entries[i].key);
        assert(entries.skip(1)[i - 1] == entries[i]);
        assert forall|a: int, b: int| 0 <= a < b < entries.skip(1).len() implies (
        #[trigger] entries.skip(1)[a]).key != (#[trigger] entries.skip(1)[b]).key by {
            assert(entries.skip(1)[a] == entries[a + 1]);
            assert(entries.skip(1)[b] == entries[b + 1]);
        }
        lemma_present(entries.skip(1), i - 1);
    }
}

/// What is left after some keys are taken out: everything else, and nothing
/// new.
pub proof fn lemma_without<T>(entries: Seq<Entry<T>>, keys: Seq<u64>)
    ensures
        forall|i: int|
            0 <= i < without(entries, keys).len() ==> !keys.contains(
                (#[trigger] without(entries, keys)[i]).key,
            ) && entries.contains(without(entries, keys)[i]),
        forall|i: int|
            0 <= i < entries.len() && !keys.contains((#[trigger] entries[i]).key) ==> without(
                entries,
                keys,
            ).contains(entries[i]),
{
    broadcast use vstd::seq_lib::group_filter_ensures;

    let test = |e: Entry<T>| !keys.contains(e.key);
    assert forall|i: int|
        0 <= i < entries.len() && !keys.contains((#[trigger] entries[i]).key) implies without(
        entries,
        keys,
    ).contains(entries[i]) by {
        assert(test(entries[i]));
    }
    assert forall|i: int| 0 <= i < without(entries, keys).len() implies !keys.contains(
        (#[trigger] without(entries, keys)[i]).key,
    ) && entries.contains(without(entries, keys)[i]) by {
        assert(test(entries.filter(test)[i]));
        entries.lemma_filter_contains_rev(test, entries.filter(test)[i]);
    }
}

/// Taking entries out keeps the keys distinct.
pub proof fn lemma_without_keeps_distinct<T>(entries: Seq<Entry<T>>, keys: Seq<u64>)
    requires
        forall|a: int, b: int|
            0 <= a < b < entries.len() ==> (#[trigger] entries[a]).key != (
            #[trigger] entries[b]).key,
    ensures
        forall|a: int, b: int|
            0 <= a < b < without(entries, keys).len() ==> (#[trigger] without(entries, keys)[a]).key
                != (#[trigger] without(entries, keys)[b]).key,
    decreases entries.len(),
{
    reveal(Seq::filter);
    if entries.len() > 0 {
        let rest = entries.drop_last();
        assert forall|a: int, b: int| 0 <= a < b < rest.len() implies (#[trigger] rest[a]).key != (
        #[trigger] rest[b]).key by {
            assert(rest[a] == entries[a] && rest[b] == entries[b]);
        }
        lemma_without_keeps_distinct(rest, keys);
        lemma_without(rest, keys);
        let before = without(rest, keys);
        let all = without(entries, keys);
        let last = entries.last();
        if !keys.contains(last.key) {
            assert(all =~= before.push(last));
            assert forall|a: int, b: int| 0 <= a < b < all.len() implies (#[trigger] all[a]).key != (
            #[trigger] all[b]).key by {
                if b == before.len() {
                    assert(rest.contains(before[a]));
                    let k = choose|k: int| 0 <= k < rest.len() && rest[k] == before[a];
                    assert(entries[k].key != entries[entries.len() - 1].key);
                } else {
                    assert(before[a].key != before[b].key);
                }
            }
        } else {
            assert(all =~= before);
        }
    }
}

/// Importing the same buffer twice reuses what was made the first time: once it
/// is kept, it is found until the buffer itself is gone, whatever else goes.
pub proof fn a_buffer_imported_twice_is_found_again<T>(
    before: BufferCache<T>,
    after: BufferCache<T>,
    later: BufferCache<T>,
    key: u64,
    value: T,
    gone: Seq<u64>,
)
    requires
        before.is_valid(),
        before.kept(key) is None,
        after.entries@ == before.entries@.push(Entry { key, value }),
        later.entries@ == without(after.entries@, gone),
        !gone.contains(key),
    ensures
        after.kept(key) == Some(value),
        later.kept(key) == Some(value),
{
    lemma_absent(before.entries@, key);
    assert(after.is_valid());
    let last = after.entries@.len() - 1;
    lemma_present(after.entries@, last);
    lemma_without(after.entries@, gone);
    lemma_without_keeps_distinct(after.entries@, gone);
    assert(after.entries@[last] == Entry { key, value });
    assert(later.entries@.contains(Entry { key, value }));
    let i = choose|i: int| 0 <= i < later.entries@.len() && later.entries@[i] == Entry { key, value };
    lemma_present(later.entries@, i);
}

/// What is left after reaping belongs to a buffer that is still there.
pub proof fn nothing_outlives_its_buffer<T>(entries: Seq<Entry<T>>, gone: Seq<u64>, key: u64)
    requires
        gone.contains(key),
    ensures
        key_index(without(entries, gone), key) == without(entries, gone).len(),
{
    lemma_without(entries, gone);
    lemma_index_in_range(without(entries, gone), key);
    let left = without(entries, gone);
    let i = key_index(left, key);
    if i < left.len() {
        lemma_found(left, key);
    }
}

/// A key's place is in the list or at its end.
pub proof fn lemma_index_in_range<T>(entries: Seq<Entry<T>>, key: u64)
    ensures
        0 <= key_index(entries, key) <= entries.len(),
    decreases entries.len(),
{
    if entries.len() > 0 {
        lemma_index_in_range(entries.skip(1), key);
    }
}

/// The entry at a key's place has that key.
proof fn lemma_found<T>(entries: Seq<Entry<T>>, key: u64)
    requires
        key_index(entries, key) < entries.len(),
    ensures
        0 <= key_index(entries, key),
        entries[key_index(entries, key)].key == key,
    decreases entries.len(),
{
    lemma_index_in_range(entries, key);
    if entries[0].key != key {
        lemma_index_in_range(entries.skip(1), key);
        lemma_found(entries.skip(1), key);
    }
}

} // verus!
