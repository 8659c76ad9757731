//! The index of a size-bounded cache: which entries it holds, in order of use,
//! and which ones an insertion pushes out.
//!
//! The index keeps no file.  It tells the program which entries to delete
//! when a new one comes in, oldest use first, so that the sizes of the
//! entries held add up to no more than the capacity.  An entry that alone is
//! larger than the capacity is held as the only one.

use vstd::prelude::*;
use vstd::string::*;
use crate::text::{str_eq, views};

verus! {

/// One entry of the index.
#[derive(Debug)]
pub struct Entry {
    pub key: String,
    pub size: u64,
}

/// An entry as a pair of its key and its size.
pub type Item = (Seq<char>, u64);

/// The entries of a list, as pairs.
pub open spec fn items(s: Seq<Entry>) -> Seq<Item> {
    Seq::new(s.len(), |i: int| (s[i].key@, s[i].size))
}

/// The keys of a list of entries.
pub open spec fn keys_of(s: Seq<Item>) -> Seq<Seq<char>> {
    Seq::new(s.len(), |i: int| s[i].0)
}

/// The sum of the sizes.
pub open spec fn total_size(s: Seq<Item>) -> nat
    decreases s.len(),
{
    if s.len() == 0 {
        0
    } else {
        s[0].1 as nat + total_size(s.drop_first())
    }
}

/// Whether no key occurs twice.
pub open spec fn distinct_keys(s: Seq<Item>) -> bool {
    forall|i: int, j: int| 0 <= i < j < s.len() ==> s[i].0 != s[j].0
}

/// The place of the first entry with key `key`, or the length where there is
/// none.
pub open spec fn position(s: Seq<Item>, key: Seq<char>) -> int
    decreases s.len(),
{
    if s.len() == 0 {
        0
    } else if s[0].0 == key {
        0
    } else {
        1 + position(s.drop_first(), key)
    }
}

/// Whether an entry with key `key` is held.
pub open spec fn holds(s: Seq<Item>, key: Seq<char>) -> bool {
    position(s, key) < s.len()
}

/// The size recorded for `key`, where it is held.
pub open spec fn size_of(s: Seq<Item>, key: Seq<char>) -> Option<u64> {
    if holds(s, key) {
        Some(s[position(s, key)].1)
    } else {
        None
    }
}

/// The entries without the first one that has key `key`.
pub open spec fn without(s: Seq<Item>, key: Seq<char>) -> Seq<Item> {
    if holds(s, key) {
        s.remove(position(s, key))
    } else {
        s
    }
}

/// How many entries leave, oldest first, to make room for `size` more bytes:
/// entries leave until the rest and the newcomer fit in `capacity`, or none
/// is left.
pub open spec fn evictions(s: Seq<Item>, size: u64, capacity: u64) -> nat
    decreases s.len(),
{
    if s.len() > 0 && total_size(s) + size > capacity {
        1 + evictions(s.drop_first(), size, capacity)
    } else {
        0
    }
}

/// The entries that leave when `key` comes in with `size` bytes.
pub open spec fn evicted_by(s: Seq<Item>, key: Seq<char>, size: u64, capacity: u64) -> Seq<Item> {
    let rest = without(s, key);
    rest.subrange(0, evictions(rest, size, capacity) as int)
}

/// The entries after `key` came in with `size` bytes: an older entry with
/// that key is replaced, the oldest others leave as far as needed, and the
/// newcomer is the most recently used.
pub open spec fn after_insert(s: Seq<Item>, key: Seq<char>, size: u64, capacity: u64) -> Seq<
    Item,
> {
    let rest = without(s, key);
    rest.subrange(evictions(rest, size, capacity) as int, rest.len() as int).push((key, size))
}

/// The entries after `key` was looked up: where it is held it becomes the
/// most recently used.
pub open spec fn after_lookup(s: Seq<Item>, key: Seq<char>) -> Seq<Item> {
    if holds(s, key) {
        without(s, key).push(s[position(s, key)])
    } else {
        s
    }
}

/// Whether a list of entries respects `capacity`: the sizes add up to no more
/// than it, or a single entry is held.
pub open spec fn within(s: Seq<Item>, capacity: u64) -> bool {
    total_size(s) <= capacity || s.len() == 1
}

/// The place of a key lies within the list or just behind it; an entry at
/// that place has the key, and no entry before it has.
pub proof fn lemma_position_bounds(s: Seq<Item>, key: Seq<char>)
    ensures
        0 <= position(s, key) <= s.len(),
        position(s, key) < s.len() ==> s[position(s, key)].0 == key,
        forall|i: int| 0 <= i < position(s, key) ==> (#[trigger] s[i]).0 != key,
    decreases s.len(),
{
    if s.len() > 0 && s[0].0 != key {
        lemma_position_bounds(s.drop_first(), key);
        assert forall|i: int| 0 <= i < position(s, key) implies (#[trigger] s[i]).0 != key by {
            if i > 0 {
                assert(s[i] == s.drop_first()[i - 1]);
            }
        }
    }
}

/// Taking an entry out lowers the sum by its size.
pub proof fn lemma_total_remove(s: Seq<Item>, i: int)
    requires
        0 <= i < s.len(),
    ensures
        total_size(s.remove(i)) + s[i].1 == total_size(s),
    decreases s.len(),
{
    if i == 0 {
        assert(s.remove(0) =~= s.drop_first());
    } else {
        lemma_total_remove(s.drop_first(), i - 1);
        assert(s.remove(i).drop_first() =~= s.drop_first().remove(i - 1));
        assert(s.remove(i)[0] == s[0]);
    }
}

/// Adding an entry raises the sum by its size.
pub proof fn lemma_total_push(s: Seq<Item>, e: Item)
    ensures
        total_size(s.push(e)) == total_size(s) + e.1,
    decreases s.len(),
{
    if s.len() == 0 {
        assert(s.push(e).drop_first() =~= s);
    } else {
        lemma_total_push(s.drop_first(), e);
        assert(s.push(e).drop_first() =~= s.drop_first().push(e));
    }
}

/// With distinct keys, no entry with key `key` is left once the first one is
/// taken out.
pub proof fn lemma_without_drops_key(s: Seq<Item>, key: Seq<char>)
    requires
        distinct_keys(s),
    ensures
        distinct_keys(without(s, key)),
        forall|i: int| 0 <= i < without(s, key).len() ==> (#[trigger] without(s, key)[i]).0 != key,
{
    lemma_position_bounds(s, key);
    let p = position(s, key);
    let w = without(s, key);
    assert forall|i: int| 0 <= i < w.len() implies (#[trigger] w[i]).0 != key by {
        if p < s.len() {
            if i < p {
                assert(w[i] == s[i]);
            } else {
                assert(w[i] == s[i + 1]);
            }
        } else {
            assert(w[i] == s[i]);
        }
    }
    assert forall|i: int, j: int| 0 <= i < j < w.len() implies w[i].0 != w[j].0 by {
        if p < s.len() {
            let a = if i < p { i } else { i + 1 };
            let b = if j < p { j } else { j + 1 };
            assert(w[i] == s[a]);
            assert(w[j] == s[b]);
        }
    }
}

/// Enough of the oldest entries leave: what stays fits beside the newcomer,
/// or nothing stays.
pub proof fn lemma_evictions_make_room(s: Seq<Item>, size: u64, capacity: u64)
    ensures
        evictions(s, size, capacity) <= s.len(),
        evictions(s, size, capacity) == s.len() || total_size(
            s.subrange(evictions(s, size, capacity) as int, s.len() as int),
        ) + size <= capacity,
    decreases s.len(),
{
    if s.len() > 0 && total_size(s) + size > capacity {
        let t = s.drop_first();
        lemma_evictions_make_room(t, size, capacity);
        let k = evictions(t, size, capacity) as int;
        assert(s.subrange(k + 1, s.len() as int) =~= t.subrange(k, t.len() as int));
    } else {
        assert(s.subrange(0, s.len() as int) =~= s);
    }
}

/// After an insertion the key is held with the size that came in, and the
/// keys are still distinct.
pub proof fn lemma_insert_holds(s: Seq<Item>, key: Seq<char>, size: u64, capacity: u64)
    requires
        distinct_keys(s),
    ensures
        size_of(after_insert(s, key, size, capacity), key) == Some(size),
        distinct_keys(after_insert(s, key, size, capacity)),
{
    let rest = without(s, key);
    lemma_without_drops_key(s, key);
    lemma_evictions_make_room(rest, size, capacity);
    let k = evictions(rest, size, capacity) as int;
    let kept = rest.subrange(k, rest.len() as int);
    let now = after_insert(s, key, size, capacity);
    assert(now == kept.push((key, size)));
    assert forall|a: int, b: int| 0 <= a < b < now.len() implies now[a].0 != now[b].0 by {
        assert(now[a] == rest[k + a]);
        if b < kept.len() {
            assert(now[b] == rest[k + b]);
        }
    }
    lemma_position_bounds(now, key);
    assert(now[now.len() - 1].0 == key);
    if position(now, key) < now.len() - 1 {
        assert(now[position(now, key)] == rest[k + position(now, key)]);
    }
}

/// After an insertion the sizes add up to no more than the capacity, unless
/// the newcomer alone is larger: then it is the only entry held.
pub proof fn lemma_insert_respects_capacity(
    s: Seq<Item>,
    key: Seq<char>,
    size: u64,
    capacity: u64,
)
    ensures
        size <= capacity ==> total_size(after_insert(s, key, size, capacity)) <= capacity,
        size > capacity ==> after_insert(s, key, size, capacity) == seq![(key, size)],
        within(after_insert(s, key, size, capacity), capacity),
{
    let rest = without(s, key);
    lemma_evictions_make_room(rest, size, capacity);
    let k = evictions(rest, size, capacity) as int;
    let kept = rest.subrange(k, rest.len() as int);
    lemma_total_push(kept, (key, size));
    if k == rest.len() {
        assert(kept =~= Seq::<Item>::empty());
        assert(kept.push((key, size)) =~= seq![(key, size)]);
    }
}

/// The index of a cache of at most `capacity` bytes.  The entries stand in
/// order of use, the least recently used first.
#[derive(Debug)]
pub struct CacheIndex {
    pub entries: Vec<Entry>,
    pub capacity: u64,
    pub total: u64,
}

impl CacheIndex {
    /// The entries held, least recently used first.
    pub open spec fn items(&self) -> Seq<Item> {
        items(self.entries@)
    }

    /// The invariant of the index: keys are distinct, the recorded total is the
    /// sum of the sizes, and the entries respect the capacity.
    pub open spec fn wf(&self) -> bool {
        &&& distinct_keys(self.items())
        &&& self.total == total_size(self.items())
        &&& within(self.items(), self.capacity)
    }

    /// An empty index.
    pub fn new(capacity: u64) -> (r: CacheIndex)
        ensures
            r.wf(),
            r.items() == Seq::<Item>::empty(),
            r.capacity == capacity,
    {
        let r = CacheIndex { entries: Vec::new(), capacity, total: 0 };
        assert(r.items() =~= Seq::<Item>::empty());
        r
    }

    /// The number of bytes that the entries hold together.
    pub fn size(&self) -> (r: u64)
        requires
            self.wf(),
        ensures
            r == total_size(self.items()),
    {
        self.total
    }

    /// The number of entries.
    pub fn len(&self) -> (r: usize)
        ensures
            r == self.items().len(),
    {
        self.entries.len()
    }

    fn find(&self, key: &str) -> (r: usize)
        ensures
            r == position(self.items(), key@),
            r <= self.entries@.len(),
    {
        let n: usize = self.entries.len();
        let mut i: usize = 0;
        let ghost all = self.items();
        proof {
            assert(all.subrange(0, all.len() as int) =~= all);
        }
        while i < n
            invariant
                i <= n,
                n == self.entries@.len(),
                all == self.items(),
                position(all, key@) == i + position(all.subrange(i as int, n as int), key@),
            decreases n - i,
        {
            proof {
                assert(all.subrange(i as int, n as int).drop_first() =~= all.subrange(
                    i as int + 1,
                    n as int,
                ));
                assert(all.subrange(i as int, n as int)[0] == all[i as int]);
            }
            if str_eq(self.entries[i].key.as_str(), key) {
                return i;
            }
            i = i + 1;
        }
        i
    }

    /// The size recorded for `key`, or `None` where it is not held.  The
    /// order of use is left as it is.
    pub fn peek(&self, key: &str) -> (r: Option<u64>)
        ensures
            r == size_of(self.items(), key@),
    {
        let i: usize = self.find(key);
        if i < self.entries.len() {
            Some(self.entries[i].size)
        } else {
            None
        }
    }

    /// The size recorded for `key`, which becomes the most recently used
    /// entry, or `None` where it is not held.
    pub fn lookup(&mut self, key: &str) -> (r: Option<u64>)
        requires
            old(self).wf(),
        ensures
            final(self).wf(),
            final(self).capacity == old(self).capacity,
            r == size_of(old(self).items(), key@),
            final(self).items() == after_lookup(old(self).items(), key@),
    {
        let i: usize = self.find(key);
        if i < self.entries.len() {
            let ghost before = self.items();
            let e = self.entries.remove(i);
            let size: u64 = e.size;
            proof {
                lemma_position_bounds(before, key@);
                lemma_without_drops_key(before, key@);
                lemma_total_remove(before, i as int);
                assert(self.items() =~= before.remove(i as int));
            }
            let ghost mid = self.items();
            self.entries.push(e);
            proof {
                assert(self.items() =~= mid.push(before[i as int]));
                lemma_total_push(mid, before[i as int]);
                assert forall|a: int, b: int| 0 <= a < b < self.items().len() implies self.items()[a].0
                    != self.items()[b].0 by {
                    if b < mid.len() {
                        assert(self.items()[a] == mid[a]);
                        assert(self.items()[b] == mid[b]);
                    } else {
                        assert(self.items()[a] == mid[a]);
                    }
                }
                if before.len() == 1 {
                    assert(self.items().len() == 1);
                }
            }
            Some(size)
        } else {
            None
        }
    }

    /// Records that `key` came in with `size` bytes and returns the keys of
    /// the entries that have to leave, the least recently used first.
    ///
    /// Afterwards the sizes add up to no more than the capacity, unless the
    /// newcomer alone is larger: then it is the only entry.
    pub fn insert(&mut self, key: &str, size: u64) -> (evicted: Vec<String>)
        requires
            old(self).wf(),
        ensures
            final(self).wf(),
            final(self).capacity == old(self).capacity,
            final(self).items() == after_insert(
                old(self).items(),
                key@,
                size,
                old(self).capacity,
            ),
            views(evicted@) == keys_of(
                evicted_by(old(self).items(), key@, size, old(self).capacity),
            ),
            size <= old(self).capacity ==> total_size(final(self).items()) <= old(self).capacity,
            size > old(self).capacity ==> final(self).items() == seq![(key@, size)],
            size_of(final(self).items(), key@) == Some(size),
    {
        let ghost start = self.items();
        let i: usize = self.find(key);
        proof {
            lemma_position_bounds(start, key@);
            lemma_without_drops_key(start, key@);
        }
        if i < self.entries.len() {
            let e = self.entries.remove(i);
            proof {
                lemma_total_remove(start, i as int);
                assert(self.items() =~= start.remove(i as int));
            }
            self.total = self.total - e.size;
        }
        let ghost rest = self.items();
        assert(rest == without(start, key@));
        let mut evicted: Vec<String> = Vec::new();
        let ghost mut k: int = 0;
        proof {
            assert(rest.subrange(0, rest.len() as int) =~= rest);
            assert(views(evicted@) =~= Seq::new(0, |j: int| rest[j].0));
        }
        while self.entries.len() > 0 && (size > self.capacity || self.total > self.capacity - size)
            invariant
                0 <= k <= rest.len(),
                self.capacity == old(self).capacity,
                self.items() == rest.subrange(k, rest.len() as int),
                self.total == total_size(self.items()),
                evictions(rest, size, self.capacity) == k + evictions(
                    self.items(),
                    size,
                    self.capacity,
                ),
                views(evicted@) == Seq::new(k as nat, |j: int| rest[j].0),
            decreases self.entries@.len(),
        {
            let ghost cur = self.items();
            let ghost seen = views(evicted@);
            let e = self.entries.remove(0);
            proof {
                lemma_total_remove(cur, 0);
                assert(self.items() =~= cur.drop_first());
                assert(cur.remove(0) =~= cur.drop_first());
                assert(cur.drop_first() =~= rest.subrange(k + 1, rest.len() as int));
                assert(cur[0] == rest[k]);
            }
            self.total = self.total - e.size;
            evicted.push(e.key);
            proof {
                assert(views(evicted@) =~= seen.push(rest[k].0));
                assert(views(evicted@) =~= Seq::new((k + 1) as nat, |j: int| rest[j].0));
                k = k + 1;
            }
        }
        let ghost kept = self.items();
        proof {
            assert(evictions(kept, size, self.capacity) == 0);
            if kept.len() == 0 {
                assert(total_size(kept) == 0);
            }
        }
        self.entries.push(Entry { key: String::from_str(key), size });
        self.total = self.total + size;
        proof {
            assert(self.items() =~= kept.push((key@, size)));
            lemma_total_push(kept, (key@, size));
            lemma_insert_holds(start, key@, size, self.capacity);
            lemma_insert_respects_capacity(start, key@, size, self.capacity);
            assert(views(evicted@) =~= keys_of(evicted_by(start, key@, size, self.capacity)));
        }
        evicted
    }
}

} // verus!
