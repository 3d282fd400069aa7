//! Aggregation buffer: the byte counts of the current open interval, keyed by
//! traffic class. Keys are unique; a recorded frame adds its length to the
//! count of its key, saturating at the largest representable count.

use vstd::prelude::*;
use vstd::seq_lib::{commutative_foldr, lemma_fold_right_permutation};

use crate::codec::HeaderKey;

verus! {

/// Whether the association sequence holds each key at most once.
pub open spec fn distinct_keys(s: Seq<(HeaderKey, u64)>) -> bool {
    forall|i: int, j: int|
        0 <= i < s.len() && 0 <= j < s.len() && i != j ==> (#[trigger] s[i]).0 != (
        #[trigger] s[j]).0
}

/// Whether `k` is present in the association sequence.
pub open spec fn has_key(s: Seq<(HeaderKey, u64)>, k: HeaderKey) -> bool {
    exists|i: int| 0 <= i < s.len() && (#[trigger] s[i]).0 == k
}

/// The count stored under `k`: a key never recorded counts zero.
pub open spec fn count_of(s: Seq<(HeaderKey, u64)>, k: HeaderKey) -> u64 {
    if has_key(s, k) {
        s[choose|i: int| 0 <= i < s.len() && (#[trigger] s[i]).0 == k].1
    } else {
        0
    }
}

/// Addition that stops at the largest `u64` instead of wrapping.
pub open spec fn sat_add(a: u64, b: u64) -> u64 {
    if a + b <= u64::MAX {
        (a + b) as u64
    } else {
        u64::MAX
    }
}

/// The sum of the lengths of the updates whose key is `k`.
pub open spec fn sum_for(updates: Seq<(HeaderKey, u64)>, k: HeaderKey) -> int
    decreases updates.len(),
{
    if updates.len() == 0 {
        0
    } else {
        sum_for(updates.drop_last(), k) + if updates.last().0 == k {
            updates.last().1 as int
        } else {
            0
        }
    }
}

/// Mapping from traffic class to accumulated byte count for the current open
/// interval. Replaced, not cleared in place, when an interval closes.
pub struct AggregationBuffer {
    entries: Vec<(HeaderKey, u64)>,
}

impl View for AggregationBuffer {
    type V = Seq<(HeaderKey, u64)>;

    closed spec fn view(&self) -> Seq<(HeaderKey, u64)> {
        self.entries@
    }
}

proof fn lemma_count_at_witness(s: Seq<(HeaderKey, u64)>, i: int)
    requires
        distinct_keys(s),
        0 <= i < s.len(),
    ensures
        has_key(s, s[i].0),
        count_of(s, s[i].0) == s[i].1,
{
    let k = s[i].0;
    assert(has_key(s, k));
    let j = choose|j: int| 0 <= j < s.len() && (#[trigger] s[j]).0 == k;
    assert(j == i);
}

proof fn lemma_update_entry(s: Seq<(HeaderKey, u64)>, i: int, v: u64)
    requires
        distinct_keys(s),
        0 <= i < s.len(),
    ensures
        distinct_keys(s.update(i, (s[i].0, v))),
        has_key(s.update(i, (s[i].0, v)), s[i].0),
        count_of(s.update(i, (s[i].0, v)), s[i].0) == v,
        forall|k2: HeaderKey|
            k2 != s[i].0 ==> #[trigger] count_of(s.update(i, (s[i].0, v)), k2) == count_of(s, k2)
                && (has_key(s.update(i, (s[i].0, v)), k2) <==> has_key(s, k2)),
{
    let k = s[i].0;
    let t = s.update(i, (k, v));
    assert(forall|m: int| 0 <= m < s.len() && m != i ==> #[trigger] t[m] == s[m]);
    lemma_count_at_witness(t, i);
    assert forall|k2: HeaderKey| k2 != k implies #[trigger] count_of(t, k2) == count_of(s, k2) && (
    has_key(t, k2) <==> has_key(s, k2)) by {
        if has_key(s, k2) {
            let m = choose|m: int| 0 <= m < s.len() && (#[trigger] s[m]).0 == k2;
            assert(t[m].0 == k2);
            lemma_count_at_witness(t, m);
            lemma_count_at_witness(s, m);
        } else if has_key(t, k2) {
            let m = choose|m: int| 0 <= m < t.len() && (#[trigger] t[m]).0 == k2;
            assert(s[m].0 == k2);
        }
    }
}

proof fn lemma_push_entry(s: Seq<(HeaderKey, u64)>, k: HeaderKey, v: u64)
    requires
        distinct_keys(s),
        !has_key(s, k),
    ensures
        distinct_keys(s.push((k, v))),
        has_key(s.push((k, v)), k),
        count_of(s.push((k, v)), k) == v,
        forall|k2: HeaderKey|
            k2 != k ==> #[trigger] count_of(s.push((k, v)), k2) == count_of(s, k2) && (has_key(
                s.push((k, v)),
                k2,
            ) <==> has_key(s, k2)),
{
    let t = s.push((k, v));
    assert(forall|m: int| 0 <= m < s.len() ==> #[trigger] t[m] == s[m]);
    assert(forall|m: int| 0 <= m < s.len() ==> (#[trigger] t[m]).0 != k);
    assert(t[s.len() as int].0 == k);
    lemma_count_at_witness(t, s.len() as int);
    assert forall|k2: HeaderKey| k2 != k implies #[trigger] count_of(t, k2) == count_of(s, k2) && (
    has_key(t, k2) <==> has_key(s, k2)) by {
        if has_key(s, k2) {
            let m = choose|m: int| 0 <= m < s.len() && (#[trigger] s[m]).0 == k2;
            assert(t[m].0 == k2);
            lemma_count_at_witness(t, m);
            lemma_count_at_witness(s, m);
        } else if has_key(t, k2) {
            let m = choose|m: int| 0 <= m < t.len() && (#[trigger] t[m]).0 == k2;
            assert(s[m].0 == k2);
        }
    }
}

impl AggregationBuffer {
    /// Keys are unique, so a count is well defined.
    pub open spec fn wf(&self) -> bool {
        distinct_keys(self@)
    }

    /// An empty buffer: every key counts zero.
    pub fn new() -> (r: Self)
        ensures
            r.wf(),
            r@.len() == 0,
            forall|k: HeaderKey| count_of(r@, k) == 0 && !has_key(r@, k),
    {
        AggregationBuffer { entries: Vec::new() }
    }

    /// Adds `len` bytes to the count of `key`, inserting the key if it is new.
    pub fn record(&mut self, key: HeaderKey, len: u64)
        requires
            old(self).wf(),
        ensures
            final(self).wf(),
            count_of(final(self)@, key) == sat_add(count_of(old(self)@, key), len),
            has_key(final(self)@, key),
            forall|k2: HeaderKey|
                k2 != key ==> #[trigger] count_of(final(self)@, k2) == count_of(old(self)@, k2) && (
                has_key(final(self)@, k2) <==> has_key(old(self)@, k2)),
            final(self)@.len() <= old(self)@.len() + 1,
    {
        let n = self.entries.len();
        let mut i: usize = 0;
        while i < n
            invariant
                n == self.entries.len(),
                i <= n,
                self == old(self),
                old(self).wf(),
                forall|j: int| 0 <= j < i ==> (#[trigger] self.entries@[j]).0 != key,
            decreases n - i,
        {
            if self.entries[i].0 == key {
                let cur = self.entries[i].1;
                let updated = if cur <= u64::MAX - len {
                    cur + len
                } else {
                    u64::MAX
                };
                proof {
                    lemma_count_at_witness(self@, i as int);
                    lemma_update_entry(self@, i as int, updated);
                }
                self.entries.set(i, (key, updated));
                return ;
            }
            i = i + 1;
        }
        proof {
            assert(!has_key(self@, key));
            lemma_push_entry(self@, key, len);
        }
        self.entries.push((key, len));
    }

    /// The accumulated count of `key`.
    pub fn get(&self, key: HeaderKey) -> (r: u64)
        requires
            self.wf(),
        ensures
            r == count_of(self@, key),
    {
        let n = self.entries.len();
        let mut i: usize = 0;
        while i < n
            invariant
                n == self.entries.len(),
                i <= n,
                self.wf(),
                forall|j: int| 0 <= j < i ==> (#[trigger] self.entries@[j]).0 != key,
            decreases n - i,
        {
            if self.entries[i].0 == key {
                proof {
                    lemma_count_at_witness(self@, i as int);
                }
                return self.entries[i].1;
            }
            i = i + 1;
        }
        proof {
            assert(!has_key(self@, key));
        }
        0
    }

    /// Records a whole batch of `(key, length)` pairs. The count of every key
    /// afterwards is its count before plus the summed lengths recorded for it:
    /// accumulation depends only on what was recorded, not on arrival order.
    pub fn record_all(&mut self, updates: &Vec<(HeaderKey, u64)>)
        requires
            old(self).wf(),
            forall|k: HeaderKey|
                #[trigger] count_of(old(self)@, k) + sum_for(updates@, k) <= u64::MAX,
        ensures
            final(self).wf(),
            forall|k: HeaderKey|
                #[trigger] count_of(final(self)@, k) == count_of(old(self)@, k) + sum_for(
                    updates@,
                    k,
                ),
    {
        let n = updates.len();
        let mut i: usize = 0;
        proof {
            assert(forall|k: HeaderKey| #[trigger] sum_for(updates@.subrange(0, 0), k) == 0);
        }
        while i < n
            invariant
                n == updates.len(),
                i <= n,
                self.wf(),
                old(self).wf(),
                forall|k: HeaderKey|
                    #[trigger] count_of(old(self)@, k) + sum_for(updates@, k) <= u64::MAX,
                forall|k: HeaderKey|
                    #[trigger] count_of(self@, k) == count_of(old(self)@, k) + sum_for(
                        updates@.subrange(0, i as int),
                        k,
                    ),
            decreases n - i,
        {
            let (key, len) = updates[i];
            proof {
                lemma_sum_for_prefix_bound(updates@, i as int + 1, key);
                assert(updates@.subrange(0, i as int + 1).drop_last() =~= updates@.subrange(
                    0,
                    i as int,
                ));
                assert(updates@.subrange(0, i as int + 1).last() == updates@[i as int]);
                assert forall|k: HeaderKey| #[trigger]
                    sum_for(updates@.subrange(0, i as int + 1), k) == sum_for(
                        updates@.subrange(0, i as int),
                        k,
                    ) + if k == key {
                        len as int
                    } else {
                        0
                    } by {
                    assert(updates@.subrange(0, i as int + 1).drop_last() =~= updates@.subrange(
                        0,
                        i as int,
                    ));
                }
            }
            self.record(key, len);
            i = i + 1;
        }
        proof {
            assert(updates@.subrange(0, n as int) =~= updates@);
        }
    }

    /// Hands the buffer's contents out and leaves it empty, so a closed
    /// interval can be consumed independently of the new open one.
    pub fn take(&mut self) -> (r: Self)
        ensures
            r == *old(self),
            final(self).wf(),
            final(self)@.len() == 0,
            forall|k: HeaderKey| count_of(final(self)@, k) == 0 && !has_key(final(self)@, k),
    {
        let mut other = AggregationBuffer::new();
        core::mem::swap(self, &mut other);
        other
    }

    /// How many distinct keys the buffer holds.
    pub fn len(&self) -> (r: usize)
        ensures
            r == self@.len(),
    {
        self.entries.len()
    }

    /// The entry at position `i`.
    pub fn entry(&self, i: usize) -> (r: (HeaderKey, u64))
        requires
            i < self@.len(),
        ensures
            r == self@[i as int],
    {
        self.entries[i]
    }
}

/// Every partial sum of recorded lengths is bounded by the total sum.
proof fn lemma_sum_for_prefix_bound(updates: Seq<(HeaderKey, u64)>, i: int, k: HeaderKey)
    requires
        0 <= i <= updates.len(),
    ensures
        0 <= sum_for(updates.subrange(0, i), k) <= sum_for(updates, k),
        0 <= sum_for(updates, k),
    decreases updates.len(),
{
    if updates.len() == 0 {
    } else if i == updates.len() {
        assert(updates.subrange(0, i) =~= updates);
        lemma_sum_for_prefix_bound(updates.drop_last(), updates.len() - 1, k);
        assert(updates.drop_last().subrange(0, updates.len() - 1) =~= updates.drop_last());
    } else {
        lemma_sum_for_prefix_bound(updates.drop_last(), i, k);
        assert(updates.drop_last().subrange(0, i) =~= updates.subrange(0, i));
    }
}

/// `sum_for` written as a right fold, to borrow the library's permutation
/// argument.
proof fn lemma_sum_for_as_fold(updates: Seq<(HeaderKey, u64)>, k: HeaderKey, base: int)
    ensures
        updates.fold_right(
            |u: (HeaderKey, u64), acc: int|
                if u.0 == k {
                    acc + u.1
                } else {
                    acc
                },
            base,
        ) == base + sum_for(updates, k),
    decreases updates.len(),
{
    let f = |u: (HeaderKey, u64), acc: int|
        if u.0 == k {
            acc + u.1
        } else {
            acc
        };
    if updates.len() > 0 {
        lemma_sum_for_as_fold(updates.drop_last(), k, f(updates.last(), base));
    }
}

/// The accumulated count does not depend on the order frames arrive in: two
/// interleavings that record the same frames give every key the same sum.
pub proof fn lemma_accumulation_commutes(
    s1: Seq<(HeaderKey, u64)>,
    s2: Seq<(HeaderKey, u64)>,
    k: HeaderKey,
)
    requires
        s1.to_multiset() == s2.to_multiset(),
    ensures
        sum_for(s1, k) == sum_for(s2, k),
{
    let f = |u: (HeaderKey, u64), acc: int|
        if u.0 == k {
            acc + u.1
        } else {
            acc
        };
    assert(commutative_foldr(f));
    lemma_fold_right_permutation(s1, s2, f, 0);
    lemma_sum_for_as_fold(s1, k, 0);
    lemma_sum_for_as_fold(s2, k, 0);
}

} // verus!
