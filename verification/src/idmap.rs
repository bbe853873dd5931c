//! An association from numeric keys to values, kept canonically as a vector
//! of entries sorted by strictly increasing key.
//!
//! Reflection keys every table it produces by a number (an instruction result
//! ID, a specialization constant ID, an encoded set/binding pair), and the
//! observable contents of those tables must not depend on the order in which
//! entries were discovered. Keeping the entries sorted makes the
//! representation a function of the association itself.

use vstd::prelude::*;

verus! {

/// Looks `k` up in an entry sequence, first match wins.
pub open spec fn assoc_get<V>(s: Seq<(u64, V)>, k: u64) -> Option<V>
    decreases s.len(),
{
    if s.len() == 0 {
        None
    } else if s[0].0 == k {
        Some(s[0].1)
    } else {
        assoc_get(s.drop_first(), k)
    }
}

/// A map from `u64` keys to values, stored sorted by key.
#[derive(Debug)]
pub struct KeyMap<V> {
    entries: Vec<(u64, V)>,
}

impl<V> View for KeyMap<V> {
    type V = Map<u64, V>;

    open spec fn view(&self) -> Map<u64, V> {
        Map::new(
            |k: u64| assoc_get(self.entries(), k) is Some,
            |k: u64| assoc_get(self.entries(), k)->Some_0,
        )
    }
}

impl<V> KeyMap<V> {
    /// The entries in increasing key order.
    pub closed spec fn entries(self) -> Seq<(u64, V)> {
        self.entries@
    }

    /// Keys are strictly increasing.
    pub open spec fn wf(self) -> bool {
        forall|i: int, j: int|
            0 <= i < j < self.entries().len() ==> (#[trigger] self.entries()[i]).0
                < (#[trigger] self.entries()[j]).0
    }

    /// An empty map.
    pub fn new() -> (r: KeyMap<V>)
        ensures
            r@ == Map::<u64, V>::empty(),
            r.entries() == Seq::<(u64, V)>::empty(),
            r.wf(),
    {
        let r = KeyMap { entries: Vec::new() };
        proof {
            assert(r@ =~= Map::<u64, V>::empty());
        }
        r
    }

    /// The number of entries.
    pub fn len(&self) -> (r: usize)
        ensures
            r == self.entries().len(),
    {
        self.entries.len()
    }

    /// Whether the map holds no entry.
    pub fn is_empty(&self) -> (r: bool)
        ensures
            r == (self.entries().len() == 0),
            r == (self@.dom() =~= Set::<u64>::empty()),
    {
        proof {
            if self.entries().len() == 0 {
                assert(self@.dom() =~= Set::<u64>::empty());
            } else {
                let k = self.entries()[0].0;
                assert(assoc_get(self.entries(), k) is Some);
                assert(self@.dom().contains(k));
            }
        }
        self.entries.len() == 0
    }

    /// The entry at position `i` in key order.
    pub fn entry_at(&self, i: usize) -> (r: &(u64, V))
        requires
            i < self.entries().len(),
        ensures
            *r == self.entries()[i as int],
    {
        &self.entries[i]
    }

    /// Looks a key up.
    pub fn get(&self, k: u64) -> (r: Option<&V>)
        ensures
            match r {
                Some(v) => self@.contains_key(k) && *v == self@[k],
                None => !self@.contains_key(k),
            },
    {
        let n = self.entries.len();
        let mut i: usize = 0;
        proof {
            assert(self.entries().skip(0) =~= self.entries());
        }
        while i < n
            invariant
                n == self.entries().len(),
                i <= n,
                assoc_get(self.entries(), k) == assoc_get(self.entries().skip(i as int), k),
            decreases n - i,
        {
            proof {
                assert(self.entries().skip(i as int)[0] == self.entries()[i as int]);
                assert(self.entries().skip(i as int).drop_first() =~= self.entries().skip(
                    i as int + 1,
                ));
            }
            if self.entries[i].0 == k {
                return Some(&self.entries[i].1);
            }
            i = i + 1;
        }
        proof {
            assert(self.entries().skip(n as int) =~= Seq::<(u64, V)>::empty());
        }
        None
    }

    /// Whether a key is present.
    pub fn contains_key(&self, k: u64) -> (r: bool)
        ensures
            r == self@.contains_key(k),
    {
        self.get(k).is_some()
    }

    /// Inserts a key/value pair, replacing the value if the key is present.
    pub fn insert(&mut self, k: u64, v: V)
        requires
            old(self).wf(),
        ensures
            final(self).wf(),
            final(self)@ == old(self)@.insert(k, v),
            final(self).entries() == spec_entries_insert(old(self).entries(), k, v),
    {
        let ghost old_entries = self.entries@;
        let n = self.entries.len();
        let mut i: usize = 0;
        while i < n && self.entries[i].0 < k
            invariant
                n == self.entries@.len(),
                i <= n,
                self.entries@ == old_entries,
                forall|j: int| 0 <= j < i ==> (#[trigger] old_entries[j]).0 < k,
            decreases n - i,
        {
            i = i + 1;
        }
        if i < n && self.entries[i].0 == k {
            self.entries[i] = (k, v);
        } else {
            self.entries.insert(i, (k, v));
        }
        proof {
            assert(self.entries@ =~= spec_entries_insert(old_entries, k, v)) by {
                lemma_entries_insert_shape(old_entries, k, v, i as int);
            }
            lemma_entries_insert_wf(old_entries, k, v, *old(self));
            lemma_entries_insert_view(old_entries, k, v);
            assert(final(self)@ =~= old(self)@.insert(k, v));
        }
    }
}

/// A sequence in which no key occurs twice.
pub open spec fn distinct_keys<V>(s: Seq<(u64, V)>) -> bool {
    forall|i: int, j: int|
        0 <= i < j < s.len() ==> (#[trigger] s[i]).0 != (#[trigger] s[j]).0
}

/// A key that no entry holds is not found.
pub proof fn lemma_assoc_get_none<V>(s: Seq<(u64, V)>, q: u64)
    requires
        forall|i: int| 0 <= i < s.len() ==> (#[trigger] s[i]).0 != q,
    ensures
        assoc_get(s, q) is None,
    decreases s.len(),
{
    if s.len() > 0 {
        assert forall|i: int| 0 <= i < s.drop_first().len() implies (#[trigger] s.drop_first()[
            i
        ]).0 != q by {
            assert(s.drop_first()[i] == s[i + 1]);
        }
        lemma_assoc_get_none(s.drop_first(), q);
    }
}

/// With distinct keys, the entry at any position is what lookup finds.
pub proof fn lemma_assoc_get_at<V>(s: Seq<(u64, V)>, i: int)
    requires
        distinct_keys(s),
        0 <= i < s.len(),
    ensures
        assoc_get(s, s[i].0) == Some(s[i].1),
    decreases i,
{
    if i == 0 {
    } else {
        assert(s[0].0 != s[i].0);
        let t = s.drop_first();
        assert forall|a: int, b: int| 0 <= a < b < t.len() implies (#[trigger] t[a]).0
            != (#[trigger] t[b]).0 by {
            assert(t[a] == s[a + 1]);
            assert(t[b] == s[b + 1]);
        }
        assert(t[i - 1] == s[i]);
        lemma_assoc_get_at(t, i - 1);
    }
}

/// A found key is held by some entry.
pub proof fn lemma_assoc_get_some_index<V>(s: Seq<(u64, V)>, q: u64) -> (i: int)
    requires
        assoc_get(s, q) is Some,
    ensures
        0 <= i < s.len(),
        s[i].0 == q,
        assoc_get(s, q) == Some(s[i].1),
    decreases s.len(),
{
    if s.len() > 0 && s[0].0 == q {
        0
    } else {
        let j = lemma_assoc_get_some_index(s.drop_first(), q);
        assert(s.drop_first()[j] == s[j + 1]);
        j + 1
    }
}

impl<V: Copy> KeyMap<V> {
    /// An independent copy.
    pub fn duplicate(&self) -> (r: KeyMap<V>)
        ensures
            r.entries() == self.entries(),
            r@ == self@,
            r.wf() == self.wf(),
    {
        let mut entries: Vec<(u64, V)> = Vec::new();
        let n = self.entries.len();
        let mut i: usize = 0;
        while i < n
            invariant
                n == self.entries@.len(),
                i <= n,
                entries@ == self.entries@.subrange(0, i as int),
            decreases n - i,
        {
            entries.push(self.entries[i]);
            proof {
                assert(entries@ =~= self.entries@.subrange(0, i as int + 1));
            }
            i = i + 1;
        }
        proof {
            assert(entries@ =~= self.entries@);
        }
        let r = KeyMap { entries };
        proof {
            assert(r@ =~= self@);
        }
        r
    }
}

/// Two sorted entry sequences with the same association are identical.
proof fn lemma_sorted_assoc_canonical<V>(s1: Seq<(u64, V)>, s2: Seq<(u64, V)>)
    requires
        forall|i: int, j: int|
            0 <= i < j < s1.len() ==> (#[trigger] s1[i]).0 < (#[trigger] s1[j]).0,
        forall|i: int, j: int|
            0 <= i < j < s2.len() ==> (#[trigger] s2[i]).0 < (#[trigger] s2[j]).0,
        forall|q: u64| #[trigger] assoc_get(s1, q) == assoc_get(s2, q),
    ensures
        s1 == s2,
    decreases s1.len(),
{
    if s1.len() == 0 {
        if s2.len() > 0 {
            assert(assoc_get(s2, s2[0].0) == Some(s2[0].1));
            assert(assoc_get(s1, s2[0].0) is None);
        }
        assert(s1 =~= s2);
    } else if s2.len() == 0 {
        assert(assoc_get(s1, s1[0].0) == Some(s1[0].1));
        assert(assoc_get(s2, s1[0].0) is None);
    } else {
        let k1 = s1[0].0;
        let k2 = s2[0].0;
        assert(assoc_get(s1, k1) == Some(s1[0].1));
        assert(assoc_get(s2, k2) == Some(s2[0].1));
        let i = lemma_assoc_get_some_index(s2, k1);
        assert(k2 <= k1) by {
            if i > 0 {
                assert(s2[0].0 < s2[i].0);
            }
        }
        let j = lemma_assoc_get_some_index(s1, k2);
        assert(k1 <= k2) by {
            if j > 0 {
                assert(s1[0].0 < s1[j].0);
            }
        }
        assert(s1[0] == s2[0]);
        let t1 = s1.drop_first();
        let t2 = s2.drop_first();
        assert forall|a: int, b: int| 0 <= a < b < t1.len() implies (#[trigger] t1[a]).0
            < (#[trigger] t1[b]).0 by {
            assert(t1[a] == s1[a + 1]);
            assert(t1[b] == s1[b + 1]);
        }
        assert forall|a: int, b: int| 0 <= a < b < t2.len() implies (#[trigger] t2[a]).0
            < (#[trigger] t2[b]).0 by {
            assert(t2[a] == s2[a + 1]);
            assert(t2[b] == s2[b + 1]);
        }
        assert forall|q: u64| #[trigger] assoc_get(t1, q) == assoc_get(t2, q) by {
            if q == k1 {
                assert forall|a: int| 0 <= a < t1.len() implies (#[trigger] t1[a]).0 != q by {
                    assert(t1[a] == s1[a + 1]);
                    assert(s1[0].0 < s1[a + 1].0);
                }
                assert forall|a: int| 0 <= a < t2.len() implies (#[trigger] t2[a]).0 != q by {
                    assert(t2[a] == s2[a + 1]);
                    assert(s2[0].0 < s2[a + 1].0);
                }
                lemma_assoc_get_none(t1, q);
                lemma_assoc_get_none(t2, q);
            } else {
                assert(assoc_get(s1, q) == assoc_get(t1, q));
                assert(assoc_get(s2, q) == assoc_get(t2, q));
            }
        }
        lemma_sorted_assoc_canonical(t1, t2);
        assert(s1 =~= s2) by {
            assert forall|a: int| 0 <= a < s1.len() implies s1[a] == s2[a] by {
                if a > 0 {
                    assert(t1[a - 1] == s1[a]);
                    assert(t2[a - 1] == s2[a]);
                }
            }
        }
    }
}

impl<V> KeyMap<V> {
    /// The sorted representation is canonical: two well-formed maps holding
    /// the same association hold identical entry vectors, so everything a
    /// map makes observable, its entry order included, is a function of the
    /// association alone.
    pub proof fn lemma_view_determines_entries(self, other: KeyMap<V>)
        requires
            self.wf(),
            other.wf(),
            self@ == other@,
        ensures
            self.entries() == other.entries(),
    {
        assert forall|q: u64| #[trigger]
            assoc_get(self.entries(), q) == assoc_get(other.entries(), q) by {
            if assoc_get(self.entries(), q) is Some {
                assert(self@.contains_key(q));
                assert(other@.contains_key(q));
                assert(assoc_get(other.entries(), q) is Some);
                assert(assoc_get(self.entries(), q)->Some_0 == self@[q]);
                assert(assoc_get(other.entries(), q)->Some_0 == other@[q]);
                assert(self@[q] == other@[q]);
            } else if assoc_get(other.entries(), q) is Some {
                assert(other@.contains_key(q));
                assert(self@.contains_key(q));
            }
        }
        lemma_sorted_assoc_canonical(self.entries(), other.entries());
    }
}

impl<V> KeyMap<V> {
    /// Sorted entries have distinct keys, and each entry is what the map
    /// associates to its key.
    pub proof fn lemma_entries_agree_with_view(self)
        requires
            self.wf(),
        ensures
            distinct_keys(self.entries()),
            forall|i: int|
                0 <= i < self.entries().len() ==> self@.contains_key(
                    (#[trigger] self.entries()[i]).0,
                ) && self@[self.entries()[i].0] == self.entries()[i].1,
    {
        assert forall|i: int| 0 <= i < self.entries().len() implies self@.contains_key(
            (#[trigger] self.entries()[i]).0,
        ) && self@[self.entries()[i].0] == self.entries()[i].1 by {
            lemma_assoc_get_at(self.entries(), i);
        }
    }
}

/// Where `k` lands in a sorted entry sequence: the index of the first key
/// that is not below `k`.
pub open spec fn spec_insert_pos<V>(s: Seq<(u64, V)>, k: u64) -> int
    decreases s.len(),
{
    if s.len() == 0 {
        0
    } else if s[0].0 >= k {
        0
    } else {
        1 + spec_insert_pos(s.drop_first(), k)
    }
}

/// The entry sequence after a sorted insert of `(k, v)`.
pub open spec fn spec_entries_insert<V>(s: Seq<(u64, V)>, k: u64, v: V) -> Seq<(u64, V)> {
    let p = spec_insert_pos(s, k);
    if p < s.len() && s[p].0 == k {
        s.update(p, (k, v))
    } else {
        s.subrange(0, p).push((k, v)) + s.skip(p)
    }
}

proof fn lemma_insert_pos_bounds<V>(s: Seq<(u64, V)>, k: u64)
    ensures
        0 <= spec_insert_pos(s, k) <= s.len(),
        forall|j: int| 0 <= j < spec_insert_pos(s, k) ==> (#[trigger] s[j]).0 < k,
    decreases s.len(),
{
    if s.len() > 0 && s[0].0 < k {
        lemma_insert_pos_bounds(s.drop_first(), k);
        assert forall|j: int| 0 <= j < spec_insert_pos(s, k) implies (#[trigger] s[j]).0 < k by {
            if j > 0 {
                assert(s.drop_first()[j - 1] == s[j]);
            }
        }
    }
}

proof fn lemma_entries_insert_shape<V>(s: Seq<(u64, V)>, k: u64, v: V, i: int)
    requires
        0 <= i <= s.len(),
        forall|j: int| 0 <= j < i ==> (#[trigger] s[j]).0 < k,
        i < s.len() ==> s[i].0 >= k,
    ensures
        spec_insert_pos(s, k) == i,
    decreases s.len(),
{
    if s.len() == 0 {
    } else if s[0].0 >= k {
        assert(i == 0) by {
            if i > 0 {
                assert(s[0].0 < k);
            }
        }
    } else {
        assert(s[0].0 < k);
        assert(i >= 1);
        let t = s.drop_first();
        assert forall|j: int| 0 <= j < i - 1 implies (#[trigger] t[j]).0 < k by {
            assert(t[j] == s[j + 1]);
        }
        assert(i - 1 < t.len() ==> t[i - 1].0 >= k) by {
            if i - 1 < t.len() {
                assert(t[i - 1] == s[i]);
            }
        }
        lemma_entries_insert_shape(t, k, v, i - 1);
    }
}

proof fn lemma_entries_insert_wf<V>(s: Seq<(u64, V)>, k: u64, v: V, m: KeyMap<V>)
    requires
        m.entries() == s,
        m.wf(),
    ensures
        forall|i: int, j: int|
            0 <= i < j < spec_entries_insert(s, k, v).len() ==> (#[trigger] spec_entries_insert(
                s,
                k,
                v,
            )[i]).0 < (#[trigger] spec_entries_insert(s, k, v)[j]).0,
{
    let p = spec_insert_pos(s, k);
    lemma_insert_pos_bounds(s, k);
    let t = spec_entries_insert(s, k, v);
    if p < s.len() && s[p].0 == k {
        assert forall|i: int, j: int| 0 <= i < j < t.len() implies (#[trigger] t[i]).0
            < (#[trigger] t[j]).0 by {
            assert(s[i].0 < s[j].0);
        }
    } else {
        assert(p < s.len() ==> s[p].0 > k) by {
            if p < s.len() {
                lemma_insert_pos_at(s, k);
            }
        }
        assert forall|i: int, j: int| 0 <= i < j < t.len() implies (#[trigger] t[i]).0
            < (#[trigger] t[j]).0 by {
            if i < p {
                assert(t[i] == s[i]);
            } else if i > p {
                assert(t[i] == s[i - 1]);
            }
            if j < p {
                assert(t[j] == s[j]);
            } else if j > p {
                assert(t[j] == s[j - 1]);
            }
            if i < p && j == p {
                assert(s[i].0 < k);
            }
            if i == p && j > p {
                assert(s[j - 1].0 >= k);
                if s[j - 1].0 == k {
                    assert(p < s.len() && s[p].0 > k && p <= j - 1);
                    assert(s[p].0 <= s[j - 1].0);
                }
            }
        }
    }
}

proof fn lemma_assoc_get_update<V>(s: Seq<(u64, V)>, p: int, k: u64, v: V, q: u64)
    requires
        0 <= p < s.len(),
        s[p].0 == k,
        forall|j: int| 0 <= j < p ==> (#[trigger] s[j]).0 != k,
    ensures
        assoc_get(s.update(p, (k, v)), q) == if q == k {
            Some(v)
        } else {
            assoc_get(s, q)
        },
    decreases s.len(),
{
    if p == 0 {
        if q != k {
            assert(s.update(p, (k, v)).drop_first() =~= s.drop_first());
        }
    } else {
        assert(s.update(p, (k, v)).drop_first() =~= s.drop_first().update(p - 1, (k, v)));
        assert forall|j: int| 0 <= j < p - 1 implies (#[trigger] s.drop_first()[j]).0 != k by {
            assert(s.drop_first()[j] == s[j + 1]);
        }
        lemma_assoc_get_update(s.drop_first(), p - 1, k, v, q);
    }
}

proof fn lemma_assoc_get_splice<V>(s: Seq<(u64, V)>, p: int, k: u64, v: V, q: u64)
    requires
        0 <= p <= s.len(),
        forall|j: int| 0 <= j < p ==> (#[trigger] s[j]).0 < k,
        p < s.len() ==> s[p].0 > k,
    ensures
        assoc_get(s.subrange(0, p).push((k, v)) + s.skip(p), q) == if q == k {
            Some(v)
        } else {
            assoc_get(s, q)
        },
    decreases p,
{
    let t = s.subrange(0, p).push((k, v)) + s.skip(p);
    if p == 0 {
        assert(t[0] == (k, v));
        assert(t.drop_first() =~= s);
    } else {
        assert(t[0] == s[0]);
        assert(s[0].0 < k);
        let s1 = s.drop_first();
        assert forall|j: int| 0 <= j < p - 1 implies (#[trigger] s1[j]).0 < k by {
            assert(s1[j] == s[j + 1]);
        }
        assert(p - 1 < s1.len() ==> s1[p - 1].0 > k) by {
            if p - 1 < s1.len() {
                assert(s1[p - 1] == s[p]);
            }
        }
        assert(t.drop_first() =~= s1.subrange(0, p - 1).push((k, v)) + s1.skip(p - 1)) by {
            assert(t.drop_first().len() == s1.len() + 1);
            assert forall|j: int| 0 <= j < t.drop_first().len() implies t.drop_first()[j] == (
            s1.subrange(0, p - 1).push((k, v)) + s1.skip(p - 1))[j] by {}
        }
        lemma_assoc_get_splice(s1, p - 1, k, v, q);
        if q == k {
            assert(t[0].0 != q);
            assert(assoc_get(t, q) == assoc_get(t.drop_first(), q));
        } else if s[0].0 == q {
            assert(assoc_get(t, q) == Some(t[0].1));
            assert(assoc_get(s, q) == Some(s[0].1));
        } else {
            assert(assoc_get(t, q) == assoc_get(t.drop_first(), q));
            assert(assoc_get(s, q) == assoc_get(s1, q));
        }
    }
}

proof fn lemma_entries_insert_view<V>(s: Seq<(u64, V)>, k: u64, v: V)
    ensures
        forall|q: u64| #[trigger] assoc_get(spec_entries_insert(s, k, v), q) == if q == k {
            Some(v)
        } else {
            assoc_get(s, q)
        },
{
    let p = spec_insert_pos(s, k);
    lemma_insert_pos_bounds(s, k);
    assert forall|q: u64| #[trigger] assoc_get(spec_entries_insert(s, k, v), q) == (if q == k {
        Some(v)
    } else {
        assoc_get(s, q)
    }) by {
        if p < s.len() && s[p].0 == k {
            assert forall|j: int| 0 <= j < p implies (#[trigger] s[j]).0 != k by {
                assert(s[j].0 < k);
            }
            lemma_assoc_get_update(s, p, k, v, q);
        } else {
            assert(p < s.len() ==> s[p].0 > k) by {
                if p < s.len() {
                    lemma_insert_pos_at(s, k);
                }
            }
            lemma_assoc_get_splice(s, p, k, v, q);
        }
    }
}

proof fn lemma_insert_pos_at<V>(s: Seq<(u64, V)>, k: u64)
    requires
        spec_insert_pos(s, k) < s.len(),
    ensures
        s[spec_insert_pos(s, k)].0 >= k,
    decreases s.len(),
{
    if s.len() > 0 && s[0].0 < k {
        let t = s.drop_first();
        let p = spec_insert_pos(s, k);
        assert(p == 1 + spec_insert_pos(t, k));
        lemma_insert_pos_bounds(t, k);
        lemma_insert_pos_at(t, k);
        assert(t[p - 1] == s[p]);
    }
}

} // verus!
