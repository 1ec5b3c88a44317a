//! Time Map
//!
//! An ordered collection of elements, indexed by timestamp but where
//! duplicate timestamps are allowed (in which case the first-inserted ones
//! come first).
//!
//! Supports iteration and popping from the front, but otherwise does not
//! support direct indexing or random access.

use crate::units::UtcTime;
use vstd::prelude::*;

verus! {

/// Whether the entries are ordered by time (ties allowed)
pub open spec fn sorted_by_time<V>(s: Seq<(UtcTime, V)>) -> bool {
    forall|i: int, j: int| 0 <= i <= j < s.len() ==> s[i].0@ <= s[j].0@
}

/// The number of entries whose time is at most `t`: the position at which
/// an entry for time `t` is inserted
pub open spec fn upper_bound<V>(s: Seq<(UtcTime, V)>, t: int) -> int
    decreases s.len(),
{
    if s.len() == 0 {
        0
    } else if s.last().0@ <= t {
        s.len() as int
    } else {
        upper_bound(s.drop_last(), t)
    }
}

/// The insertion point lies within the sequence
pub proof fn lemma_upper_bound_range<V>(s: Seq<(UtcTime, V)>, t: int)
    ensures
        0 <= upper_bound(s, t) <= s.len(),
    decreases s.len(),
{
    if s.len() > 0 {
        lemma_upper_bound_range(s.drop_last(), t);
    }
}

/// The number of entries whose time is strictly before `t`
pub open spec fn lower_bound<V>(s: Seq<(UtcTime, V)>, t: int) -> int
    decreases s.len(),
{
    if s.len() == 0 {
        0
    } else if s.last().0@ < t {
        s.len() as int
    } else {
        lower_bound(s.drop_last(), t)
    }
}

/// The count of earlier entries lies within the sequence
pub proof fn lemma_lower_bound_range<V>(s: Seq<(UtcTime, V)>, t: int)
    ensures
        0 <= lower_bound(s, t) <= s.len(),
    decreases s.len(),
{
    if s.len() > 0 {
        lemma_lower_bound_range(s.drop_last(), t);
    }
}

/// In a sorted sequence, the entries before `upper_bound(s, t)` have times
/// at most `t` and the others have later times
pub proof fn lemma_upper_bound<V>(s: Seq<(UtcTime, V)>, t: int)
    requires
        sorted_by_time(s),
    ensures
        0 <= upper_bound(s, t) <= s.len(),
        forall|i: int| 0 <= i < upper_bound(s, t) ==> s[i].0@ <= t,
        forall|i: int| upper_bound(s, t) <= i < s.len() ==> s[i].0@ > t,
    decreases s.len(),
{
    if s.len() > 0 {
        let d = s.drop_last();
        assert(sorted_by_time(d)) by {
            assert forall|i: int, j: int| 0 <= i <= j < d.len() implies d[i].0@ <= d[j].0@ by {
                assert(d[i] == s[i] && d[j] == s[j]);
            }
        }
        lemma_upper_bound(d, t);
        if s.last().0@ <= t {
            assert forall|i: int| 0 <= i < s.len() implies s[i].0@ <= t by {
                assert(s[i].0@ <= s[s.len() - 1].0@);
            }
        } else {
            assert forall|i: int| 0 <= i < upper_bound(s, t) implies s[i].0@ <= t by {
                assert(d[i] == s[i]);
            }
            assert forall|i: int| upper_bound(s, t) <= i < s.len() implies s[i].0@ > t by {
                if i < s.len() - 1 {
                    assert(d[i] == s[i]);
                }
            }
        }
    }
}

/// In a sorted sequence, the entries before `lower_bound(s, t)` have times
/// before `t` and the others have times at or after `t`
pub proof fn lemma_lower_bound<V>(s: Seq<(UtcTime, V)>, t: int)
    requires
        sorted_by_time(s),
    ensures
        0 <= lower_bound(s, t) <= s.len(),
        forall|i: int| 0 <= i < lower_bound(s, t) ==> s[i].0@ < t,
        forall|i: int| lower_bound(s, t) <= i < s.len() ==> s[i].0@ >= t,
    decreases s.len(),
{
    if s.len() > 0 {
        let d = s.drop_last();
        assert(sorted_by_time(d)) by {
            assert forall|i: int, j: int| 0 <= i <= j < d.len() implies d[i].0@ <= d[j].0@ by {
                assert(d[i] == s[i] && d[j] == s[j]);
            }
        }
        lemma_lower_bound(d, t);
        if s.last().0@ < t {
            assert forall|i: int| 0 <= i < s.len() implies s[i].0@ < t by {
                assert(s[i].0@ <= s[s.len() - 1].0@);
            }
        } else {
            assert forall|i: int| 0 <= i < lower_bound(s, t) implies s[i].0@ < t by {
                assert(d[i] == s[i]);
            }
            assert forall|i: int| lower_bound(s, t) <= i < s.len() implies s[i].0@ >= t by {
                if i < s.len() - 1 {
                    assert(d[i] == s[i]);
                }
            }
        }
    }
}

/// A time-indexed map
#[derive(Debug)]
pub struct TimeMap<V> {
    entries: Vec<(UtcTime, V)>,
}

impl<V> TimeMap<V> {
    /// The entries are kept in time order
    #[verifier::type_invariant]
    spec fn inv(self) -> bool {
        sorted_by_time(self.entries@)
    }

    /// The entries, in time order (ties in insertion order)
    pub closed spec fn spec_entries(self) -> Seq<(UtcTime, V)> {
        self.entries@
    }

    /// Constructs a new empty time map
    pub fn new() -> (m: Self)
        ensures
            m@ == Seq::<(UtcTime, V)>::empty(),
            sorted_by_time(m@),
    {
        TimeMap { entries: Vec::new() }
    }

    /// Computes the number of stored entries
    pub fn len(&self) -> (n: usize)
        ensures
            n == self@.len(),
            sorted_by_time(self@),
    {
        proof {
            use_type_invariant(self);
        }
        self.entries.len()
    }

    /// Whether or not the map is empty
    pub fn is_empty(&self) -> (b: bool)
        ensures
            b == (self@.len() == 0),
    {
        self.entries.len() == 0
    }

    /// The entries, in time order (ties in insertion order)
    pub fn entries(&self) -> (r: &Vec<(UtcTime, V)>)
        ensures
            r@ == self@,
            sorted_by_time(self@),
    {
        proof {
            use_type_invariant(self);
        }
        &self.entries
    }

    /// The earliest entry, if one exists
    pub fn first(&self) -> (r: Option<&(UtcTime, V)>)
        ensures
            self@.len() == 0 ==> r is None,
            self@.len() > 0 ==> r == Some(&self@[0]),
    {
        if self.entries.len() == 0 {
            None
        } else {
            Some(&self.entries[0])
        }
    }

    /// Pops the first element from the map, if one exists
    pub fn pop_first(&mut self) -> (r: Option<(UtcTime, V)>)
        ensures
            old(self)@.len() == 0 ==> r is None && final(self)@ == old(self)@,
            old(self)@.len() > 0 ==> r == Some(old(self)@[0]) && final(self)@ == old(self)@.drop_first(),
            sorted_by_time(final(self)@),
    {
        proof {
            use_type_invariant(&*self);
        }
        if self.entries.len() == 0 {
            None
        } else {
            let ghost before = self.entries@;
            let mut entries = Vec::new();
            std::mem::swap(&mut entries, &mut self.entries);
            let e = entries.remove(0);
            assert(entries@ =~= before.drop_first());
            assert(sorted_by_time(entries@));
            self.entries = entries;
            Some(e)
        }
    }

    /// Pops the entry whose key under `maxfn` is greatest (the earliest
    /// such entry on ties), if there is one. This looks at every entry.
    pub fn pop_max<F: Fn(&V) -> i64>(&mut self, maxfn: F) -> (r: Option<(UtcTime, V)>)
        requires
            forall|v: &V| #[trigger] maxfn.requires((v,)),
        ensures
            old(self)@.len() == 0 ==> r is None && final(self)@ == old(self)@,
            old(self)@.len() > 0 ==> exists|i: int, ks: Seq<i64>| #![trigger ks[i]] {
                &&& 0 <= i < old(self)@.len()
                &&& ks.len() == old(self)@.len()
                &&& forall|j: int| 0 <= j < ks.len() ==> maxfn.ensures((&old(self)@[j].1,), #[trigger] ks[j])
                &&& forall|j: int| 0 <= j < ks.len() ==> #[trigger] ks[j] <= ks[i]
                &&& forall|j: int| 0 <= j < i ==> #[trigger] ks[j] < ks[i]
                &&& r == Some(old(self)@[i])
                &&& final(self)@ == old(self)@.remove(i)
            },
            sorted_by_time(final(self)@),
    {
        proof {
            use_type_invariant(&*self);
        }
        if self.entries.len() == 0 {
            return None;
        }
        let ghost before = self.entries@;
        let mut best: usize = 0;
        let mut best_key: i64 = maxfn(&self.entries[0].1);
        let ghost mut ks: Seq<i64> = seq![best_key];
        let mut j: usize = 1;
        while j < self.entries.len()
            invariant
                1 <= j <= self.entries@.len(),
                self.entries@ == before,
                best < j,
                ks.len() == j,
                best_key == ks[best as int],
                forall|v: &V| #[trigger] maxfn.requires((v,)),
                forall|k: int| 0 <= k < j ==> maxfn.ensures((&before[k].1,), #[trigger] ks[k]),
                forall|k: int| 0 <= k < j ==> #[trigger] ks[k] <= best_key,
                forall|k: int| 0 <= k < best ==> #[trigger] ks[k] < best_key,
            decreases self.entries@.len() - j,
        {
            let key = maxfn(&self.entries[j].1);
            proof {
                ks = ks.push(key);
            }
            if key > best_key {
                best = j;
                best_key = key;
            }
            j = j + 1;
        }
        let mut entries = Vec::new();
        std::mem::swap(&mut entries, &mut self.entries);
        let e = entries.remove(best);
        proof {
            assert(entries@ =~= before.remove(best as int));
            assert forall|a: int, b: int| 0 <= a < b < entries@.len() implies (#[trigger] entries@[a]).0@ <= (#[trigger] entries@[b]).0@ by {
                let a2 = if a < best { a } else { a + 1 };
                let b2 = if b < best { b } else { b + 1 };
                assert(entries@[a] == before[a2] && entries@[b] == before[b2]);
            }
            assert(sorted_by_time(entries@));
        }
        self.entries = entries;
        assert(ks[best as int] == best_key);
        Some(e)
    }

    /// Inserts a new element. Allows duplicates: an element inserted with
    /// the same timestamp as existing ones comes after them.
    pub fn insert(&mut self, time: UtcTime, item: V)
        ensures
            final(self)@ == old(self)@.insert(upper_bound(old(self)@, time@), (time, item)),
            sorted_by_time(final(self)@),
    {
        proof {
            use_type_invariant(&*self);
            lemma_upper_bound(self.entries@, time@);
        }
        let ghost before = self.entries@;
        let ghost p = upper_bound(before, time@);
        // Find the insertion point: after every entry at or before `time`
        let mut i: usize = self.entries.len();
        while i > 0 && time.lt(&self.entries[i - 1].0)
            invariant
                i <= self.entries@.len(),
                self.entries@ == before,
                sorted_by_time(before),
                forall|j: int| i <= j < before.len() ==> before[j].0@ > time@,
                0 <= p <= before.len(),
                forall|j: int| 0 <= j < p ==> before[j].0@ <= time@,
                forall|j: int| p <= j < before.len() ==> before[j].0@ > time@,
            decreases i,
        {
            i = i - 1;
        }
        assert(i == p) by {
            if i < p {
                assert(before[i as int].0@ <= time@);
                assert(!(i > 0 && time@ < before[i - 1].0@));
                if i > 0 {
                    assert(before[i - 1].0@ <= time@);
                }
                assert(before[i as int].0@ > time@);
            }
            if i > p {
                assert(before[i - 1].0@ > time@);
            }
        }
        let mut entries = Vec::new();
        std::mem::swap(&mut entries, &mut self.entries);
        entries.insert(i, (time, item));
        assert(sorted_by_time(entries@)) by {
            let s = entries@;
            assert forall|a: int, b: int| 0 <= a <= b < s.len() implies s[a].0@ <= s[b].0@ by {
                if a < p && b > p {
                    assert(s[a] == before[a]);
                    assert(s[b] == before[b - 1]);
                } else if a < p && b == p {
                    assert(s[a] == before[a]);
                } else if a == p && b > p {
                    assert(s[b] == before[b - 1]);
                } else if a > p {
                    assert(s[a] == before[a - 1]);
                    assert(s[b] == before[b - 1]);
                } else if b < p {
                    assert(s[a] == before[a]);
                    assert(s[b] == before[b]);
                }
            }
        }
        self.entries = entries;
    }

    /// Returns the most recent element as of the given timestamp (at or
    /// before it; the last inserted among those at the latest time)
    pub fn latest_as_of(&self, as_of: UtcTime) -> (r: Option<(UtcTime, &V)>)
        ensures
            upper_bound(self@, as_of@) == 0 ==> r is None,
            upper_bound(self@, as_of@) > 0 ==> r == Some(
                (self@[upper_bound(self@, as_of@) - 1].0, &self@[upper_bound(self@, as_of@) - 1].1),
            ),
    {
        proof {
            use_type_invariant(self);
            lemma_upper_bound(self.entries@, as_of@);
        }
        let ghost p = upper_bound(self.entries@, as_of@);
        let mut i: usize = 0;
        while i < self.entries.len() && !as_of.lt(&self.entries[i].0)
            invariant
                i <= self.entries@.len(),
                i <= p,
                0 <= p <= self.entries@.len(),
                forall|j: int| 0 <= j < p ==> self.entries@[j].0@ <= as_of@,
                forall|j: int| p <= j < self.entries@.len() ==> self.entries@[j].0@ > as_of@,
            decreases self.entries@.len() - i,
        {
            i = i + 1;
        }
        assert(i == p);
        if i == 0 {
            None
        } else {
            let e = &self.entries[i - 1];
            Some((e.0, &e.1))
        }
    }

    /// Returns the most recent element whose timestamp is strictly before the
    /// given timestamp
    pub fn most_recent(&self, as_of: UtcTime) -> (r: Option<(UtcTime, &V)>)
        ensures
            lower_bound(self@, as_of@) == 0 ==> r is None,
            lower_bound(self@, as_of@) > 0 ==> r == Some(
                (self@[lower_bound(self@, as_of@) - 1].0, &self@[lower_bound(self@, as_of@) - 1].1),
            ),
    {
        proof {
            use_type_invariant(self);
            lemma_lower_bound(self.entries@, as_of@);
        }
        let ghost p = lower_bound(self.entries@, as_of@);
        let mut i: usize = 0;
        while i < self.entries.len() && self.entries[i].0.lt(&as_of)
            invariant
                i <= self.entries@.len(),
                i <= p,
                0 <= p <= self.entries@.len(),
                forall|j: int| 0 <= j < p ==> self.entries@[j].0@ < as_of@,
                forall|j: int| p <= j < self.entries@.len() ==> self.entries@[j].0@ >= as_of@,
            decreases self.entries@.len() - i,
        {
            i = i + 1;
        }
        assert(i == p);
        if i == 0 {
            None
        } else {
            let e = &self.entries[i - 1];
            Some((e.0, &e.1))
        }
    }
}

impl<V> View for TimeMap<V> {
    type V = Seq<(UtcTime, V)>;

    /// The entries, in time order (ties in insertion order)
    open spec fn view(&self) -> Seq<(UtcTime, V)> {
        self.spec_entries()
    }
}

/// Inserting keeps the entries in time order, adds exactly one entry, and
/// the inserted entry follows every entry with the same or an earlier time.
pub proof fn law_insert_keeps_order<V>(m: Seq<(UtcTime, V)>, time: UtcTime, item: V)
    requires
        sorted_by_time(m),
    ensures
        sorted_by_time(m.insert(upper_bound(m, time@), (time, item))),
        m.insert(upper_bound(m, time@), (time, item)).len() == m.len() + 1,
        forall|i: int| 0 <= i < upper_bound(m, time@) ==> m[i].0@ <= time@,
        forall|i: int| upper_bound(m, time@) <= i < m.len() ==> m[i].0@ > time@,
{
    lemma_upper_bound(m, time@);
    let p = upper_bound(m, time@);
    let s = m.insert(p, (time, item));
    assert forall|a: int, b: int| 0 <= a <= b < s.len() implies s[a].0@ <= s[b].0@ by {
        if a < p && b > p {
            assert(s[a] == m[a]);
            assert(s[b] == m[b - 1]);
        } else if a < p && b == p {
            assert(s[a] == m[a]);
        } else if a == p && b > p {
            assert(s[b] == m[b - 1]);
        } else if a > p {
            assert(s[a] == m[a - 1]);
            assert(s[b] == m[b - 1]);
        } else if b < p {
            assert(s[a] == m[a]);
            assert(s[b] == m[b]);
        }
    }
}

/// The first entry of a time map is one of the earliest: popping the front
/// gives an entry whose time is at most every other entry's time.
pub proof fn law_pop_first_is_earliest<V>(m: Seq<(UtcTime, V)>)
    requires
        sorted_by_time(m),
        m.len() > 0,
    ensures
        forall|i: int| 0 <= i < m.len() ==> m[0].0@ <= #[trigger] m[i].0@,
{
}

/// The entries after inserting the given entries in order, each at its time
pub open spec fn insert_all<V>(m: Seq<(UtcTime, V)>, items: Seq<(UtcTime, V)>) -> Seq<(UtcTime, V)>
    decreases items.len(),
{
    if items.len() == 0 {
        m
    } else {
        insert_all(m, items.drop_last()).insert(upper_bound(insert_all(m, items.drop_last()), items.last().0@), items.last())
    }
}

} // verus!
