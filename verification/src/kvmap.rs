//! A finite map held as a list of entries with distinct keys, keyed by the
//! keys' views. The ledger keeps its accounts, validators, delegations and
//! other tables in it.

use vstd::prelude::*;
use crate::bytes::bytes_eq;

verus! {

/// A key that can be compared and copied by value.
pub trait MapKey: Sized + View {
    fn same_key(&self, other: &Self) -> (b: bool)
        ensures
            b == (self@ == other@),
    ;

    fn copy_key(&self) -> (r: Self)
        ensures
            r@ == self@,
    ;
}

impl MapKey for [u8; 20] {
    fn same_key(&self, other: &Self) -> (b: bool) {
        bytes_eq(self.as_slice(), other.as_slice())
    }

    fn copy_key(&self) -> (r: Self) {
        *self
    }
}

impl MapKey for [u8; 32] {
    fn same_key(&self, other: &Self) -> (b: bool) {
        bytes_eq(self.as_slice(), other.as_slice())
    }

    fn copy_key(&self) -> (r: Self) {
        *self
    }
}

impl MapKey for u32 {
    fn same_key(&self, other: &Self) -> (b: bool) {
        *self == *other
    }

    fn copy_key(&self) -> (r: Self) {
        *self
    }
}

impl MapKey for u64 {
    fn same_key(&self, other: &Self) -> (b: bool) {
        *self == *other
    }

    fn copy_key(&self) -> (r: Self) {
        *self
    }
}

impl MapKey for String {
    fn same_key(&self, other: &Self) -> (b: bool) {
        *self == *other
    }

    fn copy_key(&self) -> (r: Self) {
        self.clone()
    }
}

impl<A: MapKey, B: MapKey> MapKey for (A, B) {
    fn same_key(&self, other: &Self) -> (b: bool) {
        self.0.same_key(&other.0) && self.1.same_key(&other.1)
    }

    fn copy_key(&self) -> (r: Self) {
        (self.0.copy_key(), self.1.copy_key())
    }
}

/// The map that a list of entries denotes (later entries win).
pub open spec fn to_map<K: View, V>(s: Seq<(K, V)>) -> Map<K::V, V>
    decreases s.len(),
{
    if s.len() == 0 {
        Map::empty()
    } else {
        to_map(s.drop_last()).insert(s.last().0@, s.last().1)
    }
}

/// No two entries share a key.
pub open spec fn keys_distinct<K: View, V>(s: Seq<(K, V)>) -> bool {
    forall|i: int, j: int| 0 <= i < j < s.len() ==> (#[trigger] s[i]).0@ != (#[trigger] s[j]).0@
}

/// Sum of `f` over the values of the entries.
pub open spec fn sum_by<K, V>(s: Seq<(K, V)>, f: spec_fn(V) -> int) -> int
    decreases s.len(),
{
    if s.len() == 0 {
        0
    } else {
        sum_by(s.drop_last(), f) + f(s.last().1)
    }
}

pub proof fn lemma_to_map_lookup<K: View, V>(s: Seq<(K, V)>)
    requires
        keys_distinct(s),
    ensures
        forall|i: int| 0 <= i < s.len() ==> #[trigger] to_map(s).contains_key(s[i].0@) && to_map(s)[s[i].0@] == s[i].1,
        forall|k: K::V| #[trigger] to_map(s).contains_key(k) ==> exists|i: int| 0 <= i < s.len() && (#[trigger] s[i]).0@ == k,
        to_map(s).dom().finite(),
        to_map(s).dom().len() == s.len(),
    decreases s.len(),
{
    if s.len() > 0 {
        let d = s.drop_last();
        assert forall|i: int, j: int| 0 <= i < j < d.len() implies (#[trigger] d[i]).0@ != (#[trigger] d[j]).0@ by {
            assert(d[i] == s[i] && d[j] == s[j]);
        }
        lemma_to_map_lookup(d);
        let k = s.last().0@;
        assert(!to_map(d).contains_key(k)) by {
            if to_map(d).contains_key(k) {
                let i = choose|i: int| 0 <= i < d.len() && (#[trigger] d[i]).0@ == k;
                assert(s[i] == d[i]);
                assert(s[s.len() - 1] == s.last());
            }
        }
        assert forall|i: int| 0 <= i < s.len() implies #[trigger] to_map(s).contains_key(s[i].0@) && to_map(s)[s[i].0@] == s[i].1 by {
            if i < d.len() {
                assert(s[i] == d[i]);
                assert(s[s.len() - 1] == s.last());
            }
        }
        assert forall|k2: K::V| #[trigger] to_map(s).contains_key(k2) implies exists|i: int| 0 <= i < s.len() && (#[trigger] s[i]).0@ == k2 by {
            if k2 == k {
                assert(s[s.len() - 1] == s.last());
            } else {
                let i = choose|i: int| 0 <= i < d.len() && (#[trigger] d[i]).0@ == k2;
                assert(s[i] == d[i]);
            }
        }
    }
}

pub proof fn lemma_to_map_update<K: View, V>(s: Seq<(K, V)>, i: int, x: (K, V))
    requires
        keys_distinct(s),
        0 <= i < s.len(),
        x.0@ == s[i].0@,
    ensures
        to_map(s.update(i, x)) == to_map(s).insert(x.0@, x.1),
        keys_distinct(s.update(i, x)),
    decreases s.len(),
{
    let u = s.update(i, x);
    let d = s.drop_last();
    assert(keys_distinct(u)) by {
        assert forall|a: int, b: int| 0 <= a < b < u.len() implies (#[trigger] u[a]).0@ != (#[trigger] u[b]).0@ by {
            assert(u[a].0@ == s[a].0@ && u[b].0@ == s[b].0@);
        }
    }
    if i == s.len() - 1 {
        assert(u.drop_last() =~= d);
        assert(to_map(u) =~= to_map(s).insert(x.0@, x.1));
    } else {
        assert forall|a: int, b: int| 0 <= a < b < d.len() implies (#[trigger] d[a]).0@ != (#[trigger] d[b]).0@ by {
            assert(d[a] == s[a] && d[b] == s[b]);
        }
        lemma_to_map_update(d, i, x);
        assert(u.drop_last() =~= d.update(i, x));
        assert(s[s.len() - 1] == s.last());
        assert(s.last().0@ != x.0@);
        assert(to_map(u) =~= to_map(s).insert(x.0@, x.1));
    }
}

pub proof fn lemma_to_map_remove<K: View, V>(s: Seq<(K, V)>, i: int)
    requires
        keys_distinct(s),
        0 <= i < s.len(),
    ensures
        to_map(s.remove(i)) == to_map(s).remove(s[i].0@),
        keys_distinct(s.remove(i)),
    decreases s.len(),
{
    let r = s.remove(i);
    let d = s.drop_last();
    assert(keys_distinct(r)) by {
        assert forall|a: int, b: int| 0 <= a < b < r.len() implies (#[trigger] r[a]).0@ != (#[trigger] r[b]).0@ by {
            let a2 = if a < i { a } else { a + 1 };
            let b2 = if b < i { b } else { b + 1 };
            assert(r[a] == s[a2] && r[b] == s[b2]);
        }
    }
    assert forall|a: int, b: int| 0 <= a < b < d.len() implies (#[trigger] d[a]).0@ != (#[trigger] d[b]).0@ by {
        assert(d[a] == s[a] && d[b] == s[b]);
    }
    lemma_to_map_lookup(d);
    assert(s[s.len() - 1] == s.last());
    if i == s.len() - 1 {
        assert(r =~= d);
        assert(!to_map(d).contains_key(s.last().0@)) by {
            if to_map(d).contains_key(s.last().0@) {
                let j = choose|j: int| 0 <= j < d.len() && (#[trigger] d[j]).0@ == s.last().0@;
                assert(s[j] == d[j]);
            }
        }
        assert(to_map(r) =~= to_map(s).remove(s[i].0@));
    } else {
        lemma_to_map_remove(d, i);
        assert(r.drop_last() =~= d.remove(i));
        assert(r.last() == s.last());
        assert(s.last().0@ != s[i].0@);
        assert(d[i] == s[i]);
        assert(to_map(r) =~= to_map(s).remove(s[i].0@));
    }
}

pub proof fn lemma_sum_update<K, V>(s: Seq<(K, V)>, i: int, x: (K, V), f: spec_fn(V) -> int)
    requires
        0 <= i < s.len(),
    ensures
        sum_by(s.update(i, x), f) == sum_by(s, f) - f(s[i].1) + f(x.1),
    decreases s.len(),
{
    let u = s.update(i, x);
    if i == s.len() - 1 {
        assert(u.drop_last() =~= s.drop_last());
    } else {
        lemma_sum_update(s.drop_last(), i, x, f);
        assert(u.drop_last() =~= s.drop_last().update(i, x));
    }
}

pub proof fn lemma_sum_remove<K, V>(s: Seq<(K, V)>, i: int, f: spec_fn(V) -> int)
    requires
        0 <= i < s.len(),
    ensures
        sum_by(s.remove(i), f) == sum_by(s, f) - f(s[i].1),
    decreases s.len(),
{
    let r = s.remove(i);
    if i == s.len() - 1 {
        assert(r =~= s.drop_last());
    } else {
        lemma_sum_remove(s.drop_last(), i, f);
        assert(r.drop_last() =~= s.drop_last().remove(i));
        assert(r.last() == s.last());
    }
}

/// `f` never goes below zero.
pub open spec fn nonneg<V>(f: spec_fn(V) -> int) -> bool {
    forall|x: V| #[trigger] f(x) >= 0
}

pub proof fn lemma_sum_bound<K, V>(s: Seq<(K, V)>, i: int, f: spec_fn(V) -> int)
    requires
        nonneg(f),
        0 <= i < s.len(),
    ensures
        0 <= f(s[i].1) <= sum_by(s, f),
    decreases s.len(),
{
    lemma_sum_nonneg(s.drop_last(), f);
    if i < s.len() - 1 {
        lemma_sum_bound(s.drop_last(), i, f);
    }
}

pub proof fn lemma_sum_nonneg<K, V>(s: Seq<(K, V)>, f: spec_fn(V) -> int)
    requires
        nonneg(f),
    ensures
        sum_by(s, f) >= 0,
    decreases s.len(),
{
    if s.len() > 0 {
        lemma_sum_nonneg(s.drop_last(), f);
        assert(f(s.last().1) >= 0);
    }
}

pub proof fn lemma_map_value_le_sum<K: View, V>(s: Seq<(K, V)>, k: K::V, f: spec_fn(V) -> int)
    requires
        nonneg(f),
        to_map(s).contains_key(k),
    ensures
        0 <= f(to_map(s)[k]) <= sum_by(s, f),
    decreases s.len(),
{
    lemma_sum_nonneg(s.drop_last(), f);
    assert(f(s.last().1) >= 0);
    if s.last().0@ != k {
        lemma_map_value_le_sum(s.drop_last(), k, f);
    }
}

pub proof fn lemma_map_two_values_le_sum<K: View, V>(s: Seq<(K, V)>, k1: K::V, k2: K::V, f: spec_fn(V) -> int)
    requires
        nonneg(f),
        to_map(s).contains_key(k1),
        to_map(s).contains_key(k2),
        k1 != k2,
    ensures
        f(to_map(s)[k1]) + f(to_map(s)[k2]) <= sum_by(s, f),
    decreases s.len(),
{
    lemma_sum_nonneg(s.drop_last(), f);
    assert(f(s.last().1) >= 0);
    if s.last().0@ == k1 {
        lemma_map_value_le_sum(s.drop_last(), k2, f);
    } else if s.last().0@ == k2 {
        lemma_map_value_le_sum(s.drop_last(), k1, f);
    } else {
        lemma_map_two_values_le_sum(s.drop_last(), k1, k2, f);
    }
}

/// Two entry lists with the same key views and values denote the same map
/// and the same sums.
pub proof fn lemma_same_entries<K: View, V>(a: Seq<(K, V)>, b: Seq<(K, V)>)
    requires
        a.len() == b.len(),
        forall|i: int| 0 <= i < a.len() ==> (#[trigger] a[i]).0@ == b[i].0@ && a[i].1 == b[i].1,
    ensures
        to_map(a) == to_map(b),
        forall|f: spec_fn(V) -> int| #[trigger] sum_by(a, f) == sum_by(b, f),
        keys_distinct(a) ==> keys_distinct(b),
    decreases a.len(),
{
    if a.len() > 0 {
        let n = a.len() - 1;
        assert(a[n] == a.last() && b[n] == b.last());
        lemma_same_entries(a.drop_last(), b.drop_last());
        assert forall|f: spec_fn(V) -> int| #[trigger] sum_by(a, f) == sum_by(b, f) by {
            assert(sum_by(a, f) == sum_by(a.drop_last(), f) + f(a.last().1));
            assert(sum_by(b, f) == sum_by(b.drop_last(), f) + f(b.last().1));
            assert(sum_by(a.drop_last(), f) == sum_by(b.drop_last(), f));
        }
        assert(to_map(a) == to_map(a.drop_last()).insert(a.last().0@, a.last().1));
        if keys_distinct(a) {
            assert forall|i: int, j: int| 0 <= i < j < b.len() implies (#[trigger] b[i]).0@ != (#[trigger] b[j]).0@ by {
                assert(a[i].0@ != a[j].0@);
            }
        }
    }
}

/// A finite map from keys (by their views) to values.
pub struct KeyedVec<K: MapKey, V> {
    entries: Vec<(K, V)>,
}

impl<K: MapKey, V> View for KeyedVec<K, V> {
    type V = Map<K::V, V>;

    closed spec fn view(&self) -> Map<K::V, V> {
        to_map(self.entries@)
    }
}

impl<K: MapKey, V> KeyedVec<K, V> {
    #[verifier::type_invariant]
    spec fn distinct(self) -> bool {
        keys_distinct(self.entries@)
    }

    /// The entries, one per key.
    pub closed spec fn entries(self) -> Seq<(K, V)> {
        self.entries@
    }

    /// Sum of `f` over the values.
    pub open spec fn total(self, f: spec_fn(V) -> int) -> int {
        sum_by(self.entries(), f)
    }

    pub proof fn lemma_total_nonneg(self, f: spec_fn(V) -> int)
        requires
            nonneg(f),
        ensures
            self.total(f) >= 0,
    {
        lemma_sum_nonneg(self.entries(), f);
    }

    /// A stored value's share of a non-negative total is at most the total.
    pub proof fn lemma_value_le_total(self, k: K::V, f: spec_fn(V) -> int)
        requires
            nonneg(f),
            self@.contains_key(k),
        ensures
            0 <= f(self@[k]) <= self.total(f),
    {
        lemma_map_value_le_sum(self.entries@, k, f);
    }

    /// Two distinct stored values together are at most a non-negative total.
    pub proof fn lemma_two_values_le_total(self, k1: K::V, k2: K::V, f: spec_fn(V) -> int)
        requires
            nonneg(f),
            self@.contains_key(k1),
            self@.contains_key(k2),
            k1 != k2,
        ensures
            f(self@[k1]) + f(self@[k2]) <= self.total(f),
    {
        lemma_map_two_values_le_sum(self.entries@, k1, k2, f);
    }

    /// A copy of the map (values copied, keys copied by view).
    pub fn duplicate(&self) -> (r: Self)
        where
            V: Copy,
        ensures
            r@ == self@,
            forall|f: spec_fn(V) -> int| #[trigger] r.total(f) == self.total(f),
    {
        proof {
            use_type_invariant(self);
        }
        let n = self.entries.len();
        let mut out: Vec<(K, V)> = Vec::new();
        let mut i: usize = 0;
        while i < n
            invariant
                n == self.entries@.len(),
                i <= n,
                out@.len() == i,
                forall|j: int| 0 <= j < i ==> (#[trigger] out@[j]).0@ == self.entries@[j].0@ && out@[j].1 == self.entries@[j].1,
            decreases n - i,
        {
            let k = self.entries[i].0.copy_key();
            let v = self.entries[i].1;
            out.push((k, v));
            i = i + 1;
        }
        proof {
            lemma_same_entries(self.entries@, out@);
        }
        KeyedVec { entries: out }
    }

    /// The entries and the map agree: every entry is in the map with its
    /// value, and every key of the map has an entry.
    pub fn reveal_entries(&self)
        ensures
            forall|i: int|
                #![trigger self@.contains_key(self.entries()[i].0@)]
                #![trigger self.entries()[i]]
                0 <= i < self.entries().len() ==> self@.contains_key(self.entries()[i].0@) && self@[self.entries()[i].0@] == self.entries()[i].1,
            forall|k: K::V| #[trigger] self@.contains_key(k) ==> exists|i: int| 0 <= i < self.entries().len() && (#[trigger] self.entries()[i]).0@ == k,
    {
        proof {
            use_type_invariant(self);
            lemma_to_map_lookup(self.entries@);
            assert forall|i: int| 0 <= i < self.entries().len() implies #[trigger] self@.contains_key(self.entries()[i].0@)
                && self@[self.entries()[i].0@] == self.entries()[i].1 by {
                assert(to_map(self.entries@).contains_key(self.entries@[i].0@));
            }
            assert forall|k: K::V| #[trigger] self@.contains_key(k) implies exists|i: int| 0 <= i < self.entries().len() && (
            #[trigger] self.entries()[i]).0@ == k by {
                assert(to_map(self.entries@).contains_key(k));
                let i = choose|i: int| 0 <= i < self.entries@.len() && (#[trigger] self.entries@[i]).0@ == k;
                assert(self.entries()[i] == self.entries@[i]);
            }
        }
    }

    pub fn new() -> (m: Self)
        ensures
            m@ == Map::<K::V, V>::empty(),
            m.entries().len() == 0,
    {
        KeyedVec { entries: Vec::new() }
    }

    pub fn len(&self) -> (n: usize)
        ensures
            n == self.entries().len(),
            n == self@.dom().len(),
    {
        proof {
            use_type_invariant(&*self);
            lemma_to_map_lookup(self.entries@);
        }
        self.entries.len()
    }

    /// The entry at position `i`.
    pub fn entry(&self, i: usize) -> (e: &(K, V))
        requires
            i < self.entries().len(),
        ensures
            *e == self.entries()[i as int],
    {
        &self.entries[i]
    }

    fn find(&self, k: &K) -> (r: Option<usize>)
        ensures
            match r {
                Some(i) => i < self.entries@.len() && self.entries@[i as int].0@ == k@,
                None => forall|i: int| 0 <= i < self.entries@.len() ==> (#[trigger] self.entries@[i]).0@ != k@,
            },
    {
        let n = self.entries.len();
        let mut i: usize = 0;
        while i < n
            invariant
                n == self.entries@.len(),
                i <= n,
                forall|j: int| 0 <= j < i ==> (#[trigger] self.entries@[j]).0@ != k@,
            decreases n - i,
        {
            if self.entries[i].0.same_key(k) {
                return Some(i);
            }
            i = i + 1;
        }
        None
    }

    pub fn contains_key(&self, k: &K) -> (b: bool)
        ensures
            b == self@.contains_key(k@),
    {
        proof {
            use_type_invariant(&*self);
            lemma_to_map_lookup(self.entries@);
        }
        match self.find(k) {
            Some(_) => true,
            None => {
                proof {
                    if self@.contains_key(k@) {
                        let i = choose|i: int| 0 <= i < self.entries@.len() && (#[trigger] self.entries@[i]).0@ == k@;
                    }
                }
                false
            },
        }
    }

    pub fn get(&self, k: &K) -> (r: Option<&V>)
        ensures
            match r {
                Some(v) => self@.contains_key(k@) && *v == self@[k@],
                None => !self@.contains_key(k@),
            },
            r matches Some(v) ==> forall|f: spec_fn(V) -> int| nonneg(f) ==> 0 <= f(*v) <= #[trigger] self.total(f),
    {
        proof {
            use_type_invariant(&*self);
            lemma_to_map_lookup(self.entries@);
        }
        match self.find(k) {
            Some(i) => {
                assert(to_map(self.entries@).contains_key(self.entries@[i as int].0@));
                assert forall|f: spec_fn(V) -> int| nonneg(f) implies 0 <= f(self.entries@[i as int].1) <= #[trigger] self.total(f) by {
                    lemma_sum_bound(self.entries@, i as int, f);
                }
                Some(&self.entries[i].1)
            },
            None => {
                proof {
                    if self@.contains_key(k@) {
                        let i = choose|i: int| 0 <= i < self.entries@.len() && (#[trigger] self.entries@[i]).0@ == k@;
                    }
                }
                None
            },
        }
    }

    /// Sets the value of `k`.
    pub fn insert(&mut self, k: K, v: V)
        ensures
            final(self)@ == old(self)@.insert(k@, v),
            forall|f: spec_fn(V) -> int|
                #[trigger] final(self).total(f) == old(self).total(f) - (if old(self)@.contains_key(k@) {
                    f(old(self)@[k@])
                } else {
                    0
                }) + f(v),
    {
        proof {
            use_type_invariant(&*self);
            lemma_to_map_lookup(self.entries@);
        }
        let ghost kv = k@;
        match self.find(&k) {
            Some(i) => {
                let ghost old_entries = self.entries@;
                let ghost x = (k, v);
                proof {
                    lemma_to_map_update(old_entries, i as int, x);
                    assert forall|f: spec_fn(V) -> int| #[trigger] sum_by(old_entries.update(i as int, x), f) == sum_by(old_entries, f) - f(old_entries[i as int].1) + f(x.1) by {
                        lemma_sum_update(old_entries, i as int, x, f);
                    }
                }
                let mut es: Vec<(K, V)> = Vec::new();
                std::mem::swap(&mut es, &mut self.entries);
                es.set(i, (k, v));
                assert(es@ == old_entries.update(i as int, x));
                self.entries = es;
            },
            None => {
                proof {
                    if self@.contains_key(kv) {
                        let i = choose|i: int| 0 <= i < self.entries@.len() && (#[trigger] self.entries@[i]).0@ == kv;
                    }
                }
                let ghost old_entries = self.entries@;
                let mut es: Vec<(K, V)> = Vec::new();
                std::mem::swap(&mut es, &mut self.entries);
                es.push((k, v));
                proof {
                    assert(es@.drop_last() =~= old_entries);
                    assert forall|a: int, b: int| 0 <= a < b < es@.len() implies (#[trigger] es@[a]).0@ != (#[trigger] es@[b]).0@ by {
                        if b < old_entries.len() {
                            assert(es@[a] == old_entries[a] && es@[b] == old_entries[b]);
                        } else {
                            assert(es@[a] == old_entries[a]);
                        }
                    }
                }
                self.entries = es;
            },
        }
    }

    /// Removes `k`, returning its value.
    pub fn remove(&mut self, k: &K) -> (r: Option<V>)
        ensures
            final(self)@ == old(self)@.remove(k@),
            match r {
                Some(v) => old(self)@.contains_key(k@) && v == old(self)@[k@],
                None => !old(self)@.contains_key(k@),
            },
            forall|f: spec_fn(V) -> int|
                #[trigger] final(self).total(f) == old(self).total(f) - (if old(self)@.contains_key(k@) {
                    f(old(self)@[k@])
                } else {
                    0
                }),
    {
        proof {
            use_type_invariant(&*self);
            lemma_to_map_lookup(self.entries@);
        }
        match self.find(k) {
            Some(i) => {
                let ghost old_entries = self.entries@;
                proof {
                    lemma_to_map_remove(old_entries, i as int);
                    assert forall|f: spec_fn(V) -> int| #[trigger] sum_by(old_entries.remove(i as int), f) == sum_by(old_entries, f) - f(old_entries[i as int].1) by {
                        lemma_sum_remove(old_entries, i as int, f);
                    }
                }
                let mut es: Vec<(K, V)> = Vec::new();
                std::mem::swap(&mut es, &mut self.entries);
                let e = es.remove(i);
                self.entries = es;
                Some(e.1)
            },
            None => {
                proof {
                    if self@.contains_key(k@) {
                        let i = choose|i: int| 0 <= i < self.entries@.len() && (#[trigger] self.entries@[i]).0@ == k@;
                    }
                    assert(self@.remove(k@) =~= self@);
                }
                None
            },
        }
    }
}

} // verus!
