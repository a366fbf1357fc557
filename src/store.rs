use vstd::prelude::*;
use crate::account::AccountId;

verus! {

/// A key that a `Store` can be looked up by.
pub trait StoreKey: Sized {
    fn same(&self, other: &Self) -> (r: bool)
        ensures
            r == (*self == *other),
    ;
}

impl StoreKey for AccountId {
    fn same(&self, other: &Self) -> (r: bool) {
        self.hi == other.hi && self.lo == other.lo
    }
}

impl StoreKey for (AccountId, AccountId) {
    fn same(&self, other: &Self) -> (r: bool) {
        self.0.same(&other.0) && self.1.same(&other.1)
    }
}

/// What `s` holds for `k`: the value of the last entry with that key.
pub open spec fn lookup<K, V>(s: Seq<(K, V)>, k: K) -> Option<V>
    decreases s.len(),
{
    if s.len() == 0 {
        None
    } else if s.last().0 == k {
        Some(s.last().1)
    } else {
        lookup(s.drop_last(), k)
    }
}

/// No two entries share a key.
pub open spec fn keys_unique<K, V>(s: Seq<(K, V)>) -> bool {
    forall|i: int, j: int| 0 <= i < j < s.len() ==> s[i].0 != s[j].0
}

/// The sum of all values of `s`.
pub open spec fn total<K>(s: Seq<(K, u128)>) -> int
    decreases s.len(),
{
    if s.len() == 0 {
        0
    } else {
        total(s.drop_last()) + s.last().1
    }
}

/// With unique keys, the entry at `i` is what a lookup of its key finds.
pub proof fn lemma_lookup_at<K, V>(s: Seq<(K, V)>, i: int)
    requires
        keys_unique(s),
        0 <= i < s.len(),
    ensures
        lookup(s, s[i].0) == Some(s[i].1),
    decreases s.len(),
{
    if i < s.len() - 1 {
        assert(s.drop_last()[i] == s[i]);
        lemma_lookup_at(s.drop_last(), i);
    }
}

/// A lookup finds nothing exactly when no entry has the key.
pub proof fn lemma_lookup_none<K, V>(s: Seq<(K, V)>, k: K)
    ensures
        lookup(s, k) is None <==> (forall|i: int| 0 <= i < s.len() ==> s[i].0 != k),
    decreases s.len(),
{
    if s.len() > 0 {
        lemma_lookup_none(s.drop_last(), k);
        if lookup(s, k) is None {
            assert forall|i: int| 0 <= i < s.len() implies s[i].0 != k by {
                if i < s.len() - 1 {
                    assert(s.drop_last()[i] == s[i]);
                }
            }
        } else {
            if s.last().0 != k {
                let j = choose|j: int| 0 <= j < s.drop_last().len() && !(s.drop_last()[j].0 != k);
                assert(s[j] == s.drop_last()[j]);
            }
        }
    }
}

/// Writing `(k, v)` over the last entry with key `k` changes only what `k` finds.
pub proof fn lemma_lookup_update<K, V>(s: Seq<(K, V)>, i: int, k: K, v: V, k2: K)
    requires
        0 <= i < s.len(),
        s[i].0 == k,
        forall|j: int| i < j < s.len() ==> s[j].0 != k,
    ensures
        lookup(s.update(i, (k, v)), k2) == if k2 == k { Some(v) } else { lookup(s, k2) },
    decreases s.len(),
{
    let t = s.update(i, (k, v));
    if i < s.len() - 1 {
        assert(t.drop_last() =~= s.drop_last().update(i, (k, v)));
        if s.last().0 != k2 {
            lemma_lookup_update(s.drop_last(), i, k, v, k2);
        }
    } else {
        assert(t.drop_last() =~= s.drop_last());
    }
}

/// Appending `(k, v)` makes `k` find `v` and leaves every other key alone.
pub proof fn lemma_lookup_push<K, V>(s: Seq<(K, V)>, k: K, v: V, k2: K)
    ensures
        lookup(s.push((k, v)), k2) == if k2 == k { Some(v) } else { lookup(s, k2) },
{
    assert(s.push((k, v)).drop_last() =~= s);
}

/// Appending adds the value to the sum.
pub proof fn lemma_total_push<K>(s: Seq<(K, u128)>, e: (K, u128))
    ensures
        total(s.push(e)) == total(s) + e.1,
{
    assert(s.push(e).drop_last() =~= s);
}

/// Replacing one entry moves the sum by the difference of the values.
pub proof fn lemma_total_update<K>(s: Seq<(K, u128)>, i: int, e: (K, u128))
    requires
        0 <= i < s.len(),
    ensures
        total(s.update(i, e)) == total(s) - s[i].1 + e.1,
    decreases s.len(),
{
    let t = s.update(i, e);
    if i < s.len() - 1 {
        assert(t.drop_last() =~= s.drop_last().update(i, e));
        lemma_total_update(s.drop_last(), i, e);
    } else {
        assert(t.drop_last() =~= s.drop_last());
    }
}

/// The sum is never negative.
pub proof fn lemma_total_nonneg<K>(s: Seq<(K, u128)>)
    ensures
        total(s) >= 0,
    decreases s.len(),
{
    if s.len() > 0 {
        lemma_total_nonneg(s.drop_last());
    }
}

/// No single entry exceeds the sum.
pub proof fn lemma_entry_within_total<K>(s: Seq<(K, u128)>, i: int)
    requires
        0 <= i < s.len(),
    ensures
        s[i].1 <= total(s),
    decreases s.len(),
{
    lemma_total_nonneg(s.drop_last());
    if i < s.len() - 1 {
        assert(s.drop_last()[i] == s[i]);
        lemma_entry_within_total(s.drop_last(), i);
    }
}

/// What a lookup finds, with an absent entry read as zero.
pub open spec fn or_zero(o: Option<u128>) -> u128 {
    match o {
        Some(v) => v,
        None => 0,
    }
}

/// What `Store::insert` does to the entries moves the sum by the change of `k`'s value.
pub proof fn lemma_total_insert<K>(s: Seq<(K, u128)>, t: Seq<(K, u128)>, k: K, v: u128)
    requires
        keys_unique(s),
        lookup(s, k) is None ==> t == s.push((k, v)),
        lookup(s, k) is Some ==> exists|i: int| 0 <= i < s.len() && s[i].0 == k && t == s.update(i, (k, v)),
    ensures
        total(t) == total(s) - or_zero(lookup(s, k)) + v,
{
    if lookup(s, k) is None {
        lemma_total_push(s, (k, v));
    } else {
        let i = choose|i: int| 0 <= i < s.len() && s[i].0 == k && t == s.update(i, (k, v));
        lemma_total_update(s, i, (k, v));
        lemma_lookup_at(s, i);
    }
}

/// With unique keys, what any key finds is at most the sum.
pub proof fn lemma_lookup_within_total<K>(s: Seq<(K, u128)>, k: K)
    requires
        keys_unique(s),
    ensures
        0 <= or_zero(lookup(s, k)) <= total(s),
{
    lemma_total_nonneg(s);
    lemma_lookup_none(s, k);
    if lookup(s, k) is Some {
        let i = choose|i: int| 0 <= i < s.len() && !(s[i].0 != k);
        lemma_lookup_at(s, i);
        lemma_entry_within_total(s, i);
    }
}

/// A keyed store of values: a list of entries with distinct keys.
pub struct Store<K, V> {
    entries: Vec<(K, V)>,
}

impl<K, V> View for Store<K, V> {
    type V = Seq<(K, V)>;

    closed spec fn view(&self) -> Seq<(K, V)> {
        self.entries@
    }
}

impl<K: StoreKey, V: Copy> Store<K, V> {
    /// An empty store.
    pub fn new() -> (r: Store<K, V>)
        ensures
            r@ == Seq::<(K, V)>::empty(),
    {
        Store { entries: Vec::new() }
    }

    /// Where `k`'s entry stands, if it has one.
    fn position(&self, k: &K) -> (r: Option<usize>)
        ensures
            match r {
                Some(i) => i < self@.len() && self@[i as int].0 == *k
                    && forall|j: int| i < j < self@.len() ==> self@[j].0 != *k,
                None => forall|j: int| 0 <= j < self@.len() ==> self@[j].0 != *k,
            },
    {
        let mut i: usize = self.entries.len();
        while i > 0
            invariant
                i <= self@.len(),
                self@ == self.entries@,
                forall|j: int| i <= j < self@.len() ==> self@[j].0 != *k,
            decreases i,
        {
            if self.entries[i - 1].0.same(k) {
                return Some(i - 1);
            }
            i = i - 1;
        }
        None
    }

    /// The value stored for `k`, if any.
    pub fn get(&self, k: &K) -> (r: Option<V>)
        ensures
            r == lookup(self@, *k),
    {
        match self.position(k) {
            Some(i) => {
                proof {
                    lemma_lookup_last_match(self@, i as int, *k);
                }
                Some(self.entries[i].1)
            },
            None => {
                proof {
                    lemma_lookup_none(self@, *k);
                }
                None
            },
        }
    }

    /// Stores `v` for `k`, over any earlier value.
    pub fn insert(&mut self, k: K, v: V)
        requires
            keys_unique(old(self)@),
        ensures
            keys_unique(final(self)@),
            forall|k2: K| #[trigger] lookup(final(self)@, k2)
                == if k2 == k { Some(v) } else { lookup(old(self)@, k2) },
            lookup(old(self)@, k) is None ==> final(self)@ == old(self)@.push((k, v)),
            lookup(old(self)@, k) is Some ==> exists|i: int| 0 <= i < old(self)@.len()
                && old(self)@[i].0 == k && final(self)@ == old(self)@.update(i, (k, v)),
    {
        match self.position(&k) {
            Some(i) => {
                self.entries.set(i, (k, v));
                proof {
                    lemma_lookup_last_match(old(self)@, i as int, k);
                    assert forall|k2: K| #[trigger] lookup(self@, k2)
                        == if k2 == k { Some(v) } else { lookup(old(self)@, k2) } by {
                        lemma_lookup_update(old(self)@, i as int, k, v, k2);
                    }
                    assert(self@ == old(self)@.update(i as int, (k, v)));
                }
            },
            None => {
                self.entries.push((k, v));
                proof {
                    lemma_lookup_none(old(self)@, k);
                    assert forall|k2: K| #[trigger] lookup(self@, k2)
                        == if k2 == k { Some(v) } else { lookup(old(self)@, k2) } by {
                        lemma_lookup_push(old(self)@, k, v, k2);
                    }
                }
            },
        }
    }
}

/// The last entry with key `k` is what a lookup of `k` finds.
pub proof fn lemma_lookup_last_match<K, V>(s: Seq<(K, V)>, i: int, k: K)
    requires
        0 <= i < s.len(),
        s[i].0 == k,
        forall|j: int| i < j < s.len() ==> s[j].0 != k,
    ensures
        lookup(s, k) == Some(s[i].1),
    decreases s.len(),
{
    if i < s.len() - 1 {
        assert(s.drop_last()[i] == s[i]);
        lemma_lookup_last_match(s.drop_last(), i, k);
    }
}

} // verus!
