use vstd::prelude::*;
use crate::account::AccountId;

verus! {

/// A key that can be compared at run time exactly when its views are equal.
pub trait TableKey: View + Sized {
    fn same_key(&self, other: &Self) -> (r: bool)
        ensures
            r == (self@ == other@),
    ;
}

impl TableKey for AccountId {
    fn same_key(&self, other: &AccountId) -> (r: bool) {
        self.same_as(other)
    }
}

/// The ordered pair (owner, spender) that keys an allowance.
#[derive(Clone, Copy, Debug)]
pub struct AccountPair {
    pub owner: AccountId,
    pub spender: AccountId,
}

impl View for AccountPair {
    type V = (Seq<u8>, Seq<u8>);

    open spec fn view(&self) -> (Seq<u8>, Seq<u8>) {
        (self.owner@, self.spender@)
    }
}

impl TableKey for AccountPair {
    fn same_key(&self, other: &AccountPair) -> (r: bool) {
        self.owner.same_as(&other.owner) && self.spender.same_as(&other.spender)
    }
}

/// The amount stored under `k`, or zero when no entry has that key.
pub open spec fn lookup_in<K: View>(s: Seq<(K, u128)>, k: K::V) -> nat
    decreases s.len(),
{
    if s.len() == 0 {
        0
    } else if s.last().0@ == k {
        s.last().1 as nat
    } else {
        lookup_in(s.drop_last(), k)
    }
}

/// The sum of all stored amounts.
pub open spec fn sum_in<K>(s: Seq<(K, u128)>) -> nat
    decreases s.len(),
{
    if s.len() == 0 {
        0
    } else {
        sum_in(s.drop_last()) + s.last().1 as nat
    }
}

/// The sum of the amounts looked up under each key of `ks`.
pub open spec fn sum_over_keys<K: View>(s: Seq<(K, u128)>, ks: Seq<K::V>) -> nat
    decreases ks.len(),
{
    if ks.len() == 0 {
        0
    } else {
        sum_over_keys(s, ks.drop_last()) + lookup_in(s, ks.last())
    }
}

/// The sum of `m` over the keys of `ks`, counting a repeated key each time.
pub open spec fn sum_of<V>(m: Map<V, nat>, ks: Seq<V>) -> nat
    decreases ks.len(),
{
    if ks.len() == 0 {
        0
    } else {
        sum_of(m, ks.drop_last()) + m[ks.last()]
    }
}

/// The keys of the entries, in order.
pub open spec fn keys_in<K: View>(s: Seq<(K, u128)>) -> Seq<K::V> {
    Seq::new(s.len(), |i: int| s[i].0@)
}

/// No two entries share a key.
pub open spec fn unique_keys<K: View>(s: Seq<(K, u128)>) -> bool {
    forall|i: int, j: int| 0 <= i < j < s.len() ==> s[i].0@ != s[j].0@
}

proof fn lemma_lookup_absent<K: View>(s: Seq<(K, u128)>, k: K::V)
    requires
        forall|j: int| 0 <= j < s.len() ==> s[j].0@ != k,
    ensures
        lookup_in(s, k) == 0,
    decreases s.len(),
{
    if s.len() > 0 {
        lemma_lookup_absent(s.drop_last(), k);
    }
}

proof fn lemma_lookup_at<K: View>(s: Seq<(K, u128)>, i: int)
    requires
        unique_keys(s),
        0 <= i < s.len(),
    ensures
        lookup_in(s, s[i].0@) == s[i].1,
    decreases s.len(),
{
    if i < s.len() - 1 {
        assert(s.drop_last()[i] == s[i]);
        lemma_lookup_at(s.drop_last(), i);
    }
}

proof fn lemma_update<K: View>(s: Seq<(K, u128)>, i: int, e: (K, u128), k: K::V)
    requires
        unique_keys(s),
        0 <= i < s.len(),
        e.0@ == s[i].0@,
    ensures
        unique_keys(s.update(i, e)),
        lookup_in(s.update(i, e), k) == if k == e.0@ {
            e.1 as nat
        } else {
            lookup_in(s, k)
        },
        sum_in(s.update(i, e)) == sum_in(s) - s[i].1 + e.1,
    decreases s.len(),
{
    let t = s.update(i, e);
    assert(unique_keys(t)) by {
        assert forall|a: int, b: int| 0 <= a < b < t.len() implies t[a].0@ != t[b].0@ by {
            assert(s[a].0@ != s[b].0@);
        }
    }
    if i == s.len() - 1 {
        assert(t.drop_last() =~= s.drop_last());
    } else {
        assert(t.drop_last() =~= s.drop_last().update(i, e));
        assert(s.last().0@ != s[i].0@);
        lemma_update(s.drop_last(), i, e, k);
    }
}

proof fn lemma_sum_ge_at<K>(s: Seq<(K, u128)>, i: int)
    requires
        0 <= i < s.len(),
    ensures
        s[i].1 <= sum_in(s),
    decreases s.len(),
{
    if i < s.len() - 1 {
        assert(s.drop_last()[i] == s[i]);
        lemma_sum_ge_at(s.drop_last(), i);
    }
}

proof fn lemma_sum_over_keys_push<K: View>(s: Seq<(K, u128)>, e: (K, u128), ks: Seq<K::V>)
    requires
        forall|j: int| 0 <= j < ks.len() ==> ks[j] != e.0@,
    ensures
        sum_over_keys(s.push(e), ks) == sum_over_keys(s, ks),
    decreases ks.len(),
{
    if ks.len() > 0 {
        assert(s.push(e).drop_last() =~= s);
        lemma_sum_over_keys_push(s, e, ks.drop_last());
    }
}

proof fn lemma_sum_is_sum_over_keys<K: View>(s: Seq<(K, u128)>)
    requires
        unique_keys(s),
    ensures
        sum_in(s) == sum_over_keys(s, keys_in(s)),
    decreases s.len(),
{
    if s.len() > 0 {
        let t = s.drop_last();
        let e = s.last();
        assert(s =~= t.push(e));
        assert(keys_in(s).drop_last() =~= keys_in(t));
        lemma_sum_is_sum_over_keys(t);
        lemma_sum_over_keys_push(t, e, keys_in(t));
    }
}

/// An association list from keys to amounts, where a missing key stands for
/// zero.
pub struct Table<K> {
    entries: Vec<(K, u128)>,
}

impl<K: TableKey> View for Table<K> {
    type V = Map<K::V, nat>;

    /// Every key is in the domain; a key without an entry maps to zero.
    closed spec fn view(&self) -> Map<K::V, nat> {
        Map::total(|k: K::V| lookup_in(self.entries@, k))
    }
}

impl<K: TableKey> Table<K> {
    /// No two entries share a key.
    pub closed spec fn wf(&self) -> bool {
        unique_keys(self.entries@)
    }

    /// The sum of all stored amounts.
    pub closed spec fn total(&self) -> nat {
        sum_in(self.entries@)
    }

    /// The keys that have an entry, in the order they were first written.
    pub closed spec fn keys(&self) -> Seq<K::V> {
        keys_in(self.entries@)
    }

    proof fn lemma_sum_over_keys_is_sum_of(&self, ks: Seq<K::V>)
        ensures
            sum_over_keys(self.entries@, ks) == sum_of(self@, ks),
        decreases ks.len(),
    {
        if ks.len() > 0 {
            self.lemma_sum_over_keys_is_sum_of(ks.drop_last());
        }
    }

    /// No single amount exceeds the sum of all amounts.
    pub proof fn lemma_entry_le_total(&self, k: K::V)
        requires
            self.wf(),
        ensures
            self@[k] <= self.total(),
    {
        let s = self.entries@;
        if exists|j: int| 0 <= j < s.len() && s[j].0@ == k {
            let j = choose|j: int| 0 <= j < s.len() && s[j].0@ == k;
            lemma_lookup_at(s, j);
            lemma_sum_ge_at(s, j);
        } else {
            lemma_lookup_absent(s, k);
        }
    }

    /// The sum of all amounts equals the sum, over the stored keys, of the
    /// amount under each.
    pub proof fn lemma_total_is_sum_over_keys(&self)
        requires
            self.wf(),
        ensures
            self.total() == sum_of(self@, self.keys()),
            self.keys().no_duplicates(),
            forall|k: K::V| !self.keys().contains(k) ==> self@[k] == 0,
    {
        lemma_sum_is_sum_over_keys(self.entries@);
        self.lemma_sum_over_keys_is_sum_of(self.keys());
        assert forall|i: int, j: int|
            0 <= i < self.keys().len() && 0 <= j < self.keys().len() && i != j implies
            self.keys()[i] != self.keys()[j] by {
            if i > j {
                assert(self.entries@[j].0@ != self.entries@[i].0@);
            }
        }
        assert forall|k: K::V| !self.keys().contains(k) implies self@[k] == 0 by {
            assert forall|j: int| 0 <= j < self.entries@.len() implies self.entries@[j].0@ != k by {
                assert(self.keys()[j] == self.entries@[j].0@);
            }
            lemma_lookup_absent(self.entries@, k);
        }
    }

    /// An empty table.
    pub fn new() -> (r: Table<K>)
        ensures
            r.wf(),
            r@ == Map::total(|k: K::V| 0nat),
            r.total() == 0,
            r.keys().len() == 0,
    {
        let r = Table { entries: Vec::new() };
        assert(r@ =~= Map::total(|k: K::V| 0nat));
        r
    }

    fn find(&self, k: &K) -> (r: Option<usize>)
        ensures
            match r {
                Some(i) => i < self.entries@.len() && self.entries@[i as int].0@ == k@,
                None => forall|j: int| 0 <= j < self.entries@.len() ==> self.entries@[j].0@ != k@,
            },
    {
        let mut i: usize = 0;
        while i < self.entries.len()
            invariant
                0 <= i <= self.entries@.len(),
                forall|j: int| 0 <= j < i ==> self.entries@[j].0@ != k@,
            decreases self.entries@.len() - i,
        {
            if self.entries[i].0.same_key(k) {
                return Some(i);
            }
            i += 1;
        }
        None
    }

    /// The amount stored under `k`, or zero.
    pub fn get(&self, k: &K) -> (r: u128)
        requires
            self.wf(),
        ensures
            r == self@[k@],
    {
        match self.find(k) {
            Some(i) => {
                proof {
                    lemma_lookup_at(self.entries@, i as int);
                }
                self.entries[i].1
            },
            None => {
                proof {
                    lemma_lookup_absent(self.entries@, k@);
                }
                0
            },
        }
    }

    /// Stores `v` under `k`, replacing any earlier amount.
    pub fn set(&mut self, k: K, v: u128)
        requires
            old(self).wf(),
        ensures
            final(self).wf(),
            final(self)@ == old(self)@.insert(k@, v as nat),
            final(self).total() == old(self).total() - old(self)@[k@] + v,
    {
        let ghost s = self.entries@;
        let ghost kv = k@;
        match self.find(&k) {
            Some(i) => {
                proof {
                    lemma_lookup_at(s, i as int);
                    assert forall|q: K::V| true implies lookup_in(s.update(i as int, (k, v)), q)
                        == (if q == kv { v as nat } else { lookup_in(s, q) }) by {
                        lemma_update(s, i as int, (k, v), q);
                    }
                    lemma_update(s, i as int, (k, v), kv);
                }
                self.entries[i] = (k, v);
            },
            None => {
                proof {
                    lemma_lookup_absent(s, kv);
                    assert(s.push((k, v)).drop_last() =~= s);
                }
                self.entries.push((k, v));
            },
        }
        assert(self@ =~= old(self)@.insert(kv, v as nat));
    }
}

} // verus!
