use vstd::prelude::*;

use crate::types::{AccountId, AssetId, TokenBalance};

verus! {

/// A key of a ledger table: it names the asset it belongs to and can be
/// compared at run time.
pub trait TableKey: Sized {
    spec fn asset_of(self) -> AssetId;

    fn same(&self, other: &Self) -> (r: bool)
        ensures
            r == (*self == *other),
    ;
}

impl TableKey for (AssetId, AccountId) {
    open spec fn asset_of(self) -> AssetId {
        self.0
    }

    fn same(&self, other: &Self) -> (r: bool) {
        self.0 == other.0 && self.1 == other.1
    }
}

impl TableKey for (AssetId, AccountId, AccountId) {
    open spec fn asset_of(self) -> AssetId {
        self.0
    }

    fn same(&self, other: &Self) -> (r: bool) {
        self.0 == other.0 && self.1 == other.1 && self.2 == other.2
    }
}

/// The amount stored under `k`; a missing entry reads as zero.
pub open spec fn amount_at<K>(m: Map<K, TokenBalance>, k: K) -> nat {
    if m.contains_key(k) {
        m[k] as nat
    } else {
        0
    }
}

/// The map that a list of entries stands for; later entries win.
pub open spec fn map_of<K>(s: Seq<(K, TokenBalance)>) -> Map<K, TokenBalance>
    decreases s.len(),
{
    if s.len() == 0 {
        Map::empty()
    } else {
        map_of(s.drop_last()).insert(s.last().0, s.last().1)
    }
}

/// The sum of the amounts of all entries that belong to asset `a`.
pub open spec fn total_of<K: TableKey>(s: Seq<(K, TokenBalance)>, a: AssetId) -> nat
    decreases s.len(),
{
    if s.len() == 0 {
        0
    } else {
        total_of(s.drop_last(), a) + if s.last().0.asset_of() == a {
            s.last().1 as nat
        } else {
            0
        }
    }
}

pub open spec fn keys_unique<K>(s: Seq<(K, TokenBalance)>) -> bool {
    forall|i: int, j: int| 0 <= i < j < s.len() ==> s[i].0 != s[j].0
}

proof fn lemma_contains<K>(s: Seq<(K, TokenBalance)>, k: K)
    ensures
        map_of(s).contains_key(k) <==> exists|i: int| 0 <= i < s.len() && s[i].0 == k,
    decreases s.len(),
{
    if s.len() > 0 {
        lemma_contains(s.drop_last(), k);
        let d = s.drop_last();
        if map_of(d).contains_key(k) {
            let i = choose|i: int| 0 <= i < d.len() && d[i].0 == k;
            assert(s[i].0 == k);
        }
        if exists|i: int| 0 <= i < s.len() && s[i].0 == k {
            let i = choose|i: int| 0 <= i < s.len() && s[i].0 == k;
            if i < s.len() - 1 {
                assert(d[i].0 == k);
            }
        }
    }
}

proof fn lemma_value_at<K>(s: Seq<(K, TokenBalance)>, i: int)
    requires
        keys_unique(s),
        0 <= i < s.len(),
    ensures
        map_of(s).contains_key(s[i].0),
        map_of(s)[s[i].0] == s[i].1,
    decreases s.len(),
{
    if i < s.len() - 1 {
        let d = s.drop_last();
        assert(d[i] == s[i]);
        lemma_value_at(d, i);
    }
}

proof fn lemma_update<K: TableKey>(s: Seq<(K, TokenBalance)>, i: int, v: TokenBalance)
    requires
        keys_unique(s),
        0 <= i < s.len(),
    ensures
        map_of(s.update(i, (s[i].0, v))) == map_of(s).insert(s[i].0, v),
        forall|a: AssetId|
            #![trigger total_of(s, a)]
            total_of(s.update(i, (s[i].0, v)), a) + (if s[i].0.asset_of() == a {
                s[i].1 as nat
            } else {
                0
            }) == total_of(s, a) + (if s[i].0.asset_of() == a {
                v as nat
            } else {
                0
            }),
    decreases s.len(),
{
    let k = s[i].0;
    let t = s.update(i, (k, v));
    let d = s.drop_last();
    assert(t.len() == s.len());
    if i == s.len() - 1 {
        assert(t.drop_last() =~= d);
        assert(map_of(t) =~= map_of(s).insert(k, v));
    } else {
        assert(t.drop_last() =~= d.update(i, (k, v)));
        assert(d[i] == s[i]);
        lemma_update(d, i, v);
        assert(s.last().0 != k);
        assert(t.last() == s.last());
        assert(map_of(t) =~= map_of(s).insert(k, v));
        assert forall|a: AssetId| #![trigger total_of(s, a)]
            total_of(t, a) + (if k.asset_of() == a { s[i].1 as nat } else { 0 })
                == total_of(s, a) + (if k.asset_of() == a { v as nat } else { 0 }) by {
            assert(total_of(t.drop_last(), a) + (if k.asset_of() == a { s[i].1 as nat } else { 0 })
                == total_of(d, a) + (if k.asset_of() == a { v as nat } else { 0 }));
        }
    }
}

proof fn lemma_amount_le_total<K: TableKey>(s: Seq<(K, TokenBalance)>, k: K)
    requires
        keys_unique(s),
    ensures
        amount_at(map_of(s), k) <= total_of(s, k.asset_of()),
    decreases s.len(),
{
    if s.len() > 0 {
        let d = s.drop_last();
        lemma_amount_le_total(d, k);
    }
}

/// A table of amounts keyed by `K`, each key stored at most once.
pub struct Table<K> {
    entries: Vec<(K, TokenBalance)>,
}

impl<K: TableKey> View for Table<K> {
    type V = Map<K, TokenBalance>;

    closed spec fn view(&self) -> Map<K, TokenBalance> {
        map_of(self.entries@)
    }
}

impl<K: TableKey> Table<K> {
    pub closed spec fn wf(&self) -> bool {
        keys_unique(self.entries@)
    }

    /// The sum of all amounts stored for asset `a`.
    pub closed spec fn total(&self, a: AssetId) -> nat {
        total_of(self.entries@, a)
    }

    pub fn new() -> (t: Self)
        ensures
            t.wf(),
            t@ == Map::<K, TokenBalance>::empty(),
            forall|a: AssetId| t.total(a) == 0,
    {
        Table { entries: Vec::new() }
    }

    fn find(&self, k: &K) -> (r: Option<usize>)
        ensures
            match r {
                Some(i) => i < self.entries@.len() && self.entries@[i as int].0 == *k,
                None => forall|i: int| 0 <= i < self.entries@.len() ==> self.entries@[i].0 != *k,
            },
    {
        let mut i: usize = 0;
        while i < self.entries.len()
            invariant
                0 <= i <= self.entries@.len(),
                forall|j: int| 0 <= j < i ==> self.entries@[j].0 != *k,
            decreases self.entries@.len() - i,
        {
            if self.entries[i].0.same(k) {
                return Some(i);
            }
            i = i + 1;
        }
        None
    }

    /// The amount stored under `k`, zero when there is none.
    pub fn get(&self, k: &K) -> (r: TokenBalance)
        requires
            self.wf(),
        ensures
            r as nat == amount_at(self@, *k),
    {
        match self.find(k) {
            Some(i) => {
                proof {
                    lemma_value_at(self.entries@, i as int);
                }
                self.entries[i].1
            },
            None => {
                proof {
                    lemma_contains(self.entries@, *k);
                }
                0
            },
        }
    }

    /// Stores `v` under `k`, replacing what was there.
    pub fn set(&mut self, k: K, v: TokenBalance)
        requires
            old(self).wf(),
        ensures
            final(self).wf(),
            final(self)@ == old(self)@.insert(k, v),
            forall|a: AssetId|
                #![trigger final(self).total(a)]
                final(self).total(a) + (if k.asset_of() == a {
                    amount_at(old(self)@, k)
                } else {
                    0
                }) == old(self).total(a) + (if k.asset_of() == a {
                    v as nat
                } else {
                    0
                }),
    {
        let ghost s = self.entries@;
        match self.find(&k) {
            Some(i) => {
                proof {
                    lemma_value_at(s, i as int);
                    lemma_update(s, i as int, v);
                }
                self.entries.set(i, (k, v));
                assert(self.entries@ == s.update(i as int, (s[i as int].0, v)));
            },
            None => {
                proof {
                    lemma_contains(s, k);
                }
                self.entries.push((k, v));
                assert(self.entries@.drop_last() =~= s);
            },
        }
    }

    /// No single amount exceeds the total of its asset.
    pub proof fn lemma_amount_le_total(&self, k: K)
        requires
            self.wf(),
        ensures
            amount_at(self@, k) <= self.total(k.asset_of()),
    {
        lemma_amount_le_total(self.entries@, k);
    }
}

} // verus!
