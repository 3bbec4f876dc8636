//! The live price table: one entry per known instrument, keyed by the
//! exchange-assigned symbol. Rebuilt wholesale on each metadata refresh
//! and merged in place with every price batch between refreshes.

use vstd::prelude::*;

use crate::decimal::{spec_round_price, MAX_UNITS};
use crate::price::Price;

verus! {

/// First index whose key reads `k`, or -1.
pub open spec fn first_key_index<V>(s: Seq<(String, V)>, k: Seq<char>) -> int
    decreases s.len(),
{
    if s.len() == 0 {
        -1
    } else if s[0].0@ == k {
        0
    } else {
        let r = first_key_index(s.drop_first(), k);
        if r < 0 {
            -1
        } else {
            r + 1
        }
    }
}

/// What `first_key_index` means: a valid index with the key, before
/// which the key does not occur; or -1 and the key occurs nowhere.
pub proof fn lemma_first_key_index<V>(s: Seq<(String, V)>, k: Seq<char>)
    ensures
        first_key_index(s, k) >= 0 ==> {
            &&& first_key_index(s, k) < s.len()
            &&& s[first_key_index(s, k)].0@ == k
            &&& forall|j: int| 0 <= j < first_key_index(s, k) ==> (#[trigger] s[j]).0@ != k
        },
        first_key_index(s, k) < 0 ==> forall|j: int|
            0 <= j < s.len() ==> (#[trigger] s[j]).0@ != k,
    decreases s.len(),
{
    if s.len() > 0 && s[0].0@ != k {
        let t = s.drop_first();
        lemma_first_key_index(t, k);
        let r = first_key_index(t, k);
        if r >= 0 {
            assert(s[r + 1] == t[r]);
            assert forall|j: int| 0 <= j < r + 1 implies (#[trigger] s[j]).0@ != k by {
                if j > 0 {
                    assert(t[j - 1] == s[j]);
                    assert(t[j - 1].0@ != k);
                }
            }
        } else {
            assert forall|j: int| 0 <= j < s.len() implies (#[trigger] s[j]).0@ != k by {
                if j > 0 {
                    assert(t[j - 1] == s[j]);
                    assert(t[j - 1].0@ != k);
                }
            }
        }
    }
}

/// Value found for `k` in a raw batch: the first occurrence's units.
pub open spec fn batch_lookup(batch: Seq<(String, u64)>, k: Seq<char>) -> Option<u64> {
    let i = first_key_index(batch, k);
    if i >= 0 {
        Some(batch[i].1)
    } else {
        Option::None
    }
}

/// Finds the first batch entry with the given key.
pub fn batch_get(batch: &Vec<(String, u64)>, k: &String) -> (r: Option<u64>)
    ensures
        r == batch_lookup(batch@, k@),
{
    proof {
        lemma_first_key_index(batch@, k@);
    }
    let mut i: usize = 0;
    while i < batch.len()
        invariant
            i <= batch@.len(),
            forall|j: int| 0 <= j < i ==> (#[trigger] batch@[j]).0@ != k@,
            first_key_index(batch@, k@) >= 0 ==> first_key_index(batch@, k@) < batch@.len()
                && batch@[first_key_index(batch@, k@)].0@ == k@,
            first_key_index(batch@, k@) >= 0 ==> forall|j: int|
                0 <= j < first_key_index(batch@, k@) ==> (#[trigger] batch@[j]).0@ != k@,
            first_key_index(batch@, k@) < 0 ==> forall|j: int|
                0 <= j < batch@.len() ==> (#[trigger] batch@[j]).0@ != k@,
        decreases batch@.len() - i,
    {
        if batch[i].0 == *k {
            proof {
                let f = first_key_index(batch@, k@);
                if f != i as int {
                    if f < 0 || f > i as int {
                        assert(batch@[i as int].0@ == k@);
                    } else {
                        assert(batch@[f].0@ != k@);
                    }
                }
            }
            return Some(batch[i].1);
        }
        i = i + 1;
    }
    Option::None
}

/// The live table of instrument prices.
#[derive(Clone, Debug)]
pub struct NameToPriceMap {
    pub entries: Vec<(String, Price)>,
}

impl NameToPriceMap {
    pub open spec fn spec_len(&self) -> nat {
        self.entries@.len()
    }

    pub open spec fn spec_key(&self, i: int) -> Seq<char> {
        self.entries@[i].0@
    }

    pub open spec fn spec_price(&self, i: int) -> Price {
        self.entries@[i].1
    }

    pub open spec fn spec_index_of(&self, k: Seq<char>) -> int {
        first_key_index(self.entries@, k)
    }

    pub open spec fn contains_key(&self, k: Seq<char>) -> bool {
        self.spec_index_of(k) >= 0
    }

    /// A well-formed table holds one entry per instrument (keys are
    /// unique) and only well-formed prices.
    pub open spec fn wf(&self) -> bool {
        &&& forall|i: int, j: int| 0 <= i < j < self.spec_len() ==> self.spec_key(i)
            != self.spec_key(j)
        &&& forall|i: int| 0 <= i < self.spec_len() ==> (#[trigger] self.spec_price(i)).wf()
    }

    pub fn new() -> (r: NameToPriceMap)
        ensures
            r.wf(),
            r.spec_len() == 0,
    {
        NameToPriceMap { entries: Vec::new() }
    }

    pub fn len(&self) -> (r: usize)
        ensures
            r == self.spec_len(),
    {
        self.entries.len()
    }

    /// Inserts or replaces the price stored under `name`.
    pub fn insert(&mut self, name: String, p: Price)
        requires
            old(self).wf(),
            p.wf(),
        ensures
            final(self).wf(),
            final(self).contains_key(name@),
            final(self).spec_price(final(self).spec_index_of(name@)) == p,
            forall|k: Seq<char>| k != name@ ==> final(self).contains_key(k) == old(self).contains_key(k),
            forall|k: Seq<char>| k != name@ && old(self).contains_key(k) ==> final(self).spec_price(final(self).spec_index_of(k)) == old(self).spec_price(
                old(self).spec_index_of(k),
            ),
            old(self).contains_key(name@) ==> final(self).spec_len() == old(self).spec_len(),
            !old(self).contains_key(name@) ==> final(self).spec_len() == old(self).spec_len()
                + 1,
    {
        proof {
            lemma_first_key_index(self.entries@, name@);
        }
        let n = self.entries.len();
        let mut i: usize = 0;
        while i < n
            invariant
                i <= n == self.entries@.len(),
                self.entries@ == old(self).entries@,
                old(self).wf(),
                p.wf(),
                forall|j: int| 0 <= j < i ==> (#[trigger] self.entries@[j]).0@ != name@,
            decreases n - i,
        {
            if self.entries[i].0 == name {
                proof {
                    let s0 = self.entries@;
                    let s1 = s0.update(i as int, (name, p));
                    assert(forall|j: int| 0 <= j < s0.len() ==> (#[trigger] s0[j]).0@
                        == s1[j].0@);
                    lemma_first_key_index_is(s1, name@, i as int);
                    assert forall|k: Seq<char>| true implies first_key_index(s1, k)
                        == first_key_index(s0, k) by {
                        lemma_first_key_index_same_keys(s0, s1, k);
                    }
                    lemma_first_key_index_is(s0, name@, i as int);
                    assert forall|k: Seq<char>|
                        k != name@ && first_key_index(s0, k) >= 0 implies s1[first_key_index(
                        s1,
                        k,
                    )].1 == s0[first_key_index(s0, k)].1 by {
                        lemma_first_key_index(s0, k);
                        assert(s0[first_key_index(s0, k)].0@ == k);
                        assert(first_key_index(s0, k) != i as int);
                    }
                    assert forall|a: int, b: int| 0 <= a < b < s1.len() implies s1[a].0@
                        != s1[b].0@ by {
                        assert(old(self).spec_key(a) != old(self).spec_key(b));
                    }
                    assert forall|a: int| 0 <= a < s1.len() implies (#[trigger] s1[a].1).wf() by {
                        if a != i as int {
                            assert(old(self).spec_price(a).wf());
                        }
                    }
                }
                self.entries.set(i, (name, p));
                return ;
            }
            i = i + 1;
        }
        proof {
            let s0 = self.entries@;
            let s1 = s0.push((name, p));
            lemma_first_key_index(s0, name@);
            assert(first_key_index(s0, name@) < 0);
            assert forall|k: Seq<char>| true implies first_key_index(s1, k)
                == (if first_key_index(s0, k) >= 0 {
                first_key_index(s0, k)
            } else if k == name@ {
                s0.len() as int
            } else {
                -1int
            }) by {
                lemma_first_key_index_push(s0, (name, p), k);
            }
            assert(s1[s0.len() as int] == (name, p));
            assert forall|k: Seq<char>|
                k != name@ && first_key_index(s0, k) >= 0 implies s1[first_key_index(s1, k)].1
                == s0[first_key_index(s0, k)].1 by {
                lemma_first_key_index(s0, k);
            }
            assert forall|a: int, b: int| 0 <= a < b < s1.len() implies s1[a].0@ != s1[b].0@ by {
                if b < s0.len() {
                    assert(old(self).spec_key(a) != old(self).spec_key(b));
                } else {
                    assert(s1[b] == (name, p));
                    assert(s0[a].0@ != name@);
                }
            }
            assert forall|a: int| 0 <= a < s1.len() implies (#[trigger] s1[a].1).wf() by {
                if a < s0.len() {
                    assert(old(self).spec_price(a).wf());
                }
            }
        }
        self.entries.push((name, p));
    }

    /// The price stored under `name`, if any.
    pub fn get(&self, name: &String) -> (r: Option<&Price>)
        ensures
            match r {
            Some(p) => self.contains_key(name@) && *p == self.spec_price(
                self.spec_index_of(name@),
            ),
            Option::None => !self.contains_key(name@),
        },
    {
        proof {
            lemma_first_key_index(self.entries@, name@);
        }
        let mut i: usize = 0;
        while i < self.entries.len()
            invariant
                i <= self.entries@.len(),
                forall|j: int| 0 <= j < i ==> (#[trigger] self.entries@[j]).0@ != name@,
                first_key_index(self.entries@, name@) >= 0 ==> first_key_index(
                    self.entries@,
                    name@,
                ) < self.entries@.len() && self.entries@[first_key_index(
                    self.entries@,
                    name@,
                )].0@ == name@,
                first_key_index(self.entries@, name@) >= 0 ==> forall|j: int|
                    0 <= j < first_key_index(self.entries@, name@) ==> (
                    #[trigger] self.entries@[j]).0@ != name@,
                first_key_index(self.entries@, name@) < 0 ==> forall|j: int|
                    0 <= j < self.entries@.len() ==> (#[trigger] self.entries@[j]).0@ != name@,
            decreases self.entries@.len() - i,
        {
            if self.entries[i].0 == *name {
                proof {
                    let f = first_key_index(self.entries@, name@);
                    if f != i as int {
                        if f < 0 || f > i as int {
                            assert(self.entries@[i as int].0@ == name@);
                        } else {
                            assert(self.entries@[f].0@ != name@);
                        }
                    }
                }
                return Some(&self.entries[i].1);
            }
            i = i + 1;
        }
        Option::None
    }

    /// Merges one price batch: every entry whose key appears in the
    /// batch is re-rounded to the batch's value (first occurrence);
    /// entries absent from the batch keep their prior value. Keys and
    /// order never change.
    pub fn update_from_batch(&mut self, batch: &Vec<(String, u64)>)
        requires
            old(self).wf(),
            forall|i: int| 0 <= i < batch@.len() ==> (#[trigger] batch@[i]).1 <= MAX_UNITS,
        ensures
            final(self).wf(),
            final(self).spec_len() == old(self).spec_len(),
            forall|i: int| 0 <= i < old(self).spec_len() ==> final(self).spec_key(i) == old(self).spec_key(i),
            forall|i: int| 0 <= i < old(self).spec_len() ==> #[trigger] final(self).spec_price(
                i,
            ) == {
                let p = old(self).spec_price(i);
                match batch_lookup(batch@, old(self).spec_key(i)) {
                    Some(v) => spec_updated_price(p, v),
                    Option::None => p,
                }
            },
    {
        proof {
            assert forall|j: int| 0 <= j < self.entries@.len() implies (#[trigger] self
                .entries@[j].1).wf() by {
                assert(old(self).spec_price(j).wf());
            }
        }
        let n = self.entries.len();
        let mut i: usize = 0;
        while i < n
            invariant
                i <= n == self.entries@.len(),
                n == old(self).spec_len(),
                forall|j: int| 0 <= j < batch@.len() ==> (#[trigger] batch@[j]).1 <= MAX_UNITS,
                forall|j: int| 0 <= j < n ==> #[trigger] self.entries@[j].0@ == old(self).spec_key(j),
                forall|j: int| i <= j < n ==> #[trigger] self.entries@[j].1 == old(self).spec_price(j),
                forall|j: int| 0 <= j < i ==> #[trigger] self.entries@[j].1 == {
                    let p = old(self).spec_price(j);
                    match batch_lookup(batch@, old(self).spec_key(j)) {
                        Some(v) => spec_updated_price(p, v),
                        Option::None => p,
                    }
                },
                forall|j: int| 0 <= j < n ==> (#[trigger] self.entries@[j].1).wf(),
            decreases n - i,
        {
            let found = batch_get(batch, &self.entries[i].0);
            match found {
                Some(v) => {
                    proof {
                        lemma_first_key_index(batch@, self.entries@[i as int].0@);
                        assert(batch@[first_key_index(batch@, self.entries@[i as int].0@)].1
                            <= MAX_UNITS);
                    }
                    let name = self.entries[i].0.clone();
                    let mut p = self.entries[i].1.duplicate();
                    p.update_price(v);
                    self.entries.set(i, (name, p));
                },
                Option::None => {},
            }
            i = i + 1;
        }
        proof {
            assert forall|a: int, b: int|
                0 <= a < b < final(self).spec_len() implies final(self).spec_key(a) != final(self).spec_key(b) by {
                assert(old(self).spec_key(a) != old(self).spec_key(b));
            }
        }
    }
}

/// The price that `update_price` leaves behind: the same instrument,
/// re-rounded to the new raw value (the no-price tag absorbs updates).
pub open spec fn spec_updated_price(p: Price, v: u64) -> Price {
    match p {
        Price::NoPrice => Price::NoPrice,
        Price::Spot { meta, .. } => Price::Spot {
            price: spec_round_price(
                v as nat,
                crate::meta::MAX_DECIMALS_SPOT as int,
                meta.spec_sz_decimals() as int,
            ) as u64,
            meta,
        },
        Price::Perp { meta, .. } => Price::Perp {
            price: spec_round_price(
                v as nat,
                crate::meta::MAX_DECIMALS_PERP as int,
                meta.spec_sz_decimals() as int,
            ) as u64,
            meta,
        },
    }
}

/// If `i` is the first position carrying key `k`, it is the first index.
pub proof fn lemma_first_key_index_is<V>(s: Seq<(String, V)>, k: Seq<char>, i: int)
    requires
        0 <= i < s.len(),
        s[i].0@ == k,
        forall|j: int| 0 <= j < i ==> (#[trigger] s[j]).0@ != k,
    ensures
        first_key_index(s, k) == i,
    decreases s.len(),
{
    if i == 0 {
    } else {
        assert(s[0].0@ != k);
        let t = s.drop_first();
        assert(forall|j: int| 0 <= j < t.len() ==> #[trigger] t[j] == s[j + 1]);
        lemma_first_key_index_is(t, k, i - 1);
    }
}

/// Sequences with the same keys position by position have the same
/// first index for every key.
pub proof fn lemma_first_key_index_same_keys<V>(s1: Seq<(String, V)>, s2: Seq<(String, V)>, k: Seq<char>)
    requires
        s1.len() == s2.len(),
        forall|j: int| 0 <= j < s1.len() ==> (#[trigger] s1[j]).0@ == s2[j].0@,
    ensures
        first_key_index(s1, k) == first_key_index(s2, k),
    decreases s1.len(),
{
    if s1.len() > 0 {
        assert(s1[0].0@ == s2[0].0@);
        let t1 = s1.drop_first();
        let t2 = s2.drop_first();
        assert(forall|j: int| 0 <= j < t1.len() ==> #[trigger] t1[j] == s1[j + 1] && t2[j]
            == s2[j + 1]);
        lemma_first_key_index_same_keys(t1, t2, k);
    }
}

/// Pushing an entry: keys already present keep their first index; the
/// pushed key lands at the end if fresh; other keys stay absent.
pub proof fn lemma_first_key_index_push<V>(s: Seq<(String, V)>, e: (String, V), k: Seq<char>)
    ensures
        first_key_index(s.push(e), k) == if first_key_index(s, k) >= 0 {
            first_key_index(s, k)
        } else if e.0@ == k {
            s.len() as int
        } else {
            -1
        },
    decreases s.len(),
{
    let p = s.push(e);
    if s.len() == 0 {
        assert(p.len() == 1);
        assert(p[0] == e);
        if e.0@ != k {
            assert(p.drop_first().len() == 0);
            assert(first_key_index(p.drop_first(), k) == -1);
        }
    } else {
        assert(p[0] == s[0]);
        if s[0].0@ != k {
            assert(p.drop_first() =~= s.drop_first().push(e));
            lemma_first_key_index_push(s.drop_first(), e, k);
        }
    }
}

} // verus!
