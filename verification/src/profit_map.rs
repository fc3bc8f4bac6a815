use vstd::prelude::*;

use crate::bytes::{bytes_eq, clone_bytes};

verus! {

/// The profit that a transaction owes to each lock, keyed by the serialized lock.
pub struct ProfitMap {
    keys: Vec<Vec<u8>>,
    values: Vec<u64>,
}

impl ProfitMap {
    /// Whether the keys and the amounts line up and no key occurs twice.
    pub closed spec fn wf(&self) -> bool {
        &&& self.keys@.len() == self.values@.len()
        &&& forall|i: int, j: int|
            #![trigger self.keys@[i], self.keys@[j]]
            0 <= i < j < self.keys@.len() ==> self.keys@[i]@ != self.keys@[j]@
    }

    /// Whether a lock has an amount.
    pub closed spec fn has_key(&self, k: Seq<u8>) -> bool {
        exists|i: int| 0 <= i < self.keys@.len() && #[trigger] self.keys@[i]@ == k
    }

    /// The amount of a lock that has one.
    pub closed spec fn amount(&self, k: Seq<u8>) -> u64 {
        self.values@[choose|i: int| 0 <= i < self.keys@.len() && #[trigger] self.keys@[i]@ == k]
    }

    /// The locks and their amounts, in the order in which the locks were first added.
    pub closed spec fn entries(&self) -> Seq<(Seq<u8>, u64)> {
        Seq::new(self.keys@.len(), |i: int| (self.keys@[i]@, self.values@[i]))
    }

    /// The map holds exactly the entries, each lock once.
    pub proof fn lemma_entries(&self)
        requires
            self.wf(),
        ensures
            forall|i: int, j: int|
                #![trigger self.entries()[i], self.entries()[j]]
                0 <= i < j < self.entries().len() ==> self.entries()[i].0 != self.entries()[j].0,
            forall|i: int|
                0 <= i < self.entries().len() ==> #[trigger] self.spec_map().contains_key(self.entries()[i].0)
                    && self.spec_map()[self.entries()[i].0] == self.entries()[i].1,
            forall|k: Seq<u8>| #[trigger]
                self.spec_map().contains_key(k) ==> exists|i: int|
                    0 <= i < self.entries().len() && #[trigger] self.entries()[i].0 == k,
    {
        assert forall|i: int, j: int| 0 <= i < j < self.entries().len() implies self.entries()[i].0
            != self.entries()[j].0 by {
            assert(self.keys@[i]@ != self.keys@[j]@);
        }
        assert forall|i: int| 0 <= i < self.entries().len() implies #[trigger] self.spec_map().contains_key(
            self.entries()[i].0,
        ) && self.spec_map()[self.entries()[i].0] == self.entries()[i].1 by {
            self.lemma_amount_at(i);
        }
        assert forall|k: Seq<u8>| #[trigger] self.spec_map().contains_key(k) implies exists|i: int|
            0 <= i < self.entries().len() && #[trigger] self.entries()[i].0 == k by {
            let i = choose|i: int| 0 <= i < self.keys@.len() && #[trigger] self.keys@[i]@ == k;
            assert(self.entries()[i].0 == k);
        }
    }

    /// The lock of the `i`-th entry.
    pub fn key_at(&self, i: usize) -> (r: &Vec<u8>)
        requires
            self.wf(),
            i < self.entries().len(),
        ensures
            r@ == self.entries()[i as int].0,
    {
        &self.keys[i]
    }

    /// The amount of the `i`-th entry.
    pub fn amount_at(&self, i: usize) -> (r: u64)
        requires
            self.wf(),
            i < self.entries().len(),
        ensures
            r == self.entries()[i as int].1,
    {
        self.values[i]
    }

    /// The amounts, as a map from locks.
    pub closed spec fn spec_map(&self) -> Map<Seq<u8>, u64> {
        Map::new(|k: Seq<u8>| self.has_key(k), |k: Seq<u8>| self.amount(k))
    }

    proof fn lemma_amount_at(&self, i: int)
        requires
            self.wf(),
            0 <= i < self.keys@.len(),
        ensures
            self.has_key(self.keys@[i]@),
            self.amount(self.keys@[i]@) == self.values@[i],
    {
        let k = self.keys@[i]@;
        assert(self.keys@[i]@ == k);
        let j = choose|j: int| 0 <= j < self.keys@.len() && #[trigger] self.keys@[j]@ == k;
        if j < i {
            assert(self.keys@[j]@ != self.keys@[i]@);
        } else if i < j {
            assert(self.keys@[i]@ != self.keys@[j]@);
        }
    }

    /// An empty map.
    pub fn new() -> (r: ProfitMap)
        ensures
            r.wf(),
            r.spec_map() == Map::<Seq<u8>, u64>::empty(),
            r.entries() == Seq::<(Seq<u8>, u64)>::empty(),
    {
        let r = ProfitMap { keys: Vec::new(), values: Vec::new() };
        assert(r.spec_map() =~= Map::<Seq<u8>, u64>::empty());
        assert(r.entries() =~= Seq::<(Seq<u8>, u64)>::empty());
        r
    }

    /// How many locks have an amount.
    pub fn len(&self) -> (n: usize)
        requires
            self.wf(),
        ensures
            n == self.spec_map().dom().len(),
            n == self.entries().len(),
    {
        proof {
            self.lemma_dom_len();
        }
        self.keys.len()
    }

    proof fn lemma_dom_len(&self)
        requires
            self.wf(),
        ensures
            self.spec_map().dom().len() == self.keys@.len(),
            self.spec_map().dom().finite(),
    {
        let ks = self.keys@.map_values(|v: Vec<u8>| v@);
        assert forall|i: int, j: int| 0 <= i < j < ks.len() implies ks[i] != ks[j] by {
            assert(self.keys@[i]@ != self.keys@[j]@);
        }
        assert(ks.no_duplicates());
        ks.unique_seq_to_set();
        assert(self.spec_map().dom() =~= ks.to_set()) by {
            assert forall|k: Seq<u8>| self.spec_map().dom().contains(k) implies ks.to_set().contains(k) by {
                let i = choose|i: int| 0 <= i < self.keys@.len() && #[trigger] self.keys@[i]@ == k;
                assert(ks[i] == k);
            }
            assert forall|k: Seq<u8>| ks.to_set().contains(k) implies self.spec_map().dom().contains(k) by {
                let i = choose|i: int| 0 <= i < ks.len() && ks[i] == k;
                assert(self.keys@[i]@ == k);
            }
        }
    }

    /// The amount of a lock, or 0 where it has none.
    pub fn get(&self, key: &[u8]) -> (r: u64)
        requires
            self.wf(),
        ensures
            r == (if self.spec_map().contains_key(key@) {
                self.spec_map()[key@]
            } else {
                0
            }),
    {
        let mut i: usize = 0;
        while i < self.keys.len()
            invariant
                self.wf(),
                i <= self.keys@.len(),
                forall|j: int| 0 <= j < i ==> #[trigger] self.keys@[j]@ != key@,
            decreases self.keys@.len() - i,
        {
            if bytes_eq(self.keys[i].as_slice(), key) {
                proof {
                    self.lemma_amount_at(i as int);
                }
                return self.values[i];
            }
            i = i + 1;
        }
        0
    }

    /// Adds an amount to what a lock is owed; a lock not seen yet gets the amount.
    pub fn add(&mut self, key: &[u8], amount: u64)
        requires
            old(self).wf(),
            old(self).spec_map().contains_key(key@) ==> old(self).spec_map()[key@] + amount <= u64::MAX,
        ensures
            final(self).wf(),
            final(self).spec_map() == (if old(self).spec_map().contains_key(key@) {
                old(self).spec_map().insert(key@, (old(self).spec_map()[key@] + amount) as u64)
            } else {
                old(self).spec_map().insert(key@, amount)
            }),
            final(self).entries() == add_entry(old(self).entries(), key@, amount),
    {
        let ghost before = *old(self);
        let mut i: usize = 0;
        while i < self.keys.len()
            invariant
                *self == before,
                before == *old(self),
                before.wf(),
                before.spec_map().contains_key(key@) ==> before.spec_map()[key@] + amount <= u64::MAX,
                i <= self.keys@.len(),
                forall|j: int| 0 <= j < i ==> #[trigger] self.keys@[j]@ != key@,
            decreases self.keys@.len() - i,
        {
            if bytes_eq(self.keys[i].as_slice(), key) {
                proof {
                    before.lemma_amount_at(i as int);
                }
                let v = self.values[i] + amount;
                self.values.set(i, v);
                proof {
                    assert forall|k: Seq<u8>| #[trigger] self.has_key(k) == before.has_key(k) by {
                        if before.has_key(k) {
                            let j = choose|j: int| 0 <= j < before.keys@.len() && #[trigger] before.keys@[j]@ == k;
                            assert(self.keys@[j]@ == k);
                        }
                        if self.has_key(k) {
                            let j = choose|j: int| 0 <= j < self.keys@.len() && #[trigger] self.keys@[j]@ == k;
                            assert(before.keys@[j]@ == k);
                        }
                    }
                    assert forall|k: Seq<u8>| self.has_key(k) implies #[trigger] self.amount(k) == (if k == key@ {
                        v
                    } else {
                        before.amount(k)
                    }) by {
                        let j = choose|j: int| 0 <= j < self.keys@.len() && #[trigger] self.keys@[j]@ == k;
                        self.lemma_amount_at(j);
                        before.lemma_amount_at(j);
                        if k == key@ {
                            assert(self.keys@[i as int]@ == self.keys@[j]@);
                            if i as int != j {
                                if (i as int) < j {
                                    assert(self.keys@[i as int]@ != self.keys@[j]@);
                                } else {
                                    assert(self.keys@[j]@ != self.keys@[i as int]@);
                                }
                            }
                        } else {
                            assert(j != i);
                        }
                    }
                    assert(self.spec_map() =~= before.spec_map().insert(key@, v));
                    assert(before.spec_map().contains_key(key@));
                    assert(before.spec_map()[key@] == before.values@[i as int]);
                    lemma_entry_index(before.entries(), key@, i as int);
                    assert(self.entries() =~= add_entry(before.entries(), key@, amount));
                }
                return;
            }
            i = i + 1;
        }
        proof {
            assert(!before.has_key(key@));
        }
        self.keys.push(clone_bytes_slice(key));
        self.values.push(amount);
        proof {
            assert forall|a: int, b: int| 0 <= a < b < self.keys@.len() implies self.keys@[a]@ != self.keys@[b]@ by {
                if b < before.keys@.len() {
                    assert(before.keys@[a]@ != before.keys@[b]@);
                }
            }
            assert forall|k: Seq<u8>| #[trigger] self.has_key(k) == (before.has_key(k) || k == key@) by {
                if before.has_key(k) {
                    let j = choose|j: int| 0 <= j < before.keys@.len() && #[trigger] before.keys@[j]@ == k;
                    assert(self.keys@[j]@ == k);
                }
                if k == key@ {
                    assert(self.keys@[before.keys@.len() as int]@ == k);
                }
                if self.has_key(k) && k != key@ {
                    let j = choose|j: int| 0 <= j < self.keys@.len() && #[trigger] self.keys@[j]@ == k;
                    assert(j < before.keys@.len());
                    assert(before.keys@[j]@ == k);
                }
            }
            assert forall|k: Seq<u8>| self.has_key(k) implies #[trigger] self.amount(k) == (if k == key@ {
                amount
            } else {
                before.amount(k)
            }) by {
                let j = choose|j: int| 0 <= j < self.keys@.len() && #[trigger] self.keys@[j]@ == k;
                self.lemma_amount_at(j);
                if k == key@ {
                    self.lemma_amount_at(before.keys@.len() as int);
                } else {
                    assert(j < before.keys@.len());
                    before.lemma_amount_at(j);
                }
            }
            assert(self.spec_map() =~= before.spec_map().insert(key@, amount));
            assert(!exists|j: int| 0 <= j < before.entries().len() && #[trigger] before.entries()[j].0 == key@) by {
                if exists|j: int| 0 <= j < before.entries().len() && #[trigger] before.entries()[j].0 == key@ {
                    let j = choose|j: int| 0 <= j < before.entries().len() && #[trigger] before.entries()[j].0 == key@;
                    assert(before.keys@[j]@ == key@);
                }
            }
            assert(self.entries() =~= add_entry(before.entries(), key@, amount));
        }
    }
}

/// The position of the entry of a lock, where there is one.
pub open spec fn entry_index(es: Seq<(Seq<u8>, u64)>, k: Seq<u8>) -> int {
    choose|i: int| 0 <= i < es.len() && #[trigger] es[i].0 == k
}

/// The entries after adding an amount for a lock: the entry of the lock grows, or a
/// new entry comes last.
pub open spec fn add_entry(es: Seq<(Seq<u8>, u64)>, k: Seq<u8>, a: u64) -> Seq<(Seq<u8>, u64)> {
    if exists|i: int| 0 <= i < es.len() && #[trigger] es[i].0 == k {
        let i = entry_index(es, k);
        es.update(i, (k, (es[i].1 + a) as u64))
    } else {
        es.push((k, a))
    }
}

proof fn lemma_entry_index(es: Seq<(Seq<u8>, u64)>, k: Seq<u8>, i: int)
    requires
        0 <= i < es.len(),
        es[i].0 == k,
        forall|a: int, b: int| #![trigger es[a], es[b]] 0 <= a < b < es.len() ==> es[a].0 != es[b].0,
    ensures
        entry_index(es, k) == i,
{
    let j = entry_index(es, k);
    assert(0 <= j < es.len() && es[j].0 == k);
    if j < i {
        assert(es[j].0 != es[i].0);
    } else if i < j {
        assert(es[i].0 != es[j].0);
    }
}

fn clone_bytes_slice(s: &[u8]) -> (r: Vec<u8>)
    ensures
        r@ == s@,
{
    let mut r: Vec<u8> = Vec::new();
    let mut i: usize = 0;
    while i < s.len()
        invariant
            i <= s@.len(),
            r@ == s@.take(i as int),
        decreases s@.len() - i,
    {
        r.push(s[i]);
        i = i + 1;
        assert(r@ =~= s@.take(i as int));
    }
    assert(s@.take(s@.len() as int) =~= s@);
    r
}

} // verus!
