//! An insertion-ordered association table with `u64` keys.
//!
//! The registry, the per-kind component stores and the query cache all need a
//! small map whose iteration order is the order in which keys were first
//! inserted.  This module provides one, verified: keys are kept unique, and
//! every operation states how it changes the key sequence and the value bound
//! to each key.

use vstd::prelude::*;
use vstd::pervasive::VecAdditionalExecFns;

verus! {

/// A map from `u64` keys to values of type `V`, kept as two parallel vectors
/// so that the keys preserve insertion order.
pub struct KeyedVec<V> {
    keys: Vec<u64>,
    vals: Vec<V>,
}

impl<V> KeyedVec<V> {
    /// The keys and values line up, and no key occurs twice.
    pub closed spec fn well_formed(&self) -> bool {
        &&& self.keys@.len() == self.vals@.len()
        &&& forall|i: int, j: int|
            0 <= i < j < self.keys@.len() ==> self.keys@[i] != self.keys@[j]
    }

    /// The keys in insertion order.
    pub closed spec fn key_seq(&self) -> Seq<u64> {
        self.keys@
    }

    pub open spec fn spec_len(&self) -> nat {
        self.key_seq().len()
    }

    pub open spec fn contains_key(&self, k: u64) -> bool {
        self.key_seq().contains(k)
    }

    pub closed spec fn val_seq(&self) -> Seq<V> {
        self.vals@
    }

    /// The value bound to key `k`; meaningful only when `contains_key(k)`.
    pub open spec fn val_of(&self, k: u64) -> V {
        self.val_seq()[self.key_seq().index_of(k)]
    }

    /// When the table is well formed and holds `k`, the index chosen by
    /// `index_of` is the unique position of `k`.
    pub proof fn lemma_index_of(&self, k: u64)
        requires
            self.well_formed(),
            self.contains_key(k),
        ensures
            0 <= self.key_seq().index_of(k) < self.key_seq().len(),
            self.key_seq()[self.key_seq().index_of(k)] == k,
            forall|i: int|
                0 <= i < self.key_seq().len() && self.key_seq()[i] == k
                    ==> i == self.key_seq().index_of(k),
    {
        let s = self.key_seq();
        assert(exists|i: int| 0 <= i < s.len() && s[i] == k);
    }

    pub fn new() -> (r: Self)
        ensures
            r.well_formed(),
            r.key_seq() == Seq::<u64>::empty(),
            r.val_seq() == Seq::<V>::empty(),
    {
        KeyedVec { keys: Vec::new(), vals: Vec::new() }
    }

    pub fn len(&self) -> (r: usize)
        ensures
            r == self.spec_len(),
    {
        self.keys.len()
    }

    /// The position of key `k`, if present.
    pub fn position_of(&self, k: u64) -> (r: Option<usize>)
        requires
            self.well_formed(),
        ensures
            match r {
                Some(i) => {
                    &&& i < self.key_seq().len()
                    &&& self.key_seq()[i as int] == k
                    &&& self.contains_key(k)
                    &&& i == self.key_seq().index_of(k)
                },
                None => !self.contains_key(k),
            },
    {
        let n = self.keys.len();
        let mut i: usize = 0;
        while i < n
            invariant
                n == self.key_seq().len(),
                i <= n,
                self.well_formed(),
                forall|j: int| 0 <= j < i ==> self.key_seq()[j] != k,
            decreases n - i,
        {
            if self.keys[i] == k {
                proof {
                    self.lemma_index_of(k);
                }
                return Some(i);
            }
            i = i + 1;
        }
        return None;
    }

    pub fn get(&self, k: u64) -> (r: Option<&V>)
        requires
            self.well_formed(),
        ensures
            match r {
                Some(v) => self.contains_key(k) && *v == self.val_of(k),
                None => !self.contains_key(k),
            },
    {
        match self.position_of(k) {
            Some(i) => Some(&self.vals[i]),
            None => None,
        }
    }

    /// Binds `k` to `v`.  A fresh key goes to the end of the order; an
    /// existing key keeps its position and its old value is returned.
    pub fn set(&mut self, k: u64, v: V) -> (r: Option<V>)
        requires
            old(self).well_formed(),
        ensures
            final(self).well_formed(),
            final(self).contains_key(k),
            final(self).val_of(k) == v,
            forall|k2: u64|
                k2 != k ==> final(self).contains_key(k2) == old(self).contains_key(k2),
            forall|k2: u64|
                k2 != k && old(self).contains_key(k2)
                    ==> final(self).val_of(k2) == old(self).val_of(k2),
            old(self).contains_key(k) ==> {
                &&& final(self).key_seq() == old(self).key_seq()
                &&& r == Some(old(self).val_of(k))
            },
            !old(self).contains_key(k) ==> {
                &&& final(self).key_seq() == old(self).key_seq().push(k)
                &&& r == None::<V>
            },
    {
        match self.position_of(k) {
            Some(i) => {
                let mut held = v;
                self.vals.set_and_swap(i, &mut held);
                proof {
                    self.lemma_index_of(k);
                    assert forall|k2: u64| k2 != k && old(self).contains_key(k2)
                        implies self.val_of(k2) == old(self).val_of(k2) by {
                        old(self).lemma_index_of(k2);
                        self.lemma_index_of(k2);
                    };
                }
                Some(held)
            },
            None => {
                self.keys.push(k);
                self.vals.push(v);
                proof {
                    assert(self.key_seq() == old(self).key_seq().push(k));
                    assert(self.key_seq()[self.key_seq().len() - 1] == k);
                    assert(self.well_formed());
                    self.lemma_index_of(k);
                    assert forall|k2: u64| k2 != k && old(self).contains_key(k2)
                        implies self.contains_key(k2) && self.val_of(k2) == old(self).val_of(k2) by {
                        old(self).lemma_index_of(k2);
                        let i = old(self).key_seq().index_of(k2);
                        assert(self.key_seq()[i] == k2);
                        self.lemma_index_of(k2);
                    };
                    assert forall|k2: u64| k2 != k && self.contains_key(k2)
                        implies old(self).contains_key(k2) by {
                        self.lemma_index_of(k2);
                        let i = self.key_seq().index_of(k2);
                        assert(old(self).key_seq()[i] == k2);
                    };
                }
                None
            },
        }
    }

    /// Removes the binding for `k`, keeping the order of the other keys.
    pub fn remove(&mut self, k: u64) -> (r: Option<V>)
        requires
            old(self).well_formed(),
        ensures
            final(self).well_formed(),
            !final(self).contains_key(k),
            forall|k2: u64|
                k2 != k ==> final(self).contains_key(k2) == old(self).contains_key(k2),
            forall|k2: u64|
                k2 != k && old(self).contains_key(k2)
                    ==> final(self).val_of(k2) == old(self).val_of(k2),
            old(self).contains_key(k) ==> {
                &&& final(self).key_seq()
                    == old(self).key_seq().remove(old(self).key_seq().index_of(k))
                &&& r == Some(old(self).val_of(k))
            },
            !old(self).contains_key(k) ==> {
                &&& final(self).key_seq() == old(self).key_seq()
                &&& r == None::<V>
            },
    {
        match self.position_of(k) {
            Some(i) => {
                proof {
                    old(self).lemma_index_of(k);
                }
                self.keys.remove(i);
                let v = self.vals.remove(i);
                proof {
                    let oks = old(self).key_seq();
                    let i_int = i as int;
                    assert forall|a: int, b: int|
                        0 <= a < b < self.key_seq().len()
                        implies self.key_seq()[a] != self.key_seq()[b] by {
                        let a0 = if a < i_int { a } else { a + 1 };
                        let b0 = if b < i_int { b } else { b + 1 };
                        assert(self.key_seq()[a] == oks[a0]);
                        assert(self.key_seq()[b] == oks[b0]);
                    };
                    assert(self.well_formed());
                    assert forall|k2: u64| k2 != k && old(self).contains_key(k2)
                        implies self.contains_key(k2) && self.val_of(k2) == old(self).val_of(k2) by {
                        old(self).lemma_index_of(k2);
                        let j = oks.index_of(k2);
                        let j2 = if j < i_int { j } else { j - 1 };
                        assert(self.key_seq()[j2] == k2);
                        self.lemma_index_of(k2);
                        assert(self.val_seq()[j2] == old(self).val_seq()[j]);
                    };
                    assert forall|k2: u64| self.contains_key(k2)
                        implies k2 != k && old(self).contains_key(k2) by {
                        self.lemma_index_of(k2);
                        let j2 = self.key_seq().index_of(k2);
                        let j0 = if j2 < i_int { j2 } else { j2 + 1 };
                        assert(oks[j0] == k2);
                        if k2 == k {
                            old(self).lemma_index_of(k);
                        }
                    };
                }
                Some(v)
            },
            None => None,
        }
    }

    /// A reference to the keys, in insertion order.
    pub fn keys_ref(&self) -> (r: &Vec<u64>)
        ensures
            r@ == self.key_seq(),
    {
        &self.keys
    }

    /// Drops every binding.
    pub fn clear(&mut self)
        ensures
            final(self).well_formed(),
            final(self).key_seq() == Seq::<u64>::empty(),
            final(self).val_seq() == Seq::<V>::empty(),
    {
        self.keys.clear();
        self.vals.clear();
    }
}

/// Copies a list of identifiers.
pub fn copy_ids(src: &Vec<u64>) -> (r: Vec<u64>)
    ensures
        r@ == src@,
{
    let n = src.len();
    let mut out: Vec<u64> = Vec::new();
    let mut i: usize = 0;
    while i < n
        invariant
            n == src@.len(),
            i <= n,
            out@ == src@.take(i as int),
        decreases n - i,
    {
        out.push(src[i]);
        proof {
            assert(out@ == src@.take(i + 1 as int));
        }
        i = i + 1;
    }
    proof {
        assert(src@.take(n as int) == src@);
    }
    out
}

/// Whether `x` occurs in `v`.
pub fn contains_id(v: &Vec<u64>, x: u64) -> (r: bool)
    ensures
        r == v@.contains(x),
{
    let n = v.len();
    let mut i: usize = 0;
    while i < n
        invariant
            n == v@.len(),
            i <= n,
            forall|j: int| 0 <= j < i ==> v@[j] != x,
        decreases n - i,
    {
        if v[i] == x {
            return true;
        }
        i = i + 1;
    }
    return false;
}

/// The first position of `x` in `v`, if any.
pub fn first_position(v: &Vec<u64>, x: u64) -> (r: Option<usize>)
    ensures
        match r {
            Some(i) => {
                &&& i < v@.len()
                &&& v@[i as int] == x
                &&& forall|j: int| 0 <= j < i ==> v@[j] != x
            },
            None => !v@.contains(x),
        },
{
    let n = v.len();
    let mut i: usize = 0;
    while i < n
        invariant
            n == v@.len(),
            i <= n,
            forall|j: int| 0 <= j < i ==> v@[j] != x,
        decreases n - i,
    {
        if v[i] == x {
            return Some(i);
        }
        i = i + 1;
    }
    return None;
}

} // verus!
