//! Dense component storage for one component kind.
//!
//! Component values live in a dense array of optional slots; a sparse table
//! maps each owning entity to its slot, and a free-slot list keeps the indices
//! that removals have vacated so that a later insert reuses them instead of
//! growing the array.  Each slot carries a version counter that is bumped on
//! every write or reuse, and trailing vacated slots can be reclaimed by an
//! opportunistic, throttled compaction.

use vstd::prelude::*;
use vstd::pervasive::VecAdditionalExecFns;
use crate::keyed::KeyedVec;
use crate::EntityId;

verus! {

/// How many time units must pass between two compaction passes of one store.
pub const COMPACTION_INTERVAL: u64 = 5;

/// The version a slot gets after one more write: one higher, saturating at
/// the top of the counter's range.
pub open spec fn bumped(v: u64) -> u64 {
    if v == u64::MAX {
        v
    } else {
        (v + 1) as u64
    }
}

fn bump_version(v: u64) -> (r: u64)
    ensures
        r == bumped(v),
{
    if v == u64::MAX {
        v
    } else {
        v + 1
    }
}

/// A sequence of distinct values drawn from `0..bound` is no longer than
/// `bound`.
proof fn lemma_distinct_bounded(s: Seq<usize>, bound: int)
    requires
        bound >= 0,
        forall|p: int| 0 <= p < s.len() ==> 0 <= #[trigger] s[p] < bound,
        forall|p1: int, p2: int| 0 <= p1 < p2 < s.len() ==> s[p1] != s[p2],
    ensures
        s.len() <= bound,
    decreases bound,
{
    if s.len() > 0 {
        let last = s[s.len() - 1] as int;
        let rest = s.drop_last();
        let renamed = Seq::new(
            rest.len(),
            |p: int| if rest[p] as int == bound - 1 { last as usize } else { rest[p] },
        );
        assert forall|p: int| 0 <= p < renamed.len()
            implies 0 <= #[trigger] renamed[p] < bound - 1 by {
            assert(rest[p] == s[p]);
            assert(s[p] != s[s.len() - 1]);
        };
        assert forall|p1: int, p2: int|
            0 <= p1 < p2 < renamed.len()
            implies renamed[p1] != renamed[p2] by {
            assert(s[p1] != s[p2]);
            assert(s[p1] != s[s.len() - 1]);
            assert(s[p2] != s[s.len() - 1]);
        };
        lemma_distinct_bounded(renamed, bound - 1);
    }
}

/// Dense storage for the component values of a single kind.
pub struct ComponentStorage<C> {
    components: Vec<Option<C>>,
    entity_indices: KeyedVec<usize>,
    free_indices: Vec<usize>,
    component_versions: Vec<u64>,
    last_optimization: u64,
    compaction_interval: u64,
}

impl<C> ComponentStorage<C> {
    /// The entities that own a component of this kind, oldest mapping first.
    pub closed spec fn owners(&self) -> Seq<u64> {
        self.entity_indices.key_seq()
    }

    pub open spec fn owns(&self, entity: u64) -> bool {
        self.owners().contains(entity)
    }

    /// The dense index of `entity`'s slot; meaningful only when `owns(entity)`.
    pub closed spec fn slot_of(&self, entity: u64) -> usize {
        self.entity_indices.val_of(entity)
    }

    pub closed spec fn slot_seq(&self) -> Seq<Option<C>> {
        self.components@
    }

    /// The component held for `entity`; meaningful only when `owns(entity)`.
    pub open spec fn value_of(&self, entity: u64) -> C {
        self.slot_seq()[self.slot_of(entity) as int]->Some_0
    }


    pub closed spec fn version_seq(&self) -> Seq<u64> {
        self.component_versions@
    }

    /// The version counter of `entity`'s slot; meaningful only when `owns(entity)`.
    pub open spec fn version_of(&self, entity: u64) -> u64 {
        self.version_seq()[self.slot_of(entity) as int]
    }

    pub closed spec fn free_seq(&self) -> Seq<usize> {
        self.free_indices@
    }

    pub open spec fn free_count(&self) -> nat {
        self.free_seq().len()
    }

    /// How many slots the dense array has ever grown to and still holds,
    /// occupied or vacated.
    pub open spec fn high_water(&self) -> nat {
        self.slot_seq().len()
    }

    pub open spec fn occupied_count(&self) -> nat {
        self.owners().len()
    }

    pub closed spec fn spec_last_optimization(&self) -> u64 {
        self.last_optimization
    }

    pub closed spec fn spec_compaction_interval(&self) -> u64 {
        self.compaction_interval
    }

    /// Structural invariant of the store: the sparse table is well formed and
    /// maps each owner to a distinct occupied slot in range, the free list
    /// holds exactly the vacated slots, once each, and the version array runs
    /// parallel to the dense array.
    pub closed spec fn well_formed(&self) -> bool {
        &&& self.entity_indices.well_formed()
        &&& self.component_versions@.len() == self.components@.len()
        &&& forall|e: u64|
            #[trigger] self.owns(e)
                ==> self.slot_of(e) < self.components@.len()
                    && self.components@[self.slot_of(e) as int] is Some
        &&& forall|e1: u64, e2: u64|
            #![trigger self.slot_of(e1), self.slot_of(e2)]
            e1 != e2 && self.owns(e1) && self.owns(e2) ==> self.slot_of(e1) != self.slot_of(e2)
        &&& forall|j: int|
            0 <= j < self.free_indices@.len()
                ==> #[trigger] self.free_indices@[j] < self.components@.len()
                    && self.components@[self.free_indices@[j] as int] is None
        &&& forall|j1: int, j2: int|
            0 <= j1 < j2 < self.free_indices@.len()
                ==> self.free_indices@[j1] != self.free_indices@[j2]
        &&& forall|i: int|
            0 <= i < self.components@.len() && self.components@[i] is None
                ==> exists|j: int|
                    0 <= j < self.free_indices@.len() && #[trigger] self.free_indices@[j] == i
    }

    /// Everything `insert` promises about the store it leaves behind.
    pub open spec fn insert_effect(pre: Self, post: Self, entity: u64, component: C) -> bool {
        &&& post.well_formed()
        &&& post.owns(entity)
        &&& post.value_of(entity) == component
        &&& forall|e2: u64| e2 != entity ==> post.owns(e2) == pre.owns(e2)
        &&& forall|e2: u64|
            e2 != entity && pre.owns(e2)
                ==> post.value_of(e2) == pre.value_of(e2)
                    && post.version_of(e2) == pre.version_of(e2)
        &&& pre.owns(entity) ==> {
            &&& post.owners() == pre.owners()
            &&& post.high_water() == pre.high_water()
            &&& post.free_seq() == pre.free_seq()
            &&& post.version_of(entity) == bumped(pre.version_of(entity))
        }
        &&& !pre.owns(entity) ==> post.owners() == pre.owners().push(entity)
        &&& !pre.owns(entity) && pre.free_count() > 0 ==> {
            &&& post.high_water() == pre.high_water()
            &&& post.free_seq() == pre.free_seq().drop_last()
            &&& post.version_of(entity) == bumped(pre.version_seq()[pre.free_seq().last() as int])
        }
        &&& !pre.owns(entity) && pre.free_count() == 0 ==> {
            &&& post.high_water() == pre.high_water() + 1
            &&& post.free_seq() == pre.free_seq()
            &&& post.version_of(entity) == 1
        }
        &&& post.spec_last_optimization() == pre.spec_last_optimization()
        &&& post.spec_compaction_interval() == pre.spec_compaction_interval()
    }

    /// Everything `remove` promises about the store it leaves behind.
    pub open spec fn remove_effect(pre: Self, post: Self, entity: u64) -> bool {
        &&& post.well_formed()
        &&& !post.owns(entity)
        &&& forall|e2: u64| e2 != entity ==> post.owns(e2) == pre.owns(e2)
        &&& forall|e2: u64|
            e2 != entity && pre.owns(e2)
                ==> post.value_of(e2) == pre.value_of(e2)
                    && post.version_of(e2) == pre.version_of(e2)
        &&& post.high_water() == pre.high_water()
        &&& pre.owns(entity) ==> {
            &&& post.owners() == pre.owners().remove(pre.owners().index_of(entity))
            &&& post.free_seq() == pre.free_seq().push(pre.slot_of(entity))
        }
        &&& !pre.owns(entity) ==> post == pre
        &&& post.spec_last_optimization() == pre.spec_last_optimization()
        &&& post.spec_compaction_interval() == pre.spec_compaction_interval()
    }

    /// Well-formedness does not depend on the compaction throttle fields.
    proof fn lemma_wf_same_structure(a: Self, b: Self)
        requires
            a.well_formed(),
            b.entity_indices == a.entity_indices,
            b.components == a.components,
            b.free_indices == a.free_indices,
            b.component_versions == a.component_versions,
        ensures
            b.well_formed(),
    {
        assert forall|e: u64| #[trigger] b.owns(e)
            implies b.slot_of(e) < b.components@.len()
                && b.components@[b.slot_of(e) as int] is Some by {
            assert(a.owns(e));
        };
        assert forall|e1: u64, e2: u64|
            #![trigger b.slot_of(e1), b.slot_of(e2)]
            e1 != e2 && b.owns(e1) && b.owns(e2)
            implies b.slot_of(e1) != b.slot_of(e2) by {
            assert(a.owns(e1));
            assert(a.owns(e2));
            assert(a.slot_of(e1) != a.slot_of(e2));
        };
    }

    /// A fresh, empty store with the default compaction throttle.
    pub fn new() -> (r: Self)
        ensures
            r.well_formed(),
            r.owners() == Seq::<u64>::empty(),
            r.high_water() == 0,
            r.free_count() == 0,
            r.spec_last_optimization() == 0,
            r.spec_compaction_interval() == COMPACTION_INTERVAL,
    {
        ComponentStorage {
            components: Vec::new(),
            entity_indices: KeyedVec::new(),
            free_indices: Vec::new(),
            component_versions: Vec::new(),
            last_optimization: 0,
            compaction_interval: COMPACTION_INTERVAL,
        }
    }

    /// An empty store whose compaction throttle is `interval` time units.
    pub fn with_compaction_interval(interval: u64) -> (r: Self)
        ensures
            r.well_formed(),
            r.owners() == Seq::<u64>::empty(),
            r.high_water() == 0,
            r.free_count() == 0,
            r.spec_last_optimization() == 0,
            r.spec_compaction_interval() == interval,
    {
        ComponentStorage {
            components: Vec::new(),
            entity_indices: KeyedVec::new(),
            free_indices: Vec::new(),
            component_versions: Vec::new(),
            last_optimization: 0,
            compaction_interval: interval,
        }
    }

    /// Attaches `component` to `entity`.  An entity that already owns this
    /// kind has its slot overwritten in place (the old value is returned and
    /// the slot version bumped); otherwise a vacated slot is reused if one
    /// exists, and only as a last resort does the dense array grow.
    pub fn insert(&mut self, entity: EntityId, component: C) -> (prev: Option<C>)
        requires
            old(self).well_formed(),
        ensures
            Self::insert_effect(*old(self), *final(self), entity, component),
            prev == if old(self).owns(entity) {
                Some(old(self).value_of(entity))
            } else {
                None::<C>
            },
    {
        let slot = match self.entity_indices.get(entity) {
            Some(i) => Some(*i),
            None => None,
        };
        match slot {
            Some(i) => {
                proof {
                    assert(self.owns(entity));
                    assert(i == self.slot_of(entity));
                    assert(i < self.components@.len());
                }
                let mut held: Option<C> = Some(component);
                self.components.set_and_swap(i, &mut held);
                let v = self.component_versions[i];
                self.component_versions.set(i, bump_version(v));
                proof {
                    let pre = *old(self);
                    assert forall|e: u64| #[trigger] self.owns(e)
                        implies self.slot_of(e) < self.components@.len()
                            && self.components@[self.slot_of(e) as int] is Some by {
                        if e != entity {
                            assert(pre.owns(e));
                            assert(pre.slot_of(e) != pre.slot_of(entity));
                        }
                    };
                    assert forall|e1: u64, e2: u64|
                        #![trigger self.slot_of(e1), self.slot_of(e2)]
                        e1 != e2 && self.owns(e1) && self.owns(e2)
                        implies self.slot_of(e1) != self.slot_of(e2) by {
                        assert(pre.slot_of(e1) != pre.slot_of(e2));
                    };
                    assert forall|j: int|
                        0 <= j < self.free_indices@.len()
                        implies #[trigger] self.free_indices@[j] < self.components@.len()
                            && self.components@[self.free_indices@[j] as int] is None by {
                        assert(pre.components@[pre.free_indices@[j] as int] is None);
                        assert(pre.free_indices@[j] as int != i as int);
                    };
                    assert forall|idx: int|
                        0 <= idx < self.components@.len() && self.components@[idx] is None
                        implies exists|j: int|
                            0 <= j < self.free_indices@.len()
                                && #[trigger] self.free_indices@[j] == idx by {
                        assert(idx != i as int);
                        assert(pre.components@[idx] is None);
                        let j0 = choose|j0: int|
                            0 <= j0 < pre.free_indices@.len() && pre.free_indices@[j0] == idx;
                        assert(self.free_indices@[j0] == idx);
                    };
                    assert(self.well_formed());
                    assert forall|e2: u64| e2 != entity && pre.owns(e2)
                        implies self.value_of(e2) == pre.value_of(e2)
                            && self.version_of(e2) == pre.version_of(e2) by {
                        assert(self.slot_of(e2) == pre.slot_of(e2));
                        assert(pre.slot_of(e2) != pre.slot_of(entity));
                    };
                    assert(Self::insert_effect(pre, *self, entity, component));
                }
                held
            },
            None => {
                let reused = self.free_indices.pop();
                match reused {
                    Some(i) => {
                        proof {
                            let pre = *old(self);
                            assert(pre.free_indices@[pre.free_indices@.len() - 1] == i);
                            assert(i < self.components@.len());
                        }
                        let mut held: Option<C> = Some(component);
                        self.components.set_and_swap(i, &mut held);
                        let v = self.component_versions[i];
                        self.component_versions.set(i, bump_version(v));
                        self.entity_indices.set(entity, i);
                        proof {
                            let pre = *old(self);
                            assert(self.owners() == pre.owners().push(entity));
                            assert forall|e: u64| #[trigger] self.owns(e)
                                implies self.slot_of(e) < self.components@.len()
                                    && self.components@[self.slot_of(e) as int] is Some by {
                                if e != entity {
                                    assert(pre.owns(e));
                                    assert(self.slot_of(e) == pre.slot_of(e));
                                    assert(pre.slot_of(e) as int != i as int);
                                }
                            };
                            assert forall|e1: u64, e2: u64|
                                #![trigger self.slot_of(e1), self.slot_of(e2)]
                                e1 != e2 && self.owns(e1) && self.owns(e2)
                                implies self.slot_of(e1) != self.slot_of(e2) by {
                                if e1 != entity && e2 != entity {
                                    assert(pre.slot_of(e1) != pre.slot_of(e2));
                                } else {
                                    let other = if e1 == entity { e2 } else { e1 };
                                    assert(pre.owns(other));
                                    assert(pre.components@[pre.slot_of(other) as int] is Some);
                                    assert(pre.components@[i as int] is None);
                                }
                            };
                            assert forall|j: int|
                                0 <= j < self.free_indices@.len()
                                implies #[trigger] self.free_indices@[j] < self.components@.len()
                                    && self.components@[self.free_indices@[j] as int] is None by {
                                assert(pre.free_indices@[j] == self.free_indices@[j]);
                                assert(pre.free_indices@[j] != pre.free_indices@[pre.free_indices@.len() - 1]);
                            };
                            assert forall|idx: int|
                                0 <= idx < self.components@.len() && self.components@[idx] is None
                                implies exists|j: int|
                                    0 <= j < self.free_indices@.len()
                                        && #[trigger] self.free_indices@[j] == idx by {
                                assert(pre.components@[idx] is None);
                                let j0 = choose|j0: int|
                                    0 <= j0 < pre.free_indices@.len()
                                        && pre.free_indices@[j0] == idx;
                                assert(j0 != pre.free_indices@.len() - 1);
                                assert(self.free_indices@[j0] == idx);
                            };
                            assert(self.well_formed());
                            assert forall|e2: u64| e2 != entity && pre.owns(e2)
                                implies self.value_of(e2) == pre.value_of(e2)
                                    && self.version_of(e2) == pre.version_of(e2) by {
                                assert(self.slot_of(e2) == pre.slot_of(e2));
                                assert(pre.slot_of(e2) as int != i as int);
                            };
                            assert(Self::insert_effect(pre, *self, entity, component));
                        }
                        None
                    },
                    None => {
                        let i = self.components.len();
                        self.components.push(Some(component));
                        self.component_versions.push(1);
                        self.entity_indices.set(entity, i);
                        proof {
                            let pre = *old(self);
                            assert(self.owners() == pre.owners().push(entity));
                            assert forall|e: u64| #[trigger] self.owns(e)
                                implies self.slot_of(e) < self.components@.len()
                                    && self.components@[self.slot_of(e) as int] is Some by {
                                if e != entity {
                                    assert(pre.owns(e));
                                    assert(self.slot_of(e) == pre.slot_of(e));
                                }
                            };
                            assert forall|e1: u64, e2: u64|
                                #![trigger self.slot_of(e1), self.slot_of(e2)]
                                e1 != e2 && self.owns(e1) && self.owns(e2)
                                implies self.slot_of(e1) != self.slot_of(e2) by {
                                if e1 != entity && e2 != entity {
                                    assert(pre.slot_of(e1) != pre.slot_of(e2));
                                } else {
                                    let other = if e1 == entity { e2 } else { e1 };
                                    assert(pre.owns(other));
                                    assert(pre.slot_of(other) < pre.components@.len());
                                }
                            };
                            assert(self.well_formed());
                            assert forall|e2: u64| e2 != entity && pre.owns(e2)
                                implies self.value_of(e2) == pre.value_of(e2)
                                    && self.version_of(e2) == pre.version_of(e2) by {
                                assert(self.slot_of(e2) == pre.slot_of(e2));
                                assert(pre.slot_of(e2) < pre.components@.len());
                            };
                            assert(Self::insert_effect(pre, *self, entity, component));
                        }
                        None
                    },
                }
            },
        }
    }

    /// The component owned by `entity`, if any.  Lookups never fail: an
    /// absent entity yields `None`.
    pub fn get(&self, entity: EntityId) -> (r: Option<&C>)
        requires
            self.well_formed(),
        ensures
            match r {
                Some(c) => self.owns(entity) && *c == self.value_of(entity),
                None => !self.owns(entity),
            },
    {
        match self.entity_indices.get(entity) {
            Some(i) => {
                let i = *i;
                proof {
                    assert(self.owns(entity));
                    assert(i == self.slot_of(entity));
                }
                self.components[i].as_ref()
            },
            None => None,
        }
    }

    /// Detaches and returns `entity`'s component; its slot is vacated and its
    /// index joins the free list so a later insert can reuse it.  Removing an
    /// absent component is a no-op that returns nothing.
    pub fn remove(&mut self, entity: EntityId) -> (r: Option<C>)
        requires
            old(self).well_formed(),
        ensures
            Self::remove_effect(*old(self), *final(self), entity),
            r == if old(self).owns(entity) {
                Some(old(self).value_of(entity))
            } else {
                None::<C>
            },
    {
        let slot = match self.entity_indices.get(entity) {
            Some(i) => Some(*i),
            None => None,
        };
        match slot {
            Some(i) => {
                proof {
                    assert(old(self).owns(entity));
                    assert(i == old(self).slot_of(entity));
                    assert(i < self.components@.len());
                }
                self.entity_indices.remove(entity);
                self.free_indices.push(i);
                let mut held: Option<C> = None;
                self.components.set_and_swap(i, &mut held);
                proof {
                    let pre = *old(self);
                    assert forall|e: u64| #[trigger] self.owns(e)
                        implies self.slot_of(e) < self.components@.len()
                            && self.components@[self.slot_of(e) as int] is Some by {
                        assert(pre.owns(e) && e != entity);
                        assert(self.slot_of(e) == pre.slot_of(e));
                        assert(pre.slot_of(e) != pre.slot_of(entity));
                    };
                    assert forall|e1: u64, e2: u64|
                        #![trigger self.slot_of(e1), self.slot_of(e2)]
                        e1 != e2 && self.owns(e1) && self.owns(e2)
                        implies self.slot_of(e1) != self.slot_of(e2) by {
                        assert(pre.slot_of(e1) != pre.slot_of(e2));
                    };
                    assert forall|j: int|
                        0 <= j < self.free_indices@.len()
                        implies #[trigger] self.free_indices@[j] < self.components@.len()
                            && self.components@[self.free_indices@[j] as int] is None by {
                        if j < pre.free_indices@.len() {
                            assert(pre.free_indices@[j] != i);
                        }
                    };
                    assert forall|j1: int, j2: int|
                        0 <= j1 < j2 < self.free_indices@.len()
                        implies self.free_indices@[j1] != self.free_indices@[j2] by {
                        if j2 == self.free_indices@.len() - 1 {
                            assert(self.free_indices@[j2] == i);
                            assert(pre.components@[pre.free_indices@[j1] as int] is None);
                            assert(pre.components@[i as int] is Some);
                        }
                    };
                    assert forall|idx: int|
                        0 <= idx < self.components@.len() && self.components@[idx] is None
                        implies exists|j: int|
                            0 <= j < self.free_indices@.len()
                                && #[trigger] self.free_indices@[j] == idx by {
                        if idx == i as int {
                            assert(self.free_indices@[self.free_indices@.len() - 1] == idx);
                        } else {
                            assert(pre.components@[idx] is None);
                            let j0 = choose|j0: int|
                                0 <= j0 < pre.free_indices@.len() && pre.free_indices@[j0] == idx;
                            assert(self.free_indices@[j0] == idx);
                        }
                    };
                    assert(self.well_formed());
                    assert forall|e2: u64| e2 != entity && pre.owns(e2)
                        implies self.value_of(e2) == pre.value_of(e2)
                            && self.version_of(e2) == pre.version_of(e2) by {
                        assert(self.slot_of(e2) == pre.slot_of(e2));
                        assert(pre.slot_of(e2) != pre.slot_of(entity));
                    };
                    assert(Self::remove_effect(pre, *self, entity));
                }
                held
            },
            None => {
                proof {
                    assert(*self == *old(self));
                }
                None
            },
        }
    }

    /// All entities currently owning this component kind, in the insertion
    /// order of the sparse table.
    pub fn entity_ids(&self) -> (r: Vec<EntityId>)
        requires
            self.well_formed(),
        ensures
            r@ == self.owners(),
    {
        let keys = self.entity_indices.keys_ref();
        let n = keys.len();
        let mut out: Vec<u64> = Vec::new();
        let mut i: usize = 0;
        while i < n
            invariant
                n == keys@.len(),
                i <= n,
                out@ == keys@.take(i as int),
            decreases n - i,
        {
            out.push(keys[i]);
            proof {
                assert(out@ == keys@.take(i + 1 as int));
            }
            i = i + 1;
        }
        proof {
            assert(keys@.take(n as int) == keys@);
        }
        out
    }

    /// How many entities currently own this kind.
    pub fn occupied(&self) -> (r: usize)
        ensures
            r == self.occupied_count(),
    {
        self.entity_indices.len()
    }

    /// The current length of the dense slot array.
    pub fn slot_count(&self) -> (r: usize)
        ensures
            r == self.high_water(),
    {
        self.components.len()
    }

    /// How many vacated slots await reuse.
    pub fn free_slots(&self) -> (r: usize)
        ensures
            r == self.free_count(),
    {
        self.free_indices.len()
    }

    /// Reclaims vacated slots from the tail of the dense array: while the last
    /// slot is vacant it is dropped, together with its free-list entry.  Live
    /// slots are never moved, so every owner keeps its slot and value.
    pub fn compact_storage(&mut self)
        requires
            old(self).well_formed(),
        ensures
            final(self).well_formed(),
            final(self).owners() == old(self).owners(),
            forall|e: u64| final(self).owns(e) == old(self).owns(e),
            forall|e: u64|
                old(self).owns(e)
                    ==> final(self).value_of(e) == old(self).value_of(e)
                        && final(self).version_of(e) == old(self).version_of(e)
                        && final(self).slot_of(e) == old(self).slot_of(e),
            final(self).high_water() <= old(self).high_water(),
            final(self).high_water() > 0
                ==> final(self).slot_seq()[final(self).high_water() - 1] is Some,
            final(self).free_count()
                == old(self).free_count() - (old(self).high_water() - final(self).high_water()),
            final(self).spec_last_optimization() == old(self).spec_last_optimization(),
            final(self).spec_compaction_interval() == old(self).spec_compaction_interval(),
    {
        loop
            invariant
                self.well_formed(),
                self.owners() == old(self).owners(),
                forall|e: u64| self.owns(e) == old(self).owns(e),
                forall|e: u64|
                    old(self).owns(e)
                        ==> self.value_of(e) == old(self).value_of(e)
                            && self.version_of(e) == old(self).version_of(e)
                            && self.slot_of(e) == old(self).slot_of(e),
                self.high_water() <= old(self).high_water(),
                self.free_count()
                    == old(self).free_count() - (old(self).high_water() - self.high_water()),
                self.spec_last_optimization() == old(self).spec_last_optimization(),
                self.spec_compaction_interval() == old(self).spec_compaction_interval(),
            ensures
                self.high_water() > 0 ==> self.slot_seq()[self.high_water() - 1] is Some,
            decreases self.components@.len(),
        {
            let n = self.components.len();
            if n == 0 {
                break;
            }
            if self.components[n - 1].is_some() {
                break;
            }
            let ghost pre = *self;
            let target = n - 1;
            let mut j: usize = 0;
            let mut found: usize = 0;
            let m = self.free_indices.len();
            proof {
                assert(self.components@[n - 1 as int] is None);
                assert(exists|j0: int|
                    0 <= j0 < self.free_indices@.len()
                        && #[trigger] self.free_indices@[j0] == n - 1 as int);
            }
            while j < m
                invariant
                    m == self.free_indices@.len(),
                    j <= m,
                    target == n - 1,
                    n - 1 < self.components@.len(),
                    forall|j0: int| 0 <= j0 < j ==> self.free_indices@[j0] != target,
                    exists|j0: int|
                        0 <= j0 < self.free_indices@.len()
                            && #[trigger] self.free_indices@[j0] == target,
                    found <= j,
                ensures
                    found < self.free_indices@.len(),
                    self.free_indices@[found as int] == target,
                decreases m - j,
            {
                if self.free_indices[j] == target {
                    found = j;
                    break;
                }
                j = j + 1;
                proof {
                    if j == m {
                        let j0 = choose|j0: int|
                            0 <= j0 < self.free_indices@.len()
                                && self.free_indices@[j0] == target;
                        assert(false);
                    }
                }
            }
            self.free_indices.remove(found);
            self.components.pop();
            self.component_versions.pop();
            proof {
                assert forall|e: u64| #[trigger] self.owns(e)
                    implies self.slot_of(e) < self.components@.len()
                        && self.components@[self.slot_of(e) as int] is Some by {
                    assert(pre.owns(e));
                    assert(pre.components@[pre.slot_of(e) as int] is Some);
                    assert(pre.components@[n - 1 as int] is None);
                    assert(pre.slot_of(e) as int != n - 1);
                };
                assert forall|e1: u64, e2: u64|
                    #![trigger self.slot_of(e1), self.slot_of(e2)]
                    e1 != e2 && self.owns(e1) && self.owns(e2)
                    implies self.slot_of(e1) != self.slot_of(e2) by {
                    assert(pre.slot_of(e1) != pre.slot_of(e2));
                };
                assert forall|jj: int|
                    0 <= jj < self.free_indices@.len()
                    implies #[trigger] self.free_indices@[jj] < self.components@.len()
                        && self.components@[self.free_indices@[jj] as int] is None by {
                    let jj0 = if jj < found { jj } else { jj + 1 };
                    assert(self.free_indices@[jj] == pre.free_indices@[jj0]);
                    assert(pre.free_indices@[jj0] != pre.free_indices@[found as int]);
                    assert(pre.free_indices@[jj0] < pre.components@.len());
                };
                assert forall|j1: int, j2: int|
                    0 <= j1 < j2 < self.free_indices@.len()
                    implies self.free_indices@[j1] != self.free_indices@[j2] by {
                    let a0 = if j1 < found { j1 } else { j1 + 1 };
                    let b0 = if j2 < found { j2 } else { j2 + 1 };
                    assert(self.free_indices@[j1] == pre.free_indices@[a0]);
                    assert(self.free_indices@[j2] == pre.free_indices@[b0]);
                };
                assert forall|idx: int|
                    0 <= idx < self.components@.len() && self.components@[idx] is None
                    implies exists|jj: int|
                        0 <= jj < self.free_indices@.len()
                            && #[trigger] self.free_indices@[jj] == idx by {
                    assert(pre.components@[idx] is None);
                    let j0 = choose|j0: int|
                        0 <= j0 < pre.free_indices@.len() && pre.free_indices@[j0] == idx;
                    assert(j0 != found);
                    let jnew = if j0 < found { j0 } else { j0 - 1 };
                    assert(self.free_indices@[jnew] == idx);
                };
                assert(self.well_formed());
                assert forall|e: u64| old(self).owns(e)
                    implies self.value_of(e) == old(self).value_of(e)
                        && self.version_of(e) == old(self).version_of(e)
                        && self.slot_of(e) == old(self).slot_of(e) by {
                    assert(pre.owns(e));
                    assert(pre.slot_of(e) as int != n - 1);
                };
            }
        }
    }

    /// Slot reuse law: a removal vacates a slot into the free list, and an
    /// insert takes a vacated slot whenever one exists, so insert, then
    /// remove, then insert on the same store never grows the dense array
    /// beyond the high-water mark it reached at the first insert.
    pub proof fn lemma_slot_reuse(
        s0: Self,
        s1: Self,
        s2: Self,
        s3: Self,
        e1: u64,
        c1: C,
        e2: u64,
        e3: u64,
        c3: C,
    )
        requires
            Self::insert_effect(s0, s1, e1, c1),
            Self::remove_effect(s1, s2, e2),
            s1.owns(e2),
            Self::insert_effect(s2, s3, e3, c3),
        ensures
            s2.high_water() == s1.high_water(),
            s3.high_water() == s1.high_water(),
            s3.occupied_count() <= s3.high_water(),
    {
        assert(s2.free_seq() == s1.free_seq().push(s1.slot_of(e2)));
        assert(s2.free_count() > 0);
        assert(s3.high_water() == s2.high_water());
        s3.lemma_occupancy_bound();
    }

    /// Detachment law: a removal leaves the entity without the kind, so a
    /// second removal of the same entity is a no-op that leaves the store
    /// exactly as the first removal left it.
    pub proof fn lemma_second_remove_noop(s0: Self, s1: Self, s2: Self, entity: u64)
        requires
            Self::remove_effect(s0, s1, entity),
            Self::remove_effect(s1, s2, entity),
        ensures
            s2 == s1,
    {
        assert(!s1.owns(entity));
    }

    /// In a well-formed store, every owner occupies a distinct slot, so the
    /// number of owners never exceeds the dense array's length.
    pub proof fn lemma_occupancy_bound(&self)
        requires
            self.well_formed(),
        ensures
            self.occupied_count() <= self.high_water(),
    {
        let owners = self.owners();
        let slots = Seq::new(owners.len(), |p: int| self.slot_of(owners[p]));
        assert forall|p: int| 0 <= p < slots.len()
            implies 0 <= #[trigger] slots[p] < self.high_water() by {
            self.entity_indices.lemma_index_of(owners[p]);
            assert(self.owns(owners[p]));
        };
        assert forall|p1: int, p2: int|
            0 <= p1 < p2 < slots.len()
            implies slots[p1] != slots[p2] by {
            self.entity_indices.lemma_index_of(owners[p1]);
            self.entity_indices.lemma_index_of(owners[p2]);
            assert(owners[p1] != owners[p2]);
            assert(self.owns(owners[p1]));
            assert(self.owns(owners[p2]));
        };
        lemma_distinct_bounded(slots, self.high_water() as int);
    }
    /// or be skipped by the throttle.
    pub open spec fn compaction_due(&self, now: u64) -> bool {
        self.spec_last_optimization() <= now
            && now - self.spec_last_optimization() >= self.spec_compaction_interval()
    }

    /// Opportunistic storage maintenance, throttled to run at most once per
    /// compaction interval regardless of how often callers ask: when due, it
    /// compacts trailing vacated slots and remembers `now`; otherwise it does
    /// nothing at all.
    pub fn optimize_layout(&mut self, now: u64)
        requires
            old(self).well_formed(),
        ensures
            final(self).well_formed(),
            final(self).owners() == old(self).owners(),
            forall|e: u64| final(self).owns(e) == old(self).owns(e),
            forall|e: u64|
                old(self).owns(e)
                    ==> final(self).value_of(e) == old(self).value_of(e)
                        && final(self).version_of(e) == old(self).version_of(e),
            final(self).high_water() <= old(self).high_water(),
            !old(self).compaction_due(now) ==> *final(self) == *old(self),
            old(self).compaction_due(now) ==> {
                &&& final(self).spec_last_optimization() == now
                &&& (final(self).high_water() > 0
                    ==> final(self).slot_seq()[final(self).high_water() - 1] is Some)
            },
            final(self).spec_compaction_interval() == old(self).spec_compaction_interval(),
    {
        if self.last_optimization <= now && now - self.last_optimization >= self.compaction_interval
        {
            self.compact_storage();
            let ghost compacted = *self;
            self.last_optimization = now;
            proof {
                Self::lemma_wf_same_structure(compacted, *self);
            }
        }
    }
}

} // verus!
