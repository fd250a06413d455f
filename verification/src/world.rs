//! The world: entity registry, component stores and query cache composed
//! into the single mutation and query surface used by simulation logic.
//!
//! Entity identifiers are allocated from a monotonic counter, recycled
//! through a FIFO queue, and paired with a per-identifier generation counter
//! that grows on every reuse.  One component store exists per registered
//! kind, created lazily on first use and only ever recycled afterwards.  A
//! bounded ring of recent lifecycle events is retained for inspection.

use vstd::prelude::*;
use vstd::pervasive::VecAdditionalExecFns;
use crate::keyed::{KeyedVec, copy_ids, contains_id, first_position};
use crate::store::ComponentStorage;
use crate::query::{QueryCache, QueryResult};
use crate::scheduler::AIContext;
use crate::{ComponentTypeId, EntityId};

verus! {

/// How many lifecycle events the world retains; the oldest entry is dropped
/// past this bound.
pub const EVENT_RING_CAP: usize = 1000;

/// When the recycle queue holds more identifiers than this, `optimize_performance`
/// trims it to half its size, oldest entries first.
pub const RECYCLE_POOL_LIMIT: usize = 1000;

/// For a sequence without duplicates, any position holding `x` determines
/// `index_of(x)`.
proof fn lemma_index_of_distinct(s: Seq<u64>, x: u64)
    requires
        s.contains(x),
        forall|a: int, b: int| 0 <= a < b < s.len() ==> s[a] != s[b],
    ensures
        0 <= s.index_of(x) < s.len(),
        s[s.index_of(x)] == x,
        forall|i: int| 0 <= i < s.len() && s[i] == x ==> i == s.index_of(x),
{
    assert(exists|i: int| 0 <= i < s.len() && s[i] == x);
}

/// What happened to an entity.
#[derive(Clone, Copy, Debug, PartialEq, Eq, Structural)]
pub enum LifecycleEventType {
    Created,
    ComponentAdded(ComponentTypeId),
    ComponentRemoved(ComponentTypeId),
    Destroyed,
}

/// One entry of the world's lifecycle ring.
#[derive(Clone, Copy, Debug, PartialEq, Eq, Structural)]
pub struct EntityLifecycleEvent {
    pub entity_id: EntityId,
    pub event_type: LifecycleEventType,
    pub timestamp: u64,
}

/// The maintenance steps an optimization pass may run.
#[derive(Clone, Copy, Debug, PartialEq, Eq, Structural)]
pub enum OptimizationType {
    CompactStorage,
    ReorderComponents,
    ClearQueryCache,
    ReduceEntityPool,
}

/// Coarse cost class of an optimization plan.
#[derive(Clone, Copy, Debug, PartialEq, Eq, Structural)]
pub enum ResourceCost {
    Low,
    Medium,
    High,
}

/// A fixed maintenance plan for one optimization pass.
pub struct OptimizationPlan {
    pub optimizations: Vec<OptimizationType>,
    pub estimated_performance_gain_pm: u32,
    pub resource_cost: ResourceCost,
}

/// Chooses the maintenance steps of an optimization pass.
pub struct ECSOptimizationEngine {
    passes_planned: u64,
}

impl ECSOptimizationEngine {
    /// How many optimization passes this engine has planned so far.
    pub closed spec fn spec_passes_planned(&self) -> u64 {
        self.passes_planned
    }

    pub fn new() -> (r: Self)
        ensures
            r.spec_passes_planned() == 0,
    {
        ECSOptimizationEngine { passes_planned: 0 }
    }

    /// The plan is small and fixed: compact storage, clear the query cache,
    /// and trim the entity recycle pool where it has grown past its limit.
    pub fn create_optimization_plan(&mut self) -> (r: OptimizationPlan)
        ensures
            r.optimizations@ == seq![
                OptimizationType::CompactStorage,
                OptimizationType::ClearQueryCache,
                OptimizationType::ReduceEntityPool,
            ],
            r.estimated_performance_gain_pm == 100,
            r.resource_cost == ResourceCost::Low,
    {
        if self.passes_planned < u64::MAX {
            self.passes_planned = self.passes_planned + 1;
        }
        let mut steps: Vec<OptimizationType> = Vec::new();
        steps.push(OptimizationType::CompactStorage);
        steps.push(OptimizationType::ClearQueryCache);
        steps.push(OptimizationType::ReduceEntityPool);
        proof {
            assert(steps@ =~= seq![
                OptimizationType::CompactStorage,
                OptimizationType::ClearQueryCache,
                OptimizationType::ReduceEntityPool,
            ]);
        }
        OptimizationPlan {
            optimizations: steps,
            estimated_performance_gain_pm: 100,
            resource_cost: ResourceCost::Low,
        }
    }
}

/// The world that owns all live entities, their components and the query
/// cache.  `C` is the component value type the embedding application chose
/// for its component data; kinds are distinguished by `ComponentTypeId`
/// tokens, one store per kind.
pub struct ECSWorld<C> {
    next_entity_id: u64,
    entity_generations: KeyedVec<u64>,
    free_entities: Vec<u64>,
    kinds: Vec<u64>,
    stores: Vec<ComponentStorage<C>>,
    entity_components: KeyedVec<Vec<u64>>,
    query_cache: QueryCache,
    lifecycle_events: Vec<EntityLifecycleEvent>,
    optimization_engine: ECSOptimizationEngine,
}

impl<C> ECSWorld<C> {
    /// Whether `entity` is currently live: produced by `create_entity` and
    /// not destroyed since.
    pub closed spec fn live(&self, entity: u64) -> bool {
        self.entity_components.contains_key(entity)
    }

    /// The component kinds `entity` currently owns, in the order they were
    /// first added; meaningful only when `live(entity)`.
    pub closed spec fn kind_list(&self, entity: u64) -> Seq<u64> {
        self.entity_components.val_of(entity)@
    }

    /// All kinds that ever had a store registered, in registration order.
    pub closed spec fn registered_kinds(&self) -> Seq<u64> {
        self.kinds@
    }

    pub open spec fn kind_registered(&self, kind: u64) -> bool {
        self.registered_kinds().contains(kind)
    }

    pub open spec fn kind_index(&self, kind: u64) -> int {
        self.registered_kinds().index_of(kind)
    }

    pub closed spec fn store_seq(&self) -> Seq<ComponentStorage<C>> {
        self.stores@
    }

    /// The store registered for `kind`; meaningful only when registered.
    pub open spec fn store_of(&self, kind: u64) -> ComponentStorage<C> {
        self.store_seq()[self.kind_index(kind)]
    }

    /// Whether `entity` owns a component of `kind`.
    pub open spec fn has(&self, entity: u64, kind: u64) -> bool {
        self.kind_registered(kind) && self.store_of(kind).owns(entity)
    }

    /// The component `entity` owns under `kind`; meaningful only when
    /// `has(entity, kind)`.
    pub open spec fn component_of(&self, entity: u64, kind: u64) -> C {
        self.store_of(kind).value_of(entity)
    }

    /// The entities owning `kind`, in store insertion order; empty for a
    /// kind that was never registered.
    pub open spec fn owners_of(&self, kind: u64) -> Seq<u64> {
        if self.kind_registered(kind) {
            self.store_of(kind).owners()
        } else {
            Seq::<u64>::empty()
        }
    }

    pub closed spec fn generation_known(&self, id: u64) -> bool {
        self.entity_generations.contains_key(id)
    }

    /// The generation most recently issued for raw identifier `id`;
    /// meaningful only when the identifier has been issued at least once.
    pub closed spec fn generation_of(&self, id: u64) -> u64 {
        self.entity_generations.val_of(id)
    }

    /// The FIFO queue of destroyed identifiers awaiting reuse, oldest first.
    pub closed spec fn free_queue(&self) -> Seq<u64> {
        self.free_entities@
    }

    pub closed spec fn next_id(&self) -> u64 {
        self.next_entity_id
    }

    /// The retained lifecycle events, oldest first.
    pub closed spec fn events(&self) -> Seq<EntityLifecycleEvent> {
        self.lifecycle_events@
    }

    pub closed spec fn cache(&self) -> QueryCache {
        self.query_cache
    }

    /// What the bounded event ring looks like after recording `ev`.
    pub open spec fn ring_pushed(
        pre: Seq<EntityLifecycleEvent>,
        ev: EntityLifecycleEvent,
    ) -> Seq<EntityLifecycleEvent> {
        if pre.len() < EVENT_RING_CAP {
            pre.push(ev)
        } else {
            pre.skip(1).push(ev)
        }
    }

    /// Structural invariant of the whole world.
    ///
    /// The registry side: every live or queued identifier has a generation
    /// entry, every issued identifier is nonzero and below the allocation
    /// counter, and the recycle queue holds no live entity and no duplicates.
    /// The storage side: kinds are registered at most once, each with a well
    /// formed store, and ownership recorded in the stores agrees exactly with
    /// the per-entity kind lists.  The cache side: every cached entry lists
    /// precisely the current owners of its kind.
    pub closed spec fn well_formed(&self) -> bool {
        &&& self.entity_generations.well_formed()
        &&& self.entity_components.well_formed()
        &&& self.query_cache.well_formed()
        &&& self.next_entity_id >= 1
        &&& forall|i: int, j: int|
            0 <= i < j < self.kinds@.len() ==> self.kinds@[i] != self.kinds@[j]
        &&& self.kinds@.len() == self.stores@.len()
        &&& forall|i: int|
            0 <= i < self.stores@.len() ==> (#[trigger] self.stores@[i]).well_formed()
        &&& forall|e: u64| #[trigger] self.live(e) ==> self.generation_known(e)
        &&& forall|j: int|
            0 <= j < self.free_entities@.len()
                ==> self.generation_known(#[trigger] self.free_entities@[j])
                    && !self.live(self.free_entities@[j])
        &&& forall|j1: int, j2: int|
            0 <= j1 < j2 < self.free_entities@.len()
                ==> self.free_entities@[j1] != self.free_entities@[j2]
        &&& forall|id: u64|
            #[trigger] self.generation_known(id) ==> 1 <= id && id < self.next_entity_id
        &&& forall|i: int, e: u64|
            0 <= i < self.stores@.len() && (#[trigger] self.stores@[i].owns(e))
                ==> self.live(e) && self.kind_list(e).contains(self.kinds@[i])
        &&& forall|e: u64, j: int|
            #![trigger self.kind_list(e)[j]]
            self.live(e) && 0 <= j < self.kind_list(e).len()
                ==> self.kind_registered(self.kind_list(e)[j])
                    && self.store_of(self.kind_list(e)[j]).owns(e)
        &&& forall|e: u64, j1: int, j2: int|
            #![trigger self.kind_list(e)[j1], self.kind_list(e)[j2]]
            self.live(e) && 0 <= j1 < j2 < self.kind_list(e).len()
                ==> self.kind_list(e)[j1] != self.kind_list(e)[j2]
        &&& forall|k: u64|
            #[trigger] self.query_cache.has_entry(k)
                ==> self.query_cache.entry_of(k).ids() == self.owners_of(k)
        &&& self.lifecycle_events@.len() <= EVENT_RING_CAP
    }

    /// For a registered kind, `kind_index` is its unique position among the
    /// registered kinds.
    pub proof fn lemma_kind_index(&self, kind: u64)
        requires
            self.well_formed(),
            self.kind_registered(kind),
        ensures
            0 <= self.kind_index(kind) < self.registered_kinds().len(),
            self.registered_kinds()[self.kind_index(kind)] == kind,
            forall|i: int|
                0 <= i < self.registered_kinds().len() && self.registered_kinds()[i] == kind
                    ==> i == self.kind_index(kind),
            self.registered_kinds().len() == self.store_seq().len(),
            self.store_of(kind).well_formed(),
    {
        let s = self.registered_kinds();
        assert(exists|i: int| 0 <= i < s.len() && s[i] == kind);
        assert(self.stores@[self.kind_index(kind)].well_formed());
    }

    /// Whether the allocation that `create_entity` is about to make stays
    /// within the counters' machine range.
    pub open spec fn can_create(&self) -> bool {
        if self.free_queue().len() > 0 {
            self.generation_of(self.free_queue()[0]) < u64::MAX
        } else {
            self.next_id() < u64::MAX
        }
    }

    /// A fresh world: no entities, no stores, an empty cache, identifier
    /// allocation starting at 1.
    pub fn new() -> (r: Self)
        ensures
            r.well_formed(),
            r.next_id() == 1,
            forall|e: u64| !r.live(e),
            forall|k: u64| !r.kind_registered(k),
            r.registered_kinds() == Seq::<u64>::empty(),
            r.free_queue() == Seq::<u64>::empty(),
            r.events() == Seq::<EntityLifecycleEvent>::empty(),
            r.cache().cached_kinds() == Seq::<u64>::empty(),
            forall|id: u64| !r.generation_known(id),
    {
        let r = ECSWorld {
            next_entity_id: 1,
            entity_generations: KeyedVec::new(),
            free_entities: Vec::new(),
            kinds: Vec::new(),
            stores: Vec::new(),
            entity_components: KeyedVec::new(),
            query_cache: QueryCache::new(),
            lifecycle_events: Vec::new(),
            optimization_engine: ECSOptimizationEngine::new(),
        };
        proof {
            assert forall|e: u64| !r.live(e) by {
                assert(!r.entity_components.key_seq().contains(e));
            };
            assert forall|id: u64| !r.generation_known(id) by {
                assert(!r.entity_generations.key_seq().contains(id));
            };
            assert(r.well_formed());
        }
        r
    }

    /// Records `ev`, dropping the oldest retained event when the ring is full.
    fn push_event(&mut self, ev: EntityLifecycleEvent)
        requires
            old(self).lifecycle_events@.len() <= EVENT_RING_CAP,
        ensures
            final(self).lifecycle_events@ == Self::ring_pushed(old(self).lifecycle_events@, ev),
            final(self).lifecycle_events@.len() <= EVENT_RING_CAP,
            final(self).next_entity_id == old(self).next_entity_id,
            final(self).entity_generations == old(self).entity_generations,
            final(self).free_entities == old(self).free_entities,
            final(self).kinds == old(self).kinds,
            final(self).stores == old(self).stores,
            final(self).entity_components == old(self).entity_components,
            final(self).query_cache == old(self).query_cache,
            final(self).optimization_engine == old(self).optimization_engine,
    {
        if self.lifecycle_events.len() >= EVENT_RING_CAP {
            self.lifecycle_events.remove(0);
        }
        self.lifecycle_events.push(ev);
    }

    /// Creates a new entity and returns its identifier, never 0.
    ///
    /// A recycled identifier is taken from the front of the FIFO queue when
    /// one is waiting — its generation grows by one, making the reuse
    /// detectable — and only otherwise is the monotonic counter advanced.
    /// The fresh entity starts with an empty component kind list, and a
    /// `Created` event is recorded at time `now`.
    pub fn create_entity(&mut self, now: u64) -> (r: EntityId)
        requires
            old(self).well_formed(),
            old(self).can_create(),
        ensures
            final(self).well_formed(),
            r != 0,
            !old(self).live(r),
            final(self).live(r),
            final(self).kind_list(r) == Seq::<u64>::empty(),
            forall|e: u64| e != r ==> final(self).live(e) == old(self).live(e),
            forall|e: u64|
                e != r && old(self).live(e)
                    ==> final(self).kind_list(e) == old(self).kind_list(e),
            forall|id: u64|
                id != r
                    ==> final(self).generation_known(id) == old(self).generation_known(id),
            forall|id: u64|
                id != r && old(self).generation_known(id)
                    ==> final(self).generation_of(id) == old(self).generation_of(id),
            final(self).registered_kinds() == old(self).registered_kinds(),
            final(self).store_seq() == old(self).store_seq(),
            final(self).cache() == old(self).cache(),
            old(self).free_queue().len() > 0 ==> {
                &&& r == old(self).free_queue()[0]
                &&& final(self).free_queue() == old(self).free_queue().skip(1)
                &&& old(self).generation_known(r)
                &&& final(self).generation_of(r) == old(self).generation_of(r) + 1
                &&& final(self).next_id() == old(self).next_id()
            },
            old(self).free_queue().len() == 0 ==> {
                &&& r == old(self).next_id()
                &&& final(self).free_queue() == old(self).free_queue()
                &&& !old(self).generation_known(r)
                &&& final(self).generation_of(r) == 0
                &&& final(self).next_id() == old(self).next_id() + 1
            },
            final(self).events() == Self::ring_pushed(
                old(self).events(),
                EntityLifecycleEvent {
                    entity_id: r,
                    event_type: LifecycleEventType::Created,
                    timestamp: now,
                },
            ),
    {
        let entity_id: u64;
        if self.free_entities.len() > 0 {
            let recycled = self.free_entities.remove(0);
            proof {
                assert(old(self).free_entities@[0] == recycled);
                assert(old(self).generation_known(recycled));
            }
            let g = match self.entity_generations.get(recycled) {
                Some(g) => *g,
                None => 0,
            };
            proof {
                assert(g == old(self).generation_of(recycled));
            }
            self.entity_generations.set(recycled, g + 1);
            entity_id = recycled;
        } else {
            let id = self.next_entity_id;
            self.next_entity_id = self.next_entity_id + 1;
            self.entity_generations.set(id, 0);
            entity_id = id;
        }
        proof {
            if old(self).free_queue().len() == 0 {
                assert(!old(self).generation_known(entity_id));
            }
            assert(!old(self).live(entity_id));
        }
        self.entity_components.set(entity_id, Vec::new());
        self.push_event(EntityLifecycleEvent {
            entity_id,
            event_type: LifecycleEventType::Created,
            timestamp: now,
        });
        proof {
            let pre = *old(self);
            assert forall|e: u64| #[trigger] self.live(e) implies self.generation_known(e) by {
                if e != entity_id {
                    assert(pre.live(e));
                }
            };
            assert forall|j: int|
                0 <= j < self.free_entities@.len()
                implies self.generation_known(#[trigger] self.free_entities@[j])
                    && !self.live(self.free_entities@[j]) by {
                if pre.free_queue().len() > 0 {
                    assert(self.free_entities@[j] == pre.free_entities@[j + 1]);
                    assert(pre.free_entities@[j + 1] != pre.free_entities@[0]);
                } else {
                    assert(self.free_entities@[j] == pre.free_entities@[j]);
                    assert(pre.generation_known(pre.free_entities@[j]));
                }
            };
            assert forall|j1: int, j2: int|
                0 <= j1 < j2 < self.free_entities@.len()
                implies self.free_entities@[j1] != self.free_entities@[j2] by {
                if pre.free_queue().len() > 0 {
                    assert(self.free_entities@[j1] == pre.free_entities@[j1 + 1]);
                    assert(self.free_entities@[j2] == pre.free_entities@[j2 + 1]);
                }
            };
            assert forall|id: u64| #[trigger] self.generation_known(id)
                implies 1 <= id && id < self.next_entity_id by {
                if id != entity_id {
                    assert(pre.generation_known(id));
                }
            };
            assert forall|i: int, e: u64|
                0 <= i < self.stores@.len() && (#[trigger] self.stores@[i].owns(e))
                implies self.live(e) && self.kind_list(e).contains(self.kinds@[i]) by {
                assert(pre.stores@[i].owns(e));
                assert(pre.live(e));
                assert(e != entity_id);
            };
            assert forall|e: u64, j: int|
                #![trigger self.kind_list(e)[j]]
                self.live(e) && 0 <= j < self.kind_list(e).len()
                implies self.kind_registered(self.kind_list(e)[j])
                    && self.store_of(self.kind_list(e)[j]).owns(e) by {
                if e != entity_id {
                    assert(pre.live(e));
                    assert(pre.kind_list(e)[j] == self.kind_list(e)[j]);
                }
            };
            assert forall|e: u64, j1: int, j2: int|
                #![trigger self.kind_list(e)[j1], self.kind_list(e)[j2]]
                self.live(e) && 0 <= j1 < j2 < self.kind_list(e).len()
                implies self.kind_list(e)[j1] != self.kind_list(e)[j2] by {
                if e != entity_id {
                    assert(pre.live(e));
                }
            };
            assert forall|k: u64| #[trigger] self.query_cache.has_entry(k)
                implies self.query_cache.entry_of(k).ids() == self.owners_of(k) by {
                assert(pre.query_cache.has_entry(k));
                assert(self.owners_of(k) == pre.owners_of(k));
            };
            assert(self.well_formed());
        }
        entity_id
    }

    /// Finds the store index for `kind`, registering a fresh empty store for
    /// it if none exists yet.  Nothing observable changes except, for a new
    /// kind, the set of registered kinds.
    fn ensure_kind(&mut self, kind: ComponentTypeId) -> (i: usize)
        requires
            old(self).well_formed(),
        ensures
            final(self).well_formed(),
            final(self).kind_registered(kind),
            i < final(self).store_seq().len(),
            i as int == final(self).kind_index(kind),
            final(self).entity_components == old(self).entity_components,
            final(self).entity_generations == old(self).entity_generations,
            final(self).free_entities == old(self).free_entities,
            final(self).next_entity_id == old(self).next_entity_id,
            final(self).query_cache == old(self).query_cache,
            final(self).lifecycle_events == old(self).lifecycle_events,
            old(self).kind_registered(kind) ==> {
                &&& final(self).kinds == old(self).kinds
                &&& final(self).stores == old(self).stores
            },
            !old(self).kind_registered(kind) ==> {
                &&& final(self).registered_kinds() == old(self).registered_kinds().push(kind)
                &&& final(self).store_seq().len() == old(self).store_seq().len() + 1
                &&& final(self).store_seq().subrange(0, old(self).store_seq().len() as int)
                    == old(self).store_seq()
                &&& final(self).store_of(kind).owners() == Seq::<u64>::empty()
                &&& final(self).store_of(kind).free_count() == 0
                &&& final(self).store_of(kind).high_water() == 0
            },
            forall|k2: u64|
                k2 != kind
                    ==> final(self).kind_registered(k2) == old(self).kind_registered(k2),
            forall|k2: u64|
                k2 != kind && old(self).kind_registered(k2)
                    ==> final(self).store_of(k2) == old(self).store_of(k2)
                        && final(self).kind_index(k2) == old(self).kind_index(k2),
            forall|k2: u64| final(self).owners_of(k2) == old(self).owners_of(k2),
            forall|e: u64, k2: u64| final(self).has(e, k2) == old(self).has(e, k2),
            forall|e: u64, k2: u64|
                old(self).has(e, k2)
                    ==> final(self).component_of(e, k2) == old(self).component_of(e, k2),
    {
        let found = first_position(&self.kinds, kind);
        match found {
            Some(i) => {
                proof {
                    assert(self.registered_kinds().contains(kind));
                    self.lemma_kind_index(kind);
                }
                i
            },
            None => {
                let i = self.kinds.len();
                self.kinds.push(kind);
                self.stores.push(ComponentStorage::new());
                proof {
                    let pre = *old(self);
                    assert(self.kinds@ == pre.kinds@.push(kind));
                    assert forall|a: int, b: int|
                        0 <= a < b < self.kinds@.len()
                        implies self.kinds@[a] != self.kinds@[b] by {
                        if b == self.kinds@.len() - 1 {
                            assert(self.kinds@[a] == pre.kinds@[a]);
                            assert(!pre.kinds@.contains(kind));
                        }
                    };
                    assert(self.registered_kinds()[i as int] == kind);
                    assert(self.kind_registered(kind));
                    self.lemma_kind_index_distinct(kind);
                    assert(self.kind_index(kind) == i as int);
                    assert forall|k2: u64| k2 != kind && pre.kind_registered(k2)
                        implies self.kind_registered(k2)
                            && self.store_of(k2) == pre.store_of(k2)
                            && self.kind_index(k2) == pre.kind_index(k2) by {
                        pre.lemma_kind_index(k2);
                        let j = pre.kind_index(k2);
                        assert(self.kinds@[j] == k2);
                        assert(self.kind_registered(k2));
                        self.lemma_kind_index_distinct(k2);
                        assert(self.kind_index(k2) == j);
                    };
                    assert forall|k2: u64| k2 != kind && self.kind_registered(k2)
                        implies pre.kind_registered(k2) by {
                        self.lemma_kind_index_distinct(k2);
                        let j = self.kind_index(k2);
                        assert(self.kinds@[j] == k2);
                        assert(j != i as int);
                        assert(pre.kinds@[j] == k2);
                    };
                    assert forall|idx: int|
                        0 <= idx < self.stores@.len()
                        implies (#[trigger] self.stores@[idx]).well_formed() by {
                        if idx < pre.stores@.len() {
                            assert(pre.stores@[idx].well_formed());
                        }
                    };
                    assert forall|idx: int, e: u64|
                        0 <= idx < self.stores@.len() && (#[trigger] self.stores@[idx].owns(e))
                        implies self.live(e) && self.kind_list(e).contains(self.kinds@[idx]) by {
                        if idx < pre.stores@.len() {
                            assert(pre.stores@[idx].owns(e));
                            assert(pre.kinds@[idx] == self.kinds@[idx]);
                        } else {
                            assert(self.stores@[idx].owners() == Seq::<u64>::empty());
                            assert(!self.stores@[idx].owns(e));
                        }
                    };
                    assert forall|e: u64, j: int|
                        #![trigger self.kind_list(e)[j]]
                        self.live(e) && 0 <= j < self.kind_list(e).len()
                        implies self.kind_registered(self.kind_list(e)[j])
                            && self.store_of(self.kind_list(e)[j]).owns(e) by {
                        assert(pre.live(e));
                        let k2 = pre.kind_list(e)[j];
                        assert(pre.kind_registered(k2));
                        assert(pre.store_of(k2).owns(e));
                        assert(pre.store_of(k2).owners().contains(e));
                        assert(k2 != kind) by {
                            if k2 == kind {
                                assert(pre.kind_registered(kind));
                            }
                        };
                    };
                    assert forall|k2: u64| #[trigger] self.query_cache.has_entry(k2)
                        implies self.query_cache.entry_of(k2).ids() == self.owners_of(k2) by {
                        assert(pre.query_cache.has_entry(k2));
                        if k2 == kind {
                            assert(pre.owners_of(k2) == Seq::<u64>::empty());
                            assert(self.owners_of(k2) == self.store_of(kind).owners());
                        } else {
                            if pre.kind_registered(k2) {
                                assert(self.owners_of(k2) == pre.owners_of(k2));
                            }
                        }
                    };
                    assert forall|e: u64| #[trigger] self.live(e)
                        implies self.generation_known(e) by {
                        assert(pre.live(e));
                        assert(pre.generation_known(e));
                    };
                    assert forall|j: int|
                        0 <= j < self.free_entities@.len()
                        implies self.generation_known(#[trigger] self.free_entities@[j])
                            && !self.live(self.free_entities@[j]) by {
                        assert(pre.generation_known(pre.free_entities@[j]));
                        assert(!pre.live(pre.free_entities@[j]));
                    };
                    assert forall|id: u64| #[trigger] self.generation_known(id)
                        implies 1 <= id && id < self.next_entity_id by {
                        assert(pre.generation_known(id));
                    };
                    assert forall|e: u64, j1: int, j2: int|
                        #![trigger self.kind_list(e)[j1], self.kind_list(e)[j2]]
                        self.live(e) && 0 <= j1 < j2 < self.kind_list(e).len()
                        implies self.kind_list(e)[j1] != self.kind_list(e)[j2] by {
                        assert(pre.live(e));
                        assert(pre.kind_list(e)[j1] != pre.kind_list(e)[j2]);
                    };
                    assert(self.well_formed());
                    assert forall|k2: u64| self.owners_of(k2) == pre.owners_of(k2) by {
                        if k2 == kind {
                            assert(self.owners_of(k2) == Seq::<u64>::empty());
                        } else {
                            if !pre.kind_registered(k2) {
                                assert(!self.kind_registered(k2));
                            }
                        }
                    };
                    assert forall|e: u64, k2: u64| self.has(e, k2) == pre.has(e, k2) by {
                        if k2 == kind {
                            assert(!self.store_of(kind).owns(e));
                            assert(!pre.has(e, k2));
                        } else {
                            if !pre.kind_registered(k2) {
                                assert(!self.kind_registered(k2));
                            }
                        }
                    };
                }
                i
            },
        }
    }

    /// For a sequence of distinct kinds, any position holding `kind`
    /// determines `kind_index(kind)`.
    proof fn lemma_kind_index_distinct(&self, kind: u64)
        requires
            forall|a: int, b: int|
                0 <= a < b < self.registered_kinds().len()
                    ==> self.registered_kinds()[a] != self.registered_kinds()[b],
            self.kind_registered(kind),
        ensures
            0 <= self.kind_index(kind) < self.registered_kinds().len(),
            self.registered_kinds()[self.kind_index(kind)] == kind,
            forall|i: int|
                0 <= i < self.registered_kinds().len() && self.registered_kinds()[i] == kind
                    ==> i == self.kind_index(kind),
    {
        let s = self.registered_kinds();
        assert(exists|i: int| 0 <= i < s.len() && s[i] == kind);
    }

    /// The registry-side invariant clauses carry over to any world with the
    /// same registry fields and the same live set.
    proof fn lemma_registry_frame(pre: Self, post: Self)
        requires
            pre.well_formed(),
            post.entity_generations == pre.entity_generations,
            post.free_entities == pre.free_entities,
            post.next_entity_id == pre.next_entity_id,
            forall|e: u64| post.live(e) == pre.live(e),
        ensures
            post.next_entity_id >= 1,
            forall|e: u64| #[trigger] post.live(e) ==> post.generation_known(e),
            forall|j: int|
                0 <= j < post.free_entities@.len()
                    ==> post.generation_known(#[trigger] post.free_entities@[j])
                        && !post.live(post.free_entities@[j]),
            forall|j1: int, j2: int|
                0 <= j1 < j2 < post.free_entities@.len()
                    ==> post.free_entities@[j1] != post.free_entities@[j2],
            forall|id: u64|
                #[trigger] post.generation_known(id) ==> 1 <= id && id < post.next_entity_id,
    {
        assert forall|e: u64| #[trigger] post.live(e) implies post.generation_known(e) by {
            assert(pre.live(e));
            assert(pre.generation_known(e));
        };
        assert forall|j: int|
            0 <= j < post.free_entities@.len()
            implies post.generation_known(#[trigger] post.free_entities@[j])
                && !post.live(post.free_entities@[j]) by {
            assert(pre.generation_known(pre.free_entities@[j]));
            assert(!pre.live(pre.free_entities@[j]));
        };
        assert forall|id: u64| #[trigger] post.generation_known(id)
            implies 1 <= id && id < post.next_entity_id by {
            assert(pre.generation_known(id));
        };
    }

    /// Attaches `component` to `entity` under `kind`, creating the kind's
    /// store on first use, recording the kind in the entity's kind list and
    /// invalidating cached queries for that kind.  An entity that already
    /// owns the kind has its value overwritten in place.  Adding to an
    /// entity that is not live degrades gracefully into a no-op.
    pub fn add_component(&mut self, entity: EntityId, kind: ComponentTypeId, component: C)
        requires
            old(self).well_formed(),
        ensures
            final(self).well_formed(),
            !old(self).live(entity) ==> *final(self) == *old(self),
            old(self).live(entity) ==> {
                &&& final(self).has(entity, kind)
                &&& final(self).component_of(entity, kind) == component
                &&& final(self).owners_of(kind) == if old(self).has(entity, kind) {
                    old(self).owners_of(kind)
                } else {
                    old(self).owners_of(kind).push(entity)
                }
                &&& final(self).kind_list(entity) == if old(self).kind_list(entity).contains(kind) {
                    old(self).kind_list(entity)
                } else {
                    old(self).kind_list(entity).push(kind)
                }
                &&& !final(self).cache().has_entry(kind)
            },
            forall|e2: u64, k2: u64|
                !(e2 == entity && k2 == kind)
                    ==> final(self).has(e2, k2) == old(self).has(e2, k2),
            forall|e2: u64, k2: u64|
                !(e2 == entity && k2 == kind) && old(self).has(e2, k2)
                    ==> final(self).component_of(e2, k2) == old(self).component_of(e2, k2),
            forall|k2: u64| k2 != kind ==> final(self).owners_of(k2) == old(self).owners_of(k2),
            forall|e2: u64| final(self).live(e2) == old(self).live(e2),
            forall|e2: u64|
                e2 != entity && old(self).live(e2)
                    ==> final(self).kind_list(e2) == old(self).kind_list(e2),
            forall|k2: u64|
                k2 != kind
                    ==> final(self).cache().has_entry(k2) == old(self).cache().has_entry(k2)
                        && (old(self).cache().has_entry(k2)
                            ==> final(self).cache().entry_of(k2) == old(self).cache().entry_of(k2)),
            forall|id: u64|
                final(self).generation_known(id) == old(self).generation_known(id)
                    && (old(self).generation_known(id)
                        ==> final(self).generation_of(id) == old(self).generation_of(id)),
            final(self).free_queue() == old(self).free_queue(),
            final(self).next_id() == old(self).next_id(),
            final(self).events() == old(self).events(),
    {
        let is_live = self.is_live(entity);
        if !is_live {
            return;
        }
        let idx = self.ensure_kind(kind);
        let ghost reg = *self;
        proof {
            reg.lemma_kind_index(kind);
        }

        let mut newlist: Vec<u64>;
        match self.entity_components.get(entity) {
            Some(l) => {
                newlist = copy_ids(l);
            },
            None => {
                proof {
                    assert(false);
                }
                newlist = Vec::new();
            },
        }
        let ghost oldlist = newlist@;
        if !contains_id(&newlist, kind) {
            newlist.push(kind);
        }
        self.entity_components.set(entity, newlist);

        let mut st: ComponentStorage<C> = ComponentStorage::new();
        self.stores.set_and_swap(idx, &mut st);
        proof {
            assert(st == reg.stores@[idx as int]);
            assert(reg.stores@[idx as int].well_formed());
        }
        let _prev = st.insert(entity, component);
        self.stores.set_and_swap(idx, &mut st);

        self.query_cache.invalidate_queries_with_type(kind);

        proof {
            let pre = *old(self);
            let stp = reg.stores@[idx as int];
            let stn = self.stores@[idx as int];
            assert(ComponentStorage::insert_effect(stp, stn, entity, component));
            assert(self.kinds == reg.kinds);
            assert(self.stores@ == reg.stores@.update(idx as int, stn));
            assert(oldlist == reg.kind_list(entity));
            assert(self.kind_list(entity) == if oldlist.contains(kind) {
                oldlist
            } else {
                oldlist.push(kind)
            });
            assert(self.kind_list(entity).contains(kind)) by {
                if oldlist.contains(kind) {
                } else {
                    assert(self.kind_list(entity)[self.kind_list(entity).len() - 1] == kind);
                }
            };
            assert forall|k2: u64| k2 != kind && self.kind_registered(k2)
                implies self.store_of(k2) == reg.store_of(k2)
                    && self.kind_index(k2) == reg.kind_index(k2) by {
                reg.lemma_kind_index(k2);
                assert(reg.kind_index(k2) != idx as int);
            };
            assert(self.store_of(kind) == stn);
            assert(self.kind_index(kind) == idx as int);

            // the world invariant, clause by clause
            Self::lemma_registry_frame(reg, *self);
            assert forall|i: int|
                0 <= i < self.stores@.len()
                implies (#[trigger] self.stores@[i]).well_formed() by {
                if i != idx as int {
                    assert(reg.stores@[i].well_formed());
                }
            };
            assert forall|i: int, e: u64|
                0 <= i < self.stores@.len() && (#[trigger] self.stores@[i].owns(e))
                implies self.live(e) && self.kind_list(e).contains(self.kinds@[i]) by {
                if i == idx as int {
                    if e == entity {
                        assert(self.live(entity));
                    } else {
                        assert(stp.owns(e));
                        assert(reg.stores@[i].owns(e));
                        assert(reg.live(e));
                        assert(reg.kind_list(e).contains(reg.kinds@[i]));
                        if e != entity {
                            assert(self.kind_list(e) == reg.kind_list(e));
                        }
                    }
                } else {
                    assert(reg.stores@[i].owns(e));
                    assert(reg.live(e));
                    assert(reg.kind_list(e).contains(reg.kinds@[i]));
                    if e == entity {
                        assert(reg.kind_list(entity) == oldlist);
                        let kk = reg.kinds@[i];
                        let w = choose|w: int| 0 <= w < oldlist.len() && oldlist[w] == kk;
                        assert(self.kind_list(entity)[w] == kk);
                    }
                }
            };
            assert forall|e: u64, j: int|
                #![trigger self.kind_list(e)[j]]
                self.live(e) && 0 <= j < self.kind_list(e).len()
                implies self.kind_registered(self.kind_list(e)[j])
                    && self.store_of(self.kind_list(e)[j]).owns(e) by {
                assert(reg.live(e));
                if e != entity {
                    assert(self.kind_list(e) == reg.kind_list(e));
                    let k2 = self.kind_list(e)[j];
                    assert(reg.kind_registered(k2));
                    assert(reg.store_of(k2).owns(e));
                    if k2 == kind {
                        assert(self.store_of(kind) == stn);
                        assert(stn.owns(e));
                    } else {
                        assert(self.store_of(k2) == reg.store_of(k2));
                    }
                } else {
                    let k2 = self.kind_list(entity)[j];
                    if j < oldlist.len() {
                        assert(oldlist[j] == k2);
                        assert(reg.kind_list(entity).contains(k2));
                        assert(reg.kind_registered(k2));
                        assert(reg.store_of(k2).owns(entity));
                        if k2 == kind {
                            assert(stn.owns(entity));
                        } else {
                            assert(self.store_of(k2) == reg.store_of(k2));
                        }
                    } else {
                        assert(k2 == kind);
                        assert(stn.owns(entity));
                    }
                }
            };
            assert forall|e: u64, j1: int, j2: int|
                #![trigger self.kind_list(e)[j1], self.kind_list(e)[j2]]
                self.live(e) && 0 <= j1 < j2 < self.kind_list(e).len()
                implies self.kind_list(e)[j1] != self.kind_list(e)[j2] by {
                assert(reg.live(e));
                if e != entity {
                    assert(self.kind_list(e) == reg.kind_list(e));
                    assert(reg.kind_list(e)[j1] != reg.kind_list(e)[j2]);
                } else {
                    if j2 < oldlist.len() {
                        assert(reg.kind_list(entity)[j1] != reg.kind_list(entity)[j2]);
                    } else {
                        assert(self.kind_list(entity)[j2] == kind);
                        assert(!oldlist.contains(kind));
                        assert(oldlist[j1] == self.kind_list(entity)[j1]);
                    }
                }
            };
            assert forall|k2: u64| #[trigger] self.query_cache.has_entry(k2)
                implies self.query_cache.entry_of(k2).ids() == self.owners_of(k2) by {
                assert(k2 != kind);
                assert(reg.query_cache.has_entry(k2));
                assert(self.query_cache.entry_of(k2) == reg.query_cache.entry_of(k2));
                if reg.kind_registered(k2) {
                    assert(self.owners_of(k2) == reg.owners_of(k2));
                } else {
                    assert(!self.kind_registered(k2));
                }
            };
            assert(self.well_formed());

            // the contract, relative to the entry state
            assert(self.has(entity, kind));
            assert(self.component_of(entity, kind) == component);
            assert(pre.owners_of(kind) == reg.owners_of(kind));
            assert(self.owners_of(kind) == stn.owners());
            assert(reg.has(entity, kind) == pre.has(entity, kind));
            if pre.has(entity, kind) {
                assert(stp.owns(entity));
                assert(stn.owners() == stp.owners());
                assert(reg.owners_of(kind) == stp.owners());
            } else {
                assert(!stp.owns(entity));
                assert(stn.owners() == stp.owners().push(entity));
                if reg.kind_registered(kind) && pre.kind_registered(kind) {
                    assert(reg.owners_of(kind) == stp.owners());
                } else {
                    assert(stp.owners() == Seq::<u64>::empty());
                    assert(pre.owners_of(kind) == Seq::<u64>::empty());
                    assert(pre.owners_of(kind) =~= stp.owners());
                }
            }
            assert(pre.kind_list(entity) == oldlist);
            assert forall|e2: u64, k2: u64|
                !(e2 == entity && k2 == kind)
                implies self.has(e2, k2) == pre.has(e2, k2)
                    && (pre.has(e2, k2)
                        ==> self.component_of(e2, k2) == pre.component_of(e2, k2)) by {
                assert(reg.has(e2, k2) == pre.has(e2, k2));
                if k2 == kind {
                    assert(self.store_of(kind) == stn);
                    assert(stn.owns(e2) == stp.owns(e2));
                    if pre.has(e2, k2) {
                        assert(stp.owns(e2));
                        assert(stn.value_of(e2) == stp.value_of(e2));
                        assert(reg.component_of(e2, k2) == pre.component_of(e2, k2));
                    }
                } else {
                    if self.kind_registered(k2) {
                        assert(self.store_of(k2) == reg.store_of(k2));
                    }
                    if pre.has(e2, k2) {
                        assert(reg.component_of(e2, k2) == pre.component_of(e2, k2));
                    }
                }
            };
            assert forall|k2: u64| k2 != kind
                implies self.owners_of(k2) == pre.owners_of(k2) by {
                if self.kind_registered(k2) {
                    assert(self.store_of(k2) == reg.store_of(k2));
                    assert(reg.owners_of(k2) == pre.owners_of(k2));
                } else {
                    assert(!reg.kind_registered(k2));
                }
            };
        }
    }

    /// The position of `kind`'s store, if the kind is registered.
    fn kind_position(&self, kind: ComponentTypeId) -> (r: Option<usize>)
        requires
            self.well_formed(),
        ensures
            match r {
                Some(i) => {
                    &&& self.kind_registered(kind)
                    &&& i as int == self.kind_index(kind)
                    &&& i < self.store_seq().len()
                },
                None => !self.kind_registered(kind),
            },
    {
        match first_position(&self.kinds, kind) {
            Some(i) => {
                proof {
                    assert(self.registered_kinds().contains(kind));
                    self.lemma_kind_index(kind);
                }
                Some(i)
            },
            None => None,
        }
    }

    /// Detaches and returns `entity`'s component of `kind`, clears the kind
    /// from the entity's kind list and invalidates cached queries for that
    /// kind.  Removing what is not there — an unknown entity, an
    /// unregistered kind, or a kind the entity does not own — is a no-op
    /// that returns nothing, so a second remove after a first always yields
    /// `None`.
    pub fn remove_component(&mut self, entity: EntityId, kind: ComponentTypeId) -> (r: Option<C>)
        requires
            old(self).well_formed(),
        ensures
            final(self).well_formed(),
            r == if old(self).has(entity, kind) {
                Some(old(self).component_of(entity, kind))
            } else {
                None::<C>
            },
            !final(self).has(entity, kind),
            final(self).owners_of(kind) == if old(self).has(entity, kind) {
                old(self).owners_of(kind).remove(old(self).owners_of(kind).index_of(entity))
            } else {
                old(self).owners_of(kind)
            },
            forall|k2: u64| k2 != kind ==> final(self).owners_of(k2) == old(self).owners_of(k2),
            forall|e2: u64, k2: u64|
                !(e2 == entity && k2 == kind)
                    ==> final(self).has(e2, k2) == old(self).has(e2, k2),
            forall|e2: u64, k2: u64|
                !(e2 == entity && k2 == kind) && old(self).has(e2, k2)
                    ==> final(self).component_of(e2, k2) == old(self).component_of(e2, k2),
            forall|e2: u64| final(self).live(e2) == old(self).live(e2),
            forall|e2: u64|
                e2 != entity && old(self).live(e2)
                    ==> final(self).kind_list(e2) == old(self).kind_list(e2),
            old(self).has(entity, kind) ==> {
                &&& final(self).kind_list(entity) == old(self).kind_list(entity).remove(
                    old(self).kind_list(entity).index_of(kind),
                )
                &&& !final(self).cache().has_entry(kind)
                &&& forall|k2: u64|
                    k2 != kind
                        ==> final(self).cache().has_entry(k2) == old(self).cache().has_entry(k2)
                            && (old(self).cache().has_entry(k2)
                                ==> final(self).cache().entry_of(k2)
                                    == old(self).cache().entry_of(k2))
            },
            !old(self).has(entity, kind) ==> {
                &&& (old(self).live(entity)
                    ==> final(self).kind_list(entity) == old(self).kind_list(entity))
                &&& final(self).cache() == old(self).cache()
            },
            forall|id: u64|
                final(self).generation_known(id) == old(self).generation_known(id)
                    && (old(self).generation_known(id)
                        ==> final(self).generation_of(id) == old(self).generation_of(id)),
            final(self).registered_kinds() == old(self).registered_kinds(),
            final(self).free_queue() == old(self).free_queue(),
            final(self).next_id() == old(self).next_id(),
            final(self).events() == old(self).events(),
    {
        let idx = match self.kind_position(kind) {
            Some(i) => i,
            None => {
                return None;
            },
        };
        let ghost pre = *old(self);
        proof {
            pre.lemma_kind_index(kind);
        }
        let mut st: ComponentStorage<C> = ComponentStorage::new();
        self.stores.set_and_swap(idx, &mut st);
        proof {
            assert(st == pre.stores@[idx as int]);
            assert(pre.stores@[idx as int].well_formed());
        }
        let removed = st.remove(entity);
        self.stores.set_and_swap(idx, &mut st);
        let ghost stp = pre.stores@[idx as int];
        let ghost stn = self.stores@[idx as int];
        proof {
            assert(ComponentStorage::remove_effect(stp, stn, entity));
            assert forall|k2: u64| k2 != kind && self.kind_registered(k2)
                implies self.store_of(k2) == pre.store_of(k2) by {
                pre.lemma_kind_index(k2);
                assert(pre.kind_index(k2) != idx as int);
            };
            assert(self.store_of(kind) == stn);
        }
        match removed {
            Some(c) => {
                proof {
                    assert(stp.owns(entity));
                    assert(pre.has(entity, kind));
                    assert(pre.live(entity));
                    assert(pre.kind_list(entity).contains(kind));
                }
                let mut newlist: Vec<u64>;
                match self.entity_components.get(entity) {
                    Some(l) => {
                        newlist = copy_ids(l);
                    },
                    None => {
                        proof {
                            assert(false);
                        }
                        newlist = Vec::new();
                    },
                }
                let ghost oldlist = newlist@;
                let p = match first_position(&newlist, kind) {
                    Some(p) => p,
                    None => {
                        proof {
                            assert(false);
                        }
                        0
                    },
                };
                proof {
                    lemma_index_of_distinct(oldlist, kind);
                    assert forall|a: int, b: int|
                        0 <= a < b < oldlist.len()
                        implies oldlist[a] != oldlist[b] by {
                        assert(pre.kind_list(entity)[a] != pre.kind_list(entity)[b]);
                    };
                    assert(p as int == oldlist.index_of(kind));
                }
                newlist.remove(p);
                self.entity_components.set(entity, newlist);
                self.query_cache.invalidate_queries_with_type(kind);
                proof {
                    let newl = self.kind_list(entity);
                    assert(newl == oldlist.remove(p as int));
                    assert(!newl.contains(kind)) by {
                        if newl.contains(kind) {
                            let w = choose|w: int| 0 <= w < newl.len() && newl[w] == kind;
                            let w0 = if w < p as int { w } else { w + 1 };
                            assert(oldlist[w0] == kind);
                            assert(w0 == p as int);
                            assert(false);
                        }
                    };
                    Self::lemma_registry_frame(pre, *self);
                    assert forall|i: int|
                        0 <= i < self.stores@.len()
                        implies (#[trigger] self.stores@[i]).well_formed() by {
                        if i != idx as int {
                            assert(pre.stores@[i].well_formed());
                        }
                    };
                    assert forall|i: int, e: u64|
                        0 <= i < self.stores@.len() && (#[trigger] self.stores@[i].owns(e))
                        implies self.live(e) && self.kind_list(e).contains(self.kinds@[i]) by {
                        if i == idx as int {
                            assert(stn.owns(e));
                            assert(e != entity);
                            assert(stp.owns(e));
                            assert(pre.stores@[i].owns(e));
                            assert(pre.live(e));
                            assert(self.kind_list(e) == pre.kind_list(e));
                        } else {
                            assert(pre.stores@[i].owns(e));
                            assert(pre.live(e));
                            assert(pre.kind_list(e).contains(pre.kinds@[i]));
                            if e == entity {
                                let kk = pre.kinds@[i];
                                assert(kk != kind) by {
                                    if kk == kind {
                                        assert(pre.kinds@[i] == kind);
                                        assert(i == idx as int);
                                    }
                                };
                                let w = choose|w: int|
                                    0 <= w < oldlist.len() && oldlist[w] == kk;
                                assert(w != p as int);
                                let wn = if w < p as int { w } else { w - 1 };
                                assert(self.kind_list(entity)[wn] == kk);
                            }
                        }
                    };
                    assert forall|e: u64, j: int|
                        #![trigger self.kind_list(e)[j]]
                        self.live(e) && 0 <= j < self.kind_list(e).len()
                        implies self.kind_registered(self.kind_list(e)[j])
                            && self.store_of(self.kind_list(e)[j]).owns(e) by {
                        assert(pre.live(e));
                        if e != entity {
                            assert(self.kind_list(e) == pre.kind_list(e));
                            let k2 = self.kind_list(e)[j];
                            assert(pre.kind_registered(k2));
                            assert(pre.store_of(k2).owns(e));
                            if k2 == kind {
                                assert(stn.owns(e) == stp.owns(e));
                            } else {
                                assert(self.store_of(k2) == pre.store_of(k2));
                            }
                        } else {
                            let k2 = self.kind_list(entity)[j];
                            let j0 = if j < p as int { j } else { j + 1 };
                            assert(oldlist[j0] == k2);
                            assert(pre.kind_list(entity)[j0] == k2);
                            assert(pre.kind_registered(k2));
                            assert(pre.store_of(k2).owns(entity));
                            assert(k2 != kind) by {
                                if k2 == kind {
                                    assert(!self.kind_list(entity).contains(kind));
                                    assert(self.kind_list(entity)[j] == kind);
                                }
                            };
                            assert(self.store_of(k2) == pre.store_of(k2));
                        }
                    };
                    assert forall|e: u64, j1: int, j2: int|
                        #![trigger self.kind_list(e)[j1], self.kind_list(e)[j2]]
                        self.live(e) && 0 <= j1 < j2 < self.kind_list(e).len()
                        implies self.kind_list(e)[j1] != self.kind_list(e)[j2] by {
                        assert(pre.live(e));
                        if e != entity {
                            assert(self.kind_list(e) == pre.kind_list(e));
                            assert(pre.kind_list(e)[j1] != pre.kind_list(e)[j2]);
                        } else {
                            let a0 = if j1 < p as int { j1 } else { j1 + 1 };
                            let b0 = if j2 < p as int { j2 } else { j2 + 1 };
                            assert(self.kind_list(entity)[j1] == oldlist[a0]);
                            assert(self.kind_list(entity)[j2] == oldlist[b0]);
                            assert(pre.kind_list(entity)[a0] != pre.kind_list(entity)[b0]);
                        }
                    };
                    assert forall|k2: u64| #[trigger] self.query_cache.has_entry(k2)
                        implies self.query_cache.entry_of(k2).ids() == self.owners_of(k2) by {
                        assert(k2 != kind);
                        assert(pre.query_cache.has_entry(k2));
                        assert(self.query_cache.entry_of(k2) == pre.query_cache.entry_of(k2));
                        if pre.kind_registered(k2) {
                            assert(self.store_of(k2) == pre.store_of(k2));
                        } else {
                            assert(!self.kind_registered(k2));
                        }
                    };
                    assert(self.well_formed());
                    assert(!self.has(entity, kind));
                    assert(self.owners_of(kind)
                        == pre.owners_of(kind).remove(pre.owners_of(kind).index_of(entity)));
                    assert forall|e2: u64, k2: u64|
                        !(e2 == entity && k2 == kind)
                        implies self.has(e2, k2) == pre.has(e2, k2)
                            && (pre.has(e2, k2)
                                ==> self.component_of(e2, k2) == pre.component_of(e2, k2)) by {
                        if k2 == kind {
                            assert(stn.owns(e2) == stp.owns(e2));
                            if pre.has(e2, k2) {
                                assert(stn.value_of(e2) == stp.value_of(e2));
                            }
                        } else {
                            if self.kind_registered(k2) {
                                assert(self.store_of(k2) == pre.store_of(k2));
                            }
                        }
                    };
                    assert forall|k2: u64| k2 != kind
                        implies self.owners_of(k2) == pre.owners_of(k2) by {
                        if self.kind_registered(k2) {
                            assert(self.store_of(k2) == pre.store_of(k2));
                        }
                    };
                }
                Some(c)
            },
            None => {
                proof {
                    assert(stn == stp);
                    assert(self.stores@ =~= pre.stores@);
                    Self::lemma_registry_frame(pre, *self);
                    assert forall|e: u64, j: int|
                        #![trigger self.kind_list(e)[j]]
                        self.live(e) && 0 <= j < self.kind_list(e).len()
                        implies self.kind_registered(self.kind_list(e)[j])
                            && self.store_of(self.kind_list(e)[j]).owns(e) by {
                        assert(pre.live(e));
                        assert(self.kind_list(e) == pre.kind_list(e));
                        let k2 = self.kind_list(e)[j];
                        assert(pre.kind_registered(k2));
                        assert(pre.store_of(k2).owns(e));
                    };
                    assert forall|e: u64, j1: int, j2: int|
                        #![trigger self.kind_list(e)[j1], self.kind_list(e)[j2]]
                        self.live(e) && 0 <= j1 < j2 < self.kind_list(e).len()
                        implies self.kind_list(e)[j1] != self.kind_list(e)[j2] by {
                        assert(pre.live(e));
                        assert(pre.kind_list(e)[j1] != pre.kind_list(e)[j2]);
                    };
                    assert forall|i: int, e: u64|
                        0 <= i < self.stores@.len() && (#[trigger] self.stores@[i].owns(e))
                        implies self.live(e) && self.kind_list(e).contains(self.kinds@[i]) by {
                        assert(pre.stores@[i].owns(e));
                        assert(pre.live(e));
                    };
                    assert forall|k2: u64| #[trigger] self.query_cache.has_entry(k2)
                        implies self.query_cache.entry_of(k2).ids() == self.owners_of(k2) by {
                        assert(pre.query_cache.has_entry(k2));
                    };
                    assert(self.well_formed());
                }
                None
            },
        }
    }

    /// The component `entity` owns under `kind`, if any.  Lookups never
    /// fail: an unknown entity or kind yields `None`.
    pub fn get_component(&self, entity: EntityId, kind: ComponentTypeId) -> (r: Option<&C>)
        requires
            self.well_formed(),
        ensures
            match r {
                Some(c) => self.has(entity, kind) && *c == self.component_of(entity, kind),
                None => !self.has(entity, kind),
            },
    {
        match self.kind_position(kind) {
            Some(i) => {
                proof {
                    assert(self.stores@[i as int].well_formed());
                    assert(self.store_of(kind) == self.stores@[i as int]);
                }
                self.stores[i].get(entity)
            },
            None => None,
        }
    }

    /// Whether `entity` currently owns a component of `kind`, answered from
    /// the entity's kind list.
    pub fn has_component(&self, entity: EntityId, kind: ComponentTypeId) -> (r: bool)
        requires
            self.well_formed(),
        ensures
            r == self.has(entity, kind),
    {
        match self.entity_components.get(entity) {
            Some(list) => {
                let found = contains_id(list, kind);
                proof {
                    assert(self.live(entity));
                    assert(list@ == self.kind_list(entity));
                    if found {
                        let j = choose|j: int| 0 <= j < list@.len() && list@[j] == kind;
                        assert(self.kind_list(entity)[j] == kind);
                        assert(self.has(entity, kind));
                    } else {
                        if self.has(entity, kind) {
                            assert(self.store_of(kind).owns(entity));
                            self.lemma_kind_index(kind);
                            let i = self.kind_index(kind);
                            assert(self.stores@[i].owns(entity));
                            assert(self.kind_list(entity).contains(self.kinds@[i]));
                        }
                    }
                }
                found
            },
            None => {
                proof {
                    if self.has(entity, kind) {
                        self.lemma_kind_index(kind);
                        let i = self.kind_index(kind);
                        assert(self.stores@[i].owns(entity));
                        assert(self.live(entity));
                    }
                }
                false
            },
        }
    }

    /// All entities that currently own `kind`, in store insertion order.
    pub fn entities_with_component(&self, kind: ComponentTypeId) -> (r: Vec<EntityId>)
        requires
            self.well_formed(),
        ensures
            r@ == self.owners_of(kind),
    {
        match self.kind_position(kind) {
            Some(i) => {
                proof {
                    assert(self.stores@[i as int].well_formed());
                    assert(self.store_of(kind) == self.stores@[i as int]);
                }
                self.stores[i].entity_ids()
            },
            None => Vec::new(),
        }
    }

    /// Destroys `entity`: every component it owns is removed from the
    /// corresponding store, its identifier joins the back of the recycle
    /// queue, a `Destroyed` event is recorded at time `now`, and — since a
    /// destruction can affect any number of kinds at once — the whole query
    /// cache is invalidated.  Destroying an unknown entity is a no-op.
    pub fn remove_entity(&mut self, entity: EntityId, now: u64)
        requires
            old(self).well_formed(),
        ensures
            final(self).well_formed(),
            !final(self).live(entity),
            forall|k2: u64| !final(self).has(entity, k2),
            forall|e2: u64| e2 != entity ==> final(self).live(e2) == old(self).live(e2),
            forall|e2: u64|
                e2 != entity && old(self).live(e2)
                    ==> final(self).kind_list(e2) == old(self).kind_list(e2),
            forall|e2: u64, k2: u64|
                e2 != entity ==> final(self).has(e2, k2) == old(self).has(e2, k2),
            forall|e2: u64, k2: u64|
                e2 != entity && old(self).has(e2, k2)
                    ==> final(self).component_of(e2, k2) == old(self).component_of(e2, k2),
            forall|k2: u64|
                final(self).owners_of(k2) == if old(self).has(entity, k2) {
                    old(self).owners_of(k2).remove(old(self).owners_of(k2).index_of(entity))
                } else {
                    old(self).owners_of(k2)
                },
            forall|id: u64|
                final(self).generation_known(id) == old(self).generation_known(id)
                    && (old(self).generation_known(id)
                        ==> final(self).generation_of(id) == old(self).generation_of(id)),
            final(self).registered_kinds() == old(self).registered_kinds(),
            final(self).next_id() == old(self).next_id(),
            old(self).live(entity) ==> {
                &&& final(self).free_queue() == old(self).free_queue().push(entity)
                &&& final(self).cache().cached_kinds() == Seq::<u64>::empty()
                &&& final(self).events() == Self::ring_pushed(
                    old(self).events(),
                    EntityLifecycleEvent {
                        entity_id: entity,
                        event_type: LifecycleEventType::Destroyed,
                        timestamp: now,
                    },
                )
            },
            !old(self).live(entity) ==> {
                &&& final(self).free_queue() == old(self).free_queue()
                &&& final(self).cache() == old(self).cache()
                &&& final(self).events() == old(self).events()
            },
    {
        let ghost pre = *old(self);
        let list: Vec<u64>;
        match self.entity_components.get(entity) {
            Some(l) => {
                list = copy_ids(l);
            },
            None => {
                proof {
                    assert forall|k2: u64| !self.has(entity, k2) by {
                        if self.has(entity, k2) {
                            self.lemma_kind_index(k2);
                            let i = self.kind_index(k2);
                            assert(self.stores@[i].owns(entity));
                            assert(self.live(entity));
                        }
                    };
                }
                return;
            },
        }
        proof {
            assert(pre.live(entity));
            assert(list@ == pre.kind_list(entity));
        }
        self.entity_components.remove(entity);
        let ghost mid = *self;
        let n = list.len();
        let mut i: usize = 0;
        while i < n
            invariant
                n == list@.len(),
                i <= n,
                pre.well_formed(),
                pre.live(entity),
                list@ == pre.kind_list(entity),
                self.kinds == pre.kinds,
                self.entity_generations == pre.entity_generations,
                self.free_entities == pre.free_entities,
                self.next_entity_id == pre.next_entity_id,
                self.query_cache == pre.query_cache,
                self.lifecycle_events == pre.lifecycle_events,
                self.entity_components == mid.entity_components,
                self.entity_components.well_formed(),
                !self.live(entity),
                forall|e2: u64| e2 != entity ==> self.live(e2) == pre.live(e2),
                forall|e2: u64|
                    e2 != entity && pre.live(e2)
                        ==> self.kind_list(e2) == pre.kind_list(e2),
                self.stores@.len() == pre.stores@.len(),
                forall|ii: int|
                    0 <= ii < self.stores@.len()
                        ==> (#[trigger] self.stores@[ii]).well_formed(),
                forall|j: int|
                    0 <= j < i
                        ==> ComponentStorage::remove_effect(
                            pre.store_of(#[trigger] list@[j]),
                            self.store_of(list@[j]),
                            entity,
                        ),
                forall|k2: u64|
                    !list@.take(i as int).contains(k2) && pre.kind_registered(k2)
                        ==> #[trigger] self.store_of(k2) == pre.store_of(k2),
            decreases n - i,
        {
            let kind = list[i];
            proof {
                assert(pre.kind_list(entity)[i as int] == kind);
                assert(pre.kind_registered(kind));
                assert(pre.store_of(kind).owns(entity));
                pre.lemma_kind_index(kind);
                assert(!list@.take(i as int).contains(kind)) by {
                    if list@.take(i as int).contains(kind) {
                        let w = choose|w: int|
                            0 <= w < i && list@.take(i as int)[w] == kind;
                        assert(pre.kind_list(entity)[w] == kind);
                        assert(pre.kind_list(entity)[i as int] == kind);
                    }
                };
                assert(self.store_of(kind) == pre.store_of(kind));
            }
            let idx = match first_position(&self.kinds, kind) {
                Some(idx) => idx,
                None => {
                    proof {
                        assert(self.kinds@.contains(kind)) by {
                            assert(self.kinds@[pre.kind_index(kind)] == kind);
                        }
                        assert(false);
                    }
                    0
                },
            };
            proof {
                lemma_index_of_distinct(self.kinds@, kind);
                assert(idx as int == pre.kind_index(kind));
            }
            let ghost before = *self;
            let mut st: ComponentStorage<C> = ComponentStorage::new();
            self.stores.set_and_swap(idx, &mut st);
            proof {
                assert(st == before.stores@[idx as int]);
                assert(before.stores@[idx as int].well_formed());
            }
            st.remove(entity);
            self.stores.set_and_swap(idx, &mut st);
            proof {
                let stp = before.stores@[idx as int];
                let stn = self.stores@[idx as int];
                assert(ComponentStorage::remove_effect(stp, stn, entity));
                assert(stp == pre.store_of(kind));
                assert forall|ii: int|
                    0 <= ii < self.stores@.len()
                    implies (#[trigger] self.stores@[ii]).well_formed() by {
                    if ii != idx as int {
                        assert(before.stores@[ii].well_formed());
                    }
                };
                assert forall|j: int| 0 <= j < i + 1
                    implies ComponentStorage::remove_effect(
                        pre.store_of(#[trigger] list@[j]),
                        self.store_of(list@[j]),
                        entity,
                    ) by {
                    let k2 = list@[j];
                    pre.lemma_kind_index(k2);
                    if j < i {
                        assert(k2 != kind) by {
                            assert(pre.kind_list(entity)[j] == k2);
                            assert(pre.kind_list(entity)[i as int] == kind);
                        };
                        assert(pre.kind_index(k2) != idx as int);
                        assert(self.store_of(k2) == before.store_of(k2));
                        assert(ComponentStorage::remove_effect(
                            pre.store_of(k2),
                            before.store_of(k2),
                            entity,
                        ));
                    } else {
                        assert(k2 == kind);
                        assert(self.store_of(kind) == stn);
                    }
                };
                assert forall|k2: u64|
                    !list@.take(i + 1 as int).contains(k2) && pre.kind_registered(k2)
                    implies #[trigger] self.store_of(k2) == pre.store_of(k2) by {
                    assert(k2 != kind) by {
                        assert(list@.take(i + 1 as int)[i as int] == kind);
                    };
                    assert(!list@.take(i as int).contains(k2)) by {
                        if list@.take(i as int).contains(k2) {
                            let w = choose|w: int|
                                0 <= w < i && list@.take(i as int)[w] == k2;
                            assert(list@.take(i + 1 as int)[w] == k2);
                        }
                    };
                    pre.lemma_kind_index(k2);
                    assert(pre.kind_index(k2) != idx as int);
                    assert(self.store_of(k2) == before.store_of(k2));
                };
            }
            i = i + 1;
        }
        let ghost done = *self;
        self.free_entities.push(entity);
        self.push_event(EntityLifecycleEvent {
            entity_id: entity,
            event_type: LifecycleEventType::Destroyed,
            timestamp: now,
        });
        self.query_cache.invalidate_entity(entity);
        proof {
            assert(list@.take(n as int) == list@);
            assert(!self.live(entity));
            assert(self.stores@ == done.stores@);
            assert(self.kinds@ == done.kinds@);
            assert forall|k2: u64| pre.kind_registered(k2)
                implies !self.store_of(k2).owns(entity)
                    && (pre.store_of(k2).owns(entity) ==> ComponentStorage::remove_effect(
                        pre.store_of(k2), self.store_of(k2), entity))
                    && (!pre.store_of(k2).owns(entity)
                        ==> self.store_of(k2) == pre.store_of(k2)) by {
                assert(self.store_of(k2) == done.store_of(k2));
                if list@.contains(k2) {
                    let j = choose|j: int| 0 <= j < list@.len() && list@[j] == k2;
                    assert(ComponentStorage::remove_effect(
                        pre.store_of(list@[j]), done.store_of(list@[j]), entity));
                } else {
                    assert(!list@.take(n as int).contains(k2));
                    assert(done.store_of(k2) == pre.store_of(k2));
                    if pre.store_of(k2).owns(entity) {
                        pre.lemma_kind_index(k2);
                        let ii = pre.kind_index(k2);
                        assert(pre.stores@[ii].owns(entity));
                        assert(pre.kind_list(entity).contains(pre.kinds@[ii]));
                    }
                }
            };
            // the world invariant
            assert forall|e: u64| #[trigger] self.live(e) implies self.generation_known(e) by {
                assert(e != entity);
                assert(pre.live(e));
                assert(pre.generation_known(e));
            };
            assert forall|j: int|
                0 <= j < self.free_entities@.len()
                implies self.generation_known(#[trigger] self.free_entities@[j])
                    && !self.live(self.free_entities@[j]) by {
                if j < pre.free_entities@.len() {
                    assert(pre.generation_known(pre.free_entities@[j]));
                    assert(!pre.live(pre.free_entities@[j]));
                } else {
                    assert(self.free_entities@[j] == entity);
                    assert(pre.live(entity));
                    assert(pre.generation_known(entity));
                }
            };
            assert forall|j1: int, j2: int|
                0 <= j1 < j2 < self.free_entities@.len()
                implies self.free_entities@[j1] != self.free_entities@[j2] by {
                if j2 == self.free_entities@.len() - 1 {
                    assert(self.free_entities@[j2] == entity);
                    assert(!pre.live(pre.free_entities@[j1]));
                } else {
                    assert(pre.free_entities@[j1] != pre.free_entities@[j2]);
                }
            };
            assert forall|id: u64| #[trigger] self.generation_known(id)
                implies 1 <= id && id < self.next_entity_id by {
                assert(pre.generation_known(id));
            };
            assert forall|ii: int, e: u64|
                0 <= ii < self.stores@.len() && (#[trigger] self.stores@[ii].owns(e))
                implies self.live(e) && self.kind_list(e).contains(self.kinds@[ii]) by {
                let k2 = pre.kinds@[ii];
                assert(pre.kind_registered(k2)) by {
                    assert(pre.kinds@[ii] == k2);
                };
                pre.lemma_kind_index(k2);
                assert(pre.kind_index(k2) == ii);
                assert(self.store_of(k2) == self.stores@[ii]);
                assert(e != entity);
                assert(pre.store_of(k2).owns(e)) by {
                    if pre.store_of(k2).owns(entity) {
                        assert(ComponentStorage::remove_effect(
                            pre.store_of(k2), self.store_of(k2), entity));
                    }
                };
                assert(pre.stores@[ii].owns(e));
                assert(pre.live(e));
                assert(self.kind_list(e) == pre.kind_list(e));
            };
            assert forall|e: u64, j: int|
                #![trigger self.kind_list(e)[j]]
                self.live(e) && 0 <= j < self.kind_list(e).len()
                implies self.kind_registered(self.kind_list(e)[j])
                    && self.store_of(self.kind_list(e)[j]).owns(e) by {
                assert(e != entity);
                assert(pre.live(e));
                assert(self.kind_list(e) == pre.kind_list(e));
                let k2 = self.kind_list(e)[j];
                assert(pre.kind_registered(k2));
                assert(pre.store_of(k2).owns(e));
                if pre.store_of(k2).owns(entity) {
                    assert(ComponentStorage::remove_effect(
                        pre.store_of(k2), self.store_of(k2), entity));
                } else {
                    assert(self.store_of(k2) == pre.store_of(k2));
                }
            };
            assert forall|e: u64, j1: int, j2: int|
                #![trigger self.kind_list(e)[j1], self.kind_list(e)[j2]]
                self.live(e) && 0 <= j1 < j2 < self.kind_list(e).len()
                implies self.kind_list(e)[j1] != self.kind_list(e)[j2] by {
                assert(e != entity);
                assert(pre.live(e));
                assert(pre.kind_list(e)[j1] != pre.kind_list(e)[j2]);
            };
            assert(self.well_formed());
            // the contract
            assert forall|k2: u64| !self.has(entity, k2) by {
                if self.kind_registered(k2) {
                    assert(pre.kind_registered(k2));
                }
            };
            assert forall|e2: u64, k2: u64|
                e2 != entity
                implies self.has(e2, k2) == pre.has(e2, k2)
                    && (pre.has(e2, k2)
                        ==> self.component_of(e2, k2) == pre.component_of(e2, k2)) by {
                if pre.kind_registered(k2) {
                    if pre.store_of(k2).owns(entity) {
                        assert(ComponentStorage::remove_effect(
                            pre.store_of(k2), self.store_of(k2), entity));
                    } else {
                        assert(self.store_of(k2) == pre.store_of(k2));
                    }
                }
            };
            assert forall|k2: u64|
                self.owners_of(k2) == (if pre.has(entity, k2) {
                    pre.owners_of(k2).remove(pre.owners_of(k2).index_of(entity))
                } else {
                    pre.owners_of(k2)
                }) by {
                if pre.kind_registered(k2) {
                    if pre.store_of(k2).owns(entity) {
                        assert(ComponentStorage::remove_effect(
                            pre.store_of(k2), self.store_of(k2), entity));
                    } else {
                        assert(self.store_of(k2) == pre.store_of(k2));
                    }
                }
            };
        }
    }

    /// The entity list for `kind`, served from the query cache when a fresh
    /// enough snapshot is there, and otherwise computed from the kind's
    /// store, wrapped with capture time `now` and cached for later queries.
    /// Either way the snapshot lists exactly the current owners of `kind`.
    pub fn query(&mut self, kind: ComponentTypeId, now: u64) -> (r: QueryResult)
        requires
            old(self).well_formed(),
        ensures
            final(self).well_formed(),
            r.ids() == old(self).owners_of(kind),
            r.kind() == kind,
            r.fresh_at(now),
            final(self).cache().has_entry(kind),
            final(self).cache().entry_of(kind).ids() == old(self).owners_of(kind),
            forall|k2: u64|
                k2 != kind
                    ==> final(self).cache().has_entry(k2) == old(self).cache().has_entry(k2)
                        && (old(self).cache().has_entry(k2)
                            ==> final(self).cache().entry_of(k2) == old(self).cache().entry_of(k2)),
            forall|e2: u64| final(self).live(e2) == old(self).live(e2),
            forall|e2: u64|
                old(self).live(e2) ==> final(self).kind_list(e2) == old(self).kind_list(e2),
            forall|e2: u64, k2: u64|
                final(self).has(e2, k2) == old(self).has(e2, k2)
                    && (old(self).has(e2, k2)
                        ==> final(self).component_of(e2, k2) == old(self).component_of(e2, k2)),
            forall|k2: u64| final(self).owners_of(k2) == old(self).owners_of(k2),
            forall|id: u64|
                final(self).generation_known(id) == old(self).generation_known(id)
                    && (old(self).generation_known(id)
                        ==> final(self).generation_of(id) == old(self).generation_of(id)),
            final(self).registered_kinds() == old(self).registered_kinds(),
            final(self).free_queue() == old(self).free_queue(),
            final(self).next_id() == old(self).next_id(),
            final(self).events() == old(self).events(),
    {
        let cached = self.query_cache.get_cached_query(kind, now);
        match cached {
            Some(q) => {
                proof {
                    assert(self.query_cache.has_entry(kind));
                    assert(self.query_cache.entry_of(kind).ids() == self.owners_of(kind));
                    assert(q.fresh_at(now));
                }
                q
            },
            None => {
                let ids = self.entities_with_component(kind);
                let result = QueryResult::new(ids, kind, now);
                let copy = result.duplicate();
                self.query_cache.cache_query_result(copy);
                proof {
                    let pre = *old(self);
                    Self::lemma_registry_frame(pre, *self);
                    assert forall|e: u64, j: int|
                        #![trigger self.kind_list(e)[j]]
                        self.live(e) && 0 <= j < self.kind_list(e).len()
                        implies self.kind_registered(self.kind_list(e)[j])
                            && self.store_of(self.kind_list(e)[j]).owns(e) by {
                        assert(pre.live(e));
                        assert(self.kind_list(e) == pre.kind_list(e));
                        let k2 = self.kind_list(e)[j];
                        assert(pre.kind_registered(k2));
                        assert(pre.store_of(k2).owns(e));
                    };
                    assert forall|e: u64, j1: int, j2: int|
                        #![trigger self.kind_list(e)[j1], self.kind_list(e)[j2]]
                        self.live(e) && 0 <= j1 < j2 < self.kind_list(e).len()
                        implies self.kind_list(e)[j1] != self.kind_list(e)[j2] by {
                        assert(pre.live(e));
                        assert(pre.kind_list(e)[j1] != pre.kind_list(e)[j2]);
                    };
                    assert forall|i: int, e: u64|
                        0 <= i < self.stores@.len() && (#[trigger] self.stores@[i].owns(e))
                        implies self.live(e) && self.kind_list(e).contains(self.kinds@[i]) by {
                        assert(pre.stores@[i].owns(e));
                        assert(pre.live(e));
                    };
                    assert forall|k2: u64| #[trigger] self.query_cache.has_entry(k2)
                        implies self.query_cache.entry_of(k2).ids() == self.owners_of(k2) by {
                        if k2 != kind {
                            assert(pre.query_cache.has_entry(k2));
                        }
                    };
                    assert(self.well_formed());
                }
                result
            },
        }
    }

    /// The (entity, component) pairs that `ids` yields for `kind` right now:
    /// entities in their order in `ids`, each paired with the component it
    /// currently owns, entities without one skipped.
    pub open spec fn matching_pairs(&self, kind: u64, ids: Seq<u64>) -> Seq<(u64, C)>
        decreases ids.len(),
    {
        if ids.len() == 0 {
            Seq::<(u64, C)>::empty()
        } else {
            let prefix = self.matching_pairs(kind, ids.drop_last());
            let e = ids.last();
            if self.has(e, kind) {
                prefix.push((e, self.component_of(e, kind)))
            } else {
                prefix
            }
        }
    }

    /// Resolves a prior query snapshot against the current state: each
    /// snapshot entity that still owns `kind` is paired with its component,
    /// in snapshot order.
    pub fn get_components_for_query(
        &self,
        kind: ComponentTypeId,
        query_result: &QueryResult,
    ) -> (r: Vec<(EntityId, &C)>)
        requires
            self.well_formed(),
        ensures
            r@.len() == self.matching_pairs(kind, query_result.ids()).len(),
            forall|j: int|
                0 <= j < r@.len()
                    ==> r@[j].0 == self.matching_pairs(kind, query_result.ids())[j].0
                        && *r@[j].1 == self.matching_pairs(kind, query_result.ids())[j].1,
    {
        let n = query_result.len();
        let mut out: Vec<(EntityId, &C)> = Vec::new();
        let mut i: usize = 0;
        while i < n
            invariant
                self.well_formed(),
                n == query_result.ids().len(),
                i <= n,
                out@.len() == self.matching_pairs(kind, query_result.ids().take(i as int)).len(),
                forall|j: int|
                    0 <= j < out@.len()
                        ==> out@[j].0
                            == self.matching_pairs(kind, query_result.ids().take(i as int))[j].0
                            && *out@[j].1
                            == self.matching_pairs(kind, query_result.ids().take(i as int))[j].1,
            decreases n - i,
        {
            let e = query_result.id_at(i);
            let ghost taken = query_result.ids().take(i as int);
            let ghost taken1 = query_result.ids().take(i + 1 as int);
            proof {
                assert(taken1.drop_last() =~= taken);
                assert(taken1.last() == e);
            }
            match self.get_component(e, kind) {
                Some(c) => {
                    out.push((e, c));
                },
                None => {},
            }
            i = i + 1;
        }
        proof {
            assert(query_result.ids().take(n as int) == query_result.ids());
        }
        out
    }

    /// Runs the throttled compaction of every store.  Nothing observable
    /// changes: every owner keeps its component, and the cache stays intact.
    fn compact_all_storage(&mut self, now: u64)
        requires
            old(self).well_formed(),
        ensures
            final(self).well_formed(),
            forall|e2: u64| final(self).live(e2) == old(self).live(e2),
            forall|e2: u64|
                old(self).live(e2) ==> final(self).kind_list(e2) == old(self).kind_list(e2),
            forall|e2: u64, k2: u64|
                final(self).has(e2, k2) == old(self).has(e2, k2)
                    && (old(self).has(e2, k2)
                        ==> final(self).component_of(e2, k2) == old(self).component_of(e2, k2)),
            forall|k2: u64| final(self).owners_of(k2) == old(self).owners_of(k2),
            final(self).registered_kinds() == old(self).registered_kinds(),
            final(self).entity_generations == old(self).entity_generations,
            final(self).free_entities == old(self).free_entities,
            final(self).next_entity_id == old(self).next_entity_id,
            final(self).query_cache == old(self).query_cache,
            final(self).lifecycle_events == old(self).lifecycle_events,
            final(self).entity_components == old(self).entity_components,
    {
        let n = self.stores.len();
        let ghost pre = *old(self);
        let mut i: usize = 0;
        while i < n
            invariant
                pre.well_formed(),
                n == self.stores@.len(),
                i <= n,
                self.kinds == pre.kinds,
                self.entity_generations == pre.entity_generations,
                self.free_entities == pre.free_entities,
                self.next_entity_id == pre.next_entity_id,
                self.query_cache == pre.query_cache,
                self.lifecycle_events == pre.lifecycle_events,
                self.entity_components == pre.entity_components,
                self.optimization_engine == pre.optimization_engine,
                self.stores@.len() == pre.stores@.len(),
                forall|ii: int|
                    0 <= ii < self.stores@.len()
                        ==> (#[trigger] self.stores@[ii]).well_formed()
                            && self.stores@[ii].owners() == pre.stores@[ii].owners()
                            && (forall|e: u64|
                                self.stores@[ii].owns(e) == pre.stores@[ii].owns(e))
                            && (forall|e: u64|
                                pre.stores@[ii].owns(e)
                                    ==> self.stores@[ii].value_of(e)
                                        == pre.stores@[ii].value_of(e)
                                        && self.stores@[ii].version_of(e)
                                        == pre.stores@[ii].version_of(e)),
            decreases n - i,
        {
            let ghost before = *self;
            let mut st: ComponentStorage<C> = ComponentStorage::new();
            self.stores.set_and_swap(i, &mut st);
            proof {
                assert(st == before.stores@[i as int]);
                assert(before.stores@[i as int].well_formed());
            }
            st.optimize_layout(now);
            self.stores.set_and_swap(i, &mut st);
            proof {
                assert forall|ii: int|
                    0 <= ii < self.stores@.len()
                    implies (#[trigger] self.stores@[ii]).well_formed()
                        && self.stores@[ii].owners() == pre.stores@[ii].owners()
                        && (forall|e: u64| self.stores@[ii].owns(e) == pre.stores@[ii].owns(e))
                        && (forall|e: u64|
                            pre.stores@[ii].owns(e)
                                ==> self.stores@[ii].value_of(e) == pre.stores@[ii].value_of(e)
                                    && self.stores@[ii].version_of(e)
                                    == pre.stores@[ii].version_of(e)) by {
                    if ii != i as int {
                        assert(self.stores@[ii] == before.stores@[ii]);
                        assert(before.stores@[ii].well_formed());
                        assert(before.stores@[ii].owners() == pre.stores@[ii].owners());
                    } else {
                        assert(self.stores@[ii].owners() == before.stores@[ii].owners());
                        assert(before.stores@[ii].owners() == pre.stores@[ii].owners());
                        assert forall|e: u64|
                            self.stores@[ii].owns(e) == pre.stores@[ii].owns(e)
                            && (pre.stores@[ii].owns(e)
                                ==> self.stores@[ii].value_of(e) == pre.stores@[ii].value_of(e)
                                    && self.stores@[ii].version_of(e)
                                    == pre.stores@[ii].version_of(e)) by {
                            assert(self.stores@[ii].owns(e) == before.stores@[ii].owns(e));
                            assert(before.stores@[ii].owns(e) == pre.stores@[ii].owns(e));
                            if pre.stores@[ii].owns(e) {
                                assert(before.stores@[ii].owns(e));
                            }
                        };
                    }
                };
            }
            i = i + 1;
        }
        proof {
            self.lemma_compact_frame(pre);
        }
    }

    /// After a compaction pass — same registry, same cache, same owners and
    /// values in every store — the world is still well formed and all
    /// observables are unchanged.
    proof fn lemma_compact_frame(&self, pre: Self)
        requires
            pre.well_formed(),
            self.kinds == pre.kinds,
            self.entity_generations == pre.entity_generations,
            self.free_entities == pre.free_entities,
            self.next_entity_id == pre.next_entity_id,
            self.query_cache == pre.query_cache,
            self.lifecycle_events == pre.lifecycle_events,
            self.entity_components == pre.entity_components,
            self.stores@.len() == pre.stores@.len(),
            forall|ii: int|
                0 <= ii < self.stores@.len()
                    ==> (#[trigger] self.stores@[ii]).well_formed()
                        && self.stores@[ii].owners() == pre.stores@[ii].owners()
                        && (forall|e: u64| self.stores@[ii].owns(e) == pre.stores@[ii].owns(e))
                        && (forall|e: u64|
                            pre.stores@[ii].owns(e)
                                ==> self.stores@[ii].value_of(e) == pre.stores@[ii].value_of(e)),
        ensures
            self.well_formed(),
            forall|e2: u64| self.live(e2) == pre.live(e2),
            forall|e2: u64| pre.live(e2) ==> self.kind_list(e2) == pre.kind_list(e2),
            forall|e2: u64, k2: u64|
                self.has(e2, k2) == pre.has(e2, k2)
                    && (pre.has(e2, k2)
                        ==> self.component_of(e2, k2) == pre.component_of(e2, k2)),
            forall|k2: u64| self.owners_of(k2) == pre.owners_of(k2),
            self.registered_kinds() == pre.registered_kinds(),
    {
        assert forall|e2: u64, k2: u64|
            self.has(e2, k2) == pre.has(e2, k2)
                && (pre.has(e2, k2)
                    ==> self.component_of(e2, k2) == pre.component_of(e2, k2)) by {
            if pre.kind_registered(k2) {
                pre.lemma_kind_index(k2);
                let ii = pre.kind_index(k2);
                assert(self.store_of(k2) == self.stores@[ii]);
                assert(self.stores@[ii].owns(e2) == pre.stores@[ii].owns(e2));
                if pre.stores@[ii].owns(e2) {
                    assert(self.stores@[ii].value_of(e2) == pre.stores@[ii].value_of(e2));
                }
            }
        };
        assert forall|k2: u64| self.owners_of(k2) == pre.owners_of(k2) by {
            if pre.kind_registered(k2) {
                pre.lemma_kind_index(k2);
                let ii = pre.kind_index(k2);
                assert(self.stores@[ii].owners() == pre.stores@[ii].owners());
            }
        };
        Self::lemma_registry_frame(pre, *self);
        assert forall|ii: int, e: u64|
            0 <= ii < self.stores@.len() && (#[trigger] self.stores@[ii].owns(e))
            implies self.live(e) && self.kind_list(e).contains(self.kinds@[ii]) by {
            assert(pre.stores@[ii].owns(e));
            assert(pre.live(e));
        };
        assert forall|e: u64, j: int|
            #![trigger self.kind_list(e)[j]]
            self.live(e) && 0 <= j < self.kind_list(e).len()
            implies self.kind_registered(self.kind_list(e)[j])
                && self.store_of(self.kind_list(e)[j]).owns(e) by {
            assert(pre.live(e));
            assert(self.kind_list(e) == pre.kind_list(e));
            let k2 = self.kind_list(e)[j];
            assert(pre.kind_registered(k2));
            assert(pre.store_of(k2).owns(e));
            pre.lemma_kind_index(k2);
            let ii = pre.kind_index(k2);
            assert(self.stores@[ii].owns(e) == pre.stores@[ii].owns(e));
        };
        assert forall|e: u64, j1: int, j2: int|
            #![trigger self.kind_list(e)[j1], self.kind_list(e)[j2]]
            self.live(e) && 0 <= j1 < j2 < self.kind_list(e).len()
            implies self.kind_list(e)[j1] != self.kind_list(e)[j2] by {
            assert(pre.live(e));
            assert(pre.kind_list(e)[j1] != pre.kind_list(e)[j2]);
        };
        assert forall|k: u64| #[trigger] self.query_cache.has_entry(k)
            implies self.query_cache.entry_of(k).ids() == self.owners_of(k) by {
            assert(pre.query_cache.has_entry(k));
            assert(self.owners_of(k) == pre.owners_of(k));
        };
        assert(self.well_formed());
    }

    /// Present for plan completeness: reordering live slots is declined, as
    /// it would move components under the feet of cached slot indices.
    fn reorder_component_storage(&mut self)
        ensures
            *final(self) == *old(self),
    {
    }

    /// Trims the recycle queue once it holds more identifiers than the pool
    /// limit: it is cut to half its size, oldest entries dropped first.
    fn reduce_entity_pool(&mut self)
        requires
            old(self).well_formed(),
        ensures
            final(self).well_formed(),
            final(self).free_queue() == if old(self).free_queue().len() > RECYCLE_POOL_LIMIT {
                old(self).free_queue().skip(old(self).free_queue().len() as int / 2)
            } else {
                old(self).free_queue()
            },
            final(self).entity_generations == old(self).entity_generations,
            final(self).next_entity_id == old(self).next_entity_id,
            final(self).kinds == old(self).kinds,
            final(self).stores == old(self).stores,
            final(self).entity_components == old(self).entity_components,
            final(self).query_cache == old(self).query_cache,
            final(self).lifecycle_events == old(self).lifecycle_events,
    {
        if self.free_entities.len() > RECYCLE_POOL_LIMIT {
            let keep_count = self.free_entities.len() / 2;
            let tail = self.free_entities.split_off(keep_count);
            self.free_entities = tail;
            proof {
                let pre = *old(self);
                let h = pre.free_entities@.len() as int / 2;
                assert(self.free_entities@ == pre.free_entities@.skip(h));
                assert forall|e: u64| #[trigger] self.live(e)
                    implies self.generation_known(e) by {
                    assert(pre.live(e));
                    assert(pre.generation_known(e));
                };
                assert forall|id: u64| #[trigger] self.generation_known(id)
                    implies 1 <= id && id < self.next_entity_id by {
                    assert(pre.generation_known(id));
                };
                assert forall|j: int|
                    0 <= j < self.free_entities@.len()
                    implies self.generation_known(#[trigger] self.free_entities@[j])
                        && !self.live(self.free_entities@[j]) by {
                    assert(self.free_entities@[j] == pre.free_entities@[j + h]);
                    assert(pre.generation_known(pre.free_entities@[j + h]));
                    assert(!pre.live(pre.free_entities@[j + h]));
                };
                assert forall|j1: int, j2: int|
                    0 <= j1 < j2 < self.free_entities@.len()
                    implies self.free_entities@[j1] != self.free_entities@[j2] by {
                    assert(self.free_entities@[j1] == pre.free_entities@[j1 + h]);
                    assert(self.free_entities@[j2] == pre.free_entities@[j2 + h]);
                    assert(pre.free_entities@[j1 + h] != pre.free_entities@[j2 + h]);
                };
                assert forall|e: u64, j: int|
                    #![trigger self.kind_list(e)[j]]
                    self.live(e) && 0 <= j < self.kind_list(e).len()
                    implies self.kind_registered(self.kind_list(e)[j])
                        && self.store_of(self.kind_list(e)[j]).owns(e) by {
                    assert(pre.live(e));
                    assert(self.kind_list(e) == pre.kind_list(e));
                    let k2 = self.kind_list(e)[j];
                    assert(pre.kind_registered(k2));
                    assert(pre.store_of(k2).owns(e));
                };
                assert forall|e: u64, j1: int, j2: int|
                    #![trigger self.kind_list(e)[j1], self.kind_list(e)[j2]]
                    self.live(e) && 0 <= j1 < j2 < self.kind_list(e).len()
                    implies self.kind_list(e)[j1] != self.kind_list(e)[j2] by {
                    assert(pre.live(e));
                    assert(pre.kind_list(e)[j1] != pre.kind_list(e)[j2]);
                };
                assert forall|i: int, e: u64|
                    0 <= i < self.stores@.len() && (#[trigger] self.stores@[i].owns(e))
                    implies self.live(e) && self.kind_list(e).contains(self.kinds@[i]) by {
                    assert(pre.stores@[i].owns(e));
                    assert(pre.live(e));
                };
                assert forall|k: u64| #[trigger] self.query_cache.has_entry(k)
                    implies self.query_cache.entry_of(k).ids() == self.owners_of(k) by {
                    assert(pre.query_cache.has_entry(k));
                };
                assert(self.well_formed());
            }
        }
    }

    /// Runs one optimization pass at time `now`: the fixed plan compacts
    /// every store opportunistically, clears the query cache, and trims the
    /// entity recycle pool where it exceeds its limit.  No entity, component
    /// or generation is affected.
    pub fn optimize_performance(&mut self, _ai_context: &AIContext, now: u64)
        requires
            old(self).well_formed(),
        ensures
            final(self).well_formed(),
            final(self).cache().cached_kinds() == Seq::<u64>::empty(),
            final(self).free_queue() == if old(self).free_queue().len() > RECYCLE_POOL_LIMIT {
                old(self).free_queue().skip(old(self).free_queue().len() as int / 2)
            } else {
                old(self).free_queue()
            },
            forall|e2: u64| final(self).live(e2) == old(self).live(e2),
            forall|e2: u64|
                old(self).live(e2) ==> final(self).kind_list(e2) == old(self).kind_list(e2),
            forall|e2: u64, k2: u64|
                final(self).has(e2, k2) == old(self).has(e2, k2)
                    && (old(self).has(e2, k2)
                        ==> final(self).component_of(e2, k2) == old(self).component_of(e2, k2)),
            forall|k2: u64| final(self).owners_of(k2) == old(self).owners_of(k2),
            forall|id: u64|
                final(self).generation_known(id) == old(self).generation_known(id)
                    && (old(self).generation_known(id)
                        ==> final(self).generation_of(id) == old(self).generation_of(id)),
            final(self).registered_kinds() == old(self).registered_kinds(),
            final(self).next_id() == old(self).next_id(),
            final(self).events() == old(self).events(),
    {
        let plan = self.optimization_engine.create_optimization_plan();
        let ghost pre = *old(self);
        proof {
            Self::lemma_registry_frame(pre, *self);
            assert forall|e: u64, j: int|
                #![trigger self.kind_list(e)[j]]
                self.live(e) && 0 <= j < self.kind_list(e).len()
                implies self.kind_registered(self.kind_list(e)[j])
                    && self.store_of(self.kind_list(e)[j]).owns(e) by {
                assert(pre.live(e));
                assert(self.kind_list(e) == pre.kind_list(e));
                let k2 = self.kind_list(e)[j];
                assert(pre.kind_registered(k2));
                assert(pre.store_of(k2).owns(e));
            };
            assert forall|e: u64, j1: int, j2: int|
                #![trigger self.kind_list(e)[j1], self.kind_list(e)[j2]]
                self.live(e) && 0 <= j1 < j2 < self.kind_list(e).len()
                implies self.kind_list(e)[j1] != self.kind_list(e)[j2] by {
                assert(pre.live(e));
                assert(pre.kind_list(e)[j1] != pre.kind_list(e)[j2]);
            };
            assert forall|i: int, e: u64|
                0 <= i < self.stores@.len() && (#[trigger] self.stores@[i].owns(e))
                implies self.live(e) && self.kind_list(e).contains(self.kinds@[i]) by {
                assert(pre.stores@[i].owns(e));
                assert(pre.live(e));
            };
            assert forall|k: u64| #[trigger] self.query_cache.has_entry(k)
                implies self.query_cache.entry_of(k).ids() == self.owners_of(k) by {
                assert(pre.query_cache.has_entry(k));
            };
            assert(self.well_formed());
        }
        let m = plan.optimizations.len();
        let mut i: usize = 0;
        while i < m
            invariant
                m == plan.optimizations@.len(),
                m == 3,
                i <= m,
                plan.optimizations@[0] == OptimizationType::CompactStorage,
                plan.optimizations@[1] == OptimizationType::ClearQueryCache,
                plan.optimizations@[2] == OptimizationType::ReduceEntityPool,
                pre.well_formed(),
                self.well_formed(),
                forall|e2: u64| self.live(e2) == pre.live(e2),
                forall|e2: u64| pre.live(e2) ==> self.kind_list(e2) == pre.kind_list(e2),
                forall|e2: u64, k2: u64|
                    self.has(e2, k2) == pre.has(e2, k2)
                        && (pre.has(e2, k2)
                            ==> self.component_of(e2, k2) == pre.component_of(e2, k2)),
                forall|k2: u64| self.owners_of(k2) == pre.owners_of(k2),
                forall|id: u64|
                    self.generation_known(id) == pre.generation_known(id)
                        && (pre.generation_known(id)
                            ==> self.generation_of(id) == pre.generation_of(id)),
                self.registered_kinds() == pre.registered_kinds(),
                self.next_id() == pre.next_id(),
                self.events() == pre.events(),
                i >= 2 ==> self.cache().cached_kinds() == Seq::<u64>::empty(),
                i < 2 ==> self.query_cache == pre.query_cache,
                i >= 3 ==> self.free_queue() == (if pre.free_queue().len() > RECYCLE_POOL_LIMIT {
                    pre.free_queue().skip(pre.free_queue().len() as int / 2)
                } else {
                    pre.free_queue()
                }),
                i < 3 ==> self.free_entities == pre.free_entities,
            decreases m - i,
        {
            let step = plan.optimizations[i];
            let ghost before = *self;
            match step {
                OptimizationType::CompactStorage => {
                    self.compact_all_storage(now);
                },
                OptimizationType::ReorderComponents => {
                    self.reorder_component_storage();
                },
                OptimizationType::ClearQueryCache => {
                    self.query_cache.clear();
                    proof {
                        Self::lemma_registry_frame(before, *self);
                        assert forall|e: u64, j: int|
                            #![trigger self.kind_list(e)[j]]
                            self.live(e) && 0 <= j < self.kind_list(e).len()
                            implies self.kind_registered(self.kind_list(e)[j])
                                && self.store_of(self.kind_list(e)[j]).owns(e) by {
                            assert(before.live(e));
                            assert(self.kind_list(e) == before.kind_list(e));
                            let k2 = self.kind_list(e)[j];
                            assert(before.kind_registered(k2));
                            assert(before.store_of(k2).owns(e));
                        };
                        assert forall|e: u64, j1: int, j2: int|
                            #![trigger self.kind_list(e)[j1], self.kind_list(e)[j2]]
                            self.live(e) && 0 <= j1 < j2 < self.kind_list(e).len()
                            implies self.kind_list(e)[j1] != self.kind_list(e)[j2] by {
                            assert(before.live(e));
                            assert(before.kind_list(e)[j1] != before.kind_list(e)[j2]);
                        };
                        assert forall|ii: int, e: u64|
                            0 <= ii < self.stores@.len() && (#[trigger] self.stores@[ii].owns(e))
                            implies self.live(e) && self.kind_list(e).contains(self.kinds@[ii]) by {
                            assert(before.stores@[ii].owns(e));
                            assert(before.live(e));
                        };
                        assert(self.well_formed());
                    }
                },
                OptimizationType::ReduceEntityPool => {
                    self.reduce_entity_pool();
                },
            }
            i = i + 1;
        }
    }

    /// Entity identity law: liveness is decided per identifier, so no two
    /// simultaneously-live entities can share one; every identifier the
    /// world could hand out next — the front of the recycle queue, or the
    /// allocation counter — is not live, and every live identifier is
    /// nonzero and below the allocation counter.  Together with
    /// `create_entity`'s contract, which bumps the generation strictly on
    /// every reuse, a stale identifier is always distinguishable from its
    /// successor.
    pub proof fn lemma_fresh_identifiers(&self)
        requires
            self.well_formed(),
        ensures
            forall|j: int| 0 <= j < self.free_queue().len() ==> !self.live(self.free_queue()[j]),
            forall|e: u64| #[trigger] self.live(e) ==> 1 <= e && e < self.next_id(),
            !self.live(self.next_id()),
    {
        assert forall|e: u64| #[trigger] self.live(e)
            implies 1 <= e && e < self.next_id() by {
            assert(self.generation_known(e));
        };
        if self.live(self.next_id()) {
            assert(self.generation_known(self.next_id()));
        }
    }

    /// Cache accuracy law: a cached query entry is never stale.  Every
    /// insert or remove of a kind invalidates that kind's entry and every
    /// destruction clears the whole cache, so whatever entry remains lists
    /// exactly the kind's current owners.
    pub proof fn lemma_cache_accuracy(&self, kind: u64)
        requires
            self.well_formed(),
            self.cache().has_entry(kind),
        ensures
            self.cache().entry_of(kind).ids() == self.owners_of(kind),
    {
        assert(self.query_cache.has_entry(kind));
    }

    /// Query agreement law: a query's snapshot is exactly the current owner
    /// set of its kind.  Two queries of the same kind with no intervening
    /// mutation of that kind see the same owner set and so return identical
    /// entity lists, whether served from the cache or computed fresh; and a
    /// query that follows a mutation of the kind sees the mutated set.
    pub proof fn lemma_query_agreement(
        w1: Self,
        w2: Self,
        kind: u64,
        ids1: Seq<u64>,
        ids2: Seq<u64>,
    )
        requires
            ids1 == w1.owners_of(kind),
            ids2 == w2.owners_of(kind),
            w1.owners_of(kind) == w2.owners_of(kind),
        ensures
            ids1 == ids2,
    {
    }

    /// Whether `create_entity` may be called right now: the counter that
    /// the allocation would advance has room left.
    pub fn can_create_now(&self) -> (r: bool)
        requires
            self.well_formed(),
        ensures
            r == self.can_create(),
    {
        if self.free_entities.len() > 0 {
            let front = self.free_entities[0];
            proof {
                assert(self.generation_known(front));
            }
            match self.entity_generations.get(front) {
                Some(g) => *g < u64::MAX,
                None => false,
            }
        } else {
            self.next_entity_id < u64::MAX
        }
    }

    /// How many identifiers wait in the recycle queue.
    pub fn recycle_queue_len(&self) -> (r: usize)
        ensures
            r == self.free_queue().len(),
    {
        self.free_entities.len()
    }

    /// The generation most recently issued for `id`, if that raw identifier
    /// has ever been issued.
    pub fn generation_of_id(&self, id: EntityId) -> (r: Option<u64>)
        requires
            self.well_formed(),
        ensures
            match r {
                Some(g) => self.generation_known(id) && g == self.generation_of(id),
                None => !self.generation_known(id),
            },
    {
        match self.entity_generations.get(id) {
            Some(g) => Some(*g),
            None => None,
        }
    }

    /// Whether `entity` is currently live.
    pub fn is_live(&self, entity: EntityId) -> (r: bool)
        requires
            self.well_formed(),
        ensures
            r == self.live(entity),
    {
        match self.entity_components.get(entity) {
            Some(_) => true,
            None => false,
        }
    }

    /// How many lifecycle events are currently retained.
    pub fn lifecycle_event_count(&self) -> (r: usize)
        ensures
            r == self.events().len(),
    {
        self.lifecycle_events.len()
    }

    /// The retained lifecycle event at position `i`, oldest first.
    pub fn lifecycle_event_at(&self, i: usize) -> (r: &EntityLifecycleEvent)
        requires
            i < self.events().len(),
        ensures
            *r == self.events()[i as int],
    {
        &self.lifecycle_events[i]
    }
}

} // verus!
