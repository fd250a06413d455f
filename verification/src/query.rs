//! Query results and the invalidation-driven query cache.
//!
//! A query result is an immutable snapshot: the component kind asked for, the
//! entities that owned it when the query ran, and the capture time.  A result
//! is served from the cache only while it is younger than the freshness
//! window; structural mutation of a kind drops that kind's entry, and entity
//! destruction drops every entry, so a cached entry can never outlive the
//! state it describes.

use vstd::prelude::*;
use crate::keyed::KeyedVec;
use crate::{ComponentTypeId, EntityId};

verus! {

/// Time-to-live of a cached query result, in time units.
pub const QUERY_TTL: u64 = 1;

/// An immutable snapshot of "all entities owning component kind K".
pub struct QueryResult {
    entity_ids: Vec<EntityId>,
    component_type: ComponentTypeId,
    timestamp: u64,
}

impl QueryResult {
    /// The captured entity list, in store insertion order.
    pub closed spec fn ids(&self) -> Seq<u64> {
        self.entity_ids@
    }

    /// The component kind this snapshot answers for.
    pub closed spec fn kind(&self) -> u64 {
        self.component_type
    }

    /// The time at which the snapshot was captured.
    pub closed spec fn captured_at(&self) -> u64 {
        self.timestamp
    }

    /// Whether the snapshot is still inside the freshness window at `now`.
    pub open spec fn fresh_at(&self, now: u64) -> bool {
        self.captured_at() <= now && now - self.captured_at() < QUERY_TTL
    }

    pub fn new(entity_ids: Vec<EntityId>, component_type: ComponentTypeId, now: u64) -> (r: Self)
        ensures
            r.ids() == entity_ids@,
            r.kind() == component_type,
            r.captured_at() == now,
    {
        QueryResult { entity_ids, component_type, timestamp: now }
    }

    pub fn empty(component_type: ComponentTypeId, now: u64) -> (r: Self)
        ensures
            r.ids() == Seq::<u64>::empty(),
            r.kind() == component_type,
            r.captured_at() == now,
    {
        QueryResult { entity_ids: Vec::new(), component_type, timestamp: now }
    }

    pub fn entity_ids(&self) -> (r: &[EntityId])
        ensures
            r@ == self.ids(),
    {
        self.entity_ids.as_slice()
    }

    pub fn len(&self) -> (r: usize)
        ensures
            r == self.ids().len(),
    {
        self.entity_ids.len()
    }

    pub fn is_empty(&self) -> (r: bool)
        ensures
            r == (self.ids().len() == 0),
    {
        self.entity_ids.is_empty()
    }

    /// Whether the snapshot may still be served at time `now`.  Expired
    /// results are never reused, even if still structurally accurate.
    pub fn is_valid(&self, now: u64) -> (r: bool)
        ensures
            r == self.fresh_at(now),
    {
        self.timestamp <= now && now - self.timestamp < QUERY_TTL
    }

    /// The captured entity at position `i`.
    pub fn id_at(&self, i: usize) -> (r: EntityId)
        requires
            i < self.ids().len(),
        ensures
            r == self.ids()[i as int],
    {
        self.entity_ids[i]
    }

    /// An identical snapshot: same entities, kind and capture time.
    pub fn duplicate(&self) -> (r: Self)
        ensures
            r.ids() == self.ids(),
            r.kind() == self.kind(),
            r.captured_at() == self.captured_at(),
    {
        let n = self.entity_ids.len();
        let mut ids: Vec<u64> = Vec::new();
        let mut i: usize = 0;
        while i < n
            invariant
                n == self.entity_ids@.len(),
                i <= n,
                ids@ == self.entity_ids@.take(i as int),
            decreases n - i,
        {
            ids.push(self.entity_ids[i]);
            proof {
                assert(ids@ == self.entity_ids@.take(i + 1 as int));
            }
            i = i + 1;
        }
        proof {
            assert(self.entity_ids@.take(n as int) == self.entity_ids@);
        }
        QueryResult {
            entity_ids: ids,
            component_type: self.component_type,
            timestamp: self.timestamp,
        }
    }
}

/// Memoizes query results per component kind.
pub struct QueryCache {
    cached_queries: KeyedVec<QueryResult>,
}

impl QueryCache {
    /// The kinds that currently have a cached entry.
    pub closed spec fn cached_kinds(&self) -> Seq<u64> {
        self.cached_queries.key_seq()
    }

    pub open spec fn has_entry(&self, kind: u64) -> bool {
        self.cached_kinds().contains(kind)
    }

    /// The cached snapshot for `kind`; meaningful only when `has_entry(kind)`.
    pub closed spec fn entry_of(&self, kind: u64) -> QueryResult {
        self.cached_queries.val_of(kind)
    }

    /// Every entry is filed under the kind its snapshot answers for.
    pub closed spec fn well_formed(&self) -> bool {
        &&& self.cached_queries.well_formed()
        &&& forall|kind: u64|
            #[trigger] self.has_entry(kind) ==> self.entry_of(kind).kind() == kind
    }

    pub fn new() -> (r: Self)
        ensures
            r.well_formed(),
            r.cached_kinds() == Seq::<u64>::empty(),
    {
        QueryCache { cached_queries: KeyedVec::new() }
    }

    /// The cached snapshot for `kind`, provided one exists and is still
    /// inside the freshness window at `now`; otherwise nothing, which forces
    /// the caller to run a fresh query.
    pub fn get_cached_query(&self, kind: ComponentTypeId, now: u64) -> (r: Option<QueryResult>)
        requires
            self.well_formed(),
        ensures
            match r {
                Some(q) => {
                    &&& self.has_entry(kind)
                    &&& self.entry_of(kind).fresh_at(now)
                    &&& q.ids() == self.entry_of(kind).ids()
                    &&& q.kind() == kind
                    &&& q.captured_at() == self.entry_of(kind).captured_at()
                },
                None => !self.has_entry(kind) || !self.entry_of(kind).fresh_at(now),
            },
    {
        match self.cached_queries.get(kind) {
            Some(entry) => {
                proof {
                    assert(self.has_entry(kind));
                    assert(self.entry_of(kind).kind() == kind);
                }
                if entry.is_valid(now) {
                    Some(entry.duplicate())
                } else {
                    None
                }
            },
            None => None,
        }
    }

    /// Files `result` under its kind, overwriting any earlier entry for that
    /// kind; the kind itself is the invalidation link back to the entry.
    pub fn cache_query_result(&mut self, result: QueryResult)
        requires
            old(self).well_formed(),
        ensures
            final(self).well_formed(),
            final(self).has_entry(result.kind()),
            final(self).entry_of(result.kind()) == result,
            forall|k2: u64|
                k2 != result.kind()
                    ==> final(self).has_entry(k2) == old(self).has_entry(k2),
            forall|k2: u64|
                k2 != result.kind() && old(self).has_entry(k2)
                    ==> final(self).entry_of(k2) == old(self).entry_of(k2),
    {
        let ghost kind = result.kind();
        let key = result.component_type;
        self.cached_queries.set(key, result);
        proof {
            assert forall|k: u64| #[trigger] self.has_entry(k)
                implies self.entry_of(k).kind() == k by {
                if k != kind {
                    assert(old(self).has_entry(k));
                    assert(self.entry_of(k) == old(self).entry_of(k));
                }
            };
        }
    }

    /// Entity destruction can affect any number of kinds at once, so it
    /// drops every cached entry.
    pub fn invalidate_entity(&mut self, _entity_id: EntityId)
        ensures
            final(self).well_formed(),
            final(self).cached_kinds() == Seq::<u64>::empty(),
    {
        self.cached_queries.clear();
    }

    /// Drops the entry for `kind`; called on any insert or remove of that
    /// component kind.
    pub fn invalidate_queries_with_type(&mut self, kind: ComponentTypeId)
        requires
            old(self).well_formed(),
        ensures
            final(self).well_formed(),
            !final(self).has_entry(kind),
            forall|k2: u64|
                k2 != kind ==> final(self).has_entry(k2) == old(self).has_entry(k2),
            forall|k2: u64|
                k2 != kind && old(self).has_entry(k2)
                    ==> final(self).entry_of(k2) == old(self).entry_of(k2),
    {
        self.cached_queries.remove(kind);
        proof {
            assert forall|k: u64| #[trigger] self.has_entry(k)
                implies self.entry_of(k).kind() == k by {
                assert(k != kind);
                assert(old(self).has_entry(k));
                assert(self.entry_of(k) == old(self).entry_of(k));
            };
        }
    }

    /// Drops every cached entry.
    pub fn clear(&mut self)
        ensures
            final(self).well_formed(),
            final(self).cached_kinds() == Seq::<u64>::empty(),
    {
        self.cached_queries.clear();
    }
}

} // verus!
