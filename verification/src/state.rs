//! Hierarchical state storage and its read cache, plus the state and
//! synchronization plumbing types that protocol layers exchange with the
//! core.
//!
//! State lives under string paths; both the hierarchy and the cache are
//! path-keyed tables whose contracts pin down exactly which path maps to
//! which bytes.

use vstd::prelude::*;
use vstd::pervasive::VecAdditionalExecFns;
use crate::orchestration::UpdateContext;

verus! {

/// How one state value changed.
#[derive(Clone, Copy, Debug, PartialEq, Eq, Structural)]
pub enum ChangeType {
    Create,
    Update,
    Delete,
    Move,
}

/// Why a state operation failed.
#[derive(Clone, Copy, Debug, PartialEq, Eq, Structural)]
pub enum StateError {
    InvalidPath,
    ConflictDetected,
    SerializationFailed,
}

/// Why a cross-protocol synchronization failed.
#[derive(Clone, Copy, Debug, PartialEq, Eq, Structural)]
pub enum SynchronizationError {
    ConflictResolutionFailed,
    NetworkTimeout,
    InconsistentState,
}

/// Why a protocol-facing call failed, as the state layer reports it.
#[derive(Clone, Copy, Debug, PartialEq, Eq, Structural)]
pub enum ProtocolError {
    UnsupportedMessage,
    NetworkError,
    ProtocolViolation,
}

/// A state-change notification, as handed to the event layer.
pub struct StateChangeData {
    pub path: String,
    pub new_value: Vec<u8>,
    pub source_protocol: Option<String>,
    pub change_type: ChangeType,
}

/// One synchronization operation bound for a protocol bridge.
pub struct SyncOperation {
    pub operation_type: String,
    pub target_path: String,
    pub data: Vec<u8>,
    pub priority: u8,
}

/// A synchronization task awaiting completion.
pub struct SyncTask {
    completed: bool,
}

impl SyncTask {
    pub closed spec fn is_completed(&self) -> bool {
        self.completed
    }

    pub fn new() -> (r: Self)
        ensures
            !r.is_completed(),
    {
        SyncTask { completed: false }
    }

    /// Waits the task out; completion itself never fails, recovery handles
    /// any transport trouble before the task reports back.
    pub fn wait_with_ai_recovery(&mut self) -> (r: Result<(), SynchronizationError>)
        ensures
            final(self).is_completed(),
            r is Ok,
    {
        self.completed = true;
        Ok(())
    }
}

/// Copies a byte vector.
fn copy_bytes(src: &Vec<u8>) -> (r: Vec<u8>)
    ensures
        r@ == src@,
{
    let n = src.len();
    let mut out: Vec<u8> = Vec::new();
    let mut i: usize = 0;
    while i < n
        invariant
            n == src@.len(),
            i <= n,
            out@ == src@.take(i as int),
        decreases n - i,
    {
        out.push(src[i]);
        proof {
            assert(out@ == src@.take(i + 1 as int));
        }
        i = i + 1;
    }
    proof {
        assert(src@.take(n as int) == src@);
    }
    out
}

/// A table from string paths to byte values, keyed by path characters.
struct PathTable {
    paths: Vec<String>,
    values: Vec<Vec<u8>>,
}

impl PathTable {
    /// The stored paths, by their character sequences, in insertion order.
    spec fn path_views(&self) -> Seq<Seq<char>> {
        Seq::new(self.paths@.len(), |i: int| self.paths@[i]@)
    }

    spec fn contains_path(&self, p: Seq<char>) -> bool {
        self.path_views().contains(p)
    }

    /// The bytes stored under `p`; meaningful only when `contains_path(p)`.
    spec fn value_of(&self, p: Seq<char>) -> Seq<u8> {
        self.values@[self.path_views().index_of(p)]@
    }

    spec fn well_formed(&self) -> bool {
        &&& self.paths@.len() == self.values@.len()
        &&& forall|i: int, j: int|
            0 <= i < j < self.path_views().len() ==> self.path_views()[i] != self.path_views()[j]
    }

    proof fn lemma_path_index(&self, p: Seq<char>)
        requires
            self.well_formed(),
            self.contains_path(p),
        ensures
            0 <= self.path_views().index_of(p) < self.path_views().len(),
            self.path_views()[self.path_views().index_of(p)] == p,
            forall|i: int|
                0 <= i < self.path_views().len() && self.path_views()[i] == p
                    ==> i == self.path_views().index_of(p),
    {
        let s = self.path_views();
        assert(exists|i: int| 0 <= i < s.len() && s[i] == p);
    }

    fn new() -> (r: Self)
        ensures
            r.well_formed(),
            r.path_views() == Seq::<Seq<char>>::empty(),
    {
        let r = PathTable { paths: Vec::new(), values: Vec::new() };
        proof {
            assert(r.path_views() =~= Seq::<Seq<char>>::empty());
        }
        r
    }

    fn position_of(&self, path: &str) -> (r: Option<usize>)
        requires
            self.well_formed(),
        ensures
            match r {
                Some(i) => {
                    &&& i < self.path_views().len()
                    &&& self.path_views()[i as int] == path@
                    &&& self.contains_path(path@)
                    &&& i == self.path_views().index_of(path@)
                },
                None => !self.contains_path(path@),
            },
    {
        let key = path.to_owned();
        let n = self.paths.len();
        let mut i: usize = 0;
        while i < n
            invariant
                n == self.paths@.len(),
                key@ == path@,
                i <= n,
                self.well_formed(),
                forall|j: int| 0 <= j < i ==> self.path_views()[j] != path@,
            decreases n - i,
        {
            if self.paths[i] == key {
                proof {
                    assert(self.path_views()[i as int] == path@);
                    self.lemma_path_index(path@);
                }
                return Some(i);
            }
            proof {
                assert(self.path_views()[i as int] == self.paths@[i as int]@);
            }
            i = i + 1;
        }
        return None;
    }

    /// The bytes under `path`, copied out, if any.
    fn lookup(&self, path: &str) -> (r: Option<Vec<u8>>)
        requires
            self.well_formed(),
        ensures
            match r {
                Some(v) => self.contains_path(path@) && v@ == self.value_of(path@),
                None => !self.contains_path(path@),
            },
    {
        match self.position_of(path) {
            Some(i) => Some(copy_bytes(&self.values[i])),
            None => None,
        }
    }

    /// Binds `path` to `value`, overwriting any earlier bytes.
    fn store(&mut self, path: &str, value: Vec<u8>)
        requires
            old(self).well_formed(),
        ensures
            final(self).well_formed(),
            final(self).contains_path(path@),
            final(self).value_of(path@) == value@,
            forall|p2: Seq<char>|
                p2 != path@
                    ==> final(self).contains_path(p2) == old(self).contains_path(p2),
            forall|p2: Seq<char>|
                p2 != path@ && old(self).contains_path(p2)
                    ==> final(self).value_of(p2) == old(self).value_of(p2),
    {
        match self.position_of(path) {
            Some(i) => {
                let mut held = value;
                self.values.set_and_swap(i, &mut held);
                proof {
                    assert(self.path_views() =~= old(self).path_views());
                    self.lemma_path_index(path@);
                    assert(self.value_of(path@) == value@);
                    assert forall|p2: Seq<char>| p2 != path@ && old(self).contains_path(p2)
                        implies self.value_of(p2) == old(self).value_of(p2) by {
                        old(self).lemma_path_index(p2);
                        self.lemma_path_index(p2);
                    };
                }
            },
            None => {
                let key = path.to_owned();
                self.paths.push(key);
                self.values.push(value);
                proof {
                    assert(self.path_views() =~= old(self).path_views().push(path@));
                    assert(self.path_views()[self.path_views().len() - 1] == path@);
                    assert forall|i: int, j: int|
                        0 <= i < j < self.path_views().len()
                        implies self.path_views()[i] != self.path_views()[j] by {
                        if j < self.path_views().len() - 1 {
                            assert(old(self).path_views()[i] != old(self).path_views()[j]);
                        } else {
                            assert(self.path_views()[i] == old(self).path_views()[i]);
                            assert(!old(self).contains_path(path@));
                        }
                    };
                    assert(self.well_formed());
                    self.lemma_path_index(path@);
                    assert(self.value_of(path@) == value@);
                    assert forall|p2: Seq<char>| p2 != path@
                        implies self.contains_path(p2) == old(self).contains_path(p2) by {
                        if old(self).contains_path(p2) {
                            old(self).lemma_path_index(p2);
                            let i = old(self).path_views().index_of(p2);
                            assert(self.path_views()[i] == p2);
                        }
                        if self.contains_path(p2) {
                            self.lemma_path_index(p2);
                            let i = self.path_views().index_of(p2);
                            assert(i < self.path_views().len() - 1);
                            assert(old(self).path_views()[i] == p2);
                        }
                    };
                    assert forall|p2: Seq<char>| p2 != path@ && old(self).contains_path(p2)
                        implies self.value_of(p2) == old(self).value_of(p2) by {
                        old(self).lemma_path_index(p2);
                        let i = old(self).path_views().index_of(p2);
                        assert(self.path_views()[i] == p2);
                        self.lemma_path_index(p2);
                    };
                }
            },
        }
    }
}

/// The hierarchical state store: bytes under string paths.
pub struct StateHierarchy {
    data: PathTable,
}

impl StateHierarchy {
    pub closed spec fn contains_path(&self, p: Seq<char>) -> bool {
        self.data.contains_path(p)
    }

    /// The bytes stored under `p`; meaningful only when `contains_path(p)`.
    pub closed spec fn value_of(&self, p: Seq<char>) -> Seq<u8> {
        self.data.value_of(p)
    }

    pub closed spec fn well_formed(&self) -> bool {
        self.data.well_formed()
    }

    pub fn new() -> (r: Self)
        ensures
            r.well_formed(),
            forall|p: Seq<char>| !r.contains_path(p),
    {
        let r = StateHierarchy { data: PathTable::new() };
        proof {
            assert forall|p: Seq<char>| !r.contains_path(p) by {
                if r.data.path_views().contains(p) {
                    let i = choose|i: int|
                        0 <= i < r.data.path_views().len() && r.data.path_views()[i] == p;
                }
            };
        }
        r
    }

    /// Stores `value` under `path`; updates never fail, and every other
    /// path keeps its bytes.
    pub fn update_with_context(&mut self, path: &str, value: Vec<u8>, _context: &UpdateContext)
        -> (r: Result<(), StateError>)
        requires
            old(self).well_formed(),
        ensures
            final(self).well_formed(),
            r is Ok,
            final(self).contains_path(path@),
            final(self).value_of(path@) == value@,
            forall|p2: Seq<char>|
                p2 != path@
                    ==> final(self).contains_path(p2) == old(self).contains_path(p2),
            forall|p2: Seq<char>|
                p2 != path@ && old(self).contains_path(p2)
                    ==> final(self).value_of(p2) == old(self).value_of(p2),
    {
        self.data.store(path, value);
        Ok(())
    }

    /// The bytes under `path`, copied out; lookups never fail, an unknown
    /// path yields nothing.
    pub fn get(&self, path: &str) -> (r: Result<Option<Vec<u8>>, StateError>)
        requires
            self.well_formed(),
        ensures
            match r {
                Ok(Some(v)) => self.contains_path(path@) && v@ == self.value_of(path@),
                Ok(None) => !self.contains_path(path@),
                Err(_) => false,
            },
    {
        Ok(self.data.lookup(path))
    }
}

/// A read cache in front of the state hierarchy, with the same path-keyed
/// contract.
pub struct IntelligentCacheManager {
    cache: PathTable,
}

impl IntelligentCacheManager {
    pub closed spec fn contains_path(&self, p: Seq<char>) -> bool {
        self.cache.contains_path(p)
    }

    /// The cached bytes under `p`; meaningful only when `contains_path(p)`.
    pub closed spec fn value_of(&self, p: Seq<char>) -> Seq<u8> {
        self.cache.value_of(p)
    }

    pub closed spec fn well_formed(&self) -> bool {
        self.cache.well_formed()
    }

    pub fn new() -> (r: Self)
        ensures
            r.well_formed(),
            forall|p: Seq<char>| !r.contains_path(p),
    {
        let r = IntelligentCacheManager { cache: PathTable::new() };
        proof {
            assert forall|p: Seq<char>| !r.contains_path(p) by {
                if r.cache.path_views().contains(p) {
                    let i = choose|i: int|
                        0 <= i < r.cache.path_views().len() && r.cache.path_views()[i] == p;
                }
            };
        }
        r
    }

    /// The cached bytes for `path`, if the cache holds that path.
    pub fn get_optimized(&self, path: &str) -> (r: Option<Vec<u8>>)
        requires
            self.well_formed(),
        ensures
            match r {
                Some(v) => self.contains_path(path@) && v@ == self.value_of(path@),
                None => !self.contains_path(path@),
            },
    {
        self.cache.lookup(path)
    }

    /// Retains `value` for `path`, displacing any earlier bytes for it.
    pub fn store_with_ai_policy(&mut self, path: &str, value: Vec<u8>)
        requires
            old(self).well_formed(),
        ensures
            final(self).well_formed(),
            final(self).contains_path(path@),
            final(self).value_of(path@) == value@,
            forall|p2: Seq<char>|
                p2 != path@
                    ==> final(self).contains_path(p2) == old(self).contains_path(p2),
            forall|p2: Seq<char>|
                p2 != path@ && old(self).contains_path(p2)
                    ==> final(self).value_of(p2) == old(self).value_of(p2),
    {
        self.cache.store(path, value);
    }
}

/// Optimizes state updates before they land in the hierarchy.
pub struct StatePredictionEngine;

impl StatePredictionEngine {
    pub fn new() -> Self {
        StatePredictionEngine
    }
}

/// Detects which protocol a peer speaks.
pub struct ProtocolDetector;

impl ProtocolDetector {
    pub fn new() -> Self {
        ProtocolDetector
    }
}

/// Dispatches synchronization operations to protocol bridges.
pub struct SynchronizationEngine;

impl SynchronizationEngine {
    pub fn new() -> Self {
        SynchronizationEngine
    }

    /// Hands a batch of operations to a bridge and returns the pending
    /// task; the dispatch itself starts out incomplete.
    pub fn execute_protocol_sync(&self, _operations: Vec<SyncOperation>) -> (r: SyncTask)
        ensures
            !r.is_completed(),
    {
        SyncTask::new()
    }
}

} // verus!
