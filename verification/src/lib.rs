//! Runtime core of an entity-component engine for simulated worlds.
//!
//! The crate owns the live entities of a world, the components attached to
//! them, and the per-frame machinery that decides which update routines run
//! and in what order.  Storage is dense/sparse with slot reuse, queries are
//! memoized in an invalidation-driven cache, and the scheduler orders systems
//! by priority under a frame-time budget.
//!
//! Every operation is specified by a contract and verified; time, wall clocks
//! and the actual execution of user update routines stay outside and reach the
//! library as plain values.

use vstd::prelude::*;

pub mod keyed;
pub mod store;
pub mod query;
pub mod world;
pub mod scheduler;
pub mod strutil;
pub mod orchestration;
pub mod state;
pub mod protocol;

verus! {

/// Universal entity identifier; the value 0 is never issued and stands for
/// "invalid".
pub type EntityId = u64;

/// Identifier of a component kind, stable for the process lifetime, used to
/// key storage and queries.
pub type ComponentTypeId = u64;

} // verus!
