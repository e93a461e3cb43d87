//! Consistency engine of a validator registry for a proof-of-stake beacon chain.
//!
//! The crate holds the registry's data model, the in-memory storage back-end, the
//! payload-attribute to epoch-transition transform, the reconciliation rules of the
//! sync engine and the decisions of the action dispatcher.

pub mod primitives;
pub mod digest;
pub mod keyed;
pub mod records;
pub mod chain;
pub mod db;
pub mod sync;
pub mod registry;
pub mod beacon;
pub mod sources;
pub mod api;
