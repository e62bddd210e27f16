//! Core logic of an ITIL-style service-management backend: tri-state patch
//! fields for partial updates, per-entity validation and merge semantics,
//! derived incident priority, and the repository operations over in-memory
//! tables, each with a verified contract.

pub mod changes;
pub mod common;
pub mod configitems;
pub mod configuration;
pub mod error;
pub mod incidents;
pub mod json;
pub mod patch;
pub mod problems;
