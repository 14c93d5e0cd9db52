//! Field-work notes: the domain, its store, and the passes that turn a spoken
//! session into records.

pub mod coordinator;
pub mod coordinator_laws;
pub mod domain;
pub mod domain_laws;
pub mod error;
pub mod pipeline;
pub mod store;
