//! Reflection: rewriting the long-term memory, and when to do it.

pub mod change_laws;
pub mod churn;
pub mod engine;
pub mod laws;
pub mod policy;
