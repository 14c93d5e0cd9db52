//! What a host application sees: documents, board items and walk sessions.

pub mod convert;
pub mod engine;
pub mod laws;
pub mod op_laws;
pub mod walk;
