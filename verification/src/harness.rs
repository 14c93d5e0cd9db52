//! The agent harness: model messages, tools, the agent loop, memory and
//! reflection. Nothing here knows about field work.

pub mod agent;
pub mod base_laws;
pub mod context;
pub mod error;
pub mod llm;
pub mod memory;
pub mod mock;
pub mod providers;
pub mod reflection;
pub mod tool;
pub mod turn_laws;
