//! From a transcript to records: the tools, the live pass and the processing
//! at the end of a session.

pub mod document;
pub mod document_laws;
pub mod laws;
pub mod live;
pub mod live_laws;
pub mod processor;
pub mod prompts;
pub mod queue;
pub mod run_laws;
pub mod tool_laws;
pub mod tools;
pub mod whole;
pub mod workspace;
