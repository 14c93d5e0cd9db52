//! Notes for field work: a contractor talks while walking a site, and the talk
//! becomes items, contacts, reports and a document.
//!
//! - [`harness`] runs a language model with tools, and keeps a memory that it
//!   rewrites from time to time. It knows nothing of field work.
//! - [`notes`] holds the records in a store and turns a transcript into them,
//!   first while it is being spoken and then as a whole.
//! - [`bridge`] is what a host application sees of a walk.
//! - [`evals`] grades an extraction against what was expected.
//! - [`stt`] has the small helpers of the transcription bench.
//!
//! Nothing here waits for a model. A run that needs one hands out a request and
//! takes the reply as its next step; whoever calls sends the one and brings the
//! other. Nothing here touches a file either: a store gives out its rows and is
//! restored from them.

pub mod bridge;
pub mod clock;
pub mod evals;
pub mod harness;
pub mod json;
pub mod json_laws;
pub mod notes;
pub mod ratio;
pub mod stt;
pub mod stt_laws;
pub mod text;
pub mod text_laws;
pub mod views;
