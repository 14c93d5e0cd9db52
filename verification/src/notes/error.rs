//! What can go wrong in the notes core.

use vstd::prelude::*;
use crate::harness::error::HarnessError;
use crate::harness::error::HarnessErrorView;
use crate::text::concat2;

verus! {

/// A failure of the store or of a pass over it.
#[derive(Debug)]
pub enum CoreError {
    /// No live row with this id.
    NotFound { entity: &'static str, id: String },
    /// The row is in a state that does not allow the operation.
    InvalidState(String),
    /// A stored value that no version of the program writes.
    Corrupt(String),
    /// The storage refused a write.
    Storage(String),
    /// The agent or the model failed.
    Agent(HarnessError),
}

/// The mathematical counterpart of [`CoreError`].
pub enum CoreErrorView {
    NotFound { entity: Seq<char>, id: Seq<char> },
    InvalidState(Seq<char>),
    Corrupt(Seq<char>),
    Storage(Seq<char>),
    Agent(HarnessErrorView),
}

impl View for CoreError {
    type V = CoreErrorView;

    open spec fn view(&self) -> CoreErrorView {
        match self {
            CoreError::NotFound { entity, id } => CoreErrorView::NotFound {
                entity: entity@,
                id: id@,
            },
            CoreError::InvalidState(m) => CoreErrorView::InvalidState(m@),
            CoreError::Corrupt(m) => CoreErrorView::Corrupt(m@),
            CoreError::Storage(m) => CoreErrorView::Storage(m@),
            CoreError::Agent(e) => CoreErrorView::Agent(e@),
        }
    }
}

impl CoreErrorView {
    /// The one-line message of the error.
    pub open spec fn message(self) -> Seq<char> {
        match self {
            CoreErrorView::NotFound { entity, id } => entity + " not found: "@ + id,
            CoreErrorView::InvalidState(m) => "invalid state: "@ + m,
            CoreErrorView::Corrupt(m) => "corrupt data: "@ + m,
            CoreErrorView::Storage(m) => "storage error: "@ + m,
            CoreErrorView::Agent(e) => "agent error: "@ + e.message(),
        }
    }
}

impl CoreError {
    /// The one-line message of the error.
    pub fn to_text(&self) -> (r: String)
        ensures
            r@ == self@.message(),
    {
        match self {
            CoreError::NotFound { entity, id } => {
                let mut out = concat2(entity, " not found: ");
                out.append(id.as_str());
                out
            },
            CoreError::InvalidState(m) => concat2("invalid state: ", m.as_str()),
            CoreError::Corrupt(m) => concat2("corrupt data: ", m.as_str()),
            CoreError::Storage(m) => concat2("storage error: ", m.as_str()),
            CoreError::Agent(e) => concat2("agent error: ", e.to_text().as_str()),
        }
    }
}

} // verus!
