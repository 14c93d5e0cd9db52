//! What can go wrong while an agent runs.

use vstd::prelude::*;
use crate::text::concat2;
use crate::text::decimal;
use crate::text::decimal_text;

verus! {

/// A failure of the provider, of a tool, or of the run as a whole.
#[derive(Debug)]
pub enum HarnessError {
    /// The model could not be reached, or answered something unusable.
    Provider(String),
    /// The model asked for a tool that is not registered.
    UnknownTool(String),
    /// A tool refused its input or failed.
    Tool { name: String, message: String },
    /// The agent used up its turns without finishing.
    MaxTurns(usize),
}

/// The mathematical counterpart of [`HarnessError`].
pub enum HarnessErrorView {
    Provider(Seq<char>),
    UnknownTool(Seq<char>),
    Tool { name: Seq<char>, message: Seq<char> },
    MaxTurns(int),
}

impl View for HarnessError {
    type V = HarnessErrorView;

    open spec fn view(&self) -> HarnessErrorView {
        match self {
            HarnessError::Provider(m) => HarnessErrorView::Provider(m@),
            HarnessError::UnknownTool(n) => HarnessErrorView::UnknownTool(n@),
            HarnessError::Tool { name, message } => HarnessErrorView::Tool {
                name: name@,
                message: message@,
            },
            HarnessError::MaxTurns(n) => HarnessErrorView::MaxTurns(*n as int),
        }
    }
}

impl HarnessErrorView {
    /// The one-line message of the error.
    pub open spec fn message(self) -> Seq<char> {
        match self {
            HarnessErrorView::Provider(m) => "provider error: "@ + m,
            HarnessErrorView::UnknownTool(n) => "unknown tool: "@ + n,
            HarnessErrorView::Tool { name, message } => "tool '"@ + name + "' failed: "@ + message,
            HarnessErrorView::MaxTurns(n) => "agent exceeded max turns ("@ + decimal(n as nat)
                + ")"@,
        }
    }
}

impl Clone for HarnessError {
    fn clone(&self) -> (r: HarnessError)
        ensures
            r@ == self@,
    {
        match self {
            HarnessError::Provider(m) => HarnessError::Provider(m.clone()),
            HarnessError::UnknownTool(n) => HarnessError::UnknownTool(n.clone()),
            HarnessError::Tool { name, message } => HarnessError::Tool {
                name: name.clone(),
                message: message.clone(),
            },
            HarnessError::MaxTurns(n) => HarnessError::MaxTurns(*n),
        }
    }
}

impl HarnessError {
    /// The one-line message of the error.
    pub fn to_text(&self) -> (r: String)
        ensures
            r@ == self@.message(),
    {
        match self {
            HarnessError::Provider(m) => concat2("provider error: ", m.as_str()),
            HarnessError::UnknownTool(n) => concat2("unknown tool: ", n.as_str()),
            HarnessError::Tool { name, message } => {
                let mut out = concat2("tool '", name.as_str());
                out.append("' failed: ");
                out.append(message.as_str());
                out
            },
            HarnessError::MaxTurns(n) => {
                let mut out = concat2(
                    "agent exceeded max turns (",
                    decimal_text(*n as u64).as_str(),
                );
                out.append(")");
                out
            },
        }
    }

    /// A tool's failure.
    pub fn tool(name: &str, message: String) -> (r: HarnessError)
        ensures
            r@ == (HarnessErrorView::Tool { name: name@, message: message@ }),
    {
        HarnessError::Tool { name: name.to_string(), message }
    }
}

} // verus!
