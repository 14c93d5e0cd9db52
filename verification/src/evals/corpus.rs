//! What a scenario expects.

use vstd::prelude::*;
use crate::views::option_view;
use crate::views::seq_views;

verus! {

/// An item that should have been extracted.
#[derive(Clone, Debug, PartialEq, Eq)]
pub struct ExpectedItem {
    pub kind: String,
    pub text: String,
}

/// A kind and a text.
pub struct ItemView {
    pub kind: Seq<char>,
    pub text: Seq<char>,
}

impl View for ExpectedItem {
    type V = ItemView;

    open spec fn view(&self) -> ItemView {
        ItemView { kind: self.kind@, text: self.text@ }
    }
}

/// A person who should have been saved.
#[derive(Clone, Debug, PartialEq, Eq)]
pub struct ExpectedContact {
    pub name: String,
    /// Checked only when it is given.
    pub trade: Option<String>,
}

/// A name and perhaps a trade.
pub struct PersonView {
    pub name: Seq<char>,
    pub trade: Option<Seq<char>>,
}

impl View for ExpectedContact {
    type V = PersonView;

    open spec fn view(&self) -> PersonView {
        PersonView { name: self.name@, trade: option_view(self.trade) }
    }
}

/// Everything that a scenario expects.
#[derive(Clone, Debug, PartialEq, Eq)]
pub struct GroundTruth {
    pub items: Vec<ExpectedItem>,
    pub contacts: Vec<ExpectedContact>,
    /// Chatter that must not become an item.
    pub distractors: Vec<String>,
    pub expects_summary: bool,
}

/// The mathematical counterpart of [`GroundTruth`].
pub struct TruthView {
    pub items: Seq<ItemView>,
    pub contacts: Seq<PersonView>,
    pub distractors: Seq<Seq<char>>,
    pub expects_summary: bool,
}

impl View for GroundTruth {
    type V = TruthView;

    open spec fn view(&self) -> TruthView {
        TruthView {
            items: seq_views(self.items@),
            contacts: seq_views(self.contacts@),
            distractors: seq_views(self.distractors@),
            expects_summary: self.expects_summary,
        }
    }
}

} // verus!
