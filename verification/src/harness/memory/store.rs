//! Where a memory is kept between runs.

use vstd::prelude::*;
use crate::harness::error::HarnessError;
use crate::harness::error::HarnessErrorView;
use crate::harness::memory::Memory;
use crate::harness::memory::MemorySectionView;
use crate::views::unit_result;

verus! {

/// One attempt to save a memory: what was handed over, and what came of it.
pub struct SaveView {
    pub memory: Seq<MemorySectionView>,
    pub outcome: Result<(), HarnessErrorView>,
}

/// The attempts to save a memory, oldest first.
pub type SavesView = Seq<SaveView>;

/// Where a memory is kept between runs. Saving may fail.
pub trait MemoryStore: Sized {
    /// The attempts to save so far, oldest first.
    spec fn saves(self) -> SavesView;

    /// Reads the kept memory back.
    fn load(&self) -> (r: Result<Memory, HarnessError>)
        ensures
            r matches Ok(m) ==> m.wf(),
    ;

    /// Keeps a memory in place of the one before.
    fn save(&mut self, memory: &Memory) -> (r: Result<(), HarnessError>)
        requires
            memory.wf(),
        ensures
            final(self).saves() == old(self).saves().push(
                SaveView { memory: memory@, outcome: unit_result(r) },
            ),
    ;
}

} // verus!
