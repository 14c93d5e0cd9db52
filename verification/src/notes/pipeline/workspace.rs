//! What an agent of the notes core works on, and the tools that it can be given.

use vstd::prelude::*;
use crate::harness::error::HarnessError;
use crate::harness::error::HarnessErrorView;
use crate::harness::llm::ToolSpecView;
use crate::harness::memory::Memory;
use crate::harness::memory::MemorySectionView;
use crate::harness::memory::store::MemoryStore;
use crate::harness::memory::store::SaveView;
use crate::harness::memory::tool::memory_updated;
use crate::harness::memory::tool::update_memory_offer;
use crate::harness::memory::tool::UpdateMemoryTool;
use crate::harness::tool::Tool;
use crate::json::Json;
use crate::json::JsonView;
use crate::notes::pipeline::tools::add_item_offer;
use crate::notes::pipeline::tools::AddItemTool;
use crate::notes::pipeline::tools::contact_run;
use crate::notes::pipeline::tools::item_run;
use crate::notes::pipeline::tools::report_run;
use crate::notes::pipeline::tools::upsert_contact_offer;
use crate::notes::pipeline::tools::UpsertContactTool;
use crate::notes::pipeline::tools::write_report_offer;
use crate::notes::pipeline::tools::WriteReportTool;
use crate::notes::store::StampView;
use crate::notes::store::Store;
use crate::notes::store::StoreView;

verus! {

/// The store, the memory and where the memory is kept.
#[derive(Debug)]
pub struct Workspace<M> {
    pub store: Store,
    pub memory: Memory,
    pub memory_store: M,
}

/// The mathematical counterpart of [`Workspace`].
#[verifier::ext_equal]
pub struct WorkView {
    pub store: StoreView,
    pub memory: Seq<MemorySectionView>,
    pub saves: Seq<SaveView>,
}

impl<M: MemoryStore> View for Workspace<M> {
    type V = WorkView;

    open spec fn view(&self) -> WorkView {
        WorkView {
            store: self.store@,
            memory: self.memory@,
            saves: self.memory_store.saves(),
        }
    }
}

impl<M: MemoryStore> Workspace<M> {
    /// Store and memory are in order.
    pub open spec fn wf(&self) -> bool {
        self.store.wf() && self.memory.wf()
    }
}

/// A tool of the notes core.
#[derive(Clone, Debug)]
pub enum NotesTool {
    Item(AddItemTool),
    Contact(UpsertContactTool),
    Report(WriteReportTool),
    Memory(UpdateMemoryTool),
}

/// A tool of the notes core, for a workspace with this kind of memory store.
#[derive(Debug)]
pub struct PipelineTool<M> {
    pub tool: NotesTool,
    pub marker: std::marker::PhantomData<M>,
}

/// How a tool is offered to the model.
pub open spec fn notes_offer(tool: NotesTool) -> ToolSpecView {
    match tool {
        NotesTool::Item(_) => add_item_offer(),
        NotesTool::Contact(_) => upsert_contact_offer(),
        NotesTool::Report(_) => write_report_offer(),
        NotesTool::Memory(_) => update_memory_offer(),
    }
}

/// What one run of a tool may do to a workspace. A tool that writes records
/// leaves the memory alone, and the one that writes the memory leaves the
/// records alone.
pub open spec fn notes_run(
    before: NotesTool,
    work: WorkView,
    input: JsonView,
    after: NotesTool,
    work_after: WorkView,
    result: Result<Seq<char>, HarnessErrorView>,
) -> bool {
    match (before, after) {
        (NotesTool::Item(t), NotesTool::Item(u)) => {
            &&& work_after.memory == work.memory
            &&& work_after.saves == work.saves
            &&& exists|st: StampView| #[trigger]
                work.store.gives(st) && (work_after.store, u@, result) == item_run(
                    work.store,
                    t@,
                    input,
                    st,
                )
        },
        (NotesTool::Contact(t), NotesTool::Contact(u)) => {
            &&& u == t
            &&& work_after.memory == work.memory
            &&& work_after.saves == work.saves
            &&& exists|st: StampView| #[trigger]
                work.store.gives(st) && (work_after.store, result) == contact_run(
                    work.store,
                    input,
                    st,
                )
        },
        (NotesTool::Report(t), NotesTool::Report(u)) => {
            &&& u == t
            &&& work_after.memory == work.memory
            &&& work_after.saves == work.saves
            &&& exists|st: StampView| #[trigger]
                work.store.gives(st) && (work_after.store, result) == report_run(
                    work.store,
                    t@,
                    input,
                    st,
                )
        },
        (NotesTool::Memory(t), NotesTool::Memory(u)) => {
            &&& u == t
            &&& work_after.store == work.store
            &&& exists|now: u64| #[trigger]
                t.clock().shows(now) && memory_updated(
                    work.memory,
                    work.saves,
                    input,
                    now,
                    t.session(),
                    work_after.memory,
                    work_after.saves,
                    result,
                )
        },
        _ => false,
    }
}

impl<M: MemoryStore> PipelineTool<M> {
    /// A tool for such a workspace.
    pub fn new(tool: NotesTool) -> (r: PipelineTool<M>)
        ensures
            r.tool == tool,
    {
        PipelineTool { tool, marker: std::marker::PhantomData }
    }
}

impl<M: MemoryStore> Tool for PipelineTool<M> {
    type Env = Workspace<M>;

    open spec fn ready(env: Workspace<M>) -> bool {
        env.wf()
    }

    open spec fn offered(self) -> ToolSpecView {
        notes_offer(self.tool)
    }

    open spec fn runs(
        before: PipelineTool<M>,
        env: Workspace<M>,
        input: JsonView,
        after: PipelineTool<M>,
        env_after: Workspace<M>,
        result: Result<Seq<char>, HarnessErrorView>,
    ) -> bool {
        notes_run(before.tool, env@, input, after.tool, env_after@, result)
    }

    fn name(&self) -> (r: &str) {
        match &self.tool {
            NotesTool::Item(t) => t.name(),
            NotesTool::Contact(t) => t.name(),
            NotesTool::Report(t) => t.name(),
            NotesTool::Memory(t) => t.name(),
        }
    }

    fn description(&self) -> (r: &str) {
        match &self.tool {
            NotesTool::Item(t) => t.description(),
            NotesTool::Contact(t) => t.description(),
            NotesTool::Report(t) => t.description(),
            NotesTool::Memory(t) => t.description(),
        }
    }

    fn input_schema(&self) -> (r: Json) {
        match &self.tool {
            NotesTool::Item(t) => t.input_schema(),
            NotesTool::Contact(t) => t.input_schema(),
            NotesTool::Report(t) => t.input_schema(),
            NotesTool::Memory(t) => t.input_schema(),
        }
    }

    fn execute(&mut self, env: &mut Workspace<M>, input: &Json) -> (r: Result<
        String,
        HarnessError,
    >) {
        match &mut self.tool {
            NotesTool::Item(t) => t.execute(&mut env.store, input),
            NotesTool::Contact(t) => t.execute(&mut env.store, input),
            NotesTool::Report(t) => t.execute(&mut env.store, input),
            NotesTool::Memory(t) => t.execute(&mut env.memory, &mut env.memory_store, input),
        }
    }
}

} // verus!
