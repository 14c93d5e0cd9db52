//! When to reflect, and what a reflection does to memory and store.
//!
//! A reflection replaces the whole memory, so it must not run while a session
//! is active: what the session learned meanwhile would be lost. The order is
//! fixed. The policy is asked, then the recent activity; the memory is saved as
//! it is; the model rewrites it; the new memory is put in place and saved; the
//! signals and the cost are recorded.

use vstd::prelude::*;
use crate::clock::Clock;
use crate::harness::error::HarnessError;
use crate::harness::error::HarnessErrorView;
use crate::harness::llm::CompletionRequest;
use crate::harness::llm::CompletionResponse;
use crate::harness::llm::no_usage;
use crate::harness::llm::ResponseView;
use crate::harness::llm::Usage;
use crate::harness::memory::DEFAULT_WORD_CAP;
use crate::harness::memory::Memory;
use crate::harness::memory::MemorySectionView;
use crate::harness::memory::store::MemoryStore;
use crate::harness::memory::store::SaveView;
use crate::harness::reflection::engine::reflection;
use crate::harness::reflection::engine::reflection_request;
use crate::harness::reflection::engine::ReflectionEngine;
use crate::harness::reflection::engine::ReflectionOutcomeView;
use crate::harness::reflection::policy::ReflectionPolicy;
use crate::notes::error::CoreError;
use crate::notes::error::CoreErrorView;
use crate::notes::pipeline::workspace::WorkView;
use crate::notes::pipeline::workspace::Workspace;
use crate::notes::store::reflection::lists_activity;
use crate::notes::store::reflection::reflected;
use crate::notes::store::StampView;
use crate::notes::store::StoreView;
use crate::notes::store::usage::usage_recorded;
use crate::ratio::Ratio;
use crate::views::result_view;
use crate::views::seq_views;

verus! {

/// Decides when to reflect and carries it out.
#[derive(Clone, Copy, Debug)]
pub struct ReflectionCoordinator {
    /// How the memory is rewritten.
    pub engine: ReflectionEngine,
    pub policy: ReflectionPolicy,
    /// What dates new facts.
    pub clock: Clock,
    /// How many recent sessions one reflection reads.
    pub max_activity_sessions: usize,
}

/// A reflection that waits for the model's reply.
#[derive(Debug)]
pub struct ReflectionRun {
    engine: ReflectionEngine,
    current: Memory,
    now: u64,
    activity: Vec<String>,
}

/// The mathematical counterpart of [`ReflectionRun`].
pub struct ReflectionRunView {
    pub engine: ReflectionEngine,
    /// The memory that is being rewritten.
    pub current: Seq<MemorySectionView>,
    /// When the reflection began.
    pub now: u64,
    pub activity: Seq<Seq<char>>,
}

impl View for ReflectionRun {
    type V = ReflectionRunView;

    closed spec fn view(&self) -> ReflectionRunView {
        ReflectionRunView {
            engine: self.engine,
            current: self.current@,
            now: self.now,
            activity: seq_views(self.activity@),
        }
    }
}

/// What to do next.
#[derive(Debug)]
pub enum ReflectionStep {
    /// No reflection is due.
    Skip,
    /// Send the run's request to the model and hand the reply to the run.
    Ask(ReflectionRun),
}

/// The memory was handed to its store as it is, and nothing else changed.
pub open spec fn snapshot_saved(work: WorkView, work_after: WorkView) -> bool {
    &&& work_after.saves.len() == work.saves.len() + 1
    &&& work_after == (WorkView {
        saves: work.saves.push(
            SaveView { memory: work.memory, outcome: work_after.saves.last().outcome },
        ),
        ..work
    })
}

/// What begins a reflection: nothing, unless the policy asks for one and there
/// is something to read. The memory is saved before the model is asked.
pub open spec fn reflection_begun(
    c: ReflectionCoordinator,
    work: WorkView,
    work_after: WorkView,
    r: Result<ReflectionStep, CoreError>,
) -> bool {
    if !c.policy.due(work.store.signals) {
        &&& work_after == work
        &&& r matches Ok(ReflectionStep::Skip)
    } else {
        exists|activity: Seq<Seq<char>>| #[trigger]
            lists_activity(work.store, c.max_activity_sessions as nat, activity)
                && if activity.len() == 0 {
                &&& work_after == work
                &&& r matches Ok(ReflectionStep::Skip)
            } else {
                &&& snapshot_saved(work, work_after)
                &&& match work_after.saves.last().outcome {
                    Err(e) => r matches Err(err) && err@ == CoreErrorView::Agent(e),
                    Ok(_) => r matches Ok(ReflectionStep::Ask(run)) && run.wf() && c.clock.shows(
                        run@.now,
                    ) && run@ == (ReflectionRunView {
                        engine: c.engine,
                        current: work.memory,
                        now: run@.now,
                        activity,
                    }),
                }
            }
    }
}

/// What a reply does: on failure the memory and the signals stay, and a cost
/// that was incurred is logged; on success the memory is replaced, saved, and
/// the reflection recorded.
pub open spec fn reflection_absorbed(
    outcome: Result<ReflectionOutcomeView, (HarnessErrorView, Usage)>,
    work: WorkView,
    work_after: WorkView,
    r: Result<Ratio, CoreErrorView>,
) -> bool {
    match outcome {
        Err((e, usage)) => {
            &&& r == Err::<Ratio, CoreErrorView>(CoreErrorView::Agent(e))
            &&& if usage == no_usage() {
                work_after == work
            } else {
                exists|st: StampView| #[trigger]
                    work.store.gives(st) && work_after == (WorkView {
                        store: usage_recorded(work.store, None, "reflection"@, usage, st).0,
                        ..work
                    })
            }
        },
        Ok(o) => {
            &&& work_after.saves.len() == work.saves.len() + 1
            &&& work_after.memory == o.memory
            &&& work_after.saves == work.saves.push(
                SaveView { memory: o.memory, outcome: work_after.saves.last().outcome },
            )
            &&& match work_after.saves.last().outcome {
                Err(e) => {
                    &&& work_after.store == work.store
                    &&& r == Err::<Ratio, CoreErrorView>(CoreErrorView::Agent(e))
                },
                Ok(_) => exists|st: StampView| #[trigger]
                    work.store.gives(st) && (work_after.store, r) == reflection_recorded(
                        reflected(work.store, o.churn, o.usage, st),
                        o.churn,
                    ),
            }
        },
    }
}

/// The churn, when the reflection could be recorded.
pub open spec fn reflection_recorded(
    recorded: (StoreView, Result<(), CoreErrorView>),
    churn: Ratio,
) -> (StoreView, Result<Ratio, CoreErrorView>) {
    (
        recorded.0,
        match recorded.1 {
            Ok(_) => Ok(churn),
            Err(e) => Err(e),
        },
    )
}

/// The outcome of a reflection, or what failed and what it cost.
pub open spec fn reflection_outcome(
    engine: ReflectionEngine,
    current: Seq<MemorySectionView>,
    now: u64,
    reply: Result<ResponseView, HarnessErrorView>,
) -> Result<ReflectionOutcomeView, (HarnessErrorView, Usage)> {
    match reflection(engine, current, now, reply) {
        Ok(o) => Ok(o),
        Err(e) => Err((e.source, e.usage)),
    }
}

/// The churn or the failure.
pub open spec fn churn_result(r: Result<Ratio, CoreError>) -> Result<Ratio, CoreErrorView> {
    match r {
        Ok(c) => Ok(c),
        Err(e) => Err(e@),
    }
}

impl ReflectionCoordinator {
    /// Reflections with the usual limits, by the machine's clock.
    pub fn new() -> (r: ReflectionCoordinator)
        ensures
            r.engine.word_cap == DEFAULT_WORD_CAP,
            r.engine.max_tokens == 2048,
            r.policy.warmup_reflections == 5,
            r.policy.low_churn_threshold == (Ratio { num: 1, den: 10 }),
            r.policy.max_interval_sessions == 16,
            r.clock == Clock::System,
            r.max_activity_sessions == 8,
    {
        ReflectionCoordinator {
            engine: ReflectionEngine::new(),
            policy: ReflectionPolicy::default(),
            clock: Clock::System,
            max_activity_sessions: 8,
        }
    }

    /// The same by another clock.
    pub fn with_clock(self, clock: Clock) -> (r: ReflectionCoordinator)
        ensures
            r.engine == self.engine,
            r.policy == self.policy,
            r.clock == clock,
            r.max_activity_sessions == self.max_activity_sessions,
    {
        ReflectionCoordinator {
            engine: self.engine,
            policy: self.policy,
            clock,
            max_activity_sessions: self.max_activity_sessions,
        }
    }

    /// Begins a reflection, if one is due and there is activity to read.
    pub fn maybe_reflect<M: MemoryStore>(&self, work: &mut Workspace<M>) -> (r: Result<
        ReflectionStep,
        CoreError,
    >)
        requires
            old(work).wf(),
        ensures
            final(work).wf(),
            reflection_begun(*self, old(work)@, final(work)@, r),
    {
        let signals = match work.store.reflection_signals() {
            Ok(s) => s,
            Err(e) => {
                return Err(e);
            },
        };
        if !self.policy.should_reflect(&signals) {
            return Ok(ReflectionStep::Skip);
        }
        let activity = match work.store.activity_for_reflection(self.max_activity_sessions) {
            Ok(v) => v,
            Err(e) => {
                return Err(e);
            },
        };
        if activity.len() == 0 {
            assert(seq_views(activity@).len() == 0);
            return Ok(ReflectionStep::Skip);
        }
        assert(seq_views(activity@).len() > 0);
        let current = work.memory.clone();
        if let Err(e) = work.memory_store.save(&current) {
            return Err(CoreError::Agent(e));
        }
        let now: u64 = self.clock.read();
        Ok(ReflectionStep::Ask(ReflectionRun { engine: self.engine, current, now, activity }))
    }
}

impl ReflectionRun {
    /// The memory is in order.
    pub closed spec fn wf(self) -> bool {
        self.current.wf()
    }

    /// The request to send.
    pub fn request(&self) -> (r: CompletionRequest)
        ensures
            r@ == reflection_request(self@.engine, self@.current, self@.activity),
    {
        self.engine.request(&self.current, &self.activity)
    }

    /// Takes the model's reply. Returns the churn of the reflection.
    pub fn advance<M: MemoryStore>(
        self,
        work: &mut Workspace<M>,
        reply: Result<CompletionResponse, HarnessError>,
    ) -> (r: Result<Ratio, CoreError>)
        requires
            self.wf(),
            old(work).wf(),
        ensures
            final(work).wf(),
            reflection_absorbed(
                reflection_outcome(self@.engine, self@.current, self@.now, result_view(reply)),
                old(work)@,
                final(work)@,
                churn_result(r),
            ),
    {
        let outcome = match self.engine.reflect(&self.current, self.now, reply) {
            Ok(o) => o,
            Err(e) => {
                if e.usage != Usage::default() {
                    let _ = work.store.record_llm_usage(None, "reflection", &e.usage);
                }
                return Err(CoreError::Agent(e.source));
            },
        };
        work.memory = outcome.memory.clone();
        if let Err(e) = work.memory_store.save(&outcome.memory) {
            return Err(CoreError::Agent(e));
        }
        match work.store.finish_reflection(outcome.churn, &outcome.usage) {
            Ok(_) => Ok(outcome.churn),
            Err(e) => Err(e),
        }
    }
}

/// A reflection that fails leaves the memory and the signals as they were, and
/// hands nothing more to the memory's store.
pub proof fn law_failed_reflection_keeps_memory_and_signals(
    e: HarnessErrorView,
    usage: Usage,
    work: WorkView,
    work_after: WorkView,
    r: Result<Ratio, CoreErrorView>,
)
    requires
        reflection_absorbed(Err((e, usage)), work, work_after, r),
    ensures
        work_after.memory == work.memory,
        work_after.saves == work.saves,
        work_after.store.signals == work.store.signals,
        r == Err::<Ratio, CoreErrorView>(CoreErrorView::Agent(e)),
{
}

/// The memory is saved as it is before it is rewritten: there is always a way
/// back.
pub proof fn law_snapshot_comes_first(
    c: ReflectionCoordinator,
    work: WorkView,
    work_after: WorkView,
    r: Result<ReflectionStep, CoreError>,
)
    requires
        reflection_begun(c, work, work_after, r),
        r matches Ok(ReflectionStep::Ask(_)),
    ensures
        work_after.memory == work.memory,
        work_after.store == work.store,
        work_after.saves.len() == work.saves.len() + 1,
        work_after.saves.last().memory == work.memory,
        work_after.saves.last().outcome is Ok,
{
}

/// A recorded reflection resets the cadence: no second one is due until another
/// session has been completed.
pub proof fn law_recorded_reflection_is_not_due_again(
    policy: ReflectionPolicy,
    o: ReflectionOutcomeView,
    work: WorkView,
    work_after: WorkView,
    r: Result<Ratio, CoreErrorView>,
)
    requires
        reflection_absorbed(Ok(o), work, work_after, r),
        r is Ok,
    ensures
        !policy.due(work_after.store.signals),
        r == Ok::<Ratio, CoreErrorView>(o.churn),
        work_after.memory == o.memory,
{
}

} // verus!
