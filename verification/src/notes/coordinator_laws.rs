//! When a reflection happens and what it leaves behind.

use vstd::prelude::*;
use crate::harness::error::HarnessError;
use crate::harness::llm::CompletionResponse;
use crate::harness::memory::store::MemoryStore;
use crate::harness::reflection::engine::reflection;
use crate::notes::coordinator::ReflectionCoordinator;
use crate::notes::coordinator::ReflectionRun;
use crate::notes::coordinator::ReflectionStep;
use crate::notes::error::CoreError;
use crate::notes::pipeline::workspace::Workspace;
use crate::ratio::Ratio;
use crate::views::result_view;

verus! {

/// A reflection is begun only after a session. Before the model is asked, the
/// memory is saved as it is, and the model is asked only once that succeeded;
/// nothing else changes.
pub proof fn law_maybe_reflect<M: MemoryStore>(
    c: &ReflectionCoordinator,
    work: &mut Workspace<M>,
    r: Result<ReflectionStep, CoreError>,
)
    requires
        old(work).wf(),
        call_ensures(ReflectionCoordinator::maybe_reflect::<M>, (c, work), r),
    ensures
        final(work)@.store == old(work)@.store,
        final(work)@.memory == old(work)@.memory,
        old(work)@.store.signals.sessions == 0 ==> (r matches Ok(ReflectionStep::Skip)),
        (r matches Ok(ReflectionStep::Skip)) ==> final(work)@ == old(work)@,
        (r matches Ok(ReflectionStep::Ask(_))) || r is Err ==> {
            let saves = final(work)@.saves;
            &&& saves.len() == old(work)@.saves.len() + 1
            &&& saves.last().memory == old(work)@.memory
            &&& r is Ok <==> saves.last().outcome is Ok
        },
        r matches Ok(ReflectionStep::Ask(run)) ==> {
            &&& run@.current == old(work)@.memory
            &&& run@.engine == c.engine
            &&& 0 < run@.activity.len() <= c.max_activity_sessions
            &&& c.clock.shows(run@.now)
        },
{
}

/// A reply that cannot be used leaves the memory and the counters alone. One that
/// can is the new memory, which is saved; once it is, the counters start again, the
/// churn is noted and the cost is logged.
pub proof fn law_reflection_reply<M: MemoryStore>(
    run: ReflectionRun,
    work: &mut Workspace<M>,
    reply: Result<CompletionResponse, HarnessError>,
    r: Result<Ratio, CoreError>,
)
    requires
        run.wf(),
        old(work).wf(),
        call_ensures(ReflectionRun::advance::<M>, (run, work, reply), r),
    ensures
        ({
            let v = old(work)@;
            let w = final(work)@;
            let made = reflection(run@.engine, run@.current, run@.now, result_view(reply));
            &&& made is Err ==> r is Err && w.memory == v.memory && w.saves == v.saves
                && w.store.signals == v.store.signals && w.store.sessions == v.store.sessions
            &&& made matches Ok(o) ==> {
                &&& w.memory == o.memory
                &&& w.saves.len() == v.saves.len() + 1
                &&& w.saves.last().memory == o.memory
                &&& w.saves.last().outcome is Err ==> r is Err && w.store == v.store
                &&& r is Err ==> w.store.signals == v.store.signals
                &&& r matches Ok(churn) ==> {
                    &&& churn == o.churn
                    &&& w.store.signals.sessions == 0
                    &&& w.store.signals.corrections == 0
                    &&& w.store.signals.churn == v.store.signals.churn.push(churn)
                    &&& v.store.signals.completed < u32::MAX ==> w.store.signals.completed
                        == v.store.signals.completed + 1
                    &&& w.store.usage.len() == v.store.usage.len() + 1
                    &&& w.store.usage.last().purpose == "reflection"@
                    &&& w.store.usage.last().session_id is None
                    &&& w.store.usage.last().input_tokens == o.usage.input_tokens
                    &&& w.store.usage.last().output_tokens == o.usage.output_tokens
                    &&& w.store.sessions == v.store.sessions
                }
            }
        }),
{
}

/// The usual pace: five reflections to warm up, calm below a tenth, at most sixteen
/// sessions apart, eight sessions read at a time.
pub proof fn law_usual_coordinator(r: ReflectionCoordinator)
    requires
        call_ensures(ReflectionCoordinator::new, (), r),
    ensures
        r.policy.warmup_reflections == 5,
        r.policy.low_churn_threshold.num * 10 == r.policy.low_churn_threshold.den,
        r.policy.low_churn_threshold.den > 0,
        r.policy.max_interval_sessions == 16,
        r.max_activity_sessions == 8,
        r.engine.max_tokens == 2048,
{
}

} // verus!
