//! Processing every session that waits for it, one after another.

use vstd::prelude::*;
use crate::harness::error::HarnessError;
use crate::harness::error::HarnessErrorView;
use crate::harness::llm::CompletionRequest;
use crate::harness::llm::CompletionResponse;
use crate::harness::llm::ResponseView;
use crate::harness::memory::store::MemoryStore;
use crate::notes::error::CoreError;
use crate::notes::error::CoreErrorView;
use crate::notes::pipeline::processor::lists_pending;
use crate::notes::pipeline::processor::pending_ids;
use crate::notes::pipeline::processor::process_advanced;
use crate::notes::pipeline::processor::process_begun;
use crate::notes::pipeline::processor::process_request;
use crate::notes::pipeline::processor::ProcessOutcome;
use crate::notes::pipeline::processor::ProcessOutcomeView;
use crate::notes::pipeline::processor::ProcessRun;
use crate::notes::pipeline::processor::ProcessRunView;
use crate::notes::pipeline::processor::ProcessStep;
use crate::notes::pipeline::processor::ProcessStepView;
use crate::notes::pipeline::processor::SessionProcessor;
use crate::notes::pipeline::workspace::WorkView;
use crate::notes::pipeline::workspace::Workspace;
use crate::views::result_view;
use crate::views::seq_views;

verus! {

/// A session and what came of processing it.
pub type Processed = (String, Result<ProcessOutcome, CoreError>);

/// A session and what came of processing it, over views.
pub type ProcessedView = (Seq<char>, Result<ProcessOutcomeView, CoreErrorView>);

/// The views of what came of several sessions.
pub open spec fn processed_views(results: Seq<Processed>) -> Seq<ProcessedView> {
    Seq::new(results.len(), |i: int| (results[i].0@, result_view(results[i].1)))
}

/// The sessions of some results.
pub open spec fn sessions_of(results: Seq<ProcessedView>) -> Seq<Seq<char>> {
    Seq::new(results.len(), |i: int| results[i].0)
}

/// A run over the queue that waits for the model's reply.
pub struct PendingRun<M> {
    processor: SessionProcessor,
    waiting: Vec<String>,
    session_id: String,
    run: ProcessRun<M>,
    results: Vec<Processed>,
}

/// The mathematical counterpart of [`PendingRun`].
pub struct PendingRunView<M> {
    pub processor: SessionProcessor,
    /// The sessions whose turn has not come, in order.
    pub waiting: Seq<Seq<char>>,
    /// The session that is being processed.
    pub session_id: Seq<char>,
    pub run: ProcessRunView<M>,
    /// What came of the sessions before it.
    pub results: Seq<ProcessedView>,
}

impl<M: MemoryStore> View for PendingRun<M> {
    type V = PendingRunView<M>;

    closed spec fn view(&self) -> PendingRunView<M> {
        PendingRunView {
            processor: self.processor,
            waiting: seq_views(self.waiting@),
            session_id: self.session_id@,
            run: self.run@,
            results: processed_views(self.results@),
        }
    }
}

/// What to do next.
pub enum PendingStep<M> {
    /// Send the run's request to the model and hand back the reply.
    Ask(PendingRun<M>),
    /// Every session had its turn.
    Done(Vec<Processed>),
}

/// What to do next, over views.
pub enum PendingStepView<M> {
    Ask(PendingRunView<M>),
    Done(Seq<ProcessedView>),
}

impl<M: MemoryStore> View for PendingStep<M> {
    type V = PendingStepView<M>;

    open spec fn view(&self) -> PendingStepView<M> {
        match self {
            PendingStep::Ask(run) => PendingStepView::Ask(run@),
            PendingStep::Done(results) => PendingStepView::Done(processed_views(results@)),
        }
    }
}

/// The sessions are begun in turn, until one needs the model or none is left.
/// One that fails does not keep the next from its turn.
pub open spec fn drained<M: MemoryStore>(
    processor: SessionProcessor,
    waiting: Seq<Seq<char>>,
    results: Seq<ProcessedView>,
    work: WorkView,
    work_after: WorkView,
    step: PendingStepView<M>,
) -> bool
    decreases waiting.len(),
{
    if waiting.len() == 0 {
        &&& work_after == work
        &&& step == PendingStepView::<M>::Done(results)
    } else {
        exists|mid: WorkView, begun: ProcessStepView<M>| #[trigger]
            process_begun(processor, work, waiting[0], mid, begun) && match begun {
                ProcessStepView::Ask(run) => {
                    &&& work_after == mid
                    &&& step == PendingStepView::Ask(
                        PendingRunView {
                            processor,
                            waiting: waiting.drop_first(),
                            session_id: waiting[0],
                            run,
                            results,
                        },
                    )
                },
                ProcessStepView::Done(r) => drained(
                    processor,
                    waiting.drop_first(),
                    results.push((waiting[0], r)),
                    mid,
                    work_after,
                    step,
                ),
            }
    }
}

/// What a reply does to a run over the queue: it goes to the session that is
/// being processed, and when that one is done the next has its turn.
pub open spec fn pending_advanced<M: MemoryStore>(
    p: PendingRunView<M>,
    before: Workspace<M>,
    reply: Result<ResponseView, HarnessErrorView>,
    after: Workspace<M>,
    step: PendingStepView<M>,
) -> bool {
    exists|mid: Workspace<M>, advanced: ProcessStepView<M>| #[trigger]
        process_advanced(p.run, before, reply, mid, advanced) && match advanced {
            ProcessStepView::Ask(run) => {
                &&& after@ == mid@
                &&& step == PendingStepView::Ask(PendingRunView { run, ..p })
            },
            ProcessStepView::Done(r) => drained(
                p.processor,
                p.waiting,
                p.results.push((p.session_id, r)),
                mid@,
                after@,
                step,
            ),
        }
}

/// Gives the sessions their turns.
fn drain<M: MemoryStore>(
    processor: SessionProcessor,
    queue: Vec<String>,
    earlier: Vec<Processed>,
    work: &mut Workspace<M>,
) -> (r: PendingStep<M>)
    requires
        old(work).wf(),
    ensures
        final(work).wf(),
        r.wf(),
        drained(
            processor,
            seq_views(queue@),
            processed_views(earlier@),
            old(work)@,
            final(work)@,
            r@,
        ),
{
    let ghost all = seq_views(queue@);
    let ghost first = processed_views(earlier@);
    let mut waiting = queue;
    let mut results = earlier;
    while waiting.len() > 0
        invariant
            work.wf(),
            all == seq_views(queue@),
            first == processed_views(earlier@),
            forall|w: WorkView, s: PendingStepView<M>| #[trigger]
                drained(processor, seq_views(waiting@), processed_views(results@), work@, w, s)
                    ==> drained(processor, all, first, old(work)@, w, s),
        decreases waiting.len(),
    {
        let ghost now = seq_views(waiting@);
        let ghost done = processed_views(results@);
        let ghost before = work@;
        let session_id = waiting.remove(0);
        assert(seq_views(waiting@) =~= now.drop_first());
        let step = processor.process(work, session_id.as_str());
        assert(process_begun(processor, before, now[0], work@, step@));
        match step {
            ProcessStep::Ask(run) => {
                let r = PendingStep::Ask(
                    PendingRun { processor, waiting, session_id, run, results },
                );
                assert(drained(processor, now, done, before, work@, r@));
                return r;
            },
            ProcessStep::Done(outcome) => {
                let ghost one = (session_id@, result_view(outcome));
                results.push((session_id, outcome));
                assert(processed_views(results@) =~= done.push(one));
                assert forall|w: WorkView, s: PendingStepView<M>| #[trigger]
                    drained(
                        processor,
                        seq_views(waiting@),
                        processed_views(results@),
                        work@,
                        w,
                        s,
                    ) implies drained(processor, all, first, old(work)@, w, s) by {
                    assert(drained(processor, now, done, before, w, s));
                }
            },
        }
    }
    let r = PendingStep::Done(results);
    assert(drained(processor, seq_views(waiting@), processed_views(results@), work@, work@, r@));
    r
}

impl SessionProcessor {
    /// Begins to process every session that waits for it, the newest first.
    pub fn process_pending<M: MemoryStore>(&self, work: &mut Workspace<M>) -> (r: Result<
        PendingStep<M>,
        CoreError,
    >)
        requires
            old(work).wf(),
        ensures
            final(work).wf(),
            r matches Ok(step) && step.wf() && exists|ids: Seq<Seq<char>>| #[trigger]
                lists_pending(old(work)@.store, ids) && drained(
                    *self,
                    ids,
                    Seq::empty(),
                    old(work)@,
                    final(work)@,
                    step@,
                ),
    {
        let ids = match pending_ids(&work.store) {
            Ok(ids) => ids,
            Err(e) => {
                return Err(e);
            },
        };
        let none: Vec<Processed> = Vec::new();
        assert(processed_views(none@) =~= Seq::empty());
        Ok(drain(*self, ids, none, work))
    }
}

impl<M: MemoryStore> PendingStep<M> {
    /// A step that can be taken.
    pub open spec fn wf(&self) -> bool {
        match self {
            PendingStep::Ask(run) => run.wf(),
            PendingStep::Done(_) => true,
        }
    }
}

impl<M: MemoryStore> PendingRun<M> {
    /// The run of the present session is in order.
    pub closed spec fn wf(&self) -> bool {
        self.run.wf()
    }

    /// The session that is being processed.
    pub fn session_id(&self) -> (r: &str)
        ensures
            r@ == self@.session_id,
    {
        self.session_id.as_str()
    }

    /// The request to send.
    pub fn request(&self) -> (r: &CompletionRequest)
        requires
            self.wf(),
        ensures
            r@ == process_request(self@.run),
    {
        self.run.request()
    }

    /// Takes the model's reply and says what to do next.
    pub fn advance(
        self,
        work: &mut Workspace<M>,
        reply: Result<CompletionResponse, HarnessError>,
    ) -> (r: PendingStep<M>)
        requires
            self.wf(),
            old(work).wf(),
        ensures
            final(work).wf(),
            r.wf(),
            pending_advanced(self@, *old(work), result_view(reply), *final(work), r@),
    {
        let ghost p = self@;
        let ghost before = *work;
        let ghost answer = result_view(reply);
        let step = self.run.advance(work, reply);
        let ghost mid = *work;
        assert(process_advanced(p.run, before, answer, mid, step@));
        match step {
            ProcessStep::Ask(run) => PendingStep::Ask(
                PendingRun {
                    processor: self.processor,
                    waiting: self.waiting,
                    session_id: self.session_id,
                    run,
                    results: self.results,
                },
            ),
            ProcessStep::Done(outcome) => {
                let mut results = self.results;
                let ghost one = (self.session_id@, result_view(outcome));
                results.push((self.session_id, outcome));
                assert(processed_views(results@) =~= p.results.push(one));
                drain(self.processor, self.waiting, results, work)
            },
        }
    }
}

/// The sessions that a step accounts for: those that had their turn, the one
/// that is being processed, and those that wait.
pub open spec fn accounted<M>(step: PendingStepView<M>) -> Seq<Seq<char>> {
    match step {
        PendingStepView::Ask(p) => sessions_of(p.results).push(p.session_id) + p.waiting,
        PendingStepView::Done(results) => sessions_of(results),
    }
}

/// No session of the queue is lost, and none has two turns: a step accounts for
/// exactly those that had their turn and those that waited, in their order.
pub proof fn law_every_session_has_its_turn<M: MemoryStore>(
    processor: SessionProcessor,
    waiting: Seq<Seq<char>>,
    results: Seq<ProcessedView>,
    work: WorkView,
    work_after: WorkView,
    step: PendingStepView<M>,
)
    requires
        drained(processor, waiting, results, work, work_after, step),
    ensures
        accounted(step) == sessions_of(results) + waiting,
    decreases waiting.len(),
{
    if waiting.len() == 0 {
        assert(sessions_of(results) + waiting =~= sessions_of(results));
    } else {
        let (mid, begun) = choose|mid: WorkView, begun: ProcessStepView<M>| #[trigger]
            process_begun(processor, work, waiting[0], mid, begun) && match begun {
                ProcessStepView::Ask(run) => {
                    &&& work_after == mid
                    &&& step == PendingStepView::Ask(
                        PendingRunView {
                            processor,
                            waiting: waiting.drop_first(),
                            session_id: waiting[0],
                            run,
                            results,
                        },
                    )
                },
                ProcessStepView::Done(r) => drained(
                    processor,
                    waiting.drop_first(),
                    results.push((waiting[0], r)),
                    mid,
                    work_after,
                    step,
                ),
            };
        match begun {
            ProcessStepView::Ask(_) => {
                assert(accounted(step) =~= sessions_of(results) + waiting);
            },
            ProcessStepView::Done(r) => {
                let more = results.push((waiting[0], r));
                law_every_session_has_its_turn(
                    processor,
                    waiting.drop_first(),
                    more,
                    mid,
                    work_after,
                    step,
                );
                assert(sessions_of(more) + waiting.drop_first() =~= sessions_of(results)
                    + waiting);
            },
        }
    }
}

/// A reply loses no session either, whatever comes of the one that it is for.
pub proof fn law_reply_loses_no_session<M: MemoryStore>(
    p: PendingRunView<M>,
    before: Workspace<M>,
    reply: Result<ResponseView, HarnessErrorView>,
    after: Workspace<M>,
    step: PendingStepView<M>,
)
    requires
        pending_advanced(p, before, reply, after, step),
    ensures
        accounted(step) == accounted(PendingStepView::Ask(p)),
{
    let (mid, advanced) = choose|mid: Workspace<M>, advanced: ProcessStepView<M>| #[trigger]
        process_advanced(p.run, before, reply, mid, advanced) && match advanced {
            ProcessStepView::Ask(run) => {
                &&& after@ == mid@
                &&& step == PendingStepView::Ask(PendingRunView { run, ..p })
            },
            ProcessStepView::Done(r) => drained(
                p.processor,
                p.waiting,
                p.results.push((p.session_id, r)),
                mid@,
                after@,
                step,
            ),
        };
    if let ProcessStepView::Done(r) = advanced {
        let more = p.results.push((p.session_id, r));
        law_every_session_has_its_turn(p.processor, p.waiting, more, mid@, after@, step);
        assert(sessions_of(more) =~= sessions_of(p.results).push(p.session_id));
    }
}

} // verus!
