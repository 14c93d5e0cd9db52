//! A walk: one recording session as the host application drives it.
//!
//! Transcript goes in piece by piece. After each piece a pass may lift items
//! onto the board. Finishing ends the session, processes it and gives back a
//! document; whatever goes wrong, there is always a document to show, and
//! nothing that was captured is lost.

use vstd::prelude::*;
use crate::bridge::convert::board_item;
use crate::bridge::convert::board_view;
use crate::bridge::convert::BoardItem;
use crate::bridge::convert::BoardItemView;
use crate::bridge::convert::document_of;
use crate::bridge::convert::document_payload;
use crate::bridge::convert::DocumentPayload;
use crate::bridge::convert::DocumentView;
use crate::bridge::convert::partial_document;
use crate::bridge::convert::partial_document_from_items;
use crate::harness::error::HarnessError;
use crate::harness::llm::CompletionResponse;
use crate::harness::memory::store::MemoryStore;
use crate::notes::domain::CapturedItem;
use crate::notes::domain::CapturedItemView;
use crate::notes::error::CoreError;
use crate::notes::error::CoreErrorView;
use crate::notes::pipeline::live::LiveExtractOutcome;
use crate::notes::pipeline::live::LiveExtractor;
use crate::notes::pipeline::live::LiveExtractorView;
use crate::notes::pipeline::live::LiveRun;
use crate::notes::pipeline::live::LiveStep;
use crate::notes::pipeline::live::LiveStepView;
use crate::notes::pipeline::live::pass_advanced;
use crate::notes::pipeline::live::pass_begun;
use crate::notes::pipeline::processor::default_processor;
use crate::notes::pipeline::processor::doc_kind_for_template;
use crate::notes::pipeline::processor::doc_kind_of;
use crate::notes::pipeline::processor::process_advanced;
use crate::notes::pipeline::processor::process_begun;
use crate::notes::pipeline::processor::ProcessOutcome;
use crate::notes::pipeline::processor::ProcessOutcomeView;
use crate::notes::pipeline::processor::ProcessRun;
use crate::notes::pipeline::processor::ProcessStep;
use crate::notes::pipeline::processor::ProcessStepView;
use crate::notes::pipeline::processor::SessionProcessor;
use crate::notes::pipeline::workspace::WorkView;
use crate::notes::pipeline::workspace::Workspace;
use crate::notes::store::artifacts::latest_document;
use crate::notes::store::items::lists_items;
use crate::notes::store::items::of_session;
use crate::notes::store::outcomes::ended_and_recorded;
use crate::notes::store::sessions::appended;
use crate::notes::store::Store;
use crate::notes::store::StoreView;
use crate::views::option_view;
use crate::views::result_view;
use crate::views::seq_views;

verus! {

/// What the host application is told.
#[derive(Clone, Debug, PartialEq, Eq)]
pub enum WalkEvent {
    /// The board as it now is, as a whole.
    BoardUpdated { items: Vec<BoardItem> },
}

impl View for WalkEvent {
    type V = Seq<BoardItemView>;

    open spec fn view(&self) -> Seq<BoardItemView> {
        match self {
            WalkEvent::BoardUpdated { items } => seq_views(items@),
        }
    }
}

/// A walk.
#[derive(Clone, Debug)]
pub struct WalkSession {
    session_id: String,
    extractor: LiveExtractor,
    template: Option<String>,
    tick_store_faults: u64,
}

/// The mathematical counterpart of [`WalkSession`].
pub struct WalkView {
    pub session_id: Seq<char>,
    pub extractor: LiveExtractorView,
    pub template: Option<Seq<char>>,
    /// How often the store failed a pass.
    pub faults: u64,
}

impl View for WalkSession {
    type V = WalkView;

    closed spec fn view(&self) -> WalkView {
        WalkView {
            session_id: self.session_id@,
            extractor: self.extractor@,
            template: option_view(self.template),
            faults: self.tick_store_faults,
        }
    }
}

/// A walk at its start.
pub open spec fn fresh_walk(session_id: Seq<char>, template: Seq<char>) -> WalkView {
    WalkView {
        session_id,
        extractor: LiveExtractorView {
            session_id,
            cursor: 0,
            min_new_chars: 120,
            transcript_window_tokens: 2000,
            already_captured_budget_tokens: 400,
            max_turns: 8,
            max_tokens: 1024,
        },
        template: Some(template),
        faults: 0,
    }
}

/// The board of a session, in an event.
pub open spec fn shows_board(v: StoreView, session_id: Seq<char>, event: Option<WalkEvent>) -> bool {
    exists|items: Seq<CapturedItemView>| #[trigger]
        lists_items(v, of_session(session_id), items) && (event matches Some(e) && e@ == Seq::new(
            items.len(),
            |i: int| board_view(items[i]),
        ))
}

/// The document that the board makes.
pub open spec fn is_partial(v: StoreView, w: WalkView, queued: bool, document: DocumentView) -> bool {
    exists|items: Seq<CapturedItemView>| #[trigger]
        lists_items(v, of_session(w.session_id), items) && document == partial_document(
            doc_kind_of(w.template),
            items,
            queued,
        )
}

/// The document of a session that is over: the one that was built, or else what
/// the board makes. Nothing is pending either way.
pub open spec fn is_degraded(v: StoreView, w: WalkView, document: DocumentView) -> bool {
    match latest_document(v, w.session_id) {
        Some(a) => match document_of(a.body) {
            Ok(d) => document == d,
            Err(_) => is_partial(v, w, false, document),
        },
        None => is_partial(v, w, false, document),
    }
}

/// What to do next in a pass.
pub enum TickStep<M> {
    /// Send the pass's request to the model and hand back the reply.
    Ask(LiveRun<M>),
    /// The pass is over, with news for the host application or without.
    Done(Option<WalkEvent>),
}

/// What the walk makes of a pass's step: news when it ran, nothing when it was
/// skipped or failed, and a fault counted when the store failed.
pub open spec fn tick_settled<M: MemoryStore>(
    w: WalkView,
    x_after: LiveExtractorView,
    r: Result<LiveStepView<M>, CoreErrorView>,
    store_after: StoreView,
    w_after: WalkView,
    step: TickStep<M>,
) -> bool {
    match r {
        Ok(LiveStepView::Ask(run)) => {
            &&& w_after == (WalkView { extractor: x_after, ..w })
            &&& step matches TickStep::Ask(asked) && asked@ == run
        },
        Ok(LiveStepView::Done(LiveExtractOutcome::Extracted { .. })) => {
            &&& w_after == (WalkView { extractor: x_after, ..w })
            &&& step matches TickStep::Done(event) && shows_board(
                store_after,
                w.session_id,
                event,
            )
        },
        Ok(LiveStepView::Done(_)) => {
            &&& w_after == (WalkView { extractor: x_after, ..w })
            &&& step matches TickStep::Done(None)
        },
        Err(_) => {
            &&& w_after == (WalkView { extractor: x_after, faults: one_more_fault(w.faults), ..w })
            &&& step matches TickStep::Done(None)
        },
    }
}

/// One fault more; the counter starts again behind its end.
pub open spec fn one_more_fault(n: u64) -> u64 {
    if n == u64::MAX {
        0
    } else {
        (n + 1) as u64
    }
}

/// What to do next in finishing.
pub enum FinishStep<M> {
    /// Send the run's request to the model and hand back the reply.
    Ask(ProcessRun<M>),
    /// There is a document, and the board may have changed.
    Done { document: DocumentPayload, event: Option<WalkEvent> },
}

/// What finishing makes of a step of processing. A processed session shows the
/// document that this very run built; one that could not be processed shows its
/// board, and is queued.
pub open spec fn finish_settled<M: MemoryStore>(
    w: WalkView,
    processed: ProcessStepView<M>,
    v: StoreView,
    step: FinishStep<M>,
) -> bool {
    match processed {
        ProcessStepView::Ask(run) => step matches FinishStep::Ask(asked) && asked@ == run,
        ProcessStepView::Done(Ok(outcome)) => step matches FinishStep::Done { document, event }
            && shows_board(v, w.session_id, event) && is_built(v, w, outcome, document@),
        ProcessStepView::Done(Err(_)) => step matches FinishStep::Done { document, event } && event
            is None && is_partial(v, w, true, document@),
    }
}

/// The document that a run built; what the board makes when there is none.
pub open spec fn is_built(
    v: StoreView,
    w: WalkView,
    outcome: ProcessOutcomeView,
    document: DocumentView,
) -> bool {
    match outcome.document_artifact_id {
        None => is_partial(v, w, false, document),
        Some(id) => match v.artifact(id) {
            None => is_partial(v, w, false, document),
            Some(a) => match document_of(a.body) {
                Ok(d) => document == d,
                Err(_) => is_partial(v, w, false, document),
            },
        },
    }
}

/// What finishing a walk begins with. A session that is no longer recording is
/// not processed again.
pub open spec fn finish_begun<M: MemoryStore>(
    w: WalkView,
    work: WorkView,
    work_after: WorkView,
    step: FinishStep<M>,
) -> bool {
    exists|now: u64| #[trigger]
        work.store.clock.shows(now) && match ended_and_recorded(work.store, w.session_id, now) {
            (v, Err(_)) => {
                &&& work_after == (WorkView { store: v, ..work })
                &&& step matches FinishStep::Done { document, event } && event is None
                    && is_degraded(v, w, document@)
            },
            (v, Ok(_)) => finish_processes(
                w,
                WorkView { store: v, ..work },
                work_after,
                step,
            ),
        }
}

/// The processing of a walk that has ended.
pub open spec fn finish_processes<M: MemoryStore>(
    w: WalkView,
    work: WorkView,
    work_after: WorkView,
    step: FinishStep<M>,
) -> bool {
    exists|processed: ProcessStepView<M>| #[trigger]
        process_begun(default_processor(), work, w.session_id, work_after, processed)
            && finish_settled(w, processed, work_after.store, step)
}

impl<M: MemoryStore> TickStep<M> {
    /// A step that can be taken.
    pub open spec fn wf(&self) -> bool {
        match self {
            TickStep::Ask(run) => run.wf(),
            TickStep::Done(_) => true,
        }
    }
}

impl<M: MemoryStore> FinishStep<M> {
    /// A step that can be taken.
    pub open spec fn wf(&self) -> bool {
        match self {
            FinishStep::Ask(run) => run.wf(),
            FinishStep::Done { .. } => true,
        }
    }
}

impl WalkSession {
    /// A walk over a session, whose passes the extractor makes.
    pub fn new(session_id: String, extractor: LiveExtractor, template: Option<String>) -> (r:
        WalkSession)
        ensures
            r@ == (WalkView {
                session_id: session_id@,
                extractor: extractor@,
                template: option_view(template),
                faults: 0,
            }),
    {
        WalkSession { session_id, extractor, template, tick_store_faults: 0 }
    }

    /// The session of the walk.
    pub fn session_id(&self) -> (r: &str)
        ensures
            r@ == self@.session_id,
    {
        self.session_id.as_str()
    }

    /// How often the store failed a pass. Failures of the model do not count:
    /// nothing is lost by them.
    pub fn tick_store_fault_count(&self) -> (r: u64)
        ensures
            r == self@.faults,
    {
        self.tick_store_faults
    }

    /// The board of the session, as an event.
    fn board_snapshot(&mut self, store: &Store) -> (r: Option<WalkEvent>)
        requires
            store.wf(),
        ensures
            final(self)@ == old(self)@,
            shows_board(store@, old(self)@.session_id, r),
    {
        match store.list_items_for_session(self.session_id.as_str()) {
            Ok(items) => Some(WalkEvent::BoardUpdated { items: board_items(&items) }),
            Err(_) => {
                self.record_tick_fault();
                None
            },
        }
    }

    /// Counts a failure of the store.
    fn record_tick_fault(&mut self)
        ensures
            final(self)@ == (WalkView { faults: one_more_fault(old(self)@.faults), ..old(self)@ }),
    {
        self.tick_store_faults = self.tick_store_faults.wrapping_add(1);
    }

    /// Adds to the transcript. A piece that comes after the session has ended is
    /// dropped.
    pub fn append_transcript<M: MemoryStore>(&self, work: &mut Workspace<M>, text: &str)
        requires
            old(work).wf(),
        ensures
            final(work).wf(),
            exists|now: u64| #[trigger]
                old(work)@.store.clock.shows(now) && final(work)@ == (WorkView {
                    store: appended(old(work)@.store, self@.session_id, text@, now).0,
                    ..old(work)@
                }),
    {
        let _ = work.store.append_transcript(self.session_id.as_str(), text);
    }

    /// Begins a pass over what is new in the transcript, if it is worth while.
    pub fn tick<M: MemoryStore>(&mut self, work: &mut Workspace<M>) -> (r: TickStep<M>)
        requires
            old(work).wf(),
        ensures
            final(work).wf(),
            r.wf(),
            exists|x: LiveExtractorView, s: Result<LiveStepView<M>, CoreErrorView>| #[trigger]
                pass_begun(old(self)@.extractor, old(work)@, final(work)@, x, s) && tick_settled(
                    old(self)@,
                    x,
                    s,
                    final(work)@.store,
                    final(self)@,
                    r,
                ),
    {
        let ghost before = self@;
        let step = self.extractor.maybe_extract(work);
        let ghost x = self@.extractor;
        let ghost s = result_view(step);
        assert(pass_begun(before.extractor, old(work)@, work@, x, s));
        self.settle_tick(step, work)
    }

    /// Takes the model's reply to a pass.
    pub fn tick_reply<M: MemoryStore>(
        &mut self,
        run: LiveRun<M>,
        work: &mut Workspace<M>,
        reply: Result<CompletionResponse, HarnessError>,
    ) -> (r: TickStep<M>)
        requires
            run.wf(),
            old(work).wf(),
        ensures
            final(work).wf(),
            r.wf(),
            exists|x: LiveExtractorView, s: Result<LiveStepView<M>, CoreErrorView>| #[trigger]
                pass_advanced(
                    run@,
                    old(self)@.extractor,
                    *old(work),
                    result_view(reply),
                    *final(work),
                    x,
                    s,
                ) && tick_settled(old(self)@, x, s, final(work)@.store, final(self)@, r),
    {
        let ghost before = self@;
        let ghost heard = result_view(reply);
        let step = run.advance(&mut self.extractor, work, reply);
        let ghost x = self@.extractor;
        let ghost s = result_view(step);
        assert(pass_advanced(run@, before.extractor, *old(work), heard, *work, x, s));
        self.settle_tick(step, work)
    }

    /// Makes what the host application sees of a pass's step.
    fn settle_tick<M: MemoryStore>(
        &mut self,
        step: Result<LiveStep<M>, CoreError>,
        work: &Workspace<M>,
    ) -> (r: TickStep<M>)
        requires
            work.wf(),
            step matches Ok(s) ==> s.wf(),
        ensures
            r.wf(),
            tick_settled(
                old(self)@,
                old(self)@.extractor,
                result_view(step),
                work@.store,
                final(self)@,
                r,
            ),
    {
        match step {
            Ok(LiveStep::Ask(run)) => TickStep::Ask(run),
            Ok(LiveStep::Done(outcome)) => match outcome {
                LiveExtractOutcome::Extracted { .. } => TickStep::Done(
                    self.board_snapshot(&work.store),
                ),
                _ => TickStep::Done(None),
            },
            Err(_) => {
                self.record_tick_fault();
                TickStep::Done(None)
            },
        }
    }

    /// The document that the board makes.
    fn partial_document(&self, store: &Store, queued: bool) -> (r: DocumentPayload)
        requires
            store.wf(),
        ensures
            is_partial(store@, self@, queued, r@),
    {
        let doc_kind = match &self.template {
            Some(t) => doc_kind_for_template(Some(t.as_str())),
            None => doc_kind_for_template(None),
        };
        let items = match store.list_items_for_session(self.session_id.as_str()) {
            Ok(items) => items,
            Err(_) => Vec::new(),
        };
        let r = partial_document_from_items(doc_kind, items.as_slice(), queued);
        assert(lists_items(store@, of_session(self@.session_id), seq_views(items@)));
        assert(r@ == partial_document(doc_kind_of(self@.template), seq_views(items@), queued));
        r
    }

    /// The document of a session that is over already.
    fn degraded_document(&self, store: &Store) -> (r: DocumentPayload)
        requires
            store.wf(),
        ensures
            is_degraded(store@, self@, r@),
    {
        if let Ok(Some(a)) = store.latest_document_artifact(self.session_id.as_str()) {
            if let Ok(document) = document_payload(&a) {
                return document;
            }
        }
        self.partial_document(store, false)
    }

    /// The document of a session that was just processed.
    fn built_document(&self, store: &Store, outcome: &ProcessOutcome) -> (r: DocumentPayload)
        requires
            store.wf(),
        ensures
            is_built(store@, self@, outcome@, r@),
    {
        if let Some(id) = &outcome.document_artifact_id {
            if let Ok(a) = store.get_artifact(id.as_str()) {
                if let Ok(document) = document_payload(&a) {
                    return document;
                }
            }
        }
        self.partial_document(store, false)
    }

    /// Finishes the walk: ends the session and begins to process it. A walk
    /// that was finished before shows its document again.
    pub fn finish<M: MemoryStore>(&mut self, work: &mut Workspace<M>) -> (r: FinishStep<M>)
        requires
            old(work).wf(),
        ensures
            final(work).wf(),
            r.wf(),
            final(self)@ == old(self)@,
            finish_begun(old(self)@, old(work)@, final(work)@, r),
    {
        if work.store.end_and_record_session(self.session_id.as_str()).is_err() {
            return FinishStep::Done {
                document: self.degraded_document(&work.store),
                event: None,
            };
        }
        let ghost mid = work@;
        let step = SessionProcessor::new().process(work, self.session_id.as_str());
        assert(process_begun(default_processor(), mid, self@.session_id, work@, step@));
        self.settle_finish(step, work)
    }

    /// Takes the model's reply while the walk is being processed.
    pub fn finish_reply<M: MemoryStore>(
        &mut self,
        run: ProcessRun<M>,
        work: &mut Workspace<M>,
        reply: Result<CompletionResponse, HarnessError>,
    ) -> (r: FinishStep<M>)
        requires
            run.wf(),
            old(work).wf(),
        ensures
            final(work).wf(),
            r.wf(),
            final(self)@ == old(self)@,
            exists|processed: ProcessStepView<M>| #[trigger]
                process_advanced(
                    run@,
                    *old(work),
                    result_view(reply),
                    *final(work),
                    processed,
                ) && finish_settled(old(self)@, processed, final(work)@.store, r),
    {
        let ghost heard = result_view(reply);
        let step = run.advance(work, reply);
        assert(process_advanced(run@, *old(work), heard, *work, step@));
        self.settle_finish(step, work)
    }

    /// Makes what the host application sees of a step of processing.
    fn settle_finish<M: MemoryStore>(&mut self, step: ProcessStep<M>, work: &Workspace<M>) -> (r:
        FinishStep<M>)
        requires
            work.wf(),
            step.wf(),
        ensures
            r.wf(),
            final(self)@ == old(self)@,
            finish_settled(old(self)@, step@, work@.store, r),
    {
        match step {
            ProcessStep::Ask(run) => FinishStep::Ask(run),
            ProcessStep::Done(Ok(outcome)) => {
                let event = self.board_snapshot(&work.store);
                FinishStep::Done { document: self.built_document(&work.store, &outcome), event }
            },
            ProcessStep::Done(Err(_)) => FinishStep::Done {
                document: self.partial_document(&work.store, true),
                event: None,
            },
        }
    }
}

/// What the board shows of the items.
fn board_items(items: &Vec<CapturedItem>) -> (r: Vec<BoardItem>)
    ensures
        seq_views(r@) == Seq::new(
            seq_views(items@).len(),
            |i: int| board_view(seq_views(items@)[i]),
        ),
{
    let mut out: Vec<BoardItem> = Vec::new();
    let mut i: usize = 0;
    while i < items.len()
        invariant
            i <= items.len(),
            out.len() == i,
            forall|k: int| 0 <= k < i ==> (#[trigger] out@[k])@ == board_view(items@[k]@),
        decreases items.len() - i,
    {
        out.push(board_item(&items[i]));
        i = i + 1;
    }
    assert(seq_views(out@) =~= Seq::new(
        seq_views(items@).len(),
        |i: int| board_view(seq_views(items@)[i]),
    ));
    out
}

} // verus!
