//! What a pass over a recording does, said of the session and the board.

use vstd::prelude::*;
use crate::harness::agent::advanced;
use crate::harness::agent::calls_made;
use crate::harness::agent::calls_of;
use crate::harness::agent::StepView;
use crate::harness::error::HarnessError;
use crate::harness::error::HarnessErrorView;
use crate::harness::llm::CompletionResponse;
use crate::harness::memory::store::MemoryStore;
use crate::notes::domain::CapturedItemView;
use crate::notes::domain::ItemSource;
use crate::notes::domain::SessionStatus;
use crate::notes::error::CoreError;
use crate::notes::pipeline::live::cursor_after;
use crate::notes::pipeline::live::LiveExtractor;
use crate::notes::pipeline::live::LiveExtractorView;
use crate::notes::pipeline::live::LiveExtractOutcome;
use crate::notes::pipeline::live::LiveRun;
use crate::notes::pipeline::live::LiveStep;
use crate::notes::pipeline::live::pass_done;
use crate::notes::pipeline::live::pass_step;
use crate::notes::pipeline::workspace::NotesTool;
use crate::notes::pipeline::workspace::PipelineTool;
use crate::notes::pipeline::workspace::Workspace;
use crate::notes::store::items::lists_items;
use crate::notes::store::items::of_session;
use crate::notes::store::StampView;
use crate::views::result_view;

verus! {

/// The usual pace of the passes.
pub proof fn law_usual_passes(session_id: &str, r: LiveExtractor)
    requires
        call_ensures(LiveExtractor::new, (session_id,), r),
    ensures
        r@.session_id == session_id@,
        r@.cursor == 0,
        r@.min_new_chars == 120,
        r@.transcript_window_tokens == 2000,
        r@.already_captured_budget_tokens == 400,
        r@.max_turns == 8,
        r@.max_tokens == 1024,
{
}

/// The cursor goes as far as the model was shown the transcript, and no further.
pub proof fn law_cursor_follows_the_window(x: LiveExtractorView, transcript: Seq<char>)
    requires
        x.cursor <= transcript.len() <= usize::MAX,
    ensures
        cursor_after(x, transcript) >= x.cursor,
        cursor_after(x, transcript) <= transcript.len(),
        cursor_after(x, transcript) - x.cursor <= 4 * x.transcript_window_tokens,
        cursor_after(x, transcript) == transcript.len() || cursor_after(x, transcript) - x.cursor
            == 4 * x.transcript_window_tokens,
{
}

/// A pass is begun only while the session is recording, and once there is enough
/// that no pass has covered. Until the reply nothing changes. A session that is not
/// there is an error.
pub proof fn law_maybe_extract<M: MemoryStore>(
    x: &mut LiveExtractor,
    work: &mut Workspace<M>,
    r: Result<LiveStep<M>, CoreError>,
)
    requires
        old(work).wf(),
        old(x)@.max_turns > 0,
        call_ensures(LiveExtractor::maybe_extract::<M>, (x, work), r),
    ensures
        final(work)@ == old(work)@,
        final(x)@ == old(x)@,
        ({
            let session = old(work)@.store.session(old(x)@.session_id);
            let due = session is Some && session->0.status == SessionStatus::Recording
                && session->0.transcript.len() >= old(x)@.cursor + old(x)@.min_new_chars;
            let nothing_asked = session is Some && old(x)@.min_new_chars == 0
                && session->0.transcript.len() < old(x)@.cursor && session->0.status
                == SessionStatus::Recording;
            &&& session is None ==> r is Err
            &&& session is Some ==> r is Ok
            &&& due ==> (r matches Ok(LiveStep::Ask(_)))
            &&& session is Some && !due && !nothing_asked ==> (r matches Ok(
                LiveStep::Done(LiveExtractOutcome::Skipped),
            ))
            &&& r matches Ok(LiveStep::Ask(run)) ==> {
                &&& run@.pass.session_id == old(x)@.session_id
                &&& run@.agent.config.max_turns == old(x)@.max_turns
                &&& run@.agent.config.max_tokens == old(x)@.max_tokens
                &&& run@.agent.tools.len() == 1
                &&& run@.agent.tools[0].tool matches NotesTool::Item(t) && t@.source
                    == ItemSource::Live && t@.required_status == Some(SessionStatus::Recording)
                    && t@.session_id == old(x)@.session_id
                &&& run@.agent.messages.len() == 1
            }
        }),
{
}

/// After a reply the cursor moves only when the pass is done and its cost is
/// logged, and then by what the model was shown. A failed pass is logged too, where
/// it cost anything, and the same part of the transcript is read again.
pub proof fn law_pass_reply<M: MemoryStore>(
    run: LiveRun<M>,
    x: &mut LiveExtractor,
    work: &mut Workspace<M>,
    reply: Result<CompletionResponse, HarnessError>,
    r: Result<LiveStep<M>, CoreError>,
)
    requires
        run.wf(),
        old(work).wf(),
        call_ensures(LiveRun::<M>::advance, (run, x, work, reply), r),
    ensures
        final(x)@.session_id == old(x)@.session_id && final(x)@.min_new_chars
            == old(x)@.min_new_chars && final(x)@.transcript_window_tokens
            == old(x)@.transcript_window_tokens && final(x)@.max_turns == old(x)@.max_turns,
        r matches Ok(LiveStep::Done(LiveExtractOutcome::Extracted { .. })) ==> final(x)@.cursor
            == run@.pass.cursor_after,
        !(r matches Ok(LiveStep::Done(LiveExtractOutcome::Extracted { .. }))) ==> final(x)@
            == old(x)@,
        !(r matches Ok(LiveStep::Done(LiveExtractOutcome::Skipped))),
        reply is Err ==> (r matches Ok(LiveStep::Done(LiveExtractOutcome::Failed { usage }))
            && usage == run@.agent.usage),
        r matches Ok(LiveStep::Done(LiveExtractOutcome::Extracted { items_added, usage })) ==> {
            let log = final(work)@.store.usage;
            &&& log.len() > 0
            &&& log.last().session_id == Some(run@.pass.session_id)
            &&& log.last().purpose == "live_extraction"@
            &&& log.last().input_tokens == usage.input_tokens
            &&& log.last().output_tokens == usage.output_tokens
            &&& exists|items: Seq<CapturedItemView>| #[trigger]
                lists_items(final(work)@.store, of_session(run@.pass.session_id), items) && (
                items.len() >= run@.pass.items_before && items.len() - run@.pass.items_before
                    <= usize::MAX ==> items_added == items.len() - run@.pass.items_before) && (
                items.len() < run@.pass.items_before ==> items_added == 0)
        },
        r matches Ok(LiveStep::Ask(next)) ==> next@.pass == run@.pass,
{
    let heard = result_view(reply);
    let (tools, envs, results) = choose|
        tools: Seq<Seq<PipelineTool<M>>>,
        envs: Seq<Workspace<M>>,
        results: Seq<Result<Seq<char>, HarnessErrorView>>,
    | #[trigger]
        calls_made(calls_of(heard), tools, envs, results) && tools[0] == run@.agent.tools && envs[0]
            == *old(work) && pass_step(
            run@.pass,
            old(x)@,
            advanced(run@.agent, heard, tools.last(), results),
            envs.last()@,
            final(work)@,
            final(x)@,
            result_view(r),
        );
    let step = advanced(run@.agent, heard, tools.last(), results);
    let mid = envs.last()@;
    if let StepView::Done { outcome: Ok(outcome), .. } = step {
        let st = choose|st: StampView| #[trigger]
            mid.store.gives(st) && pass_done(
                run@.pass,
                old(x)@,
                outcome.usage,
                mid,
                st,
                final(work)@,
                final(x)@,
                result_view(r),
            );
        assert(pass_done(
            run@.pass,
            old(x)@,
            outcome.usage,
            mid,
            st,
            final(work)@,
            final(x)@,
            result_view(r),
        ));
    }
}

} // verus!
