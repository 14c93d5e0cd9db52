//! A scripted stand-in for a model: answers come from a queue, and every
//! request is kept.

use vstd::prelude::*;
use crate::harness::error::HarnessError;
use crate::harness::error::HarnessErrorView;
use crate::harness::llm::CompletionRequest;
use crate::harness::llm::CompletionResponse;
use crate::harness::llm::RequestView;
use crate::harness::llm::ResponseView;
use crate::views::result_view;
use crate::views::seq_views;

verus! {

/// A scripted model.
#[derive(Debug)]
pub struct MockProvider {
    responses: Vec<CompletionResponse>,
    requests: Vec<CompletionRequest>,
}

impl MockProvider {
    /// The answers that are still to come.
    pub closed spec fn script(&self) -> Seq<ResponseView> {
        seq_views(self.responses@)
    }

    /// The requests so far, oldest first.
    pub closed spec fn seen(&self) -> Seq<RequestView> {
        seq_views(self.requests@)
    }

    /// A model that will give these answers, in this order.
    pub fn new(responses: Vec<CompletionResponse>) -> (r: MockProvider)
        ensures
            r.script() == seq_views(responses@),
            r.seen() == Seq::<RequestView>::empty(),
    {
        let r = MockProvider { responses, requests: Vec::new() };
        assert(r.seen() =~= Seq::<RequestView>::empty());
        r
    }

    /// The requests so far, oldest first.
    pub fn requests(&self) -> (r: &Vec<CompletionRequest>)
        ensures
            seq_views(r@) == self.seen(),
    {
        &self.requests
    }

    /// Answers a request with the next scripted answer, or fails when the
    /// script is at its end. The request is kept either way.
    pub fn complete(&mut self, req: CompletionRequest) -> (r: Result<
        CompletionResponse,
        HarnessError,
    >)
        ensures
            final(self).seen() == old(self).seen().push(req@),
            if old(self).script().len() == 0 {
                result_view(r) == Err::<ResponseView, HarnessErrorView>(
                    HarnessErrorView::Provider("mock script exhausted"@),
                ) && final(self).script() == old(self).script()
            } else {
                result_view(r) == Ok::<ResponseView, HarnessErrorView>(old(self).script()[0])
                    && final(self).script() == old(self).script().drop_first()
            },
    {
        self.requests.push(req);
        assert(self.seen() =~= old(self).seen().push(req@));
        if self.responses.len() == 0 {
            return Err(HarnessError::Provider("mock script exhausted".to_string()));
        }
        let r = self.responses.remove(0);
        assert(self.script() =~= old(self).script().drop_first());
        Ok(r)
    }
}

/// A script is read from its beginning: two requests get its first two answers, and
/// both are kept.
pub proof fn law_script_is_read_in_order(
    mock: &mut MockProvider,
    req: CompletionRequest,
    r: Result<CompletionResponse, HarnessError>,
)
    requires
        call_ensures(MockProvider::complete, (mock, req), r),
    ensures
        r is Ok <==> old(mock).script().len() > 0,
        r matches Ok(resp) ==> old(mock).script() == seq![resp@] + final(mock).script(),
        r is Err ==> final(mock).script().len() == 0,
        final(mock).seen() == old(mock).seen().push(req@),
{
    if r is Ok {
        assert(old(mock).script() =~= seq![r->Ok_0@] + final(mock).script());
    }
}

} // verus!
