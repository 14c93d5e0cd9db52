//! The messages endpoint: where a request goes, what it holds, and what an answer
//! means. Sending and decoding are left to the caller.

use vstd::prelude::*;
use crate::harness::error::HarnessError;
use crate::harness::error::HarnessErrorView;
use crate::harness::llm::CompletionRequest;
use crate::harness::llm::CompletionResponse;
use crate::harness::llm::ResponseView;
use crate::harness::providers::wire::encode_request;
use crate::harness::providers::wire::wire_request;
use crate::json::Json;
use crate::text::concat2;
use crate::text::concat3;
use crate::views::result_view;

verus! {

/// The usual host.
pub const DEFAULT_BASE_URL: &'static str = "https://api.anthropic.com";

/// The version of the interface.
pub const API_VERSION: &'static str = "2023-06-01";

/// Which model to ask, where, and with which key.
#[derive(Clone)]
pub struct AnthropicProvider {
    api_key: String,
    model: String,
    base_url: String,
}

/// The mathematical counterpart of [`AnthropicProvider`].
pub struct AnthropicProviderView {
    pub api_key: Seq<char>,
    pub model: Seq<char>,
    pub base_url: Seq<char>,
}

impl View for AnthropicProvider {
    type V = AnthropicProviderView;

    closed spec fn view(&self) -> AnthropicProviderView {
        AnthropicProviderView {
            api_key: self.api_key@,
            model: self.model@,
            base_url: self.base_url@,
        }
    }
}

/// The views of header fields.
pub open spec fn header_views(headers: Seq<(&'static str, String)>) -> Seq<(Seq<char>, Seq<char>)> {
    Seq::new(headers.len(), |i: int| (headers[i].0@, headers[i].1@))
}

/// What an answer of the endpoint means: the decoded response, the refusal with
/// its body, or a body that could not be decoded.
pub open spec fn settled(
    success: bool,
    status: Seq<char>,
    text: Seq<char>,
    decoded: Result<ResponseView, Seq<char>>,
) -> Result<ResponseView, HarnessErrorView> {
    if !success {
        Err(HarnessErrorView::Provider("HTTP "@ + status + ": "@ + text))
    } else {
        match decoded {
            Ok(resp) => Ok(resp),
            Err(e) => Err(HarnessErrorView::Provider("bad response body: "@ + e + ": "@ + text)),
        }
    }
}

impl AnthropicProvider {
    /// A provider on the usual host.
    pub fn new(api_key: String, model: String) -> (r: AnthropicProvider)
        ensures
            r@ == (AnthropicProviderView {
                api_key: api_key@,
                model: model@,
                base_url: DEFAULT_BASE_URL@,
            }),
    {
        AnthropicProvider { api_key, model, base_url: DEFAULT_BASE_URL.to_string() }
    }

    /// The same provider on another host.
    pub fn with_base_url(self, base_url: String) -> (r: AnthropicProvider)
        ensures
            r@ == (AnthropicProviderView { base_url: base_url@, ..self@ }),
    {
        AnthropicProvider { api_key: self.api_key, model: self.model, base_url }
    }

    /// The model to ask.
    pub fn model(&self) -> (r: &str)
        ensures
            r@ == self@.model,
    {
        self.model.as_str()
    }

    /// Where a request is posted.
    pub fn url(&self) -> (r: String)
        ensures
            r@ == self@.base_url + "/v1/messages"@,
    {
        concat2(self.base_url.as_str(), "/v1/messages")
    }

    /// The header fields of a request. The key is sent in both customary forms.
    pub fn headers(&self) -> (r: Vec<(&'static str, String)>)
        ensures
            header_views(r@) == seq![
                ("x-api-key"@, self@.api_key),
                ("authorization"@, "Bearer "@ + self@.api_key),
                ("anthropic-version"@, API_VERSION@),
            ],
    {
        let mut out: Vec<(&'static str, String)> = Vec::new();
        out.push(("x-api-key", self.api_key.clone()));
        out.push(("authorization", concat2("Bearer ", self.api_key.as_str())));
        out.push(("anthropic-version", API_VERSION.to_string()));
        assert(header_views(out@) =~= seq![
            ("x-api-key"@, self@.api_key),
            ("authorization"@, "Bearer "@ + self@.api_key),
            ("anthropic-version"@, API_VERSION@),
        ]);
        out
    }

    /// The body of a request.
    pub fn body(&self, req: &CompletionRequest) -> (r: Json)
        ensures
            r@ == wire_request(self@.model, req@),
    {
        encode_request(self.model.as_str(), req)
    }

    /// Takes an answer of the endpoint: its status, its body, and what decoding
    /// the body gave.
    pub fn settle(
        success: bool,
        status: &str,
        text: &str,
        decoded: Result<CompletionResponse, String>,
    ) -> (r: Result<CompletionResponse, HarnessError>)
        ensures
            result_view(r) == settled(success, status@, text@, result_view(decoded)),
    {
        if !success {
            let mut message = concat3("HTTP ", status, ": ");
            message.append(text);
            return Err(HarnessError::Provider(message));
        }
        match decoded {
            Ok(resp) => Ok(resp),
            Err(e) => {
                let mut message = concat3("bad response body: ", e.as_str(), ": ");
                message.append(text);
                Err(HarnessError::Provider(message))
            },
        }
    }
}

} // verus!
