//! Configuration side of an OpenAI-compatible LLM provider: its endpoints,
//! which models it serves, and the checks made on its replies.
use vstd::prelude::*;
use crate::text::{
    chars_of, contains, str_contains, str_eq, string_of, string_views, trim_end_matches,
    trim_end_matches_exec,
};

verus! {

/// Failure of a provider call.
pub enum ProviderError {
    /// The transport failed; the text describes why.
    Http(String),
    /// The provider answered with an error status.
    Api { status: u16, message: String },
}

/// An OpenAI-compatible provider (Ollama, xAI, DeepSeek, Zhipu and others).
pub struct OpenAiCompatProvider {
    pub name: String,
    /// Base URL without trailing slashes.
    pub base_url: String,
    pub api_key: Option<String>,
    /// The models served; empty means every model.
    pub models: Vec<String>,
    /// Timeout of a request, in seconds.
    pub timeout_seconds: u64,
}

impl OpenAiCompatProvider {
    pub fn new(
        name: String,
        base_url: String,
        api_key: Option<String>,
        models: Vec<String>,
        timeout_seconds: u64,
    ) -> (p: Self)
        ensures
            p.name@ == name@,
            p.base_url@ == trim_end_matches(base_url@, "/"@),
            p.api_key == api_key,
            p.models@ == models@,
            p.timeout_seconds == timeout_seconds,
    {
        let v = chars_of(base_url.as_str());
        let slash = chars_of("/");
        let trimmed = trim_end_matches_exec(&v, &slash);
        OpenAiCompatProvider {
            name,
            base_url: string_of(&trimmed),
            api_key,
            models,
            timeout_seconds,
        }
    }

    pub fn name(&self) -> (r: &str)
        ensures
            r@ == self.name@,
    {
        self.name.as_str()
    }

    /// Whether this provider serves `model`: an empty model list accepts
    /// every model.
    pub fn supports_model(&self, model: &str) -> (r: bool)
        ensures
            r == (self.models@.len() == 0 || string_views(self.models@).contains(model@)),
    {
        if self.models.len() == 0 {
            return true;
        }
        let mut i: usize = 0;
        while i < self.models.len()
            invariant
                i <= self.models.len(),
                forall|k: int| 0 <= k < i ==> self.models@[k]@ != model@,
            decreases self.models.len() - i,
        {
            if str_eq(self.models[i].as_str(), model) {
                assert(string_views(self.models@)[i as int] == model@);
                return true;
            }
            i = i + 1;
        }
        assert(!string_views(self.models@).contains(model@)) by {
            if string_views(self.models@).contains(model@) {
                let k = choose|k: int| 0 <= k < self.models@.len() && string_views(self.models@)[k]
                    == model@;
                assert(self.models@[k]@ == model@);
            }
        }
        false
    }

    /// The chat-completions endpoint.
    pub fn chat_url(&self) -> (r: String)
        ensures
            r@ == self.base_url@ + "/v1/chat/completions"@,
    {
        let mut r = String::from_str(self.base_url.as_str());
        r.append("/v1/chat/completions");
        r
    }

    /// The model-list endpoint, used as health check.
    pub fn models_url(&self) -> (r: String)
        ensures
            r@ == self.base_url@ + "/v1/models"@,
    {
        let mut r = String::from_str(self.base_url.as_str());
        r.append("/v1/models");
        r
    }
}

/// A reply content type that carries a stream of events.
pub open spec fn is_stream_type(content_type: Seq<char>) -> bool {
    contains(content_type, "text/event-stream"@) || contains(content_type, "text/plain"@)
        || contains(content_type, "application/x-ndjson"@)
}

/// Accepts a streaming reply only when its content type is a stream;
/// otherwise a 502 error naming the type.
pub fn check_stream_content_type(content_type: &str) -> (r: Result<(), ProviderError>)
    ensures
        is_stream_type(content_type@) ==> r is Ok,
        !is_stream_type(content_type@) ==> (r matches Err(ProviderError::Api { status, message })
            && status == 502 && message@ == "Upstream liefert kein SSE (Content-Type: '"@
            + content_type@ + "')"@),
{
    if str_contains(content_type, "text/event-stream") || str_contains(content_type, "text/plain")
        || str_contains(content_type, "application/x-ndjson") {
        Ok(())
    } else {
        let mut m = String::from_str("Upstream liefert kein SSE (Content-Type: '");
        m.append(content_type);
        m.append("')");
        Err(ProviderError::Api { status: 502, message: m })
    }
}

/// The error of a provider that does not stream.
pub fn streaming_unsupported(provider_name: &str) -> (r: ProviderError)
    ensures
        r matches ProviderError::Api { status, message } && status == 501 && message@
            == "Provider '"@ + provider_name@ + "' unterstuetzt kein Streaming"@,
{
    let mut m = String::from_str("Provider '");
    m.append(provider_name);
    m.append("' unterstuetzt kein Streaming");
    ProviderError::Api { status: 501, message: m }
}

/// A success status (2xx), as `StatusCode::is_success` decides it.
pub fn success_status(status: u16) -> (r: bool)
    ensures
        r == (200 <= status < 300),
{
    200 <= status && status < 300
}

/// The outcome of an upstream reply's status: success for a 2xx status,
/// else an API error carrying that status and the reply's body.
pub fn reply_status(status: u16, body: String) -> (r: Result<(), ProviderError>)
    ensures
        200 <= status < 300 ==> r is Ok,
        !(200 <= status < 300) ==> (r matches Err(ProviderError::Api { status: s, message })
            && s == status && message@ == body@),
{
    if success_status(status) {
        Ok(())
    } else {
        Err(ProviderError::Api { status, message: body })
    }
}

/// The outcome of a streaming reply before its bytes are passed through: a
/// non-2xx status gives an API error with that status and the body; a 2xx
/// reply whose content type is no stream gives the 502 error of
/// `check_stream_content_type`; otherwise the stream is accepted.
pub fn stream_reply(status: u16, content_type: &str, body: String) -> (r: Result<(), ProviderError>)
    ensures
        !(200 <= status < 300) ==> (r matches Err(ProviderError::Api { status: s, message })
            && s == status && message@ == body@),
        200 <= status < 300 && is_stream_type(content_type@) ==> r is Ok,
        200 <= status < 300 && !is_stream_type(content_type@) ==> (r matches Err(
            ProviderError::Api { status: s, message },
        ) && s == 502 && message@ == "Upstream liefert kein SSE (Content-Type: '"@ + content_type@
            + "')"@),
{
    match reply_status(status, body) {
        Err(e) => Err(e),
        Ok(()) => check_stream_content_type(content_type),
    }
}

} // verus!
