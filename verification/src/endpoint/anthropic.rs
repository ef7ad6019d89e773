//! The Anthropic Messages API (`POST /v1/messages`).

use vstd::prelude::*;

use crate::endpoint::session::{EndpointSession, Provider, StreamPlan};
use crate::error::ApiError;
use crate::headers::{header_entries, header_map_new, no_headers};
use crate::text::join2;

verus! {

/// Client for the Anthropic Messages API (`POST /v1/messages`).
///
/// The session holds transport and authentication; the stream that answers a
/// request is mapped by [`crate::sse::anthropic::AnthropicStream`].
pub struct AnthropicClient<T, A> {
    pub session: EndpointSession<T, A>,
}

impl<T, A> AnthropicClient<T, A> {
    pub fn new(transport: T, provider: Provider, auth: A) -> (client: Self)
        ensures
            client.session.transport == transport,
            client.session.provider == provider,
            client.session.auth == auth,
    {
        AnthropicClient { session: EndpointSession::new(transport, provider, auth) }
    }

    /// The path of the endpoint.
    pub fn path() -> (path: &'static str)
        ensures
            path@ == "messages"@,
    {
        "messages"
    }

    /// The request to send for a body that was encoded to `body`, or that could
    /// not be encoded, with the reason why.
    pub fn stream_request(&self, body: Result<serde_json::Value, String>) -> (plan: Result<
        StreamPlan,
        ApiError,
    >)
        ensures
            match (body, plan) {
                (Ok(body), Ok(plan)) => {
                    &&& plan.method@ == "POST"@
                    &&& plan.path@ == "messages"@
                    &&& header_entries(plan.headers) == no_headers()
                    &&& plan.body == body
                    &&& plan.idle_timeout == self.session.provider.stream_idle_timeout
                },
                (Err(reason), Err(error)) => error.deep_view()
                    == "failed to encode anthropic request: "@ + reason@,
                _ => false,
            },
    {
        match body {
            Ok(body) => Ok(
                StreamPlan {
                    method: "POST",
                    path: Self::path(),
                    headers: header_map_new(),
                    body,
                    idle_timeout: self.session.provider().stream_idle_timeout,
                },
            ),
            Err(reason) => Err(
                ApiError::Stream(join2("failed to encode anthropic request: ", reason.as_str())),
            ),
        }
    }
}

} // verus!
