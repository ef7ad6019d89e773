//! What the streaming endpoints have in common.

use vstd::prelude::*;
use vstd::utf8::encode_utf8;

use crate::headers::{
    at_most_names, header_entries, header_insert, header_value_from_static, MAX_HEADER_NAMES,
};

verus! {

/// A provider of models.
pub struct Provider {
    /// How long a stream may stay silent.
    pub stream_idle_timeout: std::time::Duration,
}

/// A transport, the provider that it reaches, and the way to authenticate
/// there.
pub struct EndpointSession<T, A> {
    pub transport: T,
    pub provider: Provider,
    pub auth: A,
}

impl<T, A> EndpointSession<T, A> {
    pub fn new(transport: T, provider: Provider, auth: A) -> (session: Self)
        ensures
            session.transport == transport,
            session.provider == provider,
            session.auth == auth,
    {
        EndpointSession { transport, provider, auth }
    }

    /// The provider that the session reaches.
    pub fn provider(&self) -> (provider: &Provider)
        ensures
            *provider == self.provider,
    {
        &self.provider
    }
}

/// A streaming request that is to be made.
pub struct StreamPlan {
    pub method: &'static str,
    /// The path below the provider's base URL.
    pub path: &'static str,
    /// Headers beyond those that the session and [`StreamPlan::into_request`]
    /// add.
    pub headers: http::HeaderMap<http::HeaderValue>,
    pub body: serde_json::Value,
    /// How long the answer may stay silent.
    pub idle_timeout: std::time::Duration,
}

/// The headers of a request whose answer is to be an event stream, and nothing
/// else.
pub open spec fn accepting_event_stream(entries: Map<Seq<char>, Seq<Seq<u8>>>) -> Map<
    Seq<char>,
    Seq<Seq<u8>>,
> {
    entries.insert("accept"@, seq![encode_utf8("text/event-stream"@)])
}

/// Asks for an event stream as the answer to any request that has room for the
/// header. Returns whether it had; where it had not, which does not happen with
/// few headers, the request is unchanged.
pub fn accept_event_stream(headers: &mut http::HeaderMap<http::HeaderValue>) -> (added: bool)
    ensures
        at_most_names(header_entries(*old(headers)), MAX_HEADER_NAMES as nat) ==> added,
        header_entries(*final(headers)) == if added {
            accepting_event_stream(header_entries(*old(headers)))
        } else {
            header_entries(*old(headers))
        },
{
    proof {
        reveal_strlit("accept");
        reveal_strlit("text/event-stream");
    }
    let value = header_value_from_static("text/event-stream");
    header_insert(headers, "accept", value).is_ok()
}

/// A request as it goes out.
pub struct StreamRequest {
    pub method: &'static str,
    pub path: &'static str,
    pub headers: http::HeaderMap<http::HeaderValue>,
    pub body: serde_json::Value,
}

impl StreamPlan {
    /// The request that goes out for the plan, where the session made `headers`
    /// of the plan's: it asks for an event stream. `None` where the headers have
    /// no room for that, which does not happen with few of them.
    pub fn into_request(self, headers: http::HeaderMap<http::HeaderValue>) -> (request: Option<
        StreamRequest,
    >)
        ensures
            at_most_names(header_entries(headers), MAX_HEADER_NAMES as nat) ==> request is Some,
            request matches Some(request) ==> {
                &&& request.method == self.method
                &&& request.path == self.path
                &&& header_entries(request.headers) == accepting_event_stream(
                    header_entries(headers),
                )
                &&& request.body == self.body
            },
    {
        let mut headers = headers;
        if accept_event_stream(&mut headers) {
            Some(
                StreamRequest { method: self.method, path: self.path, headers, body: self.body },
            )
        } else {
            None
        }
    }
}

/// Whatever headers a session makes, the request asks for an event stream and
/// for nothing else, and its other headers are the session's.
pub proof fn requests_accept_event_streams(
    entries: Map<Seq<char>, Seq<Seq<u8>>>,
    name: Seq<char>,
)
    ensures
        ({
            let sent = accepting_event_stream(entries);
            &&& sent.contains_key("accept"@)
            &&& sent["accept"@] == seq![encode_utf8("text/event-stream"@)]
            &&& name != "accept"@ ==> sent.contains_key(name) == entries.contains_key(name)
            &&& name != "accept"@ && entries.contains_key(name) ==> sent[name] == entries[name]
        }),
{
}

} // verus!
