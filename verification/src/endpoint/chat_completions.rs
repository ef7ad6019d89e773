//! The Chat Completions API (`POST /v1/chat/completions`).

use vstd::prelude::*;

use crate::endpoint::session::{EndpointSession, Provider, StreamPlan};
use crate::error::ApiError;
use crate::headers::{header_entries, header_map_new, no_headers};
use crate::json::json_text;
use crate::text::join2;

verus! {

/// Request body for the OpenAI Chat Completions API
/// (`POST /v1/chat/completions`).
#[derive(Debug)]
pub struct ChatCompletionsRequest {
    pub model: String,
    pub messages: Vec<ChatMessage>,
    pub tools: Option<Vec<serde_json::Value>>,
    pub tool_choice: Option<String>,
    pub stream: bool,
    pub reasoning_effort: Option<String>,
    pub max_tokens: Option<u32>,
}

/// A single message in the Chat Completions conversation.
#[derive(Debug)]
pub struct ChatMessage {
    pub role: ChatRole,
    pub content: Option<String>,
    pub tool_calls: Option<Vec<ChatToolCall>>,
    pub tool_call_id: Option<String>,
}

#[derive(Debug, Clone, Copy, PartialEq, Eq, Structural)]
pub enum ChatRole {
    System,
    User,
    Assistant,
    Tool,
}

/// A tool call within an assistant message in the Chat Completions API.
#[derive(Debug)]
pub struct ChatToolCall {
    pub index: Option<u32>,
    pub id: Option<String>,
    pub tool_type: Option<String>,
    pub function: Option<ChatFunctionCall>,
}

/// The function call nested inside a Chat Completions tool call.
#[derive(Debug)]
pub struct ChatFunctionCall {
    pub name: Option<String>,
    pub arguments: Option<String>,
}

/// What a [`ChatFunctionCall`] holds.
pub struct RequestFunctionView {
    pub name: Option<Seq<char>>,
    pub arguments: Option<Seq<char>>,
}

/// What a [`ChatToolCall`] holds.
pub struct RequestCallView {
    pub index: Option<u32>,
    pub id: Option<Seq<char>>,
    pub tool_type: Option<Seq<char>>,
    pub function: Option<RequestFunctionView>,
}

/// What a [`ChatMessage`] holds.
pub struct RequestMessageView {
    pub role: ChatRole,
    pub content: Option<Seq<char>>,
    pub tool_calls: Option<Seq<RequestCallView>>,
    pub tool_call_id: Option<Seq<char>>,
}

/// What a [`ChatCompletionsRequest`] holds; a tool is its JSON text.
pub struct RequestView {
    pub model: Seq<char>,
    pub messages: Seq<RequestMessageView>,
    pub tools: Option<Seq<Seq<char>>>,
    pub tool_choice: Option<Seq<char>>,
    pub stream: bool,
    pub reasoning_effort: Option<Seq<char>>,
    pub max_tokens: Option<u32>,
}

/// The JSON texts of `values`.
pub open spec fn json_texts(values: Seq<serde_json::Value>) -> Seq<Seq<char>> {
    values.map_values(|value: serde_json::Value| json_text(value))
}

impl DeepView for ChatFunctionCall {
    type V = RequestFunctionView;

    open spec fn deep_view(&self) -> RequestFunctionView {
        RequestFunctionView { name: self.name.deep_view(), arguments: self.arguments.deep_view() }
    }
}

impl DeepView for ChatToolCall {
    type V = RequestCallView;

    open spec fn deep_view(&self) -> RequestCallView {
        RequestCallView {
            index: self.index,
            id: self.id.deep_view(),
            tool_type: self.tool_type.deep_view(),
            function: self.function.deep_view(),
        }
    }
}

impl DeepView for ChatMessage {
    type V = RequestMessageView;

    open spec fn deep_view(&self) -> RequestMessageView {
        RequestMessageView {
            role: self.role,
            content: self.content.deep_view(),
            tool_calls: self.tool_calls.deep_view(),
            tool_call_id: self.tool_call_id.deep_view(),
        }
    }
}

impl DeepView for ChatCompletionsRequest {
    type V = RequestView;

    open spec fn deep_view(&self) -> RequestView {
        RequestView {
            model: self.model@,
            messages: self.messages.deep_view(),
            tools: match self.tools {
                Some(tools) => Some(json_texts(tools@)),
                None => None,
            },
            tool_choice: self.tool_choice.deep_view(),
            stream: self.stream,
            reasoning_effort: self.reasoning_effort.deep_view(),
            max_tokens: self.max_tokens,
        }
    }
}

impl Clone for ChatFunctionCall {
    fn clone(&self) -> (copy: Self)
        ensures
            copy.deep_view() == self.deep_view(),
    {
        ChatFunctionCall { name: self.name.clone(), arguments: self.arguments.clone() }
    }
}

impl Clone for ChatToolCall {
    fn clone(&self) -> (copy: Self)
        ensures
            copy.deep_view() == self.deep_view(),
    {
        ChatToolCall {
            index: self.index,
            id: self.id.clone(),
            tool_type: self.tool_type.clone(),
            function: self.function.clone(),
        }
    }
}

impl Clone for ChatMessage {
    fn clone(&self) -> (copy: Self)
        ensures
            copy.deep_view() == self.deep_view(),
    {
        let tool_calls = match &self.tool_calls {
            Some(tool_calls) => {
                let copies = tool_calls.clone();
                assert(copies.deep_view() =~= tool_calls.deep_view());
                Some(copies)
            },
            None => None,
        };
        ChatMessage {
            role: self.role,
            content: self.content.clone(),
            tool_calls,
            tool_call_id: self.tool_call_id.clone(),
        }
    }
}

impl Clone for ChatCompletionsRequest {
    fn clone(&self) -> (copy: Self)
        ensures
            copy.deep_view() == self.deep_view(),
    {
        let messages = self.messages.clone();
        assert(messages.deep_view() =~= self.messages.deep_view());
        let tools = match &self.tools {
            Some(tools) => {
                let copies = tools.clone();
                assert(json_texts(copies@) =~= json_texts(tools@));
                Some(copies)
            },
            None => None,
        };
        ChatCompletionsRequest {
            model: self.model.clone(),
            messages,
            tools,
            tool_choice: self.tool_choice.clone(),
            stream: self.stream,
            reasoning_effort: self.reasoning_effort.clone(),
            max_tokens: self.max_tokens,
        }
    }
}

/// Client for the OpenAI Chat Completions API (`POST /v1/chat/completions`).
///
/// The session holds transport and authentication; the stream that answers a
/// request is mapped by
/// [`crate::sse::chat_completions::ChatCompletionsStream`].
pub struct ChatCompletionsClient<T, A> {
    pub session: EndpointSession<T, A>,
}

impl<T, A> ChatCompletionsClient<T, A> {
    pub fn new(transport: T, provider: Provider, auth: A) -> (client: Self)
        ensures
            client.session.transport == transport,
            client.session.provider == provider,
            client.session.auth == auth,
    {
        ChatCompletionsClient { session: EndpointSession::new(transport, provider, auth) }
    }

    /// The path of the endpoint.
    pub fn path() -> (path: &'static str)
        ensures
            path@ == "chat/completions"@,
    {
        "chat/completions"
    }

    /// The request to send for a body that was encoded to `body`, or that could
    /// not be encoded, with the reason why.
    pub fn stream_request(&self, body: Result<serde_json::Value, String>) -> (plan: Result<
        StreamPlan,
        ApiError,
    >)
        ensures
            match (body, plan) {
                (Ok(body), Ok(plan)) => {
                    &&& plan.method@ == "POST"@
                    &&& plan.path@ == "chat/completions"@
                    &&& header_entries(plan.headers) == no_headers()
                    &&& plan.body == body
                    &&& plan.idle_timeout == self.session.provider.stream_idle_timeout
                },
                (Err(reason), Err(error)) => error.deep_view()
                    == "failed to encode chat completions request: "@ + reason@,
                _ => false,
            },
    {
        match body {
            Ok(body) => Ok(
                StreamPlan {
                    method: "POST",
                    path: Self::path(),
                    headers: header_map_new(),
                    body,
                    idle_timeout: self.session.provider().stream_idle_timeout,
                },
            ),
            Err(reason) => Err(
                ApiError::Stream(
                    join2("failed to encode chat completions request: ", reason.as_str()),
                ),
            ),
        }
    }
}

} // verus!
