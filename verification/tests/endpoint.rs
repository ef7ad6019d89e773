use std::time::Duration;

use codex_api::anthropic_types::{
    AnthropicContentBlock, AnthropicMessage, AnthropicMessageContent, AnthropicMessagesRequest,
    AnthropicRole, AnthropicSystem, AnthropicTool,
};
use codex_api::endpoint::anthropic::AnthropicClient;
use codex_api::endpoint::chat_completions::{
    ChatCompletionsClient, ChatCompletionsRequest, ChatFunctionCall, ChatMessage, ChatRole,
    ChatToolCall,
};
use codex_api::endpoint::session::{accept_event_stream, Provider};
use codex_api::error::ApiError;
use codex_api::headers::MAX_HEADER_NAMES;
use http::{HeaderMap, HeaderName, HeaderValue};
use serde_json::Value;

fn provider() -> Provider {
    Provider { stream_idle_timeout: Duration::from_millis(1500) }
}

#[test]
fn anthropic_requests_are_posted_to_messages() {
    let client = AnthropicClient::new("transport", provider(), "auth");
    assert_eq!(client.session.transport, "transport");
    assert_eq!(client.session.auth, "auth");
    assert_eq!(AnthropicClient::<&str, &str>::path(), "messages");

    let plan = client.stream_request(Ok(Value::String("body".to_string()))).unwrap();
    assert_eq!(plan.method, "POST");
    assert_eq!(plan.path, "messages");
    assert!(plan.headers.is_empty());
    assert_eq!(plan.body, Value::String("body".to_string()));
    assert_eq!(plan.idle_timeout, Duration::from_millis(1500));
}

#[test]
fn chat_requests_are_posted_to_chat_completions() {
    let client = ChatCompletionsClient::new("transport", provider(), "auth");
    assert_eq!(client.session.transport, "transport");
    assert_eq!(client.session.auth, "auth");
    assert_eq!(client.session.provider().stream_idle_timeout, Duration::from_millis(1500));
    assert_eq!(ChatCompletionsClient::<&str, &str>::path(), "chat/completions");

    let plan = client.stream_request(Ok(Value::Bool(true))).unwrap();
    assert_eq!(plan.method, "POST");
    assert_eq!(plan.path, "chat/completions");
    assert!(plan.headers.is_empty());
    assert_eq!(plan.body, Value::Bool(true));
    assert_eq!(plan.idle_timeout, Duration::from_millis(1500));
}

#[test]
fn requests_that_cannot_be_encoded_are_errors() {
    let anthropic = AnthropicClient::new((), provider(), ());
    match anthropic.stream_request(Err("no key".to_string())) {
        Err(ApiError::Stream(message)) => {
            assert_eq!(message, "failed to encode anthropic request: no key")
        }
        Ok(_) => panic!("expected an error"),
    }
    let chat = ChatCompletionsClient::new((), provider(), ());
    match chat.stream_request(Err("no key".to_string())) {
        Err(ApiError::Stream(message)) => {
            assert_eq!(message, "failed to encode chat completions request: no key")
        }
        Ok(_) => panic!("expected an error"),
    }
}

#[test]
fn streams_are_accepted_and_other_headers_stay() {
    let mut headers = HeaderMap::new();
    headers.append("accept", HeaderValue::from_static("application/json"));
    headers.append("accept", HeaderValue::from_static("text/html"));
    headers.insert("user-agent", HeaderValue::from_static("test"));
    assert!(accept_event_stream(&mut headers));
    assert_eq!(headers.get_all("accept").iter().count(), 1);
    assert_eq!(headers.get(http::header::ACCEPT).unwrap(), "text/event-stream");
    assert_eq!(headers.get("user-agent").unwrap(), "test");
}

/// A map with `count` header names, none of them `accept`.
fn headers_with(count: usize) -> HeaderMap {
    let mut headers = HeaderMap::new();
    for i in 0..count {
        let name = HeaderName::from_bytes(format!("x-filler-{i}").as_bytes()).unwrap();
        headers.insert(name, HeaderValue::from_static("filler"));
    }
    headers
}

#[test]
fn streams_are_accepted_where_there_is_room() {
    for count in [0, MAX_HEADER_NAMES, MAX_HEADER_NAMES + 1, 24575] {
        let mut headers = headers_with(count);
        assert!(accept_event_stream(&mut headers));
        assert_eq!(headers.keys_len(), count + 1);
        assert_eq!(headers.get("accept").unwrap(), "text/event-stream");
    }
    let mut headers = headers_with(24576);
    let before = headers.clone();
    assert!(!accept_event_stream(&mut headers));
    assert_eq!(headers, before);
}

#[test]
fn requests_go_out_asking_for_a_stream() {
    let mut session_headers = HeaderMap::new();
    session_headers.insert("x-api-key", HeaderValue::from_static("key"));
    session_headers.insert("accept", HeaderValue::from_static("*/*"));

    let client = AnthropicClient::new((), provider(), ());
    let plan = client.stream_request(Ok(Value::Bool(true))).unwrap();
    let request = plan.into_request(session_headers.clone()).unwrap();
    assert_eq!(request.method, "POST");
    assert_eq!(request.path, "messages");
    assert_eq!(request.body, Value::Bool(true));
    assert_eq!(request.headers.len(), 2);
    assert_eq!(request.headers.get("accept").unwrap(), "text/event-stream");
    assert_eq!(request.headers.get("x-api-key").unwrap(), "key");

    let client = ChatCompletionsClient::new((), provider(), ());
    let plan = client.stream_request(Ok(Value::Null)).unwrap();
    let request = plan.into_request(session_headers).unwrap();
    assert_eq!(request.method, "POST");
    assert_eq!(request.path, "chat/completions");
    assert_eq!(request.body, Value::Null);
    assert_eq!(request.headers.get("accept").unwrap(), "text/event-stream");

    let plan = client.stream_request(Ok(Value::Null)).unwrap();
    assert!(plan.into_request(headers_with(24576)).is_none());
}

#[test]
fn request_bodies_hold_what_they_are_made_of() {
    let request = AnthropicMessagesRequest {
        model: "m".to_string(),
        max_tokens: 5,
        system: Some(AnthropicSystem::Text("be brief".to_string())),
        messages: vec![AnthropicMessage {
            role: AnthropicRole::User,
            content: AnthropicMessageContent::Blocks(vec![AnthropicContentBlock::ToolResult {
                tool_use_id: "t".to_string(),
                content: "c".to_string(),
                is_error: true,
            }]),
        }],
        tools: Some(vec![AnthropicTool {
            name: "n".to_string(),
            description: None,
            input_schema: Value::Null,
        }]),
        stream: true,
    };
    assert!(request.stream);
    assert_eq!(request.messages[0].role, AnthropicRole::User);
    assert!(matches!(
        request.messages[0].content,
        AnthropicMessageContent::Blocks(ref blocks)
            if matches!(blocks[0], AnthropicContentBlock::ToolResult { is_error: true, .. })
    ));

    let request = ChatCompletionsRequest {
        model: "m".to_string(),
        messages: vec![ChatMessage {
            role: ChatRole::Assistant,
            content: None,
            tool_calls: Some(vec![ChatToolCall {
                index: Some(1),
                id: Some("id".to_string()),
                tool_type: Some("function".to_string()),
                function: Some(ChatFunctionCall {
                    name: Some("n".to_string()),
                    arguments: Some("{}".to_string()),
                }),
            }]),
            tool_call_id: None,
        }],
        tools: None,
        tool_choice: None,
        stream: true,
        reasoning_effort: None,
        max_tokens: Some(7),
    };
    let copy = request.messages[0].clone();
    assert_eq!(copy.role, ChatRole::Assistant);
    assert_eq!(copy.tool_calls.unwrap()[0].index, Some(1));
    assert_eq!(request.max_tokens, Some(7));
}

#[test]
fn request_bodies_can_be_copied() {
    let mut schema = serde_json::Map::new();
    schema.insert("type".to_string(), Value::String("object".to_string()));
    let block = || AnthropicContentBlock::ToolUse {
        id: "t".to_string(),
        name: "n".to_string(),
        input: Value::Array(vec![Value::Null, Value::Bool(true)]),
    };
    let request = AnthropicMessagesRequest {
        model: "m".to_string(),
        max_tokens: 5,
        system: Some(AnthropicSystem::Blocks(vec![block()])),
        messages: vec![
            AnthropicMessage {
                role: AnthropicRole::Assistant,
                content: AnthropicMessageContent::Blocks(vec![
                    block(),
                    AnthropicContentBlock::Text { text: "x".to_string() },
                    AnthropicContentBlock::Thinking { thinking: "y".to_string() },
                    AnthropicContentBlock::ToolResult {
                        tool_use_id: "t".to_string(),
                        content: "c".to_string(),
                        is_error: false,
                    },
                ]),
            },
            AnthropicMessage {
                role: AnthropicRole::User,
                content: AnthropicMessageContent::Text("hi".to_string()),
            },
        ],
        tools: Some(vec![AnthropicTool {
            name: "n".to_string(),
            description: Some("d".to_string()),
            input_schema: Value::Object(schema.clone()),
        }]),
        stream: true,
    };
    assert_eq!(format!("{:?}", request.clone()), format!("{request:?}"));

    let request = ChatCompletionsRequest {
        model: "m".to_string(),
        messages: vec![ChatMessage {
            role: ChatRole::Tool,
            content: Some("c".to_string()),
            tool_calls: Some(vec![ChatToolCall {
                index: None,
                id: Some("id".to_string()),
                tool_type: None,
                function: Some(ChatFunctionCall { name: None, arguments: Some("{}".to_string()) }),
            }]),
            tool_call_id: Some("id".to_string()),
        }],
        tools: Some(vec![Value::Object(schema)]),
        tool_choice: Some("auto".to_string()),
        stream: false,
        reasoning_effort: Some("low".to_string()),
        max_tokens: None,
    };
    assert_eq!(format!("{:?}", request.clone()), format!("{request:?}"));
}
