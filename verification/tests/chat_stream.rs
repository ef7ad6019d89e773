use codex_api::common::{ResponseEvent, ResponseItem, StreamOutcome, TokenUsage};
use codex_api::error::ApiError;
use codex_api::sse::chat_completions::{
    payload, ChatChoice, ChatCompletionsChunk, ChatCompletionsStream, ChatDelta, ChatError,
    ChatFunctionCall, ChatInput, ChatToolCall, ChatUsage,
};

fn empty_chunk() -> ChatCompletionsChunk {
    ChatCompletionsChunk { id: None, model: None, choices: None, usage: None, error: None }
}

fn message(chunk: ChatCompletionsChunk) -> ChatInput {
    ChatInput::Message { data: "{}".to_string(), chunk: Some(chunk) }
}

fn end_mark() -> ChatInput {
    ChatInput::Message { data: "[DONE]".to_string(), chunk: None }
}

fn junk(data: &str) -> ChatInput {
    ChatInput::Message { data: data.to_string(), chunk: None }
}

fn with_choices(choices: Vec<ChatChoice>) -> ChatInput {
    message(ChatCompletionsChunk { choices: Some(choices), ..empty_chunk() })
}

fn text_choice(content: &str) -> ChatChoice {
    ChatChoice {
        delta: Some(ChatDelta {
            content: Some(content.to_string()),
            tool_calls: None,
            reasoning_content: None,
        }),
        finish_reason: None,
    }
}

fn finish_choice(reason: &str) -> ChatChoice {
    ChatChoice { delta: None, finish_reason: Some(reason.to_string()) }
}

fn calls(tool_calls: Vec<ChatToolCall>) -> ChatInput {
    with_choices(vec![ChatChoice {
        delta: Some(ChatDelta {
            content: None,
            tool_calls: Some(tool_calls),
            reasoning_content: None,
        }),
        finish_reason: None,
    }])
}

fn call(
    index: Option<u32>,
    id: Option<&str>,
    name: Option<&str>,
    arguments: Option<&str>,
) -> ChatToolCall {
    ChatToolCall {
        index,
        id: id.map(|s| s.to_string()),
        function: Some(ChatFunctionCall {
            name: name.map(|s| s.to_string()),
            arguments: arguments.map(|s| s.to_string()),
        }),
    }
}

/// What a fresh stream makes of the inputs, and whether it is then over.
fn run(inputs: Vec<ChatInput>) -> (Vec<StreamOutcome>, bool) {
    let mut stream = ChatCompletionsStream::new();
    let mut outcomes = Vec::new();
    let mut done = false;
    for input in inputs {
        let step = stream.step(input);
        outcomes.extend(step.outcomes);
        done = step.done;
    }
    (outcomes, done)
}

fn error_of(outcome: &StreamOutcome) -> &str {
    match outcome {
        Err(ApiError::Stream(message)) => message,
        Ok(event) => panic!("expected an error, got {event:?}"),
    }
}

fn completed(outcome: &StreamOutcome) -> (&str, Option<TokenUsage>, Option<bool>) {
    match outcome {
        Ok(ResponseEvent::Completed { response_id, token_usage, end_turn }) => {
            (response_id, *token_usage, *end_turn)
        }
        other => panic!("expected completion, got {other:?}"),
    }
}

/// The call id and name of an announced call.
fn announced(outcome: &StreamOutcome) -> (&str, &str, &str) {
    match outcome {
        Ok(ResponseEvent::OutputItemAdded(ResponseItem::FunctionCall {
            id: Some(id),
            name,
            namespace: None,
            arguments,
            call_id,
        })) => {
            assert_eq!(arguments, "");
            (id, name, call_id)
        }
        other => panic!("expected a function call, got {other:?}"),
    }
}

fn arguments(outcome: &StreamOutcome) -> (&str, Option<&str>, &str) {
    match outcome {
        Ok(ResponseEvent::ToolCallInputDelta { item_id, call_id, delta }) => {
            (item_id, call_id.as_deref(), delta)
        }
        other => panic!("expected arguments, got {other:?}"),
    }
}

#[test]
fn chat_text_answer() {
    let (outcomes, done) = run(vec![
        message(ChatCompletionsChunk {
            id: Some("chatcmpl-1".to_string()),
            model: Some("model-y".to_string()),
            choices: Some(vec![text_choice("Hel"), text_choice("")]),
            ..empty_chunk()
        }),
        with_choices(vec![text_choice("lo"), finish_choice("stop")]),
        message(ChatCompletionsChunk {
            usage: Some(ChatUsage {
                prompt_tokens: Some(3),
                completion_tokens: Some(4),
                total_tokens: Some(70),
            }),
            ..empty_chunk()
        }),
        end_mark(),
    ]);
    assert!(done);
    assert_eq!(outcomes.len(), 5);
    assert!(matches!(&outcomes[0], Ok(ResponseEvent::ServerModel(m)) if m == "model-y"));
    assert!(matches!(&outcomes[1], Ok(ResponseEvent::OutputTextDelta(t)) if t == "Hel"));
    assert!(matches!(&outcomes[2], Ok(ResponseEvent::OutputTextDelta(t)) if t.is_empty()));
    assert!(matches!(&outcomes[3], Ok(ResponseEvent::OutputTextDelta(t)) if t == "lo"));
    let usage = TokenUsage {
        input_tokens: 3,
        cached_input_tokens: 0,
        output_tokens: 4,
        reasoning_output_tokens: 0,
        total_tokens: 70,
    };
    assert_eq!(completed(&outcomes[4]), ("chatcmpl-1", Some(usage), Some(true)));
}

#[test]
fn chat_reasoning_is_passed_on_unless_it_is_empty() {
    let choice = |content: Option<&str>, reasoning: &str| ChatChoice {
        delta: Some(ChatDelta {
            content: content.map(|s| s.to_string()),
            tool_calls: Some(vec![call(None, None, None, Some("{"))]),
            reasoning_content: Some(reasoning.to_string()),
        }),
        finish_reason: None,
    };
    let (outcomes, _) = run(vec![with_choices(vec![choice(Some("t"), "why"), choice(None, "")])]);
    assert_eq!(outcomes.len(), 4);
    assert!(matches!(&outcomes[0], Ok(ResponseEvent::OutputTextDelta(t)) if t == "t"));
    assert!(matches!(
        &outcomes[1],
        Ok(ResponseEvent::ReasoningContentDelta { delta, content_index: 0 }) if delta == "why"
    ));
    assert_eq!(arguments(&outcomes[2]), ("call_0", None, "{"));
    assert_eq!(arguments(&outcomes[3]), ("call_0", None, "{"));
}

#[test]
fn chat_tool_call_arguments_carry_the_announced_id() {
    let (outcomes, _) = run(vec![
        calls(vec![
            call(Some(0), Some("call_a"), Some("read"), Some("")),
            call(Some(1), Some("call_b"), Some("write"), None),
        ]),
        calls(vec![call(Some(1), None, None, Some("{\"b\"")), call(Some(0), None, None, Some("{}"))]),
        with_choices(vec![finish_choice("tool_calls")]),
        end_mark(),
    ]);
    assert_eq!(announced(&outcomes[0]), ("func_0", "read", "call_a"));
    assert_eq!(arguments(&outcomes[1]), ("call_a", Some("call_a"), ""));
    assert_eq!(announced(&outcomes[2]), ("func_1", "write", "call_b"));
    assert_eq!(arguments(&outcomes[3]), ("call_b", Some("call_b"), "{\"b\""));
    assert_eq!(arguments(&outcomes[4]), ("call_a", Some("call_a"), "{}"));
    assert_eq!(completed(&outcomes[5]), ("", None, Some(false)));
}

#[test]
fn chat_tool_calls_without_id_get_one_from_their_index() {
    let (outcomes, _) = run(vec![
        calls(vec![call(Some(12), None, Some("n"), Some("x"))]),
        calls(vec![call(None, None, Some("m"), None)]),
        calls(vec![call(Some(12), Some("late"), None, Some("y"))]),
        calls(vec![ChatToolCall { index: Some(12), id: Some("later".to_string()), function: None }]),
        calls(vec![call(Some(12), None, None, Some("z"))]),
    ]);
    assert_eq!(announced(&outcomes[0]), ("func_12", "n", "call_12"));
    assert_eq!(arguments(&outcomes[1]), ("call_12", None, "x"));
    assert_eq!(announced(&outcomes[2]), ("func_0", "m", "call_0"));
    assert_eq!(arguments(&outcomes[3]), ("late", Some("late"), "y"));
    assert_eq!(arguments(&outcomes[4]), ("later", Some("later"), "z"));
    assert_eq!(outcomes.len(), 5);
}

#[test]
fn chat_finish_reasons_tell_whether_the_turn_ended() {
    for (reason, expected) in
        [("stop", true), ("end_turn", true), ("length", false), ("Stop", false), ("", false)]
    {
        let (outcomes, _) = run(vec![with_choices(vec![finish_choice(reason)]), end_mark()]);
        assert_eq!(completed(&outcomes[0]).2, Some(expected), "{reason}");
    }
    let (outcomes, _) =
        run(vec![with_choices(vec![finish_choice("stop"), finish_choice("length")]), end_mark()]);
    assert_eq!(completed(&outcomes[0]).2, Some(false));
    let (outcomes, _) =
        run(vec![with_choices(vec![finish_choice("stop")]), with_choices(vec![text_choice("t")]), end_mark()]);
    assert_eq!(completed(&outcomes[1]).2, Some(true));
}

#[test]
fn chat_first_id_and_last_usage_count() {
    let chunk = |id: Option<&str>, prompt_tokens: Option<i64>| {
        message(ChatCompletionsChunk {
            id: id.map(|s| s.to_string()),
            usage: Some(ChatUsage { prompt_tokens, completion_tokens: None, total_tokens: None }),
            ..empty_chunk()
        })
    };
    let (outcomes, _) =
        run(vec![chunk(None, Some(1)), chunk(Some("a"), Some(2)), chunk(Some("b"), None), end_mark()]);
    let (id, usage, end_turn) = completed(&outcomes[0]);
    assert_eq!(id, "a");
    assert_eq!(usage.unwrap().input_tokens, 0);
    assert_eq!(usage.unwrap().total_tokens, 0);
    assert_eq!(end_turn, None);
}

#[test]
fn chat_errors_end_the_stream() {
    let failed = || {
        message(ChatCompletionsChunk {
            id: Some("late".to_string()),
            model: Some("m".to_string()),
            error: Some(ChatError { message: "quota".to_string() }),
            ..empty_chunk()
        })
    };
    let cases: Vec<(ChatInput, &str)> = vec![
        (failed(), "Chat Completions API error: quota"),
        (ChatInput::TransportError("reset".to_string()), "SSE stream error: reset"),
        (ChatInput::IdleTimeout, "stream idle timeout"),
    ];
    for (input, expected) in cases {
        let (outcomes, done) =
            run(vec![with_choices(vec![text_choice("t")]), input, end_mark(), ChatInput::Closed]);
        assert!(done);
        assert_eq!(outcomes.len(), 2);
        assert_eq!(error_of(&outcomes[1]), expected);
    }
}

#[test]
fn chat_close_completes_a_stream_that_brought_an_id_or_a_usage() {
    let (outcomes, done) = run(vec![with_choices(vec![text_choice("t")]), ChatInput::Closed]);
    assert!(done);
    assert_eq!(outcomes.len(), 1);

    let with_id = ChatCompletionsChunk { id: Some("a".to_string()), ..empty_chunk() };
    let (outcomes, done) = run(vec![message(with_id), ChatInput::Closed, ChatInput::Closed]);
    assert!(done);
    assert_eq!(outcomes.len(), 1);
    assert_eq!(completed(&outcomes[0]), ("a", None, None));

    let with_usage = ChatCompletionsChunk {
        usage: Some(ChatUsage { prompt_tokens: None, completion_tokens: Some(1), total_tokens: None }),
        ..empty_chunk()
    };
    let (outcomes, _) = run(vec![message(with_usage), ChatInput::Closed]);
    assert_eq!(completed(&outcomes[0]).1.unwrap().output_tokens, 1);
}

#[test]
fn chat_end_mark_may_have_white_space_around_it() {
    assert_eq!(payload(" [DONE]\r\n"), "[DONE]");
    for data in ["[DONE]", " [DONE]", "[DONE]\n", "\u{3000}[DONE]\u{85}"] {
        let (outcomes, done) = run(vec![junk(data)]);
        assert!(done);
        assert_eq!(completed(&outcomes[0]), ("", None, None));
    }
    for data in ["[done]", "[DONE] x", ""] {
        let (outcomes, done) = run(vec![junk(data)]);
        assert!(!done);
        assert!(outcomes.is_empty());
    }
}

#[test]
fn chat_skips_junk_wherever_it_stands() {
    let plain = run(vec![with_choices(vec![text_choice("t")]), end_mark()]);
    let noisy =
        run(vec![junk("?"), with_choices(vec![text_choice("t")]), junk("{"), end_mark(), junk("!")]);
    assert_eq!(format!("{plain:?}"), format!("{noisy:?}"));
}

/// The text of the answer that the outcomes bring.
fn text_of_answer(outcomes: &[StreamOutcome]) -> String {
    outcomes
        .iter()
        .filter_map(|outcome| match outcome {
            Ok(ResponseEvent::OutputTextDelta(text)) => Some(text.as_str()),
            _ => None,
        })
        .collect()
}

#[test]
fn chat_text_before_the_end_is_passed_on_whole() {
    let failed = ChatCompletionsChunk {
        choices: Some(vec![text_choice("late")]),
        error: Some(ChatError { message: "quota".to_string() }),
        ..empty_chunk()
    };
    for end in [
        end_mark(),
        message(failed),
        ChatInput::Closed,
        ChatInput::IdleTimeout,
        ChatInput::TransportError("reset".to_string()),
    ] {
        let (outcomes, done) = run(vec![
            with_choices(vec![text_choice("He"), text_choice("l")]),
            junk("?"),
            with_choices(vec![text_choice("lo")]),
            end,
            with_choices(vec![text_choice("later")]),
        ]);
        assert!(done);
        assert_eq!(text_of_answer(&outcomes), "Hello");
    }
}
