use codex_api::common::{ResponseEvent, ResponseItem, StreamOutcome, TokenUsage};
use codex_api::error::ApiError;
use codex_api::sse::anthropic::{
    is_countable, AnthropicContentBlock, AnthropicDelta, AnthropicErrorBody, AnthropicInput,
    AnthropicMessageDelta, AnthropicMessageMeta, AnthropicStream, AnthropicStreamEvent,
    AnthropicUsage,
};
use serde_json::Value;

fn event(event: AnthropicStreamEvent) -> AnthropicInput {
    AnthropicInput::Event(Some(event))
}

fn message_start(id: &str, model: &str) -> AnthropicInput {
    event(AnthropicStreamEvent::MessageStart {
        message: AnthropicMessageMeta { id: id.to_string(), model: model.to_string() },
    })
}

fn block_start(index: u32, content_block: AnthropicContentBlock) -> AnthropicInput {
    event(AnthropicStreamEvent::ContentBlockStart { index, content_block })
}

fn tool_use(id: &str, name: &str, input: Value) -> AnthropicContentBlock {
    AnthropicContentBlock::ToolUse { id: id.to_string(), name: name.to_string(), input }
}

fn text_delta(index: u32, text: &str) -> AnthropicInput {
    event(AnthropicStreamEvent::ContentBlockDelta {
        index,
        delta: AnthropicDelta::TextDelta { text: text.to_string() },
    })
}

fn json_delta(index: u32, partial_json: &str) -> AnthropicInput {
    event(AnthropicStreamEvent::ContentBlockDelta {
        index,
        delta: AnthropicDelta::InputJsonDelta { partial_json: partial_json.to_string() },
    })
}

fn thinking_delta(index: u32, thinking: &str) -> AnthropicInput {
    event(AnthropicStreamEvent::ContentBlockDelta {
        index,
        delta: AnthropicDelta::ThinkingDelta { thinking: thinking.to_string() },
    })
}

fn message_delta(reason: Option<&str>, usage: Option<(Option<i64>, Option<i64>)>) -> AnthropicInput {
    event(AnthropicStreamEvent::MessageDelta {
        delta: AnthropicMessageDelta { stop_reason: reason.map(|r| r.to_string()) },
        usage: usage.map(|(input_tokens, output_tokens)| AnthropicUsage {
            input_tokens,
            output_tokens,
        }),
    })
}

fn stop() -> AnthropicInput {
    event(AnthropicStreamEvent::MessageStop)
}

/// What a fresh stream makes of the inputs, and whether it is then over.
fn run(inputs: Vec<AnthropicInput>) -> (Vec<StreamOutcome>, bool) {
    let mut stream = AnthropicStream::new();
    let mut outcomes = Vec::new();
    let mut done = false;
    for input in inputs {
        assert!(is_countable(&input));
        let step = stream.step(input);
        outcomes.extend(step.outcomes);
        done = step.done;
    }
    (outcomes, done)
}

fn error_of(outcome: &StreamOutcome) -> &str {
    match outcome {
        Err(ApiError::Stream(message)) => message,
        Ok(event) => panic!("expected an error, got {event:?}"),
    }
}

fn completed(outcome: &StreamOutcome) -> (&str, Option<TokenUsage>, Option<bool>) {
    match outcome {
        Ok(ResponseEvent::Completed { response_id, token_usage, end_turn }) => {
            (response_id, *token_usage, *end_turn)
        }
        other => panic!("expected completion, got {other:?}"),
    }
}

#[test]
fn anthropic_text_answer() {
    let (outcomes, done) = run(vec![
        message_start("msg_1", "model-x"),
        block_start(0, AnthropicContentBlock::Text),
        text_delta(0, "Hel"),
        text_delta(0, "lo"),
        event(AnthropicStreamEvent::ContentBlockStop),
        message_delta(Some("end_turn"), Some((Some(3), Some(4)))),
        stop(),
    ]);
    assert!(done);
    assert_eq!(outcomes.len(), 4);
    assert!(matches!(&outcomes[0], Ok(ResponseEvent::ServerModel(m)) if m == "model-x"));
    assert!(matches!(&outcomes[1], Ok(ResponseEvent::OutputTextDelta(t)) if t == "Hel"));
    assert!(matches!(&outcomes[2], Ok(ResponseEvent::OutputTextDelta(t)) if t == "lo"));
    let usage = TokenUsage {
        input_tokens: 3,
        cached_input_tokens: 0,
        output_tokens: 4,
        reasoning_output_tokens: 0,
        total_tokens: 7,
    };
    assert_eq!(completed(&outcomes[3]), ("msg_1", Some(usage), Some(true)));
}

#[test]
fn anthropic_tool_use_is_announced_with_its_input() {
    let mut input = serde_json::Map::new();
    input.insert("path".to_string(), Value::String("a \"b\"".to_string()));
    let (outcomes, done) = run(vec![
        block_start(2, tool_use("toolu_7", "read", Value::Object(input))),
        text_delta(0, "x"),
        json_delta(2, "{\"pa"),
        json_delta(5, "{}"),
    ]);
    assert!(!done);
    match &outcomes[0] {
        Ok(ResponseEvent::OutputItemAdded(ResponseItem::FunctionCall {
            id,
            name,
            namespace,
            arguments,
            call_id,
        })) => {
            assert_eq!(id.as_deref(), Some("tool_2"));
            assert_eq!(name, "read");
            assert_eq!(*namespace, None);
            assert_eq!(arguments, "{\"path\":\"a \\\"b\\\"\"}");
            assert_eq!(call_id, "toolu_7");
        }
        other => panic!("unexpected {other:?}"),
    }
    match &outcomes[2] {
        Ok(ResponseEvent::ToolCallInputDelta { item_id, call_id, delta }) => {
            assert_eq!(item_id, "tool_2");
            assert_eq!(*call_id, None);
            assert_eq!(delta, "{\"pa");
        }
        other => panic!("unexpected {other:?}"),
    }
    assert!(matches!(
        &outcomes[3],
        Ok(ResponseEvent::ToolCallInputDelta { item_id, .. }) if item_id == "tool_5"
    ));
}

#[test]
fn anthropic_input_goes_out_under_the_latest_block_at_its_index() {
    let (outcomes, _) = run(vec![
        block_start(1, AnthropicContentBlock::Text),
        json_delta(1, "a"),
        block_start(1, AnthropicContentBlock::Thinking),
        json_delta(1, "b"),
    ]);
    let ids: Vec<String> = outcomes
        .iter()
        .filter_map(|outcome| match outcome {
            Ok(ResponseEvent::ToolCallInputDelta { item_id, .. }) => Some(item_id.clone()),
            _ => None,
        })
        .collect();
    assert_eq!(ids, vec!["msg_1", "reasoning_1"]);
}

#[test]
fn anthropic_thinking_is_reasoning() {
    let (outcomes, _) =
        run(vec![block_start(4294967295, AnthropicContentBlock::Thinking), thinking_delta(4294967295, "hm")]);
    match &outcomes[0] {
        Ok(ResponseEvent::OutputItemAdded(ResponseItem::Reasoning {
            id,
            summary,
            content,
            encrypted_content,
        })) => {
            assert_eq!(id, "reasoning_4294967295");
            assert!(summary.is_empty());
            assert!(content.is_none());
            assert!(encrypted_content.is_none());
        }
        other => panic!("unexpected {other:?}"),
    }
    assert!(matches!(
        &outcomes[1],
        Ok(ResponseEvent::ReasoningContentDelta { delta, content_index: 4294967295 })
            if delta == "hm"
    ));
}

#[test]
fn anthropic_stop_reasons_tell_whether_the_turn_ended() {
    for (reason, expected) in [
        (Some("end_turn"), Some(true)),
        (Some("stop_sequence"), Some(true)),
        (Some("tool_use"), Some(false)),
        (Some("max_tokens"), Some(false)),
        (None, None),
    ] {
        let (outcomes, _) = run(vec![message_delta(reason, None), stop()]);
        assert_eq!(completed(&outcomes[0]), ("", None, expected));
    }
    let (outcomes, _) =
        run(vec![message_delta(Some("end_turn"), Some((None, Some(2)))), message_delta(None, None), stop()]);
    let (_, usage, end_turn) = completed(&outcomes[0]);
    assert_eq!(end_turn, None);
    assert_eq!(usage.unwrap().total_tokens, 2);
    assert_eq!(usage.unwrap().input_tokens, 0);
}

#[test]
fn anthropic_last_message_id_and_usage_count() {
    let (outcomes, _) = run(vec![
        message_start("a", "m"),
        message_start("b", "m"),
        message_delta(None, Some((Some(1), Some(1)))),
        message_delta(None, Some((Some(-5), None))),
        stop(),
    ]);
    let (id, usage, _) = completed(&outcomes[2]);
    assert_eq!(id, "b");
    assert_eq!(usage.unwrap().total_tokens, -5);
}

#[test]
fn anthropic_errors_end_the_stream() {
    let cases: Vec<(AnthropicInput, &str)> = vec![
        (
            event(AnthropicStreamEvent::Error {
                error: AnthropicErrorBody {
                    message: "Overloaded".to_string(),
                    error_type: "overloaded_error".to_string(),
                },
            }),
            "Anthropic API error: Overloaded (overloaded_error)",
        ),
        (AnthropicInput::TransportError("reset".to_string()), "SSE stream error: reset"),
        (AnthropicInput::Closed, "stream closed before completion"),
        (AnthropicInput::IdleTimeout, "stream idle timeout"),
    ];
    for (input, message) in cases {
        let (outcomes, done) = run(vec![message_start("a", "m"), input, text_delta(0, "late"), stop()]);
        assert!(done);
        assert_eq!(outcomes.len(), 2);
        assert_eq!(error_of(&outcomes[1]), message);
    }
}

#[test]
fn anthropic_nothing_follows_completion() {
    let (outcomes, done) = run(vec![stop(), stop(), AnthropicInput::Closed, text_delta(0, "late")]);
    assert!(done);
    assert_eq!(outcomes.len(), 1);
    assert_eq!(completed(&outcomes[0]), ("", None, None));
}

#[test]
fn anthropic_passes_over_what_it_does_not_know() {
    let plain = run(vec![message_start("a", "m"), text_delta(0, "t"), stop()]);
    let noisy = run(vec![
        AnthropicInput::Event(None),
        message_start("a", "m"),
        event(AnthropicStreamEvent::Unknown),
        text_delta(0, "t"),
        event(AnthropicStreamEvent::ContentBlockStop),
        AnthropicInput::Event(None),
        stop(),
    ]);
    assert_eq!(format!("{plain:?}"), format!("{noisy:?}"));
}

#[test]
fn anthropic_totals_that_cannot_be_counted_are_recognised() {
    assert!(!is_countable(&message_delta(None, Some((Some(i64::MAX), Some(1))))));
    assert!(!is_countable(&message_delta(None, Some((Some(i64::MIN), Some(-1))))));
    assert!(is_countable(&message_delta(None, Some((Some(i64::MAX), None)))));
    assert!(is_countable(&message_delta(None, None)));
    assert!(is_countable(&AnthropicInput::Closed));
    let (outcomes, _) = run(vec![message_delta(None, Some((Some(i64::MAX), Some(0)))), stop()]);
    assert_eq!(completed(&outcomes[0]).1.unwrap().total_tokens, i64::MAX);
}

#[test]
fn anthropic_text_before_the_end_is_passed_on_whole() {
    for end in [
        stop(),
        AnthropicInput::Closed,
        AnthropicInput::IdleTimeout,
        AnthropicInput::TransportError("reset".to_string()),
    ] {
        let (outcomes, done) = run(vec![
            text_delta(0, "Hel"),
            thinking_delta(1, "hm"),
            text_delta(2, "lo"),
            end,
            text_delta(0, "late"),
        ]);
        assert!(done);
        let text: String = outcomes
            .iter()
            .filter_map(|outcome| match outcome {
                Ok(ResponseEvent::OutputTextDelta(text)) => Some(text.as_str()),
                _ => None,
            })
            .collect();
        assert_eq!(text, "Hello");
    }
}
