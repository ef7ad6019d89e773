//! The Anthropic stream: Messages API events in, shared response events out.
//!
//! An [`AnthropicStream`] is the state of one response. Whoever reads the
//! transport feeds it one [`AnthropicInput`] at a time and forwards what comes
//! back until the step says that the stream is over.

use std::collections::HashMap;

use vstd::prelude::*;

use crate::common::{
    count_or_zero, emit, emit_error, or_zero, outcomes_view, EventView,
    ItemView, OutcomeView, ResponseEvent, ResponseItem, StreamOutcome, StreamStep, TokenUsage,
};
use crate::json::{json_text, json_to_string};
use crate::text::{join2, numbered, numbered_text, same_text};

verus! {

/// One event of the stream.
#[derive(Debug)]
#[allow(inconsistent_fields)]
pub enum AnthropicStreamEvent {
    MessageStart { message: AnthropicMessageMeta },
    ContentBlockStart { index: u32, content_block: AnthropicContentBlock },
    ContentBlockDelta { index: u32, delta: AnthropicDelta },
    ContentBlockStop,
    MessageDelta { delta: AnthropicMessageDelta, usage: Option<AnthropicUsage> },
    MessageStop,
    Error { error: AnthropicErrorBody },
    /// Any event type that is not listed above.
    Unknown,
}

#[derive(Debug)]
pub struct AnthropicMessageMeta {
    pub id: String,
    pub model: String,
}

#[derive(Debug)]
pub enum AnthropicContentBlock {
    Text,
    ToolUse { id: String, name: String, input: serde_json::Value },
    Thinking,
}

#[derive(Debug)]
pub enum AnthropicDelta {
    TextDelta { text: String },
    InputJsonDelta { partial_json: String },
    ThinkingDelta { thinking: String },
}

#[derive(Debug)]
pub struct AnthropicMessageDelta {
    pub stop_reason: Option<String>,
}

#[derive(Debug, Clone, Copy)]
pub struct AnthropicUsage {
    pub input_tokens: Option<i64>,
    pub output_tokens: Option<i64>,
}

#[derive(Debug)]
pub struct AnthropicErrorBody {
    pub message: String,
    pub error_type: String,
}

/// What an [`AnthropicContentBlock`] holds; the input of a tool is its JSON
/// text.
pub enum BlockView {
    Text,
    ToolUse { id: Seq<char>, name: Seq<char>, input: Seq<char> },
    Thinking,
}

/// What an [`AnthropicDelta`] holds.
pub enum BlockDeltaView {
    TextDelta { text: Seq<char> },
    InputJsonDelta { partial_json: Seq<char> },
    ThinkingDelta { thinking: Seq<char> },
}

/// What an [`AnthropicStreamEvent`] holds.
pub enum StreamEventView {
    MessageStart { id: Seq<char>, model: Seq<char> },
    ContentBlockStart { index: u32, content_block: BlockView },
    ContentBlockDelta { index: u32, delta: BlockDeltaView },
    ContentBlockStop,
    MessageDelta { stop_reason: Option<Seq<char>>, usage: Option<AnthropicUsage> },
    MessageStop,
    Error { message: Seq<char>, error_type: Seq<char> },
    Unknown,
}

impl DeepView for AnthropicContentBlock {
    type V = BlockView;

    open spec fn deep_view(&self) -> BlockView {
        match self {
            AnthropicContentBlock::Text => BlockView::Text,
            AnthropicContentBlock::ToolUse { id, name, input } => {
                BlockView::ToolUse { id: id@, name: name@, input: json_text(*input) }
            },
            AnthropicContentBlock::Thinking => BlockView::Thinking,
        }
    }
}

impl DeepView for AnthropicDelta {
    type V = BlockDeltaView;

    open spec fn deep_view(&self) -> BlockDeltaView {
        match self {
            AnthropicDelta::TextDelta { text } => BlockDeltaView::TextDelta { text: text@ },
            AnthropicDelta::InputJsonDelta { partial_json } => {
                BlockDeltaView::InputJsonDelta { partial_json: partial_json@ }
            },
            AnthropicDelta::ThinkingDelta { thinking } => {
                BlockDeltaView::ThinkingDelta { thinking: thinking@ }
            },
        }
    }
}

impl DeepView for AnthropicStreamEvent {
    type V = StreamEventView;

    open spec fn deep_view(&self) -> StreamEventView {
        match self {
            AnthropicStreamEvent::MessageStart { message } => {
                StreamEventView::MessageStart { id: message.id@, model: message.model@ }
            },
            AnthropicStreamEvent::ContentBlockStart { index, content_block } => {
                StreamEventView::ContentBlockStart {
                    index: *index,
                    content_block: content_block.deep_view(),
                }
            },
            AnthropicStreamEvent::ContentBlockDelta { index, delta } => {
                StreamEventView::ContentBlockDelta { index: *index, delta: delta.deep_view() }
            },
            AnthropicStreamEvent::ContentBlockStop => StreamEventView::ContentBlockStop,
            AnthropicStreamEvent::MessageDelta { delta, usage } => {
                StreamEventView::MessageDelta {
                    stop_reason: delta.stop_reason.deep_view(),
                    usage: *usage,
                }
            },
            AnthropicStreamEvent::MessageStop => StreamEventView::MessageStop,
            AnthropicStreamEvent::Error { error } => {
                StreamEventView::Error { message: error.message@, error_type: error.error_type@ }
            },
            AnthropicStreamEvent::Unknown => StreamEventView::Unknown,
        }
    }
}

/// What the transport reports.
#[derive(Debug)]
pub enum AnthropicInput {
    /// A server-sent event: what its data parses to, `None` where it does not
    /// parse.
    Event(Option<AnthropicStreamEvent>),
    /// Reading the stream failed, with this description.
    TransportError(String),
    /// The stream ended.
    Closed,
    /// Nothing arrived for the idle timeout.
    IdleTimeout,
}

/// What an [`AnthropicInput`] holds.
pub enum AnthropicInputView {
    Event(Option<StreamEventView>),
    TransportError(Seq<char>),
    Closed,
    IdleTimeout,
}

impl DeepView for AnthropicInput {
    type V = AnthropicInputView;

    open spec fn deep_view(&self) -> AnthropicInputView {
        match self {
            AnthropicInput::Event(event) => AnthropicInputView::Event(event.deep_view()),
            AnthropicInput::TransportError(detail) => AnthropicInputView::TransportError(detail@),
            AnthropicInput::Closed => AnthropicInputView::Closed,
            AnthropicInput::IdleTimeout => AnthropicInputView::IdleTimeout,
        }
    }
}

/// The state of a stream.
pub struct AnthropicState {
    pub response_id: Option<Seq<char>>,
    pub token_usage: Option<TokenUsage>,
    pub end_turn: Option<bool>,
    /// The item id of each content block that has started.
    pub item_ids: Map<u32, Seq<char>>,
    pub done: bool,
}

/// The state before anything has arrived.
pub open spec fn anthropic_start() -> AnthropicState {
    AnthropicState {
        response_id: None,
        token_usage: None,
        end_turn: None,
        item_ids: Map::empty(),
        done: false,
    }
}

/// The item id of the content block `block` at `index`.
pub open spec fn block_item_id(block: BlockView, index: u32) -> Seq<char> {
    let tag = match block {
        BlockView::Text => "msg_"@,
        BlockView::ToolUse { .. } => "tool_"@,
        BlockView::Thinking => "reasoning_"@,
    };
    numbered(tag, index as nat)
}

/// The item that a content block adds; text adds none.
pub open spec fn block_item(block: BlockView, index: u32) -> Option<ItemView> {
    match block {
        BlockView::Text => None,
        BlockView::ToolUse { id, name, input } => Some(
            ItemView::FunctionCall {
                id: Some(block_item_id(block, index)),
                name,
                namespace: None,
                arguments: input,
                call_id: id,
            },
        ),
        BlockView::Thinking => Some(
            ItemView::Reasoning {
                id: block_item_id(block, index),
                summary: Seq::empty(),
                content: None,
                encrypted_content: None,
            },
        ),
    }
}

/// The item id under which the input of the block at `index` goes out.
pub open spec fn input_item_id(item_ids: Map<u32, Seq<char>>, index: u32) -> Seq<char> {
    if item_ids.contains_key(index) {
        item_ids[index]
    } else {
        numbered("tool_"@, index as nat)
    }
}

/// The event of a piece of the content block at `index`.
pub open spec fn delta_event(
    item_ids: Map<u32, Seq<char>>,
    index: u32,
    delta: BlockDeltaView,
) -> EventView {
    match delta {
        BlockDeltaView::TextDelta { text } => EventView::OutputTextDelta(text),
        BlockDeltaView::InputJsonDelta { partial_json } => EventView::ToolCallInputDelta {
            item_id: input_item_id(item_ids, index),
            call_id: None,
            delta: partial_json,
        },
        BlockDeltaView::ThinkingDelta { thinking } => EventView::ReasoningContentDelta {
            delta: thinking,
            content_index: index as int,
        },
    }
}

/// The sum of the input and the output tokens.
pub open spec fn total_tokens(usage: AnthropicUsage) -> int {
    or_zero(usage.input_tokens) + or_zero(usage.output_tokens)
}

/// The token counts that a usage reports.
pub open spec fn anthropic_usage(usage: AnthropicUsage) -> TokenUsage {
    TokenUsage {
        input_tokens: or_zero(usage.input_tokens),
        cached_input_tokens: 0,
        output_tokens: or_zero(usage.output_tokens),
        reasoning_output_tokens: 0,
        total_tokens: total_tokens(usage) as i64,
    }
}

/// The total of the tokens that the input reports, if it reports any, can be
/// counted.
pub open spec fn countable(input: AnthropicInputView) -> bool {
    match input {
        AnthropicInputView::Event(
            Some(StreamEventView::MessageDelta { usage: Some(usage), .. }),
        ) => i64::MIN <= total_tokens(usage) <= i64::MAX,
        _ => true,
    }
}

/// Whether the total of the tokens that `input` reports, if it reports any, can
/// be counted.
pub fn is_countable(input: &AnthropicInput) -> (yes: bool)
    ensures
        yes == countable(input.deep_view()),
{
    if let AnthropicInput::Event(Some(AnthropicStreamEvent::MessageDelta { usage: Some(usage), .. }))
        = input {
        let output = count_or_zero(usage.output_tokens);
        count_or_zero(usage.input_tokens).checked_add(output).is_some()
    } else {
        true
    }
}

/// The event that completes a stream in the state `state`.
pub open spec fn anthropic_completed(state: AnthropicState) -> EventView {
    EventView::Completed {
        response_id: match state.response_id {
            Some(id) => id,
            None => Seq::empty(),
        },
        token_usage: state.token_usage,
        end_turn: state.end_turn,
    }
}

/// The state after an event.
pub open spec fn event_next(state: AnthropicState, event: StreamEventView) -> AnthropicState {
    match event {
        StreamEventView::MessageStart { id, .. } => {
            AnthropicState { response_id: Some(id), ..state }
        },
        StreamEventView::ContentBlockStart { index, content_block } => AnthropicState {
            item_ids: state.item_ids.insert(index, block_item_id(content_block, index)),
            ..state
        },
        StreamEventView::MessageDelta { stop_reason, usage } => AnthropicState {
            end_turn: match stop_reason {
                Some(reason) => Some(reason == "end_turn"@ || reason == "stop_sequence"@),
                None => None,
            },
            token_usage: match usage {
                Some(usage) => Some(anthropic_usage(usage)),
                None => state.token_usage,
            },
            ..state
        },
        StreamEventView::MessageStop => AnthropicState { done: true, ..state },
        StreamEventView::Error { .. } => AnthropicState { done: true, ..state },
        _ => state,
    }
}

/// What the consumer gets for an event.
pub open spec fn event_outcomes(state: AnthropicState, event: StreamEventView) -> Seq<
    OutcomeView,
> {
    match event {
        StreamEventView::MessageStart { model, .. } => seq![Ok(EventView::ServerModel(model))],
        StreamEventView::ContentBlockStart { index, content_block } => {
            match block_item(content_block, index) {
                Some(item) => seq![Ok(EventView::OutputItemAdded(item))],
                None => Seq::empty(),
            }
        },
        StreamEventView::ContentBlockDelta { index, delta } => {
            seq![Ok(delta_event(state.item_ids, index, delta))]
        },
        StreamEventView::MessageStop => seq![Ok(anthropic_completed(state))],
        StreamEventView::Error { message, error_type } => {
            seq![Err("Anthropic API error: "@ + message + " ("@ + error_type + ")"@)]
        },
        _ => Seq::empty(),
    }
}

/// The state after an input.
pub open spec fn anthropic_next(state: AnthropicState, input: AnthropicInputView) -> AnthropicState {
    if state.done {
        state
    } else {
        match input {
            AnthropicInputView::Event(Some(event)) => event_next(state, event),
            AnthropicInputView::Event(None) => state,
            _ => AnthropicState { done: true, ..state },
        }
    }
}

/// What the consumer gets for an input.
pub open spec fn anthropic_outcomes(state: AnthropicState, input: AnthropicInputView) -> Seq<
    OutcomeView,
> {
    if state.done {
        Seq::empty()
    } else {
        match input {
            AnthropicInputView::Event(Some(event)) => event_outcomes(state, event),
            AnthropicInputView::Event(None) => Seq::empty(),
            AnthropicInputView::TransportError(detail) => {
                seq![Err("SSE stream error: "@ + detail)]
            },
            AnthropicInputView::Closed => seq![Err("stream closed before completion"@)],
            AnthropicInputView::IdleTimeout => seq![Err("stream idle timeout"@)],
        }
    }
}

/// The state of one Anthropic stream.
pub struct AnthropicStream {
    response_id: Option<String>,
    token_usage: Option<TokenUsage>,
    end_turn: Option<bool>,
    block_index_to_item_id: HashMap<u32, String>,
    done: bool,
}

spec fn item_ids_view(item_ids: Map<u32, String>) -> Map<u32, Seq<char>> {
    item_ids.map_values(|id: String| id@)
}

impl AnthropicStream {
    /// The state that the stream is in.
    pub closed spec fn state(&self) -> AnthropicState {
        AnthropicState {
            response_id: self.response_id.deep_view(),
            token_usage: self.token_usage,
            end_turn: self.end_turn,
            item_ids: item_ids_view(self.block_index_to_item_id@),
            done: self.done,
        }
    }

    /// A stream that has seen nothing yet.
    pub fn new() -> (stream: Self)
        ensures
            stream.state() == anthropic_start(),
    {
        let stream = AnthropicStream {
            response_id: None,
            token_usage: None,
            end_turn: None,
            block_index_to_item_id: HashMap::new(),
            done: false,
        };
        assert(item_ids_view(stream.block_index_to_item_id@) =~= Map::empty());
        stream
    }

    /// Records the item id of the content block at `index`.
    fn record_item_id(&mut self, index: u32, item_id: String)
        ensures
            final(self).state() == (AnthropicState {
                item_ids: old(self).state().item_ids.insert(index, item_id@),
                ..old(self).state()
            }),
    {
        self.block_index_to_item_id.insert(index, item_id);
        assert(self.state().item_ids =~= old(self).state().item_ids.insert(index, item_id@));
    }

    /// Takes in the start of a content block.
    fn start_block(
        &mut self,
        index: u32,
        content_block: AnthropicContentBlock,
        outcomes: &mut Vec<StreamOutcome>,
    )
        requires
            old(outcomes)@.len() == 0,
        ensures
            ({
                let event = StreamEventView::ContentBlockStart {
                    index,
                    content_block: content_block.deep_view(),
                };
                &&& final(self).state() == event_next(old(self).state(), event)
                &&& outcomes_view(final(outcomes)@) == event_outcomes(old(self).state(), event)
            }),
    {
        let ghost expected = block_item(content_block.deep_view(), index);
        assert(outcomes_view(outcomes@) =~= Seq::empty());
        match content_block {
            AnthropicContentBlock::Text => {
                self.record_item_id(index, numbered_text("msg_", index));
            },
            AnthropicContentBlock::ToolUse { id, name, input } => {
                let item_id = numbered_text("tool_", index);
                self.record_item_id(index, item_id.clone());
                let function_call = ResponseItem::FunctionCall {
                    id: Some(item_id),
                    name,
                    namespace: None,
                    arguments: json_to_string(&input),
                    call_id: id,
                };
                assert(function_call.deep_view() == expected->0);
                emit(outcomes, ResponseEvent::OutputItemAdded(function_call));
            },
            AnthropicContentBlock::Thinking => {
                let item_id = numbered_text("reasoning_", index);
                self.record_item_id(index, item_id.clone());
                let reasoning = ResponseItem::Reasoning {
                    id: item_id,
                    summary: Vec::new(),
                    content: None,
                    encrypted_content: None,
                };
                assert(reasoning.deep_view()->summary =~= Seq::empty());
                emit(outcomes, ResponseEvent::OutputItemAdded(reasoning));
            },
        }
        assert(outcomes_view(outcomes@) =~= (match expected {
            Some(item) => seq![Ok(EventView::OutputItemAdded(item))],
            None => Seq::empty(),
        }));
    }

    /// The event of a piece of the content block at `index`.
    fn delta(&self, index: u32, delta: AnthropicDelta) -> (event: ResponseEvent)
        ensures
            event.deep_view() == delta_event(self.state().item_ids, index, delta.deep_view()),
    {
        match delta {
            AnthropicDelta::TextDelta { text } => ResponseEvent::OutputTextDelta(text),
            AnthropicDelta::InputJsonDelta { partial_json } => {
                let item_id = match self.block_index_to_item_id.get(&index) {
                    Some(item_id) => item_id.clone(),
                    None => numbered_text("tool_", index),
                };
                ResponseEvent::ToolCallInputDelta { item_id, call_id: None, delta: partial_json }
            },
            AnthropicDelta::ThinkingDelta { thinking } => {
                ResponseEvent::ReasoningContentDelta {
                    delta: thinking,
                    content_index: index as i64,
                }
            },
        }
    }

    /// Takes in one event.
    fn add_event(&mut self, event: AnthropicStreamEvent, outcomes: &mut Vec<StreamOutcome>)
        requires
            countable(AnthropicInputView::Event(Some(event.deep_view()))),
            old(outcomes)@.len() == 0,
        ensures
            final(self).state() == event_next(old(self).state(), event.deep_view()),
            outcomes_view(final(outcomes)@) == event_outcomes(
                old(self).state(),
                event.deep_view(),
            ),
    {
        let ghost expected = event_outcomes(self.state(), event.deep_view());
        assert(outcomes_view(outcomes@) =~= Seq::empty());
        match event {
            AnthropicStreamEvent::MessageStart { message } => {
                self.response_id = Some(message.id);
                emit(outcomes, ResponseEvent::ServerModel(message.model));
            },
            AnthropicStreamEvent::ContentBlockStart { index, content_block } => {
                self.start_block(index, content_block, outcomes);
            },
            AnthropicStreamEvent::ContentBlockDelta { index, delta } => {
                let event = self.delta(index, delta);
                emit(outcomes, event);
            },
            AnthropicStreamEvent::ContentBlockStop => {},
            AnthropicStreamEvent::MessageDelta { delta, usage } => {
                self.end_turn = match &delta.stop_reason {
                    Some(reason) => Some(
                        same_text(reason.as_str(), "end_turn") || same_text(
                            reason.as_str(),
                            "stop_sequence",
                        ),
                    ),
                    None => None,
                };
                if let Some(usage) = usage {
                    let input_tokens = count_or_zero(usage.input_tokens);
                    let output_tokens = count_or_zero(usage.output_tokens);
                    self.token_usage = Some(
                        TokenUsage {
                            input_tokens,
                            cached_input_tokens: 0,
                            output_tokens,
                            reasoning_output_tokens: 0,
                            total_tokens: input_tokens + output_tokens,
                        },
                    );
                }
            },
            AnthropicStreamEvent::MessageStop => {
                let response_id = match &self.response_id {
                    Some(id) => id.clone(),
                    None => String::new(),
                };
                emit(
                    outcomes,
                    ResponseEvent::Completed {
                        response_id,
                        token_usage: self.token_usage,
                        end_turn: self.end_turn,
                    },
                );
                self.done = true;
            },
            AnthropicStreamEvent::Error { error } => {
                let message = join2(
                    join2(
                        join2(
                            join2("Anthropic API error: ", error.message.as_str()).as_str(),
                            " (",
                        ).as_str(),
                        error.error_type.as_str(),
                    ).as_str(),
                    ")",
                );
                emit_error(outcomes, message);
                self.done = true;
            },
            AnthropicStreamEvent::Unknown => {},
        }
        assert(outcomes_view(outcomes@) =~= expected);
    }

    /// Takes in one input. What it makes the consumer get stands in the step,
    /// as does whether the stream is now over. A stream that is over takes in
    /// nothing more.
    pub fn step(&mut self, input: AnthropicInput) -> (step: StreamStep)
        requires
            countable(input.deep_view()),
        ensures
            final(self).state() == anthropic_next(old(self).state(), input.deep_view()),
            outcomes_view(step.outcomes@) == anthropic_outcomes(
                old(self).state(),
                input.deep_view(),
            ),
            step.done == final(self).state().done,
    {
        let ghost expected = anthropic_outcomes(self.state(), input.deep_view());
        let mut outcomes: Vec<StreamOutcome> = Vec::new();
        assert(outcomes_view(outcomes@) =~= Seq::empty());
        if !self.done {
            match input {
                AnthropicInput::Event(event) => {
                    if let Some(event) = event {
                        self.add_event(event, &mut outcomes);
                    }
                },
                AnthropicInput::TransportError(detail) => {
                    emit_error(&mut outcomes, join2("SSE stream error: ", detail.as_str()));
                    self.done = true;
                },
                AnthropicInput::Closed => {
                    emit_error(&mut outcomes, "stream closed before completion".to_owned());
                    self.done = true;
                },
                AnthropicInput::IdleTimeout => {
                    emit_error(&mut outcomes, "stream idle timeout".to_owned());
                    self.done = true;
                },
            }
        }
        assert(outcomes_view(outcomes@) =~= expected);
        StreamStep { outcomes, done: self.done }
    }
}

} // verus!
