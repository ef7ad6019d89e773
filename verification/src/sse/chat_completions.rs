//! The Chat Completions stream: chunks in, shared response events out.
//!
//! A [`ChatCompletionsStream`] is the state of one response. Whoever reads the
//! transport feeds it one [`ChatInput`] at a time and forwards what comes back
//! until the step says that the stream is over.

use std::collections::HashMap;

use vstd::prelude::*;

use crate::common::{
    all_ok, count_or_zero, emit, emit_error, lemma_all_ok_append,
    or_zero, outcomes_view, EventView, ItemView, OutcomeView, ResponseEvent, ResponseItem,
    StreamOutcome, StreamStep, TokenUsage,
};
use crate::text::{join2, numbered, numbered_text, same_text, trim, trimmed};

verus! {

/// One chunk of the stream.
#[derive(Debug)]
pub struct ChatCompletionsChunk {
    pub id: Option<String>,
    pub model: Option<String>,
    pub choices: Option<Vec<ChatChoice>>,
    pub usage: Option<ChatUsage>,
    pub error: Option<ChatError>,
}

#[derive(Debug)]
pub struct ChatChoice {
    pub delta: Option<ChatDelta>,
    pub finish_reason: Option<String>,
}

#[derive(Debug)]
pub struct ChatDelta {
    pub content: Option<String>,
    pub tool_calls: Option<Vec<ChatToolCall>>,
    pub reasoning_content: Option<String>,
}

/// A fragment of a tool call. Fragments with the same index belong together.
#[derive(Debug)]
pub struct ChatToolCall {
    pub index: Option<u32>,
    pub id: Option<String>,
    pub function: Option<ChatFunctionCall>,
}

#[derive(Debug)]
pub struct ChatFunctionCall {
    pub name: Option<String>,
    pub arguments: Option<String>,
}

#[derive(Debug, Clone, Copy)]
pub struct ChatUsage {
    pub prompt_tokens: Option<i64>,
    pub completion_tokens: Option<i64>,
    pub total_tokens: Option<i64>,
}

#[derive(Debug)]
pub struct ChatError {
    pub message: String,
}

/// What a [`ChatCompletionsChunk`] holds.
pub struct ChunkView {
    pub id: Option<Seq<char>>,
    pub model: Option<Seq<char>>,
    pub choices: Option<Seq<ChoiceView>>,
    pub usage: Option<ChatUsage>,
    pub error: Option<Seq<char>>,
}

/// What a [`ChatChoice`] holds.
pub struct ChoiceView {
    pub delta: Option<DeltaView>,
    pub finish_reason: Option<Seq<char>>,
}

/// What a [`ChatDelta`] holds.
pub struct DeltaView {
    pub content: Option<Seq<char>>,
    pub tool_calls: Option<Seq<ToolCallView>>,
    pub reasoning_content: Option<Seq<char>>,
}

/// What a [`ChatToolCall`] holds.
pub struct ToolCallView {
    pub index: Option<u32>,
    pub id: Option<Seq<char>>,
    pub function: Option<FunctionCallView>,
}

/// What a [`ChatFunctionCall`] holds.
pub struct FunctionCallView {
    pub name: Option<Seq<char>>,
    pub arguments: Option<Seq<char>>,
}

impl DeepView for ChatCompletionsChunk {
    type V = ChunkView;

    open spec fn deep_view(&self) -> ChunkView {
        ChunkView {
            id: self.id.deep_view(),
            model: self.model.deep_view(),
            choices: self.choices.deep_view(),
            usage: self.usage,
            error: match self.error {
                Some(error) => Some(error.message@),
                None => None,
            },
        }
    }
}

impl DeepView for ChatChoice {
    type V = ChoiceView;

    open spec fn deep_view(&self) -> ChoiceView {
        ChoiceView { delta: self.delta.deep_view(), finish_reason: self.finish_reason.deep_view() }
    }
}

impl DeepView for ChatDelta {
    type V = DeltaView;

    open spec fn deep_view(&self) -> DeltaView {
        DeltaView {
            content: self.content.deep_view(),
            tool_calls: self.tool_calls.deep_view(),
            reasoning_content: self.reasoning_content.deep_view(),
        }
    }
}

impl DeepView for ChatToolCall {
    type V = ToolCallView;

    open spec fn deep_view(&self) -> ToolCallView {
        ToolCallView {
            index: self.index,
            id: self.id.deep_view(),
            function: self.function.deep_view(),
        }
    }
}

impl DeepView for ChatFunctionCall {
    type V = FunctionCallView;

    open spec fn deep_view(&self) -> FunctionCallView {
        FunctionCallView { name: self.name.deep_view(), arguments: self.arguments.deep_view() }
    }
}

/// What the transport reports.
#[derive(Debug)]
pub enum ChatInput {
    /// A server-sent event with its data, and the chunk that the payload of
    /// that data parses to (see [`payload`]), `None` where it does not parse.
    Message { data: String, chunk: Option<ChatCompletionsChunk> },
    /// Reading the stream failed, with this description.
    TransportError(String),
    /// The stream ended.
    Closed,
    /// Nothing arrived for the idle timeout.
    IdleTimeout,
}

/// What a [`ChatInput`] holds.
pub enum ChatInputView {
    Message { data: Seq<char>, chunk: Option<ChunkView> },
    TransportError(Seq<char>),
    Closed,
    IdleTimeout,
}

impl DeepView for ChatInput {
    type V = ChatInputView;

    open spec fn deep_view(&self) -> ChatInputView {
        match self {
            ChatInput::Message { data, chunk } => {
                ChatInputView::Message { data: data@, chunk: chunk.deep_view() }
            },
            ChatInput::TransportError(detail) => ChatInputView::TransportError(detail@),
            ChatInput::Closed => ChatInputView::Closed,
            ChatInput::IdleTimeout => ChatInputView::IdleTimeout,
        }
    }
}

/// What is known of a tool call so far.
#[derive(Debug)]
pub struct ToolCallBuilder {
    pub id: Option<String>,
    pub name: Option<String>,
}

/// What a [`ToolCallBuilder`] holds.
pub struct BuilderView {
    pub id: Option<Seq<char>>,
    pub name: Option<Seq<char>>,
}

impl DeepView for ToolCallBuilder {
    type V = BuilderView;

    open spec fn deep_view(&self) -> BuilderView {
        BuilderView { id: self.id.deep_view(), name: self.name.deep_view() }
    }
}

/// The state of a stream.
pub struct ChatState {
    pub response_id: Option<Seq<char>>,
    pub token_usage: Option<TokenUsage>,
    pub end_turn: Option<bool>,
    pub builders: Map<u32, BuilderView>,
    pub done: bool,
}

/// The state before anything has arrived.
pub open spec fn chat_start() -> ChatState {
    ChatState {
        response_id: None,
        token_usage: None,
        end_turn: None,
        builders: Map::empty(),
        done: false,
    }
}

/// The index of a tool call, which is 0 where it is not given.
pub open spec fn call_index(call: ToolCallView) -> u32 {
    match call.index {
        Some(index) => index,
        None => 0,
    }
}

/// What is known of the tool call at `index`.
pub open spec fn builder_at(builders: Map<u32, BuilderView>, index: u32) -> BuilderView {
    if builders.contains_key(index) {
        builders[index]
    } else {
        BuilderView { id: None, name: None }
    }
}

/// What is known of a tool call after the fragment `call`: an id or a name that
/// the fragment gives replaces the one before.
pub open spec fn builder_after(builder: BuilderView, call: ToolCallView) -> BuilderView {
    BuilderView {
        id: if call.id is Some {
            call.id
        } else {
            builder.id
        },
        name: match call.function {
            Some(function) if function.name is Some => function.name,
            _ => builder.name,
        },
    }
}

/// All that is known of the tool calls after the fragment `call`.
pub open spec fn call_builders(builders: Map<u32, BuilderView>, call: ToolCallView) -> Map<
    u32,
    BuilderView,
> {
    builders.insert(
        call_index(call),
        builder_after(builder_at(builders, call_index(call)), call),
    )
}

/// The id by which the consumer knows the tool call at `index`: the provider's,
/// or one made from the index while the provider has given none.
pub open spec fn public_call_id(id: Option<Seq<char>>, index: u32) -> Seq<char> {
    match id {
        Some(id) => id,
        None => numbered("call_"@, index as nat),
    }
}

/// The events of the fragment `call`: the call is announced whenever its name
/// is given, and its arguments are passed on as they come.
pub open spec fn call_events(builders: Map<u32, BuilderView>, call: ToolCallView) -> Seq<
    EventView,
> {
    let index = call_index(call);
    let id = builder_after(builder_at(builders, index), call).id;
    match call.function {
        Some(function) => {
            let announced = match function.name {
                Some(name) => seq![
                    EventView::OutputItemAdded(
                        ItemView::FunctionCall {
                            id: Some(numbered("func_"@, index as nat)),
                            name,
                            namespace: None,
                            arguments: Seq::empty(),
                            call_id: public_call_id(id, index),
                        },
                    ),
                ],
                None => Seq::empty(),
            };
            let passed_on = match function.arguments {
                Some(arguments) => seq![
                    EventView::ToolCallInputDelta {
                        item_id: public_call_id(id, index),
                        call_id: id,
                        delta: arguments,
                    },
                ],
                None => Seq::empty(),
            };
            announced + passed_on
        },
        None => Seq::empty(),
    }
}

/// All that is known of the tool calls after the fragments `calls`.
pub open spec fn calls_builders(
    builders: Map<u32, BuilderView>,
    calls: Seq<ToolCallView>,
) -> Map<u32, BuilderView>
    decreases calls.len(),
{
    if calls.len() == 0 {
        builders
    } else {
        call_builders(calls_builders(builders, calls.drop_last()), calls.last())
    }
}

/// The events of the fragments `calls`, in order.
pub open spec fn calls_events(
    builders: Map<u32, BuilderView>,
    calls: Seq<ToolCallView>,
) -> Seq<EventView>
    decreases calls.len(),
{
    if calls.len() == 0 {
        Seq::empty()
    } else {
        calls_events(builders, calls.drop_last()) + call_events(
            calls_builders(builders, calls.drop_last()),
            calls.last(),
        )
    }
}

/// The tool call fragments of a choice.
pub open spec fn choice_calls(choice: ChoiceView) -> Seq<ToolCallView> {
    match choice.delta {
        Some(delta) => match delta.tool_calls {
            Some(calls) => calls,
            None => Seq::empty(),
        },
        None => Seq::empty(),
    }
}

/// The events of a choice: its text, its reasoning unless that is empty, then
/// its tool calls.
pub open spec fn choice_events(builders: Map<u32, BuilderView>, choice: ChoiceView) -> Seq<
    EventView,
> {
    match choice.delta {
        Some(delta) => {
            let text = match delta.content {
                Some(content) => seq![EventView::OutputTextDelta(content)],
                None => Seq::empty(),
            };
            let reasoning = match delta.reasoning_content {
                Some(reasoning) if reasoning.len() > 0 => seq![
                    EventView::ReasoningContentDelta { delta: reasoning, content_index: 0 },
                ],
                _ => Seq::empty(),
            };
            text + reasoning + calls_events(builders, choice_calls(choice))
        },
        None => Seq::empty(),
    }
}

/// All that is known of the tool calls after the choices `choices`.
pub open spec fn choices_builders(
    builders: Map<u32, BuilderView>,
    choices: Seq<ChoiceView>,
) -> Map<u32, BuilderView>
    decreases choices.len(),
{
    if choices.len() == 0 {
        builders
    } else {
        calls_builders(
            choices_builders(builders, choices.drop_last()),
            choice_calls(choices.last()),
        )
    }
}

/// The events of the choices `choices`, in order.
pub open spec fn choices_events(
    builders: Map<u32, BuilderView>,
    choices: Seq<ChoiceView>,
) -> Seq<EventView>
    decreases choices.len(),
{
    if choices.len() == 0 {
        Seq::empty()
    } else {
        choices_events(builders, choices.drop_last()) + choice_events(
            choices_builders(builders, choices.drop_last()),
            choices.last(),
        )
    }
}

/// Whether the turn ended, as the last finish reason tells; as before where no
/// choice has one.
pub open spec fn choices_end_turn(end_turn: Option<bool>, choices: Seq<ChoiceView>) -> Option<
    bool,
>
    decreases choices.len(),
{
    if choices.len() == 0 {
        end_turn
    } else {
        match choices.last().finish_reason {
            Some(reason) => Some(reason == "stop"@ || reason == "end_turn"@),
            None => choices_end_turn(end_turn, choices.drop_last()),
        }
    }
}

/// The token counts that a chunk's usage reports.
pub open spec fn chat_usage(usage: ChatUsage) -> TokenUsage {
    TokenUsage {
        input_tokens: or_zero(usage.prompt_tokens),
        cached_input_tokens: 0,
        output_tokens: or_zero(usage.completion_tokens),
        reasoning_output_tokens: 0,
        total_tokens: or_zero(usage.total_tokens),
    }
}

/// The choices of a chunk.
pub open spec fn chunk_choices(chunk: ChunkView) -> Seq<ChoiceView> {
    match chunk.choices {
        Some(choices) => choices,
        None => Seq::empty(),
    }
}

/// The state after a chunk: an error ends the stream, the first id that is
/// given stays, and the last usage and finish reason count.
pub open spec fn chunk_next(state: ChatState, chunk: ChunkView) -> ChatState {
    if chunk.error is Some {
        ChatState { done: true, ..state }
    } else {
        ChatState {
            response_id: if state.response_id is Some {
                state.response_id
            } else {
                chunk.id
            },
            token_usage: match chunk.usage {
                Some(usage) => Some(chat_usage(usage)),
                None => state.token_usage,
            },
            end_turn: choices_end_turn(state.end_turn, chunk_choices(chunk)),
            builders: choices_builders(state.builders, chunk_choices(chunk)),
            done: state.done,
        }
    }
}

/// The events of a chunk that reports no error.
pub open spec fn chunk_events(state: ChatState, chunk: ChunkView) -> Seq<EventView> {
    let model = match chunk.model {
        Some(model) => seq![EventView::ServerModel(model)],
        None => Seq::empty(),
    };
    model + choices_events(state.builders, chunk_choices(chunk))
}

/// The event that completes a stream in the state `state`.
pub open spec fn chat_completed(state: ChatState) -> EventView {
    EventView::Completed {
        response_id: match state.response_id {
            Some(id) => id,
            None => Seq::empty(),
        },
        token_usage: state.token_usage,
        end_turn: state.end_turn,
    }
}

/// The state after an input.
pub open spec fn chat_next(state: ChatState, input: ChatInputView) -> ChatState {
    if state.done {
        state
    } else {
        match input {
            ChatInputView::Message { data, chunk } => {
                if trimmed(data) == "[DONE]"@ {
                    ChatState { done: true, ..state }
                } else {
                    match chunk {
                        Some(chunk) => chunk_next(state, chunk),
                        None => state,
                    }
                }
            },
            _ => ChatState { done: true, ..state },
        }
    }
}

/// What the consumer gets for an input.
pub open spec fn chat_outcomes(state: ChatState, input: ChatInputView) -> Seq<OutcomeView> {
    if state.done {
        Seq::empty()
    } else {
        match input {
            ChatInputView::Message { data, chunk } => {
                if trimmed(data) == "[DONE]"@ {
                    seq![Ok(chat_completed(state))]
                } else {
                    match chunk {
                        Some(chunk) => match chunk.error {
                            Some(message) => seq![
                                Err("Chat Completions API error: "@ + message),
                            ],
                            None => all_ok(chunk_events(state, chunk)),
                        },
                        None => Seq::empty(),
                    }
                }
            },
            ChatInputView::TransportError(detail) => seq![Err("SSE stream error: "@ + detail)],
            ChatInputView::Closed => {
                if state.token_usage is Some || state.response_id is Some {
                    seq![Ok(chat_completed(state))]
                } else {
                    Seq::empty()
                }
            },
            ChatInputView::IdleTimeout => seq![Err("stream idle timeout"@)],
        }
    }
}

/// The state of one Chat Completions stream.
pub struct ChatCompletionsStream {
    response_id: Option<String>,
    token_usage: Option<TokenUsage>,
    end_turn: Option<bool>,
    tool_call_builders: HashMap<u32, ToolCallBuilder>,
    done: bool,
}

/// The part of an event's data that counts: the data without the white space
/// at its ends.
pub fn payload(data: &str) -> (payload: String)
    ensures
        payload@ == trimmed(data@),
{
    trim(data)
}

spec fn builders_view(builders: Map<u32, ToolCallBuilder>) -> Map<u32, BuilderView> {
    builders.map_values(|builder: ToolCallBuilder| builder.deep_view())
}

impl ChatCompletionsStream {
    /// The state that the stream is in.
    pub closed spec fn state(&self) -> ChatState {
        ChatState {
            response_id: self.response_id.deep_view(),
            token_usage: self.token_usage,
            end_turn: self.end_turn,
            builders: builders_view(self.tool_call_builders@),
            done: self.done,
        }
    }

    /// A stream that has seen nothing yet.
    pub fn new() -> (stream: Self)
        ensures
            stream.state() == chat_start(),
    {
        let stream = ChatCompletionsStream {
            response_id: None,
            token_usage: None,
            end_turn: None,
            tool_call_builders: HashMap::new(),
            done: false,
        };
        assert(builders_view(stream.tool_call_builders@) =~= Map::empty());
        stream
    }

    /// Takes in one fragment of a tool call.
    fn add_call(&mut self, call: &ChatToolCall, outcomes: &mut Vec<StreamOutcome>)
        ensures
            final(self).state() == (ChatState {
                builders: call_builders(old(self).state().builders, call.deep_view()),
                ..old(self).state()
            }),
            outcomes_view(final(outcomes)@) == outcomes_view(old(outcomes)@) + all_ok(
                call_events(old(self).state().builders, call.deep_view()),
            ),
    {
        let index = match call.index {
            Some(index) => index,
            None => 0,
        };
        let ghost before = self.state().builders;
        let ghost events = call_events(before, call.deep_view());
        let mut builder = match self.tool_call_builders.remove(&index) {
            Some(builder) => builder,
            None => ToolCallBuilder { id: None, name: None },
        };
        assert(builder.deep_view() == builder_at(before, index));
        if let Some(id) = &call.id {
            builder.id = Some(id.clone());
        }
        if let Some(function) = &call.function {
            if let Some(name) = &function.name {
                builder.name = Some(name.clone());
                let call_id = call_id_text(&builder.id, index);
                emit(
                    outcomes,
                    ResponseEvent::OutputItemAdded(
                        ResponseItem::FunctionCall {
                            id: Some(numbered_text("func_", index)),
                            name: name.clone(),
                            namespace: None,
                            arguments: String::new(),
                            call_id,
                        },
                    ),
                );
            }
            if let Some(arguments) = &function.arguments {
                let item_id = call_id_text(&builder.id, index);
                emit(
                    outcomes,
                    ResponseEvent::ToolCallInputDelta {
                        item_id,
                        call_id: builder.id.clone(),
                        delta: arguments.clone(),
                    },
                );
            }
        }
        assert(outcomes_view(outcomes@) =~= outcomes_view(old(outcomes)@) + all_ok(events));
        self.tool_call_builders.insert(index, builder);
        assert(self.state().builders =~= call_builders(before, call.deep_view()));
    }

    /// Takes in one choice of a chunk.
    fn add_choice(&mut self, choice: &ChatChoice, outcomes: &mut Vec<StreamOutcome>)
        ensures
            final(self).state() == (ChatState {
                builders: calls_builders(
                    old(self).state().builders,
                    choice_calls(choice.deep_view()),
                ),
                end_turn: choices_end_turn(old(self).state().end_turn, seq![choice.deep_view()]),
                ..old(self).state()
            }),
            outcomes_view(final(outcomes)@) == outcomes_view(old(outcomes)@) + all_ok(
                choice_events(old(self).state().builders, choice.deep_view()),
            ),
    {
        let ghost before = self.state();
        let ghost calls = choice_calls(choice.deep_view());
        let ghost events = choice_events(before.builders, choice.deep_view());
        if let Some(delta) = &choice.delta {
            if let Some(content) = &delta.content {
                emit(outcomes, ResponseEvent::OutputTextDelta(content.clone()));
            }
            if let Some(reasoning) = &delta.reasoning_content {
                if !reasoning.as_str().is_empty() {
                    emit(
                        outcomes,
                        ResponseEvent::ReasoningContentDelta {
                            delta: reasoning.clone(),
                            content_index: 0,
                        },
                    );
                }
            }
            let ghost said = outcomes_view(outcomes@);
            if let Some(tool_calls) = &delta.tool_calls {
                let mut i: usize = 0;
                assert(calls.take(0) =~= Seq::empty());
                assert(said + all_ok(calls_events(before.builders, calls.take(0))) =~= said);
                while i < tool_calls.len()
                    invariant
                        i <= tool_calls@.len(),
                        calls == tool_calls.deep_view(),
                        self.state() == (ChatState {
                            builders: calls_builders(before.builders, calls.take(i as int)),
                            ..before
                        }),
                        outcomes_view(outcomes@) == said + all_ok(
                            calls_events(before.builders, calls.take(i as int)),
                        ),
                    decreases tool_calls@.len() - i,
                {
                    let ghost done = calls.take(i as int);
                    let ghost next = calls.take(i + 1);
                    self.add_call(&tool_calls[i], outcomes);
                    i += 1;
                    proof {
                        assert(next.drop_last() =~= done);
                        assert(next.last() == tool_calls@[i - 1].deep_view());
                        lemma_all_ok_append(
                            calls_events(before.builders, done),
                            call_events(calls_builders(before.builders, done), next.last()),
                        );
                        assert(outcomes_view(outcomes@) =~= said + all_ok(
                            calls_events(before.builders, next),
                        ));
                    }
                }
                assert(calls.take(i as int) =~= calls);
            }
            assert(outcomes_view(outcomes@) =~= outcomes_view(old(outcomes)@) + all_ok(events));
        }
        assert(outcomes_view(outcomes@) =~= outcomes_view(old(outcomes)@) + all_ok(events));
        if let Some(finish_reason) = &choice.finish_reason {
            let reason = finish_reason.as_str();
            self.end_turn = Some(same_text(reason, "stop") || same_text(reason, "end_turn"));
        }
        proof {
            let one = seq![choice.deep_view()];
            assert(one.drop_last() =~= Seq::empty());
            assert(one.last() == choice.deep_view());
            reveal_with_fuel(choices_end_turn, 2);
        }
    }

    /// Takes in one chunk.
    fn add_chunk(&mut self, chunk: ChatCompletionsChunk, outcomes: &mut Vec<StreamOutcome>)
        requires
            old(outcomes)@.len() == 0,
        ensures
            final(self).state() == chunk_next(old(self).state(), chunk.deep_view()),
            outcomes_view(final(outcomes)@) == (match chunk.deep_view().error {
                Some(message) => seq![Err("Chat Completions API error: "@ + message)],
                None => all_ok(chunk_events(old(self).state(), chunk.deep_view())),
            }),
    {
        let ghost before = self.state();
        let ghost view = chunk.deep_view();
        let ghost choices_seen = chunk_choices(view);
        assert(outcomes_view(outcomes@) =~= Seq::empty());
        if let Some(error) = &chunk.error {
            let message = join2("Chat Completions API error: ", error.message.as_str());
            emit_error(outcomes, message);
            self.done = true;
            assert(outcomes_view(outcomes@) =~= seq![Err(message@)]);
            return;
        }
        if self.response_id.is_none() {
            self.response_id = chunk.id.clone();
        }
        if let Some(model) = &chunk.model {
            emit(outcomes, ResponseEvent::ServerModel(model.clone()));
        }
        let ghost said = outcomes_view(outcomes@);
        let ghost started = self.state();
        if let Some(choices) = &chunk.choices {
            let mut i: usize = 0;
            assert(choices_seen.take(0) =~= Seq::empty());
            assert(said + all_ok(choices_events(before.builders, choices_seen.take(0))) =~= said);
            while i < choices.len()
                invariant
                    i <= choices@.len(),
                    choices_seen == choices.deep_view(),
                    started.builders == before.builders,
                    started.end_turn == before.end_turn,
                    self.state() == (ChatState {
                        builders: choices_builders(before.builders, choices_seen.take(i as int)),
                        end_turn: choices_end_turn(before.end_turn, choices_seen.take(i as int)),
                        ..started
                    }),
                    outcomes_view(outcomes@) == said + all_ok(
                        choices_events(before.builders, choices_seen.take(i as int)),
                    ),
                decreases choices@.len() - i,
            {
                let ghost done = choices_seen.take(i as int);
                let ghost next = choices_seen.take(i + 1);
                let ghost ended = self.state().end_turn;
                self.add_choice(&choices[i], outcomes);
                i += 1;
                proof {
                    assert(next.drop_last() =~= done);
                    assert(next.last() == choices@[i - 1].deep_view());
                    lemma_all_ok_append(
                        choices_events(before.builders, done),
                        choice_events(choices_builders(before.builders, done), next.last()),
                    );
                    assert(outcomes_view(outcomes@) =~= said + all_ok(
                        choices_events(before.builders, next),
                    ));
                    let one = seq![next.last()];
                    assert(one.drop_last() =~= Seq::empty());
                    assert(choices_end_turn(ended, one.drop_last()) == ended);
                }
            }
            assert(choices_seen.take(i as int) =~= choices_seen);
        }
        assert(outcomes_view(outcomes@) =~= all_ok(chunk_events(before, view)));
        if let Some(usage) = &chunk.usage {
            self.token_usage = Some(
                TokenUsage {
                    input_tokens: count_or_zero(usage.prompt_tokens),
                    cached_input_tokens: 0,
                    output_tokens: count_or_zero(usage.completion_tokens),
                    reasoning_output_tokens: 0,
                    total_tokens: count_or_zero(usage.total_tokens),
                },
            );
        }
    }

    /// Completes the stream.
    fn complete(&mut self, outcomes: &mut Vec<StreamOutcome>)
        ensures
            final(self).state() == (ChatState { done: true, ..old(self).state() }),
            outcomes_view(final(outcomes)@) == outcomes_view(old(outcomes)@).push(
                Ok(chat_completed(old(self).state())),
            ),
    {
        let response_id = match &self.response_id {
            Some(id) => id.clone(),
            None => String::new(),
        };
        emit(
            outcomes,
            ResponseEvent::Completed {
                response_id,
                token_usage: self.token_usage,
                end_turn: self.end_turn,
            },
        );
        self.done = true;
    }

    /// Takes in one input. What it makes the consumer get stands in the step,
    /// as does whether the stream is now over. A stream that is over takes in
    /// nothing more.
    pub fn step(&mut self, input: ChatInput) -> (step: StreamStep)
        ensures
            final(self).state() == chat_next(old(self).state(), input.deep_view()),
            outcomes_view(step.outcomes@) == chat_outcomes(old(self).state(), input.deep_view()),
            step.done == final(self).state().done,
    {
        let ghost before = self.state();
        let mut outcomes: Vec<StreamOutcome> = Vec::new();
        let ghost expected = chat_outcomes(before, input.deep_view());
        assert(outcomes_view(outcomes@) =~= Seq::empty());
        if !self.done {
            match input {
                ChatInput::Message { data, chunk } => {
                    if same_text(payload(data.as_str()).as_str(), "[DONE]") {
                        self.complete(&mut outcomes);
                    } else if let Some(chunk) = chunk {
                        self.add_chunk(chunk, &mut outcomes);
                    }
                },
                ChatInput::TransportError(detail) => {
                    emit_error(&mut outcomes, join2("SSE stream error: ", detail.as_str()));
                    self.done = true;
                },
                ChatInput::Closed => {
                    if self.token_usage.is_some() || self.response_id.is_some() {
                        self.complete(&mut outcomes);
                    } else {
                        self.done = true;
                    }
                },
                ChatInput::IdleTimeout => {
                    emit_error(&mut outcomes, "stream idle timeout".to_owned());
                    self.done = true;
                },
            }
        }
        assert(outcomes_view(outcomes@) =~= expected);
        StreamStep { outcomes, done: self.done }
    }
}

/// The id by which the consumer knows the tool call at `index`.
fn call_id_text(id: &Option<String>, index: u32) -> (text: String)
    ensures
        text@ == public_call_id(id.deep_view(), index),
{
    match id {
        Some(id) => id.clone(),
        None => numbered_text("call_", index),
    }
}

} // verus!
