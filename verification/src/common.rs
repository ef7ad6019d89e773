//! Events that every provider stream is mapped into.

use vstd::prelude::*;

use crate::error::ApiError;

verus! {

/// Token counts of one response.
#[derive(Debug, Clone, Copy, PartialEq, Eq, Structural)]
pub struct TokenUsage {
    pub input_tokens: i64,
    pub cached_input_tokens: i64,
    pub output_tokens: i64,
    pub reasoning_output_tokens: i64,
    pub total_tokens: i64,
}

/// An item that a response adds to the conversation.
#[derive(Debug)]
#[allow(inconsistent_fields)]
pub enum ResponseItem {
    FunctionCall {
        id: Option<String>,
        name: String,
        namespace: Option<String>,
        arguments: String,
        call_id: String,
    },
    Reasoning {
        id: String,
        summary: Vec<String>,
        content: Option<Vec<String>>,
        encrypted_content: Option<String>,
    },
}

/// What a [`ResponseItem`] holds.
#[allow(inconsistent_fields)]
pub enum ItemView {
    FunctionCall {
        id: Option<Seq<char>>,
        name: Seq<char>,
        namespace: Option<Seq<char>>,
        arguments: Seq<char>,
        call_id: Seq<char>,
    },
    Reasoning {
        id: Seq<char>,
        summary: Seq<Seq<char>>,
        content: Option<Seq<Seq<char>>>,
        encrypted_content: Option<Seq<char>>,
    },
}

impl DeepView for ResponseItem {
    type V = ItemView;

    open spec fn deep_view(&self) -> ItemView {
        match self {
            ResponseItem::FunctionCall { id, name, namespace, arguments, call_id } => {
                ItemView::FunctionCall {
                    id: id.deep_view(),
                    name: name@,
                    namespace: namespace.deep_view(),
                    arguments: arguments@,
                    call_id: call_id@,
                }
            },
            ResponseItem::Reasoning { id, summary, content, encrypted_content } => {
                ItemView::Reasoning {
                    id: id@,
                    summary: summary.deep_view(),
                    content: content.deep_view(),
                    encrypted_content: encrypted_content.deep_view(),
                }
            },
        }
    }
}

/// An event of a response stream, whichever provider sent it.
#[derive(Debug)]
pub enum ResponseEvent {
    /// The model that answers.
    ServerModel(String),
    /// An item began.
    OutputItemAdded(ResponseItem),
    /// More text of the answer.
    OutputTextDelta(String),
    /// More of a tool call's input.
    ToolCallInputDelta { item_id: String, call_id: Option<String>, delta: String },
    /// More of the model's reasoning.
    ReasoningContentDelta { delta: String, content_index: i64 },
    /// The response is complete.
    Completed { response_id: String, token_usage: Option<TokenUsage>, end_turn: Option<bool> },
}

/// What a [`ResponseEvent`] holds.
pub enum EventView {
    ServerModel(Seq<char>),
    OutputItemAdded(ItemView),
    OutputTextDelta(Seq<char>),
    ToolCallInputDelta { item_id: Seq<char>, call_id: Option<Seq<char>>, delta: Seq<char> },
    ReasoningContentDelta { delta: Seq<char>, content_index: int },
    Completed { response_id: Seq<char>, token_usage: Option<TokenUsage>, end_turn: Option<bool> },
}

impl DeepView for ResponseEvent {
    type V = EventView;

    open spec fn deep_view(&self) -> EventView {
        match self {
            ResponseEvent::ServerModel(model) => EventView::ServerModel(model@),
            ResponseEvent::OutputItemAdded(item) => EventView::OutputItemAdded(item.deep_view()),
            ResponseEvent::OutputTextDelta(delta) => EventView::OutputTextDelta(delta@),
            ResponseEvent::ToolCallInputDelta { item_id, call_id, delta } => {
                EventView::ToolCallInputDelta {
                    item_id: item_id@,
                    call_id: call_id.deep_view(),
                    delta: delta@,
                }
            },
            ResponseEvent::ReasoningContentDelta { delta, content_index } => {
                EventView::ReasoningContentDelta {
                    delta: delta@,
                    content_index: *content_index as int,
                }
            },
            ResponseEvent::Completed { response_id, token_usage, end_turn } => {
                EventView::Completed {
                    response_id: response_id@,
                    token_usage: *token_usage,
                    end_turn: *end_turn,
                }
            },
        }
    }
}

/// One thing that a stream hands to its consumer: an event, or the error
/// message that ends the stream.
pub type StreamOutcome = Result<ResponseEvent, ApiError>;

/// What a [`StreamOutcome`] holds.
pub type OutcomeView = Result<EventView, Seq<char>>;

pub open spec fn outcome_view(outcome: StreamOutcome) -> OutcomeView {
    match outcome {
        Ok(event) => Ok(event.deep_view()),
        Err(error) => Err(error.deep_view()),
    }
}

pub open spec fn outcomes_view(outcomes: Seq<StreamOutcome>) -> Seq<OutcomeView> {
    outcomes.map_values(|outcome: StreamOutcome| outcome_view(outcome))
}

/// Nothing may follow a terminal outcome.
pub open spec fn is_terminal(outcome: OutcomeView) -> bool {
    match outcome {
        Ok(event) => event is Completed,
        Err(_) => true,
    }
}

/// No outcome of the list is terminal.
pub open spec fn none_terminal(outcomes: Seq<OutcomeView>) -> bool {
    forall|i: int| 0 <= i < outcomes.len() ==> !is_terminal(#[trigger] outcomes[i])
}

/// The list of the events `events` as outcomes.
pub open spec fn all_ok(events: Seq<EventView>) -> Seq<OutcomeView> {
    events.map_values(|event: EventView| -> OutcomeView { Ok(event) })
}

/// Events handed out one list after the other are the outcomes of both lists.
pub proof fn lemma_all_ok_append(first: Seq<EventView>, second: Seq<EventView>)
    ensures
        all_ok(first + second) == all_ok(first) + all_ok(second),
{
    assert(all_ok(first + second) =~= all_ok(first) + all_ok(second));
}

/// The text of the answer that an outcome brings.
pub open spec fn outcome_text(outcome: OutcomeView) -> Seq<char> {
    match outcome {
        Ok(EventView::OutputTextDelta(delta)) => delta,
        _ => Seq::empty(),
    }
}

/// The text of the answer that a list of outcomes brings.
pub open spec fn answer_text(outcomes: Seq<OutcomeView>) -> Seq<char>
    decreases outcomes.len(),
{
    if outcomes.len() == 0 {
        Seq::empty()
    } else {
        answer_text(outcomes.drop_last()) + outcome_text(outcomes.last())
    }
}

/// The text of two lists of outcomes is that of the first, then that of the
/// second.
pub proof fn lemma_answer_text_append(first: Seq<OutcomeView>, second: Seq<OutcomeView>)
    ensures
        answer_text(first + second) == answer_text(first) + answer_text(second),
    decreases second.len(),
{
    if second.len() == 0 {
        assert(first + second =~= first);
        assert(answer_text(first) + Seq::<char>::empty() =~= answer_text(first));
    } else {
        lemma_answer_text_append(first, second.drop_last());
        assert((first + second).drop_last() =~= first + second.drop_last());
        assert(answer_text(first + second) =~= answer_text(first) + answer_text(second));
    }
}

/// What one input made a stream do.
#[derive(Debug)]
pub struct StreamStep {
    /// What the consumer gets, in order.
    pub outcomes: Vec<StreamOutcome>,
    /// Whether the stream is over.
    pub done: bool,
}

/// A token count, 0 where it is not given.
pub open spec fn or_zero(count: Option<i64>) -> i64 {
    match count {
        Some(count) => count,
        None => 0,
    }
}

/// A token count, 0 where it is not given.
pub(crate) fn count_or_zero(count: Option<i64>) -> (value: i64)
    ensures
        value == or_zero(count),
{
    match count {
        Some(count) => count,
        None => 0,
    }
}

/// Hands the event `event` to the consumer.
pub(crate) fn emit(outcomes: &mut Vec<StreamOutcome>, event: ResponseEvent)
    ensures
        outcomes_view(final(outcomes)@) == outcomes_view(old(outcomes)@).push(
            Ok(event.deep_view()),
        ),
{
    outcomes.push(Ok(event));
    assert(outcomes_view(outcomes@) =~= outcomes_view(old(outcomes)@).push(Ok(event.deep_view())));
}

/// Hands the error message `message` to the consumer.
pub(crate) fn emit_error(outcomes: &mut Vec<StreamOutcome>, message: String)
    ensures
        outcomes_view(final(outcomes)@) == outcomes_view(old(outcomes)@).push(Err(message@)),
{
    outcomes.push(Err(ApiError::Stream(message)));
    assert(outcomes_view(outcomes@) =~= outcomes_view(old(outcomes)@).push(Err(message@)));
}

} // verus!
