//! What an Anthropic stream makes of each thing that the provider sends, and
//! what it reports at the end of all that came before.

use vstd::prelude::*;

use crate::common::{EventView, ItemView, OutcomeView, TokenUsage};
use crate::sse::anthropic::{
    anthropic_next, anthropic_outcomes, anthropic_start, countable, AnthropicInputView,
    AnthropicState, AnthropicUsage, BlockDeltaView, BlockView, StreamEventView,
};
use crate::sse::anthropic_laws::{anthropic_run, anthropic_transcript};
use crate::text::decimal;

verus! {

/// The outcomes are the one event `event`.
pub open spec fn only(outcomes: Seq<OutcomeView>, event: EventView) -> bool {
    outcomes.len() == 1 && outcomes[0] == Ok::<EventView, Seq<char>>(event)
}

/// The outcomes are the one error `message`.
pub open spec fn only_error(outcomes: Seq<OutcomeView>, message: Seq<char>) -> bool {
    outcomes.len() == 1 && outcomes[0] == Err::<EventView, Seq<char>>(message)
}

/// The input that is the event `event`.
pub open spec fn event_input(event: StreamEventView) -> AnthropicInputView {
    AnthropicInputView::Event(Some(event))
}

/// A stream starts with nothing known.
pub proof fn anthropic_starts_empty()
    ensures
        anthropic_start().response_id is None,
        anthropic_start().token_usage is None,
        anthropic_start().end_turn is None,
        anthropic_start().item_ids =~= Map::empty(),
        !anthropic_start().done,
{
}

/// The start of a message brings the model and gives the response id.
pub proof fn anthropic_message_start(state: AnthropicState, id: Seq<char>, model: Seq<char>)
    requires
        !state.done,
    ensures
        ({
            let input = event_input(StreamEventView::MessageStart { id, model });
            &&& only(anthropic_outcomes(state, input), EventView::ServerModel(model))
            &&& anthropic_next(state, input).response_id == Some(id)
            &&& anthropic_next(state, input) == (AnthropicState {
                response_id: anthropic_next(state, input).response_id,
                ..state
            })
        }),
{
}

/// The start of a text block brings nothing. That of a tool use announces a call
/// with the tool's id, name and input, and that of a thinking block announces
/// reasoning that holds nothing yet. The item of each is named after what it is
/// and its index, and of the other blocks nothing changes.
pub proof fn anthropic_block_starts(state: AnthropicState, index: u32, content_block: BlockView)
    requires
        !state.done,
    ensures
        ({
            let input = event_input(StreamEventView::ContentBlockStart { index, content_block });
            let outcomes = anthropic_outcomes(state, input);
            let next = anthropic_next(state, input);
            let number = decimal(index as nat);
            &&& next == (AnthropicState { item_ids: next.item_ids, ..state })
            &&& next.item_ids.contains_key(index)
            &&& next.item_ids.remove(index) == state.item_ids.remove(index)
            &&& match content_block {
                BlockView::Text => outcomes.len() == 0 && next.item_ids[index] == "msg_"@ + number,
                BlockView::ToolUse { id, name, input } => {
                    &&& next.item_ids[index] == "tool_"@ + number
                    &&& only(
                        outcomes,
                        EventView::OutputItemAdded(
                            ItemView::FunctionCall {
                                id: Some("tool_"@ + number),
                                name,
                                namespace: None,
                                arguments: input,
                                call_id: id,
                            },
                        ),
                    )
                },
                BlockView::Thinking => {
                    &&& next.item_ids[index] == "reasoning_"@ + number
                    &&& only(
                        outcomes,
                        EventView::OutputItemAdded(
                            ItemView::Reasoning {
                                id: "reasoning_"@ + number,
                                summary: Seq::empty(),
                                content: None,
                                encrypted_content: None,
                            },
                        ),
                    )
                },
            }
        }),
{
    let input = event_input(StreamEventView::ContentBlockStart { index, content_block });
    let next = anthropic_next(state, input);
    assert(next.item_ids.remove(index) =~= state.item_ids.remove(index));
}

/// A piece of a block is passed on as it comes and changes nothing: text as
/// text, thinking as reasoning at the block's index, and a tool's input under
/// the item of the block, or `tool_` and the index where no block has started
/// there.
pub proof fn anthropic_block_pieces(state: AnthropicState, index: u32, delta: BlockDeltaView)
    requires
        !state.done,
    ensures
        ({
            let input = event_input(StreamEventView::ContentBlockDelta { index, delta });
            let outcomes = anthropic_outcomes(state, input);
            &&& anthropic_next(state, input) == state
            &&& match delta {
                BlockDeltaView::TextDelta { text } => only(
                    outcomes,
                    EventView::OutputTextDelta(text),
                ),
                BlockDeltaView::ThinkingDelta { thinking } => only(
                    outcomes,
                    EventView::ReasoningContentDelta { delta: thinking, content_index: index as int },
                ),
                BlockDeltaView::InputJsonDelta { partial_json } => {
                    &&& state.item_ids.contains_key(index) ==> only(
                        outcomes,
                        EventView::ToolCallInputDelta {
                            item_id: state.item_ids[index],
                            call_id: None,
                            delta: partial_json,
                        },
                    )
                    &&& !state.item_ids.contains_key(index) ==> only(
                        outcomes,
                        EventView::ToolCallInputDelta {
                            item_id: "tool_"@ + decimal(index as nat),
                            call_id: None,
                            delta: partial_json,
                        },
                    )
                },
            }
        }),
{
}

/// The token counts are those that a usage gives, 0 where it gives none, and
/// their sum.
pub open spec fn reports_usage(reported: Option<TokenUsage>, usage: AnthropicUsage) -> bool {
    &&& reported is Some
    &&& reported->0.input_tokens == usage.input_tokens.unwrap_or(0)
    &&& reported->0.output_tokens == usage.output_tokens.unwrap_or(0)
    &&& reported->0.total_tokens == usage.input_tokens.unwrap_or(0) + usage.output_tokens.unwrap_or(
        0,
    )
    &&& reported->0.cached_input_tokens == 0
    &&& reported->0.reasoning_output_tokens == 0
}

/// The sum of the tokens that a usage gives can be counted.
pub open spec fn has_countable_sum(usage: AnthropicUsage) -> bool {
    i64::MIN <= usage.input_tokens.unwrap_or(0) + usage.output_tokens.unwrap_or(0) <= i64::MAX
}

/// A message delta brings nothing. Its usage counts whatever its stop reason is,
/// and its stop reason whatever its usage is: `end_turn` and `stop_sequence` say
/// that the turn ended, others that it did not, and none that it is not known.
pub proof fn anthropic_message_delta(
    state: AnthropicState,
    stop_reason: Option<Seq<char>>,
    usage: Option<AnthropicUsage>,
)
    requires
        !state.done,
        usage matches Some(usage) ==> has_countable_sum(usage),
    ensures
        ({
            let input = event_input(StreamEventView::MessageDelta { stop_reason, usage });
            let next = anthropic_next(state, input);
            &&& countable(input)
            &&& anthropic_outcomes(state, input).len() == 0
            &&& usage is None ==> next.token_usage == state.token_usage
            &&& usage matches Some(usage) ==> reports_usage(next.token_usage, usage)
            &&& stop_reason is None ==> next.end_turn is None
            &&& stop_reason matches Some(reason) ==> next.end_turn == Some(
                reason == "end_turn"@ || reason == "stop_sequence"@,
            )
            &&& next == (AnthropicState {
                token_usage: next.token_usage,
                end_turn: next.end_turn,
                ..state
            })
        }),
{
}

/// Which inputs can be counted: all but a message delta with a usage whose sum
/// cannot be.
pub proof fn anthropic_countable_inputs(input: AnthropicInputView)
    ensures
        countable(input) <==> !(input matches AnthropicInputView::Event(
            Some(StreamEventView::MessageDelta { usage: Some(usage), .. }),
        ) && !has_countable_sum(usage)),
{
}

/// What ends a stream, and what is reported then: the stop of the message
/// completes it with all that is known; an error that the provider or the
/// transport reports, closing, and a stream that stays silent too long are
/// errors. All that was known stays. What does not parse, events that are not
/// known and the end of a block change nothing.
pub proof fn anthropic_ends(state: AnthropicState, input: AnthropicInputView)
    requires
        !state.done,
    ensures
        ({
            let outcomes = anthropic_outcomes(state, input);
            let next = anthropic_next(state, input);
            let over = AnthropicState { done: true, ..state };
            match input {
                AnthropicInputView::TransportError(detail) => next == over && only_error(
                    outcomes,
                    "SSE stream error: "@ + detail,
                ),
                AnthropicInputView::Closed => next == over && only_error(
                    outcomes,
                    "stream closed before completion"@,
                ),
                AnthropicInputView::IdleTimeout => next == over && only_error(
                    outcomes,
                    "stream idle timeout"@,
                ),
                AnthropicInputView::Event(None) => next == state && outcomes.len() == 0,
                AnthropicInputView::Event(Some(event)) => match event {
                    StreamEventView::MessageStop => next == over && only(
                        outcomes,
                        EventView::Completed {
                            response_id: state.response_id.unwrap_or(Seq::empty()),
                            token_usage: state.token_usage,
                            end_turn: state.end_turn,
                        },
                    ),
                    StreamEventView::Error { message, error_type } => next == over && only_error(
                        outcomes,
                        "Anthropic API error: "@ + message + " ("@ + error_type + ")"@,
                    ),
                    StreamEventView::ContentBlockStop => next == state && outcomes.len() == 0,
                    StreamEventView::Unknown => next == state && outcomes.len() == 0,
                    _ => !next.done,
                },
            }
        }),
{
}

/// The event of an input.
pub open spec fn event_at(inputs: Seq<AnthropicInputView>, i: int) -> Option<StreamEventView> {
    match inputs[i] {
        AnthropicInputView::Event(event) => event,
        _ => None,
    }
}

/// The usage that the input `i` brings.
pub open spec fn brought_usage(inputs: Seq<AnthropicInputView>, i: int) -> Option<AnthropicUsage> {
    match event_at(inputs, i) {
        Some(StreamEventView::MessageDelta { usage, .. }) => usage,
        _ => None,
    }
}

/// The stop reason of the message delta that the input `i` is, if it is one.
pub open spec fn brought_reason(inputs: Seq<AnthropicInputView>, i: int) -> Option<
    Option<Seq<char>>,
> {
    match event_at(inputs, i) {
        Some(StreamEventView::MessageDelta { stop_reason, .. }) => Some(stop_reason),
        _ => None,
    }
}

/// The id of the message that starts with the input `i`.
pub open spec fn brought_id(inputs: Seq<AnthropicInputView>, i: int) -> Option<Seq<char>> {
    match event_at(inputs, i) {
        Some(StreamEventView::MessageStart { id, .. }) => Some(id),
        _ => None,
    }
}

/// The content block that starts at `index` with the input `i`.
pub open spec fn brought_block(inputs: Seq<AnthropicInputView>, i: int, index: u32) -> Option<
    BlockView,
> {
    match event_at(inputs, i) {
        Some(StreamEventView::ContentBlockStart { index: at, content_block }) => if at == index {
            Some(content_block)
        } else {
            None
        },
        _ => None,
    }
}

proof fn lemma_prefix_goes_on(state: AnthropicState, inputs: Seq<AnthropicInputView>, n: int)
    requires
        0 <= n <= inputs.len(),
        !anthropic_run(state, inputs).done,
    ensures
        !anthropic_run(state, inputs.take(n)).done,
    decreases inputs.len(),
{
    if n == inputs.len() {
        assert(inputs.take(n) =~= inputs);
    } else {
        lemma_prefix_goes_on(state, inputs.drop_last(), n);
        assert(inputs.drop_last().take(n) =~= inputs.take(n));
    }
}

proof fn lemma_stays(inputs: Seq<AnthropicInputView>, from: int, index: u32)
    requires
        0 <= from <= inputs.len(),
        !anthropic_run(anthropic_start(), inputs).done,
    ensures
        ({
            let now = anthropic_run(anthropic_start(), inputs);
            let earlier = anthropic_run(anthropic_start(), inputs.take(from));
            &&& (forall|h: int|
                from <= h < inputs.len() ==> #[trigger] brought_usage(inputs, h) is None)
                ==> now.token_usage == earlier.token_usage
            &&& (forall|h: int|
                from <= h < inputs.len() ==> #[trigger] brought_reason(inputs, h) is None)
                ==> now.end_turn == earlier.end_turn
            &&& (forall|h: int|
                from <= h < inputs.len() ==> #[trigger] brought_id(inputs, h) is None)
                ==> now.response_id == earlier.response_id
            &&& (forall|h: int|
                from <= h < inputs.len() ==> #[trigger] brought_block(inputs, h, index) is None)
                ==> {
                &&& now.item_ids.contains_key(index) == earlier.item_ids.contains_key(index)
                &&& now.item_ids[index] == earlier.item_ids[index]
            }
        }),
    decreases inputs.len(),
{
    if inputs.len() == from {
        assert(inputs.take(from) =~= inputs);
    } else {
        let fewer = inputs.drop_last();
        let last = inputs.len() - 1;
        assert(fewer.take(from) =~= inputs.take(from));
        lemma_stays(fewer, from, index);
        assert(forall|h: int|
            0 <= h < fewer.len() ==> #[trigger] brought_usage(fewer, h) == brought_usage(inputs, h));
        assert(forall|h: int|
            0 <= h < fewer.len() ==> #[trigger] brought_reason(fewer, h) == brought_reason(
                inputs,
                h,
            ));
        assert(forall|h: int|
            0 <= h < fewer.len() ==> #[trigger] brought_id(fewer, h) == brought_id(inputs, h));
        assert(forall|h: int|
            0 <= h < fewer.len() ==> #[trigger] brought_block(fewer, h, index) == brought_block(
                inputs,
                h,
                index,
            ));
        assert(brought_usage(inputs, last) is Some || brought_usage(inputs, last) is None);
        assert(brought_reason(inputs, last) is Some || brought_reason(inputs, last) is None);
        assert(brought_id(inputs, last) is Some || brought_id(inputs, last) is None);
        assert(brought_block(inputs, last, index) is Some || brought_block(
            inputs,
            last,
            index,
        ) is None);
    }
}

/// The usage that a stream reports is the last that any message delta brought,
/// whatever the stop reason of that was.
pub proof fn anthropic_last_usage_counts(inputs: Seq<AnthropicInputView>, i: int)
    requires
        !anthropic_run(anthropic_start(), inputs).done,
        0 <= i < inputs.len(),
        brought_usage(inputs, i) is Some,
        has_countable_sum(brought_usage(inputs, i)->0),
        forall|h: int| i < h < inputs.len() ==> #[trigger] brought_usage(inputs, h) is None,
    ensures
        reports_usage(
            anthropic_run(anthropic_start(), inputs).token_usage,
            brought_usage(inputs, i)->0,
        ),
{
    lemma_stays(inputs, i + 1, 0);
    lemma_prefix_goes_on(anthropic_start(), inputs, i + 1);
    assert(inputs.take(i + 1).last() == inputs[i]);
}

/// A stream reports no usage where no message delta brought one.
pub proof fn anthropic_without_usage(inputs: Seq<AnthropicInputView>)
    requires
        !anthropic_run(anthropic_start(), inputs).done,
        forall|h: int| 0 <= h < inputs.len() ==> #[trigger] brought_usage(inputs, h) is None,
    ensures
        anthropic_run(anthropic_start(), inputs).token_usage is None,
{
    lemma_stays(inputs, 0, 0);
    assert(inputs.take(0) =~= Seq::empty());
}

/// A stream says of its turn what the last message delta says, whatever usage
/// that brought: nothing where it has no stop reason.
pub proof fn anthropic_last_stop_reason_counts(inputs: Seq<AnthropicInputView>, i: int)
    requires
        !anthropic_run(anthropic_start(), inputs).done,
        0 <= i < inputs.len(),
        brought_reason(inputs, i) is Some,
        forall|h: int| i < h < inputs.len() ==> #[trigger] brought_reason(inputs, h) is None,
    ensures
        ({
            let end_turn = anthropic_run(anthropic_start(), inputs).end_turn;
            match brought_reason(inputs, i)->0 {
                Some(reason) => end_turn == Some(
                    reason == "end_turn"@ || reason == "stop_sequence"@,
                ),
                None => end_turn is None,
            }
        }),
{
    lemma_stays(inputs, i + 1, 0);
    lemma_prefix_goes_on(anthropic_start(), inputs, i + 1);
    assert(inputs.take(i + 1).last() == inputs[i]);
}

/// A stream says nothing of its turn where there was no message delta.
pub proof fn anthropic_without_message_delta(inputs: Seq<AnthropicInputView>)
    requires
        !anthropic_run(anthropic_start(), inputs).done,
        forall|h: int| 0 <= h < inputs.len() ==> #[trigger] brought_reason(inputs, h) is None,
    ensures
        anthropic_run(anthropic_start(), inputs).end_turn is None,
{
    lemma_stays(inputs, 0, 0);
    assert(inputs.take(0) =~= Seq::empty());
}

/// The response id of a stream is that of the last message that started.
pub proof fn anthropic_last_id_counts(inputs: Seq<AnthropicInputView>, i: int)
    requires
        !anthropic_run(anthropic_start(), inputs).done,
        0 <= i < inputs.len(),
        brought_id(inputs, i) is Some,
        forall|h: int| i < h < inputs.len() ==> #[trigger] brought_id(inputs, h) is None,
    ensures
        anthropic_run(anthropic_start(), inputs).response_id == brought_id(inputs, i),
{
    lemma_stays(inputs, i + 1, 0);
    lemma_prefix_goes_on(anthropic_start(), inputs, i + 1);
    assert(inputs.take(i + 1).last() == inputs[i]);
}

/// A stream has no response id where no message started.
pub proof fn anthropic_without_id(inputs: Seq<AnthropicInputView>)
    requires
        !anthropic_run(anthropic_start(), inputs).done,
        forall|h: int| 0 <= h < inputs.len() ==> #[trigger] brought_id(inputs, h) is None,
    ensures
        anthropic_run(anthropic_start(), inputs).response_id is None,
{
    lemma_stays(inputs, 0, 0);
    assert(inputs.take(0) =~= Seq::empty());
}

/// The item of a block index is that of the last block that started there.
pub proof fn anthropic_last_block_counts(inputs: Seq<AnthropicInputView>, i: int, index: u32)
    requires
        !anthropic_run(anthropic_start(), inputs).done,
        0 <= i < inputs.len(),
        brought_block(inputs, i, index) is Some,
        forall|h: int| i < h < inputs.len() ==> #[trigger] brought_block(inputs, h, index) is None,
    ensures
        ({
            let item_ids = anthropic_run(anthropic_start(), inputs).item_ids;
            let number = decimal(index as nat);
            &&& item_ids.contains_key(index)
            &&& item_ids[index] == match brought_block(inputs, i, index)->0 {
                BlockView::Text => "msg_"@ + number,
                BlockView::ToolUse { .. } => "tool_"@ + number,
                BlockView::Thinking => "reasoning_"@ + number,
            }
        }),
{
    lemma_stays(inputs, i + 1, index);
    lemma_prefix_goes_on(anthropic_start(), inputs, i + 1);
    assert(inputs.take(i + 1).last() == inputs[i]);
}

/// A block index has no item where no block started there.
pub proof fn anthropic_without_block(inputs: Seq<AnthropicInputView>, index: u32)
    requires
        !anthropic_run(anthropic_start(), inputs).done,
        forall|h: int| 0 <= h < inputs.len() ==> #[trigger] brought_block(inputs, h, index) is None,
    ensures
        !anthropic_run(anthropic_start(), inputs).item_ids.contains_key(index),
{
    lemma_stays(inputs, 0, index);
    assert(inputs.take(0) =~= Seq::empty());
}

/// The stop of the message completes a stream with the id, the usage and the
/// turn that it has by then, behind all that it brought.
pub proof fn anthropic_completion_sums_up(inputs: Seq<AnthropicInputView>)
    requires
        !anthropic_run(anthropic_start(), inputs).done,
    ensures
        ({
            let state = anthropic_run(anthropic_start(), inputs);
            let all = anthropic_transcript(
                anthropic_start(),
                inputs.push(event_input(StreamEventView::MessageStop)),
            );
            let completed: OutcomeView = Ok(
                EventView::Completed {
                    response_id: state.response_id.unwrap_or(Seq::empty()),
                    token_usage: state.token_usage,
                    end_turn: state.end_turn,
                },
            );
            all == anthropic_transcript(anthropic_start(), inputs).push(completed)
        }),
{
    let stop = event_input(StreamEventView::MessageStop);
    assert(inputs.push(stop).drop_last() =~= inputs);
    anthropic_ends(anthropic_run(anthropic_start(), inputs), stop);
}

} // verus!
