//! What holds of every Anthropic stream.

use vstd::prelude::*;

use crate::common::{
    answer_text, is_terminal, lemma_answer_text_append, none_terminal, outcome_text, EventView,
    ItemView, OutcomeView,
};
use crate::sse::anthropic::{
    anthropic_next, anthropic_outcomes, anthropic_start, block_item_id, countable,
    AnthropicInputView, AnthropicState, BlockDeltaView, BlockView, StreamEventView,
};
use crate::text::numbered_is_injective;

verus! {

/// The state after the inputs `inputs`.
pub open spec fn anthropic_run(
    state: AnthropicState,
    inputs: Seq<AnthropicInputView>,
) -> AnthropicState
    decreases inputs.len(),
{
    if inputs.len() == 0 {
        state
    } else {
        anthropic_next(anthropic_run(state, inputs.drop_last()), inputs.last())
    }
}

/// All that the consumer gets for the inputs `inputs`, in order.
pub open spec fn anthropic_transcript(
    state: AnthropicState,
    inputs: Seq<AnthropicInputView>,
) -> Seq<OutcomeView>
    decreases inputs.len(),
{
    if inputs.len() == 0 {
        Seq::empty()
    } else {
        anthropic_transcript(state, inputs.drop_last()) + anthropic_outcomes(
            anthropic_run(state, inputs.drop_last()),
            inputs.last(),
        )
    }
}

/// Handling one list of inputs after another is handling the two in one go.
pub proof fn anthropic_run_composes(
    state: AnthropicState,
    first: Seq<AnthropicInputView>,
    second: Seq<AnthropicInputView>,
)
    ensures
        anthropic_run(state, first + second) == anthropic_run(anthropic_run(state, first), second),
        anthropic_transcript(state, first + second) == anthropic_transcript(state, first)
            + anthropic_transcript(anthropic_run(state, first), second),
    decreases second.len(),
{
    if second.len() == 0 {
        assert(first + second =~= first);
        assert(anthropic_transcript(state, first) + Seq::<OutcomeView>::empty()
            =~= anthropic_transcript(state, first));
    } else {
        anthropic_run_composes(state, first, second.drop_last());
        assert((first + second).drop_last() =~= first + second.drop_last());
        assert((first + second).last() == second.last());
        assert(anthropic_transcript(state, first + second) =~= anthropic_transcript(state, first)
            + anthropic_transcript(anthropic_run(state, first), second));
    }
}

/// A stream that is over stays as it is, and its consumer gets nothing more.
pub proof fn anthropic_over_is_silent(state: AnthropicState, inputs: Seq<AnthropicInputView>)
    requires
        state.done,
    ensures
        anthropic_run(state, inputs) == state,
        anthropic_transcript(state, inputs) == Seq::<OutcomeView>::empty(),
    decreases inputs.len(),
{
    if inputs.len() > 0 {
        anthropic_over_is_silent(state, inputs.drop_last());
        assert(anthropic_transcript(state, inputs) =~= Seq::<OutcomeView>::empty());
    }
}

/// Inputs that a stream passes over: data that does not parse, event types that
/// are not known, and the end of a content block.
pub open spec fn passed_over(input: AnthropicInputView) -> bool {
    match input {
        AnthropicInputView::Event(None) => true,
        AnthropicInputView::Event(Some(StreamEventView::Unknown)) => true,
        AnthropicInputView::Event(Some(StreamEventView::ContentBlockStop)) => true,
        _ => false,
    }
}

/// An input that is passed over changes nothing, wherever it stands in the
/// stream.
pub proof fn anthropic_passes_over(
    state: AnthropicState,
    before: Seq<AnthropicInputView>,
    input: AnthropicInputView,
    after: Seq<AnthropicInputView>,
)
    requires
        passed_over(input),
    ensures
        anthropic_run(state, before.push(input) + after) == anthropic_run(state, before + after),
        anthropic_transcript(state, before.push(input) + after) == anthropic_transcript(
            state,
            before + after,
        ),
{
    anthropic_run_composes(state, before.push(input), after);
    anthropic_run_composes(state, before, after);
    assert(before.push(input).drop_last() =~= before);
    assert(anthropic_transcript(state, before.push(input)) =~= anthropic_transcript(
        state,
        before,
    ));
}

/// A stream ends with exactly one completion or error, and that comes last:
/// nothing that the consumer gets before it ends the stream, a stream that goes
/// on has ended with nothing yet, and one that is over has ended with it.
pub proof fn anthropic_ends_once(inputs: Seq<AnthropicInputView>)
    ensures
        ({
            let transcript = anthropic_transcript(anthropic_start(), inputs);
            let state = anthropic_run(anthropic_start(), inputs);
            &&& transcript.len() > 0 ==> none_terminal(transcript.drop_last())
            &&& !state.done ==> none_terminal(transcript)
            &&& state.done ==> transcript.len() > 0 && is_terminal(transcript.last())
        }),
    decreases inputs.len(),
{
    if inputs.len() > 0 {
        let before = anthropic_run(anthropic_start(), inputs.drop_last());
        let earlier = anthropic_transcript(anthropic_start(), inputs.drop_last());
        let outcomes = anthropic_outcomes(before, inputs.last());
        let transcript = anthropic_transcript(anthropic_start(), inputs);
        anthropic_ends_once(inputs.drop_last());
        if outcomes.len() == 0 {
            assert(transcript =~= earlier);
        } else {
            assert(outcomes.len() == 1);
            assert(transcript.drop_last() =~= earlier);
        }
    }
}

/// A stream that is closed before the message stops reports that as an error.
pub proof fn anthropic_early_close_is_an_error(inputs: Seq<AnthropicInputView>)
    requires
        !anthropic_run(anthropic_start(), inputs).done,
    ensures
        anthropic_transcript(anthropic_start(), inputs.push(AnthropicInputView::Closed))
            == anthropic_transcript(anthropic_start(), inputs).push(
            Err("stream closed before completion"@),
        ),
{
    let all = inputs.push(AnthropicInputView::Closed);
    assert(all.drop_last() =~= inputs);
    assert(anthropic_transcript(anthropic_start(), all) =~= anthropic_transcript(
        anthropic_start(),
        inputs,
    ).push(Err("stream closed before completion"@)));
}

/// The total that a stream reports is the sum of its input and output tokens.
pub proof fn anthropic_total_is_the_sum(inputs: Seq<AnthropicInputView>)
    requires
        forall|i: int| 0 <= i < inputs.len() ==> countable(#[trigger] inputs[i]),
    ensures
        anthropic_run(anthropic_start(), inputs).token_usage matches Some(usage)
            ==> usage.total_tokens == usage.input_tokens + usage.output_tokens,
    decreases inputs.len(),
{
    if inputs.len() > 0 {
        let fewer = inputs.drop_last();
        assert forall|i: int| 0 <= i < fewer.len() implies countable(#[trigger] fewer[i]) by {
            assert(fewer[i] == inputs[i]);
        }
        anthropic_total_is_the_sum(fewer);
        assert(countable(inputs[inputs.len() - 1]));
    }
}

/// The text of the answer that an input brings.
pub open spec fn input_text(input: AnthropicInputView) -> Seq<char> {
    match input {
        AnthropicInputView::Event(
            Some(
                StreamEventView::ContentBlockDelta {
                    delta: BlockDeltaView::TextDelta { text },
                    ..
                },
            ),
        ) => text,
        _ => Seq::empty(),
    }
}

/// The text of the answer that a list of inputs brings.
pub open spec fn inputs_text(inputs: Seq<AnthropicInputView>) -> Seq<char>
    decreases inputs.len(),
{
    if inputs.len() == 0 {
        Seq::empty()
    } else {
        inputs_text(inputs.drop_last()) + input_text(inputs.last())
    }
}

/// The inputs that come before the one that ends the stream; all of them where
/// none does.
pub open spec fn anthropic_before_end(
    state: AnthropicState,
    inputs: Seq<AnthropicInputView>,
) -> Seq<AnthropicInputView>
    decreases inputs.len(),
{
    if inputs.len() > 0 && anthropic_run(state, inputs).done {
        anthropic_before_end(state, inputs.drop_last())
    } else {
        inputs
    }
}

/// The consumer gets the text of the answer whole and in order: all that the
/// inputs bring before the one that ends the stream, and nothing else.
pub proof fn anthropic_passes_on_the_text(state: AnthropicState, inputs: Seq<AnthropicInputView>)
    ensures
        answer_text(anthropic_transcript(state, inputs)) == inputs_text(
            anthropic_before_end(state, inputs),
        ),
    decreases inputs.len(),
{
    if inputs.len() > 0 {
        let before = anthropic_run(state, inputs.drop_last());
        let outcomes = anthropic_outcomes(before, inputs.last());
        anthropic_passes_on_the_text(state, inputs.drop_last());
        lemma_answer_text_append(anthropic_transcript(state, inputs.drop_last()), outcomes);
        if outcomes.len() == 1 {
            assert(answer_text(outcomes.drop_last()) =~= Seq::empty());
            assert(answer_text(outcomes) =~= outcome_text(outcomes[0]));
        }
        if anthropic_run(state, inputs).done {
            assert(answer_text(outcomes) =~= Seq::empty());
            assert(answer_text(anthropic_transcript(state, inputs)) =~= answer_text(
                anthropic_transcript(state, inputs.drop_last()),
            ));
        } else {
            assert(anthropic_before_end(state, inputs.drop_last()) == inputs.drop_last());
        }
    }
}

/// Two content blocks get the same item id only if they are of one kind and
/// have one index.
pub proof fn item_ids_tell_blocks_apart(first: BlockView, i: u32, second: BlockView, j: u32)
    requires
        block_item_id(first, i) == block_item_id(second, j),
    ensures
        i == j,
        first is Text == second is Text,
        first is ToolUse == second is ToolUse,
        first is Thinking == second is Thinking,
{
    reveal_strlit("msg_");
    reveal_strlit("tool_");
    reveal_strlit("reasoning_");
    let a = block_item_id(first, i);
    let b = block_item_id(second, j);
    assert(a[0] == (match first {
        BlockView::Text => 'm',
        BlockView::ToolUse { .. } => 't',
        BlockView::Thinking => 'r',
    }));
    assert(b[0] == (match second {
        BlockView::Text => 'm',
        BlockView::ToolUse { .. } => 't',
        BlockView::Thinking => 'r',
    }));
    let tag = match first {
        BlockView::Text => "msg_"@,
        BlockView::ToolUse { .. } => "tool_"@,
        BlockView::Thinking => "reasoning_"@,
    };
    numbered_is_injective(tag, i as nat, j as nat);
}

/// The start of a content block at `index`.
pub open spec fn starts_block(input: AnthropicInputView, index: u32) -> bool {
    input matches AnthropicInputView::Event(
        Some(StreamEventView::ContentBlockStart { index: i, .. }),
    ) && i == index
}

/// The input of a tool goes out under the id of the item that announced the
/// tool: after a tool use block has started at `index`, and until another block
/// starts there, every piece of its input carries that item's id.
pub proof fn tool_input_carries_announced_id(
    state: AnthropicState,
    index: u32,
    id: Seq<char>,
    name: Seq<char>,
    input: Seq<char>,
    between: Seq<AnthropicInputView>,
    partial_json: Seq<char>,
)
    requires
        !state.done,
        forall|i: int| 0 <= i < between.len() ==> !starts_block(#[trigger] between[i], index),
    ensures
        ({
            let start = AnthropicInputView::Event(
                Some(
                    StreamEventView::ContentBlockStart {
                        index,
                        content_block: BlockView::ToolUse { id, name, input },
                    },
                ),
            );
            let piece = AnthropicInputView::Event(
                Some(
                    StreamEventView::ContentBlockDelta {
                        index,
                        delta: BlockDeltaView::InputJsonDelta { partial_json },
                    },
                ),
            );
            let later = anthropic_run(anthropic_next(state, start), between);
            let item_id = block_item_id(BlockView::ToolUse { id, name, input }, index);
            let announced: OutcomeView = Ok(
                EventView::OutputItemAdded(
                    ItemView::FunctionCall {
                        id: Some(item_id),
                        name,
                        namespace: None,
                        arguments: input,
                        call_id: id,
                    },
                ),
            );
            let passed_on: OutcomeView = Ok(
                EventView::ToolCallInputDelta { item_id, call_id: None, delta: partial_json },
            );
            &&& anthropic_outcomes(state, start) == seq![announced]
            &&& !later.done ==> anthropic_outcomes(later, piece) == seq![passed_on]
        }),
{
    let block = BlockView::ToolUse { id, name, input };
    let start = AnthropicInputView::Event(
        Some(StreamEventView::ContentBlockStart { index, content_block: block }),
    );
    lemma_item_id_is_kept(anthropic_next(state, start), between, index);
}

proof fn lemma_item_id_is_kept(
    state: AnthropicState,
    inputs: Seq<AnthropicInputView>,
    index: u32,
)
    requires
        state.item_ids.contains_key(index),
        forall|i: int| 0 <= i < inputs.len() ==> !starts_block(#[trigger] inputs[i], index),
    ensures
        anthropic_run(state, inputs).item_ids.contains_key(index),
        anthropic_run(state, inputs).item_ids[index] == state.item_ids[index],
    decreases inputs.len(),
{
    if inputs.len() > 0 {
        let fewer = inputs.drop_last();
        assert forall|i: int| 0 <= i < fewer.len() implies !starts_block(
            #[trigger] fewer[i],
            index,
        ) by {
            assert(fewer[i] == inputs[i]);
        }
        lemma_item_id_is_kept(state, fewer, index);
        assert(!starts_block(inputs[inputs.len() - 1], index));
    }
}

} // verus!
