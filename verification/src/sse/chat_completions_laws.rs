//! What holds of every Chat Completions stream.

use vstd::prelude::*;

use crate::common::{
    all_ok, answer_text, is_terminal, lemma_all_ok_append, lemma_answer_text_append,
    none_terminal, outcome_text, EventView, ItemView, OutcomeView,
};
use crate::sse::chat_completions::{
    call_builders, call_events, call_index, calls_builders, calls_events, chat_next, chat_outcomes,
    chat_start, choice_calls, choice_events, choices_builders, choices_events, chunk_choices,
    chunk_events, BuilderView, ChatInputView, ChatState, ChoiceView, ToolCallView,
};
use crate::text::trimmed;

verus! {

/// The state after the inputs `inputs`.
pub open spec fn chat_run(state: ChatState, inputs: Seq<ChatInputView>) -> ChatState
    decreases inputs.len(),
{
    if inputs.len() == 0 {
        state
    } else {
        chat_next(chat_run(state, inputs.drop_last()), inputs.last())
    }
}

/// All that the consumer gets for the inputs `inputs`, in order.
pub open spec fn chat_transcript(state: ChatState, inputs: Seq<ChatInputView>) -> Seq<OutcomeView>
    decreases inputs.len(),
{
    if inputs.len() == 0 {
        Seq::empty()
    } else {
        chat_transcript(state, inputs.drop_last()) + chat_outcomes(
            chat_run(state, inputs.drop_last()),
            inputs.last(),
        )
    }
}

/// Handling one list of inputs after another is handling the two in one go.
pub proof fn chat_run_composes(
    state: ChatState,
    first: Seq<ChatInputView>,
    second: Seq<ChatInputView>,
)
    ensures
        chat_run(state, first + second) == chat_run(chat_run(state, first), second),
        chat_transcript(state, first + second) == chat_transcript(state, first) + chat_transcript(
            chat_run(state, first),
            second,
        ),
    decreases second.len(),
{
    if second.len() == 0 {
        assert(first + second =~= first);
        assert(chat_transcript(state, first) + Seq::<OutcomeView>::empty() =~= chat_transcript(
            state,
            first,
        ));
    } else {
        chat_run_composes(state, first, second.drop_last());
        assert((first + second).drop_last() =~= first + second.drop_last());
        assert((first + second).last() == second.last());
        assert(chat_transcript(state, first + second) =~= chat_transcript(state, first)
            + chat_transcript(chat_run(state, first), second));
    }
}

/// A stream that is over stays as it is, and its consumer gets nothing more.
pub proof fn chat_over_is_silent(state: ChatState, inputs: Seq<ChatInputView>)
    requires
        state.done,
    ensures
        chat_run(state, inputs) == state,
        chat_transcript(state, inputs) == Seq::<OutcomeView>::empty(),
    decreases inputs.len(),
{
    if inputs.len() > 0 {
        chat_over_is_silent(state, inputs.drop_last());
        assert(chat_transcript(state, inputs) =~= Seq::<OutcomeView>::empty());
    }
}

/// An event whose payload is neither the end mark nor a chunk changes nothing,
/// wherever it stands in the stream.
pub proof fn chat_skips_what_does_not_parse(
    state: ChatState,
    before: Seq<ChatInputView>,
    data: Seq<char>,
    after: Seq<ChatInputView>,
)
    requires
        trimmed(data) != "[DONE]"@,
    ensures
        ({
            let junk = ChatInputView::Message { data, chunk: None };
            &&& chat_run(state, before.push(junk) + after) == chat_run(state, before + after)
            &&& chat_transcript(state, before.push(junk) + after) == chat_transcript(
                state,
                before + after,
            )
        }),
{
    let junk = ChatInputView::Message { data, chunk: None };
    chat_run_composes(state, before.push(junk), after);
    chat_run_composes(state, before, after);
    assert(before.push(junk).drop_last() =~= before);
    assert(chat_transcript(state, before.push(junk)) =~= chat_transcript(state, before));
}

/// No event of the list completes the stream.
spec fn none_completes(events: Seq<EventView>) -> bool {
    forall|i: int| 0 <= i < events.len() ==> !(#[trigger] events[i] is Completed)
}

proof fn lemma_calls_complete_nothing(
    builders: Map<u32, BuilderView>,
    calls: Seq<ToolCallView>,
)
    ensures
        none_completes(calls_events(builders, calls)),
    decreases calls.len(),
{
    if calls.len() > 0 {
        lemma_calls_complete_nothing(builders, calls.drop_last());
    }
}

proof fn lemma_choices_complete_nothing(
    builders: Map<u32, BuilderView>,
    choices: Seq<ChoiceView>,
)
    ensures
        none_completes(choices_events(builders, choices)),
    decreases choices.len(),
{
    if choices.len() > 0 {
        lemma_choices_complete_nothing(builders, choices.drop_last());
        let known = choices_builders(builders, choices.drop_last());
        lemma_calls_complete_nothing(known, choice_calls(choices.last()));
        assert(none_completes(choice_events(known, choices.last())));
    }
}

/// The outcomes of one input: all of them but the last keep the stream going,
/// and the stream is over where the last does not.
proof fn lemma_step_ends(state: ChatState, input: ChatInputView)
    requires
        !state.done,
    ensures
        ({
            let outcomes = chat_outcomes(state, input);
            let over = chat_next(state, input).done;
            &&& outcomes.len() > 0 ==> none_terminal(outcomes.drop_last())
            &&& !over ==> none_terminal(outcomes)
            &&& over && outcomes.len() > 0 ==> is_terminal(outcomes.last())
            &&& over && outcomes.len() == 0 ==> input is Closed && state.token_usage is None
                && state.response_id is None
        }),
{
    if let ChatInputView::Message { data, chunk } = input {
        if let Some(chunk) = chunk {
            lemma_choices_complete_nothing(state.builders, chunk_choices(chunk));
            assert(none_completes(chunk_events(state, chunk)));
        }
    }
}

/// Completion or an error comes at most once, and last: nothing that the
/// consumer gets before it ends the stream, and a stream that goes on has
/// ended with nothing yet. A stream that is over has ended with one of the
/// two, unless it was closed before it brought an id or a usage.
pub proof fn chat_ends_once(inputs: Seq<ChatInputView>)
    ensures
        ({
            let transcript = chat_transcript(chat_start(), inputs);
            let state = chat_run(chat_start(), inputs);
            &&& transcript.len() > 0 ==> none_terminal(transcript.drop_last())
            &&& !state.done ==> none_terminal(transcript)
            &&& state.done && (state.token_usage is Some || state.response_id is Some)
                ==> transcript.len() > 0 && is_terminal(transcript.last())
        }),
    decreases inputs.len(),
{
    if inputs.len() > 0 {
        let before = chat_run(chat_start(), inputs.drop_last());
        let earlier = chat_transcript(chat_start(), inputs.drop_last());
        let outcomes = chat_outcomes(before, inputs.last());
        let transcript = chat_transcript(chat_start(), inputs);
        chat_ends_once(inputs.drop_last());
        if before.done {
            assert(transcript =~= earlier);
        } else {
            lemma_step_ends(before, inputs.last());
            if outcomes.len() == 0 {
                assert(transcript =~= earlier);
            } else {
                assert(transcript.drop_last() =~= earlier + outcomes.drop_last());
            }
        }
    }
}

/// The first response id that is given stays.
pub proof fn chat_first_id_stays(state: ChatState, inputs: Seq<ChatInputView>)
    requires
        state.response_id is Some,
    ensures
        chat_run(state, inputs).response_id == state.response_id,
    decreases inputs.len(),
{
    if inputs.len() > 0 {
        chat_first_id_stays(state, inputs.drop_last());
    }
}

/// The text of the answer that a choice brings.
pub open spec fn choice_text(choice: ChoiceView) -> Seq<char> {
    match choice.delta {
        Some(delta) => match delta.content {
            Some(content) => content,
            None => Seq::empty(),
        },
        None => Seq::empty(),
    }
}

/// The text of the answer that a list of choices brings.
pub open spec fn choices_text(choices: Seq<ChoiceView>) -> Seq<char>
    decreases choices.len(),
{
    if choices.len() == 0 {
        Seq::empty()
    } else {
        choices_text(choices.drop_last()) + choice_text(choices.last())
    }
}

/// The text of the answer that an input brings.
pub open spec fn chat_input_text(input: ChatInputView) -> Seq<char> {
    match input {
        ChatInputView::Message { chunk: Some(chunk), .. } => choices_text(chunk_choices(chunk)),
        _ => Seq::empty(),
    }
}

/// The text of the answer that a list of inputs brings.
pub open spec fn chat_inputs_text(inputs: Seq<ChatInputView>) -> Seq<char>
    decreases inputs.len(),
{
    if inputs.len() == 0 {
        Seq::empty()
    } else {
        chat_inputs_text(inputs.drop_last()) + chat_input_text(inputs.last())
    }
}

proof fn lemma_one_event_text(event: EventView)
    ensures
        answer_text(all_ok(seq![event])) == outcome_text(Ok(event)),
{
    let outcomes = all_ok(seq![event]);
    assert(answer_text(outcomes.drop_last()) =~= Seq::empty());
    assert(answer_text(outcomes) =~= outcome_text(Ok(event)));
}

proof fn lemma_events_text_append(first: Seq<EventView>, second: Seq<EventView>)
    ensures
        answer_text(all_ok(first + second)) == answer_text(all_ok(first)) + answer_text(
            all_ok(second),
        ),
{
    lemma_all_ok_append(first, second);
    lemma_answer_text_append(all_ok(first), all_ok(second));
}

proof fn lemma_calls_bring_no_text(builders: Map<u32, BuilderView>, calls: Seq<ToolCallView>)
    ensures
        answer_text(all_ok(calls_events(builders, calls))) == Seq::<char>::empty(),
    decreases calls.len(),
{
    if calls.len() > 0 {
        let known = calls_builders(builders, calls.drop_last());
        let events = call_events(known, calls.last());
        lemma_calls_bring_no_text(builders, calls.drop_last());
        lemma_events_text_append(calls_events(builders, calls.drop_last()), events);
        assert(events.len() <= 2);
        if events.len() == 1 {
            assert(events =~= seq![events[0]]);
            lemma_one_event_text(events[0]);
        } else if events.len() == 2 {
            assert(events =~= seq![events[0]] + seq![events[1]]);
            lemma_events_text_append(seq![events[0]], seq![events[1]]);
            lemma_one_event_text(events[0]);
            lemma_one_event_text(events[1]);
        }
        assert(answer_text(all_ok(events)) =~= Seq::empty());
    }
}

proof fn lemma_choice_text(builders: Map<u32, BuilderView>, choice: ChoiceView)
    ensures
        answer_text(all_ok(choice_events(builders, choice))) == choice_text(choice),
{
    if let Some(delta) = choice.delta {
        let text: Seq<EventView> = match delta.content {
            Some(content) => seq![EventView::OutputTextDelta(content)],
            None => Seq::empty(),
        };
        let reasoning: Seq<EventView> = match delta.reasoning_content {
            Some(reasoning) if reasoning.len() > 0 => seq![
                EventView::ReasoningContentDelta { delta: reasoning, content_index: 0 },
            ],
            _ => Seq::empty(),
        };
        let calls = calls_events(builders, choice_calls(choice));
        assert(choice_events(builders, choice) == text + reasoning + calls);
        lemma_events_text_append(text + reasoning, calls);
        lemma_events_text_append(text, reasoning);
        lemma_calls_bring_no_text(builders, choice_calls(choice));
        if text.len() > 0 {
            lemma_one_event_text(text[0]);
        }
        if reasoning.len() > 0 {
            lemma_one_event_text(reasoning[0]);
        }
        assert(answer_text(all_ok(choice_events(builders, choice))) =~= choice_text(choice));
    }
}

proof fn lemma_choices_text(builders: Map<u32, BuilderView>, choices: Seq<ChoiceView>)
    ensures
        answer_text(all_ok(choices_events(builders, choices))) == choices_text(choices),
    decreases choices.len(),
{
    if choices.len() > 0 {
        let known = choices_builders(builders, choices.drop_last());
        lemma_choices_text(builders, choices.drop_last());
        lemma_choice_text(known, choices.last());
        lemma_events_text_append(
            choices_events(builders, choices.drop_last()),
            choice_events(known, choices.last()),
        );
    }
}

/// The inputs that come before the one that ends the stream; all of them where
/// none does.
pub open spec fn chat_before_end(state: ChatState, inputs: Seq<ChatInputView>) -> Seq<
    ChatInputView,
>
    decreases inputs.len(),
{
    if inputs.len() > 0 && chat_run(state, inputs).done {
        chat_before_end(state, inputs.drop_last())
    } else {
        inputs
    }
}

/// The text of an input is passed on where the stream goes on after it.
proof fn lemma_step_text(state: ChatState, input: ChatInputView)
    ensures
        answer_text(chat_outcomes(state, input)) == if chat_next(state, input).done {
            Seq::empty()
        } else {
            chat_input_text(input)
        },
{
    let outcomes = chat_outcomes(state, input);
    if chat_next(state, input).done {
        assert(outcomes.len() <= 1);
        if outcomes.len() == 1 {
            assert(answer_text(outcomes.drop_last()) =~= Seq::empty());
            assert(answer_text(outcomes) =~= outcome_text(outcomes[0]));
        }
    } else if let ChatInputView::Message { chunk: Some(chunk), .. } = input {
        let model: Seq<EventView> = match chunk.model {
            Some(model) => seq![EventView::ServerModel(model)],
            None => Seq::empty(),
        };
        let rest = choices_events(state.builders, chunk_choices(chunk));
        assert(outcomes == all_ok(model + rest));
        lemma_events_text_append(model, rest);
        lemma_choices_text(state.builders, chunk_choices(chunk));
        if model.len() > 0 {
            lemma_one_event_text(model[0]);
        }
        assert(answer_text(all_ok(model)) =~= Seq::empty());
        assert(answer_text(outcomes) =~= chat_input_text(input));
    }
}

/// The consumer gets the text of the answer whole and in order: all that the
/// inputs bring before the one that ends the stream, and nothing else.
pub proof fn chat_passes_on_the_text(state: ChatState, inputs: Seq<ChatInputView>)
    ensures
        answer_text(chat_transcript(state, inputs)) == chat_inputs_text(
            chat_before_end(state, inputs),
        ),
    decreases inputs.len(),
{
    if inputs.len() > 0 {
        let before = chat_run(state, inputs.drop_last());
        chat_passes_on_the_text(state, inputs.drop_last());
        lemma_answer_text_append(
            chat_transcript(state, inputs.drop_last()),
            chat_outcomes(before, inputs.last()),
        );
        lemma_step_text(before, inputs.last());
        if chat_run(state, inputs).done {
            assert(answer_text(chat_transcript(state, inputs)) =~= answer_text(
                chat_transcript(state, inputs.drop_last()),
            ));
        } else {
            assert(chat_before_end(state, inputs.drop_last()) == inputs.drop_last());
        }
    }
}

/// The call id with which an event announces a tool call.
pub open spec fn announced_call_id(event: EventView) -> Option<Seq<char>> {
    match event {
        EventView::OutputItemAdded(ItemView::FunctionCall { call_id, .. }) => Some(call_id),
        _ => None,
    }
}

/// The item id under which an event passes on arguments of a tool call.
pub open spec fn argument_item_id(event: EventView) -> Option<Seq<char>> {
    match event {
        EventView::ToolCallInputDelta { item_id, .. } => Some(item_id),
        _ => None,
    }
}

/// The arguments of a tool call go out under the id that the call was announced
/// with, as long as the provider gives the call no other id: `first` announces
/// the call, `later` brings arguments, and neither `later` nor a fragment
/// between the two gives an id for that call.
pub proof fn arguments_carry_announced_id(
    builders: Map<u32, BuilderView>,
    first: ToolCallView,
    between: Seq<ToolCallView>,
    later: ToolCallView,
)
    requires
        first.function is Some,
        first.function->0.name is Some,
        later.function is Some,
        later.function->0.arguments is Some,
        call_index(later) == call_index(first),
        later.id is None,
        forall|i: int|
            0 <= i < between.len() && call_index(#[trigger] between[i]) == call_index(first)
                ==> between[i].id is None,
    ensures
        ({
            let announced = call_events(builders, first);
            let brought = call_events(calls_builders(call_builders(builders, first), between), later);
            &&& announced.len() > 0
            &&& brought.len() > 0
            &&& announced_call_id(announced.first()) is Some
            &&& announced_call_id(announced.first()) == argument_item_id(brought.last())
        }),
{
    let known = call_builders(builders, first);
    lemma_id_is_kept(known, between, call_index(first));
}

/// The input gives an id for the tool call at `index`.
pub open spec fn gives_call_id(input: ChatInputView, index: u32) -> bool {
    match input {
        ChatInputView::Message { chunk: Some(chunk), .. } => exists|i: int, j: int|
            0 <= i < chunk_choices(chunk).len() && 0 <= j < choice_calls(
                chunk_choices(chunk)[i],
            ).len() && call_index(#[trigger] choice_calls(chunk_choices(chunk)[i])[j]) == index
                && choice_calls(chunk_choices(chunk)[i])[j].id is Some,
        _ => false,
    }
}

/// The id of a tool call stays while the stream brings no other id for it.
pub proof fn chat_call_id_is_kept(state: ChatState, inputs: Seq<ChatInputView>, index: u32)
    requires
        state.builders.contains_key(index),
        forall|k: int| 0 <= k < inputs.len() ==> !gives_call_id(#[trigger] inputs[k], index),
    ensures
        chat_run(state, inputs).builders.contains_key(index),
        chat_run(state, inputs).builders[index].id == state.builders[index].id,
    decreases inputs.len(),
{
    if inputs.len() > 0 {
        let fewer = inputs.drop_last();
        assert forall|k: int| 0 <= k < fewer.len() implies !gives_call_id(
            #[trigger] fewer[k],
            index,
        ) by {
            assert(fewer[k] == inputs[k]);
        }
        chat_call_id_is_kept(state, fewer, index);
        let input = inputs[inputs.len() - 1];
        assert(!gives_call_id(input, index));
        if let ChatInputView::Message { chunk: Some(chunk), .. } = input {
            lemma_id_is_kept_by_choices(
                chat_run(state, fewer).builders,
                chunk_choices(chunk),
                index,
            );
        }
    }
}

proof fn lemma_id_is_kept_by_choices(
    builders: Map<u32, BuilderView>,
    choices: Seq<ChoiceView>,
    index: u32,
)
    requires
        builders.contains_key(index),
        forall|i: int, j: int|
            0 <= i < choices.len() && 0 <= j < choice_calls(choices[i]).len() && call_index(
                #[trigger] choice_calls(choices[i])[j],
            ) == index ==> choice_calls(choices[i])[j].id is None,
    ensures
        choices_builders(builders, choices).contains_key(index),
        choices_builders(builders, choices)[index].id == builders[index].id,
    decreases choices.len(),
{
    if choices.len() > 0 {
        let fewer = choices.drop_last();
        assert forall|i: int, j: int|
            0 <= i < fewer.len() && 0 <= j < choice_calls(fewer[i]).len() && call_index(
                #[trigger] choice_calls(fewer[i])[j],
            ) == index implies choice_calls(fewer[i])[j].id is None by {
            assert(choice_calls(choices[i])[j] == choice_calls(fewer[i])[j]);
        }
        lemma_id_is_kept_by_choices(builders, fewer, index);
        let calls = choice_calls(choices[choices.len() - 1]);
        assert forall|j: int| 0 <= j < calls.len() && call_index(#[trigger] calls[j])
            == index implies calls[j].id is None by {
            assert(choice_calls(choices[choices.len() - 1])[j] == calls[j]);
        }
        lemma_id_is_kept(choices_builders(builders, fewer), calls, index);
    }
}

proof fn lemma_id_is_kept(builders: Map<u32, BuilderView>, calls: Seq<ToolCallView>, index: u32)
    requires
        builders.contains_key(index),
        forall|i: int|
            0 <= i < calls.len() && call_index(#[trigger] calls[i]) == index ==> calls[i].id is None,
    ensures
        calls_builders(builders, calls).contains_key(index),
        calls_builders(builders, calls)[index].id == builders[index].id,
    decreases calls.len(),
{
    if calls.len() > 0 {
        let fewer = calls.drop_last();
        assert forall|i: int| 0 <= i < fewer.len() && call_index(#[trigger] fewer[i])
            == index implies fewer[i].id is None by {
            assert(fewer[i] == calls[i]);
        }
        lemma_id_is_kept(builders, fewer, index);
        assert(calls.last() == calls[calls.len() - 1]);
    }
}

} // verus!
