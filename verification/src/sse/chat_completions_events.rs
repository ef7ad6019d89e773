//! What a Chat Completions stream makes of each thing that a provider sends:
//! what the parts of a chunk bring, that parts follow each other in order, and
//! what is reported at the end of all that came before.

use vstd::prelude::*;

use crate::common::{
    all_ok, lemma_all_ok_append, EventView, ItemView, OutcomeView, TokenUsage,
};
use crate::sse::chat_completions::{
    call_builders, call_events, calls_builders, calls_events, chat_next, chat_outcomes, chat_start,
    choice_calls, choice_events, choices_builders, choices_end_turn, choices_events, chunk_choices,
    BuilderView, ChatInputView, ChatState, ChatUsage, ChoiceView, ChunkView,
    DeltaView, ToolCallView,
};
use crate::sse::chat_completions_laws::{chat_run, chat_transcript};
use crate::text::{decimal, trimmed};

verus! {

/// A chunk that holds choices alone.
pub open spec fn choices_alone(choices: Seq<ChoiceView>) -> ChatInputView {
    ChatInputView::Message {
        data: Seq::empty(),
        chunk: Some(
            ChunkView { id: None, model: None, choices: Some(choices), usage: None, error: None },
        ),
    }
}

/// A chunk that holds fragments of tool calls alone.
pub open spec fn calls_alone(calls: Seq<ToolCallView>) -> ChatInputView {
    choices_alone(
        seq![
            ChoiceView {
                delta: Some(
                    DeltaView { content: None, tool_calls: Some(calls), reasoning_content: None },
                ),
                finish_reason: None,
            },
        ],
    )
}

/// The list of the one outcome that hands out `event`.
pub open spec fn just(event: EventView) -> Seq<OutcomeView> {
    seq![Ok(event)]
}

proof fn lemma_empty_is_no_end_mark()
    ensures
        trimmed(Seq::<char>::empty()) != "[DONE]"@,
{
    reveal_strlit("[DONE]");
    assert(trimmed(Seq::<char>::empty()).len() == 0);
}

proof fn lemma_one_ok(event: EventView)
    ensures
        all_ok(seq![event]) == just(event),
{
    assert(all_ok(seq![event]) =~= just(event));
}

proof fn lemma_choices_alone(state: ChatState, choices: Seq<ChoiceView>)
    requires
        !state.done,
    ensures
        chat_outcomes(state, choices_alone(choices)) == all_ok(
            choices_events(state.builders, choices),
        ),
        chat_next(state, choices_alone(choices)) == (ChatState {
            builders: choices_builders(state.builders, choices),
            end_turn: choices_end_turn(state.end_turn, choices),
            ..state
        }),
{
    lemma_empty_is_no_end_mark();
    let events = choices_events(state.builders, choices);
    assert(Seq::<EventView>::empty() + events =~= events);
}

/// A stream starts with nothing known.
pub proof fn chat_starts_empty()
    ensures
        chat_start().response_id is None,
        chat_start().token_usage is None,
        chat_start().end_turn is None,
        chat_start().builders =~= Map::empty(),
        !chat_start().done,
{
}

/// A chunk without an error brings its model, then what its choices bring, and
/// nothing else. Its id counts where none was given before, and its usage, with
/// 0 for what it does not give, takes the place of an earlier one.
pub proof fn chat_chunks_bring_model_then_choices(
    state: ChatState,
    data: Seq<char>,
    chunk: ChunkView,
)
    requires
        !state.done,
        trimmed(data) != "[DONE]"@,
        chunk.error is None,
    ensures
        ({
            let input = ChatInputView::Message { data, chunk: Some(chunk) };
            let model = match chunk.model {
                Some(model) => just(EventView::ServerModel(model)),
                None => Seq::empty(),
            };
            let alone = choices_alone(
                match chunk.choices {
                    Some(choices) => choices,
                    None => Seq::empty(),
                },
            );
            let next = chat_next(state, input);
            &&& chat_outcomes(state, input) == model + chat_outcomes(state, alone)
            &&& !next.done
            &&& next.end_turn == chat_next(state, alone).end_turn
            &&& next.builders == chat_next(state, alone).builders
            &&& state.response_id is Some ==> next.response_id == state.response_id
            &&& state.response_id is None ==> next.response_id == chunk.id
            &&& chunk.usage is None ==> next.token_usage == state.token_usage
            &&& chunk.usage matches Some(usage) ==> reports_chat_usage(next.token_usage, usage)
        }),
{
    let choices = chunk_choices(chunk);
    lemma_choices_alone(state, choices);
    let model: Seq<EventView> = match chunk.model {
        Some(model) => seq![EventView::ServerModel(model)],
        None => Seq::empty(),
    };
    lemma_all_ok_append(model, choices_events(state.builders, choices));
    if let Some(model) = chunk.model {
        lemma_one_ok(EventView::ServerModel(model));
    } else {
        assert(all_ok(model) =~= Seq::empty());
    }
}

/// The token counts are those that a chunk's usage gives, 0 where it gives none.
pub open spec fn reports_chat_usage(reported: Option<TokenUsage>, usage: ChatUsage) -> bool {
    &&& reported is Some
    &&& reported->0.input_tokens == usage.prompt_tokens.unwrap_or(0)
    &&& reported->0.output_tokens == usage.completion_tokens.unwrap_or(0)
    &&& reported->0.total_tokens == usage.total_tokens.unwrap_or(0)
    &&& reported->0.cached_input_tokens == 0
    &&& reported->0.reasoning_output_tokens == 0
}

/// Choices are taken in one after the other: those of two lists in one chunk
/// bring what the two lists bring in two chunks. No choices bring nothing.
pub proof fn chat_choices_follow_each_other(
    state: ChatState,
    first: Seq<ChoiceView>,
    second: Seq<ChoiceView>,
)
    requires
        !state.done,
    ensures
        ({
            let between = chat_next(state, choices_alone(first));
            &&& chat_outcomes(state, choices_alone(first + second)) == chat_outcomes(
                state,
                choices_alone(first),
            ) + chat_outcomes(between, choices_alone(second))
            &&& chat_next(state, choices_alone(first + second)) == chat_next(
                between,
                choices_alone(second),
            )
        }),
        chat_outcomes(state, choices_alone(Seq::empty())) == Seq::<OutcomeView>::empty(),
        chat_next(state, choices_alone(Seq::empty())) == state,
{
    let none = Seq::<ChoiceView>::empty();
    lemma_choices_alone(state, none);
    assert(all_ok(choices_events(state.builders, none)) =~= Seq::empty());
    lemma_choices_alone(state, first);
    let between = chat_next(state, choices_alone(first));
    lemma_choices_alone(state, first + second);
    lemma_choices_alone(between, second);
    lemma_choices_append(state.builders, state.end_turn, first, second);
    lemma_all_ok_append(
        choices_events(state.builders, first),
        choices_events(between.builders, second),
    );
}

proof fn lemma_choices_append(
    builders: Map<u32, BuilderView>,
    end_turn: Option<bool>,
    first: Seq<ChoiceView>,
    second: Seq<ChoiceView>,
)
    ensures
        choices_events(builders, first + second) == choices_events(builders, first)
            + choices_events(choices_builders(builders, first), second),
        choices_builders(builders, first + second) == choices_builders(
            choices_builders(builders, first),
            second,
        ),
        choices_end_turn(end_turn, first + second) == choices_end_turn(
            choices_end_turn(end_turn, first),
            second,
        ),
    decreases second.len(),
{
    let whole = first + second;
    if second.len() == 0 {
        assert(whole =~= first);
        let events = choices_events(builders, first);
        assert(events + Seq::<EventView>::empty() =~= events);
    } else {
        lemma_choices_append(builders, end_turn, first, second.drop_last());
        assert(whole.drop_last() =~= first + second.drop_last());
        assert(whole.last() == second.last());
        assert(choices_events(builders, whole) =~= choices_events(builders, first)
            + choices_events(choices_builders(builders, first), second));
    }
}

/// A choice brings its text, then its reasoning unless that is empty, then what
/// its tool calls bring, and nothing else. A finish reason counts whatever else
/// the choice holds: `stop` and `end_turn` say that the turn ended, others that
/// it did not, and without one it stays as it was.
pub proof fn chat_choices_bring_text_reasoning_calls(state: ChatState, choice: ChoiceView)
    requires
        !state.done,
    ensures
        ({
            let input = choices_alone(seq![choice]);
            let next = chat_next(state, input);
            &&& next.response_id == state.response_id
            &&& next.token_usage == state.token_usage
            &&& !next.done
            &&& choice.finish_reason is None ==> next.end_turn == state.end_turn
            &&& choice.finish_reason matches Some(reason) ==> next.end_turn == Some(
                reason == "stop"@ || reason == "end_turn"@,
            )
            &&& choice.delta is None ==> chat_outcomes(state, input) == Seq::<
                OutcomeView,
            >::empty() && next.builders == state.builders
            &&& choice.delta matches Some(delta) ==> {
                let text = match delta.content {
                    Some(content) => just(EventView::OutputTextDelta(content)),
                    None => Seq::empty(),
                };
                let reasoning = match delta.reasoning_content {
                    Some(reasoning) => if reasoning.len() == 0 {
                        Seq::empty()
                    } else {
                        just(
                            EventView::ReasoningContentDelta { delta: reasoning, content_index: 0 },
                        )
                    },
                    None => Seq::empty(),
                };
                let calls = calls_alone(
                    match delta.tool_calls {
                        Some(calls) => calls,
                        None => Seq::empty(),
                    },
                );
                &&& chat_outcomes(state, input) == text + reasoning + chat_outcomes(state, calls)
                &&& next.builders == chat_next(state, calls).builders
            }
        }),
{
    lemma_choices_alone(state, seq![choice]);
    lemma_one_choice(state.builders, state.end_turn, choice);
    if let Some(delta) = choice.delta {
        let fragments = match delta.tool_calls {
            Some(calls) => calls,
            None => Seq::empty(),
        };
        lemma_calls_alone(state, fragments);
        let text: Seq<EventView> = match delta.content {
            Some(content) => seq![EventView::OutputTextDelta(content)],
            None => Seq::empty(),
        };
        let reasoning: Seq<EventView> = match delta.reasoning_content {
            Some(reasoning) if reasoning.len() > 0 => seq![
                EventView::ReasoningContentDelta { delta: reasoning, content_index: 0 },
            ],
            _ => Seq::empty(),
        };
        let calls = calls_events(state.builders, fragments);
        assert(choice_events(state.builders, choice) == text + reasoning + calls);
        lemma_all_ok_append(text + reasoning, calls);
        lemma_all_ok_append(text, reasoning);
        if text.len() > 0 {
            lemma_one_ok(text[0]);
        } else {
            assert(all_ok(text) =~= Seq::empty());
        }
        if reasoning.len() > 0 {
            lemma_one_ok(reasoning[0]);
        } else {
            assert(all_ok(reasoning) =~= Seq::empty());
        }
    } else {
        assert(all_ok(choice_events(state.builders, choice)) =~= Seq::empty());
    }
}

proof fn lemma_one_choice(
    builders: Map<u32, BuilderView>,
    end_turn: Option<bool>,
    choice: ChoiceView,
)
    ensures
        choices_events(builders, seq![choice]) == choice_events(builders, choice),
        choices_builders(builders, seq![choice]) == calls_builders(builders, choice_calls(choice)),
        choices_end_turn(end_turn, seq![choice]) == match choice.finish_reason {
            Some(reason) => Some(reason == "stop"@ || reason == "end_turn"@),
            None => end_turn,
        },
{
    let one = seq![choice];
    let none = Seq::<ChoiceView>::empty();
    assert(one.drop_last() =~= none);
    assert(choices_end_turn(end_turn, none) == end_turn);
    assert(choices_builders(builders, none) == builders);
    let events = choice_events(builders, choice);
    assert(Seq::<EventView>::empty() + events =~= events);
    assert(choices_events(builders, none) =~= Seq::empty());
}

proof fn lemma_calls_alone(state: ChatState, calls: Seq<ToolCallView>)
    requires
        !state.done,
    ensures
        chat_outcomes(state, calls_alone(calls)) == all_ok(calls_events(state.builders, calls)),
        chat_next(state, calls_alone(calls)) == (ChatState {
            builders: calls_builders(state.builders, calls),
            ..state
        }),
{
    let choice = ChoiceView {
        delta: Some(
            DeltaView { content: None, tool_calls: Some(calls), reasoning_content: None },
        ),
        finish_reason: None,
    };
    lemma_choices_alone(state, seq![choice]);
    lemma_one_choice(state.builders, state.end_turn, choice);
    let events = calls_events(state.builders, calls);
    assert(Seq::<EventView>::empty() + Seq::<EventView>::empty() + events =~= events);
}

/// Fragments of tool calls are taken in one after the other: those of two lists
/// in one choice bring what the two lists bring in two chunks. No fragments
/// bring nothing.
pub proof fn chat_fragments_follow_each_other(
    state: ChatState,
    first: Seq<ToolCallView>,
    second: Seq<ToolCallView>,
)
    requires
        !state.done,
    ensures
        ({
            let between = chat_next(state, calls_alone(first));
            &&& chat_outcomes(state, calls_alone(first + second)) == chat_outcomes(
                state,
                calls_alone(first),
            ) + chat_outcomes(between, calls_alone(second))
            &&& chat_next(state, calls_alone(first + second)) == chat_next(
                between,
                calls_alone(second),
            )
        }),
        chat_outcomes(state, calls_alone(Seq::empty())) == Seq::<OutcomeView>::empty(),
        chat_next(state, calls_alone(Seq::empty())) == state,
{
    let none = Seq::<ToolCallView>::empty();
    lemma_calls_alone(state, none);
    assert(all_ok(calls_events(state.builders, none)) =~= Seq::empty());
    lemma_calls_alone(state, first);
    let between = chat_next(state, calls_alone(first));
    lemma_calls_alone(state, first + second);
    lemma_calls_alone(between, second);
    lemma_calls_append(state.builders, first, second);
    lemma_all_ok_append(
        calls_events(state.builders, first),
        calls_events(between.builders, second),
    );
}

proof fn lemma_calls_append(
    builders: Map<u32, BuilderView>,
    first: Seq<ToolCallView>,
    second: Seq<ToolCallView>,
)
    ensures
        calls_events(builders, first + second) == calls_events(builders, first) + calls_events(
            calls_builders(builders, first),
            second,
        ),
        calls_builders(builders, first + second) == calls_builders(
            calls_builders(builders, first),
            second,
        ),
    decreases second.len(),
{
    let whole = first + second;
    if second.len() == 0 {
        assert(whole =~= first);
        let events = calls_events(builders, first);
        assert(events + Seq::<EventView>::empty() =~= events);
    } else {
        lemma_calls_append(builders, first, second.drop_last());
        assert(whole.drop_last() =~= first + second.drop_last());
        assert(whole.last() == second.last());
        assert(calls_events(builders, whole) =~= calls_events(builders, first) + calls_events(
            calls_builders(builders, first),
            second,
        ));
    }
}

/// A fragment of a tool call belongs to the call at its index, 0 where it gives
/// none. The call's id is the one that the fragment gives, or the one that the
/// call had. A name announces the call under that id, or under `call_` and the
/// index where it has none; arguments are passed on under the same, as they
/// come. Other calls stay as they are.
pub proof fn chat_fragments_bring_announcement_then_arguments(state: ChatState, call: ToolCallView)
    requires
        !state.done,
    ensures
        ({
            let input = calls_alone(seq![call]);
            let index = call.index.unwrap_or(0);
            let known = if state.builders.contains_key(index) {
                state.builders[index].id
            } else {
                None
            };
            let id = if call.id is Some {
                call.id
            } else {
                known
            };
            let shown = id.unwrap_or("call_"@ + decimal(index as nat));
            let next = chat_next(state, input);
            &&& next.response_id == state.response_id
            &&& next.token_usage == state.token_usage
            &&& next.end_turn == state.end_turn
            &&& !next.done
            &&& next.builders.contains_key(index)
            &&& next.builders[index].id == id
            &&& next.builders.remove(index) == state.builders.remove(index)
            &&& match call.function {
                None => chat_outcomes(state, input) == Seq::<OutcomeView>::empty(),
                Some(function) => {
                    let announced = match function.name {
                        None => Seq::empty(),
                        Some(name) => just(
                            EventView::OutputItemAdded(
                                ItemView::FunctionCall {
                                    id: Some("func_"@ + decimal(index as nat)),
                                    name,
                                    namespace: None,
                                    arguments: Seq::empty(),
                                    call_id: shown,
                                },
                            ),
                        ),
                    };
                    let passed_on = match function.arguments {
                        None => Seq::empty(),
                        Some(arguments) => just(
                            EventView::ToolCallInputDelta {
                                item_id: shown,
                                call_id: id,
                                delta: arguments,
                            },
                        ),
                    };
                    chat_outcomes(state, input) == announced + passed_on
                },
            }
        }),
{
    let one = seq![call];
    let none = Seq::<ToolCallView>::empty();
    lemma_calls_alone(state, one);
    assert(one.drop_last() =~= none);
    assert(calls_builders(state.builders, none) == state.builders);
    assert(calls_events(state.builders, none) =~= Seq::empty());
    let events = call_events(state.builders, call);
    assert(Seq::<EventView>::empty() + events =~= events);
    assert(calls_events(state.builders, one) == events);
    let index = call.index.unwrap_or(0);
    assert(call_builders(state.builders, call).remove(index) =~= state.builders.remove(index));
    if let Some(function) = call.function {
        let announced = if function.name is Some {
            seq![events[0]]
        } else {
            Seq::empty()
        };
        let passed_on = if function.arguments is Some {
            seq![events.last()]
        } else {
            Seq::empty()
        };
        assert(events =~= announced + passed_on);
        lemma_all_ok_append(announced, passed_on);
        if function.name is Some {
            lemma_one_ok(events[0]);
        } else {
            assert(all_ok(announced) =~= Seq::empty());
        }
        if function.arguments is Some {
            lemma_one_ok(events.last());
        } else {
            assert(all_ok(passed_on) =~= Seq::empty());
        }
    } else {
        assert(all_ok(events) =~= Seq::empty());
    }
}

/// The event that completes a stream carries all that is known at its end.
pub open spec fn completes(event: EventView, state: ChatState) -> bool {
    event == (EventView::Completed {
        response_id: state.response_id.unwrap_or(Seq::empty()),
        token_usage: state.token_usage,
        end_turn: state.end_turn,
    })
}

/// What ends a stream, and what is reported then: the end mark completes it,
/// whatever white space stands around it; closing completes it where it brought
/// an id or a usage, and is silent otherwise; an error that the provider or the
/// transport reports, and a stream that stays silent too long, are errors. All
/// that was known stays.
pub proof fn chat_ends(state: ChatState, input: ChatInputView)
    requires
        !state.done,
    ensures
        ({
            let outcomes = chat_outcomes(state, input);
            let over = chat_next(state, input).done;
            &&& over ==> chat_next(state, input) == (ChatState { done: true, ..state })
            &&& match input {
                ChatInputView::Message { data, chunk } => {
                    &&& trimmed(data) == "[DONE]"@ ==> {
                        &&& over
                        &&& outcomes.len() == 1
                        &&& outcomes[0] is Ok
                        &&& completes(outcomes[0]->Ok_0, state)
                    }
                    &&& trimmed(data) != "[DONE]"@ ==> match chunk {
                        None => outcomes.len() == 0 && chat_next(state, input) == state,
                        Some(chunk) => match chunk.error {
                            Some(message) => {
                                let error: OutcomeView = Err(
                                    "Chat Completions API error: "@ + message,
                                );
                                over && outcomes == seq![error]
                            },
                            None => !over,
                        },
                    }
                },
                ChatInputView::TransportError(detail) => {
                    let error: OutcomeView = Err("SSE stream error: "@ + detail);
                    over && outcomes == seq![error]
                },
                ChatInputView::IdleTimeout => {
                    let error: OutcomeView = Err("stream idle timeout"@);
                    over && outcomes == seq![error]
                },
                ChatInputView::Closed => {
                    &&& over
                    &&& if state.response_id is None && state.token_usage is None {
                        outcomes.len() == 0
                    } else {
                        outcomes.len() == 1 && outcomes[0] is Ok && completes(
                            outcomes[0]->Ok_0,
                            state,
                        )
                    }
                },
            }
        }),
{
}

/// The chunk of an input.
pub open spec fn chunk_at(inputs: Seq<ChatInputView>, i: int) -> Option<ChunkView> {
    match inputs[i] {
        ChatInputView::Message { chunk, .. } => chunk,
        _ => None,
    }
}

/// The finish reason that the choice `j` of the input `i` brings.
pub open spec fn finish_reason_at(inputs: Seq<ChatInputView>, i: int, j: int) -> Option<Seq<char>> {
    match chunk_at(inputs, i) {
        Some(chunk) => match chunk.choices {
            Some(choices) => if 0 <= j < choices.len() {
                choices[j].finish_reason
            } else {
                None
            },
            None => None,
        },
        None => None,
    }
}

/// The choice `k` of the input `h` comes after the choice `j` of the input `i`.
pub open spec fn comes_after(h: int, k: int, i: int, j: int) -> bool {
    h > i || (h == i && k > j)
}

proof fn lemma_no_reason(end_turn: Option<bool>, choices: Seq<ChoiceView>)
    requires
        forall|j: int| 0 <= j < choices.len() ==> (#[trigger] choices[j]).finish_reason is None,
    ensures
        choices_end_turn(end_turn, choices) == end_turn,
    decreases choices.len(),
{
    if choices.len() > 0 {
        assert(choices[choices.len() - 1].finish_reason is None);
        assert forall|j: int| 0 <= j < choices.drop_last().len() implies (
        #[trigger] choices.drop_last()[j]).finish_reason is None by {
            assert(choices[j].finish_reason is None);
        }
        lemma_no_reason(end_turn, choices.drop_last());
    }
}

proof fn lemma_last_reason(end_turn: Option<bool>, choices: Seq<ChoiceView>, j: int)
    requires
        0 <= j < choices.len(),
        choices[j].finish_reason is Some,
        forall|k: int|
            j < k < choices.len() ==> (#[trigger] choices[k]).finish_reason is None,
    ensures
        choices_end_turn(end_turn, choices) == Some(
            choices[j].finish_reason->0 == "stop"@ || choices[j].finish_reason->0 == "end_turn"@,
        ),
    decreases choices.len(),
{
    if j < choices.len() - 1 {
        assert(choices[choices.len() - 1].finish_reason is None);
        assert forall|k: int| j < k < choices.drop_last().len() implies (
        #[trigger] choices.drop_last()[k]).finish_reason is None by {
            assert(choices[k].finish_reason is None);
        }
        lemma_last_reason(end_turn, choices.drop_last(), j);
    }
}

proof fn lemma_end_turn_stays(state: ChatState, inputs: Seq<ChatInputView>, from: int)
    requires
        0 <= from <= inputs.len(),
        !chat_run(state, inputs).done,
        forall|h: int, k: int| from <= h < inputs.len() ==> #[trigger] finish_reason_at(
            inputs,
            h,
            k,
        ) is None,
    ensures
        chat_run(state, inputs).end_turn == chat_run(state, inputs.take(from)).end_turn,
    decreases inputs.len(),
{
    if inputs.len() == from {
        assert(inputs.take(from) =~= inputs);
    } else {
        let fewer = inputs.drop_last();
        let last = inputs.len() - 1;
        assert(fewer.take(from) =~= inputs.take(from));
        assert forall|h: int, k: int| from <= h < fewer.len() implies #[trigger] finish_reason_at(
            fewer,
            h,
            k,
        ) is None by {
            assert(finish_reason_at(inputs, h, k) is None);
        }
        lemma_end_turn_stays(state, fewer, from);
        if let Some(chunk) = chunk_at(inputs, last) {
            let choices = chunk_choices(chunk);
            assert forall|j: int| 0 <= j < choices.len() implies (
            #[trigger] choices[j]).finish_reason is None by {
                assert(finish_reason_at(inputs, last, j) is None);
            }
            lemma_no_reason(chat_run(state, fewer).end_turn, choices);
        }
    }
}

/// A stream says of its turn what the last finish reason says that any choice of
/// any chunk brought, whatever else that choice holds.
pub proof fn chat_last_finish_reason_counts(inputs: Seq<ChatInputView>, i: int, j: int)
    requires
        !chat_run(chat_start(), inputs).done,
        0 <= i < inputs.len(),
        finish_reason_at(inputs, i, j) is Some,
        forall|h: int, k: int|
            0 <= h < inputs.len() && comes_after(h, k, i, j) ==> #[trigger] finish_reason_at(
                inputs,
                h,
                k,
            ) is None,
    ensures
        chat_run(chat_start(), inputs).end_turn == Some(
            finish_reason_at(inputs, i, j)->0 == "stop"@ || finish_reason_at(inputs, i, j)->0
                == "end_turn"@,
        ),
{
    let upto = inputs.take(i + 1);
    assert forall|h: int, k: int| i + 1 <= h < inputs.len() implies #[trigger] finish_reason_at(
        inputs,
        h,
        k,
    ) is None by {
        assert(comes_after(h, k, i, j));
    }
    lemma_end_turn_stays(chat_start(), inputs, i + 1);
    lemma_prefix_goes_on(chat_start(), inputs, i + 1);
    assert(upto.last() == inputs[i]);
    let before = chat_run(chat_start(), upto.drop_last());
    let choices = chunk_choices(chunk_at(inputs, i)->0);
    assert forall|k: int| j < k < choices.len() implies (
    #[trigger] choices[k]).finish_reason is None by {
        assert(comes_after(i, k, i, j));
        assert(finish_reason_at(inputs, i, k) is None);
    }
    lemma_last_reason(before.end_turn, choices, j);
}

/// A stream says nothing of its turn where no choice brought a finish reason.
pub proof fn chat_without_finish_reason(inputs: Seq<ChatInputView>)
    requires
        !chat_run(chat_start(), inputs).done,
        forall|h: int, k: int|
            0 <= h < inputs.len() ==> #[trigger] finish_reason_at(inputs, h, k) is None,
    ensures
        chat_run(chat_start(), inputs).end_turn is None,
{
    lemma_end_turn_stays(chat_start(), inputs, 0);
    assert(inputs.take(0) =~= Seq::empty());
}

proof fn lemma_prefix_goes_on(state: ChatState, inputs: Seq<ChatInputView>, n: int)
    requires
        0 <= n <= inputs.len(),
        !chat_run(state, inputs).done,
    ensures
        !chat_run(state, inputs.take(n)).done,
    decreases inputs.len(),
{
    if n == inputs.len() {
        assert(inputs.take(n) =~= inputs);
    } else {
        lemma_prefix_goes_on(state, inputs.drop_last(), n);
        assert(inputs.drop_last().take(n) =~= inputs.take(n));
    }
}

/// The usage that the input `i` brings.
pub open spec fn usage_at(inputs: Seq<ChatInputView>, i: int) -> Option<ChatUsage> {
    match chunk_at(inputs, i) {
        Some(chunk) => chunk.usage,
        None => None,
    }
}

proof fn lemma_usage_stays(state: ChatState, inputs: Seq<ChatInputView>, from: int)
    requires
        0 <= from <= inputs.len(),
        !chat_run(state, inputs).done,
        forall|h: int| from <= h < inputs.len() ==> #[trigger] usage_at(inputs, h) is None,
    ensures
        chat_run(state, inputs).token_usage == chat_run(state, inputs.take(from)).token_usage,
    decreases inputs.len(),
{
    if inputs.len() == from {
        assert(inputs.take(from) =~= inputs);
    } else {
        let fewer = inputs.drop_last();
        assert(fewer.take(from) =~= inputs.take(from));
        assert forall|h: int| from <= h < fewer.len() implies #[trigger] usage_at(
            fewer,
            h,
        ) is None by {
            assert(usage_at(inputs, h) is None);
        }
        lemma_usage_stays(state, fewer, from);
        assert(usage_at(inputs, inputs.len() - 1) is None);
    }
}

/// A stream reports the last usage that any chunk brought, as that gives it.
pub proof fn chat_last_usage_counts(inputs: Seq<ChatInputView>, i: int)
    requires
        !chat_run(chat_start(), inputs).done,
        0 <= i < inputs.len(),
        usage_at(inputs, i) is Some,
        forall|h: int| i < h < inputs.len() ==> #[trigger] usage_at(inputs, h) is None,
    ensures
        reports_chat_usage(
            chat_run(chat_start(), inputs).token_usage,
            usage_at(inputs, i)->0,
        ),
{
    let upto = inputs.take(i + 1);
    lemma_usage_stays(chat_start(), inputs, i + 1);
    lemma_prefix_goes_on(chat_start(), inputs, i + 1);
    assert(upto.last() == inputs[i]);
}

/// A stream reports no usage where no chunk brought one.
pub proof fn chat_without_usage(inputs: Seq<ChatInputView>)
    requires
        !chat_run(chat_start(), inputs).done,
        forall|h: int| 0 <= h < inputs.len() ==> #[trigger] usage_at(inputs, h) is None,
    ensures
        chat_run(chat_start(), inputs).token_usage is None,
{
    lemma_usage_stays(chat_start(), inputs, 0);
    assert(inputs.take(0) =~= Seq::empty());
}

/// The response id that the input `i` brings.
pub open spec fn id_at(inputs: Seq<ChatInputView>, i: int) -> Option<Seq<char>> {
    match chunk_at(inputs, i) {
        Some(chunk) => chunk.id,
        None => None,
    }
}

/// A stream has no response id while no chunk brought one.
pub proof fn chat_without_id(inputs: Seq<ChatInputView>)
    requires
        !chat_run(chat_start(), inputs).done,
        forall|h: int| 0 <= h < inputs.len() ==> #[trigger] id_at(inputs, h) is None,
    ensures
        chat_run(chat_start(), inputs).response_id is None,
    decreases inputs.len(),
{
    if inputs.len() > 0 {
        let fewer = inputs.drop_last();
        assert forall|h: int| 0 <= h < fewer.len() implies #[trigger] id_at(fewer, h) is None by {
            assert(id_at(inputs, h) is None);
        }
        chat_without_id(fewer);
        assert(id_at(inputs, inputs.len() - 1) is None);
    }
}

/// The response id of a stream is the first that any chunk brought.
pub proof fn chat_first_id_counts(inputs: Seq<ChatInputView>, i: int)
    requires
        !chat_run(chat_start(), inputs).done,
        0 <= i < inputs.len(),
        id_at(inputs, i) is Some,
        forall|h: int| 0 <= h < i ==> #[trigger] id_at(inputs, h) is None,
    ensures
        chat_run(chat_start(), inputs).response_id == id_at(inputs, i),
    decreases inputs.len(),
{
    let fewer = inputs.drop_last();
    if i == inputs.len() - 1 {
        assert forall|h: int| 0 <= h < fewer.len() implies #[trigger] id_at(fewer, h) is None by {
            assert(id_at(inputs, h) is None);
        }
        chat_without_id(fewer);
    } else {
        assert forall|h: int| 0 <= h < i implies #[trigger] id_at(fewer, h) is None by {
            assert(id_at(inputs, h) is None);
        }
        assert(id_at(fewer, i) == id_at(inputs, i));
        chat_first_id_counts(fewer, i);
    }
}

/// What the end mark completes a stream with, said of the inputs alone: the
/// first id, the last usage and what the last finish reason says.
pub proof fn chat_completion_sums_up(inputs: Seq<ChatInputView>, data: Seq<char>, chunk: Option<
    ChunkView,
>)
    requires
        !chat_run(chat_start(), inputs).done,
        trimmed(data) == "[DONE]"@,
    ensures
        ({
            let all = chat_transcript(
                chat_start(),
                inputs.push(ChatInputView::Message { data, chunk }),
            );
            &&& all.len() > 0
            &&& all.last() is Ok
            &&& completes(all.last()->Ok_0, chat_run(chat_start(), inputs))
            &&& all.drop_last() == chat_transcript(chat_start(), inputs)
        }),
{
    let mark = ChatInputView::Message { data, chunk };
    assert(inputs.push(mark).drop_last() =~= inputs);
    let state = chat_run(chat_start(), inputs);
    chat_ends(state, mark);
    let all = chat_transcript(chat_start(), inputs.push(mark));
    assert(all.drop_last() =~= chat_transcript(chat_start(), inputs));
}

} // verus!
