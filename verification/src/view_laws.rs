//! What the views of values tell: all that the values hold, field by field.

use vstd::prelude::*;

use crate::anthropic_types::AnthropicContentBlock as RequestBlock;
use crate::anthropic_types::{
    AnthropicMessageContent, AnthropicMessagesRequest, AnthropicSystem, AnthropicTool,
    ContentBlockView, TextOrBlocksView,
};
use crate::common::{
    outcome_view, outcomes_view, EventView, ItemView, ResponseEvent, ResponseItem, StreamOutcome,
};
use crate::endpoint::chat_completions::ChatFunctionCall as RequestFunctionCall;
use crate::endpoint::chat_completions::ChatToolCall as RequestToolCall;
use crate::endpoint::chat_completions::{ChatCompletionsRequest, ChatMessage};
use crate::error::ApiError;
use crate::json::json_text;
use crate::plugin_script::execution::CodexPluginScriptLifecycleEvent;
use crate::plugin_script::path::{ComponentView, LexicalPath, PathComponent, PathName};
use crate::plugin_script::resolve::{PluginScriptSkill, ResolvedPluginScript, SkillMetadata};
use crate::sse::anthropic::{
    AnthropicContentBlock, AnthropicDelta, AnthropicInput, AnthropicInputView,
    AnthropicStreamEvent, BlockDeltaView, BlockView, StreamEventView,
};
use crate::sse::chat_completions::{
    ChatChoice, ChatCompletionsChunk, ChatDelta, ChatFunctionCall, ChatInput, ChatInputView,
    ChatToolCall,
};

verus! {

/// The text that may be there.
pub open spec fn text_in(text: Option<String>) -> Option<Seq<char>> {
    match text {
        Some(text) => Some(text@),
        None => None,
    }
}

/// An item that was added is seen with all its fields.
pub proof fn items_are_seen_whole(item: ResponseItem)
    ensures
        match item {
            ResponseItem::FunctionCall { id, name, namespace, arguments, call_id } => {
                item.deep_view() == (ItemView::FunctionCall {
                    id: text_in(id),
                    name: name@,
                    namespace: text_in(namespace),
                    arguments: arguments@,
                    call_id: call_id@,
                })
            },
            ResponseItem::Reasoning { id, summary, content, encrypted_content } => {
                &&& item.deep_view() is Reasoning
                &&& item.deep_view()->Reasoning_id == id@
                &&& item.deep_view()->summary.len() == summary@.len()
                &&& item.deep_view()->content is Some == content is Some
                &&& item.deep_view()->encrypted_content == text_in(encrypted_content)
            },
        },
{
}

/// An event is seen with all its fields.
pub proof fn events_are_seen_whole(event: ResponseEvent)
    ensures
        event.deep_view() == match event {
            ResponseEvent::ServerModel(model) => EventView::ServerModel(model@),
            ResponseEvent::OutputItemAdded(item) => EventView::OutputItemAdded(item.deep_view()),
            ResponseEvent::OutputTextDelta(delta) => EventView::OutputTextDelta(delta@),
            ResponseEvent::ToolCallInputDelta { item_id, call_id, delta } => {
                EventView::ToolCallInputDelta {
                    item_id: item_id@,
                    call_id: text_in(call_id),
                    delta: delta@,
                }
            },
            ResponseEvent::ReasoningContentDelta { delta, content_index } => {
                EventView::ReasoningContentDelta { delta: delta@, content_index: content_index as int }
            },
            ResponseEvent::Completed { response_id, token_usage, end_turn } => {
                EventView::Completed { response_id: response_id@, token_usage, end_turn }
            },
        },
{
}

/// Outcomes are seen one by one, in order: events as events, and errors with
/// their messages.
pub proof fn outcomes_are_seen_whole(outcomes: Seq<StreamOutcome>, i: int)
    requires
        0 <= i < outcomes.len(),
    ensures
        outcomes_view(outcomes).len() == outcomes.len(),
        outcomes_view(outcomes)[i] == outcome_view(outcomes[i]),
        match outcomes[i] {
            Ok(event) => outcomes_view(outcomes)[i] is Ok && outcomes_view(outcomes)[i]->Ok_0
                == event.deep_view(),
            Err(ApiError::Stream(message)) => outcomes_view(outcomes)[i] is Err && outcomes_view(
                outcomes,
            )[i]->Err_0 == message@,
        },
{
}

/// A chunk is seen with all its fields, and its choices one by one.
pub proof fn chunks_are_seen_whole(chunk: ChatCompletionsChunk, i: int)
    ensures
        chunk.deep_view().id == text_in(chunk.id),
        chunk.deep_view().model == text_in(chunk.model),
        chunk.deep_view().usage == chunk.usage,
        chunk.deep_view().error is Some == chunk.error is Some,
        chunk.error matches Some(error) ==> chunk.deep_view().error == Some(error.message@),
        chunk.deep_view().choices is Some == chunk.choices is Some,
        chunk.choices matches Some(choices) ==> {
            &&& chunk.deep_view().choices->0.len() == choices@.len()
            &&& 0 <= i < choices@.len() ==> chunk.deep_view().choices->0[i]
                == choices@[i].deep_view()
        },
{
}

/// A choice is seen with all its fields.
pub proof fn choices_are_seen_whole(choice: ChatChoice)
    ensures
        choice.deep_view().finish_reason == text_in(choice.finish_reason),
        choice.deep_view().delta is Some == choice.delta is Some,
        choice.delta matches Some(delta) ==> choice.deep_view().delta == Some(delta.deep_view()),
{
}

/// A delta is seen with all its fields, and its tool calls one by one.
pub proof fn deltas_are_seen_whole(delta: ChatDelta, i: int)
    ensures
        delta.deep_view().content == text_in(delta.content),
        delta.deep_view().reasoning_content == text_in(delta.reasoning_content),
        delta.deep_view().tool_calls is Some == delta.tool_calls is Some,
        delta.tool_calls matches Some(calls) ==> {
            &&& delta.deep_view().tool_calls->0.len() == calls@.len()
            &&& 0 <= i < calls@.len() ==> delta.deep_view().tool_calls->0[i]
                == calls@[i].deep_view()
        },
{
}

/// A fragment of a tool call is seen with all its fields.
pub proof fn fragments_are_seen_whole(call: ChatToolCall, function: ChatFunctionCall)
    ensures
        call.deep_view().index == call.index,
        call.deep_view().id == text_in(call.id),
        call.deep_view().function is Some == call.function is Some,
        call.function matches Some(function) ==> call.deep_view().function == Some(
            function.deep_view(),
        ),
        function.deep_view().name == text_in(function.name),
        function.deep_view().arguments == text_in(function.arguments),
{
}

/// What the transport reports of a Chat Completions stream is seen whole.
pub proof fn chat_inputs_are_seen_whole(input: ChatInput)
    ensures
        input.deep_view() == match input {
            ChatInput::Message { data, chunk } => ChatInputView::Message {
                data: data@,
                chunk: match chunk {
                    Some(chunk) => Some(chunk.deep_view()),
                    None => None,
                },
            },
            ChatInput::TransportError(detail) => ChatInputView::TransportError(detail@),
            ChatInput::Closed => ChatInputView::Closed,
            ChatInput::IdleTimeout => ChatInputView::IdleTimeout,
        },
{
}

/// An event of an Anthropic stream is seen with all its fields.
pub proof fn anthropic_events_are_seen_whole(event: AnthropicStreamEvent)
    ensures
        event.deep_view() == match event {
            AnthropicStreamEvent::MessageStart { message } => StreamEventView::MessageStart {
                id: message.id@,
                model: message.model@,
            },
            AnthropicStreamEvent::ContentBlockStart { index, content_block } => {
                StreamEventView::ContentBlockStart {
                    index,
                    content_block: match content_block {
                        AnthropicContentBlock::Text => BlockView::Text,
                        AnthropicContentBlock::ToolUse { id, name, input } => BlockView::ToolUse {
                            id: id@,
                            name: name@,
                            input: json_text(input),
                        },
                        AnthropicContentBlock::Thinking => BlockView::Thinking,
                    },
                }
            },
            AnthropicStreamEvent::ContentBlockDelta { index, delta } => {
                StreamEventView::ContentBlockDelta {
                    index,
                    delta: match delta {
                        AnthropicDelta::TextDelta { text } => BlockDeltaView::TextDelta {
                            text: text@,
                        },
                        AnthropicDelta::InputJsonDelta { partial_json } => {
                            BlockDeltaView::InputJsonDelta { partial_json: partial_json@ }
                        },
                        AnthropicDelta::ThinkingDelta { thinking } => {
                            BlockDeltaView::ThinkingDelta { thinking: thinking@ }
                        },
                    },
                }
            },
            AnthropicStreamEvent::ContentBlockStop => StreamEventView::ContentBlockStop,
            AnthropicStreamEvent::MessageDelta { delta, usage } => StreamEventView::MessageDelta {
                stop_reason: text_in(delta.stop_reason),
                usage,
            },
            AnthropicStreamEvent::MessageStop => StreamEventView::MessageStop,
            AnthropicStreamEvent::Error { error } => StreamEventView::Error {
                message: error.message@,
                error_type: error.error_type@,
            },
            AnthropicStreamEvent::Unknown => StreamEventView::Unknown,
        },
{
}

/// What the transport reports of an Anthropic stream is seen whole.
pub proof fn anthropic_inputs_are_seen_whole(input: AnthropicInput)
    ensures
        input.deep_view() == match input {
            AnthropicInput::Event(event) => AnthropicInputView::Event(
                match event {
                    Some(event) => Some(event.deep_view()),
                    None => None,
                },
            ),
            AnthropicInput::TransportError(detail) => AnthropicInputView::TransportError(detail@),
            AnthropicInput::Closed => AnthropicInputView::Closed,
            AnthropicInput::IdleTimeout => AnthropicInputView::IdleTimeout,
        },
{
}

/// A path is seen component by component, and a name with its bytes and its
/// readable form.
pub proof fn paths_are_seen_whole(path: LexicalPath, name: PathName, i: int)
    ensures
        path.deep_view().len() == path.components@.len(),
        0 <= i < path.components@.len() ==> path.deep_view()[i] == match path.components@[i] {
            PathComponent::Prefix(name) => ComponentView::Prefix(name.deep_view()),
            PathComponent::RootDir => ComponentView::RootDir,
            PathComponent::CurDir => ComponentView::CurDir,
            PathComponent::ParentDir => ComponentView::ParentDir,
            PathComponent::Normal(name) => ComponentView::Normal(name.deep_view()),
        },
        name.deep_view().bytes == name.bytes@,
        name.deep_view().text == name.text@,
{
}

/// Skills, and scripts that were resolved, are seen with all their fields.
pub proof fn scripts_are_seen_whole(
    metadata: SkillMetadata,
    skill: PluginScriptSkill,
    resolved: ResolvedPluginScript,
)
    ensures
        metadata.deep_view().name == metadata.name@,
        metadata.deep_view().plugin_id == text_in(metadata.plugin_id),
        metadata.deep_view().path_to_skills_md == metadata.path_to_skills_md.deep_view(),
        metadata.deep_view().enabled == metadata.enabled,
        skill.deep_view().skill_name == skill.skill_name@,
        skill.deep_view().skill_path == skill.skill_path.deep_view(),
        resolved.deep_view().plugin_id == resolved.plugin_id@,
        resolved.deep_view().script_path == resolved.script_path@,
        resolved.deep_view().skill is Some == resolved.skill is Some,
        resolved.skill matches Some(skill) ==> resolved.deep_view().skill == Some(
            skill.deep_view(),
        ),
{
}

/// A lifecycle event is seen with all its fields.
pub proof fn lifecycle_events_are_seen_whole(event: CodexPluginScriptLifecycleEvent)
    ensures
        event.deep_view().thread_id == event.thread_id@,
        event.deep_view().turn_id == event.turn_id@,
        event.deep_view().plugin_id == event.plugin_id@,
        event.deep_view().execution_id == event.execution_id@,
        event.deep_view().script_path == event.script_path@,
        event.deep_view().status == event.status,
        event.deep_view().duration_ms == event.duration_ms,
        event.deep_view().exit_code == event.exit_code,
        event.deep_view().skill is Some == event.skill is Some,
        event.skill matches Some(skill) ==> event.deep_view().skill == Some(skill.deep_view()),
{
}

/// A content block of a request is seen with all its fields.
pub proof fn request_blocks_are_seen_whole(block: RequestBlock)
    ensures
        block.deep_view() == match block {
            RequestBlock::Text { text } => ContentBlockView::Text { text: text@ },
            RequestBlock::ToolUse { id, name, input } => ContentBlockView::ToolUse {
                id: id@,
                name: name@,
                input: json_text(input),
            },
            RequestBlock::ToolResult { tool_use_id, content, is_error } => {
                ContentBlockView::ToolResult {
                    tool_use_id: tool_use_id@,
                    content: content@,
                    is_error,
                }
            },
            RequestBlock::Thinking { thinking } => ContentBlockView::Thinking {
                thinking: thinking@,
            },
        },
{
}

/// A tool, and a text or a list of blocks, are seen whole.
pub proof fn request_parts_are_seen_whole(
    tool: AnthropicTool,
    system: AnthropicSystem,
    content: AnthropicMessageContent,
    i: int,
)
    ensures
        tool.deep_view().name == tool.name@,
        tool.deep_view().description == text_in(tool.description),
        tool.deep_view().input_schema == json_text(tool.input_schema),
        match system {
            AnthropicSystem::Text(text) => system.deep_view() == TextOrBlocksView::Text(text@),
            AnthropicSystem::Blocks(blocks) => {
                &&& system.deep_view() is Blocks
                &&& system.deep_view()->Blocks_0.len() == blocks@.len()
                &&& 0 <= i < blocks@.len() ==> system.deep_view()->Blocks_0[i]
                    == blocks@[i].deep_view()
            },
        },
        match content {
            AnthropicMessageContent::Text(text) => content.deep_view() == TextOrBlocksView::Text(
                text@,
            ),
            AnthropicMessageContent::Blocks(blocks) => {
                &&& content.deep_view() is Blocks
                &&& content.deep_view()->Blocks_0.len() == blocks@.len()
                &&& 0 <= i < blocks@.len() ==> content.deep_view()->Blocks_0[i]
                    == blocks@[i].deep_view()
            },
        },
{
}

/// A request to the Messages API is seen whole.
pub proof fn anthropic_requests_are_seen_whole(request: AnthropicMessagesRequest, i: int)
    ensures
        ({
            let view = request.deep_view();
            &&& view.model == request.model@
            &&& view.max_tokens == request.max_tokens
            &&& view.stream == request.stream
            &&& view.system is Some == request.system is Some
            &&& request.system matches Some(system) ==> view.system == Some(system.deep_view())
            &&& view.messages.len() == request.messages@.len()
            &&& 0 <= i < request.messages@.len() ==> {
                &&& view.messages[i].role == request.messages@[i].role
                &&& view.messages[i].content == request.messages@[i].content.deep_view()
            }
            &&& view.tools is Some == request.tools is Some
            &&& request.tools matches Some(tools) ==> {
                &&& view.tools->0.len() == tools@.len()
                &&& 0 <= i < tools@.len() ==> view.tools->0[i] == tools@[i].deep_view()
            }
        }),
{
}

/// A request to the Chat Completions API is seen whole.
pub proof fn chat_requests_are_seen_whole(request: ChatCompletionsRequest, i: int)
    ensures
        ({
            let view = request.deep_view();
            &&& view.model == request.model@
            &&& view.tool_choice == text_in(request.tool_choice)
            &&& view.stream == request.stream
            &&& view.reasoning_effort == text_in(request.reasoning_effort)
            &&& view.max_tokens == request.max_tokens
            &&& view.messages.len() == request.messages@.len()
            &&& 0 <= i < request.messages@.len() ==> view.messages[i]
                == request.messages@[i].deep_view()
            &&& view.tools is Some == request.tools is Some
            &&& request.tools matches Some(tools) ==> {
                &&& view.tools->0.len() == tools@.len()
                &&& 0 <= i < tools@.len() ==> view.tools->0[i] == json_text(tools@[i])
            }
        }),
{
}

/// A message of a Chat Completions request, its tool calls and their functions
/// are seen whole.
pub proof fn chat_messages_are_seen_whole(
    message: ChatMessage,
    call: RequestToolCall,
    function: RequestFunctionCall,
    i: int,
)
    ensures
        message.deep_view().role == message.role,
        message.deep_view().content == text_in(message.content),
        message.deep_view().tool_call_id == text_in(message.tool_call_id),
        message.deep_view().tool_calls is Some == message.tool_calls is Some,
        message.tool_calls matches Some(calls) ==> {
            &&& message.deep_view().tool_calls->0.len() == calls@.len()
            &&& 0 <= i < calls@.len() ==> message.deep_view().tool_calls->0[i]
                == calls@[i].deep_view()
        },
        call.deep_view().index == call.index,
        call.deep_view().id == text_in(call.id),
        call.deep_view().tool_type == text_in(call.tool_type),
        call.deep_view().function is Some == call.function is Some,
        call.function matches Some(function) ==> call.deep_view().function == Some(
            function.deep_view(),
        ),
        function.deep_view().name == text_in(function.name),
        function.deep_view().arguments == text_in(function.arguments),
{
}

} // verus!
