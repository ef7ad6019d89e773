//! Request bodies of the Anthropic Messages API.

use vstd::prelude::*;

use crate::json::json_text;

verus! {

/// Request body for the Anthropic Messages API (`POST /v1/messages`).
///
/// Tool use content blocks and tool result content blocks are embedded in the
/// `messages` list as content items.
#[derive(Debug)]
pub struct AnthropicMessagesRequest {
    pub model: String,
    pub max_tokens: u32,
    pub system: Option<AnthropicSystem>,
    pub messages: Vec<AnthropicMessage>,
    pub tools: Option<Vec<AnthropicTool>>,
    pub stream: bool,
}

/// System prompt for the Anthropic Messages API.
///
/// Can be a plain string or an array of content blocks for structured system prompts.
#[derive(Debug)]
pub enum AnthropicSystem {
    Text(String),
    Blocks(Vec<AnthropicContentBlock>),
}

/// A single message in the Anthropic conversation history.
#[derive(Debug)]
pub struct AnthropicMessage {
    pub role: AnthropicRole,
    pub content: AnthropicMessageContent,
}

#[derive(Debug, Clone, Copy, PartialEq, Eq, Structural)]
pub enum AnthropicRole {
    User,
    Assistant,
}

#[derive(Debug)]
pub enum AnthropicMessageContent {
    Text(String),
    Blocks(Vec<AnthropicContentBlock>),
}

/// A content block within a message (text, tool_use, tool_result, etc.).
#[derive(Debug)]
pub enum AnthropicContentBlock {
    Text { text: String },
    ToolUse { id: String, name: String, input: serde_json::Value },
    ToolResult { tool_use_id: String, content: String, is_error: bool },
    Thinking { thinking: String },
}

/// Tool definition for the Anthropic Messages API.
#[derive(Debug)]
pub struct AnthropicTool {
    pub name: String,
    pub description: Option<String>,
    pub input_schema: serde_json::Value,
}

/// What an [`AnthropicContentBlock`] holds; the input of a tool is its JSON
/// text.
#[allow(inconsistent_fields)]
pub enum ContentBlockView {
    Text { text: Seq<char> },
    ToolUse { id: Seq<char>, name: Seq<char>, input: Seq<char> },
    ToolResult { tool_use_id: Seq<char>, content: Seq<char>, is_error: bool },
    Thinking { thinking: Seq<char> },
}

/// What an [`AnthropicTool`] holds; its schema is the JSON text of that.
pub struct ToolView {
    pub name: Seq<char>,
    pub description: Option<Seq<char>>,
    pub input_schema: Seq<char>,
}

/// What an [`AnthropicSystem`] or an [`AnthropicMessageContent`] holds.
pub enum TextOrBlocksView {
    Text(Seq<char>),
    Blocks(Seq<ContentBlockView>),
}

/// What an [`AnthropicMessage`] holds.
pub struct MessageView {
    pub role: AnthropicRole,
    pub content: TextOrBlocksView,
}

/// What an [`AnthropicMessagesRequest`] holds.
pub struct MessagesRequestView {
    pub model: Seq<char>,
    pub max_tokens: u32,
    pub system: Option<TextOrBlocksView>,
    pub messages: Seq<MessageView>,
    pub tools: Option<Seq<ToolView>>,
    pub stream: bool,
}

impl DeepView for AnthropicContentBlock {
    type V = ContentBlockView;

    open spec fn deep_view(&self) -> ContentBlockView {
        match self {
            AnthropicContentBlock::Text { text } => ContentBlockView::Text { text: text@ },
            AnthropicContentBlock::ToolUse { id, name, input } => {
                ContentBlockView::ToolUse { id: id@, name: name@, input: json_text(*input) }
            },
            AnthropicContentBlock::ToolResult { tool_use_id, content, is_error } => {
                ContentBlockView::ToolResult {
                    tool_use_id: tool_use_id@,
                    content: content@,
                    is_error: *is_error,
                }
            },
            AnthropicContentBlock::Thinking { thinking } => {
                ContentBlockView::Thinking { thinking: thinking@ }
            },
        }
    }
}

impl DeepView for AnthropicTool {
    type V = ToolView;

    open spec fn deep_view(&self) -> ToolView {
        ToolView {
            name: self.name@,
            description: self.description.deep_view(),
            input_schema: json_text(self.input_schema),
        }
    }
}

impl DeepView for AnthropicSystem {
    type V = TextOrBlocksView;

    open spec fn deep_view(&self) -> TextOrBlocksView {
        match self {
            AnthropicSystem::Text(text) => TextOrBlocksView::Text(text@),
            AnthropicSystem::Blocks(blocks) => TextOrBlocksView::Blocks(blocks.deep_view()),
        }
    }
}

impl DeepView for AnthropicMessageContent {
    type V = TextOrBlocksView;

    open spec fn deep_view(&self) -> TextOrBlocksView {
        match self {
            AnthropicMessageContent::Text(text) => TextOrBlocksView::Text(text@),
            AnthropicMessageContent::Blocks(blocks) => TextOrBlocksView::Blocks(blocks.deep_view()),
        }
    }
}

impl DeepView for AnthropicMessage {
    type V = MessageView;

    open spec fn deep_view(&self) -> MessageView {
        MessageView { role: self.role, content: self.content.deep_view() }
    }
}

impl DeepView for AnthropicMessagesRequest {
    type V = MessagesRequestView;

    open spec fn deep_view(&self) -> MessagesRequestView {
        MessagesRequestView {
            model: self.model@,
            max_tokens: self.max_tokens,
            system: self.system.deep_view(),
            messages: self.messages.deep_view(),
            tools: self.tools.deep_view(),
            stream: self.stream,
        }
    }
}

impl Clone for AnthropicContentBlock {
    fn clone(&self) -> (copy: Self)
        ensures
            copy.deep_view() == self.deep_view(),
    {
        match self {
            AnthropicContentBlock::Text { text } => {
                AnthropicContentBlock::Text { text: text.clone() }
            },
            AnthropicContentBlock::ToolUse { id, name, input } => {
                AnthropicContentBlock::ToolUse {
                    id: id.clone(),
                    name: name.clone(),
                    input: input.clone(),
                }
            },
            AnthropicContentBlock::ToolResult { tool_use_id, content, is_error } => {
                AnthropicContentBlock::ToolResult {
                    tool_use_id: tool_use_id.clone(),
                    content: content.clone(),
                    is_error: *is_error,
                }
            },
            AnthropicContentBlock::Thinking { thinking } => {
                AnthropicContentBlock::Thinking { thinking: thinking.clone() }
            },
        }
    }
}

impl Clone for AnthropicTool {
    fn clone(&self) -> (copy: Self)
        ensures
            copy.deep_view() == self.deep_view(),
    {
        AnthropicTool {
            name: self.name.clone(),
            description: self.description.clone(),
            input_schema: self.input_schema.clone(),
        }
    }
}

impl Clone for AnthropicSystem {
    fn clone(&self) -> (copy: Self)
        ensures
            copy.deep_view() == self.deep_view(),
    {
        match self {
            AnthropicSystem::Text(text) => AnthropicSystem::Text(text.clone()),
            AnthropicSystem::Blocks(blocks) => {
                let copies = blocks.clone();
                assert(copies.deep_view() =~= blocks.deep_view());
                AnthropicSystem::Blocks(copies)
            },
        }
    }
}

impl Clone for AnthropicMessageContent {
    fn clone(&self) -> (copy: Self)
        ensures
            copy.deep_view() == self.deep_view(),
    {
        match self {
            AnthropicMessageContent::Text(text) => AnthropicMessageContent::Text(text.clone()),
            AnthropicMessageContent::Blocks(blocks) => {
                let copies = blocks.clone();
                assert(copies.deep_view() =~= blocks.deep_view());
                AnthropicMessageContent::Blocks(copies)
            },
        }
    }
}

impl Clone for AnthropicMessage {
    fn clone(&self) -> (copy: Self)
        ensures
            copy.deep_view() == self.deep_view(),
    {
        AnthropicMessage { role: self.role, content: self.content.clone() }
    }
}

impl Clone for AnthropicMessagesRequest {
    fn clone(&self) -> (copy: Self)
        ensures
            copy.deep_view() == self.deep_view(),
    {
        let messages = self.messages.clone();
        assert(messages.deep_view() =~= self.messages.deep_view());
        let tools = match &self.tools {
            Some(tools) => {
                let copies = tools.clone();
                assert(copies.deep_view() =~= tools.deep_view());
                Some(copies)
            },
            None => None,
        };
        AnthropicMessagesRequest {
            model: self.model.clone(),
            max_tokens: self.max_tokens,
            system: self.system.clone(),
            messages,
            tools,
            stream: self.stream,
        }
    }
}

} // verus!
