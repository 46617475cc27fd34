//! Canonical Intermediate Format: the provider-neutral shape of a chat-style
//! exchange and of its streamed response. Every adapter translates to and
//! from these types.

use vstd::prelude::*;

use crate::json::Json;
use crate::text::str_eq;

verus! {

/// One turn of the conversation.
#[allow(inconsistent_fields)]
#[derive(Debug, Clone)]
pub enum Message {
    User { content: Vec<Content> },
    Assistant { content: Vec<Content>, tool_calls: Vec<ToolCall> },
    Tool { tool_call_id: String, content: String },
    /// A reasoning item; adapters whose target has no reasoning drop it.
    Reasoning { content: String, summary: Option<String> },
}

/// One piece of message content.
#[derive(Debug, Clone)]
pub enum Content {
    Text { text: String },
    Image { url: String, mime: Option<String> },
}

/// A tool call: its id, the tool's name, and its JSON-encoded arguments.
#[derive(Debug, Clone)]
pub struct ToolCall {
    pub id: String,
    pub name: String,
    pub arguments: String,
}

/// A tool offered to the model, with its JSON Schema parameters.
#[derive(Debug)]
pub struct Tool {
    pub name: String,
    pub description: Option<String>,
    pub parameters: Json,
}

/// One event of a streamed response.
#[derive(Debug, Clone)]
pub enum StreamEvent {
    /// A fragment of the assistant's text.
    TextDelta { text: String },
    /// A fragment of tool call number `index` of the current turn.
    ToolCallDelta {
        index: u32,
        id: Option<String>,
        name: Option<String>,
        arguments_delta: Option<String>,
    },
    /// A fragment of reasoning text.
    ReasoningDelta { text: String },
    /// The stream is complete: the assembled text and tool calls.
    Completed {
        text: String,
        tool_calls: Vec<ToolCall>,
        finish_reason: FinishReason,
        response_id: Option<String>,
    },
    /// The stream failed part-way.
    Error { message: String },
}

/// A chat-style inference request, provider-neutral.
#[derive(Debug)]
pub struct Request {
    pub model: String,
    /// System instructions, apart from the turns.
    pub system: Option<String>,
    pub messages: Vec<Message>,
    pub tools: Vec<Tool>,
    /// Sampling temperature, as the JSON number it was given as.
    pub temperature: Option<crate::json::Json>,
    pub max_output_tokens: Option<u32>,
    pub stream: bool,
}

/// The value of a content piece.
pub enum ContentV {
    Text { text: Seq<char> },
    Image { url: Seq<char>, mime: Option<Seq<char>> },
}

impl View for Content {
    type V = ContentV;

    open spec fn view(&self) -> ContentV {
        match self {
            Content::Text { text } => ContentV::Text { text: text@ },
            Content::Image { url, mime } => ContentV::Image { url: url@, mime: opt_string_view(*mime) },
        }
    }
}

/// The views of a list of content pieces.
pub open spec fn contents_view(v: Seq<Content>) -> Seq<ContentV> {
    v.map_values(|c: Content| c@)
}

/// The value of a message.
pub enum MessageV {
    User { content: Seq<ContentV> },
    Assistant { content: Seq<ContentV>, tool_calls: Seq<ToolCallV> },
    Tool { tool_call_id: Seq<char>, content: Seq<char> },
    Reasoning { content: Seq<char>, summary: Option<Seq<char>> },
}

impl View for Message {
    type V = MessageV;

    open spec fn view(&self) -> MessageV {
        match self {
            Message::User { content } => MessageV::User { content: contents_view(content@) },
            Message::Assistant { content, tool_calls } => MessageV::Assistant {
                content: contents_view(content@),
                tool_calls: tool_calls_view(tool_calls@),
            },
            Message::Tool { tool_call_id, content } => MessageV::Tool { tool_call_id: tool_call_id@, content: content@ },
            Message::Reasoning { content, summary } => MessageV::Reasoning {
                content: content@,
                summary: opt_string_view(*summary),
            },
        }
    }
}

/// The views of a list of messages.
pub open spec fn messages_view(v: Seq<Message>) -> Seq<MessageV> {
    v.map_values(|m: Message| m@)
}

/// The value of a tool definition.
pub struct ToolV {
    pub name: Seq<char>,
    pub description: Option<Seq<char>>,
    pub parameters: crate::json::JsonV,
}

/// The views of a list of tools.
pub open spec fn tools_view(v: Seq<Tool>) -> Seq<ToolV> {
    v.map_values(|t: Tool| ToolV { name: t.name@, description: opt_string_view(t.description), parameters: crate::json::jv(t.parameters) })
}

/// The mathematical value of a tool call.
pub struct ToolCallV {
    pub id: Seq<char>,
    pub name: Seq<char>,
    pub arguments: Seq<char>,
}

impl View for ToolCall {
    type V = ToolCallV;

    open spec fn view(&self) -> ToolCallV {
        ToolCallV { id: self.id@, name: self.name@, arguments: self.arguments@ }
    }
}

/// The views of a list of tool calls.
pub open spec fn tool_calls_view(v: Seq<ToolCall>) -> Seq<ToolCallV> {
    v.map_values(|t: ToolCall| t@)
}

/// The view of an optional string.
pub open spec fn opt_string_view(o: Option<String>) -> Option<Seq<char>> {
    match o {
        Some(s) => Some(s@),
        None => None,
    }
}

/// The mathematical value of a stream event.
pub enum StreamEventV {
    TextDelta { text: Seq<char> },
    ToolCallDelta {
        index: u32,
        id: Option<Seq<char>>,
        name: Option<Seq<char>>,
        arguments_delta: Option<Seq<char>>,
    },
    ReasoningDelta { text: Seq<char> },
    Completed {
        text: Seq<char>,
        tool_calls: Seq<ToolCallV>,
        finish_reason: FinishReasonV,
        response_id: Option<Seq<char>>,
    },
    Error { message: Seq<char> },
}

impl View for StreamEvent {
    type V = StreamEventV;

    open spec fn view(&self) -> StreamEventV {
        match self {
            StreamEvent::TextDelta { text } => StreamEventV::TextDelta { text: text@ },
            StreamEvent::ToolCallDelta { index, id, name, arguments_delta } => StreamEventV::ToolCallDelta {
                index: *index,
                id: opt_string_view(*id),
                name: opt_string_view(*name),
                arguments_delta: opt_string_view(*arguments_delta),
            },
            StreamEvent::ReasoningDelta { text } => StreamEventV::ReasoningDelta { text: text@ },
            StreamEvent::Completed { text, tool_calls, finish_reason, response_id } => StreamEventV::Completed {
                text: text@,
                tool_calls: tool_calls_view(tool_calls@),
                finish_reason: finish_reason@,
                response_id: opt_string_view(*response_id),
            },
            StreamEvent::Error { message } => StreamEventV::Error { message: message@ },
        }
    }
}

/// Why the model stopped.
#[derive(Debug, Clone)]
pub enum FinishReason {
    Stop,
    Length,
    ToolCalls,
    ContentFilter,
    Other(String),
}

/// The finish reason a chat-completions `finish_reason` string stands for.
pub open spec fn finish_reason_of(s: Seq<char>) -> FinishReasonV {
    if s == "stop"@ {
        FinishReasonV::Stop
    } else if s == "length"@ {
        FinishReasonV::Length
    } else if s == "tool_calls"@ || s == "function_call"@ {
        FinishReasonV::ToolCalls
    } else if s == "content_filter"@ {
        FinishReasonV::ContentFilter
    } else {
        FinishReasonV::Other(s)
    }
}

/// The mathematical value of a finish reason.
pub enum FinishReasonV {
    Stop,
    Length,
    ToolCalls,
    ContentFilter,
    Other(Seq<char>),
}

impl View for FinishReason {
    type V = FinishReasonV;

    open spec fn view(&self) -> FinishReasonV {
        match self {
            FinishReason::Stop => FinishReasonV::Stop,
            FinishReason::Length => FinishReasonV::Length,
            FinishReason::ToolCalls => FinishReasonV::ToolCalls,
            FinishReason::ContentFilter => FinishReasonV::ContentFilter,
            FinishReason::Other(s) => FinishReasonV::Other(s@),
        }
    }
}

/// The wire name of a finish reason.
pub open spec fn finish_reason_text(f: FinishReasonV) -> Seq<char> {
    match f {
        FinishReasonV::Stop => "stop"@,
        FinishReasonV::Length => "length"@,
        FinishReasonV::ToolCalls => "tool_calls"@,
        FinishReasonV::ContentFilter => "content_filter"@,
        FinishReasonV::Other(s) => s,
    }
}

impl FinishReason {
    /// Map a chat-completions `finish_reason` string: `stop`, `length`,
    /// `tool_calls` (or the older `function_call`), `content_filter`; any
    /// other string is kept as `Other`.
    pub fn from_chat_str(s: &str) -> (r: FinishReason)
        ensures
            r@ == finish_reason_of(s@),
    {
        proof {
            reveal_strlit("stop");
            reveal_strlit("length");
            reveal_strlit("tool_calls");
            reveal_strlit("function_call");
            reveal_strlit("content_filter");
        }
        if str_eq(s, "stop") {
            FinishReason::Stop
        } else if str_eq(s, "length") {
            FinishReason::Length
        } else if str_eq(s, "tool_calls") || str_eq(s, "function_call") {
            FinishReason::ToolCalls
        } else if str_eq(s, "content_filter") {
            FinishReason::ContentFilter
        } else {
            FinishReason::Other(s.to_string())
        }
    }

    /// The wire name of this finish reason.
    pub fn as_text(&self) -> (r: String)
        ensures
            r@ == finish_reason_text(self@),
    {
        proof {
            reveal_strlit("stop");
            reveal_strlit("length");
            reveal_strlit("tool_calls");
            reveal_strlit("content_filter");
        }
        match self {
            FinishReason::Stop => "stop".to_string(),
            FinishReason::Length => "length".to_string(),
            FinishReason::ToolCalls => "tool_calls".to_string(),
            FinishReason::ContentFilter => "content_filter".to_string(),
            FinishReason::Other(s) => s.clone(),
        }
    }
}

/// Law: a chat finish-reason string survives the round trip through
/// `FinishReason` unchanged, except `function_call`, which reads back as
/// `tool_calls`.
pub proof fn lemma_finish_reason_round_trip(s: Seq<char>)
    requires
        s != "function_call"@,
    ensures
        finish_reason_text(finish_reason_of(s)) == s,
{
}

} // verus!
