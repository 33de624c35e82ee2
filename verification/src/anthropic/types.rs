//! Requests of the message interface.

use vstd::prelude::*;

use crate::json::{Json, JsonView};
use crate::text::opt_view;

verus! {

/// A message.
#[derive(Debug, PartialEq, Eq)]
pub struct Message {
    pub role: String,
    pub content: Json,
}

/// A part of the system prompt.
#[derive(Debug, PartialEq, Eq)]
pub struct SystemMessage {
    pub text: String,
}

/// A tool that the model may use.
#[derive(Debug, PartialEq, Eq)]
pub struct Tool {
    /// The type of a tool of the service; none for a tool of the client.
    pub tool_type: Option<String>,
    pub name: String,
    pub description: String,
    pub input_schema: Json,
    pub max_uses: Option<i32>,
}

/// Whether, and how long, the model thinks.
#[derive(Debug, PartialEq, Eq)]
pub struct Thinking {
    pub thinking_type: String,
    pub budget_tokens: i32,
}

/// How much effort the model makes.
#[derive(Debug, PartialEq, Eq)]
pub struct OutputConfig {
    pub effort: String,
}

/// Whom a request is for.
#[derive(Debug, PartialEq, Eq)]
pub struct Metadata {
    pub user_id: Option<String>,
}

/// A request.
#[derive(Debug, PartialEq, Eq)]
pub struct MessagesRequest {
    pub model: String,
    pub max_tokens: i32,
    pub messages: Vec<Message>,
    pub stream: bool,
    pub system: Option<Vec<SystemMessage>>,
    pub tools: Option<Vec<Tool>>,
    pub tool_choice: Option<Json>,
    pub thinking: Option<Thinking>,
    pub output_config: Option<OutputConfig>,
    pub metadata: Option<Metadata>,
    /// Web searches are answered within the conversation.
    pub force_web_search_loop: bool,
}

/// A message.
pub struct MessageView {
    pub role: Seq<char>,
    pub content: JsonView,
}

/// A tool that the model may use.
pub struct ToolView {
    pub tool_type: Option<Seq<char>>,
    pub name: Seq<char>,
    pub description: Seq<char>,
    pub input_schema: JsonView,
    pub max_uses: Option<i32>,
}

/// A request, but for whom it is for.
pub struct RequestView {
    pub model: Seq<char>,
    pub max_tokens: i32,
    pub messages: Seq<MessageView>,
    pub stream: bool,
    pub system: Option<Seq<Seq<char>>>,
    pub tools: Option<Seq<ToolView>>,
    pub tool_choice: Option<JsonView>,
    /// The type of thinking and its budget.
    pub thinking: Option<(Seq<char>, i32)>,
    pub effort: Option<Seq<char>>,
    pub force_web_search_loop: bool,
}

impl Message {
    pub open spec fn view(&self) -> MessageView {
        MessageView { role: self.role@, content: self.content@ }
    }
}

impl Tool {
    pub open spec fn view(&self) -> ToolView {
        ToolView {
            tool_type: opt_view(self.tool_type),
            name: self.name@,
            description: self.description@,
            input_schema: self.input_schema@,
            max_uses: self.max_uses,
        }
    }
}

pub open spec fn message_views(list: Seq<Message>) -> Seq<MessageView> {
    list.map_values(|m: Message| m@)
}

pub open spec fn system_views(list: Seq<SystemMessage>) -> Seq<Seq<char>> {
    list.map_values(|m: SystemMessage| m.text@)
}

pub open spec fn tool_views(list: Seq<Tool>) -> Seq<ToolView> {
    list.map_values(|t: Tool| t@)
}

pub open spec fn thinking_view(t: Option<Thinking>) -> Option<(Seq<char>, i32)> {
    match t {
        Some(t) => Some((t.thinking_type@, t.budget_tokens)),
        None => None,
    }
}

pub open spec fn effort_view(c: Option<OutputConfig>) -> Option<Seq<char>> {
    match c {
        Some(c) => Some(c.effort@),
        None => None,
    }
}

impl MessagesRequest {
    pub open spec fn view(&self) -> RequestView {
        RequestView {
            model: self.model@,
            max_tokens: self.max_tokens,
            messages: message_views(self.messages@),
            stream: self.stream,
            system: match self.system {
                Some(list) => Some(system_views(list@)),
                None => None,
            },
            tools: match self.tools {
                Some(list) => Some(tool_views(list@)),
                None => None,
            },
            tool_choice: match self.tool_choice {
                Some(j) => Some(j@),
                None => None,
            },
            thinking: thinking_view(self.thinking),
            effort: effort_view(self.output_config),
            force_web_search_loop: self.force_web_search_loop,
        }
    }
}

} // verus!
