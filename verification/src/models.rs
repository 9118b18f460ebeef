//! The requests that the HTTP endpoints accept, and what they are translated into.
use vstd::prelude::*;

use crate::json::Json;

verus! {

/// One part of a message's content.
pub struct ContentPart {
    pub part_type: String,
    pub text: Option<String>,
}

/// A message's content: one text, or a list of parts.
pub enum MessageContent {
    Text(String),
    Parts(Vec<ContentPart>),
}

/// A message of an OpenAI chat request.
pub struct OpenAIMessage {
    pub role: String,
    pub content: MessageContent,
}

/// The body of `POST /v1/chat/completions`.
pub struct OpenAIChatRequest {
    pub model: String,
    pub messages: Vec<OpenAIMessage>,
    pub stream: bool,
    /// Accepted and not read.
    pub temperature: Option<serde_json::Number>,
    pub user: Option<String>,
}

/// The input of a Responses request: one text, or a list of message items.
pub enum ResponsesInput {
    Text(String),
    Messages(Vec<Json>),
}

/// The body of `POST /v1/responses`.
pub struct OpenAIResponsesRequest {
    pub model: String,
    pub input: ResponsesInput,
    pub instructions: Option<String>,
    pub stream: bool,
}

/// A message of an Anthropic request.
pub struct AnthropicMessage {
    pub role: String,
    pub content: MessageContent,
}

/// The body of `POST /v1/messages`.
pub struct AnthropicMessagesRequest {
    pub model: String,
    pub messages: Vec<AnthropicMessage>,
    pub system: Option<MessageContent>,
    pub stream: bool,
}

/// What is sent to Copilot: the prompt, and blocks of context that go before it.
pub struct TranslatedRequest {
    pub prompt: String,
    pub additional_context: Vec<String>,
}

/// `TranslatedRequest` as mathematics.
pub struct Translation {
    pub prompt: Seq<char>,
    pub context: Seq<Seq<char>>,
}

impl View for TranslatedRequest {
    type V = Translation;

    open spec fn view(&self) -> Translation {
        Translation {
            prompt: self.prompt@,
            context: crate::text::views(self.additional_context@),
        }
    }
}

} // verus!
