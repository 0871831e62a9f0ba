//! The messages, responses and usage figures exchanged with LLM providers.

use vstd::prelude::*;
use crate::llm::config::Provider;

verus! {

/// A chat message, by the role of its author.
#[derive(Debug, Clone)]
pub enum Message {
    System { content: String },
    User { content: String },
    Assistant { content: String },
}

impl Message {
    pub open spec fn spec_content(&self) -> Seq<char> {
        match self {
            Message::System { content } => content@,
            Message::User { content } => content@,
            Message::Assistant { content } => content@,
        }
    }

    /// The role name providers use for the author.
    pub open spec fn spec_role(&self) -> Seq<char> {
        match self {
            Message::System { .. } => "system"@,
            Message::User { .. } => "user"@,
            Message::Assistant { .. } => "assistant"@,
        }
    }

    pub fn system(content: &str) -> (m: Self)
        ensures
            m is System && m.spec_content() == content@,
    {
        Message::System { content: String::from_str(content) }
    }

    pub fn user(content: &str) -> (m: Self)
        ensures
            m is User && m.spec_content() == content@,
    {
        Message::User { content: String::from_str(content) }
    }

    pub fn assistant(content: &str) -> (m: Self)
        ensures
            m is Assistant && m.spec_content() == content@,
    {
        Message::Assistant { content: String::from_str(content) }
    }
}

/// Token counts of a completion.
#[derive(Debug, Clone, Copy, PartialEq, Eq)]
pub struct Usage {
    pub prompt_tokens: u64,
    pub completion_tokens: u64,
    pub total_tokens: u64,
}

/// A provider's answer to a completion request.
#[derive(Debug, Clone)]
pub struct CompletionResponse {
    pub content: String,
    pub model: String,
    pub usage: Option<Usage>,
    pub provider: Provider,
}

} // verus!
