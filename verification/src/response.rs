//! Canonical conversation response produced by a provider adapter.

use vstd::prelude::*;

use crate::conversation::{Message, Role};
use crate::error::{ErrorKind, SetuError};

verus! {

#[derive(Debug, Clone, Copy, PartialEq, Eq, Structural)]
pub enum FinishReason {
    Stop,
    Length,
    ContentFilter,
    Error,
}

#[derive(Debug, Clone, Copy, PartialEq, Eq, Structural)]
pub struct Usage {
    pub prompt_tokens: u32,
    pub completion_tokens: u32,
    pub total_tokens: u32,
}

/// `a + b`, saturated at `u32::MAX`.
pub open spec fn saturating_sum(a: u32, b: u32) -> u32 {
    if a + b > u32::MAX {
        u32::MAX
    } else {
        (a + b) as u32
    }
}

impl Usage {
    pub fn new(prompt_tokens: u32, completion_tokens: u32) -> (u: Self)
        ensures
            u.prompt_tokens == prompt_tokens,
            u.completion_tokens == completion_tokens,
            u.total_tokens == saturating_sum(prompt_tokens, completion_tokens),
    {
        Usage {
            prompt_tokens,
            completion_tokens,
            total_tokens: prompt_tokens.saturating_add(completion_tokens),
        }
    }
}

#[derive(Debug, PartialEq)]
pub struct ConversationResponse {
    pub message: Message,
    pub finish_reason: FinishReason,
    pub usage: Option<Usage>,
    pub model: Option<String>,
    pub provider: Option<String>,
}

impl Clone for ConversationResponse {
    fn clone(&self) -> (r: Self)
        ensures
            r == *self,
    {
        ConversationResponse {
            message: self.message.clone(),
            finish_reason: self.finish_reason,
            usage: self.usage,
            model: crate::error::clone_opt_string(&self.model),
            provider: crate::error::clone_opt_string(&self.provider),
        }
    }
}

/// A plain assistant reply: role assistant, finish reason `Stop`, no usage,
/// model or provider.
pub open spec fn plain_reply(r: ConversationResponse, text: Seq<char>) -> bool {
    &&& r.message.role == Role::Assistant
    &&& r.message.content.text@ == text
    &&& r.finish_reason == FinishReason::Stop
    &&& r.usage is None
    &&& r.model is None
    &&& r.provider is None
}

impl ConversationResponse {
    pub fn assistant(text: &str) -> (r: Self)
        ensures
            plain_reply(r, text@),
    {
        ConversationResponse {
            message: Message::assistant(text),
            finish_reason: FinishReason::Stop,
            usage: None,
            model: None,
            provider: None,
        }
    }

    pub fn text(&self) -> (r: &str)
        ensures
            r@ == self.message.content.text@,
    {
        self.message.content.as_str()
    }

    pub fn validate(&self) -> (r: crate::error::Result<()>)
        ensures
            r is Ok <==> self.message.role == Role::Assistant,
            r matches Err(e) ==> e.kind == ErrorKind::Validation,
    {
        if self.message.role != Role::Assistant {
            return Err(
                SetuError::validation("conversation response message must have assistant role"),
            );
        }
        Ok(())
    }
}

} // verus!
