//! Canonical conversation request sent toward a provider adapter.

use vstd::prelude::*;

use crate::conversation::{valid_conversation, Conversation};
use crate::error::{ErrorKind, SetuError};

verus! {

/// A copy of a list of strings.
pub fn clone_strings(v: &Vec<String>) -> (r: Vec<String>)
    ensures
        r@ == v@,
{
    let r = v.clone();
    assert(r@ =~= v@);
    r
}

/// Canonical request. The sampling temperature is carried as the IEEE-754
/// bit pattern of an `f32` (`f32::to_bits`), so that its range rule can be
/// checked on integers.
#[derive(Debug, PartialEq)]
pub struct ConversationRequest {
    pub conversation: Conversation,
    pub model: Option<String>,
    pub temperature_bits: Option<u32>,
    pub max_tokens: Option<u32>,
    pub stop: Vec<String>,
    pub stream: bool,
}

/// For the `f32` whose bit pattern is `bits`: the value lies in `0.0..=2.0`.
/// Non-negative floats are ordered like their bit patterns (`2.0` is
/// `0x4000_0000`), `-0.0` (`0x8000_0000`) equals `0.0`, and NaN lies in no range.
pub open spec fn temperature_in_range(bits: u32) -> bool {
    bits <= 0x4000_0000 || bits == 0x8000_0000
}

/// The request rules: a valid conversation, a temperature in `0..=2` when
/// given, and a positive `max_tokens` when given.
pub open spec fn valid_request(r: ConversationRequest) -> bool {
    &&& valid_conversation(r.conversation.messages@)
    &&& (r.temperature_bits matches Some(t) ==> temperature_in_range(t))
    &&& r.max_tokens != Some(0u32)
}

impl Clone for ConversationRequest {
    fn clone(&self) -> (r: Self)
        ensures
            r.conversation.messages@ == self.conversation.messages@,
            r.model == self.model,
            r.temperature_bits == self.temperature_bits,
            r.max_tokens == self.max_tokens,
            r.stop@ == self.stop@,
            r.stream == self.stream,
    {
        ConversationRequest {
            conversation: self.conversation.clone(),
            model: crate::error::clone_opt_string(&self.model),
            temperature_bits: self.temperature_bits,
            max_tokens: self.max_tokens,
            stop: clone_strings(&self.stop),
            stream: self.stream,
        }
    }
}

impl ConversationRequest {
    pub fn new(conversation: Conversation) -> (r: Self)
        ensures
            r.conversation == conversation,
            r.model is None,
            r.temperature_bits is None,
            r.max_tokens is None,
            r.stop@.len() == 0,
            !r.stream,
    {
        ConversationRequest {
            conversation,
            model: None,
            temperature_bits: None,
            max_tokens: None,
            stop: Vec::new(),
            stream: false,
        }
    }

    pub fn with_model(self, model: &str) -> (r: Self)
        ensures
            r == (ConversationRequest { model: r.model, ..self }),
            r.model matches Some(m) && m@ == model@,
    {
        ConversationRequest { model: Some(String::from_str(model)), ..self }
    }

    pub fn validate(&self) -> (r: crate::error::Result<()>)
        ensures
            r is Ok <==> valid_request(*self),
            r matches Err(e) ==> e.kind == ErrorKind::Validation,
    {
        self.conversation.validate()?;
        if let Some(t) = self.temperature_bits {
            if !(t <= 0x4000_0000u32 || t == 0x8000_0000u32) {
                return Err(SetuError::validation("temperature is out of range 0..=2"));
            }
        }
        if let Some(0) = self.max_tokens {
            return Err(SetuError::validation("max_tokens must be greater than 0"));
        }
        Ok(())
    }
}

} // verus!
