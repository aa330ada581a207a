//! Validate provider representations and extracted conversations.

use vstd::prelude::*;

use crate::conversation::{valid_conversation, Conversation, Role};
use crate::error::{ErrorKind, SetuError};
use crate::json::{json_get, Json, JsonValue};
use crate::response::ConversationResponse;
use crate::text::is_blank;

verus! {

pub trait Validator {
    /// Whether `payload` passes this validator.
    spec fn accepts(&self, payload: Json) -> bool;

    fn validate_payload(&self, payload: &JsonValue) -> (r: crate::error::Result<()>)
        ensures
            r is Ok <==> self.accepts(payload@),
            r matches Err(e) ==> e.kind == ErrorKind::Validation,
    ;
}

/// Require that a JSON object contains the listed keys.
#[derive(Debug)]
pub struct SchemaValidator {
    pub required_keys: Vec<String>,
}

/// `payload` is an object holding every key in `keys`.
pub open spec fn has_keys(payload: Json, keys: Seq<String>) -> bool {
    &&& payload is Object
    &&& forall|i: int| 0 <= i < keys.len() ==> json_get(payload, (#[trigger] keys[i])@) is Some
}

impl SchemaValidator {
    pub fn new(keys: &[&str]) -> (r: Self)
        ensures
            r.required_keys@.len() == keys@.len(),
            forall|i: int| 0 <= i < keys@.len() ==> #[trigger] r.required_keys@[i]@ == keys@[i]@,
    {
        let mut out: Vec<String> = Vec::new();
        let mut i: usize = 0;
        while i < keys.len()
            invariant
                i <= keys@.len(),
                out@.len() == i,
                forall|k: int| 0 <= k < i ==> #[trigger] out@[k]@ == keys@[k]@,
            decreases keys.len() - i,
        {
            out.push(String::from_str(keys[i]));
            i = i + 1;
        }
        SchemaValidator { required_keys: out }
    }
}

impl Validator for SchemaValidator {
    open spec fn accepts(&self, payload: Json) -> bool {
        has_keys(payload, self.required_keys@)
    }

    fn validate_payload(&self, payload: &JsonValue) -> (r: crate::error::Result<()>) {
        match payload {
            JsonValue::Object(_) => {},
            _ => {
                return Err(SetuError::validation("provider payload is not a JSON object"));
            },
        }
        let mut i: usize = 0;
        while i < self.required_keys.len()
            invariant
                i <= self.required_keys@.len(),
                payload@ is Object,
                forall|k: int| 0 <= k < i ==> json_get(payload@, (#[trigger] self.required_keys@[k])@) is Some,
            decreases self.required_keys.len() - i,
        {
            let key = self.required_keys[i].as_str();
            if payload.get(key).is_none() {
                let mut m = String::from_str("provider payload missing required key '");
                m.append(key);
                m.append("'");
                return Err(SetuError::with_message(ErrorKind::Validation, m));
            }
            i = i + 1;
        }
        Ok(())
    }
}

/// A response is acceptable when it is an assistant message with text.
pub fn validate_response(response: &ConversationResponse) -> (r: crate::error::Result<()>)
    ensures
        r is Ok <==> (response.message.role == Role::Assistant && !is_blank(
            response.message.content.text@,
        )),
        r matches Err(e) ==> (response.message.role != Role::Assistant ==> e.kind
            == ErrorKind::Validation),
        r matches Err(e) ==> (response.message.role == Role::Assistant ==> e.kind
            == ErrorKind::ParseFailure),
{
    response.validate()?;
    if crate::text::is_blank_str(response.text()) {
        return Err(SetuError::parse_failure("assistant response is empty after extraction"));
    }
    Ok(())
}

pub fn validate_request_conversation(conversation: &Conversation) -> (r: crate::error::Result<()>)
    ensures
        r is Ok <==> valid_conversation(conversation.messages@),
        r matches Err(e) ==> e.kind == ErrorKind::Validation,
{
    conversation.validate()
}

} // verus!
