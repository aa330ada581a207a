//! Provider identities, capabilities, and the two in-process providers.

use vstd::prelude::*;

use crate::conversation::{last_with_role, Role};
use crate::error::{ErrorKind, SetuError};
use crate::request::{valid_request, ConversationRequest};
use crate::response::{saturating_sum, ConversationResponse, FinishReason};

verus! {

/// Stable provider identifier.
#[derive(Debug, PartialEq, Eq, Hash)]
pub struct ProviderId(pub String);

impl Clone for ProviderId {
    fn clone(&self) -> (r: Self)
        ensures
            r == *self,
    {
        ProviderId(self.0.clone())
    }
}

impl ProviderId {
    pub fn new(name: &str) -> (r: Self)
        ensures
            r.0@ == name@,
    {
        ProviderId(String::from_str(name))
    }

    pub fn as_str(&self) -> (r: &str)
        ensures
            r@ == self.0@,
    {
        self.0.as_str()
    }

    /// The display form of the id.
    pub fn to_string(&self) -> (r: String)
        ensures
            r@ == self.0@,
    {
        self.0.clone()
    }
}

/// Individual capability a provider may advertise.
#[derive(Debug, Clone, Copy, PartialEq, Eq, Hash, Structural)]
pub enum Capability {
    Text,
    Streaming,
    SystemMessages,
    JsonMode,
}

/// Capability set attached to a provider/model.
#[derive(Debug, Clone, Copy, PartialEq, Eq, Structural)]
pub struct ProviderCapabilities {
    pub text: bool,
    pub streaming: bool,
    pub system_messages: bool,
    pub json_mode: bool,
    pub max_context_tokens: u32,
    pub max_output_tokens: u32,
}

/// The default capabilities: text and system messages, an 8192-token
/// context and 2048 output tokens.
pub open spec fn default_capabilities() -> ProviderCapabilities {
    ProviderCapabilities {
        text: true,
        streaming: false,
        system_messages: true,
        json_mode: false,
        max_context_tokens: 8_192,
        max_output_tokens: 2_048,
    }
}

/// Whether `c` includes capability `cap`.
pub open spec fn has_capability(c: ProviderCapabilities, cap: Capability) -> bool {
    match cap {
        Capability::Text => c.text,
        Capability::Streaming => c.streaming,
        Capability::SystemMessages => c.system_messages,
        Capability::JsonMode => c.json_mode,
    }
}

impl Default for ProviderCapabilities {
    fn default() -> (r: Self)
        ensures
            r == default_capabilities(),
    {
        ProviderCapabilities {
            text: true,
            streaming: false,
            system_messages: true,
            json_mode: false,
            max_context_tokens: 8_192,
            max_output_tokens: 2_048,
        }
    }
}

impl ProviderCapabilities {
    pub fn text_only() -> (r: Self)
        ensures
            r == default_capabilities(),
    {
        Self::default()
    }

    pub fn with_streaming(self) -> (r: Self)
        ensures
            r == (ProviderCapabilities { streaming: true, ..self }),
    {
        ProviderCapabilities { streaming: true, ..self }
    }

    pub fn with_system_messages(self) -> (r: Self)
        ensures
            r == (ProviderCapabilities { system_messages: true, ..self }),
    {
        ProviderCapabilities { system_messages: true, ..self }
    }

    pub fn supports(&self, cap: Capability) -> (r: bool)
        ensures
            r == has_capability(*self, cap),
    {
        match cap {
            Capability::Text => self.text,
            Capability::Streaming => self.streaming,
            Capability::SystemMessages => self.system_messages,
            Capability::JsonMode => self.json_mode,
        }
    }

    pub fn require(&self, cap: Capability) -> (r: crate::error::Result<()>)
        ensures
            r is Ok <==> has_capability(*self, cap),
            r matches Err(e) ==> e.kind == ErrorKind::InvalidRequest,
    {
        if self.supports(cap) {
            Ok(())
        } else {
            let name = match cap {
                Capability::Text => "Text",
                Capability::Streaming => "Streaming",
                Capability::SystemMessages => "SystemMessages",
                Capability::JsonMode => "JsonMode",
            };
            let mut m = String::from_str("provider does not support capability '");
            m.append(name);
            m.append("'");
            Err(SetuError::with_message(ErrorKind::InvalidRequest, m))
        }
    }

    pub fn fits_context(&self, estimated_tokens: u32) -> (r: bool)
        ensures
            r == (estimated_tokens <= self.max_context_tokens),
    {
        estimated_tokens <= self.max_context_tokens
    }
}

/// What a router knows of a registered provider: its id and capabilities.
#[derive(Debug, PartialEq, Eq)]
pub struct ProviderDescriptor {
    pub id: ProviderId,
    pub capabilities: ProviderCapabilities,
}

impl Clone for ProviderDescriptor {
    fn clone(&self) -> (r: Self)
        ensures
            r == *self,
    {
        ProviderDescriptor { id: self.id.clone(), capabilities: self.capabilities }
    }
}

impl ProviderDescriptor {
    pub fn id(&self) -> (r: &ProviderId)
        ensures
            r == &self.id,
    {
        &self.id
    }

    pub fn capabilities(&self) -> (r: &ProviderCapabilities)
        ensures
            r == &self.capabilities,
    {
        &self.capabilities
    }
}

/// The text of the last user message of a request.
pub open spec fn last_user_text(req: ConversationRequest) -> Seq<char> {
    req.conversation.messages@[last_with_role(req.conversation.messages@, Role::User)->0].content.text@
}

/// Second provider: echoes the last user message.
#[derive(Debug)]
pub struct EchoProvider {
    pub id: ProviderId,
    pub capabilities: ProviderCapabilities,
}

impl EchoProvider {
    pub fn new(name: &str) -> (r: Self)
        ensures
            r.id.0@ == name@,
            r.capabilities == (ProviderCapabilities { streaming: true, ..default_capabilities() }),
    {
        EchoProvider {
            id: ProviderId::new(name),
            capabilities: ProviderCapabilities::text_only().with_streaming(),
        }
    }

    pub fn descriptor(&self) -> (r: ProviderDescriptor)
        ensures
            r.id == self.id,
            r.capabilities == self.capabilities,
    {
        ProviderDescriptor { id: self.id.clone(), capabilities: self.capabilities }
    }

    /// Reply with the text of the last user message. Usage counts a quarter
    /// of its UTF-8 byte length as prompt and as completion tokens.
    pub fn complete(&self, request: &ConversationRequest) -> (r: crate::error::Result<ConversationResponse>)
        ensures
            r is Ok <==> valid_request(*request),
            r matches Err(e) ==> e.kind == ErrorKind::Validation,
            r matches Ok(resp) ==> {
                let t = last_user_text(*request);
                let q = (((vstd::utf8::encode_utf8(t).len() as usize) as u32) / 4) as u32;
                &&& resp.message.role == Role::Assistant
                &&& resp.message.content.text@ == t
                &&& resp.finish_reason == FinishReason::Stop
                &&& resp.provider matches Some(p) && p@ == self.id.0@
                &&& resp.model == request.model
                &&& resp.usage matches Some(u) && u.prompt_tokens == q && u.completion_tokens == q
                    && u.total_tokens == saturating_sum(q, q)
            },
    {
        request.validate()?;
        let last = match request.conversation.last_user() {
            Some(m) => m,
            None => {
                return Err(SetuError::invalid_request("no user message"));
            },
        };
        let text = last.content.as_str();
        let mut response = ConversationResponse::assistant(text);
        response.provider = Some(String::from_str(self.id.as_str()));
        response.model = crate::error::clone_opt_string(&request.model);
        let n = text.len() as u32 / 4;
        response.usage = Some(crate::response::Usage::new(n, n));
        Ok(response)
    }
}

/// In-process mock provider used as a development default.
#[derive(Debug)]
pub struct MockProvider {
    pub id: ProviderId,
    pub capabilities: ProviderCapabilities,
    pub reply_prefix: String,
}

impl MockProvider {
    pub fn new(name: &str) -> (r: Self)
        ensures
            r.id.0@ == name@,
            r.capabilities == (ProviderCapabilities { streaming: true, ..default_capabilities() }),
            r.reply_prefix@ == "mock:"@,
    {
        MockProvider {
            id: ProviderId::new(name),
            capabilities: ProviderCapabilities::text_only().with_streaming(),
            reply_prefix: String::from_str("mock:"),
        }
    }

    pub fn with_prefix(self, prefix: &str) -> (r: Self)
        ensures
            r.id == self.id,
            r.capabilities == self.capabilities,
            r.reply_prefix@ == prefix@,
    {
        MockProvider { reply_prefix: String::from_str(prefix), ..self }
    }

    pub fn descriptor(&self) -> (r: ProviderDescriptor)
        ensures
            r.id == self.id,
            r.capabilities == self.capabilities,
    {
        ProviderDescriptor { id: self.id.clone(), capabilities: self.capabilities }
    }

    /// Reply `"{prefix} {last user text}"`. Usage counts eight prompt tokens
    /// per message and eight completion tokens.
    #[verifier::rlimit(60)]
    pub fn complete(&self, request: &ConversationRequest) -> (r: crate::error::Result<ConversationResponse>)
        requires
            request.conversation.messages@.len() <= 0x1fff_ffff,
        ensures
            r is Ok <==> valid_request(*request) && self.capabilities.text,
            r matches Err(e) ==> (valid_request(*request) ==> e.kind == ErrorKind::InvalidRequest),
            r matches Err(e) ==> (!valid_request(*request) ==> e.kind == ErrorKind::Validation),
            r matches Ok(resp) ==> {
                &&& resp.message.role == Role::Assistant
                &&& resp.message.content.text@ == self.reply_prefix@ + " "@ + last_user_text(*request)
                &&& resp.finish_reason == FinishReason::Stop
                &&& resp.provider matches Some(p) && p@ == self.id.0@
                &&& resp.model == request.model
                &&& resp.usage matches Some(u) && u.prompt_tokens == request.conversation.messages@.len() * 8
                    && u.completion_tokens == 8 && u.total_tokens == saturating_sum(u.prompt_tokens, 8)
            },
    {
        request.validate()?;
        self.capabilities.require(Capability::Text)?;
        let last = match request.conversation.last_user() {
            Some(m) => m,
            None => {
                return Err(SetuError::invalid_request("no user message"));
            },
        };
        let mut text = self.reply_prefix.clone();
        text.append(" ");
        text.append(last.content.as_str());
        let mut response = ConversationResponse::assistant(text.as_str());
        response.provider = Some(String::from_str(self.id.as_str()));
        response.model = crate::error::clone_opt_string(&request.model);
        let len = request.conversation.len();
        assert(len <= 0x1fff_ffff);
        let n = len as u32;
        assert(n == len);
        let p = n * 8;
        response.usage = Some(crate::response::Usage::new(p, 8));
        Ok(response)
    }
}

} // verus!
