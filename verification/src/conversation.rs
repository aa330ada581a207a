//! Canonical conversation model: roles, text content, messages and
//! conversations, with the validation rules every provider relies on.

use vstd::prelude::*;

use crate::error::{ErrorKind, SetuError};
use crate::text::{decimal, is_blank, lower, trim};

verus! {

/// Canonical roles: system, user and assistant.
#[derive(Debug, Clone, Copy, PartialEq, Eq, Hash, Structural)]
pub enum Role {
    System,
    User,
    Assistant,
}

/// The lower-case name of a role.
pub open spec fn role_name(r: Role) -> Seq<char> {
    match r {
        Role::System => "system"@,
        Role::User => "user"@,
        Role::Assistant => "assistant"@,
    }
}

/// The role whose lower-case name is `s`, if any.
pub open spec fn role_named(s: Seq<char>) -> Option<Role> {
    if s == "system"@ {
        Some(Role::System)
    } else if s == "user"@ {
        Some(Role::User)
    } else if s == "assistant"@ {
        Some(Role::Assistant)
    } else {
        None
    }
}

/// The role `Role::parse` accepts for `v`: names are trimmed and compared
/// ASCII case-insensitively.
pub open spec fn parse_role_spec(v: Seq<char>) -> Option<Role> {
    role_named(lower(trim(v)))
}

impl Role {
    pub fn as_str(self) -> (r: &'static str)
        ensures
            r@ == role_name(self),
    {
        match self {
            Role::System => "system",
            Role::User => "user",
            Role::Assistant => "assistant",
        }
    }

    /// The display form of the role as an owned string.
    pub fn to_string(self) -> (r: String)
        ensures
            r@ == role_name(self),
    {
        String::from_str(self.as_str())
    }

    pub fn parse(value: &str) -> (r: crate::error::Result<Role>)
        ensures
            match r {
                Ok(role) => parse_role_spec(value@) == Some(role),
                Err(e) => parse_role_spec(value@) is None && crate::error::plain_error(
                    e,
                    ErrorKind::Validation,
                    "unsupported role '"@ + lower(trim(value@)) + "'"@,
                ),
            },
    {
        let trimmed = crate::text::trim_str(value);
        let l = crate::text::to_lower(trimmed.as_str());
        if crate::text::str_eq(l.as_str(), "system") {
            Ok(Role::System)
        } else if crate::text::str_eq(l.as_str(), "user") {
            Ok(Role::User)
        } else if crate::text::str_eq(l.as_str(), "assistant") {
            Ok(Role::Assistant)
        } else {
            let mut msg = String::from_str("unsupported role '");
            msg.append(l.as_str());
            msg.append("'");
            Err(SetuError::with_message(ErrorKind::Validation, msg))
        }
    }
}

/// Canonical text payload. Multimodal content is intentionally out of scope.
#[derive(Debug, PartialEq, Eq)]
pub struct TextContent {
    pub text: String,
}

impl Clone for TextContent {
    fn clone(&self) -> (r: Self)
        ensures
            r == *self,
    {
        TextContent { text: self.text.clone() }
    }
}

impl TextContent {
    pub fn new(text: &str) -> (c: Self)
        ensures
            c.text@ == text@,
    {
        TextContent { text: String::from_str(text) }
    }

    /// Content made of an already owned string.
    pub fn from_string(text: String) -> (c: Self)
        ensures
            c.text@ == text@,
    {
        TextContent { text }
    }

    /// Empty means nothing but white space.
    pub fn is_empty(&self) -> (r: bool)
        ensures
            r == is_blank(self.text@),
    {
        crate::text::is_blank_str(self.text.as_str())
    }

    pub fn as_str(&self) -> (r: &str)
        ensures
            r@ == self.text@,
    {
        self.text.as_str()
    }
}

#[derive(Debug, PartialEq, Eq)]
pub struct Message {
    pub role: Role,
    pub content: TextContent,
}

impl Clone for Message {
    fn clone(&self) -> (r: Self)
        ensures
            r == *self,
    {
        Message { role: self.role, content: self.content.clone() }
    }
}

impl Message {
    pub fn new(role: Role, content: TextContent) -> (m: Self)
        ensures
            m.role == role,
            m.content == content,
    {
        Message { role, content }
    }

    pub fn system(text: &str) -> (m: Self)
        ensures
            m.role == Role::System,
            m.content.text@ == text@,
    {
        Self::new(Role::System, TextContent::new(text))
    }

    pub fn user(text: &str) -> (m: Self)
        ensures
            m.role == Role::User,
            m.content.text@ == text@,
    {
        Self::new(Role::User, TextContent::new(text))
    }

    pub fn assistant(text: &str) -> (m: Self)
        ensures
            m.role == Role::Assistant,
            m.content.text@ == text@,
    {
        Self::new(Role::Assistant, TextContent::new(text))
    }

    pub fn is_empty(&self) -> (r: bool)
        ensures
            r == is_blank(self.content.text@),
    {
        self.content.is_empty()
    }
}

/// Canonical conversation: an ordered list of messages.
#[derive(Debug, PartialEq, Eq, Default)]
pub struct Conversation {
    pub messages: Vec<Message>,
}

impl Clone for Conversation {
    fn clone(&self) -> (r: Self)
        ensures
            r.messages@ == self.messages@,
    {
        let messages = self.messages.clone();
        assert(messages@ =~= self.messages@);
        Conversation { messages }
    }
}

/// Some message before position `i` has role `role`.
pub open spec fn has_role_before(msgs: Seq<Message>, role: Role, i: int) -> bool {
    exists|j: int| 0 <= j < i && #[trigger] msgs[j].role == role
}

/// The validation rules of a canonical conversation:
/// - at least one message
/// - at least one user message
/// - no empty content
/// - the first non-system message is a user message
/// - system messages only appear as a prefix
pub open spec fn valid_conversation(msgs: Seq<Message>) -> bool {
    &&& msgs.len() > 0
    &&& has_role_before(msgs, Role::User, msgs.len() as int)
    &&& forall|i: int| 0 <= i < msgs.len() ==> !is_blank(#[trigger] msgs[i].content.text@)
    &&& forall|i: int, j: int|
        0 <= i < j < msgs.len() && #[trigger] msgs[i].role != Role::System ==> #[trigger] msgs[j].role
            != Role::System
    &&& forall|i: int|
        0 <= i < msgs.len() && #[trigger] msgs[i].role == Role::Assistant ==> has_role_before(
            msgs,
            Role::User,
            i,
        )
}

/// Index of the last message with `role`, if any.
pub open spec fn last_with_role(msgs: Seq<Message>, role: Role) -> Option<int> {
    if exists|i: int| 0 <= i < msgs.len() && #[trigger] msgs[i].role == role {
        Some(
            choose|i: int|
                0 <= i < msgs.len() && #[trigger] msgs[i].role == role && forall|j: int|
                    i < j < msgs.len() ==> msgs[j].role != role,
        )
    } else {
        None
    }
}

/// The messages with role `role`, in order.
pub open spec fn with_role(msgs: Seq<Message>, role: Role) -> Seq<Message> {
    msgs.filter(|m: Message| m.role == role)
}

impl Conversation {
    pub fn new() -> (c: Self)
        ensures
            c.messages@.len() == 0,
    {
        Conversation { messages: Vec::new() }
    }

    pub fn with_messages(messages: Vec<Message>) -> (c: Self)
        ensures
            c.messages@ == messages@,
    {
        Conversation { messages }
    }

    pub fn push(&mut self, message: Message)
        ensures
            final(self).messages@ == old(self).messages@.push(message),
    {
        self.messages.push(message);
    }

    /// The system messages, in order.
    pub fn system_messages(&self) -> (r: Vec<Message>)
        ensures
            r@ == with_role(self.messages@, Role::System),
    {
        let mut out: Vec<Message> = Vec::new();
        let mut i: usize = 0;
        while i < self.messages.len()
            invariant
                i <= self.messages@.len(),
                out@ == with_role(self.messages@.take(i as int), Role::System),
            decreases self.messages.len() - i,
        {
            proof {
                let t = self.messages@.take(i + 1);
                assert(t.drop_last() =~= self.messages@.take(i as int));
                reveal_with_fuel(Seq::filter, 1);
            }
            if self.messages[i].role == Role::System {
                out.push(self.messages[i].clone());
            }
            i = i + 1;
        }
        assert(self.messages@.take(self.messages.len() as int) =~= self.messages@);
        out
    }

    fn last_of(&self, role: Role) -> (r: Option<&Message>)
        ensures
            match last_with_role(self.messages@, role) {
                Some(i) => r == Some(&self.messages@[i]),
                None => r is None,
            },
    {
        let mut i = self.messages.len();
        while i > 0
            invariant
                i <= self.messages@.len(),
                forall|j: int| i <= j < self.messages@.len() ==> self.messages@[j].role != role,
            decreases i,
        {
            if self.messages[i - 1].role == role {
                let ghost k = (i - 1) as int;
                proof {
                    let c = choose|c: int|
                        0 <= c < self.messages@.len() && #[trigger] self.messages@[c].role == role
                            && forall|j: int|
                            c < j < self.messages@.len() ==> self.messages@[j].role != role;
                    assert(self.messages@[k].role == role);
                    if c < k {
                        assert(self.messages@[k].role != role);
                    } else if c > k {
                        assert(self.messages@[c].role != role);
                    }
                }
                return Some(&self.messages[i - 1]);
            }
            i = i - 1;
        }
        None
    }

    pub fn last_user(&self) -> (r: Option<&Message>)
        ensures
            match last_with_role(self.messages@, Role::User) {
                Some(i) => r == Some(&self.messages@[i]),
                None => r is None,
            },
    {
        self.last_of(Role::User)
    }

    pub fn last_assistant(&self) -> (r: Option<&Message>)
        ensures
            match last_with_role(self.messages@, Role::Assistant) {
                Some(i) => r == Some(&self.messages@[i]),
                None => r is None,
            },
    {
        self.last_of(Role::Assistant)
    }

    pub fn is_empty(&self) -> (r: bool)
        ensures
            r == (self.messages@.len() == 0),
    {
        self.messages.len() == 0
    }

    pub fn len(&self) -> (r: usize)
        ensures
            r == self.messages@.len(),
    {
        self.messages.len()
    }

    /// Same as `validate_conversation`.
    pub fn validate(&self) -> (r: crate::error::Result<()>)
        ensures
            r is Ok <==> valid_conversation(self.messages@),
            match conversation_complaint(self.messages@) {
                Some(m) => r matches Err(e) && crate::error::plain_error(e, ErrorKind::Validation, m),
                None => r is Ok,
            },
    {
        validate_conversation(self)
    }
}

/// What is wrong with message `k` given the messages before it, if anything:
/// empty content, a system message after a user message, or an assistant
/// message before any user message.
pub open spec fn message_complaint(msgs: Seq<Message>, k: int) -> Option<Seq<char>> {
    if is_blank(msgs[k].content.text@) {
        Some("message "@ + decimal(k as nat) + " has empty content"@)
    } else if msgs[k].role == Role::System && has_role_before(msgs, Role::User, k) {
        Some("system message at index "@ + decimal(k as nat) + " appears after a non-system message"@)
    } else if msgs[k].role == Role::Assistant && !has_role_before(msgs, Role::User, k) {
        Some("conversation cannot start with an assistant message"@)
    } else {
        None
    }
}

/// The complaint about the first faulty message at or after `k`.
pub open spec fn first_complaint_from(msgs: Seq<Message>, k: int) -> Option<Seq<char>>
    decreases msgs.len() - k,
{
    if k < 0 || k >= msgs.len() {
        None
    } else {
        match message_complaint(msgs, k) {
            Some(m) => Some(m),
            None => first_complaint_from(msgs, k + 1),
        }
    }
}

/// The message validation fails with, in the order the rules are checked:
/// no messages, then the first faulty message, then no user message.
pub open spec fn conversation_complaint(msgs: Seq<Message>) -> Option<Seq<char>> {
    if msgs.len() == 0 {
        Some("conversation has no messages"@)
    } else {
        match first_complaint_from(msgs, 0) {
            Some(m) => Some(m),
            None => if !has_role_before(msgs, Role::User, msgs.len() as int) {
                Some("conversation must contain at least one user message"@)
            } else {
                None
            },
        }
    }
}

/// Validate a canonical conversation (see `valid_conversation`); a failure
/// carries the message `conversation_complaint` gives.
pub fn validate_conversation(conversation: &Conversation) -> (r: crate::error::Result<()>)
    ensures
        r is Ok <==> valid_conversation(conversation.messages@),
        match conversation_complaint(conversation.messages@) {
            Some(m) => r matches Err(e) && crate::error::plain_error(e, ErrorKind::Validation, m),
            None => r is Ok,
        },
{
    let msgs = &conversation.messages;
    if msgs.len() == 0 {
        return Err(SetuError::validation("conversation has no messages"));
    }
    let mut seen_non_system = false;
    let mut i: usize = 0;
    while i < msgs.len()
        invariant
            msgs@ == conversation.messages@,
            i <= msgs@.len(),
            msgs@.len() > 0,
            seen_non_system == has_role_before(msgs@, Role::User, i as int),
            forall|k: int| 0 <= k < i ==> !is_blank(#[trigger] msgs@[k].content.text@),
            forall|a: int, b: int|
                0 <= a < b < i && #[trigger] msgs@[a].role != Role::System ==> #[trigger] msgs@[b].role
                    != Role::System,
            forall|k: int|
                0 <= k < i && #[trigger] msgs@[k].role == Role::Assistant ==> has_role_before(
                    msgs@,
                    Role::User,
                    k,
                ),
            forall|k: int| 0 <= k < i && msgs@[k].role != Role::System ==> seen_non_system,
            first_complaint_from(msgs@, 0) == first_complaint_from(msgs@, i as int),
        decreases msgs.len() - i,
    {
        let msg = &msgs[i];
        if msg.is_empty() {
            let mut m = String::from_str("message ");
            m.append(crate::text::decimal_string(i as u64).as_str());
            m.append(" has empty content");
            return Err(SetuError::with_message(ErrorKind::Validation, m));
        }
        match msg.role {
            Role::System => {
                if seen_non_system {
                    proof {
                        let j = choose|j: int|
                            0 <= j < i && #[trigger] msgs@[j].role == Role::User;
                        assert(msgs@[j].role != Role::System);
                    }
                    let mut m = String::from_str("system message at index ");
                    m.append(crate::text::decimal_string(i as u64).as_str());
                    m.append(" appears after a non-system message");
                    return Err(SetuError::with_message(ErrorKind::Validation, m));
                }
            },
            Role::User => {
                seen_non_system = true;
            },
            Role::Assistant => {
                if !seen_non_system {
                    return Err(
                        SetuError::validation("conversation cannot start with an assistant message"),
                    );
                }
            },
        }
        proof {
            assert forall|j: int| 0 <= j < i + 1 && #[trigger] msgs@[j].role == Role::User implies 0
                <= j < i + 1 by {}
            if msgs@[i as int].role == Role::User {
                assert(has_role_before(msgs@, Role::User, i + 1));
            }
            if has_role_before(msgs@, Role::User, i + 1) && !has_role_before(
                msgs@,
                Role::User,
                i as int,
            ) {
                let j = choose|j: int| 0 <= j < i + 1 && #[trigger] msgs@[j].role == Role::User;
                assert(j == i);
            }
            if has_role_before(msgs@, Role::User, i as int) {
                let j = choose|j: int| 0 <= j < i && #[trigger] msgs@[j].role == Role::User;
                assert(0 <= j < i + 1 && msgs@[j].role == Role::User);
            }
        }
        i = i + 1;
    }
    if !seen_non_system {
        return Err(SetuError::validation("conversation must contain at least one user message"));
    }
    Ok(())
}

} // verus!
