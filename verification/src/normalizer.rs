//! Normalize provider-specific payloads toward a stable shape.

use vstd::prelude::*;

use crate::conversation::{Conversation, Message, Role, TextContent};
use crate::text::collapse_ws;

verus! {

/// A message seen as its role and text.
pub open spec fn msg_view(m: Message) -> (Role, Seq<char>) {
    (m.role, m.content.text@)
}

/// The messages of a conversation seen as roles and texts.
pub open spec fn msgs_view(s: Seq<Message>) -> Seq<(Role, Seq<char>)> {
    s.map_values(|m: Message| msg_view(m))
}

/// Normalize inbound or outbound representations.
pub trait Normalizer {
    /// What `normalize_text` makes of a text.
    spec fn normalized_text(&self, input: Seq<char>) -> Seq<char>;

    fn normalize_text(&self, input: &str) -> (r: String)
        ensures
            r@ == self.normalized_text(input@),
    ;

    /// By default every message keeps its role and has its text normalized.
    fn normalize_conversation(&self, conversation: &Conversation) -> (r: Conversation)
        default_ensures
            r.messages@.len() == conversation.messages@.len(),
            forall|i: int|
                0 <= i < r.messages@.len() ==> (#[trigger] r.messages@[i]).role
                    == conversation.messages@[i].role && r.messages@[i].content.text@
                    == self.normalized_text(conversation.messages@[i].content.text@),
    {
        let mut out: Vec<Message> = Vec::new();
        let mut i: usize = 0;
        while i < conversation.messages.len()
            invariant
                i <= conversation.messages@.len(),
                out@.len() == i,
                forall|j: int|
                    0 <= j < i ==> (#[trigger] out@[j]).role == conversation.messages@[j].role
                        && out@[j].content.text@ == self.normalized_text(conversation.messages@[j].content.text@),
            decreases conversation.messages.len() - i,
        {
            let m = &conversation.messages[i];
            let t = self.normalize_text(m.content.as_str());
            out.push(Message::new(m.role, TextContent::from_string(t)));
            i = i + 1;
        }
        Conversation::with_messages(out)
    }
}

/// One step of conversation normalization: collapse the message's white
/// space; drop it when nothing is left; merge it into the previous message
/// (joined by a space) when both share a non-system role; otherwise append it.
pub open spec fn normalize_step(
    acc: (Seq<(Role, Seq<char>)>, Option<Role>),
    m: (Role, Seq<char>),
) -> (Seq<(Role, Seq<char>)>, Option<Role>) {
    let text = collapse_ws(m.1);
    if text.len() == 0 {
        acc
    } else if acc.1 == Some(m.0) && m.0 != Role::System && acc.0.len() > 0 {
        let last = acc.0.last();
        (acc.0.update(acc.0.len() - 1, (last.0, last.1 + " "@ + text)), acc.1)
    } else {
        (acc.0.push((m.0, text)), Some(m.0))
    }
}

/// The normalized form of a conversation's messages.
pub open spec fn normalized_messages(s: Seq<(Role, Seq<char>)>) -> Seq<(Role, Seq<char>)> {
    s.fold_left(
        (Seq::<(Role, Seq<char>)>::empty(), None::<Role>),
        |acc: (Seq<(Role, Seq<char>)>, Option<Role>), m: (Role, Seq<char>)| normalize_step(acc, m),
    ).0
}

/// Trim, collapse interior whitespace, drop empty messages and merge adjacent
/// messages of the same non-system role.
#[derive(Debug)]
pub struct WhitespaceNormalizer;

impl WhitespaceNormalizer {
    /// Collapse every run of white space to one space and trim both ends.
    pub fn collapse(&self, input: &str) -> (r: String)
        ensures
            r@ == collapse_ws(input@),
    {
        crate::text::collapse_whitespace(input)
    }

    /// The normalized conversation (see `normalized_messages`).
    pub fn normalize(&self, conversation: &Conversation) -> (r: Conversation)
        ensures
            msgs_view(r.messages@) == normalized_messages(msgs_view(conversation.messages@)),
    {
        let msgs = &conversation.messages;
        let ghost src = msgs_view(msgs@);
        let mut out: Vec<Message> = Vec::new();
        let mut last_role: Option<Role> = None;
        let mut i: usize = 0;
        while i < msgs.len()
            invariant
                i <= msgs@.len(),
                src == msgs_view(msgs@),
                (msgs_view(out@), last_role) == src.subrange(0, i as int).fold_left(
                    (Seq::<(Role, Seq<char>)>::empty(), None::<Role>),
                    |acc: (Seq<(Role, Seq<char>)>, Option<Role>), m: (Role, Seq<char>)|
                        normalize_step(acc, m),
                ),
            decreases msgs.len() - i,
        {
            let m = &msgs[i];
            proof {
                let sub = src.subrange(0, i + 1);
                assert(sub.drop_last() =~= src.subrange(0, i as int));
                assert(sub.last() == msg_view(msgs@[i as int]));
            }
            let text = crate::text::collapse_whitespace(m.content.as_str());
            let ghost before = msgs_view(out@);
            if text.unicode_len() == 0 {
            } else if last_role == Some(m.role) && m.role != Role::System && out.len() > 0 {
                let k = out.len() - 1;
                let mut merged = out[k].content.text.clone();
                merged.append(" ");
                merged.append(text.as_str());
                let role = out[k].role;
                out.set(k, Message::new(role, TextContent::from_string(merged)));
                proof {
                    assert(msgs_view(out@) =~= before.update(
                        before.len() - 1,
                        (before.last().0, before.last().1 + " "@ + text@),
                    ));
                }
            } else {
                last_role = Some(m.role);
                out.push(Message::new(m.role, TextContent::from_string(text)));
                proof {
                    assert(msgs_view(out@) =~= before.push((m.role, text@)));
                }
            }
            i = i + 1;
        }
        assert(src.subrange(0, msgs.len() as int) =~= src);
        Conversation::with_messages(out)
    }
}

impl Normalizer for WhitespaceNormalizer {
    open spec fn normalized_text(&self, input: Seq<char>) -> Seq<char> {
        collapse_ws(input)
    }

    fn normalize_text(&self, input: &str) -> (r: String)
        ensures
            r@ == collapse_ws(input@),
    {
        self.collapse(input)
    }

    fn normalize_conversation(&self, conversation: &Conversation) -> (r: Conversation)
        ensures
            msgs_view(r.messages@) == normalized_messages(msgs_view(conversation.messages@)),
    {
        self.normalize(conversation)
    }
}

} // verus!
