//! A chat message as the completion API sees it: a role and a content.

use vstd::prelude::*;

verus! {

/// One message of a conversation.
#[derive(Debug, Clone, PartialEq, Eq)]
pub struct Message {
    pub role: String,
    pub content: String,
}

/// The mathematical value of a message.
pub struct MessageView {
    pub role: Seq<char>,
    pub content: Seq<char>,
}

impl View for Message {
    type V = MessageView;

    open spec fn view(&self) -> MessageView {
        MessageView { role: self.role@, content: self.content@ }
    }
}

/// The views of a sequence of messages.
pub open spec fn messages_view(s: Seq<Message>) -> Seq<MessageView> {
    s.map_values(|m: Message| m@)
}

impl Message {
    /// A message from the user.
    pub fn user(content: &str) -> (m: Message)
        ensures
            m.role@ == "user"@,
            m.content@ == content@,
    {
        Message { role: "user".to_owned(), content: content.to_owned() }
    }

    /// A message from the assistant.
    pub fn assistant(content: &str) -> (m: Message)
        ensures
            m.role@ == "assistant"@,
            m.content@ == content@,
    {
        Message { role: "assistant".to_owned(), content: content.to_owned() }
    }

    /// A system message, which the model reads before the conversation.
    pub fn system(content: &str) -> (m: Message)
        ensures
            m.role@ == "system"@,
            m.content@ == content@,
    {
        Message { role: "system".to_owned(), content: content.to_owned() }
    }

    /// A copy of this message.
    pub fn duplicate(&self) -> (m: Message)
        ensures
            m@ == self@,
    {
        Message { role: self.role.clone(), content: self.content.clone() }
    }
}

} // verus!
