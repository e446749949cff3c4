use vstd::prelude::*;

verus! {

/// A participant that joined a chat: an optional public handle and a first name.
pub struct ChatMember {
    pub username: Option<String>,
    pub first_name: String,
}

/// What a message is about. Only the join event is acted upon.
pub enum MessageKind {
    Text(String),
    NewChatMembers(Vec<ChatMember>),
    Other,
}

/// A message, with the chat it was posted in.
pub struct Message {
    pub chat_id: i64,
    pub kind: MessageKind,
}

/// The kinds of update the platform delivers.
pub enum UpdateKind {
    Message(Message),
    EditedMessage(Message),
    Other,
}

/// One event delivered by the platform, with its platform-assigned id.
pub struct Update {
    pub id: i32,
    pub kind: UpdateKind,
}

/// An outbound `sendMessage` call: the target chat and the text.
pub struct SendMessage {
    pub chat_id: i64,
    pub text: String,
}

impl ChatMember {
    pub fn new(username: Option<String>, first_name: String) -> (r: ChatMember)
        ensures
            r.username == username,
            r.first_name == first_name,
    {
        ChatMember { username, first_name }
    }
}

impl Message {
    pub fn new(chat_id: i64, kind: MessageKind) -> (r: Message)
        ensures
            r.chat_id == chat_id,
            r.kind == kind,
    {
        Message { chat_id, kind }
    }
}

impl Update {
    pub fn new(id: i32, kind: UpdateKind) -> (r: Update)
        ensures
            r.id == id,
            r.kind == kind,
    {
        Update { id, kind }
    }
}

} // verus!
