use vstd::prelude::*;

verus! {

/// Identity of a conversation: the peer (friend or group) id and whether it is a group.
#[derive(Clone, Copy, Debug, PartialEq, Eq, Structural)]
pub struct SessionKey {
    pub account: i64,
    pub is_group: bool,
}

impl SessionKey {
    pub fn new(account: i64, is_group: bool) -> (r: SessionKey)
        ensures
            r.account == account,
            r.is_group == is_group,
    {
        SessionKey { account, is_group }
    }
}

/// Abstract value of a message.
pub struct MessageView {
    pub sender: i64,
    pub target: i64,
    pub content: Seq<char>,
}

/// One message of a conversation: who sent it, to whom it was addressed, and its text.
#[derive(Clone, Debug)]
pub struct Message {
    pub sender: i64,
    pub target: i64,
    pub content: String,
}

impl View for Message {
    type V = MessageView;

    open spec fn view(&self) -> MessageView {
        MessageView { sender: self.sender, target: self.target, content: self.content@ }
    }
}

/// Abstract value of a conversation: its key and its history, oldest first.
pub struct ChatroomView {
    pub key: SessionKey,
    pub messages: Seq<MessageView>,
}

/// One conversation: its identity and its append-only history.
#[derive(Debug)]
pub struct Chatroom {
    pub account: i64,
    pub is_group: bool,
    pub messages: Vec<Message>,
}

impl View for Chatroom {
    type V = ChatroomView;

    open spec fn view(&self) -> ChatroomView {
        ChatroomView {
            key: SessionKey { account: self.account, is_group: self.is_group },
            messages: self.messages@.map_values(|m: Message| m@),
        }
    }
}

impl Chatroom {
    /// A conversation with an empty history.
    pub fn new(key: SessionKey) -> (r: Chatroom)
        ensures
            r@.key == key,
            r@.messages == Seq::<MessageView>::empty(),
    {
        let r = Chatroom { account: key.account, is_group: key.is_group, messages: Vec::new() };
        assert(r@.messages =~= Seq::<MessageView>::empty());
        r
    }

    pub fn key(&self) -> (r: SessionKey)
        ensures
            r == self@.key,
    {
        SessionKey { account: self.account, is_group: self.is_group }
    }

    /// Appends a message at the end of the history.
    pub fn push_message(&mut self, message: Message)
        ensures
            final(self)@.key == old(self)@.key,
            final(self)@.messages == old(self)@.messages.push(message@),
    {
        self.messages.push(message);
        assert(self@.messages =~= old(self)@.messages.push(message@));
    }
}

/// Abstract value of a sidebar entry.
pub struct ChatItemView {
    pub key: SessionKey,
    pub username: Seq<char>,
    pub last_message: Seq<char>,
}

/// Sidebar entry of one conversation: its key, the name shown and the latest message text.
#[derive(Debug)]
pub struct ChatItem {
    pub account: i64,
    pub is_group: bool,
    pub username: String,
    pub last_message: String,
}

impl View for ChatItem {
    type V = ChatItemView;

    open spec fn view(&self) -> ChatItemView {
        ChatItemView {
            key: SessionKey { account: self.account, is_group: self.is_group },
            username: self.username@,
            last_message: self.last_message@,
        }
    }
}

impl ChatItem {
    pub fn key(&self) -> (r: SessionKey)
        ensures
            r == self@.key,
    {
        SessionKey { account: self.account, is_group: self.is_group }
    }
}

} // verus!
