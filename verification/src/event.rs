use vstd::prelude::*;
use crate::clock;

verus! {

/// One chat line: who sent it, what they said, and when (seconds since
/// the Unix epoch).
#[derive(Debug, PartialEq, Eq)]
pub struct ChatMessage {
    pub user_id: String,
    pub content: String,
    pub timestamp: i64,
}

/// Mathematical model of a `ChatMessage`.
pub ghost struct ChatMessageView {
    pub user_id: Seq<char>,
    pub content: Seq<char>,
    pub timestamp: int,
}

impl View for ChatMessage {
    type V = ChatMessageView;

    open spec fn view(&self) -> ChatMessageView {
        ChatMessageView {
            user_id: self.user_id@,
            content: self.content@,
            timestamp: self.timestamp as int,
        }
    }
}

impl Clone for ChatMessage {
    fn clone(&self) -> (r: Self)
        ensures
            r == *self,
    {
        ChatMessage {
            user_id: self.user_id.clone(),
            content: self.content.clone(),
            timestamp: self.timestamp,
        }
    }
}

impl ChatMessage {
    /// Stamps a freshly received chat line with the current clock reading.
    pub fn new(user_id: String, content: String) -> (m: Self)
        ensures
            m.user_id@ == user_id@,
            m.content@ == content@,
            0 <= m.timestamp <= clock::MAX_TIMESTAMP,
    {
        ChatMessage { user_id, content, timestamp: clock::current_timestamp() }
    }
}

/// The closed set of events a relay can broadcast.
#[derive(Debug, PartialEq, Eq)]
pub enum ServerMessage {
    UserJoined(String),
    UserLeft(String),
    ChatMessage(ChatMessage),
}

/// Mathematical model of a `ServerMessage`.
pub ghost enum ServerMessageView {
    UserJoined(Seq<char>),
    UserLeft(Seq<char>),
    ChatMessage(ChatMessageView),
}

impl View for ServerMessage {
    type V = ServerMessageView;

    open spec fn view(&self) -> ServerMessageView {
        match self {
            ServerMessage::UserJoined(name) => ServerMessageView::UserJoined(name@),
            ServerMessage::UserLeft(name) => ServerMessageView::UserLeft(name@),
            ServerMessage::ChatMessage(m) => ServerMessageView::ChatMessage(m@),
        }
    }
}

impl Clone for ServerMessage {
    fn clone(&self) -> (r: Self)
        ensures
            r == *self,
    {
        match self {
            ServerMessage::UserJoined(name) => ServerMessage::UserJoined(name.clone()),
            ServerMessage::UserLeft(name) => ServerMessage::UserLeft(name.clone()),
            ServerMessage::ChatMessage(m) => ServerMessage::ChatMessage(m.clone()),
        }
    }
}

/// The user an event speaks of: the joining or leaving user, or the
/// author of a chat line. The echo filter compares against this.
pub open spec fn author_of(m: ServerMessageView) -> Seq<char> {
    match m {
        ServerMessageView::UserJoined(name) => name,
        ServerMessageView::UserLeft(name) => name,
        ServerMessageView::ChatMessage(c) => c.user_id,
    }
}

/// A message whose timestamp the wire codec can render. Join and leave
/// events carry no timestamp and are always renderable.
pub open spec fn wire_ready(m: ServerMessageView) -> bool {
    match m {
        ServerMessageView::UserJoined(_) => true,
        ServerMessageView::UserLeft(_) => true,
        ServerMessageView::ChatMessage(c) => 0 <= c.timestamp <= clock::MAX_TIMESTAMP,
    }
}

} // verus!
