//! Wire envelopes exchanged between client and server. Their text encoding
//! is done at the edge of the library; here they are plain values.

use vstd::prelude::*;
use crate::models::ChatMessage;

verus! {

/// Envelopes sent from client to server.
#[derive(Debug, Clone, PartialEq, Eq)]
pub enum ClientMessage {
    Join { user_id: String, username: String },
    SendMessage { content: String },
    Ping,
}

/// Envelopes sent from server to client.
#[derive(Debug, Clone, PartialEq, Eq)]
pub enum ServerMessage {
    Welcome { room_id: String, user_id: String, online_count: usize },
    History { messages: Vec<ChatMessage> },
    Message { message: ChatMessage },
    UserJoined { user_id: String, username: String, timestamp: i64, online_count: usize },
    UserLeft { user_id: String, username: String, timestamp: i64, online_count: usize },
    Error { message: String },
    Pong,
}

} // verus!
