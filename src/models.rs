//! Persistent records: rooms and chat messages.
//!
//! Instants are held as microseconds since the Unix epoch (UTC), identifiers
//! of messages as the 128-bit value of a UUID.

use vstd::prelude::*;

verus! {

/// A named, persistent chat channel.
#[derive(Debug, Clone, PartialEq, Eq)]
pub struct Room {
    pub id: String,
    /// Creation instant, microseconds since the Unix epoch.
    pub created_at: i64,
}

/// One chat message as stored and as delivered to clients.
#[derive(Debug, Clone, PartialEq, Eq)]
pub struct ChatMessage {
    /// Value of a random (version 4) UUID.
    pub id: u128,
    pub room_id: String,
    pub user_id: String,
    pub username: String,
    pub content: String,
    /// Server-assigned instant, microseconds since the Unix epoch.
    pub timestamp: i64,
}

/// A participant as seen by the server.
#[derive(Debug, Clone, PartialEq, Eq)]
pub struct User {
    pub id: String,
    /// Instant of connection, microseconds since the Unix epoch.
    pub connected_at: i64,
}

/// Relies on `uuid::Uuid::new_v4` (random bits from the operating system,
/// with the version field set to 4 and the variant to RFC 4122) and
/// `Uuid::as_u128` (the big-endian value): a fresh random identifier whose
/// version nibble is 4 and whose two variant bits are `10`.
#[verifier::external_body]
pub(crate) fn fresh_message_id() -> (id: u128)
    ensures
        (id >> 76u128) & 0xfu128 == 4,
        (id >> 62u128) & 0x3u128 == 2,
{
    uuid::Uuid::new_v4().as_u128()
}

/// Relies on `chrono::Utc::now` and `DateTime::timestamp_micros`: the
/// system clock, of which nothing is promised.
#[verifier::external_body]
pub(crate) fn now_micros() -> i64 {
    chrono::Utc::now().timestamp_micros()
}

impl ChatMessage {
    /// A new message with a fresh identifier, stamped with the current time.
    pub fn new(room_id: String, user_id: String, username: String, content: String) -> (m: Self)
        ensures
            (m.id >> 76u128) & 0xfu128 == 4,
            (m.id >> 62u128) & 0x3u128 == 2,
            m.room_id == room_id,
            m.user_id == user_id,
            m.username == username,
            m.content == content,
    {
        ChatMessage {
            id: fresh_message_id(),
            room_id,
            user_id,
            username,
            content,
            timestamp: now_micros(),
        }
    }
}

impl Room {
    /// A room record stamped with the current time.
    pub fn new(id: String) -> (r: Self)
        ensures
            r.id == id,
    {
        Room { id, created_at: now_micros() }
    }
}

} // verus!
