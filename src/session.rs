//! The per-connection session protocol. A session waits for a join, then
//! reacts to each inbound envelope until either direction of the connection
//! ends, and then tears down exactly once. The transport, the encoding of
//! envelopes and the storage calls stay with the caller, which feeds each
//! event in and carries out the returned step.

use vstd::prelude::*;
use tokio::sync::mpsc::UnboundedSender;
use crate::assoc::has_key;
use crate::models::ChatMessage;
use crate::protocol::{ClientMessage, ServerMessage};
use crate::registry::{join_model, members_of, Registry};
use crate::text::{blank, byte_len, decimal, is_blank, push_decimal, utf8_len};

verus! {

/// Largest accepted chat content, in bytes of its UTF-8 encoding.
pub const MAX_MESSAGE_LENGTH: usize = 4096;

/// Text of the error envelope for over-length content.
pub open spec fn too_long_text() -> Seq<char> {
    "Message too long. Maximum length is "@ + decimal(MAX_MESSAGE_LENGTH as nat) + " characters."@
}

/// One event of the inbound direction of a connection.
#[derive(Debug, PartialEq, Eq)]
pub enum Inbound {
    /// A text frame that decoded as an envelope.
    Message(ClientMessage),
    /// A text frame that did not decode.
    Garbled,
    /// A frame that carries no envelope (binary, ping, pong).
    Control,
    /// A close frame.
    Close,
    /// A transport read error.
    Failed,
    /// The end of the stream.
    Ended,
}

/// Where a session stands.
#[derive(Debug, PartialEq, Eq)]
pub enum Phase {
    AwaitingJoin,
    Active { user_id: String, username: String },
    Closed,
}

/// What the caller does next.
#[derive(Debug, PartialEq, Eq)]
pub enum Step {
    /// Nothing.
    Idle,
    /// Register the member in the room and send it the welcome snapshot.
    Register { user_id: String, username: String },
    /// Send this envelope to this connection only.
    Reply(ServerMessage),
    /// Persist a chat message with this content, then broadcast it to the
    /// whole room, the sender included.
    Post(String),
    /// Close the connection; it was never registered.
    Abandon,
    /// Deregister the member, announce its departure, prune the room.
    Teardown { user_id: String },
}

/// How an active session answers a decoded envelope.
pub open spec fn reacts(m: ClientMessage, s: Step) -> bool {
    match m {
        ClientMessage::SendMessage { content } => if is_blank(content@) {
            s is Idle
        } else if byte_len(content@) > MAX_MESSAGE_LENGTH {
            s matches Step::Reply(ServerMessage::Error { message }) && message@ == too_long_text()
        } else {
            s == Step::Post(content)
        },
        ClientMessage::Ping => s == Step::Reply(ServerMessage::Pong),
        ClientMessage::Join { .. } => s is Idle,
    }
}

/// The transition relation of a session on an inbound event.
pub open spec fn steps(phase: Phase, frame: Inbound, next: Phase, s: Step) -> bool {
    match phase {
        Phase::AwaitingJoin => match frame {
            Inbound::Message(ClientMessage::Join { user_id, username }) => next == Phase::Active {
                user_id,
                username,
            } && s == Step::Register { user_id, username },
            Inbound::Close | Inbound::Ended => next is Closed && s is Abandon,
            _ => next is AwaitingJoin && s is Idle,
        },
        Phase::Active { user_id, username } => match frame {
            Inbound::Message(m) => next == phase && reacts(m, s),
            Inbound::Garbled | Inbound::Control => next == phase && s is Idle,
            _ => next is Closed && s == Step::Teardown { user_id },
        },
        Phase::Closed => next is Closed && s is Idle,
    }
}

/// Teardown happens at most once per session: only an active session tears
/// down, it is closed afterwards, and a closed session does nothing more on
/// any event; a session that never registered is abandoned, never torn down.
pub proof fn lemma_teardown_once(phase: Phase, frame: Inbound, next: Phase, s: Step, frame2: Inbound, next2: Phase, s2: Step)
    requires
        steps(phase, frame, next, s),
        s is Teardown || s is Abandon,
        steps(next, frame2, next2, s2),
    ensures
        s is Teardown ==> phase is Active,
        s is Abandon ==> phase is AwaitingJoin,
        next is Closed,
        next2 is Closed,
        s2 is Idle,
{
}

fn too_long_message() -> (r: String)
    ensures
        r@ == too_long_text(),
{
    let mut r = String::new();
    r.append("Message too long. Maximum length is ");
    push_decimal(&mut r, MAX_MESSAGE_LENGTH);
    r.append(" characters.");
    r
}

/// Reaction of an active session to a decoded envelope: blank content is
/// dropped, over-length content is answered with one error envelope to the
/// sender, other content is posted; a ping is answered with a pong; a
/// repeated join is ignored.
pub fn handle_client_message(msg: ClientMessage) -> (s: Step)
    ensures
        reacts(msg, s),
{
    match msg {
        ClientMessage::SendMessage { content } => {
            if blank(content.as_str()) {
                Step::Idle
            } else if utf8_len(&content) > MAX_MESSAGE_LENGTH {
                Step::Reply(ServerMessage::Error { message: too_long_message() })
            } else {
                Step::Post(content)
            }
        },
        ClientMessage::Ping => Step::Reply(ServerMessage::Pong),
        ClientMessage::Join { .. } => Step::Idle,
    }
}

/// State of one connection's session within one room.
pub struct Session {
    pub room_id: String,
    pub phase: Phase,
}

impl Session {
    pub fn new(room_id: String) -> (s: Self)
        ensures
            s.room_id == room_id,
            s.phase is AwaitingJoin,
    {
        Session { room_id, phase: Phase::AwaitingJoin }
    }

    /// Advances the session on one inbound event.
    pub fn on_inbound(&mut self, frame: Inbound) -> (s: Step)
        ensures
            final(self).room_id == old(self).room_id,
            steps(old(self).phase, frame, final(self).phase, s),
    {
        let mut phase = Phase::Closed;
        core::mem::swap(&mut phase, &mut self.phase);
        match phase {
            Phase::AwaitingJoin => match frame {
                Inbound::Message(ClientMessage::Join { user_id, username }) => {
                    self.phase = Phase::Active { user_id: user_id.clone(), username: username.clone() };
                    Step::Register { user_id, username }
                },
                Inbound::Close | Inbound::Ended => Step::Abandon,
                _ => {
                    self.phase = Phase::AwaitingJoin;
                    Step::Idle
                },
            },
            Phase::Active { user_id, username } => match frame {
                Inbound::Message(m) => {
                    self.phase = Phase::Active { user_id, username };
                    handle_client_message(m)
                },
                Inbound::Garbled | Inbound::Control => {
                    self.phase = Phase::Active { user_id, username };
                    Step::Idle
                },
                _ => Step::Teardown { user_id },
            },
            Phase::Closed => Step::Idle,
        }
    }

    /// Advances the session when the outbound direction has failed: an
    /// active session tears down, a waiting one is abandoned.
    pub fn on_outbound_closed(&mut self) -> (s: Step)
        ensures
            final(self).room_id == old(self).room_id,
            final(self).phase is Closed,
            match old(self).phase {
                Phase::AwaitingJoin => s is Abandon,
                Phase::Active { user_id, .. } => s == Step::Teardown { user_id },
                Phase::Closed => s is Idle,
            },
    {
        let mut phase = Phase::Closed;
        core::mem::swap(&mut phase, &mut self.phase);
        match phase {
            Phase::AwaitingJoin => Step::Abandon,
            Phase::Active { user_id, .. } => Step::Teardown { user_id },
            Phase::Closed => Step::Idle,
        }
    }
}

/// Registers a joining member and returns its welcome envelope, whose online
/// count is the number of the room's connections right after registration.
pub fn register(
    registry: &mut Registry,
    room_id: String,
    user_id: String,
    username: String,
    tx: UnboundedSender<String>,
) -> (welcome: ServerMessage)
    requires
        old(registry).wf(),
    ensures
        final(registry).wf(),
        final(registry)@ == join_model(old(registry)@, room_id@, user_id@, username@),
        welcome == (ServerMessage::Welcome {
            room_id,
            user_id,
            online_count: members_of(final(registry)@, room_id@).len() as usize,
        }),
        final(registry).log_of(room_id@, user_id@) == Seq::<String>::empty(),
        forall|r: Seq<char>, u: Seq<char>|
            has_key(members_of(old(registry)@, r), u) && (r != room_id@ || u != user_id@)
            ==> #[trigger] final(registry).log_of(r, u) == old(registry).log_of(r, u),
{
    let count = registry.join(room_id.clone(), user_id.clone(), username, tx);
    ServerMessage::Welcome { room_id, user_id, online_count: count }
}

/// The history envelope for a joining member: exactly one, holding the
/// stored messages as given, when there are any.
pub fn history_envelope(messages: Vec<ChatMessage>) -> (r: Option<ServerMessage>)
    ensures
        messages@.len() == 0 ==> r is None,
        messages@.len() > 0 ==> r == Some(ServerMessage::History { messages }),
{
    if messages.len() == 0 {
        None
    } else {
        Some(ServerMessage::History { messages })
    }
}

/// The envelope that carries a chat message to the room. It is the same
/// whether or not storing the message succeeded.
pub fn chat_envelope(message: ChatMessage, stored: bool) -> (r: ServerMessage)
    ensures
        r == (ServerMessage::Message { message }),
{
    ServerMessage::Message { message }
}

} // verus!
