use terma::models::ChatMessage;
use terma::protocol::{ClientMessage, ServerMessage};
use terma::registry::Registry;
use terma::room::RoomState;
use terma::session::{
    chat_envelope, handle_client_message, history_envelope, register, Inbound, Phase, Session, Step,
    MAX_MESSAGE_LENGTH,
};
use tokio::sync::mpsc::unbounded_channel;

fn join_frame(user_id: &str, username: &str) -> Inbound {
    Inbound::Message(ClientMessage::Join { user_id: user_id.to_string(), username: username.to_string() })
}

fn send_frame(content: &str) -> Inbound {
    Inbound::Message(ClientMessage::SendMessage { content: content.to_string() })
}

fn too_long_text() -> String {
    "Message too long. Maximum length is 4096 characters.".to_string()
}

#[test]
fn alice_and_bob_in_one_room() {
    let mut reg = Registry::new();
    let (tx1, mut rx1) = unbounded_channel::<String>();
    let (tx2, mut rx2) = unbounded_channel::<String>();

    // alice joins an empty room
    let mut s1 = Session::new("r1".to_string());
    assert_eq!(
        s1.on_inbound(join_frame("u1", "alice")),
        Step::Register { user_id: "u1".to_string(), username: "alice".to_string() }
    );
    let welcome = register(&mut reg, "r1".to_string(), "u1".to_string(), "alice".to_string(), tx1);
    assert_eq!(
        welcome,
        ServerMessage::Welcome { room_id: "r1".to_string(), user_id: "u1".to_string(), online_count: 1 }
    );
    assert_eq!(history_envelope(Vec::new()), None);
    let notice = reg.joined_notice("r1", "u1".to_string(), "alice".to_string(), 10);
    assert_eq!(
        notice,
        Some(ServerMessage::UserJoined {
            user_id: "u1".to_string(),
            username: "alice".to_string(),
            timestamp: 10,
            online_count: 1
        })
    );
    assert!(reg.broadcast("r1", &"alice-joined".to_string(), Some("u1")).is_empty());

    // bob joins: alice hears of it, bob gets the welcome snapshot
    let mut s2 = Session::new("r1".to_string());
    assert!(matches!(s2.on_inbound(join_frame("u2", "bob")), Step::Register { .. }));
    let welcome = register(&mut reg, "r1".to_string(), "u2".to_string(), "bob".to_string(), tx2);
    assert_eq!(
        welcome,
        ServerMessage::Welcome { room_id: "r1".to_string(), user_id: "u2".to_string(), online_count: 2 }
    );
    let notice = reg.joined_notice("r1", "u2".to_string(), "bob".to_string(), 20);
    assert_eq!(
        notice,
        Some(ServerMessage::UserJoined {
            user_id: "u2".to_string(),
            username: "bob".to_string(),
            timestamp: 20,
            online_count: 2
        })
    );
    assert_eq!(reg.broadcast("r1", &"bob-joined".to_string(), Some("u2")), vec!["u1".to_string()]);
    assert_eq!(rx1.try_recv().unwrap(), "bob-joined");
    assert!(rx2.try_recv().is_err());

    // alice says hi: both receive it
    let step = s1.on_inbound(send_frame("hi"));
    assert_eq!(step, Step::Post("hi".to_string()));
    let chat = reg.compose_chat("r1", "u1", "hi".to_string()).unwrap();
    assert_eq!(chat.user_id, "u1");
    assert_eq!(chat.username, "alice");
    assert_eq!(chat.content, "hi");
    assert_eq!(chat.room_id, "r1");
    let env = chat_envelope(chat.clone(), true);
    assert_eq!(env, ServerMessage::Message { message: chat });
    let sent = reg.broadcast("r1", &"hi-payload".to_string(), None);
    assert_eq!(sent, vec!["u1".to_string(), "u2".to_string()]);
    assert_eq!(rx1.try_recv().unwrap(), "hi-payload");
    assert_eq!(rx2.try_recv().unwrap(), "hi-payload");

    // alice leaves: bob is told, one remains
    assert_eq!(s1.on_inbound(Inbound::Close), Step::Teardown { user_id: "u1".to_string() });
    let left = reg.leave("r1", "u1", 30);
    assert_eq!(
        left,
        Some(ServerMessage::UserLeft {
            user_id: "u1".to_string(),
            username: "alice".to_string(),
            timestamp: 30,
            online_count: 1
        })
    );
    assert_eq!(reg.broadcast("r1", &"alice-left".to_string(), None), vec!["u2".to_string()]);
    assert_eq!(rx2.try_recv().unwrap(), "alice-left");

    // bob leaves: the room is gone
    assert_eq!(s2.on_inbound(Inbound::Ended), Step::Teardown { user_id: "u2".to_string() });
    let left = reg.leave("r1", "u2", 40);
    assert!(matches!(left, Some(ServerMessage::UserLeft { online_count: 0, .. })));
    assert!(!reg.contains_room("r1"));
    assert_eq!(reg.online_count("r1"), 0);
}

#[test]
fn over_length_content_gets_one_error_reply() {
    let long = "a".repeat(MAX_MESSAGE_LENGTH + 1);
    let step = handle_client_message(ClientMessage::SendMessage { content: long });
    assert_eq!(step, Step::Reply(ServerMessage::Error { message: too_long_text() }));
}

#[test]
fn content_at_the_cap_is_posted() {
    let exact = "a".repeat(MAX_MESSAGE_LENGTH);
    let step = handle_client_message(ClientMessage::SendMessage { content: exact.clone() });
    assert_eq!(step, Step::Post(exact));
}

#[test]
fn content_length_counts_bytes() {
    // 2049 two-byte characters: 4098 bytes, 2049 characters
    let wide = "é".repeat(2049);
    let step = handle_client_message(ClientMessage::SendMessage { content: wide });
    assert_eq!(step, Step::Reply(ServerMessage::Error { message: too_long_text() }));
}

#[test]
fn blank_content_is_dropped() {
    for content in ["", "   ", "\t\n", "\u{3000}"] {
        let step = handle_client_message(ClientMessage::SendMessage { content: content.to_string() });
        assert_eq!(step, Step::Idle);
    }
    let step = handle_client_message(ClientMessage::SendMessage { content: " x ".to_string() });
    assert_eq!(step, Step::Post(" x ".to_string()));
}

#[test]
fn ping_gets_pong_and_repeated_join_is_ignored() {
    assert_eq!(handle_client_message(ClientMessage::Ping), Step::Reply(ServerMessage::Pong));
    let step = handle_client_message(ClientMessage::Join { user_id: "u".to_string(), username: "n".to_string() });
    assert_eq!(step, Step::Idle);
}

#[test]
fn waiting_session_skips_noise_until_join() {
    let mut s = Session::new("r".to_string());
    assert_eq!(s.on_inbound(Inbound::Garbled), Step::Idle);
    assert_eq!(s.on_inbound(Inbound::Control), Step::Idle);
    assert_eq!(s.on_inbound(Inbound::Failed), Step::Idle);
    assert_eq!(s.on_inbound(Inbound::Message(ClientMessage::Ping)), Step::Idle);
    assert_eq!(s.phase, Phase::AwaitingJoin);
    assert!(matches!(s.on_inbound(join_frame("u", "n")), Step::Register { .. }));
    assert_eq!(s.phase, Phase::Active { user_id: "u".to_string(), username: "n".to_string() });
}

#[test]
fn close_before_join_abandons_without_side_effects() {
    let mut s = Session::new("r".to_string());
    assert_eq!(s.on_inbound(Inbound::Close), Step::Abandon);
    assert_eq!(s.phase, Phase::Closed);
    assert_eq!(s.on_inbound(join_frame("u", "n")), Step::Idle);
    let mut s = Session::new("r".to_string());
    assert_eq!(s.on_inbound(Inbound::Ended), Step::Abandon);
}

#[test]
fn active_session_ignores_noise_and_tears_down_once() {
    let mut s = Session::new("r".to_string());
    s.on_inbound(join_frame("u", "n"));
    assert_eq!(s.on_inbound(Inbound::Garbled), Step::Idle);
    assert_eq!(s.on_inbound(Inbound::Control), Step::Idle);
    assert_eq!(s.on_inbound(Inbound::Failed), Step::Teardown { user_id: "u".to_string() });
    assert_eq!(s.on_inbound(Inbound::Close), Step::Idle);
    assert_eq!(s.on_outbound_closed(), Step::Idle);
}

#[test]
fn outbound_failure_tears_down_once() {
    let mut s = Session::new("r".to_string());
    s.on_inbound(join_frame("u", "n"));
    assert_eq!(s.on_outbound_closed(), Step::Teardown { user_id: "u".to_string() });
    assert_eq!(s.on_inbound(Inbound::Ended), Step::Idle);
    let mut w = Session::new("r".to_string());
    assert_eq!(w.on_outbound_closed(), Step::Abandon);
}

#[test]
fn rejoin_with_same_id_replaces_entry() {
    let mut reg = Registry::new();
    let (tx1, mut rx1) = unbounded_channel::<String>();
    let (tx2, mut rx2) = unbounded_channel::<String>();
    assert_eq!(reg.join("r".to_string(), "u".to_string(), "old".to_string(), tx1), 1);
    assert_eq!(reg.join("r".to_string(), "u".to_string(), "new".to_string(), tx2), 1);
    let chat = reg.compose_chat("r", "u", "x".to_string()).unwrap();
    assert_eq!(chat.username, "new");
    reg.broadcast("r", &"p".to_string(), None);
    assert!(rx1.try_recv().is_err());
    assert_eq!(rx2.try_recv().unwrap(), "p");
}

#[test]
fn occupancy_tracks_joins_and_leaves() {
    let mut reg = Registry::new();
    let mut receivers = Vec::new();
    for (i, id) in ["a", "b", "c"].iter().enumerate() {
        let (tx, rx) = unbounded_channel::<String>();
        receivers.push(rx);
        assert_eq!(reg.join("r".to_string(), id.to_string(), id.to_string(), tx), i + 1);
    }
    assert_eq!(reg.online_count("r"), 3);
    assert!(matches!(reg.leave("r", "b", 1), Some(ServerMessage::UserLeft { online_count: 2, .. })));
    assert_eq!(reg.leave("r", "b", 2), None);
    assert_eq!(reg.online_count("r"), 2);
    let (tx, _rx) = unbounded_channel::<String>();
    let welcome = register(&mut reg, "r".to_string(), "d".to_string(), "d".to_string(), tx);
    assert!(matches!(welcome, ServerMessage::Welcome { online_count: 3, .. }));
    // other rooms are untouched
    assert_eq!(reg.online_count("other"), 0);
    assert_eq!(reg.leave("other", "a", 3), None);
    assert_eq!(reg.online_count("r"), 3);
}

#[test]
fn last_leave_prunes_and_next_join_starts_afresh() {
    let mut reg = Registry::new();
    let (tx, _rx) = unbounded_channel::<String>();
    reg.join("r".to_string(), "a".to_string(), "alice".to_string(), tx);
    assert!(reg.contains_room("r"));
    reg.leave("r", "a", 5);
    assert!(!reg.contains_room("r"));
    assert_eq!(reg.joined_notice("r", "a".to_string(), "alice".to_string(), 6), None);
    let (tx, _rx) = unbounded_channel::<String>();
    assert_eq!(reg.join("r".to_string(), "z".to_string(), "zed".to_string(), tx), 1);
    assert_eq!(reg.broadcast("r", &"p".to_string(), None), vec!["z".to_string()]);
}

#[test]
fn broadcast_survives_a_closed_receiver() {
    let mut reg = Registry::new();
    let (tx1, mut rx1) = unbounded_channel::<String>();
    let (tx2, rx2) = unbounded_channel::<String>();
    reg.join("r".to_string(), "a".to_string(), "a".to_string(), tx1);
    reg.join("r".to_string(), "b".to_string(), "b".to_string(), tx2);
    drop(rx2);
    let sent = reg.broadcast("r", &"p".to_string(), None);
    assert_eq!(sent, vec!["a".to_string(), "b".to_string()]);
    assert_eq!(rx1.try_recv().unwrap(), "p");
}

#[test]
fn chat_from_unregistered_sender_is_labelled_unknown() {
    let mut reg = Registry::new();
    let (tx, _rx) = unbounded_channel::<String>();
    reg.join("r".to_string(), "a".to_string(), "alice".to_string(), tx);
    let chat = reg.compose_chat("r", "ghost", "boo".to_string()).unwrap();
    assert_eq!(chat.username, "Unknown");
    assert!(reg.compose_chat("nowhere", "a", "x".to_string()).is_none());
}

#[test]
fn targeted_send_reaches_only_that_member() {
    let mut reg = Registry::new();
    let (tx1, mut rx1) = unbounded_channel::<String>();
    let (tx2, mut rx2) = unbounded_channel::<String>();
    reg.join("r".to_string(), "a".to_string(), "a".to_string(), tx1);
    reg.join("r".to_string(), "b".to_string(), "b".to_string(), tx2);
    assert!(reg.send_to_user("r", "b", "pong".to_string()));
    assert_eq!(rx2.try_recv().unwrap(), "pong");
    assert!(rx1.try_recv().is_err());
    assert!(!reg.send_to_user("r", "c", "x".to_string()));
    assert!(!reg.send_to_user("s", "a", "x".to_string()));
}

#[test]
fn storage_failure_does_not_change_the_broadcast() {
    let m = ChatMessage::new("r".to_string(), "u".to_string(), "n".to_string(), "hello".to_string());
    assert_eq!(chat_envelope(m.clone(), false), chat_envelope(m.clone(), true));
    assert_eq!(chat_envelope(m.clone(), false), ServerMessage::Message { message: m });
}

#[test]
fn history_is_sent_once_and_only_when_present() {
    let a = ChatMessage::new("r".to_string(), "u".to_string(), "n".to_string(), "one".to_string());
    let b = ChatMessage::new("r".to_string(), "u".to_string(), "n".to_string(), "two".to_string());
    let env = history_envelope(vec![a.clone(), b.clone()]);
    assert_eq!(env, Some(ServerMessage::History { messages: vec![a, b] }));
    assert_eq!(history_envelope(Vec::new()), None);
}

#[test]
fn new_messages_get_fresh_ids_and_a_current_time() {
    let a = ChatMessage::new("r".to_string(), "u".to_string(), "n".to_string(), "x".to_string());
    let b = ChatMessage::new("r".to_string(), "u".to_string(), "n".to_string(), "x".to_string());
    assert_ne!(a.id, b.id);
    // after 2020-01-01
    assert!(a.timestamp > 1_577_836_800_000_000);
    assert_eq!((a.id >> 76) & 0xf, 4);
}

#[test]
fn room_state_add_remove_and_lookup() {
    let mut room = RoomState::new();
    let (tx, mut rx) = unbounded_channel::<String>();
    room.add_connection("u".to_string(), "name".to_string(), tx);
    assert_eq!(room.online_count(), 1);
    assert_eq!(room.get_username("u"), Some("name".to_string()));
    assert_eq!(room.get_username("v"), None);
    assert!(room.send_to_user("u", "direct".to_string()));
    assert_eq!(rx.try_recv().unwrap(), "direct");
    assert_eq!(room.broadcast(&"all".to_string(), Some("u")), Vec::<String>::new());
    assert_eq!(room.remove_connection("u"), Some("name".to_string()));
    assert_eq!(room.remove_connection("u"), None);
    assert_eq!(room.online_count(), 0);
}
