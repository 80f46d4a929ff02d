use terma::client::{App, DisplayMessage};
use terma::clipboard::{base64_encode, clipboard_sequence};
use terma::config::normalize_username;
use terma::connection::ws_url;
use terma::keys::{key_action, mouse_action, outgoing_text, Key, KeyAction, KeyPress, MouseAction, MouseKind};
use terma::layout::{highlight_columns, scroll_value, wrap_line, ContentArea, LineKind, RenderedLine};
use terma::models::ChatMessage;
use terma::protocol::ServerMessage;
use terma::rooms::{generate_room_id, CreateRoomResponse, ROOM_ID_LENGTH};
use terma::selection::{extract_range, split_for_selection, SelectionPosition, SelectionState};
use terma::text::blank;

fn pos(line: usize, column: usize) -> SelectionPosition {
    SelectionPosition { line, column }
}

fn press(key: Key) -> KeyPress {
    KeyPress { key, ctrl: false, alt: false, shift: false, super_key: false }
}

fn line(text: &str) -> RenderedLine {
    RenderedLine { text: text.to_string(), kind: LineKind::Other }
}

fn app() -> App {
    App::new("r1".to_string(), "u1".to_string(), "alice".to_string())
}

fn chat(user_id: &str, username: &str, content: &str) -> ChatMessage {
    ChatMessage {
        id: 7,
        room_id: "r1".to_string(),
        user_id: user_id.to_string(),
        username: username.to_string(),
        content: content.to_string(),
        timestamp: 1_000,
    }
}

#[test]
fn base64_known_values() {
    assert_eq!(base64_encode(b""), "");
    assert_eq!(base64_encode(b"f"), "Zg==");
    assert_eq!(base64_encode(b"fo"), "Zm8=");
    assert_eq!(base64_encode(b"foo"), "Zm9v");
    assert_eq!(base64_encode(b"foobar"), "Zm9vYmFy");
    assert_eq!(base64_encode(b"hello"), "aGVsbG8=");
    assert_eq!(base64_encode(&[0xfb, 0xff, 0xfe]), "+//+");
}

#[test]
fn clipboard_sequence_frames_base64() {
    assert_eq!(clipboard_sequence("hi"), Some("\x1b]52;c;aGk=\x07".to_string()));
    assert_eq!(clipboard_sequence("é"), Some("\x1b]52;c;w6k=\x07".to_string()));
    assert_eq!(clipboard_sequence(""), None);
}

#[test]
fn extract_range_picks_columns() {
    assert_eq!(extract_range("hello", 1, 3), "el");
    assert_eq!(extract_range("hello", 0, usize::MAX), "hello");
    assert_eq!(extract_range("hello", 3, 1), "");
    assert_eq!(extract_range("héllo", 1, 2), "é");
    assert_eq!(extract_range("hi", 5, 9), "");
}

#[test]
fn split_for_selection_three_parts() {
    assert_eq!(
        split_for_selection("hello", 1, 3),
        ("h".to_string(), "el".to_string(), "lo".to_string())
    );
    assert_eq!(
        split_for_selection("hello", 3, 1),
        ("hel".to_string(), "".to_string(), "lo".to_string())
    );
    assert_eq!(
        split_for_selection("ab", 0, 10),
        ("".to_string(), "ab".to_string(), "".to_string())
    );
}

#[test]
fn wrap_line_cuts_by_width() {
    assert_eq!(wrap_line("abcdef", 4), vec!["abcd".to_string(), "ef".to_string()]);
    assert_eq!(wrap_line("abcd", 2), vec!["ab".to_string(), "cd".to_string()]);
    assert_eq!(wrap_line("", 3), vec!["".to_string()]);
    assert_eq!(wrap_line("abc", 0), vec!["abc".to_string()]);
    assert_eq!(wrap_line("ééé", 2), vec!["éé".to_string(), "é".to_string()]);
}

#[test]
fn selection_range_orders_ends() {
    let mut s = SelectionState::default();
    assert_eq!(s.range(), None);
    s.start(pos(2, 5));
    assert_eq!(s.range(), None);
    s.update(pos(1, 3));
    assert_eq!(s.range(), Some((pos(1, 3), pos(2, 5))));
    s.update(pos(2, 7));
    assert_eq!(s.range(), Some((pos(2, 5), pos(2, 7))));
    s.clear();
    assert_eq!(s.range(), None);
    s.update(pos(0, 1));
    assert_eq!(s.range(), None);
    s.update(pos(0, 0));
    assert_eq!(s.range(), Some((pos(0, 0), pos(0, 1))));
}

#[test]
fn highlight_columns_per_line() {
    let sel = Some((pos(1, 2), pos(3, 4)));
    assert_eq!(highlight_columns(0, 10, sel), None);
    assert_eq!(highlight_columns(1, 10, sel), Some((2, 10)));
    assert_eq!(highlight_columns(2, 10, sel), Some((0, 10)));
    assert_eq!(highlight_columns(3, 10, sel), Some((0, 4)));
    assert_eq!(highlight_columns(3, 2, sel), Some((0, 2)));
    assert_eq!(highlight_columns(4, 10, sel), None);
    assert_eq!(highlight_columns(1, 10, None), None);
}

#[test]
fn scroll_value_from_bottom() {
    assert_eq!(scroll_value(100, 20, 0), 80);
    assert_eq!(scroll_value(100, 20, 30), 50);
    assert_eq!(scroll_value(100, 20, 90), 0);
    assert_eq!(scroll_value(10, 20, 0), 0);
}

#[test]
fn scrolling_steps_and_clamps() {
    let mut a = app();
    a.scroll_up();
    a.scroll_up();
    assert_eq!(a.scroll_offset, 6);
    a.scroll_down();
    assert_eq!(a.scroll_offset, 3);
    a.scroll_down();
    a.scroll_down();
    assert_eq!(a.scroll_offset, 0);
    a.scroll_offset = usize::MAX - 1;
    a.scroll_up();
    assert_eq!(a.scroll_offset, usize::MAX);
    a.clamp_scroll(50, 20);
    assert_eq!(a.scroll_offset, 30);
    a.clamp_scroll(10, 20);
    assert_eq!(a.scroll_offset, 0);
}

#[test]
fn mouse_position_maps_into_rendered_lines() {
    let mut a = app();
    assert_eq!(a.message_position_from_mouse(5, 5), None);
    a.update_render_cache(
        vec![line("first"), line("second line"), line("x")],
        1,
        Some(ContentArea { x: 0, y: 0, width: 20, height: 10 }),
    );
    assert_eq!(a.message_position_from_mouse(0, 1), None);
    assert_eq!(a.message_position_from_mouse(3, 1), Some(pos(1, 2)));
    assert_eq!(a.message_position_from_mouse(15, 2), Some(pos(2, 1)));
    assert_eq!(a.message_position_from_mouse(3, 3), None);
    assert_eq!(a.message_position_from_mouse(19, 1), None);
}

#[test]
fn selection_text_spans_lines() {
    let mut a = app();
    a.update_render_cache(vec![line("hello"), line("big"), line("world")], 0, None);
    assert!(!a.has_selection());
    assert_eq!(a.selection_text(), None);
    a.start_selection(pos(0, 2));
    a.update_selection(pos(2, 3));
    assert!(a.has_selection());
    assert_eq!(a.selection_text(), Some("llo\nbig\nwor".to_string()));
    a.start_selection(pos(1, 3));
    a.update_selection(pos(1, 0));
    assert_eq!(a.selection_text(), Some("big".to_string()));
    a.start_selection(pos(0, 4));
    a.update_selection(pos(9, 9));
    assert_eq!(a.selection_text(), Some("o\nbig\nworld".to_string()));
    a.clear_selection();
    assert_eq!(a.selection_text(), None);
}

#[test]
fn display_lines_carry_header_on_first_line() {
    let m = DisplayMessage {
        username: "alice".to_string(),
        content: "hi\nthere".to_string(),
        timestamp: 0,
        is_system: false,
        is_own_message: false,
    };
    assert_eq!(
        m.format_lines_with_time("12:34:56"),
        vec!["[12:34:56] alice: hi".to_string(), "there".to_string()]
    );
    let s = DisplayMessage {
        username: "system".to_string(),
        content: "".to_string(),
        timestamp: 0,
        is_system: true,
        is_own_message: false,
    };
    assert_eq!(s.format_lines_with_time("00:00:00"), vec!["[00:00:00] ".to_string()]);
}

#[test]
fn local_time_has_clock_shape() {
    let m = DisplayMessage {
        username: "a".to_string(),
        content: "x".to_string(),
        timestamp: 1_662_921_288_000_000,
        is_system: false,
        is_own_message: false,
    };
    let t = m.format_time();
    assert_eq!(t.len(), 8);
    assert_eq!(&t[2..3], ":");
    assert_eq!(&t[5..6], ":");
    assert_eq!(&t[6..8], "48");
    let lines = m.format_lines_for_display();
    assert_eq!(lines, vec![format!("[{}] a: x", t)]);
}

#[test]
fn server_messages_update_the_client() {
    let mut a = app();
    a.handle_server_message(ServerMessage::Welcome {
        room_id: "r1".to_string(),
        user_id: "u1".to_string(),
        online_count: 2,
    });
    assert!(a.connected);
    assert_eq!(a.online_count, 2);
    assert_eq!(a.messages.last().unwrap().content, "Connected to room r1. 2 user(s) online.");
    assert!(a.messages.last().unwrap().is_system);

    a.handle_server_message(ServerMessage::History { messages: vec![chat("u1", "alice", "a"), chat("u2", "bob", "b")] });
    assert_eq!(a.messages.len(), 3);
    assert!(a.messages[1].is_own_message);
    assert!(!a.messages[2].is_own_message);
    assert_eq!(a.messages[2].username, "bob");

    a.handle_server_message(ServerMessage::UserJoined {
        user_id: "u1".to_string(),
        username: "alice".to_string(),
        timestamp: 5,
        online_count: 3,
    });
    assert_eq!(a.messages.len(), 3);
    assert_eq!(a.online_count, 3);

    a.handle_server_message(ServerMessage::UserJoined {
        user_id: "u3".to_string(),
        username: "carol".to_string(),
        timestamp: 6,
        online_count: 10,
    });
    assert_eq!(a.messages.last().unwrap().content, "carol joined. 10 user(s) online.");
    assert_eq!(a.messages.last().unwrap().timestamp, 6);

    a.handle_server_message(ServerMessage::UserLeft {
        user_id: "u3".to_string(),
        username: "carol".to_string(),
        timestamp: 7,
        online_count: 0,
    });
    assert_eq!(a.messages.last().unwrap().content, "carol left. 0 user(s) online.");
    assert_eq!(a.online_count, 0);

    a.handle_server_message(ServerMessage::Error { message: "nope".to_string() });
    assert_eq!(a.messages.last().unwrap().content, "Error: nope");
    assert_eq!(a.messages.last().unwrap().username, "system");

    let n = a.messages.len();
    a.handle_server_message(ServerMessage::Pong);
    assert_eq!(a.messages.len(), n);

    a.handle_server_message(ServerMessage::Message { message: chat("u2", "bob", "yo") });
    assert_eq!(a.messages.last().unwrap().content, "yo");
    assert_eq!(a.scroll_offset, 0);
}

#[test]
fn new_message_resets_scroll_and_selection() {
    let mut a = app();
    a.scroll_up();
    a.start_selection(pos(0, 0));
    a.update_selection(pos(0, 3));
    a.add_chat_message(chat("u1", "alice", "x"));
    assert_eq!(a.scroll_offset, 0);
    assert!(!a.has_selection());
    a.add_system_message("note".to_string());
    assert_eq!(a.messages[1].username, "system");
    a.quit();
    assert!(a.should_quit);
}

#[test]
fn key_bindings() {
    let ctrl_c = KeyPress { ctrl: true, ..press(Key::Char('c')) };
    assert_eq!(key_action(ctrl_c, true), KeyAction::CopySelection);
    assert_eq!(key_action(ctrl_c, false), KeyAction::Quit);
    let super_c = KeyPress { super_key: true, ..press(Key::Char('c')) };
    assert_eq!(key_action(super_c, true), KeyAction::CopySelection);
    assert_eq!(key_action(super_c, false), KeyAction::Edit);
    assert_eq!(key_action(KeyPress { shift: true, ..press(Key::Enter) }, false), KeyAction::InsertNewline);
    assert_eq!(key_action(KeyPress { ctrl: true, ..press(Key::Char('j')) }, false), KeyAction::InsertNewline);
    assert_eq!(key_action(press(Key::Enter), false), KeyAction::Submit);
    assert_eq!(key_action(KeyPress { ctrl: true, ..press(Key::Char('m')) }, false), KeyAction::Submit);
    assert_eq!(key_action(KeyPress { alt: true, ..press(Key::Up) }, false), KeyAction::ScrollUp);
    assert_eq!(key_action(KeyPress { alt: true, ..press(Key::Down) }, false), KeyAction::ScrollDown);
    assert_eq!(key_action(press(Key::Up), false), KeyAction::Edit);
    assert_eq!(key_action(press(Key::Char('x')), true), KeyAction::Edit);
}

#[test]
fn blank_input_is_not_sent() {
    assert_eq!(outgoing_text("  \n ".to_string()), None);
    assert_eq!(outgoing_text("hi\n".to_string()), Some("hi\n".to_string()));
    assert!(blank(""));
    assert!(blank(" \u{2003}\t"));
    assert!(!blank(" a "));
}

#[test]
fn username_is_trimmed() {
    assert_eq!(normalize_username("  bob \n"), Some("bob".to_string()));
    assert_eq!(normalize_username(" \t\n"), None);
    assert_eq!(normalize_username("a b"), Some("a b".to_string()));
}

#[test]
fn websocket_url_scheme() {
    assert_eq!(ws_url("localhost:3000", "abc"), "ws://localhost:3000/ws/abc");
    assert_eq!(ws_url("127.0.0.1:9", "r"), "ws://127.0.0.1:9/ws/r");
    assert_eq!(ws_url("chat.example.com", "r"), "wss://chat.example.com/ws/r");
    assert_eq!(ws_url("local", "r"), "wss://local/ws/r");
}

#[test]
fn room_creation_answer() {
    let id = generate_room_id();
    assert_eq!(id.chars().count(), ROOM_ID_LENGTH);
    assert!(id.chars().all(|c| c == '_' || c == '-' || c.is_ascii_alphanumeric()));
    let r = CreateRoomResponse::new("abc".to_string(), "localhost:3000");
    assert_eq!(r.room_id, "abc");
    assert_eq!(r.install_command, "sh -c \"$(curl -fsSL http://localhost:3000/join/abc)\"");
}

fn entry(username: &str, content: &str, is_system: bool, is_own_message: bool) -> DisplayMessage {
    DisplayMessage {
        username: username.to_string(),
        content: content.to_string(),
        timestamp: 0,
        is_system,
        is_own_message,
    }
}

fn texts(lines: &[RenderedLine]) -> Vec<&str> {
    lines.iter().map(|l| l.text.as_str()).collect()
}

#[test]
fn pane_lines_wrap_each_display_line() {
    let mut a = app();
    a.messages.push(entry("alice", "hello world", false, true));
    a.messages.push(entry("system", "a\nb", true, false));
    a.messages.push(entry("bob", "yo", false, false));
    let times = vec!["12:00:00".to_string(); 3];
    let lines = a.render_lines(&times, 10);
    assert_eq!(
        texts(&lines),
        vec!["[12:00:00]", " alice: he", "llo world", "[12:00:00]", " a", "b", "[12:00:00]", " bob: yo"]
    );
    let kinds: Vec<LineKind> = lines.iter().map(|l| l.kind).collect();
    assert_eq!(
        kinds,
        vec![
            LineKind::Own,
            LineKind::Own,
            LineKind::Own,
            LineKind::System,
            LineKind::System,
            LineKind::System,
            LineKind::Other,
            LineKind::Other
        ]
    );
    let whole = a.render_lines(&times, 0);
    assert_eq!(texts(&whole), vec!["[12:00:00] alice: hello world", "[12:00:00] a", "b", "[12:00:00] bob: yo"]);
}

#[test]
fn pane_row_count_goes_by_bytes() {
    let mut a = app();
    a.messages.push(entry("alice", "hello world", false, true));
    a.messages.push(entry("system", "a\nb", true, false));
    let times = vec!["12:00:00".to_string(); 2];
    assert_eq!(a.total_display_lines(&times, 10), 6);
    assert_eq!(a.total_display_lines(&times, 0), 3);
    let mut w = app();
    w.messages.push(entry("system", "éééééééééé", true, false));
    let times = vec!["12:00:00".to_string()];
    assert_eq!(w.render_lines(&times, 10).len(), 3);
    assert_eq!(w.total_display_lines(&times, 10), 4);
    assert_eq!(app().total_display_lines(&Vec::new(), 10), 0);
}

#[test]
fn clock_labels_follow_messages() {
    let mut a = app();
    a.messages.push(entry("a", "x", false, false));
    a.messages.push(entry("b", "y", true, false));
    let labels = a.clock_labels();
    assert_eq!(labels.len(), 2);
    assert!(labels.iter().all(|t| t.len() == 8));
    let mut out = Vec::new();
    a.messages[1].append_rows("01:02:03", 100, &mut out);
    assert_eq!(texts(&out), vec!["[01:02:03] y"]);
    assert_eq!(terma::client::line_kind(&a.messages[1]), LineKind::System);
}

#[test]
fn mouse_bindings() {
    let p = Some(pos(1, 2));
    assert_eq!(mouse_action(MouseKind::ScrollUp, None, false), MouseAction::ScrollUp);
    assert_eq!(mouse_action(MouseKind::ScrollDown, p, true), MouseAction::ScrollDown);
    assert_eq!(mouse_action(MouseKind::LeftDown, p, false), MouseAction::StartSelection(pos(1, 2)));
    assert_eq!(mouse_action(MouseKind::LeftDown, None, true), MouseAction::ClearSelection);
    assert_eq!(mouse_action(MouseKind::LeftDrag, p, false), MouseAction::ExtendSelection(pos(1, 2)));
    assert_eq!(mouse_action(MouseKind::LeftUp, None, false), MouseAction::Nothing);
    assert_eq!(mouse_action(MouseKind::RightUp, None, true), MouseAction::CopySelection);
    assert_eq!(mouse_action(MouseKind::RightUp, p, false), MouseAction::Nothing);
    assert_eq!(mouse_action(MouseKind::Other, p, true), MouseAction::Nothing);
}

#[test]
fn clock_label_formats_time_of_day() {
    assert_eq!(terma::client::clock_label(Some((9, 5, 7))), "09:05:07");
    assert_eq!(terma::client::clock_label(Some((23, 59, 0))), "23:59:00");
    assert_eq!(terma::client::clock_label(None), "--:--:--");
}
