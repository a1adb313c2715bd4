use chat_broker::manager::{auth_frame, fanout_frame, incoming_message, Manager};
use chat_broker::messages_pool::{MessagesPool, PoolMessage};
use chat_broker::settings::{Settings, DEFAULT_MAX_USERS};
use chat_broker::state::StateData;
use chat_broker::types::{AuthStatus, SignalData, SignalHeader, SignalType};

fn broker() -> (StateData, MessagesPool) {
    (StateData::new(Settings::new(7878, None, None)), MessagesPool::new())
}

fn handshake(username: &str) -> String {
    SignalData::new(
        vec![
            SignalHeader::SignalType(SignalType::Connection),
            SignalHeader::Username(username.to_owned()),
        ],
        None,
    )
    .to_string()
}

fn chat(username: &str, body: &str) -> String {
    SignalData::new(
        vec![
            SignalHeader::SignalType(SignalType::NewMessage),
            SignalHeader::WithMessage,
            SignalHeader::Username(username.to_owned()),
        ],
        Some(body),
    )
    .to_string()
}

#[test]
fn settings_default_user_limit() {
    let s = Settings::new(9000, None, Some("k".to_owned()));
    assert_eq!(s.port, 9000);
    assert_eq!(s.max_users, DEFAULT_MAX_USERS);
    assert_eq!(s.max_users, 10);
    assert_eq!(s.key.as_deref(), Some("k"));
    assert_eq!(Settings::new(1, Some(3), None).max_users, 3);
}

#[test]
fn register_then_duplicate_is_rejected() {
    let (mut state, mut pool) = broker();
    assert!(state
        .register(&mut pool, "alice".to_owned(), "1.2.3.4:5".to_owned(), "j1".to_owned())
        .is_ok());
    assert!(state
        .register(&mut pool, "alice".to_owned(), "6.7.8.9:0".to_owned(), "j2".to_owned())
        .is_err());
    let (msgs, _) = pool.has_new("").unwrap();
    assert_eq!(msgs.len(), 1);
    assert_eq!(msgs[0].id, "j1");
    assert_eq!(msgs[0].message, "alice joined the chat!");
    assert_eq!(msgs[0].username, "");
    assert!(msgs[0].from_server);
    assert_eq!(state.users.get("alice").unwrap().address, "1.2.3.4:5");
}

#[test]
fn registration_is_case_sensitive() {
    let (mut state, mut pool) = broker();
    assert!(state.register(&mut pool, "alice".to_owned(), "a".to_owned(), "1".to_owned()).is_ok());
    assert!(state.register(&mut pool, "Alice".to_owned(), "b".to_owned(), "2".to_owned()).is_ok());
    assert_eq!(state.users.len(), 2);
}

#[test]
fn unregister_unknown_is_a_no_op() {
    let (mut state, mut pool) = broker();
    state.unregister(&mut pool, "ghost", "x".to_owned());
    assert!(pool.has_new("").is_none());
    assert_eq!(state.users.len(), 0);
}

#[test]
fn unregister_twice_leaves_one_notice() {
    let (mut state, mut pool) = broker();
    state.register(&mut pool, "bob".to_owned(), "addr".to_owned(), "j".to_owned()).unwrap();
    state.unregister(&mut pool, "bob", "l1".to_owned());
    state.unregister(&mut pool, "bob", "l2".to_owned());
    let (msgs, _) = pool.has_new("").unwrap();
    assert_eq!(msgs.len(), 2);
    assert_eq!(msgs[1].message, "bob left the chat!");
    assert_eq!(msgs[1].id, "l1");
    assert!(!state.users.contains_key("bob"));
}

#[test]
fn second_client_with_same_name_is_denied() {
    let (mut state, mut pool) = broker();
    let mut a = Manager::new("10.0.0.1:1000".to_owned());
    let mut b = Manager::new("10.0.0.2:2000".to_owned());
    let reply = a.auth(&mut state, &mut pool, &handshake("alice")).unwrap();
    assert_eq!(reply, "AUTH_STATUS: ACCEPTED\r\n\r\n\r\n");
    assert_eq!(a.connected_user_username.as_deref(), Some("alice"));
    assert!(b.auth(&mut state, &mut pool, &handshake("alice")).is_err());
    let denial = b.deny_auth();
    assert!(denial.contains("AUTH_STATUS: DENIED"));
    assert!(b.connected_user_username.is_none());
    assert_eq!(state.users.get("alice").unwrap().address, "10.0.0.1:1000");
}

#[test]
fn handshake_needs_connection_type_and_name() {
    let (mut state, mut pool) = broker();
    let mut m = Manager::new("p".to_owned());
    assert!(m.auth(&mut state, &mut pool, "garbage").is_err());
    assert!(m.auth(&mut state, &mut pool, &chat("alice", "hi")).is_err());
    assert!(m.auth(&mut state, &mut pool, "SIGNAL_TYPE: CONNECTION\r\n\r\n\r\n").is_err());
    assert!(m
        .auth(&mut state, &mut pool, "USERNAME:   \r\nSIGNAL_TYPE: CONNECTION\r\n\r\n\r\n")
        .is_err());
    assert!(pool.has_new("").is_none());
    assert_eq!(state.users.len(), 0);
}

#[test]
fn join_notice_gets_a_fresh_id() {
    let (mut state, mut pool) = broker();
    let mut m = Manager::new("p".to_owned());
    m.auth(&mut state, &mut pool, &handshake("zoe")).unwrap();
    let (msgs, _) = pool.has_new("").unwrap();
    assert_eq!(msgs[0].message, "zoe joined the chat!");
    assert_eq!(msgs[0].id.chars().count(), 36);
}

#[test]
fn message_from_one_client_reaches_another() {
    let (mut state, mut pool) = broker();
    let mut a = Manager::new("a".to_owned());
    a.auth(&mut state, &mut pool, &handshake("alice")).unwrap();
    let mut b = Manager::new("b".to_owned());
    b.auth(&mut state, &mut pool, &handshake("bob")).unwrap();
    let skipped = b.poll_messages_pool(&pool);
    assert_eq!(skipped.len(), 2);
    Manager::process_incoming_message(&mut pool, &chat("alice", "hi")).unwrap();
    let frames = b.poll_messages_pool(&pool);
    assert_eq!(frames.len(), 1);
    let d = SignalData::from_str(&frames[0]).unwrap();
    assert_eq!(d.username.as_deref(), Some("alice"));
    assert_eq!(d.message.as_deref(), Some("hi"));
    assert_eq!(d.signal_type, Some(SignalType::NewMessage));
    assert!(!d.server_message);
    assert!(!b.last_read_message_id.is_empty());
    assert!(b.poll_messages_pool(&pool).is_empty());
}

#[test]
fn polling_with_empty_cursor_gets_the_message() {
    let mut pool = MessagesPool::new();
    Manager::process_incoming_message(&mut pool, &chat("alice", "hi")).unwrap();
    let mut b = Manager::new("b".to_owned());
    let frames = b.poll_messages_pool(&pool);
    assert_eq!(frames.len(), 1);
    assert_eq!(
        frames[0],
        "USERNAME: alice\r\nSIGNAL_TYPE: NEW_MESSAGE\r\nWITH_MESSAGE\r\n\r\nhi\r\n\r\n"
    );
    assert_eq!(b.last_read_message_id.chars().count(), 36);
}

#[test]
fn polling_an_empty_history_keeps_the_cursor() {
    let pool = MessagesPool::new();
    let mut b = Manager::new("b".to_owned());
    b.last_read_message_id = "old".to_owned();
    assert!(b.poll_messages_pool(&pool).is_empty());
    assert_eq!(b.last_read_message_id, "old");
}

#[test]
fn stale_cursor_after_300_messages_gets_full_window() {
    let mut pool = MessagesPool::new();
    for i in 0..300 {
        pool.push(PoolMessage::new(format!("m{i}"), "u".to_owned(), format!("{i}"), false));
    }
    let mut reader = Manager::new("r".to_owned());
    reader.last_read_message_id = "m10".to_owned();
    let frames = reader.poll_messages_pool(&pool);
    assert_eq!(frames.len(), 256);
    assert_eq!(SignalData::from_str(&frames[0]).unwrap().message.as_deref(), Some("44"));
    assert_eq!(reader.last_read_message_id, "m299");
}

#[test]
fn incoming_body_is_trimmed() {
    let m = incoming_message(&chat("alice", "  hello \t"), "id".to_owned()).unwrap();
    assert_eq!(m.message, "hello");
    assert_eq!(m.username, "alice");
    assert!(!m.from_server);
}

#[test]
fn incoming_without_body_or_name_is_rejected() {
    let no_body = SignalData::new(
        vec![
            SignalHeader::SignalType(SignalType::NewMessage),
            SignalHeader::Username("a".to_owned()),
        ],
        None,
    )
    .to_string();
    assert!(incoming_message(&no_body, "i".to_owned()).is_err());
    let no_name = SignalData::new(
        vec![SignalHeader::SignalType(SignalType::NewMessage), SignalHeader::WithMessage],
        Some("x"),
    )
    .to_string();
    assert!(incoming_message(&no_name, "i".to_owned()).is_err());
    assert!(incoming_message("junk", "i".to_owned()).is_err());
    let mut pool = MessagesPool::new();
    assert!(Manager::process_incoming_message(&mut pool, "junk").is_err());
    assert!(pool.has_new("").is_none());
}

#[test]
fn disconnect_cleans_up_once() {
    let (mut state, mut pool) = broker();
    let mut a = Manager::new("a".to_owned());
    a.auth(&mut state, &mut pool, &handshake("alice")).unwrap();
    a.process_disconnection(&mut state, &mut pool);
    a.process_disconnection(&mut state, &mut pool);
    assert!(a.connected_user_username.is_none());
    assert!(!state.users.contains_key("alice"));
    let (msgs, _) = pool.has_new("").unwrap();
    assert_eq!(msgs.len(), 2);
    assert_eq!(msgs[1].message, "alice left the chat!");
    let mut anonymous = Manager::new("x".to_owned());
    anonymous.process_disconnection(&mut state, &mut pool);
    assert_eq!(pool.len(), 2);
}

#[test]
fn fanout_frame_marks_server_notices() {
    let m = PoolMessage::new("i".to_owned(), String::new(), "bob joined the chat!".to_owned(), true);
    let f = fanout_frame(&m);
    assert_eq!(
        f,
        "USERNAME: \r\nSIGNAL_TYPE: NEW_MESSAGE\r\nSERVER_MESSAGE\r\nWITH_MESSAGE\r\n\r\nbob joined the chat!\r\n\r\n"
    );
    assert_eq!(auth_frame(AuthStatus::ACCEPTED), "AUTH_STATUS: ACCEPTED\r\n\r\n\r\n");
}
