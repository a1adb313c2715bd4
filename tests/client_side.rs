use chat_broker::client::{chat_line, connection_request, is_denied, message_request, ChatLine};
use chat_broker::manager::{auth_frame, fanout_frame};
use chat_broker::messages_pool::PoolMessage;
use chat_broker::types::AuthStatus;

#[test]
fn join_request_frame() {
    assert_eq!(connection_request("alice"), "USERNAME: alice\r\nSIGNAL_TYPE: CONNECTION\r\n\r\n\r\n");
}

#[test]
fn chat_request_frame() {
    assert_eq!(
        message_request("alice", "hi"),
        "USERNAME: alice\r\nSIGNAL_TYPE: NEW_MESSAGE\r\nWITH_MESSAGE\r\n\r\nhi\r\n\r\n"
    );
}

#[test]
fn denial_is_recognised() {
    assert!(is_denied(&auth_frame(AuthStatus::DENIED)));
    assert!(!is_denied(&auth_frame(AuthStatus::ACCEPTED)));
    assert!(!is_denied("DENIE"));
    assert!(is_denied("xxDENIEDxx"));
}

#[test]
fn user_message_is_shown_with_its_author() {
    let f = fanout_frame(&PoolMessage::new("1".to_owned(), "bob".to_owned(), "hey".to_owned(), false));
    match chat_line(&f) {
        Some(ChatLine::Message(t)) => assert_eq!(t, "<bob> hey"),
        _ => panic!("a user message was expected"),
    }
}

#[test]
fn notice_is_shown_as_its_text() {
    let f = fanout_frame(&PoolMessage::new("1".to_owned(), String::new(), "bob left the chat!".to_owned(), true));
    match chat_line(&f) {
        Some(ChatLine::Notice(t)) => assert_eq!(t, "bob left the chat!"),
        _ => panic!("a notice was expected"),
    }
}

#[test]
fn other_frames_show_nothing() {
    assert!(chat_line(&connection_request("a")).is_none());
    assert!(chat_line("not a frame").is_none());
    assert!(chat_line(&auth_frame(AuthStatus::ACCEPTED)).is_none());
}
