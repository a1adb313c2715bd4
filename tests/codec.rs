use chat_broker::types::{
    AuthStatus, ParseSignalDataError, SignalData, SignalHeader, SignalType,
};

fn message_signal(username: &str, body: &str, server: bool) -> SignalData {
    let mut headers = vec![
        SignalHeader::SignalType(SignalType::NewMessage),
        SignalHeader::Username(username.to_owned()),
        SignalHeader::WithMessage,
    ];
    if server {
        headers.push(SignalHeader::ServerMessage);
    }
    SignalData::new(headers, Some(body))
}

#[test]
fn encode_orders_headers_and_frames_body() {
    let s = message_signal("alice", "hi", true);
    assert_eq!(
        s.to_string(),
        "USERNAME: alice\r\nSIGNAL_TYPE: NEW_MESSAGE\r\nSERVER_MESSAGE\r\nWITH_MESSAGE\r\n\r\nhi\r\n\r\n"
    );
}

#[test]
fn encode_auth_reply() {
    let s = SignalData::new(vec![SignalHeader::AuthStatus(AuthStatus::DENIED)], None);
    assert_eq!(s.to_string(), "AUTH_STATUS: DENIED\r\n\r\n\r\n");
}

#[test]
fn new_without_message_gives_empty_body() {
    let s = SignalData::new(vec![SignalHeader::WithMessage], None);
    assert!(s.with_message);
    assert_eq!(s.message.as_deref(), Some(""));
    assert!(s.signal_type.is_none());
}

#[test]
fn decode_message_frame() {
    let d = SignalData::from_str(
        "USERNAME: alice\r\nSIGNAL_TYPE: NEW_MESSAGE\r\nWITH_MESSAGE\r\n\r\nhello there\r\n\r\n",
    )
    .unwrap();
    assert_eq!(d.username.as_deref(), Some("alice"));
    assert_eq!(d.signal_type, Some(SignalType::NewMessage));
    assert!(d.with_message);
    assert_eq!(d.message.as_deref(), Some("hello there"));
    assert!(!d.server_message);
    assert!(d.auth_status.is_none());
}

#[test]
fn decode_trims_header_values() {
    let d = SignalData::from_str("USERNAME:   bob  \r\nSIGNAL_TYPE:  CONNECTION \r\n\r\n\r\n").unwrap();
    assert_eq!(d.username.as_deref(), Some("bob"));
    assert_eq!(d.signal_type, Some(SignalType::Connection));
}

#[test]
fn decode_ignores_unknown_lines() {
    let d = SignalData::from_str("X-FUTURE: 1\r\nSIGNAL_TYPE: CONNECTION\r\nnoise\r\n\r\n").unwrap();
    assert_eq!(d.signal_type, Some(SignalType::Connection));
    assert!(d.username.is_none());
}

#[test]
fn decode_without_signal_type_fails() {
    let r = SignalData::from_str("USERNAME: alice\r\n\r\n\r\n");
    assert!(matches!(r, Err(ParseSignalDataError)));
}

#[test]
fn decode_bad_signal_type_fails() {
    assert!(SignalData::from_str("SIGNAL_TYPE: HELLO\r\n\r\n").is_err());
}

#[test]
fn decode_marker_without_terminator_fails() {
    assert!(SignalData::from_str("SIGNAL_TYPE: NEW_MESSAGE\r\nWITH_MESSAGE").is_err());
}

#[test]
fn decode_body_without_trailing_terminator() {
    let d = SignalData::from_str("SIGNAL_TYPE: NEW_MESSAGE\r\nWITH_MESSAGE\r\n\r\nabc").unwrap();
    assert_eq!(d.message.as_deref(), Some("abc"));
}

#[test]
fn decode_auth_status() {
    let d = SignalData::from_str("AUTH_STATUS: ACCEPTED\r\nSIGNAL_TYPE: CONNECTION\r\n\r\n\r\n").unwrap();
    assert_eq!(d.auth_status, Some(AuthStatus::ACCEPTED));
}

#[test]
fn round_trip_without_body() {
    let s = SignalData::new(
        vec![
            SignalHeader::Username("carol".to_owned()),
            SignalHeader::SignalType(SignalType::Connection),
            SignalHeader::AuthStatus(AuthStatus::ACCEPTED),
            SignalHeader::ServerMessage,
        ],
        None,
    );
    let d = SignalData::from_str(&s.to_string()).unwrap();
    assert_eq!(d.username.as_deref(), Some("carol"));
    assert_eq!(d.auth_status, Some(AuthStatus::ACCEPTED));
    assert_eq!(d.signal_type, Some(SignalType::Connection));
    assert!(!d.with_message);
    assert!(d.message.is_none());
    assert!(d.server_message);
}

#[test]
fn round_trip_with_multiline_body() {
    let s = message_signal("dave", "line one\r\nline two", false);
    let d = SignalData::from_str(&s.to_string()).unwrap();
    assert_eq!(d.username.as_deref(), Some("dave"));
    assert_eq!(d.message.as_deref(), Some("line one\r\nline two"));
    assert!(d.with_message);
    assert!(!d.server_message);
}

#[test]
fn header_from_str_and_back() {
    match SignalHeader::from_str("USERNAME: eve").unwrap() {
        SignalHeader::Username(v) => assert_eq!(v, "eve"),
        _ => panic!("wrong header"),
    }
    assert!(matches!(SignalHeader::from_str("WITH_MESSAGE"), Ok(SignalHeader::WithMessage)));
    assert!(matches!(SignalHeader::from_str("SERVER_MESSAGE"), Ok(SignalHeader::ServerMessage)));
    assert!(SignalHeader::from_str("AUTH_STATUS: MAYBE").is_err());
    assert!(SignalHeader::from_str("PASSWORD: x").is_err());
    assert_eq!(SignalHeader::AuthStatus(AuthStatus::ACCEPTED).to_string(), "AUTH_STATUS: ACCEPTED\r\n");
    assert_eq!(SignalHeader::SignalType(SignalType::Connection).to_string(), "SIGNAL_TYPE: CONNECTION\r\n");
}

#[test]
fn header_name_without_colon_takes_line_as_value() {
    match SignalHeader::from_str("USERNAME").unwrap() {
        SignalHeader::Username(v) => assert_eq!(v, "USERNAME"),
        _ => panic!("wrong header"),
    }
}

#[test]
fn words_of_types_and_statuses() {
    assert_eq!(SignalType::from_str("NEW_MESSAGE"), Ok(SignalType::NewMessage));
    assert_eq!(SignalType::from_str("CONNECTION"), Ok(SignalType::Connection));
    assert_eq!(SignalType::from_str("connection"), Err(ParseSignalDataError));
    assert_eq!(AuthStatus::from_str("DENIED"), Ok(AuthStatus::DENIED));
    assert_eq!(AuthStatus::from_str(""), Err(ParseSignalDataError));
    assert_eq!(SignalType::NewMessage.to_string(), "NEW_MESSAGE");
    assert_eq!(AuthStatus::ACCEPTED.to_string(), "ACCEPTED");
}

#[test]
fn username_with_outer_spaces_comes_back_trimmed() {
    let s = SignalData::new(
        vec![
            SignalHeader::Username(" bob".to_owned()),
            SignalHeader::SignalType(SignalType::Connection),
        ],
        None,
    );
    let d = SignalData::from_str(&s.to_string()).unwrap();
    assert_eq!(d.username.as_deref(), Some("bob"));
}

#[test]
fn body_lines_are_read_as_headers_too() {
    let s = message_signal("alice", "x\r\nUSERNAME: eve", false);
    let d = SignalData::from_str(&s.to_string()).unwrap();
    assert_eq!(d.username.as_deref(), Some("eve"));
    assert_eq!(d.message.as_deref(), Some("x\r\nUSERNAME: eve"));
}
