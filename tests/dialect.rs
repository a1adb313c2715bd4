use chat_broker::sygnal::{ParseSygnalDataError, SygnalData, SygnalHeader, SygnalType};
use chat_broker::types::AuthStatus;

#[test]
fn dialect_encodes_credentials_first() {
    let s = SygnalData::new(
        vec![
            SygnalHeader::SygnalType(SygnalType::ConnectionProducer),
            SygnalHeader::Key("k1".to_owned()),
            SygnalHeader::Password("pw".to_owned()),
            SygnalHeader::Username("amy".to_owned()),
        ],
        None,
    );
    assert_eq!(
        s.to_string(),
        "USERNAME: amy\r\nPASSWORD: pw\r\nKEY: k1\r\nSYGNAL_TYPE: CONNECTION_PRODUCER\r\n\r\n\r\n"
    );
}

#[test]
fn dialect_round_trip_with_body() {
    let s = SygnalData::new(
        vec![
            SygnalHeader::SygnalType(SygnalType::NewMessage),
            SygnalHeader::Username("amy".to_owned()),
            SygnalHeader::AuthStatus(AuthStatus::ACCEPTED),
            SygnalHeader::WithMessage,
            SygnalHeader::ServerMessage,
        ],
        Some("hello"),
    );
    let d = SygnalData::from_str(&s.to_string()).unwrap();
    assert_eq!(d.username.as_deref(), Some("amy"));
    assert_eq!(d.sygnal_type, Some(SygnalType::NewMessage));
    assert_eq!(d.auth_status, Some(AuthStatus::ACCEPTED));
    assert_eq!(d.message.as_deref(), Some("hello"));
    assert!(d.with_message);
    assert!(d.server_message);
    assert!(d.password.is_none());
    assert!(d.key.is_none());
}

#[test]
fn dialect_decodes_password_and_key() {
    let d = SygnalData::from_str("PASSWORD:  secret \r\nKEY: abc\r\nSYGNAL_TYPE: CONNECTION_CONSUMER\r\n\r\n")
        .unwrap();
    assert_eq!(d.password.as_deref(), Some("secret"));
    assert_eq!(d.key.as_deref(), Some("abc"));
    assert_eq!(d.sygnal_type, Some(SygnalType::ConnectionConsumer));
}

#[test]
fn dialect_rejects_the_newer_type_line() {
    let r = SygnalData::from_str("SIGNAL_TYPE: NEW_MESSAGE\r\n\r\n");
    assert!(matches!(r, Err(ParseSygnalDataError)));
}

#[test]
fn dialect_words() {
    assert_eq!(SygnalType::from_str("CONNECTION_PRODUCER"), Ok(SygnalType::ConnectionProducer));
    assert_eq!(SygnalType::from_str("CONNECTION"), Err(ParseSygnalDataError));
    assert_eq!(SygnalType::ConnectionConsumer.to_string(), "CONNECTION_CONSUMER");
    match SygnalHeader::from_str("KEY: x").unwrap() {
        SygnalHeader::Key(v) => assert_eq!(v, "x"),
        _ => panic!("key header expected"),
    }
    assert_eq!(SygnalHeader::Password("p".to_owned()).to_string(), "PASSWORD: p\r\n");
    assert!(SygnalHeader::from_str("SIGNAL_TYPE: CONNECTION").is_err());
}

#[test]
fn dialect_new_without_message_gives_empty_body() {
    let s = SygnalData::new(vec![SygnalHeader::WithMessage], None);
    assert_eq!(s.message.as_deref(), Some(""));
}
