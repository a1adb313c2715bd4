use chat_broker::reader::{FrameReader, ReadEvent, ReadOutcome};

fn feed(r: &mut FrameReader, line: &str) -> ReadOutcome {
    r.on_event(ReadEvent::Line(line.to_owned()))
}

#[test]
fn header_only_frame_ends_at_blank_lines() {
    let mut r = FrameReader::new(None);
    assert!(matches!(feed(&mut r, "SIGNAL_TYPE: CONNECTION\r\n"), ReadOutcome::Pending));
    assert!(matches!(feed(&mut r, "USERNAME: a\r\n"), ReadOutcome::Pending));
    match feed(&mut r, "\r\n") {
        ReadOutcome::Frame(f) => assert_eq!(f, "SIGNAL_TYPE: CONNECTION\r\nUSERNAME: a\r\n\r\n"),
        _ => panic!("frame expected"),
    }
}

#[test]
fn frame_with_body_waits_for_second_terminator() {
    let mut r = FrameReader::new(None);
    let lines = [
        "SIGNAL_TYPE: NEW_MESSAGE\r\n",
        "WITH_MESSAGE\r\n",
        "\r\n",
        "first\r\n",
        "second\r\n",
    ];
    for l in lines.iter() {
        assert!(matches!(feed(&mut r, l), ReadOutcome::Pending));
    }
    match feed(&mut r, "\r\n") {
        ReadOutcome::Frame(f) => assert_eq!(
            f,
            "SIGNAL_TYPE: NEW_MESSAGE\r\nWITH_MESSAGE\r\n\r\nfirst\r\nsecond\r\n\r\n"
        ),
        _ => panic!("frame expected"),
    }
    assert!(matches!(feed(&mut r, "SIGNAL_TYPE: CONNECTION\r\n"), ReadOutcome::Pending));
    match feed(&mut r, "\r\n") {
        ReadOutcome::Frame(f) => assert_eq!(f, "SIGNAL_TYPE: CONNECTION\r\n\r\n"),
        _ => panic!("the reader starts a new frame"),
    }
}

#[test]
fn retries_are_bounded() {
    let mut r = FrameReader::new(Some(3));
    assert!(matches!(r.on_event(ReadEvent::WouldBlock), ReadOutcome::Pending));
    assert!(matches!(r.on_event(ReadEvent::WouldBlock), ReadOutcome::Pending));
    assert!(matches!(r.on_event(ReadEvent::WouldBlock), ReadOutcome::Aborted));
}

#[test]
fn unbounded_reader_keeps_waiting() {
    let mut r = FrameReader::new(None);
    for _ in 0..1000 {
        assert!(matches!(r.on_event(ReadEvent::WouldBlock), ReadOutcome::Pending));
    }
}

#[test]
fn closed_and_failed_streams() {
    let mut r = FrameReader::new(Some(25));
    assert!(matches!(r.on_event(ReadEvent::Closed), ReadOutcome::ClosedByPeer));
    assert!(matches!(r.on_event(ReadEvent::Failed), ReadOutcome::Broken));
}
