use rgdrive::protocol::{DCommand, DResult, DSocket};

fn frame_of_text(tag: u8, text: &str) -> Vec<u8> {
    let mut v = vec![tag, 0, 0, 0];
    v.extend_from_slice(&(text.len() as u64).to_le_bytes());
    v.extend_from_slice(text.as_bytes());
    v
}

#[test]
fn result_constructors_carry_message() {
    let ok = DResult::ok("done");
    assert!(ok.is_success());
    assert_eq!(ok.message(), "done");
    let err = DResult::error("broken");
    assert!(!err.is_success());
    assert_eq!(err.message(), "broken");
}

#[test]
fn result_frame_has_enum_layout() {
    let b = DResult::ok("pong").to_bytes();
    assert_eq!(b, frame_of_text(0, "pong"));
    let b = DResult::error("no").to_bytes();
    assert_eq!(b, frame_of_text(1, "no"));
}

#[test]
fn result_round_trip() {
    for r in [DResult::ok("Pulled x successfully."), DResult::error("é ünïcode")] {
        let b = r.to_bytes();
        let back = DResult::from_bytes(&b).unwrap();
        assert_eq!(back.is_success(), r.is_success());
        assert_eq!(back.message(), r.message());
    }
}

#[test]
fn result_rejects_short_and_unknown_frames() {
    assert!(DResult::from_bytes(&[]).is_none());
    assert!(DResult::from_bytes(&[0, 0]).is_none());
    assert!(DResult::from_bytes(&frame_of_text(2, "x")).is_none());
}

#[test]
fn push_command_frame_has_enum_layout() {
    let b = DCommand::Push("/x".to_string()).to_bytes();
    assert_eq!(b, frame_of_text(1, "/x"));
}

#[test]
fn pull_command_frame_has_enum_layout() {
    let b = DCommand::Pull("u".to_string(), "/d".to_string(), true).to_bytes();
    let mut expected = frame_of_text(0, "u");
    expected.extend_from_slice(&2u64.to_le_bytes());
    expected.extend_from_slice(b"/d");
    expected.push(1);
    assert_eq!(b, expected);
}

#[test]
fn unit_command_frames_are_bare_tags() {
    assert_eq!(DCommand::Empty.to_bytes(), vec![4, 0, 0, 0]);
    assert_eq!(DCommand::Ack.to_bytes(), vec![6, 0, 0, 0]);
    assert_eq!(DCommand::Quit.to_bytes(), vec![7, 0, 0, 0]);
}

fn round_trip(c: DCommand) -> DCommand {
    let b = c.to_bytes();
    DCommand::from_bytes(&b).unwrap()
}

#[test]
fn every_command_round_trips() {
    match round_trip(DCommand::Pull("https://d/1".to_string(), "/a/f.txt".to_string(), false)) {
        DCommand::Pull(u, p, o) => {
            assert_eq!(u, "https://d/1");
            assert_eq!(p, "/a/f.txt");
            assert!(!o);
        }
        other => panic!("{:?}", other),
    }
    match round_trip(DCommand::Push("/a".to_string())) {
        DCommand::Push(p) => assert_eq!(p, "/a"),
        other => panic!("{:?}", other),
    }
    match round_trip(DCommand::FSync("/a".to_string(), "id".to_string())) {
        DCommand::FSync(p, u) => {
            assert_eq!(p, "/a");
            assert_eq!(u, "id");
        }
        other => panic!("{:?}", other),
    }
    match round_trip(DCommand::FUnSync("/a".to_string())) {
        DCommand::FUnSync(p) => assert_eq!(p, "/a"),
        other => panic!("{:?}", other),
    }
    match round_trip(DCommand::Message("hello".to_string())) {
        DCommand::Message(m) => assert_eq!(m, "hello"),
        other => panic!("{:?}", other),
    }
    assert!(matches!(round_trip(DCommand::Empty), DCommand::Empty));
    assert!(matches!(round_trip(DCommand::Ack), DCommand::Ack));
    assert!(matches!(round_trip(DCommand::Quit), DCommand::Quit));
}

#[test]
fn empty_payload_is_the_empty_command() {
    assert!(matches!(DCommand::from_bytes(&[]), Some(DCommand::Empty)));
}

#[test]
fn short_or_unknown_payload_does_not_decode() {
    assert!(DCommand::from_bytes(&[1]).is_none());
    assert!(DCommand::from_bytes(&[1, 0, 0]).is_none());
    assert!(DCommand::from_bytes(&[8, 0, 0, 0]).is_none());
    assert!(DCommand::from_bytes(&[1, 0, 0, 0, 9]).is_none());
}

#[test]
fn which_commands_expect_a_response() {
    assert!(DCommand::Message("ping me".to_string()).expects_response());
    assert!(!DCommand::Message("hello".to_string()).expects_response());
    assert!(!DCommand::Message("pin g".to_string()).expects_response());
    assert!(!DCommand::Empty.expects_response());
    assert!(!DCommand::Ack.expects_response());
    assert!(DCommand::Quit.expects_response());
    assert!(DCommand::Push("/a".to_string()).expects_response());
}

#[test]
fn socket_keeps_its_path() {
    assert_eq!(DSocket::new("/tmp/rgdrive.sock").path(), "/tmp/rgdrive.sock");
}

#[test]
fn sync_command_frame_has_enum_layout() {
    let b = DCommand::FSync("/p".to_string(), "id".to_string()).to_bytes();
    let mut expected = frame_of_text(2, "/p");
    expected.extend_from_slice(&2u64.to_le_bytes());
    expected.extend_from_slice(b"id");
    assert_eq!(b, expected);
}

#[test]
fn message_frame_has_enum_layout() {
    let b = DCommand::Message("hi".to_string()).to_bytes();
    assert_eq!(b, frame_of_text(5, "hi"));
    let b = DCommand::FUnSync("/q".to_string()).to_bytes();
    assert_eq!(b, frame_of_text(3, "/q"));
}
