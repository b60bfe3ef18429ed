use messages::codec::{Command, Message, User};
use messages::framing::{decode_frame, encode_frame, DecodeError, FrameBuffer};

#[test]
fn encode_frame_is_text_plus_terminator() {
    let frame = encode_frame(&Command::Connect(User::new(String::from("alice"))));
    assert_eq!(frame, b"Connect|alice\n");
}

#[test]
fn buffer_splits_batched_writes() {
    let mut buf = FrameBuffer::new();
    buf.push_chunk(b"Connect|alice\nMsg|alice|bob|hi\n");
    assert_eq!(buf.next_frame(), Some(b"Connect|alice".to_vec()));
    assert_eq!(buf.next_frame(), Some(b"Msg|alice|bob|hi".to_vec()));
    assert_eq!(buf.next_frame(), None);
}

#[test]
fn buffer_reassembles_partial_reads() {
    let mut buf = FrameBuffer::new();
    buf.push_chunk(b"Conn");
    assert_eq!(buf.next_frame(), None);
    buf.push_chunk(b"ect|alice\nMsg|a");
    assert_eq!(buf.next_frame(), Some(b"Connect|alice".to_vec()));
    assert_eq!(buf.next_frame(), None);
    buf.push_chunk(b"lice|bob|hi\n");
    assert_eq!(buf.next_frame(), Some(b"Msg|alice|bob|hi".to_vec()));
}

#[test]
fn buffer_keeps_empty_frame_distinct() {
    let mut buf = FrameBuffer::new();
    buf.push_chunk(b"\n");
    assert_eq!(buf.next_frame(), Some(Vec::new()));
    assert_eq!(buf.next_frame(), None);
}

#[test]
fn frame_round_trip_through_bytes() {
    let sent = Command::Msg(Message {
        sender: String::from("ålice"),
        receiver: String::from("bob"),
        message: String::from("héllo|wörld"),
    });
    let mut wire = encode_frame(&sent);
    assert_eq!(wire.pop(), Some(b'\n'));
    match decode_frame(&wire) {
        Ok(Command::Msg(m)) => {
            assert_eq!(m.sender, "ålice");
            assert_eq!(m.receiver, "bob");
            assert_eq!(m.message, "héllo|wörld");
        }
        _ => panic!("expected the Msg back"),
    }
}

#[test]
fn decode_frame_rejects_invalid_text() {
    match decode_frame(&[0xff, 0xfe, b'A']) {
        Err(DecodeError::Encoding) => {}
        _ => panic!("expected an encoding error"),
    }
}

#[test]
fn decode_frame_rejects_bad_grammar() {
    match decode_frame(b"Bogus|x") {
        Err(DecodeError::Parse) => {}
        _ => panic!("expected a parse error"),
    }
}
