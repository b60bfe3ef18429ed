use messages::codec::{decode, Command, Message, User};
use messages::framing::DecodeError;
use messages::registry::Registry;
use messages::session::{step, Action, Session, SessionEvent, SessionState};

fn connect(name: &str) -> SessionEvent {
    SessionEvent::Frame(Command::Connect(User::new(String::from(name))))
}

fn msg(sender: &str, receiver: &str, body: &str) -> SessionEvent {
    SessionEvent::Frame(Command::Msg(Message {
        sender: String::from(sender),
        receiver: String::from(receiver),
        message: String::from(body),
    }))
}

#[test]
fn connect_registers_and_sends_nothing() {
    let mut reg = Registry::new();
    let mut alice = Session::new(1);
    let out = step(&mut reg, &mut alice, connect("alice"));
    assert!(out.is_none());
    assert!(matches!(alice.state, SessionState::Registered(_)));
    assert_eq!(reg.lookup(&User::new(String::from("alice"))), Some(1));
}

#[test]
fn duplicate_connect_rejected_first_handle_kept() {
    let mut reg = Registry::new();
    let mut first = Session::new(1);
    let mut second = Session::new(2);
    assert!(step(&mut reg, &mut first, connect("alice")).is_none());
    match step(&mut reg, &mut second, connect("alice")) {
        Some(Action::Reply(s)) => assert_eq!(s, "Err|already-registered"),
        _ => panic!("expected a rejection reply"),
    }
    assert!(matches!(second.state, SessionState::Closed));
    assert_eq!(reg.lookup(&User::new(String::from("alice"))), Some(1));
}

#[test]
fn msg_routed_to_receiver_connection() {
    let mut reg = Registry::new();
    let mut alice = Session::new(1);
    let mut bob = Session::new(2);
    assert!(step(&mut reg, &mut alice, connect("alice")).is_none());
    assert!(step(&mut reg, &mut bob, connect("bob")).is_none());
    match step(&mut reg, &mut alice, msg("alice", "bob", "hello")) {
        Some(Action::Forward(conn, frame)) => {
            assert_eq!(conn, 2);
            match decode(&frame) {
                Ok(Command::Msg(m)) => {
                    assert_eq!(m.sender, "alice");
                    assert_eq!(m.receiver, "bob");
                    assert_eq!(m.message, "hello");
                }
                _ => panic!("forwarded frame must decode as the Msg"),
            }
        }
        _ => panic!("expected the message to be forwarded"),
    }
    assert!(matches!(alice.state, SessionState::Registered(_)));
}

#[test]
fn msg_to_unknown_recipient_reports_failure_to_sender() {
    let mut reg = Registry::new();
    let mut alice = Session::new(1);
    assert!(step(&mut reg, &mut alice, connect("alice")).is_none());
    match step(&mut reg, &mut alice, msg("alice", "carol", "hi")) {
        Some(Action::Reply(s)) => assert_eq!(s, "Err|delivery-failed|carol"),
        _ => panic!("expected a delivery-failure reply, and no forward"),
    }
    assert!(matches!(alice.state, SessionState::Registered(_)));
}

#[test]
fn disconnect_unregisters_and_frees_the_name() {
    let mut reg = Registry::new();
    let mut alice = Session::new(1);
    assert!(step(&mut reg, &mut alice, connect("alice")).is_none());
    assert!(step(&mut reg, &mut alice, SessionEvent::Disconnected).is_none());
    assert!(matches!(alice.state, SessionState::Closed));
    assert_eq!(reg.lookup(&User::new(String::from("alice"))), None);
    let mut again = Session::new(3);
    assert!(step(&mut reg, &mut again, connect("alice")).is_none());
    assert_eq!(reg.lookup(&User::new(String::from("alice"))), Some(3));
}

#[test]
fn msg_before_connect_closes_session() {
    let mut reg = Registry::new();
    let mut s = Session::new(1);
    match step(&mut reg, &mut s, msg("a", "b", "hi")) {
        Some(Action::Reply(text)) => assert_eq!(text, "Err|must-connect"),
        _ => panic!("expected a rejection reply"),
    }
    assert!(matches!(s.state, SessionState::Closed));
}

#[test]
fn second_connect_closes_and_unregisters() {
    let mut reg = Registry::new();
    let mut alice = Session::new(1);
    assert!(step(&mut reg, &mut alice, connect("alice")).is_none());
    match step(&mut reg, &mut alice, connect("alice2")) {
        Some(Action::Reply(s)) => assert_eq!(s, "Err|already-connected"),
        _ => panic!("expected a rejection reply"),
    }
    assert!(matches!(alice.state, SessionState::Closed));
    assert_eq!(reg.lookup(&User::new(String::from("alice"))), None);
}

#[test]
fn parse_error_reported_session_goes_on() {
    let mut reg = Registry::new();
    let mut alice = Session::new(1);
    assert!(step(&mut reg, &mut alice, connect("alice")).is_none());
    match step(&mut reg, &mut alice, SessionEvent::Malformed(DecodeError::Parse)) {
        Some(Action::Reply(s)) => assert_eq!(s, "Err|malformed"),
        _ => panic!("expected a malformed-command reply"),
    }
    assert!(matches!(alice.state, SessionState::Registered(_)));
    assert_eq!(reg.lookup(&User::new(String::from("alice"))), Some(1));
}

#[test]
fn encoding_error_closes_and_unregisters() {
    let mut reg = Registry::new();
    let mut alice = Session::new(1);
    assert!(step(&mut reg, &mut alice, connect("alice")).is_none());
    assert!(step(&mut reg, &mut alice, SessionEvent::Malformed(DecodeError::Encoding)).is_none());
    assert!(matches!(alice.state, SessionState::Closed));
    assert_eq!(reg.lookup(&User::new(String::from("alice"))), None);
}

#[test]
fn transport_failure_closes_only_that_session() {
    let mut reg = Registry::new();
    let mut alice = Session::new(1);
    let mut bob = Session::new(2);
    assert!(step(&mut reg, &mut alice, connect("alice")).is_none());
    assert!(step(&mut reg, &mut bob, connect("bob")).is_none());
    assert!(step(&mut reg, &mut alice, SessionEvent::TransportFailed).is_none());
    assert!(matches!(alice.state, SessionState::Closed));
    assert!(matches!(bob.state, SessionState::Registered(_)));
    assert_eq!(reg.lookup(&User::new(String::from("bob"))), Some(2));
}

#[test]
fn closed_session_ignores_events() {
    let mut reg = Registry::new();
    let mut s = Session::new(1);
    assert!(step(&mut reg, &mut s, SessionEvent::Disconnected).is_none());
    assert!(step(&mut reg, &mut s, connect("late")).is_none());
    assert!(matches!(s.state, SessionState::Closed));
    assert_eq!(reg.lookup(&User::new(String::from("late"))), None);
}
