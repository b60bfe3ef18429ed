//! The per-connection state machine of the server loop.
//!
//! Each accepted connection runs one [`Session`] through the states
//! `AwaitingConnect -> Registered -> Closed`. Every transport observation —
//! a decoded frame, a frame that failed to decode, a disconnect, an I/O
//! failure — is a [`SessionEvent`], and [`step`] is the single pure
//! decision point: it updates the session and the shared [`Registry`] and
//! says what, if anything, must be written and to whom. The surrounding
//! I/O code only reads, writes and feeds events back in.

use vstd::prelude::*;

use crate::codec::Command;
use crate::codec::CommandModel;
use crate::codec::User;
use crate::codec::delim_free;
use crate::codec::encode;
use crate::codec::lemma_decode_encode;
use crate::codec::lemma_find_delim_at;
use crate::codec::spec_decode;
use crate::codec::spec_encode;
use crate::framing::DecodeError;
use crate::registry::Registry;

verus! {

/// Where one connection stands in its lifecycle.
#[derive(Debug)]
pub enum SessionState {
    /// Nothing accepted yet; the only valid command is `Connect`.
    AwaitingConnect,
    /// The connection registered this user; the only valid commands are
    /// `Msg`.
    Registered(User),
    /// Terminal: the connection is gone or broke the protocol.
    Closed,
}

/// The mathematical value of a [`SessionState`].
pub ghost enum SessionStateModel {
    AwaitingConnect,
    Registered { username: Seq<char> },
    Closed,
}

impl View for SessionState {
    type V = SessionStateModel;

    open spec fn view(&self) -> SessionStateModel {
        match self {
            SessionState::AwaitingConnect => SessionStateModel::AwaitingConnect,
            SessionState::Registered(u) => SessionStateModel::Registered { username: u.0@ },
            SessionState::Closed => SessionStateModel::Closed,
        }
    }
}

/// One client connection as the server tracks it: its plain connection
/// handle and its protocol state.
#[derive(Debug)]
pub struct Session {
    pub conn: u64,
    pub state: SessionState,
}

impl Session {
    /// A freshly accepted connection, waiting for its `Connect`.
    pub fn new(conn: u64) -> (r: Self)
        ensures
            r.conn == conn,
            r.state@ is AwaitingConnect,
    {
        Session { conn, state: SessionState::AwaitingConnect }
    }
}

/// One observation on a session's connection, handed to [`step`].
#[derive(Debug)]
pub enum SessionEvent {
    /// A whole frame arrived and decoded to this command.
    Frame(Command),
    /// A whole frame arrived but did not decode.
    Malformed(DecodeError),
    /// The peer closed the connection (a zero-byte read).
    Disconnected,
    /// The transport failed with an I/O error.
    TransportFailed,
}

/// The mathematical value of a [`SessionEvent`].
pub ghost enum SessionEventModel {
    Frame { command: CommandModel },
    Malformed { error: DecodeError },
    Disconnected,
    TransportFailed,
}

impl View for SessionEvent {
    type V = SessionEventModel;

    open spec fn view(&self) -> SessionEventModel {
        match self {
            SessionEvent::Frame(c) => SessionEventModel::Frame { command: c@ },
            SessionEvent::Malformed(e) => SessionEventModel::Malformed { error: *e },
            SessionEvent::Disconnected => SessionEventModel::Disconnected,
            SessionEvent::TransportFailed => SessionEventModel::TransportFailed,
        }
    }
}

/// An error or status report sent back to a connection. Its frames carry
/// the tag `Err`, so they cannot be mistaken for `Connect` or `Msg`
/// frames.
#[derive(Debug)]
pub enum Response {
    /// The requested username is already bound to a live connection.
    AlreadyRegistered,
    /// The last frame did not parse as a command.
    Malformed,
    /// A `Msg` arrived before the session registered a user.
    MustConnect,
    /// A second `Connect` arrived on a session that already registered.
    AlreadyConnected,
    /// The receiver named by a `Msg` is not registered.
    DeliveryFailed(String),
}

/// The mathematical value of a [`Response`].
pub ghost enum ResponseModel {
    AlreadyRegistered,
    Malformed,
    MustConnect,
    AlreadyConnected,
    DeliveryFailed { receiver: Seq<char> },
}

impl View for Response {
    type V = ResponseModel;

    open spec fn view(&self) -> ResponseModel {
        match self {
            Response::AlreadyRegistered => ResponseModel::AlreadyRegistered,
            Response::Malformed => ResponseModel::Malformed,
            Response::MustConnect => ResponseModel::MustConnect,
            Response::AlreadyConnected => ResponseModel::AlreadyConnected,
            Response::DeliveryFailed(r) => ResponseModel::DeliveryFailed { receiver: r@ },
        }
    }
}

/// The frame text that reports a response.
pub open spec fn spec_encode_response(r: ResponseModel) -> Seq<char> {
    match r {
        ResponseModel::AlreadyRegistered => "Err|already-registered"@,
        ResponseModel::Malformed => "Err|malformed"@,
        ResponseModel::MustConnect => "Err|must-connect"@,
        ResponseModel::AlreadyConnected => "Err|already-connected"@,
        ResponseModel::DeliveryFailed { receiver } => "Err|delivery-failed|"@ + receiver,
    }
}

/// Encodes a response as its `Err`-tagged frame text.
pub fn encode_response(r: &Response) -> (out: String)
    ensures
        out@ == spec_encode_response(r@),
{
    match r {
        Response::AlreadyRegistered => String::from_str("Err|already-registered"),
        Response::Malformed => String::from_str("Err|malformed"),
        Response::MustConnect => String::from_str("Err|must-connect"),
        Response::AlreadyConnected => String::from_str("Err|already-connected"),
        Response::DeliveryFailed(who) => {
            let mut s = String::from_str("Err|delivery-failed|");
            s.append(who.as_str());
            s
        },
    }
}

/// What the server loop must do after one step.
#[derive(Debug)]
pub enum Action {
    /// Write this frame text back to this session's own connection.
    Reply(String),
    /// Write this frame text to the connection with this handle.
    Forward(u64, String),
}

/// The mathematical value of an [`Action`].
pub ghost enum ActionModel {
    Reply { frame: Seq<char> },
    Forward { conn: u64, frame: Seq<char> },
}

impl View for Action {
    type V = ActionModel;

    open spec fn view(&self) -> ActionModel {
        match self {
            Action::Reply(s) => ActionModel::Reply { frame: s@ },
            Action::Forward(conn, s) => ActionModel::Forward { conn: *conn, frame: s@ },
        }
    }
}

/// The view of a step's optional action.
pub open spec fn action_view(a: Option<Action>) -> Option<ActionModel> {
    match a {
        Some(x) => Some(x@),
        None => None,
    }
}

/// Everything one step decides: the registry afterwards, the session state
/// afterwards, and the action owed to the transport.
pub ghost struct StepOutcome {
    pub registry: Map<Seq<char>, u64>,
    pub state: SessionStateModel,
    pub action: Option<ActionModel>,
}

/// The transition relation of the server loop, one session step at a time.
///
/// - `AwaitingConnect`: a `Connect` for a free username registers it and
///   moves to `Registered`; for a taken username it is rejected and the
///   session closes. A `Msg` here is a protocol violation: rejected,
///   session closed.
/// - `Registered`: a `Msg` to a registered receiver is forwarded, encoded,
///   to that receiver's connection; to an unknown receiver it earns a
///   delivery-failure report back to the sender. A second `Connect` is a
///   protocol violation: rejected, session closed.
/// - A frame that fails to parse is reported back and the session goes on;
///   bytes that are not valid text close the session, as do a disconnect
///   and a transport failure.
/// - Whenever the session closes after registering, its username leaves
///   the registry.
/// - `Closed` is terminal: nothing changes, nothing is sent.
pub open spec fn spec_step(
    reg: Map<Seq<char>, u64>,
    conn: u64,
    st: SessionStateModel,
    ev: SessionEventModel,
) -> StepOutcome {
    match st {
        SessionStateModel::Closed => StepOutcome { registry: reg, state: st, action: None },
        SessionStateModel::AwaitingConnect => match ev {
            SessionEventModel::Frame { command } => match command {
                CommandModel::Connect { username } => if reg.contains_key(username) {
                    StepOutcome {
                        registry: reg,
                        state: SessionStateModel::Closed,
                        action: Some(
                            ActionModel::Reply {
                                frame: spec_encode_response(ResponseModel::AlreadyRegistered),
                            },
                        ),
                    }
                } else {
                    StepOutcome {
                        registry: reg.insert(username, conn),
                        state: SessionStateModel::Registered { username },
                        action: None,
                    }
                },
                CommandModel::Msg { .. } => StepOutcome {
                    registry: reg,
                    state: SessionStateModel::Closed,
                    action: Some(
                        ActionModel::Reply {
                            frame: spec_encode_response(ResponseModel::MustConnect),
                        },
                    ),
                },
            },
            SessionEventModel::Malformed { error } => match error {
                DecodeError::Parse => StepOutcome {
                    registry: reg,
                    state: st,
                    action: Some(
                        ActionModel::Reply { frame: spec_encode_response(ResponseModel::Malformed) },
                    ),
                },
                DecodeError::Encoding => StepOutcome {
                    registry: reg,
                    state: SessionStateModel::Closed,
                    action: None,
                },
            },
            SessionEventModel::Disconnected => StepOutcome {
                registry: reg,
                state: SessionStateModel::Closed,
                action: None,
            },
            SessionEventModel::TransportFailed => StepOutcome {
                registry: reg,
                state: SessionStateModel::Closed,
                action: None,
            },
        },
        SessionStateModel::Registered { username } => match ev {
            SessionEventModel::Frame { command } => match command {
                CommandModel::Connect { .. } => StepOutcome {
                    registry: reg.remove(username),
                    state: SessionStateModel::Closed,
                    action: Some(
                        ActionModel::Reply {
                            frame: spec_encode_response(ResponseModel::AlreadyConnected),
                        },
                    ),
                },
                CommandModel::Msg { sender, receiver, message } => if reg.contains_key(receiver) {
                    StepOutcome {
                        registry: reg,
                        state: st,
                        action: Some(
                            ActionModel::Forward {
                                conn: reg[receiver],
                                frame: spec_encode(
                                    CommandModel::Msg { sender, receiver, message },
                                ),
                            },
                        ),
                    }
                } else {
                    StepOutcome {
                        registry: reg,
                        state: st,
                        action: Some(
                            ActionModel::Reply {
                                frame: spec_encode_response(
                                    ResponseModel::DeliveryFailed { receiver },
                                ),
                            },
                        ),
                    }
                },
            },
            SessionEventModel::Malformed { error } => match error {
                DecodeError::Parse => StepOutcome {
                    registry: reg,
                    state: st,
                    action: Some(
                        ActionModel::Reply { frame: spec_encode_response(ResponseModel::Malformed) },
                    ),
                },
                DecodeError::Encoding => StepOutcome {
                    registry: reg.remove(username),
                    state: SessionStateModel::Closed,
                    action: None,
                },
            },
            SessionEventModel::Disconnected => StepOutcome {
                registry: reg.remove(username),
                state: SessionStateModel::Closed,
                action: None,
            },
            SessionEventModel::TransportFailed => StepOutcome {
                registry: reg.remove(username),
                state: SessionStateModel::Closed,
                action: None,
            },
        },
    }
}

/// Carries out entry into the `Closed` state: the session user's registry
/// binding, if it registered one, is dropped.
fn close_session(registry: &mut Registry, session: &mut Session)
    requires
        old(registry).wf(),
    ensures
        final(registry).wf(),
        final(session).conn == old(session).conn,
        final(session).state@ is Closed,
        final(registry)@ == match old(session).state@ {
            SessionStateModel::Registered { username } => old(registry)@.remove(username),
            _ => old(registry)@,
        },
{
    match &session.state {
        SessionState::Registered(u) => {
            registry.unregister(u);
        },
        _ => {},
    }
    session.state = SessionState::Closed;
}

/// Runs one step of the server loop for one session: exactly the
/// transition [`spec_step`] describes, on the live registry and session.
pub fn step(registry: &mut Registry, session: &mut Session, event: SessionEvent) -> (out: Option<
    Action,
>)
    requires
        old(registry).wf(),
    ensures
        final(registry).wf(),
        final(session).conn == old(session).conn,
        ({
            let o = spec_step(old(registry)@, old(session).conn, old(session).state@, event@);
            &&& final(registry)@ == o.registry
            &&& final(session).state@ == o.state
            &&& action_view(out) == o.action
        }),
{
    let conn = session.conn;
    match event {
        SessionEvent::Frame(command) => match command {
            Command::Connect(user) => match &session.state {
                SessionState::AwaitingConnect => {
                    let registered = User::new(user.0.clone());
                    match registry.register(user, conn) {
                        Ok(()) => {
                            session.state = SessionState::Registered(registered);
                            None
                        },
                        Err(_) => {
                            session.state = SessionState::Closed;
                            Some(Action::Reply(encode_response(&Response::AlreadyRegistered)))
                        },
                    }
                },
                SessionState::Registered(_) => {
                    close_session(registry, session);
                    Some(Action::Reply(encode_response(&Response::AlreadyConnected)))
                },
                SessionState::Closed => None,
            },
            Command::Msg(m) => match &session.state {
                SessionState::AwaitingConnect => {
                    session.state = SessionState::Closed;
                    Some(Action::Reply(encode_response(&Response::MustConnect)))
                },
                SessionState::Registered(_) => {
                    let receiver = User::new(m.receiver.clone());
                    match registry.lookup(&receiver) {
                        Some(target) => Some(
                            Action::Forward(target, encode(&Command::Msg(m))),
                        ),
                        None => Some(
                            Action::Reply(
                                encode_response(&Response::DeliveryFailed(m.receiver)),
                            ),
                        ),
                    }
                },
                SessionState::Closed => None,
            },
        },
        SessionEvent::Malformed(e) => match e {
            DecodeError::Parse => match &session.state {
                SessionState::Closed => None,
                _ => Some(Action::Reply(encode_response(&Response::Malformed))),
            },
            DecodeError::Encoding => {
                close_session(registry, session);
                None
            },
        },
        SessionEvent::Disconnected => {
            close_session(registry, session);
            None
        },
        SessionEvent::TransportFailed => {
            close_session(registry, session);
            None
        },
    }
}

/// Responses cannot be mistaken for commands: no response frame parses as
/// a `Connect` or a `Msg`, because the `Err` tag is not a command tag.
pub proof fn lemma_response_distinguishable(r: ResponseModel)
    ensures
        spec_decode(spec_encode_response(r)) is None,
{
    reveal_strlit("Err");
    reveal_strlit("Err|already-registered");
    reveal_strlit("Err|malformed");
    reveal_strlit("Err|must-connect");
    reveal_strlit("Err|already-connected");
    reveal_strlit("Err|delivery-failed|");
    reveal_strlit("Connect");
    reveal_strlit("Msg");
    let s = spec_encode_response(r);
    assert(forall|j: int| 0 <= j < 3 ==> s[j] != '|');
    assert(s[3] == '|');
    lemma_find_delim_at(s, 0, 3);
    let tag = s.subrange(0, 3);
    assert(tag =~= "Err"@);
    assert(tag.len() == 3 && "Connect"@.len() == 7);
    assert(tag[0] == 'E' && "Msg"@[0] == 'M');
    assert(tag != "Connect"@);
    assert(tag != "Msg"@);
}

/// Routing: while a session is registered, a message to a registered
/// receiver changes neither the registry nor the session; it is forwarded,
/// encoded, to the receiver's own connection handle, and the forwarded
/// frame decodes back to the very message that was sent — same sender,
/// same receiver, same body.
pub proof fn lemma_msg_routed(
    reg: Map<Seq<char>, u64>,
    conn: u64,
    me: Seq<char>,
    sender: Seq<char>,
    receiver: Seq<char>,
    message: Seq<char>,
)
    requires
        reg.contains_key(receiver),
        delim_free(sender),
        delim_free(receiver),
    ensures
        ({
            let m = CommandModel::Msg { sender, receiver, message };
            let o = spec_step(
                reg,
                conn,
                SessionStateModel::Registered { username: me },
                SessionEventModel::Frame { command: m },
            );
            &&& o.registry == reg
            &&& o.state == SessionStateModel::Registered { username: me }
            &&& o.action == Some(
                ActionModel::Forward { conn: reg[receiver], frame: spec_encode(m) },
            )
            &&& spec_decode(spec_encode(m)) == Some(m)
        }),
{
    lemma_decode_encode(CommandModel::Msg { sender, receiver, message });
}

/// Unknown recipient: a message to an unregistered receiver earns the
/// sender a delivery-failure report; nothing is forwarded to any other
/// connection, and neither the registry nor the session changes.
pub proof fn lemma_msg_unknown_recipient(
    reg: Map<Seq<char>, u64>,
    conn: u64,
    me: Seq<char>,
    sender: Seq<char>,
    receiver: Seq<char>,
    message: Seq<char>,
)
    requires
        !reg.contains_key(receiver),
    ensures
        ({
            let o = spec_step(
                reg,
                conn,
                SessionStateModel::Registered { username: me },
                SessionEventModel::Frame {
                    command: CommandModel::Msg { sender, receiver, message },
                },
            );
            &&& o.registry == reg
            &&& o.state == SessionStateModel::Registered { username: me }
            &&& o.action == Some(
                ActionModel::Reply {
                    frame: spec_encode_response(ResponseModel::DeliveryFailed { receiver }),
                },
            )
            &&& !(o.action matches Some(ActionModel::Forward { .. }))
        }),
{
}

/// Disconnect cleanup: when a registered session's connection closes, its
/// username leaves the registry — a lookup no longer finds it — and a new
/// connection may then register the same username successfully.
pub proof fn lemma_disconnect_cleanup(
    reg: Map<Seq<char>, u64>,
    conn: u64,
    me: Seq<char>,
    conn2: u64,
)
    ensures
        ({
            let o = spec_step(
                reg,
                conn,
                SessionStateModel::Registered { username: me },
                SessionEventModel::Disconnected,
            );
            &&& o.registry == reg.remove(me)
            &&& !o.registry.contains_key(me)
            &&& o.state is Closed
            &&& o.action is None
            &&& ({
                let o2 = spec_step(
                    o.registry,
                    conn2,
                    SessionStateModel::AwaitingConnect,
                    SessionEventModel::Frame {
                        command: CommandModel::Connect { username: me },
                    },
                );
                &&& o2.registry == o.registry.insert(me, conn2)
                &&& o2.state == SessionStateModel::Registered { username: me }
                &&& o2.action is None
            })
        }),
{
}

} // verus!
