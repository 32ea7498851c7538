//! The registration handshake. A peripheral connects to the coordinator,
//! sends `[register: [<name>]]` and waits for one reply; it is registered
//! if and only if that reply is the text `[OK: []]`. Nothing is tried twice.
use crate::network::tcp_command::{envelope, Verb};
use crate::network::{encode, framed, framed_view, NetworkError};
use crate::text::text_eq;
use vstd::prelude::*;
use vstd::string::*;

verus! {

/// The name under which a peripheral keeps its connection to the coordinator.
pub const COORDINATOR_NAME: &'static str = "home";

/// The reply that acknowledges a registration.
pub const ACKNOWLEDGEMENT: &'static str = "[OK: []]";

/// Where a peripheral stands in the handshake.
#[derive(Debug, Clone, Copy, PartialEq, Eq, Structural)]
pub enum PeripheralState {
    /// Nothing has happened yet.
    Disconnected,
    /// The connection to the coordinator is being opened.
    Connecting,
    /// The registration is sent and the reply is awaited.
    AwaitAck,
    /// The coordinator has acknowledged the registration.
    Registered,
    /// The handshake has failed for good, for the reason given.
    Failed(NetworkError),
}

/// What happens to a peripheral during the handshake.
#[derive(Debug, Clone, Copy, PartialEq, Eq, Structural)]
pub enum PeripheralEvent {
    /// The registration is asked for.
    Start,
    /// The connection is open.
    Connected,
    /// The connection could not be opened.
    ConnectFailed,
    /// The reply was the acknowledgement.
    Acknowledged,
    /// The reply was something else.
    Refused,
    /// The registration could not be sent, or no reply could be read.
    ReplyFailed,
}

/// What a peripheral has to do next.
#[derive(Debug, Clone, Copy, PartialEq, Eq, Structural)]
pub enum PeripheralAction {
    /// Nothing.
    Nothing,
    /// Open a connection to the coordinator's port.
    Connect,
    /// Send the registration frame, then read one reply.
    SendRegistration,
    /// Keep the connection under the coordinator's name.
    StoreConnection,
    /// Drop the connection, if there is one, and report the failure.
    GiveUp,
}

/// The state that follows `state` on `event`, and what is to be done.
/// An event that does not belong to the state changes nothing.
pub open spec fn peripheral_next(state: PeripheralState, event: PeripheralEvent) -> (
    PeripheralState,
    PeripheralAction,
) {
    match (state, event) {
        (PeripheralState::Disconnected, PeripheralEvent::Start) => (
            PeripheralState::Connecting,
            PeripheralAction::Connect,
        ),
        (PeripheralState::Connecting, PeripheralEvent::Connected) => (
            PeripheralState::AwaitAck,
            PeripheralAction::SendRegistration,
        ),
        (PeripheralState::Connecting, PeripheralEvent::ConnectFailed) => (
            PeripheralState::Failed(NetworkError::Connect),
            PeripheralAction::GiveUp,
        ),
        (PeripheralState::AwaitAck, PeripheralEvent::Acknowledged) => (
            PeripheralState::Registered,
            PeripheralAction::StoreConnection,
        ),
        (PeripheralState::AwaitAck, PeripheralEvent::Refused) => (
            PeripheralState::Failed(NetworkError::RegistrationRejected),
            PeripheralAction::GiveUp,
        ),
        (PeripheralState::AwaitAck, PeripheralEvent::ReplyFailed) => (
            PeripheralState::Failed(NetworkError::Connect),
            PeripheralAction::GiveUp,
        ),
        _ => (state, PeripheralAction::Nothing),
    }
}

/// Takes a peripheral one step through the handshake.
pub fn peripheral_step(state: PeripheralState, event: PeripheralEvent) -> (r: (
    PeripheralState,
    PeripheralAction,
))
    ensures
        r == peripheral_next(state, event),
{
    match state {
        PeripheralState::Disconnected => match event {
            PeripheralEvent::Start => (PeripheralState::Connecting, PeripheralAction::Connect),
            _ => (state, PeripheralAction::Nothing),
        },
        PeripheralState::Connecting => match event {
            PeripheralEvent::Connected => (
                PeripheralState::AwaitAck,
                PeripheralAction::SendRegistration,
            ),
            PeripheralEvent::ConnectFailed => (
                PeripheralState::Failed(NetworkError::Connect),
                PeripheralAction::GiveUp,
            ),
            _ => (state, PeripheralAction::Nothing),
        },
        PeripheralState::AwaitAck => match event {
            PeripheralEvent::Acknowledged => (
                PeripheralState::Registered,
                PeripheralAction::StoreConnection,
            ),
            PeripheralEvent::Refused => (
                PeripheralState::Failed(NetworkError::RegistrationRejected),
                PeripheralAction::GiveUp,
            ),
            PeripheralEvent::ReplyFailed => (
                PeripheralState::Failed(NetworkError::Connect),
                PeripheralAction::GiveUp,
            ),
            _ => (state, PeripheralAction::Nothing),
        },
        _ => (state, PeripheralAction::Nothing),
    }
}

/// The text with which a peripheral called `name` asks to be registered.
pub fn registration_request(name: &str) -> (r: String)
    ensures
        r@ == envelope("register"@, name@),
{
    let mut r = String::from_str("[");
    r.append("register");
    r.append(": [");
    r.append(name);
    r.append("]]");
    r
}

/// The frame with which a peripheral called `name` asks to be registered;
/// `FrameIo` where the name makes the request too long for a frame.
pub fn registration_frame(name: &str) -> (r: Result<Vec<u8>, NetworkError>)
    ensures
        framed_view(r) == framed(envelope("register"@, name@)),
{
    let request = registration_request(name);
    encode(request.as_str())
}

/// What the coordinator's reply means to a peripheral that awaits it: the
/// exact text of the acknowledgement registers, anything else refuses.
pub fn reply_event(reply: &str) -> (r: PeripheralEvent)
    ensures
        r == if reply@ == ACKNOWLEDGEMENT@ {
            PeripheralEvent::Acknowledged
        } else {
            PeripheralEvent::Refused
        },
{
    if text_eq(reply, ACKNOWLEDGEMENT) {
        PeripheralEvent::Acknowledged
    } else {
        PeripheralEvent::Refused
    }
}

/// What the attempt to read the coordinator's reply means to a peripheral
/// that awaits it. A reply that was read counts by its text; a reply whose
/// payload is not text is a reply other than the acknowledgement; a stream
/// that failed, ended or announced too much is a failure of the connection.
pub open spec fn event_of_reply(reply: Result<Seq<char>, NetworkError>) -> PeripheralEvent {
    match reply {
        Ok(text) => if text == ACKNOWLEDGEMENT@ {
            PeripheralEvent::Acknowledged
        } else {
            PeripheralEvent::Refused
        },
        Err(NetworkError::Decode) => PeripheralEvent::Refused,
        Err(_) => PeripheralEvent::ReplyFailed,
    }
}

/// The reply of a read as plain values.
pub open spec fn reply_view(reply: Result<String, NetworkError>) -> Result<
    Seq<char>,
    NetworkError,
> {
    match reply {
        Ok(text) => Ok(text@),
        Err(e) => Err(e),
    }
}

/// Turns the outcome of reading the coordinator's reply into the event of
/// the handshake.
pub fn received_event(reply: &Result<String, NetworkError>) -> (r: PeripheralEvent)
    ensures
        r == event_of_reply(reply_view(*reply)),
{
    match reply {
        Ok(text) => reply_event(text.as_str()),
        Err(NetworkError::Decode) => PeripheralEvent::Refused,
        Err(_) => PeripheralEvent::ReplyFailed,
    }
}

/// A handshake fails in two ways only: a reply other than the
/// acknowledgement rejects the registration, and every failure of the
/// connection, while it is opened, while the registration is sent or while
/// the reply is awaited, is a connection error.
pub proof fn lemma_failures(state: PeripheralState, event: PeripheralEvent)
    requires
        !(state is Failed),
        peripheral_next(state, event).0 is Failed,
    ensures
        event == PeripheralEvent::Refused ==> peripheral_next(state, event).0
            == PeripheralState::Failed(NetworkError::RegistrationRejected),
        event != PeripheralEvent::Refused ==> peripheral_next(state, event).0
            == PeripheralState::Failed(NetworkError::Connect),
        peripheral_next(state, event).1 == PeripheralAction::GiveUp,
{
}

/// What a finished handshake gives: success where the peripheral is
/// registered, the reason where the handshake failed. A handshake that is
/// still under way has no outcome yet.
pub fn outcome(state: PeripheralState) -> (r: Option<Result<(), NetworkError>>)
    ensures
        r == match state {
            PeripheralState::Registered => Some(Ok::<(), NetworkError>(())),
            PeripheralState::Failed(e) => Some(Err::<(), NetworkError>(e)),
            _ => None::<Result<(), NetworkError>>,
        },
{
    match state {
        PeripheralState::Registered => Some(Ok(())),
        PeripheralState::Failed(e) => Some(Err(e)),
        _ => None,
    }
}

/// A peripheral becomes registered in one way only: it awaits the reply,
/// and the reply is the acknowledgement. Once registered it stays so, and
/// once failed it stays failed.
pub proof fn lemma_registered_only_on_acknowledgement(
    state: PeripheralState,
    event: PeripheralEvent,
)
    ensures
        peripheral_next(state, event).0 == PeripheralState::Registered <==> state
            == PeripheralState::Registered || (state == PeripheralState::AwaitAck && event
            == PeripheralEvent::Acknowledged),
        state is Failed ==> peripheral_next(state, event).0 == state,
{
}

/// The envelope of the coordinator's `OK` without arguments is the very
/// text that a peripheral takes for the acknowledgement.
pub proof fn lemma_acknowledgement_text()
    ensures
        envelope("OK"@, ""@) == ACKNOWLEDGEMENT@,
{
    reveal_strlit("OK");
    reveal_strlit("");
    reveal_strlit("[");
    reveal_strlit(": [");
    reveal_strlit("]]");
    reveal_strlit("[OK: []]");
    assert(envelope("OK"@, ""@) =~= ACKNOWLEDGEMENT@);
}

/// Where the coordinator stands with one connection.
#[derive(Debug, Clone, Copy, PartialEq, Eq, Structural)]
pub enum CoordinatorState {
    /// The connection is accepted and has no reader yet.
    Accepted,
    /// The reader runs and no registration has come.
    AwaitFirstFrame,
    /// A registration has come and is answered.
    Acked,
}

/// The state of a connection after its reader has started.
pub open spec fn coordinator_started(state: CoordinatorState) -> CoordinatorState {
    match state {
        CoordinatorState::Accepted => CoordinatorState::AwaitFirstFrame,
        _ => state,
    }
}

/// The state of a connection after a command with the given verb has come in.
pub open spec fn coordinator_next(state: CoordinatorState, verb: Verb) -> CoordinatorState {
    match (state, verb) {
        (CoordinatorState::AwaitFirstFrame, Verb::Register) => CoordinatorState::Acked,
        _ => state,
    }
}

/// Notes that the reader of a connection has started.
pub fn coordinator_start(state: CoordinatorState) -> (r: CoordinatorState)
    ensures
        r == coordinator_started(state),
{
    match state {
        CoordinatorState::Accepted => CoordinatorState::AwaitFirstFrame,
        _ => state,
    }
}

/// Notes that a command with the given verb has come in on a connection.
pub fn coordinator_step(state: CoordinatorState, verb: Verb) -> (r: CoordinatorState)
    ensures
        r == coordinator_next(state, verb),
{
    match state {
        CoordinatorState::AwaitFirstFrame => match verb {
            Verb::Register => CoordinatorState::Acked,
            _ => state,
        },
        _ => state,
    }
}

} // verus!
