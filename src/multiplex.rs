use vstd::prelude::*;
use crate::correlator::{slot_index, Correlator};
use crate::error::{janus_error_of, Error, JanusError};
use crate::janus_id::U63;
use crate::protocol::{
    GenericEvent, JaHandleEvent, JaResponse, JaSuccessProtocol, JsonValue, PluginData,
    PluginInnerData, ResponseType,
};

verus! {

/// What a request waits for.
#[derive(Clone, Copy, PartialEq, Eq, Debug, Structural)]
pub enum WaitMode {
    /// The first frame of the transaction, whatever it is.
    Ack,
    /// The first terminal frame of the transaction; an interim `ack` is
    /// swallowed.
    Response,
}

/// What a waiting request does with a frame of its transaction.
#[derive(Clone, Copy, PartialEq, Eq, Debug, Structural)]
pub enum WaitStep {
    /// The frame answers the request.
    Resolve,
    /// The frame is passed over and the wait goes on.
    Continue,
}

/// A frame that ends a wait for a response: `success`, `error`, a plugin
/// result, or the server information that `info` asks for.
pub open spec fn is_terminal(janus: ResponseType) -> bool {
    match janus {
        ResponseType::Success(_) => true,
        ResponseType::Error { .. } => true,
        ResponseType::ServerInfo => true,
        ResponseType::Event(JaHandleEvent::PluginEvent { .. }) => true,
        _ => false,
    }
}

/// Decides whether a frame of its transaction answers a waiting request.
pub fn wait_step(mode: WaitMode, frame: &JaResponse) -> (r: WaitStep)
    ensures
        r == (if mode == WaitMode::Ack || is_terminal(frame.janus) {
            WaitStep::Resolve
        } else {
            WaitStep::Continue
        }),
{
    match mode {
        WaitMode::Ack => WaitStep::Resolve,
        WaitMode::Response => match &frame.janus {
            ResponseType::Success(_) => WaitStep::Resolve,
            ResponseType::Error { .. } => WaitStep::Resolve,
            ResponseType::ServerInfo => WaitStep::Resolve,
            ResponseType::Event(JaHandleEvent::PluginEvent { .. }) => WaitStep::Resolve,
            _ => WaitStep::Continue,
        },
    }
}

/// What the receive loop does with an inbound frame.
#[derive(Clone, Copy, PartialEq, Eq, Debug, Structural)]
pub struct Dispatch {
    /// Complete the slot of the frame's transaction.
    pub complete: bool,
    /// Publish the frame on the route of its session or handle.
    pub route: bool,
}

/// Decides what the receive loop does with `frame`, given the registered
/// transactions, each with what it waits for: the slot of the frame's
/// transaction is completed where the frame answers it (an interim `ack`
/// does not answer a wait for a response), and the frame is routed where it
/// is an event (of a plugin, of a handle or of a session). A frame for which
/// neither holds is dropped.
pub fn dispatch<S>(frame: &JaResponse, correlator: &Correlator<(WaitMode, S)>) -> (r: Dispatch)
    requires
        correlator.wf(),
    ensures
        r.complete == (frame.transaction matches Some(t) && slot_index(correlator.slots(), t@)
            >= 0 && ({
            let mode = correlator.slots()[slot_index(correlator.slots(), t@)].1.0;
            mode == WaitMode::Ack || is_terminal(frame.janus)
        })),
        r.route == (frame.janus is Event),
{
    let complete = match &frame.transaction {
        Some(t) => match correlator.get(t.as_str()) {
            Some(slot) => wait_step(slot.0, frame) == WaitStep::Resolve,
            None => false,
        },
        None => false,
    };
    let route = match &frame.janus {
        ResponseType::Event(_) => true,
        _ => false,
    };
    Dispatch { complete, route }
}

/// The error that a Janus `error` frame stands for.
pub fn janus_error(code: u16, reason: String) -> (r: Error)
    ensures
        r matches Error::JanusError { error, reason: text } && error == janus_error_of(code)
            && text == reason,
{
    Error::JanusError { error: JanusError::from(code), reason }
}

/// Reads the id of a created session or an attached handle from the reply:
/// `data.id` of a `success`, which must fit in 63 bits.
pub fn decode_id(frame: JaResponse) -> (r: Result<U63, Error>)
    ensures
        match frame.janus {
            ResponseType::Success(JaSuccessProtocol::Data { id }) => if id <= U63::MAX {
                r is Ok && r->Ok_0.spec_inner() == id && r->Ok_0.wf()
            } else {
                r matches Err(Error::UnexpectedResponse)
            },
            ResponseType::Error { code, reason } => r matches Err(
                Error::JanusError { error, reason: text },
            ) && error == janus_error_of(code) && text == reason,
            _ => r matches Err(Error::UnexpectedResponse),
        },
{
    match frame.janus {
        ResponseType::Success(JaSuccessProtocol::Data { id }) => match U63::from_u64(id) {
            Some(id) => Ok(id),
            None => Err(Error::UnexpectedResponse),
        },
        ResponseType::Error { code, reason } => Err(janus_error(code, reason)),
        _ => Err(Error::UnexpectedResponse),
    }
}

/// The outcome of a plugin's answer: its data, or the error it reported.
pub fn plugin_outcome(plugin_data: PluginData) -> (r: Result<JsonValue, Error>)
    ensures
        match plugin_data.data {
            PluginInnerData::Data(v) => r == Ok::<JsonValue, Error>(v),
            PluginInnerData::Error { error_code, error } => r matches Err(
                Error::PluginResponseError { error_code: c, error: e },
            ) && c == error_code && e == error,
        },
{
    match plugin_data.data {
        PluginInnerData::Data(v) => Ok(v),
        PluginInnerData::Error { error_code, error } => Err(
            Error::PluginResponseError { error_code, error },
        ),
    }
}

/// Reads the answer of a plugin from the terminal frame of a request: the
/// data of a plugin `success` or plugin `event`, the plugin's error, the
/// Janus error, or `UnexpectedResponse` for any other frame.
pub fn decode_plugin_response(frame: JaResponse) -> (r: Result<JsonValue, Error>)
    ensures
        match frame.janus {
            ResponseType::Success(JaSuccessProtocol::Plugin { plugin_data })
            | ResponseType::Event(JaHandleEvent::PluginEvent { plugin_data }) => match plugin_data.data {
                PluginInnerData::Data(v) => r == Ok::<JsonValue, Error>(v),
                PluginInnerData::Error { error_code, error } => r matches Err(
                    Error::PluginResponseError { error_code: c, error: e },
                ) && c == error_code && e == error,
            },
            ResponseType::Error { code, reason } => r matches Err(
                Error::JanusError { error, reason: text },
            ) && error == janus_error_of(code) && text == reason,
            _ => r matches Err(Error::UnexpectedResponse),
        },
{
    match frame.janus {
        ResponseType::Success(JaSuccessProtocol::Plugin { plugin_data }) => plugin_outcome(
            plugin_data,
        ),
        ResponseType::Event(JaHandleEvent::PluginEvent { plugin_data }) => plugin_outcome(
            plugin_data,
        ),
        ResponseType::Error { code, reason } => Err(janus_error(code, reason)),
        _ => Err(Error::UnexpectedResponse),
    }
}

/// Lifecycle of a handle.
#[derive(Clone, Copy, PartialEq, Eq, Debug, Structural)]
pub enum HandleState {
    Attached,
    Detached,
}

/// What happens to a handle.
#[derive(Clone, Copy, PartialEq, Eq, Debug, Structural)]
pub enum HandleInput {
    /// The server acknowledged a `detach`.
    DetachAcked,
    /// The server hung up the PeerConnection.
    Hangup,
    /// The session of the handle was destroyed.
    SessionDestroyed,
}

/// A transition of a handle: its next state, the event its subscriber
/// receives, and whether its channel closes after it.
#[derive(Clone, Copy, PartialEq, Eq, Debug, Structural)]
pub struct HandleTransition {
    pub next: HandleState,
    pub deliver: Option<GenericEvent>,
    pub close: bool,
}

/// The transition of a handle in `state` on `input`. An attached handle that
/// is detached, by its own request or with its session, delivers a terminal
/// `Detached` event and closes its channel; a hangup leaves it attached and
/// delivers `Hangup`. A detached handle stays so, and delivers nothing more.
pub fn handle_step(state: HandleState, input: HandleInput) -> (r: HandleTransition)
    ensures
        state == HandleState::Detached ==> r == (HandleTransition {
            next: HandleState::Detached,
            deliver: None,
            close: false,
        }),
        state == HandleState::Attached && input == HandleInput::Hangup ==> r == (HandleTransition {
            next: HandleState::Attached,
            deliver: Some(GenericEvent::Hangup),
            close: false,
        }),
        state == HandleState::Attached && input != HandleInput::Hangup ==> r == (HandleTransition {
            next: HandleState::Detached,
            deliver: Some(GenericEvent::Detached),
            close: true,
        }),
{
    match state {
        HandleState::Detached => HandleTransition {
            next: HandleState::Detached,
            deliver: None,
            close: false,
        },
        HandleState::Attached => match input {
            HandleInput::Hangup => HandleTransition {
                next: HandleState::Attached,
                deliver: Some(GenericEvent::Hangup),
                close: false,
            },
            _ => HandleTransition {
                next: HandleState::Detached,
                deliver: Some(GenericEvent::Detached),
                close: true,
            },
        },
    }
}

} // verus!
