use vstd::prelude::*;
use crate::text::{decimal, to_decimal};

verus! {

/// Named kinds of the numeric error codes of the Janus core.
#[derive(Clone, Copy, Debug, PartialEq, Eq, Structural, Hash)]
pub enum JanusError {
    /// Unauthorized (can only happen when using apisecret/auth token)
    Unauthorized,
    /// Unauthorized access to a plugin (can only happen when using auth token)
    UnauthorizedPlugin,
    /// Transport related error
    TransportSpecific,
    /// The request is missing in the message
    MissingRequest,
    /// The Janus core does not support this request
    UnknownRequest,
    /// The payload is not a valid JSON message
    InvalidJson,
    /// The object is not a valid JSON object as expected
    InvalidJsonObject,
    /// A mandatory element is missing in the message
    MissingMandatoryElement,
    /// The request cannot be handled for this webserver path
    InvalidRequestPath,
    /// The session the request refers to doesn't exist
    SessionNotFound,
    /// The handle the request refers to doesn't exist
    HandleNotFound,
    /// The plugin the request wants to talk to doesn't exist
    PluginNotFound,
    /// An error occurring when trying to attach to a plugin and create a handle
    PluginAttach,
    /// An error occurring when trying to send a message/request to the plugin
    PluginMessage,
    /// An error occurring when trying to detach from a plugin and destroy the related handle
    PluginDetach,
    /// The Janus core doesn't support this SDP type
    JsepUnkownType,
    /// The Session Description provided by the peer is invalid
    JsepInvalidSdp,
    /// The stream a trickle candidate for does not exist or is invalid
    TrickleInvalidStream,
    /// A JSON element is of the wrong type (e.g., an integer instead of a string)
    InvalidElementType,
    /// The ID provided to create a new session is already in use
    SessionConflict,
    /// We got an ANSWER to an OFFER we never made
    UnexpectedAnswer,
    /// The auth token the request refers to doesn't exist
    TokenNotFound,
    /// The current request cannot be handled because of not compatible WebRTC state
    WebrtcState,
    /// The server is currently configured not to accept new sessions
    NotAcceptingSessions,
    /// Unknown/undocumented error
    Unkown,
    /// Other error codes, typically plugin specific error codes
    Other(u16),
}

/// The kind that the Janus core gives to error code `c`.
pub open spec fn janus_error_of(c: u16) -> JanusError {
    if c == 403 {
        JanusError::Unauthorized
    } else if c == 405 {
        JanusError::UnauthorizedPlugin
    } else if c == 450 {
        JanusError::TransportSpecific
    } else if c == 452 {
        JanusError::MissingRequest
    } else if c == 453 {
        JanusError::UnknownRequest
    } else if c == 454 {
        JanusError::InvalidJson
    } else if c == 455 {
        JanusError::InvalidJsonObject
    } else if c == 456 {
        JanusError::MissingMandatoryElement
    } else if c == 457 {
        JanusError::InvalidRequestPath
    } else if c == 458 {
        JanusError::SessionNotFound
    } else if c == 459 {
        JanusError::HandleNotFound
    } else if c == 460 {
        JanusError::PluginNotFound
    } else if c == 461 {
        JanusError::PluginAttach
    } else if c == 462 {
        JanusError::PluginMessage
    } else if c == 463 {
        JanusError::PluginDetach
    } else if c == 464 {
        JanusError::JsepUnkownType
    } else if c == 465 {
        JanusError::JsepInvalidSdp
    } else if c == 466 {
        JanusError::TrickleInvalidStream
    } else if c == 467 {
        JanusError::InvalidElementType
    } else if c == 468 {
        JanusError::SessionConflict
    } else if c == 469 {
        JanusError::UnexpectedAnswer
    } else if c == 470 {
        JanusError::TokenNotFound
    } else if c == 471 {
        JanusError::WebrtcState
    } else if c == 472 {
        JanusError::NotAcceptingSessions
    } else if c == 490 {
        JanusError::Unkown
    } else {
        JanusError::Other(c)
    }
}

/// The numeric code of a kind.
pub open spec fn code_of(e: JanusError) -> u16 {
    match e {
        JanusError::Unauthorized => 403,
        JanusError::UnauthorizedPlugin => 405,
        JanusError::TransportSpecific => 450,
        JanusError::MissingRequest => 452,
        JanusError::UnknownRequest => 453,
        JanusError::InvalidJson => 454,
        JanusError::InvalidJsonObject => 455,
        JanusError::MissingMandatoryElement => 456,
        JanusError::InvalidRequestPath => 457,
        JanusError::SessionNotFound => 458,
        JanusError::HandleNotFound => 459,
        JanusError::PluginNotFound => 460,
        JanusError::PluginAttach => 461,
        JanusError::PluginMessage => 462,
        JanusError::PluginDetach => 463,
        JanusError::JsepUnkownType => 464,
        JanusError::JsepInvalidSdp => 465,
        JanusError::TrickleInvalidStream => 466,
        JanusError::InvalidElementType => 467,
        JanusError::SessionConflict => 468,
        JanusError::UnexpectedAnswer => 469,
        JanusError::TokenNotFound => 470,
        JanusError::WebrtcState => 471,
        JanusError::NotAcceptingSessions => 472,
        JanusError::Unkown => 490,
        JanusError::Other(c) => c,
    }
}

/// The text that describes a kind, led by its code.
pub open spec fn description_of(e: JanusError) -> Seq<char> {
    match e {
        JanusError::Unauthorized => "403 (Unauthorized)"@,
        JanusError::UnauthorizedPlugin => "405 (Unauthorized access to a plugin)"@,
        JanusError::TransportSpecific => "450 (Transport related error)"@,
        JanusError::MissingRequest => "452 (The request is missing in the message)"@,
        JanusError::UnknownRequest => "453 (The Janus core does not support this request)"@,
        JanusError::InvalidJson => "454 (The payload is not a valid JSON message)"@,
        JanusError::InvalidJsonObject => "455 (The object is not a valid JSON object as expected)"@,
        JanusError::MissingMandatoryElement => "456 (A mandatory element is missing in the message)"@,
        JanusError::InvalidRequestPath => "457 (The request cannot be handled for this webserver path)"@,
        JanusError::SessionNotFound => "458 (The session the request refers to doesn't exist)"@,
        JanusError::HandleNotFound => "459 (The handle the request refers to doesn't exist)"@,
        JanusError::PluginNotFound => "460 (The plugin the request wants to talk to doesn't exist)"@,
        JanusError::PluginAttach => "461 (Error attaching to a plugin)"@,
        JanusError::PluginMessage => "462 (Error sending a message/request to the plugin)"@,
        JanusError::PluginDetach => "463 (Error detaching from a plugin)"@,
        JanusError::JsepUnkownType => "464 (The Janus core doesn't support this SDP type)"@,
        JanusError::JsepInvalidSdp => "465 (The Session Description provided by the peer is invalid)"@,
        JanusError::TrickleInvalidStream => "466 (The stream a trickle candidate for does not exist or is invalid)"@,
        JanusError::InvalidElementType => "467 (A JSON element is of the wrong type)"@,
        JanusError::SessionConflict => "468 (The ID provided to create a new session is already in use)"@,
        JanusError::UnexpectedAnswer => "469 (Received an ANSWER to an OFFER that was never made)"@,
        JanusError::TokenNotFound => "470 (The auth token the request refers to doesn't exist)"@,
        JanusError::WebrtcState => "471 (Incompatible WebRTC state for the current request)"@,
        JanusError::NotAcceptingSessions => "472 (The server is not accepting new sessions)"@,
        JanusError::Unkown => "490 (Unknown/undocumented error)"@,
        JanusError::Other(c) => "Other error with code: "@ + decimal(c as nat),
    }
}

impl From<u16> for JanusError {
    fn from(value: u16) -> (r: JanusError) {
        match value {
            403 => JanusError::Unauthorized,
            405 => JanusError::UnauthorizedPlugin,
            450 => JanusError::TransportSpecific,
            452 => JanusError::MissingRequest,
            453 => JanusError::UnknownRequest,
            454 => JanusError::InvalidJson,
            455 => JanusError::InvalidJsonObject,
            456 => JanusError::MissingMandatoryElement,
            457 => JanusError::InvalidRequestPath,
            458 => JanusError::SessionNotFound,
            459 => JanusError::HandleNotFound,
            460 => JanusError::PluginNotFound,
            461 => JanusError::PluginAttach,
            462 => JanusError::PluginMessage,
            463 => JanusError::PluginDetach,
            464 => JanusError::JsepUnkownType,
            465 => JanusError::JsepInvalidSdp,
            466 => JanusError::TrickleInvalidStream,
            467 => JanusError::InvalidElementType,
            468 => JanusError::SessionConflict,
            469 => JanusError::UnexpectedAnswer,
            470 => JanusError::TokenNotFound,
            471 => JanusError::WebrtcState,
            472 => JanusError::NotAcceptingSessions,
            490 => JanusError::Unkown,
            x => JanusError::Other(x),
        }
    }
}

impl vstd::std_specs::convert::FromSpecImpl<u16> for JanusError {
    open spec fn obeys_from_spec() -> bool {
        true
    }

    open spec fn from_spec(v: u16) -> JanusError {
        janus_error_of(v)
    }
}

impl JanusError {
    /// The numeric code of this kind: `JanusError::from(e.code())` gives `e`
    /// back for every kind but `Other` of a listed code.
    pub fn code(&self) -> (r: u16)
        ensures
            r == code_of(*self),
    {
        match self {
            JanusError::Unauthorized => 403,
            JanusError::UnauthorizedPlugin => 405,
            JanusError::TransportSpecific => 450,
            JanusError::MissingRequest => 452,
            JanusError::UnknownRequest => 453,
            JanusError::InvalidJson => 454,
            JanusError::InvalidJsonObject => 455,
            JanusError::MissingMandatoryElement => 456,
            JanusError::InvalidRequestPath => 457,
            JanusError::SessionNotFound => 458,
            JanusError::HandleNotFound => 459,
            JanusError::PluginNotFound => 460,
            JanusError::PluginAttach => 461,
            JanusError::PluginMessage => 462,
            JanusError::PluginDetach => 463,
            JanusError::JsepUnkownType => 464,
            JanusError::JsepInvalidSdp => 465,
            JanusError::TrickleInvalidStream => 466,
            JanusError::InvalidElementType => 467,
            JanusError::SessionConflict => 468,
            JanusError::UnexpectedAnswer => 469,
            JanusError::TokenNotFound => 470,
            JanusError::WebrtcState => 471,
            JanusError::NotAcceptingSessions => 472,
            JanusError::Unkown => 490,
            JanusError::Other(c) => *c,
        }
    }

    /// Human-readable text of this kind, led by its code.
    pub fn to_string(&self) -> (r: String)
        ensures
            r@ == description_of(*self),
    {
        let text = match self {
            JanusError::Unauthorized => "403 (Unauthorized)",
            JanusError::UnauthorizedPlugin => "405 (Unauthorized access to a plugin)",
            JanusError::TransportSpecific => "450 (Transport related error)",
            JanusError::MissingRequest => "452 (The request is missing in the message)",
            JanusError::UnknownRequest => "453 (The Janus core does not support this request)",
            JanusError::InvalidJson => "454 (The payload is not a valid JSON message)",
            JanusError::InvalidJsonObject => "455 (The object is not a valid JSON object as expected)",
            JanusError::MissingMandatoryElement => "456 (A mandatory element is missing in the message)",
            JanusError::InvalidRequestPath => "457 (The request cannot be handled for this webserver path)",
            JanusError::SessionNotFound => "458 (The session the request refers to doesn't exist)",
            JanusError::HandleNotFound => "459 (The handle the request refers to doesn't exist)",
            JanusError::PluginNotFound => "460 (The plugin the request wants to talk to doesn't exist)",
            JanusError::PluginAttach => "461 (Error attaching to a plugin)",
            JanusError::PluginMessage => "462 (Error sending a message/request to the plugin)",
            JanusError::PluginDetach => "463 (Error detaching from a plugin)",
            JanusError::JsepUnkownType => "464 (The Janus core doesn't support this SDP type)",
            JanusError::JsepInvalidSdp => "465 (The Session Description provided by the peer is invalid)",
            JanusError::TrickleInvalidStream => "466 (The stream a trickle candidate for does not exist or is invalid)",
            JanusError::InvalidElementType => "467 (A JSON element is of the wrong type)",
            JanusError::SessionConflict => "468 (The ID provided to create a new session is already in use)",
            JanusError::UnexpectedAnswer => "469 (Received an ANSWER to an OFFER that was never made)",
            JanusError::TokenNotFound => "470 (The auth token the request refers to doesn't exist)",
            JanusError::WebrtcState => "471 (Incompatible WebRTC state for the current request)",
            JanusError::NotAcceptingSessions => "472 (The server is not accepting new sessions)",
            JanusError::Unkown => "490 (Unknown/undocumented error)",
            JanusError::Other(c) => {
                let mut r = String::from_str("Other error with code: ");
                let digits = to_decimal(*c as u64);
                r.append(digits.as_str());
                return r;
            },
        };
        String::from_str(text)
    }
}

/// Every listed code names its kind, and the kind gives the code back.
pub proof fn lemma_code_round_trip(c: u16)
    ensures
        code_of(janus_error_of(c)) == c,
{
}

/// Error of the client library.
#[derive(Debug)]
#[allow(inconsistent_fields)]
pub enum Error {
    /// A JSON text could not be read; the message of the JSON reader.
    JsonParsingFailure(String),
    /// An I/O failure, with its message.
    IO(String),
    /// A failure of the WebSocket transport, with its message.
    WebSocket(String),
    /// A failure of the HTTP transport, with its message.
    Reqwest(String),
    /// A frame lacks a part that its kind requires.
    IncompletePacket,
    /// The transport was closed, or never opened.
    TransportNotOpened,
    /// A request was rejected before it was sent.
    InvalidJanusRequest { reason: String },
    /// A channel was closed.
    SendError,
    /// A reply of a kind that the request does not expect.
    UnexpectedResponse,
    /// An error frame of the Janus core.
    JanusError { error: JanusError, reason: String },
    /// An error reported by a plugin in reply to a request.
    PluginResponseError { error_code: u16, error: String },
    /// No reply came before the deadline.
    RequestTimeout,
}

} // verus!
