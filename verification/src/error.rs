//! The error taxonomy of the engine.

use vstd::prelude::*;

verus! {

/// Everything that can go wrong in the engine, whether returned from a
/// public operation or surfaced as an error event from a pump.
#[derive(Debug, Clone, PartialEq, Eq)]
pub enum WirechatError {
    /// A command was submitted while no session is connected.
    NotConnected,
    /// connect() was called while a session is already connected.
    AlreadyConnected,
    /// connect() was called with an empty endpoint.
    UrlEmpty,
    /// The transport handshake failed.
    Connect(String),
    /// A timed operation (handshake or write) exceeded its timeout.
    Timeout(String),
    /// A frame had an unexpected shape at the protocol level.
    Protocol(String),
    /// The underlying message channel failed.
    WebSocket(String),
    /// A frame could not be encoded or decoded.
    Serde(String),
    /// The peer reported an error with a code and a human message.
    Server { code: String, message: String },
    /// A background task failed while the session was being closed.
    Task(String),
}

/// The human-readable description of an error, as a character sequence.
pub open spec fn error_message(e: WirechatError) -> Seq<char> {
    match e {
        WirechatError::NotConnected => "not connected"@,
        WirechatError::AlreadyConnected => "already connected"@,
        WirechatError::UrlEmpty => "url is empty"@,
        WirechatError::Connect(msg) => "connect error: "@ + msg@,
        WirechatError::Timeout(msg) => "timeout: "@ + msg@,
        WirechatError::Protocol(msg) => "protocol error: "@ + msg@,
        WirechatError::WebSocket(msg) => "websocket error: "@ + msg@,
        WirechatError::Serde(msg) => "serde error: "@ + msg@,
        WirechatError::Server { code, message } => "server error "@ + code@ + ": "@ + message@,
        WirechatError::Task(msg) => "task error: "@ + msg@,
    }
}

impl WirechatError {
    /// An equal copy of the error.
    pub fn duplicate(&self) -> (r: Self)
        ensures
            r == *self,
    {
        match self {
            WirechatError::NotConnected => WirechatError::NotConnected,
            WirechatError::AlreadyConnected => WirechatError::AlreadyConnected,
            WirechatError::UrlEmpty => WirechatError::UrlEmpty,
            WirechatError::Connect(m) => WirechatError::Connect(m.clone()),
            WirechatError::Timeout(m) => WirechatError::Timeout(m.clone()),
            WirechatError::Protocol(m) => WirechatError::Protocol(m.clone()),
            WirechatError::WebSocket(m) => WirechatError::WebSocket(m.clone()),
            WirechatError::Serde(m) => WirechatError::Serde(m.clone()),
            WirechatError::Server { code, message } => WirechatError::Server {
                code: code.clone(),
                message: message.clone(),
            },
            WirechatError::Task(m) => WirechatError::Task(m.clone()),
        }
    }

    /// The human-readable description of the error.
    pub fn message(&self) -> (r: String)
        ensures
            r@ == error_message(*self),
    {
        match self {
            WirechatError::NotConnected => String::from_str("not connected"),
            WirechatError::AlreadyConnected => String::from_str("already connected"),
            WirechatError::UrlEmpty => String::from_str("url is empty"),
            WirechatError::Connect(msg) => String::from_str("connect error: ").concat(
                msg.as_str(),
            ),
            WirechatError::Timeout(msg) => String::from_str("timeout: ").concat(msg.as_str()),
            WirechatError::Protocol(msg) => String::from_str("protocol error: ").concat(
                msg.as_str(),
            ),
            WirechatError::WebSocket(msg) => String::from_str("websocket error: ").concat(
                msg.as_str(),
            ),
            WirechatError::Serde(msg) => String::from_str("serde error: ").concat(msg.as_str()),
            WirechatError::Server { code, message } => String::from_str("server error ").concat(
                code.as_str(),
            ).concat(": ").concat(message.as_str()),
            WirechatError::Task(msg) => String::from_str("task error: ").concat(msg.as_str()),
        }
    }
}

} // verus!
