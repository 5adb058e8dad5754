//! Agent-to-agent messaging: identifiers and errors.

use vstd::prelude::*;
use vstd::string::*;
use crate::text::concat3;

verus! {

/// The name of an agent: a namespace and an identifier within it.
#[derive(Debug, Clone, PartialEq, Eq, Hash)]
pub struct AgentId {
    pub namespace: String,
    pub id: String,
}

impl AgentId {
    pub fn new(namespace: &str, id: &str) -> (r: AgentId)
        ensures
            r.namespace@ == namespace@,
            r.id@ == id@,
    {
        AgentId { namespace: String::from_str(namespace), id: String::from_str(id) }
    }

    /// The namespace and the identifier with a colon between them.
    pub fn to_string(&self) -> (r: String)
        ensures
            r@ == self.namespace@ + ":"@ + self.id@,
    {
        concat3(self.namespace.as_str(), ":", self.id.as_str())
    }
}

/// The number of hops that a message to one agent may take.
pub const DIRECT_TTL: u32 = 10;

/// The number of hops that a message to all agents may take.
pub const BROADCAST_TTL: u32 = 5;

/// What a message carries, without its content.
#[derive(Debug, Clone, Copy, PartialEq, Eq, Structural)]
pub enum PayloadKind {
    Register,
    Unregister,
    Discover,
    DiscoveryResult,
    DirectMessage,
    Publish,
    Subscribe,
    Unsubscribe,
    StateSync,
    StateRequest,
    StateResponse,
    SimControl,
    Heartbeat,
    Ack,
    Error,
}

/// The name under which the handler of a kind of message is registered:
/// registrations, direct messages and publications have one of their own,
/// every other kind goes to `unknown`.
pub open spec fn handler_text(kind: PayloadKind) -> Seq<char> {
    match kind {
        PayloadKind::Register => "register"@,
        PayloadKind::DirectMessage => "direct_message"@,
        PayloadKind::Publish => "publish"@,
        _ => "unknown"@,
    }
}

/// The name under which the handler of a kind of message is registered.
pub fn handler_name(kind: PayloadKind) -> (r: &'static str)
    ensures
        r@ == handler_text(kind),
{
    match kind {
        PayloadKind::Register => "register",
        PayloadKind::DirectMessage => "direct_message",
        PayloadKind::Publish => "publish",
        _ => "unknown",
    }
}

/// What can go wrong when agents exchange messages.
#[derive(Debug, Clone)]
pub enum A2aError {
    NoTransport,
    TransportError(String),
    SerializationError(String),
    TimeoutError,
    NotFound(String),
    InvalidMessage(String),
}

impl A2aError {
    /// What the error says.
    pub open spec fn text(&self) -> Seq<char> {
        match self {
            A2aError::NoTransport => "No transport configured"@,
            A2aError::TransportError(msg) => "Transport error: "@ + msg@,
            A2aError::SerializationError(msg) => "Serialization error: "@ + msg@,
            A2aError::TimeoutError => "Timeout"@,
            A2aError::NotFound(msg) => "Not found: "@ + msg@,
            A2aError::InvalidMessage(msg) => "Invalid message: "@ + msg@,
        }
    }

    /// The error in words.
    pub fn message(&self) -> (r: String)
        ensures
            r@ == self.text(),
    {
        match self {
            A2aError::NoTransport => String::from_str("No transport configured"),
            A2aError::TransportError(msg) => String::from_str("Transport error: ").concat(
                msg.as_str(),
            ),
            A2aError::SerializationError(msg) => String::from_str("Serialization error: ").concat(
                msg.as_str(),
            ),
            A2aError::TimeoutError => String::from_str("Timeout"),
            A2aError::NotFound(msg) => String::from_str("Not found: ").concat(msg.as_str()),
            A2aError::InvalidMessage(msg) => String::from_str("Invalid message: ").concat(
                msg.as_str(),
            ),
        }
    }
}

} // verus!
