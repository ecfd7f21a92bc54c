//! Capsules and control messages exchanged between clients and gateways.

use vstd::prelude::*;

verus! {

/// An application-defined message: a kind and the bytes it carries.
#[derive(Debug, Clone, PartialEq, Eq)]
pub struct Capsule {
    pub kind: u16,
    pub payload: Vec<u8>,
}

impl Capsule {
    pub fn new(kind: u16, payload: Vec<u8>) -> (capsule: Self)
        ensures
            capsule.kind == kind,
            capsule.payload == payload,
    {
        Self { kind, payload }
    }
}

#[derive(Debug, Clone, PartialEq, Eq)]
pub enum ControlMessage {
    Ping,
    Pong,
    Close { reason: String },
}

impl ControlMessage {
    /// Whether the message ends the exchange: only `Close` does.
    pub fn is_terminal(&self) -> (terminal: bool)
        ensures
            terminal == (self is Close),
    {
        match self {
            ControlMessage::Close { .. } => true,
            _ => false,
        }
    }
}

/// A message that carries nothing.
#[derive(Debug, Clone, PartialEq, Eq)]
pub struct PlaceholderMessage;

impl PlaceholderMessage {
    /// Creates a new placeholder message.
    pub fn new() -> (message: Self)
        ensures
            message == PlaceholderMessage,
    {
        Self
    }
}

} // verus!
