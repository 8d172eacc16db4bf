//! The relay for the exchange's public market data socket.

use vstd::prelude::*;

verus! {

/// A message on either side of the relay.
#[derive(Debug, PartialEq, Eq)]
pub enum RelayMessage {
    Text(String),
    Binary(Vec<u8>),
    Ping(Vec<u8>),
    Pong(Vec<u8>),
    /// With the code and the reason, where they are given.
    Close(Option<(u16, String)>),
    /// A raw frame, of which only the low level knows.
    Frame,
}

/// What is sent to the other side: every message as it is, and nothing for a raw frame.
pub fn relay(message: RelayMessage) -> (r: Option<RelayMessage>)
    ensures
        r == if message is Frame {
            None
        } else {
            Some(message)
        },
{
    match message {
        RelayMessage::Frame => None,
        m => Some(m),
    }
}

/// Every message but a raw frame reaches the other side as it is, whatever it holds.
pub proof fn message_reaches_the_other_side(message: RelayMessage, sent: Option<RelayMessage>)
    requires
        call_ensures(relay, (message,), sent),
    ensures
        !(message is Frame) ==> sent == Some(message),
        message is Frame ==> sent is None,
{
}

} // verus!
