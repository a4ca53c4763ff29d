//! The typed messages carried by the underlying duplex stream: the raw
//! frames of the connection, adapted to the three shapes the protocol
//! distinguishes.

use vstd::prelude::*;

verus! {

/// One frame of the duplex stream.
pub enum Message {
    /// A text frame; the only kind that can carry a packet.
    Text(String),
    /// A binary frame; carries no packet.
    Binary(Vec<u8>),
    /// The close frame of the protocol-level close handshake.
    Close,
}

} // verus!
