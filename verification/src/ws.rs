//! The control channel: wire packets, their text encoding, the liveness
//! heartbeat, and the typed messages carried by the underlying duplex stream.

pub mod heartbeat;
pub mod message;
pub mod packet;
pub mod request;
pub mod transport;
pub mod websocket;

pub use heartbeat::Heartbeat;
pub use message::Message;
pub use packet::Packet;
pub use packet::PacketModel;
pub use transport::Transport;
pub use websocket::WebSocketRequest;
