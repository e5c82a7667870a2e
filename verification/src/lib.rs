//! A peer-to-peer protocol relay: negotiation of sub-protocols between peers
//! and dispatch of their traffic by one-byte aliases.

pub mod lifecycle;
pub mod message;
pub mod node;
pub mod protocol;
pub mod registry;
pub mod relay;
pub mod transport;

pub use message::{DecodeError, Message, MessageId, PageCount, Payload, PayloadMask, ProtocolId, ProtocolKey};
pub use node::{Delegate, Node};
pub use protocol::Handler as ProtocolHandler;
pub use transport::{InternetAddress, PeerAddress, TransportProtocol};
