//! A transport-agnostic core for talking to a desktop chat client over its
//! local socket or named pipe: endpoint discovery, the length-prefixed frame
//! codec, the handshake and command bodies, and the connection procedure as a
//! step function that a driver feeds with the outcome of each I/O operation.

pub mod client;
pub mod discovery;
pub mod error;
pub mod json;
pub mod probing;
pub mod protocol;
pub mod wire;

pub use client::{ConnectAction, ConnectEvent, DiscordClient, Phase};
pub use discovery::Platform;
pub use error::ClientError;
pub use protocol::{Commands, OpCode, Payload};
