//! A WebSocket protocol engine: the binary frame codec, the opening
//! handshake, and the per-connection state machine of a readiness-driven
//! server. Sockets and the event loop stay with the caller; this crate
//! decides what to read, what to send and which readiness to wait for.

pub mod byte_order;
pub mod client;
pub mod codec;
pub mod frame;
pub mod handshake;
pub mod server;
