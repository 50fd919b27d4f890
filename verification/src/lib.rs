//! Core of an async WebSocket client: the RFC 6455 frame codec, the opening
//! handshake, and the connection state machine, each specified and verified.
//! Transport I/O (TCP, TLS) is left to the embedding application.

pub mod error;
pub mod address;
pub mod builder;
pub mod bytes;
pub mod codec;
pub mod frame;
pub mod handshake;
pub mod rng;
pub mod session;

