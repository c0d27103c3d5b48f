//! A bridge between a polled, encrypted room service and a line-oriented
//! chat protocol. This crate holds the verified core: line parsing and
//! framing, the authentication handshake, payload extraction and cleaning,
//! deduplication, message transformation, and reconnect backoff. The I/O
//! shell (sockets, HTTP, task scheduling) lives outside the library and
//! drives these functions.
pub mod backoff;
pub mod config;
pub mod dedup;
pub mod payload;
pub mod protocol;
pub mod relay;
pub mod roomid;
pub mod sasl;
pub mod text;
