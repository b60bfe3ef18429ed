//! A minimal text-based relay protocol: clients register a username over a
//! byte stream and exchange messages routed by username.
//!
//! The crate is split along the protocol's layers:
//! - [`codec`] — the pipe-delimited wire grammar: encoding a [`codec::Command`]
//!   to its text frame and parsing a frame back.
//! - [`framing`] — newline-terminated frame extraction from an accumulating
//!   byte buffer, and the byte-level decode (UTF-8 validation included).
//! - [`registry`] — the server-side map from username to connection handle.
//! - [`session`] — the per-connection state machine that drives registration
//!   and message routing.

pub mod codec;
pub mod framing;
pub mod registry;
pub mod session;
