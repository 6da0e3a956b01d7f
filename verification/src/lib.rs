//! Core of an IRC-style server: CRLF line framing with bounded memory,
//! message parsing and serialization for a typed command algebra,
//! per-connection liveness (PING/PONG) decisions, outbound ordering,
//! and a nickname registry with a uniqueness invariant.
//!
//! Byte buffers are handled through `bytes::BytesMut` and text encodings
//! through the `encoding` crate; those calls stand behind small trusted
//! wrappers whose contracts state what the callee's documentation promises.

pub mod bufio;
pub mod client;
pub mod codecs;
pub mod command;
pub mod config;
pub mod encodings;
pub mod error;
pub mod line;
pub mod message;
pub mod prefix;
pub mod response;
pub mod roundtrip;
pub mod server;
pub mod text;
pub mod transport;
