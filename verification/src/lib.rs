//! Client-side core of a binary windowing-display protocol: big-endian wire
//! codec, handshake decoding, request encoding with bitmask-ordered value
//! lists, and a sequence-correlating response dispatcher.
//!
//! The crate is transport-agnostic: every function works on in-memory byte
//! buffers, so a caller owns the stream and hands frames in and out.

pub mod bytes;
pub mod display;
pub mod error;
pub mod event;
pub mod proto;
pub mod reply;
pub mod request;
pub mod setup;
