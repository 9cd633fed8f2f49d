//! A minimal real-time chat relay core: the wire envelope codec, the shared
//! user directory, and the per-connection session decision logic, each with a
//! full functional contract.
//!
//! Network transport, the broadcast fanout channel and task spawning are left
//! to the surrounding application; this crate holds everything that decides
//! and computes: how frames are encoded and parsed, how the directory
//! changes, and which action a session takes on each event.

pub mod envelope;
pub mod codec;
pub mod parse;
pub mod round_trip;
pub mod directory;
pub mod session;
pub mod laws;
