//! Core of a small stateful session protocol for a game server: a binary
//! codec for fixed-width fields, a delimiter-based message framer, the
//! typed command model (HELLO, BYE, PUTOBJ), the per-connection session
//! state machine, and the session registry.

mod clock;
pub mod commands;
pub mod dispatch;
pub mod errors;
pub mod messageblocks;
pub mod sessions;
pub mod utils;
