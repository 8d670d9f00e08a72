//! Core of a Chrome DevTools Protocol (CDP) client: wire-frame encoding and
//! decoding, request/response correlation, per-session event routing, and a
//! timeout-bounded polling primitive.
//!
//! The pieces that must touch the outside world (the WebSocket itself, the
//! reader thread, real clocks and sleeps) live outside this crate; everything
//! here is deterministic logic over plain values.

pub mod connection;
pub mod errors;
pub mod frame;
pub mod input;
pub mod session;
pub mod waiter;
pub mod wire;
