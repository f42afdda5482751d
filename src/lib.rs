//! Tag correlation for a multiplexed request/response server: a recycling tag
//! allocator, tagged frame envelopes, the request handler, the per-connection
//! multiplexer state machine and the listener's accept policy.

pub mod connection;
pub mod frame;
pub mod listener;
pub mod service;
pub mod tag_store;
