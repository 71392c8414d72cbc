//! The decisions of the blocking client and server: reading and writing frames,
//! routing responses, and sizing the worker pool.

pub mod utils;
pub mod channel;
pub mod client;
pub mod server;
pub mod net;
