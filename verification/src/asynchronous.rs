//! The decisions of the asynchronous client and server: request routing,
//! stream bookkeeping and what a stream receiver returns.

pub mod utils;
pub mod stream;
pub mod connection;
pub mod client;
pub mod server;
