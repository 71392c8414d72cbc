//! A lightweight ttrpc framing, metadata and connection-extension library.

pub mod asynchronous;
pub mod codec;
pub mod common;
pub mod context;
pub mod error;
pub mod messages;
pub mod proto;
pub mod security_extension;
pub mod sync;
pub mod text;
pub mod wire;
