//! A minimal HTTP/1.1 server core: request parsing, routing, response framing
//! and the per-connection state machine, over plain bytes.

pub mod bytes;
pub mod config;
pub mod connection;
pub mod decode;
pub mod handlers;
pub mod laws;
pub mod request;
pub mod response;
pub mod router;
