//! Stock-quote streaming: the protocol, validation and bookkeeping logic
//! shared by the quote server and the quote client.

pub mod text;
pub mod common;
pub mod server;
pub mod client;
pub mod handshake;
