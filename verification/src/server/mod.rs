//! The quote server's logic: its error, its client records, the `STREAM`
//! command, the per-connection session and the quote fan-out.

pub mod command;
pub mod error;
pub mod model;
pub mod generate;
pub mod session;
