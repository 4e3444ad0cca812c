//! The quote client's logic: its error, its command line and its side of
//! the streaming protocol.

pub mod error;
pub mod model;
pub mod protocol;
