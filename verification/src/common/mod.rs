//! Items shared by the server and the client: the common error, address
//! validation, the ticker-file format and the volume model of a quote.

pub mod address;
pub mod error;
pub mod io_error;
pub mod tickers;
pub mod volume;
