//! The client's command line.

use vstd::prelude::*;

verus! {

/// The client's command-line arguments.
pub struct Cli {
    /// The quote server's TCP address, `host:port`.
    pub tcp_server: String,
    /// The `host:port` that this client receives quotes on by UDP.
    pub udp_server: String,
    /// The file that lists the tickers to subscribe to, one per line.
    pub file_path: String,
}

} // verus!
