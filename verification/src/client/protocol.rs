//! The client's side of the streaming protocol: the subscription command it
//! sends, the reply it waits for, and the datagrams it receives.

use vstd::prelude::*;

use crate::text::{join, join_with, string_views, trim, trimmed};

verus! {

/// The `STREAM` command that subscribes `udp_server` (a `host:port`) to
/// `tickers`.
pub open spec fn spec_stream_command(udp_server: Seq<char>, tickers: Seq<Seq<char>>) -> Seq<char> {
    "STREAM udp://"@ + udp_server + " "@ + join_with(tickers, ","@)
}

/// Builds the `STREAM` command that subscribes `udp_server` (a `host:port`)
/// to `tickers`.
pub fn build_stream_command(udp_server: &str, tickers: &Vec<String>) -> (r: String)
    ensures
        r@ == spec_stream_command(udp_server@, string_views(tickers@)),
{
    let mut r = String::from_str("STREAM udp://");
    r.append(udp_server);
    r.append(" ");
    let list = join(tickers, ",");
    r.append(list.as_str());
    r
}

/// Whether the line read from the server accepts the subscription: it is
/// exactly `OK`, the newline that ends the line included in the comparison.
pub fn stream_accepted(response: &str) -> (r: bool)
    ensures
        r == (response@ == "OK"@),
{
    let got = String::from_str(response);
    let ok = String::from_str("OK");
    got == ok
}

/// What a datagram from the server is.
#[derive(Debug, Clone, Copy, PartialEq, Eq)]
pub enum Datagram {
    /// A keep-alive probe, to be answered with `PONG`.
    Ping,
    /// A quote, as JSON.
    Quote,
}

/// Classifies a datagram's text: `PING` up to surrounding whitespace is a
/// probe, anything else a quote.
pub fn classify_datagram(data: &str) -> (r: Datagram)
    ensures
        r == (if trimmed(data@) == "PING"@ {
            Datagram::Ping
        } else {
            Datagram::Quote
        }),
{
    let t = trim(data);
    let ping = String::from_str("PING");
    if t == ping {
        Datagram::Ping
    } else {
        Datagram::Quote
    }
}

} // verus!
