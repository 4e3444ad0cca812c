//! The server's command line and its record of a subscribed client.

use vstd::prelude::*;

use crate::text::string_views;

verus! {

/// The server's command-line arguments.
pub struct Cli {
    /// The TCP port that the server listens on.
    pub port: u16,
    /// The file that lists the tickers the server knows, one per line.
    pub file_path: String,
    /// Seconds between two rounds of quote updates.
    pub interval: u32,
}

/// A client that subscribed to a stream of quotes.
#[derive(Debug, Clone)]
pub struct Client {
    /// The host that quotes are sent to.
    pub adress: String,
    /// The UDP port that quotes are sent to.
    pub port: u16,
    /// The tickers the client subscribed to, in the order it named them.
    pub ticker: Vec<String>,
    /// Whether the client is known to be listening.
    pub alive: bool,
}

/// A client record as plain values.
pub struct ClientView {
    pub adress: Seq<char>,
    pub port: u16,
    pub ticker: Seq<Seq<char>>,
    pub alive: bool,
}

impl View for Client {
    type V = ClientView;

    open spec fn view(&self) -> ClientView {
        ClientView {
            adress: self.adress@,
            port: self.port,
            ticker: string_views(self.ticker@),
            alive: self.alive,
        }
    }
}

/// The views of a list of clients.
pub open spec fn client_views(v: Seq<Client>) -> Seq<ClientView> {
    v.map_values(|c: Client| c@)
}

impl Client {
    /// A client record before any command filled it in: local host, port
    /// 9999, no tickers, not alive.
    pub fn new() -> (c: Self)
        ensures
            c.adress@ == "127.0.0.1"@,
            c.port == 9999,
            c.ticker@.len() == 0,
            !c.alive,
    {
        Client { adress: String::from_str("127.0.0.1"), port: 9999, ticker: Vec::new(), alive: false }
    }
}

} // verus!
