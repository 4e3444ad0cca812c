//! One connection's session: the server greets the client, every line the
//! client sends is a command, an error is answered and the client may try
//! again, an accepted command ends the session with a new subscription and
//! no reply, and a closed connection ends it with an error.

use vstd::prelude::*;

use crate::server::command::{parse_command, spec_parse_command};
use crate::server::error::{spec_server_message, ServerError, ServerErrorView};
use crate::server::model::{client_views, Client};
use crate::text::string_views;

verus! {

/// The line the server sends when a client connects.
pub open spec fn spec_welcome() -> Seq<char> {
    "Welcome to the QuoteServer!\n"@
}

/// The line the server sends when a client connects.
pub fn welcome_message() -> (s: String)
    ensures
        s@ == spec_welcome(),
{
    String::from_str("Welcome to the QuoteServer!\n")
}

/// What the server does after one read from a client's connection.
pub enum SessionStep {
    /// Send this text to the client and read the next line.
    Reply(String),
    /// The client subscribed; the session is over and nothing is sent.
    Accept(Client),
    /// The connection is over, with this error.
    Close(ServerError),
}

/// One step of a session. `line` is the line read from the connection, or
/// `None` when the connection was closed or could not be read. Returns what
/// to do next and the tickers to announce to the quote book.
pub fn session_step(line: Option<&str>, tickers: &Vec<String>, clients: &Vec<Client>) -> (r: (
    SessionStep,
    Vec<String>,
))
    ensures
        match line {
            None => r.0 matches SessionStep::Close(e) && e@ == ServerErrorView::ConnectClosed && r.1@.len()
                == 0,
            Some(l) => {
                let (outcome, announced) = spec_parse_command(
                    l@,
                    string_views(tickers@),
                    client_views(clients@),
                );
                &&& string_views(r.1@) == announced
                &&& match outcome {
                    Ok(accepted) => r.0 matches SessionStep::Accept(c) && c@ == accepted,
                    Err(e) => r.0 matches SessionStep::Reply(text) && text@ == spec_server_message(e)
                        + "\n"@,
                }
            },
        },
{
    match line {
        None => (SessionStep::Close(ServerError::ConnectClosed), Vec::new()),
        Some(l) => {
            let (outcome, announced) = parse_command(l, tickers, clients);
            match outcome {
                Ok(c) => (SessionStep::Accept(c), announced),
                Err(e) => {
                    let text = e.message().concat("\n");
                    (SessionStep::Reply(text), announced)
                },
            }
        },
    }
}

/// The greeting is `Welcome to the QuoteServer!` and a newline.
pub proof fn lemma_welcome_text()
    ensures
        spec_welcome() == "Welcome to the QuoteServer!\n"@,
{
}

} // verus!
