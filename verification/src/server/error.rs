//! The server's error.

use vstd::prelude::*;

use crate::common::io_error::io_error_text;

verus! {

/// An error of the quote server.
#[derive(Debug)]
pub enum ServerError {
    SendServer { value: String },
    ConnectClosed,
    IoError(std::io::Error),
    TickerNotFound(String),
}

/// A server error as plain values; an I/O error is only known as one.
pub enum ServerErrorView {
    SendServer(Seq<char>),
    ConnectClosed,
    IoError,
    TickerNotFound(Seq<char>),
}

impl View for ServerError {
    type V = ServerErrorView;

    open spec fn view(&self) -> ServerErrorView {
        match self {
            ServerError::SendServer { value } => ServerErrorView::SendServer(value@),
            ServerError::ConnectClosed => ServerErrorView::ConnectClosed,
            ServerError::IoError(_) => ServerErrorView::IoError,
            ServerError::TickerNotFound(t) => ServerErrorView::TickerNotFound(t@),
        }
    }
}

/// The text a server error displays, except for an I/O error, whose text
/// comes from `std::io::Error`.
pub open spec fn spec_server_message(e: ServerErrorView) -> Seq<char> {
    match e {
        ServerErrorView::SendServer(value) => value,
        ServerErrorView::ConnectClosed => "connection closed"@,
        ServerErrorView::IoError => "error IO : "@,
        ServerErrorView::TickerNotFound(t) => "Ticker not found: "@ + t,
    }
}

impl ServerError {
    /// The text this error displays. For an I/O error it is `error IO : `
    /// followed by the I/O error's own text.
    pub fn message(&self) -> (m: String)
        ensures
            !(self@ is IoError) ==> m@ == spec_server_message(self@),
            self@ is IoError ==> spec_server_message(self@).is_prefix_of(m@),
    {
        match self {
            ServerError::SendServer { value } => value.clone(),
            ServerError::ConnectClosed => String::from_str("connection closed"),
            ServerError::IoError(e) => {
                let m = String::from_str("error IO : ");
                let text = io_error_text(e);
                let r = m.concat(text.as_str());
                assert(m@.is_prefix_of(r@)) by {
                    assert(r@.subrange(0, m@.len() as int) == m@);
                }
                r
            },
            ServerError::TickerNotFound(t) => {
                let m = String::from_str("Ticker not found: ");
                m.concat(t.as_str())
            },
        }
    }
}

/// The texts of the server's errors: the carried text, `connection
/// closed`, and `Ticker not found: ` followed by the ticker.
pub proof fn lemma_server_messages(value: Seq<char>, ticker: Seq<char>)
    ensures
        spec_server_message(ServerErrorView::SendServer(value)) == value,
        spec_server_message(ServerErrorView::ConnectClosed) == "connection closed"@,
        spec_server_message(ServerErrorView::TickerNotFound(ticker)) == "Ticker not found: "@
            + ticker,
{
}

} // verus!
