//! The client's error.

use vstd::prelude::*;

use crate::common::io_error::io_error_text;

verus! {

/// An error of the quote client.
#[derive(Debug)]
pub enum ClientError {
    SendServer { value: String },
    IoError(std::io::Error),
}

impl ClientError {
    /// The text this error displays: the carried text, or `error IO : `
    /// followed by the I/O error's own text.
    pub fn message(&self) -> (m: String)
        ensures
            self matches ClientError::SendServer { value } ==> m@ == value@,
            self is IoError ==> "error IO : "@.is_prefix_of(m@),
    {
        match self {
            ClientError::SendServer { value } => value.clone(),
            ClientError::IoError(e) => {
                let m = String::from_str("error IO : ");
                let text = io_error_text(e);
                let r = m.concat(text.as_str());
                assert(m@.is_prefix_of(r@)) by {
                    assert(r@.subrange(0, m@.len() as int) == m@);
                }
                r
            },
        }
    }
}

} // verus!
