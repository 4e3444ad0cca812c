//! `std::io::Error`, carried through the server and client errors.

use vstd::prelude::*;

verus! {

/// `std::io::Error`, opaque to the proofs.
#[verifier::external_type_specification]
#[verifier::external_body]
pub struct ExIoError(std::io::Error);

/// The text that `std::io::Error` displays, by `format!("{}", e)`. Nothing is
/// stated of that text: it depends on the error's kind and payload, which
/// the proofs cannot see.
#[verifier::external_body]
pub(crate) fn io_error_text(e: &std::io::Error) -> String {
    format!("{}", e)
}

} // verus!
