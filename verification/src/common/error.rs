//! The error of the shared validation helpers.

use vstd::prelude::*;

verus! {

/// An error of the shared helpers; it carries the text it displays.
#[derive(Debug)]
pub enum CommonError {
    CommonError(String),
}

impl CommonError {
    /// The text this error displays.
    pub open spec fn spec_message(&self) -> Seq<char> {
        match self {
            CommonError::CommonError(value) => value@,
        }
    }

    /// The text this error displays.
    pub fn message(&self) -> (m: String)
        ensures
            m@ == self.spec_message(),
    {
        match self {
            CommonError::CommonError(value) => value.clone(),
        }
    }
}

/// A common error displays exactly the text it carries.
pub proof fn lemma_common_error_message(value: String)
    ensures
        CommonError::CommonError(value).spec_message() == value@,
{
}

} // verus!
