//! Errors that the library reports.

use vstd::prelude::*;

verus! {

/// No session could be read from a token file.
#[derive(Debug, Clone, PartialEq, Eq)]
pub struct InvalidSessionError {
    pub msg: String,
}

impl InvalidSessionError {
    /// The message, as it is shown to the user.
    pub fn message(&self) -> (r: String)
        ensures
            r@ == self.msg@,
    {
        self.msg.clone()
    }
}

} // verus!
