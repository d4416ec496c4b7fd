//! The error of writing or reading an S-expression.

use vstd::prelude::*;

verus! {

/// Why a record could not be written into or read out of an S-expression.
#[derive(Debug)]
pub struct Error {
    message: String,
}

impl Error {
    /// An error with this message.
    pub fn new(message: String) -> (r: Self)
        ensures
            r.message_spec() == message@,
    {
        Error { message }
    }

    /// The message.
    pub closed spec fn message_spec(&self) -> Seq<char> {
        self.message@
    }

    /// The message.
    pub fn message(&self) -> (r: &str)
        ensures
            r@ == self.message_spec(),
    {
        self.message.as_str()
    }
}

} // verus!
