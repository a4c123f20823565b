//! The bot's error type: a message describing what went wrong.

use vstd::prelude::*;

verus! {

/// An error with a message.
#[derive(Debug)]
pub struct Error {
    pub message: String,
}

impl Error {
    /// The message of this error.
    pub closed spec fn text(&self) -> Seq<char> {
        self.message@
    }

    /// An error with the given message.
    pub fn new(message: String) -> (r: Error)
        ensures
            r.text() == message@,
    {
        Error { message }
    }

    /// An error with a copy of the given message.
    pub fn from_message(message: &str) -> (r: Error)
        ensures
            r.text() == message@,
    {
        Error { message: message.to_owned() }
    }

    /// The message of this error, as it is displayed.
    pub fn message(&self) -> (r: &str)
        ensures
            r@ == self.text(),
    {
        self.message.as_str()
    }
}

impl From<String> for Error {
    fn from(message: String) -> (r: Error) {
        Error { message }
    }
}

impl vstd::std_specs::convert::FromSpecImpl<String> for Error {
    open spec fn obeys_from_spec() -> bool {
        true
    }

    open spec fn from_spec(message: String) -> Error {
        Error { message }
    }
}

} // verus!
