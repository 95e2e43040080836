//! What can go wrong.

use vstd::prelude::*;

verus! {

/// The two ways in which a search can fail, each with a message for the user.
#[derive(Debug, PartialEq, Eq)]
pub enum GrepError {
    /// An argument that is needed was not given.
    Argument(String),
    /// The file could not be read.
    Io(String),
}

impl GrepError {
    /// The message that the error carries.
    pub open spec fn message_of(self) -> Seq<char> {
        match self {
            GrepError::Argument(message) => message@,
            GrepError::Io(message) => message@,
        }
    }

    /// The message that the error carries.
    pub fn message(&self) -> (text: String)
        ensures
            text@ == self.message_of(),
    {
        match self {
            GrepError::Argument(message) => message.clone(),
            GrepError::Io(message) => message.clone(),
        }
    }
}

} // verus!
