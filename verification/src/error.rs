//! The errors that the library reports to its user.
use vstd::prelude::*;

use crate::text::owned;

verus! {

/// An error, as the text that the user reads.
#[derive(Debug)]
pub struct SimdeckError {
    message: String,
}

impl SimdeckError {
    /// The text of the error.
    pub closed spec fn text(self) -> Seq<char> {
        self.message@
    }

    pub fn new(message: String) -> (error: SimdeckError)
        ensures
            error.text() == message@,
    {
        SimdeckError { message }
    }

    pub fn from_text(message: &str) -> (error: SimdeckError)
        ensures
            error.text() == message@,
    {
        SimdeckError { message: owned(message) }
    }

    pub fn message(&self) -> (message: &str)
        ensures
            message@ == self.text(),
    {
        self.message.as_str()
    }
}

} // verus!
