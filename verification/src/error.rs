//! Why a builder could not be compiled.

use vstd::prelude::*;

verus! {

/// The ways in which compiling a builder fails.
#[derive(Debug, Clone, Copy, PartialEq, Eq, Structural)]
pub enum Error {
    /// No class was enabled, or the enabled ones hold no character.
    NoAlphabet,
    /// The length is smaller than the number of mandatory classes.
    TooShort,
}

impl Error {
    /// The text of the message for this error.
    pub open spec fn text(self) -> Seq<char> {
        match self {
            Error::NoAlphabet => "No alphabet specified"@,
            Error::TooShort => "Length is too short to contain all mandatory alphabets"@,
        }
    }

    /// A message for the user.
    pub fn message(&self) -> (message: String)
        ensures
            message@ == self.text(),
    {
        match self {
            Error::NoAlphabet => "No alphabet specified".to_owned(),
            Error::TooShort => "Length is too short to contain all mandatory alphabets".to_owned(),
        }
    }
}

} // verus!
