//! The errors that header validation reports.

use vstd::prelude::*;
use vstd::string::*;

verus! {

/// Why a candidate header word was turned down. Each variant carries a
/// short text that names the rule that fired.
#[derive(Debug, Clone, Copy)]
pub enum Error {
    /// The word is laid out as a header, but of a stream version that is not
    /// decoded here.
    UnsupportedFormat(&'static str),
    /// The word holds a code that the format reserves or forbids.
    InvalidHeader(&'static str),
}

impl Error {
    /// The text that the error carries.
    pub open spec fn reason(self) -> Seq<char> {
        match self {
            Error::UnsupportedFormat(what) => what@,
            Error::InvalidHeader(what) => what@,
        }
    }

    /// The words that come before the reason in the error's message.
    pub open spec fn prefix(self) -> Seq<char> {
        match self {
            Error::UnsupportedFormat(_) => "unsupported format: "@,
            Error::InvalidHeader(_) => "invalid header: "@,
        }
    }

    /// The error as a line of text: the kind of error, a colon, and the
    /// reason.
    pub fn message(&self) -> (text: String)
        ensures
            text@ == self.prefix() + self.reason(),
    {
        match self {
            Error::UnsupportedFormat(what) => {
                String::from_str("unsupported format: ").concat(what)
            },
            Error::InvalidHeader(what) => String::from_str("invalid header: ").concat(what),
        }
    }
}

} // verus!
