//! What can go wrong around the library.

use vstd::prelude::*;

verus! {

/// Custom error type. Each variant holds the words of the failure that it
/// stands for.
#[derive(Clone, Debug)]
pub enum Error {
    /// Error that may occur during I/O operations.
    IoError(String),
    /// Error that may occur while receiving messages from the channel.
    ReceiveError(String),
    /// Error that may occur in the core library.
    SysctlError(String),
}

impl Error {
    /// The words of the failure that the error stands for.
    pub open spec fn cause(self) -> Seq<char> {
        match self {
            Error::IoError(words) => words@,
            Error::ReceiveError(words) => words@,
            Error::SysctlError(words) => words@,
        }
    }

    /// How the error is shown.
    pub open spec fn shown(self) -> Seq<char> {
        match self {
            Error::IoError(words) => "IO error: `"@ + words@ + "`"@,
            Error::ReceiveError(words) => "Channel receive error: `"@ + words@ + "`"@,
            Error::SysctlError(words) => words@,
        }
    }

    /// The text that shows the error.
    pub fn to_string(&self) -> (text: String)
        ensures
            text@ == self.shown(),
    {
        match self {
            Error::IoError(words) => {
                let mut text = String::from_str("IO error: `");
                text.append(words.as_str());
                text.append("`");
                text
            },
            Error::ReceiveError(words) => {
                let mut text = String::from_str("Channel receive error: `");
                text.append(words.as_str());
                text.append("`");
                text
            },
            Error::SysctlError(words) => words.clone(),
        }
    }
}

/// Type alias for the standard [`Result`] type.
pub type Result<T> = core::result::Result<T, Error>;

} // verus!
