use vstd::prelude::*;

verus! {

/// Why a stored buffer could not be decoded, or another failure described in words.
#[derive(Debug, PartialEq, Eq)]
pub enum Error {
    /// The buffer is shorter than the fixed-size header.
    TooShort { found: usize },
    /// The buffer's length differs from the length its header implies.
    LengthMismatch { expected: u128, found: usize },
    /// A failure described by a message.
    Message(String),
}

impl Error {
    /// An error carrying the given message.
    pub fn new(msg: String) -> (r: Error)
        ensures
            r == Error::Message(msg),
    {
        Error::Message(msg)
    }
}

} // verus!
