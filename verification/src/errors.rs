//! The error envelope carried back to callers across the host boundary.

use vstd::prelude::*;

verus! {

/// Result type used by operations whose failures are reported to the host
/// as an error envelope.
pub type DIDResult<T> = Result<T, DIDError>;

/// An error reported across the host boundary: a human-readable message
/// describing the failed operation.
#[derive(Debug, Clone, PartialEq, Eq)]
pub struct DIDError {
    message: String,
}

impl View for DIDError {
    type V = Seq<char>;

    closed spec fn view(&self) -> Seq<char> {
        self.message@
    }
}

impl DIDError {
    /// The message text, for formatting into a response envelope.
    pub fn message(&self) -> (r: &String)
        ensures
            r@ == self@,
    {
        &self.message
    }
}

/// Builds an error carrying the given message.
pub fn new_error(message: &str) -> (r: DIDError)
    ensures
        r@ == message@,
{
    DIDError { message: message.to_string() }
}

} // verus!
