//! The error type that request handling surfaces to its embedder.

use vstd::prelude::*;

verus! {

/// An error carrying the message of whatever failed underneath.
#[derive(Debug)]
pub struct Error {
    pub inner: String,
}

impl Error {
    /// Wrap an underlying failure's message.
    pub fn new(inner: String) -> (r: Error)
        ensures
            r.inner@ == inner@,
    {
        Error { inner }
    }

    /// The message of the underlying failure.
    pub fn message(&self) -> (r: &String)
        ensures
            r@ == self.inner@,
    {
        &self.inner
    }
}

} // verus!
