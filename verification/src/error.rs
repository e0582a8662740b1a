//! Error kind seen by the request-handling core.

use vstd::prelude::*;

verus! {

/// Error raised by the core itself or propagated from the data store.
#[derive(Debug, Clone)]
pub enum ApiError {
    /// A malformed value was met while handling a request.
    InternalError(String),
    /// The data accessor reported a failure; the message is carried through.
    DataStoreError(String),
}

impl ApiError {
    /// The text that a 500 response carries for this error.
    pub open spec fn spec_message(self) -> Seq<char> {
        match self {
            ApiError::InternalError(m) => m@,
            ApiError::DataStoreError(m) => m@,
        }
    }

    /// Returns the error text.
    pub fn message(&self) -> (r: &str)
        ensures
            r@ == self.spec_message(),
    {
        match self {
            ApiError::InternalError(m) => m.as_str(),
            ApiError::DataStoreError(m) => m.as_str(),
        }
    }
}

} // verus!
