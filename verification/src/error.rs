//! The error that a provider stream reports.

use vstd::prelude::*;

verus! {

/// Errors that reach the consumer of a response stream.
#[derive(Debug)]
pub enum ApiError {
    /// The stream, or the provider at its other end, failed.
    Stream(String),
}

impl DeepView for ApiError {
    type V = Seq<char>;

    /// The message.
    open spec fn deep_view(&self) -> Seq<char> {
        match self {
            ApiError::Stream(message) => message@,
        }
    }
}

} // verus!
