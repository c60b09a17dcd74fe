//! The errors a push can end in.

use vstd::prelude::*;

verus! {

/// What went wrong while merging a push: the exposition text did not parse,
/// or a merge rule was broken (a name, kind or label-set mismatch, an
/// unusable clear mode, or an unimplemented summary merge).
#[derive(Debug, Clone, PartialEq)]
pub enum AggregationError {
    ParseError(String),
    Error(String),
}

impl AggregationError {
    /// The error's text, for callers that report it.
    pub fn message(&self) -> (r: String)
        ensures
            match self {
                AggregationError::ParseError(m) => r@ == m@,
                AggregationError::Error(m) => r@ == m@,
            },
    {
        match self {
            AggregationError::ParseError(m) => m.clone(),
            AggregationError::Error(m) => m.clone(),
        }
    }
}

/// The error an authenticator can end in.
#[derive(Debug, Clone, PartialEq, Eq, Structural)]
pub struct AuthError {}

} // verus!
