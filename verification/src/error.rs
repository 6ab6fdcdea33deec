//! The crate's error type.
//!
//! Every decoder reports a wire-format violation as [`Error::Invalid`]
//! carrying a human-readable message; callers match on the `Result`
//! shape and print [`Error::to_string`] for diagnostics.
use vstd::prelude::*;

verus! {

/// A wire-format violation detected while decoding or encoding a chunk.
#[derive(Debug)]
pub enum Error {
    /// The input (or the value being encoded) breaks a RIFF rule: a
    /// truncated header, a size field that overflows its parent, a
    /// record-count disagreement, …
    Invalid(String),
}

/// The crate's `Result` alias.
pub type Result<T> = core::result::Result<T, Error>;

impl Error {
    /// Build an [`Error::Invalid`] carrying `msg`.
    pub fn invalid(msg: &str) -> (e: Error)
        ensures
            e matches Error::Invalid(m) && m@ == msg@,
    {
        Error::Invalid(msg.to_owned())
    }

    /// Build an error from an arbitrary message (the same variant as
    /// [`Error::invalid`]).
    pub fn other(msg: &str) -> (e: Error)
        ensures
            e matches Error::Invalid(m) && m@ == msg@,
    {
        Error::Invalid(msg.to_owned())
    }

    /// The error message, for diagnostics.
    pub fn to_string(&self) -> (s: String)
        ensures
            self matches Error::Invalid(m) && s@ == m@,
    {
        match self {
            Error::Invalid(m) => m.clone(),
        }
    }
}

} // verus!
