//! The library's error types.

use vstd::prelude::*;

use crate::decoder::ErrorPayload;

verus! {

/// What can end a stream or refuse a request. All three stream-level
/// kinds are terminal: once one is produced, the stream never resumes.
#[derive(Debug, Clone, PartialEq, Eq)]
pub enum Error {
    /// The transport failed while producing chunks; the text is the
    /// transport's own description, passed through verbatim.
    Transport(String),
    /// The remote side sent an in-band error object in place of data.
    Protocol(ErrorPayload),
    /// Payload bytes did not match the expected schema.
    Decode(String),
    /// A generic error with a custom message.
    Msg(String),
}

impl Error {
    /// Creates a generic error with a custom message.
    pub fn msg(message: String) -> (r: Error)
        ensures
            r == Error::Msg(message),
    {
        Error::Msg(message)
    }
}

/// An error returned by a builder, carrying the builder back so the
/// caller can correct the input and try again.
#[derive(Debug)]
pub struct BuilderError<T> {
    pub builder: T,
    pub err: Error,
}

impl<T> BuilderError<T> {
    /// Pairs a builder with the error that refused it.
    pub fn new(builder: T, error: Error) -> (r: BuilderError<T>)
        ensures
            r.builder == builder,
            r.err == error,
    {
        BuilderError { builder, err: error }
    }

    /// Pairs a builder with a generic message error.
    pub fn msg(builder: T, message: String) -> (r: BuilderError<T>)
        ensures
            r.builder == builder,
            r.err == Error::Msg(message),
    {
        BuilderError { builder, err: Error::Msg(message) }
    }

    /// Returns the inner builder.
    pub fn into_inner(self) -> (r: T)
        ensures
            r == self.builder,
    {
        self.builder
    }

    /// Returns the inner error.
    pub fn into_error(self) -> (r: Error)
        ensures
            r == self.err,
    {
        self.err
    }
}

} // verus!
