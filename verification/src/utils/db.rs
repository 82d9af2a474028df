//! Folding the errors of storage and network calls into the one error that a
//! caller may see.

use crate::data::error::Error;
use vstd::prelude::*;

verus! {

/// Turns any failure into `InternalServerError` and keeps a success as it is.
/// The two methods differ only in how loudly a caller may wish to log.
pub trait StanderizeError<V> {
    /// The success, if there is one.
    spec fn success(self) -> Option<V> where Self: Sized;

    fn warn_err(self) -> (folded: Result<V, Error>) where Self: Sized
        ensures
            folded == (match self.success() {
                Some(value) => Ok::<V, Error>(value),
                None => Err::<V, Error>(Error::InternalServerError),
            }),
    ;

    fn debug_err(self) -> (folded: Result<V, Error>) where Self: Sized
        ensures
            folded == (match self.success() {
                Some(value) => Ok::<V, Error>(value),
                None => Err::<V, Error>(Error::InternalServerError),
            }),
    ;
}

impl<V, E> StanderizeError<V> for Result<V, E> {
    open spec fn success(self) -> Option<V> {
        match self {
            Ok(value) => Some(value),
            Err(_) => None,
        }
    }

    fn warn_err(self) -> (folded: Result<V, Error>) {
        match self {
            Ok(value) => Ok(value),
            Err(_) => Err(Error::InternalServerError),
        }
    }

    fn debug_err(self) -> (folded: Result<V, Error>) {
        match self {
            Ok(value) => Ok(value),
            Err(_) => Err(Error::InternalServerError),
        }
    }
}

/// The error shown for any failure of the database.
pub fn map_database_error<E>(e: E) -> (shown: Error)
    ensures
        shown == Error::InternalServerError,
{
    Error::InternalServerError
}

} // verus!
