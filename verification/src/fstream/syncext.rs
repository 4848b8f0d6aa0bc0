//! A queue that closes before its reader is done.
use vstd::prelude::*;

verus! {

#[derive(Debug, PartialEq, Eq, Structural)]
pub enum Error {
    /// The queue was closed while more was expected of it.
    ErrUnexpectedClose,
}

/// What came out of a queue, or the error of a queue that closed too early.
pub fn recv<T>(received: Option<T>) -> (r: Result<T, Error>)
    ensures
        match received {
            Some(v) => r == Ok::<T, Error>(v),
            None => r == Err::<T, Error>(Error::ErrUnexpectedClose),
        },
{
    match received {
        Some(v) => Ok(v),
        None => Err(Error::ErrUnexpectedClose),
    }
}

} // verus!
