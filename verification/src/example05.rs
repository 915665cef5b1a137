//! A function that fails with the error it is given: something to assert
//! error values and error variants against.

use vstd::prelude::*;

verus! {

/// The ways in which the function can fail.
#[derive(Debug, PartialEq)]
pub enum CustomError {
    NotFound,
    Unauthorized,
    NetworkError,
    ParseError(String),
    Unknown,
}

/// Fails with `error`.
pub fn function_returning_an_error(error: CustomError) -> (outcome: Result<(), CustomError>)
    ensures
        outcome == Err::<(), CustomError>(error),
{
    Err(error)
}

} // verus!
