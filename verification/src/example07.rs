//! The failing function once more, for assertions on the variant of an
//! error by pattern.

pub use crate::example05::{function_returning_an_error, CustomError};
