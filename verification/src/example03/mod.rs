//! An application over a user repository that is chosen at run time.
//!
//! The application holds its repository as a trait object: whichever
//! implementation is handed to it when it is built is the one it uses.

pub mod user;
pub mod user_repository;
pub mod app;
