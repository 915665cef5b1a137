//! An application over a user repository whose type is fixed at build time.
//!
//! The application is generic over the repository: a build binds it to one
//! implementation, and another build, for tests say, may bind another
//! without touching the application.

pub mod user;
pub mod user_repository;
pub mod app;
