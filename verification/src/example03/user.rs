//! The record that the repositories hold.

pub use crate::example04::user::User;
