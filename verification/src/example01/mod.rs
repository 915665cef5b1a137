//! A tracker that reports what it does through an event sender.
//!
//! The tracker holds its sender as a trait object, so that a sender that
//! records what it is given can stand in for the one used in production.

pub mod events;
pub mod handlers;
pub mod tracker;
