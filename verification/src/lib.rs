//! Small, self-contained examples of components whose collaborators can be
//! swapped: an event sender behind a tracker, and a user repository behind an
//! application, once resolved at run time and once fixed at build time.

pub mod name_order;
pub mod listing;
pub mod roster;
pub mod report;
pub mod dispatch;
pub mod example01;
pub mod example02;
pub mod example03;
pub mod example04;
pub mod example05;
pub mod example06;
pub mod example07;
