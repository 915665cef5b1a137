//! A demo server with one route, `GET /hello/{name}`. What it answers is
//! computed here; listening and serving are left to the program around it.

pub mod api;
