//! The decisions of a Signal K radar API: where it answers, what it answers to
//! a request, and what it sends over a stream.
//!
//! Everything here works on plain values. Sockets, clocks, files and radars are
//! the business of the program around it, which looks things up, asks here what
//! is to be done, and does it.

pub mod controls;
pub mod endpoints;
pub mod hello;
pub mod json;
pub mod order;
pub mod ordered;
pub mod radars;
pub mod requests;
pub mod response;
pub mod session;
pub mod targets;
pub mod text;
pub mod updates;
