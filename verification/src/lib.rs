//! A small static file server, written as a pure decision core.
//!
//! The library decides; the program around it reads files and speaks HTTP.
//! A request path is routed, turned into the name of a file under the root
//! directory, and answered from what the caller found on disk there, with the
//! index file standing in for anything that is missing.

pub mod boot;
pub mod bytes;
pub mod escape;
pub mod laws;
pub mod media;
pub mod path;
pub mod route;
pub mod serve;
