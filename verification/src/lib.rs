//! A minimal HTTP/1.x server core: a hand-rolled request parser, a
//! method-based dispatcher, a static-file and directory-listing policy for
//! GET, a token-gated file retrieval for POST, and a byte-exact response
//! writer.  Everything here is pure byte logic; the surrounding process owns
//! the sockets and the filesystem and feeds their results back in as plain
//! values.

pub mod bytes;
pub mod config;
pub mod laws;
pub mod request;
pub mod response;
pub mod serve;
