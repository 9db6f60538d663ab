//! A minimal HTTP/1.1 request/response protocol layer, verified with Verus.
//!
//! The library parses a single request from a raw byte buffer, routes it over
//! a closed set of endpoints, and serializes the response back into bytes,
//! optionally gzip-compressing an echo body when the client negotiated it.
//! Socket handling and the filesystem stay outside; the library exchanges
//! plain byte vectors with its surroundings.

pub mod bytes;
pub mod encoding;
pub mod laws;
pub mod request;
pub mod response;
pub mod router;
pub mod tokens;
