//! A small verified core for an OAuth2 authorization-code receiver.
//!
//! The library covers the request-handling path of a local redirect
//! endpoint: routing by method and path, extracting the `code` query
//! parameter from the request target (including percent-decoding), and
//! deciding which response and which file write each request produces.
//! The surrounding process (listening, configuration, the actual file
//! write) is ordinary I/O and lives outside the library.

pub mod http;
pub mod laws;
pub mod persist;
pub mod query;
