//! Katana: a verified HTTP protocol engine for a single-binary static-file
//! server.
//!
//! The crate covers the protocol core: the HTTP vocabulary (methods,
//! versions, statuses), the request parser (request line, query string,
//! headers, cookies), the response engine (path resolution policy, directory
//! listings, error pages, byte-range plans, wire serialization) and the
//! per-method post-processing. Listening sockets, filesystem probing and the
//! actual byte shoveling live outside the library and hand it plain values.

pub mod colorful;
pub mod config;
pub mod filetype;
pub mod http;
pub mod keyval;
pub mod logger;
pub mod request;
pub mod response;
pub mod server;
pub mod strutil;
pub mod templates;
pub mod utils;

