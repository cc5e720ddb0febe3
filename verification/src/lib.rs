//! A small HTTP file server, without the sockets and the disk.
//!
//! One request is served in two steps. [`receive_request`] takes the bytes
//! that arrived on a connection, reads the request line and resolves its
//! path to a file under `./pages`. [`respond`] takes what reading that file
//! gave and decides what is sent back. Accepting connections, reading the
//! file and writing the answer are left to the caller.

pub mod connection;
pub mod content_type;
pub mod request;
pub mod resolve;
pub mod response;
pub mod text;

pub use connection::{receive_request, resolve_request};
pub use content_type::get_content_type;
pub use request::{parse_request, Headers};
pub use resolve::{find_extension, has_extension};
pub use response::{respond, serve_file, FileRead, Reply};
