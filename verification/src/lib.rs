//! The core of a minimal HTTP/1.1 server: requests are read from the bytes
//! of a connection, routed by method and path, and answered with the bytes
//! of a response. The library decides and computes; it neither reads nor
//! writes anything itself.

pub mod connection;
pub mod header;
pub mod laws;
pub mod listener;
pub mod request;
pub mod response;
pub mod router;
pub mod text;
pub mod utf8;

pub use header::{HttpRequestHeader, HttpResponseHeader};
pub use request::{HttpRequest, ParseError};
pub use response::HttpResponse;
