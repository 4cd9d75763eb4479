//! A small HTTP/1.1 server: request parsing, response framing, content types
//! and the decisions taken for one connection, all with verified contracts.

pub mod headers;
pub mod laws;
pub mod request;
pub mod response;
pub mod server;
pub mod text;

pub use headers::HeaderMap;
pub use request::HttpRequest;
pub use server::{ConnectionStep, FileOutcome, HttpServer, READ_BUFFER_SIZE, READ_TIMEOUT_SECS};
