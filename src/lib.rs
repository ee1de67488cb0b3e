//! The connection-handling core of a small HTTP server: request parsing,
//! routing, handlers, content negotiation, response framing and the
//! admission policy of a bounded worker pool.
pub mod bytes;
pub mod encoding;
pub mod handler;
pub mod pool;
pub mod request;
pub mod response;
