//! Stream reassembly and application-protocol decoding for captured traffic:
//! per-flow accumulation buffers, HTTP/1.x message completion and body
//! decoding, TLS record re-synchronisation, and transport header fields.
pub mod application;
pub mod chunked;
pub mod content;
pub mod flow;
pub mod http;
pub mod message;
pub mod tls;
pub mod transport;
