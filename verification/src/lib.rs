//! Request-URI logic of ConnectRPC client transports for Cloudflare Workers.
//!
//! A `FetchTransport` is built from a base URI and keeps its scheme and
//! authority; before a request is sent, its URI is rewritten so that it points
//! at that base while its path and query stay as they were. The URI's
//! components are held as plain strings (`UriParts`); composing them into an
//! absolute URI is left to the `http` crate.
pub mod error;
pub mod transport;
pub mod uri;

pub use error::TransportError;
pub use transport::{apply_built_uri, rewrite_uri, FetchTransport, Request};
pub use uri::UriParts;
