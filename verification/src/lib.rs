//! Typed client core for a movie-social-network REST API.
//!
//! The crate covers the request signing and dispatch pipeline: URL
//! construction, query-string serialization, HMAC-SHA256 request
//! signatures, header assembly, and response classification.  Network
//! transport and the per-endpoint data-mapping glue live outside this
//! library and drive it through the types and functions exported here.

pub mod client;
pub mod defs;
pub mod encode;
pub mod error;
pub mod film;
pub mod json;
pub mod text;

pub use client::{ApiKeyPair, Client, ContentType, Method, PreparedRequest};
pub use defs::AccessToken;
pub use error::Error;
