//! Request-dispatch and response-caching core of a community radio-station
//! directory HTTP API.
//!
//! The crate covers the URL-to-operation router, the uniform parameter
//! parser, the response cache with a bounded in-process backend, the
//! per-endpoint cacheable policy, the access-metric counter keyed by
//! cleaned URL, and content-type negotiation.  Network listening, file
//! access, DNS discovery and template rendering are left to the
//! surrounding application, which hands this crate plain values.

pub mod cache;
pub mod counter;
pub mod data;
pub mod decode;
pub mod encode;
pub mod error;
pub mod params;
pub mod response;
pub mod router;
pub mod server;
pub mod strutil;
pub mod urlclean;
