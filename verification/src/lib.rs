//! Verified core of a Cloudflare tunnel client: the decisions, encodings and
//! checks that sit between the edge's streams and the local origin.

pub mod error;
pub mod outside;
pub mod protocol;
pub mod text;
pub mod metadata;
pub mod decimal;
pub mod request;
pub mod response;
pub mod h2;
pub mod stream;
pub mod edge;
pub mod config;
pub mod rpc;
pub mod join;
pub mod pem;
