//! Request-to-resource resolution for a small static file server: sandboxed
//! path lookup, MIME types, cache policy, content negotiation, basic
//! authentication and upload planning, all over plain values.

pub mod auth;
pub mod config;
pub mod content_encoding;
pub mod files;
pub mod mime;
pub mod negotiation;
pub mod resolve;
pub mod response;
pub mod server;
pub mod text;
pub mod uploads;
