//! Fixed configuration of the server.

use vstd::prelude::*;

verus! {

/// Value of the `Server` header.
pub const SERVER_NAME: &'static str = "dupunkto/waiter (Rust)";

/// Value of the `Content-Language` header.
pub const CONTENT_LANGUAGE: &'static str = "en-US";

/// Charset appended to the content type of served files.
pub const CONTENT_CHARSET: &'static str = "UTF-8";

/// Cache time for static assets (in seconds).
pub const CACHE_TIME_ASSETS: u64 = 31536000;

/// Cache time for content (in seconds).
pub const CACHE_TIME_CONTENT: u64 = 43200;

/// Directory to serve.
pub const SCOPE: &'static str = ".";

/// Realm announced when credentials are missing.
pub const AUTH_REALM: &'static str = "PUT";

/// The one user that may upload.
pub const AUTH_USERNAME: &'static str = "root";

/// Password of that user.
pub const AUTH_PASSWORD: &'static str = "toor";

} // verus!
