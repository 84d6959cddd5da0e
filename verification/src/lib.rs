//! A typed client for a remote authentication service.
//!
//! The library covers the request/response pipeline of five operations
//! (authenticate, refresh, validate, signout, invalidate): encoding a typed
//! request as a JSON payload, classifying an HTTP response as success or
//! domain error, and decoding the response body back into a typed result.
//! Network transport is left to the caller.

pub mod errors;
pub mod json;
pub mod objects;
pub mod requests;
pub mod roundtrip;

pub use json::Json;

use vstd::prelude::*;

verus! {

/// The production endpoint of the authentication service; callers may
/// pass any other base url instead.
pub fn default_api_url() -> (r: &'static str)
    ensures
        r@ == "https://authserver.mojang.com"@,
{
    "https://authserver.mojang.com"
}

} // verus!
