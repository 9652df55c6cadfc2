//! Matching a request path against the known routes.

use vstd::prelude::*;
use vstd::string::*;
use crate::bytes::{has_prefix, same_bytes, starts_with, text};

verus! {

/// The routes of the server.
#[derive(Clone, Copy, Debug, PartialEq, Eq)]
pub enum Route {
    /// The liveness check at `/`.
    Root,
    /// `/echo/<content>`.
    Echo,
    /// Any path that begins with `/user-agent`.
    UserAgent,
    /// `/files/<name>`.
    Files,
    /// Everything else.
    NotFound,
}

/// The route of a path. The patterns are tried in this order and the first
/// match decides: `/` exactly, then the prefixes `/echo/`, `/user-agent` and
/// `/files/`.
pub open spec fn route_of(path: Seq<u8>) -> Route {
    if path == text("/") {
        Route::Root
    } else if has_prefix(path, text("/echo/")) {
        Route::Echo
    } else if has_prefix(path, text("/user-agent")) {
        Route::UserAgent
    } else if has_prefix(path, text("/files/")) {
        Route::Files
    } else {
        Route::NotFound
    }
}

/// Finds the route of a path.
pub fn route(path: &[u8]) -> (r: Route)
    ensures
        r == route_of(path@),
{
    if same_bytes(path, "/".as_bytes()) {
        Route::Root
    } else if starts_with(path, "/echo/".as_bytes()) {
        Route::Echo
    } else if starts_with(path, "/user-agent".as_bytes()) {
        Route::UserAgent
    } else if starts_with(path, "/files/".as_bytes()) {
        Route::Files
    } else {
        Route::NotFound
    }
}

} // verus!
