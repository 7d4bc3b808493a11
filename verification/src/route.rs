//! Which handler a request path goes to.
//!
//! Only the path decides, byte for byte as it was sent; the method of the
//! request plays no part.

use vstd::prelude::*;
use vstd::slice::slice_subrange;
use vstd::string::{is_ascii_spec_bytes, StringSliceAdditionalSpecFns};

use crate::bytes::{has_prefix, same_bytes, starts_with};
use crate::path::SLASH;

verus! {

/// The handler that answers a request.
#[derive(Clone, Copy, Debug, PartialEq, Eq, Structural)]
pub enum Route {
    /// The fixed text: the path is exactly `/foo`.
    Greeting,
    /// A file under the root directory, named by what follows `/assets`.
    Asset,
    /// Any other path: a file under the root directory, named by the whole
    /// path.
    CatchAll,
}

/// The one path that is answered with the fixed text.
pub open spec fn greeting_path() -> Seq<u8> {
    "/foo".spec_bytes()
}

/// The prefix under which the files are mounted.
pub open spec fn mount() -> Seq<u8> {
    "/assets".spec_bytes()
}

/// `path` is the mount prefix itself or lies below it.
pub open spec fn is_mounted(path: Seq<u8>) -> bool {
    has_prefix(path, mount()) && (path.len() == mount().len() || path[mount().len() as int]
        == SLASH)
}

/// The handler for `path`: the first of the three rules that applies.
pub open spec fn route_of(path: Seq<u8>) -> Route {
    if path == greeting_path() {
        Route::Greeting
    } else if is_mounted(path) {
        Route::Asset
    } else {
        Route::CatchAll
    }
}

/// The part of `path` that names a file: what follows the mount prefix for
/// a mounted path, the whole path for any other.
pub open spec fn relative_of(path: Seq<u8>) -> Seq<u8> {
    if route_of(path) == Route::Asset {
        path.skip(mount().len() as int)
    } else {
        path
    }
}

/// The bytes of the greeting path.
pub proof fn greeting_path_is_spelled()
    ensures
        greeting_path() == seq![47u8, 102, 111, 111],
{
    reveal_strlit("/foo");
    is_ascii_spec_bytes("/foo");
    assert(greeting_path() =~= seq![47u8, 102, 111, 111]);
}

/// The bytes of the mount prefix.
pub proof fn mount_is_spelled()
    ensures
        mount() == seq![47u8, 97, 115, 115, 101, 116, 115],
{
    reveal_strlit("/assets");
    is_ascii_spec_bytes("/assets");
    assert(mount() =~= seq![47u8, 97, 115, 115, 101, 116, 115]);
}

/// Picks the handler for the request path `path`.
pub fn route(path: &[u8]) -> (chosen: Route)
    ensures
        chosen == route_of(path@),
{
    let prefix = "/assets".as_bytes();
    if same_bytes(path, "/foo".as_bytes()) {
        Route::Greeting
    } else if starts_with(path, prefix) && (path.len() == prefix.len() || path[prefix.len()]
        == SLASH) {
        Route::Asset
    } else {
        Route::CatchAll
    }
}

/// The part of the request path `path` that names a file.
pub fn relative(path: &[u8]) -> (rel: &[u8])
    ensures
        rel@ == relative_of(path@),
{
    match route(path) {
        Route::Asset => slice_subrange(path, "/assets".as_bytes().len(), path.len()),
        _ => path,
    }
}

} // verus!
