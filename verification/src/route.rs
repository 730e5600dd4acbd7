//! The router: which behaviour a request gets, by method and path alone.

use vstd::prelude::*;
use vstd::string::*;

verus! {

/// The method of a request. Routing tells `Get` and `Post` from the rest.
#[derive(Clone, Copy, Debug, PartialEq, Eq, Structural)]
pub enum Method {
    Options,
    Get,
    Post,
    Put,
    Delete,
    Head,
    Trace,
    Connect,
    Patch,
    /// Any method without a variant of its own.
    Other,
}

/// The behaviour that a request is dispatched to.
#[derive(Clone, Copy, Debug, PartialEq, Eq, Structural)]
pub enum Route {
    /// Answer with the fixed prompt.
    Greeting,
    /// Stream the body to storage.
    Upload,
    /// Answer that there is nothing here.
    NotFound,
}

/// Whether `path` is the root path, a single slash.
pub open spec fn is_root(path: Seq<char>) -> bool {
    path.len() == 1 && path[0] == '/'
}

/// The route of a request: every `Post` is an upload, a `Get` of the root is
/// greeted, and nothing else is found.
pub open spec fn route_of(method: Method, path: Seq<char>) -> Route {
    if method == Method::Post {
        Route::Upload
    } else if method == Method::Get && is_root(path) {
        Route::Greeting
    } else {
        Route::NotFound
    }
}

/// Dispatches on method and path. Reads nothing else and changes nothing.
pub fn route(method: Method, path: &str) -> (r: Route)
    ensures
        r == route_of(method, path@),
{
    match method {
        Method::Post => Route::Upload,
        Method::Get => {
            if path.unicode_len() == 1 && path.get_char(0) == '/' {
                Route::Greeting
            } else {
                Route::NotFound
            }
        },
        _ => Route::NotFound,
    }
}

} // verus!
