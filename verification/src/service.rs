//! The service: what becomes of one request.

use crate::bridge::{start, Action, Bridge};
use crate::response::{greeting, not_found, Response};
use crate::route::{route, route_of, Method, Route};
use vstd::prelude::*;

verus! {

/// The error of the HTTP library, `hyper::Error`. Verus knows nothing of
/// what is inside it.
#[verifier::external_type_specification]
#[verifier::external_body]
pub struct ExHyperError(hyper::Error);

/// The service. It keeps nothing from one request to the next.
#[derive(Clone, Copy, Debug, PartialEq, Eq, Structural)]
pub struct Proxy;

/// How a request is handled.
#[derive(Debug)]
pub enum Handling {
    /// Answer at once with this response.
    Reply(Response),
    /// Run this bridge task, beginning with this action, and answer with
    /// what its completion signal resolves to.
    Upload(Bridge, Action),
}

impl Proxy {
    /// Handles a request, given its method and path: a `GET` of the root
    /// is greeted, every `POST` begins an upload of its body, and anything
    /// else is not found. Only an upload has anything done besides the
    /// answer.
    pub fn call(&mut self, method: Method, path: &str) -> (handling: Handling)
        ensures
            match route_of(method, path@) {
                Route::Greeting => handling matches Handling::Reply(response) && response@
                    == greeting(),
                Route::Upload => handling matches Handling::Upload(bridge, action) && (
                bridge.phase_of(), action@) == start(path@),
                Route::NotFound => handling matches Handling::Reply(response) && response@
                    == not_found(),
            },
            *final(self) == *old(self),
    {
        match route(method, path) {
            Route::Greeting => Handling::Reply(Response::greeting()),
            Route::Upload => {
                let (bridge, action) = Bridge::start(path);
                Handling::Upload(bridge, action)
            },
            Route::NotFound => Handling::Reply(Response::not_found()),
        }
    }
}

/// Makes the service for a new connection. Always succeeds.
pub fn spawn_service() -> (service: Result<Proxy, hyper::Error>)
    ensures
        service is Ok,
{
    Ok(Proxy)
}

} // verus!
