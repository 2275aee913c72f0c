//! The Worker's HTTP routes.

use vstd::prelude::*;

verus! {

/// What an HTTP request asks for.
#[derive(Clone, Copy, PartialEq, Eq, Debug, Structural)]
pub enum Route {
    /// `/health`, by any method: the Worker's readiness.
    Health,
    /// `GET /`: the world's status.
    Status,
    /// Anything else.
    NotFound,
}

/// The route of a request for `path`, made with method GET or not.
pub fn route_request(path: &str, is_get: bool) -> (route: Route)
    ensures
        route == if path@ == "/health"@ {
            Route::Health
        } else if path@ == "/"@ && is_get {
            Route::Status
        } else {
            Route::NotFound
        },
{
    let path = path.to_owned();
    if path == String::from_str("/health") {
        Route::Health
    } else if path == String::from_str("/") && is_get {
        Route::Status
    } else {
        Route::NotFound
    }
}

} // verus!
