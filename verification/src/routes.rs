//! The application's routes. Each route names its handler by a number; the
//! handlers themselves are the application's.

use vstd::prelude::*;
use crate::http::request::Method;
use crate::http::router::{HandlerId, Router, ins, path_segments};

verus! {

/// `GET /api/users`: the list of users.
pub const USERS_INDEX: HandlerId = 0;

/// `POST /api/users`: create a user.
pub const USERS_STORE: HandlerId = 1;

/// `GET /api/users/:id`: one user.
pub const USERS_SHOW: HandlerId = 2;

/// `DELETE /api/users/:id`: delete a user.
pub const USERS_DESTROY: HandlerId = 3;

/// `GET /api/health`: the health check.
pub const HEALTH: HandlerId = 4;

/// The route tree after registering the API routes on `a`.
pub open spec fn api_routes(a: Seq<crate::http::router::NodeModel>) -> Seq<
    crate::http::router::NodeModel,
> {
    let users = path_segments("/api"@ + "/users"@);
    let user = path_segments("/api"@ + "/users/:id"@);
    let health = path_segments("/api"@ + "/health"@);
    let a1 = ins(a, 0, users, Method::Get@, USERS_INDEX);
    let a2 = ins(a1, 0, users, Method::Post@, USERS_STORE);
    let a3 = ins(a2, 0, user, Method::Get@, USERS_SHOW);
    let a4 = ins(a3, 0, user, Method::Delete@, USERS_DESTROY);
    ins(a4, 0, health, Method::Get@, HEALTH)
}

/// Registers the API routes under `/api`.
pub fn register(router: &mut Router)
    ensures
        final(router).model() == api_routes(old(router).model()),
{
    let api = router.group("/api");
    api.get(router, "/users", USERS_INDEX);
    api.post(router, "/users", USERS_STORE);
    api.get(router, "/users/:id", USERS_SHOW);
    api.delete(router, "/users/:id", USERS_DESTROY);
    api.get(router, "/health", HEALTH);
}

/// Registers all routes of the application.
pub fn register_all(router: &mut Router)
    ensures
        final(router).model() == api_routes(old(router).model()),
{
    register(router);
}

} // verus!
