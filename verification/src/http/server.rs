//! The decisions of the HTTP server for each request: how it answers a
//! request that could not be read, a CORS preflight, a route that is
//! missing or does not take the method, and a handler's error.
//!
//! Reading and writing connections, and running the middlewares and the
//! handler, is the caller's; these functions say what to do.

use vstd::prelude::*;
use crate::error::{FastError, error_prefix, error_detail};
use crate::http::middleware::{add_cors_headers, cors_headers};
use crate::http::request::Method;
use crate::http::response::Response;
use crate::http::router::{Router, RouteMatch, route_spec, has_path_spec, path_segments};

verus! {

/// A failure answer: the status, the code in the JSON body, and the
/// message.
pub struct Failure {
    pub status: u16,
    pub code: i32,
    pub message: String,
}

/// What the server does with a request that it has read.
pub enum Dispatch {
    /// Answer a CORS preflight (`OPTIONS`) directly.
    Preflight,
    /// Run the middlewares and the matched route's handler.
    Handle(RouteMatch),
    /// Answer with a failure.
    Fail(Failure),
}

/// The HTTP server: its router and its global middlewares, in the order
/// in which they run.
pub struct HttpServer<M> {
    pub router: Router,
    pub global_middlewares: Vec<M>,
}

impl<M> HttpServer<M> {
    /// A server for the given router, with no middlewares.
    pub fn new(router: Router) -> (r: Self)
        ensures
            r.router.model() == router.model(),
            r.global_middlewares@.len() == 0,
    {
        HttpServer { router, global_middlewares: Vec::new() }
    }

    /// Adds a global middleware, to run after those added before it.
    pub fn use_middleware(&mut self, mw: M)
        ensures
            final(self).global_middlewares@ == old(self).global_middlewares@.push(mw),
            final(self).router.model() == old(self).router.model(),
    {
        self.global_middlewares.push(mw);
    }
}

/// Decides what to do with a request of `method` for `path`: a preflight
/// for `OPTIONS`; the handler of the matching route; otherwise 405 when the
/// path has a handler for another method, and 404 when it has none.
pub fn dispatch(router: &Router, method: &Method, path: &str) -> (r: Dispatch)
    ensures
        method@.0 == 6 ==> r is Preflight,
        method@.0 != 6 ==> match route_spec(router.model(), method@, path_segments(path@)) {
            Some((h, params)) => r matches Dispatch::Handle(rm) && rm.handler == h && rm.params@
                == params,
            None => r matches Dispatch::Fail(f) && if has_path_spec(
                router.model(),
                path_segments(path@),
            ) {
                f.status == 405 && f.code == 405 && f.message@ == "Method Not Allowed"@
            } else {
                f.status == 404 && f.code == 404 && f.message@ == "Not Found"@
            },
        },
{
    if let Method::Options = method {
        return Dispatch::Preflight;
    }
    match router.find(method, path) {
        Some(rm) => Dispatch::Handle(rm),
        None => {
            if router.has_path(path) {
                Dispatch::Fail(
                    Failure { status: 405, code: 405, message: "Method Not Allowed".to_string() },
                )
            } else {
                Dispatch::Fail(Failure { status: 404, code: 404, message: "Not Found".to_string() })
            }
        },
    }
}

/// The failure that answers a handler's error: 404, 401 and 422 with the
/// error's message for a missing record, a refused authorization and a
/// failed validation; 500 `Internal Server Error` for any other error.
pub fn failure_for_error(e: &FastError) -> (r: Failure)
    ensures
        match e {
            FastError::NotFound(m) => r.status == 404 && r.code == 404 && r.message@ == m@,
            FastError::Unauthorized(m) => r.status == 401 && r.code == 401 && r.message@ == m@,
            FastError::Validation(m) => r.status == 422 && r.code == 422 && r.message@ == m@,
            _ => r.status == 500 && r.code == 500 && r.message@ == "Internal Server Error"@,
        },
{
    match e {
        FastError::NotFound(m) => Failure { status: 404, code: 404, message: m.clone() },
        FastError::Unauthorized(m) => Failure { status: 401, code: 401, message: m.clone() },
        FastError::Validation(m) => Failure { status: 422, code: 422, message: m.clone() },
        _ => Failure { status: 500, code: 500, message: "Internal Server Error".to_string() },
    }
}

/// The failure that answers a request that could not be read: 400 with
/// `Bad Request: ` and the error's text.
pub fn failure_for_bad_request(e: &FastError) -> (r: Failure)
    ensures
        r.status == 400,
        r.code == 400,
        r.message@.take(13) == "Bad Request: "@,
        r.message@.skip(13).take(error_prefix(*e).len() as int) == error_prefix(*e),
        error_detail(*e) matches Some(m) ==> r.message@ == "Bad Request: "@ + error_prefix(*e) + m,
{
    let mut message = String::new();
    message.append("Bad Request: ");
    let text = e.to_string();
    message.append(text.as_str());
    proof {
        reveal_strlit("Bad Request: ");
    }
    assert(message@.take(13) =~= "Bad Request: "@);
    assert(message@.skip(13) =~= text@);
    Failure { status: 400, code: 400, message }
}

/// The answer to a CORS preflight: 204 with the CORS headers.
pub fn preflight_response() -> (r: Response)
    ensures
        r.status == 204,
        r.headers@ == map!["content-type"@ => "text/plain; charset=utf-8"@].union_prefer_right(
            cors_headers(),
        ),
        r.body@.len() == 0,
{
    let mut resp = Response::new(204);
    add_cors_headers(&mut resp);
    resp
}

} // verus!
