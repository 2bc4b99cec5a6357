use rustfast::error::FastError;
use rustfast::http::middleware::{add_cors_headers, MiddlewareChain, Next, Step};
use rustfast::http::request::Method;
use rustfast::http::response::Response;
use rustfast::http::router::Router;
use rustfast::http::server::{
    dispatch, failure_for_bad_request, failure_for_error, preflight_response, Dispatch, HttpServer,
};

fn router() -> Router {
    let mut r = Router::new();
    r.get("/users/:id", 1);
    r
}

#[test]
fn options_is_preflight() {
    assert!(matches!(dispatch(&router(), &Method::Options, "/anything"), Dispatch::Preflight));
    let resp = preflight_response();
    assert_eq!(resp.status, 204);
    assert_eq!(resp.headers.get("access-control-allow-origin").map(|s| s.as_str()), Some("*"));
    assert_eq!(
        resp.headers.get("access-control-allow-methods").map(|s| s.as_str()),
        Some("GET,POST,PUT,PATCH,DELETE,OPTIONS")
    );
    assert_eq!(
        resp.headers.get("access-control-allow-headers").map(|s| s.as_str()),
        Some("content-type,authorization")
    );
}

#[test]
fn matched_route_is_handled() {
    match dispatch(&router(), &Method::Get, "/users/5") {
        Dispatch::Handle(m) => {
            assert_eq!(m.handler, 1);
            assert_eq!(m.params.get("id").map(|s| s.as_str()), Some("5"));
        }
        _ => panic!("expected a handler"),
    }
}

#[test]
fn wrong_method_and_missing_route() {
    match dispatch(&router(), &Method::Post, "/users/5") {
        Dispatch::Fail(f) => {
            assert_eq!((f.status, f.code, f.message.as_str()), (405, 405, "Method Not Allowed"))
        }
        _ => panic!("expected 405"),
    }
    match dispatch(&router(), &Method::Get, "/nothing") {
        Dispatch::Fail(f) => assert_eq!((f.status, f.code, f.message.as_str()), (404, 404, "Not Found")),
        _ => panic!("expected 404"),
    }
}

#[test]
fn handler_errors_map_to_statuses() {
    let f = failure_for_error(&FastError::NotFound("no user".to_string()));
    assert_eq!((f.status, f.code, f.message.as_str()), (404, 404, "no user"));
    let f = failure_for_error(&FastError::Unauthorized("no".to_string()));
    assert_eq!((f.status, f.code), (401, 401));
    let f = failure_for_error(&FastError::Validation("bad".to_string()));
    assert_eq!((f.status, f.code, f.message.as_str()), (422, 422, "bad"));
    let f = failure_for_error(&FastError::Database("boom".to_string()));
    assert_eq!((f.status, f.code, f.message.as_str()), (500, 500, "Internal Server Error"));
}

#[test]
fn bad_request_message() {
    let f = failure_for_bad_request(&FastError::Http("Missing path".to_string()));
    assert_eq!((f.status, f.code), (400, 400));
    assert_eq!(f.message, "Bad Request: HTTP error: Missing path");
}

#[test]
fn error_texts() {
    assert_eq!(FastError::Config("x".to_string()).to_string(), "Config error: x");
    assert_eq!(FastError::Internal("y".to_string()).to_string(), "Internal error: y");
    assert_eq!(FastError::NotFound("z".to_string()).to_string(), "Not found: z");
    let io = FastError::Io(std::io::Error::new(std::io::ErrorKind::Other, "disk"));
    assert_eq!(io.to_string(), "IO error: disk");
    let bad = serde_json::from_str::<i32>("x").unwrap_err();
    let text = bad.to_string();
    assert_eq!(FastError::Json(bad).to_string(), format!("JSON error: {}", text));
}

#[test]
fn chain_runs_middlewares_in_order_then_handler() {
    let chain = MiddlewareChain::new(vec!["logger", "cors"]);
    let (s0, n1) = chain.execute();
    assert_eq!(s0, Step::Middleware(0));
    let (s1, n2) = n1.run();
    assert_eq!(s1, Step::Middleware(1));
    let (s2, n3) = n2.run();
    assert_eq!(s2, Step::Handler);
    assert_eq!(n3.run().0, Step::Handler);
    assert_eq!(Next::new(0).run().0, Step::Handler);
}

#[test]
fn cors_headers_are_added() {
    let mut r = Response::text(200, "x");
    add_cors_headers(&mut r);
    assert_eq!(r.headers.len(), 5);
    assert_eq!(r.headers.get("content-length").map(|s| s.as_str()), Some("1"));
}

#[test]
fn server_collects_middlewares() {
    let mut s: HttpServer<&str> = HttpServer::new(router());
    s.use_middleware("a");
    s.use_middleware("b");
    assert_eq!(s.global_middlewares, vec!["a", "b"]);
    assert!(s.router.has_path("/users/1"));
}
