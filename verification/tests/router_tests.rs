use rustfast::http::request::Method;
use rustfast::http::router::{path_segments_of, Router};
use rustfast::routes::{register_all, HEALTH, USERS_DESTROY, USERS_INDEX, USERS_SHOW, USERS_STORE};

#[test]
fn static_route_is_found() {
    let mut r = Router::new();
    r.get("/api/users", 7);
    let m = r.find(&Method::Get, "/api/users").expect("route");
    assert_eq!(m.handler, 7);
    assert_eq!(m.params.len(), 0);
}

#[test]
fn param_route_binds_segment() {
    let mut r = Router::new();
    r.get("/api/users/:id", 3);
    let m = r.find(&Method::Get, "/api/users/42").expect("route");
    assert_eq!(m.handler, 3);
    assert_eq!(m.params.get("id").map(|s| s.as_str()), Some("42"));
}

#[test]
fn two_params_are_bound() {
    let mut r = Router::new();
    r.get("/posts/:post/comments/:comment", 1);
    let m = r.find(&Method::Get, "/posts/9/comments/x1").expect("route");
    assert_eq!(m.params.get("post").map(|s| s.as_str()), Some("9"));
    assert_eq!(m.params.get("comment").map(|s| s.as_str()), Some("x1"));
}

#[test]
fn wildcard_takes_the_rest() {
    let mut r = Router::new();
    r.get("/static/*", 5);
    let m = r.find(&Method::Get, "/static/css/site.css").expect("route");
    assert_eq!(m.handler, 5);
    assert_eq!(m.params.get("*").map(|s| s.as_str()), Some("css/site.css"));
}

#[test]
fn static_beats_param() {
    let mut r = Router::new();
    r.get("/users/:id", 1);
    r.get("/users/me", 2);
    assert_eq!(r.find(&Method::Get, "/users/me").unwrap().handler, 2);
    assert_eq!(r.find(&Method::Get, "/users/5").unwrap().handler, 1);
}

#[test]
fn method_mismatch_keeps_path() {
    let mut r = Router::new();
    r.post("/items", 1);
    assert!(r.find(&Method::Get, "/items").is_none());
    assert!(r.has_path("/items"));
    assert!(!r.has_path("/other"));
}

#[test]
fn trailing_and_double_slashes_are_ignored() {
    let mut r = Router::new();
    r.get("/a/b", 1);
    assert_eq!(r.find(&Method::Get, "/a/b/").unwrap().handler, 1);
    assert_eq!(r.find(&Method::Get, "//a//b").unwrap().handler, 1);
    assert_eq!(path_segments_of("/a//b/"), vec!["a".to_string(), "b".to_string()]);
}

#[test]
fn re_registering_replaces_handler() {
    let mut r = Router::new();
    r.put("/x", 1);
    r.put("/x", 2);
    assert_eq!(r.find(&Method::Put, "/x").unwrap().handler, 2);
}

#[test]
fn groups_prefix_paths() {
    let mut r = Router::new();
    let g = r.group("/api");
    g.get(&mut r, "/ping", 1);
    g.patch(&mut r, "/ping", 2);
    let v1 = g.group("/v1");
    v1.delete(&mut r, "/thing/:id", 3);
    assert_eq!(r.find(&Method::Get, "/api/ping").unwrap().handler, 1);
    assert_eq!(r.find(&Method::Patch, "/api/ping").unwrap().handler, 2);
    let m = r.find(&Method::Delete, "/api/v1/thing/8").unwrap();
    assert_eq!(m.handler, 3);
    assert_eq!(m.params.get("id").map(|s| s.as_str()), Some("8"));
}

#[test]
fn application_routes_are_registered() {
    let mut r = Router::new();
    register_all(&mut r);
    assert_eq!(r.find(&Method::Get, "/api/users").unwrap().handler, USERS_INDEX);
    assert_eq!(r.find(&Method::Post, "/api/users").unwrap().handler, USERS_STORE);
    assert_eq!(r.find(&Method::Get, "/api/users/abc").unwrap().handler, USERS_SHOW);
    assert_eq!(r.find(&Method::Delete, "/api/users/abc").unwrap().handler, USERS_DESTROY);
    assert_eq!(r.find(&Method::Get, "/api/health").unwrap().handler, HEALTH);
    assert!(r.find(&Method::Put, "/api/users").is_none());
}

#[test]
fn has_path_exactly_when_some_method_is_routed() {
    let mut r = Router::new();
    r.get("/x", 5);
    assert!(r.has_path("/x"));
    assert!(r.find(&Method::Get, "/x").is_some());
    assert!(r.find(&Method::Post, "/x").is_none());
    assert!(!r.has_path("/y"));
    assert!(r.find(&Method::Get, "/y").is_none());
    assert!(!r.has_path("/"));
}
