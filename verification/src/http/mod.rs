//! The HTTP side of the framework: requests, responses, request parsing,
//! routing, middleware chaining and the server's dispatch decisions.

pub mod request;
pub mod response;
pub mod router;
pub mod parser;
pub mod chunked;
pub mod middleware;
pub mod server;
