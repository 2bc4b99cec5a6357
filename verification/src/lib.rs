//! RustFast: a small web application framework whose request parsing,
//! routing, responses, SQL building, caching, tokens, validation,
//! configuration and application lifecycle are verified.

pub mod text;
pub mod error;
pub mod strmap;
pub mod http;
pub mod database;
pub mod cache;
pub mod jwt;
pub mod validation;
pub mod config;
pub mod foundation;
pub mod models;
pub mod routes;
pub mod providers;
