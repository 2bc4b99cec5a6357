//! The framework's service providers, and the settings that they read from
//! the configuration with their defaults.

use vstd::prelude::*;
use crate::text::{decimal, push_decimal};

verus! {

/// Registers the configuration, read from `config/config.yaml`.
#[derive(Debug, Clone, Copy)]
pub struct ConfigServiceProvider;

/// Sets up logging at the configured level.
#[derive(Debug, Clone, Copy)]
pub struct LogServiceProvider;

/// Registers the in-memory cache.
#[derive(Debug, Clone, Copy)]
pub struct CacheServiceProvider;

/// Registers the database manager.
#[derive(Debug, Clone, Copy)]
pub struct DatabaseServiceProvider;

/// Starts the HTTP server with its global middlewares.
pub struct HttpServiceProvider<M> {
    pub middlewares: Vec<M>,
}

impl<M> HttpServiceProvider<M> {
    /// A provider whose server runs the given middlewares, in order.
    pub fn new(middlewares: Vec<M>) -> (r: Self)
        ensures
            r.middlewares@ == middlewares@,
    {
        HttpServiceProvider { middlewares }
    }
}

/// The text of a setting, or the default when it is not set.
pub open spec fn setting_or(v: Option<Seq<char>>, default: Seq<char>) -> Seq<char> {
    match v {
        Some(s) => s,
        None => default,
    }
}

fn text_or(v: Option<&str>, default: &str) -> (r: String)
    ensures
        r@ == setting_or(
            match v {
                Some(s) => Some(s@),
                None => None,
            },
            default@,
        ),
{
    match v {
        Some(s) => s.to_string(),
        None => default.to_string(),
    }
}

/// The address that the server listens on: `app.host` (default
/// `0.0.0.0`), a colon, and `app.port` (default 8080).
pub fn server_address(host: Option<&str>, port: Option<u16>) -> (r: String)
    ensures
        r@ == setting_or(
            match host {
                Some(h) => Some(h@),
                None => None,
            },
            "0.0.0.0"@,
        ) + ":"@ + decimal(
            match port {
                Some(p) => p as nat,
                None => 8080,
            },
        ),
{
    let mut addr = text_or(host, "0.0.0.0");
    addr.append(":");
    let p: u16 = match port {
        Some(p) => p,
        None => 8080,
    };
    push_decimal(&mut addr, p as u64);
    addr
}

/// The log level: `log.level`, or `info`.
pub fn log_level(level: Option<&str>) -> (r: String)
    ensures
        r@ == setting_or(
            match level {
                Some(l) => Some(l@),
                None => None,
            },
            "info"@,
        ),
{
    text_or(level, "info")
}

/// The database file: `database.path`, or `database.db`.
pub fn database_path(path: Option<&str>) -> (r: String)
    ensures
        r@ == setting_or(
            match path {
                Some(p) => Some(p@),
                None => None,
            },
            "database.db"@,
        ),
{
    text_or(path, "database.db")
}

/// The database driver: `database.driver`, or `sqlite`.
pub fn database_driver(driver: Option<&str>) -> (r: String)
    ensures
        r@ == setting_or(
            match driver {
                Some(d) => Some(d@),
                None => None,
            },
            "sqlite"@,
        ),
{
    text_or(driver, "sqlite")
}

} // verus!
