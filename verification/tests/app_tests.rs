use std::cell::Cell;
use rustfast::database::model::Param;
use rustfast::database::transaction::{transaction_end, TxEnd};
use rustfast::database::pool::{IdlePool, PoolConfig};
use rustfast::database::sqlite::{params_to_sqlite, SqliteConfig, SqliteValue};
use rustfast::foundation::application::{Application, Phase};
use rustfast::models::user::User;
use rustfast::providers::{database_driver, database_path, log_level, server_address, HttpServiceProvider};
use rustfast::text::{join_strings, parse_i64, parse_u64, parse_u64_or, parse_usize};
use rustfast::http::request::{Method, Request};
use rustfast::http::router::Router;

#[test]
fn lifecycle_plans() {
    let mut app: Application<&str> = Application::new(".");
    app.set_providers(vec!["config", "log"]);
    app.register_provider("cache");
    assert_eq!(
        app.boot_plan(),
        vec![
            (Phase::Register, 0),
            (Phase::Register, 1),
            (Phase::Register, 2),
            (Phase::Boot, 0),
            (Phase::Boot, 1),
            (Phase::Boot, 2),
        ]
    );
    assert_eq!(
        app.shutdown_plan(),
        vec![(Phase::Shutdown, 2), (Phase::Shutdown, 1), (Phase::Shutdown, 0)]
    );
    assert_eq!(app.base_path(), ".");
    assert_eq!(app.config_path(), "./config/config.yaml");
}

#[test]
fn settings_defaults() {
    assert_eq!(server_address(None, None), "0.0.0.0:8080");
    assert_eq!(server_address(Some("127.0.0.1"), Some(3000)), "127.0.0.1:3000");
    assert_eq!(log_level(None), "info");
    assert_eq!(log_level(Some("debug")), "debug");
    assert_eq!(database_path(None), "database.db");
    assert_eq!(database_driver(None), "sqlite");
    let p = HttpServiceProvider::new(vec![1, 2]);
    assert_eq!(p.middlewares, vec![1, 2]);
}

#[test]
fn pool_and_sqlite_defaults() {
    let c = PoolConfig::default();
    assert_eq!((c.min_connections, c.max_connections, c.connection_timeout_secs), (2, 10, 30));
    assert_eq!(SqliteConfig::default().path, ":memory:");
}

#[test]
fn sqlite_binding() {
    let vals = params_to_sqlite(&vec![
        Param::Bool(true),
        Param::Bool(false),
        Param::Null,
        Param::Int(-3),
        Param::Float(1.5f64.to_bits()),
        Param::Text("t".to_string()),
        Param::Bytes(vec![1, 2]),
    ]);
    assert!(matches!(vals[0], SqliteValue::Int(1)));
    assert!(matches!(vals[1], SqliteValue::Int(0)));
    assert!(matches!(vals[2], SqliteValue::Null));
    assert!(matches!(vals[3], SqliteValue::Int(-3)));
    match &vals[4] {
        SqliteValue::Float(f) => assert_eq!(f64::from_bits(*f), 1.5),
        _ => panic!("float"),
    }
    assert!(matches!(&vals[5], SqliteValue::Text(s) if s == "t"));
    assert!(matches!(&vals[6], SqliteValue::Blob(b) if b == &vec![1u8, 2]));
}

#[test]
fn new_users() {
    let u = User::new("Ann", "ann@example.com");
    assert_eq!(u.name, "Ann");
    assert_eq!(u.email, "ann@example.com");
    assert_eq!(u.id.len(), 36);
    assert_eq!(u.id.chars().nth(14), Some('4'));
    assert!(!u.created_at.is_empty());
    let other = User::new("Bob", "b@x.y");
    assert_ne!(u.id, other.id);
    assert_eq!(User::table_name(), "users");
    assert_eq!(User::primary_key(), "id");
    let vals = u.to_values();
    assert_eq!(vals.len(), 3);
    assert_eq!(vals[0].0, "id");
    assert!(matches!(&vals[1].1, Param::Text(s) if s == "Ann"));
    assert!(matches!(&vals[2].1, Param::Text(s) if s == "ann@example.com"));
}

#[test]
fn integer_text() {
    assert_eq!(parse_i64("-42"), Some(-42));
    assert_eq!(parse_i64("+7"), Some(7));
    assert_eq!(parse_i64("9223372036854775808"), None);
    assert_eq!(parse_i64("-9223372036854775808"), Some(i64::MIN));
    assert_eq!(parse_i64("1a"), None);
    assert_eq!(parse_i64(""), None);
    assert_eq!(parse_usize("-1"), None);
    assert_eq!(parse_usize("15"), Some(15));
    assert_eq!(join_strings(&vec!["a".to_string(), "b".to_string()], ", "), "a, b");
}

#[test]
fn unsigned_query_values() {
    assert_eq!(parse_u64("18446744073709551615"), Some(u64::MAX));
    assert_eq!(parse_u64("18446744073709551616"), None);
    assert_eq!(parse_u64_or(Some("3"), 1), 3);
    assert_eq!(parse_u64_or(Some("x"), 1), 1);
    assert_eq!(parse_u64_or(None, 10), 10);
}

#[test]
fn defaults_of_router_and_request() {
    let r = Router::default();
    assert!(r.find(&Method::Get, "/").is_none());
    let q = Request::default();
    assert_eq!(q.path, "/");
}

#[test]
fn idle_pool_is_first_in_first_out() {
    let counter = Cell::new(0u32);
    let factory = || {
        counter.set(counter.get() + 1);
        counter.get()
    };
    let mut pool = IdlePool::new(PoolConfig::default(), &factory);
    assert_eq!(pool.idle_count(), 2);
    assert_eq!(pool.take(), Some(1));
    pool.give_back(9);
    assert_eq!(pool.take(), Some(2));
    assert_eq!(pool.take(), Some(9));
    assert_eq!(pool.take(), None);
    assert_eq!(pool.config().max_connections, 10);
}

#[test]
fn transactions_commit_on_success_only() {
    let ok: rustfast::error::Result<u32> = Ok(1);
    let bad: rustfast::error::Result<u32> = Err(rustfast::error::FastError::Internal("x".to_string()));
    assert_eq!(transaction_end(&ok), TxEnd::Commit);
    assert_eq!(transaction_end(&bad), TxEnd::Rollback);
}

#[test]
fn params_from_values() {
    assert!(matches!(Param::from(7i64), Param::Int(7)));
    assert!(matches!(Param::from(-3i32), Param::Int(-3)));
    assert!(matches!(Param::from(9u32), Param::Int(9)));
    assert!(matches!(Param::from(u64::MAX), Param::Int(-1)));
    assert!(matches!(Param::from(true), Param::Bool(true)));
    assert!(matches!(Param::from("a".to_string()), Param::Text(ref s) if s == "a"));
}
