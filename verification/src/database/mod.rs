//! The database side of the framework: SQL parameters and conditions, the
//! query builder and the parameterised statements it stands for, the
//! connection pool, SQLite bindings and transactions.

pub mod model;
pub mod query_builder;
pub mod pool;
pub mod statements;
pub mod sqlite;
pub mod transaction;
