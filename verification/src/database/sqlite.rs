//! What the SQLite driver needs from the library: its settings, and the
//! values that parameters are bound as.

use vstd::prelude::*;
use crate::database::model::{Param, ParamV};

verus! {

/// The settings of a SQLite connection.
#[derive(Debug, Clone)]
pub struct SqliteConfig {
    /// The database file; `:memory:` for an in-memory database.
    pub path: String,
}

impl Default for SqliteConfig {
    /// An in-memory database.
    fn default() -> (r: Self)
        ensures
            r.path@ == ":memory:"@,
    {
        SqliteConfig { path: ":memory:".to_string() }
    }
}

/// A value as SQLite stores it.
#[derive(Debug)]
pub enum SqliteValue {
    Null,
    Int(i64),
    /// A real number, by the bits of its `f64`.
    Float(u64),
    Text(String),
    Blob(Vec<u8>),
}

/// The form of a SQLite value.
pub ghost enum SqliteV {
    Null,
    Int(i64),
    Float(u64),
    Text(Seq<char>),
    Blob(Seq<u8>),
}

impl View for SqliteValue {
    type V = SqliteV;

    open spec fn view(&self) -> SqliteV {
        match self {
            SqliteValue::Null => SqliteV::Null,
            SqliteValue::Int(i) => SqliteV::Int(*i),
            SqliteValue::Float(f) => SqliteV::Float(*f),
            SqliteValue::Text(s) => SqliteV::Text(s@),
            SqliteValue::Blob(b) => SqliteV::Blob(b@),
        }
    }
}

/// The SQLite value that a parameter is bound as: a boolean as 1 or 0,
/// everything else as itself.
pub open spec fn sqlite_of(p: ParamV) -> SqliteV {
    match p {
        ParamV::Null => SqliteV::Null,
        ParamV::Bool(b) => SqliteV::Int(if b { 1 } else { 0 }),
        ParamV::Int(i) => SqliteV::Int(i),
        ParamV::Float(f) => SqliteV::Float(f),
        ParamV::Text(s) => SqliteV::Text(s),
        ParamV::Bytes(b) => SqliteV::Blob(b),
    }
}

/// The SQLite values that the parameters are bound as, in order.
pub fn params_to_sqlite(params: &Vec<Param>) -> (r: Vec<SqliteValue>)
    ensures
        r@.len() == params@.len(),
        forall|i: int| 0 <= i < params@.len() ==> (#[trigger] r@[i])@ == sqlite_of(params@[i]@),
{
    let mut out: Vec<SqliteValue> = Vec::new();
    let mut i: usize = 0;
    while i < params.len()
        invariant
            i <= params@.len(),
            out@.len() == i,
            forall|j: int| 0 <= j < i ==> (#[trigger] out@[j])@ == sqlite_of(params@[j]@),
        decreases params@.len() - i,
    {
        let v = match &params[i] {
            Param::Null => SqliteValue::Null,
            Param::Bool(b) => SqliteValue::Int(if *b {
                1
            } else {
                0
            }),
            Param::Int(n) => SqliteValue::Int(*n),
            Param::Float(f) => SqliteValue::Float(*f),
            Param::Text(s) => SqliteValue::Text(s.clone()),
            Param::Bytes(b) => SqliteValue::Blob(b.clone()),
        };
        out.push(v);
        i += 1;
    }
    out
}

} // verus!
