//! SQL parameters, `WHERE` conditions and sort directions.

use vstd::prelude::*;
use vstd::std_specs::convert::FromSpecImpl;

verus! {

/// A value bound to a `?` placeholder.
///
/// A floating-point value is held as its IEEE-754 bit pattern
/// (`f64::to_bits`), which the driver turns back into the number.
#[derive(Debug)]
pub enum Param {
    Null,
    Bool(bool),
    Int(i64),
    Float(u64),
    Text(String),
    Bytes(Vec<u8>),
}

/// What a parameter holds.
pub ghost enum ParamV {
    Null,
    Bool(bool),
    Int(i64),
    Float(u64),
    Text(Seq<char>),
    Bytes(Seq<u8>),
}

impl View for Param {
    type V = ParamV;

    open spec fn view(&self) -> ParamV {
        match self {
            Param::Null => ParamV::Null,
            Param::Bool(b) => ParamV::Bool(*b),
            Param::Int(i) => ParamV::Int(*i),
            Param::Float(f) => ParamV::Float(*f),
            Param::Text(s) => ParamV::Text(s@),
            Param::Bytes(b) => ParamV::Bytes(b@),
        }
    }
}

/// What a list of parameters holds.
pub open spec fn params_view(ps: Seq<Param>) -> Seq<ParamV> {
    ps.map_values(|p: Param| p@)
}

impl Param {
    /// A copy of the parameter.
    pub fn copy(&self) -> (r: Param)
        ensures
            r@ == self@,
    {
        match self {
            Param::Null => Param::Null,
            Param::Bool(b) => Param::Bool(*b),
            Param::Int(i) => Param::Int(*i),
            Param::Float(f) => Param::Float(*f),
            Param::Text(s) => Param::Text(s.clone()),
            Param::Bytes(b) => Param::Bytes(b.clone()),
        }
    }
}

/// Appends copies of `src` to `dst`.
pub fn extend_params(dst: &mut Vec<Param>, src: &Vec<Param>)
    ensures
        params_view(final(dst)@) == params_view(old(dst)@) + params_view(src@),
{
    let mut i: usize = 0;
    while i < src.len()
        invariant
            i <= src@.len(),
            params_view(dst@) == params_view(old(dst)@) + params_view(src@.take(i as int)),
        decreases src@.len() - i,
    {
        let ghost before = dst@;
        dst.push(src[i].copy());
        assert(params_view(dst@) =~= params_view(before).push(src@[i as int]@));
        assert(params_view(src@.take(i + 1)) =~= params_view(src@.take(i as int)).push(
            src@[i as int]@,
        ));
        i += 1;
    }
    assert(src@.take(src@.len() as int) =~= src@);
}

/// A `WHERE` (or `HAVING`) condition on a column.
impl From<i64> for Param {
    /// An integer parameter.
    fn from(v: i64) -> (r: Param) {
        Param::Int(v)
    }
}

impl FromSpecImpl<i64> for Param {
    open spec fn obeys_from_spec() -> bool {
        true
    }

    open spec fn from_spec(v: i64) -> Param {
        Param::Int(v)
    }
}

impl From<i32> for Param {
    /// An integer parameter.
    fn from(v: i32) -> (r: Param) {
        Param::Int(v as i64)
    }
}

impl FromSpecImpl<i32> for Param {
    open spec fn obeys_from_spec() -> bool {
        true
    }

    open spec fn from_spec(v: i32) -> Param {
        Param::Int(v as i64)
    }
}

impl From<u32> for Param {
    /// An integer parameter.
    fn from(v: u32) -> (r: Param) {
        Param::Int(v as i64)
    }
}

impl FromSpecImpl<u32> for Param {
    open spec fn obeys_from_spec() -> bool {
        true
    }

    open spec fn from_spec(v: u32) -> Param {
        Param::Int(v as i64)
    }
}

impl From<u64> for Param {
    /// An integer parameter: the `u64` reinterpreted as an `i64`, as `as` does.
    fn from(v: u64) -> (r: Param) {
        Param::Int(v as i64)
    }
}

impl FromSpecImpl<u64> for Param {
    open spec fn obeys_from_spec() -> bool {
        true
    }

    open spec fn from_spec(v: u64) -> Param {
        Param::Int(v as i64)
    }
}

impl From<bool> for Param {
    /// A boolean parameter.
    fn from(v: bool) -> (r: Param) {
        Param::Bool(v)
    }
}

impl FromSpecImpl<bool> for Param {
    open spec fn obeys_from_spec() -> bool {
        true
    }

    open spec fn from_spec(v: bool) -> Param {
        Param::Bool(v)
    }
}

impl From<String> for Param {
    /// A text parameter.
    fn from(v: String) -> (r: Param) {
        Param::Text(v)
    }
}

impl FromSpecImpl<String> for Param {
    open spec fn obeys_from_spec() -> bool {
        true
    }

    open spec fn from_spec(v: String) -> Param {
        Param::Text(v)
    }
}

#[derive(Debug)]
pub enum Condition {
    Eq(String, Param),
    Ne(String, Param),
    Gt(String, Param),
    Gte(String, Param),
    Lt(String, Param),
    Lte(String, Param),
    Like(String, String),
    NotLike(String, String),
    In(String, Vec<Param>),
    NotIn(String, Vec<Param>),
    IsNull(String),
    IsNotNull(String),
    Between(String, Param, Param),
    NotBetween(String, Param, Param),
    Raw(String, Vec<Param>),
}

/// What a condition holds.
pub ghost enum CondV {
    Eq(Seq<char>, ParamV),
    Ne(Seq<char>, ParamV),
    Gt(Seq<char>, ParamV),
    Gte(Seq<char>, ParamV),
    Lt(Seq<char>, ParamV),
    Lte(Seq<char>, ParamV),
    Like(Seq<char>, Seq<char>),
    NotLike(Seq<char>, Seq<char>),
    In(Seq<char>, Seq<ParamV>),
    NotIn(Seq<char>, Seq<ParamV>),
    IsNull(Seq<char>),
    IsNotNull(Seq<char>),
    Between(Seq<char>, ParamV, ParamV),
    NotBetween(Seq<char>, ParamV, ParamV),
    Raw(Seq<char>, Seq<ParamV>),
}

impl View for Condition {
    type V = CondV;

    open spec fn view(&self) -> CondV {
        match self {
            Condition::Eq(c, v) => CondV::Eq(c@, v@),
            Condition::Ne(c, v) => CondV::Ne(c@, v@),
            Condition::Gt(c, v) => CondV::Gt(c@, v@),
            Condition::Gte(c, v) => CondV::Gte(c@, v@),
            Condition::Lt(c, v) => CondV::Lt(c@, v@),
            Condition::Lte(c, v) => CondV::Lte(c@, v@),
            Condition::Like(c, p) => CondV::Like(c@, p@),
            Condition::NotLike(c, p) => CondV::NotLike(c@, p@),
            Condition::In(c, vs) => CondV::In(c@, params_view(vs@)),
            Condition::NotIn(c, vs) => CondV::NotIn(c@, params_view(vs@)),
            Condition::IsNull(c) => CondV::IsNull(c@),
            Condition::IsNotNull(c) => CondV::IsNotNull(c@),
            Condition::Between(c, lo, hi) => CondV::Between(c@, lo@, hi@),
            Condition::NotBetween(c, lo, hi) => CondV::NotBetween(c@, lo@, hi@),
            Condition::Raw(s, ps) => CondV::Raw(s@, params_view(ps@)),
        }
    }
}

/// An `ORDER BY` direction.
#[derive(Debug, Clone, Copy, PartialEq, Eq)]
pub enum Order {
    Asc,
    Desc,
}

/// The SQL keyword of a direction.
pub open spec fn order_keyword(o: Order) -> Seq<char> {
    match o {
        Order::Asc => "ASC"@,
        Order::Desc => "DESC"@,
    }
}

impl Order {
    /// The SQL keyword of the direction.
    pub fn as_str(&self) -> (r: &'static str)
        ensures
            r@ == order_keyword(*self),
    {
        match self {
            Order::Asc => "ASC",
            Order::Desc => "DESC",
        }
    }
}

} // verus!
