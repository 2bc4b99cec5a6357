//! Building parameterised SQL (SQLite `?` placeholders) from a chain of
//! builder calls.

use vstd::prelude::*;
use crate::database::model::{Condition, CondV, Order, Param, ParamV, params_view, order_keyword};
use crate::text::texts;

verus! {

// ── WHERE logic ─────────────────────────────────────────────────────────────

/// How a clause joins the ones before it.
#[derive(Debug, Clone, Copy, PartialEq, Eq)]
pub enum Connector {
    And,
    Or,
}

/// A single condition, or a parenthesised group of clauses.
#[derive(Debug)]
pub enum WhereInner {
    Simple(Condition),
    Group(Vec<WhereClause>),
}

/// A `WHERE`/`HAVING` clause with the connector that joins it to the
/// clauses before it (ignored for the first clause).
#[derive(Debug)]
pub struct WhereClause {
    pub connector: Connector,
    pub inner: WhereInner,
}

/// The SQL keyword of a connector.
pub open spec fn connector_keyword(c: Connector) -> Seq<char> {
    match c {
        Connector::And => "AND"@,
        Connector::Or => "OR"@,
    }
}

/// `?, ?, …, ?` with `n` placeholders.
pub open spec fn placeholders(n: nat) -> Seq<char>
    decreases n,
{
    if n == 0 {
        Seq::empty()
    } else if n == 1 {
        "?"@
    } else {
        placeholders((n - 1) as nat) + ", ?"@
    }
}

/// The SQL fragment of a condition and the parameters that it binds.
pub open spec fn cond_sql(c: CondV) -> (Seq<char>, Seq<ParamV>) {
    match c {
        CondV::Eq(col, v) => (col + " = ?"@, seq![v]),
        CondV::Ne(col, v) => (col + " != ?"@, seq![v]),
        CondV::Gt(col, v) => (col + " > ?"@, seq![v]),
        CondV::Gte(col, v) => (col + " >= ?"@, seq![v]),
        CondV::Lt(col, v) => (col + " < ?"@, seq![v]),
        CondV::Lte(col, v) => (col + " <= ?"@, seq![v]),
        CondV::Like(col, p) => (col + " LIKE ?"@, seq![ParamV::Text(p)]),
        CondV::NotLike(col, p) => (col + " NOT LIKE ?"@, seq![ParamV::Text(p)]),
        CondV::In(col, vs) => (col + " IN ("@ + placeholders(vs.len()) + ")"@, vs),
        CondV::NotIn(col, vs) => (col + " NOT IN ("@ + placeholders(vs.len()) + ")"@, vs),
        CondV::IsNull(col) => (col + " IS NULL"@, Seq::empty()),
        CondV::IsNotNull(col) => (col + " IS NOT NULL"@, Seq::empty()),
        CondV::Between(col, lo, hi) => (col + " BETWEEN ? AND ?"@, seq![lo, hi]),
        CondV::NotBetween(col, lo, hi) => (col + " NOT BETWEEN ? AND ?"@, seq![lo, hi]),
        CondV::Raw(sql, ps) => (sql, ps),
    }
}

/// The SQL of a list of clauses (without the `WHERE`/`HAVING` keyword) and
/// the parameters that it binds, in order: the clauses' fragments joined by
/// a space, each after the first preceded by its connector; a group is
/// parenthesised.
pub open spec fn clauses_sql(cs: Seq<WhereClause>) -> (Seq<char>, Seq<ParamV>)
    decreases cs, 1int,
{
    if cs.len() == 0 {
        (Seq::empty(), Seq::empty())
    } else {
        proof {
            assert(decreases_to!(cs => cs[cs.len() - 1]));
            assert(cs.drop_last() =~= cs.subrange(0, cs.len() - 1));
        }
        let (f, pf) = clause_sql(cs[cs.len() - 1]);
        if cs.len() == 1 {
            (f, pf)
        } else {
            let (s0, p0) = clauses_sql(cs.drop_last());
            (s0 + " "@ + connector_keyword(cs[cs.len() - 1].connector) + " "@ + f, p0 + pf)
        }
    }
}

/// The SQL fragment of one clause, without its connector.
pub open spec fn clause_sql(c: WhereClause) -> (Seq<char>, Seq<ParamV>)
    decreases c, 0int,
{
    match c.inner {
        WhereInner::Simple(cond) => cond_sql(cond@),
        WhereInner::Group(inner) => {
            proof {
                assert(decreases_to!(c => c.inner));
            }
            let (s, p) = clauses_sql(inner@);
            ("("@ + s + ")"@, p)
        },
    }
}

pub(crate) fn push_placeholders(s: &mut String, n: usize)
    ensures
        final(s)@ == old(s)@ + placeholders(n as nat),
{
    let mut i: usize = 0;
    while i < n
        invariant
            i <= n,
            s@ == old(s)@ + placeholders(i as nat),
        decreases n - i,
    {
        let ghost before = s@;
        if i == 0 {
            s.append("?");
        } else {
            s.append(", ?");
        }
        i += 1;
        assert(s@ =~= old(s)@ + placeholders(i as nat));
    }
}

fn push_param(params: &mut Vec<Param>, p: &Param)
    ensures
        params_view(final(params)@) == params_view(old(params)@).push(p@),
{
    params.push(p.copy());
    assert(params_view(params@) =~= params_view(old(params)@).push(p@));
}

/// Compiles a condition to its SQL fragment, appending the parameters that
/// it binds.
pub fn condition_to_sql(cond: &Condition, params: &mut Vec<Param>) -> (r: String)
    ensures
        r@ == cond_sql(cond@).0,
        params_view(final(params)@) == params_view(old(params)@) + cond_sql(cond@).1,
{
    let ghost old_params = params_view(params@);
    let mut out = String::new();
    match cond {
        Condition::Eq(col, v) => {
            out.append(col.as_str());
            out.append(" = ?");
            push_param(params, v);
        },
        Condition::Ne(col, v) => {
            out.append(col.as_str());
            out.append(" != ?");
            push_param(params, v);
        },
        Condition::Gt(col, v) => {
            out.append(col.as_str());
            out.append(" > ?");
            push_param(params, v);
        },
        Condition::Gte(col, v) => {
            out.append(col.as_str());
            out.append(" >= ?");
            push_param(params, v);
        },
        Condition::Lt(col, v) => {
            out.append(col.as_str());
            out.append(" < ?");
            push_param(params, v);
        },
        Condition::Lte(col, v) => {
            out.append(col.as_str());
            out.append(" <= ?");
            push_param(params, v);
        },
        Condition::Like(col, pattern) => {
            out.append(col.as_str());
            out.append(" LIKE ?");
            let p = Param::Text(pattern.clone());
            push_param(params, &p);
        },
        Condition::NotLike(col, pattern) => {
            out.append(col.as_str());
            out.append(" NOT LIKE ?");
            let p = Param::Text(pattern.clone());
            push_param(params, &p);
        },
        Condition::In(col, vals) => {
            out.append(col.as_str());
            out.append(" IN (");
            push_placeholders(&mut out, vals.len());
            out.append(")");
            crate::database::model::extend_params(params, vals);
        },
        Condition::NotIn(col, vals) => {
            out.append(col.as_str());
            out.append(" NOT IN (");
            push_placeholders(&mut out, vals.len());
            out.append(")");
            crate::database::model::extend_params(params, vals);
        },
        Condition::IsNull(col) => {
            out.append(col.as_str());
            out.append(" IS NULL");
        },
        Condition::IsNotNull(col) => {
            out.append(col.as_str());
            out.append(" IS NOT NULL");
        },
        Condition::Between(col, lo, hi) => {
            out.append(col.as_str());
            out.append(" BETWEEN ? AND ?");
            push_param(params, lo);
            push_param(params, hi);
        },
        Condition::NotBetween(col, lo, hi) => {
            out.append(col.as_str());
            out.append(" NOT BETWEEN ? AND ?");
            push_param(params, lo);
            push_param(params, hi);
        },
        Condition::Raw(sql, raw_params) => {
            out.append(sql.as_str());
            crate::database::model::extend_params(params, raw_params);
        },
    }
    assert(out@ =~= cond_sql(cond@).0);
    assert(params_view(params@) =~= old_params + cond_sql(cond@).1);
    out
}

/// Compiles a list of clauses to SQL (without the `WHERE`/`HAVING`
/// keyword), appending the parameters that they bind.
pub fn clauses_to_sql(clauses: &Vec<WhereClause>, params: &mut Vec<Param>) -> (r: String)
    ensures
        r@ == clauses_sql(clauses@).0,
        params_view(final(params)@) == params_view(old(params)@) + clauses_sql(clauses@).1,
    decreases clauses@,
{
    let ghost cs = clauses@;
    let mut out = String::new();
    let mut i: usize = 0;
    assert(cs.take(0) =~= Seq::<WhereClause>::empty());
    while i < clauses.len()
        invariant
            i <= cs.len(),
            cs == clauses@,
            out@ == clauses_sql(cs.take(i as int)).0,
            params_view(params@) == params_view(old(params)@) + clauses_sql(cs.take(i as int)).1,
        decreases cs.len() - i,
    {
        let ghost before_s = out@;
        let ghost before_p = params_view(params@);
        let clause = &clauses[i];
        let fragment = match &clause.inner {
            WhereInner::Simple(cond) => condition_to_sql(cond, params),
            WhereInner::Group(inner) => {
                assert(decreases_to!(clauses@ => clauses@[i as int]));
                assert(decreases_to!(clauses@[i as int] => clauses@[i as int].inner));
                let inner_sql = clauses_to_sql(inner, params);
                let mut g = String::new();
                g.append("(");
                g.append(inner_sql.as_str());
                g.append(")");
                g
            },
        };
        let ghost t = cs.take(i + 1);
        assert(t[t.len() - 1] == cs[i as int]);
        assert(t.drop_last() =~= cs.take(i as int));
        assert(fragment@ == clause_sql(cs[i as int]).0);
        if i == 0 {
            out = fragment;
        } else {
            out.append(" ");
            match clause.connector {
                Connector::And => out.append("AND"),
                Connector::Or => out.append("OR"),
            }
            out.append(" ");
            out.append(fragment.as_str());
        }
        assert(out@ =~= clauses_sql(t).0);
        assert(params_view(params@) =~= params_view(old(params)@) + clauses_sql(t).1);
        i += 1;
    }
    assert(cs.take(cs.len() as int) =~= cs);
    out
}

// ── builders ────────────────────────────────────────────────────────────────

/// `new` is `old` with one more clause: the condition `cv`, joined by `conn`.
pub open spec fn appended_simple(
    old: Seq<WhereClause>,
    new: Seq<WhereClause>,
    conn: Connector,
    cv: CondV,
) -> bool {
    &&& new.len() == old.len() + 1
    &&& new.take(old.len() as int) == old
    &&& new[old.len() as int].connector == conn
    &&& new[old.len() as int].inner matches WhereInner::Simple(c) && c@ == cv
}

/// `new` is `old` with one more clause: a group of the clauses `group`,
/// joined by `conn`.
pub open spec fn appended_group(
    old: Seq<WhereClause>,
    new: Seq<WhereClause>,
    conn: Connector,
    group: Seq<WhereClause>,
) -> bool {
    &&& new.len() == old.len() + 1
    &&& new.take(old.len() as int) == old
    &&& new[old.len() as int].connector == conn
    &&& new[old.len() as int].inner matches WhereInner::Group(g) && g@ == group
}

fn push_simple(v: &mut Vec<WhereClause>, connector: Connector, cond: Condition)
    ensures
        appended_simple(old(v)@, final(v)@, connector, cond@),
{
    let ghost cv = cond@;
    v.push(WhereClause { connector, inner: WhereInner::Simple(cond) });
    assert(v@.take(old(v)@.len() as int) =~= old(v)@);
}

fn push_group(v: &mut Vec<WhereClause>, connector: Connector, group: Vec<WhereClause>)
    ensures
        appended_group(old(v)@, final(v)@, connector, group@),
{
    let ghost gv = group@;
    v.push(WhereClause { connector, inner: WhereInner::Group(group) });
    assert(v@.take(old(v)@.len() as int) =~= old(v)@);
}

/// Builds the clauses of a nested `WHERE`/`HAVING` group.
#[derive(Debug)]
pub struct WhereGroupBuilder {
    pub clauses: Vec<WhereClause>,
}

impl WhereGroupBuilder {
    /// An empty group.
    pub fn new() -> (r: Self)
        ensures
            r.clauses@.len() == 0,
    {
        WhereGroupBuilder { clauses: Vec::new() }
    }

    fn add(self, connector: Connector, cond: Condition) -> (r: Self)
        ensures
            appended_simple(self.clauses@, r.clauses@, connector, cond@),
    {
        let mut clauses = self.clauses;
        push_simple(&mut clauses, connector, cond);
        WhereGroupBuilder { clauses }
    }

    fn add_group(self, connector: Connector, group: Vec<WhereClause>) -> (r: Self)
        ensures
            appended_group(self.clauses@, r.clauses@, connector, group@),
    {
        let mut clauses = self.clauses;
        push_group(&mut clauses, connector, group);
        WhereGroupBuilder { clauses }
    }

    /// Adds the condition `col = ?`, joined by `AND`.
    pub fn where_eq(self, col: &str, val: Param) -> (r: Self)
        ensures
            appended_simple(self.clauses@, r.clauses@, Connector::And, CondV::Eq(col@, val@)),
    {
        self.add(Connector::And, Condition::Eq(col.to_string(), val))
    }

    /// Adds the condition `col = ?`, joined by `OR`.
    pub fn or_where_eq(self, col: &str, val: Param) -> (r: Self)
        ensures
            appended_simple(self.clauses@, r.clauses@, Connector::Or, CondV::Eq(col@, val@)),
    {
        self.add(Connector::Or, Condition::Eq(col.to_string(), val))
    }

    /// Adds the condition `col != ?`, joined by `AND`.
    pub fn where_ne(self, col: &str, val: Param) -> (r: Self)
        ensures
            appended_simple(self.clauses@, r.clauses@, Connector::And, CondV::Ne(col@, val@)),
    {
        self.add(Connector::And, Condition::Ne(col.to_string(), val))
    }

    /// Adds the condition `col != ?`, joined by `OR`.
    pub fn or_where_ne(self, col: &str, val: Param) -> (r: Self)
        ensures
            appended_simple(self.clauses@, r.clauses@, Connector::Or, CondV::Ne(col@, val@)),
    {
        self.add(Connector::Or, Condition::Ne(col.to_string(), val))
    }

    /// Adds the condition `col > ?`, joined by `AND`.
    pub fn where_gt(self, col: &str, val: Param) -> (r: Self)
        ensures
            appended_simple(self.clauses@, r.clauses@, Connector::And, CondV::Gt(col@, val@)),
    {
        self.add(Connector::And, Condition::Gt(col.to_string(), val))
    }

    /// Adds the condition `col > ?`, joined by `OR`.
    pub fn or_where_gt(self, col: &str, val: Param) -> (r: Self)
        ensures
            appended_simple(self.clauses@, r.clauses@, Connector::Or, CondV::Gt(col@, val@)),
    {
        self.add(Connector::Or, Condition::Gt(col.to_string(), val))
    }

    /// Adds the condition `col >= ?`, joined by `AND`.
    pub fn where_gte(self, col: &str, val: Param) -> (r: Self)
        ensures
            appended_simple(self.clauses@, r.clauses@, Connector::And, CondV::Gte(col@, val@)),
    {
        self.add(Connector::And, Condition::Gte(col.to_string(), val))
    }

    /// Adds the condition `col >= ?`, joined by `OR`.
    pub fn or_where_gte(self, col: &str, val: Param) -> (r: Self)
        ensures
            appended_simple(self.clauses@, r.clauses@, Connector::Or, CondV::Gte(col@, val@)),
    {
        self.add(Connector::Or, Condition::Gte(col.to_string(), val))
    }

    /// Adds the condition `col < ?`, joined by `AND`.
    pub fn where_lt(self, col: &str, val: Param) -> (r: Self)
        ensures
            appended_simple(self.clauses@, r.clauses@, Connector::And, CondV::Lt(col@, val@)),
    {
        self.add(Connector::And, Condition::Lt(col.to_string(), val))
    }

    /// Adds the condition `col < ?`, joined by `OR`.
    pub fn or_where_lt(self, col: &str, val: Param) -> (r: Self)
        ensures
            appended_simple(self.clauses@, r.clauses@, Connector::Or, CondV::Lt(col@, val@)),
    {
        self.add(Connector::Or, Condition::Lt(col.to_string(), val))
    }

    /// Adds the condition `col <= ?`, joined by `AND`.
    pub fn where_lte(self, col: &str, val: Param) -> (r: Self)
        ensures
            appended_simple(self.clauses@, r.clauses@, Connector::And, CondV::Lte(col@, val@)),
    {
        self.add(Connector::And, Condition::Lte(col.to_string(), val))
    }

    /// Adds the condition `col <= ?`, joined by `OR`.
    pub fn or_where_lte(self, col: &str, val: Param) -> (r: Self)
        ensures
            appended_simple(self.clauses@, r.clauses@, Connector::Or, CondV::Lte(col@, val@)),
    {
        self.add(Connector::Or, Condition::Lte(col.to_string(), val))
    }

    /// Adds the condition `col LIKE ?`, joined by `AND`.
    pub fn where_like(self, col: &str, pattern: &str) -> (r: Self)
        ensures
            appended_simple(self.clauses@, r.clauses@, Connector::And, CondV::Like(col@, pattern@)),
    {
        self.add(Connector::And, Condition::Like(col.to_string(), pattern.to_string()))
    }

    /// Adds the condition `col LIKE ?`, joined by `OR`.
    pub fn or_where_like(self, col: &str, pattern: &str) -> (r: Self)
        ensures
            appended_simple(self.clauses@, r.clauses@, Connector::Or, CondV::Like(col@, pattern@)),
    {
        self.add(Connector::Or, Condition::Like(col.to_string(), pattern.to_string()))
    }

    /// Adds the condition `col NOT LIKE ?`, joined by `AND`.
    pub fn where_not_like(self, col: &str, pattern: &str) -> (r: Self)
        ensures
            appended_simple(self.clauses@, r.clauses@, Connector::And, CondV::NotLike(col@, pattern@)),
    {
        self.add(Connector::And, Condition::NotLike(col.to_string(), pattern.to_string()))
    }

    /// Adds the condition `col NOT LIKE ?`, joined by `OR`.
    pub fn or_where_not_like(self, col: &str, pattern: &str) -> (r: Self)
        ensures
            appended_simple(self.clauses@, r.clauses@, Connector::Or, CondV::NotLike(col@, pattern@)),
    {
        self.add(Connector::Or, Condition::NotLike(col.to_string(), pattern.to_string()))
    }

    /// Adds the condition `col IN (?, …)`, joined by `AND`.
    pub fn where_in(self, col: &str, vals: Vec<Param>) -> (r: Self)
        ensures
            appended_simple(self.clauses@, r.clauses@, Connector::And, CondV::In(col@, params_view(vals@))),
    {
        self.add(Connector::And, Condition::In(col.to_string(), vals))
    }

    /// Adds the condition `col IN (?, …)`, joined by `OR`.
    pub fn or_where_in(self, col: &str, vals: Vec<Param>) -> (r: Self)
        ensures
            appended_simple(self.clauses@, r.clauses@, Connector::Or, CondV::In(col@, params_view(vals@))),
    {
        self.add(Connector::Or, Condition::In(col.to_string(), vals))
    }

    /// Adds the condition `col NOT IN (?, …)`, joined by `AND`.
    pub fn where_not_in(self, col: &str, vals: Vec<Param>) -> (r: Self)
        ensures
            appended_simple(self.clauses@, r.clauses@, Connector::And, CondV::NotIn(col@, params_view(vals@))),
    {
        self.add(Connector::And, Condition::NotIn(col.to_string(), vals))
    }

    /// Adds the condition `col NOT IN (?, …)`, joined by `OR`.
    pub fn or_where_not_in(self, col: &str, vals: Vec<Param>) -> (r: Self)
        ensures
            appended_simple(self.clauses@, r.clauses@, Connector::Or, CondV::NotIn(col@, params_view(vals@))),
    {
        self.add(Connector::Or, Condition::NotIn(col.to_string(), vals))
    }

    /// Adds the condition `col IS NULL`, joined by `AND`.
    pub fn where_null(self, col: &str) -> (r: Self)
        ensures
            appended_simple(self.clauses@, r.clauses@, Connector::And, CondV::IsNull(col@)),
    {
        self.add(Connector::And, Condition::IsNull(col.to_string()))
    }

    /// Adds the condition `col IS NULL`, joined by `OR`.
    pub fn or_where_null(self, col: &str) -> (r: Self)
        ensures
            appended_simple(self.clauses@, r.clauses@, Connector::Or, CondV::IsNull(col@)),
    {
        self.add(Connector::Or, Condition::IsNull(col.to_string()))
    }

    /// Adds the condition `col IS NOT NULL`, joined by `AND`.
    pub fn where_not_null(self, col: &str) -> (r: Self)
        ensures
            appended_simple(self.clauses@, r.clauses@, Connector::And, CondV::IsNotNull(col@)),
    {
        self.add(Connector::And, Condition::IsNotNull(col.to_string()))
    }

    /// Adds the condition `col IS NOT NULL`, joined by `OR`.
    pub fn or_where_not_null(self, col: &str) -> (r: Self)
        ensures
            appended_simple(self.clauses@, r.clauses@, Connector::Or, CondV::IsNotNull(col@)),
    {
        self.add(Connector::Or, Condition::IsNotNull(col.to_string()))
    }

    /// Adds the condition `col BETWEEN ? AND ?`, joined by `AND`.
    pub fn where_between(self, col: &str, lo: Param, hi: Param) -> (r: Self)
        ensures
            appended_simple(self.clauses@, r.clauses@, Connector::And, CondV::Between(col@, lo@, hi@)),
    {
        self.add(Connector::And, Condition::Between(col.to_string(), lo, hi))
    }

    /// Adds the condition `col BETWEEN ? AND ?`, joined by `OR`.
    pub fn or_where_between(self, col: &str, lo: Param, hi: Param) -> (r: Self)
        ensures
            appended_simple(self.clauses@, r.clauses@, Connector::Or, CondV::Between(col@, lo@, hi@)),
    {
        self.add(Connector::Or, Condition::Between(col.to_string(), lo, hi))
    }

    /// Adds the condition `col NOT BETWEEN ? AND ?`, joined by `AND`.
    pub fn where_not_between(self, col: &str, lo: Param, hi: Param) -> (r: Self)
        ensures
            appended_simple(self.clauses@, r.clauses@, Connector::And, CondV::NotBetween(col@, lo@, hi@)),
    {
        self.add(Connector::And, Condition::NotBetween(col.to_string(), lo, hi))
    }

    /// Adds the condition raw SQL with its parameters, joined by `AND`.
    pub fn where_raw(self, sql: &str, params: Vec<Param>) -> (r: Self)
        ensures
            appended_simple(self.clauses@, r.clauses@, Connector::And, CondV::Raw(sql@, params_view(params@))),
    {
        self.add(Connector::And, Condition::Raw(sql.to_string(), params))
    }

    /// Adds the condition raw SQL with its parameters, joined by `OR`.
    pub fn or_where_raw(self, sql: &str, params: Vec<Param>) -> (r: Self)
        ensures
            appended_simple(self.clauses@, r.clauses@, Connector::Or, CondV::Raw(sql@, params_view(params@))),
    {
        self.add(Connector::Or, Condition::Raw(sql.to_string(), params))
    }

    /// Adds a parenthesised group of clauses, joined by `AND`: `f` fills
    /// an empty group.
    pub fn where_group<F: FnOnce(WhereGroupBuilder) -> WhereGroupBuilder>(self, f: F) -> (r: Self)
        requires
            forall|g: WhereGroupBuilder| call_requires(f, (g,)),
        ensures
            exists|g_in: WhereGroupBuilder, g_out: WhereGroupBuilder|
                g_in.clauses@.len() == 0 && call_ensures(f, (g_in,), g_out) && appended_group(
                    self.clauses@,
                    r.clauses@,
                    Connector::And,
                    g_out.clauses@,
                ),
    {
        let grp = f(WhereGroupBuilder::new());
        self.add_group(Connector::And, grp.clauses)
    }

    /// Adds a parenthesised group of clauses, joined by `OR`: `f` fills
    /// an empty group.
    pub fn or_where_group<F: FnOnce(WhereGroupBuilder) -> WhereGroupBuilder>(self, f: F) -> (r: Self)
        requires
            forall|g: WhereGroupBuilder| call_requires(f, (g,)),
        ensures
            exists|g_in: WhereGroupBuilder, g_out: WhereGroupBuilder|
                g_in.clauses@.len() == 0 && call_ensures(f, (g_in,), g_out) && appended_group(
                    self.clauses@,
                    r.clauses@,
                    Connector::Or,
                    g_out.clauses@,
                ),
    {
        let grp = f(WhereGroupBuilder::new());
        self.add_group(Connector::Or, grp.clauses)
    }
}

/// The builder `b` is `a` with its `WHERE` clauses changed and nothing else.
pub open spec fn keeps_all_but_where(a: QueryBuilder, b: QueryBuilder) -> bool {
    &&& b.table@ == a.table@
    &&& b.selects@ == a.selects@
    &&& b.joins@ == a.joins@
    &&& b.order_by@ == a.order_by@
    &&& b.limit == a.limit
    &&& b.offset == a.offset
    &&& b.group_by@ == a.group_by@
    &&& b.having_clauses@ == a.having_clauses@
}

/// The builder `b` is `a` with its `HAVING` clauses changed and nothing else.
pub open spec fn keeps_all_but_having(a: QueryBuilder, b: QueryBuilder) -> bool {
    &&& b.table@ == a.table@
    &&& b.selects@ == a.selects@
    &&& b.where_clauses@ == a.where_clauses@
    &&& b.joins@ == a.joins@
    &&& b.order_by@ == a.order_by@
    &&& b.limit == a.limit
    &&& b.offset == a.offset
    &&& b.group_by@ == a.group_by@
}

/// The text of a join clause `<kind> JOIN table ON on`.
pub open spec fn join_text(kind: Seq<char>, table: Seq<char>, on: Seq<char>) -> Seq<char> {
    kind + " JOIN "@ + table + " ON "@ + on
}

/// The text of one sort term: the column and its direction.
pub open spec fn order_term(col: Seq<char>, order: Order) -> Seq<char> {
    col + " "@ + order_keyword(order)
}

/// The sort terms of a builder's `ORDER BY` list.
pub open spec fn order_terms(o: Seq<(String, Order)>) -> Seq<Seq<char>> {
    o.map_values(|p: (String, Order)| order_term(p.0@, p.1))
}

/// A chainable SQL query builder over one table.
#[derive(Debug)]
pub struct QueryBuilder {
    pub table: String,
    pub selects: Vec<String>,
    pub where_clauses: Vec<WhereClause>,
    pub joins: Vec<String>,
    pub order_by: Vec<(String, Order)>,
    pub limit: Option<u64>,
    pub offset: Option<u64>,
    pub group_by: Vec<String>,
    pub having_clauses: Vec<WhereClause>,
}

impl QueryBuilder {
    /// A query of every column (`*`) of `table`, with no clauses.
    pub fn new(table: &str) -> (r: Self)
        ensures
            r.table@ == table@,
            texts(r.selects@) == seq!["*"@],
            r.where_clauses@.len() == 0,
            r.joins@.len() == 0,
            r.order_by@.len() == 0,
            r.limit is None,
            r.offset is None,
            r.group_by@.len() == 0,
            r.having_clauses@.len() == 0,
    {
        let mut selects: Vec<String> = Vec::new();
        selects.push("*".to_string());
        assert(texts(selects@) =~= seq!["*"@]);
        QueryBuilder {
            table: table.to_string(),
            selects,
            where_clauses: Vec::new(),
            joins: Vec::new(),
            order_by: Vec::new(),
            limit: None,
            offset: None,
            group_by: Vec::new(),
            having_clauses: Vec::new(),
        }
    }

    /// Selects the given columns in place of the current selection.
    pub fn select(self, columns: Vec<String>) -> (r: Self)
        ensures
            r.selects@ == columns@,
            r.table@ == self.table@,
            r.where_clauses@ == self.where_clauses@,
            r.joins@ == self.joins@,
            r.order_by@ == self.order_by@,
            r.limit == self.limit,
            r.offset == self.offset,
            r.group_by@ == self.group_by@,
            r.having_clauses@ == self.having_clauses@,
    {
        QueryBuilder { selects: columns, ..self }
    }

    fn add_where(self, connector: Connector, cond: Condition) -> (r: Self)
        ensures
            appended_simple(self.where_clauses@, r.where_clauses@, connector, cond@),
            keeps_all_but_where(self, r),
    {
        let mut w = self.where_clauses;
        push_simple(&mut w, connector, cond);
        QueryBuilder { where_clauses: w, ..self }
    }

    fn add_where_group(self, connector: Connector, group: Vec<WhereClause>) -> (r: Self)
        ensures
            appended_group(self.where_clauses@, r.where_clauses@, connector, group@),
            keeps_all_but_where(self, r),
    {
        let mut w = self.where_clauses;
        push_group(&mut w, connector, group);
        QueryBuilder { where_clauses: w, ..self }
    }

    /// Adds the condition `col = ?`, joined by `AND`.
    pub fn where_eq(self, col: &str, val: Param) -> (r: Self)
        ensures
            appended_simple(self.where_clauses@, r.where_clauses@, Connector::And, CondV::Eq(col@, val@)),
            keeps_all_but_where(self, r),
    {
        self.add_where(Connector::And, Condition::Eq(col.to_string(), val))
    }

    /// Adds the condition `col = ?`, joined by `OR`.
    pub fn or_where_eq(self, col: &str, val: Param) -> (r: Self)
        ensures
            appended_simple(self.where_clauses@, r.where_clauses@, Connector::Or, CondV::Eq(col@, val@)),
            keeps_all_but_where(self, r),
    {
        self.add_where(Connector::Or, Condition::Eq(col.to_string(), val))
    }

    /// Adds the condition `col != ?`, joined by `AND`.
    pub fn where_ne(self, col: &str, val: Param) -> (r: Self)
        ensures
            appended_simple(self.where_clauses@, r.where_clauses@, Connector::And, CondV::Ne(col@, val@)),
            keeps_all_but_where(self, r),
    {
        self.add_where(Connector::And, Condition::Ne(col.to_string(), val))
    }

    /// Adds the condition `col != ?`, joined by `OR`.
    pub fn or_where_ne(self, col: &str, val: Param) -> (r: Self)
        ensures
            appended_simple(self.where_clauses@, r.where_clauses@, Connector::Or, CondV::Ne(col@, val@)),
            keeps_all_but_where(self, r),
    {
        self.add_where(Connector::Or, Condition::Ne(col.to_string(), val))
    }

    /// Adds the condition `col > ?`, joined by `AND`.
    pub fn where_gt(self, col: &str, val: Param) -> (r: Self)
        ensures
            appended_simple(self.where_clauses@, r.where_clauses@, Connector::And, CondV::Gt(col@, val@)),
            keeps_all_but_where(self, r),
    {
        self.add_where(Connector::And, Condition::Gt(col.to_string(), val))
    }

    /// Adds the condition `col > ?`, joined by `OR`.
    pub fn or_where_gt(self, col: &str, val: Param) -> (r: Self)
        ensures
            appended_simple(self.where_clauses@, r.where_clauses@, Connector::Or, CondV::Gt(col@, val@)),
            keeps_all_but_where(self, r),
    {
        self.add_where(Connector::Or, Condition::Gt(col.to_string(), val))
    }

    /// Adds the condition `col >= ?`, joined by `AND`.
    pub fn where_gte(self, col: &str, val: Param) -> (r: Self)
        ensures
            appended_simple(self.where_clauses@, r.where_clauses@, Connector::And, CondV::Gte(col@, val@)),
            keeps_all_but_where(self, r),
    {
        self.add_where(Connector::And, Condition::Gte(col.to_string(), val))
    }

    /// Adds the condition `col >= ?`, joined by `OR`.
    pub fn or_where_gte(self, col: &str, val: Param) -> (r: Self)
        ensures
            appended_simple(self.where_clauses@, r.where_clauses@, Connector::Or, CondV::Gte(col@, val@)),
            keeps_all_but_where(self, r),
    {
        self.add_where(Connector::Or, Condition::Gte(col.to_string(), val))
    }

    /// Adds the condition `col < ?`, joined by `AND`.
    pub fn where_lt(self, col: &str, val: Param) -> (r: Self)
        ensures
            appended_simple(self.where_clauses@, r.where_clauses@, Connector::And, CondV::Lt(col@, val@)),
            keeps_all_but_where(self, r),
    {
        self.add_where(Connector::And, Condition::Lt(col.to_string(), val))
    }

    /// Adds the condition `col < ?`, joined by `OR`.
    pub fn or_where_lt(self, col: &str, val: Param) -> (r: Self)
        ensures
            appended_simple(self.where_clauses@, r.where_clauses@, Connector::Or, CondV::Lt(col@, val@)),
            keeps_all_but_where(self, r),
    {
        self.add_where(Connector::Or, Condition::Lt(col.to_string(), val))
    }

    /// Adds the condition `col <= ?`, joined by `AND`.
    pub fn where_lte(self, col: &str, val: Param) -> (r: Self)
        ensures
            appended_simple(self.where_clauses@, r.where_clauses@, Connector::And, CondV::Lte(col@, val@)),
            keeps_all_but_where(self, r),
    {
        self.add_where(Connector::And, Condition::Lte(col.to_string(), val))
    }

    /// Adds the condition `col <= ?`, joined by `OR`.
    pub fn or_where_lte(self, col: &str, val: Param) -> (r: Self)
        ensures
            appended_simple(self.where_clauses@, r.where_clauses@, Connector::Or, CondV::Lte(col@, val@)),
            keeps_all_but_where(self, r),
    {
        self.add_where(Connector::Or, Condition::Lte(col.to_string(), val))
    }

    /// Adds the condition `col LIKE ?`, joined by `AND`.
    pub fn where_like(self, col: &str, pattern: &str) -> (r: Self)
        ensures
            appended_simple(self.where_clauses@, r.where_clauses@, Connector::And, CondV::Like(col@, pattern@)),
            keeps_all_but_where(self, r),
    {
        self.add_where(Connector::And, Condition::Like(col.to_string(), pattern.to_string()))
    }

    /// Adds the condition `col LIKE ?`, joined by `OR`.
    pub fn or_where_like(self, col: &str, pattern: &str) -> (r: Self)
        ensures
            appended_simple(self.where_clauses@, r.where_clauses@, Connector::Or, CondV::Like(col@, pattern@)),
            keeps_all_but_where(self, r),
    {
        self.add_where(Connector::Or, Condition::Like(col.to_string(), pattern.to_string()))
    }

    /// Adds the condition `col NOT LIKE ?`, joined by `AND`.
    pub fn where_not_like(self, col: &str, pattern: &str) -> (r: Self)
        ensures
            appended_simple(self.where_clauses@, r.where_clauses@, Connector::And, CondV::NotLike(col@, pattern@)),
            keeps_all_but_where(self, r),
    {
        self.add_where(Connector::And, Condition::NotLike(col.to_string(), pattern.to_string()))
    }

    /// Adds the condition `col NOT LIKE ?`, joined by `OR`.
    pub fn or_where_not_like(self, col: &str, pattern: &str) -> (r: Self)
        ensures
            appended_simple(self.where_clauses@, r.where_clauses@, Connector::Or, CondV::NotLike(col@, pattern@)),
            keeps_all_but_where(self, r),
    {
        self.add_where(Connector::Or, Condition::NotLike(col.to_string(), pattern.to_string()))
    }

    /// Adds the condition `col IN (?, …)`, joined by `AND`.
    pub fn where_in(self, col: &str, vals: Vec<Param>) -> (r: Self)
        ensures
            appended_simple(self.where_clauses@, r.where_clauses@, Connector::And, CondV::In(col@, params_view(vals@))),
            keeps_all_but_where(self, r),
    {
        self.add_where(Connector::And, Condition::In(col.to_string(), vals))
    }

    /// Adds the condition `col IN (?, …)`, joined by `OR`.
    pub fn or_where_in(self, col: &str, vals: Vec<Param>) -> (r: Self)
        ensures
            appended_simple(self.where_clauses@, r.where_clauses@, Connector::Or, CondV::In(col@, params_view(vals@))),
            keeps_all_but_where(self, r),
    {
        self.add_where(Connector::Or, Condition::In(col.to_string(), vals))
    }

    /// Adds the condition `col NOT IN (?, …)`, joined by `AND`.
    pub fn where_not_in(self, col: &str, vals: Vec<Param>) -> (r: Self)
        ensures
            appended_simple(self.where_clauses@, r.where_clauses@, Connector::And, CondV::NotIn(col@, params_view(vals@))),
            keeps_all_but_where(self, r),
    {
        self.add_where(Connector::And, Condition::NotIn(col.to_string(), vals))
    }

    /// Adds the condition `col NOT IN (?, …)`, joined by `OR`.
    pub fn or_where_not_in(self, col: &str, vals: Vec<Param>) -> (r: Self)
        ensures
            appended_simple(self.where_clauses@, r.where_clauses@, Connector::Or, CondV::NotIn(col@, params_view(vals@))),
            keeps_all_but_where(self, r),
    {
        self.add_where(Connector::Or, Condition::NotIn(col.to_string(), vals))
    }

    /// Adds the condition `col IS NULL`, joined by `AND`.
    pub fn where_null(self, col: &str) -> (r: Self)
        ensures
            appended_simple(self.where_clauses@, r.where_clauses@, Connector::And, CondV::IsNull(col@)),
            keeps_all_but_where(self, r),
    {
        self.add_where(Connector::And, Condition::IsNull(col.to_string()))
    }

    /// Adds the condition `col IS NULL`, joined by `OR`.
    pub fn or_where_null(self, col: &str) -> (r: Self)
        ensures
            appended_simple(self.where_clauses@, r.where_clauses@, Connector::Or, CondV::IsNull(col@)),
            keeps_all_but_where(self, r),
    {
        self.add_where(Connector::Or, Condition::IsNull(col.to_string()))
    }

    /// Adds the condition `col IS NOT NULL`, joined by `AND`.
    pub fn where_not_null(self, col: &str) -> (r: Self)
        ensures
            appended_simple(self.where_clauses@, r.where_clauses@, Connector::And, CondV::IsNotNull(col@)),
            keeps_all_but_where(self, r),
    {
        self.add_where(Connector::And, Condition::IsNotNull(col.to_string()))
    }

    /// Adds the condition `col IS NOT NULL`, joined by `OR`.
    pub fn or_where_not_null(self, col: &str) -> (r: Self)
        ensures
            appended_simple(self.where_clauses@, r.where_clauses@, Connector::Or, CondV::IsNotNull(col@)),
            keeps_all_but_where(self, r),
    {
        self.add_where(Connector::Or, Condition::IsNotNull(col.to_string()))
    }

    /// Adds the condition `col BETWEEN ? AND ?`, joined by `AND`.
    pub fn where_between(self, col: &str, lo: Param, hi: Param) -> (r: Self)
        ensures
            appended_simple(self.where_clauses@, r.where_clauses@, Connector::And, CondV::Between(col@, lo@, hi@)),
            keeps_all_but_where(self, r),
    {
        self.add_where(Connector::And, Condition::Between(col.to_string(), lo, hi))
    }

    /// Adds the condition `col BETWEEN ? AND ?`, joined by `OR`.
    pub fn or_where_between(self, col: &str, lo: Param, hi: Param) -> (r: Self)
        ensures
            appended_simple(self.where_clauses@, r.where_clauses@, Connector::Or, CondV::Between(col@, lo@, hi@)),
            keeps_all_but_where(self, r),
    {
        self.add_where(Connector::Or, Condition::Between(col.to_string(), lo, hi))
    }

    /// Adds the condition `col NOT BETWEEN ? AND ?`, joined by `AND`.
    pub fn where_not_between(self, col: &str, lo: Param, hi: Param) -> (r: Self)
        ensures
            appended_simple(self.where_clauses@, r.where_clauses@, Connector::And, CondV::NotBetween(col@, lo@, hi@)),
            keeps_all_but_where(self, r),
    {
        self.add_where(Connector::And, Condition::NotBetween(col.to_string(), lo, hi))
    }

    /// Adds the condition `col NOT BETWEEN ? AND ?`, joined by `OR`.
    pub fn or_where_not_between(self, col: &str, lo: Param, hi: Param) -> (r: Self)
        ensures
            appended_simple(self.where_clauses@, r.where_clauses@, Connector::Or, CondV::NotBetween(col@, lo@, hi@)),
            keeps_all_but_where(self, r),
    {
        self.add_where(Connector::Or, Condition::NotBetween(col.to_string(), lo, hi))
    }

    /// Adds the condition raw SQL with its parameters, joined by `AND`.
    pub fn where_raw(self, sql: &str, params: Vec<Param>) -> (r: Self)
        ensures
            appended_simple(self.where_clauses@, r.where_clauses@, Connector::And, CondV::Raw(sql@, params_view(params@))),
            keeps_all_but_where(self, r),
    {
        self.add_where(Connector::And, Condition::Raw(sql.to_string(), params))
    }

    /// Adds the condition raw SQL with its parameters, joined by `OR`.
    pub fn or_where_raw(self, sql: &str, params: Vec<Param>) -> (r: Self)
        ensures
            appended_simple(self.where_clauses@, r.where_clauses@, Connector::Or, CondV::Raw(sql@, params_view(params@))),
            keeps_all_but_where(self, r),
    {
        self.add_where(Connector::Or, Condition::Raw(sql.to_string(), params))
    }

    /// Adds a parenthesised group of clauses, joined by `AND`: `f` fills
    /// an empty group.
    pub fn where_group<F: FnOnce(WhereGroupBuilder) -> WhereGroupBuilder>(self, f: F) -> (r: Self)
        requires
            forall|g: WhereGroupBuilder| call_requires(f, (g,)),
        ensures
            exists|g_in: WhereGroupBuilder, g_out: WhereGroupBuilder|
                g_in.clauses@.len() == 0 && call_ensures(f, (g_in,), g_out) && appended_group(
                    self.where_clauses@,
                    r.where_clauses@,
                    Connector::And,
                    g_out.clauses@,
                ),
            keeps_all_but_where(self, r),
    {
        let grp = f(WhereGroupBuilder::new());
        self.add_where_group(Connector::And, grp.clauses)
    }

    /// Adds a parenthesised group of clauses, joined by `OR`: `f` fills
    /// an empty group.
    pub fn or_where_group<F: FnOnce(WhereGroupBuilder) -> WhereGroupBuilder>(self, f: F) -> (r: Self)
        requires
            forall|g: WhereGroupBuilder| call_requires(f, (g,)),
        ensures
            exists|g_in: WhereGroupBuilder, g_out: WhereGroupBuilder|
                g_in.clauses@.len() == 0 && call_ensures(f, (g_in,), g_out) && appended_group(
                    self.where_clauses@,
                    r.where_clauses@,
                    Connector::Or,
                    g_out.clauses@,
                ),
            keeps_all_but_where(self, r),
    {
        let grp = f(WhereGroupBuilder::new());
        self.add_where_group(Connector::Or, grp.clauses)
    }

    fn add_having(self, connector: Connector, cond: Condition) -> (r: Self)
        ensures
            appended_simple(self.having_clauses@, r.having_clauses@, connector, cond@),
            keeps_all_but_having(self, r),
    {
        let mut h = self.having_clauses;
        push_simple(&mut h, connector, cond);
        QueryBuilder { having_clauses: h, ..self }
    }

    /// Adds the `HAVING` condition `col = ?`, joined by `AND`.
    pub fn having_eq(self, col: &str, val: Param) -> (r: Self)
        ensures
            appended_simple(self.having_clauses@, r.having_clauses@, Connector::And, CondV::Eq(col@, val@)),
            keeps_all_but_having(self, r),
    {
        self.add_having(Connector::And, Condition::Eq(col.to_string(), val))
    }

    /// Adds the `HAVING` condition `col > ?`, joined by `AND`.
    pub fn having_gt(self, col: &str, val: Param) -> (r: Self)
        ensures
            appended_simple(self.having_clauses@, r.having_clauses@, Connector::And, CondV::Gt(col@, val@)),
            keeps_all_but_having(self, r),
    {
        self.add_having(Connector::And, Condition::Gt(col.to_string(), val))
    }

    /// Adds the `HAVING` condition `col >= ?`, joined by `AND`.
    pub fn having_gte(self, col: &str, val: Param) -> (r: Self)
        ensures
            appended_simple(self.having_clauses@, r.having_clauses@, Connector::And, CondV::Gte(col@, val@)),
            keeps_all_but_having(self, r),
    {
        self.add_having(Connector::And, Condition::Gte(col.to_string(), val))
    }

    /// Adds the `HAVING` condition `col < ?`, joined by `AND`.
    pub fn having_lt(self, col: &str, val: Param) -> (r: Self)
        ensures
            appended_simple(self.having_clauses@, r.having_clauses@, Connector::And, CondV::Lt(col@, val@)),
            keeps_all_but_having(self, r),
    {
        self.add_having(Connector::And, Condition::Lt(col.to_string(), val))
    }

    /// Adds the `HAVING` condition `col <= ?`, joined by `AND`.
    pub fn having_lte(self, col: &str, val: Param) -> (r: Self)
        ensures
            appended_simple(self.having_clauses@, r.having_clauses@, Connector::And, CondV::Lte(col@, val@)),
            keeps_all_but_having(self, r),
    {
        self.add_having(Connector::And, Condition::Lte(col.to_string(), val))
    }

    /// Adds a raw `HAVING` condition with its parameters, joined by `AND`.
    pub fn having_raw(self, sql: &str, params: Vec<Param>) -> (r: Self)
        ensures
            appended_simple(
                self.having_clauses@,
                r.having_clauses@,
                Connector::And,
                CondV::Raw(sql@, params_view(params@)),
            ),
            keeps_all_but_having(self, r),
    {
        self.add_having(Connector::And, Condition::Raw(sql.to_string(), params))
    }

    /// Adds a raw join clause, such as `LEFT JOIN posts ON posts.user_id = users.id`.
    pub fn join(self, join_clause: &str) -> (r: Self)
        ensures
            texts(r.joins@) == texts(self.joins@).push(join_clause@),
            r.table@ == self.table@,
            r.selects@ == self.selects@,
            r.where_clauses@ == self.where_clauses@,
            r.order_by@ == self.order_by@,
            r.limit == self.limit,
            r.offset == self.offset,
            r.group_by@ == self.group_by@,
            r.having_clauses@ == self.having_clauses@,
    {
        let mut joins = self.joins;
        let ghost before = joins@;
        joins.push(join_clause.to_string());
        assert(texts(joins@) =~= texts(before).push(join_clause@));
        QueryBuilder { joins, ..self }
    }

    /// Adds `<kind> JOIN table ON on`.
    fn join_kind(self, kind: &str, table: &str, on: &str) -> (r: Self)
        ensures
            texts(r.joins@) == texts(self.joins@).push(join_text(kind@, table@, on@)),
            r.table@ == self.table@,
            r.selects@ == self.selects@,
            r.where_clauses@ == self.where_clauses@,
            r.order_by@ == self.order_by@,
            r.limit == self.limit,
            r.offset == self.offset,
            r.group_by@ == self.group_by@,
            r.having_clauses@ == self.having_clauses@,
    {
        let mut clause = String::new();
        clause.append(kind);
        clause.append(" JOIN ");
        clause.append(table);
        clause.append(" ON ");
        clause.append(on);
        assert(clause@ =~= join_text(kind@, table@, on@));
        self.join(clause.as_str())
    }

    /// Adds `LEFT JOIN table ON on`.
    pub fn left_join(self, table: &str, on: &str) -> (r: Self)
        ensures
            texts(r.joins@) == texts(self.joins@).push(join_text("LEFT"@, table@, on@)),
            r.table@ == self.table@,
            r.selects@ == self.selects@,
            r.where_clauses@ == self.where_clauses@,
            r.order_by@ == self.order_by@,
            r.limit == self.limit,
            r.offset == self.offset,
            r.group_by@ == self.group_by@,
            r.having_clauses@ == self.having_clauses@,
    {
        self.join_kind("LEFT", table, on)
    }

    /// Adds `INNER JOIN table ON on`.
    pub fn inner_join(self, table: &str, on: &str) -> (r: Self)
        ensures
            texts(r.joins@) == texts(self.joins@).push(join_text("INNER"@, table@, on@)),
            r.table@ == self.table@,
            r.selects@ == self.selects@,
            r.where_clauses@ == self.where_clauses@,
            r.order_by@ == self.order_by@,
            r.limit == self.limit,
            r.offset == self.offset,
            r.group_by@ == self.group_by@,
            r.having_clauses@ == self.having_clauses@,
    {
        self.join_kind("INNER", table, on)
    }

    /// Adds `RIGHT JOIN table ON on`.
    pub fn right_join(self, table: &str, on: &str) -> (r: Self)
        ensures
            texts(r.joins@) == texts(self.joins@).push(join_text("RIGHT"@, table@, on@)),
            r.table@ == self.table@,
            r.selects@ == self.selects@,
            r.where_clauses@ == self.where_clauses@,
            r.order_by@ == self.order_by@,
            r.limit == self.limit,
            r.offset == self.offset,
            r.group_by@ == self.group_by@,
            r.having_clauses@ == self.having_clauses@,
    {
        self.join_kind("RIGHT", table, on)
    }

    /// Adds `col` to the sort order, in the direction `order`.
    pub fn order_by(self, col: &str, order: Order) -> (r: Self)
        ensures
            order_terms(r.order_by@) == order_terms(self.order_by@).push(order_term(col@, order)),
            r.table@ == self.table@,
            r.selects@ == self.selects@,
            r.where_clauses@ == self.where_clauses@,
            r.joins@ == self.joins@,
            r.limit == self.limit,
            r.offset == self.offset,
            r.group_by@ == self.group_by@,
            r.having_clauses@ == self.having_clauses@,
    {
        let mut o = self.order_by;
        let ghost before = o@;
        o.push((col.to_string(), order));
        assert(order_terms(o@) =~= order_terms(before).push(order_term(col@, order)));
        QueryBuilder { order_by: o, ..self }
    }

    /// Adds `col` to the sort order, ascending.
    pub fn order_asc(self, col: &str) -> (r: Self)
        ensures
            order_terms(r.order_by@) == order_terms(self.order_by@).push(order_term(col@, Order::Asc)),
            r.table@ == self.table@,
            r.selects@ == self.selects@,
            r.where_clauses@ == self.where_clauses@,
            r.joins@ == self.joins@,
            r.limit == self.limit,
            r.offset == self.offset,
            r.group_by@ == self.group_by@,
            r.having_clauses@ == self.having_clauses@,
    {
        self.order_by(col, Order::Asc)
    }

    /// Adds `col` to the sort order, descending.
    pub fn order_desc(self, col: &str) -> (r: Self)
        ensures
            order_terms(r.order_by@) == order_terms(self.order_by@).push(order_term(col@, Order::Desc)),
            r.table@ == self.table@,
            r.selects@ == self.selects@,
            r.where_clauses@ == self.where_clauses@,
            r.joins@ == self.joins@,
            r.limit == self.limit,
            r.offset == self.offset,
            r.group_by@ == self.group_by@,
            r.having_clauses@ == self.having_clauses@,
    {
        self.order_by(col, Order::Desc)
    }

    /// Limits the number of rows.
    pub fn limit(self, n: u64) -> (r: Self)
        ensures
            r.limit == Some(n),
            r.table@ == self.table@,
            r.selects@ == self.selects@,
            r.where_clauses@ == self.where_clauses@,
            r.joins@ == self.joins@,
            r.order_by@ == self.order_by@,
            r.offset == self.offset,
            r.group_by@ == self.group_by@,
            r.having_clauses@ == self.having_clauses@,
    {
        QueryBuilder { limit: Some(n), ..self }
    }

    /// Skips the first `n` rows.
    pub fn offset(self, n: u64) -> (r: Self)
        ensures
            r.offset == Some(n),
            r.table@ == self.table@,
            r.selects@ == self.selects@,
            r.where_clauses@ == self.where_clauses@,
            r.joins@ == self.joins@,
            r.order_by@ == self.order_by@,
            r.limit == self.limit,
            r.group_by@ == self.group_by@,
            r.having_clauses@ == self.having_clauses@,
    {
        QueryBuilder { offset: Some(n), ..self }
    }

    /// Adds `col` to the `GROUP BY` columns.
    pub fn group_by(self, col: &str) -> (r: Self)
        ensures
            texts(r.group_by@) == texts(self.group_by@).push(col@),
            r.table@ == self.table@,
            r.selects@ == self.selects@,
            r.where_clauses@ == self.where_clauses@,
            r.joins@ == self.joins@,
            r.order_by@ == self.order_by@,
            r.limit == self.limit,
            r.offset == self.offset,
            r.having_clauses@ == self.having_clauses@,
    {
        let mut g = self.group_by;
        let ghost before = g@;
        g.push(col.to_string());
        assert(texts(g@) =~= texts(before).push(col@));
        QueryBuilder { group_by: g, ..self }
    }

    /// Applies a reusable scope: the builder that `f` makes of this one.
    pub fn scope<F: FnOnce(QueryBuilder) -> QueryBuilder>(self, f: F) -> (r: Self)
        requires
            call_requires(f, (self,)),
        ensures
            call_ensures(f, (self,), r),
    {
        f(self)
    }
}

} // verus!
