//! The SQL statements that a query builder stands for, each with the
//! parameters that it binds, in the order of their placeholders.

use vstd::prelude::*;
use crate::database::model::{CondV, Param, ParamV, params_view};
use crate::database::query_builder::{
    QueryBuilder,
    WhereClause,
    clauses_sql,
    clauses_to_sql,
    order_term,
    order_terms,
    placeholders,
};
use crate::text::{texts, join_sep, decimal, push_decimal, push_joined, str_eq};

verus! {

// ── the parts of a statement ────────────────────────────────────────────────

/// `keyword` followed by the clauses, with their parameters; nothing when
/// there are no clauses.
pub open spec fn clauses_part(cs: Seq<WhereClause>, keyword: Seq<char>) -> (Seq<char>, Seq<ParamV>) {
    if cs.len() == 0 {
        (Seq::empty(), Seq::empty())
    } else {
        (keyword + clauses_sql(cs).0, clauses_sql(cs).1)
    }
}

/// `keyword` followed by the items joined with `sep`; nothing when there
/// are no items.
pub open spec fn list_part(items: Seq<Seq<char>>, keyword: Seq<char>, sep: Seq<char>) -> Seq<char> {
    if items.len() == 0 {
        Seq::empty()
    } else {
        keyword + join_sep(items, sep)
    }
}

/// `keyword` followed by the number; nothing when there is none.
pub open spec fn number_part(n: Option<u64>, keyword: Seq<char>) -> Seq<char> {
    match n {
        Some(v) => keyword + decimal(v as nat),
        None => Seq::empty(),
    }
}

/// The join clauses of a builder, each after a space.
pub open spec fn joins_part(q: QueryBuilder) -> Seq<char> {
    list_part(texts(q.joins@), " "@, " "@)
}

/// The `WHERE` part of a builder, with its parameters.
pub open spec fn where_part(q: QueryBuilder) -> (Seq<char>, Seq<ParamV>) {
    clauses_part(q.where_clauses@, " WHERE "@)
}

/// The full `SELECT` statement of a builder.
pub open spec fn select_statement(q: QueryBuilder) -> (Seq<char>, Seq<ParamV>) {
    let w = where_part(q);
    let h = clauses_part(q.having_clauses@, " HAVING "@);
    (
        "SELECT "@ + join_sep(texts(q.selects@), ", "@) + " FROM "@ + q.table@ + joins_part(q)
            + w.0 + list_part(texts(q.group_by@), " GROUP BY "@, ", "@) + h.0 + list_part(
            order_terms(q.order_by@),
            " ORDER BY "@,
            ", "@,
        ) + number_part(q.limit, " LIMIT "@) + number_part(q.offset, " OFFSET "@),
        w.1 + h.1,
    )
}

/// `SELECT expr as alias` over the builder's table, joins and `WHERE`
/// clauses.
pub open spec fn aggregate_statement(q: QueryBuilder, expr: Seq<char>, alias: Seq<char>) -> (
    Seq<char>,
    Seq<ParamV>,
) {
    (
        "SELECT "@ + expr + " as "@ + alias + " FROM "@ + q.table@ + joins_part(q) + where_part(q).0,
        where_part(q).1,
    )
}

/// The row count of a builder's query (`_count`).
pub open spec fn count_statement(q: QueryBuilder) -> (Seq<char>, Seq<ParamV>) {
    aggregate_statement(q, "COUNT(*)"@, "_count"@)
}

/// The columns of a list of column values.
pub open spec fn column_names(v: Seq<(String, Param)>) -> Seq<Seq<char>> {
    v.map_values(|p: (String, Param)| p.0@)
}

/// The values of a list of column values.
pub open spec fn column_values(v: Seq<(String, Param)>) -> Seq<ParamV> {
    v.map_values(|p: (String, Param)| p.1@)
}

/// `col = ?` for each column.
pub open spec fn assignments(v: Seq<(String, Param)>) -> Seq<Seq<char>> {
    v.map_values(|p: (String, Param)| p.0@ + " = ?"@)
}

/// The `INSERT` of one row.
pub open spec fn insert_statement(table: Seq<char>, values: Seq<(String, Param)>) -> (
    Seq<char>,
    Seq<ParamV>,
) {
    (
        "INSERT INTO "@ + table + " ("@ + join_sep(column_names(values), ", "@) + ") VALUES ("@
            + placeholders(values.len()) + ")"@,
        column_values(values),
    )
}

/// The placeholder group of one row of `n` values.
pub open spec fn row_group(n: nat) -> Seq<char> {
    "("@ + placeholders(n) + ")"@
}

/// The values of all rows, row after row.
pub open spec fn rows_values(rows: Seq<Vec<(String, Param)>>) -> Seq<ParamV>
    decreases rows.len(),
{
    if rows.len() == 0 {
        Seq::empty()
    } else {
        rows_values(rows.drop_last()) + column_values(rows.last()@)
    }
}

/// The `INSERT` of several rows, whose columns are those of the first row;
/// none when there are no rows.
pub open spec fn insert_many_statement(table: Seq<char>, rows: Seq<Vec<(String, Param)>>) -> Option<
    (Seq<char>, Seq<ParamV>),
> {
    if rows.len() == 0 {
        None
    } else {
        let first = rows[0]@;
        Some(
            (
                "INSERT INTO "@ + table + " ("@ + join_sep(column_names(first), ", "@)
                    + ") VALUES "@ + join_sep(
                    Seq::new(rows.len(), |i: int| row_group(first.len())),
                    ", "@,
                ),
                rows_values(rows),
            ),
        )
    }
}

/// `col = excluded.col` for each column that is not a conflict column.
pub open spec fn update_terms(cols: Seq<Seq<char>>, conflict: Seq<Seq<char>>) -> Seq<Seq<char>>
    decreases cols.len(),
{
    if cols.len() == 0 {
        Seq::empty()
    } else {
        let prev = update_terms(cols.drop_last(), conflict);
        let c = cols.last();
        if conflict.contains(c) {
            prev
        } else {
            prev.push(c + " = excluded."@ + c)
        }
    }
}

/// The `INSERT … ON CONFLICT` of one row: the other columns are updated,
/// or nothing is done when every column is a conflict column.
pub open spec fn upsert_statement(
    table: Seq<char>,
    values: Seq<(String, Param)>,
    conflict: Seq<Seq<char>>,
) -> (Seq<char>, Seq<ParamV>) {
    let set = update_terms(column_names(values), conflict);
    (
        insert_statement(table, values).0 + " ON CONFLICT ("@ + join_sep(conflict, ", "@) + ")"@ + (
        if set.len() == 0 {
            " DO NOTHING"@
        } else {
            " DO UPDATE SET "@ + join_sep(set, ", "@)
        }),
        column_values(values),
    )
}

/// The assignment that an upsert makes to column `c` on a conflict.
pub open spec fn excluded_term(c: Seq<char>) -> Seq<char> {
    c + " = excluded."@ + c
}

proof fn lemma_update_terms_filter(cols: Seq<Seq<char>>, conflict: Seq<Seq<char>>)
    ensures
        update_terms(cols, conflict) == cols.filter(|c: Seq<char>| !conflict.contains(c)).map_values(
            |c: Seq<char>| excluded_term(c),
        ),
    decreases cols.len(),
{
    reveal(Seq::filter);
    let pred = |c: Seq<char>| !conflict.contains(c);
    let f = |c: Seq<char>| excluded_term(c);
    if cols.len() == 0 {
        assert(cols.filter(pred) =~= Seq::<Seq<char>>::empty());
        assert(cols.filter(pred).map_values(f) =~= Seq::<Seq<char>>::empty());
    } else {
        lemma_update_terms_filter(cols.drop_last(), conflict);
        let sub = cols.drop_last().filter(pred);
        let c = cols.last();
        if pred(c) {
            assert(cols.filter(pred) == sub.push(c));
            assert(sub.push(c).map_values(f) =~= sub.map_values(f).push(f(c)));
            assert(update_terms(cols, conflict) == sub.map_values(f).push(excluded_term(c)));
        } else {
            assert(cols.filter(pred) == sub);
            assert(update_terms(cols, conflict) == update_terms(cols.drop_last(), conflict));
        }
        assert(update_terms(cols, conflict) =~= cols.filter(pred).map_values(f));
    }
}

/// The `DO UPDATE SET` list of an upsert assigns `c = excluded.c` to every
/// value column `c` that is not a conflict column, and to no other, in the
/// order of the columns; when there is no such column the upsert does
/// nothing on a conflict. The values bound are those of the row, in order.
pub proof fn law_upsert_updates_other_columns(
    table: Seq<char>,
    values: Seq<(String, Param)>,
    conflict: Seq<Seq<char>>,
)
    ensures
        ({
            let others = column_names(values).filter(|c: Seq<char>| !conflict.contains(c));
            let head = insert_statement(table, values).0 + " ON CONFLICT ("@ + join_sep(
                conflict,
                ", "@,
            ) + ")"@;
            &&& upsert_statement(table, values, conflict).0 == head + if others.len() == 0 {
                " DO NOTHING"@
            } else {
                " DO UPDATE SET "@ + join_sep(
                    others.map_values(|c: Seq<char>| excluded_term(c)),
                    ", "@,
                )
            }
            &&& upsert_statement(table, values, conflict).1 == column_values(values)
        }),
{
    lemma_update_terms_filter(column_names(values), conflict);
}

/// The `UPDATE` of the given columns in the rows that the builder selects;
/// none when there are no columns.
pub open spec fn update_statement(q: QueryBuilder, values: Seq<(String, Param)>) -> Option<
    (Seq<char>, Seq<ParamV>),
> {
    if values.len() == 0 {
        None
    } else {
        Some(
            (
                "UPDATE "@ + q.table@ + " SET "@ + join_sep(assignments(values), ", "@)
                    + where_part(q).0,
                column_values(values) + where_part(q).1,
            ),
        )
    }
}

/// `UPDATE table SET col = col <op> ?` in the rows that the builder selects.
pub open spec fn step_statement(q: QueryBuilder, col: Seq<char>, op: Seq<char>, amount: i64) -> (
    Seq<char>,
    Seq<ParamV>,
) {
    (
        "UPDATE "@ + q.table@ + " SET "@ + col + " = "@ + col + op + where_part(q).0,
        seq![ParamV::Int(amount)] + where_part(q).1,
    )
}

/// The `DELETE` of the rows that the builder selects.
pub open spec fn delete_statement(q: QueryBuilder) -> (Seq<char>, Seq<ParamV>) {
    ("DELETE FROM "@ + q.table@ + where_part(q).0, where_part(q).1)
}

// ── building the parts ──────────────────────────────────────────────────────

fn push_clauses_part(out: &mut String, cs: &Vec<WhereClause>, keyword: &str, params: &mut Vec<Param>)
    ensures
        final(out)@ == old(out)@ + clauses_part(cs@, keyword@).0,
        params_view(final(params)@) == params_view(old(params)@) + clauses_part(cs@, keyword@).1,
{
    if cs.len() > 0 {
        out.append(keyword);
        let s = clauses_to_sql(cs, params);
        out.append(s.as_str());
        assert(out@ =~= old(out)@ + clauses_part(cs@, keyword@).0);
    } else {
        assert(out@ =~= old(out)@ + clauses_part(cs@, keyword@).0);
        assert(params_view(params@) =~= params_view(old(params)@) + clauses_part(cs@, keyword@).1);
    }
}

fn push_list_part(out: &mut String, items: &Vec<String>, keyword: &str, sep: &str)
    ensures
        final(out)@ == old(out)@ + list_part(texts(items@), keyword@, sep@),
{
    if items.len() > 0 {
        out.append(keyword);
        push_joined(out, items, sep);
        assert(out@ =~= old(out)@ + list_part(texts(items@), keyword@, sep@));
    } else {
        assert(out@ =~= old(out)@ + list_part(texts(items@), keyword@, sep@));
    }
}

fn push_number_part(out: &mut String, n: Option<u64>, keyword: &str)
    ensures
        final(out)@ == old(out)@ + number_part(n, keyword@),
{
    match n {
        Some(v) => {
            out.append(keyword);
            push_decimal(out, v);
            assert(out@ =~= old(out)@ + number_part(n, keyword@));
        },
        None => {
            assert(out@ =~= old(out)@ + number_part(n, keyword@));
        },
    }
}

fn push_order_part(out: &mut String, order: &Vec<(String, crate::database::model::Order)>)
    ensures
        final(out)@ == old(out)@ + list_part(order_terms(order@), " ORDER BY "@, ", "@),
{
    let ghost t = order_terms(order@);
    if order.len() == 0 {
        assert(out@ =~= old(out)@ + list_part(t, " ORDER BY "@, ", "@));
        return;
    }
    out.append(" ORDER BY ");
    let ghost start = out@;
    let mut i: usize = 0;
    assert(t.take(0) =~= Seq::<Seq<char>>::empty());
    assert(start =~= start + join_sep(t.take(0), ", "@));
    while i < order.len()
        invariant
            i <= order@.len(),
            t == order_terms(order@),
            out@ == start + join_sep(t.take(i as int), ", "@),
        decreases order@.len() - i,
    {
        if i > 0 {
            out.append(", ");
        }
        let pair = &order[i];
        out.append(pair.0.as_str());
        out.append(" ");
        out.append(pair.1.as_str());
        assert(t[i as int] == order_term(order@[i as int].0@, order@[i as int].1));
        assert(t.take(i + 1).drop_last() =~= t.take(i as int));
        assert(t.take(i + 1).last() == t[i as int]);
        assert(out@ =~= start + join_sep(t.take(i + 1), ", "@));
        i += 1;
    }
    assert(t.take(order@.len() as int) =~= t);
    assert(out@ =~= old(out)@ + list_part(t, " ORDER BY "@, ", "@));
}

/// Appends the columns of the values joined with `, `; with `assign`, each
/// as `col = ?`.
fn push_columns(out: &mut String, values: &Vec<(String, Param)>, assign: bool)
    ensures
        final(out)@ == old(out)@ + join_sep(
            if assign {
                assignments(values@)
            } else {
                column_names(values@)
            },
            ", "@,
        ),
{
    let ghost t = if assign {
        assignments(values@)
    } else {
        column_names(values@)
    };
    let mut i: usize = 0;
    assert(t.take(0) =~= Seq::<Seq<char>>::empty());
    assert(out@ =~= old(out)@ + join_sep(t.take(0), ", "@));
    while i < values.len()
        invariant
            i <= values@.len(),
            t == (if assign {
                assignments(values@)
            } else {
                column_names(values@)
            }),
            out@ == old(out)@ + join_sep(t.take(i as int), ", "@),
        decreases values@.len() - i,
    {
        if i > 0 {
            out.append(", ");
        }
        out.append(values[i].0.as_str());
        if assign {
            out.append(" = ?");
        }
        assert(t.take(i + 1).drop_last() =~= t.take(i as int));
        assert(t.take(i + 1).last() == t[i as int]);
        assert(out@ =~= old(out)@ + join_sep(t.take(i + 1), ", "@));
        i += 1;
    }
    assert(t.take(values@.len() as int) =~= t);
}

fn push_values(params: &mut Vec<Param>, values: &Vec<(String, Param)>)
    ensures
        params_view(final(params)@) == params_view(old(params)@) + column_values(values@),
{
    let mut i: usize = 0;
    assert(column_values(values@.take(0)) =~= Seq::<ParamV>::empty());
    while i < values.len()
        invariant
            i <= values@.len(),
            params_view(params@) == params_view(old(params)@) + column_values(values@.take(i as int)),
        decreases values@.len() - i,
    {
        let ghost before = params@;
        params.push(values[i].1.copy());
        assert(params_view(params@) =~= params_view(before).push(values@[i as int].1@));
        assert(column_values(values@.take(i + 1)) =~= column_values(values@.take(i as int)).push(
            values@[i as int].1@,
        ));
        i += 1;
    }
    assert(values@.take(values@.len() as int) =~= values@);
}

/// Whether one of the strings holds the same characters as `s`.
fn contains_text(v: &Vec<String>, s: &str) -> (r: bool)
    ensures
        r == texts(v@).contains(s@),
{
    let mut i: usize = 0;
    while i < v.len()
        invariant
            i <= v@.len(),
            forall|j: int| 0 <= j < i ==> texts(v@)[j] != s@,
        decreases v@.len() - i,
    {
        if str_eq(v[i].as_str(), s) {
            assert(texts(v@)[i as int] == s@);
            return true;
        }
        i += 1;
    }
    assert(!texts(v@).contains(s@)) by {
        if texts(v@).contains(s@) {
            let j = choose|j: int| 0 <= j < texts(v@).len() && texts(v@)[j] == s@;
            assert(texts(v@)[j] != s@);
        }
    }
    false
}

// ── the statements ──────────────────────────────────────────────────────────

impl QueryBuilder {
    /// The `SELECT` statement of this query and its parameters.
    pub fn build_select_sql(&self) -> (r: (String, Vec<Param>))
        ensures
            r.0@ == select_statement(*self).0,
            params_view(r.1@) == select_statement(*self).1,
    {
        let mut params: Vec<Param> = Vec::new();
        let mut sql = String::new();
        sql.append("SELECT ");
        push_joined(&mut sql, &self.selects, ", ");
        sql.append(" FROM ");
        sql.append(self.table.as_str());
        push_list_part(&mut sql, &self.joins, " ", " ");
        push_clauses_part(&mut sql, &self.where_clauses, " WHERE ", &mut params);
        push_list_part(&mut sql, &self.group_by, " GROUP BY ", ", ");
        push_clauses_part(&mut sql, &self.having_clauses, " HAVING ", &mut params);
        push_order_part(&mut sql, &self.order_by);
        push_number_part(&mut sql, self.limit, " LIMIT ");
        push_number_part(&mut sql, self.offset, " OFFSET ");
        assert(sql@ =~= select_statement(*self).0);
        assert(params_view(params@) =~= select_statement(*self).1);
        (sql, params)
    }

    /// `SELECT expr as alias` over this query's table, joins and `WHERE`
    /// clauses, and its parameters.
    pub fn aggregate_sql(&self, expr: &str, alias: &str) -> (r: (String, Vec<Param>))
        ensures
            r.0@ == aggregate_statement(*self, expr@, alias@).0,
            params_view(r.1@) == aggregate_statement(*self, expr@, alias@).1,
    {
        let mut params: Vec<Param> = Vec::new();
        let mut sql = String::new();
        sql.append("SELECT ");
        sql.append(expr);
        sql.append(" as ");
        sql.append(alias);
        sql.append(" FROM ");
        sql.append(self.table.as_str());
        push_list_part(&mut sql, &self.joins, " ", " ");
        push_clauses_part(&mut sql, &self.where_clauses, " WHERE ", &mut params);
        assert(sql@ =~= aggregate_statement(*self, expr@, alias@).0);
        assert(params_view(params@) =~= aggregate_statement(*self, expr@, alias@).1);
        (sql, params)
    }

    /// The statement that counts this query's rows, as `_count`.
    pub fn count_sql(&self) -> (r: (String, Vec<Param>))
        ensures
            r.0@ == count_statement(*self).0,
            params_view(r.1@) == count_statement(*self).1,
    {
        self.aggregate_sql("COUNT(*)", "_count")
    }

    fn wrapped_aggregate(&self, func: &str, col: &str, close: &str) -> (r: (String, Vec<Param>))
        ensures
            r.0@ == aggregate_statement(*self, func@ + col@ + close@, "_agg"@).0,
            params_view(r.1@) == aggregate_statement(*self, func@ + col@ + close@, "_agg"@).1,
    {
        let mut expr = String::new();
        expr.append(func);
        expr.append(col);
        expr.append(close);
        self.aggregate_sql(expr.as_str(), "_agg")
    }

    /// The statement of the sum of `col` (0 over no rows), as `_agg`.
    pub fn sum_sql(&self, col: &str) -> (r: (String, Vec<Param>))
        ensures
            r.0@ == aggregate_statement(*self, "COALESCE(SUM("@ + col@ + "), 0)"@, "_agg"@).0,
            params_view(r.1@) == where_part(*self).1,
    {
        self.wrapped_aggregate("COALESCE(SUM(", col, "), 0)")
    }

    /// The statement of the average of `col`, as `_agg`.
    pub fn avg_sql(&self, col: &str) -> (r: (String, Vec<Param>))
        ensures
            r.0@ == aggregate_statement(*self, "AVG("@ + col@ + ")"@, "_agg"@).0,
            params_view(r.1@) == where_part(*self).1,
    {
        self.wrapped_aggregate("AVG(", col, ")")
    }

    /// The statement of the largest value of `col`, as `_agg`.
    pub fn max_value_sql(&self, col: &str) -> (r: (String, Vec<Param>))
        ensures
            r.0@ == aggregate_statement(*self, "MAX("@ + col@ + ")"@, "_agg"@).0,
            params_view(r.1@) == where_part(*self).1,
    {
        self.wrapped_aggregate("MAX(", col, ")")
    }

    /// The statement of the smallest value of `col`, as `_agg`.
    pub fn min_value_sql(&self, col: &str) -> (r: (String, Vec<Param>))
        ensures
            r.0@ == aggregate_statement(*self, "MIN("@ + col@ + ")"@, "_agg"@).0,
            params_view(r.1@) == where_part(*self).1,
    {
        self.wrapped_aggregate("MIN(", col, ")")
    }

    /// The `INSERT` of one row into this query's table.
    pub fn insert_sql(&self, values: &Vec<(String, Param)>) -> (r: (String, Vec<Param>))
        ensures
            r.0@ == insert_statement(self.table@, values@).0,
            params_view(r.1@) == insert_statement(self.table@, values@).1,
    {
        let mut sql = String::new();
        sql.append("INSERT INTO ");
        sql.append(self.table.as_str());
        sql.append(" (");
        push_columns(&mut sql, values, false);
        sql.append(") VALUES (");
        crate::database::query_builder::push_placeholders(&mut sql, values.len());
        sql.append(")");
        let mut params: Vec<Param> = Vec::new();
        push_values(&mut params, values);
        assert(sql@ =~= insert_statement(self.table@, values@).0);
        assert(params_view(params@) =~= insert_statement(self.table@, values@).1);
        (sql, params)
    }

    /// The `INSERT` of several rows, with the columns of the first row;
    /// `None` when there are no rows, for which nothing is run.
    pub fn insert_many_sql(&self, rows: &Vec<Vec<(String, Param)>>) -> (r: Option<(String, Vec<Param>)>)
        ensures
            match r {
                Some((sql, ps)) => insert_many_statement(self.table@, rows@) == Some(
                    (sql@, params_view(ps@)),
                ),
                None => insert_many_statement(self.table@, rows@) is None,
            },
    {
        if rows.len() == 0 {
            return None;
        }
        let first = &rows[0];
        let n = first.len();
        let ghost group = Seq::new(rows@.len(), |i: int| row_group(first@.len()));
        let mut sql = String::new();
        sql.append("INSERT INTO ");
        sql.append(self.table.as_str());
        sql.append(" (");
        push_columns(&mut sql, first, false);
        sql.append(") VALUES ");
        let ghost start = sql@;
        let mut params: Vec<Param> = Vec::new();
        let mut i: usize = 0;
        assert(group.take(0) =~= Seq::<Seq<char>>::empty());
        assert(sql@ =~= start + join_sep(group.take(0), ", "@));
        assert(rows@.take(0) =~= Seq::<Vec<(String, Param)>>::empty());
        while i < rows.len()
            invariant
                i <= rows@.len(),
                n == rows@[0]@.len(),
                group == Seq::new(rows@.len(), |i: int| row_group(rows@[0]@.len())),
                sql@ == start + join_sep(group.take(i as int), ", "@),
                params_view(params@) == rows_values(rows@.take(i as int)),
            decreases rows@.len() - i,
        {
            if i > 0 {
                sql.append(", ");
            }
            sql.append("(");
            crate::database::query_builder::push_placeholders(&mut sql, n);
            sql.append(")");
            push_values(&mut params, &rows[i]);
            assert(group.take(i + 1).drop_last() =~= group.take(i as int));
            assert(group.take(i + 1).last() == row_group(n as nat));
            assert(sql@ =~= start + join_sep(group.take(i + 1), ", "@));
            assert(rows@.take(i + 1).drop_last() =~= rows@.take(i as int));
            assert(rows@.take(i + 1).last() == rows@[i as int]);
            i += 1;
        }
        assert(group.take(rows@.len() as int) =~= group);
        assert(rows@.take(rows@.len() as int) =~= rows@);
        assert(sql@ =~= insert_many_statement(self.table@, rows@).unwrap().0);
        Some((sql, params))
    }

    /// The `INSERT … ON CONFLICT (conflict) …` of one row: on a conflict the
    /// columns that are not conflict columns are updated, or nothing is done
    /// when there are none.
    pub fn upsert_sql(&self, values: &Vec<(String, Param)>, conflict_cols: &Vec<String>) -> (r: (
        String,
        Vec<Param>,
    ))
        ensures
            r.0@ == upsert_statement(self.table@, values@, texts(conflict_cols@)).0,
            params_view(r.1@) == upsert_statement(self.table@, values@, texts(conflict_cols@)).1,
    {
        let ghost cols = column_names(values@);
        let ghost conflict = texts(conflict_cols@);
        let mut set: Vec<String> = Vec::new();
        let mut i: usize = 0;
        assert(cols.take(0) =~= Seq::<Seq<char>>::empty());
        while i < values.len()
            invariant
                i <= values@.len(),
                cols == column_names(values@),
                conflict == texts(conflict_cols@),
                texts(set@) == update_terms(cols.take(i as int), conflict),
            decreases values@.len() - i,
        {
            let col = values[i].0.as_str();
            assert(cols.take(i + 1).drop_last() =~= cols.take(i as int));
            assert(cols.take(i + 1).last() == col@);
            if !contains_text(conflict_cols, col) {
                let mut term = String::new();
                term.append(col);
                term.append(" = excluded.");
                term.append(col);
                let ghost before = set@;
                set.push(term);
                assert(texts(set@) =~= texts(before).push(col@ + " = excluded."@ + col@));
            }
            i += 1;
        }
        assert(cols.take(values@.len() as int) =~= cols);
        let (insert, params) = self.insert_sql(values);
        let mut sql = insert;
        sql.append(" ON CONFLICT (");
        push_joined(&mut sql, conflict_cols, ", ");
        sql.append(")");
        if set.len() == 0 {
            sql.append(" DO NOTHING");
        } else {
            sql.append(" DO UPDATE SET ");
            push_joined(&mut sql, &set, ", ");
        }
        assert(sql@ =~= upsert_statement(self.table@, values@, conflict).0);
        (sql, params)
    }

    /// The `UPDATE` of the given columns in the rows that this query
    /// selects; `None` when there are no columns, for which nothing is run.
    pub fn update_sql(&self, values: &Vec<(String, Param)>) -> (r: Option<(String, Vec<Param>)>)
        ensures
            match r {
                Some((sql, ps)) => update_statement(*self, values@) == Some((sql@, params_view(ps@))),
                None => update_statement(*self, values@) is None,
            },
    {
        if values.len() == 0 {
            return None;
        }
        let mut sql = String::new();
        sql.append("UPDATE ");
        sql.append(self.table.as_str());
        sql.append(" SET ");
        push_columns(&mut sql, values, true);
        let mut params: Vec<Param> = Vec::new();
        push_values(&mut params, values);
        push_clauses_part(&mut sql, &self.where_clauses, " WHERE ", &mut params);
        assert(sql@ =~= update_statement(*self, values@).unwrap().0);
        assert(params_view(params@) =~= update_statement(*self, values@).unwrap().1);
        Some((sql, params))
    }

    fn step_sql(&self, col: &str, op: &str, amount: i64) -> (r: (String, Vec<Param>))
        ensures
            r.0@ == step_statement(*self, col@, op@, amount).0,
            params_view(r.1@) == step_statement(*self, col@, op@, amount).1,
    {
        let mut sql = String::new();
        sql.append("UPDATE ");
        sql.append(self.table.as_str());
        sql.append(" SET ");
        sql.append(col);
        sql.append(" = ");
        sql.append(col);
        sql.append(op);
        let mut params: Vec<Param> = Vec::new();
        params.push(Param::Int(amount));
        assert(params_view(params@) =~= seq![ParamV::Int(amount)]);
        push_clauses_part(&mut sql, &self.where_clauses, " WHERE ", &mut params);
        assert(sql@ =~= step_statement(*self, col@, op@, amount).0);
        (sql, params)
    }

    /// `UPDATE table SET col = col + ?` in the rows that this query selects.
    pub fn increment_sql(&self, col: &str, amount: i64) -> (r: (String, Vec<Param>))
        ensures
            r.0@ == step_statement(*self, col@, " + ?"@, amount).0,
            params_view(r.1@) == step_statement(*self, col@, " + ?"@, amount).1,
    {
        self.step_sql(col, " + ?", amount)
    }

    /// `UPDATE table SET col = col - ?` in the rows that this query selects.
    pub fn decrement_sql(&self, col: &str, amount: i64) -> (r: (String, Vec<Param>))
        ensures
            r.0@ == step_statement(*self, col@, " - ?"@, amount).0,
            params_view(r.1@) == step_statement(*self, col@, " - ?"@, amount).1,
    {
        self.step_sql(col, " - ?", amount)
    }

    /// The `DELETE` of the rows that this query selects.
    pub fn delete_sql(&self) -> (r: (String, Vec<Param>))
        ensures
            r.0@ == delete_statement(*self).0,
            params_view(r.1@) == delete_statement(*self).1,
    {
        let mut sql = String::new();
        sql.append("DELETE FROM ");
        sql.append(self.table.as_str());
        let mut params: Vec<Param> = Vec::new();
        push_clauses_part(&mut sql, &self.where_clauses, " WHERE ", &mut params);
        assert(sql@ =~= delete_statement(*self).0);
        assert(params_view(params@) =~= delete_statement(*self).1);
        (sql, params)
    }

    /// The two queries of page `page` (counted from 1) of `size` rows: the
    /// statement that counts all rows of this query, and this query limited
    /// to the page.
    pub fn paginate_plan(self, page: u64, size: u64) -> (r: ((String, Vec<Param>), QueryBuilder))
        requires
            page >= 1,
            (page - 1) * size <= u64::MAX,
        ensures
            r.0.0@ == count_statement(self).0,
            params_view(r.0.1@) == count_statement(self).1,
            r.1.limit == Some(size),
            r.1.offset == Some(((page - 1) * size) as u64),
            r.1.table@ == self.table@,
            r.1.selects@ == self.selects@,
            r.1.where_clauses@ == self.where_clauses@,
            r.1.joins@ == self.joins@,
            r.1.order_by@ == self.order_by@,
            r.1.group_by@ == self.group_by@,
            r.1.having_clauses@ == self.having_clauses@,
    {
        let count = self.count_sql();
        let skip: u64 = (page - 1) * size;
        let data = self.limit(size).offset(skip);
        (count, data)
    }
}

// ── laws ────────────────────────────────────────────────────────────────────

/// Adding a condition to a chain of clauses adds its fragment to the SQL
/// and its parameters after the others: the first condition follows the
/// keyword, each later one follows its connector.
pub proof fn law_condition_appends(
    before: Seq<WhereClause>,
    after: Seq<WhereClause>,
    conn: crate::database::query_builder::Connector,
    cv: crate::database::model::CondV,
    keyword: Seq<char>,
)
    requires
        crate::database::query_builder::appended_simple(before, after, conn, cv),
    ensures
        before.len() == 0 ==> clauses_part(after, keyword) == (
            keyword + crate::database::query_builder::cond_sql(cv).0,
            crate::database::query_builder::cond_sql(cv).1,
        ),
        before.len() > 0 ==> clauses_part(after, keyword) == (
            clauses_part(before, keyword).0 + " "@
                + crate::database::query_builder::connector_keyword(conn) + " "@
                + crate::database::query_builder::cond_sql(cv).0,
            clauses_part(before, keyword).1 + crate::database::query_builder::cond_sql(cv).1,
        ),
{
    assert(after.drop_last() =~= before);
    assert(after.last() == after[before.len() as int]);
    assert(crate::database::query_builder::clause_sql(after.last())
        == crate::database::query_builder::cond_sql(cv));
}

/// The number of `?` placeholders in a text.
pub open spec fn placeholder_count(s: Seq<char>) -> nat
    decreases s.len(),
{
    if s.len() == 0 {
        0
    } else {
        placeholder_count(s.drop_last()) + if s.last() == '?' {
            1nat
        } else {
            0nat
        }
    }
}

proof fn lemma_count_concat(a: Seq<char>, b: Seq<char>)
    ensures
        placeholder_count(a + b) == placeholder_count(a) + placeholder_count(b),
    decreases b.len(),
{
    if b.len() > 0 {
        assert((a + b).drop_last() =~= a + b.drop_last());
        lemma_count_concat(a, b.drop_last());
    } else {
        assert(a + b =~= a);
    }
}

proof fn lemma_no_placeholder(s: Seq<char>)
    requires
        forall|i: int| 0 <= i < s.len() ==> s[i] != '?',
    ensures
        placeholder_count(s) == 0,
    decreases s.len(),
{
    if s.len() > 0 {
        lemma_no_placeholder(s.drop_last());
    }
}

proof fn lemma_literal_count_zero(lit: &str)
    requires
        forall|i: int| 0 <= i < lit@.len() ==> lit@[i] != '?',
    ensures
        placeholder_count(lit@) == 0,
{
    lemma_no_placeholder(lit@);
}

proof fn lemma_literal_count_one(lit: &str)
    requires
        lit@.len() > 0,
        lit@.last() == '?',
        forall|i: int| 0 <= i < lit@.len() - 1 ==> lit@[i] != '?',
    ensures
        placeholder_count(lit@) == 1,
{
    lemma_no_placeholder(lit@.drop_last());
}

proof fn lemma_count_two(s: Seq<char>, k: int)
    requires
        0 < k < s.len(),
        s[k - 1] == '?',
        s.last() == '?',
        forall|i: int| 0 <= i < s.len() - 1 && i != k - 1 ==> s[i] != '?',
    ensures
        placeholder_count(s) == 2,
{
    let a = s.take(k);
    let b = s.skip(k);
    assert(a + b =~= s);
    lemma_count_concat(a, b);
    lemma_no_placeholder(a.drop_last());
    lemma_no_placeholder(b.drop_last());
}

proof fn lemma_count_placeholders(n: nat)
    ensures
        placeholder_count(crate::database::query_builder::placeholders(n)) == n,
    decreases n,
{
    reveal_strlit("?");
    reveal_strlit(", ?");
    if n == 1 {
        reveal_strlit("?");
        lemma_literal_count_one("?");
    } else if n > 1 {
        lemma_count_placeholders((n - 1) as nat);
        lemma_count_concat(crate::database::query_builder::placeholders((n - 1) as nat), ", ?"@);
        reveal_strlit(", ?");
        lemma_literal_count_one(", ?");
    }
}

/// A condition written by the builder's methods (not raw SQL) on a column
/// whose name holds no `?`.
pub open spec fn plain_condition(c: CondV) -> bool {
    match c {
        CondV::Eq(col, _) => placeholder_count(col) == 0,
        CondV::Ne(col, _) => placeholder_count(col) == 0,
        CondV::Gt(col, _) => placeholder_count(col) == 0,
        CondV::Gte(col, _) => placeholder_count(col) == 0,
        CondV::Lt(col, _) => placeholder_count(col) == 0,
        CondV::Lte(col, _) => placeholder_count(col) == 0,
        CondV::Like(col, _) => placeholder_count(col) == 0,
        CondV::NotLike(col, _) => placeholder_count(col) == 0,
        CondV::In(col, _) => placeholder_count(col) == 0,
        CondV::NotIn(col, _) => placeholder_count(col) == 0,
        CondV::IsNull(col) => placeholder_count(col) == 0,
        CondV::IsNotNull(col) => placeholder_count(col) == 0,
        CondV::Between(col, _, _) => placeholder_count(col) == 0,
        CondV::NotBetween(col, _, _) => placeholder_count(col) == 0,
        CondV::Raw(_, _) => false,
    }
}

/// Every condition of the clauses, in groups too, is plain.
pub open spec fn plain_clauses(cs: Seq<WhereClause>) -> bool
    decreases cs, 1int,
{
    if cs.len() == 0 {
        true
    } else {
        proof {
            assert(decreases_to!(cs => cs[cs.len() - 1]));
            assert(cs.drop_last() =~= cs.subrange(0, cs.len() - 1));
        }
        plain_clauses(cs.drop_last()) && plain_clause(cs[cs.len() - 1])
    }
}

/// The condition of a clause, or every condition of its group, is plain.
pub open spec fn plain_clause(c: WhereClause) -> bool
    decreases c, 0int,
{
    match c.inner {
        crate::database::query_builder::WhereInner::Simple(cond) => plain_condition(cond@),
        crate::database::query_builder::WhereInner::Group(inner) => {
            proof {
                assert(decreases_to!(c => c.inner));
            }
            plain_clauses(inner@)
        },
    }
}

proof fn lemma_condition_count(c: CondV)
    requires
        plain_condition(c),
    ensures
        placeholder_count(crate::database::query_builder::cond_sql(c).0)
            == crate::database::query_builder::cond_sql(c).1.len(),
{
    match c {
        CondV::Eq(col, _) => {
            lemma_count_concat(col, " = ?"@);
            reveal_strlit(" = ?");
            lemma_literal_count_one(" = ?");
        },
        CondV::Ne(col, _) => {
            lemma_count_concat(col, " != ?"@);
            reveal_strlit(" != ?");
            lemma_literal_count_one(" != ?");
        },
        CondV::Gt(col, _) => {
            lemma_count_concat(col, " > ?"@);
            reveal_strlit(" > ?");
            lemma_literal_count_one(" > ?");
        },
        CondV::Gte(col, _) => {
            lemma_count_concat(col, " >= ?"@);
            reveal_strlit(" >= ?");
            lemma_literal_count_one(" >= ?");
        },
        CondV::Lt(col, _) => {
            lemma_count_concat(col, " < ?"@);
            reveal_strlit(" < ?");
            lemma_literal_count_one(" < ?");
        },
        CondV::Lte(col, _) => {
            lemma_count_concat(col, " <= ?"@);
            reveal_strlit(" <= ?");
            lemma_literal_count_one(" <= ?");
        },
        CondV::Like(col, _) => {
            lemma_count_concat(col, " LIKE ?"@);
            reveal_strlit(" LIKE ?");
            lemma_literal_count_one(" LIKE ?");
        },
        CondV::NotLike(col, _) => {
            lemma_count_concat(col, " NOT LIKE ?"@);
            reveal_strlit(" NOT LIKE ?");
            lemma_literal_count_one(" NOT LIKE ?");
        },
        CondV::In(col, vs) => {
            let ph = crate::database::query_builder::placeholders(vs.len());
            lemma_count_placeholders(vs.len());
            lemma_count_concat(col, " IN ("@);
            lemma_count_concat(col + " IN ("@, ph);
            lemma_count_concat(col + " IN ("@ + ph, ")"@);
            reveal_strlit(" IN (");
            lemma_literal_count_zero(" IN (");
            reveal_strlit(")");
            lemma_literal_count_zero(")");
        },
        CondV::NotIn(col, vs) => {
            let ph = crate::database::query_builder::placeholders(vs.len());
            lemma_count_placeholders(vs.len());
            lemma_count_concat(col, " NOT IN ("@);
            lemma_count_concat(col + " NOT IN ("@, ph);
            lemma_count_concat(col + " NOT IN ("@ + ph, ")"@);
            reveal_strlit(" NOT IN (");
            lemma_literal_count_zero(" NOT IN (");
            reveal_strlit(")");
            lemma_literal_count_zero(")");
        },
        CondV::IsNull(col) => {
            lemma_count_concat(col, " IS NULL"@);
            reveal_strlit(" IS NULL");
            lemma_literal_count_zero(" IS NULL");
        },
        CondV::IsNotNull(col) => {
            lemma_count_concat(col, " IS NOT NULL"@);
            reveal_strlit(" IS NOT NULL");
            lemma_literal_count_zero(" IS NOT NULL");
        },
        CondV::Between(col, _, _) => {
            lemma_count_concat(col, " BETWEEN ? AND ?"@);
            reveal_strlit(" BETWEEN ? AND ?");
            lemma_count_two(" BETWEEN ? AND ?"@, 10);
        },
        CondV::NotBetween(col, _, _) => {
            lemma_count_concat(col, " NOT BETWEEN ? AND ?"@);
            reveal_strlit(" NOT BETWEEN ? AND ?");
            lemma_count_two(" NOT BETWEEN ? AND ?"@, 14);
        },
        CondV::Raw(_, _) => {},
    }
}

proof fn lemma_clauses_count(cs: Seq<WhereClause>)
    requires
        plain_clauses(cs),
    ensures
        placeholder_count(clauses_sql(cs).0) == clauses_sql(cs).1.len(),
    decreases cs, 1int,
{
    if cs.len() > 0 {
        assert(decreases_to!(cs => cs[cs.len() - 1]));
        assert(cs.drop_last() =~= cs.subrange(0, cs.len() - 1));
        let last = cs[cs.len() - 1];
        lemma_clause_count(last);
        if cs.len() > 1 {
            lemma_clauses_count(cs.drop_last());
            let (s0, p0) = clauses_sql(cs.drop_last());
            let (f, pf) = crate::database::query_builder::clause_sql(last);
            let kw = crate::database::query_builder::connector_keyword(last.connector);
            lemma_count_concat(s0, " "@);
            lemma_count_concat(s0 + " "@, kw);
            lemma_count_concat(s0 + " "@ + kw, " "@);
            lemma_count_concat(s0 + " "@ + kw + " "@, f);
            reveal_strlit(" ");
            lemma_literal_count_zero(" ");
            reveal_strlit("AND");
            lemma_literal_count_zero("AND");
            reveal_strlit("OR");
            lemma_literal_count_zero("OR");
        }
    }
}

proof fn lemma_clause_count(c: WhereClause)
    requires
        plain_clause(c),
    ensures
        placeholder_count(crate::database::query_builder::clause_sql(c).0)
            == crate::database::query_builder::clause_sql(c).1.len(),
    decreases c, 0int,
{
    match c.inner {
        crate::database::query_builder::WhereInner::Simple(cond) => {
            lemma_condition_count(cond@);
        },
        crate::database::query_builder::WhereInner::Group(inner) => {
            assert(decreases_to!(c => c.inner));
            lemma_clauses_count(inner@);
            let s = clauses_sql(inner@).0;
            lemma_count_concat("("@, s);
            lemma_count_concat("("@ + s, ")"@);
            reveal_strlit("(");
            lemma_literal_count_zero("(");
            reveal_strlit(")");
            lemma_literal_count_zero(")");
        },
    }
}

/// Values never go into the SQL text: the `WHERE` (or `HAVING`) part of a
/// query built from plain conditions has exactly one `?` for each value it
/// binds, in the order of the values.
pub proof fn law_one_placeholder_per_value(cs: Seq<WhereClause>, keyword: Seq<char>)
    requires
        plain_clauses(cs),
        placeholder_count(keyword) == 0,
    ensures
        placeholder_count(clauses_part(cs, keyword).0) == clauses_part(cs, keyword).1.len(),
{
    if cs.len() > 0 {
        lemma_clauses_count(cs);
        lemma_count_concat(keyword, clauses_sql(cs).0);
    }
}


/// The record that a `first_or_fail` query found, or `NotFound` with
/// `Record not found` when it found none.
pub fn record_or_not_found<T>(found: Option<T>) -> (r: core::result::Result<T, crate::error::FastError>)
    ensures
        match found {
            Some(x) => r matches Ok(y) && y == x,
            None => r matches Err(e) && e matches crate::error::FastError::NotFound(m)
                && m@ == "Record not found"@,
        },
{
    match found {
        Some(x) => Ok(x),
        None => Err(crate::error::FastError::NotFound("Record not found".to_string())),
    }
}

} // verus!
