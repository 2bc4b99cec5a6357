use rustfast::database::model::{Order, Param};
use rustfast::database::query_builder::{Connector, QueryBuilder, WhereGroupBuilder};

fn text(s: &str) -> Param {
    Param::Text(s.to_string())
}

fn describe(ps: &[Param]) -> Vec<String> {
    ps.iter()
        .map(|p| match p {
            Param::Null => "null".to_string(),
            Param::Bool(b) => format!("bool:{}", b),
            Param::Int(i) => format!("int:{}", i),
            Param::Float(f) => format!("float:{}", f64::from_bits(*f)),
            Param::Text(s) => format!("text:{}", s),
            Param::Bytes(b) => format!("bytes:{}", b.len()),
        })
        .collect()
}

#[test]
fn plain_select() {
    let (sql, ps) = QueryBuilder::new("users").build_select_sql();
    assert_eq!(sql, "SELECT * FROM users");
    assert!(ps.is_empty());
}

#[test]
fn where_conditions_and_params_in_order() {
    let q = QueryBuilder::new("users")
        .select(vec!["id".to_string(), "name".to_string()])
        .where_eq("active", Param::Int(1))
        .where_gt("age", Param::Int(18))
        .or_where_like("name", "A%")
        .where_in("role", vec![text("admin"), text("editor")])
        .where_null("deleted_at")
        .where_between("score", Param::Int(1), Param::Int(9));
    let (sql, ps) = q.build_select_sql();
    assert_eq!(
        sql,
        "SELECT id, name FROM users WHERE active = ? AND age > ? OR name LIKE ? AND role IN (?, ?) AND deleted_at IS NULL AND score BETWEEN ? AND ?"
    );
    assert_eq!(
        describe(&ps),
        vec!["int:1", "int:18", "text:A%", "text:admin", "text:editor", "int:1", "int:9"]
    );
}

#[test]
fn full_select_clauses() {
    let q = QueryBuilder::new("posts")
        .left_join("users", "users.id = posts.user_id")
        .inner_join("tags", "tags.post_id = posts.id")
        .where_ne("posts.status", text("draft"))
        .group_by("posts.user_id")
        .having_gt("COUNT(*)", Param::Int(2))
        .order_desc("posts.created_at")
        .order_asc("posts.id")
        .limit(10)
        .offset(20);
    let (sql, ps) = q.build_select_sql();
    assert_eq!(
        sql,
        "SELECT * FROM posts LEFT JOIN users ON users.id = posts.user_id INNER JOIN tags ON tags.post_id = posts.id WHERE posts.status != ? GROUP BY posts.user_id HAVING COUNT(*) > ? ORDER BY posts.created_at DESC, posts.id ASC LIMIT 10 OFFSET 20"
    );
    assert_eq!(describe(&ps), vec!["text:draft", "int:2"]);
}

#[test]
fn grouped_conditions() {
    let q = QueryBuilder::new("users")
        .where_eq("active", Param::Bool(true))
        .where_group(|g| g.where_eq("role", text("admin")).or_where_eq("role", text("owner")))
        .or_where_group(|g| g.where_not_null("vip"));
    let (sql, ps) = q.build_select_sql();
    assert_eq!(
        sql,
        "SELECT * FROM users WHERE active = ? AND (role = ? OR role = ?) OR (vip IS NOT NULL)"
    );
    assert_eq!(describe(&ps), vec!["bool:true", "text:admin", "text:owner"]);
}

#[test]
fn raw_and_negated_conditions() {
    let q = QueryBuilder::new("t")
        .where_raw("a + b > ?", vec![Param::Int(5)])
        .where_not_in("c", vec![Param::Int(1)])
        .where_not_like("d", "x%")
        .or_where_not_between("e", Param::Int(0), Param::Int(1))
        .where_lte("f", Param::Null);
    let (sql, ps) = q.build_select_sql();
    assert_eq!(
        sql,
        "SELECT * FROM t WHERE a + b > ? AND c NOT IN (?) AND d NOT LIKE ? OR e NOT BETWEEN ? AND ? AND f <= ?"
    );
    assert_eq!(describe(&ps), vec!["int:5", "int:1", "text:x%", "int:0", "int:1", "null"]);
}

#[test]
fn empty_in_list() {
    let (sql, ps) = QueryBuilder::new("t").where_in("id", vec![]).build_select_sql();
    assert_eq!(sql, "SELECT * FROM t WHERE id IN ()");
    assert!(ps.is_empty());
}

#[test]
fn count_and_aggregates() {
    let q = QueryBuilder::new("orders").right_join("users", "users.id = orders.uid").where_gte("total", Param::Int(100));
    assert_eq!(
        q.count_sql().0,
        "SELECT COUNT(*) as _count FROM orders RIGHT JOIN users ON users.id = orders.uid WHERE total >= ?"
    );
    assert_eq!(
        q.sum_sql("total").0,
        "SELECT COALESCE(SUM(total), 0) as _agg FROM orders RIGHT JOIN users ON users.id = orders.uid WHERE total >= ?"
    );
    assert_eq!(q.avg_sql("total").0, "SELECT AVG(total) as _agg FROM orders RIGHT JOIN users ON users.id = orders.uid WHERE total >= ?");
    assert_eq!(q.max_value_sql("total").0, "SELECT MAX(total) as _agg FROM orders RIGHT JOIN users ON users.id = orders.uid WHERE total >= ?");
    assert_eq!(q.min_value_sql("total").0, "SELECT MIN(total) as _agg FROM orders RIGHT JOIN users ON users.id = orders.uid WHERE total >= ?");
    assert_eq!(describe(&q.count_sql().1), vec!["int:100"]);
}

#[test]
fn insert_statements() {
    let q = QueryBuilder::new("users");
    let values = vec![("name".to_string(), text("Al")), ("age".to_string(), Param::Int(3))];
    let (sql, ps) = q.insert_sql(&values);
    assert_eq!(sql, "INSERT INTO users (name, age) VALUES (?, ?)");
    assert_eq!(describe(&ps), vec!["text:Al", "int:3"]);

    let rows = vec![values.iter().map(|(k, v)| (k.clone(), v.copy())).collect::<Vec<_>>(), vec![("name".to_string(), text("Bo")), ("age".to_string(), Param::Int(4))]];
    let (sql, ps) = q.insert_many_sql(&rows).expect("rows");
    assert_eq!(sql, "INSERT INTO users (name, age) VALUES (?, ?), (?, ?)");
    assert_eq!(describe(&ps), vec!["text:Al", "int:3", "text:Bo", "int:4"]);
    assert!(q.insert_many_sql(&vec![]).is_none());
}

#[test]
fn upsert_statements() {
    let q = QueryBuilder::new("kv");
    let values = vec![("k".to_string(), text("a")), ("v".to_string(), text("b"))];
    let (sql, ps) = q.upsert_sql(&values, &vec!["k".to_string()]);
    assert_eq!(sql, "INSERT INTO kv (k, v) VALUES (?, ?) ON CONFLICT (k) DO UPDATE SET v = excluded.v");
    assert_eq!(describe(&ps), vec!["text:a", "text:b"]);
    let (sql, _) = q.upsert_sql(&values, &vec!["k".to_string(), "v".to_string()]);
    assert_eq!(sql, "INSERT INTO kv (k, v) VALUES (?, ?) ON CONFLICT (k, v) DO NOTHING");
}

#[test]
fn update_increment_delete() {
    let q = QueryBuilder::new("users").where_eq("id", Param::Int(7));
    let values = vec![("name".to_string(), text("Zed")), ("age".to_string(), Param::Int(30))];
    let (sql, ps) = q.update_sql(&values).expect("values");
    assert_eq!(sql, "UPDATE users SET name = ?, age = ? WHERE id = ?");
    assert_eq!(describe(&ps), vec!["text:Zed", "int:30", "int:7"]);
    assert!(q.update_sql(&vec![]).is_none());

    let (sql, ps) = q.increment_sql("visits", 2);
    assert_eq!(sql, "UPDATE users SET visits = visits + ? WHERE id = ?");
    assert_eq!(describe(&ps), vec!["int:2", "int:7"]);
    let (sql, ps) = q.decrement_sql("visits", 3);
    assert_eq!(sql, "UPDATE users SET visits = visits - ? WHERE id = ?");
    assert_eq!(describe(&ps), vec!["int:3", "int:7"]);

    let (sql, ps) = q.delete_sql();
    assert_eq!(sql, "DELETE FROM users WHERE id = ?");
    assert_eq!(describe(&ps), vec!["int:7"]);
    assert_eq!(QueryBuilder::new("users").delete_sql().0, "DELETE FROM users");
}

#[test]
fn pagination_plan() {
    let q = QueryBuilder::new("items").where_eq("kind", text("x")).order_by("id", Order::Asc);
    let ((count_sql, count_ps), data) = q.paginate_plan(3, 25);
    assert_eq!(count_sql, "SELECT COUNT(*) as _count FROM items WHERE kind = ?");
    assert_eq!(describe(&count_ps), vec!["text:x"]);
    assert_eq!(data.limit, Some(25));
    assert_eq!(data.offset, Some(50));
    assert_eq!(
        data.build_select_sql().0,
        "SELECT * FROM items WHERE kind = ? ORDER BY id ASC LIMIT 25 OFFSET 50"
    );
}

#[test]
fn order_keywords() {
    assert_eq!(Order::Asc.as_str(), "ASC");
    assert_eq!(Order::Desc.as_str(), "DESC");
}

#[test]
fn group_builder_collects_clauses() {
    let g = WhereGroupBuilder::new().where_eq("a", Param::Int(1)).or_where_null("b");
    assert_eq!(g.clauses.len(), 2);
    assert_eq!(g.clauses[0].connector, Connector::And);
    assert_eq!(g.clauses[1].connector, Connector::Or);
}

#[test]
fn scopes_apply() {
    fn active(q: QueryBuilder) -> QueryBuilder {
        q.where_eq("status", Param::Text("active".to_string()))
    }
    let (sql, _) = QueryBuilder::new("users").scope(active).build_select_sql();
    assert_eq!(sql, "SELECT * FROM users WHERE status = ?");
}

#[test]
fn having_conditions() {
    let q = QueryBuilder::new("sales")
        .select(vec!["region".to_string(), "SUM(amount)".to_string()])
        .group_by("region")
        .group_by("year")
        .having_eq("COUNT(*)", Param::Int(3))
        .having_gte("SUM(amount)", Param::Int(10))
        .having_lt("MIN(amount)", Param::Int(0))
        .having_lte("MAX(amount)", Param::Int(99))
        .having_raw("AVG(amount) <> ?", vec![Param::Int(5)]);
    let (sql, ps) = q.build_select_sql();
    assert_eq!(
        sql,
        "SELECT region, SUM(amount) FROM sales GROUP BY region, year HAVING COUNT(*) = ? AND SUM(amount) >= ? AND MIN(amount) < ? AND MAX(amount) <= ? AND AVG(amount) <> ?"
    );
    assert_eq!(describe(&ps), vec!["int:3", "int:10", "int:0", "int:99", "int:5"]);
}

#[test]
fn where_params_come_before_having_params() {
    let q = QueryBuilder::new("t")
        .having_gt("n", Param::Int(2))
        .where_eq("a", Param::Int(1));
    let (sql, ps) = q.build_select_sql();
    assert_eq!(sql, "SELECT * FROM t WHERE a = ? HAVING n > ?");
    assert_eq!(describe(&ps), vec!["int:1", "int:2"]);
}

#[test]
fn one_placeholder_per_bound_value() {
    let q = QueryBuilder::new("t")
        .where_in("a", vec![Param::Int(1), Param::Int(2), Param::Int(3)])
        .or_where_group(|g| g.where_between("b", Param::Int(0), Param::Int(9)).where_null("c"))
        .where_not_in("d", vec![])
        .where_like("e", "%x%")
        .having_lte("f", Param::Int(4));
    let (sql, ps) = q.build_select_sql();
    assert_eq!(sql.matches('?').count(), ps.len());
    assert_eq!(ps.len(), 7);
}

#[test]
fn first_or_fail_decision() {
    assert_eq!(rustfast::database::statements::record_or_not_found(Some(3)).ok(), Some(3));
    match rustfast::database::statements::record_or_not_found::<i32>(None) {
        Err(rustfast::error::FastError::NotFound(m)) => assert_eq!(m, "Record not found"),
        _ => panic!("expected NotFound"),
    }
}
