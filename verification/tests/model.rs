use rum::model::{
    Association, AssociationType, Column, Columns, Error, Escape, Explain, FromRow, FromValue,
    IntoColumn, Join, Keys, Limit, Model, OrderBy, Placeholders, PoolSlot, Query, Row, Select,
    StatementBuilder, ToSql, ToValue, Value,
};

#[derive(Debug, Clone, Default)]
#[allow(dead_code)]
struct User {
    id: i64,
    email: String,
    password: String,
}

fn integer(row: &Row, name: &str) -> i64 {
    match row.get(name) {
        Some(Value::Integer(i)) => *i,
        _ => 0,
    }
}

fn text(row: &Row, name: &str) -> String {
    match row.get(name) {
        Some(Value::Text(s)) => s.clone(),
        _ => String::new(),
    }
}

impl Model for User {
    fn table_name() -> String {
        "users".into()
    }

    fn column_names() -> Vec<String> {
        vec!["email".to_string(), "password".to_string()]
    }

    fn values(&self) -> Vec<Value> {
        vec![self.email.to_value(), self.password.to_value()]
    }
}

#[derive(Debug, Clone, Default)]
#[allow(dead_code)]
struct Order {
    id: i64,
    user_id: i64,
    amount: f64,
}

impl Model for Order {
    fn table_name() -> String {
        "orders".into()
    }

    fn column_names() -> Vec<String> {
        vec!["user_id".to_string(), "amount".to_string()]
    }

    fn values(&self) -> Vec<Value> {
        vec![self.user_id.to_value(), Value::Float(self.amount.to_bits())]
    }
}

impl Association<User> for Order {}

impl Association<Order> for User {
    fn association_type() -> AssociationType {
        AssociationType::HasMany
    }
}

impl FromRow for User {
    fn from_row(row: &Row) -> Self {
        let id: i64 = integer(row, "id");
        let email: String = text(row, "email");
        let password: String = text(row, "password");

        User {
            id,
            email,
            password,
        }
    }
}

impl FromRow for Order {
    fn from_row(row: &Row) -> Self {
        let id: i64 = integer(row, "id");
        let user_id: i64 = integer(row, "user_id");
        let amount: f64 = match row.get("amount") {
            Some(Value::Float(bits)) => f64::from_bits(*bits),
            _ => 0.0,
        };

        Order {
            id,
            user_id,
            amount,
        }
    }
}

fn values_of<T: FromRow>(query: &Query<T>) -> Vec<Value> {
    query.prepare().values
}

#[test]
fn test_join() {
    let query = User::all().join::<Order>().first_one();
    assert_eq!(
        query.to_sql(),
        r#"SELECT "users".* FROM "users" INNER JOIN "orders" ON "users"."id" = "orders"."user_id" ORDER BY "users"."id" ASC LIMIT 1"#
    );

    let query = Order::all().join::<User>();
    assert_eq!(
        query.to_sql(),
        r#"SELECT "orders".* FROM "orders" INNER JOIN "users" ON "orders"."user_id" = "users"."id""#
    );
}

#[test]
fn test_take_one() {
    let query = User::take_one().to_sql();

    assert_eq!(query, r#"SELECT * FROM "users" LIMIT 1"#);
}

#[test]
fn test_take_many() {
    let query = User::take_many(25).to_sql();

    assert_eq!(query, r#"SELECT * FROM "users" LIMIT 25"#);
}

#[test]
fn test_first_one() {
    let query = User::first_one().to_sql();

    assert_eq!(
        query,
        r#"SELECT * FROM "users" ORDER BY "users"."id" ASC LIMIT 1"#
    );
}

#[test]
fn test_first_many() {
    let query = User::first_many(25).to_sql();

    assert_eq!(
        query,
        r#"SELECT * FROM "users" ORDER BY "users"."id" ASC LIMIT 25"#
    );
}

#[test]
fn test_all() {
    let query = User::all().to_sql();

    assert_eq!(query, r#"SELECT * FROM "users""#);
}

#[test]
fn test_filter() {
    let query = User::all()
        .filter(&vec![
            ("email", "test@test.com"),
            ("password", "not_encrypted"),
        ])
        .filter(&[("id", 5)])
        .filter(&[("id", [1_i64, 2, 3].as_slice())]);

    assert_eq!(
        query.to_sql(),
        r#"SELECT * FROM "users" WHERE "users"."email" = $1 AND "users"."password" = $2 AND "users"."id" = $3 AND "users"."id" = ANY($4)"#
    );
}

#[test]
fn test_find_by() {
    let query = User::find_by("email", "test@test.com");
    assert_eq!(
        query.to_sql(),
        r#"SELECT * FROM "users" WHERE "users"."email" = $1 LIMIT 1"#
    );
}

#[test]
fn test_random_query() {
    let query = Row::find_by_sql("SELECT 1");
    assert_eq!(query.to_sql(), "SELECT 1");

    let query = Query::<Row>::select("users");
    assert_eq!(query.to_sql(), "SELECT * FROM \"users\"");
}

#[test]
fn filter_binds_its_values_in_the_order_of_the_markers() {
    let query = User::filter(&[("email", Value::Text("a@b.com".into())), ("id", Value::Integer(5))]);
    assert_eq!(
        query.to_sql(),
        r#"SELECT * FROM "users" WHERE "users"."email" = $1 AND "users"."id" = $2"#
    );
    assert_eq!(
        values_of(&query),
        vec![Value::Text("a@b.com".into()), Value::Integer(5)]
    );
}

#[test]
fn markers_go_past_nine() {
    let filters: Vec<(&str, i64)> = (0..12).map(|i| ("id", i)).collect();
    let query = User::all().filter(&filters);
    let sql = query.to_sql();
    assert!(sql.ends_with(r#" AND "users"."id" = $10 AND "users"."id" = $11 AND "users"."id" = $12"#));
    let values = values_of(&query);
    assert_eq!(values.len(), 12);
    assert_eq!(values[9], Value::Integer(9));
    assert_eq!(values[11], Value::Integer(11));
}

#[test]
fn find_by_after_filter_discards_the_predicates_before_it() {
    let query = User::all()
        .filter(&[("id", 1_i64)])
        .find_by("email", Value::Text("a@b.com".into()))
        .filter(&[("password", "secret")]);
    assert_eq!(
        query.to_sql(),
        r#"SELECT * FROM "users" WHERE "users"."email" = $1 AND "users"."password" = $2"#
    );
    assert_eq!(
        values_of(&query),
        vec![Value::Text("a@b.com".into()), Value::Text("secret".into())]
    );
}

#[test]
fn not_and_or_not_negate_their_predicates() {
    let query = User::all()
        .not(&[("email", "a@b.com")])
        .or_not(&[("email", "c@d.com")])
        .not(&[("id", [1_i64, 2].as_slice())]);
    assert_eq!(
        query.to_sql(),
        r#"SELECT * FROM "users" WHERE "users"."email" <> $1 OR "users"."email" <> $2 AND "users"."id" <> ALL($3)"#
    );
    assert_eq!(
        values_of(&query),
        vec![
            Value::Text("a@b.com".into()),
            Value::Text("c@d.com".into()),
            Value::List(vec![Value::Integer(1), Value::Integer(2)]),
        ]
    );
}

#[test]
fn first_one_keeps_an_explicit_order() {
    let query = User::order(("email", "DESC")).first_one();
    assert_eq!(
        query.to_sql(),
        r#"SELECT * FROM "users" ORDER BY "email" DESC LIMIT 1"#
    );
    let query = User::order(("email", "ASC")).order("id").first_many(3);
    assert_eq!(
        query.to_sql(),
        r#"SELECT * FROM "users" ORDER BY "email" ASC, "id" ASC LIMIT 3"#
    );
}

#[test]
fn take_never_orders() {
    assert!(!User::take_one().to_sql().contains("ORDER BY"));
    assert!(!User::take_many(7).to_sql().contains("ORDER BY"));
    assert!(!User::all().limit(7).to_sql().contains("ORDER BY"));
}

#[test]
fn parts_come_in_a_fixed_order_whatever_the_order_of_the_calls() {
    let query = User::all()
        .offset(20)
        .limit(10)
        .order("email")
        .filter(&[("id", 1_i64)])
        .join::<Order>();
    assert_eq!(
        query.to_sql(),
        r#"SELECT "users".* FROM "users" INNER JOIN "orders" ON "users"."id" = "orders"."user_id" WHERE "users"."id" = $1 ORDER BY "email" ASC LIMIT 10 OFFSET 20"#
    );
}

#[test]
fn modifiers_leave_a_raw_query_as_it_is() {
    let query = User::find_by_sql("SELECT 1")
        .filter(&[("id", 1_i64)])
        .not(&[("id", 1_i64)])
        .or_not(&[("id", 1_i64)])
        .find_by("id", Value::Integer(1))
        .order("id")
        .limit(1)
        .offset(2)
        .take_one()
        .take_many(3)
        .first_one()
        .first_many(4)
        .join::<Order>();
    assert_eq!(query.to_sql(), "SELECT 1");
    assert!(values_of(&query).is_empty());
}

#[test]
fn identifiers_are_escaped() {
    let query = Query::<Row>::select("us\"ers").filter(&[("na\"me", 1_i64)]);
    assert_eq!(
        query.to_sql(),
        r#"SELECT * FROM "us""ers" WHERE "us""ers"."na""me" = $1"#
    );
}

#[test]
fn columns_render() {
    assert_eq!(Column::new("users", "id").to_sql(), r#""users"."id""#);
    assert_eq!(Column::name("id").to_sql(), r#""id""#);
    assert!(Column::new("users", "id").qualified());
    assert!(!Column::name("id").qualified());
    assert_eq!(Column::name("id").qualify("orders").to_sql(), r#""orders"."id""#);
    assert_eq!("email".to_string().into_column().to_sql(), r#""email""#);

    assert_eq!(Columns::default().to_sql(), "*");
    assert_eq!(Columns::default().table_name("users").to_sql(), r#""users".*"#);
    let listed = Columns::default()
        .with_column(Column::new("users", "id"))
        .with_column(Column::name("email"));
    assert_eq!(listed.to_sql(), r#""users"."id", "email""#);
    assert_eq!(listed.clone().table_name("users").to_sql(), r#""users"."id", "email""#);
}

#[test]
fn limit_and_order_render() {
    assert_eq!(Limit::none().to_sql(), "");
    assert_eq!(Limit::new(5).to_sql(), " LIMIT 5");
    assert_eq!(Limit::new(5).offset(0).to_sql(), " LIMIT 5 OFFSET 0");
    assert_eq!(Limit::none().offset(15).to_sql(), " OFFSET 15");
    assert_eq!(
        Limit::new(usize::MAX).to_sql(),
        format!(" LIMIT {}", usize::MAX)
    );
    assert_eq!(OrderBy::default().to_sql(), "");
    assert_eq!(
        OrderBy::asc(Column::name("a")).append(OrderBy::desc(Column::name("b"))).to_sql(),
        r#" ORDER BY "a" ASC, "b" DESC"#
    );
}

#[test]
fn joins_are_directionally_consistent() {
    let users = Keys {
        table_name: "users".into(),
        primary_key: "id".into(),
        foreign_key: "user_id".into(),
    };
    let orders = Keys {
        table_name: "orders".into(),
        primary_key: "id".into(),
        foreign_key: "order_id".into(),
    };
    let there = Join::between(AssociationType::BelongsTo, &users, &orders).to_sql();
    let back = Join::between(AssociationType::HasMany, &orders, &users).to_sql();
    assert_eq!(
        there,
        r#" INNER JOIN "orders" ON "users"."id" = "orders"."user_id""#
    );
    assert_eq!(
        back,
        r#" INNER JOIN "users" ON "orders"."user_id" = "users"."id""#
    );
}

#[test]
fn placeholders_number_from_one() {
    let mut placeholders = Placeholders::new();
    assert!(placeholders.is_empty());
    assert_eq!(placeholders.add(&Value::Integer(7)), 1);
    assert_eq!(placeholders.add(&Value::Null), 2);
    assert_eq!(placeholders.len(), 2);
    assert_eq!(placeholders.get(1), Some(&Value::Integer(7)));
    assert_eq!(placeholders.get(2), Some(&Value::Null));
    assert_eq!(placeholders.get(0), None);
    assert_eq!(placeholders.get(3), None);
    assert_eq!(placeholders.values(), vec![Value::Integer(7), Value::Null]);
}

#[test]
fn values_convert() {
    assert_eq!(5_i64.to_value(), Value::Integer(5));
    assert_eq!(5_i32.to_value(), Value::Integer(5));
    assert_eq!(true.to_value(), Value::Boolean(true));
    assert_eq!("a".to_value(), Value::Text("a".into()));
    assert_eq!(Some(3_i64).to_value(), Value::Integer(3));
    assert_eq!(None::<i64>.to_value(), Value::Null);
    let list = [1_i64, 2].as_slice().to_value();
    assert_eq!(list, Value::List(vec![Value::Integer(1), Value::Integer(2)]));
    assert!(list.is_list());
    assert!(list.is_well_formed());
    assert!(!Value::List(vec![list.clone()]).is_well_formed());
    assert!(Value::Float(1.5_f64.to_bits()).is_well_formed());
}

fn user_row(id: i64, email: &str) -> Row {
    Row::new(vec![
        ("id".to_string(), Value::Integer(id)),
        ("email".to_string(), Value::Text(email.to_string())),
        ("password".to_string(), Value::Text("not_encrypted".to_string())),
    ])
}

#[test]
fn fetch_takes_the_first_row() {
    let rows = vec![user_row(1, "test@test.com"), user_row(2, "other@test.com")];
    let user = User::order(("email", "ASC")).first_one().fetch(Ok(rows)).unwrap();
    assert_eq!(user.id, 1);
    assert_eq!(user.email, "test@test.com");

    let rows = vec![user_row(1, "test@test.com"), user_row(2, "other@test.com")];
    let users = User::all().fetch_all(Ok(rows)).unwrap();
    assert_eq!(users.len(), 2);
    assert_eq!(users[1].email, "other@test.com");
}

#[test]
fn fetch_without_a_row_is_record_not_found() {
    let result = User::first_one().fetch(Ok(vec![]));
    assert_eq!(result.err(), Some(Error::RecordNotFound));
    let result = User::all().fetch_all(Ok(vec![]));
    assert_eq!(result.unwrap().len(), 0);
}

#[test]
fn an_engine_error_carries_the_sql() {
    let result = User::take_one().fetch(Err("relation \"users\" does not exist".to_string()));
    assert_eq!(
        result.err(),
        Some(Error::QueryError(
            r#"SELECT * FROM "users" LIMIT 1"#.to_string(),
            "relation \"users\" does not exist".to_string()
        ))
    );
    let result = User::find_by_sql("SELEC 1").execute(Err("syntax error".to_string()));
    assert_eq!(
        result.err(),
        Some(Error::QueryError("SELEC 1".to_string(), "syntax error".to_string()))
    );
}

#[test]
fn explain_wraps_the_query_and_reads_the_plan() {
    let query = User::take_many(25);
    let statement = query.explain_statement();
    assert_eq!(
        statement.sql,
        r#"EXPLAIN SELECT * FROM "users" LIMIT 25"#
    );
    assert!(statement.values.is_empty());

    let query = User::filter(&[("email", "a@b.com")]).filter(&[("id", [1_i64, 2].as_slice())]);
    let statement = query.explain_statement();
    assert_eq!(
        statement.sql,
        r#"EXPLAIN SELECT * FROM "users" WHERE "users"."email" = $1 AND "users"."id" = ANY($2)"#
    );
    assert_eq!(
        statement.values,
        vec![
            Value::Text("a@b.com".into()),
            Value::List(vec![Value::Integer(1), Value::Integer(2)]),
        ]
    );
    assert_eq!(statement.values, values_of(&query));

    let rows = vec![Row::new(vec![(
        "QUERY PLAN".to_string(),
        Value::Text("Seq Scan on users  (cost=0.00..22.70 rows=1270 width=8)".to_string()),
    )])];
    let explain: Explain = User::all().explain(Ok(rows)).unwrap();
    assert!(explain.to_string().starts_with("Seq Scan on users"));

    assert_eq!(User::all().explain(Ok(vec![])).err(), Some(Error::RecordNotFound));
    assert_eq!(
        User::all().explain(Err("no".to_string())).err(),
        Some(Error::QueryError(
            r#"EXPLAIN SELECT * FROM "users""#.to_string(),
            "no".to_string()
        ))
    );
}

#[test]
fn rows_are_read_by_name() {
    let row = Row::new(vec![
        ("a".to_string(), Value::Integer(1)),
        ("b".to_string(), Value::Null),
        ("a".to_string(), Value::Integer(3)),
    ]);
    assert_eq!(row.len(), 3);
    assert_eq!(row.get("a"), Some(&Value::Integer(1)));
    assert_eq!(row.get("b"), Some(&Value::Null));
    assert_eq!(row.get("c"), None);
    assert_eq!(row.at(2), Some(&Value::Integer(3)));
    assert_eq!(row.at(3), None);
}

#[test]
fn the_pool_is_configured_once() {
    let mut slot: PoolSlot<&str> = PoolSlot::new();
    assert!(!slot.is_configured());
    assert_eq!(slot.get().err(), Some(Error::PoolNotConfigured));
    assert_eq!(slot.configure("first"), Ok(()));
    assert_eq!(
        slot.configure("second"),
        Err(Error::Unknown("pool already configured".to_string()))
    );
    assert_eq!(slot.get(), Ok(&"first"));
    assert!(slot.is_configured());
}

#[test]
fn keys_of_a_model() {
    let keys = User::keys();
    assert_eq!(keys.table_name, "users");
    assert_eq!(keys.primary_key, "id");
    assert_eq!(keys.foreign_key, "user_id");
    assert_eq!(Order::foreign_key(), "order_id");
    assert_eq!(User::column("email").to_sql(), r#""users"."email""#);
    assert_eq!(User::column_names().len(), User::default().values().len());
}

#[test]
fn association_types_are_named_in_declarations() {
    assert_eq!(
        AssociationType::parse("belongs_to"),
        Some(AssociationType::BelongsTo)
    );
    assert_eq!(
        AssociationType::parse("has_many"),
        Some(AssociationType::HasMany)
    );
    assert_eq!(AssociationType::parse("has_one"), None);
    assert_eq!(AssociationType::parse(""), None);
    assert_eq!(
        AssociationType::BelongsTo.reversed(),
        AssociationType::HasMany
    );
    assert_eq!(
        AssociationType::HasMany.reversed(),
        AssociationType::BelongsTo
    );
}

#[test]
fn only_a_select_is_changed_by_the_calls_that_change_a_query() {
    assert!(User::all().is_select());
    assert!(!User::find_by_sql("SELECT 1").is_select());
    assert!(!Query::<User>::Update.is_select());
}

struct SelectUser {
    email: String,
}

impl ToSql for SelectUser {
    fn to_sql(&self) -> String {
        format!(
            "SELECT * FROM users WHERE \"{}\" IS NOT NULL",
            self.email.escape()
        )
    }
}

#[test]
fn anything_can_render_as_sql() {
    let select = SelectUser {
        email: "e\"mail".to_string(),
    };
    assert_eq!(
        select.to_sql(),
        "SELECT * FROM users WHERE \"e\"\"mail\" IS NOT NULL"
    );
}

#[test]
fn values_are_read_back() {
    assert_eq!(i64::from_value(&Value::Integer(3)), Some(3));
    assert_eq!(i64::from_value(&Value::Null), None);
    assert_eq!(String::from_value(&Value::Text("a".into())), Some("a".to_string()));
    assert_eq!(String::from_value(&Value::Integer(1)), None);
    assert_eq!(bool::from_value(&Value::Boolean(true)), Some(true));
    assert_eq!(Option::<i64>::from_value(&Value::Null), Some(None));
    assert_eq!(Option::<i64>::from_value(&Value::Integer(2)), Some(Some(2)));
    assert_eq!(Option::<i64>::from_value(&Value::Boolean(true)), None);
}

#[test]
fn a_statement_is_built_piece_by_piece() {
    let mut builder = StatementBuilder::new();
    assert!(builder.word("DELETE FROM "));
    builder.identifier("us\"ers");
    assert!(builder.word(" WHERE "));
    builder.identifier("id");
    assert!(builder.word(" = "));
    builder.bind(Value::Integer(7));
    assert!(builder.word(" OR "));
    builder.identifier("email");
    assert!(builder.word(" = "));
    builder.bind(Value::Text("a@b.com".into()));
    let statement = builder.finish();
    assert_eq!(
        statement.sql,
        r#"DELETE FROM "us""ers" WHERE "id" = $1 OR "email" = $2"#
    );
    assert_eq!(
        statement.values,
        vec![Value::Integer(7), Value::Text("a@b.com".into())]
    );
}

#[test]
fn a_statement_takes_no_words_that_could_hold_a_marker() {
    let mut builder = StatementBuilder::new();
    assert!(!builder.word("a $1"));
    assert!(!builder.word("a \"b"));
    assert!(!builder.word("1 = 1"));
    assert!(builder.word(""));
    assert!(builder.word("SELECT 1"));
    let statement = builder.finish();
    assert_eq!(statement.sql, "SELECT 1");
    assert!(statement.values.is_empty());
}

#[test]
fn a_select_is_built_by_chained_calls() {
    let select = Select::<Row>::new("users", "uuid");
    assert_eq!(select.table_name(), "users");
    assert_eq!(select.primary_key(), "uuid");
    assert!(!select.is_ordered());
    assert_eq!(select.to_sql(), r#"SELECT * FROM "users""#);

    let select = select
        .filter_and(&[("a", 1_i64)])
        .filter_not(&[("b", 2_i64)])
        .filter_or_not(&[("c", 3_i64)])
        .order_by_default()
        .limit(5)
        .offset(10);
    assert!(select.is_ordered());
    let (sql, placeholders) = select.compile();
    assert_eq!(
        sql,
        r#"SELECT * FROM "users" WHERE "users"."a" = $1 AND "users"."b" <> $2 OR "users"."c" <> $3 ORDER BY "users"."uuid" ASC LIMIT 5 OFFSET 10"#
    );
    assert_eq!(
        placeholders.values(),
        vec![Value::Integer(1), Value::Integer(2), Value::Integer(3)]
    );
    assert_eq!(select.placeholders().len(), 3);

    let select = select
        .order_by(OrderBy::desc(Column::name("a")))
        .order(OrderBy::asc(Column::name("b")))
        .clear_filters();
    assert_eq!(
        select.to_sql(),
        r#"SELECT * FROM "users" ORDER BY "a" DESC, "b" ASC LIMIT 5 OFFSET 10"#
    );
    assert!(select.placeholders().is_empty());
}

#[test]
fn a_given_join_is_added_as_it_is() {
    let join = Join::new(
        "comments",
        Column::new("users", "id"),
        Column::new("comments", "author"),
    );
    let query = User::all().join_with(join);
    assert_eq!(
        query.to_sql(),
        r#"SELECT "users".* FROM "users" INNER JOIN "comments" ON "users"."id" = "comments"."author""#
    );
    let query = User::find_by_sql("SELECT 1").join_with(Join::new(
        "comments",
        Column::name("a"),
        Column::name("b"),
    ));
    assert_eq!(query.to_sql(), "SELECT 1");
}

#[test]
fn an_empty_table_name_leaves_the_primary_key_bare() {
    let query = Query::<Row>::select("").first_one();
    assert_eq!(
        query.to_sql(),
        r#"SELECT * FROM "" ORDER BY "id" ASC LIMIT 1"#
    );
}

#[test]
fn a_model_configures_the_pool_once() {
    let mut slot: PoolSlot<u8> = PoolSlot::new();
    assert_eq!(User::configure_pool(&mut slot, 1), Ok(()));
    assert_eq!(
        Order::configure_pool(&mut slot, 2),
        Err(Error::Unknown("pool already configured".to_string()))
    );
    assert_eq!(slot.get(), Ok(&1));
}

#[derive(Debug, Clone, Default)]
#[allow(dead_code)]
struct Account {
    uuid: String,
    user_uuid: String,
}

impl Model for Account {
    fn table_name() -> String {
        "accounts".into()
    }

    fn primary_key() -> String {
        "uuid".into()
    }

    fn foreign_key() -> String {
        "account".into()
    }

    fn id(&self) -> Value {
        self.uuid.to_value()
    }

    fn column_names() -> Vec<String> {
        vec!["user_uuid".to_string()]
    }

    fn values(&self) -> Vec<Value> {
        vec![self.user_uuid.to_value()]
    }
}

impl FromRow for Account {
    fn from_row(row: &Row) -> Self {
        Account {
            uuid: text(row, "uuid"),
            user_uuid: text(row, "user_uuid"),
        }
    }
}

#[derive(Debug, Clone, Default)]
#[allow(dead_code)]
struct Payment {
    id: i64,
    account: String,
}

impl Model for Payment {
    fn table_name() -> String {
        "payments".into()
    }

    fn column_names() -> Vec<String> {
        vec!["account".to_string()]
    }

    fn values(&self) -> Vec<Value> {
        vec![self.account.to_value()]
    }
}

impl FromRow for Payment {
    fn from_row(row: &Row) -> Self {
        Payment {
            id: integer(row, "id"),
            account: text(row, "account"),
        }
    }
}

impl Association<Account> for Payment {}

impl Association<Payment> for Account {
    fn association_type() -> AssociationType {
        AssociationType::HasMany
    }
}

#[test]
fn the_first_records_of_a_model_are_the_first_by_its_own_primary_key() {
    assert_eq!(
        Account::first_one().to_sql(),
        r#"SELECT * FROM "accounts" ORDER BY "accounts"."uuid" ASC LIMIT 1"#
    );
    assert_eq!(
        Account::first_many(7).to_sql(),
        r#"SELECT * FROM "accounts" ORDER BY "accounts"."uuid" ASC LIMIT 7"#
    );
    assert_eq!(
        Account::all().first_many(7).to_sql(),
        r#"SELECT * FROM "accounts" ORDER BY "accounts"."uuid" ASC LIMIT 7"#
    );
    assert_eq!(
        Account::filter(&[("user_uuid", "a")]).first_one().to_sql(),
        r#"SELECT * FROM "accounts" WHERE "accounts"."user_uuid" = $1 ORDER BY "accounts"."uuid" ASC LIMIT 1"#
    );
    assert_eq!(
        Account::find_by("user_uuid", "a").first_one().to_sql(),
        r#"SELECT * FROM "accounts" WHERE "accounts"."user_uuid" = $1 ORDER BY "accounts"."uuid" ASC LIMIT 1"#
    );
    assert_eq!(
        Account::take_one().first_one().to_sql(),
        r#"SELECT * FROM "accounts" ORDER BY "accounts"."uuid" ASC LIMIT 1"#
    );
    assert_eq!(
        Account::take_many(3).first_many(2).to_sql(),
        r#"SELECT * FROM "accounts" ORDER BY "accounts"."uuid" ASC LIMIT 2"#
    );
    assert_eq!(
        Account::order("user_uuid").first_one().to_sql(),
        r#"SELECT * FROM "accounts" ORDER BY "user_uuid" ASC LIMIT 1"#
    );
    // A statement that is started without a model has the key `id`.
    assert_eq!(
        Query::<Account>::select("accounts").first_one().to_sql(),
        r#"SELECT * FROM "accounts" ORDER BY "accounts"."id" ASC LIMIT 1"#
    );
    assert_eq!(
        Query::<Account>::select_with_key("accounts", "uuid")
            .first_one()
            .to_sql(),
        r#"SELECT * FROM "accounts" ORDER BY "accounts"."uuid" ASC LIMIT 1"#
    );
}

#[test]
fn joins_go_by_the_keys_that_the_models_name() {
    let keys = Account::keys();
    assert_eq!(keys.table_name, "accounts");
    assert_eq!(keys.primary_key, "uuid");
    assert_eq!(keys.foreign_key, "account");
    assert_eq!(Account::default().id(), Value::Text(String::new()));

    assert_eq!(
        Account::all().join::<Payment>().to_sql(),
        r#"SELECT "accounts".* FROM "accounts" INNER JOIN "payments" ON "accounts"."uuid" = "payments"."account""#
    );
    assert_eq!(
        Payment::all().join::<Account>().to_sql(),
        r#"SELECT "payments".* FROM "payments" INNER JOIN "accounts" ON "payments"."account" = "accounts"."uuid""#
    );
}
