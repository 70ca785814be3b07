use rum::model::migrations::{
    parse_file_name, Direction, Migration, MigrationFile, Migrations, TrackingTable,
};
use rum::model::{Error, FromRow, Model, Row, Value};

fn names(list: &[&str]) -> Vec<String> {
    list.iter().map(|s| s.to_string()).collect()
}

#[test]
fn file_names_are_read() {
    assert_eq!(
        parse_file_name("1_init.up.sql"),
        Ok(MigrationFile {
            version: 1,
            name: "init".to_string(),
            direction: Direction::Up
        })
    );
    assert_eq!(
        parse_file_name("20_add_index.to.users.down.sql"),
        Ok(MigrationFile {
            version: 20,
            name: "add_index.to.users".to_string(),
            direction: Direction::Down
        })
    );
    assert_eq!(
        parse_file_name("-3_x.up.down.sql"),
        Ok(MigrationFile {
            version: -3,
            name: "x.up".to_string(),
            direction: Direction::Down
        })
    );
}

#[test]
fn other_file_names_are_malformed() {
    for name in [
        "",
        "README.md",
        "1_init.sql",
        "1_init.up.sq",
        "init.up.sql",
        "_init.up.sql",
        "x1_init.up.sql",
        "1_.up.sql",
        "1.up.sql",
        "99999999999999999999_big.up.sql",
        "1_init.UP.sql",
    ] {
        assert_eq!(
            parse_file_name(name),
            Err(Error::MalformedMigration(name.to_string()))
        );
    }
}

#[test]
fn a_migration_names_its_files() {
    let migration = Migration::new(7, "add_users");
    assert_eq!(migration.path(Direction::Up), "7_add_users.up.sql");
    assert_eq!(migration.path(Direction::Down), "7_add_users.down.sql");
    assert_eq!(Migration::new(-12, "x").path(Direction::Up), "-12_x.up.sql");
    assert_eq!(
        Migration::new(i64::MIN, "x").path(Direction::Up),
        "-9223372036854775808_x.up.sql"
    );
    assert_eq!(
        parse_file_name(&migration.path(Direction::Down)),
        Ok(MigrationFile {
            version: 7,
            name: "add_users".to_string(),
            direction: Direction::Down
        })
    );
}

#[test]
fn migrations_are_found_by_ascending_version() {
    let found = Migrations::discover(&names(&[
        "3_orders.up.sql",
        "1_init.down.sql",
        "2_add_index.up.sql",
        "1_init.up.sql",
        "3_orders.down.sql",
    ]))
    .unwrap();
    assert_eq!(found.len(), 3);
    assert_eq!(found.get(0), Some(&Migration::new(1, "init")));
    assert_eq!(found.get(1), Some(&Migration::new(2, "add_index")));
    assert_eq!(found.get(2), Some(&Migration::new(3, "orders")));
    assert_eq!(found.get(3), None);
    assert_eq!(Migrations::discover(&names(&[])).unwrap().len(), 0);
}

#[test]
fn the_first_malformed_file_is_reported() {
    let result = Migrations::discover(&names(&[
        "1_init.up.sql",
        "notes.txt",
        "1_other.up.sql",
        "again.txt",
    ]));
    assert_eq!(
        result.err(),
        Some(Error::MalformedMigration("notes.txt".to_string()))
    );
}

#[test]
fn a_duplicate_version_is_reported() {
    let result = Migrations::discover(&names(&[
        "1_init.up.sql",
        "2_users.up.sql",
        "4_late.up.sql",
        "2_orders.up.sql",
        "1_again.up.sql",
    ]));
    assert_eq!(result.err(), Some(Error::DuplicateMigration(2)));
}

#[test]
fn the_lowest_missing_version_is_reported() {
    let result = Migrations::discover(&names(&[
        "7_g.up.sql",
        "1_a.up.sql",
        "2_b.up.sql",
        "4_d.up.sql",
    ]));
    assert_eq!(result.err(), Some(Error::MissingMigration(3)));
    let result = Migrations::discover(&names(&["5_e.up.sql", "6_f.up.sql"]));
    assert!(result.is_ok());
}

#[test]
fn migrations_apply_in_order_and_once() {
    let found =
        Migrations::discover(&names(&["1_init.up.sql", "2_add_index.up.sql"])).unwrap();
    let mut table = TrackingTable::new();

    let plan = found.pending(&table);
    assert_eq!(
        plan.iter().map(|m| m.version).collect::<Vec<_>>(),
        vec![1, 2]
    );
    let mut clock: i128 = 1_700_000_000_000_000_000;
    for migration in &plan {
        clock += 1_000;
        assert!(table.apply(migration.version, &migration.name, clock));
    }

    assert_eq!(table.len(), 2);
    let first = table.get(0).unwrap();
    let second = table.get(1).unwrap();
    assert_eq!((first.version, first.name.as_str()), (1, "init"));
    assert_eq!((second.version, second.name.as_str()), (2, "add_index"));
    assert!(first.applied_at.unwrap() < second.applied_at.unwrap());
    assert!(found.pending(&table).is_empty());

    // Applying again changes nothing.
    let before = first.applied_at;
    assert!(!table.apply(1, "init", clock + 5_000));
    assert_eq!(table.len(), 2);
    assert_eq!(table.get(0).unwrap().applied_at, before);
    assert!(table.is_applied(1));
    assert!(table.is_applied(2));
    assert!(!table.is_applied(3));
}

#[test]
fn migrations_roll_back_in_reverse() {
    let found = Migrations::discover(&names(&[
        "1_a.up.sql",
        "2_b.up.sql",
        "3_c.up.sql",
    ]))
    .unwrap();
    let mut table = TrackingTable::new();
    table.apply(1, "a", 10);
    table.apply(3, "c", 30);

    let back = found.to_roll_back(&table);
    assert_eq!(
        back.iter().map(|m| m.version).collect::<Vec<_>>(),
        vec![3, 1]
    );
    assert_eq!(
        found
            .pending(&table)
            .iter()
            .map(|m| m.version)
            .collect::<Vec<_>>(),
        vec![2]
    );

    assert!(table.roll_back(3));
    assert!(!table.roll_back(3));
    assert!(!table.roll_back(2));
    assert!(!table.is_applied(3));
    assert_eq!(table.len(), 2);
    assert_eq!(table.get(1).unwrap().applied_at, None);

    // The row stays and gets its time back when the migration is applied again.
    assert!(table.apply(3, "c", 40));
    assert_eq!(table.len(), 2);
    assert_eq!(table.get(1).unwrap().applied_at, Some(40));
}

#[test]
fn a_tracking_table_has_one_row_for_each_version() {
    let rows = vec![
        Migration::new(1, "a").with_applied_at(Some(5)),
        Migration::new(2, "b"),
    ];
    let table = TrackingTable::from_rows(rows).unwrap();
    assert!(table.is_applied(1));
    assert!(!table.is_applied(2));

    let rows = vec![
        Migration::new(1, "a"),
        Migration::new(2, "b"),
        Migration::new(1, "c"),
    ];
    assert_eq!(
        TrackingTable::from_rows(rows).err(),
        Some(Error::DuplicateMigration(1))
    );
}

#[test]
fn a_migration_is_a_model() {
    assert_eq!(Migration::table_name(), "rum_migrations");
    assert_eq!(Migration::primary_key(), "id");
    assert_eq!(Migration::foreign_key(), "rum_migration_id");
    assert_eq!(
        Migration::column_names(),
        vec!["version", "name", "applied_at"]
    );
    let migration = Migration::new(3, "c").with_applied_at(Some(9));
    assert_eq!(
        migration.values(),
        vec![
            Value::Integer(3),
            Value::Text("c".to_string()),
            Value::Timestamp(9)
        ]
    );
    assert_eq!(migration.id(), Value::Null);
    assert_eq!(
        Migration::new(3, "c").values()[2],
        Value::Null
    );
    assert_eq!(
        Migration::all().to_sql(),
        r#"SELECT * FROM "rum_migrations""#
    );
}

#[test]
fn a_migration_is_read_from_a_row() {
    let row = Row::new(vec![
        ("id".to_string(), Value::Integer(4)),
        ("version".to_string(), Value::Integer(2)),
        ("name".to_string(), Value::Text("add_index".to_string())),
        ("applied_at".to_string(), Value::Timestamp(77)),
    ]);
    let migration = Migration::from_row(&row);
    assert_eq!(migration.version, 2);
    assert_eq!(migration.name, "add_index");
    assert_eq!(migration.applied_at, Some(77));
    assert_eq!(migration.id(), Value::Integer(4));

    let migration = Migration::from_row(&Row::new(vec![(
        "applied_at".to_string(),
        Value::Null,
    )]));
    assert_eq!(migration, Migration::new(0, ""));
}

#[test]
fn the_tracking_table_has_its_statements() {
    let create = TrackingTable::create_statement();
    assert_eq!(
        create.sql,
        r#"CREATE TABLE IF NOT EXISTS "rum_migrations" ("id" BIGSERIAL PRIMARY KEY, "version" BIGINT NOT NULL UNIQUE, "name" VARCHAR NOT NULL, "applied_at" TIMESTAMPTZ)"#
    );
    assert!(create.values.is_empty());

    let apply = TrackingTable::apply_statement(2, "add_index", 77);
    assert_eq!(
        apply.sql,
        r#"INSERT INTO "rum_migrations" ("version", "name", "applied_at") VALUES ($1, $2, $3) ON CONFLICT ("version") DO UPDATE SET "applied_at" = EXCLUDED."applied_at" WHERE "rum_migrations"."applied_at" IS NULL"#
    );
    assert_eq!(
        apply.values,
        vec![
            Value::Integer(2),
            Value::Text("add_index".to_string()),
            Value::Timestamp(77)
        ]
    );

    let back = TrackingTable::roll_back_statement(2);
    assert_eq!(
        back.sql,
        r#"UPDATE "rum_migrations" SET "applied_at" = NULL WHERE "version" = $1"#
    );
    assert_eq!(back.values, vec![Value::Integer(2)]);
}
