use rustydb::column::Column;
use rustydb::filter::{FilterCondition, FilterOperator};
use rustydb::storage::{MemoryStorage, StorageError};
use rustydb::table::{Row, Table};
use rustydb::value::{DataType, Value};

fn users_table() -> Table {
    let mut t = Table::new("users");
    t.add_column(Column::new("id", DataType::Integer).primary_key()).unwrap();
    t.add_column(Column::new("name", DataType::Text).not_null()).unwrap();
    t
}

fn user(id: i64, name: &str) -> Row {
    let mut r = Row::new();
    r.set("id", Value::Integer(id));
    r.set("name", Value::Text(name.to_string()));
    r
}

#[test]
fn round_trip_and_duplicate_primary_key() {
    let mut s = MemoryStorage::new();
    s.create_table(users_table(), false).unwrap();
    s.insert_row("users", user(1, "Alice")).unwrap();
    let (cols, rows) = s.select_rows("users", None, None).unwrap();
    assert_eq!(cols.len(), 2);
    assert_eq!(rows.len(), 1);
    assert_eq!(rows[0].get("id"), Some(&Value::Integer(1)));
    assert_eq!(rows[0].get("name"), Some(&Value::Text("Alice".to_string())));
    let err = s.insert_row("users", user(1, "Bob")).unwrap_err();
    assert_eq!(err, StorageError::PrimaryKeyViolation);
    let (_, rows) = s.select_rows("users", None, None).unwrap();
    assert_eq!(rows.len(), 1);
}

#[test]
fn delete_with_filter_removes_matching_rows() {
    let mut t = Table::new("flags");
    t.add_column(Column::new("id", DataType::Integer)).unwrap();
    t.add_column(Column::new("active", DataType::Boolean)).unwrap();
    let mut s = MemoryStorage::new();
    s.create_table(t, false).unwrap();
    for (id, active) in [(1, true), (2, false), (3, true)] {
        let mut r = Row::new();
        r.set("id", Value::Integer(id));
        r.set("active", Value::Boolean(active));
        s.insert_row("flags", r).unwrap();
    }
    let f = FilterCondition::Simple {
        column: "active".to_string(),
        operator: FilterOperator::Equal,
        value: Value::Boolean(false),
    };
    assert_eq!(s.delete_rows("flags", Some(&f)).unwrap(), 1);
    let (_, rows) = s.select_rows("flags", None, None).unwrap();
    let ids: Vec<_> = rows.iter().map(|r| r.get("id").cloned()).collect();
    assert_eq!(ids, vec![Some(Value::Integer(1)), Some(Value::Integer(3))]);
}

fn active_table() -> MemoryStorage {
    let mut t = Table::new("people");
    t.add_column(Column::new("id", DataType::Integer).primary_key()).unwrap();
    t.add_column(Column::new("email", DataType::Text).unique()).unwrap();
    t.add_column(Column::new("age", DataType::Integer)).unwrap();
    let mut s = MemoryStorage::new();
    s.create_table(t, false).unwrap();
    s
}

fn person(id: i64, email: &str, age: i64) -> Row {
    let mut r = Row::new();
    r.set("id", Value::Integer(id));
    r.set("email", Value::Text(email.to_string()));
    r.set("age", Value::Integer(age));
    r
}

fn row_count(s: &MemoryStorage, table: &str) -> usize {
    s.select_rows(table, None, None).unwrap().1.len()
}

#[test]
fn rejected_inserts_keep_row_count() {
    let mut s = active_table();
    s.insert_row("people", person(1, "a@x", 30)).unwrap();
    // primary key missing: NOT NULL
    let mut r = Row::new();
    r.set("email", Value::Text("b@x".to_string()));
    assert_eq!(
        s.insert_row("people", r).unwrap_err(),
        StorageError::NotNullViolation("id".to_string())
    );
    // explicit NULL in the primary key
    let mut r = person(2, "c@x", 1);
    r.set("id", Value::Null);
    assert_eq!(
        s.insert_row("people", r).unwrap_err(),
        StorageError::NotNullViolation("id".to_string())
    );
    // wrong type
    let mut r = person(3, "d@x", 1);
    r.set("age", Value::Text("old".to_string()));
    assert_eq!(
        s.insert_row("people", r).unwrap_err(),
        StorageError::TypeMismatch { expected: DataType::Integer, actual: DataType::Text }
    );
    // repeated unique value
    assert_eq!(
        s.insert_row("people", person(4, "a@x", 5)).unwrap_err(),
        StorageError::UniqueViolation("email".to_string())
    );
    // repeated primary key
    assert_eq!(
        s.insert_row("people", person(1, "e@x", 5)).unwrap_err(),
        StorageError::PrimaryKeyViolation
    );
    assert_eq!(row_count(&s, "people"), 1);
}

#[test]
fn null_never_clashes_on_unique_column() {
    let mut s = active_table();
    let mut r = person(1, "x", 1);
    r.set("email", Value::Null);
    s.insert_row("people", r).unwrap();
    let mut r = person(2, "x", 1);
    r.set("email", Value::Null);
    s.insert_row("people", r).unwrap();
    assert_eq!(row_count(&s, "people"), 2);
}

#[test]
fn insert_rows_keeps_rows_before_failure() {
    let mut s = active_table();
    let batch = vec![person(1, "a", 1), person(2, "b", 2), person(1, "c", 3), person(4, "d", 4)];
    assert_eq!(s.insert_rows("people", batch).unwrap_err(), StorageError::PrimaryKeyViolation);
    assert_eq!(row_count(&s, "people"), 2);
}

#[test]
fn projection_follows_requested_order() {
    let mut s = active_table();
    s.insert_row("people", person(1, "a", 10)).unwrap();
    let wanted = vec!["age".to_string(), "id".to_string()];
    let (cols, _) = s.select_rows("people", Some(&wanted), None).unwrap();
    let names: Vec<_> = cols.iter().map(|c| c.name.clone()).collect();
    assert_eq!(names, vec!["age", "id"]);
    let (cols, _) = s.select_rows("people", None, None).unwrap();
    let names: Vec<_> = cols.iter().map(|c| c.name.clone()).collect();
    assert_eq!(names, vec!["id", "email", "age"]);
}

#[test]
fn select_unknown_column_fails() {
    let s = active_table();
    let wanted = vec!["id".to_string(), "nope".to_string()];
    assert_eq!(
        s.select_rows("people", Some(&wanted), None).unwrap_err(),
        StorageError::ColumnNotFound("nope".to_string(), "people".to_string())
    );
}

#[test]
fn update_unknown_column_changes_nothing() {
    let mut s = active_table();
    s.insert_row("people", person(1, "a", 10)).unwrap();
    s.insert_row("people", person(2, "b", 20)).unwrap();
    let updates = vec![
        ("age".to_string(), Value::Integer(99)),
        ("missing".to_string(), Value::Integer(1)),
    ];
    assert_eq!(
        s.update_rows("people", &updates, None).unwrap_err(),
        StorageError::ColumnNotFound("missing".to_string(), "people".to_string())
    );
    let (_, rows) = s.select_rows("people", None, None).unwrap();
    assert_eq!(rows[0].get("age"), Some(&Value::Integer(10)));
    assert_eq!(rows[1].get("age"), Some(&Value::Integer(20)));
}

#[test]
fn update_sets_selected_rows_and_counts_them() {
    let mut s = active_table();
    s.insert_row("people", person(1, "a", 10)).unwrap();
    s.insert_row("people", person(2, "b", 20)).unwrap();
    s.insert_row("people", person(3, "c", 30)).unwrap();
    let f = FilterCondition::Simple {
        column: "age".to_string(),
        operator: FilterOperator::GreaterOrEqual,
        value: Value::Integer(20),
    };
    let updates = vec![("email".to_string(), Value::Text("z".to_string()))];
    assert_eq!(s.update_rows("people", &updates, Some(&f)).unwrap(), 2);
    let (_, rows) = s.select_rows("people", None, None).unwrap();
    assert_eq!(rows[0].get("email"), Some(&Value::Text("a".to_string())));
    assert_eq!(rows[1].get("email"), Some(&Value::Text("z".to_string())));
    assert_eq!(rows[2].get("email"), Some(&Value::Text("z".to_string())));
    assert_eq!(s.delete_rows("people", None).unwrap(), 3);
    assert_eq!(row_count(&s, "people"), 0);
}

#[test]
fn table_lifecycle_errors() {
    let mut s = MemoryStorage::new();
    assert!(!s.table_exists("users"));
    s.create_table(users_table(), false).unwrap();
    assert!(s.table_exists("users"));
    assert_eq!(
        s.create_table(users_table(), false).unwrap_err(),
        StorageError::TableAlreadyExists("users".to_string())
    );
    assert!(s.create_table(users_table(), true).is_ok());
    assert_eq!(s.get_table("users").unwrap(), users_table());
    assert_eq!(s.get_table_names(), vec!["users".to_string()]);
    s.drop_table("users", false).unwrap();
    assert_eq!(s.drop_table("users", false).unwrap_err(), StorageError::TableNotFound("users".to_string()));
    assert!(s.drop_table("users", true).is_ok());
    assert_eq!(
        s.insert_row("users", user(1, "a")).unwrap_err(),
        StorageError::TableNotFound("users".to_string())
    );
    assert!(s.get_table_names().is_empty());
}
