use rustydb::numeric::{parse_i64, parse_usize};
use rustydb::column::{Column, Constraint};
use rustydb::table::{ResultSet, Row, Table, TableError};
use rustydb::value::{boolean_literal, DataType, Value, ValueError};

#[test]
fn column_builders() {
    let c = Column::new("id", DataType::Integer).primary_key();
    assert_eq!(c.constraints, vec![Constraint::PrimaryKey, Constraint::NotNull]);
    assert!(c.is_primary_key() && c.is_not_null() && !c.is_unique());
    let c = Column::new("x", DataType::Text).not_null().primary_key();
    assert_eq!(c.constraints, vec![Constraint::NotNull, Constraint::PrimaryKey]);
    let c = Column::new("x", DataType::Text).unique().unique().not_null().not_null();
    assert_eq!(c.constraints, vec![Constraint::Unique, Constraint::NotNull]);
    let c = Column::new("x", DataType::Text).with_default("a").unique().with_default("b");
    assert_eq!(c.constraints, vec![Constraint::Unique, Constraint::Default("b".to_string())]);
    assert_eq!(c.default_value(), Some("b"));
    assert_eq!(Column::new("y", DataType::Boolean).default_value(), None);
    assert_eq!(Constraint::Default("7".to_string()).text(), "DEFAULT 7");
    assert_eq!(Constraint::PrimaryKey.text(), "PRIMARY KEY");
}

#[test]
fn table_schema_rules() {
    let mut t = Table::new("t");
    assert_eq!(t.validate(), Err(TableError::NoColumns));
    t.add_column(Column::new("a", DataType::Integer).primary_key()).unwrap();
    assert_eq!(
        t.add_column(Column::new("a", DataType::Text)),
        Err(TableError::ColumnAlreadyExists("a".to_string()))
    );
    assert_eq!(t.add_column(Column::new("b", DataType::Integer).primary_key()), Err(TableError::MultiplePrimaryKeys));
    let t = t.with_column(Column::new("c", DataType::Text)).unwrap();
    assert_eq!(t.validate(), Ok(()));
    assert_eq!(t.column_names(), vec!["a", "c"]);
    assert_eq!(t.get_column_index("c"), Some(1));
    assert_eq!(t.get_column_index("z"), None);
    assert_eq!(t.get_column("c").unwrap().data_type, DataType::Text);
    assert_eq!(t.get_primary_key().unwrap().name, "a");
    assert_eq!(TableError::MultiplePrimaryKeys.message(), "Multiple primary keys not allowed");
    assert_eq!(TableError::ColumnAlreadyExists("a".to_string()).message(), "Column 'a' already exists in table");
}

#[test]
fn rows_and_result_sets() {
    let mut r = Row::new();
    assert_eq!(r.get("a"), None);
    r.set("a", Value::Integer(1));
    r.set("a", Value::Integer(2));
    assert_eq!(r.get("a"), Some(&Value::Integer(2)));
    let r2 = Row::from_values(vec![
        ("a".to_string(), Value::Integer(1)),
        ("b".to_string(), Value::Null),
        ("a".to_string(), Value::Integer(3)),
    ]);
    assert_eq!(r2.get("a"), Some(&Value::Integer(3)));
    assert_eq!(r2.get("b"), Some(&Value::Null));
    let mut rs = ResultSet::new(vec![Column::new("a", DataType::Integer)]);
    assert!(rs.is_empty());
    rs.add_row(r2.clone());
    assert_eq!(rs.len(), 1);
    assert!(!rs.is_empty());
}

#[test]
fn data_type_names() {
    assert_eq!(DataType::from_str("int"), Ok(DataType::Integer));
    assert_eq!(DataType::from_str("Varchar"), Ok(DataType::Text));
    assert_eq!(DataType::from_str("double"), Ok(DataType::Float));
    assert_eq!(DataType::from_str("bool"), Ok(DataType::Boolean));
    assert_eq!(DataType::from_str("datetime"), Ok(DataType::Timestamp));
    assert_eq!(DataType::from_str("null"), Ok(DataType::Null));
    assert_eq!(DataType::from_str("blob"), Err("Unsupported data type: blob".to_string()));
    assert!(DataType::Text.is_text() && !DataType::Text.is_integer());
    assert!(DataType::Null.is_null() && DataType::Float.is_float() && DataType::Boolean.is_boolean());
    assert!(DataType::Timestamp.is_timestamp() && DataType::Integer.is_nullable());
    assert_eq!(DataType::Integer.name(), "Integer");
}

#[test]
fn value_types_and_equality() {
    assert_eq!(Value::Text("a".to_string()).data_type(), DataType::Text);
    assert_eq!(Value::Null.data_type(), DataType::Null);
    assert!(Value::Float(0.0f64.to_bits()).equals(&Value::Float((-0.0f64).to_bits())));
    assert!(!Value::Integer(1).equals(&Value::Float(1.0f64.to_bits())));
    assert!(Value::Text("x".to_string()).equals(&Value::Text("x".to_string())));
}

#[test]
fn casts() {
    assert_eq!(Value::Null.cast_to(DataType::Integer), Some(Ok(Value::Null)));
    assert_eq!(Value::Integer(7).cast_to(DataType::Integer), Some(Ok(Value::Integer(7))));
    assert_eq!(Value::Integer(-42).cast_to(DataType::Text), Some(Ok(Value::Text("-42".to_string()))));
    assert_eq!(Value::Integer(0).cast_to(DataType::Boolean), Some(Ok(Value::Boolean(false))));
    assert_eq!(Value::Integer(3).cast_to(DataType::Boolean), Some(Ok(Value::Boolean(true))));
    assert_eq!(Value::Float((-0.0f64).to_bits()).cast_to(DataType::Boolean), Some(Ok(Value::Boolean(false))));
    assert_eq!(Value::Float(0.5f64.to_bits()).cast_to(DataType::Boolean), Some(Ok(Value::Boolean(true))));
    assert_eq!(Value::Text(" 12".to_string()).cast_to(DataType::Integer),
        Some(Err(ValueError::ConversionError(" 12".to_string(), "INTEGER".to_string()))));
    assert_eq!(Value::Text("-12".to_string()).cast_to(DataType::Integer), Some(Ok(Value::Integer(-12))));
    assert_eq!(Value::Text("YES".to_string()).cast_to(DataType::Boolean), Some(Ok(Value::Boolean(true))));
    assert_eq!(Value::Text("N".to_string()).cast_to(DataType::Boolean), Some(Ok(Value::Boolean(false))));
    assert_eq!(Value::Text("maybe".to_string()).cast_to(DataType::Boolean),
        Some(Err(ValueError::ConversionError("maybe".to_string(), "BOOLEAN".to_string()))));
    assert_eq!(Value::Boolean(true).cast_to(DataType::Integer), Some(Ok(Value::Integer(1))));
    assert_eq!(Value::Boolean(false).cast_to(DataType::Integer), Some(Ok(Value::Integer(0))));
    assert_eq!(Value::Boolean(true).cast_to(DataType::Text), Some(Ok(Value::Text("true".to_string()))));
    assert_eq!(Value::Boolean(false).cast_to(DataType::Text), Some(Ok(Value::Text("false".to_string()))));
    assert_eq!(Value::Boolean(true).cast_to(DataType::Float), Some(Ok(Value::Float(1.0f64.to_bits()))));
    assert_eq!(Value::Boolean(false).cast_to(DataType::Float), Some(Ok(Value::Float(0.0f64.to_bits()))));
    assert_eq!(Value::Boolean(true).cast_to(DataType::Timestamp),
        Some(Err(ValueError::TypeMismatch { expected: DataType::Timestamp, actual: DataType::Boolean })));
    let ts = Value::Timestamp(rustydb::value::Timestamp { seconds: 1, nanos: 0 });
    assert_eq!(ts.cast_to(DataType::Integer),
        Some(Err(ValueError::TypeMismatch { expected: DataType::Integer, actual: DataType::Timestamp })));
    assert_eq!(Value::Integer(1).cast_to(DataType::Float), None);
    assert_eq!(Value::Text("1.5".to_string()).cast_to(DataType::Float), None);
    assert_eq!(boolean_literal("y"), Some(true));
    assert_eq!(boolean_literal("Y"), None);
}

#[test]
fn defaults_and_conversions() {
    assert_eq!(Row::default().get("x"), None);
    assert_eq!(Value::from(5i64), Value::Integer(5));
    assert_eq!(Value::from("hi".to_string()), Value::Text("hi".to_string()));
    assert_eq!(Value::from(true), Value::Boolean(true));
    let ts = rustydb::value::Timestamp { seconds: 10, nanos: 5 };
    assert_eq!(Value::from(ts), Value::Timestamp(ts));
    assert_eq!(Value::from(ts).data_type(), DataType::Timestamp);
    let c = Column::new("id", DataType::Integer).primary_key().with_default("0");
    assert_eq!(c.text(), "id Integer PRIMARY KEY NOT NULL DEFAULT 0");
    assert_eq!(Column::new("n", DataType::Text).text(), "n Text");
    let _ = rustydb::parser::SqlParser::default();
}

#[test]
fn decimal_text_edges() {
    assert_eq!(parse_i64("-9223372036854775808"), Some(i64::MIN));
    assert_eq!(parse_i64("9223372036854775807"), Some(i64::MAX));
    assert_eq!(parse_i64("9223372036854775808"), None);
    assert_eq!(parse_i64("+005"), Some(5));
    assert_eq!(parse_i64("-"), None);
    assert_eq!(parse_i64(""), None);
    assert_eq!(parse_i64("1a"), None);
    assert_eq!(parse_usize("+7"), Some(7));
    assert_eq!(parse_usize("-0"), None);
    assert_eq!(parse_usize("18446744073709551616"), None);
    assert_eq!(Value::Integer(i64::MIN).cast_to(DataType::Text), Some(Ok(Value::Text(i64::MIN.to_string()))));
    assert_eq!(Value::Integer(0).cast_to(DataType::Text), Some(Ok(Value::Text("0".to_string()))));
    assert_eq!(Value::Integer(1230).cast_to(DataType::Text), Some(Ok(Value::Text("1230".to_string()))));
}

#[test]
fn equality_of_values_and_rows() {
    assert_ne!(Value::Float(f64::NAN.to_bits()), Value::Float(f64::NAN.to_bits()));
    assert_eq!(Value::Float(0.0f64.to_bits()), Value::Float((-0.0f64).to_bits()));
    assert_ne!(Value::Integer(1), Value::Float(1.0f64.to_bits()));
    let mut a = Row::new();
    a.set("x", Value::Integer(1));
    a.set("y", Value::Text("t".to_string()));
    let mut b = Row::new();
    b.set("y", Value::Text("t".to_string()));
    b.set("x", Value::Integer(1));
    assert_eq!(a, b);
    b.set("z", Value::Null);
    assert_ne!(a, b);
    assert_ne!(b, a);
    let mut c = Row::new();
    c.set("x", Value::Integer(2));
    c.set("y", Value::Text("t".to_string()));
    assert_ne!(a, c);
}
