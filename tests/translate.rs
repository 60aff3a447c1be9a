use rustydb::api::{prepare_statement, run_statements};
use rustydb::ast::{
    SqlAssignment, SqlBinaryOperator, SqlColumnDef, SqlColumnOption, SqlDataType, SqlExpr, SqlQuery,
    SqlSelect, SqlSelectItem, SqlSetExpr, SqlStatement, SqlTableRef, SqlValue,
};
use rustydb::column::Constraint;
use rustydb::executor::ApiError;
use rustydb::filter::{FilterCondition, FilterOperator};
use rustydb::parser::{ParseError, ParsedStatement, SqlParser};
use rustydb::repository::{MemoryTableRepository, RepositoryError, TableRepository};
use rustydb::storage::MemoryStorage;
use rustydb::value::{DataType, Value};

fn ident(s: &str) -> SqlExpr {
    SqlExpr::Identifier(s.to_string())
}

fn num(s: &str) -> SqlExpr {
    SqlExpr::Value(SqlValue::Number { text: s.to_string(), float_bits: s.parse::<f64>().ok().map(f64::to_bits) })
}

fn text(s: &str) -> SqlExpr {
    SqlExpr::Value(SqlValue::SingleQuotedString(s.to_string()))
}

fn bin(l: SqlExpr, op: SqlBinaryOperator, r: SqlExpr) -> SqlExpr {
    SqlExpr::BinaryOp { left: Box::new(l), op, right: Box::new(r) }
}

fn table(name: &str) -> SqlTableRef {
    SqlTableRef::Named(vec![name.to_string()])
}

fn select(cols: Vec<SqlSelectItem>, selection: Option<SqlExpr>, limit: Option<SqlExpr>) -> SqlStatement {
    SqlStatement::Query(SqlQuery {
        body: SqlSetExpr::Select(SqlSelect { from: vec![table("users")], projection: cols, selection }),
        limit,
    })
}

fn create_users() -> SqlStatement {
    SqlStatement::CreateTable {
        name: vec!["users".to_string()],
        columns: vec![
            SqlColumnDef {
                name: "id".to_string(),
                data_type: SqlDataType::Integer,
                options: vec![SqlColumnOption::Unique { is_primary: true }],
            },
            SqlColumnDef { name: "name".to_string(), data_type: SqlDataType::Text, options: vec![SqlColumnOption::NotNull] },
            SqlColumnDef {
                name: "active".to_string(),
                data_type: SqlDataType::Boolean,
                options: vec![SqlColumnOption::Default(SqlExpr::Value(SqlValue::Boolean(true)))],
            },
        ],
        if_not_exists: false,
    }
}

fn insert_users(rows: Vec<Vec<SqlExpr>>) -> SqlStatement {
    SqlStatement::Insert {
        table_name: vec!["users".to_string()],
        columns: vec!["id".to_string(), "name".to_string(), "active".to_string()],
        source: SqlQuery { body: SqlSetExpr::Values(rows), limit: None },
    }
}

fn bool_lit(b: bool) -> SqlExpr {
    SqlExpr::Value(SqlValue::Boolean(b))
}

#[test]
fn nested_and_is_flattened() {
    let p = SqlParser::new();
    let e = bin(
        bin(bin(ident("a"), SqlBinaryOperator::Eq, num("1")), SqlBinaryOperator::And, bin(ident("b"), SqlBinaryOperator::Gt, num("2"))),
        SqlBinaryOperator::And,
        bin(ident("c"), SqlBinaryOperator::Lt, num("3")),
    );
    match p.parse_filter_expression(&e).unwrap() {
        FilterCondition::And(cs) => {
            assert_eq!(cs.len(), 3);
            assert!(cs.iter().all(|c| matches!(c, FilterCondition::Simple { .. })));
        },
        other => panic!("expected a conjunction, got {:?}", other),
    }
    let e = bin(
        bin(ident("a"), SqlBinaryOperator::Eq, num("1")),
        SqlBinaryOperator::Or,
        bin(bin(ident("b"), SqlBinaryOperator::Eq, num("2")), SqlBinaryOperator::Or, bin(ident("c"), SqlBinaryOperator::Eq, num("3"))),
    );
    match p.parse_filter_expression(&e).unwrap() {
        FilterCondition::Or(cs) => assert_eq!(cs.len(), 3),
        other => panic!("expected a disjunction, got {:?}", other),
    }
}

#[test]
fn literal_on_the_left_mirrors_the_operator() {
    let p = SqlParser::new();
    let f = p.parse_filter_expression(&bin(num("18"), SqlBinaryOperator::Lt, ident("age"))).unwrap();
    match f {
        FilterCondition::Simple { column, operator, value } => {
            assert_eq!(column, "age");
            assert_eq!(operator, FilterOperator::Greater);
            assert_eq!(value, Value::Integer(18));
        },
        other => panic!("expected a leaf, got {:?}", other),
    }
    let f = p.parse_filter_expression(&bin(num("2.5"), SqlBinaryOperator::GtEq, ident("x"))).unwrap();
    match f {
        FilterCondition::Simple { operator, value, .. } => {
            assert_eq!(operator, FilterOperator::LessOrEqual);
            assert_eq!(value, Value::Float(2.5f64.to_bits()));
        },
        other => panic!("expected a leaf, got {:?}", other),
    }
}

#[test]
fn unsupported_filters() {
    let p = SqlParser::new();
    let e = bin(ident("a"), SqlBinaryOperator::Other("Plus".to_string()), num("1"));
    assert_eq!(p.parse_filter_expression(&e).unwrap_err(), ParseError::UnsupportedFeature("Unsupported operator: Plus".to_string()));
    let e = bin(ident("a"), SqlBinaryOperator::Eq, ident("b"));
    assert_eq!(p.parse_filter_expression(&e).unwrap_err(), ParseError::UnsupportedFeature("Complex conditions not supported".to_string()));
    assert_eq!(p.parse_filter_expression(&ident("a")).unwrap_err(), ParseError::UnsupportedFeature("Unsupported WHERE expression".to_string()));
    let e = bin(ident("a"), SqlBinaryOperator::Eq, num("99999999999999999999"));
    assert_eq!(p.parse_filter_expression(&e).unwrap_err(), ParseError::InvalidValue("Invalid integer value: 99999999999999999999".to_string()));
}

#[test]
fn literal_conversions() {
    let p = SqlParser::new();
    assert_eq!(p.sql_value_to_value(&SqlValue::Number { text: "-7".to_string(), float_bits: None }), Ok(Value::Integer(-7)));
    assert_eq!(p.sql_value_to_value(&SqlValue::Number { text: "1.x".to_string(), float_bits: None }),
        Err(ParseError::InvalidValue("Invalid float value: 1.x".to_string())));
    assert_eq!(p.sql_value_to_value(&SqlValue::DoubleQuotedString("q".to_string())), Ok(Value::Text("q".to_string())));
    assert_eq!(p.sql_value_to_value(&SqlValue::Null), Ok(Value::Null));
    assert_eq!(p.sql_value_to_value(&SqlValue::Other("X'00'".to_string())),
        Err(ParseError::InvalidValue("Unsupported value type: X'00'".to_string())));
    assert_eq!(p.sql_value_to_string(&SqlValue::Boolean(false)), Ok("false".to_string()));
    assert_eq!(p.sql_value_to_string(&SqlValue::Null), Ok("NULL".to_string()));
}

#[test]
fn create_table_translation() {
    let p = SqlParser::new();
    match p.parse_statement(&create_users()).unwrap() {
        ParsedStatement::CreateTable(st) => {
            assert_eq!(st.table_name, "users");
            assert_eq!(st.columns.len(), 3);
            assert!(st.columns[0].is_primary_key() && st.columns[0].is_not_null());
            assert_eq!(st.columns[1].constraints, vec![Constraint::NotNull]);
            assert_eq!(st.columns[2].data_type, DataType::Boolean);
            assert_eq!(st.columns[2].default_value(), Some("true"));
        },
        _ => panic!("expected CREATE TABLE"),
    }
    let bad = SqlStatement::CreateTable {
        name: vec!["t".to_string()],
        columns: vec![SqlColumnDef { name: "x".to_string(), data_type: SqlDataType::Other("Blob".to_string()), options: vec![] }],
        if_not_exists: false,
    };
    assert_eq!(p.parse_statement(&bad).err(), Some(ParseError::InvalidDataType("Unsupported data type: Blob".to_string())));
    let qualified = SqlStatement::Drop { is_table: true, names: vec![vec!["s".to_string(), "t".to_string()]], if_exists: false };
    assert_eq!(p.parse_statement(&qualified).err(), Some(ParseError::UnsupportedFeature("Schema qualified names not supported".to_string())));
}

#[test]
fn select_translation() {
    let p = SqlParser::new();
    let st = select(
        vec![SqlSelectItem::Column("name".to_string()), SqlSelectItem::Column("id".to_string())],
        Some(bin(ident("id"), SqlBinaryOperator::Eq, num("1"))),
        Some(num("10")),
    );
    match p.parse_statement(&st).unwrap() {
        ParsedStatement::Select(s) => {
            assert_eq!(s.table_name, "users");
            assert_eq!(s.columns, Some(vec!["name".to_string(), "id".to_string()]));
            assert!(s.filter.is_some());
            assert_eq!(s.limit, Some(10));
        },
        _ => panic!("expected SELECT"),
    }
    let st = select(vec![SqlSelectItem::Wildcard, SqlSelectItem::Other], None, Some(num("-1")));
    match p.parse_statement(&st).unwrap() {
        ParsedStatement::Select(s) => {
            assert_eq!(s.columns, None);
            assert_eq!(s.limit, None);
        },
        _ => panic!("expected SELECT"),
    }
    let st = select(vec![SqlSelectItem::Other], None, None);
    assert_eq!(p.parse_statement(&st).err(), Some(ParseError::UnsupportedFeature("Complex SELECT expressions not supported".to_string())));
    assert_eq!(p.parse_statement(&SqlStatement::Other("Commit".to_string())).err(),
        Some(ParseError::UnsupportedFeature("Unsupported SQL statement type".to_string())));
}

#[test]
fn update_and_delete_translation() {
    let p = SqlParser::new();
    let up = SqlStatement::Update {
        table: table("users"),
        assignments: vec![SqlAssignment { id: vec!["name".to_string()], value: text("Zed") }],
        selection: None,
    };
    match p.parse_statement(&up).unwrap() {
        ParsedStatement::Update(u) => {
            assert_eq!(u.updates, vec![("name".to_string(), Value::Text("Zed".to_string()))]);
            assert!(u.filter.is_none());
        },
        _ => panic!("expected UPDATE"),
    }
    let up = SqlStatement::Update {
        table: table("users"),
        assignments: vec![SqlAssignment { id: vec!["a".to_string(), "b".to_string()], value: text("Zed") }],
        selection: None,
    };
    assert_eq!(p.parse_statement(&up).err(), Some(ParseError::UnsupportedFeature("Compound column identifiers not supported".to_string())));
    let del = SqlStatement::Delete { from: vec![table("a"), table("b")], selection: None };
    assert_eq!(p.parse_statement(&del).err(), Some(ParseError::UnsupportedFeature("Multiple table delete not supported".to_string())));
    let drop = SqlStatement::Drop { is_table: false, names: vec![vec!["v".to_string()]], if_exists: false };
    assert_eq!(p.parse_statement(&drop).err(), Some(ParseError::UnsupportedFeature("Only DROP TABLE is supported".to_string())));
}

#[test]
fn statements_run_end_to_end() {
    let mut repo = MemoryTableRepository::new(MemoryStorage::new());
    let out = run_statements(&mut repo, &vec![create_users()]).unwrap();
    assert_eq!(out.statement_type, "CREATE_TABLE");
    assert_eq!(out.affected_rows, Some(0));
    let ins = insert_users(vec![
        vec![num("1"), text("Alice"), bool_lit(true)],
        vec![num("2"), text("Bob"), bool_lit(false)],
        vec![num("3"), text("Carol"), bool_lit(true)],
    ]);
    assert_eq!(run_statements(&mut repo, &vec![ins]).unwrap().affected_rows, Some(3));
    let del = SqlStatement::Delete {
        from: vec![table("users")],
        selection: Some(bin(ident("active"), SqlBinaryOperator::Eq, bool_lit(false))),
    };
    let out = run_statements(&mut repo, &vec![del]).unwrap();
    assert_eq!((out.statement_type.as_str(), out.affected_rows), ("DELETE", Some(1)));
    let q = select(vec![SqlSelectItem::Wildcard], None, None);
    let out = run_statements(&mut repo, &vec![q]).unwrap();
    assert_eq!(out.columns, Some(vec!["id".to_string(), "name".to_string(), "active".to_string()]));
    let rows = out.rows.unwrap();
    assert_eq!(rows.len(), 2);
    assert_eq!(rows[1].get("name"), Some(&Value::Text("Carol".to_string())));
    let dup = insert_users(vec![vec![num("1"), text("Again"), bool_lit(true)]]);
    let err = run_statements(&mut repo, &vec![dup]).unwrap_err();
    assert_eq!(err.status_code(), 400);
    assert_eq!(err.message(), "Data error: PRIMARY KEY constraint violation");
    let up = SqlStatement::Update {
        table: table("users"),
        assignments: vec![SqlAssignment { id: vec!["nickname".to_string()], value: text("x") }],
        selection: None,
    };
    match run_statements(&mut repo, &vec![up]).unwrap_err() {
        ApiError::Repository(RepositoryError::ColumnNotFound(c, t)) => assert_eq!((c.as_str(), t.as_str()), ("nickname", "users")),
        other => panic!("unexpected {:?}", other),
    }
    assert_eq!(repo.select("users", &vec![], None).unwrap().len(), 2);
    let err = run_statements(&mut repo, &vec![create_users()]).unwrap_err();
    assert_eq!(err.status_code(), 409);
    let drop = SqlStatement::Drop { is_table: true, names: vec![vec!["users".to_string()]], if_exists: false };
    assert_eq!(run_statements(&mut repo, &vec![drop]).unwrap().statement_type, "DROP_TABLE");
    let q = select(vec![SqlSelectItem::Wildcard], None, None);
    let err = run_statements(&mut repo, &vec![q]).unwrap_err();
    assert_eq!((err.status_code(), err.message()), (404, "Table users not found".to_string()));
    let err = run_statements(&mut repo, &vec![]).unwrap_err();
    assert_eq!(err.message(), "No SQL statement provided");
    let err = run_statements(&mut repo, &vec![SqlStatement::Other("x".to_string())]).unwrap_err();
    assert_eq!(err.message(), "Unsupported SQL feature: Unsupported SQL statement type");
}

#[test]
fn and_splices_left_parts_before_right_parts() {
    let p = SqlParser::new();
    let leaf = |c: &str| bin(ident(c), SqlBinaryOperator::Eq, num("1"));
    let e = bin(
        bin(leaf("a"), SqlBinaryOperator::And, leaf("b")),
        SqlBinaryOperator::And,
        bin(leaf("c"), SqlBinaryOperator::And, leaf("d")),
    );
    match p.parse_filter_expression(&e).unwrap() {
        FilterCondition::And(cs) => {
            let cols: Vec<String> = cs
                .iter()
                .map(|c| match c {
                    FilterCondition::Simple { column, .. } => column.clone(),
                    other => panic!("unexpected {:?}", other),
                })
                .collect();
            assert_eq!(cols, vec!["a", "b", "c", "d"]);
        },
        other => panic!("expected a conjunction, got {:?}", other),
    }
    let e = bin(leaf("x"), SqlBinaryOperator::Or, bin(leaf("y"), SqlBinaryOperator::And, leaf("z")));
    match p.parse_filter_expression(&e).unwrap() {
        FilterCondition::Or(cs) => {
            assert_eq!(cs.len(), 2);
            assert!(matches!(&cs[0], FilterCondition::Simple { column, .. } if column == "x"));
            assert!(matches!(&cs[1], FilterCondition::And(inner) if inner.len() == 2));
        },
        other => panic!("expected a disjunction, got {:?}", other),
    }
}

#[test]
fn last_default_wins_and_is_kept_as_text() {
    let p = SqlParser::new();
    let st = SqlStatement::CreateTable {
        name: vec!["t".to_string()],
        columns: vec![SqlColumnDef {
            name: "n".to_string(),
            data_type: SqlDataType::Int,
            options: vec![
                SqlColumnOption::Default(num("1")),
                SqlColumnOption::NotNull,
                SqlColumnOption::Default(num("42")),
            ],
        }],
        if_not_exists: false,
    };
    match p.parse_statement(&st).unwrap() {
        ParsedStatement::CreateTable(c) => {
            assert_eq!(c.columns[0].default_value(), Some("42"));
            assert!(c.columns[0].is_not_null());
        },
        _ => panic!("expected CREATE TABLE"),
    }
    let st = SqlStatement::CreateTable {
        name: vec!["t".to_string()],
        columns: vec![SqlColumnDef {
            name: "n".to_string(),
            data_type: SqlDataType::Int,
            options: vec![SqlColumnOption::Default(ident("other"))],
        }],
        if_not_exists: false,
    };
    assert_eq!(p.parse_statement(&st).err(), Some(ParseError::UnsupportedFeature("Complex default expressions not supported".to_string())));
}

#[test]
fn create_table_without_columns_is_refused() {
    let mut repo = MemoryTableRepository::new(MemoryStorage::new());
    let st = SqlStatement::CreateTable { name: vec!["empty".to_string()], columns: vec![], if_not_exists: false };
    let err = run_statements(&mut repo, &vec![st]).unwrap_err();
    assert_eq!(err.status_code(), 500);
    assert_eq!(err.message(), "Table must have at least one column");
    assert_eq!(repo.table_exists("empty").unwrap(), false);
}

#[test]
fn the_first_statement_is_prepared() {
    let st = prepare_statement(&vec![create_users(), SqlStatement::Other("x".to_string())]);
    assert!(st.is_err());
    match prepare_statement(&vec![create_users(), insert_users(vec![])]).unwrap() {
        ParsedStatement::CreateTable(c) => assert_eq!(c.table_name, "users"),
        _ => panic!("expected CREATE TABLE"),
    }
    match prepare_statement(&vec![]).unwrap_err() {
        ApiError::SqlSyntax(m) => assert_eq!(m, "No SQL statement provided"),
        other => panic!("unexpected {:?}", other),
    }
}
