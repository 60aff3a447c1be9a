use rustydb::api::{ServerConfig, TableInfoResponse};
use rustydb::column::Column;
use rustydb::executor::ApiError;
use rustydb::parser::ParseError;
use rustydb::repository::RepositoryError;
use rustydb::storage::StorageError;
use rustydb::table::Table;
use rustydb::value::DataType;
use rustydb::Error;

#[test]
fn storage_errors_at_the_repository_boundary() {
    let e = RepositoryError::from_storage(StorageError::TypeMismatch { expected: DataType::Integer, actual: DataType::Text });
    assert_eq!(e, RepositoryError::DataError("Type mismatch: expected Integer, got Text".to_string()));
    let e = RepositoryError::from_storage(StorageError::NotNullViolation("name".to_string()));
    assert_eq!(e, RepositoryError::DataError("NOT NULL constraint violation for column name".to_string()));
    let e = RepositoryError::from_storage(StorageError::UniqueViolation("email".to_string()));
    assert_eq!(e, RepositoryError::DataError("UNIQUE constraint violation for column email".to_string()));
    let e = RepositoryError::from_storage(StorageError::ColumnNotFound("c".to_string(), "t".to_string()));
    assert_eq!(e.message(), "Column c not found in table t");
    let e = RepositoryError::from_storage(StorageError::Internal("boom".to_string()));
    assert_eq!(e, RepositoryError::InternalError("boom".to_string()));
    assert_eq!(e.message(), "Internal error: boom");
}

#[test]
fn repository_errors_at_the_top_level() {
    assert_eq!(
        Error::from_repository(RepositoryError::TableNotFound("t".to_string())),
        Error::Schema("Table t not found".to_string())
    );
    assert_eq!(
        Error::from_repository(RepositoryError::TableAlreadyExists("t".to_string())),
        Error::Schema("Table t already exists".to_string())
    );
    assert_eq!(
        Error::from_repository(RepositoryError::ColumnNotFound("c".to_string(), "t".to_string())),
        Error::Schema("Column c not found in table t".to_string())
    );
    assert_eq!(Error::from_repository(RepositoryError::DataError("d".to_string())), Error::Execution("d".to_string()));
    assert_eq!(Error::from_repository(RepositoryError::StorageError("s".to_string())), Error::Storage("s".to_string()));
    assert_eq!(Error::from_repository(RepositoryError::InternalError("i".to_string())), Error::Internal("i".to_string()));
}

#[test]
fn endpoint_answers() {
    assert_eq!(ServerConfig::default().port, 8080);
    assert_eq!(ApiError::Internal("x".to_string()).status_code(), 500);
    assert_eq!(ApiError::SqlSyntax("x".to_string()).status_code(), 400);
    assert_eq!(ApiError::Repository(RepositoryError::ColumnNotFound("c".to_string(), "t".to_string())).status_code(), 400);
    assert_eq!(ParseError::SyntaxError("bad".to_string()).message(), "SQL syntax error: bad");
    let mut t = Table::new("users");
    t.add_column(Column::new("id", DataType::Integer).primary_key()).unwrap();
    t.add_column(Column::new("name", DataType::Text).with_default("anon")).unwrap();
    let info = TableInfoResponse::from_table(&t);
    assert_eq!(info.name, "users");
    assert_eq!(info.columns[0].data_type, "Integer");
    assert_eq!(info.columns[0].constraints, vec!["PRIMARY KEY".to_string(), "NOT NULL".to_string()]);
    assert_eq!(info.columns[1].constraints, vec!["DEFAULT anon".to_string()]);
}
