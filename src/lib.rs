//! An in-memory relational store: tables of typed columns with constraints,
//! rows validated on insert, filter trees evaluated against rows, and
//! the conversion of parsed SQL statements into store operations.
use vstd::prelude::*;

pub mod api;
pub mod assoc;
pub mod ast;
pub mod column;
pub mod executor;
pub mod filter;
pub mod numeric;
pub mod parser;
pub mod repository;
pub mod storage;
pub mod table;
pub mod text;
pub mod value;

use crate::repository::RepositoryError;

verus! {

/// The crate's top-level error, by the layer that raised it.
#[derive(Debug, PartialEq)]
pub enum Error {
    Parse(String),
    Schema(String),
    Execution(String),
    Storage(String),
    Internal(String),
}

/// How a repository error reads as a top-level error.
pub open spec fn lifts(e: RepositoryError, r: Error) -> bool {
    match e {
        RepositoryError::TableNotFound(n) => r matches Error::Schema(m) && m@ == "Table "@ + n@
            + " not found"@,
        RepositoryError::TableAlreadyExists(n) => r matches Error::Schema(m) && m@ == "Table "@
            + n@ + " already exists"@,
        RepositoryError::ColumnNotFound(c, t) => r matches Error::Schema(m) && m@ == "Column "@
            + c@ + " not found in table "@ + t@,
        RepositoryError::StorageError(s) => r matches Error::Storage(m) && m@ == s@,
        RepositoryError::DataError(s) => r matches Error::Execution(m) && m@ == s@,
        RepositoryError::InternalError(s) => r matches Error::Internal(m) && m@ == s@,
    }
}

impl Error {
    /// The top-level error for a repository error.
    pub fn from_repository(err: RepositoryError) -> (r: Error)
        ensures
            lifts(err, r),
    {
        match err {
            RepositoryError::TableNotFound(name) => {
                let mut m = "Table ".to_string();
                m.append(name.as_str());
                m.append(" not found");
                Error::Schema(m)
            },
            RepositoryError::TableAlreadyExists(name) => {
                let mut m = "Table ".to_string();
                m.append(name.as_str());
                m.append(" already exists");
                Error::Schema(m)
            },
            RepositoryError::ColumnNotFound(column, table) => {
                let mut m = "Column ".to_string();
                m.append(column.as_str());
                m.append(" not found in table ");
                m.append(table.as_str());
                Error::Schema(m)
            },
            RepositoryError::StorageError(msg) => Error::Storage(msg),
            RepositoryError::DataError(msg) => Error::Execution(msg),
            RepositoryError::InternalError(msg) => Error::Internal(msg),
        }
    }
}

} // verus!
