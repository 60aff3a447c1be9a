//! What the HTTP endpoints decide: status codes, error texts, the table
//! description, and the handling of one SQL request. Transport and JSON
//! encoding are not here.
use vstd::prelude::*;

use crate::ast::SqlStatement;
use crate::column::{constraint_text, Column};
use crate::executor::{execute, executed, ApiError, StatementOutcome};
use crate::parser::{
    fault_message, is_first_faulty, parse_message, reports, statement_fault, translates_to, ParsedStatement, SqlParser,
};
use crate::repository::{repository_message, RepositoryError, TableRepository};
use crate::table::Table;
use crate::value::data_type_label;

verus! {

/// Where the server listens.
#[derive(Debug)]
pub struct ServerConfig {
    pub port: u16,
}

impl Default for ServerConfig {
    fn default() -> (r: ServerConfig)
        ensures
            r.port == 8080,
    {
        ServerConfig { port: 8080 }
    }
}

/// One column as the table endpoint describes it.
#[derive(Debug)]
pub struct ColumnInfo {
    pub name: String,
    pub data_type: String,
    pub constraints: Vec<String>,
}

/// A table as the table endpoint describes it.
#[derive(Debug)]
pub struct TableInfoResponse {
    pub name: String,
    pub columns: Vec<ColumnInfo>,
}

impl ColumnInfo {
    pub fn from_column(c: &Column) -> (r: ColumnInfo)
        ensures
            r.name@ == c.name@,
            r.data_type@ == data_type_label(c.data_type),
            r.constraints@.len() == c.constraints@.len(),
            forall|i: int| 0 <= i < r.constraints@.len() ==> (#[trigger] r.constraints@[i])@ == constraint_text(c.constraints@[i]),
    {
        let mut constraints: Vec<String> = Vec::new();
        let mut i: usize = 0;
        while i < c.constraints.len()
            invariant
                i <= c.constraints@.len(),
                constraints@.len() == i,
                forall|j: int| 0 <= j < i ==> (#[trigger] constraints@[j])@ == constraint_text(c.constraints@[j]),
            decreases c.constraints@.len() - i,
        {
            constraints.push(c.constraints[i].text());
            i = i + 1;
        }
        ColumnInfo { name: c.name.clone(), data_type: c.data_type.name().to_string(), constraints }
    }
}

impl TableInfoResponse {
    pub fn from_table(t: &Table) -> (r: TableInfoResponse)
        ensures
            r.name@ == t.name@,
            r.columns@.len() == t.columns@.len(),
            forall|i: int| 0 <= i < r.columns@.len() ==> (#[trigger] r.columns@[i]).name@ == t.columns@[i].name@
                && r.columns@[i].data_type@ == data_type_label(t.columns@[i].data_type)
                && r.columns@[i].constraints@.len() == t.columns@[i].constraints@.len()
                && forall|k: int| 0 <= k < r.columns@[i].constraints@.len() ==> (#[trigger] r.columns@[i].constraints@[k])@
                    == constraint_text(t.columns@[i].constraints@[k]),
    {
        let mut columns: Vec<ColumnInfo> = Vec::new();
        let mut i: usize = 0;
        while i < t.columns.len()
            invariant
                i <= t.columns@.len(),
                columns@.len() == i,
                forall|j: int| 0 <= j < i ==> (#[trigger] columns@[j]).name@ == t.columns@[j].name@
                    && columns@[j].data_type@ == data_type_label(t.columns@[j].data_type)
                    && columns@[j].constraints@.len() == t.columns@[j].constraints@.len()
                    && forall|k: int| 0 <= k < columns@[j].constraints@.len() ==> (#[trigger] columns@[j].constraints@[k])@
                        == constraint_text(t.columns@[j].constraints@[k]),
            decreases t.columns@.len() - i,
        {
            columns.push(ColumnInfo::from_column(&t.columns[i]));
            i = i + 1;
        }
        TableInfoResponse { name: t.name.clone(), columns }
    }
}

impl ApiError {
    /// The HTTP status for the error: 404 for a missing table, 409 for a
    /// taken name, 500 for an internal error, 400 otherwise.
    pub fn status_code(&self) -> (r: u16)
        ensures
            r == match self {
                ApiError::Repository(RepositoryError::TableNotFound(_)) => 404u16,
                ApiError::Repository(RepositoryError::TableAlreadyExists(_)) => 409u16,
                ApiError::Internal(_) => 500u16,
                _ => 400u16,
            },
    {
        match self {
            ApiError::Repository(RepositoryError::TableNotFound(_)) => 404,
            ApiError::Repository(RepositoryError::TableAlreadyExists(_)) => 409,
            ApiError::Internal(_) => 500,
            _ => 400,
        }
    }

    /// The text the error response carries.
    pub fn message(&self) -> (r: String)
        ensures
            self matches ApiError::SqlSyntax(m) ==> r@ == m@,
            self matches ApiError::Repository(e) ==> r@ == repository_message(*e),
            self matches ApiError::UnsupportedSql(m) ==> r@ == m@,
            self matches ApiError::Internal(m) ==> r@ == m@,
    {
        match self {
            ApiError::SqlSyntax(m) => m.clone(),
            ApiError::Repository(e) => e.message(),
            ApiError::UnsupportedSql(m) => m.clone(),
            ApiError::Internal(m) => m.clone(),
        }
    }
}

/// The statement a SQL request runs: a translation failure is a syntax
/// error carrying the translator's message, no statement at all is a
/// syntax error, and otherwise it is the first statement, translated.
pub fn prepare_statement(statements: &Vec<SqlStatement>) -> (r: Result<ParsedStatement, ApiError>)
    ensures
        (exists|k: int| is_first_faulty(statements@, k)) ==> exists|k: int|
            is_first_faulty(statements@, k) && (r matches Err(ApiError::SqlSyntax(m)) && m@ == fault_message(
                statement_fault(statements@[k])->Some_0,
            )),
        statements@.len() == 0 ==> (r matches Err(ApiError::SqlSyntax(m)) && m@
            == "No SQL statement provided"@),
        statements@.len() > 0 && !(exists|k: int| is_first_faulty(statements@, k)) ==> (r matches Ok(p)
            && translates_to(p, statements@[0])),
{
    let parser = SqlParser::new();
    let mut parsed = match parser.translate(statements) {
        Ok(ps) => ps,
        Err(e) => {
            proof {
                let k = choose|k: int| is_first_faulty(statements@, k) && reports(e, statement_fault(statements@[k])->Some_0);
                assert(parse_message(e) == fault_message(statement_fault(statements@[k])->Some_0));
            }
            return Err(ApiError::SqlSyntax(e.message()));
        },
    };
    if parsed.len() == 0 {
        return Err(ApiError::SqlSyntax("No SQL statement provided".to_string()));
    }
    proof {
        if exists|k: int| is_first_faulty(statements@, k) {
            let k = choose|k: int| is_first_faulty(statements@, k);
            assert(statement_fault(statements@[k]) is Some);
        }
        assert(translates_to(parsed@[0], statements@[0]));
    }
    Ok(parsed.remove(0))
}

/// Handles one SQL request whose text was parsed into `statements`: the
/// statement `prepare_statement` gives runs against the repository.
pub fn run_statements<R: TableRepository>(repo: &mut R, statements: &Vec<SqlStatement>) -> (r: Result<
    StatementOutcome,
    ApiError,
>)
    ensures
        (exists|k: int| is_first_faulty(statements@, k)) ==> final(repo)@ == old(repo)@ && exists|k: int|
            is_first_faulty(statements@, k) && (r matches Err(ApiError::SqlSyntax(m)) && m@ == fault_message(
                statement_fault(statements@[k])->Some_0,
            )),
        statements@.len() == 0 ==> final(repo)@ == old(repo)@ && (r matches Err(ApiError::SqlSyntax(m))
            && m@ == "No SQL statement provided"@),
        statements@.len() > 0 && !(exists|k: int| is_first_faulty(statements@, k)) ==> exists|p: ParsedStatement|
            translates_to(p, statements@[0]) && executed(old(repo)@, final(repo)@, p, r),
{
    let statement = match prepare_statement(statements) {
        Ok(p) => p,
        Err(e) => {
            return Err(e);
        },
    };
    execute(repo, &statement)
}

} // verus!
