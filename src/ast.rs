//! The statement trees that the SQL tokenizer and grammar hand over: only
//! the shapes the translator reads, with everything else kept as `Other`
//! and a description of what it was.
use vstd::prelude::*;

verus! {

/// A literal as written.
#[derive(Debug)]
pub enum SqlValue {
    /// A numeric literal's text, and the 64-bit float it reads as (its
    /// IEEE-754 bits) where it reads as one.
    Number { text: String, float_bits: Option<u64> },
    SingleQuotedString(String),
    DoubleQuotedString(String),
    Boolean(bool),
    Null,
    Other(String),
}

#[derive(Debug)]
pub enum SqlBinaryOperator {
    And,
    Or,
    Eq,
    NotEq,
    Gt,
    GtEq,
    Lt,
    LtEq,
    Other(String),
}

#[derive(Debug)]
pub enum SqlExpr {
    Identifier(String),
    Value(SqlValue),
    BinaryOp { left: Box<SqlExpr>, op: SqlBinaryOperator, right: Box<SqlExpr> },
    Other(String),
}

#[derive(Debug)]
pub enum SqlDataType {
    Int,
    Integer,
    BigInt,
    Float,
    Double,
    Real,
    Char,
    Varchar,
    Text,
    Boolean,
    Timestamp,
    Date,
    Other(String),
}

#[derive(Debug)]
pub enum SqlColumnOption {
    NotNull,
    Unique { is_primary: bool },
    Default(SqlExpr),
    Other,
}

#[derive(Debug)]
pub struct SqlColumnDef {
    pub name: String,
    pub data_type: SqlDataType,
    pub options: Vec<SqlColumnOption>,
}

/// A table source: a (possibly qualified) table name, or anything else.
#[derive(Debug)]
pub enum SqlTableRef {
    Named(Vec<String>),
    Other,
}

/// One item of a SELECT list.
#[derive(Debug)]
pub enum SqlSelectItem {
    Wildcard,
    /// A bare column name, possibly with an alias.
    Column(String),
    Other,
}

#[derive(Debug)]
pub struct SqlSelect {
    pub from: Vec<SqlTableRef>,
    pub projection: Vec<SqlSelectItem>,
    pub selection: Option<SqlExpr>,
}

#[derive(Debug)]
pub enum SqlSetExpr {
    Select(SqlSelect),
    Values(Vec<Vec<SqlExpr>>),
    Other,
}

#[derive(Debug)]
pub struct SqlQuery {
    pub body: SqlSetExpr,
    pub limit: Option<SqlExpr>,
}

#[derive(Debug)]
pub struct SqlAssignment {
    pub id: Vec<String>,
    pub value: SqlExpr,
}

#[derive(Debug)]
pub enum SqlStatement {
    CreateTable { name: Vec<String>, columns: Vec<SqlColumnDef>, if_not_exists: bool },
    Query(SqlQuery),
    Insert { table_name: Vec<String>, columns: Vec<String>, source: SqlQuery },
    Update { table: SqlTableRef, assignments: Vec<SqlAssignment>, selection: Option<SqlExpr> },
    Delete { from: Vec<SqlTableRef>, selection: Option<SqlExpr> },
    Drop { is_table: bool, names: Vec<Vec<String>>, if_exists: bool },
    Other(String),
}

} // verus!
