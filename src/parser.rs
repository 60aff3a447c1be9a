//! Conversion of parsed SQL statement trees into what the store executes.
use vstd::prelude::*;

use crate::ast::{
    SqlAssignment, SqlBinaryOperator, SqlColumnDef, SqlColumnOption, SqlDataType, SqlExpr,
    SqlQuery, SqlSelectItem, SqlSetExpr, SqlStatement, SqlTableRef, SqlValue,
};
use crate::column::{
    first_default, lemma_first_default_after, lemma_first_default_push, lemma_without_defaults_has_none,
    without_defaults, Column, Constraint,
};
use crate::filter::{compare_holds, filter_holds, FilterCondition, FilterOperator};
use crate::numeric::{i64_of_text, parse_i64, parse_usize, usize_of_text};
use crate::storage::RowMap;
use crate::text::chars_of;
use crate::value::{DataType, Value};

verus! {

/// Errors in translating a statement.
#[derive(Debug, PartialEq)]
pub enum ParseError {
    SyntaxError(String),
    UnsupportedFeature(String),
    InvalidDataType(String),
    InvalidValue(String),
    InternalError(String),
}

/// The message of a translation error.
pub open spec fn parse_message(e: ParseError) -> Seq<char> {
    match e {
        ParseError::SyntaxError(m) => "SQL syntax error: "@ + m@,
        ParseError::UnsupportedFeature(m) => "Unsupported SQL feature: "@ + m@,
        ParseError::InvalidDataType(m) => "Invalid data type: "@ + m@,
        ParseError::InvalidValue(m) => "Invalid value: "@ + m@,
        ParseError::InternalError(m) => "Internal parser error: "@ + m@,
    }
}

/// The message of the error that reports a fault.
pub open spec fn fault_message(f: Fault) -> Seq<char> {
    match f {
        Fault::Unsupported(m) => "Unsupported SQL feature: "@ + m,
        Fault::Invalid(m) => "Invalid value: "@ + m,
        Fault::BadType(m) => "Invalid data type: "@ + m,
    }
}

impl ParseError {
    /// The error's message.
    pub fn message(&self) -> (r: String)
        ensures
            r@ == parse_message(*self),
    {
        let (prefix, m) = match self {
            ParseError::SyntaxError(m) => ("SQL syntax error: ", m),
            ParseError::UnsupportedFeature(m) => ("Unsupported SQL feature: ", m),
            ParseError::InvalidDataType(m) => ("Invalid data type: ", m),
            ParseError::InvalidValue(m) => ("Invalid value: ", m),
            ParseError::InternalError(m) => ("Internal parser error: ", m),
        };
        prefixed(prefix, m.as_str())
    }
}

/// Why a translation fails, as the kind of error and its message.
pub enum Fault {
    Unsupported(Seq<char>),
    Invalid(Seq<char>),
    BadType(Seq<char>),
}

/// `err` is the error that reports `f`.
pub open spec fn reports(err: ParseError, f: Fault) -> bool {
    match f {
        Fault::Unsupported(m) => err matches ParseError::UnsupportedFeature(x) && x@ == m,
        Fault::Invalid(m) => err matches ParseError::InvalidValue(x) && x@ == m,
        Fault::BadType(m) => err matches ParseError::InvalidDataType(x) && x@ == m,
    }
}

/// The value a literal stands for, where it stands for one. A number with a
/// `.` is a float, any other number a 64-bit integer.
pub open spec fn literal_value(v: SqlValue) -> Option<Value> {
    match v {
        SqlValue::Number { text, float_bits } => if text@.contains('.') {
            match float_bits {
                Some(b) => Some(Value::Float(b)),
                None => None,
            }
        } else {
            match i64_of_text(text@) {
                Some(i) => Some(Value::Integer(i)),
                None => None,
            }
        },
        SqlValue::SingleQuotedString(s) => Some(Value::Text(s)),
        SqlValue::DoubleQuotedString(s) => Some(Value::Text(s)),
        SqlValue::Boolean(b) => Some(Value::Boolean(b)),
        SqlValue::Null => Some(Value::Null),
        SqlValue::Other(_) => None,
    }
}

/// The message for a literal that stands for no value.
pub open spec fn literal_fault(v: SqlValue) -> Seq<char> {
    match v {
        SqlValue::Number { text, .. } => if text@.contains('.') {
            "Invalid float value: "@ + text@
        } else {
            "Invalid integer value: "@ + text@
        },
        SqlValue::Other(d) => "Unsupported value type: "@ + d@,
        _ => Seq::empty(),
    }
}

/// The filter operator of `column OP literal`.
pub open spec fn comparison_op(op: SqlBinaryOperator) -> Option<FilterOperator> {
    match op {
        SqlBinaryOperator::Eq => Some(FilterOperator::Equal),
        SqlBinaryOperator::NotEq => Some(FilterOperator::NotEqual),
        SqlBinaryOperator::Gt => Some(FilterOperator::Greater),
        SqlBinaryOperator::GtEq => Some(FilterOperator::GreaterOrEqual),
        SqlBinaryOperator::Lt => Some(FilterOperator::Less),
        SqlBinaryOperator::LtEq => Some(FilterOperator::LessOrEqual),
        _ => None,
    }
}

/// The filter operator of `literal OP column`, read as `column OP' literal`.
pub open spec fn mirrored_op(op: SqlBinaryOperator) -> Option<FilterOperator> {
    match op {
        SqlBinaryOperator::Eq => Some(FilterOperator::Equal),
        SqlBinaryOperator::NotEq => Some(FilterOperator::NotEqual),
        SqlBinaryOperator::Lt => Some(FilterOperator::Greater),
        SqlBinaryOperator::LtEq => Some(FilterOperator::GreaterOrEqual),
        SqlBinaryOperator::Gt => Some(FilterOperator::Less),
        SqlBinaryOperator::GtEq => Some(FilterOperator::LessOrEqual),
        _ => None,
    }
}

pub open spec fn operator_text(op: SqlBinaryOperator) -> Seq<char> {
    match op {
        SqlBinaryOperator::Other(d) => d@,
        _ => Seq::empty(),
    }
}

pub open spec fn is_and(op: SqlBinaryOperator) -> bool {
    op is And
}

pub open spec fn is_or(op: SqlBinaryOperator) -> bool {
    op is Or
}

/// The fault of a comparison leaf `column OP literal` (or mirrored), if any.
pub open spec fn leaf_fault(op: Option<FilterOperator>, raw: SqlBinaryOperator, v: SqlValue) -> Option<
    Fault,
> {
    match op {
        None => Some(Fault::Unsupported("Unsupported operator: "@ + operator_text(raw))),
        Some(_) => match literal_value(v) {
            Some(_) => None,
            None => Some(Fault::Invalid(literal_fault(v))),
        },
    }
}

/// Why a WHERE expression cannot become a filter: the first fault met
/// going left to right.
pub open spec fn expr_fault(e: SqlExpr) -> Option<Fault>
    decreases e,
{
    match e {
        SqlExpr::BinaryOp { left, op, right } => if is_and(op) || is_or(op) {
            match expr_fault(*left) {
                Some(f) => Some(f),
                None => expr_fault(*right),
            }
        } else {
            match (*left, *right) {
                (SqlExpr::Identifier(_), SqlExpr::Value(v)) => leaf_fault(comparison_op(op), op, v),
                (SqlExpr::Value(v), SqlExpr::Identifier(_)) => leaf_fault(mirrored_op(op), op, v),
                _ => Some(Fault::Unsupported("Complex conditions not supported"@)),
            }
        },
        _ => Some(Fault::Unsupported("Unsupported WHERE expression"@)),
    }
}

/// What a translatable WHERE expression says of a row.
pub open spec fn expr_holds(row: RowMap, e: SqlExpr) -> bool
    decreases e,
{
    match e {
        SqlExpr::BinaryOp { left, op, right } => if is_and(op) {
            expr_holds(row, *left) && expr_holds(row, *right)
        } else if is_or(op) {
            expr_holds(row, *left) || expr_holds(row, *right)
        } else {
            match (*left, *right) {
                (SqlExpr::Identifier(c), SqlExpr::Value(v)) => row.contains_key(c@) && compare_holds(
                    comparison_op(op)->Some_0,
                    row[c@],
                    literal_value(v)->Some_0,
                ),
                (SqlExpr::Value(v), SqlExpr::Identifier(c)) => row.contains_key(c@) && compare_holds(
                    mirrored_op(op)->Some_0,
                    row[c@],
                    literal_value(v)->Some_0,
                ),
                _ => false,
            }
        },
        _ => false,
    }
}

/// The children a conjunction contributes when spliced into another: its
/// own children, or the filter itself when it is no conjunction.
pub open spec fn and_parts(f: FilterCondition) -> Seq<FilterCondition> {
    match f {
        FilterCondition::And(cs) => cs@,
        _ => seq![f],
    }
}

/// The children a disjunction contributes when spliced into another.
pub open spec fn or_parts(f: FilterCondition) -> Seq<FilterCondition> {
    match f {
        FilterCondition::Or(cs) => cs@,
        _ => seq![f],
    }
}

/// `f` is the filter tree a fault-free WHERE expression gives: `l AND r`
/// is the conjunction of the parts of `l`'s tree followed by the parts of
/// `r`'s tree (and likewise for OR); `column OP literal` is the leaf with
/// that column, operator and value, and `literal OP column` the leaf with
/// the operator mirrored.
pub open spec fn is_tree_of(f: FilterCondition, e: SqlExpr) -> bool
    decreases e,
{
    match e {
        SqlExpr::BinaryOp { left, op, right } => if is_and(op) {
            f is And && exists|l: FilterCondition, r: FilterCondition|
                #![trigger and_parts(l), and_parts(r)]
                is_tree_of(l, *left) && is_tree_of(r, *right) && f->And_0@ == and_parts(l) + and_parts(r)
        } else if is_or(op) {
            f is Or && exists|l: FilterCondition, r: FilterCondition|
                #![trigger or_parts(l), or_parts(r)]
                is_tree_of(l, *left) && is_tree_of(r, *right) && f->Or_0@ == or_parts(l) + or_parts(r)
        } else {
            match (*left, *right) {
                (SqlExpr::Identifier(c), SqlExpr::Value(v)) => f == FilterCondition::Simple {
                    column: c,
                    operator: comparison_op(op)->Some_0,
                    value: literal_value(v)->Some_0,
                },
                (SqlExpr::Value(v), SqlExpr::Identifier(c)) => f == FilterCondition::Simple {
                    column: c,
                    operator: mirrored_op(op)->Some_0,
                    value: literal_value(v)->Some_0,
                },
                _ => false,
            }
        },
        _ => false,
    }
}

/// A conjunction none of whose children is a conjunction.
pub open spec fn flat_and(f: FilterCondition) -> bool {
    f matches FilterCondition::And(cs) && forall|i: int| 0 <= i < cs@.len() ==> !(#[trigger] cs@[i] is And)
}

/// A disjunction none of whose children is a disjunction.
pub open spec fn flat_or(f: FilterCondition) -> bool {
    f matches FilterCondition::Or(cs) && forall|i: int| 0 <= i < cs@.len() ==> !(#[trigger] cs@[i] is Or)
}

/// The first of two possible faults.
pub open spec fn either(a: Option<Fault>, b: Option<Fault>) -> Option<Fault> {
    match a {
        Some(f) => Some(f),
        None => b,
    }
}

pub open spec fn name_fault(name: Seq<String>) -> Option<Fault> {
    if name.len() != 1 {
        Some(Fault::Unsupported("Schema qualified names not supported"@))
    } else {
        None
    }
}

pub open spec fn table_ref_fault(t: SqlTableRef) -> Option<Fault> {
    match t {
        SqlTableRef::Named(n) => name_fault(n@),
        SqlTableRef::Other => Some(Fault::Unsupported("Complex table sources not supported"@)),
    }
}

/// The table a single-name table source names.
pub open spec fn table_ref_name(t: SqlTableRef) -> Seq<char> {
    match t {
        SqlTableRef::Named(n) => n@[0]@,
        SqlTableRef::Other => Seq::empty(),
    }
}

/// The store type of a column type.
pub open spec fn sql_data_type(dt: SqlDataType) -> Option<DataType> {
    match dt {
        SqlDataType::Int | SqlDataType::Integer | SqlDataType::BigInt => Some(DataType::Integer),
        SqlDataType::Float | SqlDataType::Double | SqlDataType::Real => Some(DataType::Float),
        SqlDataType::Char | SqlDataType::Varchar | SqlDataType::Text => Some(DataType::Text),
        SqlDataType::Boolean => Some(DataType::Boolean),
        SqlDataType::Timestamp | SqlDataType::Date => Some(DataType::Timestamp),
        SqlDataType::Other(_) => None,
    }
}

pub open spec fn data_type_fault(dt: SqlDataType) -> Option<Fault> {
    match dt {
        SqlDataType::Other(d) => Some(Fault::BadType("Unsupported data type: "@ + d@)),
        _ => None,
    }
}

pub open spec fn option_fault(o: SqlColumnOption) -> Option<Fault> {
    match o {
        SqlColumnOption::Default(e) => match e {
            SqlExpr::Value(v) => match v {
                SqlValue::Other(d) => Some(Fault::Invalid("Unsupported value type: "@ + d@)),
                _ => None,
            },
            _ => Some(Fault::Unsupported("Complex default expressions not supported"@)),
        },
        _ => None,
    }
}

pub open spec fn options_fault(os: Seq<SqlColumnOption>) -> Option<Fault>
    decreases os.len(),
{
    if os.len() == 0 {
        None
    } else {
        either(option_fault(os[0]), options_fault(os.drop_first()))
    }
}

pub open spec fn column_def_fault(d: SqlColumnDef) -> Option<Fault> {
    either(data_type_fault(d.data_type), options_fault(d.options@))
}

pub open spec fn defs_fault(ds: Seq<SqlColumnDef>) -> Option<Fault>
    decreases ds.len(),
{
    if ds.len() == 0 {
        None
    } else {
        either(column_def_fault(ds[0]), defs_fault(ds.drop_first()))
    }
}

pub open spec fn is_primary_option(o: SqlColumnOption) -> bool {
    o matches SqlColumnOption::Unique { is_primary } && is_primary
}

pub open spec fn is_unique_option(o: SqlColumnOption) -> bool {
    o matches SqlColumnOption::Unique { is_primary } && !is_primary
}

pub open spec fn is_not_null_option(o: SqlColumnOption) -> bool {
    o is NotNull || is_primary_option(o)
}

/// The text a literal is kept as in a DEFAULT.
pub open spec fn literal_text(v: SqlValue) -> Seq<char> {
    match v {
        SqlValue::Number { text, .. } => text@,
        SqlValue::SingleQuotedString(s) => s@,
        SqlValue::DoubleQuotedString(s) => s@,
        SqlValue::Boolean(b) => if b {
            "true"@
        } else {
            "false"@
        },
        SqlValue::Null => "NULL"@,
        SqlValue::Other(_) => Seq::empty(),
    }
}

/// The DEFAULT that a list of column options leaves: the text of the last
/// literal DEFAULT, which replaces any before it.
pub open spec fn last_default(os: Seq<SqlColumnOption>) -> Option<Seq<char>>
    decreases os.len(),
{
    if os.len() == 0 {
        None
    } else {
        match os.last() {
            SqlColumnOption::Default(SqlExpr::Value(v)) => Some(literal_text(v)),
            _ => last_default(os.drop_last()),
        }
    }
}

/// The column a definition gives: its name and type, its flags as its
/// options set them, and the DEFAULT it keeps.
pub open spec fn column_from_def(c: Column, d: SqlColumnDef) -> bool {
    &&& c.name@ == d.name@
    &&& sql_data_type(d.data_type) == Some(c.data_type)
    &&& c.spec_is_primary_key() == exists|j: int| 0 <= j < d.options@.len() && is_primary_option(#[trigger] d.options@[j])
    &&& c.spec_is_unique() == exists|j: int| 0 <= j < d.options@.len() && is_unique_option(#[trigger] d.options@[j])
    &&& c.spec_is_not_null() == exists|j: int| 0 <= j < d.options@.len() && is_not_null_option(#[trigger] d.options@[j])
    &&& first_default(c.constraints@) == last_default(d.options@)
}

pub open spec fn selection_fault(sel: Option<SqlExpr>) -> Option<Fault> {
    match sel {
        Some(e) => expr_fault(e),
        None => None,
    }
}

/// A translated WHERE clause: none for none, else a filter that holds of
/// exactly the rows the expression holds of.
pub open spec fn filter_translates(f: Option<FilterCondition>, sel: Option<SqlExpr>) -> bool {
    match sel {
        None => f is None,
        Some(e) => f matches Some(fc) && is_tree_of(fc, e) && forall|row: RowMap| #[trigger] filter_holds(row, fc) == expr_holds(row, e),
    }
}

pub open spec fn has_wildcard(items: Seq<SqlSelectItem>) -> bool {
    exists|i: int| 0 <= i < items.len() && #[trigger] items[i] is Wildcard
}

pub open spec fn projection_fault(items: Seq<SqlSelectItem>) -> Option<Fault> {
    if !has_wildcard(items) && exists|i: int| 0 <= i < items.len() && #[trigger] items[i] is Other {
        Some(Fault::Unsupported("Complex SELECT expressions not supported"@))
    } else {
        None
    }
}

/// The row limit a LIMIT clause gives: a number literal that reads as one.
pub open spec fn limit_of(limit: Option<SqlExpr>) -> Option<usize> {
    match limit {
        Some(SqlExpr::Value(SqlValue::Number { text, .. })) => usize_of_text(text@),
        _ => None,
    }
}

pub open spec fn select_fault(q: SqlQuery) -> Option<Fault> {
    match q.body {
        SqlSetExpr::Select(sel) => if sel.from@.len() != 1 {
            Some(Fault::Unsupported("Joins are not supported yet"@))
        } else {
            either(
                table_ref_fault(sel.from@[0]),
                either(projection_fault(sel.projection@), selection_fault(sel.selection)),
            )
        },
        _ => Some(Fault::Unsupported("Only simple SELECT queries are supported"@)),
    }
}

pub open spec fn select_translates(st: SelectStatement, q: SqlQuery) -> bool {
    let sel = q.body->Select_0;
    &&& st.table_name@ == table_ref_name(sel.from@[0])
    &&& (has_wildcard(sel.projection@) ==> st.columns is None)
    &&& (!has_wildcard(sel.projection@) ==> (st.columns matches Some(names) && names@.len()
        == sel.projection@.len() && forall|i: int|
        0 <= i < names@.len() ==> #[trigger] names@[i]@ == sel.projection@[i]->Column_0@))
    &&& filter_translates(st.filter, sel.selection)
    &&& st.limit == limit_of(q.limit)
}

/// The fault of one literal of a VALUES list or of an assignment.
pub open spec fn literal_expr_fault(e: SqlExpr, complex: Seq<char>) -> Option<Fault> {
    match e {
        SqlExpr::Value(v) => match literal_value(v) {
            Some(_) => None,
            None => Some(Fault::Invalid(literal_fault(v))),
        },
        _ => Some(Fault::Unsupported(complex)),
    }
}

pub open spec fn tuple_fault(es: Seq<SqlExpr>) -> Option<Fault>
    decreases es.len(),
{
    if es.len() == 0 {
        None
    } else {
        either(
            literal_expr_fault(es[0], "Complex INSERT expressions not supported"@),
            tuple_fault(es.drop_first()),
        )
    }
}

pub open spec fn tuples_fault(rows: Seq<Vec<SqlExpr>>) -> Option<Fault>
    decreases rows.len(),
{
    if rows.len() == 0 {
        None
    } else {
        either(tuple_fault(rows[0]@), tuples_fault(rows.drop_first()))
    }
}

pub open spec fn insert_fault(table_name: Seq<String>, source: SqlQuery) -> Option<Fault> {
    match source.body {
        SqlSetExpr::Values(rows) => either(name_fault(table_name), tuples_fault(rows@)),
        _ => Some(Fault::Unsupported("Only VALUES in INSERT are supported"@)),
    }
}

pub open spec fn insert_translates(
    st: InsertStatement,
    table_name: Seq<String>,
    columns: Seq<String>,
    source: SqlQuery,
) -> bool {
    let rows = source.body->Values_0@;
    &&& st.table_name@ == table_name[0]@
    &&& st.columns@.len() == columns.len()
    &&& (forall|i: int| 0 <= i < columns.len() ==> #[trigger] st.columns@[i]@ == columns[i]@)
    &&& st.values@.len() == rows.len()
    &&& forall|i: int|
        0 <= i < rows.len() ==> (#[trigger] st.values@[i])@.len() == rows[i]@.len() && forall|j: int|
            0 <= j < rows[i]@.len() ==> #[trigger] st.values@[i]@[j] == literal_value(
                rows[i]@[j]->Value_0,
            )->Some_0
}

pub open spec fn assignment_fault(a: SqlAssignment) -> Option<Fault> {
    if a.id@.len() != 1 {
        Some(Fault::Unsupported("Compound column identifiers not supported"@))
    } else {
        literal_expr_fault(a.value, "Complex UPDATE expressions not supported"@)
    }
}

pub open spec fn assignments_fault(s: Seq<SqlAssignment>) -> Option<Fault>
    decreases s.len(),
{
    if s.len() == 0 {
        None
    } else {
        either(assignment_fault(s[0]), assignments_fault(s.drop_first()))
    }
}

pub open spec fn update_translates(
    st: UpdateStatement,
    table: SqlTableRef,
    assignments: Seq<SqlAssignment>,
    selection: Option<SqlExpr>,
) -> bool {
    &&& st.table_name@ == table_ref_name(table)
    &&& st.updates@.len() == assignments.len()
    &&& (forall|k: int|
        0 <= k < assignments.len() ==> (#[trigger] st.updates@[k]).0@ == assignments[k].id@[0]@
            && st.updates@[k].1 == literal_value(assignments[k].value->Value_0)->Some_0)
    &&& filter_translates(st.filter, selection)
}

/// Why a statement cannot be translated, if it cannot.
pub open spec fn statement_fault(s: SqlStatement) -> Option<Fault> {
    match s {
        SqlStatement::CreateTable { name, columns, .. } => either(name_fault(name@), defs_fault(columns@)),
        SqlStatement::Query(q) => select_fault(q),
        SqlStatement::Insert { table_name, source, .. } => insert_fault(table_name@, source),
        SqlStatement::Update { table, assignments, selection } => either(
            table_ref_fault(table),
            either(assignments_fault(assignments@), selection_fault(selection)),
        ),
        SqlStatement::Delete { from, selection } => if from@.len() != 1 {
            Some(Fault::Unsupported("Multiple table delete not supported"@))
        } else {
            either(table_ref_fault(from@[0]), selection_fault(selection))
        },
        SqlStatement::Drop { is_table, names, .. } => if !is_table {
            Some(Fault::Unsupported("Only DROP TABLE is supported"@))
        } else if names@.len() != 1 {
            Some(Fault::Unsupported("Multiple table drop not supported"@))
        } else {
            name_fault(names@[0]@)
        },
        SqlStatement::Other(_) => Some(Fault::Unsupported("Unsupported SQL statement type"@)),
    }
}

/// `k` is the first statement of `ss` that cannot be translated.
pub open spec fn is_first_faulty(ss: Seq<SqlStatement>, k: int) -> bool {
    &&& 0 <= k < ss.len()
    &&& statement_fault(ss[k]) is Some
    &&& forall|j: int| 0 <= j < k ==> #[trigger] statement_fault(ss[j]) is None
}

/// `p` is what the fault-free statement `s` translates to.
pub open spec fn translates_to(p: ParsedStatement, s: SqlStatement) -> bool {
    match s {
        SqlStatement::CreateTable { name, columns, if_not_exists } => p matches ParsedStatement::CreateTable(st)
            && st.table_name@ == name@[0]@ && st.if_not_exists == if_not_exists
            && st.columns@.len() == columns@.len() && forall|k: int|
            0 <= k < columns@.len() ==> column_from_def(#[trigger] st.columns@[k], columns@[k]),
        SqlStatement::Query(q) => p matches ParsedStatement::Select(st) && select_translates(st, q),
        SqlStatement::Insert { table_name, columns, source } => p matches ParsedStatement::Insert(st)
            && insert_translates(st, table_name@, columns@, source),
        SqlStatement::Update { table, assignments, selection } => p matches ParsedStatement::Update(
            st,
        ) && update_translates(st, table, assignments@, selection),
        SqlStatement::Delete { from, selection } => p matches ParsedStatement::Delete(st)
            && st.table_name@ == table_ref_name(from@[0]) && filter_translates(st.filter, selection),
        SqlStatement::Drop { names, if_exists, .. } => p matches ParsedStatement::DropTable(st)
            && st.table_name@ == names@[0]@[0]@ && st.if_exists == if_exists,
        SqlStatement::Other(_) => false,
    }
}

/// Whether `s` holds the character `c`.
fn has_char(s: &str, c: char) -> (r: bool)
    ensures
        r == s@.contains(c),
{
    let v = chars_of(s);
    let mut i: usize = 0;
    while i < v.len()
        invariant
            v@ == s@,
            i <= v@.len(),
            forall|j: int| 0 <= j < i ==> v@[j] != c,
        decreases v@.len() - i,
    {
        if v[i] == c {
            assert(s@[i as int] == c);
            return true;
        }
        i = i + 1;
    }
    false
}

/// Pushing onto a constraint list adds exactly the pushed constraint.
proof fn lemma_push_contains(s: Seq<Constraint>)
    ensures
        forall|x: Constraint, y: Constraint| #[trigger] s.push(x).contains(y) == (s.contains(y) || x == y),
{
    assert forall|x: Constraint, y: Constraint| #[trigger] s.push(x).contains(y) == (s.contains(y) || x == y) by {
        if s.contains(y) {
            let i = choose|i: int| 0 <= i < s.len() && s[i] == y;
            assert(s.push(x)[i] == y);
        }
        if x == y {
            assert(s.push(x)[s.len() as int] == y);
        }
        if s.push(x).contains(y) {
            let i = choose|i: int| 0 <= i < s.len() + 1 && s.push(x)[i] == y;
            if i < s.len() {
                assert(s[i] == y);
            }
        }
    }
}

/// Dropping the DEFAULT constraints keeps every other constraint.
proof fn lemma_without_defaults_keeps(s: Seq<Constraint>, c: Constraint)
    requires
        !(c is Default),
    ensures
        without_defaults(s).contains(c) == s.contains(c),
    decreases s.len(),
{
    if s.len() > 0 {
        lemma_without_defaults_keeps(s.drop_last(), c);
        lemma_push_contains(s.drop_last());
        lemma_push_contains(without_defaults(s.drop_last()));
        assert(s == s.drop_last().push(s.last()));
    }
}

/// A conjunction holds of a row exactly when both halves of its children do.
proof fn lemma_and_concat(row: RowMap, a: Seq<FilterCondition>, b: Seq<FilterCondition>, v: Vec<FilterCondition>)
    requires
        v@ == a + b,
    ensures
        filter_holds(row, FilterCondition::And(v)) == ((forall|i: int| 0 <= i < a.len() ==> filter_holds(row, #[trigger] a[i])) && (forall|i: int| 0 <= i < b.len() ==> filter_holds(row, #[trigger] b[i]))),
{
    let f = FilterCondition::And(v);
    assert(f->And_0 == v);
    if filter_holds(row, f) {
        assert forall|i: int| 0 <= i < a.len() implies filter_holds(row, #[trigger] a[i]) by {
            assert(v@[i] == a[i]);
        }
        assert forall|i: int| 0 <= i < b.len() implies filter_holds(row, #[trigger] b[i]) by {
            assert(v@[a.len() + i] == b[i]);
        }
    }
    if (forall|i: int| 0 <= i < a.len() ==> filter_holds(row, #[trigger] a[i])) && (forall|i: int| 0 <= i < b.len() ==> filter_holds(row, #[trigger] b[i])) {
        assert forall|i: int| 0 <= i < v@.len() implies filter_holds(row, #[trigger] v@[i]) by {
            if i < a.len() {
                assert(v@[i] == a[i]);
            } else {
                assert(v@[i] == b[i - a.len()]);
            }
        }
    }
}

/// A disjunction holds of a row exactly when one of its children in either
/// half does.
proof fn lemma_or_concat(row: RowMap, a: Seq<FilterCondition>, b: Seq<FilterCondition>, v: Vec<FilterCondition>)
    requires
        v@ == a + b,
    ensures
        filter_holds(row, FilterCondition::Or(v)) == ((exists|i: int| 0 <= i < a.len() && filter_holds(row, #[trigger] a[i])) || (exists|i: int| 0 <= i < b.len() && filter_holds(row, #[trigger] b[i]))),
{
    let f = FilterCondition::Or(v);
    assert(f->Or_0 == v);
    if filter_holds(row, f) {
        let i = choose|i: int| 0 <= i < v@.len() && filter_holds(row, #[trigger] v@[i]);
        if i < a.len() {
            assert(v@[i] == a[i]);
        } else {
            assert(v@[i] == b[i - a.len()]);
        }
    }
    if exists|i: int| 0 <= i < a.len() && filter_holds(row, #[trigger] a[i]) {
        let i = choose|i: int| 0 <= i < a.len() && filter_holds(row, #[trigger] a[i]);
        assert(v@[i] == a[i]);
    }
    if exists|i: int| 0 <= i < b.len() && filter_holds(row, #[trigger] b[i]) {
        let i = choose|i: int| 0 <= i < b.len() && filter_holds(row, #[trigger] b[i]);
        assert(v@[a.len() + i] == b[i]);
    }
}

/// A CREATE TABLE, translated.
#[derive(Debug)]
pub struct CreateTableStatement {
    pub table_name: String,
    pub columns: Vec<Column>,
    pub if_not_exists: bool,
}

/// A SELECT, translated. No columns means every column.
#[derive(Debug)]
pub struct SelectStatement {
    pub table_name: String,
    pub columns: Option<Vec<String>>,
    pub filter: Option<FilterCondition>,
    pub limit: Option<usize>,
}

/// An INSERT, translated: the named columns and one value list per row.
#[derive(Debug)]
pub struct InsertStatement {
    pub table_name: String,
    pub columns: Vec<String>,
    pub values: Vec<Vec<Value>>,
}

/// An UPDATE, translated.
#[derive(Debug)]
pub struct UpdateStatement {
    pub table_name: String,
    pub updates: Vec<(String, Value)>,
    pub filter: Option<FilterCondition>,
}

/// A DELETE, translated.
#[derive(Debug)]
pub struct DeleteStatement {
    pub table_name: String,
    pub filter: Option<FilterCondition>,
}

/// A DROP TABLE, translated.
#[derive(Debug)]
pub struct DropTableStatement {
    pub table_name: String,
    pub if_exists: bool,
}

/// A translated statement.
#[derive(Debug)]
pub enum ParsedStatement {
    CreateTable(CreateTableStatement),
    Select(SelectStatement),
    Insert(InsertStatement),
    Update(UpdateStatement),
    Delete(DeleteStatement),
    DropTable(DropTableStatement),
}

/// The translator from statement trees to store instructions.
#[derive(Debug)]
pub struct SqlParser {}

impl Default for SqlParser {
    fn default() -> (r: SqlParser) {
        SqlParser::new()
    }
}

fn unsupported(message: &str) -> (r: ParseError)
    ensures
        r matches ParseError::UnsupportedFeature(m) && m@ == message@,
{
    ParseError::UnsupportedFeature(message.to_string())
}

fn prefixed(prefix: &str, text: &str) -> (r: String)
    ensures
        r@ == prefix@ + text@,
{
    let mut m = prefix.to_string();
    m.append(text);
    m
}

impl SqlParser {
    pub fn new() -> (r: SqlParser) {
        SqlParser {  }
    }

    /// The value a literal stands for.
    pub fn sql_value_to_value(&self, value: &SqlValue) -> (r: Result<Value, ParseError>)
        ensures
            literal_value(*value) matches Some(v) ==> r == Ok::<Value, ParseError>(v),
            literal_value(*value) is None ==> (r matches Err(ParseError::InvalidValue(m)) && m@
                == literal_fault(*value)),
    {
        match value {
            SqlValue::Number { text, float_bits } => {
                if has_char(text.as_str(), '.') {
                    match float_bits {
                        Some(b) => Ok(Value::Float(*b)),
                        None => Err(
                            ParseError::InvalidValue(prefixed("Invalid float value: ", text.as_str())),
                        ),
                    }
                } else {
                    match parse_i64(text.as_str()) {
                        Some(i) => Ok(Value::Integer(i)),
                        None => Err(
                            ParseError::InvalidValue(
                                prefixed("Invalid integer value: ", text.as_str()),
                            ),
                        ),
                    }
                }
            },
            SqlValue::SingleQuotedString(s) => Ok(Value::Text(s.clone())),
            SqlValue::DoubleQuotedString(s) => Ok(Value::Text(s.clone())),
            SqlValue::Boolean(b) => Ok(Value::Boolean(*b)),
            SqlValue::Null => Ok(Value::Null),
            SqlValue::Other(d) => Err(
                ParseError::InvalidValue(prefixed("Unsupported value type: ", d.as_str())),
            ),
        }
    }

    /// The text of a literal, as a DEFAULT keeps it.
    pub fn sql_value_to_string(&self, value: &SqlValue) -> (r: Result<String, ParseError>)
        ensures
            value matches SqlValue::Number { text, .. } ==> (r matches Ok(t) && t@ == text@),
            value matches SqlValue::SingleQuotedString(s) ==> (r matches Ok(t) && t@ == s@),
            value matches SqlValue::DoubleQuotedString(s) ==> (r matches Ok(t) && t@ == s@),
            value matches SqlValue::Boolean(b) ==> (r matches Ok(t) && t@ == if *b {
                "true"@
            } else {
                "false"@
            }),
            value is Null ==> (r matches Ok(t) && t@ == "NULL"@),
            r matches Ok(t) ==> t@ == literal_text(*value),
            value matches SqlValue::Other(d) ==> (r matches Err(ParseError::InvalidValue(m)) && m@
                == "Unsupported value type: "@ + d@),
    {
        match value {
            SqlValue::Number { text, .. } => Ok(text.clone()),
            SqlValue::SingleQuotedString(s) => Ok(s.clone()),
            SqlValue::DoubleQuotedString(s) => Ok(s.clone()),
            SqlValue::Boolean(b) => {
                if *b {
                    Ok("true".to_string())
                } else {
                    Ok("false".to_string())
                }
            },
            SqlValue::Null => Ok("NULL".to_string()),
            SqlValue::Other(d) => Err(
                ParseError::InvalidValue(prefixed("Unsupported value type: ", d.as_str())),
            ),
        }
    }

    /// `l AND r`, spliced into one conjunction where either side is one.
    fn merge_and(l: FilterCondition, r: FilterCondition) -> (m: FilterCondition)
        requires
            l is And ==> flat_and(l),
            r is And ==> flat_and(r),
        ensures
            flat_and(m),
            m->And_0@ == and_parts(l) + and_parts(r),
            forall|row: RowMap| #[trigger] filter_holds(row, m) == (filter_holds(row, l) && filter_holds(row, r)),
    {
        let ghost gl = l;
        let ghost gr = r;
        match l {
            FilterCondition::And(lc) => {
                let mut lc = lc;
                let ghost a = lc@;
                match r {
                    FilterCondition::And(rc) => {
                        let mut rc = rc;
                        let ghost b = rc@;
                        lc.append(&mut rc);
                        proof {
                            assert forall|row: RowMap| #[trigger] filter_holds(row, FilterCondition::And(lc)) == (filter_holds(row, gl) && filter_holds(row, gr)) by {
                                lemma_and_concat(row, a, b, lc);
                                assert(gl->And_0@ == a);
                                assert(gr->And_0@ == b);
                            }
                            assert forall|i: int| 0 <= i < lc@.len() implies !(#[trigger] lc@[i] is And) by {
                                if i < a.len() {
                                    assert(lc@[i] == gl->And_0@[i]);
                                } else {
                                    assert(lc@[i] == gr->And_0@[i - a.len()]);
                                }
                            }
                        }
                        FilterCondition::And(lc)
                    },
                    other => {
                        lc.push(other);
                        proof {
                            assert(lc@ =~= a + seq![gr]);
                            assert forall|row: RowMap| #[trigger] filter_holds(row, FilterCondition::And(lc)) == (filter_holds(row, gl) && filter_holds(row, gr)) by {
                                lemma_and_concat(row, a, seq![gr], lc);
                                assert(gl->And_0@ == a);
                                assert(seq![gr][0] == gr);
                            }
                            assert forall|i: int| 0 <= i < lc@.len() implies !(#[trigger] lc@[i] is And) by {
                                if i < a.len() {
                                    assert(lc@[i] == gl->And_0@[i]);
                                }
                            }
                        }
                        FilterCondition::And(lc)
                    },
                }
            },
            first => match r {
                FilterCondition::And(rc) => {
                    let mut rc = rc;
                    let ghost b = rc@;
                    rc.insert(0, first);
                    proof {
                        assert(rc@ =~= seq![gl] + b);
                        assert forall|row: RowMap| #[trigger] filter_holds(row, FilterCondition::And(rc)) == (filter_holds(row, gl) && filter_holds(row, gr)) by {
                            lemma_and_concat(row, seq![gl], b, rc);
                            assert(gr->And_0@ == b);
                            assert(seq![gl][0] == gl);
                        }
                        assert forall|i: int| 0 <= i < rc@.len() implies !(#[trigger] rc@[i] is And) by {
                            if i > 0 {
                                assert(rc@[i] == gr->And_0@[i - 1]);
                            }
                        }
                    }
                    FilterCondition::And(rc)
                },
                second => {
                    let v = vec![first, second];
                    proof {
                        assert(v@ =~= seq![gl] + seq![gr]);
                        assert forall|row: RowMap| #[trigger] filter_holds(row, FilterCondition::And(v)) == (filter_holds(row, gl) && filter_holds(row, gr)) by {
                            lemma_and_concat(row, seq![gl], seq![gr], v);
                            assert(seq![gl][0] == gl);
                            assert(seq![gr][0] == gr);
                        }
                    }
                    FilterCondition::And(v)
                },
            },
        }
    }

    /// `l OR r`, spliced into one disjunction where either side is one.
    fn merge_or(l: FilterCondition, r: FilterCondition) -> (m: FilterCondition)
        requires
            l is Or ==> flat_or(l),
            r is Or ==> flat_or(r),
        ensures
            flat_or(m),
            m->Or_0@ == or_parts(l) + or_parts(r),
            forall|row: RowMap| #[trigger] filter_holds(row, m) == (filter_holds(row, l) || filter_holds(row, r)),
    {
        let ghost gl = l;
        let ghost gr = r;
        match l {
            FilterCondition::Or(lc) => {
                let mut lc = lc;
                let ghost a = lc@;
                match r {
                    FilterCondition::Or(rc) => {
                        let mut rc = rc;
                        let ghost b = rc@;
                        lc.append(&mut rc);
                        proof {
                            assert forall|row: RowMap| #[trigger] filter_holds(row, FilterCondition::Or(lc)) == (filter_holds(row, gl) || filter_holds(row, gr)) by {
                                lemma_or_concat(row, a, b, lc);
                                assert(gl->Or_0@ == a);
                                assert(gr->Or_0@ == b);
                            }
                            assert forall|i: int| 0 <= i < lc@.len() implies !(#[trigger] lc@[i] is Or) by {
                                if i < a.len() {
                                    assert(lc@[i] == gl->Or_0@[i]);
                                } else {
                                    assert(lc@[i] == gr->Or_0@[i - a.len()]);
                                }
                            }
                        }
                        FilterCondition::Or(lc)
                    },
                    other => {
                        lc.push(other);
                        proof {
                            assert(lc@ =~= a + seq![gr]);
                            assert forall|row: RowMap| #[trigger] filter_holds(row, FilterCondition::Or(lc)) == (filter_holds(row, gl) || filter_holds(row, gr)) by {
                                lemma_or_concat(row, a, seq![gr], lc);
                                assert(gl->Or_0@ == a);
                                assert(seq![gr][0] == gr);
                            }
                            assert forall|i: int| 0 <= i < lc@.len() implies !(#[trigger] lc@[i] is Or) by {
                                if i < a.len() {
                                    assert(lc@[i] == gl->Or_0@[i]);
                                }
                            }
                        }
                        FilterCondition::Or(lc)
                    },
                }
            },
            first => match r {
                FilterCondition::Or(rc) => {
                    let mut rc = rc;
                    let ghost b = rc@;
                    rc.insert(0, first);
                    proof {
                        assert(rc@ =~= seq![gl] + b);
                        assert forall|row: RowMap| #[trigger] filter_holds(row, FilterCondition::Or(rc)) == (filter_holds(row, gl) || filter_holds(row, gr)) by {
                            lemma_or_concat(row, seq![gl], b, rc);
                            assert(gr->Or_0@ == b);
                            assert(seq![gl][0] == gl);
                        }
                        assert forall|i: int| 0 <= i < rc@.len() implies !(#[trigger] rc@[i] is Or) by {
                            if i > 0 {
                                assert(rc@[i] == gr->Or_0@[i - 1]);
                            }
                        }
                    }
                    FilterCondition::Or(rc)
                },
                second => {
                    let v = vec![first, second];
                    proof {
                        assert(v@ =~= seq![gl] + seq![gr]);
                        assert forall|row: RowMap| #[trigger] filter_holds(row, FilterCondition::Or(v)) == (filter_holds(row, gl) || filter_holds(row, gr)) by {
                            lemma_or_concat(row, seq![gl], seq![gr], v);
                            assert(seq![gl][0] == gl);
                            assert(seq![gr][0] == gr);
                        }
                    }
                    FilterCondition::Or(v)
                },
            },
        }
    }

    /// `column OP literal`, or `literal OP column` read with the operator
    /// mirrored.
    fn parse_comparison(&self, left: &SqlExpr, op: &SqlBinaryOperator, right: &SqlExpr) -> (r: Result<
        FilterCondition,
        ParseError,
    >)
        requires
            !is_and(*op) && !is_or(*op),
        ensures
            ({
                let e = SqlExpr::BinaryOp { left: Box::new(*left), op: *op, right: Box::new(*right) };
                &&& expr_fault(e) matches Some(f) ==> (r matches Err(err) && reports(err, f))
                &&& expr_fault(e) is None ==> (r matches Ok(fc) && fc is Simple && is_tree_of(fc, e) && forall|row: RowMap| #[trigger] filter_holds(row, fc) == expr_holds(row, e))
            }),
    {
        match left {
            SqlExpr::Identifier(ident) => match right {
                SqlExpr::Value(v) => {
                    let operator = match op {
                        SqlBinaryOperator::Eq => FilterOperator::Equal,
                        SqlBinaryOperator::NotEq => FilterOperator::NotEqual,
                        SqlBinaryOperator::Gt => FilterOperator::Greater,
                        SqlBinaryOperator::GtEq => FilterOperator::GreaterOrEqual,
                        SqlBinaryOperator::Lt => FilterOperator::Less,
                        SqlBinaryOperator::LtEq => FilterOperator::LessOrEqual,
                        SqlBinaryOperator::Other(d) => {
                            return Err(
                                ParseError::UnsupportedFeature(
                                    prefixed("Unsupported operator: ", d.as_str()),
                                ),
                            );
                        },
                        _ => {
                            return Err(unsupported("Unsupported operator: "));
                        },
                    };
                    let value = match self.sql_value_to_value(v) {
                        Ok(x) => x,
                        Err(err) => {
                            return Err(err);
                        },
                    };
                    Ok(FilterCondition::Simple { column: ident.clone(), operator, value })
                },
                _ => Err(unsupported("Complex conditions not supported")),
            },
            SqlExpr::Value(v) => match right {
                SqlExpr::Identifier(ident) => {
                    let operator = match op {
                        SqlBinaryOperator::Eq => FilterOperator::Equal,
                        SqlBinaryOperator::NotEq => FilterOperator::NotEqual,
                        SqlBinaryOperator::Lt => FilterOperator::Greater,
                        SqlBinaryOperator::LtEq => FilterOperator::GreaterOrEqual,
                        SqlBinaryOperator::Gt => FilterOperator::Less,
                        SqlBinaryOperator::GtEq => FilterOperator::LessOrEqual,
                        SqlBinaryOperator::Other(d) => {
                            return Err(
                                ParseError::UnsupportedFeature(
                                    prefixed("Unsupported operator: ", d.as_str()),
                                ),
                            );
                        },
                        _ => {
                            return Err(unsupported("Unsupported operator: "));
                        },
                    };
                    let value = match self.sql_value_to_value(v) {
                        Ok(x) => x,
                        Err(err) => {
                            return Err(err);
                        },
                    };
                    Ok(FilterCondition::Simple { column: ident.clone(), operator, value })
                },
                _ => Err(unsupported("Complex conditions not supported")),
            },
            _ => Err(unsupported("Complex conditions not supported")),
        }
    }

    /// The filter tree of a WHERE expression. Nested ANDs become one
    /// conjunction and nested ORs one disjunction; each comparison becomes a
    /// `column OP literal` leaf.
    pub fn parse_filter_expression(&self, expr: &SqlExpr) -> (r: Result<FilterCondition, ParseError>)
        ensures
            expr_fault(*expr) matches Some(f) ==> (r matches Err(err) && reports(err, f)),
            expr_fault(*expr) is None ==> (r matches Ok(fc) && is_tree_of(fc, *expr) && forall|row: RowMap| #[trigger] filter_holds(row, fc) == expr_holds(row, *expr)),
            r matches Ok(fc) ==> (fc is And ==> flat_and(fc)) && (fc is Or ==> flat_or(fc)),
            r is Ok && *expr is BinaryOp && is_and(expr->op) ==> r->Ok_0 is And,
            r is Ok && *expr is BinaryOp && is_or(expr->op) ==> r->Ok_0 is Or,
        decreases expr,
    {
        match expr {
            SqlExpr::BinaryOp { left, op, right } => match op {
                SqlBinaryOperator::And => {
                    let l = match self.parse_filter_expression(left) {
                        Ok(f) => f,
                        Err(err) => {
                            return Err(err);
                        },
                    };
                    let r = match self.parse_filter_expression(right) {
                        Ok(f) => f,
                        Err(err) => {
                            return Err(err);
                        },
                    };
                    let ghost gl = l;
                    let ghost gr = r;
                    let m = SqlParser::merge_and(l, r);
                    proof {
                        if expr_fault(*expr) is None {
                            assert(is_tree_of(gl, **left) && is_tree_of(gr, **right) && m->And_0@
                                == and_parts(gl) + and_parts(gr));
                            assert(is_tree_of(m, *expr));
                        }
                    }
                    Ok(m)
                },
                SqlBinaryOperator::Or => {
                    let l = match self.parse_filter_expression(left) {
                        Ok(f) => f,
                        Err(err) => {
                            return Err(err);
                        },
                    };
                    let r = match self.parse_filter_expression(right) {
                        Ok(f) => f,
                        Err(err) => {
                            return Err(err);
                        },
                    };
                    let ghost gl = l;
                    let ghost gr = r;
                    let m = SqlParser::merge_or(l, r);
                    proof {
                        if expr_fault(*expr) is None {
                            assert(is_tree_of(gl, **left) && is_tree_of(gr, **right) && m->Or_0@
                                == or_parts(gl) + or_parts(gr));
                            assert(is_tree_of(m, *expr));
                        }
                    }
                    Ok(m)
                },
                _ => {
                    let r = self.parse_comparison(left, op, right);
                    proof {
                        assert(SqlExpr::BinaryOp { left: Box::new(**left), op: *op, right: Box::new(**right) } == *expr);
                    }
                    r
                },
            },
            _ => Err(unsupported("Unsupported WHERE expression")),
        }
    }


    /// The single name of an unqualified object name.
    fn object_name_to_string(&self, name: &Vec<String>) -> (r: Result<String, ParseError>)
        ensures
            name_fault(name@) matches Some(f) ==> (r matches Err(e) && reports(e, f)),
            name_fault(name@) is None ==> (r matches Ok(t) && t@ == name@[0]@),
    {
        if name.len() != 1 {
            return Err(unsupported("Schema qualified names not supported"));
        }
        Ok(name[0].clone())
    }

    /// The name of a plain table source.
    fn get_table_name(&self, table: &SqlTableRef) -> (r: Result<String, ParseError>)
        ensures
            table_ref_fault(*table) matches Some(f) ==> (r matches Err(e) && reports(e, f)),
            table_ref_fault(*table) is None ==> (r matches Ok(t) && t@ == table_ref_name(*table)),
    {
        match table {
            SqlTableRef::Named(name) => self.object_name_to_string(name),
            SqlTableRef::Other => Err(unsupported("Complex table sources not supported")),
        }
    }

    /// The store type of a column type.
    fn parse_data_type(&self, data_type: &SqlDataType) -> (r: Result<DataType, ParseError>)
        ensures
            sql_data_type(*data_type) matches Some(t) ==> r == Ok::<DataType, ParseError>(t),
            data_type_fault(*data_type) matches Some(f) ==> (r matches Err(e) && reports(e, f)),
    {
        match data_type {
            SqlDataType::Int | SqlDataType::Integer | SqlDataType::BigInt => Ok(DataType::Integer),
            SqlDataType::Float | SqlDataType::Double | SqlDataType::Real => Ok(DataType::Float),
            SqlDataType::Char | SqlDataType::Varchar | SqlDataType::Text => Ok(DataType::Text),
            SqlDataType::Boolean => Ok(DataType::Boolean),
            SqlDataType::Timestamp | SqlDataType::Date => Ok(DataType::Timestamp),
            SqlDataType::Other(d) => Err(
                ParseError::InvalidDataType(prefixed("Unsupported data type: ", d.as_str())),
            ),
        }
    }

    /// The column a definition gives.
    fn parse_column(&self, def: &SqlColumnDef) -> (r: Result<Column, ParseError>)
        ensures
            column_def_fault(*def) matches Some(f) ==> (r matches Err(e) && reports(e, f)),
            column_def_fault(*def) is None ==> (r matches Ok(c) && column_from_def(c, *def)),
    {
        let data_type = match self.parse_data_type(&def.data_type) {
            Ok(t) => t,
            Err(e) => {
                return Err(e);
            },
        };
        let options = &def.options;
        let mut column = Column::new(def.name.as_str(), data_type);
        let mut j: usize = 0;
        assert(options@.skip(0) =~= options@);
        while j < options.len()
            invariant
                options@ == def.options@,
                sql_data_type(def.data_type) == Some(data_type),
                j <= options@.len(),
                options_fault(options@) == options_fault(options@.skip(j as int)),
                column.name@ == def.name@,
                column.data_type == data_type,
                column.spec_is_primary_key() == exists|i: int| 0 <= i < j && is_primary_option(#[trigger] options@[i]),
                column.spec_is_unique() == exists|i: int| 0 <= i < j && is_unique_option(#[trigger] options@[i]),
                column.spec_is_not_null() == exists|i: int| 0 <= i < j && is_not_null_option(#[trigger] options@[i]),
                first_default(column.constraints@) == last_default(options@.take(j as int)),
            decreases options@.len() - j,
        {
            assert(options@.skip(j as int)[0] == options@[j as int]);
            assert(options@.skip(j as int).drop_first() =~= options@.skip(j + 1));
            let ghost before = column;
            match &options[j] {
                SqlColumnOption::NotNull => {
                    column = column.not_null();
                },
                SqlColumnOption::Unique { is_primary } => {
                    if *is_primary {
                        column = column.primary_key();
                    } else {
                        column = column.unique();
                    }
                },
                SqlColumnOption::Default(e) => match e {
                    SqlExpr::Value(v) => {
                        let text = match self.sql_value_to_string(v) {
                            Ok(t) => t,
                            Err(err) => {
                                return Err(err);
                            },
                        };
                        column = column.with_default(text.as_str());
                        proof {
                            lemma_without_defaults_keeps(before.constraints@, Constraint::PrimaryKey);
                            lemma_without_defaults_keeps(before.constraints@, Constraint::Unique);
                            lemma_without_defaults_keeps(before.constraints@, Constraint::NotNull);
                            lemma_push_contains(without_defaults(before.constraints@));
                            lemma_without_defaults_has_none(before.constraints@);
                            lemma_first_default_after(without_defaults(before.constraints@), column.constraints@.last()->Default_0);
                            assert(column.constraints@ =~= column.constraints@.drop_last().push(
                                column.constraints@.last(),
                            ));
                        }
                    },
                    _ => {
                        return Err(unsupported("Complex default expressions not supported"));
                    },
                },
                SqlColumnOption::Other => {},
            }
            proof {
                lemma_push_contains(before.constraints@);
                lemma_push_contains(before.constraints@.push(Constraint::PrimaryKey));
                lemma_first_default_push(before.constraints@, Constraint::PrimaryKey);
                lemma_first_default_push(before.constraints@, Constraint::NotNull);
                lemma_first_default_push(before.constraints@, Constraint::Unique);
                lemma_first_default_push(before.constraints@.push(Constraint::PrimaryKey), Constraint::NotNull);
                assert(options@.take(j + 1).drop_last() =~= options@.take(j as int));
                assert(options@.take(j + 1) =~= options@.take(j as int).push(options@[j as int]));
            }
            j = j + 1;
        }
        Ok(column)
    }

    fn parse_create_table(
        &self,
        name: &Vec<String>,
        columns: &Vec<SqlColumnDef>,
        if_not_exists: bool,
    ) -> (r: Result<CreateTableStatement, ParseError>)
        ensures
            either(name_fault(name@), defs_fault(columns@)) matches Some(f) ==> (r matches Err(e)
                && reports(e, f)),
            either(name_fault(name@), defs_fault(columns@)) is None ==> (r matches Ok(st)
                && st.table_name@ == name@[0]@ && st.if_not_exists == if_not_exists
                && st.columns@.len() == columns@.len() && forall|k: int|
                0 <= k < columns@.len() ==> column_from_def(#[trigger] st.columns@[k], columns@[k])),
    {
        let table_name = match self.object_name_to_string(name) {
            Ok(t) => t,
            Err(e) => {
                return Err(e);
            },
        };
        let mut parsed: Vec<Column> = Vec::new();
        let mut k: usize = 0;
        assert(columns@.skip(0) =~= columns@);
        while k < columns.len()
            invariant
                name_fault(name@) is None,
                k <= columns@.len(),
                defs_fault(columns@) == defs_fault(columns@.skip(k as int)),
                parsed@.len() == k,
                forall|i: int| 0 <= i < k ==> column_from_def(#[trigger] parsed@[i], columns@[i]),
            decreases columns@.len() - k,
        {
            assert(columns@.skip(k as int)[0] == columns@[k as int]);
            assert(columns@.skip(k as int).drop_first() =~= columns@.skip(k + 1));
            let c = match self.parse_column(&columns[k]) {
                Ok(c) => c,
                Err(e) => {
                    return Err(e);
                },
            };
            parsed.push(c);
            k = k + 1;
        }
        Ok(CreateTableStatement { table_name, columns: parsed, if_not_exists })
    }


    /// The filter of an optional WHERE clause.
    fn parse_selection(&self, selection: &Option<SqlExpr>) -> (r: Result<
        Option<FilterCondition>,
        ParseError,
    >)
        ensures
            selection_fault(*selection) matches Some(f) ==> (r matches Err(e) && reports(e, f)),
            selection_fault(*selection) is None ==> (r matches Ok(f) && filter_translates(f, *selection)),
    {
        match selection {
            Some(e) => match self.parse_filter_expression(e) {
                Ok(f) => Ok(Some(f)),
                Err(err) => Err(err),
            },
            None => Ok(None),
        }
    }

    #[verifier::loop_isolation(false)]
    fn parse_select(&self, query: &SqlQuery) -> (r: Result<SelectStatement, ParseError>)
        ensures
            select_fault(*query) matches Some(f) ==> (r matches Err(e) && reports(e, f)),
            select_fault(*query) is None ==> (r matches Ok(st) && select_translates(st, *query)),
    {
        let select = match &query.body {
            SqlSetExpr::Select(select) => select,
            _ => {
                return Err(unsupported("Only simple SELECT queries are supported"));
            },
        };
        if select.from.len() != 1 {
            return Err(unsupported("Joins are not supported yet"));
        }
        let table_name = match self.get_table_name(&select.from[0]) {
            Ok(t) => t,
            Err(e) => {
                return Err(e);
            },
        };
        let items = &select.projection;
        let mut wildcard = false;
        let mut i: usize = 0;
        while i < items.len()
            invariant
                i <= items@.len(),
                wildcard == exists|j: int| 0 <= j < i && #[trigger] items@[j] is Wildcard,
            decreases items@.len() - i,
        {
            if matches!(items[i], SqlSelectItem::Wildcard) {
                wildcard = true;
            }
            i = i + 1;
        }
        let columns = if wildcard {
            None
        } else {
            let mut names: Vec<String> = Vec::new();
            let mut i: usize = 0;
            while i < items.len()
                invariant
                    !has_wildcard(items@),
                    i <= items@.len(),
                    names@.len() == i,
                    forall|j: int| 0 <= j < i ==> !(#[trigger] items@[j] is Other),
                    forall|j: int| 0 <= j < i ==> #[trigger] names@[j]@ == items@[j]->Column_0@,
                decreases items@.len() - i,
            {
                match &items[i] {
                    SqlSelectItem::Column(name) => {
                        names.push(name.clone());
                    },
                    _ => {
                        assert(items@[i as int] is Other);
                        return Err(unsupported("Complex SELECT expressions not supported"));
                    },
                }
                i = i + 1;
            }
            Some(names)
        };
        let filter = match self.parse_selection(&select.selection) {
            Ok(f) => f,
            Err(e) => {
                return Err(e);
            },
        };
        let limit = match &query.limit {
            Some(SqlExpr::Value(SqlValue::Number { text, .. })) => parse_usize(text.as_str()),
            _ => None,
        };
        Ok(SelectStatement { table_name, columns, filter, limit })
    }

    #[verifier::loop_isolation(false)]
    fn parse_insert(&self, table_name: &Vec<String>, columns: &Vec<String>, rows: &Vec<Vec<SqlExpr>>) -> (r: Result<
        InsertStatement,
        ParseError,
    >)
        ensures
            either(name_fault(table_name@), tuples_fault(rows@)) matches Some(f) ==> (r matches Err(e)
                && reports(e, f)),
            either(name_fault(table_name@), tuples_fault(rows@)) is None ==> (r matches Ok(st)
                && insert_translates(
                st,
                table_name@,
                columns@,
                SqlQuery { body: SqlSetExpr::Values(*rows), limit: None },
            )),
    {
        let table = match self.object_name_to_string(table_name) {
            Ok(t) => t,
            Err(e) => {
                return Err(e);
            },
        };
        let mut column_names: Vec<String> = Vec::new();
        let mut c: usize = 0;
        while c < columns.len()
            invariant
                c <= columns@.len(),
                column_names@.len() == c,
                forall|i: int| 0 <= i < c ==> #[trigger] column_names@[i]@ == columns@[i]@,
            decreases columns@.len() - c,
        {
            column_names.push(columns[c].clone());
            c = c + 1;
        }
        let mut values: Vec<Vec<Value>> = Vec::new();
        let mut i: usize = 0;
        assert(rows@.skip(0) =~= rows@);
        while i < rows.len()
            invariant
                name_fault(table_name@) is None,
                i <= rows@.len(),
                tuples_fault(rows@) == tuples_fault(rows@.skip(i as int)),
                values@.len() == i,
                forall|k: int|
                    0 <= k < i ==> (#[trigger] values@[k])@.len() == rows@[k]@.len() && forall|j: int|
                        0 <= j < rows@[k]@.len() ==> #[trigger] values@[k]@[j] == literal_value(
                            rows@[k]@[j]->Value_0,
                        )->Some_0,
            decreases rows@.len() - i,
        {
            assert(rows@.skip(i as int)[0] == rows@[i as int]);
            assert(rows@.skip(i as int).drop_first() =~= rows@.skip(i + 1));
            let row = &rows[i];
            let mut row_values: Vec<Value> = Vec::new();
            let mut j: usize = 0;
            assert(row@.skip(0) =~= row@);
            while j < row.len()
                invariant
                    name_fault(table_name@) is None,
                    tuples_fault(rows@) == tuples_fault(rows@.skip(i as int)),
                    rows@.skip(i as int)[0] == *row,
                    tuple_fault(row@) == tuple_fault(row@.skip(j as int)),
                    j <= row@.len(),
                    row_values@.len() == j,
                    forall|k: int| 0 <= k < j ==> #[trigger] row_values@[k] == literal_value(
                        row@[k]->Value_0,
                    )->Some_0,
                decreases row@.len() - j,
            {
                assert(row@.skip(j as int)[0] == row@[j as int]);
                assert(row@.skip(j as int).drop_first() =~= row@.skip(j + 1));
                match &row[j] {
                    SqlExpr::Value(v) => match self.sql_value_to_value(v) {
                        Ok(x) => {
                            row_values.push(x);
                        },
                        Err(e) => {
                            return Err(e);
                        },
                    },
                    _ => {
                        return Err(unsupported("Complex INSERT expressions not supported"));
                    },
                }
                j = j + 1;
            }
            values.push(row_values);
            i = i + 1;
        }
        Ok(InsertStatement { table_name: table, columns: column_names, values })
    }

    fn parse_update(
        &self,
        table: &SqlTableRef,
        assignments: &Vec<SqlAssignment>,
        selection: &Option<SqlExpr>,
    ) -> (r: Result<UpdateStatement, ParseError>)
        ensures
            either(table_ref_fault(*table), either(assignments_fault(assignments@), selection_fault(*selection))) matches Some(f) ==> (r matches Err(e) && reports(e, f)),
            either(table_ref_fault(*table), either(assignments_fault(assignments@), selection_fault(*selection))) is None ==> (r matches Ok(st) && update_translates(st, *table, assignments@, *selection)),
    {
        let table_name = match self.get_table_name(table) {
            Ok(t) => t,
            Err(e) => {
                return Err(e);
            },
        };
        let mut updates: Vec<(String, Value)> = Vec::new();
        let mut k: usize = 0;
        assert(assignments@.skip(0) =~= assignments@);
        while k < assignments.len()
            invariant
                table_ref_fault(*table) is None,
                k <= assignments@.len(),
                assignments_fault(assignments@) == assignments_fault(assignments@.skip(k as int)),
                updates@.len() == k,
                forall|i: int|
                    0 <= i < k ==> (#[trigger] updates@[i]).0@ == assignments@[i].id@[0]@
                        && updates@[i].1 == literal_value(assignments@[i].value->Value_0)->Some_0,
            decreases assignments@.len() - k,
        {
            assert(assignments@.skip(k as int)[0] == assignments@[k as int]);
            assert(assignments@.skip(k as int).drop_first() =~= assignments@.skip(k + 1));
            let a = &assignments[k];
            if a.id.len() != 1 {
                return Err(unsupported("Compound column identifiers not supported"));
            }
            let column_name = a.id[0].clone();
            let value = match &a.value {
                SqlExpr::Value(v) => match self.sql_value_to_value(v) {
                    Ok(x) => x,
                    Err(e) => {
                        return Err(e);
                    },
                },
                _ => {
                    return Err(unsupported("Complex UPDATE expressions not supported"));
                },
            };
            updates.push((column_name, value));
            k = k + 1;
        }
        let filter = match self.parse_selection(selection) {
            Ok(f) => f,
            Err(e) => {
                return Err(e);
            },
        };
        Ok(UpdateStatement { table_name, updates, filter })
    }

    /// Translates one statement.
    pub fn parse_statement(&self, statement: &SqlStatement) -> (r: Result<ParsedStatement, ParseError>)
        ensures
            statement_fault(*statement) matches Some(f) ==> (r matches Err(e) && reports(e, f)),
            statement_fault(*statement) is None ==> (r matches Ok(p) && translates_to(p, *statement)),
    {
        match statement {
            SqlStatement::CreateTable { name, columns, if_not_exists } => match self.parse_create_table(
                name,
                columns,
                *if_not_exists,
            ) {
                Ok(st) => Ok(ParsedStatement::CreateTable(st)),
                Err(e) => Err(e),
            },
            SqlStatement::Query(query) => match self.parse_select(query) {
                Ok(st) => Ok(ParsedStatement::Select(st)),
                Err(e) => Err(e),
            },
            SqlStatement::Insert { table_name, columns, source } => match &source.body {
                SqlSetExpr::Values(rows) => match self.parse_insert(table_name, columns, rows) {
                    Ok(st) => Ok(ParsedStatement::Insert(st)),
                    Err(e) => Err(e),
                },
                _ => Err(unsupported("Only VALUES in INSERT are supported")),
            },
            SqlStatement::Update { table, assignments, selection } => match self.parse_update(
                table,
                assignments,
                selection,
            ) {
                Ok(st) => Ok(ParsedStatement::Update(st)),
                Err(e) => Err(e),
            },
            SqlStatement::Delete { from, selection } => {
                if from.len() != 1 {
                    return Err(unsupported("Multiple table delete not supported"));
                }
                let table_name = match self.get_table_name(&from[0]) {
                    Ok(t) => t,
                    Err(e) => {
                        return Err(e);
                    },
                };
                match self.parse_selection(selection) {
                    Ok(filter) => Ok(ParsedStatement::Delete(DeleteStatement { table_name, filter })),
                    Err(e) => Err(e),
                }
            },
            SqlStatement::Drop { is_table, names, if_exists } => {
                if !*is_table {
                    return Err(unsupported("Only DROP TABLE is supported"));
                }
                if names.len() != 1 {
                    return Err(unsupported("Multiple table drop not supported"));
                }
                match self.object_name_to_string(&names[0]) {
                    Ok(table_name) => Ok(
                        ParsedStatement::DropTable(
                            DropTableStatement { table_name, if_exists: *if_exists },
                        ),
                    ),
                    Err(e) => Err(e),
                }
            },
            SqlStatement::Other(_) => Err(unsupported("Unsupported SQL statement type")),
        }
    }

    /// Translates statements in order; the first that cannot be translated
    /// gives the error.
    pub fn translate(&self, statements: &Vec<SqlStatement>) -> (r: Result<Vec<ParsedStatement>, ParseError>)
        ensures
            r is Ok <==> forall|k: int| 0 <= k < statements@.len() ==> #[trigger] statement_fault(statements@[k]) is None,
            r matches Err(e) ==> exists|k: int| is_first_faulty(statements@, k) && reports(e, statement_fault(statements@[k])->Some_0),
            r matches Ok(ps) ==> ps@.len() == statements@.len() && forall|k: int|
                0 <= k < statements@.len() ==> translates_to(#[trigger] ps@[k], statements@[k]),
    {
        let mut parsed: Vec<ParsedStatement> = Vec::new();
        let mut k: usize = 0;
        while k < statements.len()
            invariant
                k <= statements@.len(),
                parsed@.len() == k,
                forall|j: int| 0 <= j < k ==> #[trigger] statement_fault(statements@[j]) is None,
                forall|j: int| 0 <= j < k ==> translates_to(#[trigger] parsed@[j], statements@[j]),
            decreases statements@.len() - k,
        {
            match self.parse_statement(&statements[k]) {
                Ok(p) => {
                    parsed.push(p);
                },
                Err(e) => {
                    assert(is_first_faulty(statements@, k as int));
                    return Err(e);
                },
            }
            k = k + 1;
        }
        Ok(parsed)
    }

}

} // verus!
