//! Running translated statements against a repository: the decisions of
//! the query endpoint, apart from transport and encoding.
use vstd::prelude::*;

use crate::column::Column;
use crate::filter::FilterCondition;
use crate::parser::{
    CreateTableStatement, DeleteStatement, DropTableStatement, InsertStatement, ParsedStatement,
    SelectStatement, UpdateStatement,
};
use crate::repository::{translates, RepositoryError, TableRepository};
use crate::storage::{
    assigned, insert_all, is_first_missing, is_first_unknown, row_maps, selected,
    selected_rows, unselected_rows, RowMap,
};
use crate::table::{first_named, has_primary_key, names_column, Row, Table, TableError};
use crate::value::Value;

verus! {

/// Errors of the query endpoint.
#[derive(Debug)]
pub enum ApiError {
    SqlSyntax(String),
    Repository(RepositoryError),
    UnsupportedSql(String),
    Internal(String),
}

/// What running a statement reports: the result columns and rows of a
/// query, or the number of rows a change touched, and the statement's kind.
#[derive(Debug)]
pub struct StatementOutcome {
    pub columns: Option<Vec<String>>,
    pub rows: Option<Vec<Row>>,
    pub affected_rows: Option<usize>,
    pub statement_type: String,
}

/// A column may follow `prev` in a schema: its name is new, and it is not
/// a second primary key.
pub open spec fn column_admissible(prev: Seq<Column>, c: Column) -> bool {
    !names_column(prev, c.name@) && !(c.spec_is_primary_key() && has_primary_key(prev))
}

/// Every column may follow the ones before it.
pub open spec fn schema_admissible(cols: Seq<Column>) -> bool {
    forall|k: int| 0 <= k < cols.len() ==> column_admissible(cols.take(k), #[trigger] cols[k])
}

pub open spec fn same_columns(a: Seq<Column>, b: Seq<Column>) -> bool {
    a.len() == b.len() && forall|i: int| 0 <= i < a.len() ==> (#[trigger] a[i])@ == b[i]@
}

/// The row that an INSERT tuple gives: the i-th value under the i-th named
/// column; values past the named columns are dropped.
pub open spec fn tuple_map(cols: Seq<String>, vals: Seq<Value>) -> RowMap
    decreases vals.len(),
{
    if vals.len() == 0 {
        Map::empty()
    } else if vals.len() - 1 < cols.len() {
        tuple_map(cols, vals.drop_last()).insert(cols[vals.len() - 1]@, vals.last())
    } else {
        tuple_map(cols, vals.drop_last())
    }
}

pub open spec fn tuple_rows(cols: Seq<String>, tuples: Seq<Vec<Value>>) -> Seq<RowMap> {
    tuples.map_values(|t: Vec<Value>| tuple_map(cols, t@))
}

/// The schema a CREATE TABLE describes, built column by column.
pub fn build_table(name: &str, columns: &Vec<Column>) -> (r: Result<Table, TableError>)
    ensures
        r is Ok <==> schema_admissible(columns@),
        r matches Ok(t) ==> t.name@ == name@ && same_columns(t.columns@, columns@),
{
    let mut table = Table::new(name);
    let mut k: usize = 0;
    while k < columns.len()
        invariant
            k <= columns@.len(),
            table.name@ == name@,
            same_columns(table.columns@, columns@.take(k as int)),
            forall|j: int| 0 <= j < k ==> column_admissible(columns@.take(j), #[trigger] columns@[j]),
        decreases columns@.len() - k,
    {
        let c = columns[k].clone();
        let ghost prev = table.columns@;
        proof {
            assert forall|n: Seq<char>| names_column(prev, n) == names_column(columns@.take(k as int), n) by {
                if names_column(prev, n) {
                    let i = choose|i: int| 0 <= i < prev.len() && #[trigger] prev[i].name@ == n;
                    assert(columns@.take(k as int)[i].name@ == n);
                }
                if names_column(columns@.take(k as int), n) {
                    let i = choose|i: int| 0 <= i < k && #[trigger] columns@.take(k as int)[i].name@ == n;
                    assert(prev[i]@ == columns@.take(k as int)[i]@);
                    assert(prev[i].name@ == n);
                }
            }
            assert(has_primary_key(prev) == has_primary_key(columns@.take(k as int))) by {
                if has_primary_key(prev) {
                    let i = choose|i: int| 0 <= i < prev.len() && #[trigger] prev[i].spec_is_primary_key();
                    assert(prev[i]@ == columns@.take(k as int)[i]@);
                    assert(columns@.take(k as int)[i].spec_is_primary_key());
                }
                if has_primary_key(columns@.take(k as int)) {
                    let i = choose|i: int| 0 <= i < k && #[trigger] columns@.take(k as int)[i].spec_is_primary_key();
                    assert(prev[i]@ == columns@.take(k as int)[i]@);
                    assert(prev[i].spec_is_primary_key());
                }
            }
        }
        match table.add_column(c) {
            Ok(()) => {},
            Err(e) => {
                assert(!column_admissible(columns@.take(k as int), columns@[k as int]));
                return Err(e);
            },
        }
        assert(columns@.take(k + 1) =~= columns@.take(k as int).push(columns@[k as int]));
        k = k + 1;
    }
    assert(columns@.take(columns@.len() as int) =~= columns@);
    Ok(table)
}

/// The row an INSERT tuple gives.
pub fn row_from_tuple(columns: &Vec<String>, values: &Vec<Value>) -> (r: Row)
    ensures
        r@ == tuple_map(columns@, values@),
{
    let mut row = Row::new();
    let mut i: usize = 0;
    while i < values.len()
        invariant
            i <= values@.len(),
            row@ == tuple_map(columns@, values@.take(i as int)),
        decreases values@.len() - i,
    {
        assert(values@.take(i + 1).drop_last() =~= values@.take(i as int));
        if i < columns.len() {
            row.set(columns[i].as_str(), values[i].clone());
        }
        i = i + 1;
    }
    assert(values@.take(values@.len() as int) =~= values@);
    row
}

fn outcome(affected: Option<usize>, kind: &str) -> (r: StatementOutcome)
    ensures
        r.columns is None,
        r.rows is None,
        r.affected_rows == affected,
        r.statement_type@ == kind@,
{
    StatementOutcome { columns: None, rows: None, affected_rows: affected, statement_type: kind.to_string() }
}

pub type Store = Map<Seq<char>, (Table, Seq<RowMap>)>;

/// A repository error reported by the endpoint.
pub open spec fn repository_failure<T>(r: Result<T, ApiError>, pred: spec_fn(RepositoryError) -> bool) -> bool {
    r matches Err(ApiError::Repository(e)) && pred(e)
}

/// What CREATE TABLE does: an inadmissible schema, or one with no columns,
/// is an internal error, a taken name a repository error, and otherwise the
/// table is stored empty.
pub open spec fn create_done(
    old: Store,
    new: Store,
    st: CreateTableStatement,
    r: Result<StatementOutcome, ApiError>,
) -> bool {
    if !schema_admissible(st.columns@) {
        new == old && r is Err && r->Err_0 is Internal
    } else if st.columns@.len() == 0 {
        new == old && (r matches Err(ApiError::Internal(m)) && m@ == "Table must have at least one column"@)
    } else if old.contains_key(st.table_name@) {
        new == old && (r matches Err(ApiError::Repository(RepositoryError::TableAlreadyExists(n))) && n@
            == st.table_name@)
    } else {
        &&& r matches Ok(o) && o.affected_rows == Some(0usize) && o.statement_type@ == "CREATE_TABLE"@
            && o.columns is None && o.rows is None
        &&& exists|t: Table|
            t.name@ == st.table_name@ && same_columns(t.columns@, st.columns@) && new == old.insert(
                st.table_name@,
                (t, Seq::<RowMap>::empty()),
            )
    }
}

/// The columns a SELECT asks for; none means every column.
pub open spec fn requested_columns(st: SelectStatement) -> Seq<String> {
    match st.columns {
        Some(v) => v@,
        None => Seq::<String>::empty(),
    }
}

/// What a SELECT returns: the names of the result columns and the selected
/// rows, or the repository's error.
pub open spec fn select_done(store: Store, st: SelectStatement, r: Result<StatementOutcome, ApiError>) -> bool {
    let filter = as_ref_filter(&st.filter);
    if !store.contains_key(st.table_name@) {
        r matches Err(ApiError::Repository(RepositoryError::TableNotFound(n))) && n@ == st.table_name@
    } else {
        let schema = store[st.table_name@].0.columns@;
        let names = requested_columns(st);
        if names.len() == 0 {
            r matches Ok(o) && o.statement_type@ == "SELECT"@ && o.affected_rows is None && (o.columns matches Some(cs)
                && cs@.len() == schema.len() && forall|k: int| 0 <= k < schema.len() ==> (#[trigger] cs@[k])@ == schema[k].name@)
                && (o.rows matches Some(rows) && row_maps(rows@) == selected_rows(store[st.table_name@].1, filter))
        } else if exists|k: int| is_first_missing(schema, names, k) {
            exists|k: int|
                is_first_missing(schema, names, k) && (r matches Err(
                    ApiError::Repository(RepositoryError::ColumnNotFound(c, t)),
                ) && c@ == names[k]@ && t@ == st.table_name@)
        } else {
            r matches Ok(o) && o.statement_type@ == "SELECT"@ && o.affected_rows is None && (o.columns matches Some(cs)
                && cs@.len() == names.len() && forall|k: int| 0 <= k < names.len() ==> (#[trigger] cs@[k])@ == schema[first_named(schema, names[k]@)].name@)
                && (o.rows matches Some(rows) && row_maps(rows@) == selected_rows(store[st.table_name@].1, filter))
        }
    }
}

/// What an INSERT does: the tuples' rows are inserted in order until one
/// fails; the rows before it stay.
pub open spec fn insert_done(
    old: Store,
    new: Store,
    st: InsertStatement,
    r: Result<StatementOutcome, ApiError>,
) -> bool {
    let rows = tuple_rows(st.columns@, st.values@);
    if rows.len() == 0 {
        new == old && (r matches Ok(o) && o.affected_rows == Some(0usize) && o.statement_type@ == "INSERT"@)
    } else if !old.contains_key(st.table_name@) {
        new == old && (r matches Err(ApiError::Repository(RepositoryError::TableNotFound(n))) && n@
            == st.table_name@)
    } else {
        let done = insert_all(old[st.table_name@].0, old[st.table_name@].1, rows);
        &&& new == old.insert(st.table_name@, (old[st.table_name@].0, done.0))
        &&& match done.1 {
            Some(e) => r matches Err(ApiError::Repository(re)) && translates(e, re),
            None => r matches Ok(o) && o.affected_rows == Some(rows.len() as usize)
                && o.statement_type@ == "INSERT"@,
        }
    }
}

pub open spec fn as_ref_filter(f: &Option<FilterCondition>) -> Option<&FilterCondition> {
    match f {
        Some(g) => Some(g),
        None => None,
    }
}

/// What an UPDATE does: see the repository's `update`.
pub open spec fn update_done(
    old: Store,
    new: Store,
    st: UpdateStatement,
    r: Result<StatementOutcome, ApiError>,
) -> bool {
    let filter = as_ref_filter(&st.filter);
    if !old.contains_key(st.table_name@) {
        new == old && (r matches Err(ApiError::Repository(RepositoryError::TableNotFound(n))) && n@
            == st.table_name@)
    } else {
        let schema = old[st.table_name@].0;
        let rows = old[st.table_name@].1;
        if exists|k: int| is_first_unknown(schema.columns@, st.updates@, k) {
            &&& new == old
            &&& exists|k: int|
                is_first_unknown(schema.columns@, st.updates@, k) && (r matches Err(
                    ApiError::Repository(RepositoryError::ColumnNotFound(c, t)),
                ) && c@ == st.updates@[k].0@ && t@ == st.table_name@)
        } else {
            &&& new.dom() == old.dom()
            &&& forall|k: Seq<char>| k != st.table_name@ && #[trigger] old.contains_key(k) ==> new[k] == old[k]
            &&& new[st.table_name@].0 == schema
            &&& new[st.table_name@].1.len() == rows.len()
            &&& forall|i: int|
                0 <= i < rows.len() ==> #[trigger] new[st.table_name@].1[i] == if selected(rows[i], filter) {
                    assigned(rows[i], st.updates@)
                } else {
                    rows[i]
                }
            &&& r matches Ok(o) && o.affected_rows == Some(selected_rows(rows, filter).len() as usize)
                && o.statement_type@ == "UPDATE"@
        }
    }
}

/// What a DELETE does: see the repository's `delete`.
pub open spec fn delete_done(
    old: Store,
    new: Store,
    st: DeleteStatement,
    r: Result<StatementOutcome, ApiError>,
) -> bool {
    let filter = as_ref_filter(&st.filter);
    if !old.contains_key(st.table_name@) {
        new == old && (r matches Err(ApiError::Repository(RepositoryError::TableNotFound(n))) && n@
            == st.table_name@)
    } else {
        let rows = old[st.table_name@].1;
        let kept = unselected_rows(rows, filter);
        &&& new == old.insert(st.table_name@, (old[st.table_name@].0, kept))
        &&& r matches Ok(o) && o.affected_rows == Some((rows.len() - kept.len()) as usize)
            && o.statement_type@ == "DELETE"@
    }
}

/// What DROP TABLE does. The table must exist, whatever IF EXISTS says.
pub open spec fn drop_done(
    old: Store,
    new: Store,
    st: DropTableStatement,
    r: Result<StatementOutcome, ApiError>,
) -> bool {
    if !old.contains_key(st.table_name@) {
        new == old && (r matches Err(ApiError::Repository(RepositoryError::TableNotFound(n))) && n@
            == st.table_name@)
    } else {
        new == old.remove(st.table_name@) && (r matches Ok(o) && o.affected_rows is None
            && o.statement_type@ == "DROP_TABLE"@)
    }
}

pub open spec fn executed(old: Store, new: Store, p: ParsedStatement, r: Result<StatementOutcome, ApiError>) -> bool {
    match p {
        ParsedStatement::CreateTable(st) => create_done(old, new, st, r),
        ParsedStatement::Select(st) => new == old && select_done(old, st, r),
        ParsedStatement::Insert(st) => insert_done(old, new, st, r),
        ParsedStatement::Update(st) => update_done(old, new, st, r),
        ParsedStatement::Delete(st) => delete_done(old, new, st, r),
        ParsedStatement::DropTable(st) => drop_done(old, new, st, r),
    }
}

pub fn execute_create<R: TableRepository>(repo: &mut R, st: &CreateTableStatement) -> (r: Result<StatementOutcome, ApiError>)
    ensures
        create_done(old(repo)@, final(repo)@, *st, r),
{
    let table = match build_table(st.table_name.as_str(), &st.columns) {
        Ok(t) => t,
        Err(e) => {
            return Err(ApiError::Internal(e.message()));
        },
    };
    match table.validate() {
        Ok(()) => {},
        Err(e) => {
            return Err(ApiError::Internal(e.message()));
        },
    }
    match repo.create_table(&table) {
        Ok(()) => {
            proof {
                let t = choose|t: Table| t@ == table@ && final(repo)@ == old(repo)@.insert(table.name@, (t, Seq::<RowMap>::empty()));
                assert(t@.columns.len() == t.columns@.len());
                assert(table@.columns.len() == table.columns@.len());
                assert forall|i: int| 0 <= i < t.columns@.len() implies (#[trigger] t.columns@[i])@ == st.columns@[i]@ by {
                    assert(t@.columns[i] == t.columns@[i]@);
                    assert(table@.columns[i] == table.columns@[i]@);
                    assert(t@.columns[i] == table@.columns[i]);
                }
            }
            Ok(outcome(Some(0), "CREATE_TABLE"))
        },
        Err(e) => Err(ApiError::Repository(e)),
    }
}

pub fn execute_select<R: TableRepository>(repo: &R, st: &SelectStatement) -> (r: Result<StatementOutcome, ApiError>)
    ensures
        select_done(repo@, *st, r),
{
    let empty: Vec<String> = Vec::new();
    let names = match &st.columns {
        Some(v) => v,
        None => &empty,
    };
    let filter = match &st.filter {
        Some(f) => Some(f),
        None => None,
    };
    assert(names@ == requested_columns(*st));
    assert(filter == as_ref_filter(&st.filter));
    let res = repo.select(st.table_name.as_str(), names, filter);
    match res {
        Ok(result) => {
            let mut column_names: Vec<String> = Vec::new();
            let mut k: usize = 0;
            while k < result.columns.len()
                invariant
                    k <= result.columns@.len(),
                    column_names@.len() == k,
                    forall|j: int| 0 <= j < k ==> (#[trigger] column_names@[j])@ == result.columns@[j].name@,
                decreases result.columns@.len() - k,
            {
                column_names.push(result.columns[k].name.clone());
                k = k + 1;
            }
            assert forall|j: int| 0 <= j < column_names@.len() implies (#[trigger] column_names@[j])@ == result.columns@[j]@.name by {}
            let kind = "SELECT".to_string();
            let r: Result<StatementOutcome, ApiError> = Ok(
                StatementOutcome {
                    columns: Some(column_names),
                    rows: Some(result.rows),
                    affected_rows: None,
                    statement_type: kind,
                },
            );
            assert(select_done(repo@, *st, r));
            r
        },
        Err(e) => {
            let r: Result<StatementOutcome, ApiError> = Err(ApiError::Repository(e));
            proof {
                let schema = repo@[st.table_name@].0.columns@;
                if repo@.contains_key(st.table_name@) {
                    let k = choose|k: int| is_first_missing(schema, names@, k) && (res matches Err(
                        RepositoryError::ColumnNotFound(c, t),
                    ) && c@ == names@[k]@ && t@ == st.table_name@);
                    assert(is_first_missing(schema, names@, k) && (r matches Err(
                        ApiError::Repository(RepositoryError::ColumnNotFound(c, t)),
                    ) && c@ == names@[k]@ && t@ == st.table_name@));
                }
            }
            assert(select_done(repo@, *st, r));
            r
        },
    }
}

#[verifier::loop_isolation(false)]
pub fn execute_insert<R: TableRepository>(repo: &mut R, st: &InsertStatement) -> (r: Result<StatementOutcome, ApiError>)
    ensures
        insert_done(old(repo)@, final(repo)@, *st, r),
{
    let ghost all = tuple_rows(st.columns@, st.values@);
    let ghost name = st.table_name@;
    let mut affected: usize = 0;
    let mut i: usize = 0;
    proof {
        assert(all.skip(0) =~= all);
        if old(repo)@.contains_key(name) {
            assert(old(repo)@ =~= old(repo)@.insert(name, (old(repo)@[name].0, old(repo)@[name].1)));
        }
    }
    while i < st.values.len()
        invariant
            i <= st.values@.len(),
            affected == i,
            i > 0 ==> old(repo)@.contains_key(name),
            i == 0 ==> repo@ == old(repo)@,
            old(repo)@.contains_key(name) ==> {
                &&& repo@ == old(repo)@.insert(name, (old(repo)@[name].0, repo@[name].1))
                &&& insert_all(old(repo)@[name].0, old(repo)@[name].1, all) == insert_all(
                    old(repo)@[name].0,
                    repo@[name].1,
                    all.skip(i as int),
                )
            },
        decreases st.values@.len() - i,
    {
        let row = row_from_tuple(&st.columns, &st.values[i]);
        assert(all.skip(i as int)[0] == row@);
        assert(all.skip(i as int).drop_first() =~= all.skip(i + 1));
        let ghost before = repo@;
        match repo.insert(st.table_name.as_str(), &row) {
            Ok(()) => {
                proof {
                    if old(repo)@.contains_key(name) {
                        assert(repo@ =~= old(repo)@.insert(name, (old(repo)@[name].0, repo@[name].1)));
                    }
                }
            },
            Err(e) => {
                proof {
                    if i == 0 && !old(repo)@.contains_key(name) {
                        assert(all.len() > 0);
                    }
                }
                return Err(ApiError::Repository(e));
            },
        }
        affected = affected + 1;
        i = i + 1;
    }
    proof {
        if old(repo)@.contains_key(name) {
            assert(all.skip(all.len() as int) =~= Seq::<RowMap>::empty());
        } else {
            assert(all.len() == 0);
        }
    }
    Ok(outcome(Some(affected), "INSERT"))
}

pub fn execute_update<R: TableRepository>(repo: &mut R, st: &UpdateStatement) -> (r: Result<StatementOutcome, ApiError>)
    ensures
        update_done(old(repo)@, final(repo)@, *st, r),
{
    let filter = match &st.filter {
        Some(f) => Some(f),
        None => None,
    };
    match repo.update(st.table_name.as_str(), &st.updates, filter) {
        Ok(n) => Ok(outcome(Some(n), "UPDATE")),
        Err(e) => Err(ApiError::Repository(e)),
    }
}

pub fn execute_delete<R: TableRepository>(repo: &mut R, st: &DeleteStatement) -> (r: Result<StatementOutcome, ApiError>)
    ensures
        delete_done(old(repo)@, final(repo)@, *st, r),
{
    let filter = match &st.filter {
        Some(f) => Some(f),
        None => None,
    };
    match repo.delete(st.table_name.as_str(), filter) {
        Ok(n) => Ok(outcome(Some(n), "DELETE")),
        Err(e) => Err(ApiError::Repository(e)),
    }
}

pub fn execute_drop<R: TableRepository>(repo: &mut R, st: &DropTableStatement) -> (r: Result<StatementOutcome, ApiError>)
    ensures
        drop_done(old(repo)@, final(repo)@, *st, r),
{
    match repo.drop_table(st.table_name.as_str()) {
        Ok(()) => Ok(outcome(None, "DROP_TABLE")),
        Err(e) => Err(ApiError::Repository(e)),
    }
}

/// Runs one translated statement against the repository.
pub fn execute<R: TableRepository>(repo: &mut R, statement: &ParsedStatement) -> (r: Result<StatementOutcome, ApiError>)
    ensures
        executed(old(repo)@, final(repo)@, *statement, r),
{
    match statement {
        ParsedStatement::CreateTable(st) => execute_create(repo, st),
        ParsedStatement::Select(st) => execute_select(repo, st),
        ParsedStatement::Insert(st) => execute_insert(repo, st),
        ParsedStatement::Update(st) => execute_update(repo, st),
        ParsedStatement::Delete(st) => execute_delete(repo, st),
        ParsedStatement::DropTable(st) => execute_drop(repo, st),
    }
}

} // verus!
