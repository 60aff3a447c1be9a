//! The repository interface over a storage engine, and its in-memory
//! implementation.
use vstd::prelude::*;

use crate::filter::FilterCondition;
use crate::storage::{
    assigned, insert_all, insert_error, is_first_missing, is_first_unknown, row_maps, selected,
    selected_rows, unselected_rows, MemoryStorage, RowMap, StorageError,
};
use crate::table::{first_named, ResultSet, Row, Table};
use crate::value::{data_type_label, Value};

verus! {

/// Errors at the repository boundary, each with a detail text.
#[derive(Debug, PartialEq)]
pub enum RepositoryError {
    TableNotFound(String),
    TableAlreadyExists(String),
    /// A column name, then the table name.
    ColumnNotFound(String, String),
    StorageError(String),
    DataError(String),
    InternalError(String),
}

/// How a storage error reads at the repository boundary: lookups keep their
/// names, type and constraint violations become data errors with a message.
pub open spec fn translates(e: StorageError, r: RepositoryError) -> bool {
    match e {
        StorageError::TableNotFound(n) => r matches RepositoryError::TableNotFound(m) && m@ == n@,
        StorageError::TableAlreadyExists(n) => r matches RepositoryError::TableAlreadyExists(m)
            && m@ == n@,
        StorageError::ColumnNotFound(c, t) => r matches RepositoryError::ColumnNotFound(c2, t2)
            && c2@ == c@ && t2@ == t@,
        StorageError::TypeMismatch { expected, actual } => r matches RepositoryError::DataError(m)
            && m@ == "Type mismatch: expected "@ + data_type_label(expected) + ", got "@ + data_type_label(actual),
        StorageError::NotNullViolation(c) => r matches RepositoryError::DataError(m) && m@
            == "NOT NULL constraint violation for column "@ + c@,
        StorageError::UniqueViolation(c) => r matches RepositoryError::DataError(m) && m@
            == "UNIQUE constraint violation for column "@ + c@,
        StorageError::PrimaryKeyViolation => r matches RepositoryError::DataError(m) && m@
            == "PRIMARY KEY constraint violation"@,
        StorageError::Internal(m) => r matches RepositoryError::InternalError(m2) && m2@ == m@,
    }
}

/// The message of a repository error.
pub open spec fn repository_message(e: RepositoryError) -> Seq<char> {
    match e {
        RepositoryError::TableNotFound(n) => "Table "@ + n@ + " not found"@,
        RepositoryError::TableAlreadyExists(n) => "Table "@ + n@ + " already exists"@,
        RepositoryError::ColumnNotFound(c, t) => "Column "@ + c@ + " not found in table "@ + t@,
        RepositoryError::StorageError(m) => "Storage error: "@ + m@,
        RepositoryError::DataError(m) => "Data error: "@ + m@,
        RepositoryError::InternalError(m) => "Internal error: "@ + m@,
    }
}

/// A storage outcome carried to the repository boundary.
pub open spec fn carried<T>(s: Result<T, StorageError>, r: Result<T, RepositoryError>) -> bool {
    match s {
        Ok(v) => r == Ok::<T, RepositoryError>(v),
        Err(e) => r matches Err(re) && translates(e, re),
    }
}

impl RepositoryError {
    /// The error's message.
    pub fn message(&self) -> (r: String)
        ensures
            r@ == repository_message(*self),
    {
        match self {
            RepositoryError::TableNotFound(n) => {
                let mut m = "Table ".to_string();
                m.append(n.as_str());
                m.append(" not found");
                m
            },
            RepositoryError::TableAlreadyExists(n) => {
                let mut m = "Table ".to_string();
                m.append(n.as_str());
                m.append(" already exists");
                m
            },
            RepositoryError::ColumnNotFound(c, t) => {
                let mut m = "Column ".to_string();
                m.append(c.as_str());
                m.append(" not found in table ");
                m.append(t.as_str());
                m
            },
            RepositoryError::StorageError(x) => {
                let mut m = "Storage error: ".to_string();
                m.append(x.as_str());
                m
            },
            RepositoryError::DataError(x) => {
                let mut m = "Data error: ".to_string();
                m.append(x.as_str());
                m
            },
            RepositoryError::InternalError(x) => {
                let mut m = "Internal error: ".to_string();
                m.append(x.as_str());
                m
            },
        }
    }

    /// The repository error for a storage error.
    pub fn from_storage(error: StorageError) -> (r: RepositoryError)
        ensures
            translates(error, r),
    {
        match error {
            StorageError::TableNotFound(name) => RepositoryError::TableNotFound(name),
            StorageError::TableAlreadyExists(name) => RepositoryError::TableAlreadyExists(name),
            StorageError::ColumnNotFound(col, table) => RepositoryError::ColumnNotFound(col, table),
            StorageError::TypeMismatch { expected, actual } => {
                let mut m = "Type mismatch: expected ".to_string();
                m.append(expected.name());
                m.append(", got ");
                m.append(actual.name());
                RepositoryError::DataError(m)
            },
            StorageError::NotNullViolation(col) => {
                let mut m = "NOT NULL constraint violation for column ".to_string();
                m.append(col.as_str());
                RepositoryError::DataError(m)
            },
            StorageError::UniqueViolation(col) => {
                let mut m = "UNIQUE constraint violation for column ".to_string();
                m.append(col.as_str());
                RepositoryError::DataError(m)
            },
            StorageError::PrimaryKeyViolation => RepositoryError::DataError(
                "PRIMARY KEY constraint violation".to_string(),
            ),
            StorageError::Internal(msg) => RepositoryError::InternalError(msg),
        }
    }
}

fn carry<T>(s: Result<T, StorageError>) -> (r: Result<T, RepositoryError>)
    ensures
        carried(s, r),
{
    match s {
        Ok(v) => Ok(v),
        Err(e) => Err(RepositoryError::from_storage(e)),
    }
}

/// Persistence of tables and rows, whatever holds them. Every backend is
/// seen as a map from table name to schema and rows, and meets the same
/// contract on it.
pub trait TableRepository: View<V = Map<Seq<char>, (Table, Seq<RowMap>)>> {
    fn create_table(&mut self, table: &Table) -> (r: Result<(), RepositoryError>)
        ensures
            old(self)@.contains_key(table.name@) ==> final(self)@ == old(self)@ && (r matches Err(
                RepositoryError::TableAlreadyExists(n),
            ) && n@ == table.name@),
            !old(self)@.contains_key(table.name@) ==> r is Ok && exists|t: Table|
                t@ == table@ && final(self)@ == old(self)@.insert(
                    table.name@,
                    (t, Seq::<RowMap>::empty()),
                ),
    ;

    fn table_exists(&self, table_name: &str) -> (r: Result<bool, RepositoryError>)
        ensures
            r == Ok::<bool, RepositoryError>(self@.contains_key(table_name@)),
    ;

    fn drop_table(&mut self, table_name: &str) -> (r: Result<(), RepositoryError>)
        ensures
            !old(self)@.contains_key(table_name@) ==> final(self)@ == old(self)@ && (r matches Err(
                RepositoryError::TableNotFound(n),
            ) && n@ == table_name@),
            old(self)@.contains_key(table_name@) ==> r is Ok && final(self)@ == old(self)@.remove(
                table_name@,
            ),
    ;

    fn get_table(&self, table_name: &str) -> (r: Result<Table, RepositoryError>)
        ensures
            !self@.contains_key(table_name@) ==> (r matches Err(RepositoryError::TableNotFound(n))
                && n@ == table_name@),
            self@.contains_key(table_name@) ==> (r matches Ok(t) && t@ == self@[table_name@].0@),
    ;

    fn get_table_names(&self) -> (r: Result<Vec<String>, RepositoryError>)
        ensures
            r is Ok,
            forall|i: int|
                0 <= i < r->Ok_0@.len() ==> self@.contains_key(#[trigger] r->Ok_0@[i]@),
            forall|k: Seq<char>| #[trigger]
                self@.contains_key(k) ==> exists|i: int|
                    0 <= i < r->Ok_0@.len() && r->Ok_0@[i]@ == k,
            forall|i: int, j: int|
                0 <= i < r->Ok_0@.len() && 0 <= j < r->Ok_0@.len() && i != j ==> r->Ok_0@[i]@
                    != r->Ok_0@[j]@,
    ;

    fn insert(&mut self, table_name: &str, row: &Row) -> (r: Result<(), RepositoryError>)
        ensures
            !old(self)@.contains_key(table_name@) ==> final(self)@ == old(self)@ && (r matches Err(
                RepositoryError::TableNotFound(n),
            ) && n@ == table_name@),
            old(self)@.contains_key(table_name@) ==> match insert_error(
                old(self)@[table_name@].0,
                old(self)@[table_name@].1,
                row@,
            ) {
                Some(e) => final(self)@ == old(self)@ && (r matches Err(re) && translates(e, re)),
                None => r is Ok && final(self)@ == old(self)@.insert(
                    table_name@,
                    (old(self)@[table_name@].0, old(self)@[table_name@].1.push(row@)),
                ),
            },
    ;

    fn insert_many(&mut self, table_name: &str, rows: &Vec<Row>) -> (r: Result<(), RepositoryError>)
        ensures
            !old(self)@.contains_key(table_name@) ==> final(self)@ == old(self)@ && (r matches Err(
                RepositoryError::TableNotFound(n),
            ) && n@ == table_name@),
            old(self)@.contains_key(table_name@) ==> {
                let done = insert_all(old(self)@[table_name@].0, old(self)@[table_name@].1, row_maps(rows@));
                &&& final(self)@ == old(self)@.insert(table_name@, (old(self)@[table_name@].0, done.0))
                &&& match done.1 {
                    Some(e) => r matches Err(re) && translates(e, re),
                    None => r is Ok,
                }
            },
    ;

    /// An empty column list selects every column.
    fn select(
        &self,
        table_name: &str,
        column_names: &Vec<String>,
        filter: Option<&FilterCondition>,
    ) -> (r: Result<ResultSet, RepositoryError>)
        ensures
            !self@.contains_key(table_name@) ==> (r matches Err(RepositoryError::TableNotFound(n))
                && n@ == table_name@),
            self@.contains_key(table_name@) ==> {
                let schema = self@[table_name@].0.columns@;
                if column_names@.len() == 0 {
                    r matches Ok(rs) && rs.columns@.len() == schema.len() && (forall|k: int|
                        0 <= k < schema.len() ==> (#[trigger] rs.columns@[k])@ == schema[k]@)
                        && row_maps(rs.rows@) == selected_rows(self@[table_name@].1, filter)
                } else if exists|k: int| is_first_missing(schema, column_names@, k) {
                    exists|k: int|
                        is_first_missing(schema, column_names@, k) && (r matches Err(
                            RepositoryError::ColumnNotFound(c, t),
                        ) && c@ == column_names@[k]@ && t@ == table_name@)
                } else {
                    r matches Ok(rs) && rs.columns@.len() == column_names@.len() && (forall|k: int|
                        0 <= k < column_names@.len() ==> (#[trigger] rs.columns@[k])@
                            == schema[first_named(schema, column_names@[k]@)]@) && row_maps(
                        rs.rows@,
                    ) == selected_rows(self@[table_name@].1, filter)
                }
            },
    ;

    fn update(
        &mut self,
        table_name: &str,
        updates: &Vec<(String, Value)>,
        filter: Option<&FilterCondition>,
    ) -> (r: Result<usize, RepositoryError>)
        ensures
            !old(self)@.contains_key(table_name@) ==> final(self)@ == old(self)@ && (r matches Err(
                RepositoryError::TableNotFound(n),
            ) && n@ == table_name@),
            old(self)@.contains_key(table_name@) ==> {
                let schema = old(self)@[table_name@].0;
                let rows = old(self)@[table_name@].1;
                if exists|k: int| is_first_unknown(schema.columns@, updates@, k) {
                    &&& final(self)@ == old(self)@
                    &&& exists|k: int|
                        is_first_unknown(schema.columns@, updates@, k) && (r matches Err(
                            RepositoryError::ColumnNotFound(c, t),
                        ) && c@ == updates@[k].0@ && t@ == table_name@)
                } else {
                    &&& final(self)@.dom() == old(self)@.dom()
                    &&& forall|k: Seq<char>| k != table_name@ && #[trigger] old(self)@.contains_key(k) ==> final(self)@[k] == old(self)@[k]
                    &&& final(self)@[table_name@].0 == schema
                    &&& final(self)@[table_name@].1.len() == rows.len()
                    &&& forall|i: int|
                        0 <= i < rows.len() ==> #[trigger] final(self)@[table_name@].1[i] == if selected(
                            rows[i],
                            filter,
                        ) {
                            assigned(rows[i], updates@)
                        } else {
                            rows[i]
                        }
                    &&& r == Ok::<usize, RepositoryError>(selected_rows(rows, filter).len() as usize)
                }
            },
    ;

    fn delete(&mut self, table_name: &str, filter: Option<&FilterCondition>) -> (r: Result<
        usize,
        RepositoryError,
    >)
        ensures
            !old(self)@.contains_key(table_name@) ==> final(self)@ == old(self)@ && (r matches Err(
                RepositoryError::TableNotFound(n),
            ) && n@ == table_name@),
            old(self)@.contains_key(table_name@) ==> {
                let rows = old(self)@[table_name@].1;
                let kept = unselected_rows(rows, filter);
                &&& final(self)@ == old(self)@.insert(table_name@, (old(self)@[table_name@].0, kept))
                &&& r == Ok::<usize, RepositoryError>((rows.len() - kept.len()) as usize)
            },
    ;
}

/// The repository over an in-memory storage engine.
#[derive(Debug)]
pub struct MemoryTableRepository {
    storage: MemoryStorage,
}

impl View for MemoryTableRepository {
    type V = Map<Seq<char>, (Table, Seq<RowMap>)>;

    closed spec fn view(&self) -> Map<Seq<char>, (Table, Seq<RowMap>)> {
        self.storage@
    }
}

impl MemoryTableRepository {
    pub fn new(storage: MemoryStorage) -> (r: MemoryTableRepository)
        ensures
            r@ == storage@,
    {
        MemoryTableRepository { storage }
    }
}


impl TableRepository for MemoryTableRepository {
    fn create_table(&mut self, table: &Table) -> (r: Result<(), RepositoryError>)
    {
        let t = table.clone();
        carry(self.storage.create_table(t, false))
    }

    fn table_exists(&self, table_name: &str) -> (r: Result<bool, RepositoryError>)
    {
        Ok(self.storage.table_exists(table_name))
    }

    fn drop_table(&mut self, table_name: &str) -> (r: Result<(), RepositoryError>)
    {
        carry(self.storage.drop_table(table_name, false))
    }

    fn get_table(&self, table_name: &str) -> (r: Result<Table, RepositoryError>)
    {
        carry(self.storage.get_table(table_name))
    }

    fn get_table_names(&self) -> (r: Result<Vec<String>, RepositoryError>)
    {
        let names = self.storage.get_table_names();
        assert(self@ == self.storage@);
        assert(forall|i: int| 0 <= i < names@.len() ==> self@.contains_key(#[trigger] names@[i]@));
        let r: Result<Vec<String>, RepositoryError> = Ok(names);
        assert forall|k: Seq<char>| #[trigger] self@.contains_key(k) implies exists|i: int|
            0 <= i < r->Ok_0@.len() && r->Ok_0@[i]@ == k by {
            let i = choose|i: int| 0 <= i < names@.len() && names@[i]@ == k;
            assert(r->Ok_0@[i]@ == k);
        }
        assert(forall|i: int, j: int|
                0 <= i < names@.len() && 0 <= j < names@.len() && i != j ==> names@[i]@
                    != names@[j]@);
        r
    }

    fn insert(&mut self, table_name: &str, row: &Row) -> (r: Result<(), RepositoryError>)
    {
        carry(self.storage.insert_row(table_name, row.clone()))
    }

    fn insert_many(&mut self, table_name: &str, rows: &Vec<Row>) -> (r: Result<(), RepositoryError>)
    {
        let mut copies: Vec<Row> = Vec::new();
        let mut i: usize = 0;
        while i < rows.len()
            invariant
                i <= rows@.len(),
                row_maps(copies@) == row_maps(rows@).take(i as int),
            decreases rows@.len() - i,
        {
            let ghost before = copies@;
            copies.push(rows[i].clone());
            assert(row_maps(copies@) =~= row_maps(before).push(rows@[i as int]@));
            assert(row_maps(rows@).take(i + 1) =~= row_maps(rows@).take(i as int).push(rows@[i as int]@));
            i = i + 1;
        }
        assert(row_maps(rows@).take(rows@.len() as int) =~= row_maps(rows@));
        carry(self.storage.insert_rows(table_name, copies))
    }

    fn select(
        &self,
        table_name: &str,
        column_names: &Vec<String>,
        filter: Option<&FilterCondition>,
    ) -> (r: Result<ResultSet, RepositoryError>)
    {
        let cols = if column_names.len() == 0 {
            None
        } else {
            Some(column_names)
        };
        let outcome = self.storage.select_rows(table_name, cols, filter);
        assert(self@ == self.storage@);
        match outcome {
            Ok((selected_columns, rows)) => {
                let ghost shown = selected_columns@;
                let mut result = ResultSet::new(selected_columns);
                let mut rest = rows;
                let ghost all = row_maps(rest@);
                let mut i: usize = 0;
                while rest.len() > 0
                    invariant
                        row_maps(result.rows@) + row_maps(rest@) == all,
                        result.columns@ == shown,
                    decreases rest@.len(),
                {
                    let ghost before = rest@;
                    let ghost done = result.rows@;
                    let row = rest.remove(0);
                    result.add_row(row);
                    assert(row_maps(before) =~= seq![row@] + row_maps(rest@));
                    assert(row_maps(result.rows@) =~= row_maps(done).push(row@));
                }
                assert(row_maps(rest@) =~= Seq::<RowMap>::empty());
                assert(row_maps(result.rows@) =~= all);
                assert(result.columns@ == shown);
                Ok(result)
            },
            Err(e) => Err(RepositoryError::from_storage(e)),
        }
    }

    fn update(
        &mut self,
        table_name: &str,
        updates: &Vec<(String, Value)>,
        filter: Option<&FilterCondition>,
    ) -> (r: Result<usize, RepositoryError>)
    {
        carry(self.storage.update_rows(table_name, updates, filter))
    }

    fn delete(&mut self, table_name: &str, filter: Option<&FilterCondition>) -> (r: Result<
        usize,
        RepositoryError,
    >)
    {
        carry(self.storage.delete_rows(table_name, filter))
    }
}

} // verus!
