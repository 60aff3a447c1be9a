//! The in-memory storage engine: one map from table name to schema and rows.
use vstd::prelude::*;

use crate::assoc::{
    assoc_map, has_key, keys_unique, lemma_assoc_index, lemma_assoc_push, lemma_assoc_remove,
    lemma_assoc_update,
};
use crate::column::Column;
use crate::filter::{eval_filter, filter_holds, FilterCondition};
use crate::table::{first_named, is_first_named, lemma_first_named, names_column, Row, Table};
use crate::text::str_eq;
use crate::value::{value_eq, DataType, Value};

verus! {

/// Errors of the storage engine.
#[derive(Debug, PartialEq)]
pub enum StorageError {
    TableNotFound(String),
    TableAlreadyExists(String),
    /// A column name, then the table name.
    ColumnNotFound(String, String),
    TypeMismatch { expected: DataType, actual: DataType },
    NotNullViolation(String),
    UniqueViolation(String),
    PrimaryKeyViolation,
    Internal(String),
}

/// A row as the map from column names to values.
pub type RowMap = Map<Seq<char>, Value>;

/// The maps of a sequence of rows.
pub open spec fn row_maps(rows: Seq<Row>) -> Seq<RowMap> {
    rows.map_values(|r: Row| r@)
}

/// The error, if any, that one column's check gives for a row. A column
/// the row does not hold counts as NULL.
pub open spec fn column_violation(c: Column, row: Map<Seq<char>, Value>) -> Option<StorageError> {
    if !row.contains_key(c.name@) || row[c.name@] is Null {
        if c.spec_is_not_null() {
            Some(StorageError::NotNullViolation(c.name))
        } else {
            None
        }
    } else if row[c.name@].type_of() != c.data_type {
        Some(StorageError::TypeMismatch { expected: c.data_type, actual: row[c.name@].type_of() })
    } else {
        None
    }
}

/// The first column, in schema order, whose NOT NULL or type check the row fails.
pub open spec fn first_violation(cols: Seq<Column>, row: Map<Seq<char>, Value>) -> Option<
    StorageError,
>
    decreases cols.len(),
{
    if cols.len() == 0 {
        None
    } else {
        match column_violation(cols[0], row) {
            Some(e) => Some(e),
            None => first_violation(cols.drop_first(), row),
        }
    }
}

/// A stored row holds, under column `c`, a value equal to `v`.
pub open spec fn value_taken(rows: Seq<RowMap>, c: Column, v: Value) -> bool {
    exists|j: int|
        0 <= j < rows.len() && (#[trigger] rows[j]).contains_key(c.name@) && value_eq(
            rows[j][c.name@],
            v,
        )
}

/// The error, if any, that a primary-key or unique column gives for a new
/// row: its non-NULL value is already stored in that column.
pub open spec fn column_clash(c: Column, rows: Seq<RowMap>, row: RowMap) -> Option<
    StorageError,
> {
    if (c.spec_is_primary_key() || c.spec_is_unique()) && row.contains_key(c.name@)
        && !(row[c.name@] is Null) && value_taken(rows, c, row[c.name@]) {
        if c.spec_is_primary_key() {
            Some(StorageError::PrimaryKeyViolation)
        } else {
            Some(StorageError::UniqueViolation(c.name))
        }
    } else {
        None
    }
}

/// The first column, in schema order, whose uniqueness the new row breaks.
pub open spec fn first_clash(cols: Seq<Column>, rows: Seq<RowMap>, row: RowMap) -> Option<
    StorageError,
>
    decreases cols.len(),
{
    if cols.len() == 0 {
        None
    } else {
        match column_clash(cols[0], rows, row) {
            Some(e) => Some(e),
            None => first_clash(cols.drop_first(), rows, row),
        }
    }
}

/// Why a row may not be added to a table holding `rows`, if it may not.
pub open spec fn insert_error(schema: Table, rows: Seq<RowMap>, row: RowMap) -> Option<
    StorageError,
> {
    match first_violation(schema.columns@, row) {
        Some(e) => Some(e),
        None => first_clash(schema.columns@, rows, row),
    }
}

/// A row that fails a NOT NULL or type check, or repeats a stored value of
/// a primary-key or unique column, is one that insertion rejects.
pub proof fn lemma_violation_rejected(schema: Table, rows: Seq<RowMap>, row: RowMap)
    requires
        first_violation(schema.columns@, row) is Some || first_clash(schema.columns@, rows, row) is Some,
    ensures
        insert_error(schema, rows, row) is Some,
{
}

/// Inserting `new` one row after another: the rows stored at the end, and
/// the error that stopped the batch, if one did.
pub open spec fn insert_all(schema: Table, rows: Seq<RowMap>, new: Seq<RowMap>) -> (Seq<RowMap>, Option<
    StorageError,
>)
    decreases new.len(),
{
    if new.len() == 0 {
        (rows, None)
    } else {
        match insert_error(schema, rows, new[0]) {
            Some(e) => (rows, Some(e)),
            None => insert_all(schema, rows.push(new[0]), new.drop_first()),
        }
    }
}

/// Whether a row is selected: every row when there is no filter.
pub open spec fn selected(row: RowMap, filter: Option<&FilterCondition>) -> bool {
    match filter {
        Some(f) => filter_holds(row, *f),
        None => true,
    }
}

/// The selected rows, in order.
pub open spec fn selected_rows(rows: Seq<RowMap>, filter: Option<&FilterCondition>) -> Seq<RowMap>
    decreases rows.len(),
{
    if rows.len() == 0 {
        rows
    } else if selected(rows.last(), filter) {
        selected_rows(rows.drop_last(), filter).push(rows.last())
    } else {
        selected_rows(rows.drop_last(), filter)
    }
}

/// The rows that are not selected, in order.
pub open spec fn unselected_rows(rows: Seq<RowMap>, filter: Option<&FilterCondition>) -> Seq<RowMap>
    decreases rows.len(),
{
    if rows.len() == 0 {
        rows
    } else if selected(rows.last(), filter) {
        unselected_rows(rows.drop_last(), filter)
    } else {
        unselected_rows(rows.drop_last(), filter).push(rows.last())
    }
}

/// A row's map after the assignments, made in order.
pub open spec fn assigned(row: Map<Seq<char>, Value>, updates: Seq<(String, Value)>) -> Map<
    Seq<char>,
    Value,
>
    decreases updates.len(),
{
    if updates.len() == 0 {
        row
    } else {
        assigned(row, updates.drop_last()).insert(updates.last().0@, updates.last().1)
    }
}

/// The first assignment whose column the schema lacks.
pub open spec fn is_first_unknown(cols: Seq<Column>, updates: Seq<(String, Value)>, k: int) -> bool {
    &&& 0 <= k < updates.len()
    &&& !names_column(cols, updates[k].0@)
    &&& forall|j: int| 0 <= j < k ==> names_column(cols, #[trigger] updates[j].0@)
}

/// A table's schema and rows, as the engine holds them.
#[derive(Debug)]
struct TableData {
    schema: Table,
    rows: Vec<Row>,
}

impl TableData {
    fn new(schema: Table) -> (r: TableData)
        ensures
            r.schema == schema,
            r.rows@ == Seq::<Row>::empty(),
    {
        TableData { schema, rows: Vec::new() }
    }

    fn get_column_index(&self, column_name: &str) -> (r: Option<usize>)
        ensures
            r matches Some(i) ==> is_first_named(self.schema.columns@, column_name@, i as int),
            r is None ==> !names_column(self.schema.columns@, column_name@),
    {
        self.schema.get_column_index(column_name)
    }

    /// Checks NOT NULL and the exact type of every column, in schema order.
    fn validate_row(&self, row: &Row) -> (r: Result<(), StorageError>)
        ensures
            r == match first_violation(self.schema.columns@, row@) {
                Some(e) => Err(e),
                None => Ok::<(), StorageError>(()),
            },
    {
        let cols = &self.schema.columns;
        let mut i: usize = 0;
        assert(cols@.skip(0) =~= cols@);
        while i < cols.len()
            invariant
                cols@ == self.schema.columns@,
                i <= cols@.len(),
                first_violation(cols@, row@) == first_violation(cols@.skip(i as int), row@),
            decreases cols@.len() - i,
        {
            let column = &cols[i];
            assert(cols@.skip(i as int)[0] == cols@[i as int]);
            assert(cols@.skip(i as int).drop_first() =~= cols@.skip(i + 1));
            match row.get(column.name.as_str()) {
                None => {
                    if column.is_not_null() {
                        return Err(StorageError::NotNullViolation(column.name.clone()));
                    }
                },
                Some(v) => {
                    if v.is_null() {
                        if column.is_not_null() {
                            return Err(StorageError::NotNullViolation(column.name.clone()));
                        }
                    } else if v.data_type() != column.data_type {
                        return Err(
                            StorageError::TypeMismatch {
                                expected: column.data_type,
                                actual: v.data_type(),
                            },
                        );
                    }
                },
            }
            i = i + 1;
        }
        Ok(())
    }

    /// Whether a stored row holds a value equal to `v` under `name`.
    fn value_stored(&self, column: &Column, v: &Value) -> (r: bool)
        ensures
            r == value_taken(row_maps(self.rows@), *column, *v),
    {
        let mut j: usize = 0;
        while j < self.rows.len()
            invariant
                j <= self.rows@.len(),
                forall|k: int|
                    0 <= k < j ==> !((#[trigger] row_maps(self.rows@)[k]).contains_key(column.name@)
                        && value_eq(row_maps(self.rows@)[k][column.name@], *v)),
            decreases self.rows@.len() - j,
        {
            match self.rows[j].get(column.name.as_str()) {
                Some(existing) => {
                    if existing.equals(v) {
                        assert(row_maps(self.rows@)[j as int] == self.rows@[j as int]@);
                        return true;
                    }
                },
                None => {},
            }
            j = j + 1;
        }
        false
    }

    /// Checks that the row repeats no stored value of a primary-key or
    /// unique column. NULL never clashes.
    fn check_constraints(&self, row: &Row) -> (r: Result<(), StorageError>)
        ensures
            r == match first_clash(self.schema.columns@, row_maps(self.rows@), row@) {
                Some(e) => Err(e),
                None => Ok::<(), StorageError>(()),
            },
    {
        let cols = &self.schema.columns;
        let mut i: usize = 0;
        assert(cols@.skip(0) =~= cols@);
        while i < cols.len()
            invariant
                cols@ == self.schema.columns@,
                i <= cols@.len(),
                first_clash(cols@, row_maps(self.rows@), row@) == first_clash(
                    cols@.skip(i as int),
                    row_maps(self.rows@),
                    row@,
                ),
            decreases cols@.len() - i,
        {
            let column = &cols[i];
            assert(cols@.skip(i as int)[0] == cols@[i as int]);
            assert(cols@.skip(i as int).drop_first() =~= cols@.skip(i + 1));
            let primary = column.is_primary_key();
            if primary || column.is_unique() {
                match row.get(column.name.as_str()) {
                    Some(v) => {
                        if !v.is_null() && self.value_stored(column, v) {
                            if primary {
                                return Err(StorageError::PrimaryKeyViolation);
                            } else {
                                return Err(StorageError::UniqueViolation(column.name.clone()));
                            }
                        }
                    },
                    None => {},
                }
            }
            i = i + 1;
        }
        Ok(())
    }

    /// Validates the row, checks its uniqueness, then appends it.
    fn insert_row(&mut self, row: Row) -> (r: Result<(), StorageError>)
        ensures
            final(self).schema == old(self).schema,
            match insert_error(old(self).schema, row_maps(old(self).rows@), row@) {
                Some(e) => r == Err::<(), StorageError>(e) && final(self).rows@ == old(self).rows@,
                None => r is Ok && final(self).rows@ == old(self).rows@.push(row),
            },
    {
        match self.validate_row(&row) {
            Err(e) => {
                return Err(e);
            },
            Ok(()) => {},
        }
        match self.check_constraints(&row) {
            Err(e) => {
                return Err(e);
            },
            Ok(()) => {},
        }
        self.rows.push(row);
        assert(row_maps(self.rows@) =~= row_maps(old(self).rows@).push(row@));
        Ok(())
    }

    /// Inserts the rows in order, stopping at the first that fails; the
    /// rows before it stay.
    #[verifier::loop_isolation(false)]
    fn insert_rows(&mut self, rows: Vec<Row>) -> (r: Result<(), StorageError>)
        ensures
            final(self).schema == old(self).schema,
            row_maps(final(self).rows@) == insert_all(
                old(self).schema,
                row_maps(old(self).rows@),
                row_maps(rows@),
            ).0,
            r == match insert_all(old(self).schema, row_maps(old(self).rows@), row_maps(rows@)).1 {
                Some(e) => Err(e),
                None => Ok::<(), StorageError>(()),
            },
    {
        let ghost all = rows@;
        let mut rest = rows;
        while rest.len() > 0
            invariant
                self.schema == old(self).schema,
                insert_all(old(self).schema, row_maps(old(self).rows@), row_maps(all)) == insert_all(
                    self.schema,
                    row_maps(self.rows@),
                    row_maps(rest@),
                ),
            decreases rest@.len(),
        {
            let ghost before = rest@;
            let row = rest.remove(0);
            assert(row_maps(before).drop_first() =~= row_maps(rest@));
            assert(row_maps(before)[0] == row@);
            let ghost stored = self.rows@;
            match self.insert_row(row) {
                Err(e) => {
                    return Err(e);
                },
                Ok(()) => {
                    assert(row_maps(self.rows@) =~= row_maps(stored).push(row_maps(before)[0]));
                },
            }
        }
        Ok(())
    }

    /// Sets, in every selected row, each assigned column to its value.
    /// Returns how many rows were selected.
    fn update_rows(&mut self, updates: &Vec<(String, Value)>, filter: Option<&FilterCondition>) -> (r:
        usize)
        ensures
            final(self).schema == old(self).schema,
            row_maps(final(self).rows@).len() == old(self).rows@.len(),
            forall|i: int|
                0 <= i < old(self).rows@.len() ==> #[trigger] row_maps(final(self).rows@)[i] == if selected(
                    row_maps(old(self).rows@)[i],
                    filter,
                ) {
                    assigned(row_maps(old(self).rows@)[i], updates@)
                } else {
                    row_maps(old(self).rows@)[i]
                },
            r == selected_rows(row_maps(old(self).rows@), filter).len(),
    {
        let ghost start = row_maps(self.rows@);
        let mut count: usize = 0;
        let mut i: usize = 0;
        while i < self.rows.len()
            invariant
                self.schema == old(self).schema,
                start == row_maps(old(self).rows@),
                self.rows@.len() == start.len(),
                i <= start.len(),
                count == selected_rows(start.take(i as int), filter).len(),
                count <= i,
                forall|k: int|
                    0 <= k < start.len() ==> #[trigger] row_maps(self.rows@)[k] == if k < i && selected(
                        start[k],
                        filter,
                    ) {
                        assigned(start[k], updates@)
                    } else {
                        start[k]
                    },
            decreases start.len() - i,
        {
            assert(start.take(i + 1).drop_last() =~= start.take(i as int));
            assert(row_maps(self.rows@)[i as int] == start[i as int]);
            let hit = match filter {
                Some(f) => eval_filter(&self.rows[i], f),
                None => true,
            };
            if hit {
                let mut row = self.rows[i].clone();
                let mut j: usize = 0;
                while j < updates.len()
                    invariant
                        j <= updates@.len(),
                        row@ == assigned(start[i as int], updates@.take(j as int)),
                    decreases updates@.len() - j,
                {
                    assert(updates@.take(j + 1).drop_last() =~= updates@.take(j as int));
                    row.set(updates[j].0.as_str(), updates[j].1.clone());
                    j = j + 1;
                }
                assert(updates@.take(updates@.len() as int) =~= updates@);
                let ghost before = self.rows@;
                self.rows.set(i, row);
                assert forall|k: int| 0 <= k < start.len() && k != i implies #[trigger] row_maps(
                    self.rows@,
                )[k] == row_maps(before)[k] by {}
                count = count + 1;
            }
            i = i + 1;
        }
        assert(start.take(start.len() as int) =~= start);
        count
    }

    /// Removes every selected row. Returns how many were removed.
    fn delete_rows(&mut self, filter: Option<&FilterCondition>) -> (r: usize)
        ensures
            final(self).schema == old(self).schema,
            row_maps(final(self).rows@) == unselected_rows(row_maps(old(self).rows@), filter),
            r == old(self).rows@.len() - final(self).rows@.len(),
    {
        let ghost start = row_maps(self.rows@);
        let mut kept: Vec<Row> = Vec::new();
        let mut i: usize = 0;
        while i < self.rows.len()
            invariant
                start == row_maps(self.rows@),
                i <= start.len(),
                row_maps(kept@) == unselected_rows(start.take(i as int), filter),
                kept@.len() <= i,
            decreases start.len() - i,
        {
            assert(start.take(i + 1).drop_last() =~= start.take(i as int));
            let hit = match filter {
                Some(f) => eval_filter(&self.rows[i], f),
                None => true,
            };
            if !hit {
                let ghost before = kept@;
                kept.push(self.rows[i].clone());
                assert(row_maps(kept@) =~= row_maps(before).push(start[i as int]));
            }
            i = i + 1;
        }
        assert(start.take(start.len() as int) =~= start);
        let removed = self.rows.len() - kept.len();
        self.rows = kept;
        removed
    }

    /// Copies of the selected rows, in order.
    fn select(&self, filter: Option<&FilterCondition>) -> (r: Vec<Row>)
        ensures
            row_maps(r@) == selected_rows(row_maps(self.rows@), filter),
    {
        let mut out: Vec<Row> = Vec::new();
        let mut i: usize = 0;
        while i < self.rows.len()
            invariant
                i <= self.rows@.len(),
                row_maps(out@) == selected_rows(row_maps(self.rows@).take(i as int), filter),
            decreases self.rows@.len() - i,
        {
            assert(row_maps(self.rows@).take(i + 1).drop_last() =~= row_maps(self.rows@).take(
                i as int,
            ));
            let keep = match filter {
                Some(f) => eval_filter(&self.rows[i], f),
                None => true,
            };
            let ghost before = out@;
            if keep {
                out.push(self.rows[i].clone());
                assert(row_maps(out@) =~= row_maps(before).push(row_maps(self.rows@)[i as int]));
            }
            i = i + 1;
        }
        assert(row_maps(self.rows@).take(self.rows@.len() as int) =~= row_maps(self.rows@));
        out
    }
}

/// The (name, (schema, rows)) entries of the stored tables.
spec fn table_entries(tables: Seq<TableData>) -> Seq<(Seq<char>, (Table, Seq<RowMap>))> {
    tables.map_values(|t: TableData| (t.schema.name@, (t.schema, row_maps(t.rows@))))
}

/// `k` is the first requested column name that the schema lacks.
pub open spec fn is_first_missing(cols: Seq<Column>, names: Seq<String>, k: int) -> bool {
    &&& 0 <= k < names.len()
    &&& !names_column(cols, names[k]@)
    &&& forall|j: int| 0 <= j < k ==> names_column(cols, #[trigger] names[j]@)
}

/// The storage engine: every table's schema and rows, by table name.
#[derive(Debug)]
pub struct MemoryStorage {
    tables: Vec<TableData>,
}

impl View for MemoryStorage {
    type V = Map<Seq<char>, (Table, Seq<RowMap>)>;

    closed spec fn view(&self) -> Map<Seq<char>, (Table, Seq<RowMap>)> {
        assoc_map(table_entries(self.tables@))
    }
}

/// Position of the table named `name`.
fn find_table(tables: &Vec<TableData>, name: &str) -> (r: Option<usize>)
    ensures
        r matches Some(i) ==> i < tables@.len() && tables@[i as int].schema.name@ == name@,
        r is None ==> !has_key(table_entries(tables@), name@),
{
    let mut i: usize = 0;
    while i < tables.len()
        invariant
            i <= tables@.len(),
            forall|j: int| 0 <= j < i ==> #[trigger] tables@[j].schema.name@ != name@,
        decreases tables@.len() - i,
    {
        if str_eq(tables[i].schema.name.as_str(), name) {
            return Some(i);
        }
        i = i + 1;
    }
    assert forall|j: int| 0 <= j < table_entries(tables@).len() implies #[trigger] table_entries(
        tables@,
    )[j].0 != name@ by {
        assert(tables@[j].schema.name@ != name@);
    }
    None
}

/// Replacing one table's data, keeping its schema, replaces that table's
/// entry in the map.
proof fn lemma_replace_table(before: Seq<TableData>, after: Seq<TableData>, i: int)
    requires
        keys_unique(table_entries(before)),
        0 <= i < before.len(),
        after.len() == before.len(),
        forall|j: int| 0 <= j < before.len() && j != i ==> #[trigger] after[j] == before[j],
        after[i].schema == before[i].schema,
    ensures
        keys_unique(table_entries(after)),
        assoc_map(table_entries(after)) == assoc_map(table_entries(before)).insert(
            before[i].schema.name@,
            (before[i].schema, row_maps(after[i].rows@)),
        ),
{
    let eb = table_entries(before);
    let v = (before[i].schema, row_maps(after[i].rows@));
    assert(table_entries(after) =~= eb.update(i, (eb[i].0, v)));
    lemma_assoc_update(eb, i, v);
}

impl MemoryStorage {
    #[verifier::type_invariant]
    closed spec fn inv(&self) -> bool {
        keys_unique(table_entries(self.tables@))
    }

    /// Looks up a table: its position, and what the map holds for it.
    fn locate(&self, name: &str) -> (r: Option<usize>)
        ensures
            r is None <==> !self@.contains_key(name@),
            r matches Some(i) ==> i < self.tables@.len() && table_entries(self.tables@)[i as int].0
                == name@ && self@[name@] == table_entries(self.tables@)[i as int].1,
    {
        proof {
            use_type_invariant(self);
        }
        let r = find_table(&self.tables, name);
        match r {
            Some(i) => {
                proof {
                    lemma_assoc_index(table_entries(self.tables@), i as int);
                }
            },
            None => {},
        }
        r
    }

    /// An engine holding no tables.
    pub fn new() -> (r: MemoryStorage)
        ensures
            r@ == Map::<Seq<char>, (Table, Seq<RowMap>)>::empty(),
    {
        let r = MemoryStorage { tables: Vec::new() };
        assert(r@ =~= Map::<Seq<char>, (Table, Seq<RowMap>)>::empty());
        r
    }

    /// Stores a new table with no rows. A taken name is an error, or no
    /// change at all when `if_not_exists` is set.
    pub fn create_table(&mut self, table: Table, if_not_exists: bool) -> (r: Result<(), StorageError>)
        ensures
            old(self)@.contains_key(table.name@) ==> final(self)@ == old(self)@ && r == if if_not_exists {
                Ok(())
            } else {
                Err(StorageError::TableAlreadyExists(table.name))
            },
            !old(self)@.contains_key(table.name@) ==> r is Ok && final(self)@ == old(self)@.insert(
                table.name@,
                (table, Seq::<RowMap>::empty()),
            ),
    {
        proof {
            use_type_invariant(&*self);
        }
        if self.locate(table.name.as_str()).is_some() {
            if if_not_exists {
                return Ok(());
            }
            return Err(StorageError::TableAlreadyExists(table.name));
        }
        let ghost t = table;
        let mut tables: Vec<TableData> = Vec::new();
        std::mem::swap(&mut tables, &mut self.tables);
        let ghost before = table_entries(tables@);
        tables.push(TableData::new(table));
        proof {
            assert(row_maps(Seq::<Row>::empty()) =~= Seq::<RowMap>::empty());
            assert(table_entries(tables@) =~= before.push((t.name@, (t, Seq::<RowMap>::empty()))));
            lemma_assoc_push(before, t.name@, (t, Seq::<RowMap>::empty()));
        }
        self.tables = tables;
        Ok(())
    }

    /// Removes a table with its rows. A missing table is an error, or no
    /// change at all when `if_exists` is set.
    pub fn drop_table(&mut self, table_name: &str, if_exists: bool) -> (r: Result<(), StorageError>)
        ensures
            !old(self)@.contains_key(table_name@) ==> final(self)@ == old(self)@ && (if if_exists {
                r is Ok
            } else {
                r matches Err(StorageError::TableNotFound(n)) && n@ == table_name@
            }),
            old(self)@.contains_key(table_name@) ==> r is Ok && final(self)@ == old(self)@.remove(
                table_name@,
            ),
    {
        proof {
            use_type_invariant(&*self);
        }
        match self.locate(table_name) {
            None => {
                if if_exists {
                    return Ok(());
                }
                Err(StorageError::TableNotFound(table_name.to_string()))
            },
            Some(i) => {
                let mut tables: Vec<TableData> = Vec::new();
                std::mem::swap(&mut tables, &mut self.tables);
                let ghost before = table_entries(tables@);
                tables.remove(i);
                proof {
                    assert(table_entries(tables@) =~= before.remove(i as int));
                    lemma_assoc_remove(before, i as int);
                }
                self.tables = tables;
                Ok(())
            },
        }
    }

    pub fn table_exists(&self, table_name: &str) -> (r: bool)
        ensures
            r == self@.contains_key(table_name@),
    {
        self.locate(table_name).is_some()
    }

    /// A copy of a table's schema.
    pub fn get_table(&self, table_name: &str) -> (r: Result<Table, StorageError>)
        ensures
            !self@.contains_key(table_name@) ==> (r matches Err(StorageError::TableNotFound(n))
                && n@ == table_name@),
            self@.contains_key(table_name@) ==> (r matches Ok(t) && t@ == self@[table_name@].0@),
    {
        match self.locate(table_name) {
            None => Err(StorageError::TableNotFound(table_name.to_string())),
            Some(i) => Ok(self.tables[i].schema.clone()),
        }
    }

    /// The names of all tables, each once, in the order they were created.
    pub fn get_table_names(&self) -> (r: Vec<String>)
        ensures
            forall|i: int| 0 <= i < r@.len() ==> self@.contains_key(#[trigger] r@[i]@),
            forall|k: Seq<char>| #[trigger] self@.contains_key(k) ==> exists|i: int| 0 <= i < r@.len() && r@[i]@ == k,
            forall|i: int, j: int| 0 <= i < r@.len() && 0 <= j < r@.len() && i != j ==> r@[i]@ != r@[j]@,
    {
        proof {
            use_type_invariant(self);
        }
        let ghost e = table_entries(self.tables@);
        let mut r: Vec<String> = Vec::new();
        let mut i: usize = 0;
        while i < self.tables.len()
            invariant
                e == table_entries(self.tables@),
                keys_unique(e),
                i <= self.tables@.len(),
                r@.len() == i,
                forall|j: int| 0 <= j < i ==> #[trigger] r@[j]@ == e[j].0,
            decreases self.tables@.len() - i,
        {
            r.push(self.tables[i].schema.name.clone());
            i = i + 1;
        }
        assert forall|j: int| 0 <= j < r@.len() implies self@.contains_key(#[trigger] r@[j]@) by {
            lemma_assoc_index(e, j);
        }
        assert forall|k: Seq<char>| #[trigger] self@.contains_key(k) implies exists|j: int|
            0 <= j < r@.len() && r@[j]@ == k by {
            let j = choose|j: int| 0 <= j < e.len() && e[j].0 == k;
            assert(r@[j]@ == k);
        }
        r
    }

    /// Inserts one row after validating it (NOT NULL, exact type) and
    /// checking primary-key and unique columns. A rejected row changes nothing.
    pub fn insert_row(&mut self, table_name: &str, row: Row) -> (r: Result<(), StorageError>)
        ensures
            !old(self)@.contains_key(table_name@) ==> final(self)@ == old(self)@ && (r matches Err(
                StorageError::TableNotFound(n),
            ) && n@ == table_name@),
            old(self)@.contains_key(table_name@) ==> match insert_error(
                old(self)@[table_name@].0,
                old(self)@[table_name@].1,
                row@,
            ) {
                Some(e) => r == Err::<(), StorageError>(e) && final(self)@ == old(self)@,
                None => r is Ok && final(self)@ == old(self)@.insert(
                    table_name@,
                    (old(self)@[table_name@].0, old(self)@[table_name@].1.push(row@)),
                ),
            },
            r is Err ==> final(self)@ == old(self)@,
    {
        proof {
            use_type_invariant(&*self);
        }
        match self.locate(table_name) {
            None => Err(StorageError::TableNotFound(table_name.to_string())),
            Some(i) => {
                let mut tables: Vec<TableData> = Vec::new();
                std::mem::swap(&mut tables, &mut self.tables);
                let ghost before = tables@;
                let ghost rv = row@;
                let result = tables[i].insert_row(row);
                proof {
                    lemma_replace_table(before, tables@, i as int);
                    assert(table_entries(before)[i as int].1 == (
                        before[i as int].schema,
                        row_maps(before[i as int].rows@),
                    ));
                    if result is Ok {
                        assert(row_maps(tables@[i as int].rows@) =~= row_maps(
                            before[i as int].rows@,
                        ).push(rv));
                    } else {
                        assert(old(self)@ =~= old(self)@.insert(
                            table_name@,
                            old(self)@[table_name@],
                        ));
                    }
                }
                self.tables = tables;
                result
            },
        }
    }

    /// Inserts the rows in order. The first row that fails stops the batch
    /// with its error; the rows inserted before it stay.
    pub fn insert_rows(&mut self, table_name: &str, rows: Vec<Row>) -> (r: Result<(), StorageError>)
        ensures
            !old(self)@.contains_key(table_name@) ==> final(self)@ == old(self)@ && (r matches Err(
                StorageError::TableNotFound(n),
            ) && n@ == table_name@),
            old(self)@.contains_key(table_name@) ==> {
                let done = insert_all(old(self)@[table_name@].0, old(self)@[table_name@].1, row_maps(rows@));
                &&& final(self)@ == old(self)@.insert(table_name@, (old(self)@[table_name@].0, done.0))
                &&& r == match done.1 {
                    Some(e) => Err(e),
                    None => Ok::<(), StorageError>(()),
                }
            },
    {
        proof {
            use_type_invariant(&*self);
        }
        match self.locate(table_name) {
            None => Err(StorageError::TableNotFound(table_name.to_string())),
            Some(i) => {
                let mut tables: Vec<TableData> = Vec::new();
                std::mem::swap(&mut tables, &mut self.tables);
                let ghost before = tables@;
                let result = tables[i].insert_rows(rows);
                proof {
                    lemma_replace_table(before, tables@, i as int);
                }
                self.tables = tables;
                result
            },
        }
    }

    /// Copies of the selected rows of a table, with the requested columns
    /// in the order requested, or all columns in schema order when none
    /// are requested.
    #[verifier::loop_isolation(false)]
    pub fn select_rows(
        &self,
        table_name: &str,
        columns: Option<&Vec<String>>,
        filter: Option<&FilterCondition>,
    ) -> (r: Result<(Vec<Column>, Vec<Row>), StorageError>)
        ensures
            !self@.contains_key(table_name@) ==> (r matches Err(StorageError::TableNotFound(n))
                && n@ == table_name@),
            self@.contains_key(table_name@) ==> {
                let schema = self@[table_name@].0.columns@;
                match columns {
                    Some(names) => if exists|k: int| is_first_missing(schema, names@, k) {
                        exists|k: int|
                            is_first_missing(schema, names@, k) && (r matches Err(
                                StorageError::ColumnNotFound(c, t),
                            ) && c@ == names@[k]@ && t@ == table_name@)
                    } else {
                        r matches Ok((cols, rows)) && cols@.len() == names@.len() && (forall|k: int|
                            0 <= k < names@.len() ==> (#[trigger] cols@[k])@ == schema[first_named(
                                schema,
                                names@[k]@,
                            )]@) && row_maps(rows@) == selected_rows(
                            self@[table_name@].1,
                            filter,
                        )
                    },
                    None => r matches Ok((cols, rows)) && cols@.len() == schema.len() && (forall|k: int|
                        0 <= k < schema.len() ==> (#[trigger] cols@[k])@ == schema[k]@) && row_maps(
                        rows@,
                    ) == selected_rows(self@[table_name@].1, filter),
                }
            },
    {
        match self.locate(table_name) {
            None => Err(StorageError::TableNotFound(table_name.to_string())),
            Some(i) => {
                let data = &self.tables[i];
                assert(table_entries(self.tables@)[i as int].1 == (
                    data.schema,
                    row_maps(data.rows@),
                ));
                let rows = data.select(filter);
                let mut cols: Vec<Column> = Vec::new();
                match columns {
                    Some(names) => {
                        let ghost mut idx: Seq<int> = Seq::empty();
                        let mut k: usize = 0;
                        while k < names.len()
                            invariant
                                k <= names@.len(),
                                cols@.len() == k,
                                idx.len() == k,
                                forall|j: int|
                                    0 <= j < k ==> is_first_named(
                                        data.schema.columns@,
                                        names@[j]@,
                                        #[trigger] idx[j],
                                    ) && cols@[j]@ == data.schema.columns@[idx[j]]@,
                                forall|j: int|
                                    0 <= j < k ==> names_column(
                                        data.schema.columns@,
                                        #[trigger] names@[j]@,
                                    ),
                            decreases names@.len() - k,
                        {
                            match data.schema.get_column(names[k].as_str()) {
                                Some(c) => {
                                    let ghost x = choose|x: int|
                                        is_first_named(data.schema.columns@, names@[k as int]@, x)
                                            && *c == data.schema.columns@[x];
                                    cols.push(c.clone());
                                    proof {
                                        idx = idx.push(x);
                                        assert(data.schema.columns@[x].name@ == names@[k as int]@);
                                    }
                                },
                                None => {
                                    assert(is_first_missing(data.schema.columns@, names@, k as int));
                                    return Err(
                                        StorageError::ColumnNotFound(
                                            names[k].clone(),
                                            table_name.to_string(),
                                        ),
                                    );
                                },
                            }
                            k = k + 1;
                        }
                        assert forall|k: int| !is_first_missing(data.schema.columns@, names@, k) by {}
                        assert forall|j: int| 0 <= j < names@.len() implies (#[trigger] cols@[j])@
                            == data.schema.columns@[first_named(
                            data.schema.columns@,
                            names@[j]@,
                        )]@ by {
                            lemma_first_named(data.schema.columns@, names@[j]@, idx[j]);
                        }
                    },
                    None => {
                        let mut k: usize = 0;
                        while k < data.schema.columns.len()
                            invariant
                                k <= data.schema.columns@.len(),
                                cols@.len() == k,
                                forall|j: int|
                                    0 <= j < k ==> (#[trigger] cols@[j])@ == data.schema.columns@[j]@,
                            decreases data.schema.columns@.len() - k,
                        {
                            cols.push(data.schema.columns[k].clone());
                            k = k + 1;
                        }
                    },
                }
                Ok((cols, rows))
            },
        }
    }

    /// Sets the assigned columns in every selected row and returns how many
    /// rows were selected. An assignment to a column the schema lacks is an
    /// error, and then nothing changes. Values are not checked against the
    /// column types or constraints.
    #[verifier::loop_isolation(false)]
    pub fn update_rows(
        &mut self,
        table_name: &str,
        updates: &Vec<(String, Value)>,
        filter: Option<&FilterCondition>,
    ) -> (r: Result<usize, StorageError>)
        ensures
            !old(self)@.contains_key(table_name@) ==> final(self)@ == old(self)@ && (r matches Err(
                StorageError::TableNotFound(n),
            ) && n@ == table_name@),
            old(self)@.contains_key(table_name@) ==> {
                let schema = old(self)@[table_name@].0;
                let rows = old(self)@[table_name@].1;
                if exists|k: int| is_first_unknown(schema.columns@, updates@, k) {
                    &&& final(self)@ == old(self)@
                    &&& exists|k: int|
                        is_first_unknown(schema.columns@, updates@, k) && (r matches Err(
                            StorageError::ColumnNotFound(c, t),
                        ) && c@ == updates@[k].0@ && t@ == table_name@)
                } else {
                    &&& final(self)@.dom() == old(self)@.dom()
                    &&& forall|k: Seq<char>| k != table_name@ && #[trigger] old(self)@.contains_key(k) ==> final(self)@[k] == old(self)@[k]
                    &&& final(self)@[table_name@].0 == schema
                    &&& final(self)@[table_name@].1.len() == rows.len()
                    &&& forall|i: int|
                        0 <= i < rows.len() ==> #[trigger] final(self)@[table_name@].1[i] == if selected(
                            rows[i],
                            filter,
                        ) {
                            assigned(rows[i], updates@)
                        } else {
                            rows[i]
                        }
                    &&& r == Ok::<usize, StorageError>(selected_rows(rows, filter).len() as usize)
                }
            },
    {
        proof {
            use_type_invariant(&*self);
        }
        match self.locate(table_name) {
            None => Err(StorageError::TableNotFound(table_name.to_string())),
            Some(i) => {
                let mut k: usize = 0;
                while k < updates.len()
                    invariant
                        k <= updates@.len(),
                        i < self.tables@.len(),
                        forall|j: int|
                            0 <= j < k ==> names_column(
                                self.tables@[i as int].schema.columns@,
                                #[trigger] updates@[j].0@,
                            ),
                    decreases updates@.len() - k,
                {
                    if self.tables[i].get_column_index(updates[k].0.as_str()).is_none() {
                        assert(is_first_unknown(self.tables@[i as int].schema.columns@, updates@, k as int));
                        return Err(
                            StorageError::ColumnNotFound(updates[k].0.clone(), table_name.to_string()),
                        );
                    }
                    k = k + 1;
                }
                assert forall|k: int| !is_first_unknown(self.tables@[i as int].schema.columns@, updates@, k) by {}
                let mut tables: Vec<TableData> = Vec::new();
                std::mem::swap(&mut tables, &mut self.tables);
                let ghost before = tables@;
                let count = tables[i].update_rows(updates, filter);
                proof {
                    lemma_replace_table(before, tables@, i as int);
                }
                self.tables = tables;
                Ok(count)
            },
        }
    }

    /// Removes every selected row, keeping the others in order, and returns
    /// how many were removed.
    pub fn delete_rows(&mut self, table_name: &str, filter: Option<&FilterCondition>) -> (r: Result<
        usize,
        StorageError,
    >)
        ensures
            !old(self)@.contains_key(table_name@) ==> final(self)@ == old(self)@ && (r matches Err(
                StorageError::TableNotFound(n),
            ) && n@ == table_name@),
            old(self)@.contains_key(table_name@) ==> {
                let rows = old(self)@[table_name@].1;
                let kept = unselected_rows(rows, filter);
                &&& final(self)@ == old(self)@.insert(table_name@, (old(self)@[table_name@].0, kept))
                &&& r == Ok::<usize, StorageError>((rows.len() - kept.len()) as usize)
            },
    {
        proof {
            use_type_invariant(&*self);
        }
        match self.locate(table_name) {
            None => Err(StorageError::TableNotFound(table_name.to_string())),
            Some(i) => {
                let mut tables: Vec<TableData> = Vec::new();
                std::mem::swap(&mut tables, &mut self.tables);
                let ghost before = tables@;
                let count = tables[i].delete_rows(filter);
                proof {
                    lemma_replace_table(before, tables@, i as int);
                }
                self.tables = tables;
                Ok(count)
            },
        }
    }
}

} // verus!
