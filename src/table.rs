//! Tables, rows and result sets.
use vstd::prelude::*;

use crate::assoc::{assoc_map, has_key, keys_unique, lemma_assoc_index, lemma_assoc_push, lemma_assoc_update};
use crate::column::{Column, ColumnView};
use crate::text::str_eq;
use crate::value::{value_eq, Value};

verus! {

/// Errors in building a table schema.
#[derive(Debug, PartialEq)]
pub enum TableError {
    ColumnAlreadyExists(String),
    ColumnNotFound(String),
    NoColumns,
    MultiplePrimaryKeys,
}

impl TableError {
    /// The error's message.
    pub fn message(&self) -> (r: String)
        ensures
            self matches TableError::ColumnAlreadyExists(n) ==> r@ == "Column '"@ + n@
                + "' already exists in table"@,
            self matches TableError::ColumnNotFound(n) ==> r@ == "Column '"@ + n@
                + "' not found in table"@,
            self is NoColumns ==> r@ == "Table must have at least one column"@,
            self is MultiplePrimaryKeys ==> r@ == "Multiple primary keys not allowed"@,
    {
        match self {
            TableError::ColumnAlreadyExists(n) => {
                let mut m = "Column '".to_string();
                m.append(n.as_str());
                m.append("' already exists in table");
                m
            },
            TableError::ColumnNotFound(n) => {
                let mut m = "Column '".to_string();
                m.append(n.as_str());
                m.append("' not found in table");
                m
            },
            TableError::NoColumns => "Table must have at least one column".to_string(),
            TableError::MultiplePrimaryKeys => "Multiple primary keys not allowed".to_string(),
        }
    }
}

/// A table schema: a name and its columns in declaration order.
#[derive(Debug, PartialEq)]
pub struct Table {
    pub name: String,
    pub columns: Vec<Column>,
}

pub struct TableView {
    pub name: Seq<char>,
    pub columns: Seq<ColumnView>,
}

impl View for Table {
    type V = TableView;

    open spec fn view(&self) -> TableView {
        TableView { name: self.name@, columns: self.columns@.map_values(|c: Column| c@) }
    }
}

/// Some column of `cols` is named `name`.
pub open spec fn names_column(cols: Seq<Column>, name: Seq<char>) -> bool {
    exists|i: int| 0 <= i < cols.len() && #[trigger] cols[i].name@ == name
}

/// `i` is the first column of `cols` named `name`.
pub open spec fn is_first_named(cols: Seq<Column>, name: Seq<char>, i: int) -> bool {
    &&& 0 <= i < cols.len()
    &&& cols[i].name@ == name
    &&& forall|j: int| 0 <= j < i ==> #[trigger] cols[j].name@ != name
}

/// The position of the first column named `name`, where there is one.
pub open spec fn first_named(cols: Seq<Column>, name: Seq<char>) -> int {
    choose|i: int| is_first_named(cols, name, i)
}

/// The first column named `name` is the one that `first_named` picks.
pub proof fn lemma_first_named(cols: Seq<Column>, name: Seq<char>, i: int)
    requires
        is_first_named(cols, name, i),
    ensures
        first_named(cols, name) == i,
{
    let j = first_named(cols, name);
    assert(is_first_named(cols, name, j));
    if j < i {
        assert(cols[j].name@ != name);
    } else if j > i {
        assert(cols[i].name@ != name);
    }
}

/// `i` is the first primary-key column of `cols`.
pub open spec fn is_first_primary_key(cols: Seq<Column>, i: int) -> bool {
    &&& 0 <= i < cols.len()
    &&& cols[i].spec_is_primary_key()
    &&& forall|j: int| 0 <= j < i ==> !(#[trigger] cols[j].spec_is_primary_key())
}

pub open spec fn has_primary_key(cols: Seq<Column>) -> bool {
    exists|i: int| 0 <= i < cols.len() && #[trigger] cols[i].spec_is_primary_key()
}

/// Position of the first column named `name`.
fn find_column(cols: &Vec<Column>, name: &str) -> (r: Option<usize>)
    ensures
        r matches Some(i) ==> is_first_named(cols@, name@, i as int),
        r is None ==> !names_column(cols@, name@),
{
    let mut i: usize = 0;
    while i < cols.len()
        invariant
            i <= cols@.len(),
            forall|j: int| 0 <= j < i ==> #[trigger] cols@[j].name@ != name@,
        decreases cols@.len() - i,
    {
        if str_eq(cols[i].name.as_str(), name) {
            return Some(i);
        }
        i = i + 1;
    }
    None
}

/// Position of the first primary-key column.
fn find_primary_key(cols: &Vec<Column>) -> (r: Option<usize>)
    ensures
        r matches Some(i) ==> is_first_primary_key(cols@, i as int),
        r is None ==> !has_primary_key(cols@),
{
    let mut i: usize = 0;
    while i < cols.len()
        invariant
            i <= cols@.len(),
            forall|j: int| 0 <= j < i ==> !(#[trigger] cols@[j].spec_is_primary_key()),
        decreases cols@.len() - i,
    {
        if cols[i].is_primary_key() {
            return Some(i);
        }
        i = i + 1;
    }
    None
}

impl Clone for Table {
    fn clone(&self) -> (r: Table)
        ensures
            r@ == self@,
    {
        let mut columns: Vec<Column> = Vec::new();
        let mut i: usize = 0;
        while i < self.columns.len()
            invariant
                i <= self.columns@.len(),
                columns@.len() == i,
                forall|j: int| 0 <= j < i ==> #[trigger] columns@[j]@ == self.columns@[j]@,
            decreases self.columns@.len() - i,
        {
            columns.push(self.columns[i].clone());
            i = i + 1;
        }
        let r = Table { name: self.name.clone(), columns };
        assert(r@.columns =~= self@.columns);
        r
    }
}

impl Table {
    /// A table with no columns yet.
    pub fn new(name: &str) -> (r: Table)
        ensures
            r.name@ == name@,
            r.columns@ == Seq::<Column>::empty(),
    {
        Table { name: name.to_string(), columns: Vec::new() }
    }

    /// Appends `column`, unless a column of that name exists already or
    /// both it and an existing column are primary keys.
    pub fn add_column(&mut self, column: Column) -> (r: Result<(), TableError>)
        ensures
            names_column(old(self).columns@, column.name@) ==> (r matches Err(
                TableError::ColumnAlreadyExists(n),
            ) && n@ == column.name@),
            !names_column(old(self).columns@, column.name@) && column.spec_is_primary_key()
                && has_primary_key(old(self).columns@) ==> r == Err::<(), TableError>(
                TableError::MultiplePrimaryKeys,
            ),
            r is Err ==> *final(self) == *old(self),
            r is Ok <==> !names_column(old(self).columns@, column.name@) && !(
            column.spec_is_primary_key() && has_primary_key(old(self).columns@)),
            r is Ok ==> final(self).name == old(self).name && final(self).columns@ == old(
                self,
            ).columns@.push(column),
    {
        if find_column(&self.columns, column.name.as_str()).is_some() {
            return Err(TableError::ColumnAlreadyExists(column.name));
        }
        if column.is_primary_key() && find_primary_key(&self.columns).is_some() {
            return Err(TableError::MultiplePrimaryKeys);
        }
        self.columns.push(column);
        Ok(())
    }

    /// `add_column` in builder form.
    pub fn with_column(self, column: Column) -> (r: Result<Table, TableError>)
        ensures
            names_column(self.columns@, column.name@) ==> (r matches Err(
                TableError::ColumnAlreadyExists(n),
            ) && n@ == column.name@),
            !names_column(self.columns@, column.name@) && column.spec_is_primary_key()
                && has_primary_key(self.columns@) ==> r matches Err(
                TableError::MultiplePrimaryKeys,
            ),
            r is Ok <==> !names_column(self.columns@, column.name@) && !(
            column.spec_is_primary_key() && has_primary_key(self.columns@)),
            r matches Ok(t) ==> t.name == self.name && t.columns@ == self.columns@.push(column),
    {
        let mut t = self;
        match t.add_column(column) {
            Ok(()) => Ok(t),
            Err(e) => Err(e),
        }
    }

    /// The first column named `name`.
    pub fn get_column(&self, name: &str) -> (r: Option<&Column>)
        ensures
            r matches Some(c) ==> exists|i: int|
                is_first_named(self.columns@, name@, i) && *c == self.columns@[i],
            r is None ==> !names_column(self.columns@, name@),
    {
        match find_column(&self.columns, name) {
            Some(i) => Some(&self.columns[i]),
            None => None,
        }
    }

    /// The first primary-key column.
    pub fn get_primary_key(&self) -> (r: Option<&Column>)
        ensures
            r matches Some(c) ==> exists|i: int|
                is_first_primary_key(self.columns@, i) && *c == self.columns@[i],
            r is None ==> !has_primary_key(self.columns@),
    {
        match find_primary_key(&self.columns) {
            Some(i) => Some(&self.columns[i]),
            None => None,
        }
    }

    /// A table is valid once it has a column.
    pub fn validate(&self) -> (r: Result<(), TableError>)
        ensures
            self.columns@.len() == 0 ==> r == Err::<(), TableError>(TableError::NoColumns),
            self.columns@.len() > 0 ==> r is Ok,
    {
        if self.columns.len() == 0 {
            return Err(TableError::NoColumns);
        }
        Ok(())
    }

    /// Position of the first column named `name`.
    pub fn get_column_index(&self, name: &str) -> (r: Option<usize>)
        ensures
            r matches Some(i) ==> is_first_named(self.columns@, name@, i as int),
            r is None ==> !names_column(self.columns@, name@),
    {
        find_column(&self.columns, name)
    }

    /// The column names in declaration order.
    pub fn column_names(&self) -> (r: Vec<&str>)
        ensures
            r@.len() == self.columns@.len(),
            forall|i: int| 0 <= i < r@.len() ==> #[trigger] r@[i]@ == self.columns@[i].name@,
    {
        let mut r: Vec<&str> = Vec::new();
        let mut i: usize = 0;
        while i < self.columns.len()
            invariant
                i <= self.columns@.len(),
                r@.len() == i,
                forall|j: int| 0 <= j < i ==> #[trigger] r@[j]@ == self.columns@[j].name@,
            decreases self.columns@.len() - i,
        {
            r.push(self.columns[i].name.as_str());
            i = i + 1;
        }
        r
    }
}

/// The pairs of a row's entry list, with names read as character sequences.
pub open spec fn entry_pairs(s: Seq<(String, Value)>) -> Seq<(Seq<char>, Value)> {
    s.map_values(|e: (String, Value)| (e.0@, e.1))
}

/// The map that a list of (name, value) pairs gives when they are set one
/// after another: a later pair for a name replaces an earlier one.
pub open spec fn pairs_map(s: Seq<(String, Value)>) -> Map<Seq<char>, Value>
    decreases s.len(),
{
    if s.len() == 0 {
        Map::empty()
    } else {
        pairs_map(s.drop_last()).insert(s.last().0@, s.last().1)
    }
}

/// One row: a value for each column name it holds. A name that a row does
/// not hold reads as NULL for validation. Two rows are equal when they hold
/// the same names with equal values, whatever order they were set in.
#[derive(Debug)]
pub struct Row {
    entries: Vec<(String, Value)>,
}

impl View for Row {
    type V = Map<Seq<char>, Value>;

    closed spec fn view(&self) -> Map<Seq<char>, Value> {
        assoc_map(entry_pairs(self.entries@))
    }
}

/// Position of the entry named `name`.
fn find_entry(entries: &Vec<(String, Value)>, name: &str) -> (r: Option<usize>)
    ensures
        r matches Some(i) ==> i < entries@.len() && entries@[i as int].0@ == name@,
        r is None ==> !has_key(entry_pairs(entries@), name@),
{
    let mut i: usize = 0;
    while i < entries.len()
        invariant
            i <= entries@.len(),
            forall|j: int| 0 <= j < i ==> #[trigger] entries@[j].0@ != name@,
        decreases entries@.len() - i,
    {
        if str_eq(entries[i].0.as_str(), name) {
            return Some(i);
        }
        i = i + 1;
    }
    assert forall|j: int| 0 <= j < entry_pairs(entries@).len() implies #[trigger] entry_pairs(
        entries@,
    )[j].0 != name@ by {
        assert(entries@[j].0@ != name@);
    }
    None
}

impl Row {
    #[verifier::type_invariant]
    closed spec fn inv(&self) -> bool {
        keys_unique(entry_pairs(self.entries@))
    }

    /// A row holding no values.
    pub fn new() -> (r: Row)
        ensures
            r@ == Map::<Seq<char>, Value>::empty(),
    {
        let r = Row { entries: Vec::new() };
        assert(r@ =~= Map::<Seq<char>, Value>::empty());
        r
    }

    /// The row that setting each pair in turn gives.
    pub fn from_values(values: Vec<(String, Value)>) -> (r: Row)
        ensures
            r@ == pairs_map(values@),
    {
        let mut r = Row::new();
        let mut rest = values;
        let ghost mut taken: Seq<(String, Value)> = Seq::empty();
        let ghost all = rest@;
        while rest.len() > 0
            invariant
                taken + rest@ == all,
                r@ == pairs_map(taken),
            decreases rest@.len(),
        {
            let ghost before = rest@;
            let (name, value) = rest.remove(0);
            let ghost pair = (name, value);
            r.set(name.as_str(), value);
            proof {
                let t = taken;
                taken = taken.push(pair);
                assert(taken.drop_last() =~= t);
                assert(before =~= seq![pair] + rest@);
                assert(taken + rest@ =~= t + before);
            }
        }
        assert(taken =~= all);
        r
    }

    /// The value held under `name`.
    pub fn get(&self, name: &str) -> (r: Option<&Value>)
        ensures
            r matches Some(v) ==> self@.contains_key(name@) && *v == self@[name@],
            r is None ==> !self@.contains_key(name@),
    {
        proof {
            use_type_invariant(self);
        }
        match find_entry(&self.entries, name) {
            Some(i) => {
                proof {
                    lemma_assoc_index(entry_pairs(self.entries@), i as int);
                }
                Some(&self.entries[i].1)
            },
            None => None,
        }
    }

    /// Sets the value under `name`, replacing any earlier one.
    pub fn set(&mut self, name: &str, value: Value)
        ensures
            final(self)@ == old(self)@.insert(name@, value),
    {
        proof {
            use_type_invariant(&*self);
        }
        let mut entries: Vec<(String, Value)> = Vec::new();
        std::mem::swap(&mut entries, &mut self.entries);
        let ghost old_pairs = entry_pairs(entries@);
        match find_entry(&entries, name) {
            Some(i) => {
                let ghost v2 = value;
                entries.set(i, (name.to_string(), value));
                proof {
                    assert(entry_pairs(entries@) =~= old_pairs.update(
                        i as int,
                        (old_pairs[i as int].0, v2),
                    ));
                    lemma_assoc_update(old_pairs, i as int, v2);
                }
            },
            None => {
                let ghost v2 = value;
                let key = name.to_string();
                entries.push((key, value));
                proof {
                    assert(entry_pairs(entries@) =~= old_pairs.push((name@, v2)));
                    lemma_assoc_push(old_pairs, name@, v2);
                }
            },
        }
        self.entries = entries;
    }
}

impl Clone for Row {
    fn clone(&self) -> (r: Row)
        ensures
            r@ == self@,
    {
        proof {
            use_type_invariant(self);
        }
        let mut entries: Vec<(String, Value)> = Vec::new();
        let mut i: usize = 0;
        while i < self.entries.len()
            invariant
                i <= self.entries@.len(),
                entries@ == self.entries@.take(i as int),
            decreases self.entries@.len() - i,
        {
            let e = &self.entries[i];
            entries.push((e.0.clone(), e.1.clone()));
            assert(entries@ =~= self.entries@.take(i + 1));
            i = i + 1;
        }
        assert(entries@ =~= self.entries@);
        Row { entries }
    }
}

/// Every name of `a` is a name of `b`, with an equal value.
pub open spec fn row_within(a: Map<Seq<char>, Value>, b: Map<Seq<char>, Value>) -> bool {
    forall|k: Seq<char>| #[trigger] a.contains_key(k) ==> b.contains_key(k) && value_eq(a[k], b[k])
}

/// Rows hold the same names with equal values.
pub open spec fn rows_equal(a: Map<Seq<char>, Value>, b: Map<Seq<char>, Value>) -> bool {
    row_within(a, b) && row_within(b, a)
}

/// Whether every value of `a` is held by `b` under the same name.
fn row_within_of(a: &Row, b: &Row) -> (r: bool)
    ensures
        r == row_within(a@, b@),
{
    proof {
        use_type_invariant(a);
    }
    let ghost pairs = entry_pairs(a.entries@);
    let mut i: usize = 0;
    while i < a.entries.len()
        invariant
            pairs == entry_pairs(a.entries@),
            keys_unique(pairs),
            a@ == assoc_map(pairs),
            i <= a.entries@.len(),
            forall|j: int| 0 <= j < i ==> b@.contains_key(#[trigger] pairs[j].0) && value_eq(pairs[j].1, b@[pairs[j].0]),
        decreases a.entries@.len() - i,
    {
        let e = &a.entries[i];
        proof {
            lemma_assoc_index(pairs, i as int);
        }
        match b.get(e.0.as_str()) {
            Some(w) => {
                if !e.1.equals(w) {
                    return false;
                }
            },
            None => {
                return false;
            },
        }
        i = i + 1;
    }
    assert forall|k: Seq<char>| #[trigger] a@.contains_key(k) implies b@.contains_key(k) && value_eq(a@[k], b@[k]) by {
        let j = choose|j: int| 0 <= j < pairs.len() && pairs[j].0 == k;
        lemma_assoc_index(pairs, j);
    }
    true
}

impl PartialEq for Row {
    fn eq(&self, other: &Row) -> (r: bool) {
        row_within_of(self, other) && row_within_of(other, self)
    }
}

impl vstd::std_specs::cmp::PartialEqSpecImpl for Row {
    open spec fn obeys_eq_spec() -> bool {
        true
    }

    open spec fn eq_spec(&self, other: &Row) -> bool {
        rows_equal(self@, other@)
    }
}

impl Default for Row {
    fn default() -> (r: Row)
        ensures
            r@ == Map::<Seq<char>, Value>::empty(),
    {
        Row::new()
    }
}

/// The answer to a query: the columns asked for, and the matching rows in
/// storage order.
#[derive(Debug, PartialEq)]
pub struct ResultSet {
    pub columns: Vec<Column>,
    pub rows: Vec<Row>,
}

impl ResultSet {
    /// A result with the given columns and no rows.
    pub fn new(columns: Vec<Column>) -> (r: ResultSet)
        ensures
            r.columns == columns,
            r.rows@ == Seq::<Row>::empty(),
    {
        ResultSet { columns, rows: Vec::new() }
    }

    pub fn add_row(&mut self, row: Row)
        ensures
            final(self).columns == old(self).columns,
            final(self).rows@ == old(self).rows@.push(row),
    {
        self.rows.push(row);
    }

    pub fn len(&self) -> (r: usize)
        ensures
            r == self.rows@.len(),
    {
        self.rows.len()
    }

    pub fn is_empty(&self) -> (r: bool)
        ensures
            r == (self.rows@.len() == 0),
    {
        self.rows.len() == 0
    }
}

} // verus!
