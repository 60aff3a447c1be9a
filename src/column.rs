//! Column definitions and their constraints.
use vstd::prelude::*;

use crate::value::{data_type_label, DataType};

verus! {

/// A constraint on the values of one column.
#[derive(Debug, PartialEq)]
pub enum Constraint {
    PrimaryKey,
    Unique,
    NotNull,
    /// A default value, kept as the literal's text.
    Default(String),
}

impl Clone for Constraint {
    fn clone(&self) -> (r: Constraint)
        ensures
            r == *self,
    {
        match self {
            Constraint::PrimaryKey => Constraint::PrimaryKey,
            Constraint::Unique => Constraint::Unique,
            Constraint::NotNull => Constraint::NotNull,
            Constraint::Default(v) => Constraint::Default(v.clone()),
        }
    }
}

/// A constraint as SQL writes it.
pub open spec fn constraint_text(c: Constraint) -> Seq<char> {
    match c {
        Constraint::PrimaryKey => "PRIMARY KEY"@,
        Constraint::Unique => "UNIQUE"@,
        Constraint::NotNull => "NOT NULL"@,
        Constraint::Default(v) => "DEFAULT "@ + v@,
    }
}

impl Constraint {
    /// The constraint as SQL writes it.
    pub fn text(&self) -> (r: String)
        ensures
            r@ == constraint_text(*self),
    {
        match self {
            Constraint::PrimaryKey => "PRIMARY KEY".to_string(),
            Constraint::Unique => "UNIQUE".to_string(),
            Constraint::NotNull => "NOT NULL".to_string(),
            Constraint::Default(v) => {
                let mut m = "DEFAULT ".to_string();
                m.append(v.as_str());
                m
            },
        }
    }
}

/// The text of the first `Default` constraint of a list, if any.
pub open spec fn first_default(s: Seq<Constraint>) -> Option<Seq<char>>
    decreases s.len(),
{
    if s.len() == 0 {
        None
    } else {
        match s[0] {
            Constraint::Default(v) => Some(v@),
            _ => first_default(s.drop_first()),
        }
    }
}

/// Appending a constraint that is no DEFAULT keeps the first DEFAULT.
pub proof fn lemma_first_default_push(s: Seq<Constraint>, c: Constraint)
    requires
        !(c is Default),
    ensures
        first_default(s.push(c)) == first_default(s),
    decreases s.len(),
{
    if s.len() > 0 {
        assert(s.push(c)[0] == s[0]);
        assert(s.push(c).drop_first() =~= s.drop_first().push(c));
        lemma_first_default_push(s.drop_first(), c);
    } else {
        assert(s.push(c)[0] == c);
        assert(s.push(c).drop_first() =~= Seq::<Constraint>::empty());
        assert(first_default(Seq::<Constraint>::empty()) is None);
        assert(first_default(s) is None);
    }
}

/// A list without DEFAULT constraints followed by one DEFAULT has that one
/// as its first.
pub proof fn lemma_first_default_after(s: Seq<Constraint>, v: String)
    requires
        forall|i: int| 0 <= i < s.len() ==> !(#[trigger] s[i] is Default),
    ensures
        first_default(s.push(Constraint::Default(v))) == Some(v@),
    decreases s.len(),
{
    let d = Constraint::Default(v);
    if s.len() > 0 {
        assert(s.push(d)[0] == s[0]);
        assert(s.push(d).drop_first() =~= s.drop_first().push(d));
        assert forall|i: int| 0 <= i < s.drop_first().len() implies !(#[trigger] s.drop_first()[i] is Default) by {
            assert(s.drop_first()[i] == s[i + 1]);
        }
        lemma_first_default_after(s.drop_first(), v);
    } else {
        assert(s.push(d)[0] == d);
    }
}

/// Dropping the DEFAULT constraints leaves none.
pub proof fn lemma_without_defaults_has_none(s: Seq<Constraint>)
    ensures
        forall|i: int| 0 <= i < without_defaults(s).len() ==> !(#[trigger] without_defaults(s)[i] is Default),
    decreases s.len(),
{
    if s.len() > 0 {
        lemma_without_defaults_has_none(s.drop_last());
    }
}

pub open spec fn is_default(c: Constraint) -> bool {
    c is Default
}

/// The constraints of a list that are not `Default`, in order.
pub open spec fn without_defaults(s: Seq<Constraint>) -> Seq<Constraint>
    decreases s.len(),
{
    if s.len() == 0 {
        s
    } else if is_default(s.last()) {
        without_defaults(s.drop_last())
    } else {
        without_defaults(s.drop_last()).push(s.last())
    }
}

/// `head` followed by each constraint's text, each after a space.
pub open spec fn constraints_text(head: Seq<char>, cs: Seq<Constraint>) -> Seq<char>
    decreases cs.len(),
{
    if cs.len() == 0 {
        head
    } else {
        constraints_text(head, cs.drop_last()) + " "@ + constraint_text(cs.last())
    }
}

pub open spec fn column_text(c: Column) -> Seq<char> {
    constraints_text(c.name@ + " "@ + data_type_label(c.data_type), c.constraints@)
}

/// A column: a name, a type, and its constraints in the order they were added.
#[derive(Debug, PartialEq)]
pub struct Column {
    pub name: String,
    pub data_type: DataType,
    pub constraints: Vec<Constraint>,
}

/// What a column holds, as mathematical values.
pub struct ColumnView {
    pub name: Seq<char>,
    pub data_type: DataType,
    pub constraints: Seq<Constraint>,
}

impl View for Column {
    type V = ColumnView;

    open spec fn view(&self) -> ColumnView {
        ColumnView { name: self.name@, data_type: self.data_type, constraints: self.constraints@ }
    }
}

impl Clone for Column {
    fn clone(&self) -> (r: Column)
        ensures
            r@ == self@,
    {
        let constraints = self.constraints.clone();
        assert(constraints@ =~= self.constraints@);
        Column { name: self.name.clone(), data_type: self.data_type, constraints }
    }
}

/// Whether the constraint list holds `c`, which is not a `Default`.
fn holds_constraint(s: &Vec<Constraint>, c: &Constraint) -> (r: bool)
    requires
        !is_default(*c),
    ensures
        r == s@.contains(*c),
{
    let mut i: usize = 0;
    while i < s.len()
        invariant
            i <= s@.len(),
            !is_default(*c),
            forall|j: int| 0 <= j < i ==> s@[j] != *c,
        decreases s@.len() - i,
    {
        let same = match (&s[i], c) {
            (Constraint::PrimaryKey, Constraint::PrimaryKey) => true,
            (Constraint::Unique, Constraint::Unique) => true,
            (Constraint::NotNull, Constraint::NotNull) => true,
            _ => false,
        };
        if same {
            return true;
        }
        i = i + 1;
    }
    false
}

impl Column {
    pub open spec fn spec_is_primary_key(&self) -> bool {
        self.constraints@.contains(Constraint::PrimaryKey)
    }

    pub open spec fn spec_is_not_null(&self) -> bool {
        self.constraints@.contains(Constraint::NotNull)
    }

    pub open spec fn spec_is_unique(&self) -> bool {
        self.constraints@.contains(Constraint::Unique)
    }

    /// A column with no constraints.
    pub fn new(name: &str, data_type: DataType) -> (r: Column)
        ensures
            r.name@ == name@,
            r.data_type == data_type,
            r.constraints@ == Seq::<Constraint>::empty(),
    {
        Column { name: name.to_string(), data_type, constraints: Vec::new() }
    }

    /// Adds PRIMARY KEY, and NOT NULL unless the column has it already.
    pub fn primary_key(self) -> (r: Column)
        ensures
            r.name == self.name,
            r.data_type == self.data_type,
            r.constraints@ == if self.constraints@.contains(Constraint::NotNull) {
                self.constraints@.push(Constraint::PrimaryKey)
            } else {
                self.constraints@.push(Constraint::PrimaryKey).push(Constraint::NotNull)
            },
    {
        let mut s = self;
        let had_not_null = holds_constraint(&s.constraints, &Constraint::NotNull);
        s.constraints.push(Constraint::PrimaryKey);
        if !had_not_null {
            s.constraints.push(Constraint::NotNull);
        }
        s
    }

    /// Adds NOT NULL unless the column has it already.
    pub fn not_null(self) -> (r: Column)
        ensures
            r.name == self.name,
            r.data_type == self.data_type,
            r.constraints@ == if self.constraints@.contains(Constraint::NotNull) {
                self.constraints@
            } else {
                self.constraints@.push(Constraint::NotNull)
            },
    {
        let mut s = self;
        if !holds_constraint(&s.constraints, &Constraint::NotNull) {
            s.constraints.push(Constraint::NotNull);
        }
        s
    }

    /// Adds UNIQUE unless the column has it already.
    pub fn unique(self) -> (r: Column)
        ensures
            r.name == self.name,
            r.data_type == self.data_type,
            r.constraints@ == if self.constraints@.contains(Constraint::Unique) {
                self.constraints@
            } else {
                self.constraints@.push(Constraint::Unique)
            },
    {
        let mut s = self;
        if !holds_constraint(&s.constraints, &Constraint::Unique) {
            s.constraints.push(Constraint::Unique);
        }
        s
    }

    /// Replaces any DEFAULT with `DEFAULT value`, placed last.
    pub fn with_default(self, value: &str) -> (r: Column)
        ensures
            r.name == self.name,
            r.data_type == self.data_type,
            r.constraints@.len() >= 1,
            r.constraints@.last() matches Constraint::Default(v) && v@ == value@,
            r.constraints@.drop_last() == without_defaults(self.constraints@),
    {
        let Column { name, data_type, constraints } = self;
        let mut kept: Vec<Constraint> = Vec::new();
        let mut i: usize = 0;
        while i < constraints.len()
            invariant
                i <= constraints@.len(),
                kept@ == without_defaults(constraints@.take(i as int)),
            decreases constraints@.len() - i,
        {
            assert(constraints@.take(i + 1).drop_last() =~= constraints@.take(i as int));
            let c = constraints[i].clone();
            match c {
                Constraint::Default(_) => {},
                _ => {
                    kept.push(c);
                },
            }
            i = i + 1;
        }
        assert(constraints@.take(constraints@.len() as int) =~= constraints@);
        let ghost before = kept@;
        kept.push(Constraint::Default(value.to_string()));
        assert(kept@.drop_last() =~= before);
        Column { name, data_type, constraints: kept }
    }

    pub fn is_primary_key(&self) -> (r: bool)
        ensures
            r == self.spec_is_primary_key(),
    {
        holds_constraint(&self.constraints, &Constraint::PrimaryKey)
    }

    pub fn is_not_null(&self) -> (r: bool)
        ensures
            r == self.spec_is_not_null(),
    {
        holds_constraint(&self.constraints, &Constraint::NotNull)
    }

    pub fn is_unique(&self) -> (r: bool)
        ensures
            r == self.spec_is_unique(),
    {
        holds_constraint(&self.constraints, &Constraint::Unique)
    }

    /// The column as SQL declares it: name, type, then each constraint.
    pub fn text(&self) -> (r: String)
        ensures
            r@ == column_text(*self),
    {
        let mut m = self.name.clone();
        m.append(" ");
        m.append(self.data_type.name());
        let mut i: usize = 0;
        while i < self.constraints.len()
            invariant
                i <= self.constraints@.len(),
                m@ == constraints_text(self.name@ + " "@ + data_type_label(self.data_type), self.constraints@.take(i as int)),
            decreases self.constraints@.len() - i,
        {
            assert(self.constraints@.take(i + 1).drop_last() =~= self.constraints@.take(i as int));
            m.append(" ");
            let t = self.constraints[i].text();
            m.append(t.as_str());
            i = i + 1;
        }
        assert(self.constraints@.take(self.constraints@.len() as int) =~= self.constraints@);
        m
    }

    /// The text of the column's DEFAULT, if it has one.
    pub fn default_value(&self) -> (r: Option<&str>)
        ensures
            r matches Some(v) ==> first_default(self.constraints@) == Some(v@),
            r is None ==> first_default(self.constraints@) is None,
    {
        let mut i: usize = 0;
        assert(self.constraints@.skip(0) =~= self.constraints@);
        while i < self.constraints.len()
            invariant
                i <= self.constraints@.len(),
                first_default(self.constraints@) == first_default(self.constraints@.skip(i as int)),
            decreases self.constraints@.len() - i,
        {
            assert(self.constraints@.skip(i as int)[0] == self.constraints@[i as int]);
            match &self.constraints[i] {
                Constraint::Default(v) => {
                    return Some(v.as_str());
                },
                _ => {},
            }
            assert(self.constraints@.skip(i as int).drop_first() =~= self.constraints@.skip(
                i + 1,
            ));
            i = i + 1;
        }
        None
    }
}

} // verus!
