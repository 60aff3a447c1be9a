//! Filter trees and their evaluation against a row.
use vstd::prelude::*;

use crate::table::Row;
use crate::text::{chars_lt, chars_of, like_match, like_matches, seq_lt};
use crate::value::{float_key_of, float_le, float_lt, is_nan_bits, value_eq, Value};

verus! {

/// A comparison of a column's value with a literal.
#[derive(Clone, Copy, Debug, PartialEq, Eq, Structural)]
pub enum FilterOperator {
    Equal,
    NotEqual,
    Greater,
    GreaterOrEqual,
    Less,
    LessOrEqual,
    Like,
}

/// A predicate on rows: a comparison leaf, or a conjunction or disjunction
/// of sub-filters.
#[derive(Debug)]
pub enum FilterCondition {
    Simple { column: String, operator: FilterOperator, value: Value },
    And(Vec<FilterCondition>),
    Or(Vec<FilterCondition>),
}

/// Whether `a OP b` holds. Ordering is defined between two integers, two
/// floats or two texts (lexicographic); other pairings never compare.
pub open spec fn compare_holds(op: FilterOperator, a: Value, b: Value) -> bool {
    match op {
        FilterOperator::Equal => value_eq(a, b),
        FilterOperator::NotEqual => !value_eq(a, b),
        FilterOperator::Greater => match (a, b) {
            (Value::Integer(x), Value::Integer(y)) => x > y,
            (Value::Float(x), Value::Float(y)) => float_lt(y, x),
            (Value::Text(x), Value::Text(y)) => seq_lt(y@, x@),
            _ => false,
        },
        FilterOperator::GreaterOrEqual => match (a, b) {
            (Value::Integer(x), Value::Integer(y)) => x >= y,
            (Value::Float(x), Value::Float(y)) => float_le(y, x),
            (Value::Text(x), Value::Text(y)) => !seq_lt(x@, y@),
            _ => false,
        },
        FilterOperator::Less => match (a, b) {
            (Value::Integer(x), Value::Integer(y)) => x < y,
            (Value::Float(x), Value::Float(y)) => float_lt(x, y),
            (Value::Text(x), Value::Text(y)) => seq_lt(x@, y@),
            _ => false,
        },
        FilterOperator::LessOrEqual => match (a, b) {
            (Value::Integer(x), Value::Integer(y)) => x <= y,
            (Value::Float(x), Value::Float(y)) => float_le(x, y),
            (Value::Text(x), Value::Text(y)) => !seq_lt(y@, x@),
            _ => false,
        },
        FilterOperator::Like => match (a, b) {
            (Value::Text(x), Value::Text(y)) => like_matches(x@, y@),
            _ => false,
        },
    }
}

/// Whether a row, given as its map from column names to values, satisfies a
/// filter. A leaf on a column the row does not hold is false, whatever the
/// operator.
pub open spec fn filter_holds(row: Map<Seq<char>, Value>, f: FilterCondition) -> bool
    decreases f,
{
    match f {
        FilterCondition::Simple { column, operator, value } => row.contains_key(column@)
            && compare_holds(operator, row[column@], value),
        FilterCondition::And(cs) => forall|i: int|
            0 <= i < cs@.len() ==> filter_holds(row, #[trigger] cs@[i]),
        FilterCondition::Or(cs) => exists|i: int|
            0 <= i < cs@.len() && filter_holds(row, #[trigger] cs@[i]),
    }
}

/// Whether `a OP b` holds, as `compare_holds` states.
pub fn compare_values(op: FilterOperator, a: &Value, b: &Value) -> (r: bool)
    ensures
        r == compare_holds(op, *a, *b),
{
    match op {
        FilterOperator::Equal => a.equals(b),
        FilterOperator::NotEqual => !a.equals(b),
        FilterOperator::Greater => match (a, b) {
            (Value::Integer(x), Value::Integer(y)) => *x > *y,
            (Value::Float(x), Value::Float(y)) => {
                !is_nan_bits(*x) && !is_nan_bits(*y) && float_key_of(*y) < float_key_of(*x)
            },
            (Value::Text(x), Value::Text(y)) => chars_lt(&chars_of(y.as_str()), &chars_of(x.as_str())),
            _ => false,
        },
        FilterOperator::GreaterOrEqual => match (a, b) {
            (Value::Integer(x), Value::Integer(y)) => *x >= *y,
            (Value::Float(x), Value::Float(y)) => {
                !is_nan_bits(*x) && !is_nan_bits(*y) && float_key_of(*y) <= float_key_of(*x)
            },
            (Value::Text(x), Value::Text(y)) => !chars_lt(&chars_of(x.as_str()), &chars_of(y.as_str())),
            _ => false,
        },
        FilterOperator::Less => match (a, b) {
            (Value::Integer(x), Value::Integer(y)) => *x < *y,
            (Value::Float(x), Value::Float(y)) => {
                !is_nan_bits(*x) && !is_nan_bits(*y) && float_key_of(*x) < float_key_of(*y)
            },
            (Value::Text(x), Value::Text(y)) => chars_lt(&chars_of(x.as_str()), &chars_of(y.as_str())),
            _ => false,
        },
        FilterOperator::LessOrEqual => match (a, b) {
            (Value::Integer(x), Value::Integer(y)) => *x <= *y,
            (Value::Float(x), Value::Float(y)) => {
                !is_nan_bits(*x) && !is_nan_bits(*y) && float_key_of(*x) <= float_key_of(*y)
            },
            (Value::Text(x), Value::Text(y)) => !chars_lt(&chars_of(y.as_str()), &chars_of(x.as_str())),
            _ => false,
        },
        FilterOperator::Like => match (a, b) {
            (Value::Text(x), Value::Text(y)) => like_match(x.as_str(), y.as_str()),
            _ => false,
        },
    }
}

/// Evaluates `filter` against `row`, children left to right, stopping at the
/// first child that decides the result.
#[verifier::loop_isolation(false)]
pub fn eval_filter(row: &Row, filter: &FilterCondition) -> (r: bool)
    ensures
        r == filter_holds(row@, *filter),
    decreases filter,
{
    match filter {
        FilterCondition::Simple { column, operator, value } => match row.get(column.as_str()) {
            Some(v) => compare_values(*operator, v, value),
            None => false,
        },
        FilterCondition::And(cs) => {
            let mut i: usize = 0;
            while i < cs.len()
                invariant
                    *filter == FilterCondition::And(*cs),
                    i <= cs@.len(),
                    forall|j: int| 0 <= j < i ==> filter_holds(row@, #[trigger] cs@[j]),
                decreases cs@.len() - i,
            {
                proof {
                    assert(decreases_to!(*filter => *cs));
                    assert(decreases_to!(*cs => cs@[i as int]));
                }
                if !eval_filter(row, &cs[i]) {
                    return false;
                }
                i = i + 1;
            }
            assert(filter_holds(row@, *filter));
            true
        },
        FilterCondition::Or(cs) => {
            let mut i: usize = 0;
            while i < cs.len()
                invariant
                    *filter == FilterCondition::Or(*cs),
                    i <= cs@.len(),
                    forall|j: int| 0 <= j < i ==> !filter_holds(row@, #[trigger] cs@[j]),
                decreases cs@.len() - i,
            {
                proof {
                    assert(decreases_to!(*filter => *cs));
                    assert(decreases_to!(*cs => cs@[i as int]));
                }
                if eval_filter(row, &cs[i]) {
                    return true;
                }
                i = i + 1;
            }
            assert(!filter_holds(row@, *filter));
            false
        },
    }
}

/// A conjunction whose first child is itself a conjunction holds exactly
/// when the conjunction of the inner children followed by the remaining
/// outer children holds.
pub proof fn lemma_and_flatten(
    row: Map<Seq<char>, Value>,
    nested: FilterCondition,
    flat: FilterCondition,
)
    requires
        nested is And,
        nested->And_0@.len() > 0,
        nested->And_0@[0] is And,
        flat is And,
        flat->And_0@ == nested->And_0@[0]->And_0@ + nested->And_0@.drop_first(),
    ensures
        filter_holds(row, nested) == filter_holds(row, flat),
{
    let outer = nested->And_0;
    let inner = outer@[0]->And_0;
    let fl = flat->And_0;
    if filter_holds(row, nested) {
        assert(filter_holds(row, outer@[0]));
        assert forall|i: int| 0 <= i < fl@.len() implies filter_holds(row, #[trigger] fl@[i]) by {
            if i < inner@.len() {
                assert(fl@[i] == inner@[i]);
            } else {
                assert(fl@[i] == outer@[i - inner@.len() + 1]);
            }
        }
    }
    if filter_holds(row, flat) {
        assert forall|i: int| 0 <= i < outer@.len() implies filter_holds(row, #[trigger] outer@[i]) by {
            if i == 0 {
                assert forall|j: int| 0 <= j < inner@.len() implies filter_holds(row, #[trigger] inner@[j]) by {
                    assert(fl@[j] == inner@[j]);
                }
            } else {
                assert(fl@[inner@.len() + i - 1] == outer@[i]);
            }
        }
    }
}

/// A disjunction whose first child is itself a disjunction holds exactly
/// when the disjunction of the inner children followed by the remaining
/// outer children holds.
pub proof fn lemma_or_flatten(
    row: Map<Seq<char>, Value>,
    nested: FilterCondition,
    flat: FilterCondition,
)
    requires
        nested is Or,
        nested->Or_0@.len() > 0,
        nested->Or_0@[0] is Or,
        flat is Or,
        flat->Or_0@ == nested->Or_0@[0]->Or_0@ + nested->Or_0@.drop_first(),
    ensures
        filter_holds(row, nested) == filter_holds(row, flat),
{
    let outer = nested->Or_0;
    let inner = outer@[0]->Or_0;
    let fl = flat->Or_0;
    if filter_holds(row, nested) {
        let i = choose|i: int| 0 <= i < outer@.len() && filter_holds(row, #[trigger] outer@[i]);
        if i == 0 {
            let j = choose|j: int| 0 <= j < inner@.len() && filter_holds(row, #[trigger] inner@[j]);
            assert(fl@[j] == inner@[j]);
        } else {
            assert(fl@[inner@.len() + i - 1] == outer@[i]);
        }
    }
    if filter_holds(row, flat) {
        let i = choose|i: int| 0 <= i < fl@.len() && filter_holds(row, #[trigger] fl@[i]);
        if i < inner@.len() {
            assert(fl@[i] == inner@[i]);
            assert(filter_holds(row, outer@[0]));
        } else {
            assert(fl@[i] == outer@[i - inner@.len() + 1]);
        }
    }
}

} // verus!
