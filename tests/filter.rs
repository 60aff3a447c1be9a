use rustydb::filter::{eval_filter, FilterCondition, FilterOperator};
use rustydb::table::Row;
use rustydb::text::like_match;
use rustydb::value::Value;

fn leaf(column: &str, operator: FilterOperator, value: Value) -> FilterCondition {
    FilterCondition::Simple { column: column.to_string(), operator, value }
}

fn row() -> Row {
    let mut r = Row::new();
    r.set("n", Value::Integer(5));
    r.set("s", Value::Text("banana".to_string()));
    r.set("f", Value::Float(2.5f64.to_bits()));
    r.set("b", Value::Boolean(true));
    r
}

#[test]
fn like_patterns() {
    assert!(like_match("xaby", "%ab%"));
    assert!(like_match("abc", "ab%"));
    assert!(!like_match("xab", "ab%"));
    assert!(like_match("xab", "%ab"));
    assert!(!like_match("abx", "%ab"));
    assert!(like_match("ab", "ab"));
    assert!(!like_match("abc", "ab"));
    assert!(!like_match("xab", "ab"));
    assert!(like_match("anything", "%"));
    assert!(like_match("", "%%"));
}

#[test]
fn like_through_filter() {
    let r = row();
    assert!(eval_filter(&r, &leaf("s", FilterOperator::Like, Value::Text("%nan%".to_string()))));
    assert!(!eval_filter(&r, &leaf("s", FilterOperator::Like, Value::Text("nan%".to_string()))));
    assert!(!eval_filter(&r, &leaf("n", FilterOperator::Like, Value::Text("%".to_string()))));
}

#[test]
fn comparisons_by_type() {
    let r = row();
    assert!(eval_filter(&r, &leaf("n", FilterOperator::Greater, Value::Integer(4))));
    assert!(!eval_filter(&r, &leaf("n", FilterOperator::Greater, Value::Integer(5))));
    assert!(eval_filter(&r, &leaf("n", FilterOperator::LessOrEqual, Value::Integer(5))));
    assert!(eval_filter(&r, &leaf("s", FilterOperator::Less, Value::Text("cherry".to_string()))));
    assert!(eval_filter(&r, &leaf("s", FilterOperator::GreaterOrEqual, Value::Text("banana".to_string()))));
    assert!(eval_filter(&r, &leaf("f", FilterOperator::Greater, Value::Float(1.0f64.to_bits()))));
    assert!(eval_filter(&r, &leaf("f", FilterOperator::Less, Value::Float(3.0f64.to_bits()))));
    assert!(eval_filter(&r, &leaf("f", FilterOperator::Equal, Value::Float(2.5f64.to_bits()))));
    // cross-type ordering never holds, cross-type equality never holds
    assert!(!eval_filter(&r, &leaf("n", FilterOperator::Less, Value::Float(9.0f64.to_bits()))));
    assert!(!eval_filter(&r, &leaf("n", FilterOperator::Equal, Value::Text("5".to_string()))));
    assert!(eval_filter(&r, &leaf("n", FilterOperator::NotEqual, Value::Text("5".to_string()))));
    assert!(!eval_filter(&r, &leaf("b", FilterOperator::Greater, Value::Boolean(false))));
}

#[test]
fn float_rules() {
    let mut r = Row::new();
    r.set("z", Value::Float((-0.0f64).to_bits()));
    r.set("nan", Value::Float(f64::NAN.to_bits()));
    assert!(eval_filter(&r, &leaf("z", FilterOperator::Equal, Value::Float(0.0f64.to_bits()))));
    assert!(eval_filter(&r, &leaf("z", FilterOperator::Greater, Value::Float((-1.5f64).to_bits()))));
    assert!(!eval_filter(&r, &leaf("nan", FilterOperator::Equal, Value::Float(f64::NAN.to_bits()))));
    assert!(eval_filter(&r, &leaf("nan", FilterOperator::NotEqual, Value::Float(f64::NAN.to_bits()))));
    assert!(!eval_filter(&r, &leaf("nan", FilterOperator::GreaterOrEqual, Value::Float(0.0f64.to_bits()))));
}

#[test]
fn absent_column_never_matches() {
    let r = row();
    assert!(!eval_filter(&r, &leaf("missing", FilterOperator::NotEqual, Value::Integer(1))));
    assert!(!eval_filter(&r, &leaf("missing", FilterOperator::Equal, Value::Null)));
}

#[test]
fn nested_and_evaluates_like_flat_and() {
    let r = row();
    let a = || leaf("n", FilterOperator::Equal, Value::Integer(5));
    let b = || leaf("b", FilterOperator::Equal, Value::Boolean(true));
    let c_true = || leaf("s", FilterOperator::Like, Value::Text("ban%".to_string()));
    let c_false = || leaf("s", FilterOperator::Like, Value::Text("x%".to_string()));
    for (c1, c2, expected) in [(c_true(), c_true(), true), (c_false(), c_false(), false)] {
        let nested = FilterCondition::And(vec![FilterCondition::And(vec![a(), b()]), c1]);
        let flat = FilterCondition::And(vec![a(), b(), c2]);
        assert_eq!(eval_filter(&r, &nested), expected);
        assert_eq!(eval_filter(&r, &flat), expected);
    }
    let or = FilterCondition::Or(vec![c_false(), FilterCondition::Or(vec![c_false(), a()])]);
    assert!(eval_filter(&r, &or));
    assert!(eval_filter(&r, &FilterCondition::And(vec![])));
    assert!(!eval_filter(&r, &FilterCondition::Or(vec![])));
}
