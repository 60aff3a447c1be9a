//! Storage values and their type tags.
use vstd::prelude::*;

use crate::text::str_eq;

verus! {

/// The type tag of a stored value.
#[derive(Clone, Copy, Debug, PartialEq, Eq, Structural)]
pub enum DataType {
    Integer,
    Float,
    Text,
    Boolean,
    Timestamp,
    Null,
}

/// The type that a type name denotes, once the name is upper-cased.
pub open spec fn data_type_named(u: Seq<char>) -> Option<DataType> {
    if u == "INTEGER"@ || u == "INT"@ {
        Some(DataType::Integer)
    } else if u == "FLOAT"@ || u == "REAL"@ || u == "DOUBLE"@ {
        Some(DataType::Float)
    } else if u == "TEXT"@ || u == "VARCHAR"@ || u == "CHAR"@ || u == "STRING"@ {
        Some(DataType::Text)
    } else if u == "BOOLEAN"@ || u == "BOOL"@ {
        Some(DataType::Boolean)
    } else if u == "TIMESTAMP"@ || u == "DATETIME"@ {
        Some(DataType::Timestamp)
    } else if u == "NULL"@ {
        Some(DataType::Null)
    } else {
        None
    }
}

pub open spec fn data_type_label(t: DataType) -> Seq<char> {
    match t {
        DataType::Integer => "Integer"@,
        DataType::Float => "Float"@,
        DataType::Text => "Text"@,
        DataType::Boolean => "Boolean"@,
        DataType::Timestamp => "Timestamp"@,
        DataType::Null => "Null"@,
    }
}

/// What upper-casing a text gives.
pub uninterp spec fn upper_of(s: Seq<char>) -> Seq<char>;

/// Relies on `str::to_uppercase`: the result depends on the characters alone.
#[verifier::external_body]
fn uppercase(s: &str) -> (r: String)
    ensures
        r@ == upper_of(s@),
{
    s.to_uppercase()
}

impl DataType {
    /// Every type admits NULL; NOT NULL is a column constraint.
    pub fn is_nullable(&self) -> (r: bool)
        ensures
            r,
    {
        true
    }

    pub fn is_integer(&self) -> (r: bool)
        ensures
            r == (*self == DataType::Integer),
    {
        matches!(self, DataType::Integer)
    }

    pub fn is_float(&self) -> (r: bool)
        ensures
            r == (*self == DataType::Float),
    {
        matches!(self, DataType::Float)
    }

    pub fn is_text(&self) -> (r: bool)
        ensures
            r == (*self == DataType::Text),
    {
        matches!(self, DataType::Text)
    }

    pub fn is_boolean(&self) -> (r: bool)
        ensures
            r == (*self == DataType::Boolean),
    {
        matches!(self, DataType::Boolean)
    }

    pub fn is_timestamp(&self) -> (r: bool)
        ensures
            r == (*self == DataType::Timestamp),
    {
        matches!(self, DataType::Timestamp)
    }

    pub fn is_null(&self) -> (r: bool)
        ensures
            r == (*self == DataType::Null),
    {
        matches!(self, DataType::Null)
    }

    /// The variant's name, as `Debug` writes it.
    pub fn name(&self) -> (r: &'static str)
        ensures
            r@ == data_type_label(*self),
    {
        match self {
            DataType::Integer => "Integer",
            DataType::Float => "Float",
            DataType::Text => "Text",
            DataType::Boolean => "Boolean",
            DataType::Timestamp => "Timestamp",
            DataType::Null => "Null",
        }
    }

    /// The type named by an already upper-cased name.
    pub fn from_upper_name(u: &str) -> (r: Option<DataType>)
        ensures
            r == data_type_named(u@),
    {
        if str_eq(u, "INTEGER") || str_eq(u, "INT") {
            Some(DataType::Integer)
        } else if str_eq(u, "FLOAT") || str_eq(u, "REAL") || str_eq(u, "DOUBLE") {
            Some(DataType::Float)
        } else if str_eq(u, "TEXT") || str_eq(u, "VARCHAR") || str_eq(u, "CHAR") || str_eq(
            u,
            "STRING",
        ) {
            Some(DataType::Text)
        } else if str_eq(u, "BOOLEAN") || str_eq(u, "BOOL") {
            Some(DataType::Boolean)
        } else if str_eq(u, "TIMESTAMP") || str_eq(u, "DATETIME") {
            Some(DataType::Timestamp)
        } else if str_eq(u, "NULL") {
            Some(DataType::Null)
        } else {
            None
        }
    }

    /// Reads a type name, ignoring case. Unknown names give an error that
    /// quotes the name.
    pub fn from_str(s: &str) -> (r: Result<DataType, String>)
        ensures
            data_type_named(upper_of(s@)) matches Some(t) ==> r == Ok::<DataType, String>(t),
            data_type_named(upper_of(s@)) is None ==> (r matches Err(m) && m@
                == "Unsupported data type: "@ + s@),
    {
        let u = uppercase(s);
        match DataType::from_upper_name(u.as_str()) {
            Some(t) => Ok(t),
            None => {
                let mut m = "Unsupported data type: ".to_string();
                m.append(s);
                Err(m)
            },
        }
    }
}

/// A UTC instant: whole seconds since the Unix epoch and the nanoseconds
/// past that second.
#[derive(Clone, Copy, Debug, PartialEq, Eq, Structural)]
pub struct Timestamp {
    pub seconds: i64,
    pub nanos: u32,
}

/// A stored value. `Null` is a value of its own, not an absence.
///
/// A `Float` holds the IEEE-754 bit pattern of a 64-bit float
/// (`f64::to_bits`); comparisons, `==` included, follow floating-point
/// rules.
#[derive(Debug)]
pub enum Value {
    Integer(i64),
    Float(u64),
    Text(String),
    Boolean(bool),
    Timestamp(Timestamp),
    Null,
}

pub const FLOAT_MAGNITUDE_MASK: u64 = 0x7fff_ffff_ffff_ffff;

pub const FLOAT_MANTISSA_MASK: u64 = 0x000f_ffff_ffff_ffff;

/// The bit pattern of the float 1.0.
pub const FLOAT_ONE_BITS: u64 = 0x3ff0_0000_0000_0000;

/// The float with bit pattern `b` is a NaN.
pub open spec fn float_is_nan(b: u64) -> bool {
    (b >> 52u64) & 0x7ffu64 == 0x7ffu64 && b & FLOAT_MANTISSA_MASK != 0
}

/// A key that orders non-NaN floats as their values are ordered; both zeros
/// get the key 0.
pub open spec fn float_key(b: u64) -> int {
    if b >> 63u64 == 1 {
        -((b & FLOAT_MAGNITUDE_MASK) as int)
    } else {
        (b & FLOAT_MAGNITUDE_MASK) as int
    }
}

pub open spec fn float_eq(a: u64, b: u64) -> bool {
    !float_is_nan(a) && !float_is_nan(b) && float_key(a) == float_key(b)
}

pub open spec fn float_lt(a: u64, b: u64) -> bool {
    !float_is_nan(a) && !float_is_nan(b) && float_key(a) < float_key(b)
}

pub open spec fn float_le(a: u64, b: u64) -> bool {
    !float_is_nan(a) && !float_is_nan(b) && float_key(a) <= float_key(b)
}

pub fn is_nan_bits(b: u64) -> (r: bool)
    ensures
        r == float_is_nan(b),
{
    (b >> 52u64) & 0x7ffu64 == 0x7ffu64 && b & FLOAT_MANTISSA_MASK != 0
}

pub fn float_key_of(b: u64) -> (r: i64)
    ensures
        r == float_key(b),
{
    let mag = b & FLOAT_MAGNITUDE_MASK;
    assert(b & 0x7fff_ffff_ffff_ffffu64 <= 0x7fff_ffff_ffff_ffffu64) by (bit_vector);
    if b >> 63u64 == 1 {
        -(mag as i64)
    } else {
        mag as i64
    }
}

/// Equality of values: the same variant holding equal contents. Floats
/// compare as floats (NaN equals nothing, the two zeros are equal), texts
/// by their characters.
pub open spec fn value_eq(a: Value, b: Value) -> bool {
    match (a, b) {
        (Value::Integer(x), Value::Integer(y)) => x == y,
        (Value::Float(x), Value::Float(y)) => float_eq(x, y),
        (Value::Text(x), Value::Text(y)) => x@ == y@,
        (Value::Boolean(x), Value::Boolean(y)) => x == y,
        (Value::Timestamp(x), Value::Timestamp(y)) => x == y,
        (Value::Null, Value::Null) => true,
        _ => false,
    }
}

impl Value {
    pub open spec fn type_of(&self) -> DataType {
        match self {
            Value::Integer(_) => DataType::Integer,
            Value::Float(_) => DataType::Float,
            Value::Text(_) => DataType::Text,
            Value::Boolean(_) => DataType::Boolean,
            Value::Timestamp(_) => DataType::Timestamp,
            Value::Null => DataType::Null,
        }
    }

    pub fn data_type(&self) -> (r: DataType)
        ensures
            r == self.type_of(),
    {
        match self {
            Value::Integer(_) => DataType::Integer,
            Value::Float(_) => DataType::Float,
            Value::Text(_) => DataType::Text,
            Value::Boolean(_) => DataType::Boolean,
            Value::Timestamp(_) => DataType::Timestamp,
            Value::Null => DataType::Null,
        }
    }

    pub fn is_null(&self) -> (r: bool)
        ensures
            r == (*self is Null),
    {
        matches!(self, Value::Null)
    }

    /// Whether two values are equal in the sense of `value_eq`.
    pub fn equals(&self, other: &Value) -> (r: bool)
        ensures
            r == value_eq(*self, *other),
    {
        match (self, other) {
            (Value::Integer(x), Value::Integer(y)) => *x == *y,
            (Value::Float(x), Value::Float(y)) => {
                !is_nan_bits(*x) && !is_nan_bits(*y) && float_key_of(*x) == float_key_of(*y)
            },
            (Value::Text(x), Value::Text(y)) => str_eq(x.as_str(), y.as_str()),
            (Value::Boolean(x), Value::Boolean(y)) => *x == *y,
            (Value::Timestamp(x), Value::Timestamp(y)) => *x == *y,
            (Value::Null, Value::Null) => true,
            _ => false,
        }
    }
}

impl From<i64> for Value {
    fn from(v: i64) -> (r: Value) {
        Value::Integer(v)
    }
}

impl vstd::std_specs::convert::FromSpecImpl<i64> for Value {
    open spec fn obeys_from_spec() -> bool {
        true
    }

    open spec fn from_spec(v: i64) -> Value {
        Value::Integer(v)
    }
}

impl From<String> for Value {
    fn from(v: String) -> (r: Value) {
        Value::Text(v)
    }
}

impl vstd::std_specs::convert::FromSpecImpl<String> for Value {
    open spec fn obeys_from_spec() -> bool {
        true
    }

    open spec fn from_spec(v: String) -> Value {
        Value::Text(v)
    }
}

impl From<bool> for Value {
    fn from(v: bool) -> (r: Value) {
        Value::Boolean(v)
    }
}

impl vstd::std_specs::convert::FromSpecImpl<bool> for Value {
    open spec fn obeys_from_spec() -> bool {
        true
    }

    open spec fn from_spec(v: bool) -> Value {
        Value::Boolean(v)
    }
}

impl From<Timestamp> for Value {
    fn from(v: Timestamp) -> (r: Value) {
        Value::Timestamp(v)
    }
}

impl vstd::std_specs::convert::FromSpecImpl<Timestamp> for Value {
    open spec fn obeys_from_spec() -> bool {
        true
    }

    open spec fn from_spec(v: Timestamp) -> Value {
        Value::Timestamp(v)
    }
}

impl PartialEq for Value {
    fn eq(&self, other: &Value) -> (r: bool) {
        self.equals(other)
    }
}

impl vstd::std_specs::cmp::PartialEqSpecImpl for Value {
    open spec fn obeys_eq_spec() -> bool {
        true
    }

    open spec fn eq_spec(&self, other: &Value) -> bool {
        value_eq(*self, *other)
    }
}

impl Clone for Value {
    fn clone(&self) -> (r: Value)
        ensures
            r == *self,
    {
        match self {
            Value::Integer(x) => Value::Integer(*x),
            Value::Float(x) => Value::Float(*x),
            Value::Text(x) => Value::Text(x.clone()),
            Value::Boolean(x) => Value::Boolean(*x),
            Value::Timestamp(x) => Value::Timestamp(*x),
            Value::Null => Value::Null,
        }
    }
}

/// Errors in converting a value to another type.
#[derive(Debug, PartialEq)]
pub enum ValueError {
    TypeMismatch { expected: DataType, actual: DataType },
    /// The text that failed to convert, and the target type's name.
    ConversionError(String, String),
    NullValueNotAllowed,
}

pub open spec fn digit_char(d: int) -> char {
    if d == 0 {
        '0'
    } else if d == 1 {
        '1'
    } else if d == 2 {
        '2'
    } else if d == 3 {
        '3'
    } else if d == 4 {
        '4'
    } else if d == 5 {
        '5'
    } else if d == 6 {
        '6'
    } else if d == 7 {
        '7'
    } else if d == 8 {
        '8'
    } else {
        '9'
    }
}

/// The decimal digits of a natural number, without leading zeros.
pub open spec fn natural_text(n: nat) -> Seq<char>
    decreases n,
{
    if n < 10 {
        seq![digit_char(n as int)]
    } else {
        natural_text((n / 10) as nat).push(digit_char((n % 10) as int))
    }
}

/// An integer in decimal, with a `-` before a negative one.
pub open spec fn decimal_text(i: int) -> Seq<char> {
    if i < 0 {
        seq!['-'] + natural_text((-i) as nat)
    } else {
        natural_text(i as nat)
    }
}

/// The one-character text of a decimal digit.
fn digit_str(d: u64) -> (r: &'static str)
    requires
        d < 10,
    ensures
        r@ == seq![digit_char(d as int)],
{
    proof {
        reveal_strlit("0");
        reveal_strlit("1");
        reveal_strlit("2");
        reveal_strlit("3");
        reveal_strlit("4");
        reveal_strlit("5");
        reveal_strlit("6");
        reveal_strlit("7");
        reveal_strlit("8");
        reveal_strlit("9");
    }
    let r = if d == 0 {
        "0"
    } else if d == 1 {
        "1"
    } else if d == 2 {
        "2"
    } else if d == 3 {
        "3"
    } else if d == 4 {
        "4"
    } else if d == 5 {
        "5"
    } else if d == 6 {
        "6"
    } else if d == 7 {
        "7"
    } else if d == 8 {
        "8"
    } else {
        "9"
    };
    assert(r@ =~= seq![digit_char(d as int)]);
    r
}

/// Appends the decimal digits of `n`.
fn append_natural(m: &mut String, n: u64)
    ensures
        final(m)@ == old(m)@ + natural_text(n as nat),
    decreases n,
{
    if n >= 10 {
        append_natural(m, n / 10);
    }
    let ghost before = m@;
    m.append(digit_str(n % 10));
    proof {
        if n >= 10 {
            assert(m@ =~= old(m)@ + natural_text((n / 10) as nat).push(digit_char((n % 10) as int)));
        } else {
            assert(m@ =~= old(m)@ + natural_text(n as nat));
        }
    }
}

/// The decimal form of an integer, `-` first when negative.
fn integer_text(i: i64) -> (r: String)
    ensures
        r@ == decimal_text(i as int),
{
    if i < 0 {
        let mut m = "-".to_string();
        proof {
            reveal_strlit("-");
        }
        let n: u64 = if i == i64::MIN {
            9_223_372_036_854_775_808
        } else {
            (-i) as u64
        };
        append_natural(&mut m, n);
        assert(m@ =~= seq!['-'] + natural_text((-(i as int)) as nat));
        m
    } else {
        let mut m = String::new();
        append_natural(&mut m, i as u64);
        assert(m@ =~= natural_text(i as nat));
        m
    }
}

/// What lower-casing a text gives.
pub uninterp spec fn lower_of(s: Seq<char>) -> Seq<char>;

/// Relies on `str::to_lowercase`: the result depends on the characters alone.
#[verifier::external_body]
fn lowercase(s: &str) -> (r: String)
    ensures
        r@ == lower_of(s@),
{
    s.to_lowercase()
}

/// The truth value a lower-cased boolean literal names.
pub open spec fn boolean_named(u: Seq<char>) -> Option<bool> {
    if u == "true"@ || u == "1"@ || u == "yes"@ || u == "y"@ {
        Some(true)
    } else if u == "false"@ || u == "0"@ || u == "no"@ || u == "n"@ {
        Some(false)
    } else {
        None
    }
}

/// Reads an already lower-cased boolean literal.
pub fn boolean_literal(u: &str) -> (r: Option<bool>)
    ensures
        r == boolean_named(u@),
{
    if str_eq(u, "true") || str_eq(u, "1") || str_eq(u, "yes") || str_eq(u, "y") {
        Some(true)
    } else if str_eq(u, "false") || str_eq(u, "0") || str_eq(u, "no") || str_eq(u, "n") {
        Some(false)
    } else {
        None
    }
}

/// The outcome of a conversion that needs no floating-point arithmetic;
/// `None` for the pairs that do (integer to float, float to integer, float
/// to text, text to float).
pub open spec fn cast_outcome(v: Value, target: DataType) -> Option<Result<Value, ValueError>> {
    if v is Null {
        Some(Ok(Value::Null))
    } else if v.type_of() == target {
        Some(Ok(v))
    } else {
        match (v, target) {
            (Value::Integer(_), DataType::Float) => None,
            (Value::Float(_), DataType::Integer) => None,
            (Value::Float(_), DataType::Text) => None,
            (Value::Text(_), DataType::Float) => None,
            (Value::Integer(i), DataType::Boolean) => Some(Ok(Value::Boolean(i != 0))),
            (Value::Float(b), DataType::Boolean) => Some(Ok(Value::Boolean(b & FLOAT_MAGNITUDE_MASK != 0))),
            (Value::Boolean(b), DataType::Integer) => Some(Ok(Value::Integer(if b { 1 } else { 0 }))),
            (Value::Boolean(b), DataType::Float) => Some(Ok(Value::Float(if b { FLOAT_ONE_BITS } else { 0 }))),
            _ => Some(Err(ValueError::TypeMismatch { expected: target, actual: v.type_of() })),
        }
    }
}

impl Value {
    /// Converts the value to `target`. NULL converts to NULL, a value of the
    /// target type to itself; an integer becomes its decimal text or its
    /// truth (non-zero); a float its truth (non-zero, NaN included); a text
    /// an integer when it reads as one, a boolean when, lower-cased, it is
    /// one of true/1/yes/y or false/0/no/n; a boolean becomes 1 or 0, 1.0 or
    /// 0.0, or the text "true" or "false". Other pairs (those with a
    /// timestamp) are a type mismatch.
    /// `None` where the conversion needs floating-point arithmetic, which
    /// this crate leaves to its caller.
    pub fn cast_to(&self, target: DataType) -> (r: Option<Result<Value, ValueError>>)
        ensures
            !(self matches Value::Integer(_) && target == DataType::Text) && !(self matches Value::Text(_) && (
            target == DataType::Integer || target == DataType::Boolean)) && !(self matches Value::Boolean(_)
                && target == DataType::Text) ==> r == cast_outcome(*self, target),
            self matches Value::Boolean(b) ==> (target == DataType::Text ==> (r matches Some(
                Ok(Value::Text(t)),
            ) && t@ == if *b {
                "true"@
            } else {
                "false"@
            })),
            self matches Value::Integer(i) ==> (target == DataType::Text ==> (r matches Some(
                Ok(Value::Text(t)),
            ) && t@ == decimal_text(i as int))),
            self matches Value::Text(s) ==> (target == DataType::Integer ==> match crate::numeric::i64_of_text(s@) {
                Some(i) => r == Some(Ok::<Value, ValueError>(Value::Integer(i))),
                None => r matches Some(Err(ValueError::ConversionError(a, b))) && a@ == s@ && b@ == "INTEGER"@,
            }),
            self matches Value::Text(s) ==> (target == DataType::Boolean ==> match boolean_named(lower_of(s@)) {
                Some(b) => r == Some(Ok::<Value, ValueError>(Value::Boolean(b))),
                None => r matches Some(Err(ValueError::ConversionError(a, c))) && a@ == s@ && c@ == "BOOLEAN"@,
            }),
    {
        if self.is_null() {
            return Some(Ok(Value::Null));
        }
        if self.data_type() == target {
            return Some(Ok(self.clone()));
        }
        match (self, target) {
            (Value::Integer(_), DataType::Float) => None,
            (Value::Float(_), DataType::Integer) => None,
            (Value::Float(_), DataType::Text) => None,
            (Value::Text(_), DataType::Float) => None,
            (Value::Integer(i), DataType::Text) => Some(Ok(Value::Text(integer_text(*i)))),
            (Value::Integer(i), DataType::Boolean) => Some(Ok(Value::Boolean(*i != 0))),
            (Value::Float(b), DataType::Boolean) => Some(Ok(Value::Boolean(*b & FLOAT_MAGNITUDE_MASK != 0))),
            (Value::Boolean(b), DataType::Integer) => Some(Ok(Value::Integer(if *b { 1 } else { 0 }))),
            (Value::Boolean(b), DataType::Float) => Some(
                Ok(Value::Float(if *b { FLOAT_ONE_BITS } else { 0 })),
            ),
            (Value::Boolean(b), DataType::Text) => Some(
                Ok(Value::Text(if *b { "true".to_string() } else { "false".to_string() })),
            ),
            (Value::Text(s), DataType::Integer) => match crate::numeric::parse_i64(s.as_str()) {
                Some(i) => Some(Ok(Value::Integer(i))),
                None => Some(Err(ValueError::ConversionError(s.clone(), "INTEGER".to_string()))),
            },
            (Value::Text(s), DataType::Boolean) => {
                let lowered = lowercase(s.as_str());
                match boolean_literal(lowered.as_str()) {
                    Some(b) => Some(Ok(Value::Boolean(b))),
                    None => Some(Err(ValueError::ConversionError(s.clone(), "BOOLEAN".to_string()))),
                }
            },
            _ => Some(Err(ValueError::TypeMismatch { expected: target, actual: self.data_type() })),
        }
    }
}

} // verus!
