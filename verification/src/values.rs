//! Cell values under SQL rules: equality (`NULL` equals nothing, text is
//! compared up to case as the default collation does), the ascending order of
//! `ORDER BY`, and the conversion of a value to a column type on `INSERT`,
//! `UPDATE` and `ALTER COLUMN`.

use vstd::prelude::*;

use crate::metadata::{spec_system_type_name, system_type_name};
use crate::text::{
    law_text_order_is_lexicographic, lexicographic_lt, string_chars, string_from_chars, lemma_text_lt_asymmetric, lemma_text_lt_negatively_transitive, same_name, same_text, text_less,
    text_lt,
};
use crate::types::{DataType, DbError, DbErrorModel, Value, ValueModel, MAX_LEN};

verus! {

// ---------------------------------------------------------------------------
// Specification
// ---------------------------------------------------------------------------

/// The number an integer-valued cell holds (`bit` as 0 or 1).
pub open spec fn int_value(v: ValueModel) -> Option<int> {
    match v {
        ValueModel::Bit(b) => Some(
            if b {
                1int
            } else {
                0int
            },
        ),
        ValueModel::TinyInt(n) => Some(n as int),
        ValueModel::SmallInt(n) => Some(n as int),
        ValueModel::Int(n) => Some(n as int),
        ValueModel::BigInt(n) => Some(n as int),
        _ => None,
    }
}

/// The text a character cell holds.
pub open spec fn text_value(v: ValueModel) -> Option<Seq<char>> {
    match v {
        ValueModel::VarChar(s) => Some(s),
        ValueModel::NVarChar(s) => Some(s),
        _ => None,
    }
}

/// `a = b`: numbers by value, text up to case, datetimes by instant; `NULL`
/// and values of unrelated kinds compare unequal.
pub open spec fn sql_equal(a: ValueModel, b: ValueModel) -> bool {
    match (int_value(a), int_value(b)) {
        (Some(x), Some(y)) => x == y,
        _ => match (text_value(a), text_value(b)) {
            (Some(x), Some(y)) => same_name(x, y),
            _ => match (a, b) {
                (ValueModel::DateTime(x), ValueModel::DateTime(y)) => x == y,
                _ => false,
            },
        },
    }
}

/// The group a value sorts in: `NULL` first, then numbers, datetimes, text.
pub open spec fn value_rank(v: ValueModel) -> int {
    match v {
        ValueModel::Null => 0,
        ValueModel::DateTime(_) => 2,
        ValueModel::VarChar(_) => 3,
        ValueModel::NVarChar(_) => 3,
        _ => 1,
    }
}

/// `a` comes before `b` in ascending order.
pub open spec fn value_lt(a: ValueModel, b: ValueModel) -> bool {
    if value_rank(a) != value_rank(b) {
        value_rank(a) < value_rank(b)
    } else {
        match (int_value(a), int_value(b)) {
            (Some(x), Some(y)) => x < y,
            _ => match (text_value(a), text_value(b)) {
                (Some(x), Some(y)) => text_lt(x, y),
                _ => match (a, b) {
                    (ValueModel::DateTime(x), ValueModel::DateTime(y)) => x < y,
                    _ => false,
                },
            },
        }
    }
}

/// The type name of a value, as type-clash messages print it.
pub open spec fn value_type_name(v: ValueModel) -> Seq<char> {
    match v {
        ValueModel::Null => "null"@,
        ValueModel::Bit(_) => "bit"@,
        ValueModel::TinyInt(_) => "tinyint"@,
        ValueModel::SmallInt(_) => "smallint"@,
        ValueModel::Int(_) => "int"@,
        ValueModel::BigInt(_) => "bigint"@,
        ValueModel::VarChar(_) => "varchar"@,
        ValueModel::NVarChar(_) => "nvarchar"@,
        ValueModel::DateTime(_) => "datetime"@,
    }
}

pub open spec fn msg_truncated() -> Seq<char> {
    "String or binary data would be truncated."@
}

pub open spec fn msg_overflow(dt: DataType) -> Seq<char> {
    "Arithmetic overflow error converting expression to data type "@ + spec_system_type_name(dt)
        + "."@
}

pub open spec fn msg_clash(v: ValueModel, dt: DataType) -> Seq<char> {
    "Operand type clash: "@ + value_type_name(v) + " is incompatible with "@
        + spec_system_type_name(dt)
}

/// A text padded with spaces to `n` characters, as `char(n)` and `nchar(n)`
/// store it.
pub open spec fn pad_to(s: Seq<char>, n: nat) -> Seq<char> {
    if s.len() < n {
        s + Seq::new((n - s.len()) as nat, |i: int| ' ')
    } else {
        s
    }
}

/// A text of `n` characters fits a declared length (`(max)` fits any).
pub open spec fn fits(n: nat, len: u16) -> bool {
    len == MAX_LEN || n <= len
}

/// The value `v` takes in a column of type `dt`: `NULL` stays `NULL`;
/// numbers go to the integer types within their range (and to `bit` as
/// "non-zero"); text goes to the character types within their length, padded
/// with spaces for the fixed-length ones;
/// datetimes go to `datetime`; `sql_variant` keeps any value. Anything else
/// is a type clash.
pub open spec fn spec_convert(v: ValueModel, dt: DataType) -> Result<ValueModel, DbErrorModel> {
    if v is Null {
        Ok(ValueModel::Null)
    } else if dt is SqlVariant {
        Ok(v)
    } else if text_value(v) is Some {
        let s = text_value(v)->0;
        match dt {
            DataType::Char { len } => if fits(s.len(), len) {
                Ok(ValueModel::VarChar(pad_to(s, len as nat)))
            } else {
                Err(DbErrorModel::Execution(msg_truncated()))
            },
            DataType::VarChar { max_len } => if fits(s.len(), max_len) {
                Ok(ValueModel::VarChar(s))
            } else {
                Err(DbErrorModel::Execution(msg_truncated()))
            },
            DataType::NChar { len } => if fits(s.len(), len) {
                Ok(ValueModel::NVarChar(pad_to(s, len as nat)))
            } else {
                Err(DbErrorModel::Execution(msg_truncated()))
            },
            DataType::NVarChar { max_len } => if fits(s.len(), max_len) {
                Ok(ValueModel::NVarChar(s))
            } else {
                Err(DbErrorModel::Execution(msg_truncated()))
            },
            _ => Err(DbErrorModel::Execution(msg_clash(v, dt))),
        }
    } else if int_value(v) is Some {
        let n = int_value(v)->0;
        match dt {
            DataType::Bit => Ok(ValueModel::Bit(n != 0)),
            DataType::TinyInt => if 0 <= n <= 255 {
                Ok(ValueModel::TinyInt(n as u8))
            } else {
                Err(DbErrorModel::Execution(msg_overflow(dt)))
            },
            DataType::SmallInt => if i16::MIN <= n <= i16::MAX {
                Ok(ValueModel::SmallInt(n as i16))
            } else {
                Err(DbErrorModel::Execution(msg_overflow(dt)))
            },
            DataType::Int => if i32::MIN <= n <= i32::MAX {
                Ok(ValueModel::Int(n as i32))
            } else {
                Err(DbErrorModel::Execution(msg_overflow(dt)))
            },
            DataType::BigInt => Ok(ValueModel::BigInt(n as i64)),
            _ => Err(DbErrorModel::Execution(msg_clash(v, dt))),
        }
    } else {
        match dt {
            DataType::DateTime => Ok(v),
            _ => Err(DbErrorModel::Execution(msg_clash(v, dt))),
        }
    }
}

// ---------------------------------------------------------------------------
// Implementation
// ---------------------------------------------------------------------------

/// The number an integer-valued cell holds.
pub fn value_int(v: &Value) -> (r: Option<i64>)
    ensures
        match r {
            Some(n) => int_value(v@) == Some(n as int),
            None => int_value(v@) is None,
        },
{
    match v {
        Value::Bit(b) => Some(
            if *b {
                1
            } else {
                0
            },
        ),
        Value::TinyInt(n) => Some(*n as i64),
        Value::SmallInt(n) => Some(*n as i64),
        Value::Int(n) => Some(*n as i64),
        Value::BigInt(n) => Some(*n),
        _ => None,
    }
}

/// The text a character cell holds.
pub fn value_text(v: &Value) -> (r: Option<&String>)
    ensures
        match r {
            Some(s) => text_value(v@) == Some(s@),
            None => text_value(v@) is None,
        },
{
    match v {
        Value::VarChar(s) => Some(s),
        Value::NVarChar(s) => Some(s),
        _ => None,
    }
}

/// `a = b` under SQL rules.
pub fn values_equal(a: &Value, b: &Value) -> (r: bool)
    ensures
        r == sql_equal(a@, b@),
{
    match (value_int(a), value_int(b)) {
        (Some(x), Some(y)) => x == y,
        _ => match (value_text(a), value_text(b)) {
            (Some(x), Some(y)) => same_text(x.as_str(), y.as_str()),
            _ => match (a, b) {
                (Value::DateTime(x), Value::DateTime(y)) => *x == *y,
                _ => false,
            },
        },
    }
}

fn rank(v: &Value) -> (r: u8)
    ensures
        r as int == value_rank(v@),
{
    match v {
        Value::Null => 0,
        Value::DateTime(_) => 2,
        Value::VarChar(_) => 3,
        Value::NVarChar(_) => 3,
        _ => 1,
    }
}

/// Whether `a` comes before `b` in ascending order.
pub fn value_less(a: &Value, b: &Value) -> (r: bool)
    ensures
        r == value_lt(a@, b@),
{
    let ra = rank(a);
    let rb = rank(b);
    if ra != rb {
        return ra < rb;
    }
    match (value_int(a), value_int(b)) {
        (Some(x), Some(y)) => x < y,
        _ => match (value_text(a), value_text(b)) {
            (Some(x), Some(y)) => text_less(x.as_str(), y.as_str()),
            _ => match (a, b) {
                (Value::DateTime(x), Value::DateTime(y)) => *x < *y,
                _ => false,
            },
        },
    }
}

fn value_type_name_exec(v: &Value) -> (s: &'static str)
    ensures
        s@ == value_type_name(v@),
{
    match v {
        Value::Null => "null",
        Value::Bit(_) => "bit",
        Value::TinyInt(_) => "tinyint",
        Value::SmallInt(_) => "smallint",
        Value::Int(_) => "int",
        Value::BigInt(_) => "bigint",
        Value::VarChar(_) => "varchar",
        Value::NVarChar(_) => "nvarchar",
        Value::DateTime(_) => "datetime",
    }
}

fn truncated() -> (e: DbError)
    ensures
        e@ == DbErrorModel::Execution(msg_truncated()),
{
    DbError::Execution(String::from_str("String or binary data would be truncated."))
}

fn overflow(dt: &DataType) -> (e: DbError)
    ensures
        e@ == DbErrorModel::Execution(msg_overflow(*dt)),
{
    let mut s = String::from_str("Arithmetic overflow error converting expression to data type ");
    let name = system_type_name(dt);
    s.append(name.as_str());
    s.append(".");
    DbError::Execution(s)
}

fn clash(v: &Value, dt: &DataType) -> (e: DbError)
    ensures
        e@ == DbErrorModel::Execution(msg_clash(v@, *dt)),
{
    let mut s = String::from_str("Operand type clash: ");
    s.append(value_type_name_exec(v));
    s.append(" is incompatible with ");
    let name = system_type_name(dt);
    s.append(name.as_str());
    DbError::Execution(s)
}

fn padded(s: &String, len: u16) -> (r: String)
    ensures
        r@ == pad_to(s@, len as nat),
{
    let mut cs = string_chars(s);
    let ghost orig = cs@;
    while cs.len() < len as usize
        invariant
            cs@.len() <= if orig.len() < len { len as int } else { orig.len() as int },
            orig.len() <= cs@.len(),
            cs@ == orig + Seq::new((cs@.len() - orig.len()) as nat, |i: int| ' '),
        decreases len as int - cs@.len(),
    {
        let ghost before = cs@;
        cs.push(' ');
        assert(cs@ =~= orig + Seq::new((cs@.len() - orig.len()) as nat, |i: int| ' '));
    }
    proof {
        if orig.len() >= len {
            assert(cs@ =~= orig);
        }
    }
    string_from_chars(cs.as_slice())
}

fn fits_exec(n: usize, len: u16) -> (b: bool)
    ensures
        b == fits(n as nat, len),
{
    len == MAX_LEN || n <= len as usize
}

/// The value `v` takes in a column of type `dt`.
pub fn convert(v: &Value, dt: &DataType) -> (r: Result<Value, DbError>)
    ensures
        match r {
            Ok(x) => spec_convert(v@, *dt) == Ok::<ValueModel, DbErrorModel>(x@),
            Err(e) => spec_convert(v@, *dt) == Err::<ValueModel, DbErrorModel>(e@),
        },
{
    if let Value::Null = v {
        return Ok(Value::Null);
    }
    if let DataType::SqlVariant = dt {
        return Ok(crate::types::copy_value(v));
    }
    if let Some(s) = value_text(v) {
        let n = s.as_str().unicode_len();
        return match dt {
            DataType::Char { len } => if fits_exec(n, *len) {
                Ok(Value::VarChar(padded(s, *len)))
            } else {
                Err(truncated())
            },
            DataType::VarChar { max_len } => if fits_exec(n, *max_len) {
                Ok(Value::VarChar(s.clone()))
            } else {
                Err(truncated())
            },
            DataType::NChar { len } => if fits_exec(n, *len) {
                Ok(Value::NVarChar(padded(s, *len)))
            } else {
                Err(truncated())
            },
            DataType::NVarChar { max_len } => if fits_exec(n, *max_len) {
                Ok(Value::NVarChar(s.clone()))
            } else {
                Err(truncated())
            },
            _ => Err(clash(v, dt)),
        };
    }
    if let Some(n) = value_int(v) {
        return match dt {
            DataType::Bit => Ok(Value::Bit(n != 0)),
            DataType::TinyInt => if 0 <= n && n <= 255 {
                Ok(Value::TinyInt(n as u8))
            } else {
                Err(overflow(dt))
            },
            DataType::SmallInt => if -32768 <= n && n <= 32767 {
                Ok(Value::SmallInt(n as i16))
            } else {
                Err(overflow(dt))
            },
            DataType::Int => if -2147483648 <= n && n <= 2147483647 {
                Ok(Value::Int(n as i32))
            } else {
                Err(overflow(dt))
            },
            DataType::BigInt => Ok(Value::BigInt(n)),
            _ => Err(clash(v, dt)),
        };
    }
    match dt {
        DataType::DateTime => Ok(crate::types::copy_value(v)),
        _ => Err(clash(v, dt)),
    }
}

// ---------------------------------------------------------------------------
// Laws
// ---------------------------------------------------------------------------

/// The ascending order is asymmetric: of two values, at most one comes
/// before the other (so no value comes before itself).
pub proof fn law_value_lt_asymmetric(a: ValueModel, b: ValueModel)
    ensures
        value_lt(a, b) ==> !value_lt(b, a),
{
    if value_rank(a) == value_rank(b) {
        if let (Some(x), Some(y)) = (text_value(a), text_value(b)) {
            lemma_text_lt_asymmetric(x, y, 0);
        }
    }
}

/// The ascending order is negatively transitive: if `c` comes before `a`,
/// then every `b` comes after `c` or before `a`. With asymmetry this makes
/// it a strict weak order, the kind of order a sort needs.
pub proof fn law_value_lt_negatively_transitive(a: ValueModel, b: ValueModel, c: ValueModel)
    requires
        value_lt(c, a),
    ensures
        value_lt(c, b) || value_lt(b, a),
{
    if value_rank(a) == value_rank(b) && value_rank(b) == value_rank(c) {
        if let (Some(x), Some(y), Some(z)) = (text_value(a), text_value(b), text_value(c)) {
            lemma_text_lt_negatively_transitive(x, y, z, 0);
        }
    }
}

/// `NULL` comes before every other value, and nothing comes before `NULL`.
pub proof fn law_null_sorts_first(v: ValueModel)
    ensures
        !value_lt(v, ValueModel::Null),
        !(v is Null) ==> value_lt(ValueModel::Null, v),
{
}

/// Numbers (`bit`, `tinyint`, `smallint`, `int`, `bigint`) come in the order
/// of their values, whatever their types.
pub proof fn law_numbers_ascend_by_value(a: ValueModel, b: ValueModel)
    requires
        int_value(a) is Some,
        int_value(b) is Some,
    ensures
        value_lt(a, b) <==> int_value(a)->0 < int_value(b)->0,
{
}

/// Datetimes come in the order of their instants: the earlier first.
pub proof fn law_datetimes_ascend_by_instant(x: i64, y: i64)
    ensures
        value_lt(ValueModel::DateTime(x), ValueModel::DateTime(y)) <==> x < y,
{
}

/// Texts (`varchar` and `nvarchar` alike) come in the lexicographic order of
/// their characters folded to upper case, a proper prefix first.
pub proof fn law_texts_ascend_lexicographically(a: ValueModel, b: ValueModel)
    requires
        text_value(a) is Some,
        text_value(b) is Some,
    ensures
        value_lt(a, b) <==> lexicographic_lt(text_value(a)->0, text_value(b)->0),
{
    law_text_order_is_lexicographic(text_value(a)->0, text_value(b)->0);
}

} // verus!
