//! Catalog metadata of a column type, as `sys.types` and the describe
//! procedures report it: system type id, type name, maximum length in bytes,
//! precision, scale and collation.

use vstd::prelude::*;

use crate::text::{decimal, format_decimal};
use crate::types::{DataType, MAX_LEN};

verus! {

/// The `system_type_id` of `sys.types` for a column type.
pub open spec fn spec_system_type_id(dt: DataType) -> u8 {
    match dt {
        DataType::Bit => 104,
        DataType::TinyInt => 48,
        DataType::SmallInt => 52,
        DataType::Int => 56,
        DataType::BigInt => 127,
        DataType::Decimal { .. } => 106,
        DataType::Char { .. } => 175,
        DataType::VarChar { .. } => 167,
        DataType::NChar { .. } => 239,
        DataType::NVarChar { .. } => 231,
        DataType::Date => 40,
        DataType::DateTime => 61,
        DataType::UniqueIdentifier => 36,
        DataType::SqlVariant => 98,
    }
}

/// Storage size in bytes of a `decimal` value of the given precision.
pub open spec fn decimal_storage(precision: u8) -> int {
    if precision <= 9 {
        5
    } else if precision <= 19 {
        9
    } else if precision <= 28 {
        13
    } else {
        17
    }
}

/// The maximum length in bytes of a value of the type; `-1` for `(max)` types.
pub open spec fn spec_type_max_length(dt: DataType) -> int {
    match dt {
        DataType::Bit => 1,
        DataType::TinyInt => 1,
        DataType::SmallInt => 2,
        DataType::Int => 4,
        DataType::BigInt => 8,
        DataType::Decimal { precision, .. } => decimal_storage(precision),
        DataType::Char { len } => len as int,
        DataType::VarChar { max_len } => if max_len == MAX_LEN {
            -1
        } else {
            max_len as int
        },
        DataType::NChar { len } => 2 * len,
        DataType::NVarChar { max_len } => if max_len == MAX_LEN {
            -1
        } else {
            2 * max_len
        },
        DataType::Date => 3,
        DataType::DateTime => 8,
        DataType::UniqueIdentifier => 16,
        DataType::SqlVariant => 8016,
    }
}

/// `name(n)`, or `name(max)` when `n` is [`MAX_LEN`] and `max_allowed` holds.
pub open spec fn sized_name(name: Seq<char>, n: u16, max_allowed: bool) -> Seq<char> {
    if max_allowed && n == MAX_LEN {
        name + "(max)"@
    } else {
        name + "("@ + decimal(n as nat) + ")"@
    }
}

/// The system type name of a column type, with its length, or its precision
/// and scale, in brackets where the type takes them.
pub open spec fn spec_system_type_name(dt: DataType) -> Seq<char> {
    match dt {
        DataType::Bit => "bit"@,
        DataType::TinyInt => "tinyint"@,
        DataType::SmallInt => "smallint"@,
        DataType::Int => "int"@,
        DataType::BigInt => "bigint"@,
        DataType::Decimal { precision, scale } => "decimal("@ + decimal(precision as nat) + ","@
            + decimal(scale as nat) + ")"@,
        DataType::Char { len } => sized_name("char"@, len, false),
        DataType::VarChar { max_len } => sized_name("varchar"@, max_len, true),
        DataType::NChar { len } => sized_name("nchar"@, len, false),
        DataType::NVarChar { max_len } => sized_name("nvarchar"@, max_len, true),
        DataType::Date => "date"@,
        DataType::DateTime => "datetime"@,
        DataType::UniqueIdentifier => "uniqueidentifier"@,
        DataType::SqlVariant => "sql_variant"@,
    }
}

/// The precision reported for a column: that of a `decimal`, else 0.
pub open spec fn spec_type_precision(dt: DataType) -> u8 {
    match dt {
        DataType::Decimal { precision, .. } => precision,
        _ => 0,
    }
}

/// The scale reported for a column: that of a `decimal`, else 0.
pub open spec fn spec_type_scale(dt: DataType) -> u8 {
    match dt {
        DataType::Decimal { scale, .. } => scale,
        _ => 0,
    }
}

/// Character types carry a collation; the others carry none.
pub open spec fn is_character_type(dt: DataType) -> bool {
    match dt {
        DataType::Char { .. } | DataType::VarChar { .. } | DataType::NChar { .. }
        | DataType::NVarChar { .. } => true,
        _ => false,
    }
}

/// The collation the engine reports for every character column.
pub open spec fn default_collation() -> Seq<char> {
    "SQL_Latin1_General_CP1_CI_AS"@
}

/// The `system_type_id` of a column type.
pub fn system_type_id(dt: &DataType) -> (id: u8)
    ensures
        id == spec_system_type_id(*dt),
{
    match dt {
        DataType::Bit => 104,
        DataType::TinyInt => 48,
        DataType::SmallInt => 52,
        DataType::Int => 56,
        DataType::BigInt => 127,
        DataType::Decimal { .. } => 106,
        DataType::Char { .. } => 175,
        DataType::VarChar { .. } => 167,
        DataType::NChar { .. } => 239,
        DataType::NVarChar { .. } => 231,
        DataType::Date => 40,
        DataType::DateTime => 61,
        DataType::UniqueIdentifier => 36,
        DataType::SqlVariant => 98,
    }
}

/// The maximum length in bytes of a column type; `-1` for `(max)` types.
pub fn type_max_length(dt: &DataType) -> (len: i32)
    ensures
        len as int == spec_type_max_length(*dt),
{
    match dt {
        DataType::Bit => 1,
        DataType::TinyInt => 1,
        DataType::SmallInt => 2,
        DataType::Int => 4,
        DataType::BigInt => 8,
        DataType::Decimal { precision, .. } => {
            if *precision <= 9 {
                5
            } else if *precision <= 19 {
                9
            } else if *precision <= 28 {
                13
            } else {
                17
            }
        },
        DataType::Char { len } => *len as i32,
        DataType::VarChar { max_len } => {
            if *max_len == MAX_LEN {
                -1
            } else {
                *max_len as i32
            }
        },
        DataType::NChar { len } => 2 * (*len as i32),
        DataType::NVarChar { max_len } => {
            if *max_len == MAX_LEN {
                -1
            } else {
                2 * (*max_len as i32)
            }
        },
        DataType::Date => 3,
        DataType::DateTime => 8,
        DataType::UniqueIdentifier => 16,
        DataType::SqlVariant => 8016,
    }
}

fn format_sized(name: &str, n: u16, max_allowed: bool) -> (s: String)
    ensures
        s@ == sized_name(name@, n, max_allowed),
{
    let mut s = String::from_str(name);
    if max_allowed && n == MAX_LEN {
        s.append("(max)");
    } else {
        s.append("(");
        let digits = format_decimal(n);
        s.append(digits.as_str());
        s.append(")");
    }
    s
}

/// The system type name of a column type.
pub fn system_type_name(dt: &DataType) -> (name: String)
    ensures
        name@ == spec_system_type_name(*dt),
{
    match dt {
        DataType::Bit => String::from_str("bit"),
        DataType::TinyInt => String::from_str("tinyint"),
        DataType::SmallInt => String::from_str("smallint"),
        DataType::Int => String::from_str("int"),
        DataType::BigInt => String::from_str("bigint"),
        DataType::Decimal { precision, scale } => {
            let mut s = String::from_str("decimal(");
            let p = format_decimal(*precision as u16);
            s.append(p.as_str());
            s.append(",");
            let q = format_decimal(*scale as u16);
            s.append(q.as_str());
            s.append(")");
            s
        },
        DataType::Char { len } => format_sized("char", *len, false),
        DataType::VarChar { max_len } => format_sized("varchar", *max_len, true),
        DataType::NChar { len } => format_sized("nchar", *len, false),
        DataType::NVarChar { max_len } => format_sized("nvarchar", *max_len, true),
        DataType::Date => String::from_str("date"),
        DataType::DateTime => String::from_str("datetime"),
        DataType::UniqueIdentifier => String::from_str("uniqueidentifier"),
        DataType::SqlVariant => String::from_str("sql_variant"),
    }
}

/// The precision and scale reported for a column type.
pub fn type_precision_scale(dt: &DataType) -> (ps: (u8, u8))
    ensures
        ps.0 == spec_type_precision(*dt),
        ps.1 == spec_type_scale(*dt),
{
    match dt {
        DataType::Decimal { precision, scale } => (*precision, *scale),
        _ => (0, 0),
    }
}

/// The collation of a column type: the default collation for character
/// types, none for the others.
pub fn type_collation(dt: &DataType) -> (c: Option<String>)
    ensures
        is_character_type(*dt) <==> c is Some,
        c matches Some(s) ==> s@ == default_collation(),
{
    match dt {
        DataType::NVarChar { .. } | DataType::NChar { .. } | DataType::VarChar { .. }
        | DataType::Char { .. } => Some(String::from_str("SQL_Latin1_General_CP1_CI_AS")),
        _ => None,
    }
}

} // verus!
