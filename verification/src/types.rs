use vstd::prelude::*;
use crate::error::{PlanError, ErrKind};
use crate::strutil::str_eq;

verus! {

// ---------------------------------------------------------------------------
// The engine's physical type system
// ---------------------------------------------------------------------------

#[derive(Clone, Copy, PartialEq, Eq, Structural, Debug)]
pub enum DateUnit {
    Day,
    Millisecond,
}

#[derive(Clone, Copy, PartialEq, Eq, Structural, Debug)]
pub enum TimeUnit {
    Second,
    Millisecond,
    Microsecond,
    Nanosecond,
}

/// An engine data type. `Timestamp` carries an optional time zone name.
#[derive(Debug)]
pub enum DataType {
    Boolean,
    Int8,
    Int16,
    Int32,
    Int64,
    UInt8,
    UInt16,
    UInt32,
    UInt64,
    Float32,
    Float64,
    Utf8,
    Date64(DateUnit),
    Time64(TimeUnit),
    Timestamp(TimeUnit, Option<String>),
}

/// The mathematical model of a `DataType`: the time zone as a character
/// sequence.
pub enum DataTypeS {
    Boolean,
    Int8,
    Int16,
    Int32,
    Int64,
    UInt8,
    UInt16,
    UInt32,
    UInt64,
    Float32,
    Float64,
    Utf8,
    Date64(DateUnit),
    Time64(TimeUnit),
    Timestamp(TimeUnit, Option<Seq<char>>),
}

impl View for DataType {
    type V = DataTypeS;

    open spec fn view(&self) -> DataTypeS {
        match self {
            DataType::Boolean => DataTypeS::Boolean,
            DataType::Int8 => DataTypeS::Int8,
            DataType::Int16 => DataTypeS::Int16,
            DataType::Int32 => DataTypeS::Int32,
            DataType::Int64 => DataTypeS::Int64,
            DataType::UInt8 => DataTypeS::UInt8,
            DataType::UInt16 => DataTypeS::UInt16,
            DataType::UInt32 => DataTypeS::UInt32,
            DataType::UInt64 => DataTypeS::UInt64,
            DataType::Float32 => DataTypeS::Float32,
            DataType::Float64 => DataTypeS::Float64,
            DataType::Utf8 => DataTypeS::Utf8,
            DataType::Date64(u) => DataTypeS::Date64(*u),
            DataType::Time64(u) => DataTypeS::Time64(*u),
            DataType::Timestamp(u, tz) => DataTypeS::Timestamp(
                *u,
                match tz {
                    Some(z) => Some(z@),
                    None => None,
                },
            ),
        }
    }
}

pub fn clone_data_type(d: &DataType) -> (r: DataType)
    ensures
        r@ == d@,
{
    match d {
        DataType::Boolean => DataType::Boolean,
        DataType::Int8 => DataType::Int8,
        DataType::Int16 => DataType::Int16,
        DataType::Int32 => DataType::Int32,
        DataType::Int64 => DataType::Int64,
        DataType::UInt8 => DataType::UInt8,
        DataType::UInt16 => DataType::UInt16,
        DataType::UInt32 => DataType::UInt32,
        DataType::UInt64 => DataType::UInt64,
        DataType::Float32 => DataType::Float32,
        DataType::Float64 => DataType::Float64,
        DataType::Utf8 => DataType::Utf8,
        DataType::Date64(u) => DataType::Date64(*u),
        DataType::Time64(u) => DataType::Time64(*u),
        DataType::Timestamp(u, tz) => DataType::Timestamp(
            *u,
            match tz {
                Some(z) => Some(z.clone()),
                None => None,
            },
        ),
    }
}

/// Structural equality of data types.
#[verifier::rlimit(50)]
pub fn data_type_eq(a: &DataType, b: &DataType) -> (r: bool)
    ensures
        r == (a@ == b@),
{
    match a {
        DataType::Boolean => match b {
            DataType::Boolean => true,
            _ => false,
        },
        DataType::Int8 => match b {
            DataType::Int8 => true,
            _ => false,
        },
        DataType::Int16 => match b {
            DataType::Int16 => true,
            _ => false,
        },
        DataType::Int32 => match b {
            DataType::Int32 => true,
            _ => false,
        },
        DataType::Int64 => match b {
            DataType::Int64 => true,
            _ => false,
        },
        DataType::UInt8 => match b {
            DataType::UInt8 => true,
            _ => false,
        },
        DataType::UInt16 => match b {
            DataType::UInt16 => true,
            _ => false,
        },
        DataType::UInt32 => match b {
            DataType::UInt32 => true,
            _ => false,
        },
        DataType::UInt64 => match b {
            DataType::UInt64 => true,
            _ => false,
        },
        DataType::Float32 => match b {
            DataType::Float32 => true,
            _ => false,
        },
        DataType::Float64 => match b {
            DataType::Float64 => true,
            _ => false,
        },
        DataType::Utf8 => match b {
            DataType::Utf8 => true,
            _ => false,
        },
        DataType::Date64(u1) => match b {
            DataType::Date64(u2) => u1 == u2,
            _ => false,
        },
        DataType::Time64(u1) => match b {
            DataType::Time64(u2) => u1 == u2,
            _ => false,
        },
        DataType::Timestamp(u1, tz1) => match b {
            DataType::Timestamp(u2, tz2) => {
                let tz_same = match tz1 {
                    Option::None => match tz2 {
                        Option::None => true,
                        _ => false,
                    },
                    Option::Some(z1) => match tz2 {
                        Option::Some(z2) => str_eq(z1.as_str(), z2.as_str()),
                        Option::None => false,
                    },
                };
                u1 == u2 && tz_same
            },
            _ => false,
        },
    }
}

// ---------------------------------------------------------------------------
// Rendering a data type, in the style it appears inside expression names
// ---------------------------------------------------------------------------

pub open spec fn date_unit_str(u: DateUnit) -> Seq<char> {
    match u {
        DateUnit::Day => "Day"@,
        DateUnit::Millisecond => "Millisecond"@,
    }
}

pub open spec fn time_unit_str(u: TimeUnit) -> Seq<char> {
    match u {
        TimeUnit::Second => "Second"@,
        TimeUnit::Millisecond => "Millisecond"@,
        TimeUnit::Microsecond => "Microsecond"@,
        TimeUnit::Nanosecond => "Nanosecond"@,
    }
}

/// The textual form of a data type, as it appears in `CAST` expressions.
pub open spec fn data_type_str(d: DataTypeS) -> Seq<char> {
    match d {
        DataTypeS::Boolean => "Boolean"@,
        DataTypeS::Int8 => "Int8"@,
        DataTypeS::Int16 => "Int16"@,
        DataTypeS::Int32 => "Int32"@,
        DataTypeS::Int64 => "Int64"@,
        DataTypeS::UInt8 => "UInt8"@,
        DataTypeS::UInt16 => "UInt16"@,
        DataTypeS::UInt32 => "UInt32"@,
        DataTypeS::UInt64 => "UInt64"@,
        DataTypeS::Float32 => "Float32"@,
        DataTypeS::Float64 => "Float64"@,
        DataTypeS::Utf8 => "Utf8"@,
        DataTypeS::Date64(u) => "Date64("@ + date_unit_str(u) + ")"@,
        DataTypeS::Time64(u) => "Time64("@ + time_unit_str(u) + ")"@,
        DataTypeS::Timestamp(u, tz) => "Timestamp("@ + time_unit_str(u) + ", "@ + (match tz {
            Some(z) => "Some(\""@ + z + "\")"@,
            None => "None"@,
        }) + ")"@,
    }
}

fn date_unit_string(u: DateUnit) -> (r: &'static str)
    ensures
        r@ == date_unit_str(u),
{
    match u {
        DateUnit::Day => "Day",
        DateUnit::Millisecond => "Millisecond",
    }
}

fn time_unit_string(u: TimeUnit) -> (r: &'static str)
    ensures
        r@ == time_unit_str(u),
{
    match u {
        TimeUnit::Second => "Second",
        TimeUnit::Millisecond => "Millisecond",
        TimeUnit::Microsecond => "Microsecond",
        TimeUnit::Nanosecond => "Nanosecond",
    }
}

/// Renders a data type.
pub fn data_type_string(d: &DataType) -> (r: String)
    ensures
        r@ == data_type_str(d@),
{
    match d {
        DataType::Boolean => String::from_str("Boolean"),
        DataType::Int8 => String::from_str("Int8"),
        DataType::Int16 => String::from_str("Int16"),
        DataType::Int32 => String::from_str("Int32"),
        DataType::Int64 => String::from_str("Int64"),
        DataType::UInt8 => String::from_str("UInt8"),
        DataType::UInt16 => String::from_str("UInt16"),
        DataType::UInt32 => String::from_str("UInt32"),
        DataType::UInt64 => String::from_str("UInt64"),
        DataType::Float32 => String::from_str("Float32"),
        DataType::Float64 => String::from_str("Float64"),
        DataType::Utf8 => String::from_str("Utf8"),
        DataType::Date64(u) => {
            let mut s = String::from_str("Date64(");
            s.append(date_unit_string(*u));
            s.append(")");
            proof {
                assert(s@ =~= data_type_str(d@));
            }
            s
        },
        DataType::Time64(u) => {
            let mut s = String::from_str("Time64(");
            s.append(time_unit_string(*u));
            s.append(")");
            proof {
                assert(s@ =~= data_type_str(d@));
            }
            s
        },
        DataType::Timestamp(u, tz) => {
            let mut s = String::from_str("Timestamp(");
            s.append(time_unit_string(*u));
            s.append(", ");
            match tz {
                Some(z) => {
                    s.append("Some(\"");
                    s.append(z.as_str());
                    s.append("\")");
                },
                None => {
                    s.append("None");
                },
            }
            s.append(")");
            proof {
                assert(s@ =~= data_type_str(d@));
            }
            s
        },
    }
}

// ---------------------------------------------------------------------------
// SQL type syntax, and the two mappings into engine types
// ---------------------------------------------------------------------------

/// A SQL type as written in the statement. Sizes and precisions are kept but
/// never consulted. `Other` carries the text of a type this translator does
/// not recognize.
#[derive(Debug)]
pub enum SqlDataType {
    Boolean,
    SmallInt,
    Int,
    BigInt,
    Float(Option<u64>),
    Real,
    Double,
    Decimal(Option<u64>, Option<u64>),
    Char(Option<u64>),
    Varchar(Option<u64>),
    Text,
    Date,
    Time,
    Timestamp,
    Other(String),
}

/// The type that a column of a `CREATE EXTERNAL TABLE` statement gets:
/// `None` where the SQL type is not implemented.
pub open spec fn make_data_type_spec(t: SqlDataType) -> Option<DataTypeS> {
    match t {
        SqlDataType::BigInt => Some(DataTypeS::Int64),
        SqlDataType::Int => Some(DataTypeS::Int32),
        SqlDataType::SmallInt => Some(DataTypeS::Int16),
        SqlDataType::Char(_) => Some(DataTypeS::Utf8),
        SqlDataType::Varchar(_) => Some(DataTypeS::Utf8),
        SqlDataType::Text => Some(DataTypeS::Utf8),
        SqlDataType::Decimal(_, _) => Some(DataTypeS::Float64),
        SqlDataType::Float(_) => Some(DataTypeS::Float32),
        SqlDataType::Real => Some(DataTypeS::Float64),
        SqlDataType::Double => Some(DataTypeS::Float64),
        SqlDataType::Boolean => Some(DataTypeS::Boolean),
        SqlDataType::Date => Some(DataTypeS::Date64(DateUnit::Day)),
        SqlDataType::Time => Some(DataTypeS::Time64(TimeUnit::Millisecond)),
        SqlDataType::Timestamp => Some(DataTypeS::Date64(DateUnit::Millisecond)),
        SqlDataType::Other(_) => None,
    }
}

/// The type that a `CAST` target gets: `None` where the SQL type is not
/// implemented. `TIMESTAMP` deliberately diverges from the column mapping.
pub open spec fn convert_data_type_spec(t: SqlDataType) -> Option<DataTypeS> {
    match t {
        SqlDataType::Boolean => Some(DataTypeS::Boolean),
        SqlDataType::SmallInt => Some(DataTypeS::Int16),
        SqlDataType::Int => Some(DataTypeS::Int32),
        SqlDataType::BigInt => Some(DataTypeS::Int64),
        SqlDataType::Float(_) => Some(DataTypeS::Float64),
        SqlDataType::Real => Some(DataTypeS::Float64),
        SqlDataType::Double => Some(DataTypeS::Float64),
        SqlDataType::Char(_) => Some(DataTypeS::Utf8),
        SqlDataType::Varchar(_) => Some(DataTypeS::Utf8),
        SqlDataType::Text => Some(DataTypeS::Utf8),
        SqlDataType::Timestamp => Some(DataTypeS::Timestamp(TimeUnit::Nanosecond, None)),
        _ => None,
    }
}

fn unsupported_type_error(t: &SqlDataType) -> (r: PlanError)
    ensures
        r.kind() == ErrKind::NotImplemented,
{
    let mut m = String::from_str("The SQL data type ");
    m.append(
        match t {
            SqlDataType::Boolean => "BOOLEAN",
            SqlDataType::SmallInt => "SMALLINT",
            SqlDataType::Int => "INT",
            SqlDataType::BigInt => "BIGINT",
            SqlDataType::Float(_) => "FLOAT",
            SqlDataType::Real => "REAL",
            SqlDataType::Double => "DOUBLE",
            SqlDataType::Decimal(_, _) => "DECIMAL",
            SqlDataType::Char(_) => "CHAR",
            SqlDataType::Varchar(_) => "VARCHAR",
            SqlDataType::Text => "TEXT",
            SqlDataType::Date => "DATE",
            SqlDataType::Time => "TIME",
            SqlDataType::Timestamp => "TIMESTAMP",
            SqlDataType::Other(_) => "",
        },
    );
    if let SqlDataType::Other(text) = t {
        m.append(text.as_str());
    }
    m.append(" is not implemented");
    PlanError::NotImplemented(m)
}

/// Maps a SQL type in a column definition to the engine type of the column.
pub fn make_data_type(sql_type: &SqlDataType) -> (r: Result<DataType, PlanError>)
    ensures
        (match r {
            Ok(dt) => make_data_type_spec(*sql_type) == Some(dt@),
            Err(e) => make_data_type_spec(*sql_type) is None && e.kind()
                == ErrKind::NotImplemented,
        }),
{
    match sql_type {
        SqlDataType::BigInt => Ok(DataType::Int64),
        SqlDataType::Int => Ok(DataType::Int32),
        SqlDataType::SmallInt => Ok(DataType::Int16),
        SqlDataType::Char(_) => Ok(DataType::Utf8),
        SqlDataType::Varchar(_) => Ok(DataType::Utf8),
        SqlDataType::Text => Ok(DataType::Utf8),
        SqlDataType::Decimal(_, _) => Ok(DataType::Float64),
        SqlDataType::Float(_) => Ok(DataType::Float32),
        SqlDataType::Real => Ok(DataType::Float64),
        SqlDataType::Double => Ok(DataType::Float64),
        SqlDataType::Boolean => Ok(DataType::Boolean),
        SqlDataType::Date => Ok(DataType::Date64(DateUnit::Day)),
        SqlDataType::Time => Ok(DataType::Time64(TimeUnit::Millisecond)),
        SqlDataType::Timestamp => Ok(DataType::Date64(DateUnit::Millisecond)),
        SqlDataType::Other(_) => Err(unsupported_type_error(sql_type)),
    }
}

/// Maps a SQL type in a `CAST` to the engine type of the cast expression.
pub fn convert_data_type(sql_type: &SqlDataType) -> (r: Result<DataType, PlanError>)
    ensures
        (match r {
            Ok(dt) => convert_data_type_spec(*sql_type) == Some(dt@),
            Err(e) => convert_data_type_spec(*sql_type) is None && e.kind()
                == ErrKind::NotImplemented,
        }),
{
    match sql_type {
        SqlDataType::Boolean => Ok(DataType::Boolean),
        SqlDataType::SmallInt => Ok(DataType::Int16),
        SqlDataType::Int => Ok(DataType::Int32),
        SqlDataType::BigInt => Ok(DataType::Int64),
        SqlDataType::Float(_) => Ok(DataType::Float64),
        SqlDataType::Real => Ok(DataType::Float64),
        SqlDataType::Double => Ok(DataType::Float64),
        SqlDataType::Char(_) => Ok(DataType::Utf8),
        SqlDataType::Varchar(_) => Ok(DataType::Utf8),
        SqlDataType::Text => Ok(DataType::Utf8),
        SqlDataType::Timestamp => Ok(DataType::Timestamp(TimeUnit::Nanosecond, None)),
        _ => Err(unsupported_type_error(sql_type)),
    }
}

} // verus!

verus! {

/// The storage format of an external table.
#[derive(Clone, Copy, PartialEq, Eq, Structural, Debug)]
pub enum FileType {
    NdJson,
    Parquet,
    CSV,
}

} // verus!
