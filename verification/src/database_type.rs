//! The column types of the relational backends, and what they map to.

use vstd::prelude::*;
use vstd::string::StringExecFns;
use crate::schema::FieldType;
use crate::text::{decimal, decimal_text};

verus! {

/// The dialect of SQL that a relational backend speaks.
#[derive(Debug, Clone, Copy, PartialEq, Eq)]
pub enum SQLDialect {
    MySQL,
    PostgreSQL,
    SQLite,
}

/// The type of a column as the database knows it.
#[derive(Debug, PartialEq)]
pub enum DatabaseType {
    /// Not decided yet.
    Undefined,
    ObjectId,
    Bool,
    /// A run of bits of the given length.
    Bit(u8),
    BitVarying,
    /// An 8-bit integer; `true` for unsigned.
    TinyInt(bool),
    /// A 16-bit integer; `true` for unsigned.
    SmallInt(bool),
    /// A 24-bit integer; `true` for unsigned.
    MediumInt(bool),
    /// A 32-bit integer; `true` for unsigned.
    Int(bool),
    /// A 64-bit integer; `true` for unsigned.
    BigInt(bool),
    /// A fixed-point number of the given precision and scale.
    Decimal(Option<u8>, Option<u8>),
    /// A floating-point number of the given precision in bits.
    Float(u8),
    Double,
    Real,
    Date,
    /// A date and time with the given number of fractional digits.
    DateTime(u8),
    /// A timestamp with the given number of fractional digits, with or
    /// without time zone.
    Timestamp(u8, bool),
    /// A time of day with the given number of fractional digits, with or
    /// without time zone.
    Time(u8, bool),
    Year,
    /// Fixed-length text: length, character set, collation.
    Char(u8, Option<String>, Option<String>),
    /// Variable-length text: length, character set, collation.
    VarChar(u16, Option<String>, Option<String>),
    TinyText(Option<String>, Option<String>),
    MediumText(Option<String>, Option<String>),
    LongText(Option<String>, Option<String>),
    Text(Option<u16>, Option<String>, Option<String>),
    Binary(u8),
    VarBinary(u16),
    TinyBlob,
    MediumBlob,
    LongBlob,
    Blob(u16),
    ByteA,
}

/// The clause that names a character set, where one is given.
pub open spec fn charset_clause(charset: Option<String>) -> Seq<char> {
    match charset {
        Some(v) => " CHARACTER SET "@ + v@,
        None => Seq::empty(),
    }
}

/// The clause that names a collation, where one is given.
pub open spec fn collation_clause(collation: Option<String>) -> Seq<char> {
    match collation {
        Some(v) => " COLLATION "@ + v@,
        None => Seq::empty(),
    }
}

/// A type name with one number in brackets.
pub open spec fn sized(name: Seq<char>, n: nat) -> Seq<char> {
    name + "("@ + decimal_text(n) + ")"@
}

impl DatabaseType {
    /// Whether the type maps to a field type.
    pub open spec fn has_field_type(&self) -> bool {
        !(self is Bit || self is BitVarying || self is Decimal || self is Time)
    }

    /// The field type that the column type maps to.
    pub open spec fn spec_field_type(&self) -> FieldType {
        match self {
            DatabaseType::Undefined => FieldType::Undefined,
            DatabaseType::ObjectId => FieldType::ObjectId,
            DatabaseType::Bool => FieldType::Bool,
            DatabaseType::TinyInt(unsigned) => if *unsigned {
                FieldType::U8
            } else {
                FieldType::I8
            },
            DatabaseType::SmallInt(unsigned) => if *unsigned {
                FieldType::U16
            } else {
                FieldType::I16
            },
            DatabaseType::MediumInt(unsigned) => if *unsigned {
                FieldType::U32
            } else {
                FieldType::I32
            },
            DatabaseType::Int(unsigned) => if *unsigned {
                FieldType::U32
            } else {
                FieldType::I32
            },
            DatabaseType::BigInt(unsigned) => if *unsigned {
                FieldType::U64
            } else {
                FieldType::I64
            },
            DatabaseType::Float(precision) => if *precision >= 25 {
                FieldType::F64
            } else {
                FieldType::F32
            },
            DatabaseType::Double => FieldType::F64,
            DatabaseType::Real => FieldType::F32,
            DatabaseType::Date => FieldType::Date,
            DatabaseType::DateTime(_) => FieldType::DateTime,
            DatabaseType::Timestamp(_, _) => FieldType::DateTime,
            _ => FieldType::String,
        }
    }

    /// Whether the type has a name in SQL.
    pub open spec fn has_sql_text(&self) -> bool {
        !(self is ObjectId || self is Decimal || self is Time)
    }

    /// The name of the type in the given dialect of SQL.
    pub open spec fn sql_text(&self, dialect: SQLDialect) -> Seq<char> {
        match self {
            DatabaseType::Undefined => "Unimplemented"@,
            DatabaseType::Bool => "Bool"@,
            DatabaseType::Bit(l) => sized("BIT"@, *l as nat),
            DatabaseType::BitVarying => "BIT VARYING"@,
            DatabaseType::TinyInt(u) => if *u {
                "TINYINT UNSIGNED"@
            } else {
                "TINYINT"@
            },
            DatabaseType::SmallInt(u) => if *u {
                "SMALLINT UNSIGNED"@
            } else {
                "SMALLINT"@
            },
            DatabaseType::MediumInt(u) => if *u {
                "MEDIUMINT UNSIGNED"@
            } else {
                "MEDIUMINT"@
            },
            DatabaseType::Int(u) => if *u {
                "INT UNSIGNED"@
            } else {
                "INT"@
            },
            DatabaseType::BigInt(u) => if *u {
                "BIGINT UNSIGNED"@
            } else {
                "BIGINT"@
            },
            DatabaseType::Float(p) => sized("FLOAT"@, *p as nat),
            DatabaseType::Double => if dialect is PostgreSQL {
                "DOUBLE PRECISION"@
            } else {
                "DOUBLE"@
            },
            DatabaseType::Real => if dialect is MySQL {
                "FLOAT"@
            } else {
                "REAL"@
            },
            DatabaseType::Date => "DATE"@,
            DatabaseType::DateTime(fsp) => sized("DATETIME"@, *fsp as nat),
            DatabaseType::Timestamp(fsp, tz) => if dialect is PostgreSQL && *tz {
                sized("TIMESTAMP"@, *fsp as nat) + " WITH TIME ZONE"@
            } else {
                sized("TIMESTAMP"@, *fsp as nat)
            },
            DatabaseType::Year => "YEAR"@,
            DatabaseType::Char(l, cs, co) => sized("CHAR"@, *l as nat) + charset_clause(*cs)
                + collation_clause(*co),
            DatabaseType::VarChar(l, cs, co) => sized("VARCHAR"@, *l as nat) + charset_clause(*cs)
                + collation_clause(*co),
            DatabaseType::TinyText(cs, co) => "TINYTEXT"@ + charset_clause(*cs) + collation_clause(
                *co,
            ),
            DatabaseType::MediumText(cs, co) => "MEDIUMTEXT"@ + charset_clause(*cs)
                + collation_clause(*co),
            DatabaseType::LongText(cs, co) => "LONGTEXT"@ + charset_clause(*cs) + collation_clause(
                *co,
            ),
            DatabaseType::Text(_, cs, co) => if dialect is PostgreSQL {
                "TEXT"@
            } else {
                "TINYTEXT"@ + charset_clause(*cs) + collation_clause(*co)
            },
            DatabaseType::Binary(l) => sized("BINARY"@, *l as nat),
            DatabaseType::VarBinary(l) => sized("VARBINARY"@, *l as nat),
            DatabaseType::TinyBlob => "TINYBLOB"@,
            DatabaseType::MediumBlob => "MEDIUMBLOB"@,
            DatabaseType::LongBlob => "LONGBLOB"@,
            DatabaseType::Blob(l) => sized("BLOB"@, *l as nat),
            DatabaseType::ByteA => "bytea"@,
            _ => Seq::empty(),
        }
    }

    /// Whether the type maps to a field type.
    pub fn maps_to_field_type(&self) -> (r: bool)
        ensures
            r == self.has_field_type(),
    {
        match self {
            DatabaseType::Bit(_) => false,
            DatabaseType::BitVarying => false,
            DatabaseType::Decimal(_, _) => false,
            DatabaseType::Time(_, _) => false,
            _ => true,
        }
    }

    /// Whether the type has a name in SQL.
    pub fn is_named(&self) -> (r: bool)
        ensures
            r == self.has_sql_text(),
    {
        match self {
            DatabaseType::ObjectId => false,
            DatabaseType::Decimal(_, _) => false,
            DatabaseType::Time(_, _) => false,
            _ => true,
        }
    }

    /// Whether the type is not decided yet.
    pub fn is_undefined(&self) -> (r: bool)
        ensures
            r == (*self is Undefined),
    {
        match self {
            DatabaseType::Undefined => true,
            _ => false,
        }
    }

    /// The field type that the column type maps to.
    pub fn field_type(&self) -> (r: FieldType)
        requires
            self.has_field_type(),
        ensures
            r == self.spec_field_type(),
    {
        match self {
            DatabaseType::Undefined => FieldType::Undefined,
            DatabaseType::ObjectId => FieldType::ObjectId,
            DatabaseType::Bool => FieldType::Bool,
            DatabaseType::TinyInt(unsigned) => if *unsigned {
                FieldType::U8
            } else {
                FieldType::I8
            },
            DatabaseType::SmallInt(unsigned) => if *unsigned {
                FieldType::U16
            } else {
                FieldType::I16
            },
            DatabaseType::MediumInt(unsigned) => if *unsigned {
                FieldType::U32
            } else {
                FieldType::I32
            },
            DatabaseType::Int(unsigned) => if *unsigned {
                FieldType::U32
            } else {
                FieldType::I32
            },
            DatabaseType::BigInt(unsigned) => if *unsigned {
                FieldType::U64
            } else {
                FieldType::I64
            },
            DatabaseType::Float(precision) => if *precision >= 25 {
                FieldType::F64
            } else {
                FieldType::F32
            },
            DatabaseType::Double => FieldType::F64,
            DatabaseType::Real => FieldType::F32,
            DatabaseType::Date => FieldType::Date,
            DatabaseType::DateTime(_) => FieldType::DateTime,
            DatabaseType::Timestamp(_, _) => FieldType::DateTime,
            DatabaseType::Year => FieldType::String,
            DatabaseType::Char(_, _, _) => FieldType::String,
            DatabaseType::VarChar(_, _, _) => FieldType::String,
            DatabaseType::TinyText(_, _) => FieldType::String,
            DatabaseType::MediumText(_, _) => FieldType::String,
            DatabaseType::LongText(_, _) => FieldType::String,
            DatabaseType::Text(_, _, _) => FieldType::String,
            DatabaseType::Binary(_) => FieldType::String,
            DatabaseType::VarBinary(_) => FieldType::String,
            DatabaseType::TinyBlob => FieldType::String,
            DatabaseType::MediumBlob => FieldType::String,
            DatabaseType::LongBlob => FieldType::String,
            DatabaseType::Blob(_) => FieldType::String,
            DatabaseType::ByteA => FieldType::String,
            DatabaseType::Bit(_) => vstd::pervasive::unreached(),
            DatabaseType::BitVarying => vstd::pervasive::unreached(),
            DatabaseType::Decimal(_, _) => vstd::pervasive::unreached(),
            DatabaseType::Time(_, _) => vstd::pervasive::unreached(),
        }
    }

    /// The name of the type in the given dialect of SQL.
    pub fn to_string(&self, dialect: SQLDialect) -> (r: String)
        requires
            self.has_sql_text(),
        ensures
            r@ == self.sql_text(dialect),
    {
        let postgres = match dialect {
            SQLDialect::PostgreSQL => true,
            _ => false,
        };
        let mysql = match dialect {
            SQLDialect::MySQL => true,
            _ => false,
        };
        match self {
            DatabaseType::Undefined => "Unimplemented".to_owned(),
            DatabaseType::Bool => "Bool".to_owned(),
            DatabaseType::Bit(l) => with_size("BIT", *l as u64),
            DatabaseType::BitVarying => "BIT VARYING".to_owned(),
            DatabaseType::TinyInt(u) => (if *u {
                "TINYINT UNSIGNED"
            } else {
                "TINYINT"
            }).to_owned(),
            DatabaseType::SmallInt(u) => (if *u {
                "SMALLINT UNSIGNED"
            } else {
                "SMALLINT"
            }).to_owned(),
            DatabaseType::MediumInt(u) => (if *u {
                "MEDIUMINT UNSIGNED"
            } else {
                "MEDIUMINT"
            }).to_owned(),
            DatabaseType::Int(u) => (if *u {
                "INT UNSIGNED"
            } else {
                "INT"
            }).to_owned(),
            DatabaseType::BigInt(u) => (if *u {
                "BIGINT UNSIGNED"
            } else {
                "BIGINT"
            }).to_owned(),
            DatabaseType::Float(p) => with_size("FLOAT", *p as u64),
            DatabaseType::Double => {
                if postgres {
                    "DOUBLE PRECISION".to_owned()
                } else {
                    "DOUBLE".to_owned()
                }
            },
            DatabaseType::Real => {
                if mysql {
                    "FLOAT".to_owned()
                } else {
                    "REAL".to_owned()
                }
            },
            DatabaseType::Date => "DATE".to_owned(),
            DatabaseType::DateTime(fsp) => with_size("DATETIME", *fsp as u64),
            DatabaseType::Timestamp(fsp, tz) => {
                let mut r = with_size("TIMESTAMP", *fsp as u64);
                if postgres && *tz {
                    r.append(" WITH TIME ZONE");
                }
                r
            },
            DatabaseType::Year => "YEAR".to_owned(),
            DatabaseType::Char(l, cs, co) => with_clauses(with_size("CHAR", *l as u64), cs, co),
            DatabaseType::VarChar(l, cs, co) => with_clauses(
                with_size("VARCHAR", *l as u64),
                cs,
                co,
            ),
            DatabaseType::TinyText(cs, co) => with_clauses("TINYTEXT".to_owned(), cs, co),
            DatabaseType::MediumText(cs, co) => with_clauses("MEDIUMTEXT".to_owned(), cs, co),
            DatabaseType::LongText(cs, co) => with_clauses("LONGTEXT".to_owned(), cs, co),
            DatabaseType::Text(_, cs, co) => {
                if postgres {
                    "TEXT".to_owned()
                } else {
                    with_clauses("TINYTEXT".to_owned(), cs, co)
                }
            },
            DatabaseType::Binary(l) => with_size("BINARY", *l as u64),
            DatabaseType::VarBinary(l) => with_size("VARBINARY", *l as u64),
            DatabaseType::TinyBlob => "TINYBLOB".to_owned(),
            DatabaseType::MediumBlob => "MEDIUMBLOB".to_owned(),
            DatabaseType::LongBlob => "LONGBLOB".to_owned(),
            DatabaseType::Blob(l) => with_size("BLOB", *l as u64),
            DatabaseType::ByteA => "bytea".to_owned(),
            DatabaseType::ObjectId => vstd::pervasive::unreached(),
            DatabaseType::Decimal(_, _) => vstd::pervasive::unreached(),
            DatabaseType::Time(_, _) => vstd::pervasive::unreached(),
        }
    }
}

/// A type name with one number in brackets.
fn with_size(name: &str, n: u64) -> (r: String)
    ensures
        r@ == sized(name@, n as nat),
{
    let mut r = name.to_owned();
    r.append("(");
    let number = decimal(n);
    r.append(number.as_str());
    r.append(")");
    r
}

/// `text` with the clauses for a character set and a collation behind it.
fn with_clauses(text: String, charset: &Option<String>, collation: &Option<String>) -> (r: String)
    ensures
        r@ == text@ + charset_clause(*charset) + collation_clause(*collation),
{
    let mut r = text;
    if let Some(v) = charset {
        r.append(" CHARACTER SET ");
        r.append(v.as_str());
    }
    if let Some(v) = collation {
        r.append(" COLLATION ");
        r.append(v.as_str());
    }
    assert(r@ =~= text@ + charset_clause(*charset) + collation_clause(*collation));
    r
}

} // verus!
