use teo::database_type::{DatabaseType, SQLDialect};
use teo::schema::FieldType;

#[test]
fn only_undefined_is_undefined() {
    assert!(DatabaseType::Undefined.is_undefined());
    assert!(!DatabaseType::Bool.is_undefined());
    assert!(!DatabaseType::VarChar(10, None, None).is_undefined());
}

#[test]
fn integer_types_map_by_width_and_sign() {
    assert_eq!(DatabaseType::TinyInt(false).field_type(), FieldType::I8);
    assert_eq!(DatabaseType::TinyInt(true).field_type(), FieldType::U8);
    assert_eq!(DatabaseType::SmallInt(false).field_type(), FieldType::I16);
    assert_eq!(DatabaseType::SmallInt(true).field_type(), FieldType::U16);
    assert_eq!(DatabaseType::MediumInt(false).field_type(), FieldType::I32);
    assert_eq!(DatabaseType::MediumInt(true).field_type(), FieldType::U32);
    assert_eq!(DatabaseType::Int(false).field_type(), FieldType::I32);
    assert_eq!(DatabaseType::Int(true).field_type(), FieldType::U32);
    assert_eq!(DatabaseType::BigInt(false).field_type(), FieldType::I64);
    assert_eq!(DatabaseType::BigInt(true).field_type(), FieldType::U64);
}

#[test]
fn float_precision_decides_the_width() {
    assert_eq!(DatabaseType::Float(24).field_type(), FieldType::F32);
    assert_eq!(DatabaseType::Float(25).field_type(), FieldType::F64);
    assert_eq!(DatabaseType::Double.field_type(), FieldType::F64);
    assert_eq!(DatabaseType::Real.field_type(), FieldType::F32);
}

#[test]
fn other_types_map_to_their_field_types() {
    assert_eq!(DatabaseType::Undefined.field_type(), FieldType::Undefined);
    assert_eq!(DatabaseType::ObjectId.field_type(), FieldType::ObjectId);
    assert_eq!(DatabaseType::Bool.field_type(), FieldType::Bool);
    assert_eq!(DatabaseType::Date.field_type(), FieldType::Date);
    assert_eq!(DatabaseType::DateTime(3).field_type(), FieldType::DateTime);
    assert_eq!(DatabaseType::Timestamp(3, true).field_type(), FieldType::DateTime);
    assert_eq!(DatabaseType::Year.field_type(), FieldType::String);
    assert_eq!(DatabaseType::Char(1, None, None).field_type(), FieldType::String);
    assert_eq!(DatabaseType::Text(None, None, None).field_type(), FieldType::String);
    assert_eq!(DatabaseType::Blob(9).field_type(), FieldType::String);
    assert_eq!(DatabaseType::ByteA.field_type(), FieldType::String);
}

#[test]
fn plain_names() {
    let d = SQLDialect::MySQL;
    assert_eq!(DatabaseType::Undefined.to_string(d), "Unimplemented");
    assert_eq!(DatabaseType::Bool.to_string(d), "Bool");
    assert_eq!(DatabaseType::BitVarying.to_string(d), "BIT VARYING");
    assert_eq!(DatabaseType::TinyInt(true).to_string(d), "TINYINT UNSIGNED");
    assert_eq!(DatabaseType::TinyInt(false).to_string(d), "TINYINT");
    assert_eq!(DatabaseType::SmallInt(true).to_string(d), "SMALLINT UNSIGNED");
    assert_eq!(DatabaseType::MediumInt(false).to_string(d), "MEDIUMINT");
    assert_eq!(DatabaseType::Int(true).to_string(d), "INT UNSIGNED");
    assert_eq!(DatabaseType::BigInt(false).to_string(d), "BIGINT");
    assert_eq!(DatabaseType::Date.to_string(d), "DATE");
    assert_eq!(DatabaseType::Year.to_string(d), "YEAR");
    assert_eq!(DatabaseType::TinyBlob.to_string(d), "TINYBLOB");
    assert_eq!(DatabaseType::MediumBlob.to_string(d), "MEDIUMBLOB");
    assert_eq!(DatabaseType::LongBlob.to_string(d), "LONGBLOB");
    assert_eq!(DatabaseType::ByteA.to_string(d), "bytea");
}

#[test]
fn sized_names() {
    let d = SQLDialect::SQLite;
    assert_eq!(DatabaseType::Bit(0).to_string(d), "BIT(0)");
    assert_eq!(DatabaseType::Bit(64).to_string(d), "BIT(64)");
    assert_eq!(DatabaseType::Float(255).to_string(d), "FLOAT(255)");
    assert_eq!(DatabaseType::DateTime(6).to_string(d), "DATETIME(6)");
    assert_eq!(DatabaseType::Binary(100).to_string(d), "BINARY(100)");
    assert_eq!(DatabaseType::VarBinary(65535).to_string(d), "VARBINARY(65535)");
    assert_eq!(DatabaseType::Blob(1000).to_string(d), "BLOB(1000)");
}

#[test]
fn names_that_depend_on_the_dialect() {
    assert_eq!(DatabaseType::Double.to_string(SQLDialect::PostgreSQL), "DOUBLE PRECISION");
    assert_eq!(DatabaseType::Double.to_string(SQLDialect::MySQL), "DOUBLE");
    assert_eq!(DatabaseType::Double.to_string(SQLDialect::SQLite), "DOUBLE");
    assert_eq!(DatabaseType::Real.to_string(SQLDialect::MySQL), "FLOAT");
    assert_eq!(DatabaseType::Real.to_string(SQLDialect::PostgreSQL), "REAL");
    assert_eq!(DatabaseType::Real.to_string(SQLDialect::SQLite), "REAL");
    assert_eq!(
        DatabaseType::Timestamp(3, true).to_string(SQLDialect::PostgreSQL),
        "TIMESTAMP(3) WITH TIME ZONE"
    );
    assert_eq!(DatabaseType::Timestamp(3, false).to_string(SQLDialect::PostgreSQL), "TIMESTAMP(3)");
    assert_eq!(DatabaseType::Timestamp(3, true).to_string(SQLDialect::MySQL), "TIMESTAMP(3)");
    assert_eq!(
        DatabaseType::Text(Some(5), Some("utf8".to_string()), None).to_string(SQLDialect::PostgreSQL),
        "TEXT"
    );
    assert_eq!(
        DatabaseType::Text(Some(5), Some("utf8".to_string()), None).to_string(SQLDialect::MySQL),
        "TINYTEXT CHARACTER SET utf8"
    );
}

#[test]
fn text_types_carry_their_clauses() {
    let d = SQLDialect::MySQL;
    let cs = Some("utf8mb4".to_string());
    let co = Some("utf8mb4_bin".to_string());
    assert_eq!(
        DatabaseType::Char(8, cs.clone(), co.clone()).to_string(d),
        "CHAR(8) CHARACTER SET utf8mb4 COLLATION utf8mb4_bin"
    );
    assert_eq!(DatabaseType::Char(8, None, None).to_string(d), "CHAR(8)");
    assert_eq!(
        DatabaseType::VarChar(255, None, co.clone()).to_string(d),
        "VARCHAR(255) COLLATION utf8mb4_bin"
    );
    assert_eq!(
        DatabaseType::TinyText(cs.clone(), None).to_string(d),
        "TINYTEXT CHARACTER SET utf8mb4"
    );
    assert_eq!(
        DatabaseType::MediumText(cs.clone(), co.clone()).to_string(d),
        "MEDIUMTEXT CHARACTER SET utf8mb4 COLLATION utf8mb4_bin"
    );
    assert_eq!(DatabaseType::LongText(None, None).to_string(d), "LONGTEXT");
}

#[test]
fn some_types_have_no_field_type_or_no_name() {
    assert!(!DatabaseType::Bit(1).maps_to_field_type());
    assert!(!DatabaseType::BitVarying.maps_to_field_type());
    assert!(!DatabaseType::Decimal(Some(10), Some(2)).maps_to_field_type());
    assert!(!DatabaseType::Time(3, false).maps_to_field_type());
    assert!(DatabaseType::ObjectId.maps_to_field_type());
    assert!(DatabaseType::Year.maps_to_field_type());
    assert!(!DatabaseType::ObjectId.is_named());
    assert!(!DatabaseType::Decimal(None, None).is_named());
    assert!(!DatabaseType::Time(0, true).is_named());
    assert!(DatabaseType::Bit(1).is_named());
    assert!(DatabaseType::BitVarying.is_named());
}
