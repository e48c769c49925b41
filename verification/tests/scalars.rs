use teo::error::ActionError;
use teo::json::{Json, JsonNumber};
use teo::native::Native;
use teo::scalar::{
    date_from_parts, datetime_from_parts, parse_bool, parse_date, parse_datetime, parse_enum,
    parse_f64, parse_i64, parse_object_id, parse_scalar, parse_string,
};
use teo::schema::{EnumDef, FieldType, Graph};

fn s(text: &str) -> Json {
    Json::String(text.to_string())
}

fn graph() -> Graph {
    Graph {
        models: vec![],
        enums: vec![EnumDef {
            name: "Sex".to_string(),
            values: vec!["MALE".to_string(), "FEMALE".to_string()],
        }],
    }
}

#[test]
fn object_id_takes_24_hex_digits() {
    assert_eq!(
        parse_object_id(&s("507f1f77bcf86cd799439011")),
        Ok(Native::ObjectId([0x50, 0x7f, 0x1f, 0x77, 0xbc, 0xf8, 0x6c, 0xd7, 0x99, 0x43, 0x90, 0x11]))
    );
    assert_eq!(
        parse_object_id(&s("507F1F77BCF86CD799439011")),
        Ok(Native::ObjectId([0x50, 0x7f, 0x1f, 0x77, 0xbc, 0xf8, 0x6c, 0xd7, 0x99, 0x43, 0x90, 0x11]))
    );
}

#[test]
fn object_id_rejects_what_is_malformed() {
    assert_eq!(parse_object_id(&s("507f1f77bcf86cd79943901")), Err(ActionError::WrongInputType));
    assert_eq!(parse_object_id(&s("507f1f77bcf86cd7994390111")), Err(ActionError::WrongInputType));
    assert_eq!(parse_object_id(&s("507f1f77bcf86cd79943901g")), Err(ActionError::WrongInputType));
    assert_eq!(parse_object_id(&s("")), Err(ActionError::WrongInputType));
    assert_eq!(parse_object_id(&s("é07f1f77bcf86cd79943901")), Err(ActionError::WrongInputType));
    assert_eq!(parse_object_id(&Json::Number(JsonNumber::PosInt(1))), Err(ActionError::WrongInputType));
}

#[test]
fn bool_takes_a_boolean() {
    assert_eq!(parse_bool(&Json::Bool(true)), Ok(Native::Boolean(true)));
    assert_eq!(parse_bool(&Json::Bool(false)), Ok(Native::Boolean(false)));
    assert_eq!(parse_bool(&s("true")), Err(ActionError::WrongInputType));
    assert_eq!(parse_bool(&Json::Null), Err(ActionError::WrongInputType));
}

#[test]
fn string_takes_a_string() {
    assert_eq!(parse_string(&s("hello")), Ok(Native::String("hello".to_string())));
    assert_eq!(parse_string(&Json::Bool(true)), Err(ActionError::WrongInputType));
}

#[test]
fn integer_takes_any_number() {
    assert_eq!(parse_i64(&Json::Number(JsonNumber::PosInt(30))), Ok(Native::Int64(30)));
    assert_eq!(parse_i64(&Json::Number(JsonNumber::NegInt(-30))), Ok(Native::Int64(-30)));
    assert_eq!(parse_i64(&Json::Number(JsonNumber::PosInt(u64::MAX))), Ok(Native::Int64(-1)));
    assert_eq!(
        parse_i64(&Json::Number(JsonNumber::Float(30.9f64.to_bits()))),
        Ok(Native::Int64(30))
    );
    assert_eq!(
        parse_i64(&Json::Number(JsonNumber::Float((-30.9f64).to_bits()))),
        Ok(Native::Int64(-30))
    );
    assert_eq!(
        parse_i64(&Json::Number(JsonNumber::Float(1e300f64.to_bits()))),
        Ok(Native::Int64(i64::MAX))
    );
    assert_eq!(parse_i64(&s("30")), Err(ActionError::WrongInputType));
}

#[test]
fn float_takes_any_number() {
    assert_eq!(
        parse_f64(&Json::Number(JsonNumber::PosInt(30))),
        Ok(Native::Double(0x403e000000000000))
    );
    assert_eq!(
        parse_f64(&Json::Number(JsonNumber::NegInt(-2))),
        Ok(Native::Double(0xc000000000000000))
    );
    assert_eq!(
        parse_f64(&Json::Number(JsonNumber::Float(1.5f64.to_bits()))),
        Ok(Native::Double(0x3ff8000000000000))
    );
    assert_eq!(
        parse_f64(&Json::Number(JsonNumber::PosInt(u64::MAX))),
        Ok(Native::Double((u64::MAX as f64).to_bits()))
    );
    assert_eq!(parse_f64(&Json::Null), Err(ActionError::WrongInputType));
}

#[test]
fn date_takes_a_calendar_day() {
    assert_eq!(parse_date(&s("2020-01-05")), Ok(Native::DateTime(1578182400000)));
    assert_eq!(parse_date(&s("1970-01-01")), Ok(Native::DateTime(0)));
    assert_eq!(parse_date(&s("1969-12-31")), Ok(Native::DateTime(-86400000)));
}

#[test]
fn date_tells_a_bad_format_from_a_bad_type() {
    assert_eq!(parse_date(&s("2020-13-05")), Err(ActionError::WrongDateFormat));
    assert_eq!(parse_date(&s("yesterday")), Err(ActionError::WrongDateFormat));
    assert_eq!(parse_date(&s("2020-01-05T00:00:00Z")), Err(ActionError::WrongDateFormat));
    assert_eq!(parse_date(&Json::Number(JsonNumber::PosInt(20200105))), Err(ActionError::WrongInputType));
}

#[test]
fn date_from_parts_covers_both_outcomes() {
    assert_eq!(date_from_parts(Some(737429)), Ok(Native::DateTime(1578182400000)));
    assert_eq!(date_from_parts(None), Err(ActionError::WrongDateFormat));
}

#[test]
fn datetime_takes_rfc3339_and_moves_to_utc() {
    assert_eq!(parse_datetime(&s("1996-12-19T16:39:57-08:00")), Ok(Native::DateTime(851042397000)));
    assert_eq!(parse_datetime(&s("2022-08-01T12:30:00.250Z")), Ok(Native::DateTime(1659357000250)));
    assert_eq!(parse_datetime(&s("1970-01-01T00:00:00+00:00")), Ok(Native::DateTime(0)));
}

#[test]
fn datetime_tells_a_bad_format_from_a_bad_type() {
    assert_eq!(parse_datetime(&s("2020-01-05")), Err(ActionError::WrongDatetimeFormat));
    assert_eq!(parse_datetime(&s("")), Err(ActionError::WrongDatetimeFormat));
    assert_eq!(parse_datetime(&Json::Bool(true)), Err(ActionError::WrongInputType));
}

#[test]
fn datetime_from_parts_covers_both_outcomes() {
    assert_eq!(datetime_from_parts(Some(12)), Ok(Native::DateTime(12)));
    assert_eq!(datetime_from_parts(None), Err(ActionError::WrongDatetimeFormat));
}

#[test]
fn enum_takes_a_member() {
    let g = graph();
    assert_eq!(parse_enum(&s("MALE"), "Sex", &g), Ok(Native::String("MALE".to_string())));
    assert_eq!(parse_enum(&s("OTHER"), "Sex", &g), Err(ActionError::UndefinedEnumValue));
    assert_eq!(parse_enum(&s("male"), "Sex", &g), Err(ActionError::UndefinedEnumValue));
    assert_eq!(parse_enum(&Json::Bool(true), "Sex", &g), Err(ActionError::WrongInputType));
}

#[test]
fn every_integer_width_normalizes_to_64_bit() {
    let g = graph();
    let types = vec![
        FieldType::I8, FieldType::I16, FieldType::I32, FieldType::I64, FieldType::I128,
        FieldType::U8, FieldType::U16, FieldType::U32, FieldType::U64, FieldType::U128,
    ];
    for t in types {
        assert_eq!(parse_scalar(&t, &Json::Number(JsonNumber::PosInt(7)), &g), Ok(Native::Int64(7)));
    }
    for t in vec![FieldType::F32, FieldType::F64] {
        assert_eq!(
            parse_scalar(&t, &Json::Number(JsonNumber::PosInt(7)), &g),
            Ok(Native::Double(7.0f64.to_bits()))
        );
    }
}

#[test]
fn a_decimal_field_takes_no_leaf() {
    let g = graph();
    assert_eq!(
        parse_scalar(&FieldType::Decimal, &s("1.5"), &g),
        Err(ActionError::WrongInputType)
    );
}

#[test]
fn failures_have_messages() {
    assert_eq!(ActionError::WrongInputType.message(), "WrongInputType");
    assert_eq!(ActionError::WrongDateFormat.message(), "WrongDateFormat");
    assert_eq!(ActionError::WrongDatetimeFormat.message(), "WrongDatetimeFormat");
    assert_eq!(ActionError::UndefinedEnumValue.message(), "UndefinedEnumValue");
    assert_eq!(ActionError::KeysUnallowed.message(), "KeysUnallowed");
    assert_eq!(ActionError::FieldIsNotUnique.message(), "FieldIsNotUnique");
    assert_eq!(ActionError::MissingInputSection.message(), "MissingInputSection");
    assert_eq!(ActionError::WrongJsonFormat.message(), "WrongJsonFormat");
    assert_eq!(ActionError::InvalidQueryInput("why".to_string()).message(), "why");
}
