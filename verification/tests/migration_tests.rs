use helix_db::helixc::analyzer::checks::literal_fits_exec;
use helix_db::protocol::value::Value;
use helix_db::helixc::analyzer::migration_check::{cast_fits_exec, default_fits_exec};
use helix_db::helixc::parser::ast::{DefaultValue, FieldType};

#[test]
fn defaults_fit_their_field_types() {
    assert!(default_fits_exec(&FieldType::Date, &DefaultValue::Now));
    assert!(default_fits_exec(&FieldType::Date, &DefaultValue::String("2024-01-01".to_string())));
    assert!(default_fits_exec(&FieldType::Date, &DefaultValue::I64(0)));
    assert!(!default_fits_exec(&FieldType::Date, &DefaultValue::String("yesterday".to_string())));
    assert!(default_fits_exec(&FieldType::F64, &DefaultValue::Decimal("1.5".to_string())));
    assert!(default_fits_exec(&FieldType::U8, &DefaultValue::I64(3)));
    assert!(!default_fits_exec(&FieldType::U32, &DefaultValue::String("3".to_string())));
    assert!(!default_fits_exec(&FieldType::String, &DefaultValue::Now));
    assert!(default_fits_exec(&FieldType::Boolean, &DefaultValue::Boolean(true)));
}

#[test]
fn casts_fit_by_kind() {
    assert!(cast_fits_exec(&FieldType::U64, &FieldType::I8));
    assert!(cast_fits_exec(&FieldType::F32, &FieldType::F64));
    assert!(!cast_fits_exec(&FieldType::F32, &FieldType::I32));
    assert!(cast_fits_exec(
        &FieldType::Array(Box::new(FieldType::U8)),
        &FieldType::Array(Box::new(FieldType::U16))
    ));
    assert!(!cast_fits_exec(&FieldType::Array(Box::new(FieldType::U8)), &FieldType::U8));
    assert!(cast_fits_exec(&FieldType::Identifier("User".to_string()), &FieldType::Identifier("User".to_string())));
    assert!(!cast_fits_exec(&FieldType::Identifier("User".to_string()), &FieldType::Identifier("Post".to_string())));
}

#[test]
fn field_types_compare_by_family() {
    assert!(FieldType::I32 == FieldType::U64);
    assert!(FieldType::F32 == FieldType::F64);
    assert!(FieldType::String != FieldType::I32);
    assert!(FieldType::Array(Box::new(FieldType::I8)) == FieldType::Array(Box::new(FieldType::U128)));
    assert!(FieldType::Identifier("A".to_string()) != FieldType::Identifier("B".to_string()));
    assert!(FieldType::Object(vec![("a".to_string(), FieldType::U8)]) == FieldType::Object(vec![("a".to_string(), FieldType::I64)]));
    assert!(FieldType::Object(vec![("a".to_string(), FieldType::U8)]) != FieldType::Object(vec![("b".to_string(), FieldType::U8)]));
}

#[test]
fn arrays_and_objects_fit_by_their_items() {
    use_fits();
}

fn use_fits() {
    let ints = FieldType::Array(Box::new(FieldType::I64));
    assert!(literal_fits_exec(&ints, &Value::Array(vec![Value::I32(1), Value::U8(2)])));
    assert!(!literal_fits_exec(&ints, &Value::Array(vec![Value::I32(1), Value::String("x".to_string())])));
    let obj = FieldType::Object(vec![("a".to_string(), FieldType::String), ("b".to_string(), FieldType::Boolean)]);
    assert!(literal_fits_exec(&obj, &Value::Object(vec![("b".to_string(), Value::Boolean(true)), ("a".to_string(), Value::String("s".to_string()))])));
    assert!(!literal_fits_exec(&obj, &Value::Object(vec![("a".to_string(), Value::String("s".to_string()))])));
    assert!(!literal_fits_exec(&obj, &Value::Object(vec![("a".to_string(), Value::String("s".to_string())), ("c".to_string(), Value::Boolean(true))])));
}

#[test]
fn date_timestamps_fit_within_chronos_calendar() {
    assert!(literal_fits_exec(&FieldType::Date, &Value::I64(0)));
    assert!(literal_fits_exec(&FieldType::Date, &Value::I64(-8_334_601_228_800)));
    assert!(!literal_fits_exec(&FieldType::Date, &Value::I64(-8_334_601_228_801)));
    assert!(literal_fits_exec(&FieldType::Date, &Value::I64(8_210_266_876_799)));
    assert!(!literal_fits_exec(&FieldType::Date, &Value::I64(8_210_266_876_800)));
}
