use entity_store::Database;
use entity_store::Email;
use entity_store::Error;
use entity_store::NewEmail;
use entity_store::ScriptRecord;
use entity_store::ScriptValue;
use entity_store::ValidationKind;

fn record(fields: Vec<(&str, ScriptValue)>) -> ScriptRecord {
    ScriptRecord {
        fields: fields.into_iter().map(|(k, v)| (k.to_string(), v)).collect(),
    }
}

#[test]
fn well_shaped_record_coerces() {
    let r = record(vec![
        ("value", ScriptValue::Text("a@b.com".to_string())),
        ("valid", ScriptValue::Bool(true)),
    ]);
    let n = r.try_into_new().unwrap();
    assert_eq!(n, NewEmail { value: "a@b.com".to_string(), valid: Some(true) });
}

#[test]
fn missing_optional_field_is_an_unset_attribute() {
    let r = record(vec![("value", ScriptValue::Text("a@b.com".to_string()))]);
    assert_eq!(r.try_into_new().unwrap().valid, None);
}

#[test]
fn null_optional_field_is_an_unset_attribute() {
    let r = record(vec![
        ("value", ScriptValue::Text("a@b.com".to_string())),
        ("valid", ScriptValue::Null),
    ]);
    assert_eq!(r.try_into_new().unwrap().valid, None);
}

#[test]
fn missing_required_field_is_a_validation_error() {
    let r = record(vec![("valid", ScriptValue::Bool(true))]);
    assert_eq!(
        r.try_into_new().unwrap_err(),
        Error::Validation(ValidationKind::MissingField("value".to_string()))
    );
}

#[test]
fn wrongly_typed_required_field_is_a_type_mismatch() {
    let r = record(vec![("value", ScriptValue::Int(42))]);
    assert_eq!(
        r.try_into_new().unwrap_err(),
        Error::Validation(ValidationKind::TypeMismatch("value".to_string()))
    );
}

#[test]
fn wrongly_typed_optional_field_is_a_type_mismatch() {
    let r = record(vec![
        ("value", ScriptValue::Text("a@b.com".to_string())),
        ("valid", ScriptValue::Text("yes".to_string())),
    ]);
    assert_eq!(
        r.try_into_new().unwrap_err(),
        Error::Validation(ValidationKind::TypeMismatch("valid".to_string()))
    );
}

#[test]
fn the_first_occurrence_of_a_field_wins() {
    let r = record(vec![
        ("value", ScriptValue::Text("first@x.io".to_string())),
        ("value", ScriptValue::Text("second@x.io".to_string())),
    ]);
    assert_eq!(r.try_into_new().unwrap().value, "first@x.io");
}

#[test]
fn coercion_is_pure_and_feeds_the_insert_pipeline() {
    let mut db = Database::new();
    let r = record(vec![
        ("value", ScriptValue::Text("a@b.com".to_string())),
        ("valid", ScriptValue::Bool(false)),
    ]);
    let n = r.try_into_new().unwrap();
    // nothing was persisted by the coercion itself
    assert!(Email::list(&db).unwrap().is_empty());
    n.insert(&mut db).unwrap();
    assert_eq!(Email::get(&db, "a@b.com").unwrap().valid, Some(false));
}

#[test]
fn error_descriptions_name_the_kind() {
    assert_eq!(Error::NotFound.describe(), "not found");
    assert_eq!(Error::ConstraintViolation.describe(), "unique constraint violation");
    assert_eq!(
        Error::Validation(ValidationKind::MissingField("value".to_string())).describe(),
        "missing field"
    );
    assert_eq!(
        Error::Validation(ValidationKind::TypeMismatch("valid".to_string())).describe(),
        "wrong field type"
    );
    assert_eq!(Error::Store("broken pipe".to_string()).describe(), "store failure");
    assert_eq!(Error::IntegrityFault(3).describe(), "dangling reference");
}

#[test]
fn the_alias_names_the_construction_record() {
    let n: entity_store::InsertEmail =
        record(vec![("value", ScriptValue::Text("z@z.zz".to_string()))])
            .try_into_new()
            .unwrap();
    assert_eq!(n.value, "z@z.zz");
}
