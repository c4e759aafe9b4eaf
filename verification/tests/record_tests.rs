use colony_merge::{Colony, DataError, Field, JsonValue, Num, Timestamp};

fn obj(fields: Vec<(&str, JsonValue)>) -> JsonValue {
    let mut pairs: Vec<(String, JsonValue)> = Vec::new();
    for (k, v) in fields {
        pairs.push((k.to_string(), v));
    }
    JsonValue::Object(pairs)
}

fn full_record() -> Vec<(&'static str, JsonValue)> {
    vec![
        ("id", JsonValue::Int(1)),
        ("x", JsonValue::Float((1.5f64).to_bits())),
        ("y", JsonValue::Int(2)),
        ("visited", JsonValue::Bool(true)),
        ("active", JsonValue::Bool(false)),
        ("modified", JsonValue::Str("2020-01-01T00:00:00Z".to_string())),
    ]
}

#[test]
fn valid_record_constructs() {
    let c = Colony::from_json(&obj(full_record())).unwrap();
    assert_eq!(c.id, 1);
    assert_eq!(c.x, Num::Float((1.5f64).to_bits()));
    assert_eq!(c.y, Num::Int(2));
    assert!(c.visited);
    assert!(!c.active);
    assert_eq!(c.updated, Timestamp { secs: 1577836800, nanos: 0 });
}

#[test]
fn id_coerced_to_u32() {
    let mut fields = full_record();
    fields[0].1 = JsonValue::Int(-1);
    let c = Colony::from_json(&obj(fields)).unwrap();
    assert_eq!(c.id, u32::MAX);

    let mut fields = full_record();
    fields[0].1 = JsonValue::UInt(4294967297);
    let c = Colony::from_json(&obj(fields)).unwrap();
    assert_eq!(c.id, 1);
}

#[test]
fn missing_field_reported_in_order() {
    let expected = [
        Field::Id,
        Field::X,
        Field::Y,
        Field::Visited,
        Field::Active,
        Field::Updated,
    ];
    for (i, want) in expected.iter().enumerate() {
        let mut fields = full_record();
        fields.remove(i);
        let err = Colony::from_json(&obj(fields)).unwrap_err();
        assert_eq!(err, DataError::MissingField(*want));
    }
}

#[test]
fn first_failure_wins() {
    // Both x and visited are absent; the earlier-order field is reported.
    let mut fields = full_record();
    fields.remove(3);
    fields.remove(1);
    let err = Colony::from_json(&obj(fields)).unwrap_err();
    assert_eq!(err, DataError::MissingField(Field::X));
}

#[test]
fn wrong_type_reported() {
    let mut fields = full_record();
    fields[0].1 = JsonValue::Str("1".to_string());
    let err = Colony::from_json(&obj(fields)).unwrap_err();
    assert_eq!(err, DataError::WrongType(Field::Id));

    let mut fields = full_record();
    fields[3].1 = JsonValue::Int(1);
    let err = Colony::from_json(&obj(fields)).unwrap_err();
    assert_eq!(err, DataError::WrongType(Field::Visited));
}

#[test]
fn non_object_is_invalid_shape() {
    let err = Colony::from_json(&JsonValue::Int(3)).unwrap_err();
    assert_eq!(err, DataError::InvalidShape);
}

#[test]
fn malformed_timestamp_string_fails() {
    let mut fields = full_record();
    fields[5].1 = JsonValue::Str("not-a-date".to_string());
    let err = Colony::from_json(&obj(fields)).unwrap_err();
    assert_eq!(err, DataError::MalformedTimestamp);
}

#[test]
fn non_string_modified_gets_sentinel() {
    let mut fields = full_record();
    fields[5].1 = JsonValue::Bool(true);
    let c = Colony::from_json(&obj(fields)).unwrap();
    assert_eq!(c.updated, Timestamp { secs: -2208988800, nanos: 0 });

    let mut fields = full_record();
    fields[5].1 = JsonValue::Null;
    let c = Colony::from_json(&obj(fields)).unwrap();
    assert_eq!(c.updated, Timestamp { secs: -2208988800, nanos: 0 });
}

#[test]
fn missing_modified_is_missing_updated() {
    let mut fields = full_record();
    fields.remove(5);
    let err = Colony::from_json(&obj(fields)).unwrap_err();
    assert_eq!(err, DataError::MissingField(Field::Updated));
}

#[test]
fn offset_timestamp_normalized_to_utc() {
    let mut fields = full_record();
    fields[5].1 = JsonValue::Str("2021-06-01T12:30:00+02:00".to_string());
    let c = Colony::from_json(&obj(fields)).unwrap();
    assert_eq!(c.updated, Timestamp { secs: 1622543400, nanos: 0 });
}

#[test]
fn fractional_seconds_kept() {
    let mut fields = full_record();
    fields[5].1 = JsonValue::Str("2020-01-01T00:00:00.250Z".to_string());
    let c = Colony::from_json(&obj(fields)).unwrap();
    assert_eq!(c.updated, Timestamp { secs: 1577836800, nanos: 250_000_000 });
}

fn structured_field(v: &JsonValue, key: &str) -> JsonValue {
    match v {
        JsonValue::Object(pairs) => {
            for (k, val) in pairs {
                if k == key {
                    return clone_value(val);
                }
            }
            panic!("missing key {}", key);
        }
        _ => panic!("not an object"),
    }
}

fn clone_value(v: &JsonValue) -> JsonValue {
    match v {
        JsonValue::UInt(u) => JsonValue::UInt(*u),
        JsonValue::Int(i) => JsonValue::Int(*i),
        JsonValue::Bool(b) => JsonValue::Bool(*b),
        JsonValue::Str(s) => JsonValue::Str(s.clone()),
        _ => panic!("unexpected shape"),
    }
}

#[test]
fn serialization_truncates_and_formats() {
    let mut fields = full_record();
    fields[1].1 = JsonValue::Float((2.75f64).to_bits());
    let c = Colony::from_json(&obj(fields)).unwrap();
    let s = c.to_structured();
    assert_eq!(structured_field(&s, "id"), JsonValue::UInt(1));
    assert_eq!(structured_field(&s, "x"), JsonValue::UInt(2));
    assert_eq!(structured_field(&s, "y"), JsonValue::UInt(2));
    assert_eq!(structured_field(&s, "visited"), JsonValue::Bool(true));
    assert_eq!(structured_field(&s, "active"), JsonValue::Bool(false));
    assert_eq!(
        structured_field(&s, "modified"),
        JsonValue::Str("2020-01-01T00:00:00+00:00".to_string())
    );
}

#[test]
fn serialization_clamps_negative_and_odd_floats() {
    let mut fields = full_record();
    fields[1].1 = JsonValue::Float((-3.5f64).to_bits());
    fields[2].1 = JsonValue::Int(-7);
    let c = Colony::from_json(&obj(fields)).unwrap();
    let s = c.to_structured();
    assert_eq!(structured_field(&s, "x"), JsonValue::UInt(0));
    assert_eq!(structured_field(&s, "y"), JsonValue::UInt(0));

    let mut fields = full_record();
    fields[1].1 = JsonValue::Float(f64::NAN.to_bits());
    fields[2].1 = JsonValue::Float(f64::INFINITY.to_bits());
    let c = Colony::from_json(&obj(fields)).unwrap();
    let s = c.to_structured();
    assert_eq!(structured_field(&s, "x"), JsonValue::UInt(0));
    assert_eq!(structured_field(&s, "y"), JsonValue::UInt(u64::MAX));

    let big = 9007199254740992.0f64;  // 2^53, exactly representable
    let mut fields = full_record();
    fields[1].1 = JsonValue::Float(big.to_bits());
    let c = Colony::from_json(&obj(fields)).unwrap();
    let s = c.to_structured();
    assert_eq!(structured_field(&s, "x"), JsonValue::UInt(9007199254740992));
}

#[test]
fn duplicate_object_key_first_wins() {
    let mut fields = full_record();
    fields.push(("id", JsonValue::Int(99)));
    let c = Colony::from_json(&obj(fields)).unwrap();
    assert_eq!(c.id, 1);
}
