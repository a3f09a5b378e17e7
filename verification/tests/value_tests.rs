use maxminddb_polars::schema::{SchemaField, SchemaSpec};
use maxminddb_polars::value::{
    default_value, fits_scalar, find_entry, project_value, signed, unsigned, validate_scalar,
    value_at_path, ProjectedRecord, Value, ValueError,
};

fn field(name: &str, dtype: SchemaSpec) -> SchemaField {
    SchemaField { name: name.to_owned(), dtype }
}

fn entry(name: &str, value: Value) -> (String, Value) {
    (name.to_owned(), value)
}

fn nested_schema() -> SchemaSpec {
    SchemaSpec::Struct {
        fields: vec![
            field("nested", SchemaSpec::Struct { fields: vec![field("name", SchemaSpec::String)] }),
            field("items", SchemaSpec::List { inner: Box::new(SchemaSpec::UInt32) }),
        ],
    }
}

#[test]
fn projects_declared_shape_and_defaults_missing_containers() {
    let schema = nested_schema();
    let projected = project_value(&Value::Mapping(Vec::new()), &schema).unwrap();
    assert_eq!(projected, default_value(&schema));
}

#[test]
fn defaults_are_null_leaves_empty_lists_and_full_structs() {
    assert_eq!(default_value(&SchemaSpec::UInt8), Value::Null);
    assert_eq!(
        default_value(&SchemaSpec::List { inner: Box::new(SchemaSpec::String) }),
        Value::List(Vec::new())
    );
    assert_eq!(
        default_value(&nested_schema()),
        Value::Mapping(vec![
            entry("nested", Value::Mapping(vec![entry("name", Value::Null)])),
            entry("items", Value::List(Vec::new())),
        ])
    );
}

#[test]
fn projection_keeps_requested_fields_in_schema_order() {
    let schema = SchemaSpec::Struct {
        fields: vec![field("b", SchemaSpec::UInt32), field("a", SchemaSpec::String)],
    };
    let value = Value::Mapping(vec![
        entry("a", Value::String("x".to_owned())),
        entry("extra", Value::Boolean(true)),
        entry("b", Value::UInt16(7)),
    ]);
    assert_eq!(
        project_value(&value, &schema),
        Ok(Value::Mapping(vec![
            entry("b", Value::UInt16(7)),
            entry("a", Value::String("x".to_owned())),
        ]))
    );
}

#[test]
fn projection_of_lists_projects_every_item() {
    let schema = SchemaSpec::List { inner: Box::new(nested_schema()) };
    let value = Value::List(vec![Value::Mapping(Vec::new()), Value::Null]);
    assert_eq!(
        project_value(&value, &schema),
        Ok(Value::List(vec![default_value(&nested_schema()), default_value(&nested_schema())]))
    );
}

#[test]
fn projection_reports_the_wrong_container_kind() {
    assert_eq!(project_value(&Value::Null, &nested_schema()), Ok(default_value(&nested_schema())));
    assert_eq!(project_value(&Value::Null, &SchemaSpec::UInt8), Ok(Value::Null));
    let error = project_value(&Value::UInt32(1), &nested_schema()).unwrap_err();
    assert_eq!(error, ValueError::ExpectedMap { kind: "uint32".to_owned() });
    assert_eq!(error.message(), "expected MMDB map, got uint32");

    let list = SchemaSpec::List { inner: Box::new(SchemaSpec::UInt8) };
    let error = project_value(&Value::String("x".to_owned()), &list).unwrap_err();
    assert_eq!(error, ValueError::ExpectedArray { kind: "string".to_owned() });
    assert_eq!(error.message(), "expected MMDB array, got string");
}

#[test]
fn projection_reports_scalar_mismatches() {
    let error = project_value(&Value::UInt32(70000), &SchemaSpec::UInt16).unwrap_err();
    assert_eq!(
        error,
        ValueError::Mismatch { kind: "uint32".to_owned(), dtype: SchemaSpec::UInt16 }
    );
    assert_eq!(
        error.message(),
        "MMDB value of type uint32 does not match requested dtype u16"
    );
}

#[test]
fn integers_fit_by_value_not_by_width() {
    assert!(fits_scalar(&Value::UInt64(255), &SchemaSpec::UInt8));
    assert!(!fits_scalar(&Value::UInt64(256), &SchemaSpec::UInt8));
    assert!(fits_scalar(&Value::Int32(-128), &SchemaSpec::Int8));
    assert!(!fits_scalar(&Value::Int32(-129), &SchemaSpec::Int8));
    assert!(fits_scalar(&Value::UInt128(u128::MAX), &SchemaSpec::UInt128));
    assert!(!fits_scalar(&Value::Int8(-1), &SchemaSpec::UInt64));
    assert!(!fits_scalar(&Value::Null, &SchemaSpec::String));
    assert!(!fits_scalar(&Value::UInt8(1), &SchemaSpec::Int16));
    assert!(fits_scalar(&Value::Float32(1.5f32.to_bits()), &SchemaSpec::Float32));
    assert!(!fits_scalar(&Value::Float64(1.5f64.to_bits()), &SchemaSpec::Float32));
    assert!(fits_scalar(&Value::Binary(vec![1, 2]), &SchemaSpec::Binary));
    assert!(!fits_scalar(&Value::String("x".to_owned()), &SchemaSpec::Binary));
    assert_eq!(validate_scalar(&Value::Boolean(true), &SchemaSpec::Boolean), Ok(()));
    assert!(validate_scalar(&Value::Boolean(true), &SchemaSpec::UInt8).is_err());
}

#[test]
fn integer_values_widen_exactly() {
    assert_eq!(unsigned(&Value::UInt16(65535)), Some(65535));
    assert_eq!(unsigned(&Value::Int64(-1)), None);
    assert_eq!(unsigned(&Value::Int64(5)), None);
    assert_eq!(signed(&Value::UInt8(5)), None);
    assert_eq!(signed(&Value::Int8(-7)), Some(-7));
    assert_eq!(signed(&Value::UInt128(u128::MAX)), None);
    assert_eq!(signed(&Value::String("1".to_owned())), None);
}

#[test]
fn the_first_entry_of_a_name_is_found() {
    let entries = vec![
        entry("a", Value::UInt8(1)),
        entry("b", Value::UInt8(2)),
        entry("a", Value::UInt8(3)),
    ];
    assert_eq!(find_entry(&entries, "a"), Some(0));
    assert_eq!(find_entry(&entries, "b"), Some(1));
    assert_eq!(find_entry(&entries, "c"), None);
}

#[test]
fn projected_records_fill_slots_and_default_the_rest() {
    let fields = vec![field("x", SchemaSpec::UInt8), field("y", SchemaSpec::String)];
    let mut record = ProjectedRecord::new(fields.len());
    assert_eq!(ProjectedRecord::slot_for(&fields, "y"), Some(1));
    assert_eq!(ProjectedRecord::slot_for(&fields, "z"), None);
    record.fill(1, Value::String("first".to_owned()));
    record.fill(1, Value::String("second".to_owned()));
    assert_eq!(
        record.finish(&fields),
        Value::Mapping(vec![
            entry("x", Value::Null),
            entry("y", Value::String("second".to_owned())),
        ])
    );
}

#[test]
fn value_kinds_are_named() {
    assert_eq!(Value::Null.kind(), "null");
    assert_eq!(Value::Mapping(Vec::new()).kind(), "map");
    assert_eq!(Value::List(Vec::new()).kind(), "list");
    assert_eq!(Value::Int128(0).kind(), "int128");
    assert!(fits_scalar(&Value::Float32(2.0f32.to_bits()), &SchemaSpec::Float64));
}

#[test]
fn one_pass_record_matches_projection_of_the_whole_map() {
    let fields = vec![
        field("b", SchemaSpec::UInt32),
        field("a", SchemaSpec::Struct { fields: vec![field("name", SchemaSpec::String)] }),
        field("c", SchemaSpec::List { inner: Box::new(SchemaSpec::UInt8) }),
    ];
    let entries = vec![
        entry(
            "a",
            Value::Mapping(vec![
                entry("name", Value::String("n".to_owned())),
                entry("skip", Value::UInt8(1)),
            ]),
        ),
        entry("z", Value::Boolean(true)),
        entry("b", Value::UInt8(3)),
    ];
    let mut record = ProjectedRecord::new(fields.len());
    for (key, value) in &entries {
        if let Some(i) = ProjectedRecord::slot_for(&fields, key) {
            record.fill(i, project_value(value, &fields[i].dtype).unwrap());
        }
    }
    let whole = project_value(&Value::Mapping(entries), &SchemaSpec::Struct { fields: fields.clone() });
    assert_eq!(Ok(record.finish(&fields)), whole);
}

#[test]
fn values_are_found_by_key_paths() {
    let value = Value::Mapping(vec![
        entry("country", Value::Mapping(vec![entry("iso_code", Value::String("SE".to_owned()))])),
        entry("list", Value::List(vec![Value::UInt8(1)])),
    ]);
    let path = |keys: &[&str]| keys.iter().map(|k| k.to_string()).collect::<Vec<String>>();
    assert_eq!(
        value_at_path(&value, &path(&["country", "iso_code"])),
        Some(&Value::String("SE".to_owned()))
    );
    assert_eq!(value_at_path(&value, &path(&[])), Some(&value));
    assert_eq!(value_at_path(&value, &path(&["country", "missing"])), None);
    assert_eq!(value_at_path(&value, &path(&["list", "0"])), None);
}

#[test]
fn projecting_twice_is_projecting_once() {
    let schema = SchemaSpec::Struct {
        fields: vec![
            field("nested", SchemaSpec::Struct { fields: vec![field("name", SchemaSpec::String)] }),
            field("items", SchemaSpec::List { inner: Box::new(SchemaSpec::Float64) }),
            field("missing", SchemaSpec::List { inner: Box::new(SchemaSpec::UInt8) }),
        ],
    };
    let value = Value::Mapping(vec![
        entry("extra", Value::Boolean(true)),
        entry("items", Value::List(vec![Value::Float32(1.5f32.to_bits()), Value::Null])),
        entry("nested", Value::Mapping(vec![entry("other", Value::UInt8(1)), entry("name", Value::String("x".to_owned()))])),
        entry("nested", Value::Null),
    ]);
    let once = project_value(&value, &schema).unwrap();
    assert_eq!(
        once,
        Value::Mapping(vec![
            entry("nested", Value::Mapping(vec![entry("name", Value::String("x".to_owned()))])),
            entry("items", Value::List(vec![Value::Float32(1.5f32.to_bits()), Value::Null])),
            entry("missing", Value::List(vec![])),
        ])
    );
    assert_eq!(project_value(&once, &schema), Ok(once.clone()));
    let list = SchemaSpec::List { inner: Box::new(schema.clone()) };
    let once = project_value(&Value::List(vec![Value::Null, value]), &list).unwrap();
    assert_eq!(project_value(&once, &list), Ok(once.clone()));
}

#[test]
fn projecting_twice_keeps_repeated_names_of_one_dtype() {
    let inner = SchemaSpec::Struct { fields: vec![field("x", SchemaSpec::UInt8)] };
    let schema = SchemaSpec::Struct { fields: vec![field("a", inner.clone()), field("a", inner)] };
    let value = Value::Mapping(vec![entry("a", Value::Mapping(vec![entry("x", Value::UInt8(7))]))]);
    let once = project_value(&value, &schema).unwrap();
    assert_eq!(
        once,
        Value::Mapping(vec![
            entry("a", Value::Mapping(vec![entry("x", Value::UInt8(7))])),
            entry("a", Value::Mapping(vec![entry("x", Value::UInt8(7))])),
        ])
    );
    assert_eq!(project_value(&once, &schema), Ok(once.clone()));
}
