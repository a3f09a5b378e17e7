use polars::prelude::{DataType, Field};
use maxminddb_polars::schema::{
    asn_schema, city_schema, dtype_at_path, dtype_eq, known_schema, resolve_path_dtype,
    to_mmdb_path, PathPart, PathStep, PlanError, SchemaField, SchemaSpec,
};

fn key(name: &str) -> PathPart {
    PathPart::Key(name.to_owned())
}

fn field(name: &str, dtype: SchemaSpec) -> SchemaField {
    SchemaField { name: name.to_owned(), dtype }
}

#[test]
fn traverses_structs_and_positive_or_negative_list_indexes() {
    let schema = city_schema();
    for index in [0, -1] {
        let dtype = dtype_at_path(
            schema.clone(),
            &[key("subdivisions"), PathPart::Index(index), key("iso_code")],
        )
        .unwrap();
        assert_eq!(dtype, SchemaSpec::String);
    }
}

#[test]
fn rejects_unknown_fields_and_wrong_component_kinds() {
    let error = dtype_at_path(city_schema(), &[key("missing")]).unwrap_err();
    assert!(error.message().contains("has no field"));

    let error = dtype_at_path(city_schema(), &[PathPart::Index(0)]).unwrap_err();
    assert!(error.message().contains("cannot apply path component"));
}

#[test]
fn maps_only_exact_known_database_types() {
    assert!(known_schema("GeoIP2-City").is_some());
    assert!(known_schema("GeoIP2-City-Shield").is_none());
    assert!(known_schema("custom-City").is_none());
}

#[test]
fn known_database_types_pick_their_schema() {
    assert_eq!(known_schema("GeoLite2-City"), Some(city_schema()));
    assert_eq!(known_schema("GeoIP2-ASN"), Some(asn_schema()));
    assert_eq!(known_schema("GeoLite2-ASN"), Some(asn_schema()));
    assert_eq!(known_schema("geoip2-asn"), None);
}

#[test]
fn no_field_error_names_the_key_and_the_path_so_far() {
    let error = dtype_at_path(city_schema(), &[key("country"), key("nope")]).unwrap_err();
    assert_eq!(
        error,
        PlanError::NoField { key: "nope".to_owned(), at: "country".to_owned() }
    );
    assert_eq!(
        error.message(),
        "known MMDB schema has no field \"nope\" at path /country"
    );
}

#[test]
fn cannot_apply_error_names_the_component_and_dtype() {
    let error = dtype_at_path(
        city_schema(),
        &[key("country"), key("iso_code"), PathPart::Index(-3)],
    )
    .unwrap_err();
    assert_eq!(
        error.message(),
        "cannot apply path component \"-3\" to inferred dtype str at /country/iso_code"
    );
}

#[test]
fn an_empty_path_selects_the_whole_dtype() {
    assert_eq!(dtype_at_path(asn_schema(), &[]), Ok(asn_schema()));
}

#[test]
fn the_first_field_of_a_name_wins() {
    let schema = SchemaSpec::Struct {
        fields: vec![field("a", SchemaSpec::UInt8), field("a", SchemaSpec::String)],
    };
    assert_eq!(dtype_at_path(schema, &[key("a")]), Ok(SchemaSpec::UInt8));
}

#[test]
fn walking_in_two_parts_is_walking_whole() {
    let whole = dtype_at_path(
        city_schema(),
        &[key("subdivisions"), PathPart::Index(2), key("names"), key("en")],
    );
    let first = dtype_at_path(city_schema(), &[key("subdivisions"), PathPart::Index(2)]).unwrap();
    let second = dtype_at_path(first, &[key("names"), key("en")]);
    assert_eq!(whole, second);
    assert_eq!(whole, Ok(SchemaSpec::String));
}

#[test]
fn path_indexes_count_from_the_start_or_the_end() {
    let steps = to_mmdb_path(&[key("a.b"), PathPart::Index(3), PathPart::Index(-1), PathPart::Index(-4)])
        .unwrap();
    assert_eq!(
        steps,
        vec![
            PathStep::Key("a.b".to_owned()),
            PathStep::Index(3),
            PathStep::IndexFromEnd(0),
            PathStep::IndexFromEnd(3),
        ]
    );
}

#[test]
fn the_smallest_index_cannot_count_from_the_end() {
    let error = to_mmdb_path(&[key("x"), PathPart::Index(i64::MIN)]).unwrap_err();
    assert_eq!(error, PlanError::IndexTooSmall { index: i64::MIN });
    assert_eq!(
        error.message(),
        "path index -9223372036854775808 is too small"
    );
}

#[test]
fn arbitrary_path_indexes_convert_without_panicking() {
    for index in [i64::MIN, i64::MIN + 1, -1, 0, 1, i64::MAX] {
        let result = to_mmdb_path(&[PathPart::Index(index)]);
        if index == i64::MIN {
            assert!(result.is_err());
        } else {
            assert!(result.is_ok());
        }
    }
    assert_eq!(
        to_mmdb_path(&[PathPart::Index(i64::MIN + 1)]).unwrap(),
        vec![PathStep::IndexFromEnd(i64::MAX as usize - 1)]
    );
}

#[test]
fn known_paths_infer_their_dtype() {
    let path = [key("country"), key("iso_code")];
    assert_eq!(resolve_path_dtype("GeoIP2-City", &path, None), Ok(SchemaSpec::String));
    assert_eq!(
        resolve_path_dtype("GeoIP2-City", &path, Some(&SchemaSpec::String)),
        Ok(SchemaSpec::String)
    );
}

#[test]
fn explicit_dtype_must_match_a_known_path() {
    let path = [key("location"), key("metro_code")];
    let error = resolve_path_dtype("GeoLite2-City", &path, Some(&SchemaSpec::UInt32)).unwrap_err();
    assert_eq!(
        error.message(),
        "explicit dtype u32 does not match known MMDB path dtype u16 at /location/metro_code"
    );
}

#[test]
fn unknown_databases_need_an_explicit_dtype() {
    let path = [key("anything")];
    let error = resolve_path_dtype("custom", &path, None).unwrap_err();
    assert_eq!(
        error.message(),
        "dtype cannot be inferred for MMDB database_type \"custom\"; pass dtype explicitly"
    );
    let explicit = SchemaSpec::List { inner: Box::new(SchemaSpec::Int64) };
    assert_eq!(resolve_path_dtype("custom", &path, Some(&explicit)), Ok(explicit.clone()));
}

#[test]
fn paths_must_not_be_empty() {
    assert_eq!(
        resolve_path_dtype("GeoIP2-City", &[], Some(&SchemaSpec::String)),
        Err(PlanError::EmptyPath)
    );
    assert_eq!(PlanError::EmptyPath.message(), "MMDB lookup path must not be empty");
}

#[test]
fn known_schema_rejects_invalid_paths_even_with_a_dtype() {
    let error = resolve_path_dtype("GeoIP2-ASN", &[key("isp")], Some(&SchemaSpec::String)).unwrap_err();
    assert!(matches!(error, PlanError::NoField { .. }));
}

#[test]
fn dtype_equality_compares_names_and_shapes() {
    let a = SchemaSpec::Struct { fields: vec![field("x", SchemaSpec::UInt8)] };
    let b = SchemaSpec::Struct { fields: vec![field("y", SchemaSpec::UInt8)] };
    assert!(dtype_eq(&a, &a.clone()));
    assert!(!dtype_eq(&a, &b));
    assert!(dtype_eq(&city_schema(), &city_schema()));
    assert!(!dtype_eq(&city_schema(), &asn_schema()));
}

#[test]
fn dtype_names_follow_polars() {
    let error = PlanError::CannotApply {
        component: "q\"x".to_owned(),
        dtype: SchemaSpec::List { inner: Box::new(SchemaSpec::Struct { fields: vec![] }) },
        at: String::new(),
    };
    assert_eq!(
        error.message(),
        "cannot apply path component \"q\\\"x\" to inferred dtype list[struct[0]] at /"
    );
}

#[test]
fn index_too_large_message() {
    assert_eq!(
        PlanError::IndexTooLarge { index: 7 }.message(),
        "path index 7 is too large"
    );
}

#[test]
fn scalar_dtypes_are_leaves() {
    assert!(SchemaSpec::Binary.is_scalar());
    assert!(!SchemaSpec::List { inner: Box::new(SchemaSpec::Boolean) }.is_scalar());
    assert!(!asn_schema().is_scalar());
}

fn type_text_of(dtype: &SchemaSpec) -> String {
    let mut out = String::new();
    dtype.push_type_text(&mut out);
    out
}

#[test]
fn dtype_names_are_those_polars_prints() {
    let cases = vec![
        (SchemaSpec::Boolean, DataType::Boolean),
        (SchemaSpec::UInt8, DataType::UInt8),
        (SchemaSpec::UInt16, DataType::UInt16),
        (SchemaSpec::UInt32, DataType::UInt32),
        (SchemaSpec::UInt64, DataType::UInt64),
        (SchemaSpec::UInt128, DataType::UInt128),
        (SchemaSpec::Int8, DataType::Int8),
        (SchemaSpec::Int16, DataType::Int16),
        (SchemaSpec::Int32, DataType::Int32),
        (SchemaSpec::Int64, DataType::Int64),
        (SchemaSpec::Int128, DataType::Int128),
        (SchemaSpec::Float32, DataType::Float32),
        (SchemaSpec::Float64, DataType::Float64),
        (SchemaSpec::String, DataType::String),
        (SchemaSpec::Binary, DataType::Binary),
        (
            SchemaSpec::List { inner: Box::new(SchemaSpec::List { inner: Box::new(SchemaSpec::Int8) }) },
            DataType::List(Box::new(DataType::List(Box::new(DataType::Int8)))),
        ),
        (
            SchemaSpec::Struct {
                fields: vec![field("a", SchemaSpec::String), field("b", SchemaSpec::UInt8)],
            },
            DataType::Struct(vec![
                Field::new("a".into(), DataType::String),
                Field::new("b".into(), DataType::UInt8),
            ]),
        ),
        (
            SchemaSpec::List { inner: Box::new(SchemaSpec::Struct { fields: vec![] }) },
            DataType::List(Box::new(DataType::Struct(vec![]))),
        ),
    ];
    for (spec, polars_dtype) in cases {
        assert_eq!(type_text_of(&spec), polars_dtype.to_string());
    }
}
