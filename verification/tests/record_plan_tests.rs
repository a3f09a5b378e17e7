use maxminddb_polars::known::KnownRecord;
use maxminddb_polars::record_plan::{resolve_record_dtype, typed_route};
use maxminddb_polars::schema::{asn_schema, city_schema, record_schema, PlanError, SchemaField, SchemaSpec};

fn field(name: &str, dtype: SchemaSpec) -> SchemaField {
    SchemaField { name: name.to_owned(), dtype }
}

fn structure(fields: Vec<SchemaField>) -> SchemaSpec {
    SchemaSpec::Struct { fields }
}

#[test]
fn known_databases_infer_their_complete_record() {
    assert_eq!(resolve_record_dtype("GeoIP2-City", None), Ok((city_schema(), Some(KnownRecord::City))));
    assert_eq!(resolve_record_dtype("GeoLite2-ASN", None), Ok((asn_schema(), Some(KnownRecord::Asn))));
    assert_eq!(
        resolve_record_dtype("GeoLite2-Country", None),
        Ok((record_schema(KnownRecord::Country), Some(KnownRecord::Country)))
    );
    assert_eq!(
        resolve_record_dtype("GeoIP2-Precision-Enterprise", None),
        Ok((record_schema(KnownRecord::Enterprise), Some(KnownRecord::Enterprise)))
    );
}

#[test]
fn unknown_databases_need_a_record_dtype() {
    let error = resolve_record_dtype("custom", None).unwrap_err();
    assert_eq!(error, PlanError::CannotInfer { database_type: "custom".to_owned() });
    assert_eq!(
        error.message(),
        "dtype cannot be inferred for MMDB database_type \"custom\"; pass dtype explicitly"
    );
    let explicit = structure(vec![field("anything", SchemaSpec::Binary)]);
    assert_eq!(resolve_record_dtype("custom", Some(&explicit)), Ok((explicit.clone(), None)));
}

#[test]
fn record_dtypes_must_be_structs() {
    let explicit = SchemaSpec::List { inner: Box::new(SchemaSpec::UInt32) };
    for database_type in ["custom", "GeoIP2-City"] {
        let error = resolve_record_dtype(database_type, Some(&explicit)).unwrap_err();
        assert_eq!(error, PlanError::RecordNotStruct { dtype: explicit.clone() });
        assert_eq!(error.message(), "MMDB record dtype must be a Struct, got list[u32]");
    }
}

#[test]
fn a_partial_known_struct_is_accepted() {
    let explicit = structure(vec![
        field("country", structure(vec![field("iso_code", SchemaSpec::String)])),
        field(
            "subdivisions",
            SchemaSpec::List { inner: Box::new(structure(vec![field("geoname_id", SchemaSpec::UInt32)])) },
        ),
    ]);
    assert_eq!(
        resolve_record_dtype("GeoIP2-City", Some(&explicit)),
        Ok((explicit.clone(), Some(KnownRecord::City)))
    );
    let empty = structure(vec![]);
    assert_eq!(resolve_record_dtype("GeoIP2-ASN", Some(&empty)), Ok((empty, Some(KnownRecord::Asn))));
}

#[test]
fn a_partial_struct_may_not_name_unknown_fields() {
    let explicit = structure(vec![field("country", structure(vec![field("nope", SchemaSpec::String)]))]);
    let error = resolve_record_dtype("GeoIP2-City", Some(&explicit)).unwrap_err();
    assert_eq!(error, PlanError::NoField { key: "nope".to_owned(), at: "country".to_owned() });
    assert_eq!(error.message(), "known MMDB schema has no field \"nope\" at path /country");
    let top = structure(vec![field("isp", SchemaSpec::String)]);
    assert_eq!(
        resolve_record_dtype("GeoLite2-ASN", Some(&top)),
        Err(PlanError::NoField { key: "isp".to_owned(), at: String::new() })
    );
}

#[test]
fn a_partial_struct_must_keep_the_known_leaf_dtypes() {
    let explicit = structure(vec![
        field("continent", structure(vec![field("code", SchemaSpec::String)])),
        field("location", structure(vec![field("metro_code", SchemaSpec::UInt32)])),
        field("traits", structure(vec![field("nope", SchemaSpec::Boolean)])),
    ]);
    let error = resolve_record_dtype("GeoIP2-City", Some(&explicit)).unwrap_err();
    assert_eq!(
        error,
        PlanError::DtypeMismatch {
            explicit: SchemaSpec::UInt32,
            inferred: SchemaSpec::UInt16,
            at: "location/metro_code".to_owned(),
        }
    );
    assert_eq!(
        error.message(),
        "explicit dtype u32 does not match known MMDB path dtype u16 at /location/metro_code"
    );
    let list_for_struct = structure(vec![field("country", SchemaSpec::List { inner: Box::new(SchemaSpec::String) })]);
    assert!(matches!(
        resolve_record_dtype("GeoIP2-Country", Some(&list_for_struct)),
        Err(PlanError::DtypeMismatch { .. })
    ));
}

#[test]
fn only_complete_known_records_take_the_typed_route() {
    assert!(typed_route(&city_schema(), Some(KnownRecord::City)));
    assert!(typed_route(&record_schema(KnownRecord::Domain), Some(KnownRecord::Domain)));
    assert!(!typed_route(&city_schema(), None));
    assert!(!typed_route(&city_schema(), Some(KnownRecord::Country)));
    let partial = structure(vec![field("autonomous_system_number", SchemaSpec::UInt32)]);
    assert!(!typed_route(&partial, Some(KnownRecord::Asn)));
    let (dtype, known) = resolve_record_dtype("GeoIP2-ISP", None).unwrap();
    assert!(typed_route(&dtype, known));
}
