use maxminddb_polars::known::{
    anonymous_ip_record, asn_record, city_record, connection_type_record, country_record,
    decode_error_message, density_income_record, domain_record, enterprise_record, isp_record,
    names, AnonymousIpRecord, AsnRecord, City, CityRecord, ConnectionTypeRecord, Continent, Country,
    CountryRecord, DensityIncomeRecord, DomainRecord, EnterpriseCity, EnterpriseCountry,
    EnterprisePostal, EnterpriseRecord, EnterpriseSubdivision, EnterpriseTraits, IspRecord,
    KnownRecord, Location, Names, Postal, RepresentedCountry, Subdivision, Traits,
};
use maxminddb_polars::schema::{
    asn_schema, city_schema, known_record, known_schema, record_schema, SchemaSpec,
};
use maxminddb_polars::column::{values_to_series, Column};
use maxminddb_polars::value::{project_value, Value};

fn some(s: &str) -> Option<String> {
    Some(s.to_owned())
}

fn english(name: &str) -> Names {
    Names {
        german: None,
        english: some(name),
        spanish: None,
        french: None,
        japanese: None,
        brazilian_portuguese: some("pt"),
        russian: None,
        simplified_chinese: None,
    }
}

fn country_of(code: &str) -> Country {
    Country {
        geoname_id: Some(2661886),
        is_in_european_union: Some(true),
        iso_code: some(code),
        names: english("Sweden"),
    }
}

fn represented() -> RepresentedCountry {
    RepresentedCountry {
        geoname_id: None,
        is_in_european_union: None,
        iso_code: some("US"),
        names: english("United States"),
        representation_type: some("military"),
    }
}

fn continent() -> Continent {
    Continent { code: some("EU"), geoname_id: Some(6255148), names: english("Europe") }
}

fn sample_city() -> CityRecord {
    CityRecord {
        city: City { geoname_id: Some(2694762), names: english("Linköping") },
        continent: continent(),
        country: country_of("SE"),
        location: Location {
            accuracy_radius: Some(76),
            latitude: Some(58.4167f64.to_bits()),
            longitude: Some(15.6167f64.to_bits()),
            metro_code: None,
            time_zone: some("Europe/Stockholm"),
        },
        postal: Postal { code: None },
        registered_country: country_of("SE"),
        represented_country: represented(),
        subdivisions: vec![Subdivision {
            geoname_id: Some(2685867),
            iso_code: some("E"),
            names: english("Östergötland County"),
        }],
        traits: Traits { is_anycast: None },
    }
}

fn keys(value: &Value) -> Vec<String> {
    match value {
        Value::Mapping(entries) => entries.iter().map(|(name, _)| name.clone()).collect(),
        _ => panic!("expected map"),
    }
}

fn entry<'a>(value: &'a Value, name: &str) -> &'a Value {
    match value {
        Value::Mapping(entries) => &entries.iter().find(|(n, _)| n == name).unwrap().1,
        _ => panic!("expected map"),
    }
}

#[test]
fn typed_city_conversion_retains_declared_nested_containers() {
    let value = city_record(sample_city());
    let Value::Mapping(fields) = &value else { panic!("expected map") };
    assert!(fields.iter().any(|(name, _)| name == "subdivisions"));
    assert!(fields.iter().any(|(name, _)| name == "traits"));
}

#[test]
fn a_city_record_projects_onto_the_city_schema_unchanged() {
    let value = city_record(sample_city());
    assert_eq!(project_value(&value, &city_schema()), Ok(city_record(sample_city())));
    let mut empty = sample_city();
    empty.subdivisions = Vec::new();
    let value = city_record(empty);
    assert_eq!(project_value(&value, &city_schema()).unwrap(), value);
}

#[test]
fn an_asn_record_projects_onto_the_asn_schema_unchanged() {
    let record = || AsnRecord {
        autonomous_system_number: Some(29518),
        autonomous_system_organization: some("Bredband2 AB"),
    };
    assert_eq!(project_value(&asn_record(record()), &asn_schema()), Ok(asn_record(record())));
    assert_eq!(
        asn_record(record()),
        Value::Mapping(vec![
            ("autonomous_system_number".to_owned(), Value::UInt32(29518)),
            ("autonomous_system_organization".to_owned(), Value::String("Bredband2 AB".to_owned())),
        ])
    );
}

#[test]
fn names_are_keyed_by_serialized_language() {
    let value = names(english("Sweden"));
    assert_eq!(keys(&value), vec!["de", "en", "es", "fr", "ja", "pt-BR", "ru", "zh-CN"]);
    assert_eq!(entry(&value, "en"), &Value::String("Sweden".to_owned()));
    assert_eq!(entry(&value, "de"), &Value::Null);
}

#[test]
fn city_fields_follow_the_record_layout() {
    let value = city_record(sample_city());
    assert_eq!(
        keys(&value),
        vec![
            "city",
            "continent",
            "country",
            "location",
            "postal",
            "registered_country",
            "represented_country",
            "subdivisions",
            "traits",
        ]
    );
    let location = entry(&value, "location");
    assert_eq!(entry(location, "latitude"), &Value::Float64(58.4167f64.to_bits()));
    assert_eq!(entry(location, "metro_code"), &Value::Null);
    assert_eq!(entry(location, "accuracy_radius"), &Value::UInt16(76));
    let represented = entry(&value, "represented_country");
    assert_eq!(entry(represented, "type"), &Value::String("military".to_owned()));
    assert!(matches!(entry(&value, "subdivisions"), Value::List(items) if items.len() == 1));
}

#[test]
fn country_records_hold_five_parts() {
    let record = CountryRecord {
        continent: continent(),
        country: country_of("SE"),
        registered_country: country_of("SE"),
        represented_country: represented(),
        traits: Traits { is_anycast: Some(true) },
    };
    let value = country_record(record);
    assert_eq!(
        keys(&value),
        vec!["continent", "country", "registered_country", "represented_country", "traits"]
    );
    assert_eq!(entry(entry(&value, "traits"), "is_anycast"), &Value::Boolean(true));
}

fn sample_enterprise() -> EnterpriseRecord {
    EnterpriseRecord {
        city: EnterpriseCity { confidence: Some(50), geoname_id: None, names: english("x") },
        continent: continent(),
        country: EnterpriseCountry {
            confidence: Some(99),
            geoname_id: None,
            is_in_european_union: None,
            iso_code: some("SE"),
            names: english("Sweden"),
        },
        location: Location {
            accuracy_radius: None,
            latitude: None,
            longitude: None,
            metro_code: None,
            time_zone: None,
        },
        postal: EnterprisePostal { code: some("58"), confidence: Some(10) },
        registered_country: EnterpriseCountry {
            confidence: None,
            geoname_id: None,
            is_in_european_union: None,
            iso_code: None,
            names: english("Sweden"),
        },
        represented_country: represented(),
        subdivisions: vec![EnterpriseSubdivision {
            confidence: Some(1),
            geoname_id: None,
            iso_code: None,
            names: english("s"),
        }],
        traits: EnterpriseTraits {
            autonomous_system_number: Some(1),
            autonomous_system_organization: None,
            connection_type: some("Cable/DSL"),
            domain: None,
            is_anonymous: None,
            is_anonymous_vpn: None,
            is_anycast: None,
            is_hosting_provider: None,
            isp: None,
            is_public_proxy: None,
            is_residential_proxy: None,
            is_tor_exit_node: Some(false),
            mobile_country_code: None,
            mobile_network_code: None,
            organization: None,
            user_type: some("residential"),
        },
    }
}

#[test]
fn enterprise_records_carry_confidences() {
    let record = sample_enterprise();
    let value = enterprise_record(record);
    assert_eq!(entry(entry(&value, "city"), "confidence"), &Value::UInt8(50));
    assert_eq!(entry(entry(&value, "postal"), "confidence"), &Value::UInt8(10));
    let traits = entry(&value, "traits");
    assert_eq!(keys(traits).len(), 16);
    assert_eq!(entry(traits, "user_type"), &Value::String("residential".to_owned()));
    assert_eq!(entry(traits, "is_tor_exit_node"), &Value::Boolean(false));
}

#[test]
fn small_records_convert_field_by_field() {
    let isp = isp_record(IspRecord {
        autonomous_system_number: None,
        autonomous_system_organization: None,
        isp: some("Telia"),
        mobile_country_code: some("240"),
        mobile_network_code: None,
        organization: None,
    });
    assert_eq!(keys(&isp).len(), 6);
    assert_eq!(entry(&isp, "isp"), &Value::String("Telia".to_owned()));
    assert_eq!(
        connection_type_record(ConnectionTypeRecord { connection_type: some("Corporate") }),
        Value::Mapping(vec![("connection_type".to_owned(), Value::String("Corporate".to_owned()))])
    );
    let anonymous = anonymous_ip_record(AnonymousIpRecord {
        is_anonymous: Some(true),
        is_anonymous_vpn: None,
        is_hosting_provider: None,
        is_public_proxy: None,
        is_residential_proxy: None,
        is_tor_exit_node: None,
    });
    assert_eq!(entry(&anonymous, "is_anonymous"), &Value::Boolean(true));
    assert_eq!(entry(&anonymous, "is_tor_exit_node"), &Value::Null);
    assert_eq!(
        density_income_record(DensityIncomeRecord { average_income: Some(1), population_density: None }),
        Value::Mapping(vec![
            ("average_income".to_owned(), Value::UInt32(1)),
            ("population_density".to_owned(), Value::Null),
        ])
    );
    assert_eq!(
        domain_record(DomainRecord { domain: None }),
        Value::Mapping(vec![("domain".to_owned(), Value::Null)])
    );
}

#[test]
fn decode_errors_name_the_record_kind() {
    assert_eq!(KnownRecord::Isp.label(), "ISP");
    assert_eq!(
        decode_error_message(KnownRecord::DensityIncome, "bad data"),
        "could not decode Density/Income record: bad data"
    );
    assert_eq!(
        decode_error_message(KnownRecord::ConnectionType, "x"),
        "could not decode Connection Type record: x"
    );
}

fn sample_country() -> CountryRecord {
    CountryRecord {
        continent: continent(),
        country: country_of("SE"),
        registered_country: country_of("NO"),
        represented_country: represented(),
        traits: Traits { is_anycast: None },
    }
}

fn unchanged_by_its_schema(kind: KnownRecord, value: Value) {
    assert_eq!(project_value(&value, &record_schema(kind)).as_ref(), Ok(&value));
    let column = values_to_series("record".to_owned(), &record_schema(kind), vec![Some(value)]).unwrap();
    let Column::Struct { validity, fields } = column.data else { panic!("a record builds a Struct") };
    assert_eq!(validity, vec![true]);
    let SchemaSpec::Struct { fields: schema_fields } = record_schema(kind) else { panic!("Struct") };
    let names: Vec<&str> = fields.iter().map(|f| f.name.as_str()).collect();
    let expected: Vec<&str> = schema_fields.iter().map(|f| f.name.as_str()).collect();
    assert_eq!(names, expected);
}

#[test]
fn every_typed_record_projects_onto_its_schema_unchanged() {
    unchanged_by_its_schema(KnownRecord::City, city_record(sample_city()));
    unchanged_by_its_schema(KnownRecord::Country, country_record(sample_country()));
    unchanged_by_its_schema(KnownRecord::Enterprise, enterprise_record(sample_enterprise()));
    unchanged_by_its_schema(
        KnownRecord::Isp,
        isp_record(IspRecord {
            autonomous_system_number: Some(3301),
            autonomous_system_organization: some("Telia"),
            isp: some("Telia"),
            mobile_country_code: None,
            mobile_network_code: some("01"),
            organization: None,
        }),
    );
    unchanged_by_its_schema(
        KnownRecord::ConnectionType,
        connection_type_record(ConnectionTypeRecord { connection_type: some("Cellular") }),
    );
    unchanged_by_its_schema(
        KnownRecord::AnonymousIp,
        anonymous_ip_record(AnonymousIpRecord {
            is_anonymous: Some(true),
            is_anonymous_vpn: Some(false),
            is_hosting_provider: None,
            is_public_proxy: None,
            is_residential_proxy: Some(true),
            is_tor_exit_node: None,
        }),
    );
    unchanged_by_its_schema(
        KnownRecord::DensityIncome,
        density_income_record(DensityIncomeRecord {
            average_income: Some(32000),
            population_density: Some(1200),
        }),
    );
    unchanged_by_its_schema(KnownRecord::Domain, domain_record(DomainRecord { domain: some("a.se") }));
    unchanged_by_its_schema(
        KnownRecord::Asn,
        asn_record(AsnRecord { autonomous_system_number: None, autonomous_system_organization: None }),
    );
}

#[test]
fn country_databases_have_the_country_schema() {
    for database_type in ["GeoIP2-Country", "GeoLite2-Country", "GeoIP2-Country-Shield"] {
        assert_eq!(known_schema(database_type), Some(record_schema(KnownRecord::Country)));
    }
    let value = country_record(sample_country());
    assert_eq!(
        keys(&value),
        vec!["continent", "country", "registered_country", "represented_country", "traits"]
    );
    let city = city_schema();
    let country = record_schema(KnownRecord::Country);
    let (SchemaSpec::Struct { fields: city_fields }, SchemaSpec::Struct { fields: country_fields }) =
        (&city, &country)
    else {
        panic!("record schemas are Structs")
    };
    let names: Vec<&str> = country_fields.iter().map(|f| f.name.as_str()).collect();
    assert_eq!(names, vec!["continent", "country", "registered_country", "represented_country", "traits"]);
    for field in country_fields {
        let same = city_fields.iter().find(|c| c.name == field.name).unwrap();
        assert_eq!(same.dtype, field.dtype);
    }
}

#[test]
fn every_documented_typed_database_type_is_known() {
    let cases = [
        ("GeoIP2-City", KnownRecord::City),
        ("GeoLite2-City", KnownRecord::City),
        ("GeoIP2-Country", KnownRecord::Country),
        ("GeoLite2-Country", KnownRecord::Country),
        ("GeoIP2-Country-Shield", KnownRecord::Country),
        ("GeoIP2-Enterprise", KnownRecord::Enterprise),
        ("GeoIP2-Enterprise-Shield", KnownRecord::Enterprise),
        ("GeoIP2-Precision-Enterprise", KnownRecord::Enterprise),
        ("GeoIP2-Precision-Enterprise-Shield", KnownRecord::Enterprise),
        ("GeoIP2-ISP", KnownRecord::Isp),
        ("GeoIP2-Connection-Type", KnownRecord::ConnectionType),
        ("GeoIP2-Anonymous-IP", KnownRecord::AnonymousIp),
        ("GeoIP2-DensityIncome", KnownRecord::DensityIncome),
        ("GeoIP2-Domain", KnownRecord::Domain),
        ("GeoIP2-ASN", KnownRecord::Asn),
        ("GeoLite2-ASN", KnownRecord::Asn),
    ];
    for (database_type, kind) in cases {
        assert_eq!(known_record(database_type), Some(kind), "{database_type}");
        assert_eq!(known_schema(database_type), Some(record_schema(kind)), "{database_type}");
    }
    for custom in ["GeoIP2-Country-Custom", "geoip2-isp", "GeoIP2-Domains", ""] {
        assert_eq!(known_record(custom), None);
        assert_eq!(known_schema(custom), None);
    }
}

#[test]
fn enterprise_and_isp_schemas_name_their_fields() {
    let SchemaSpec::Struct { fields } = record_schema(KnownRecord::Isp) else { panic!("Struct") };
    let names: Vec<&str> = fields.iter().map(|f| f.name.as_str()).collect();
    assert_eq!(
        names,
        vec![
            "autonomous_system_number",
            "autonomous_system_organization",
            "isp",
            "mobile_country_code",
            "mobile_network_code",
            "organization",
        ]
    );
    assert_eq!(fields[0].dtype, SchemaSpec::UInt32);
    let SchemaSpec::Struct { fields } = record_schema(KnownRecord::Enterprise) else { panic!("Struct") };
    let city = &fields[0];
    assert_eq!(city.name, "city");
    let SchemaSpec::Struct { fields: city_fields } = &city.dtype else { panic!("Struct") };
    assert_eq!(city_fields[0].name, "confidence");
    assert_eq!(city_fields[0].dtype, SchemaSpec::UInt8);
}
