use vstd::prelude::*;
use vstd::string::*;

use crate::record_laws::{distinct_entry_keys, lemma_project_exact, lemma_project_items_exact};
use crate::schema_laws::{fits_record_schema, law_typed_record_builds_a_present_row};
use crate::schema::{
    anonymous_ip_model, asn_model, city_model, connection_type_model, continent_model,
    country_model, country_record_model, density_income_model, domain_model,
    enterprise_country_model, enterprise_model, enterprise_subdivision_model,
    enterprise_traits_model, isp_model, location_model, names_model, represented_country_model,
    subdivision_model, traits_model, Dtype,
};
use crate::value::{project_model, Value, ValueErrorModel, ValueModel};

verus! {

/// The standard record kinds that have a typed decoder.
#[derive(Clone, Copy, Debug, PartialEq, Eq)]
pub enum KnownRecord {
    City,
    Country,
    Enterprise,
    Isp,
    ConnectionType,
    AnonymousIp,
    DensityIncome,
    Domain,
    Asn,
}

/// The name of a record kind in decoder errors.
pub open spec fn record_label_text(record: KnownRecord) -> Seq<char> {
    match record {
        KnownRecord::City => "City"@,
        KnownRecord::Country => "Country"@,
        KnownRecord::Enterprise => "Enterprise"@,
        KnownRecord::Isp => "ISP"@,
        KnownRecord::ConnectionType => "Connection Type"@,
        KnownRecord::AnonymousIp => "Anonymous IP"@,
        KnownRecord::DensityIncome => "Density/Income"@,
        KnownRecord::Domain => "Domain"@,
        KnownRecord::Asn => "ASN"@,
    }
}

impl KnownRecord {
    /// The name of this record kind in decoder errors.
    pub fn label(&self) -> (r: &'static str)
        ensures
            r@ == record_label_text(*self),
    {
        match self {
            KnownRecord::City => "City",
            KnownRecord::Country => "Country",
            KnownRecord::Enterprise => "Enterprise",
            KnownRecord::Isp => "ISP",
            KnownRecord::ConnectionType => "Connection Type",
            KnownRecord::AnonymousIp => "Anonymous IP",
            KnownRecord::DensityIncome => "Density/Income",
            KnownRecord::Domain => "Domain",
            KnownRecord::Asn => "ASN",
        }
    }
}

/// The text of a typed decoder error.
pub open spec fn decode_error_text(record: KnownRecord, reason: Seq<char>) -> Seq<char> {
    "could not decode "@ + record_label_text(record) + " record: "@ + reason
}

/// The error raised when a record of a known kind does not decode.
pub fn decode_error_message(record: KnownRecord, reason: &str) -> (r: String)
    ensures
        r@ == decode_error_text(record, reason@),
{
    let mut out = String::new();
    out.append("could not decode ");
    out.append(record.label());
    out.append(" record: ");
    out.append(reason);
    out
}

/// Localized names of a place, one per language.
pub struct Names {
    pub german: Option<String>,
    pub english: Option<String>,
    pub spanish: Option<String>,
    pub french: Option<String>,
    pub japanese: Option<String>,
    pub brazilian_portuguese: Option<String>,
    pub russian: Option<String>,
    pub simplified_chinese: Option<String>,
}

/// A continent.
pub struct Continent {
    pub code: Option<String>,
    pub geoname_id: Option<u32>,
    pub names: Names,
}

/// A country.
pub struct Country {
    pub geoname_id: Option<u32>,
    pub is_in_european_union: Option<bool>,
    pub iso_code: Option<String>,
    pub names: Names,
}

/// The country that a military base or embassy represents.
pub struct RepresentedCountry {
    pub geoname_id: Option<u32>,
    pub is_in_european_union: Option<bool>,
    pub iso_code: Option<String>,
    pub names: Names,
    pub representation_type: Option<String>,
}

/// Traits of a Country or City record.
pub struct Traits {
    pub is_anycast: Option<bool>,
}

/// A Country record.
pub struct CountryRecord {
    pub continent: Continent,
    pub country: Country,
    pub registered_country: Country,
    pub represented_country: RepresentedCountry,
    pub traits: Traits,
}

/// A city.
pub struct City {
    pub geoname_id: Option<u32>,
    pub names: Names,
}

/// A location; coordinates are IEEE 754 bit patterns of 64-bit floats.
pub struct Location {
    pub accuracy_radius: Option<u16>,
    pub latitude: Option<u64>,
    pub longitude: Option<u64>,
    pub metro_code: Option<u16>,
    pub time_zone: Option<String>,
}

/// A postal code.
pub struct Postal {
    pub code: Option<String>,
}

/// A subdivision of a country.
pub struct Subdivision {
    pub geoname_id: Option<u32>,
    pub iso_code: Option<String>,
    pub names: Names,
}

/// A City record.
pub struct CityRecord {
    pub city: City,
    pub continent: Continent,
    pub country: Country,
    pub location: Location,
    pub postal: Postal,
    pub registered_country: Country,
    pub represented_country: RepresentedCountry,
    pub subdivisions: Vec<Subdivision>,
    pub traits: Traits,
}

/// A city of an Enterprise record.
pub struct EnterpriseCity {
    pub confidence: Option<u8>,
    pub geoname_id: Option<u32>,
    pub names: Names,
}

/// A country of an Enterprise record.
pub struct EnterpriseCountry {
    pub confidence: Option<u8>,
    pub geoname_id: Option<u32>,
    pub is_in_european_union: Option<bool>,
    pub iso_code: Option<String>,
    pub names: Names,
}

/// A postal code of an Enterprise record.
pub struct EnterprisePostal {
    pub code: Option<String>,
    pub confidence: Option<u8>,
}

/// A subdivision of an Enterprise record.
pub struct EnterpriseSubdivision {
    pub confidence: Option<u8>,
    pub geoname_id: Option<u32>,
    pub iso_code: Option<String>,
    pub names: Names,
}

/// Traits of an Enterprise record.
pub struct EnterpriseTraits {
    pub autonomous_system_number: Option<u32>,
    pub autonomous_system_organization: Option<String>,
    pub connection_type: Option<String>,
    pub domain: Option<String>,
    pub is_anonymous: Option<bool>,
    pub is_anonymous_vpn: Option<bool>,
    pub is_anycast: Option<bool>,
    pub is_hosting_provider: Option<bool>,
    pub isp: Option<String>,
    pub is_public_proxy: Option<bool>,
    pub is_residential_proxy: Option<bool>,
    pub is_tor_exit_node: Option<bool>,
    pub mobile_country_code: Option<String>,
    pub mobile_network_code: Option<String>,
    pub organization: Option<String>,
    pub user_type: Option<String>,
}

/// An Enterprise record.
pub struct EnterpriseRecord {
    pub city: EnterpriseCity,
    pub continent: Continent,
    pub country: EnterpriseCountry,
    pub location: Location,
    pub postal: EnterprisePostal,
    pub registered_country: EnterpriseCountry,
    pub represented_country: RepresentedCountry,
    pub subdivisions: Vec<EnterpriseSubdivision>,
    pub traits: EnterpriseTraits,
}

/// An ISP record.
pub struct IspRecord {
    pub autonomous_system_number: Option<u32>,
    pub autonomous_system_organization: Option<String>,
    pub isp: Option<String>,
    pub mobile_country_code: Option<String>,
    pub mobile_network_code: Option<String>,
    pub organization: Option<String>,
}

/// A Connection Type record.
pub struct ConnectionTypeRecord {
    pub connection_type: Option<String>,
}

/// An Anonymous IP record.
pub struct AnonymousIpRecord {
    pub is_anonymous: Option<bool>,
    pub is_anonymous_vpn: Option<bool>,
    pub is_hosting_provider: Option<bool>,
    pub is_public_proxy: Option<bool>,
    pub is_residential_proxy: Option<bool>,
    pub is_tor_exit_node: Option<bool>,
}

/// A Density/Income record.
pub struct DensityIncomeRecord {
    pub average_income: Option<u32>,
    pub population_density: Option<u32>,
}

/// A Domain record.
pub struct DomainRecord {
    pub domain: Option<String>,
}

/// An ASN record.
pub struct AsnRecord {
    pub autonomous_system_number: Option<u32>,
    pub autonomous_system_organization: Option<String>,
}

/// An optional string as a value: the string, or null.
pub open spec fn text_value(o: Option<String>) -> ValueModel {
    match o {
        Some(s) => ValueModel::String(s@),
        None => ValueModel::Null,
    }
}

/// An optional flag as a value.
pub open spec fn flag_value(o: Option<bool>) -> ValueModel {
    match o {
        Some(b) => ValueModel::Boolean(b),
        None => ValueModel::Null,
    }
}

/// An optional byte as a value.
pub open spec fn u8_value(o: Option<u8>) -> ValueModel {
    match o {
        Some(x) => ValueModel::UInt8(x),
        None => ValueModel::Null,
    }
}

/// An optional 16-bit number as a value.
pub open spec fn u16_value(o: Option<u16>) -> ValueModel {
    match o {
        Some(x) => ValueModel::UInt16(x),
        None => ValueModel::Null,
    }
}

/// An optional 32-bit number as a value.
pub open spec fn u32_value(o: Option<u32>) -> ValueModel {
    match o {
        Some(x) => ValueModel::UInt32(x),
        None => ValueModel::Null,
    }
}

/// An optional 64-bit float (by its bits) as a value.
pub open spec fn f64_value(o: Option<u64>) -> ValueModel {
    match o {
        Some(x) => ValueModel::Float64(x),
        None => ValueModel::Null,
    }
}

/// The models of labelled values, in order.
pub open spec fn labelled(fields: Seq<(&str, Value)>) -> Seq<(Seq<char>, ValueModel)> {
    fields.map_values(|p: (&str, Value)| (p.0@, p.1@))
}

/// A map with the given entries, in order.
pub fn map(fields: Vec<(&'static str, Value)>) -> (r: Value)
    ensures
        r@ == ValueModel::Mapping(labelled(fields@)),
{
    let ghost all = fields@;
    let mut rest = fields;
    let mut entries: Vec<(String, Value)> = Vec::new();
    let n = rest.len();
    let mut i: usize = 0;
    while i < n
        invariant
            n == all.len(),
            i <= n,
            rest@ == all.skip(i as int),
            entries@.len() == i,
            forall|j: int|
                #![trigger entries@[j]]
                0 <= j < i ==> entries@[j].0@ == all[j].0@ && entries@[j].1@ == all[j].1@,
        decreases n - i,
    {
        let (name, value) = rest.remove(0);
        assert(all.skip(i as int).remove(0) =~= all.skip(i + 1));
        entries.push((name.to_owned(), value));
        i = i + 1;
    }
    proof {
        crate::value::lemma_entries_model(entries@);
    }
    assert(crate::value::entries_model(entries@) =~= labelled(all));
    Value::Mapping(entries)
}

/// An optional string as a value.
pub fn string(value: Option<String>) -> (r: Value)
    ensures
        r@ == text_value(value),
{
    match value {
        Some(s) => Value::String(s),
        None => Value::Null,
    }
}

/// An optional flag as a value.
pub fn boolean(value: Option<bool>) -> (r: Value)
    ensures
        r@ == flag_value(value),
{
    match value {
        Some(b) => Value::Boolean(b),
        None => Value::Null,
    }
}

/// An optional byte as a value.
pub fn uint8(value: Option<u8>) -> (r: Value)
    ensures
        r@ == u8_value(value),
{
    match value {
        Some(x) => Value::UInt8(x),
        None => Value::Null,
    }
}

/// An optional 16-bit number as a value.
pub fn uint16(value: Option<u16>) -> (r: Value)
    ensures
        r@ == u16_value(value),
{
    match value {
        Some(x) => Value::UInt16(x),
        None => Value::Null,
    }
}

/// An optional 32-bit number as a value.
pub fn uint32(value: Option<u32>) -> (r: Value)
    ensures
        r@ == u32_value(value),
{
    match value {
        Some(x) => Value::UInt32(x),
        None => Value::Null,
    }
}

/// An optional 64-bit float (by its bits) as a value.
pub fn float64(value: Option<u64>) -> (r: Value)
    ensures
        r@ == f64_value(value),
{
    match value {
        Some(x) => Value::Float64(x),
        None => Value::Null,
    }
}

/// The value of localized names.
pub open spec fn names_value(n: Names) -> ValueModel {
    ValueModel::Mapping(
        seq![
            ("de"@, text_value(n.german)),
            ("en"@, text_value(n.english)),
            ("es"@, text_value(n.spanish)),
            ("fr"@, text_value(n.french)),
            ("ja"@, text_value(n.japanese)),
            ("pt-BR"@, text_value(n.brazilian_portuguese)),
            ("ru"@, text_value(n.russian)),
            ("zh-CN"@, text_value(n.simplified_chinese)),
        ],
    )
}

/// Localized names as a map keyed by language.
pub fn names(localized: Names) -> (r: Value)
    ensures
        r@ == names_value(localized),
{
    let ghost n = localized;
    let Names {
        german,
        english,
        spanish,
        french,
        japanese,
        brazilian_portuguese,
        russian,
        simplified_chinese,
    } = localized;
    let fields = vec![
        ("de", string(german)),
        ("en", string(english)),
        ("es", string(spanish)),
        ("fr", string(french)),
        ("ja", string(japanese)),
        ("pt-BR", string(brazilian_portuguese)),
        ("ru", string(russian)),
        ("zh-CN", string(simplified_chinese)),
    ];
    let r = map(fields);
    assert(labelled(fields@) =~= names_value(n)->Mapping_0);
    r
}

/// The value of a continent.
pub open spec fn continent_value(c: Continent) -> ValueModel {
    ValueModel::Mapping(
        seq![
            ("code"@, text_value(c.code)),
            ("geoname_id"@, u32_value(c.geoname_id)),
            ("names"@, names_value(c.names)),
        ],
    )
}

/// A continent as a map.
pub fn continent(record: Continent) -> (r: Value)
    ensures
        r@ == continent_value(record),
{
    let ghost c = record;
    let Continent { code, geoname_id, names: localized_names } = record;
    let fields = vec![
        ("code", string(code)),
        ("geoname_id", uint32(geoname_id)),
        ("names", names(localized_names)),
    ];
    let r = map(fields);
    assert(labelled(fields@) =~= continent_value(c)->Mapping_0);
    r
}

/// The value of a country.
pub open spec fn country_value(c: Country) -> ValueModel {
    ValueModel::Mapping(
        seq![
            ("geoname_id"@, u32_value(c.geoname_id)),
            ("is_in_european_union"@, flag_value(c.is_in_european_union)),
            ("iso_code"@, text_value(c.iso_code)),
            ("names"@, names_value(c.names)),
        ],
    )
}

/// A country as a map.
pub fn country(record: Country) -> (r: Value)
    ensures
        r@ == country_value(record),
{
    let ghost c = record;
    let Country { geoname_id, is_in_european_union, iso_code, names: localized_names } = record;
    let fields = vec![
        ("geoname_id", uint32(geoname_id)),
        ("is_in_european_union", boolean(is_in_european_union)),
        ("iso_code", string(iso_code)),
        ("names", names(localized_names)),
    ];
    let r = map(fields);
    assert(labelled(fields@) =~= country_value(c)->Mapping_0);
    r
}

/// The value of a represented country.
pub open spec fn represented_country_value(c: RepresentedCountry) -> ValueModel {
    ValueModel::Mapping(
        seq![
            ("geoname_id"@, u32_value(c.geoname_id)),
            ("is_in_european_union"@, flag_value(c.is_in_european_union)),
            ("iso_code"@, text_value(c.iso_code)),
            ("names"@, names_value(c.names)),
            ("type"@, text_value(c.representation_type)),
        ],
    )
}

/// A represented country as a map; its representation type is the `type` entry.
pub fn represented_country(record: RepresentedCountry) -> (r: Value)
    ensures
        r@ == represented_country_value(record),
{
    let ghost c = record;
    let RepresentedCountry {
        geoname_id,
        is_in_european_union,
        iso_code,
        names: localized_names,
        representation_type,
    } = record;
    let fields = vec![
        ("geoname_id", uint32(geoname_id)),
        ("is_in_european_union", boolean(is_in_european_union)),
        ("iso_code", string(iso_code)),
        ("names", names(localized_names)),
        ("type", string(representation_type)),
    ];
    let r = map(fields);
    assert(labelled(fields@) =~= represented_country_value(c)->Mapping_0);
    r
}

/// The value of Country or City traits.
pub open spec fn traits_value(t: Traits) -> ValueModel {
    ValueModel::Mapping(seq![("is_anycast"@, flag_value(t.is_anycast))])
}

/// Country or City traits as a map.
pub fn country_traits(record: Traits) -> (r: Value)
    ensures
        r@ == traits_value(record),
{
    let ghost t = record;
    let Traits { is_anycast } = record;
    let fields = vec![("is_anycast", boolean(is_anycast))];
    let r = map(fields);
    assert(labelled(fields@) =~= traits_value(t)->Mapping_0);
    r
}

/// The value of a Country record.
pub open spec fn country_record_value(r: CountryRecord) -> ValueModel {
    ValueModel::Mapping(
        seq![
            ("continent"@, continent_value(r.continent)),
            ("country"@, country_value(r.country)),
            ("registered_country"@, country_value(r.registered_country)),
            ("represented_country"@, represented_country_value(r.represented_country)),
            ("traits"@, traits_value(r.traits)),
        ],
    )
}

/// A Country record as a map.
pub fn country_record(record: CountryRecord) -> (r: Value)
    ensures
        r@ == country_record_value(record),
{
    let ghost rec = record;
    let CountryRecord {
        continent: record_continent,
        country: record_country,
        registered_country,
        represented_country: record_represented_country,
        traits,
    } = record;
    let fields = vec![
        ("continent", continent(record_continent)),
        ("country", country(record_country)),
        ("registered_country", country(registered_country)),
        ("represented_country", represented_country(record_represented_country)),
        ("traits", country_traits(traits)),
    ];
    let r = map(fields);
    assert(labelled(fields@) =~= country_record_value(rec)->Mapping_0);
    r
}

/// The value of a city.
pub open spec fn city_value(c: City) -> ValueModel {
    ValueModel::Mapping(
        seq![("geoname_id"@, u32_value(c.geoname_id)), ("names"@, names_value(c.names))],
    )
}

/// A city as a map.
pub fn city(record: City) -> (r: Value)
    ensures
        r@ == city_value(record),
{
    let ghost c = record;
    let City { geoname_id, names: localized_names } = record;
    let fields = vec![("geoname_id", uint32(geoname_id)), ("names", names(localized_names))];
    let r = map(fields);
    assert(labelled(fields@) =~= city_value(c)->Mapping_0);
    r
}

/// The value of a location.
pub open spec fn location_value(l: Location) -> ValueModel {
    ValueModel::Mapping(
        seq![
            ("accuracy_radius"@, u16_value(l.accuracy_radius)),
            ("latitude"@, f64_value(l.latitude)),
            ("longitude"@, f64_value(l.longitude)),
            ("metro_code"@, u16_value(l.metro_code)),
            ("time_zone"@, text_value(l.time_zone)),
        ],
    )
}

/// A location as a map (of City and Enterprise records alike).
pub fn location(record: Location) -> (r: Value)
    ensures
        r@ == location_value(record),
{
    let ghost l = record;
    let Location { accuracy_radius, latitude, longitude, metro_code, time_zone } = record;
    let fields = vec![
        ("accuracy_radius", uint16(accuracy_radius)),
        ("latitude", float64(latitude)),
        ("longitude", float64(longitude)),
        ("metro_code", uint16(metro_code)),
        ("time_zone", string(time_zone)),
    ];
    let r = map(fields);
    assert(labelled(fields@) =~= location_value(l)->Mapping_0);
    r
}

/// The value of a postal code.
pub open spec fn postal_value(p: Postal) -> ValueModel {
    ValueModel::Mapping(seq![("code"@, text_value(p.code))])
}

/// A postal code as a map.
pub fn postal(record: Postal) -> (r: Value)
    ensures
        r@ == postal_value(record),
{
    let ghost p = record;
    let Postal { code } = record;
    let fields = vec![("code", string(code))];
    let r = map(fields);
    assert(labelled(fields@) =~= postal_value(p)->Mapping_0);
    r
}

/// The value of a subdivision.
pub open spec fn subdivision_value(s: Subdivision) -> ValueModel {
    ValueModel::Mapping(
        seq![
            ("geoname_id"@, u32_value(s.geoname_id)),
            ("iso_code"@, text_value(s.iso_code)),
            ("names"@, names_value(s.names)),
        ],
    )
}

/// A subdivision as a map.
pub fn subdivision(record: Subdivision) -> (r: Value)
    ensures
        r@ == subdivision_value(record),
{
    let ghost s = record;
    let Subdivision { geoname_id, iso_code, names: localized_names } = record;
    let fields = vec![
        ("geoname_id", uint32(geoname_id)),
        ("iso_code", string(iso_code)),
        ("names", names(localized_names)),
    ];
    let r = map(fields);
    assert(labelled(fields@) =~= subdivision_value(s)->Mapping_0);
    r
}

/// The values of subdivisions, in order.
pub open spec fn subdivisions_value(subs: Seq<Subdivision>) -> ValueModel {
    ValueModel::List(subs.map_values(|s: Subdivision| subdivision_value(s)))
}

/// Subdivisions as a list of maps.
fn subdivision_list(subdivisions: Vec<Subdivision>) -> (r: Value)
    ensures
        r@ == subdivisions_value(subdivisions@),
{
    let ghost all = subdivisions@;
    let mut rest = subdivisions;
    let mut items: Vec<Value> = Vec::new();
    let n = rest.len();
    let mut i: usize = 0;
    while i < n
        invariant
            n == all.len(),
            i <= n,
            rest@ == all.skip(i as int),
            items@.len() == i,
            forall|j: int| #![trigger items@[j]] 0 <= j < i ==> items@[j]@ == subdivision_value(all[j]),
        decreases n - i,
    {
        let s = rest.remove(0);
        assert(all.skip(i as int).remove(0) =~= all.skip(i + 1));
        items.push(subdivision(s));
        i = i + 1;
    }
    proof {
        crate::value::lemma_items_model(items@);
    }
    assert(crate::value::items_model(items@) =~= all.map_values(|s: Subdivision| subdivision_value(s)));
    Value::List(items)
}

/// The value of a City record.
pub open spec fn city_record_value(r: CityRecord) -> ValueModel {
    ValueModel::Mapping(
        seq![
            ("city"@, city_value(r.city)),
            ("continent"@, continent_value(r.continent)),
            ("country"@, country_value(r.country)),
            ("location"@, location_value(r.location)),
            ("postal"@, postal_value(r.postal)),
            ("registered_country"@, country_value(r.registered_country)),
            ("represented_country"@, represented_country_value(r.represented_country)),
            ("subdivisions"@, subdivisions_value(r.subdivisions@)),
            ("traits"@, traits_value(r.traits)),
        ],
    )
}

/// A City record as a map.
pub fn city_record(record: CityRecord) -> (r: Value)
    ensures
        r@ == city_record_value(record),
{
    let ghost rec = record;
    let CityRecord {
        city: record_city,
        continent: record_continent,
        country: record_country,
        location: record_location,
        postal: record_postal,
        registered_country,
        represented_country: record_represented_country,
        subdivisions,
        traits,
    } = record;
    let fields = vec![
        ("city", city(record_city)),
        ("continent", continent(record_continent)),
        ("country", country(record_country)),
        ("location", location(record_location)),
        ("postal", postal(record_postal)),
        ("registered_country", country(registered_country)),
        ("represented_country", represented_country(record_represented_country)),
        ("subdivisions", subdivision_list(subdivisions)),
        ("traits", country_traits(traits)),
    ];
    let r = map(fields);
    assert(labelled(fields@) =~= city_record_value(rec)->Mapping_0);
    r
}

/// The value of an Enterprise city.
pub open spec fn enterprise_city_value(c: EnterpriseCity) -> ValueModel {
    ValueModel::Mapping(
        seq![
            ("confidence"@, u8_value(c.confidence)),
            ("geoname_id"@, u32_value(c.geoname_id)),
            ("names"@, names_value(c.names)),
        ],
    )
}

/// An Enterprise city as a map.
pub fn enterprise_city(record: EnterpriseCity) -> (r: Value)
    ensures
        r@ == enterprise_city_value(record),
{
    let ghost c = record;
    let EnterpriseCity { confidence, geoname_id, names: localized_names } = record;
    let fields = vec![
        ("confidence", uint8(confidence)),
        ("geoname_id", uint32(geoname_id)),
        ("names", names(localized_names)),
    ];
    let r = map(fields);
    assert(labelled(fields@) =~= enterprise_city_value(c)->Mapping_0);
    r
}

/// The value of an Enterprise country.
pub open spec fn enterprise_country_value(c: EnterpriseCountry) -> ValueModel {
    ValueModel::Mapping(
        seq![
            ("confidence"@, u8_value(c.confidence)),
            ("geoname_id"@, u32_value(c.geoname_id)),
            ("is_in_european_union"@, flag_value(c.is_in_european_union)),
            ("iso_code"@, text_value(c.iso_code)),
            ("names"@, names_value(c.names)),
        ],
    )
}

/// An Enterprise country as a map.
pub fn enterprise_country(record: EnterpriseCountry) -> (r: Value)
    ensures
        r@ == enterprise_country_value(record),
{
    let ghost c = record;
    let EnterpriseCountry {
        confidence,
        geoname_id,
        is_in_european_union,
        iso_code,
        names: localized_names,
    } = record;
    let fields = vec![
        ("confidence", uint8(confidence)),
        ("geoname_id", uint32(geoname_id)),
        ("is_in_european_union", boolean(is_in_european_union)),
        ("iso_code", string(iso_code)),
        ("names", names(localized_names)),
    ];
    let r = map(fields);
    assert(labelled(fields@) =~= enterprise_country_value(c)->Mapping_0);
    r
}

/// The value of an Enterprise postal code.
pub open spec fn enterprise_postal_value(p: EnterprisePostal) -> ValueModel {
    ValueModel::Mapping(
        seq![("code"@, text_value(p.code)), ("confidence"@, u8_value(p.confidence))],
    )
}

/// An Enterprise postal code as a map.
pub fn enterprise_postal(record: EnterprisePostal) -> (r: Value)
    ensures
        r@ == enterprise_postal_value(record),
{
    let ghost p = record;
    let EnterprisePostal { code, confidence } = record;
    let fields = vec![("code", string(code)), ("confidence", uint8(confidence))];
    let r = map(fields);
    assert(labelled(fields@) =~= enterprise_postal_value(p)->Mapping_0);
    r
}

/// The value of an Enterprise subdivision.
pub open spec fn enterprise_subdivision_value(s: EnterpriseSubdivision) -> ValueModel {
    ValueModel::Mapping(
        seq![
            ("confidence"@, u8_value(s.confidence)),
            ("geoname_id"@, u32_value(s.geoname_id)),
            ("iso_code"@, text_value(s.iso_code)),
            ("names"@, names_value(s.names)),
        ],
    )
}

/// An Enterprise subdivision as a map.
pub fn enterprise_subdivision(record: EnterpriseSubdivision) -> (r: Value)
    ensures
        r@ == enterprise_subdivision_value(record),
{
    let ghost s = record;
    let EnterpriseSubdivision { confidence, geoname_id, iso_code, names: localized_names } = record;
    let fields = vec![
        ("confidence", uint8(confidence)),
        ("geoname_id", uint32(geoname_id)),
        ("iso_code", string(iso_code)),
        ("names", names(localized_names)),
    ];
    let r = map(fields);
    assert(labelled(fields@) =~= enterprise_subdivision_value(s)->Mapping_0);
    r
}

/// The values of Enterprise subdivisions, in order.
pub open spec fn enterprise_subdivisions_value(subs: Seq<EnterpriseSubdivision>) -> ValueModel {
    ValueModel::List(subs.map_values(|s: EnterpriseSubdivision| enterprise_subdivision_value(s)))
}

/// Enterprise subdivisions as a list of maps.
fn enterprise_subdivision_list(subdivisions: Vec<EnterpriseSubdivision>) -> (r: Value)
    ensures
        r@ == enterprise_subdivisions_value(subdivisions@),
{
    let ghost all = subdivisions@;
    let mut rest = subdivisions;
    let mut items: Vec<Value> = Vec::new();
    let n = rest.len();
    let mut i: usize = 0;
    while i < n
        invariant
            n == all.len(),
            i <= n,
            rest@ == all.skip(i as int),
            items@.len() == i,
            forall|j: int|
                #![trigger items@[j]]
                0 <= j < i ==> items@[j]@ == enterprise_subdivision_value(all[j]),
        decreases n - i,
    {
        let s = rest.remove(0);
        assert(all.skip(i as int).remove(0) =~= all.skip(i + 1));
        items.push(enterprise_subdivision(s));
        i = i + 1;
    }
    proof {
        crate::value::lemma_items_model(items@);
    }
    assert(crate::value::items_model(items@) =~= all.map_values(
        |s: EnterpriseSubdivision| enterprise_subdivision_value(s),
    ));
    Value::List(items)
}

/// The value of Enterprise traits.
pub open spec fn enterprise_traits_value(t: EnterpriseTraits) -> ValueModel {
    ValueModel::Mapping(
        seq![
            ("autonomous_system_number"@, u32_value(t.autonomous_system_number)),
            ("autonomous_system_organization"@, text_value(t.autonomous_system_organization)),
            ("connection_type"@, text_value(t.connection_type)),
            ("domain"@, text_value(t.domain)),
            ("is_anonymous"@, flag_value(t.is_anonymous)),
            ("is_anonymous_vpn"@, flag_value(t.is_anonymous_vpn)),
            ("is_anycast"@, flag_value(t.is_anycast)),
            ("is_hosting_provider"@, flag_value(t.is_hosting_provider)),
            ("isp"@, text_value(t.isp)),
            ("is_public_proxy"@, flag_value(t.is_public_proxy)),
            ("is_residential_proxy"@, flag_value(t.is_residential_proxy)),
            ("is_tor_exit_node"@, flag_value(t.is_tor_exit_node)),
            ("mobile_country_code"@, text_value(t.mobile_country_code)),
            ("mobile_network_code"@, text_value(t.mobile_network_code)),
            ("organization"@, text_value(t.organization)),
            ("user_type"@, text_value(t.user_type)),
        ],
    )
}

/// Enterprise traits as a map.
pub fn enterprise_traits(record: EnterpriseTraits) -> (r: Value)
    ensures
        r@ == enterprise_traits_value(record),
{
    let ghost t = record;
    let EnterpriseTraits {
        autonomous_system_number,
        autonomous_system_organization,
        connection_type,
        domain,
        is_anonymous,
        is_anonymous_vpn,
        is_anycast,
        is_hosting_provider,
        isp,
        is_public_proxy,
        is_residential_proxy,
        is_tor_exit_node,
        mobile_country_code,
        mobile_network_code,
        organization,
        user_type,
    } = record;
    let fields = vec![
        ("autonomous_system_number", uint32(autonomous_system_number)),
        ("autonomous_system_organization", string(autonomous_system_organization)),
        ("connection_type", string(connection_type)),
        ("domain", string(domain)),
        ("is_anonymous", boolean(is_anonymous)),
        ("is_anonymous_vpn", boolean(is_anonymous_vpn)),
        ("is_anycast", boolean(is_anycast)),
        ("is_hosting_provider", boolean(is_hosting_provider)),
        ("isp", string(isp)),
        ("is_public_proxy", boolean(is_public_proxy)),
        ("is_residential_proxy", boolean(is_residential_proxy)),
        ("is_tor_exit_node", boolean(is_tor_exit_node)),
        ("mobile_country_code", string(mobile_country_code)),
        ("mobile_network_code", string(mobile_network_code)),
        ("organization", string(organization)),
        ("user_type", string(user_type)),
    ];
    let r = map(fields);
    assert(labelled(fields@) =~= enterprise_traits_value(t)->Mapping_0);
    r
}

/// The value of an Enterprise record.
pub open spec fn enterprise_record_value(r: EnterpriseRecord) -> ValueModel {
    ValueModel::Mapping(
        seq![
            ("city"@, enterprise_city_value(r.city)),
            ("continent"@, continent_value(r.continent)),
            ("country"@, enterprise_country_value(r.country)),
            ("location"@, location_value(r.location)),
            ("postal"@, enterprise_postal_value(r.postal)),
            ("registered_country"@, enterprise_country_value(r.registered_country)),
            ("represented_country"@, represented_country_value(r.represented_country)),
            ("subdivisions"@, enterprise_subdivisions_value(r.subdivisions@)),
            ("traits"@, enterprise_traits_value(r.traits)),
        ],
    )
}

/// An Enterprise record as a map.
pub fn enterprise_record(record: EnterpriseRecord) -> (r: Value)
    ensures
        r@ == enterprise_record_value(record),
{
    let ghost rec = record;
    let EnterpriseRecord {
        city: record_city,
        continent: record_continent,
        country: record_country,
        location: record_location,
        postal: record_postal,
        registered_country,
        represented_country: record_represented_country,
        subdivisions,
        traits,
    } = record;
    let fields = vec![
        ("city", enterprise_city(record_city)),
        ("continent", continent(record_continent)),
        ("country", enterprise_country(record_country)),
        ("location", location(record_location)),
        ("postal", enterprise_postal(record_postal)),
        ("registered_country", enterprise_country(registered_country)),
        ("represented_country", represented_country(record_represented_country)),
        ("subdivisions", enterprise_subdivision_list(subdivisions)),
        ("traits", enterprise_traits(traits)),
    ];
    let r = map(fields);
    assert(labelled(fields@) =~= enterprise_record_value(rec)->Mapping_0);
    r
}

/// The value of an ISP record.
pub open spec fn isp_record_value(r: IspRecord) -> ValueModel {
    ValueModel::Mapping(
        seq![
            ("autonomous_system_number"@, u32_value(r.autonomous_system_number)),
            ("autonomous_system_organization"@, text_value(r.autonomous_system_organization)),
            ("isp"@, text_value(r.isp)),
            ("mobile_country_code"@, text_value(r.mobile_country_code)),
            ("mobile_network_code"@, text_value(r.mobile_network_code)),
            ("organization"@, text_value(r.organization)),
        ],
    )
}

/// An ISP record as a map.
pub fn isp_record(record: IspRecord) -> (r: Value)
    ensures
        r@ == isp_record_value(record),
{
    let ghost rec = record;
    let IspRecord {
        autonomous_system_number,
        autonomous_system_organization,
        isp,
        mobile_country_code,
        mobile_network_code,
        organization,
    } = record;
    let fields = vec![
        ("autonomous_system_number", uint32(autonomous_system_number)),
        ("autonomous_system_organization", string(autonomous_system_organization)),
        ("isp", string(isp)),
        ("mobile_country_code", string(mobile_country_code)),
        ("mobile_network_code", string(mobile_network_code)),
        ("organization", string(organization)),
    ];
    let r = map(fields);
    assert(labelled(fields@) =~= isp_record_value(rec)->Mapping_0);
    r
}

/// The value of a Connection Type record.
pub open spec fn connection_type_record_value(r: ConnectionTypeRecord) -> ValueModel {
    ValueModel::Mapping(seq![("connection_type"@, text_value(r.connection_type))])
}

/// A Connection Type record as a map.
pub fn connection_type_record(record: ConnectionTypeRecord) -> (r: Value)
    ensures
        r@ == connection_type_record_value(record),
{
    let ghost rec = record;
    let ConnectionTypeRecord { connection_type } = record;
    let fields = vec![("connection_type", string(connection_type))];
    let r = map(fields);
    assert(labelled(fields@) =~= connection_type_record_value(rec)->Mapping_0);
    r
}

/// The value of an Anonymous IP record.
pub open spec fn anonymous_ip_record_value(r: AnonymousIpRecord) -> ValueModel {
    ValueModel::Mapping(
        seq![
            ("is_anonymous"@, flag_value(r.is_anonymous)),
            ("is_anonymous_vpn"@, flag_value(r.is_anonymous_vpn)),
            ("is_hosting_provider"@, flag_value(r.is_hosting_provider)),
            ("is_public_proxy"@, flag_value(r.is_public_proxy)),
            ("is_residential_proxy"@, flag_value(r.is_residential_proxy)),
            ("is_tor_exit_node"@, flag_value(r.is_tor_exit_node)),
        ],
    )
}

/// An Anonymous IP record as a map.
pub fn anonymous_ip_record(record: AnonymousIpRecord) -> (r: Value)
    ensures
        r@ == anonymous_ip_record_value(record),
{
    let ghost rec = record;
    let AnonymousIpRecord {
        is_anonymous,
        is_anonymous_vpn,
        is_hosting_provider,
        is_public_proxy,
        is_residential_proxy,
        is_tor_exit_node,
    } = record;
    let fields = vec![
        ("is_anonymous", boolean(is_anonymous)),
        ("is_anonymous_vpn", boolean(is_anonymous_vpn)),
        ("is_hosting_provider", boolean(is_hosting_provider)),
        ("is_public_proxy", boolean(is_public_proxy)),
        ("is_residential_proxy", boolean(is_residential_proxy)),
        ("is_tor_exit_node", boolean(is_tor_exit_node)),
    ];
    let r = map(fields);
    assert(labelled(fields@) =~= anonymous_ip_record_value(rec)->Mapping_0);
    r
}

/// The value of a Density/Income record.
pub open spec fn density_income_record_value(r: DensityIncomeRecord) -> ValueModel {
    ValueModel::Mapping(
        seq![
            ("average_income"@, u32_value(r.average_income)),
            ("population_density"@, u32_value(r.population_density)),
        ],
    )
}

/// A Density/Income record as a map.
pub fn density_income_record(record: DensityIncomeRecord) -> (r: Value)
    ensures
        r@ == density_income_record_value(record),
{
    let ghost rec = record;
    let DensityIncomeRecord { average_income, population_density } = record;
    let fields = vec![
        ("average_income", uint32(average_income)),
        ("population_density", uint32(population_density)),
    ];
    let r = map(fields);
    assert(labelled(fields@) =~= density_income_record_value(rec)->Mapping_0);
    r
}

/// The value of a Domain record.
pub open spec fn domain_record_value(r: DomainRecord) -> ValueModel {
    ValueModel::Mapping(seq![("domain"@, text_value(r.domain))])
}

/// A Domain record as a map.
pub fn domain_record(record: DomainRecord) -> (r: Value)
    ensures
        r@ == domain_record_value(record),
{
    let ghost rec = record;
    let DomainRecord { domain } = record;
    let fields = vec![("domain", string(domain))];
    let r = map(fields);
    assert(labelled(fields@) =~= domain_record_value(rec)->Mapping_0);
    r
}

/// The value of an ASN record.
pub open spec fn asn_record_value(r: AsnRecord) -> ValueModel {
    ValueModel::Mapping(
        seq![
            ("autonomous_system_number"@, u32_value(r.autonomous_system_number)),
            ("autonomous_system_organization"@, text_value(r.autonomous_system_organization)),
        ],
    )
}

/// An ASN record as a map.
pub fn asn_record(record: AsnRecord) -> (r: Value)
    ensures
        r@ == asn_record_value(record),
{
    let ghost rec = record;
    let AsnRecord { autonomous_system_number, autonomous_system_organization } = record;
    let fields = vec![
        ("autonomous_system_number", uint32(autonomous_system_number)),
        ("autonomous_system_organization", string(autonomous_system_organization)),
    ];
    let r = map(fields);
    assert(labelled(fields@) =~= asn_record_value(rec)->Mapping_0);
    r
}

/// Optional leaves already have the shape of their dtypes.
proof fn lemma_leaves_conform()
    ensures
        forall|o: Option<String>|
            project_model(#[trigger] text_value(o), Dtype::String) == Ok::<
                ValueModel,
                ValueErrorModel,
            >(text_value(o)),
        forall|o: Option<bool>|
            project_model(#[trigger] flag_value(o), Dtype::Boolean) == Ok::<
                ValueModel,
                ValueErrorModel,
            >(flag_value(o)),
        forall|o: Option<u8>|
            project_model(#[trigger] u8_value(o), Dtype::UInt8) == Ok::<
                ValueModel,
                ValueErrorModel,
            >(u8_value(o)),
        forall|o: Option<u16>|
            project_model(#[trigger] u16_value(o), Dtype::UInt16) == Ok::<
                ValueModel,
                ValueErrorModel,
            >(u16_value(o)),
        forall|o: Option<u32>|
            project_model(#[trigger] u32_value(o), Dtype::UInt32) == Ok::<
                ValueModel,
                ValueErrorModel,
            >(u32_value(o)),
        forall|o: Option<u64>|
            project_model(#[trigger] f64_value(o), Dtype::Float64) == Ok::<
                ValueModel,
                ValueErrorModel,
            >(f64_value(o)),
{
}

proof fn lemma_names_conform(n: Names)
    ensures
        project_model(names_value(n), names_model()) == Ok::<ValueModel, ValueErrorModel>(
            names_value(n),
        ),
{
    lemma_leaves_conform();
    reveal_strlit("de");
    assert("de"@.len() == 2 && "de"@[0] == 'd' && "de"@[1] == 'e');
    reveal_strlit("en");
    assert("en"@.len() == 2 && "en"@[0] == 'e' && "en"@[1] == 'n');
    reveal_strlit("es");
    assert("es"@.len() == 2 && "es"@[0] == 'e' && "es"@[1] == 's');
    reveal_strlit("fr");
    assert("fr"@.len() == 2 && "fr"@[0] == 'f' && "fr"@[1] == 'r');
    reveal_strlit("ja");
    assert("ja"@.len() == 2 && "ja"@[0] == 'j' && "ja"@[1] == 'a');
    reveal_strlit("pt-BR");
    assert("pt-BR"@.len() == 5 && "pt-BR"@[0] == 'p' && "pt-BR"@[1] == 't' && "pt-BR"@[2] == '-' && "pt-BR"@[3] == 'B' && "pt-BR"@[4] == 'R');
    reveal_strlit("ru");
    assert("ru"@.len() == 2 && "ru"@[0] == 'r' && "ru"@[1] == 'u');
    reveal_strlit("zh-CN");
    assert("zh-CN"@.len() == 5 && "zh-CN"@[0] == 'z' && "zh-CN"@[1] == 'h' && "zh-CN"@[2] == '-' && "zh-CN"@[3] == 'C' && "zh-CN"@[4] == 'N');
    let entries = names_value(n)->Mapping_0;
    assert(distinct_entry_keys(entries));
    lemma_project_exact(entries, names_model()->Struct_0);
}

proof fn lemma_continent_conform(c: Continent)
    ensures
        project_model(continent_value(c), continent_model()) == Ok::<ValueModel, ValueErrorModel>(
            continent_value(c),
        ),
{
    lemma_leaves_conform();
    lemma_names_conform(c.names);
    reveal_strlit("code");
    assert("code"@.len() == 4 && "code"@[0] == 'c' && "code"@[1] == 'o' && "code"@[2] == 'd' && "code"@[3] == 'e');
    reveal_strlit("geoname_id");
    assert("geoname_id"@.len() == 10 && "geoname_id"@[0] == 'g' && "geoname_id"@[1] == 'e' && "geoname_id"@[2] == 'o' && "geoname_id"@[3] == 'n' && "geoname_id"@[4] == 'a' && "geoname_id"@[5] == 'm' && "geoname_id"@[6] == 'e' && "geoname_id"@[7] == '_');
    reveal_strlit("names");
    assert("names"@.len() == 5 && "names"@[0] == 'n' && "names"@[1] == 'a' && "names"@[2] == 'm' && "names"@[3] == 'e' && "names"@[4] == 's');
    let entries = continent_value(c)->Mapping_0;
    assert(distinct_entry_keys(entries));
    lemma_project_exact(entries, continent_model()->Struct_0);
}

proof fn lemma_country_conform(c: Country)
    ensures
        project_model(country_value(c), country_model()) == Ok::<ValueModel, ValueErrorModel>(
            country_value(c),
        ),
{
    lemma_leaves_conform();
    lemma_names_conform(c.names);
    reveal_strlit("geoname_id");
    assert("geoname_id"@.len() == 10 && "geoname_id"@[0] == 'g' && "geoname_id"@[1] == 'e' && "geoname_id"@[2] == 'o' && "geoname_id"@[3] == 'n' && "geoname_id"@[4] == 'a' && "geoname_id"@[5] == 'm' && "geoname_id"@[6] == 'e' && "geoname_id"@[7] == '_');
    reveal_strlit("is_in_european_union");
    assert("is_in_european_union"@.len() == 20 && "is_in_european_union"@[0] == 'i' && "is_in_european_union"@[1] == 's' && "is_in_european_union"@[2] == '_' && "is_in_european_union"@[3] == 'i' && "is_in_european_union"@[4] == 'n' && "is_in_european_union"@[5] == '_' && "is_in_european_union"@[6] == 'e' && "is_in_european_union"@[7] == 'u');
    reveal_strlit("iso_code");
    assert("iso_code"@.len() == 8 && "iso_code"@[0] == 'i' && "iso_code"@[1] == 's' && "iso_code"@[2] == 'o' && "iso_code"@[3] == '_' && "iso_code"@[4] == 'c' && "iso_code"@[5] == 'o' && "iso_code"@[6] == 'd' && "iso_code"@[7] == 'e');
    reveal_strlit("names");
    assert("names"@.len() == 5 && "names"@[0] == 'n' && "names"@[1] == 'a' && "names"@[2] == 'm' && "names"@[3] == 'e' && "names"@[4] == 's');
    let entries = country_value(c)->Mapping_0;
    assert(distinct_entry_keys(entries));
    lemma_project_exact(entries, country_model()->Struct_0);
}

proof fn lemma_represented_country_conform(c: RepresentedCountry)
    ensures
        project_model(represented_country_value(c), represented_country_model()) == Ok::<
            ValueModel,
            ValueErrorModel,
        >(represented_country_value(c)),
{
    lemma_leaves_conform();
    lemma_names_conform(c.names);
    reveal_strlit("geoname_id");
    assert("geoname_id"@.len() == 10 && "geoname_id"@[0] == 'g' && "geoname_id"@[1] == 'e' && "geoname_id"@[2] == 'o' && "geoname_id"@[3] == 'n' && "geoname_id"@[4] == 'a' && "geoname_id"@[5] == 'm' && "geoname_id"@[6] == 'e' && "geoname_id"@[7] == '_');
    reveal_strlit("is_in_european_union");
    assert("is_in_european_union"@.len() == 20 && "is_in_european_union"@[0] == 'i' && "is_in_european_union"@[1] == 's' && "is_in_european_union"@[2] == '_' && "is_in_european_union"@[3] == 'i' && "is_in_european_union"@[4] == 'n' && "is_in_european_union"@[5] == '_' && "is_in_european_union"@[6] == 'e' && "is_in_european_union"@[7] == 'u');
    reveal_strlit("iso_code");
    assert("iso_code"@.len() == 8 && "iso_code"@[0] == 'i' && "iso_code"@[1] == 's' && "iso_code"@[2] == 'o' && "iso_code"@[3] == '_' && "iso_code"@[4] == 'c' && "iso_code"@[5] == 'o' && "iso_code"@[6] == 'd' && "iso_code"@[7] == 'e');
    reveal_strlit("names");
    assert("names"@.len() == 5 && "names"@[0] == 'n' && "names"@[1] == 'a' && "names"@[2] == 'm' && "names"@[3] == 'e' && "names"@[4] == 's');
    reveal_strlit("type");
    assert("type"@.len() == 4 && "type"@[0] == 't' && "type"@[1] == 'y' && "type"@[2] == 'p' && "type"@[3] == 'e');
    let entries = represented_country_value(c)->Mapping_0;
    assert(distinct_entry_keys(entries));
    lemma_project_exact(entries, represented_country_model()->Struct_0);
}

proof fn lemma_subdivisions_conform(subs: Seq<Subdivision>)
    ensures
        project_model(subdivisions_value(subs), Dtype::List(Box::new(subdivision_model()))) == Ok::<
            ValueModel,
            ValueErrorModel,
        >(subdivisions_value(subs)),
{
    lemma_leaves_conform();
    reveal_strlit("geoname_id");
    assert("geoname_id"@.len() == 10 && "geoname_id"@[0] == 'g' && "geoname_id"@[1] == 'e' && "geoname_id"@[2] == 'o' && "geoname_id"@[3] == 'n' && "geoname_id"@[4] == 'a' && "geoname_id"@[5] == 'm' && "geoname_id"@[6] == 'e' && "geoname_id"@[7] == '_');
    reveal_strlit("iso_code");
    assert("iso_code"@.len() == 8 && "iso_code"@[0] == 'i' && "iso_code"@[1] == 's' && "iso_code"@[2] == 'o' && "iso_code"@[3] == '_' && "iso_code"@[4] == 'c' && "iso_code"@[5] == 'o' && "iso_code"@[6] == 'd' && "iso_code"@[7] == 'e');
    reveal_strlit("names");
    assert("names"@.len() == 5 && "names"@[0] == 'n' && "names"@[1] == 'a' && "names"@[2] == 'm' && "names"@[3] == 'e' && "names"@[4] == 's');
    let items = subdivisions_value(subs)->List_0;
    assert forall|i: int| 0 <= i < items.len() implies project_model(#[trigger] items[i], subdivision_model())
        == Ok::<ValueModel, ValueErrorModel>(items[i]) by {
        let s = subs[i];
        lemma_names_conform(s.names);
        let entries = subdivision_value(s)->Mapping_0;
        assert(distinct_entry_keys(entries));
        lemma_project_exact(entries, subdivision_model()->Struct_0);
    }
    lemma_project_items_exact(items, subdivision_model());
}

/// The typed conversion of a City record has exactly the shape of the City
/// schema: projecting it onto that schema keeps it whole, and it builds a
/// one-row column of that schema whose row is present.
pub proof fn law_city_record_has_city_schema(record: CityRecord)
    ensures
        project_model(city_record_value(record), city_model()) == Ok::<ValueModel, ValueErrorModel>(
            city_record_value(record),
        ),
        fits_record_schema(KnownRecord::City, city_record_value(record)),
{
    lemma_leaves_conform();
    reveal_strlit("geoname_id");
    assert("geoname_id"@.len() == 10 && "geoname_id"@[0] == 'g' && "geoname_id"@[1] == 'e' && "geoname_id"@[2] == 'o' && "geoname_id"@[3] == 'n' && "geoname_id"@[4] == 'a' && "geoname_id"@[5] == 'm' && "geoname_id"@[6] == 'e' && "geoname_id"@[7] == '_');
    reveal_strlit("names");
    assert("names"@.len() == 5 && "names"@[0] == 'n' && "names"@[1] == 'a' && "names"@[2] == 'm' && "names"@[3] == 'e' && "names"@[4] == 's');
    reveal_strlit("accuracy_radius");
    assert("accuracy_radius"@.len() == 15 && "accuracy_radius"@[0] == 'a' && "accuracy_radius"@[1] == 'c' && "accuracy_radius"@[2] == 'c' && "accuracy_radius"@[3] == 'u' && "accuracy_radius"@[4] == 'r' && "accuracy_radius"@[5] == 'a' && "accuracy_radius"@[6] == 'c' && "accuracy_radius"@[7] == 'y');
    reveal_strlit("latitude");
    assert("latitude"@.len() == 8 && "latitude"@[0] == 'l' && "latitude"@[1] == 'a' && "latitude"@[2] == 't' && "latitude"@[3] == 'i' && "latitude"@[4] == 't' && "latitude"@[5] == 'u' && "latitude"@[6] == 'd' && "latitude"@[7] == 'e');
    reveal_strlit("longitude");
    assert("longitude"@.len() == 9 && "longitude"@[0] == 'l' && "longitude"@[1] == 'o' && "longitude"@[2] == 'n' && "longitude"@[3] == 'g' && "longitude"@[4] == 'i' && "longitude"@[5] == 't' && "longitude"@[6] == 'u' && "longitude"@[7] == 'd');
    reveal_strlit("metro_code");
    assert("metro_code"@.len() == 10 && "metro_code"@[0] == 'm' && "metro_code"@[1] == 'e' && "metro_code"@[2] == 't' && "metro_code"@[3] == 'r' && "metro_code"@[4] == 'o' && "metro_code"@[5] == '_' && "metro_code"@[6] == 'c' && "metro_code"@[7] == 'o');
    reveal_strlit("time_zone");
    assert("time_zone"@.len() == 9 && "time_zone"@[0] == 't' && "time_zone"@[1] == 'i' && "time_zone"@[2] == 'm' && "time_zone"@[3] == 'e' && "time_zone"@[4] == '_' && "time_zone"@[5] == 'z' && "time_zone"@[6] == 'o' && "time_zone"@[7] == 'n');
    reveal_strlit("code");
    assert("code"@.len() == 4 && "code"@[0] == 'c' && "code"@[1] == 'o' && "code"@[2] == 'd' && "code"@[3] == 'e');
    reveal_strlit("is_anycast");
    assert("is_anycast"@.len() == 10 && "is_anycast"@[0] == 'i' && "is_anycast"@[1] == 's' && "is_anycast"@[2] == '_' && "is_anycast"@[3] == 'a' && "is_anycast"@[4] == 'n' && "is_anycast"@[5] == 'y' && "is_anycast"@[6] == 'c' && "is_anycast"@[7] == 'a');
    reveal_strlit("city");
    assert("city"@.len() == 4 && "city"@[0] == 'c' && "city"@[1] == 'i' && "city"@[2] == 't' && "city"@[3] == 'y');
    reveal_strlit("continent");
    assert("continent"@.len() == 9 && "continent"@[0] == 'c' && "continent"@[1] == 'o' && "continent"@[2] == 'n' && "continent"@[3] == 't' && "continent"@[4] == 'i' && "continent"@[5] == 'n' && "continent"@[6] == 'e' && "continent"@[7] == 'n');
    reveal_strlit("country");
    assert("country"@.len() == 7 && "country"@[0] == 'c' && "country"@[1] == 'o' && "country"@[2] == 'u' && "country"@[3] == 'n' && "country"@[4] == 't' && "country"@[5] == 'r' && "country"@[6] == 'y');
    reveal_strlit("location");
    assert("location"@.len() == 8 && "location"@[0] == 'l' && "location"@[1] == 'o' && "location"@[2] == 'c' && "location"@[3] == 'a' && "location"@[4] == 't' && "location"@[5] == 'i' && "location"@[6] == 'o' && "location"@[7] == 'n');
    reveal_strlit("postal");
    assert("postal"@.len() == 6 && "postal"@[0] == 'p' && "postal"@[1] == 'o' && "postal"@[2] == 's' && "postal"@[3] == 't' && "postal"@[4] == 'a' && "postal"@[5] == 'l');
    reveal_strlit("registered_country");
    assert("registered_country"@.len() == 18 && "registered_country"@[0] == 'r' && "registered_country"@[1] == 'e' && "registered_country"@[2] == 'g' && "registered_country"@[3] == 'i' && "registered_country"@[4] == 's' && "registered_country"@[5] == 't' && "registered_country"@[6] == 'e' && "registered_country"@[7] == 'r');
    reveal_strlit("represented_country");
    assert("represented_country"@.len() == 19 && "represented_country"@[0] == 'r' && "represented_country"@[1] == 'e' && "represented_country"@[2] == 'p' && "represented_country"@[3] == 'r' && "represented_country"@[4] == 'e' && "represented_country"@[5] == 's' && "represented_country"@[6] == 'e' && "represented_country"@[7] == 'n');
    reveal_strlit("subdivisions");
    assert("subdivisions"@.len() == 12 && "subdivisions"@[0] == 's' && "subdivisions"@[1] == 'u' && "subdivisions"@[2] == 'b' && "subdivisions"@[3] == 'd' && "subdivisions"@[4] == 'i' && "subdivisions"@[5] == 'v' && "subdivisions"@[6] == 'i' && "subdivisions"@[7] == 's');
    reveal_strlit("traits");
    assert("traits"@.len() == 6 && "traits"@[0] == 't' && "traits"@[1] == 'r' && "traits"@[2] == 'a' && "traits"@[3] == 'i' && "traits"@[4] == 't' && "traits"@[5] == 's');
    let city_fields = city_model()->Struct_0;
    let c = record.city;
    lemma_names_conform(c.names);
    let city_entries = city_value(c)->Mapping_0;
    assert(distinct_entry_keys(city_entries));
    lemma_project_exact(city_entries, city_fields[0].dtype->Struct_0);
    lemma_continent_conform(record.continent);
    lemma_country_conform(record.country);
    lemma_country_conform(record.registered_country);
    lemma_represented_country_conform(record.represented_country);
    let location_entries = location_value(record.location)->Mapping_0;
    assert(distinct_entry_keys(location_entries));
    lemma_project_exact(location_entries, city_fields[3].dtype->Struct_0);
    let postal_entries = postal_value(record.postal)->Mapping_0;
    lemma_project_exact(postal_entries, city_fields[4].dtype->Struct_0);
    lemma_subdivisions_conform(record.subdivisions@);
    let traits_entries = traits_value(record.traits)->Mapping_0;
    lemma_project_exact(traits_entries, city_fields[8].dtype->Struct_0);
    let entries = city_record_value(record)->Mapping_0;
    assert(distinct_entry_keys(entries));
    lemma_project_exact(entries, city_fields);
    law_typed_record_builds_a_present_row(KnownRecord::City, city_record_value(record));
}

/// The typed conversion of an ASN record has exactly the shape of the ASN
/// schema: projecting it onto that schema keeps it whole, and it builds a
/// one-row column of that schema whose row is present.
pub proof fn law_asn_record_has_asn_schema(record: AsnRecord)
    ensures
        project_model(asn_record_value(record), asn_model()) == Ok::<ValueModel, ValueErrorModel>(
            asn_record_value(record),
        ),
        fits_record_schema(KnownRecord::Asn, asn_record_value(record)),
{
    lemma_leaves_conform();
    reveal_strlit("autonomous_system_number");
    assert("autonomous_system_number"@.len() == 24 && "autonomous_system_number"@[0] == 'a' && "autonomous_system_number"@[1] == 'u' && "autonomous_system_number"@[2] == 't' && "autonomous_system_number"@[3] == 'o' && "autonomous_system_number"@[4] == 'n' && "autonomous_system_number"@[5] == 'o' && "autonomous_system_number"@[6] == 'm' && "autonomous_system_number"@[7] == 'o');
    reveal_strlit("autonomous_system_organization");
    assert("autonomous_system_organization"@.len() == 30 && "autonomous_system_organization"@[0] == 'a' && "autonomous_system_organization"@[1] == 'u' && "autonomous_system_organization"@[2] == 't' && "autonomous_system_organization"@[3] == 'o' && "autonomous_system_organization"@[4] == 'n' && "autonomous_system_organization"@[5] == 'o' && "autonomous_system_organization"@[6] == 'm' && "autonomous_system_organization"@[7] == 'o');
    let entries = asn_record_value(record)->Mapping_0;
    assert(distinct_entry_keys(entries));
    lemma_project_exact(entries, asn_model()->Struct_0);
    law_typed_record_builds_a_present_row(KnownRecord::Asn, asn_record_value(record));
}

proof fn lemma_traits_conform(t: Traits)
    ensures
        project_model(traits_value(t), traits_model()) == Ok::<ValueModel, ValueErrorModel>(
            traits_value(t),
        ),
{
    lemma_leaves_conform();
    reveal_strlit("is_anycast");
    assert("is_anycast"@.len() == 10 && "is_anycast"@[0] == 'i' && "is_anycast"@[1] == 's' && "is_anycast"@[2] == '_' && "is_anycast"@[3] == 'a' && "is_anycast"@[4] == 'n' && "is_anycast"@[5] == 'y' && "is_anycast"@[6] == 'c' && "is_anycast"@[7] == 'a');
    lemma_project_exact(traits_value(t)->Mapping_0, traits_model()->Struct_0);
}

proof fn lemma_location_conform(l: Location)
    ensures
        project_model(location_value(l), location_model()) == Ok::<ValueModel, ValueErrorModel>(
            location_value(l),
        ),
{
    lemma_leaves_conform();
    reveal_strlit("accuracy_radius");
    assert("accuracy_radius"@.len() == 15 && "accuracy_radius"@[0] == 'a' && "accuracy_radius"@[1] == 'c' && "accuracy_radius"@[2] == 'c' && "accuracy_radius"@[3] == 'u' && "accuracy_radius"@[4] == 'r' && "accuracy_radius"@[5] == 'a' && "accuracy_radius"@[6] == 'c' && "accuracy_radius"@[7] == 'y');
    reveal_strlit("latitude");
    assert("latitude"@.len() == 8 && "latitude"@[0] == 'l' && "latitude"@[1] == 'a' && "latitude"@[2] == 't' && "latitude"@[3] == 'i' && "latitude"@[4] == 't' && "latitude"@[5] == 'u' && "latitude"@[6] == 'd' && "latitude"@[7] == 'e');
    reveal_strlit("longitude");
    assert("longitude"@.len() == 9 && "longitude"@[0] == 'l' && "longitude"@[1] == 'o' && "longitude"@[2] == 'n' && "longitude"@[3] == 'g' && "longitude"@[4] == 'i' && "longitude"@[5] == 't' && "longitude"@[6] == 'u' && "longitude"@[7] == 'd');
    reveal_strlit("metro_code");
    assert("metro_code"@.len() == 10 && "metro_code"@[0] == 'm' && "metro_code"@[1] == 'e' && "metro_code"@[2] == 't' && "metro_code"@[3] == 'r' && "metro_code"@[4] == 'o' && "metro_code"@[5] == '_' && "metro_code"@[6] == 'c' && "metro_code"@[7] == 'o');
    reveal_strlit("time_zone");
    assert("time_zone"@.len() == 9 && "time_zone"@[0] == 't' && "time_zone"@[1] == 'i' && "time_zone"@[2] == 'm' && "time_zone"@[3] == 'e' && "time_zone"@[4] == '_' && "time_zone"@[5] == 'z' && "time_zone"@[6] == 'o' && "time_zone"@[7] == 'n');
    let entries = location_value(l)->Mapping_0;
    assert(distinct_entry_keys(entries));
    lemma_project_exact(entries, location_model()->Struct_0);
}

/// The typed conversion of a Country record has exactly the shape of the
/// Country schema: projecting it onto that schema keeps it whole, and it builds a
/// one-row column of that schema whose row is present.
pub proof fn law_country_record_has_country_schema(record: CountryRecord)
    ensures
        project_model(country_record_value(record), country_record_model()) == Ok::<
            ValueModel,
            ValueErrorModel,
        >(country_record_value(record)),
        fits_record_schema(KnownRecord::Country, country_record_value(record)),
{
    lemma_continent_conform(record.continent);
    lemma_country_conform(record.country);
    lemma_country_conform(record.registered_country);
    lemma_represented_country_conform(record.represented_country);
    lemma_traits_conform(record.traits);
    reveal_strlit("continent");
    assert("continent"@.len() == 9 && "continent"@[0] == 'c' && "continent"@[1] == 'o' && "continent"@[2] == 'n' && "continent"@[3] == 't' && "continent"@[4] == 'i' && "continent"@[5] == 'n' && "continent"@[6] == 'e' && "continent"@[7] == 'n');
    reveal_strlit("country");
    assert("country"@.len() == 7 && "country"@[0] == 'c' && "country"@[1] == 'o' && "country"@[2] == 'u' && "country"@[3] == 'n' && "country"@[4] == 't' && "country"@[5] == 'r' && "country"@[6] == 'y');
    reveal_strlit("registered_country");
    assert("registered_country"@.len() == 18 && "registered_country"@[0] == 'r' && "registered_country"@[1] == 'e' && "registered_country"@[2] == 'g' && "registered_country"@[3] == 'i' && "registered_country"@[4] == 's' && "registered_country"@[5] == 't' && "registered_country"@[6] == 'e' && "registered_country"@[7] == 'r');
    reveal_strlit("represented_country");
    assert("represented_country"@.len() == 19 && "represented_country"@[0] == 'r' && "represented_country"@[1] == 'e' && "represented_country"@[2] == 'p' && "represented_country"@[3] == 'r' && "represented_country"@[4] == 'e' && "represented_country"@[5] == 's' && "represented_country"@[6] == 'e' && "represented_country"@[7] == 'n');
    reveal_strlit("traits");
    assert("traits"@.len() == 6 && "traits"@[0] == 't' && "traits"@[1] == 'r' && "traits"@[2] == 'a' && "traits"@[3] == 'i' && "traits"@[4] == 't' && "traits"@[5] == 's');
    let entries = country_record_value(record)->Mapping_0;
    assert(distinct_entry_keys(entries));
    lemma_project_exact(entries, country_record_model()->Struct_0);
    law_typed_record_builds_a_present_row(KnownRecord::Country, country_record_value(record));
}

proof fn lemma_enterprise_country_conform(c: EnterpriseCountry)
    ensures
        project_model(enterprise_country_value(c), enterprise_country_model()) == Ok::<
            ValueModel,
            ValueErrorModel,
        >(enterprise_country_value(c)),
{
    lemma_leaves_conform();
    lemma_names_conform(c.names);
    reveal_strlit("confidence");
    assert("confidence"@.len() == 10 && "confidence"@[0] == 'c' && "confidence"@[1] == 'o' && "confidence"@[2] == 'n' && "confidence"@[3] == 'f' && "confidence"@[4] == 'i' && "confidence"@[5] == 'd' && "confidence"@[6] == 'e' && "confidence"@[7] == 'n');
    reveal_strlit("geoname_id");
    assert("geoname_id"@.len() == 10 && "geoname_id"@[0] == 'g' && "geoname_id"@[1] == 'e' && "geoname_id"@[2] == 'o' && "geoname_id"@[3] == 'n' && "geoname_id"@[4] == 'a' && "geoname_id"@[5] == 'm' && "geoname_id"@[6] == 'e' && "geoname_id"@[7] == '_');
    reveal_strlit("is_in_european_union");
    assert("is_in_european_union"@.len() == 20 && "is_in_european_union"@[0] == 'i' && "is_in_european_union"@[1] == 's' && "is_in_european_union"@[2] == '_' && "is_in_european_union"@[3] == 'i' && "is_in_european_union"@[4] == 'n' && "is_in_european_union"@[5] == '_' && "is_in_european_union"@[6] == 'e' && "is_in_european_union"@[7] == 'u');
    reveal_strlit("iso_code");
    assert("iso_code"@.len() == 8 && "iso_code"@[0] == 'i' && "iso_code"@[1] == 's' && "iso_code"@[2] == 'o' && "iso_code"@[3] == '_' && "iso_code"@[4] == 'c' && "iso_code"@[5] == 'o' && "iso_code"@[6] == 'd' && "iso_code"@[7] == 'e');
    reveal_strlit("names");
    assert("names"@.len() == 5 && "names"@[0] == 'n' && "names"@[1] == 'a' && "names"@[2] == 'm' && "names"@[3] == 'e' && "names"@[4] == 's');
    let entries = enterprise_country_value(c)->Mapping_0;
    assert(distinct_entry_keys(entries));
    lemma_project_exact(entries, enterprise_country_model()->Struct_0);
}

proof fn lemma_enterprise_subdivisions_conform(subs: Seq<EnterpriseSubdivision>)
    ensures
        project_model(
            enterprise_subdivisions_value(subs),
            Dtype::List(Box::new(enterprise_subdivision_model())),
        ) == Ok::<ValueModel, ValueErrorModel>(enterprise_subdivisions_value(subs)),
{
    lemma_leaves_conform();
    reveal_strlit("confidence");
    assert("confidence"@.len() == 10 && "confidence"@[0] == 'c' && "confidence"@[1] == 'o' && "confidence"@[2] == 'n' && "confidence"@[3] == 'f' && "confidence"@[4] == 'i' && "confidence"@[5] == 'd' && "confidence"@[6] == 'e' && "confidence"@[7] == 'n');
    reveal_strlit("geoname_id");
    assert("geoname_id"@.len() == 10 && "geoname_id"@[0] == 'g' && "geoname_id"@[1] == 'e' && "geoname_id"@[2] == 'o' && "geoname_id"@[3] == 'n' && "geoname_id"@[4] == 'a' && "geoname_id"@[5] == 'm' && "geoname_id"@[6] == 'e' && "geoname_id"@[7] == '_');
    reveal_strlit("iso_code");
    assert("iso_code"@.len() == 8 && "iso_code"@[0] == 'i' && "iso_code"@[1] == 's' && "iso_code"@[2] == 'o' && "iso_code"@[3] == '_' && "iso_code"@[4] == 'c' && "iso_code"@[5] == 'o' && "iso_code"@[6] == 'd' && "iso_code"@[7] == 'e');
    reveal_strlit("names");
    assert("names"@.len() == 5 && "names"@[0] == 'n' && "names"@[1] == 'a' && "names"@[2] == 'm' && "names"@[3] == 'e' && "names"@[4] == 's');
    let items = enterprise_subdivisions_value(subs)->List_0;
    assert forall|i: int| 0 <= i < items.len() implies project_model(
        #[trigger] items[i],
        enterprise_subdivision_model(),
    ) == Ok::<ValueModel, ValueErrorModel>(items[i]) by {
        let s = subs[i];
        lemma_names_conform(s.names);
        let entries = enterprise_subdivision_value(s)->Mapping_0;
        assert(distinct_entry_keys(entries));
        lemma_project_exact(entries, enterprise_subdivision_model()->Struct_0);
    }
    lemma_project_items_exact(items, enterprise_subdivision_model());
}

proof fn lemma_enterprise_traits_conform(t: EnterpriseTraits)
    ensures
        project_model(enterprise_traits_value(t), enterprise_traits_model()) == Ok::<
            ValueModel,
            ValueErrorModel,
        >(enterprise_traits_value(t)),
{
    lemma_leaves_conform();
    reveal_strlit("autonomous_system_number");
    assert("autonomous_system_number"@.len() == 24 && "autonomous_system_number"@[0] == 'a' && "autonomous_system_number"@[1] == 'u' && "autonomous_system_number"@[2] == 't' && "autonomous_system_number"@[3] == 'o' && "autonomous_system_number"@[4] == 'n' && "autonomous_system_number"@[5] == 'o' && "autonomous_system_number"@[6] == 'm' && "autonomous_system_number"@[7] == 'o');
    reveal_strlit("autonomous_system_organization");
    assert("autonomous_system_organization"@.len() == 30 && "autonomous_system_organization"@[0] == 'a' && "autonomous_system_organization"@[1] == 'u' && "autonomous_system_organization"@[2] == 't' && "autonomous_system_organization"@[3] == 'o' && "autonomous_system_organization"@[4] == 'n' && "autonomous_system_organization"@[5] == 'o' && "autonomous_system_organization"@[6] == 'm' && "autonomous_system_organization"@[7] == 'o');
    reveal_strlit("connection_type");
    assert("connection_type"@.len() == 15 && "connection_type"@[0] == 'c' && "connection_type"@[1] == 'o' && "connection_type"@[2] == 'n' && "connection_type"@[3] == 'n' && "connection_type"@[4] == 'e' && "connection_type"@[5] == 'c' && "connection_type"@[6] == 't' && "connection_type"@[7] == 'i');
    reveal_strlit("domain");
    assert("domain"@.len() == 6 && "domain"@[0] == 'd' && "domain"@[1] == 'o' && "domain"@[2] == 'm' && "domain"@[3] == 'a' && "domain"@[4] == 'i' && "domain"@[5] == 'n');
    reveal_strlit("is_anonymous");
    assert("is_anonymous"@.len() == 12 && "is_anonymous"@[0] == 'i' && "is_anonymous"@[1] == 's' && "is_anonymous"@[2] == '_' && "is_anonymous"@[3] == 'a' && "is_anonymous"@[4] == 'n' && "is_anonymous"@[5] == 'o' && "is_anonymous"@[6] == 'n' && "is_anonymous"@[7] == 'y');
    reveal_strlit("is_anonymous_vpn");
    assert("is_anonymous_vpn"@.len() == 16 && "is_anonymous_vpn"@[0] == 'i' && "is_anonymous_vpn"@[1] == 's' && "is_anonymous_vpn"@[2] == '_' && "is_anonymous_vpn"@[3] == 'a' && "is_anonymous_vpn"@[4] == 'n' && "is_anonymous_vpn"@[5] == 'o' && "is_anonymous_vpn"@[6] == 'n' && "is_anonymous_vpn"@[7] == 'y');
    reveal_strlit("is_anycast");
    assert("is_anycast"@.len() == 10 && "is_anycast"@[0] == 'i' && "is_anycast"@[1] == 's' && "is_anycast"@[2] == '_' && "is_anycast"@[3] == 'a' && "is_anycast"@[4] == 'n' && "is_anycast"@[5] == 'y' && "is_anycast"@[6] == 'c' && "is_anycast"@[7] == 'a');
    reveal_strlit("is_hosting_provider");
    assert("is_hosting_provider"@.len() == 19 && "is_hosting_provider"@[0] == 'i' && "is_hosting_provider"@[1] == 's' && "is_hosting_provider"@[2] == '_' && "is_hosting_provider"@[3] == 'h' && "is_hosting_provider"@[4] == 'o' && "is_hosting_provider"@[5] == 's' && "is_hosting_provider"@[6] == 't' && "is_hosting_provider"@[7] == 'i');
    reveal_strlit("isp");
    assert("isp"@.len() == 3 && "isp"@[0] == 'i' && "isp"@[1] == 's' && "isp"@[2] == 'p');
    reveal_strlit("is_public_proxy");
    assert("is_public_proxy"@.len() == 15 && "is_public_proxy"@[0] == 'i' && "is_public_proxy"@[1] == 's' && "is_public_proxy"@[2] == '_' && "is_public_proxy"@[3] == 'p' && "is_public_proxy"@[4] == 'u' && "is_public_proxy"@[5] == 'b' && "is_public_proxy"@[6] == 'l' && "is_public_proxy"@[7] == 'i');
    reveal_strlit("is_residential_proxy");
    assert("is_residential_proxy"@.len() == 20 && "is_residential_proxy"@[0] == 'i' && "is_residential_proxy"@[1] == 's' && "is_residential_proxy"@[2] == '_' && "is_residential_proxy"@[3] == 'r' && "is_residential_proxy"@[4] == 'e' && "is_residential_proxy"@[5] == 's' && "is_residential_proxy"@[6] == 'i' && "is_residential_proxy"@[7] == 'd');
    reveal_strlit("is_tor_exit_node");
    assert("is_tor_exit_node"@.len() == 16 && "is_tor_exit_node"@[0] == 'i' && "is_tor_exit_node"@[1] == 's' && "is_tor_exit_node"@[2] == '_' && "is_tor_exit_node"@[3] == 't' && "is_tor_exit_node"@[4] == 'o' && "is_tor_exit_node"@[5] == 'r' && "is_tor_exit_node"@[6] == '_' && "is_tor_exit_node"@[7] == 'e');
    reveal_strlit("mobile_country_code");
    assert("mobile_country_code"@.len() == 19 && "mobile_country_code"@[0] == 'm' && "mobile_country_code"@[1] == 'o' && "mobile_country_code"@[2] == 'b' && "mobile_country_code"@[3] == 'i' && "mobile_country_code"@[4] == 'l' && "mobile_country_code"@[5] == 'e' && "mobile_country_code"@[6] == '_' && "mobile_country_code"@[7] == 'c');
    reveal_strlit("mobile_network_code");
    assert("mobile_network_code"@.len() == 19 && "mobile_network_code"@[0] == 'm' && "mobile_network_code"@[1] == 'o' && "mobile_network_code"@[2] == 'b' && "mobile_network_code"@[3] == 'i' && "mobile_network_code"@[4] == 'l' && "mobile_network_code"@[5] == 'e' && "mobile_network_code"@[6] == '_' && "mobile_network_code"@[7] == 'n');
    reveal_strlit("organization");
    assert("organization"@.len() == 12 && "organization"@[0] == 'o' && "organization"@[1] == 'r' && "organization"@[2] == 'g' && "organization"@[3] == 'a' && "organization"@[4] == 'n' && "organization"@[5] == 'i' && "organization"@[6] == 'z' && "organization"@[7] == 'a');
    reveal_strlit("user_type");
    assert("user_type"@.len() == 9 && "user_type"@[0] == 'u' && "user_type"@[1] == 's' && "user_type"@[2] == 'e' && "user_type"@[3] == 'r' && "user_type"@[4] == '_' && "user_type"@[5] == 't' && "user_type"@[6] == 'y' && "user_type"@[7] == 'p');
    let entries = enterprise_traits_value(t)->Mapping_0;
    assert(distinct_entry_keys(entries));
    lemma_project_exact(entries, enterprise_traits_model()->Struct_0);
}

/// The typed conversion of an Enterprise record has exactly the shape of the
/// Enterprise schema: projecting it onto that schema keeps it whole, and it builds a
/// one-row column of that schema whose row is present.
pub proof fn law_enterprise_record_has_enterprise_schema(record: EnterpriseRecord)
    ensures
        project_model(enterprise_record_value(record), enterprise_model()) == Ok::<
            ValueModel,
            ValueErrorModel,
        >(enterprise_record_value(record)),
        fits_record_schema(KnownRecord::Enterprise, enterprise_record_value(record)),
{
    lemma_leaves_conform();
    let fields = enterprise_model()->Struct_0;
    let c = record.city;
    lemma_names_conform(c.names);
    reveal_strlit("confidence");
    assert("confidence"@.len() == 10 && "confidence"@[0] == 'c' && "confidence"@[1] == 'o' && "confidence"@[2] == 'n' && "confidence"@[3] == 'f' && "confidence"@[4] == 'i' && "confidence"@[5] == 'd' && "confidence"@[6] == 'e' && "confidence"@[7] == 'n');
    reveal_strlit("geoname_id");
    assert("geoname_id"@.len() == 10 && "geoname_id"@[0] == 'g' && "geoname_id"@[1] == 'e' && "geoname_id"@[2] == 'o' && "geoname_id"@[3] == 'n' && "geoname_id"@[4] == 'a' && "geoname_id"@[5] == 'm' && "geoname_id"@[6] == 'e' && "geoname_id"@[7] == '_');
    reveal_strlit("names");
    assert("names"@.len() == 5 && "names"@[0] == 'n' && "names"@[1] == 'a' && "names"@[2] == 'm' && "names"@[3] == 'e' && "names"@[4] == 's');
    reveal_strlit("code");
    assert("code"@.len() == 4 && "code"@[0] == 'c' && "code"@[1] == 'o' && "code"@[2] == 'd' && "code"@[3] == 'e');
    let city_entries = enterprise_city_value(c)->Mapping_0;
    assert(distinct_entry_keys(city_entries));
    lemma_project_exact(city_entries, fields[0].dtype->Struct_0);
    lemma_continent_conform(record.continent);
    lemma_enterprise_country_conform(record.country);
    lemma_location_conform(record.location);
    let postal_entries = enterprise_postal_value(record.postal)->Mapping_0;
    assert(distinct_entry_keys(postal_entries));
    lemma_project_exact(postal_entries, fields[4].dtype->Struct_0);
    lemma_enterprise_country_conform(record.registered_country);
    lemma_represented_country_conform(record.represented_country);
    lemma_enterprise_subdivisions_conform(record.subdivisions@);
    lemma_enterprise_traits_conform(record.traits);
    reveal_strlit("city");
    assert("city"@.len() == 4 && "city"@[0] == 'c' && "city"@[1] == 'i' && "city"@[2] == 't' && "city"@[3] == 'y');
    reveal_strlit("continent");
    assert("continent"@.len() == 9 && "continent"@[0] == 'c' && "continent"@[1] == 'o' && "continent"@[2] == 'n' && "continent"@[3] == 't' && "continent"@[4] == 'i' && "continent"@[5] == 'n' && "continent"@[6] == 'e' && "continent"@[7] == 'n');
    reveal_strlit("country");
    assert("country"@.len() == 7 && "country"@[0] == 'c' && "country"@[1] == 'o' && "country"@[2] == 'u' && "country"@[3] == 'n' && "country"@[4] == 't' && "country"@[5] == 'r' && "country"@[6] == 'y');
    reveal_strlit("location");
    assert("location"@.len() == 8 && "location"@[0] == 'l' && "location"@[1] == 'o' && "location"@[2] == 'c' && "location"@[3] == 'a' && "location"@[4] == 't' && "location"@[5] == 'i' && "location"@[6] == 'o' && "location"@[7] == 'n');
    reveal_strlit("postal");
    assert("postal"@.len() == 6 && "postal"@[0] == 'p' && "postal"@[1] == 'o' && "postal"@[2] == 's' && "postal"@[3] == 't' && "postal"@[4] == 'a' && "postal"@[5] == 'l');
    reveal_strlit("registered_country");
    assert("registered_country"@.len() == 18 && "registered_country"@[0] == 'r' && "registered_country"@[1] == 'e' && "registered_country"@[2] == 'g' && "registered_country"@[3] == 'i' && "registered_country"@[4] == 's' && "registered_country"@[5] == 't' && "registered_country"@[6] == 'e' && "registered_country"@[7] == 'r');
    reveal_strlit("represented_country");
    assert("represented_country"@.len() == 19 && "represented_country"@[0] == 'r' && "represented_country"@[1] == 'e' && "represented_country"@[2] == 'p' && "represented_country"@[3] == 'r' && "represented_country"@[4] == 'e' && "represented_country"@[5] == 's' && "represented_country"@[6] == 'e' && "represented_country"@[7] == 'n');
    reveal_strlit("subdivisions");
    assert("subdivisions"@.len() == 12 && "subdivisions"@[0] == 's' && "subdivisions"@[1] == 'u' && "subdivisions"@[2] == 'b' && "subdivisions"@[3] == 'd' && "subdivisions"@[4] == 'i' && "subdivisions"@[5] == 'v' && "subdivisions"@[6] == 'i' && "subdivisions"@[7] == 's');
    reveal_strlit("traits");
    assert("traits"@.len() == 6 && "traits"@[0] == 't' && "traits"@[1] == 'r' && "traits"@[2] == 'a' && "traits"@[3] == 'i' && "traits"@[4] == 't' && "traits"@[5] == 's');
    let entries = enterprise_record_value(record)->Mapping_0;
    assert(distinct_entry_keys(entries));
    lemma_project_exact(entries, fields);
    law_typed_record_builds_a_present_row(KnownRecord::Enterprise, enterprise_record_value(record));
}

/// The typed conversion of an ISP record has exactly the shape of the ISP
/// schema: projecting it onto that schema keeps it whole, and it builds a
/// one-row column of that schema whose row is present.
pub proof fn law_isp_record_has_isp_schema(record: IspRecord)
    ensures
        project_model(isp_record_value(record), isp_model()) == Ok::<ValueModel, ValueErrorModel>(
            isp_record_value(record),
        ),
        fits_record_schema(KnownRecord::Isp, isp_record_value(record)),
{
    lemma_leaves_conform();
    reveal_strlit("autonomous_system_number");
    assert("autonomous_system_number"@.len() == 24 && "autonomous_system_number"@[0] == 'a' && "autonomous_system_number"@[1] == 'u' && "autonomous_system_number"@[2] == 't' && "autonomous_system_number"@[3] == 'o' && "autonomous_system_number"@[4] == 'n' && "autonomous_system_number"@[5] == 'o' && "autonomous_system_number"@[6] == 'm' && "autonomous_system_number"@[7] == 'o');
    reveal_strlit("autonomous_system_organization");
    assert("autonomous_system_organization"@.len() == 30 && "autonomous_system_organization"@[0] == 'a' && "autonomous_system_organization"@[1] == 'u' && "autonomous_system_organization"@[2] == 't' && "autonomous_system_organization"@[3] == 'o' && "autonomous_system_organization"@[4] == 'n' && "autonomous_system_organization"@[5] == 'o' && "autonomous_system_organization"@[6] == 'm' && "autonomous_system_organization"@[7] == 'o');
    reveal_strlit("isp");
    assert("isp"@.len() == 3 && "isp"@[0] == 'i' && "isp"@[1] == 's' && "isp"@[2] == 'p');
    reveal_strlit("mobile_country_code");
    assert("mobile_country_code"@.len() == 19 && "mobile_country_code"@[0] == 'm' && "mobile_country_code"@[1] == 'o' && "mobile_country_code"@[2] == 'b' && "mobile_country_code"@[3] == 'i' && "mobile_country_code"@[4] == 'l' && "mobile_country_code"@[5] == 'e' && "mobile_country_code"@[6] == '_' && "mobile_country_code"@[7] == 'c');
    reveal_strlit("mobile_network_code");
    assert("mobile_network_code"@.len() == 19 && "mobile_network_code"@[0] == 'm' && "mobile_network_code"@[1] == 'o' && "mobile_network_code"@[2] == 'b' && "mobile_network_code"@[3] == 'i' && "mobile_network_code"@[4] == 'l' && "mobile_network_code"@[5] == 'e' && "mobile_network_code"@[6] == '_' && "mobile_network_code"@[7] == 'n');
    reveal_strlit("organization");
    assert("organization"@.len() == 12 && "organization"@[0] == 'o' && "organization"@[1] == 'r' && "organization"@[2] == 'g' && "organization"@[3] == 'a' && "organization"@[4] == 'n' && "organization"@[5] == 'i' && "organization"@[6] == 'z' && "organization"@[7] == 'a');
    let entries = isp_record_value(record)->Mapping_0;
    assert(distinct_entry_keys(entries));
    lemma_project_exact(entries, isp_model()->Struct_0);
    law_typed_record_builds_a_present_row(KnownRecord::Isp, isp_record_value(record));
}

/// The typed conversion of a Connection Type record has exactly the shape of
/// the Connection Type schema: projecting it onto that schema keeps it whole, and
/// it builds a one-row column of that schema whose row is present.
pub proof fn law_connection_type_record_has_its_schema(record: ConnectionTypeRecord)
    ensures
        project_model(connection_type_record_value(record), connection_type_model()) == Ok::<
            ValueModel,
            ValueErrorModel,
        >(connection_type_record_value(record)),
        fits_record_schema(KnownRecord::ConnectionType, connection_type_record_value(record)),
{
    lemma_leaves_conform();
    lemma_project_exact(
        connection_type_record_value(record)->Mapping_0,
        connection_type_model()->Struct_0,
    );
    law_typed_record_builds_a_present_row(KnownRecord::ConnectionType, connection_type_record_value(record));
}

/// The typed conversion of an Anonymous IP record has exactly the shape of
/// the Anonymous IP schema: projecting it onto that schema keeps it whole, and
/// it builds a one-row column of that schema whose row is present.
pub proof fn law_anonymous_ip_record_has_its_schema(record: AnonymousIpRecord)
    ensures
        project_model(anonymous_ip_record_value(record), anonymous_ip_model()) == Ok::<
            ValueModel,
            ValueErrorModel,
        >(anonymous_ip_record_value(record)),
        fits_record_schema(KnownRecord::AnonymousIp, anonymous_ip_record_value(record)),
{
    lemma_leaves_conform();
    reveal_strlit("is_anonymous");
    assert("is_anonymous"@.len() == 12 && "is_anonymous"@[0] == 'i' && "is_anonymous"@[1] == 's' && "is_anonymous"@[2] == '_' && "is_anonymous"@[3] == 'a' && "is_anonymous"@[4] == 'n' && "is_anonymous"@[5] == 'o' && "is_anonymous"@[6] == 'n' && "is_anonymous"@[7] == 'y');
    reveal_strlit("is_anonymous_vpn");
    assert("is_anonymous_vpn"@.len() == 16 && "is_anonymous_vpn"@[0] == 'i' && "is_anonymous_vpn"@[1] == 's' && "is_anonymous_vpn"@[2] == '_' && "is_anonymous_vpn"@[3] == 'a' && "is_anonymous_vpn"@[4] == 'n' && "is_anonymous_vpn"@[5] == 'o' && "is_anonymous_vpn"@[6] == 'n' && "is_anonymous_vpn"@[7] == 'y');
    reveal_strlit("is_hosting_provider");
    assert("is_hosting_provider"@.len() == 19 && "is_hosting_provider"@[0] == 'i' && "is_hosting_provider"@[1] == 's' && "is_hosting_provider"@[2] == '_' && "is_hosting_provider"@[3] == 'h' && "is_hosting_provider"@[4] == 'o' && "is_hosting_provider"@[5] == 's' && "is_hosting_provider"@[6] == 't' && "is_hosting_provider"@[7] == 'i');
    reveal_strlit("is_public_proxy");
    assert("is_public_proxy"@.len() == 15 && "is_public_proxy"@[0] == 'i' && "is_public_proxy"@[1] == 's' && "is_public_proxy"@[2] == '_' && "is_public_proxy"@[3] == 'p' && "is_public_proxy"@[4] == 'u' && "is_public_proxy"@[5] == 'b' && "is_public_proxy"@[6] == 'l' && "is_public_proxy"@[7] == 'i');
    reveal_strlit("is_residential_proxy");
    assert("is_residential_proxy"@.len() == 20 && "is_residential_proxy"@[0] == 'i' && "is_residential_proxy"@[1] == 's' && "is_residential_proxy"@[2] == '_' && "is_residential_proxy"@[3] == 'r' && "is_residential_proxy"@[4] == 'e' && "is_residential_proxy"@[5] == 's' && "is_residential_proxy"@[6] == 'i' && "is_residential_proxy"@[7] == 'd');
    reveal_strlit("is_tor_exit_node");
    assert("is_tor_exit_node"@.len() == 16 && "is_tor_exit_node"@[0] == 'i' && "is_tor_exit_node"@[1] == 's' && "is_tor_exit_node"@[2] == '_' && "is_tor_exit_node"@[3] == 't' && "is_tor_exit_node"@[4] == 'o' && "is_tor_exit_node"@[5] == 'r' && "is_tor_exit_node"@[6] == '_' && "is_tor_exit_node"@[7] == 'e');
    let entries = anonymous_ip_record_value(record)->Mapping_0;
    assert(distinct_entry_keys(entries));
    lemma_project_exact(entries, anonymous_ip_model()->Struct_0);
    law_typed_record_builds_a_present_row(KnownRecord::AnonymousIp, anonymous_ip_record_value(record));
}

/// The typed conversion of a Density/Income record has exactly the shape of
/// the Density/Income schema: projecting it onto that schema keeps it whole, and
/// it builds a one-row column of that schema whose row is present.
pub proof fn law_density_income_record_has_its_schema(record: DensityIncomeRecord)
    ensures
        project_model(density_income_record_value(record), density_income_model()) == Ok::<
            ValueModel,
            ValueErrorModel,
        >(density_income_record_value(record)),
        fits_record_schema(KnownRecord::DensityIncome, density_income_record_value(record)),
{
    lemma_leaves_conform();
    reveal_strlit("average_income");
    assert("average_income"@.len() == 14 && "average_income"@[0] == 'a' && "average_income"@[1] == 'v' && "average_income"@[2] == 'e' && "average_income"@[3] == 'r' && "average_income"@[4] == 'a' && "average_income"@[5] == 'g' && "average_income"@[6] == 'e' && "average_income"@[7] == '_');
    reveal_strlit("population_density");
    assert("population_density"@.len() == 18 && "population_density"@[0] == 'p' && "population_density"@[1] == 'o' && "population_density"@[2] == 'p' && "population_density"@[3] == 'u' && "population_density"@[4] == 'l' && "population_density"@[5] == 'a' && "population_density"@[6] == 't' && "population_density"@[7] == 'i');
    let entries = density_income_record_value(record)->Mapping_0;
    assert(distinct_entry_keys(entries));
    lemma_project_exact(entries, density_income_model()->Struct_0);
    law_typed_record_builds_a_present_row(KnownRecord::DensityIncome, density_income_record_value(record));
}

/// The typed conversion of a Domain record has exactly the shape of the
/// Domain schema: projecting it onto that schema keeps it whole, and it
/// builds a one-row column of that schema whose row is present.
pub proof fn law_domain_record_has_its_schema(record: DomainRecord)
    ensures
        project_model(domain_record_value(record), domain_model()) == Ok::<
            ValueModel,
            ValueErrorModel,
        >(domain_record_value(record)),
        fits_record_schema(KnownRecord::Domain, domain_record_value(record)),
{
    lemma_leaves_conform();
    lemma_project_exact(domain_record_value(record)->Mapping_0, domain_model()->Struct_0);
    law_typed_record_builds_a_present_row(KnownRecord::Domain, domain_record_value(record));
}

} // verus!
