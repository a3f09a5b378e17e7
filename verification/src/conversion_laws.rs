use vstd::prelude::*;
use vstd::string::*;

use crate::cache::{digit_value, is_digit, parse_usize, read_digits, NumberError};
use crate::column::{cell_model, CellModel};
use crate::known::{
    anonymous_ip_record_value, asn_record_value, city_record_value, city_value,
    connection_type_record_value, continent_value, country_record_value, country_value,
    density_income_record_value, domain_record_value, enterprise_city_value,
    enterprise_country_value, enterprise_postal_value, enterprise_record_value,
    enterprise_subdivision_value, enterprise_subdivisions_value, enterprise_traits_value,
    isp_record_value, location_value, names_value, postal_value, represented_country_value,
    subdivision_value, subdivisions_value, traits_value, AnonymousIpRecord, AsnRecord, City,
    CityRecord, ConnectionTypeRecord, Continent, Country, CountryRecord, DensityIncomeRecord,
    DomainRecord, EnterpriseCity, EnterpriseCountry, EnterprisePostal, EnterpriseRecord,
    EnterpriseSubdivision, EnterpriseTraits, IspRecord, Location, Names, Postal,
    RepresentedCountry, Subdivision, Traits,
};
use crate::record_laws::{distinct_entry_keys, lemma_entry_at};
use crate::text::{digit_char, digits};
use crate::known::KnownRecord;
use crate::schema::{
    anonymous_ip_model, asn_model, city_model, connection_type_model, continent_model,
    country_model, country_record_model, density_income_model, domain_model,
    enterprise_country_model, enterprise_model, enterprise_subdivision_model,
    enterprise_traits_model, isp_model, location_model, names_model, record_model,
    represented_country_model, step_for, subdivision_model, traits_model, Dtype, PartModel,
    StepModel,
};
use crate::value::{
    default_model, first_entry, lemma_field_defaults, scalar_fits, signed_of, unsigned_of,
    ValueModel,
};

verus! {

/// The value a map holds under a name: that of its first entry of the name.
pub open spec fn entry_of(v: ValueModel, name: Seq<char>) -> Option<ValueModel> {
    match v {
        ValueModel::Mapping(es) => match first_entry(es, name) {
            Some(i) => Some(es[i].1),
            None => None,
        },
        _ => None,
    }
}

/// A leaf value of exactly a leaf dtype's kind, or null.
pub open spec fn leaf_of_kind(v: ValueModel, d: Dtype) -> bool {
    match v {
        ValueModel::Null => true,
        ValueModel::Boolean(_) => d is Boolean,
        ValueModel::UInt8(_) => d is UInt8,
        ValueModel::UInt16(_) => d is UInt16,
        ValueModel::UInt32(_) => d is UInt32,
        ValueModel::UInt64(_) => d is UInt64,
        ValueModel::UInt128(_) => d is UInt128,
        ValueModel::Int8(_) => d is Int8,
        ValueModel::Int16(_) => d is Int16,
        ValueModel::Int32(_) => d is Int32,
        ValueModel::Int64(_) => d is Int64,
        ValueModel::Int128(_) => d is Int128,
        ValueModel::Float32(_) => d is Float32,
        ValueModel::Float64(_) => d is Float64,
        ValueModel::String(_) => d is String,
        ValueModel::Binary(_) => d is Binary,
        _ => false,
    }
}

/// A value typed exactly by a dtype: at every Struct a map keyed by the
/// field names in order, at every List a list, and every leaf null or of
/// exactly the leaf dtype's kind (no narrower integer standing in for a
/// wider one).
pub open spec fn exactly_typed(v: ValueModel, d: Dtype) -> bool
    decreases d,
{
    match d {
        Dtype::Struct(fs) => match v {
            ValueModel::Mapping(es) => es.len() == fs.len() && forall|i: int|
                #![trigger fs[i]]
                0 <= i < fs.len() ==> es[i].0 == fs[i].name && exactly_typed(es[i].1, fs[i].dtype),
            _ => false,
        },
        Dtype::List(inner) => match v {
            ValueModel::List(items) => forall|k: int|
                0 <= k < items.len() ==> exactly_typed(#[trigger] items[k], *inner),
            _ => false,
        },
        _ => leaf_of_kind(v, d),
    }
}

/// A dtype's default: null for a leaf, an empty list for a List, and for a
/// Struct a map of each field's name with that field's default, in order.
pub proof fn law_defaults_are_null_empty_or_defaulted(d: Dtype)
    ensures
        !(d is Struct || d is List) ==> default_model(d) == ValueModel::Null,
        d is List ==> default_model(d) == ValueModel::List(Seq::empty()),
        d matches Dtype::Struct(fs) ==> (default_model(d) matches ValueModel::Mapping(es)
            && es.len() == fs.len() && forall|i: int|
            0 <= i < fs.len() ==> #[trigger] es[i] == (fs[i].name, default_model(fs[i].dtype))),
{
    if let Dtype::Struct(fs) = d {
        lemma_field_defaults(fs);
    }
}

/// Values other than integers fit a leaf dtype by their kind alone: a flag
/// fits Boolean, a Float32 fits Float32 and Float64, a Float64 fits
/// Float64, a string String and bytes Binary; no other leaf dtype takes
/// them, and no value fits a List or Struct as a leaf.
pub proof fn law_other_values_fit_by_kind(v: ValueModel, d: Dtype)
    requires
        unsigned_of(v) is None,
        signed_of(v) is None,
    ensures
        scalar_fits(v, d) <==> (v is Boolean && d is Boolean) || (v is Float32 && (d is Float32
            || d is Float64)) || (v is Float64 && d is Float64) || (v is String && d is String) || (
        v is Binary && d is Binary),
{
}

proof fn lemma_subdivisions_exact(subs: Seq<Subdivision>)
    ensures
        exactly_typed(subdivisions_value(subs), Dtype::List(Box::new(subdivision_model()))),
{
    let items = subs.map_values(|s: Subdivision| subdivision_value(s));
    assert forall|k: int| 0 <= k < items.len() implies exactly_typed(
        #[trigger] items[k],
        subdivision_model(),
    ) by {
        lemma_subdivision_exact(subs[k]);
    }
}

proof fn lemma_enterprise_subdivisions_exact(subs: Seq<EnterpriseSubdivision>)
    ensures
        exactly_typed(
            enterprise_subdivisions_value(subs),
            Dtype::List(Box::new(enterprise_subdivision_model())),
        ),
{
    let items = subs.map_values(|s: EnterpriseSubdivision| enterprise_subdivision_value(s));
    assert forall|k: int| 0 <= k < items.len() implies exactly_typed(
        #[trigger] items[k],
        enterprise_subdivision_model(),
    ) by {
        lemma_enterprise_subdivision_exact(subs[k]);
    }
}

proof fn lemma_names_exact(n: Names)
    ensures
        exactly_typed(names_value(n), names_model()),
{
    reveal_with_fuel(exactly_typed, 2);
}

proof fn lemma_continent_exact(c: Continent)
    ensures
        exactly_typed(continent_value(c), continent_model()),
{
    lemma_names_exact(c.names);
    reveal_with_fuel(exactly_typed, 2);
}

proof fn lemma_country_exact(c: Country)
    ensures
        exactly_typed(country_value(c), country_model()),
{
    lemma_names_exact(c.names);
    reveal_with_fuel(exactly_typed, 2);
}

proof fn lemma_represented_country_exact(c: RepresentedCountry)
    ensures
        exactly_typed(represented_country_value(c), represented_country_model()),
{
    lemma_names_exact(c.names);
    reveal_with_fuel(exactly_typed, 2);
}

proof fn lemma_traits_exact(t: Traits)
    ensures
        exactly_typed(traits_value(t), traits_model()),
{
    reveal_with_fuel(exactly_typed, 2);
}

proof fn lemma_city_exact(c: City)
    ensures
        exactly_typed(city_value(c), city_model()->Struct_0[0].dtype),
{
    lemma_names_exact(c.names);
    reveal_with_fuel(exactly_typed, 2);
}

proof fn lemma_location_exact(l: Location)
    ensures
        exactly_typed(location_value(l), location_model()),
{
    reveal_with_fuel(exactly_typed, 2);
}

proof fn lemma_postal_exact(p: Postal)
    ensures
        exactly_typed(postal_value(p), city_model()->Struct_0[4].dtype),
{
    reveal_with_fuel(exactly_typed, 2);
}

proof fn lemma_subdivision_exact(s: Subdivision)
    ensures
        exactly_typed(subdivision_value(s), subdivision_model()),
{
    lemma_names_exact(s.names);
    reveal_with_fuel(exactly_typed, 2);
}

proof fn lemma_enterprise_city_exact(c: EnterpriseCity)
    ensures
        exactly_typed(enterprise_city_value(c), enterprise_model()->Struct_0[0].dtype),
{
    lemma_names_exact(c.names);
    reveal_with_fuel(exactly_typed, 2);
}

proof fn lemma_enterprise_country_exact(c: EnterpriseCountry)
    ensures
        exactly_typed(enterprise_country_value(c), enterprise_country_model()),
{
    lemma_names_exact(c.names);
    reveal_with_fuel(exactly_typed, 2);
}

proof fn lemma_enterprise_postal_exact(p: EnterprisePostal)
    ensures
        exactly_typed(enterprise_postal_value(p), enterprise_model()->Struct_0[4].dtype),
{
    reveal_with_fuel(exactly_typed, 2);
}

proof fn lemma_enterprise_subdivision_exact(s: EnterpriseSubdivision)
    ensures
        exactly_typed(enterprise_subdivision_value(s), enterprise_subdivision_model()),
{
    lemma_names_exact(s.names);
    reveal_with_fuel(exactly_typed, 2);
}

proof fn lemma_enterprise_traits_exact(t: EnterpriseTraits)
    ensures
        exactly_typed(enterprise_traits_value(t), enterprise_traits_model()),
{
    reveal_with_fuel(exactly_typed, 2);
}

/// Every leaf of a converted `CountryRecord` has exactly the dtype that the
/// schema gives it (or is null), under the schema's field names in order.
pub proof fn law_country_record_has_exactly_its_schema_dtypes(r: CountryRecord)
    ensures
        exactly_typed(country_record_value(r), record_model(KnownRecord::Country)),
{
    lemma_continent_exact(r.continent);
    lemma_country_exact(r.country);
    lemma_country_exact(r.registered_country);
    lemma_represented_country_exact(r.represented_country);
    lemma_traits_exact(r.traits);
    reveal_with_fuel(exactly_typed, 2);
}

/// Every leaf of a converted `CityRecord` has exactly the dtype that the
/// schema gives it (or is null), under the schema's field names in order.
pub proof fn law_city_record_has_exactly_its_schema_dtypes(r: CityRecord)
    ensures
        exactly_typed(city_record_value(r), record_model(KnownRecord::City)),
{
    lemma_city_exact(r.city);
    lemma_continent_exact(r.continent);
    lemma_country_exact(r.country);
    lemma_location_exact(r.location);
    lemma_postal_exact(r.postal);
    lemma_country_exact(r.registered_country);
    lemma_represented_country_exact(r.represented_country);
    lemma_subdivisions_exact(r.subdivisions@);
    lemma_traits_exact(r.traits);
    reveal_with_fuel(exactly_typed, 2);
}

/// Every leaf of a converted `EnterpriseRecord` has exactly the dtype that the
/// schema gives it (or is null), under the schema's field names in order.
pub proof fn law_enterprise_record_has_exactly_its_schema_dtypes(r: EnterpriseRecord)
    ensures
        exactly_typed(enterprise_record_value(r), record_model(KnownRecord::Enterprise)),
{
    lemma_enterprise_city_exact(r.city);
    lemma_continent_exact(r.continent);
    lemma_enterprise_country_exact(r.country);
    lemma_location_exact(r.location);
    lemma_enterprise_postal_exact(r.postal);
    lemma_enterprise_country_exact(r.registered_country);
    lemma_represented_country_exact(r.represented_country);
    lemma_enterprise_subdivisions_exact(r.subdivisions@);
    lemma_enterprise_traits_exact(r.traits);
    reveal_with_fuel(exactly_typed, 2);
}

/// Every leaf of a converted `IspRecord` has exactly the dtype that the
/// schema gives it (or is null), under the schema's field names in order.
pub proof fn law_isp_record_has_exactly_its_schema_dtypes(r: IspRecord)
    ensures
        exactly_typed(isp_record_value(r), record_model(KnownRecord::Isp)),
{
    reveal_with_fuel(exactly_typed, 2);
}

/// Every leaf of a converted `ConnectionTypeRecord` has exactly the dtype that the
/// schema gives it (or is null), under the schema's field names in order.
pub proof fn law_connection_type_record_has_exactly_its_schema_dtypes(r: ConnectionTypeRecord)
    ensures
        exactly_typed(connection_type_record_value(r), record_model(KnownRecord::ConnectionType)),
{
    reveal_with_fuel(exactly_typed, 2);
}

/// Every leaf of a converted `AnonymousIpRecord` has exactly the dtype that the
/// schema gives it (or is null), under the schema's field names in order.
pub proof fn law_anonymous_ip_record_has_exactly_its_schema_dtypes(r: AnonymousIpRecord)
    ensures
        exactly_typed(anonymous_ip_record_value(r), record_model(KnownRecord::AnonymousIp)),
{
    reveal_with_fuel(exactly_typed, 2);
}

/// Every leaf of a converted `DensityIncomeRecord` has exactly the dtype that the
/// schema gives it (or is null), under the schema's field names in order.
pub proof fn law_density_income_record_has_exactly_its_schema_dtypes(r: DensityIncomeRecord)
    ensures
        exactly_typed(density_income_record_value(r), record_model(KnownRecord::DensityIncome)),
{
    reveal_with_fuel(exactly_typed, 2);
}

/// Every leaf of a converted `DomainRecord` has exactly the dtype that the
/// schema gives it (or is null), under the schema's field names in order.
pub proof fn law_domain_record_has_exactly_its_schema_dtypes(r: DomainRecord)
    ensures
        exactly_typed(domain_record_value(r), record_model(KnownRecord::Domain)),
{
    reveal_with_fuel(exactly_typed, 2);
}

/// Every leaf of a converted `AsnRecord` has exactly the dtype that the
/// schema gives it (or is null), under the schema's field names in order.
pub proof fn law_asn_record_has_exactly_its_schema_dtypes(r: AsnRecord)
    ensures
        exactly_typed(asn_record_value(r), record_model(KnownRecord::Asn)),
{
    reveal_with_fuel(exactly_typed, 2);
}


/// Integer values hold their own number, signed or unsigned by their kind.
pub proof fn law_integer_values_hold_their_number(v: ValueModel)
    ensures
        v matches ValueModel::UInt8(x) ==> unsigned_of(v) == Some(x as int) && signed_of(v) is None,
        v matches ValueModel::UInt16(x) ==> unsigned_of(v) == Some(x as int) && signed_of(v) is None,
        v matches ValueModel::UInt32(x) ==> unsigned_of(v) == Some(x as int) && signed_of(v) is None,
        v matches ValueModel::UInt64(x) ==> unsigned_of(v) == Some(x as int) && signed_of(v) is None,
        v matches ValueModel::UInt128(x) ==> unsigned_of(v) == Some(x as int) && signed_of(v) is None,
        v matches ValueModel::Int8(x) ==> signed_of(v) == Some(x as int) && unsigned_of(v) is None,
        v matches ValueModel::Int16(x) ==> signed_of(v) == Some(x as int) && unsigned_of(v) is None,
        v matches ValueModel::Int32(x) ==> signed_of(v) == Some(x as int) && unsigned_of(v) is None,
        v matches ValueModel::Int64(x) ==> signed_of(v) == Some(x as int) && unsigned_of(v) is None,
        v matches ValueModel::Int128(x) ==> signed_of(v) == Some(x as int) && unsigned_of(v) is None,
        !(v is UInt8 || v is UInt16 || v is UInt32 || v is UInt64 || v is UInt128 || v is Int8
            || v is Int16 || v is Int32 || v is Int64 || v is Int128) ==> unsigned_of(v) is None
            && signed_of(v) is None,
{
}

/// A leaf cell holds its value unchanged: an integer's number (signed or
/// unsigned by its kind), a flag, the bits of a float, a string's
/// characters or the bytes.
pub proof fn law_cells_hold_their_value(v: ValueModel)
    ensures
        unsigned_of(v) matches Some(n) ==> cell_model(v) == CellModel::Unsigned(n),
        signed_of(v) matches Some(n) ==> cell_model(v) == CellModel::Signed(n),
        v matches ValueModel::Boolean(b) ==> cell_model(v) == CellModel::Bool(b),
        v matches ValueModel::Float32(bits) ==> cell_model(v) == CellModel::Single(bits),
        v matches ValueModel::Float64(bits) ==> cell_model(v) == CellModel::Double(bits),
        v matches ValueModel::String(s) ==> cell_model(v) == CellModel::Text(s),
        v matches ValueModel::Binary(b) ==> cell_model(v) == CellModel::Bytes(b),
{
}

/// An integer fits an integer dtype exactly when it has the dtype's
/// signedness and its number lies in the dtype's range (negative numbers
/// included for signed dtypes); 128-bit dtypes take every number of their
/// signedness.
pub proof fn law_integers_fit_their_range(v: ValueModel)
    ensures
        unsigned_of(v) matches Some(n) ==> {
            &&& scalar_fits(v, Dtype::UInt8) <==> n <= 255
            &&& scalar_fits(v, Dtype::UInt16) <==> n <= 65535
            &&& scalar_fits(v, Dtype::UInt32) <==> n <= 4294967295
            &&& scalar_fits(v, Dtype::UInt64) <==> n <= 18446744073709551615
            &&& scalar_fits(v, Dtype::UInt128)
            &&& !scalar_fits(v, Dtype::Int8) && !scalar_fits(v, Dtype::Int16) && !scalar_fits(
                v,
                Dtype::Int32,
            ) && !scalar_fits(v, Dtype::Int64) && !scalar_fits(v, Dtype::Int128)
        },
        signed_of(v) matches Some(n) ==> {
            &&& scalar_fits(v, Dtype::Int8) <==> -128 <= n <= 127
            &&& scalar_fits(v, Dtype::Int16) <==> -32768 <= n <= 32767
            &&& scalar_fits(v, Dtype::Int32) <==> -2147483648 <= n <= 2147483647
            &&& scalar_fits(v, Dtype::Int64) <==> -9223372036854775808 <= n
                <= 9223372036854775807
            &&& scalar_fits(v, Dtype::Int128)
            &&& !scalar_fits(v, Dtype::UInt8) && !scalar_fits(v, Dtype::UInt16) && !scalar_fits(
                v,
                Dtype::UInt32,
            ) && !scalar_fits(v, Dtype::UInt64) && !scalar_fits(v, Dtype::UInt128)
        },
{
}

/// A converted list of subdivisions holds each subdivision, converted, in
/// order.
pub proof fn law_subdivisions_hold_each_subdivision(subs: Seq<Subdivision>)
    ensures
        subdivisions_value(subs) matches ValueModel::List(items) && items.len() == subs.len()
            && forall|k: int| 0 <= k < subs.len() ==> #[trigger] items[k] == subdivision_value(subs[k]),
{
}

/// A converted list of Enterprise subdivisions holds each subdivision,
/// converted, in order.
pub proof fn law_enterprise_subdivisions_hold_each_subdivision(subs: Seq<EnterpriseSubdivision>)
    ensures
        enterprise_subdivisions_value(subs) matches ValueModel::List(items) && items.len()
            == subs.len() && forall|k: int|
            0 <= k < subs.len() ==> #[trigger] items[k] == enterprise_subdivision_value(subs[k]),
{
}

/// Each entry of converted `Names` holds the name in the language of its
/// key (`de` German, `en` English, ..., `zh-CN` Simplified Chinese): a
/// missing name is null, a present one its text.
pub proof fn law_names_entries_hold_their_fields(n: Names)
    ensures
        entry_of(names_value(n), "de"@) == Some(match n.german { Some(s) => ValueModel::String(s@), None => ValueModel::Null }),
        entry_of(names_value(n), "en"@) == Some(match n.english { Some(s) => ValueModel::String(s@), None => ValueModel::Null }),
        entry_of(names_value(n), "es"@) == Some(match n.spanish { Some(s) => ValueModel::String(s@), None => ValueModel::Null }),
        entry_of(names_value(n), "fr"@) == Some(match n.french { Some(s) => ValueModel::String(s@), None => ValueModel::Null }),
        entry_of(names_value(n), "ja"@) == Some(match n.japanese { Some(s) => ValueModel::String(s@), None => ValueModel::Null }),
        entry_of(names_value(n), "pt-BR"@) == Some(match n.brazilian_portuguese { Some(s) => ValueModel::String(s@), None => ValueModel::Null }),
        entry_of(names_value(n), "ru"@) == Some(match n.russian { Some(s) => ValueModel::String(s@), None => ValueModel::Null }),
        entry_of(names_value(n), "zh-CN"@) == Some(match n.simplified_chinese { Some(s) => ValueModel::String(s@), None => ValueModel::Null }),
{
    reveal_strlit("de");
    assert("de"@.len() == 2 && "de"@[0] == 'd' && "de"@[1] == 'e');
    reveal_strlit("en");
    assert("en"@.len() == 2 && "en"@[0] == 'e' && "en"@[1] == 'n');
    reveal_strlit("es");
    assert("es"@.len() == 2 && "es"@[0] == 'e' && "es"@[1] == 's');
    reveal_strlit("fr");
    assert("fr"@.len() == 2 && "fr"@[0] == 'f' && "fr"@[1] == 'r');
    reveal_strlit("ja");
    assert("ja"@.len() == 2 && "ja"@[0] == 'j' && "ja"@[1] == 'a');
    reveal_strlit("pt-BR");
    assert("pt-BR"@.len() == 5 && "pt-BR"@[0] == 'p' && "pt-BR"@[1] == 't' && "pt-BR"@[2] == '-' && "pt-BR"@[3] == 'B' && "pt-BR"@[4] == 'R');
    reveal_strlit("ru");
    assert("ru"@.len() == 2 && "ru"@[0] == 'r' && "ru"@[1] == 'u');
    reveal_strlit("zh-CN");
    assert("zh-CN"@.len() == 5 && "zh-CN"@[0] == 'z' && "zh-CN"@[1] == 'h' && "zh-CN"@[2] == '-' && "zh-CN"@[3] == 'C' && "zh-CN"@[4] == 'N');
    let es = names_value(n)->Mapping_0;
    assert(distinct_entry_keys(es));
    lemma_entry_at(es, 0);
    lemma_entry_at(es, 1);
    lemma_entry_at(es, 2);
    lemma_entry_at(es, 3);
    lemma_entry_at(es, 4);
    lemma_entry_at(es, 5);
    lemma_entry_at(es, 6);
    lemma_entry_at(es, 7);
}

/// Each entry of a converted `Continent` holds the field of the same name:
/// a missing field is null, a present one its value.
pub proof fn law_continent_entries_hold_their_fields(c: Continent)
    ensures
        entry_of(continent_value(c), "code"@) == Some(match c.code { Some(s) => ValueModel::String(s@), None => ValueModel::Null }),
        entry_of(continent_value(c), "geoname_id"@) == Some(match c.geoname_id { Some(x) => ValueModel::UInt32(x), None => ValueModel::Null }),
        entry_of(continent_value(c), "names"@) == Some(names_value(c.names)),
{
    reveal_strlit("code");
    assert("code"@.len() == 4 && "code"@[0] == 'c' && "code"@[1] == 'o' && "code"@[2] == 'd' && "code"@[3] == 'e');
    reveal_strlit("geoname_id");
    assert("geoname_id"@.len() == 10 && "geoname_id"@[0] == 'g' && "geoname_id"@[1] == 'e' && "geoname_id"@[2] == 'o' && "geoname_id"@[3] == 'n' && "geoname_id"@[4] == 'a' && "geoname_id"@[5] == 'm' && "geoname_id"@[6] == 'e' && "geoname_id"@[7] == '_');
    reveal_strlit("names");
    assert("names"@.len() == 5 && "names"@[0] == 'n' && "names"@[1] == 'a' && "names"@[2] == 'm' && "names"@[3] == 'e' && "names"@[4] == 's');
    let es = continent_value(c)->Mapping_0;
    assert(distinct_entry_keys(es));
    lemma_entry_at(es, 0);
    lemma_entry_at(es, 1);
    lemma_entry_at(es, 2);
}

/// Each entry of a converted `Country` holds the field of the same name:
/// a missing field is null, a present one its value.
pub proof fn law_country_entries_hold_their_fields(c: Country)
    ensures
        entry_of(country_value(c), "geoname_id"@) == Some(match c.geoname_id { Some(x) => ValueModel::UInt32(x), None => ValueModel::Null }),
        entry_of(country_value(c), "is_in_european_union"@) == Some(match c.is_in_european_union { Some(b) => ValueModel::Boolean(b), None => ValueModel::Null }),
        entry_of(country_value(c), "iso_code"@) == Some(match c.iso_code { Some(s) => ValueModel::String(s@), None => ValueModel::Null }),
        entry_of(country_value(c), "names"@) == Some(names_value(c.names)),
{
    reveal_strlit("geoname_id");
    assert("geoname_id"@.len() == 10 && "geoname_id"@[0] == 'g' && "geoname_id"@[1] == 'e' && "geoname_id"@[2] == 'o' && "geoname_id"@[3] == 'n' && "geoname_id"@[4] == 'a' && "geoname_id"@[5] == 'm' && "geoname_id"@[6] == 'e' && "geoname_id"@[7] == '_');
    reveal_strlit("is_in_european_union");
    assert("is_in_european_union"@.len() == 20 && "is_in_european_union"@[0] == 'i' && "is_in_european_union"@[1] == 's' && "is_in_european_union"@[2] == '_' && "is_in_european_union"@[3] == 'i' && "is_in_european_union"@[4] == 'n' && "is_in_european_union"@[5] == '_' && "is_in_european_union"@[6] == 'e' && "is_in_european_union"@[7] == 'u');
    reveal_strlit("iso_code");
    assert("iso_code"@.len() == 8 && "iso_code"@[0] == 'i' && "iso_code"@[1] == 's' && "iso_code"@[2] == 'o' && "iso_code"@[3] == '_' && "iso_code"@[4] == 'c' && "iso_code"@[5] == 'o' && "iso_code"@[6] == 'd' && "iso_code"@[7] == 'e');
    reveal_strlit("names");
    assert("names"@.len() == 5 && "names"@[0] == 'n' && "names"@[1] == 'a' && "names"@[2] == 'm' && "names"@[3] == 'e' && "names"@[4] == 's');
    let es = country_value(c)->Mapping_0;
    assert(distinct_entry_keys(es));
    lemma_entry_at(es, 0);
    lemma_entry_at(es, 1);
    lemma_entry_at(es, 2);
    lemma_entry_at(es, 3);
}

/// Each entry of a converted `RepresentedCountry` holds the field of the
/// same name (`type` holds the representation type): a missing field is
/// null, a present one its value.
pub proof fn law_represented_country_entries_hold_their_fields(c: RepresentedCountry)
    ensures
        entry_of(represented_country_value(c), "geoname_id"@) == Some(match c.geoname_id { Some(x) => ValueModel::UInt32(x), None => ValueModel::Null }),
        entry_of(represented_country_value(c), "is_in_european_union"@) == Some(match c.is_in_european_union { Some(b) => ValueModel::Boolean(b), None => ValueModel::Null }),
        entry_of(represented_country_value(c), "iso_code"@) == Some(match c.iso_code { Some(s) => ValueModel::String(s@), None => ValueModel::Null }),
        entry_of(represented_country_value(c), "names"@) == Some(names_value(c.names)),
        entry_of(represented_country_value(c), "type"@) == Some(match c.representation_type { Some(s) => ValueModel::String(s@), None => ValueModel::Null }),
{
    reveal_strlit("geoname_id");
    assert("geoname_id"@.len() == 10 && "geoname_id"@[0] == 'g' && "geoname_id"@[1] == 'e' && "geoname_id"@[2] == 'o' && "geoname_id"@[3] == 'n' && "geoname_id"@[4] == 'a' && "geoname_id"@[5] == 'm' && "geoname_id"@[6] == 'e' && "geoname_id"@[7] == '_');
    reveal_strlit("is_in_european_union");
    assert("is_in_european_union"@.len() == 20 && "is_in_european_union"@[0] == 'i' && "is_in_european_union"@[1] == 's' && "is_in_european_union"@[2] == '_' && "is_in_european_union"@[3] == 'i' && "is_in_european_union"@[4] == 'n' && "is_in_european_union"@[5] == '_' && "is_in_european_union"@[6] == 'e' && "is_in_european_union"@[7] == 'u');
    reveal_strlit("iso_code");
    assert("iso_code"@.len() == 8 && "iso_code"@[0] == 'i' && "iso_code"@[1] == 's' && "iso_code"@[2] == 'o' && "iso_code"@[3] == '_' && "iso_code"@[4] == 'c' && "iso_code"@[5] == 'o' && "iso_code"@[6] == 'd' && "iso_code"@[7] == 'e');
    reveal_strlit("names");
    assert("names"@.len() == 5 && "names"@[0] == 'n' && "names"@[1] == 'a' && "names"@[2] == 'm' && "names"@[3] == 'e' && "names"@[4] == 's');
    reveal_strlit("type");
    assert("type"@.len() == 4 && "type"@[0] == 't' && "type"@[1] == 'y' && "type"@[2] == 'p' && "type"@[3] == 'e');
    let es = represented_country_value(c)->Mapping_0;
    assert(distinct_entry_keys(es));
    lemma_entry_at(es, 0);
    lemma_entry_at(es, 1);
    lemma_entry_at(es, 2);
    lemma_entry_at(es, 3);
    lemma_entry_at(es, 4);
}

/// Each entry of a converted `Traits` holds the field of the same name:
/// a missing field is null, a present one its value.
pub proof fn law_traits_entries_hold_their_fields(t: Traits)
    ensures
        entry_of(traits_value(t), "is_anycast"@) == Some(match t.is_anycast { Some(b) => ValueModel::Boolean(b), None => ValueModel::Null }),
{
    reveal_strlit("is_anycast");
    assert("is_anycast"@.len() == 10 && "is_anycast"@[0] == 'i' && "is_anycast"@[1] == 's' && "is_anycast"@[2] == '_' && "is_anycast"@[3] == 'a' && "is_anycast"@[4] == 'n' && "is_anycast"@[5] == 'y' && "is_anycast"@[6] == 'c' && "is_anycast"@[7] == 'a');
    let es = traits_value(t)->Mapping_0;
    assert(distinct_entry_keys(es));
    lemma_entry_at(es, 0);
}

/// Each entry of a converted `CountryRecord` holds the field of the same name:
/// a missing field is null, a present one its value.
pub proof fn law_country_record_entries_hold_their_fields(r: CountryRecord)
    ensures
        entry_of(country_record_value(r), "continent"@) == Some(continent_value(r.continent)),
        entry_of(country_record_value(r), "country"@) == Some(country_value(r.country)),
        entry_of(country_record_value(r), "registered_country"@) == Some(country_value(r.registered_country)),
        entry_of(country_record_value(r), "represented_country"@) == Some(represented_country_value(r.represented_country)),
        entry_of(country_record_value(r), "traits"@) == Some(traits_value(r.traits)),
{
    reveal_strlit("continent");
    assert("continent"@.len() == 9 && "continent"@[0] == 'c' && "continent"@[1] == 'o' && "continent"@[2] == 'n' && "continent"@[3] == 't' && "continent"@[4] == 'i' && "continent"@[5] == 'n' && "continent"@[6] == 'e' && "continent"@[7] == 'n');
    reveal_strlit("country");
    assert("country"@.len() == 7 && "country"@[0] == 'c' && "country"@[1] == 'o' && "country"@[2] == 'u' && "country"@[3] == 'n' && "country"@[4] == 't' && "country"@[5] == 'r' && "country"@[6] == 'y');
    reveal_strlit("registered_country");
    assert("registered_country"@.len() == 18 && "registered_country"@[0] == 'r' && "registered_country"@[1] == 'e' && "registered_country"@[2] == 'g' && "registered_country"@[3] == 'i' && "registered_country"@[4] == 's' && "registered_country"@[5] == 't' && "registered_country"@[6] == 'e' && "registered_country"@[7] == 'r');
    reveal_strlit("represented_country");
    assert("represented_country"@.len() == 19 && "represented_country"@[0] == 'r' && "represented_country"@[1] == 'e' && "represented_country"@[2] == 'p' && "represented_country"@[3] == 'r' && "represented_country"@[4] == 'e' && "represented_country"@[5] == 's' && "represented_country"@[6] == 'e' && "represented_country"@[7] == 'n');
    reveal_strlit("traits");
    assert("traits"@.len() == 6 && "traits"@[0] == 't' && "traits"@[1] == 'r' && "traits"@[2] == 'a' && "traits"@[3] == 'i' && "traits"@[4] == 't' && "traits"@[5] == 's');
    let es = country_record_value(r)->Mapping_0;
    assert(distinct_entry_keys(es));
    lemma_entry_at(es, 0);
    lemma_entry_at(es, 1);
    lemma_entry_at(es, 2);
    lemma_entry_at(es, 3);
    lemma_entry_at(es, 4);
}

/// Each entry of a converted `City` holds the field of the same name:
/// a missing field is null, a present one its value.
pub proof fn law_city_entries_hold_their_fields(c: City)
    ensures
        entry_of(city_value(c), "geoname_id"@) == Some(match c.geoname_id { Some(x) => ValueModel::UInt32(x), None => ValueModel::Null }),
        entry_of(city_value(c), "names"@) == Some(names_value(c.names)),
{
    reveal_strlit("geoname_id");
    assert("geoname_id"@.len() == 10 && "geoname_id"@[0] == 'g' && "geoname_id"@[1] == 'e' && "geoname_id"@[2] == 'o' && "geoname_id"@[3] == 'n' && "geoname_id"@[4] == 'a' && "geoname_id"@[5] == 'm' && "geoname_id"@[6] == 'e' && "geoname_id"@[7] == '_');
    reveal_strlit("names");
    assert("names"@.len() == 5 && "names"@[0] == 'n' && "names"@[1] == 'a' && "names"@[2] == 'm' && "names"@[3] == 'e' && "names"@[4] == 's');
    let es = city_value(c)->Mapping_0;
    assert(distinct_entry_keys(es));
    lemma_entry_at(es, 0);
    lemma_entry_at(es, 1);
}

/// Each entry of a converted `Location` holds the field of the same name:
/// a missing field is null, a present one its value.
pub proof fn law_location_entries_hold_their_fields(l: Location)
    ensures
        entry_of(location_value(l), "accuracy_radius"@) == Some(match l.accuracy_radius { Some(x) => ValueModel::UInt16(x), None => ValueModel::Null }),
        entry_of(location_value(l), "latitude"@) == Some(match l.latitude { Some(x) => ValueModel::Float64(x), None => ValueModel::Null }),
        entry_of(location_value(l), "longitude"@) == Some(match l.longitude { Some(x) => ValueModel::Float64(x), None => ValueModel::Null }),
        entry_of(location_value(l), "metro_code"@) == Some(match l.metro_code { Some(x) => ValueModel::UInt16(x), None => ValueModel::Null }),
        entry_of(location_value(l), "time_zone"@) == Some(match l.time_zone { Some(s) => ValueModel::String(s@), None => ValueModel::Null }),
{
    reveal_strlit("accuracy_radius");
    assert("accuracy_radius"@.len() == 15 && "accuracy_radius"@[0] == 'a' && "accuracy_radius"@[1] == 'c' && "accuracy_radius"@[2] == 'c' && "accuracy_radius"@[3] == 'u' && "accuracy_radius"@[4] == 'r' && "accuracy_radius"@[5] == 'a' && "accuracy_radius"@[6] == 'c' && "accuracy_radius"@[7] == 'y');
    reveal_strlit("latitude");
    assert("latitude"@.len() == 8 && "latitude"@[0] == 'l' && "latitude"@[1] == 'a' && "latitude"@[2] == 't' && "latitude"@[3] == 'i' && "latitude"@[4] == 't' && "latitude"@[5] == 'u' && "latitude"@[6] == 'd' && "latitude"@[7] == 'e');
    reveal_strlit("longitude");
    assert("longitude"@.len() == 9 && "longitude"@[0] == 'l' && "longitude"@[1] == 'o' && "longitude"@[2] == 'n' && "longitude"@[3] == 'g' && "longitude"@[4] == 'i' && "longitude"@[5] == 't' && "longitude"@[6] == 'u' && "longitude"@[7] == 'd');
    reveal_strlit("metro_code");
    assert("metro_code"@.len() == 10 && "metro_code"@[0] == 'm' && "metro_code"@[1] == 'e' && "metro_code"@[2] == 't' && "metro_code"@[3] == 'r' && "metro_code"@[4] == 'o' && "metro_code"@[5] == '_' && "metro_code"@[6] == 'c' && "metro_code"@[7] == 'o');
    reveal_strlit("time_zone");
    assert("time_zone"@.len() == 9 && "time_zone"@[0] == 't' && "time_zone"@[1] == 'i' && "time_zone"@[2] == 'm' && "time_zone"@[3] == 'e' && "time_zone"@[4] == '_' && "time_zone"@[5] == 'z' && "time_zone"@[6] == 'o' && "time_zone"@[7] == 'n');
    let es = location_value(l)->Mapping_0;
    assert(distinct_entry_keys(es));
    lemma_entry_at(es, 0);
    lemma_entry_at(es, 1);
    lemma_entry_at(es, 2);
    lemma_entry_at(es, 3);
    lemma_entry_at(es, 4);
}

/// Each entry of a converted `Postal` holds the field of the same name:
/// a missing field is null, a present one its value.
pub proof fn law_postal_entries_hold_their_fields(p: Postal)
    ensures
        entry_of(postal_value(p), "code"@) == Some(match p.code { Some(s) => ValueModel::String(s@), None => ValueModel::Null }),
{
    reveal_strlit("code");
    assert("code"@.len() == 4 && "code"@[0] == 'c' && "code"@[1] == 'o' && "code"@[2] == 'd' && "code"@[3] == 'e');
    let es = postal_value(p)->Mapping_0;
    assert(distinct_entry_keys(es));
    lemma_entry_at(es, 0);
}

/// Each entry of a converted `Subdivision` holds the field of the same name:
/// a missing field is null, a present one its value.
pub proof fn law_subdivision_entries_hold_their_fields(s: Subdivision)
    ensures
        entry_of(subdivision_value(s), "geoname_id"@) == Some(match s.geoname_id { Some(x) => ValueModel::UInt32(x), None => ValueModel::Null }),
        entry_of(subdivision_value(s), "iso_code"@) == Some(match s.iso_code { Some(s) => ValueModel::String(s@), None => ValueModel::Null }),
        entry_of(subdivision_value(s), "names"@) == Some(names_value(s.names)),
{
    reveal_strlit("geoname_id");
    assert("geoname_id"@.len() == 10 && "geoname_id"@[0] == 'g' && "geoname_id"@[1] == 'e' && "geoname_id"@[2] == 'o' && "geoname_id"@[3] == 'n' && "geoname_id"@[4] == 'a' && "geoname_id"@[5] == 'm' && "geoname_id"@[6] == 'e' && "geoname_id"@[7] == '_');
    reveal_strlit("iso_code");
    assert("iso_code"@.len() == 8 && "iso_code"@[0] == 'i' && "iso_code"@[1] == 's' && "iso_code"@[2] == 'o' && "iso_code"@[3] == '_' && "iso_code"@[4] == 'c' && "iso_code"@[5] == 'o' && "iso_code"@[6] == 'd' && "iso_code"@[7] == 'e');
    reveal_strlit("names");
    assert("names"@.len() == 5 && "names"@[0] == 'n' && "names"@[1] == 'a' && "names"@[2] == 'm' && "names"@[3] == 'e' && "names"@[4] == 's');
    let es = subdivision_value(s)->Mapping_0;
    assert(distinct_entry_keys(es));
    lemma_entry_at(es, 0);
    lemma_entry_at(es, 1);
    lemma_entry_at(es, 2);
}

/// Each entry of a converted `CityRecord` holds the field of the same name:
/// a missing field is null, a present one its value.
pub proof fn law_city_record_entries_hold_their_fields(r: CityRecord)
    ensures
        entry_of(city_record_value(r), "city"@) == Some(city_value(r.city)),
        entry_of(city_record_value(r), "continent"@) == Some(continent_value(r.continent)),
        entry_of(city_record_value(r), "country"@) == Some(country_value(r.country)),
        entry_of(city_record_value(r), "location"@) == Some(location_value(r.location)),
        entry_of(city_record_value(r), "postal"@) == Some(postal_value(r.postal)),
        entry_of(city_record_value(r), "registered_country"@) == Some(country_value(r.registered_country)),
        entry_of(city_record_value(r), "represented_country"@) == Some(represented_country_value(r.represented_country)),
        entry_of(city_record_value(r), "subdivisions"@) == Some(subdivisions_value(r.subdivisions@)),
        entry_of(city_record_value(r), "traits"@) == Some(traits_value(r.traits)),
{
    reveal_strlit("city");
    assert("city"@.len() == 4 && "city"@[0] == 'c' && "city"@[1] == 'i' && "city"@[2] == 't' && "city"@[3] == 'y');
    reveal_strlit("continent");
    assert("continent"@.len() == 9 && "continent"@[0] == 'c' && "continent"@[1] == 'o' && "continent"@[2] == 'n' && "continent"@[3] == 't' && "continent"@[4] == 'i' && "continent"@[5] == 'n' && "continent"@[6] == 'e' && "continent"@[7] == 'n');
    reveal_strlit("country");
    assert("country"@.len() == 7 && "country"@[0] == 'c' && "country"@[1] == 'o' && "country"@[2] == 'u' && "country"@[3] == 'n' && "country"@[4] == 't' && "country"@[5] == 'r' && "country"@[6] == 'y');
    reveal_strlit("location");
    assert("location"@.len() == 8 && "location"@[0] == 'l' && "location"@[1] == 'o' && "location"@[2] == 'c' && "location"@[3] == 'a' && "location"@[4] == 't' && "location"@[5] == 'i' && "location"@[6] == 'o' && "location"@[7] == 'n');
    reveal_strlit("postal");
    assert("postal"@.len() == 6 && "postal"@[0] == 'p' && "postal"@[1] == 'o' && "postal"@[2] == 's' && "postal"@[3] == 't' && "postal"@[4] == 'a' && "postal"@[5] == 'l');
    reveal_strlit("registered_country");
    assert("registered_country"@.len() == 18 && "registered_country"@[0] == 'r' && "registered_country"@[1] == 'e' && "registered_country"@[2] == 'g' && "registered_country"@[3] == 'i' && "registered_country"@[4] == 's' && "registered_country"@[5] == 't' && "registered_country"@[6] == 'e' && "registered_country"@[7] == 'r');
    reveal_strlit("represented_country");
    assert("represented_country"@.len() == 19 && "represented_country"@[0] == 'r' && "represented_country"@[1] == 'e' && "represented_country"@[2] == 'p' && "represented_country"@[3] == 'r' && "represented_country"@[4] == 'e' && "represented_country"@[5] == 's' && "represented_country"@[6] == 'e' && "represented_country"@[7] == 'n');
    reveal_strlit("subdivisions");
    assert("subdivisions"@.len() == 12 && "subdivisions"@[0] == 's' && "subdivisions"@[1] == 'u' && "subdivisions"@[2] == 'b' && "subdivisions"@[3] == 'd' && "subdivisions"@[4] == 'i' && "subdivisions"@[5] == 'v' && "subdivisions"@[6] == 'i' && "subdivisions"@[7] == 's');
    reveal_strlit("traits");
    assert("traits"@.len() == 6 && "traits"@[0] == 't' && "traits"@[1] == 'r' && "traits"@[2] == 'a' && "traits"@[3] == 'i' && "traits"@[4] == 't' && "traits"@[5] == 's');
    let es = city_record_value(r)->Mapping_0;
    assert(distinct_entry_keys(es));
    lemma_entry_at(es, 0);
    lemma_entry_at(es, 1);
    lemma_entry_at(es, 2);
    lemma_entry_at(es, 3);
    lemma_entry_at(es, 4);
    lemma_entry_at(es, 5);
    lemma_entry_at(es, 6);
    lemma_entry_at(es, 7);
    lemma_entry_at(es, 8);
}

/// Each entry of an converted `EnterpriseCity` holds the field of the same name:
/// a missing field is null, a present one its value.
pub proof fn law_enterprise_city_entries_hold_their_fields(c: EnterpriseCity)
    ensures
        entry_of(enterprise_city_value(c), "confidence"@) == Some(match c.confidence { Some(x) => ValueModel::UInt8(x), None => ValueModel::Null }),
        entry_of(enterprise_city_value(c), "geoname_id"@) == Some(match c.geoname_id { Some(x) => ValueModel::UInt32(x), None => ValueModel::Null }),
        entry_of(enterprise_city_value(c), "names"@) == Some(names_value(c.names)),
{
    reveal_strlit("confidence");
    assert("confidence"@.len() == 10 && "confidence"@[0] == 'c' && "confidence"@[1] == 'o' && "confidence"@[2] == 'n' && "confidence"@[3] == 'f' && "confidence"@[4] == 'i' && "confidence"@[5] == 'd' && "confidence"@[6] == 'e' && "confidence"@[7] == 'n');
    reveal_strlit("geoname_id");
    assert("geoname_id"@.len() == 10 && "geoname_id"@[0] == 'g' && "geoname_id"@[1] == 'e' && "geoname_id"@[2] == 'o' && "geoname_id"@[3] == 'n' && "geoname_id"@[4] == 'a' && "geoname_id"@[5] == 'm' && "geoname_id"@[6] == 'e' && "geoname_id"@[7] == '_');
    reveal_strlit("names");
    assert("names"@.len() == 5 && "names"@[0] == 'n' && "names"@[1] == 'a' && "names"@[2] == 'm' && "names"@[3] == 'e' && "names"@[4] == 's');
    let es = enterprise_city_value(c)->Mapping_0;
    assert(distinct_entry_keys(es));
    lemma_entry_at(es, 0);
    lemma_entry_at(es, 1);
    lemma_entry_at(es, 2);
}

/// Each entry of an converted `EnterpriseCountry` holds the field of the same name:
/// a missing field is null, a present one its value.
pub proof fn law_enterprise_country_entries_hold_their_fields(c: EnterpriseCountry)
    ensures
        entry_of(enterprise_country_value(c), "confidence"@) == Some(match c.confidence { Some(x) => ValueModel::UInt8(x), None => ValueModel::Null }),
        entry_of(enterprise_country_value(c), "geoname_id"@) == Some(match c.geoname_id { Some(x) => ValueModel::UInt32(x), None => ValueModel::Null }),
        entry_of(enterprise_country_value(c), "is_in_european_union"@) == Some(match c.is_in_european_union { Some(b) => ValueModel::Boolean(b), None => ValueModel::Null }),
        entry_of(enterprise_country_value(c), "iso_code"@) == Some(match c.iso_code { Some(s) => ValueModel::String(s@), None => ValueModel::Null }),
        entry_of(enterprise_country_value(c), "names"@) == Some(names_value(c.names)),
{
    reveal_strlit("confidence");
    assert("confidence"@.len() == 10 && "confidence"@[0] == 'c' && "confidence"@[1] == 'o' && "confidence"@[2] == 'n' && "confidence"@[3] == 'f' && "confidence"@[4] == 'i' && "confidence"@[5] == 'd' && "confidence"@[6] == 'e' && "confidence"@[7] == 'n');
    reveal_strlit("geoname_id");
    assert("geoname_id"@.len() == 10 && "geoname_id"@[0] == 'g' && "geoname_id"@[1] == 'e' && "geoname_id"@[2] == 'o' && "geoname_id"@[3] == 'n' && "geoname_id"@[4] == 'a' && "geoname_id"@[5] == 'm' && "geoname_id"@[6] == 'e' && "geoname_id"@[7] == '_');
    reveal_strlit("is_in_european_union");
    assert("is_in_european_union"@.len() == 20 && "is_in_european_union"@[0] == 'i' && "is_in_european_union"@[1] == 's' && "is_in_european_union"@[2] == '_' && "is_in_european_union"@[3] == 'i' && "is_in_european_union"@[4] == 'n' && "is_in_european_union"@[5] == '_' && "is_in_european_union"@[6] == 'e' && "is_in_european_union"@[7] == 'u');
    reveal_strlit("iso_code");
    assert("iso_code"@.len() == 8 && "iso_code"@[0] == 'i' && "iso_code"@[1] == 's' && "iso_code"@[2] == 'o' && "iso_code"@[3] == '_' && "iso_code"@[4] == 'c' && "iso_code"@[5] == 'o' && "iso_code"@[6] == 'd' && "iso_code"@[7] == 'e');
    reveal_strlit("names");
    assert("names"@.len() == 5 && "names"@[0] == 'n' && "names"@[1] == 'a' && "names"@[2] == 'm' && "names"@[3] == 'e' && "names"@[4] == 's');
    let es = enterprise_country_value(c)->Mapping_0;
    assert(distinct_entry_keys(es));
    lemma_entry_at(es, 0);
    lemma_entry_at(es, 1);
    lemma_entry_at(es, 2);
    lemma_entry_at(es, 3);
    lemma_entry_at(es, 4);
}

/// Each entry of an converted `EnterprisePostal` holds the field of the same name:
/// a missing field is null, a present one its value.
pub proof fn law_enterprise_postal_entries_hold_their_fields(p: EnterprisePostal)
    ensures
        entry_of(enterprise_postal_value(p), "code"@) == Some(match p.code { Some(s) => ValueModel::String(s@), None => ValueModel::Null }),
        entry_of(enterprise_postal_value(p), "confidence"@) == Some(match p.confidence { Some(x) => ValueModel::UInt8(x), None => ValueModel::Null }),
{
    reveal_strlit("code");
    assert("code"@.len() == 4 && "code"@[0] == 'c' && "code"@[1] == 'o' && "code"@[2] == 'd' && "code"@[3] == 'e');
    reveal_strlit("confidence");
    assert("confidence"@.len() == 10 && "confidence"@[0] == 'c' && "confidence"@[1] == 'o' && "confidence"@[2] == 'n' && "confidence"@[3] == 'f' && "confidence"@[4] == 'i' && "confidence"@[5] == 'd' && "confidence"@[6] == 'e' && "confidence"@[7] == 'n');
    let es = enterprise_postal_value(p)->Mapping_0;
    assert(distinct_entry_keys(es));
    lemma_entry_at(es, 0);
    lemma_entry_at(es, 1);
}

/// Each entry of an converted `EnterpriseSubdivision` holds the field of the same name:
/// a missing field is null, a present one its value.
pub proof fn law_enterprise_subdivision_entries_hold_their_fields(s: EnterpriseSubdivision)
    ensures
        entry_of(enterprise_subdivision_value(s), "confidence"@) == Some(match s.confidence { Some(x) => ValueModel::UInt8(x), None => ValueModel::Null }),
        entry_of(enterprise_subdivision_value(s), "geoname_id"@) == Some(match s.geoname_id { Some(x) => ValueModel::UInt32(x), None => ValueModel::Null }),
        entry_of(enterprise_subdivision_value(s), "iso_code"@) == Some(match s.iso_code { Some(s) => ValueModel::String(s@), None => ValueModel::Null }),
        entry_of(enterprise_subdivision_value(s), "names"@) == Some(names_value(s.names)),
{
    reveal_strlit("confidence");
    assert("confidence"@.len() == 10 && "confidence"@[0] == 'c' && "confidence"@[1] == 'o' && "confidence"@[2] == 'n' && "confidence"@[3] == 'f' && "confidence"@[4] == 'i' && "confidence"@[5] == 'd' && "confidence"@[6] == 'e' && "confidence"@[7] == 'n');
    reveal_strlit("geoname_id");
    assert("geoname_id"@.len() == 10 && "geoname_id"@[0] == 'g' && "geoname_id"@[1] == 'e' && "geoname_id"@[2] == 'o' && "geoname_id"@[3] == 'n' && "geoname_id"@[4] == 'a' && "geoname_id"@[5] == 'm' && "geoname_id"@[6] == 'e' && "geoname_id"@[7] == '_');
    reveal_strlit("iso_code");
    assert("iso_code"@.len() == 8 && "iso_code"@[0] == 'i' && "iso_code"@[1] == 's' && "iso_code"@[2] == 'o' && "iso_code"@[3] == '_' && "iso_code"@[4] == 'c' && "iso_code"@[5] == 'o' && "iso_code"@[6] == 'd' && "iso_code"@[7] == 'e');
    reveal_strlit("names");
    assert("names"@.len() == 5 && "names"@[0] == 'n' && "names"@[1] == 'a' && "names"@[2] == 'm' && "names"@[3] == 'e' && "names"@[4] == 's');
    let es = enterprise_subdivision_value(s)->Mapping_0;
    assert(distinct_entry_keys(es));
    lemma_entry_at(es, 0);
    lemma_entry_at(es, 1);
    lemma_entry_at(es, 2);
    lemma_entry_at(es, 3);
}

/// Each entry of an converted `EnterpriseTraits` holds the field of the same name:
/// a missing field is null, a present one its value.
pub proof fn law_enterprise_traits_entries_hold_their_fields(t: EnterpriseTraits)
    ensures
        entry_of(enterprise_traits_value(t), "autonomous_system_number"@) == Some(match t.autonomous_system_number { Some(x) => ValueModel::UInt32(x), None => ValueModel::Null }),
        entry_of(enterprise_traits_value(t), "autonomous_system_organization"@) == Some(match t.autonomous_system_organization { Some(s) => ValueModel::String(s@), None => ValueModel::Null }),
        entry_of(enterprise_traits_value(t), "connection_type"@) == Some(match t.connection_type { Some(s) => ValueModel::String(s@), None => ValueModel::Null }),
        entry_of(enterprise_traits_value(t), "domain"@) == Some(match t.domain { Some(s) => ValueModel::String(s@), None => ValueModel::Null }),
        entry_of(enterprise_traits_value(t), "is_anonymous"@) == Some(match t.is_anonymous { Some(b) => ValueModel::Boolean(b), None => ValueModel::Null }),
        entry_of(enterprise_traits_value(t), "is_anonymous_vpn"@) == Some(match t.is_anonymous_vpn { Some(b) => ValueModel::Boolean(b), None => ValueModel::Null }),
        entry_of(enterprise_traits_value(t), "is_anycast"@) == Some(match t.is_anycast { Some(b) => ValueModel::Boolean(b), None => ValueModel::Null }),
        entry_of(enterprise_traits_value(t), "is_hosting_provider"@) == Some(match t.is_hosting_provider { Some(b) => ValueModel::Boolean(b), None => ValueModel::Null }),
        entry_of(enterprise_traits_value(t), "isp"@) == Some(match t.isp { Some(s) => ValueModel::String(s@), None => ValueModel::Null }),
        entry_of(enterprise_traits_value(t), "is_public_proxy"@) == Some(match t.is_public_proxy { Some(b) => ValueModel::Boolean(b), None => ValueModel::Null }),
        entry_of(enterprise_traits_value(t), "is_residential_proxy"@) == Some(match t.is_residential_proxy { Some(b) => ValueModel::Boolean(b), None => ValueModel::Null }),
        entry_of(enterprise_traits_value(t), "is_tor_exit_node"@) == Some(match t.is_tor_exit_node { Some(b) => ValueModel::Boolean(b), None => ValueModel::Null }),
        entry_of(enterprise_traits_value(t), "mobile_country_code"@) == Some(match t.mobile_country_code { Some(s) => ValueModel::String(s@), None => ValueModel::Null }),
        entry_of(enterprise_traits_value(t), "mobile_network_code"@) == Some(match t.mobile_network_code { Some(s) => ValueModel::String(s@), None => ValueModel::Null }),
        entry_of(enterprise_traits_value(t), "organization"@) == Some(match t.organization { Some(s) => ValueModel::String(s@), None => ValueModel::Null }),
        entry_of(enterprise_traits_value(t), "user_type"@) == Some(match t.user_type { Some(s) => ValueModel::String(s@), None => ValueModel::Null }),
{
    reveal_strlit("autonomous_system_number");
    assert("autonomous_system_number"@.len() == 24 && "autonomous_system_number"@[0] == 'a' && "autonomous_system_number"@[1] == 'u' && "autonomous_system_number"@[2] == 't' && "autonomous_system_number"@[3] == 'o' && "autonomous_system_number"@[4] == 'n' && "autonomous_system_number"@[5] == 'o' && "autonomous_system_number"@[6] == 'm' && "autonomous_system_number"@[7] == 'o');
    reveal_strlit("autonomous_system_organization");
    assert("autonomous_system_organization"@.len() == 30 && "autonomous_system_organization"@[0] == 'a' && "autonomous_system_organization"@[1] == 'u' && "autonomous_system_organization"@[2] == 't' && "autonomous_system_organization"@[3] == 'o' && "autonomous_system_organization"@[4] == 'n' && "autonomous_system_organization"@[5] == 'o' && "autonomous_system_organization"@[6] == 'm' && "autonomous_system_organization"@[7] == 'o');
    reveal_strlit("connection_type");
    assert("connection_type"@.len() == 15 && "connection_type"@[0] == 'c' && "connection_type"@[1] == 'o' && "connection_type"@[2] == 'n' && "connection_type"@[3] == 'n' && "connection_type"@[4] == 'e' && "connection_type"@[5] == 'c' && "connection_type"@[6] == 't' && "connection_type"@[7] == 'i');
    reveal_strlit("domain");
    assert("domain"@.len() == 6 && "domain"@[0] == 'd' && "domain"@[1] == 'o' && "domain"@[2] == 'm' && "domain"@[3] == 'a' && "domain"@[4] == 'i' && "domain"@[5] == 'n');
    reveal_strlit("is_anonymous");
    assert("is_anonymous"@.len() == 12 && "is_anonymous"@[0] == 'i' && "is_anonymous"@[1] == 's' && "is_anonymous"@[2] == '_' && "is_anonymous"@[3] == 'a' && "is_anonymous"@[4] == 'n' && "is_anonymous"@[5] == 'o' && "is_anonymous"@[6] == 'n' && "is_anonymous"@[7] == 'y');
    reveal_strlit("is_anonymous_vpn");
    assert("is_anonymous_vpn"@.len() == 16 && "is_anonymous_vpn"@[0] == 'i' && "is_anonymous_vpn"@[1] == 's' && "is_anonymous_vpn"@[2] == '_' && "is_anonymous_vpn"@[3] == 'a' && "is_anonymous_vpn"@[4] == 'n' && "is_anonymous_vpn"@[5] == 'o' && "is_anonymous_vpn"@[6] == 'n' && "is_anonymous_vpn"@[7] == 'y');
    reveal_strlit("is_anycast");
    assert("is_anycast"@.len() == 10 && "is_anycast"@[0] == 'i' && "is_anycast"@[1] == 's' && "is_anycast"@[2] == '_' && "is_anycast"@[3] == 'a' && "is_anycast"@[4] == 'n' && "is_anycast"@[5] == 'y' && "is_anycast"@[6] == 'c' && "is_anycast"@[7] == 'a');
    reveal_strlit("is_hosting_provider");
    assert("is_hosting_provider"@.len() == 19 && "is_hosting_provider"@[0] == 'i' && "is_hosting_provider"@[1] == 's' && "is_hosting_provider"@[2] == '_' && "is_hosting_provider"@[3] == 'h' && "is_hosting_provider"@[4] == 'o' && "is_hosting_provider"@[5] == 's' && "is_hosting_provider"@[6] == 't' && "is_hosting_provider"@[7] == 'i');
    reveal_strlit("isp");
    assert("isp"@.len() == 3 && "isp"@[0] == 'i' && "isp"@[1] == 's' && "isp"@[2] == 'p');
    reveal_strlit("is_public_proxy");
    assert("is_public_proxy"@.len() == 15 && "is_public_proxy"@[0] == 'i' && "is_public_proxy"@[1] == 's' && "is_public_proxy"@[2] == '_' && "is_public_proxy"@[3] == 'p' && "is_public_proxy"@[4] == 'u' && "is_public_proxy"@[5] == 'b' && "is_public_proxy"@[6] == 'l' && "is_public_proxy"@[7] == 'i');
    reveal_strlit("is_residential_proxy");
    assert("is_residential_proxy"@.len() == 20 && "is_residential_proxy"@[0] == 'i' && "is_residential_proxy"@[1] == 's' && "is_residential_proxy"@[2] == '_' && "is_residential_proxy"@[3] == 'r' && "is_residential_proxy"@[4] == 'e' && "is_residential_proxy"@[5] == 's' && "is_residential_proxy"@[6] == 'i' && "is_residential_proxy"@[7] == 'd');
    reveal_strlit("is_tor_exit_node");
    assert("is_tor_exit_node"@.len() == 16 && "is_tor_exit_node"@[0] == 'i' && "is_tor_exit_node"@[1] == 's' && "is_tor_exit_node"@[2] == '_' && "is_tor_exit_node"@[3] == 't' && "is_tor_exit_node"@[4] == 'o' && "is_tor_exit_node"@[5] == 'r' && "is_tor_exit_node"@[6] == '_' && "is_tor_exit_node"@[7] == 'e');
    reveal_strlit("mobile_country_code");
    assert("mobile_country_code"@.len() == 19 && "mobile_country_code"@[0] == 'm' && "mobile_country_code"@[1] == 'o' && "mobile_country_code"@[2] == 'b' && "mobile_country_code"@[3] == 'i' && "mobile_country_code"@[4] == 'l' && "mobile_country_code"@[5] == 'e' && "mobile_country_code"@[6] == '_' && "mobile_country_code"@[7] == 'c');
    reveal_strlit("mobile_network_code");
    assert("mobile_network_code"@.len() == 19 && "mobile_network_code"@[0] == 'm' && "mobile_network_code"@[1] == 'o' && "mobile_network_code"@[2] == 'b' && "mobile_network_code"@[3] == 'i' && "mobile_network_code"@[4] == 'l' && "mobile_network_code"@[5] == 'e' && "mobile_network_code"@[6] == '_' && "mobile_network_code"@[7] == 'n');
    reveal_strlit("organization");
    assert("organization"@.len() == 12 && "organization"@[0] == 'o' && "organization"@[1] == 'r' && "organization"@[2] == 'g' && "organization"@[3] == 'a' && "organization"@[4] == 'n' && "organization"@[5] == 'i' && "organization"@[6] == 'z' && "organization"@[7] == 'a');
    reveal_strlit("user_type");
    assert("user_type"@.len() == 9 && "user_type"@[0] == 'u' && "user_type"@[1] == 's' && "user_type"@[2] == 'e' && "user_type"@[3] == 'r' && "user_type"@[4] == '_' && "user_type"@[5] == 't' && "user_type"@[6] == 'y' && "user_type"@[7] == 'p');
    let es = enterprise_traits_value(t)->Mapping_0;
    assert(distinct_entry_keys(es));
    lemma_entry_at(es, 0);
    lemma_entry_at(es, 1);
    lemma_entry_at(es, 2);
    lemma_entry_at(es, 3);
    lemma_entry_at(es, 4);
    lemma_entry_at(es, 5);
    lemma_entry_at(es, 6);
    lemma_entry_at(es, 7);
    lemma_entry_at(es, 8);
    lemma_entry_at(es, 9);
    lemma_entry_at(es, 10);
    lemma_entry_at(es, 11);
    lemma_entry_at(es, 12);
    lemma_entry_at(es, 13);
    lemma_entry_at(es, 14);
    lemma_entry_at(es, 15);
}

/// Each entry of an converted `EnterpriseRecord` holds the field of the same name:
/// a missing field is null, a present one its value.
pub proof fn law_enterprise_record_entries_hold_their_fields(r: EnterpriseRecord)
    ensures
        entry_of(enterprise_record_value(r), "city"@) == Some(enterprise_city_value(r.city)),
        entry_of(enterprise_record_value(r), "continent"@) == Some(continent_value(r.continent)),
        entry_of(enterprise_record_value(r), "country"@) == Some(enterprise_country_value(r.country)),
        entry_of(enterprise_record_value(r), "location"@) == Some(location_value(r.location)),
        entry_of(enterprise_record_value(r), "postal"@) == Some(enterprise_postal_value(r.postal)),
        entry_of(enterprise_record_value(r), "registered_country"@) == Some(enterprise_country_value(r.registered_country)),
        entry_of(enterprise_record_value(r), "represented_country"@) == Some(represented_country_value(r.represented_country)),
        entry_of(enterprise_record_value(r), "subdivisions"@) == Some(enterprise_subdivisions_value(r.subdivisions@)),
        entry_of(enterprise_record_value(r), "traits"@) == Some(enterprise_traits_value(r.traits)),
{
    reveal_strlit("city");
    assert("city"@.len() == 4 && "city"@[0] == 'c' && "city"@[1] == 'i' && "city"@[2] == 't' && "city"@[3] == 'y');
    reveal_strlit("continent");
    assert("continent"@.len() == 9 && "continent"@[0] == 'c' && "continent"@[1] == 'o' && "continent"@[2] == 'n' && "continent"@[3] == 't' && "continent"@[4] == 'i' && "continent"@[5] == 'n' && "continent"@[6] == 'e' && "continent"@[7] == 'n');
    reveal_strlit("country");
    assert("country"@.len() == 7 && "country"@[0] == 'c' && "country"@[1] == 'o' && "country"@[2] == 'u' && "country"@[3] == 'n' && "country"@[4] == 't' && "country"@[5] == 'r' && "country"@[6] == 'y');
    reveal_strlit("location");
    assert("location"@.len() == 8 && "location"@[0] == 'l' && "location"@[1] == 'o' && "location"@[2] == 'c' && "location"@[3] == 'a' && "location"@[4] == 't' && "location"@[5] == 'i' && "location"@[6] == 'o' && "location"@[7] == 'n');
    reveal_strlit("postal");
    assert("postal"@.len() == 6 && "postal"@[0] == 'p' && "postal"@[1] == 'o' && "postal"@[2] == 's' && "postal"@[3] == 't' && "postal"@[4] == 'a' && "postal"@[5] == 'l');
    reveal_strlit("registered_country");
    assert("registered_country"@.len() == 18 && "registered_country"@[0] == 'r' && "registered_country"@[1] == 'e' && "registered_country"@[2] == 'g' && "registered_country"@[3] == 'i' && "registered_country"@[4] == 's' && "registered_country"@[5] == 't' && "registered_country"@[6] == 'e' && "registered_country"@[7] == 'r');
    reveal_strlit("represented_country");
    assert("represented_country"@.len() == 19 && "represented_country"@[0] == 'r' && "represented_country"@[1] == 'e' && "represented_country"@[2] == 'p' && "represented_country"@[3] == 'r' && "represented_country"@[4] == 'e' && "represented_country"@[5] == 's' && "represented_country"@[6] == 'e' && "represented_country"@[7] == 'n');
    reveal_strlit("subdivisions");
    assert("subdivisions"@.len() == 12 && "subdivisions"@[0] == 's' && "subdivisions"@[1] == 'u' && "subdivisions"@[2] == 'b' && "subdivisions"@[3] == 'd' && "subdivisions"@[4] == 'i' && "subdivisions"@[5] == 'v' && "subdivisions"@[6] == 'i' && "subdivisions"@[7] == 's');
    reveal_strlit("traits");
    assert("traits"@.len() == 6 && "traits"@[0] == 't' && "traits"@[1] == 'r' && "traits"@[2] == 'a' && "traits"@[3] == 'i' && "traits"@[4] == 't' && "traits"@[5] == 's');
    let es = enterprise_record_value(r)->Mapping_0;
    assert(distinct_entry_keys(es));
    lemma_entry_at(es, 0);
    lemma_entry_at(es, 1);
    lemma_entry_at(es, 2);
    lemma_entry_at(es, 3);
    lemma_entry_at(es, 4);
    lemma_entry_at(es, 5);
    lemma_entry_at(es, 6);
    lemma_entry_at(es, 7);
    lemma_entry_at(es, 8);
}

/// Each entry of an converted `IspRecord` holds the field of the same name:
/// a missing field is null, a present one its value.
pub proof fn law_isp_record_entries_hold_their_fields(r: IspRecord)
    ensures
        entry_of(isp_record_value(r), "autonomous_system_number"@) == Some(match r.autonomous_system_number { Some(x) => ValueModel::UInt32(x), None => ValueModel::Null }),
        entry_of(isp_record_value(r), "autonomous_system_organization"@) == Some(match r.autonomous_system_organization { Some(s) => ValueModel::String(s@), None => ValueModel::Null }),
        entry_of(isp_record_value(r), "isp"@) == Some(match r.isp { Some(s) => ValueModel::String(s@), None => ValueModel::Null }),
        entry_of(isp_record_value(r), "mobile_country_code"@) == Some(match r.mobile_country_code { Some(s) => ValueModel::String(s@), None => ValueModel::Null }),
        entry_of(isp_record_value(r), "mobile_network_code"@) == Some(match r.mobile_network_code { Some(s) => ValueModel::String(s@), None => ValueModel::Null }),
        entry_of(isp_record_value(r), "organization"@) == Some(match r.organization { Some(s) => ValueModel::String(s@), None => ValueModel::Null }),
{
    reveal_strlit("autonomous_system_number");
    assert("autonomous_system_number"@.len() == 24 && "autonomous_system_number"@[0] == 'a' && "autonomous_system_number"@[1] == 'u' && "autonomous_system_number"@[2] == 't' && "autonomous_system_number"@[3] == 'o' && "autonomous_system_number"@[4] == 'n' && "autonomous_system_number"@[5] == 'o' && "autonomous_system_number"@[6] == 'm' && "autonomous_system_number"@[7] == 'o');
    reveal_strlit("autonomous_system_organization");
    assert("autonomous_system_organization"@.len() == 30 && "autonomous_system_organization"@[0] == 'a' && "autonomous_system_organization"@[1] == 'u' && "autonomous_system_organization"@[2] == 't' && "autonomous_system_organization"@[3] == 'o' && "autonomous_system_organization"@[4] == 'n' && "autonomous_system_organization"@[5] == 'o' && "autonomous_system_organization"@[6] == 'm' && "autonomous_system_organization"@[7] == 'o');
    reveal_strlit("isp");
    assert("isp"@.len() == 3 && "isp"@[0] == 'i' && "isp"@[1] == 's' && "isp"@[2] == 'p');
    reveal_strlit("mobile_country_code");
    assert("mobile_country_code"@.len() == 19 && "mobile_country_code"@[0] == 'm' && "mobile_country_code"@[1] == 'o' && "mobile_country_code"@[2] == 'b' && "mobile_country_code"@[3] == 'i' && "mobile_country_code"@[4] == 'l' && "mobile_country_code"@[5] == 'e' && "mobile_country_code"@[6] == '_' && "mobile_country_code"@[7] == 'c');
    reveal_strlit("mobile_network_code");
    assert("mobile_network_code"@.len() == 19 && "mobile_network_code"@[0] == 'm' && "mobile_network_code"@[1] == 'o' && "mobile_network_code"@[2] == 'b' && "mobile_network_code"@[3] == 'i' && "mobile_network_code"@[4] == 'l' && "mobile_network_code"@[5] == 'e' && "mobile_network_code"@[6] == '_' && "mobile_network_code"@[7] == 'n');
    reveal_strlit("organization");
    assert("organization"@.len() == 12 && "organization"@[0] == 'o' && "organization"@[1] == 'r' && "organization"@[2] == 'g' && "organization"@[3] == 'a' && "organization"@[4] == 'n' && "organization"@[5] == 'i' && "organization"@[6] == 'z' && "organization"@[7] == 'a');
    let es = isp_record_value(r)->Mapping_0;
    assert(distinct_entry_keys(es));
    lemma_entry_at(es, 0);
    lemma_entry_at(es, 1);
    lemma_entry_at(es, 2);
    lemma_entry_at(es, 3);
    lemma_entry_at(es, 4);
    lemma_entry_at(es, 5);
}

/// Each entry of a converted `ConnectionTypeRecord` holds the field of the same name:
/// a missing field is null, a present one its value.
pub proof fn law_connection_type_record_entries_hold_their_fields(r: ConnectionTypeRecord)
    ensures
        entry_of(connection_type_record_value(r), "connection_type"@) == Some(match r.connection_type { Some(s) => ValueModel::String(s@), None => ValueModel::Null }),
{
    reveal_strlit("connection_type");
    assert("connection_type"@.len() == 15 && "connection_type"@[0] == 'c' && "connection_type"@[1] == 'o' && "connection_type"@[2] == 'n' && "connection_type"@[3] == 'n' && "connection_type"@[4] == 'e' && "connection_type"@[5] == 'c' && "connection_type"@[6] == 't' && "connection_type"@[7] == 'i');
    let es = connection_type_record_value(r)->Mapping_0;
    assert(distinct_entry_keys(es));
    lemma_entry_at(es, 0);
}

/// Each entry of an converted `AnonymousIpRecord` holds the field of the same name:
/// a missing field is null, a present one its value.
pub proof fn law_anonymous_ip_record_entries_hold_their_fields(r: AnonymousIpRecord)
    ensures
        entry_of(anonymous_ip_record_value(r), "is_anonymous"@) == Some(match r.is_anonymous { Some(b) => ValueModel::Boolean(b), None => ValueModel::Null }),
        entry_of(anonymous_ip_record_value(r), "is_anonymous_vpn"@) == Some(match r.is_anonymous_vpn { Some(b) => ValueModel::Boolean(b), None => ValueModel::Null }),
        entry_of(anonymous_ip_record_value(r), "is_hosting_provider"@) == Some(match r.is_hosting_provider { Some(b) => ValueModel::Boolean(b), None => ValueModel::Null }),
        entry_of(anonymous_ip_record_value(r), "is_public_proxy"@) == Some(match r.is_public_proxy { Some(b) => ValueModel::Boolean(b), None => ValueModel::Null }),
        entry_of(anonymous_ip_record_value(r), "is_residential_proxy"@) == Some(match r.is_residential_proxy { Some(b) => ValueModel::Boolean(b), None => ValueModel::Null }),
        entry_of(anonymous_ip_record_value(r), "is_tor_exit_node"@) == Some(match r.is_tor_exit_node { Some(b) => ValueModel::Boolean(b), None => ValueModel::Null }),
{
    reveal_strlit("is_anonymous");
    assert("is_anonymous"@.len() == 12 && "is_anonymous"@[0] == 'i' && "is_anonymous"@[1] == 's' && "is_anonymous"@[2] == '_' && "is_anonymous"@[3] == 'a' && "is_anonymous"@[4] == 'n' && "is_anonymous"@[5] == 'o' && "is_anonymous"@[6] == 'n' && "is_anonymous"@[7] == 'y');
    reveal_strlit("is_anonymous_vpn");
    assert("is_anonymous_vpn"@.len() == 16 && "is_anonymous_vpn"@[0] == 'i' && "is_anonymous_vpn"@[1] == 's' && "is_anonymous_vpn"@[2] == '_' && "is_anonymous_vpn"@[3] == 'a' && "is_anonymous_vpn"@[4] == 'n' && "is_anonymous_vpn"@[5] == 'o' && "is_anonymous_vpn"@[6] == 'n' && "is_anonymous_vpn"@[7] == 'y');
    reveal_strlit("is_hosting_provider");
    assert("is_hosting_provider"@.len() == 19 && "is_hosting_provider"@[0] == 'i' && "is_hosting_provider"@[1] == 's' && "is_hosting_provider"@[2] == '_' && "is_hosting_provider"@[3] == 'h' && "is_hosting_provider"@[4] == 'o' && "is_hosting_provider"@[5] == 's' && "is_hosting_provider"@[6] == 't' && "is_hosting_provider"@[7] == 'i');
    reveal_strlit("is_public_proxy");
    assert("is_public_proxy"@.len() == 15 && "is_public_proxy"@[0] == 'i' && "is_public_proxy"@[1] == 's' && "is_public_proxy"@[2] == '_' && "is_public_proxy"@[3] == 'p' && "is_public_proxy"@[4] == 'u' && "is_public_proxy"@[5] == 'b' && "is_public_proxy"@[6] == 'l' && "is_public_proxy"@[7] == 'i');
    reveal_strlit("is_residential_proxy");
    assert("is_residential_proxy"@.len() == 20 && "is_residential_proxy"@[0] == 'i' && "is_residential_proxy"@[1] == 's' && "is_residential_proxy"@[2] == '_' && "is_residential_proxy"@[3] == 'r' && "is_residential_proxy"@[4] == 'e' && "is_residential_proxy"@[5] == 's' && "is_residential_proxy"@[6] == 'i' && "is_residential_proxy"@[7] == 'd');
    reveal_strlit("is_tor_exit_node");
    assert("is_tor_exit_node"@.len() == 16 && "is_tor_exit_node"@[0] == 'i' && "is_tor_exit_node"@[1] == 's' && "is_tor_exit_node"@[2] == '_' && "is_tor_exit_node"@[3] == 't' && "is_tor_exit_node"@[4] == 'o' && "is_tor_exit_node"@[5] == 'r' && "is_tor_exit_node"@[6] == '_' && "is_tor_exit_node"@[7] == 'e');
    let es = anonymous_ip_record_value(r)->Mapping_0;
    assert(distinct_entry_keys(es));
    lemma_entry_at(es, 0);
    lemma_entry_at(es, 1);
    lemma_entry_at(es, 2);
    lemma_entry_at(es, 3);
    lemma_entry_at(es, 4);
    lemma_entry_at(es, 5);
}

/// Each entry of a converted `DensityIncomeRecord` holds the field of the same name:
/// a missing field is null, a present one its value.
pub proof fn law_density_income_record_entries_hold_their_fields(r: DensityIncomeRecord)
    ensures
        entry_of(density_income_record_value(r), "average_income"@) == Some(match r.average_income { Some(x) => ValueModel::UInt32(x), None => ValueModel::Null }),
        entry_of(density_income_record_value(r), "population_density"@) == Some(match r.population_density { Some(x) => ValueModel::UInt32(x), None => ValueModel::Null }),
{
    reveal_strlit("average_income");
    assert("average_income"@.len() == 14 && "average_income"@[0] == 'a' && "average_income"@[1] == 'v' && "average_income"@[2] == 'e' && "average_income"@[3] == 'r' && "average_income"@[4] == 'a' && "average_income"@[5] == 'g' && "average_income"@[6] == 'e' && "average_income"@[7] == '_');
    reveal_strlit("population_density");
    assert("population_density"@.len() == 18 && "population_density"@[0] == 'p' && "population_density"@[1] == 'o' && "population_density"@[2] == 'p' && "population_density"@[3] == 'u' && "population_density"@[4] == 'l' && "population_density"@[5] == 'a' && "population_density"@[6] == 't' && "population_density"@[7] == 'i');
    let es = density_income_record_value(r)->Mapping_0;
    assert(distinct_entry_keys(es));
    lemma_entry_at(es, 0);
    lemma_entry_at(es, 1);
}

/// Each entry of a converted `DomainRecord` holds the field of the same name:
/// a missing field is null, a present one its value.
pub proof fn law_domain_record_entries_hold_their_fields(r: DomainRecord)
    ensures
        entry_of(domain_record_value(r), "domain"@) == Some(match r.domain { Some(s) => ValueModel::String(s@), None => ValueModel::Null }),
{
    reveal_strlit("domain");
    assert("domain"@.len() == 6 && "domain"@[0] == 'd' && "domain"@[1] == 'o' && "domain"@[2] == 'm' && "domain"@[3] == 'a' && "domain"@[4] == 'i' && "domain"@[5] == 'n');
    let es = domain_record_value(r)->Mapping_0;
    assert(distinct_entry_keys(es));
    lemma_entry_at(es, 0);
}

/// Each entry of an converted `AsnRecord` holds the field of the same name:
/// a missing field is null, a present one its value.
pub proof fn law_asn_record_entries_hold_their_fields(r: AsnRecord)
    ensures
        entry_of(asn_record_value(r), "autonomous_system_number"@) == Some(match r.autonomous_system_number { Some(x) => ValueModel::UInt32(x), None => ValueModel::Null }),
        entry_of(asn_record_value(r), "autonomous_system_organization"@) == Some(match r.autonomous_system_organization { Some(s) => ValueModel::String(s@), None => ValueModel::Null }),
{
    reveal_strlit("autonomous_system_number");
    assert("autonomous_system_number"@.len() == 24 && "autonomous_system_number"@[0] == 'a' && "autonomous_system_number"@[1] == 'u' && "autonomous_system_number"@[2] == 't' && "autonomous_system_number"@[3] == 'o' && "autonomous_system_number"@[4] == 'n' && "autonomous_system_number"@[5] == 'o' && "autonomous_system_number"@[6] == 'm' && "autonomous_system_number"@[7] == 'o');
    reveal_strlit("autonomous_system_organization");
    assert("autonomous_system_organization"@.len() == 30 && "autonomous_system_organization"@[0] == 'a' && "autonomous_system_organization"@[1] == 'u' && "autonomous_system_organization"@[2] == 't' && "autonomous_system_organization"@[3] == 'o' && "autonomous_system_organization"@[4] == 'n' && "autonomous_system_organization"@[5] == 'o' && "autonomous_system_organization"@[6] == 'm' && "autonomous_system_organization"@[7] == 'o');
    let es = asn_record_value(r)->Mapping_0;
    assert(distinct_entry_keys(es));
    lemma_entry_at(es, 0);
    lemma_entry_at(es, 1);
}

/// Reading one more digit multiplies what was read by ten and adds it.
proof fn lemma_read_digits_push(s: Seq<char>, acc: int, c: char)
    requires
        is_digit(c),
        read_digits(s, acc) is Ok,
    ensures
        read_digits(s.push(c), acc) == (if read_digits(s, acc)->Ok_0 * 10 + digit_value(c)
            > usize::MAX {
            Err::<int, NumberError>(NumberError::TooLarge)
        } else {
            Ok::<int, NumberError>(read_digits(s, acc)->Ok_0 * 10 + digit_value(c))
        }),
    decreases s.len(),
{
    if s.len() == 0 {
        assert(s.push(c).drop_first() =~= Seq::<char>::empty());
        assert(s.push(c)[0] == c);
        assert(read_digits(s, acc) == Ok::<int, NumberError>(acc));
        assert(read_digits(Seq::<char>::empty(), acc * 10 + digit_value(c)) == Ok::<int, NumberError>(
            acc * 10 + digit_value(c),
        ));
    } else {
        assert(s.push(c)[0] == s[0]);
        assert(s.push(c).drop_first() =~= s.drop_first().push(c));
        assert(read_digits(s, acc) == read_digits(s.drop_first(), acc * 10 + digit_value(s[0])));
        lemma_read_digits_push(s.drop_first(), acc * 10 + digit_value(s[0]), c);
        assert(read_digits(s.push(c), acc) == read_digits(
            s.push(c).drop_first(),
            acc * 10 + digit_value(s[0]),
        ));
    }
}

/// A decimal digit character reads as its digit.
proof fn lemma_digit_char(d: nat)
    requires
        d < 10,
    ensures
        is_digit(digit_char(d)),
        digit_value(digit_char(d)) == d,
{
}

/// The decimal text of a number reads back as that number.
proof fn lemma_read_digits_of(n: nat)
    requires
        n <= usize::MAX,
    ensures
        read_digits(digits(n), 0) == Ok::<int, NumberError>(n as int),
        digits(n).len() > 0,
        is_digit(digits(n)[0]),
    decreases n,
{
    if n < 10 {
        lemma_digit_char(n);
        assert(seq![digit_char(n)] =~= Seq::<char>::empty().push(digit_char(n)));
        assert(read_digits(Seq::<char>::empty(), 0) == Ok::<int, NumberError>(0));
        lemma_read_digits_push(Seq::<char>::empty(), 0, digit_char(n));
    } else {
        lemma_read_digits_of(n / 10);
        lemma_digit_char(n % 10);
        lemma_read_digits_push(digits(n / 10), 0, digit_char(n % 10));
        assert(digits(n)[0] == digits(n / 10)[0]);
    }
}

/// Reading a number's decimal text, with or without a leading `+`, gives
/// that number back, for every number up to `usize::MAX`.
pub proof fn law_decimal_text_reads_back(n: nat)
    requires
        n <= usize::MAX,
    ensures
        parse_usize(digits(n)) == Ok::<int, NumberError>(n as int),
        parse_usize(seq!['+'] + digits(n)) == Ok::<int, NumberError>(n as int),
{
    lemma_read_digits_of(n);
    assert(digits(n) != seq!['+']);
    assert(digits(n) != seq!['-']);
    let plus = seq!['+'] + digits(n);
    assert(plus.drop_first() =~= digits(n));
    assert(plus[0] == '+');
    assert(plus != seq!['+'] && plus != seq!['-']) by {
        assert(plus.len() > 1);
    }
}

/// The list position a decoder step reaches in a list of `len` elements:
/// an index from the start, or counted back from the last element
/// (`IndexFromEnd(0)` is the last one, as `maxminddb` reads it).
pub open spec fn step_position(step: StepModel, len: int) -> Option<int> {
    match step {
        StepModel::Index(i) => Some(i),
        StepModel::IndexFromEnd(j) => Some(len - 1 - j),
        StepModel::Key(_) => None,
    }
}

/// Path indexes count like Python's: in a list of `len` elements, a
/// non-negative index `i` reaches position `i` and a negative one reaches
/// position `len + i`, so `-1` is the last element.
pub proof fn law_negative_indexes_count_from_the_end(i: int, len: int)
    requires
        i64::MIN < i <= i64::MAX,
        0 <= len <= usize::MAX,
        -len <= i < len,
    ensures
        step_for(PartModel::Index(i)) matches Some(step) && step_position(step, len) == Some(
            if i >= 0 {
                i
            } else {
                len + i
            },
        ),
{
}

} // verus!
