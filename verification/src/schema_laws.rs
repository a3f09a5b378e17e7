use vstd::prelude::*;
use vstd::string::*;

use crate::column::{build_model, ColumnModel};
use crate::known::KnownRecord;
use crate::layout_laws::{distinct_fields, distinct_names};
use crate::record_laws::{
    law_projected_value_builds_a_present_row, law_projecting_twice_is_projecting_once, shaped,
};
use crate::schema::{
    anonymous_ip_model, asn_model, city_model, connection_type_model, continent_model,
    country_fields_model, country_model, country_record_model, density_income_model, domain_model,
    enterprise_country_model, enterprise_model, enterprise_subdivision_model,
    enterprise_traits_model, isp_model, location_model, names_model, record_model,
    represented_country_model, subdivision_model, traits_model, Dtype, FieldModel,
};
use crate::value::{project_model, ValueErrorModel, ValueModel};

verus! {

/// Fields with pairwise distinct names, each with distinct names within,
/// make a Struct with distinct names.
proof fn lemma_fields_distinct(fields: Seq<FieldModel>)
    requires
        forall|j: int| 0 <= j < fields.len() ==> distinct_names(#[trigger] fields[j].dtype),
        forall|a: int, b: int|
            0 <= a < b < fields.len() ==> #[trigger] fields[a].name != #[trigger] fields[b].name,
    ensures
        distinct_fields(fields),
        distinct_names(Dtype::Struct(fields)),
    decreases fields.len(),
{
    if fields.len() > 0 {
        let prefix = fields.drop_last();
        assert forall|j: int| 0 <= j < prefix.len() implies distinct_names(#[trigger] prefix[j].dtype) by {
            assert(prefix[j] == fields[j]);
        }
        assert forall|a: int, b: int| 0 <= a < b < prefix.len() implies #[trigger] prefix[a].name
            != #[trigger] prefix[b].name by {
            assert(prefix[a] == fields[a]);
            assert(prefix[b] == fields[b]);
        }
        lemma_fields_distinct(prefix);
        assert(distinct_names(fields[fields.len() - 1].dtype));
        assert forall|j: int| 0 <= j < fields.len() - 1 implies fields[j].name != fields.last().name by {
            assert(fields[j].name != fields[fields.len() - 1].name);
        }
    }
    assert(distinct_names(Dtype::Struct(fields)) == distinct_fields(fields));
}

/// Field names are distinct in every Struct of `names_model`.
proof fn lemma_names_distinct()
    ensures
        distinct_names(names_model()),
{
    reveal_strlit("de");
    assert("de"@.len() == 2 && "de"@[0] == 'd' && "de"@[1] == 'e');
    reveal_strlit("en");
    assert("en"@.len() == 2 && "en"@[0] == 'e' && "en"@[1] == 'n');
    reveal_strlit("es");
    assert("es"@.len() == 2 && "es"@[0] == 'e' && "es"@[1] == 's');
    reveal_strlit("fr");
    assert("fr"@.len() == 2 && "fr"@[0] == 'f' && "fr"@[1] == 'r');
    reveal_strlit("ja");
    assert("ja"@.len() == 2 && "ja"@[0] == 'j' && "ja"@[1] == 'a');
    reveal_strlit("pt-BR");
    assert("pt-BR"@.len() == 5 && "pt-BR"@[0] == 'p' && "pt-BR"@[1] == 't' && "pt-BR"@[2] == '-' && "pt-BR"@[3] == 'B' && "pt-BR"@[4] == 'R');
    reveal_strlit("ru");
    assert("ru"@.len() == 2 && "ru"@[0] == 'r' && "ru"@[1] == 'u');
    reveal_strlit("zh-CN");
    assert("zh-CN"@.len() == 5 && "zh-CN"@[0] == 'z' && "zh-CN"@[1] == 'h' && "zh-CN"@[2] == '-' && "zh-CN"@[3] == 'C' && "zh-CN"@[4] == 'N');
    lemma_fields_distinct(names_model()->Struct_0);
}

/// Field names are distinct in every Struct of `continent_model`.
proof fn lemma_continent_distinct()
    ensures
        distinct_names(continent_model()),
{
    lemma_names_distinct();
    reveal_strlit("code");
    assert("code"@.len() == 4 && "code"@[0] == 'c' && "code"@[1] == 'o' && "code"@[2] == 'd' && "code"@[3] == 'e');
    reveal_strlit("geoname_id");
    assert("geoname_id"@.len() == 10 && "geoname_id"@[0] == 'g' && "geoname_id"@[1] == 'e' && "geoname_id"@[2] == 'o' && "geoname_id"@[3] == 'n' && "geoname_id"@[4] == 'a' && "geoname_id"@[5] == 'm' && "geoname_id"@[6] == 'e' && "geoname_id"@[7] == '_');
    reveal_strlit("names");
    assert("names"@.len() == 5 && "names"@[0] == 'n' && "names"@[1] == 'a' && "names"@[2] == 'm' && "names"@[3] == 'e' && "names"@[4] == 's');
    lemma_fields_distinct(continent_model()->Struct_0);
}

/// Field names are distinct in every Struct of `country_model`.
proof fn lemma_country_distinct()
    ensures
        distinct_names(country_model()),
{
    lemma_names_distinct();
    reveal_strlit("geoname_id");
    assert("geoname_id"@.len() == 10 && "geoname_id"@[0] == 'g' && "geoname_id"@[1] == 'e' && "geoname_id"@[2] == 'o' && "geoname_id"@[3] == 'n' && "geoname_id"@[4] == 'a' && "geoname_id"@[5] == 'm' && "geoname_id"@[6] == 'e' && "geoname_id"@[7] == '_');
    reveal_strlit("is_in_european_union");
    assert("is_in_european_union"@.len() == 20 && "is_in_european_union"@[0] == 'i' && "is_in_european_union"@[1] == 's' && "is_in_european_union"@[2] == '_' && "is_in_european_union"@[3] == 'i' && "is_in_european_union"@[4] == 'n' && "is_in_european_union"@[5] == '_' && "is_in_european_union"@[6] == 'e' && "is_in_european_union"@[7] == 'u');
    reveal_strlit("iso_code");
    assert("iso_code"@.len() == 8 && "iso_code"@[0] == 'i' && "iso_code"@[1] == 's' && "iso_code"@[2] == 'o' && "iso_code"@[3] == '_' && "iso_code"@[4] == 'c' && "iso_code"@[5] == 'o' && "iso_code"@[6] == 'd' && "iso_code"@[7] == 'e');
    reveal_strlit("names");
    assert("names"@.len() == 5 && "names"@[0] == 'n' && "names"@[1] == 'a' && "names"@[2] == 'm' && "names"@[3] == 'e' && "names"@[4] == 's');
    lemma_fields_distinct(country_fields_model());
}

/// Field names are distinct in every Struct of `represented_country_model`.
proof fn lemma_represented_country_distinct()
    ensures
        distinct_names(represented_country_model()),
{
    lemma_names_distinct();
    reveal_strlit("geoname_id");
    assert("geoname_id"@.len() == 10 && "geoname_id"@[0] == 'g' && "geoname_id"@[1] == 'e' && "geoname_id"@[2] == 'o' && "geoname_id"@[3] == 'n' && "geoname_id"@[4] == 'a' && "geoname_id"@[5] == 'm' && "geoname_id"@[6] == 'e' && "geoname_id"@[7] == '_');
    reveal_strlit("is_in_european_union");
    assert("is_in_european_union"@.len() == 20 && "is_in_european_union"@[0] == 'i' && "is_in_european_union"@[1] == 's' && "is_in_european_union"@[2] == '_' && "is_in_european_union"@[3] == 'i' && "is_in_european_union"@[4] == 'n' && "is_in_european_union"@[5] == '_' && "is_in_european_union"@[6] == 'e' && "is_in_european_union"@[7] == 'u');
    reveal_strlit("iso_code");
    assert("iso_code"@.len() == 8 && "iso_code"@[0] == 'i' && "iso_code"@[1] == 's' && "iso_code"@[2] == 'o' && "iso_code"@[3] == '_' && "iso_code"@[4] == 'c' && "iso_code"@[5] == 'o' && "iso_code"@[6] == 'd' && "iso_code"@[7] == 'e');
    reveal_strlit("names");
    assert("names"@.len() == 5 && "names"@[0] == 'n' && "names"@[1] == 'a' && "names"@[2] == 'm' && "names"@[3] == 'e' && "names"@[4] == 's');
    reveal_strlit("type");
    assert("type"@.len() == 4 && "type"@[0] == 't' && "type"@[1] == 'y' && "type"@[2] == 'p' && "type"@[3] == 'e');
    lemma_fields_distinct(represented_country_model()->Struct_0);
}

/// Field names are distinct in every Struct of `subdivision_model`.
proof fn lemma_subdivision_distinct()
    ensures
        distinct_names(subdivision_model()),
{
    lemma_names_distinct();
    reveal_strlit("geoname_id");
    assert("geoname_id"@.len() == 10 && "geoname_id"@[0] == 'g' && "geoname_id"@[1] == 'e' && "geoname_id"@[2] == 'o' && "geoname_id"@[3] == 'n' && "geoname_id"@[4] == 'a' && "geoname_id"@[5] == 'm' && "geoname_id"@[6] == 'e' && "geoname_id"@[7] == '_');
    reveal_strlit("iso_code");
    assert("iso_code"@.len() == 8 && "iso_code"@[0] == 'i' && "iso_code"@[1] == 's' && "iso_code"@[2] == 'o' && "iso_code"@[3] == '_' && "iso_code"@[4] == 'c' && "iso_code"@[5] == 'o' && "iso_code"@[6] == 'd' && "iso_code"@[7] == 'e');
    reveal_strlit("names");
    assert("names"@.len() == 5 && "names"@[0] == 'n' && "names"@[1] == 'a' && "names"@[2] == 'm' && "names"@[3] == 'e' && "names"@[4] == 's');
    lemma_fields_distinct(subdivision_model()->Struct_0);
}

/// Field names are distinct in every Struct of `location_model`.
proof fn lemma_location_distinct()
    ensures
        distinct_names(location_model()),
{
    reveal_strlit("accuracy_radius");
    assert("accuracy_radius"@.len() == 15 && "accuracy_radius"@[0] == 'a' && "accuracy_radius"@[1] == 'c' && "accuracy_radius"@[2] == 'c' && "accuracy_radius"@[3] == 'u' && "accuracy_radius"@[4] == 'r' && "accuracy_radius"@[5] == 'a' && "accuracy_radius"@[6] == 'c' && "accuracy_radius"@[7] == 'y');
    reveal_strlit("latitude");
    assert("latitude"@.len() == 8 && "latitude"@[0] == 'l' && "latitude"@[1] == 'a' && "latitude"@[2] == 't' && "latitude"@[3] == 'i' && "latitude"@[4] == 't' && "latitude"@[5] == 'u' && "latitude"@[6] == 'd' && "latitude"@[7] == 'e');
    reveal_strlit("longitude");
    assert("longitude"@.len() == 9 && "longitude"@[0] == 'l' && "longitude"@[1] == 'o' && "longitude"@[2] == 'n' && "longitude"@[3] == 'g' && "longitude"@[4] == 'i' && "longitude"@[5] == 't' && "longitude"@[6] == 'u' && "longitude"@[7] == 'd');
    reveal_strlit("metro_code");
    assert("metro_code"@.len() == 10 && "metro_code"@[0] == 'm' && "metro_code"@[1] == 'e' && "metro_code"@[2] == 't' && "metro_code"@[3] == 'r' && "metro_code"@[4] == 'o' && "metro_code"@[5] == '_' && "metro_code"@[6] == 'c' && "metro_code"@[7] == 'o');
    reveal_strlit("time_zone");
    assert("time_zone"@.len() == 9 && "time_zone"@[0] == 't' && "time_zone"@[1] == 'i' && "time_zone"@[2] == 'm' && "time_zone"@[3] == 'e' && "time_zone"@[4] == '_' && "time_zone"@[5] == 'z' && "time_zone"@[6] == 'o' && "time_zone"@[7] == 'n');
    lemma_fields_distinct(location_model()->Struct_0);
}

/// Field names are distinct in every Struct of `traits_model`.
proof fn lemma_traits_distinct()
    ensures
        distinct_names(traits_model()),
{
    reveal_strlit("is_anycast");
    assert("is_anycast"@.len() == 10 && "is_anycast"@[0] == 'i' && "is_anycast"@[1] == 's' && "is_anycast"@[2] == '_' && "is_anycast"@[3] == 'a' && "is_anycast"@[4] == 'n' && "is_anycast"@[5] == 'y' && "is_anycast"@[6] == 'c' && "is_anycast"@[7] == 'a');
    lemma_fields_distinct(traits_model()->Struct_0);
}

/// Field names are distinct in every Struct of `city_model`.
proof fn lemma_city_distinct()
    ensures
        distinct_names(city_model()),
{
    lemma_names_distinct();
    lemma_continent_distinct();
    lemma_country_distinct();
    lemma_represented_country_distinct();
    lemma_subdivision_distinct();
    reveal_strlit("city");
    assert("city"@.len() == 4 && "city"@[0] == 'c' && "city"@[1] == 'i' && "city"@[2] == 't' && "city"@[3] == 'y');
    reveal_strlit("geoname_id");
    assert("geoname_id"@.len() == 10 && "geoname_id"@[0] == 'g' && "geoname_id"@[1] == 'e' && "geoname_id"@[2] == 'o' && "geoname_id"@[3] == 'n' && "geoname_id"@[4] == 'a' && "geoname_id"@[5] == 'm' && "geoname_id"@[6] == 'e' && "geoname_id"@[7] == '_');
    reveal_strlit("names");
    assert("names"@.len() == 5 && "names"@[0] == 'n' && "names"@[1] == 'a' && "names"@[2] == 'm' && "names"@[3] == 'e' && "names"@[4] == 's');
    reveal_strlit("continent");
    assert("continent"@.len() == 9 && "continent"@[0] == 'c' && "continent"@[1] == 'o' && "continent"@[2] == 'n' && "continent"@[3] == 't' && "continent"@[4] == 'i' && "continent"@[5] == 'n' && "continent"@[6] == 'e' && "continent"@[7] == 'n');
    reveal_strlit("country");
    assert("country"@.len() == 7 && "country"@[0] == 'c' && "country"@[1] == 'o' && "country"@[2] == 'u' && "country"@[3] == 'n' && "country"@[4] == 't' && "country"@[5] == 'r' && "country"@[6] == 'y');
    reveal_strlit("location");
    assert("location"@.len() == 8 && "location"@[0] == 'l' && "location"@[1] == 'o' && "location"@[2] == 'c' && "location"@[3] == 'a' && "location"@[4] == 't' && "location"@[5] == 'i' && "location"@[6] == 'o' && "location"@[7] == 'n');
    reveal_strlit("accuracy_radius");
    assert("accuracy_radius"@.len() == 15 && "accuracy_radius"@[0] == 'a' && "accuracy_radius"@[1] == 'c' && "accuracy_radius"@[2] == 'c' && "accuracy_radius"@[3] == 'u' && "accuracy_radius"@[4] == 'r' && "accuracy_radius"@[5] == 'a' && "accuracy_radius"@[6] == 'c' && "accuracy_radius"@[7] == 'y');
    reveal_strlit("latitude");
    assert("latitude"@.len() == 8 && "latitude"@[0] == 'l' && "latitude"@[1] == 'a' && "latitude"@[2] == 't' && "latitude"@[3] == 'i' && "latitude"@[4] == 't' && "latitude"@[5] == 'u' && "latitude"@[6] == 'd' && "latitude"@[7] == 'e');
    reveal_strlit("longitude");
    assert("longitude"@.len() == 9 && "longitude"@[0] == 'l' && "longitude"@[1] == 'o' && "longitude"@[2] == 'n' && "longitude"@[3] == 'g' && "longitude"@[4] == 'i' && "longitude"@[5] == 't' && "longitude"@[6] == 'u' && "longitude"@[7] == 'd');
    reveal_strlit("metro_code");
    assert("metro_code"@.len() == 10 && "metro_code"@[0] == 'm' && "metro_code"@[1] == 'e' && "metro_code"@[2] == 't' && "metro_code"@[3] == 'r' && "metro_code"@[4] == 'o' && "metro_code"@[5] == '_' && "metro_code"@[6] == 'c' && "metro_code"@[7] == 'o');
    reveal_strlit("time_zone");
    assert("time_zone"@.len() == 9 && "time_zone"@[0] == 't' && "time_zone"@[1] == 'i' && "time_zone"@[2] == 'm' && "time_zone"@[3] == 'e' && "time_zone"@[4] == '_' && "time_zone"@[5] == 'z' && "time_zone"@[6] == 'o' && "time_zone"@[7] == 'n');
    reveal_strlit("postal");
    assert("postal"@.len() == 6 && "postal"@[0] == 'p' && "postal"@[1] == 'o' && "postal"@[2] == 's' && "postal"@[3] == 't' && "postal"@[4] == 'a' && "postal"@[5] == 'l');
    reveal_strlit("code");
    assert("code"@.len() == 4 && "code"@[0] == 'c' && "code"@[1] == 'o' && "code"@[2] == 'd' && "code"@[3] == 'e');
    reveal_strlit("registered_country");
    assert("registered_country"@.len() == 18 && "registered_country"@[0] == 'r' && "registered_country"@[1] == 'e' && "registered_country"@[2] == 'g' && "registered_country"@[3] == 'i' && "registered_country"@[4] == 's' && "registered_country"@[5] == 't' && "registered_country"@[6] == 'e' && "registered_country"@[7] == 'r');
    reveal_strlit("represented_country");
    assert("represented_country"@.len() == 19 && "represented_country"@[0] == 'r' && "represented_country"@[1] == 'e' && "represented_country"@[2] == 'p' && "represented_country"@[3] == 'r' && "represented_country"@[4] == 'e' && "represented_country"@[5] == 's' && "represented_country"@[6] == 'e' && "represented_country"@[7] == 'n');
    reveal_strlit("subdivisions");
    assert("subdivisions"@.len() == 12 && "subdivisions"@[0] == 's' && "subdivisions"@[1] == 'u' && "subdivisions"@[2] == 'b' && "subdivisions"@[3] == 'd' && "subdivisions"@[4] == 'i' && "subdivisions"@[5] == 'v' && "subdivisions"@[6] == 'i' && "subdivisions"@[7] == 's');
    reveal_strlit("traits");
    assert("traits"@.len() == 6 && "traits"@[0] == 't' && "traits"@[1] == 'r' && "traits"@[2] == 'a' && "traits"@[3] == 'i' && "traits"@[4] == 't' && "traits"@[5] == 's');
    reveal_strlit("is_anycast");
    assert("is_anycast"@.len() == 10 && "is_anycast"@[0] == 'i' && "is_anycast"@[1] == 's' && "is_anycast"@[2] == '_' && "is_anycast"@[3] == 'a' && "is_anycast"@[4] == 'n' && "is_anycast"@[5] == 'y' && "is_anycast"@[6] == 'c' && "is_anycast"@[7] == 'a');
    lemma_fields_distinct(city_model()->Struct_0[0].dtype->Struct_0);
    lemma_fields_distinct(city_model()->Struct_0[3].dtype->Struct_0);
    lemma_fields_distinct(city_model()->Struct_0[4].dtype->Struct_0);
    lemma_fields_distinct(city_model()->Struct_0[8].dtype->Struct_0);
    lemma_fields_distinct(city_model()->Struct_0);
}

/// Field names are distinct in every Struct of `asn_model`.
proof fn lemma_asn_distinct()
    ensures
        distinct_names(asn_model()),
{
    reveal_strlit("autonomous_system_number");
    assert("autonomous_system_number"@.len() == 24 && "autonomous_system_number"@[0] == 'a' && "autonomous_system_number"@[1] == 'u' && "autonomous_system_number"@[2] == 't' && "autonomous_system_number"@[3] == 'o' && "autonomous_system_number"@[4] == 'n' && "autonomous_system_number"@[5] == 'o' && "autonomous_system_number"@[6] == 'm' && "autonomous_system_number"@[7] == 'o');
    reveal_strlit("autonomous_system_organization");
    assert("autonomous_system_organization"@.len() == 30 && "autonomous_system_organization"@[0] == 'a' && "autonomous_system_organization"@[1] == 'u' && "autonomous_system_organization"@[2] == 't' && "autonomous_system_organization"@[3] == 'o' && "autonomous_system_organization"@[4] == 'n' && "autonomous_system_organization"@[5] == 'o' && "autonomous_system_organization"@[6] == 'm' && "autonomous_system_organization"@[7] == 'o');
    lemma_fields_distinct(asn_model()->Struct_0);
}

/// Field names are distinct in every Struct of `country_record_model`.
proof fn lemma_country_record_distinct()
    ensures
        distinct_names(country_record_model()),
{
    lemma_continent_distinct();
    lemma_country_distinct();
    lemma_represented_country_distinct();
    lemma_traits_distinct();
    reveal_strlit("continent");
    assert("continent"@.len() == 9 && "continent"@[0] == 'c' && "continent"@[1] == 'o' && "continent"@[2] == 'n' && "continent"@[3] == 't' && "continent"@[4] == 'i' && "continent"@[5] == 'n' && "continent"@[6] == 'e' && "continent"@[7] == 'n');
    reveal_strlit("country");
    assert("country"@.len() == 7 && "country"@[0] == 'c' && "country"@[1] == 'o' && "country"@[2] == 'u' && "country"@[3] == 'n' && "country"@[4] == 't' && "country"@[5] == 'r' && "country"@[6] == 'y');
    reveal_strlit("registered_country");
    assert("registered_country"@.len() == 18 && "registered_country"@[0] == 'r' && "registered_country"@[1] == 'e' && "registered_country"@[2] == 'g' && "registered_country"@[3] == 'i' && "registered_country"@[4] == 's' && "registered_country"@[5] == 't' && "registered_country"@[6] == 'e' && "registered_country"@[7] == 'r');
    reveal_strlit("represented_country");
    assert("represented_country"@.len() == 19 && "represented_country"@[0] == 'r' && "represented_country"@[1] == 'e' && "represented_country"@[2] == 'p' && "represented_country"@[3] == 'r' && "represented_country"@[4] == 'e' && "represented_country"@[5] == 's' && "represented_country"@[6] == 'e' && "represented_country"@[7] == 'n');
    reveal_strlit("traits");
    assert("traits"@.len() == 6 && "traits"@[0] == 't' && "traits"@[1] == 'r' && "traits"@[2] == 'a' && "traits"@[3] == 'i' && "traits"@[4] == 't' && "traits"@[5] == 's');
    lemma_fields_distinct(country_record_model()->Struct_0);
}

/// Field names are distinct in every Struct of `enterprise_country_model`.
proof fn lemma_enterprise_country_distinct()
    ensures
        distinct_names(enterprise_country_model()),
{
    lemma_names_distinct();
    reveal_strlit("confidence");
    assert("confidence"@.len() == 10 && "confidence"@[0] == 'c' && "confidence"@[1] == 'o' && "confidence"@[2] == 'n' && "confidence"@[3] == 'f' && "confidence"@[4] == 'i' && "confidence"@[5] == 'd' && "confidence"@[6] == 'e' && "confidence"@[7] == 'n');
    reveal_strlit("geoname_id");
    assert("geoname_id"@.len() == 10 && "geoname_id"@[0] == 'g' && "geoname_id"@[1] == 'e' && "geoname_id"@[2] == 'o' && "geoname_id"@[3] == 'n' && "geoname_id"@[4] == 'a' && "geoname_id"@[5] == 'm' && "geoname_id"@[6] == 'e' && "geoname_id"@[7] == '_');
    reveal_strlit("is_in_european_union");
    assert("is_in_european_union"@.len() == 20 && "is_in_european_union"@[0] == 'i' && "is_in_european_union"@[1] == 's' && "is_in_european_union"@[2] == '_' && "is_in_european_union"@[3] == 'i' && "is_in_european_union"@[4] == 'n' && "is_in_european_union"@[5] == '_' && "is_in_european_union"@[6] == 'e' && "is_in_european_union"@[7] == 'u');
    reveal_strlit("iso_code");
    assert("iso_code"@.len() == 8 && "iso_code"@[0] == 'i' && "iso_code"@[1] == 's' && "iso_code"@[2] == 'o' && "iso_code"@[3] == '_' && "iso_code"@[4] == 'c' && "iso_code"@[5] == 'o' && "iso_code"@[6] == 'd' && "iso_code"@[7] == 'e');
    reveal_strlit("names");
    assert("names"@.len() == 5 && "names"@[0] == 'n' && "names"@[1] == 'a' && "names"@[2] == 'm' && "names"@[3] == 'e' && "names"@[4] == 's');
    lemma_fields_distinct(enterprise_country_model()->Struct_0);
}

/// Field names are distinct in every Struct of `enterprise_subdivision_model`.
proof fn lemma_enterprise_subdivision_distinct()
    ensures
        distinct_names(enterprise_subdivision_model()),
{
    lemma_names_distinct();
    reveal_strlit("confidence");
    assert("confidence"@.len() == 10 && "confidence"@[0] == 'c' && "confidence"@[1] == 'o' && "confidence"@[2] == 'n' && "confidence"@[3] == 'f' && "confidence"@[4] == 'i' && "confidence"@[5] == 'd' && "confidence"@[6] == 'e' && "confidence"@[7] == 'n');
    reveal_strlit("geoname_id");
    assert("geoname_id"@.len() == 10 && "geoname_id"@[0] == 'g' && "geoname_id"@[1] == 'e' && "geoname_id"@[2] == 'o' && "geoname_id"@[3] == 'n' && "geoname_id"@[4] == 'a' && "geoname_id"@[5] == 'm' && "geoname_id"@[6] == 'e' && "geoname_id"@[7] == '_');
    reveal_strlit("iso_code");
    assert("iso_code"@.len() == 8 && "iso_code"@[0] == 'i' && "iso_code"@[1] == 's' && "iso_code"@[2] == 'o' && "iso_code"@[3] == '_' && "iso_code"@[4] == 'c' && "iso_code"@[5] == 'o' && "iso_code"@[6] == 'd' && "iso_code"@[7] == 'e');
    reveal_strlit("names");
    assert("names"@.len() == 5 && "names"@[0] == 'n' && "names"@[1] == 'a' && "names"@[2] == 'm' && "names"@[3] == 'e' && "names"@[4] == 's');
    lemma_fields_distinct(enterprise_subdivision_model()->Struct_0);
}

/// Field names are distinct in every Struct of `enterprise_traits_model`.
proof fn lemma_enterprise_traits_distinct()
    ensures
        distinct_names(enterprise_traits_model()),
{
    reveal_strlit("autonomous_system_number");
    assert("autonomous_system_number"@.len() == 24 && "autonomous_system_number"@[0] == 'a' && "autonomous_system_number"@[1] == 'u' && "autonomous_system_number"@[2] == 't' && "autonomous_system_number"@[3] == 'o' && "autonomous_system_number"@[4] == 'n' && "autonomous_system_number"@[5] == 'o' && "autonomous_system_number"@[6] == 'm' && "autonomous_system_number"@[7] == 'o');
    reveal_strlit("autonomous_system_organization");
    assert("autonomous_system_organization"@.len() == 30 && "autonomous_system_organization"@[0] == 'a' && "autonomous_system_organization"@[1] == 'u' && "autonomous_system_organization"@[2] == 't' && "autonomous_system_organization"@[3] == 'o' && "autonomous_system_organization"@[4] == 'n' && "autonomous_system_organization"@[5] == 'o' && "autonomous_system_organization"@[6] == 'm' && "autonomous_system_organization"@[7] == 'o');
    reveal_strlit("connection_type");
    assert("connection_type"@.len() == 15 && "connection_type"@[0] == 'c' && "connection_type"@[1] == 'o' && "connection_type"@[2] == 'n' && "connection_type"@[3] == 'n' && "connection_type"@[4] == 'e' && "connection_type"@[5] == 'c' && "connection_type"@[6] == 't' && "connection_type"@[7] == 'i');
    reveal_strlit("domain");
    assert("domain"@.len() == 6 && "domain"@[0] == 'd' && "domain"@[1] == 'o' && "domain"@[2] == 'm' && "domain"@[3] == 'a' && "domain"@[4] == 'i' && "domain"@[5] == 'n');
    reveal_strlit("is_anonymous");
    assert("is_anonymous"@.len() == 12 && "is_anonymous"@[0] == 'i' && "is_anonymous"@[1] == 's' && "is_anonymous"@[2] == '_' && "is_anonymous"@[3] == 'a' && "is_anonymous"@[4] == 'n' && "is_anonymous"@[5] == 'o' && "is_anonymous"@[6] == 'n' && "is_anonymous"@[7] == 'y');
    reveal_strlit("is_anonymous_vpn");
    assert("is_anonymous_vpn"@.len() == 16 && "is_anonymous_vpn"@[0] == 'i' && "is_anonymous_vpn"@[1] == 's' && "is_anonymous_vpn"@[2] == '_' && "is_anonymous_vpn"@[3] == 'a' && "is_anonymous_vpn"@[4] == 'n' && "is_anonymous_vpn"@[5] == 'o' && "is_anonymous_vpn"@[6] == 'n' && "is_anonymous_vpn"@[7] == 'y');
    reveal_strlit("is_anycast");
    assert("is_anycast"@.len() == 10 && "is_anycast"@[0] == 'i' && "is_anycast"@[1] == 's' && "is_anycast"@[2] == '_' && "is_anycast"@[3] == 'a' && "is_anycast"@[4] == 'n' && "is_anycast"@[5] == 'y' && "is_anycast"@[6] == 'c' && "is_anycast"@[7] == 'a');
    reveal_strlit("is_hosting_provider");
    assert("is_hosting_provider"@.len() == 19 && "is_hosting_provider"@[0] == 'i' && "is_hosting_provider"@[1] == 's' && "is_hosting_provider"@[2] == '_' && "is_hosting_provider"@[3] == 'h' && "is_hosting_provider"@[4] == 'o' && "is_hosting_provider"@[5] == 's' && "is_hosting_provider"@[6] == 't' && "is_hosting_provider"@[7] == 'i');
    reveal_strlit("isp");
    assert("isp"@.len() == 3 && "isp"@[0] == 'i' && "isp"@[1] == 's' && "isp"@[2] == 'p');
    reveal_strlit("is_public_proxy");
    assert("is_public_proxy"@.len() == 15 && "is_public_proxy"@[0] == 'i' && "is_public_proxy"@[1] == 's' && "is_public_proxy"@[2] == '_' && "is_public_proxy"@[3] == 'p' && "is_public_proxy"@[4] == 'u' && "is_public_proxy"@[5] == 'b' && "is_public_proxy"@[6] == 'l' && "is_public_proxy"@[7] == 'i');
    reveal_strlit("is_residential_proxy");
    assert("is_residential_proxy"@.len() == 20 && "is_residential_proxy"@[0] == 'i' && "is_residential_proxy"@[1] == 's' && "is_residential_proxy"@[2] == '_' && "is_residential_proxy"@[3] == 'r' && "is_residential_proxy"@[4] == 'e' && "is_residential_proxy"@[5] == 's' && "is_residential_proxy"@[6] == 'i' && "is_residential_proxy"@[7] == 'd');
    reveal_strlit("is_tor_exit_node");
    assert("is_tor_exit_node"@.len() == 16 && "is_tor_exit_node"@[0] == 'i' && "is_tor_exit_node"@[1] == 's' && "is_tor_exit_node"@[2] == '_' && "is_tor_exit_node"@[3] == 't' && "is_tor_exit_node"@[4] == 'o' && "is_tor_exit_node"@[5] == 'r' && "is_tor_exit_node"@[6] == '_' && "is_tor_exit_node"@[7] == 'e');
    reveal_strlit("mobile_country_code");
    assert("mobile_country_code"@.len() == 19 && "mobile_country_code"@[0] == 'm' && "mobile_country_code"@[1] == 'o' && "mobile_country_code"@[2] == 'b' && "mobile_country_code"@[3] == 'i' && "mobile_country_code"@[4] == 'l' && "mobile_country_code"@[5] == 'e' && "mobile_country_code"@[6] == '_' && "mobile_country_code"@[7] == 'c');
    reveal_strlit("mobile_network_code");
    assert("mobile_network_code"@.len() == 19 && "mobile_network_code"@[0] == 'm' && "mobile_network_code"@[1] == 'o' && "mobile_network_code"@[2] == 'b' && "mobile_network_code"@[3] == 'i' && "mobile_network_code"@[4] == 'l' && "mobile_network_code"@[5] == 'e' && "mobile_network_code"@[6] == '_' && "mobile_network_code"@[7] == 'n');
    reveal_strlit("organization");
    assert("organization"@.len() == 12 && "organization"@[0] == 'o' && "organization"@[1] == 'r' && "organization"@[2] == 'g' && "organization"@[3] == 'a' && "organization"@[4] == 'n' && "organization"@[5] == 'i' && "organization"@[6] == 'z' && "organization"@[7] == 'a');
    reveal_strlit("user_type");
    assert("user_type"@.len() == 9 && "user_type"@[0] == 'u' && "user_type"@[1] == 's' && "user_type"@[2] == 'e' && "user_type"@[3] == 'r' && "user_type"@[4] == '_' && "user_type"@[5] == 't' && "user_type"@[6] == 'y' && "user_type"@[7] == 'p');
    lemma_fields_distinct(enterprise_traits_model()->Struct_0);
}

/// Field names are distinct in every Struct of `enterprise_model`.
proof fn lemma_enterprise_distinct()
    ensures
        distinct_names(enterprise_model()),
{
    lemma_names_distinct();
    lemma_continent_distinct();
    lemma_enterprise_country_distinct();
    lemma_location_distinct();
    lemma_represented_country_distinct();
    lemma_enterprise_subdivision_distinct();
    lemma_enterprise_traits_distinct();
    reveal_strlit("city");
    assert("city"@.len() == 4 && "city"@[0] == 'c' && "city"@[1] == 'i' && "city"@[2] == 't' && "city"@[3] == 'y');
    reveal_strlit("confidence");
    assert("confidence"@.len() == 10 && "confidence"@[0] == 'c' && "confidence"@[1] == 'o' && "confidence"@[2] == 'n' && "confidence"@[3] == 'f' && "confidence"@[4] == 'i' && "confidence"@[5] == 'd' && "confidence"@[6] == 'e' && "confidence"@[7] == 'n');
    reveal_strlit("geoname_id");
    assert("geoname_id"@.len() == 10 && "geoname_id"@[0] == 'g' && "geoname_id"@[1] == 'e' && "geoname_id"@[2] == 'o' && "geoname_id"@[3] == 'n' && "geoname_id"@[4] == 'a' && "geoname_id"@[5] == 'm' && "geoname_id"@[6] == 'e' && "geoname_id"@[7] == '_');
    reveal_strlit("names");
    assert("names"@.len() == 5 && "names"@[0] == 'n' && "names"@[1] == 'a' && "names"@[2] == 'm' && "names"@[3] == 'e' && "names"@[4] == 's');
    reveal_strlit("continent");
    assert("continent"@.len() == 9 && "continent"@[0] == 'c' && "continent"@[1] == 'o' && "continent"@[2] == 'n' && "continent"@[3] == 't' && "continent"@[4] == 'i' && "continent"@[5] == 'n' && "continent"@[6] == 'e' && "continent"@[7] == 'n');
    reveal_strlit("country");
    assert("country"@.len() == 7 && "country"@[0] == 'c' && "country"@[1] == 'o' && "country"@[2] == 'u' && "country"@[3] == 'n' && "country"@[4] == 't' && "country"@[5] == 'r' && "country"@[6] == 'y');
    reveal_strlit("location");
    assert("location"@.len() == 8 && "location"@[0] == 'l' && "location"@[1] == 'o' && "location"@[2] == 'c' && "location"@[3] == 'a' && "location"@[4] == 't' && "location"@[5] == 'i' && "location"@[6] == 'o' && "location"@[7] == 'n');
    reveal_strlit("postal");
    assert("postal"@.len() == 6 && "postal"@[0] == 'p' && "postal"@[1] == 'o' && "postal"@[2] == 's' && "postal"@[3] == 't' && "postal"@[4] == 'a' && "postal"@[5] == 'l');
    reveal_strlit("code");
    assert("code"@.len() == 4 && "code"@[0] == 'c' && "code"@[1] == 'o' && "code"@[2] == 'd' && "code"@[3] == 'e');
    reveal_strlit("registered_country");
    assert("registered_country"@.len() == 18 && "registered_country"@[0] == 'r' && "registered_country"@[1] == 'e' && "registered_country"@[2] == 'g' && "registered_country"@[3] == 'i' && "registered_country"@[4] == 's' && "registered_country"@[5] == 't' && "registered_country"@[6] == 'e' && "registered_country"@[7] == 'r');
    reveal_strlit("represented_country");
    assert("represented_country"@.len() == 19 && "represented_country"@[0] == 'r' && "represented_country"@[1] == 'e' && "represented_country"@[2] == 'p' && "represented_country"@[3] == 'r' && "represented_country"@[4] == 'e' && "represented_country"@[5] == 's' && "represented_country"@[6] == 'e' && "represented_country"@[7] == 'n');
    reveal_strlit("subdivisions");
    assert("subdivisions"@.len() == 12 && "subdivisions"@[0] == 's' && "subdivisions"@[1] == 'u' && "subdivisions"@[2] == 'b' && "subdivisions"@[3] == 'd' && "subdivisions"@[4] == 'i' && "subdivisions"@[5] == 'v' && "subdivisions"@[6] == 'i' && "subdivisions"@[7] == 's');
    reveal_strlit("traits");
    assert("traits"@.len() == 6 && "traits"@[0] == 't' && "traits"@[1] == 'r' && "traits"@[2] == 'a' && "traits"@[3] == 'i' && "traits"@[4] == 't' && "traits"@[5] == 's');
    lemma_fields_distinct(enterprise_model()->Struct_0[0].dtype->Struct_0);
    lemma_fields_distinct(enterprise_model()->Struct_0[4].dtype->Struct_0);
    lemma_fields_distinct(enterprise_model()->Struct_0);
}

/// Field names are distinct in every Struct of `isp_model`.
proof fn lemma_isp_distinct()
    ensures
        distinct_names(isp_model()),
{
    reveal_strlit("autonomous_system_number");
    assert("autonomous_system_number"@.len() == 24 && "autonomous_system_number"@[0] == 'a' && "autonomous_system_number"@[1] == 'u' && "autonomous_system_number"@[2] == 't' && "autonomous_system_number"@[3] == 'o' && "autonomous_system_number"@[4] == 'n' && "autonomous_system_number"@[5] == 'o' && "autonomous_system_number"@[6] == 'm' && "autonomous_system_number"@[7] == 'o');
    reveal_strlit("autonomous_system_organization");
    assert("autonomous_system_organization"@.len() == 30 && "autonomous_system_organization"@[0] == 'a' && "autonomous_system_organization"@[1] == 'u' && "autonomous_system_organization"@[2] == 't' && "autonomous_system_organization"@[3] == 'o' && "autonomous_system_organization"@[4] == 'n' && "autonomous_system_organization"@[5] == 'o' && "autonomous_system_organization"@[6] == 'm' && "autonomous_system_organization"@[7] == 'o');
    reveal_strlit("isp");
    assert("isp"@.len() == 3 && "isp"@[0] == 'i' && "isp"@[1] == 's' && "isp"@[2] == 'p');
    reveal_strlit("mobile_country_code");
    assert("mobile_country_code"@.len() == 19 && "mobile_country_code"@[0] == 'm' && "mobile_country_code"@[1] == 'o' && "mobile_country_code"@[2] == 'b' && "mobile_country_code"@[3] == 'i' && "mobile_country_code"@[4] == 'l' && "mobile_country_code"@[5] == 'e' && "mobile_country_code"@[6] == '_' && "mobile_country_code"@[7] == 'c');
    reveal_strlit("mobile_network_code");
    assert("mobile_network_code"@.len() == 19 && "mobile_network_code"@[0] == 'm' && "mobile_network_code"@[1] == 'o' && "mobile_network_code"@[2] == 'b' && "mobile_network_code"@[3] == 'i' && "mobile_network_code"@[4] == 'l' && "mobile_network_code"@[5] == 'e' && "mobile_network_code"@[6] == '_' && "mobile_network_code"@[7] == 'n');
    reveal_strlit("organization");
    assert("organization"@.len() == 12 && "organization"@[0] == 'o' && "organization"@[1] == 'r' && "organization"@[2] == 'g' && "organization"@[3] == 'a' && "organization"@[4] == 'n' && "organization"@[5] == 'i' && "organization"@[6] == 'z' && "organization"@[7] == 'a');
    lemma_fields_distinct(isp_model()->Struct_0);
}

/// Field names are distinct in every Struct of `connection_type_model`.
proof fn lemma_connection_type_distinct()
    ensures
        distinct_names(connection_type_model()),
{
    reveal_strlit("connection_type");
    assert("connection_type"@.len() == 15 && "connection_type"@[0] == 'c' && "connection_type"@[1] == 'o' && "connection_type"@[2] == 'n' && "connection_type"@[3] == 'n' && "connection_type"@[4] == 'e' && "connection_type"@[5] == 'c' && "connection_type"@[6] == 't' && "connection_type"@[7] == 'i');
    lemma_fields_distinct(connection_type_model()->Struct_0);
}

/// Field names are distinct in every Struct of `anonymous_ip_model`.
proof fn lemma_anonymous_ip_distinct()
    ensures
        distinct_names(anonymous_ip_model()),
{
    reveal_strlit("is_anonymous");
    assert("is_anonymous"@.len() == 12 && "is_anonymous"@[0] == 'i' && "is_anonymous"@[1] == 's' && "is_anonymous"@[2] == '_' && "is_anonymous"@[3] == 'a' && "is_anonymous"@[4] == 'n' && "is_anonymous"@[5] == 'o' && "is_anonymous"@[6] == 'n' && "is_anonymous"@[7] == 'y');
    reveal_strlit("is_anonymous_vpn");
    assert("is_anonymous_vpn"@.len() == 16 && "is_anonymous_vpn"@[0] == 'i' && "is_anonymous_vpn"@[1] == 's' && "is_anonymous_vpn"@[2] == '_' && "is_anonymous_vpn"@[3] == 'a' && "is_anonymous_vpn"@[4] == 'n' && "is_anonymous_vpn"@[5] == 'o' && "is_anonymous_vpn"@[6] == 'n' && "is_anonymous_vpn"@[7] == 'y');
    reveal_strlit("is_hosting_provider");
    assert("is_hosting_provider"@.len() == 19 && "is_hosting_provider"@[0] == 'i' && "is_hosting_provider"@[1] == 's' && "is_hosting_provider"@[2] == '_' && "is_hosting_provider"@[3] == 'h' && "is_hosting_provider"@[4] == 'o' && "is_hosting_provider"@[5] == 's' && "is_hosting_provider"@[6] == 't' && "is_hosting_provider"@[7] == 'i');
    reveal_strlit("is_public_proxy");
    assert("is_public_proxy"@.len() == 15 && "is_public_proxy"@[0] == 'i' && "is_public_proxy"@[1] == 's' && "is_public_proxy"@[2] == '_' && "is_public_proxy"@[3] == 'p' && "is_public_proxy"@[4] == 'u' && "is_public_proxy"@[5] == 'b' && "is_public_proxy"@[6] == 'l' && "is_public_proxy"@[7] == 'i');
    reveal_strlit("is_residential_proxy");
    assert("is_residential_proxy"@.len() == 20 && "is_residential_proxy"@[0] == 'i' && "is_residential_proxy"@[1] == 's' && "is_residential_proxy"@[2] == '_' && "is_residential_proxy"@[3] == 'r' && "is_residential_proxy"@[4] == 'e' && "is_residential_proxy"@[5] == 's' && "is_residential_proxy"@[6] == 'i' && "is_residential_proxy"@[7] == 'd');
    reveal_strlit("is_tor_exit_node");
    assert("is_tor_exit_node"@.len() == 16 && "is_tor_exit_node"@[0] == 'i' && "is_tor_exit_node"@[1] == 's' && "is_tor_exit_node"@[2] == '_' && "is_tor_exit_node"@[3] == 't' && "is_tor_exit_node"@[4] == 'o' && "is_tor_exit_node"@[5] == 'r' && "is_tor_exit_node"@[6] == '_' && "is_tor_exit_node"@[7] == 'e');
    lemma_fields_distinct(anonymous_ip_model()->Struct_0);
}

/// Field names are distinct in every Struct of `density_income_model`.
proof fn lemma_density_income_distinct()
    ensures
        distinct_names(density_income_model()),
{
    reveal_strlit("average_income");
    assert("average_income"@.len() == 14 && "average_income"@[0] == 'a' && "average_income"@[1] == 'v' && "average_income"@[2] == 'e' && "average_income"@[3] == 'r' && "average_income"@[4] == 'a' && "average_income"@[5] == 'g' && "average_income"@[6] == 'e' && "average_income"@[7] == '_');
    reveal_strlit("population_density");
    assert("population_density"@.len() == 18 && "population_density"@[0] == 'p' && "population_density"@[1] == 'o' && "population_density"@[2] == 'p' && "population_density"@[3] == 'u' && "population_density"@[4] == 'l' && "population_density"@[5] == 'a' && "population_density"@[6] == 't' && "population_density"@[7] == 'i');
    lemma_fields_distinct(density_income_model()->Struct_0);
}

/// Field names are distinct in every Struct of `domain_model`.
proof fn lemma_domain_distinct()
    ensures
        distinct_names(domain_model()),
{
    reveal_strlit("domain");
    assert("domain"@.len() == 6 && "domain"@[0] == 'd' && "domain"@[1] == 'o' && "domain"@[2] == 'm' && "domain"@[3] == 'a' && "domain"@[4] == 'i' && "domain"@[5] == 'n');
    lemma_fields_distinct(domain_model()->Struct_0);
}

/// Field names are distinct in every Struct of each record kind's schema.
pub proof fn lemma_record_names_distinct(k: KnownRecord)
    ensures
        distinct_names(record_model(k)),
{
    match k {
        KnownRecord::City => lemma_city_distinct(),
        KnownRecord::Country => lemma_country_record_distinct(),
        KnownRecord::Enterprise => lemma_enterprise_distinct(),
        KnownRecord::Isp => lemma_isp_distinct(),
        KnownRecord::ConnectionType => lemma_connection_type_distinct(),
        KnownRecord::AnonymousIp => lemma_anonymous_ip_distinct(),
        KnownRecord::DensityIncome => lemma_density_income_distinct(),
        KnownRecord::Domain => lemma_domain_distinct(),
        KnownRecord::Asn => lemma_asn_distinct(),
    }
}

/// A value that a record kind's typed conversion may give: it projects onto
/// the kind's schema as itself, has that schema's shape at every level
/// (maps keyed by the field names in order), and builds a one-row Struct
/// column of the schema whose row is present.
pub open spec fn fits_record_schema(k: KnownRecord, v: ValueModel) -> bool {
    &&& project_model(v, record_model(k)) == Ok::<ValueModel, ValueErrorModel>(v)
    &&& shaped(v, record_model(k))
    &&& build_model(record_model(k), seq![Some(v)]) matches Ok(ColumnModel::Struct(validity, _))
        && validity == seq![true]
}

/// A record that already has its kind's schema (as each typed conversion
/// gives) has that schema's shape at every level and builds a one-row
/// column of that schema whose row is present: the typed route yields the
/// shape that the schema projection yields.
pub proof fn law_typed_record_builds_a_present_row(k: KnownRecord, v: ValueModel)
    requires
        project_model(v, record_model(k)) == Ok::<ValueModel, ValueErrorModel>(v),
    ensures
        fits_record_schema(k, v),
{
    lemma_record_names_distinct(k);
    law_projected_value_builds_a_present_row(v, record_model(k));
    law_projecting_twice_is_projecting_once(v, record_model(k));
}

} // verus!
