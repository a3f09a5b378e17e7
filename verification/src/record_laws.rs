use vstd::prelude::*;

use crate::column::{build_model, gather, layout_model, presence, row_validity, ColumnModel};
use crate::layout_laws::{
    conform, consistent_fields, consistent_names, distinct_names, law_deduplicated_layout_matches_rows,
    lemma_build_ok,
    lemma_consistent_fields, lemma_default_conforms, lemma_distinct_fields, lemma_struct_validity,
};
use crate::schema::{fields_model, lemma_fields_model, Dtype, FieldModel, SchemaField};
use crate::value::{
    default_model, field_defaults, lemma_field_defaults, finished, first_entry, first_field_index, project_fields, project_items, project_model, scalar_fits,
    ValueErrorModel, ValueModel,
};

verus! {

/// The slots that one schema-guided pass over a map's entries fills, in
/// entry order: an entry whose key names a requested field is projected onto
/// that field's dtype and stored in the field's slot (a later entry of the
/// same key replaces an earlier one); any other entry is skipped. `None` when
/// a stored entry does not project.
pub open spec fn visit_entries(
    fields: Seq<SchemaField>,
    entries: Seq<(Seq<char>, ValueModel)>,
) -> Option<Seq<Option<ValueModel>>>
    decreases entries.len(),
{
    if entries.len() == 0 {
        Some(Seq::new(fields.len(), |i: int| None::<ValueModel>))
    } else {
        match visit_entries(fields, entries.drop_last()) {
            None => None,
            Some(slots) => match first_field_index(fields, entries.last().0) {
                None => Some(slots),
                Some(i) => match project_model(entries.last().1, fields[i].dtype@) {
                    Ok(x) => Some(slots.update(i, Some(x))),
                    Err(_) => None,
                },
            },
        }
    }
}

/// No two entries of a map share a key.
pub open spec fn distinct_entry_keys(entries: Seq<(Seq<char>, ValueModel)>) -> bool {
    forall|a: int, b: int| 0 <= a < b < entries.len() ==> #[trigger] entries[a].0 != #[trigger] entries[b].0
}

/// No two fields of a Struct share a name.
pub open spec fn distinct_field_names(fields: Seq<SchemaField>) -> bool {
    forall|a: int, b: int|
        0 <= a < b < fields.len() ==> #[trigger] fields[a].name@ != #[trigger] fields[b].name@
}

/// What the projection of a map takes for a field: the projected value of
/// the first entry of that name, nothing when no entry has the name.
pub open spec fn field_source(
    entries: Seq<(Seq<char>, ValueModel)>,
    f: FieldModel,
) -> Option<Result<ValueModel, ValueErrorModel>> {
    match first_entry(entries, f.name) {
        Some(j) => Some(project_model(entries[j].1, f.dtype)),
        None => None,
    }
}

/// With distinct names, a field is the first of its name.
proof fn lemma_field_index_at(fields: Seq<SchemaField>, i: int)
    requires
        distinct_field_names(fields),
        0 <= i < fields.len(),
    ensures
        first_field_index(fields, fields[i].name@) == Some(i),
{
    let key = fields[i].name@;
    assert forall|j: int| 0 <= j < i implies fields[j].name@ != key by {
        assert(fields[j].name@ != fields[i].name@);
    }
    assert(fields[i].name@ == key);
    let c = choose|c: int|
        0 <= c < fields.len() && #[trigger] fields[c].name@ == key && forall|j: int|
            0 <= j < c ==> fields[j].name@ != key;
    if c < i {
        assert(fields[c].name@ != fields[i].name@);
    }
    if c > i {
        assert(fields[i].name@ != key);
    }
}

/// With distinct names, the field found for a key has that key as its name.
proof fn lemma_field_index_found(fields: Seq<SchemaField>, key: Seq<char>)
    requires
        distinct_field_names(fields),
    ensures
        match first_field_index(fields, key) {
            Some(i) => 0 <= i < fields.len() && fields[i].name@ == key,
            None => forall|j: int| 0 <= j < fields.len() ==> #[trigger] fields[j].name@ != key,
        },
{
    match first_field_index(fields, key) {
        Some(i) => {},
        None => {
            assert forall|j: int| 0 <= j < fields.len() implies #[trigger] fields[j].name@ != key by {
                if fields[j].name@ == key {
                    lemma_field_index_at(fields, j);
                }
            }
        },
    }
}

/// With distinct keys, an entry is the first of its key.
pub proof fn lemma_entry_at(entries: Seq<(Seq<char>, ValueModel)>, j: int)
    requires
        distinct_entry_keys(entries),
        0 <= j < entries.len(),
    ensures
        first_entry(entries, entries[j].0) == Some(j),
{
    let key = entries[j].0;
    assert forall|k: int| 0 <= k < j implies entries[k].0 != key by {
        assert(entries[k].0 != entries[j].0);
    }
    assert(entries[j].0 == key);
    let c = choose|c: int|
        0 <= c < entries.len() && #[trigger] entries[c].0 == key && forall|k: int|
            0 <= k < c ==> entries[k].0 != key;
    if c < j {
        assert(entries[c].0 != entries[j].0);
    }
    if c > j {
        assert(entries[j].0 != key);
    }
}

/// With no entry of a key, none is found.
proof fn lemma_no_entry(entries: Seq<(Seq<char>, ValueModel)>, key: Seq<char>)
    requires
        forall|k: int| 0 <= k < entries.len() ==> #[trigger] entries[k].0 != key,
    ensures
        first_entry(entries, key) is None,
{
    if exists|c: int|
        0 <= c < entries.len() && #[trigger] entries[c].0 == key && forall|k: int|
            0 <= k < c ==> entries[k].0 != key {
        let c = choose|c: int|
            0 <= c < entries.len() && #[trigger] entries[c].0 == key && forall|k: int|
                0 <= k < c ==> entries[k].0 != key;
        assert(entries[c].0 != key);
    }
}

/// The slot a finished pass holds for field `i`: the projected value of the
/// entry named like the field, nothing when there is none.
pub open spec fn slot_of(
    fields: Seq<SchemaField>,
    entries: Seq<(Seq<char>, ValueModel)>,
    i: int,
) -> Option<ValueModel> {
    match first_entry(entries, fields[i].name@) {
        Some(j) => match project_model(entries[j].1, fields[i].dtype@) {
            Ok(x) => Some(x),
            Err(_) => None,
        },
        None => None,
    }
}

/// What a pass gives, field by field.
proof fn lemma_visit(fields: Seq<SchemaField>, entries: Seq<(Seq<char>, ValueModel)>)
    requires
        distinct_field_names(fields),
        distinct_entry_keys(entries),
    ensures
        match visit_entries(fields, entries) {
            Some(slots) => {
                &&& slots.len() == fields.len()
                &&& forall|i: int| 0 <= i < fields.len() ==> #[trigger] slots[i] == slot_of(fields, entries, i)
                &&& forall|i: int, j: int|
                    0 <= i < fields.len() && 0 <= j < entries.len() && #[trigger] entries[j].0
                        == #[trigger] fields[i].name@ ==> project_model(entries[j].1, fields[i].dtype@) is Ok
            },
            None => exists|i: int, j: int|
                0 <= i < fields.len() && 0 <= j < entries.len() && #[trigger] entries[j].0
                    == #[trigger] fields[i].name@ && project_model(entries[j].1, fields[i].dtype@) is Err,
        },
    decreases entries.len(),
{
    if entries.len() == 0 {
        let slots = Seq::new(fields.len(), |i: int| None::<ValueModel>);
        assert forall|i: int| 0 <= i < fields.len() implies #[trigger] slots[i] == slot_of(fields, entries, i) by {
            lemma_no_entry(entries, fields[i].name@);
        }
    } else {
        let prefix = entries.drop_last();
        let n = entries.len() - 1;
        let e = entries.last();
        assert(distinct_entry_keys(prefix)) by {
            assert forall|a: int, b: int| 0 <= a < b < prefix.len() implies #[trigger] prefix[a].0
                != #[trigger] prefix[b].0 by {
                assert(entries[a].0 != entries[b].0);
            }
        }
        lemma_visit(fields, prefix);
        lemma_field_index_found(fields, e.0);
        match visit_entries(fields, prefix) {
            None => {
                let (i, j) = choose|i: int, j: int|
                    0 <= i < fields.len() && 0 <= j < prefix.len() && #[trigger] prefix[j].0
                        == #[trigger] fields[i].name@ && project_model(prefix[j].1, fields[i].dtype@) is Err;
                assert(entries[j] == prefix[j]);
            },
            Some(slots) => {
                // How the first entry of each field's name relates to the prefix.
                assert forall|i: int| 0 <= i < fields.len() && fields[i].name@ != e.0 implies first_entry(
                    entries,
                    fields[i].name@,
                ) == first_entry(prefix, fields[i].name@) by {
                    let key = fields[i].name@;
                    if exists|j: int| 0 <= j < prefix.len() && #[trigger] prefix[j].0 == key {
                        let j = choose|j: int| 0 <= j < prefix.len() && #[trigger] prefix[j].0 == key;
                        lemma_entry_at(prefix, j);
                        lemma_entry_at(entries, j);
                        assert(entries[j] == prefix[j]);
                    } else {
                        lemma_no_entry(prefix, key);
                        assert forall|k: int| 0 <= k < entries.len() implies #[trigger] entries[k].0 != key by {
                            if k < n {
                                assert(entries[k] == prefix[k]);
                            }
                        }
                        lemma_no_entry(entries, key);
                    }
                }
                match first_field_index(fields, e.0) {
                    None => {
                        let out = slots;
                        assert forall|i: int| 0 <= i < fields.len() implies #[trigger] out[i] == slot_of(
                            fields,
                            entries,
                            i,
                        ) by {
                            assert(fields[i].name@ != e.0);
                        }
                        assert forall|i: int, j: int|
                            0 <= i < fields.len() && 0 <= j < entries.len() && #[trigger] entries[j].0
                                == #[trigger] fields[i].name@ implies project_model(
                            entries[j].1,
                            fields[i].dtype@,
                        ) is Ok by {
                            if j < n {
                                assert(entries[j] == prefix[j]);
                                assert(prefix[j].0 == fields[i].name@);
                            } else {
                                assert(fields[i].name@ != e.0);
                            }
                        }
                    },
                    Some(i0) => {
                        match project_model(e.1, fields[i0].dtype@) {
                            Err(_) => {
                                assert(entries[n].0 == fields[i0].name@);
                            },
                            Ok(x) => {
                                let out = slots.update(i0, Some(x));
                                lemma_entry_at(entries, n);
                                assert forall|i: int| 0 <= i < fields.len() implies #[trigger] out[i]
                                    == slot_of(fields, entries, i) by {
                                    if i != i0 {
                                        assert(fields[i].name@ != fields[i0].name@);
                                    }
                                }
                                assert forall|i: int, j: int|
                                    0 <= i < fields.len() && 0 <= j < entries.len()
                                        && #[trigger] entries[j].0 == #[trigger] fields[i].name@ implies project_model(
                                    entries[j].1,
                                    fields[i].dtype@,
                                ) is Ok by {
                                    if j < n {
                                        assert(entries[j] == prefix[j]);
                                        assert(prefix[j].0 == fields[i].name@);
                                    } else if i != i0 {
                                        assert(fields[i].name@ != fields[i0].name@);
                                    }
                                }
                            },
                        }
                    },
                }
            },
        }
    }
}

/// Projecting the fields of a map succeeds exactly when every field's source
/// projects, and then gives each field its source's value or its default.
proof fn lemma_project_fields(entries: Seq<(Seq<char>, ValueModel)>, fs: Seq<FieldModel>)
    ensures
        project_fields(entries, fs) is Ok <==> forall|i: int|
            0 <= i < fs.len() ==> !(#[trigger] field_source(entries, fs[i]) matches Some(Err(_))),
        project_fields(entries, fs) is Ok ==> project_fields(entries, fs) == Ok::<
            Seq<(Seq<char>, ValueModel)>,
            ValueErrorModel,
        >(
            Seq::new(
                fs.len(),
                |i: int|
                    (
                        fs[i].name,
                        match field_source(entries, fs[i]) {
                            Some(Ok(x)) => x,
                            _ => default_model(fs[i].dtype),
                        },
                    ),
            ),
        ),
    decreases fs.len(),
{
    if fs.len() > 0 {
        let prefix = fs.drop_last();
        lemma_project_fields(entries, prefix);
        let f = fs.last();
        let n = fs.len() - 1;
        assert forall|i: int| 0 <= i < n implies #[trigger] fs[i] == prefix[i] by {}
        match project_fields(entries, prefix) {
            Err(_) => {
                let i = choose|i: int|
                    0 <= i < prefix.len() && (#[trigger] field_source(entries, prefix[i]) matches Some(Err(_)));
                assert(fs[i] == prefix[i]);
            },
            Ok(done) => {
                if project_fields(entries, fs) is Ok {
                    assert forall|i: int| 0 <= i < fs.len() implies !(#[trigger] field_source(
                        entries,
                        fs[i],
                    ) matches Some(Err(_))) by {
                        if i < n {
                            assert(fs[i] == prefix[i]);
                        }
                    }
                    let whole = Seq::new(
                        fs.len(),
                        |i: int|
                            (
                                fs[i].name,
                                match field_source(entries, fs[i]) {
                                    Some(Ok(x)) => x,
                                    _ => default_model(fs[i].dtype),
                                },
                            ),
                    );
                    assert(project_fields(entries, fs)->Ok_0 =~= whole);
                } else {
                    assert(field_source(entries, fs[n]) matches Some(Err(_)));
                }
            },
        }
    } else {
        let whole = Seq::new(
            0,
            |i: int|
                (
                    fs[i].name,
                    match field_source(entries, fs[i]) {
                        Some(Ok(x)) => x,
                        _ => default_model(fs[i].dtype),
                    },
                ),
        );
        assert(whole =~= Seq::<(Seq<char>, ValueModel)>::empty());
    }
}

/// A one-pass, schema-guided decode of a map agrees with projecting the fully
/// decoded map: for a map whose keys are distinct, onto a Struct whose field
/// names are distinct, the pass succeeds exactly when the projection does,
/// and its finished map is then the projected map.
pub proof fn law_one_pass_record_matches_projection(
    fields: Seq<SchemaField>,
    entries: Seq<(Seq<char>, ValueModel)>,
)
    requires
        distinct_field_names(fields),
        distinct_entry_keys(entries),
    ensures
        match visit_entries(fields, entries) {
            Some(slots) => project_model(
                ValueModel::Mapping(entries),
                Dtype::Struct(fields_model(fields)),
            ) == Ok::<ValueModel, ValueErrorModel>(finished(fields, slots)),
            None => project_model(ValueModel::Mapping(entries), Dtype::Struct(fields_model(fields))) is Err,
        },
{
    let fs = fields_model(fields);
    lemma_fields_model(fields);
    lemma_visit(fields, entries);
    lemma_project_fields(entries, fs);
    match visit_entries(fields, entries) {
        Some(slots) => {
            assert forall|i: int| 0 <= i < fs.len() implies !(#[trigger] field_source(entries, fs[i]) matches Some(
                Err(_),
            )) by {
                assert(fs[i] == (FieldModel { name: fields[i].name@, dtype: fields[i].dtype@ }));
                match first_entry(entries, fs[i].name) {
                    Some(j) => {
                        assert(0 <= j < entries.len() && entries[j].0 == fs[i].name) by {
                            let c = choose|c: int|
                                0 <= c < entries.len() && #[trigger] entries[c].0 == fs[i].name
                                    && forall|k: int| 0 <= k < c ==> entries[k].0 != fs[i].name;
                        }
                    },
                    None => {},
                }
            }
            let projected = project_fields(entries, fs)->Ok_0;
            let expected = finished(fields, slots)->Mapping_0;
            assert forall|i: int| 0 <= i < fs.len() implies #[trigger] projected[i] == expected[i] by {
                assert(fs[i] == (FieldModel { name: fields[i].name@, dtype: fields[i].dtype@ }));
                assert(slots[i] == slot_of(fields, entries, i));
            }
            assert(projected =~= expected);
        },
        None => {
            let (i, j) = choose|i: int, j: int|
                0 <= i < fields.len() && 0 <= j < entries.len() && #[trigger] entries[j].0
                    == #[trigger] fields[i].name@ && project_model(entries[j].1, fields[i].dtype@) is Err;
            lemma_entry_at(entries, j);
            assert(fs[i] == (FieldModel { name: fields[i].name@, dtype: fields[i].dtype@ }));
            assert(field_source(entries, fs[i]) matches Some(Err(_)));
        },
    }
}

/// A map whose entries are exactly a Struct's fields, in order and under
/// distinct names, each entry already of its field's shape, projects onto
/// that Struct as itself.
pub proof fn lemma_project_exact(entries: Seq<(Seq<char>, ValueModel)>, fs: Seq<FieldModel>)
    requires
        entries.len() == fs.len(),
        distinct_entry_keys(entries),
        forall|i: int| 0 <= i < fs.len() ==> #[trigger] entries[i].0 == fs[i].name,
        forall|i: int|
            0 <= i < fs.len() ==> project_model(#[trigger] entries[i].1, fs[i].dtype) == Ok::<
                ValueModel,
                ValueErrorModel,
            >(entries[i].1),
    ensures
        project_model(ValueModel::Mapping(entries), Dtype::Struct(fs)) == Ok::<
            ValueModel,
            ValueErrorModel,
        >(ValueModel::Mapping(entries)),
{
    assert forall|i: int| 0 <= i < fs.len() implies #[trigger] field_source(entries, fs[i]) == Some(
        Ok::<ValueModel, ValueErrorModel>(entries[i].1),
    ) by {
        lemma_entry_at(entries, i);
        assert(entries[i].0 == fs[i].name);
    }
    lemma_project_fields(entries, fs);
    let projected = project_fields(entries, fs)->Ok_0;
    assert forall|i: int| 0 <= i < fs.len() implies #[trigger] projected[i] == entries[i] by {
        assert(field_source(entries, fs[i]) == Some(Ok::<ValueModel, ValueErrorModel>(entries[i].1)));
    }
    assert(projected =~= entries);
}

/// A list whose items are each already of a dtype's shape projects onto a
/// List of that dtype as itself.
pub proof fn lemma_project_items_exact(items: Seq<ValueModel>, inner: Dtype)
    requires
        forall|i: int|
            0 <= i < items.len() ==> project_model(#[trigger] items[i], inner) == Ok::<
                ValueModel,
                ValueErrorModel,
            >(items[i]),
    ensures
        crate::value::project_items(items, inner) == Ok::<Seq<ValueModel>, ValueErrorModel>(items),
    decreases items.len(),
{
    if items.len() > 0 {
        let prefix = items.drop_last();
        assert forall|i: int| 0 <= i < prefix.len() implies project_model(#[trigger] prefix[i], inner)
            == Ok::<ValueModel, ValueErrorModel>(prefix[i]) by {
            assert(prefix[i] == items[i]);
        }
        lemma_project_items_exact(prefix, inner);
        assert(project_model(items[items.len() - 1], inner) == Ok::<ValueModel, ValueErrorModel>(
            items.last(),
        ));
        assert(prefix.push(items.last()) =~= items);
    } else {
        assert(items =~= Seq::<ValueModel>::empty());
    }
}

/// A declared Struct that a record lacks entirely takes its defaults: an
/// empty map projects onto any Struct as that Struct's default (scalar
/// fields null, List fields empty, Struct fields present with their own
/// defaults).
pub proof fn law_empty_map_projects_to_defaults(fields: Seq<FieldModel>)
    ensures
        project_model(ValueModel::Mapping(Seq::empty()), Dtype::Struct(fields)) == Ok::<
            ValueModel,
            ValueErrorModel,
        >(default_model(Dtype::Struct(fields))),
{
    let entries = Seq::<(Seq<char>, ValueModel)>::empty();
    assert forall|i: int| 0 <= i < fields.len() implies #[trigger] field_source(entries, fields[i]) is None by {
        lemma_no_entry(entries, fields[i].name);
    }
    lemma_project_fields(entries, fields);
    lemma_field_defaults(fields);
    assert(project_fields(entries, fields)->Ok_0 =~= field_defaults(fields));
}

/// The items of a list that projects, each projected on its own.
proof fn lemma_project_items_ok(items: Seq<ValueModel>, inner: Dtype)
    requires
        project_items(items, inner) is Ok,
    ensures
        project_items(items, inner)->Ok_0.len() == items.len(),
        forall|k: int|
            0 <= k < items.len() ==> project_model(#[trigger] items[k], inner) == Ok::<
                ValueModel,
                ValueErrorModel,
            >(project_items(items, inner)->Ok_0[k]),
    decreases items.len(),
{
    if items.len() > 0 {
        let prefix = items.drop_last();
        lemma_project_items_ok(prefix, inner);
        assert forall|k: int| 0 <= k < items.len() implies project_model(#[trigger] items[k], inner)
            == Ok::<ValueModel, ValueErrorModel>(project_items(items, inner)->Ok_0[k]) by {
            if k < items.len() - 1 {
                assert(items[k] == prefix[k]);
            }
        }
    }
}

/// The first entry of a name that some entry has comes no later than it.
proof fn lemma_first_of_name(entries: Seq<(Seq<char>, ValueModel)>, name: Seq<char>, i: int)
    requires
        0 <= i < entries.len(),
        entries[i].0 == name,
    ensures
        first_entry(entries, name) matches Some(c) && 0 <= c <= i && entries[c].0 == name,
    decreases i,
{
    if exists|k: int| 0 <= k < i && #[trigger] entries[k].0 == name {
        let k = choose|k: int| 0 <= k < i && #[trigger] entries[k].0 == name;
        lemma_first_of_name(entries, name, k);
    } else {
        assert(0 <= i < entries.len() && entries[i].0 == name && forall|j: int|
            0 <= j < i ==> entries[j].0 != name);
        let c = choose|c: int|
            0 <= c < entries.len() && #[trigger] entries[c].0 == name && forall|j: int|
                0 <= j < c ==> entries[j].0 != name;
        if c > i {
            assert(entries[i].0 != name);
        }
    }
}

/// A map whose entries carry a Struct's fields in order, each field's first
/// entry of its name projecting onto the field as that field's own entry,
/// projects onto the Struct as itself.
proof fn lemma_project_keyed(entries: Seq<(Seq<char>, ValueModel)>, fs: Seq<FieldModel>)
    requires
        entries.len() == fs.len(),
        forall|i: int| 0 <= i < fs.len() ==> #[trigger] entries[i].0 == fs[i].name,
        forall|i: int|
            0 <= i < fs.len() ==> (first_entry(entries, #[trigger] fs[i].name) matches Some(j)
                && project_model(entries[j].1, fs[i].dtype) == Ok::<ValueModel, ValueErrorModel>(
                entries[i].1,
            )),
    ensures
        project_model(ValueModel::Mapping(entries), Dtype::Struct(fs)) == Ok::<
            ValueModel,
            ValueErrorModel,
        >(ValueModel::Mapping(entries)),
{
    assert forall|i: int| 0 <= i < fs.len() implies #[trigger] field_source(entries, fs[i]) == Some(
        Ok::<ValueModel, ValueErrorModel>(entries[i].1),
    ) by {
        assert(first_entry(entries, fs[i].name) is Some);
    }
    lemma_project_fields(entries, fs);
    let projected = project_fields(entries, fs)->Ok_0;
    assert forall|i: int| 0 <= i < fs.len() implies #[trigger] projected[i] == entries[i] by {
        assert(field_source(entries, fs[i]) == Some(Ok::<ValueModel, ValueErrorModel>(entries[i].1)));
        assert(entries[i].0 == fs[i].name);
    }
    assert(projected =~= entries);
}

/// Entries made field by field from consistent fields: a field's first
/// entry of its name is an entry of an equal field.
proof fn lemma_first_equal_field(
    entries: Seq<(Seq<char>, ValueModel)>,
    fs: Seq<FieldModel>,
    i: int,
)
    requires
        consistent_fields(fs),
        entries.len() == fs.len(),
        forall|k: int| 0 <= k < fs.len() ==> #[trigger] entries[k].0 == fs[k].name,
        0 <= i < fs.len(),
    ensures
        first_entry(entries, fs[i].name) matches Some(c) && 0 <= c < fs.len() && fs[c] == fs[i],
{
    lemma_consistent_fields(fs);
    assert(entries[i].0 == fs[i].name);
    lemma_first_of_name(entries, fs[i].name, i);
    let c = first_entry(entries, fs[i].name)->Some_0;
    assert(entries[c].0 == fs[c].name);
    assert(fs[c].name == fs[i].name);
    assert(fs[c].dtype == fs[i].dtype);
}

/// A dtype's default projects onto that dtype as itself.
proof fn lemma_default_projects_to_itself(d: Dtype)
    requires
        consistent_names(d),
    ensures
        project_model(default_model(d), d) == Ok::<ValueModel, ValueErrorModel>(default_model(d)),
    decreases d,
{
    match d {
        Dtype::Struct(fs) => {
            lemma_consistent_fields(fs);
            lemma_field_defaults(fs);
            let es = field_defaults(fs);
            assert forall|i: int| 0 <= i < fs.len() implies (first_entry(es, #[trigger] fs[i].name)
                matches Some(j) && project_model(es[j].1, fs[i].dtype) == Ok::<
                ValueModel,
                ValueErrorModel,
            >(es[i].1)) by {
                lemma_first_equal_field(es, fs, i);
                assert(decreases_to!(d => fs[i].dtype));
                lemma_default_projects_to_itself(fs[i].dtype);
            }
            lemma_project_keyed(es, fs);
        },
        Dtype::List(inner) => {
            assert(project_items(Seq::empty(), *inner) == Ok::<Seq<ValueModel>, ValueErrorModel>(
                Seq::empty(),
            ));
        },
        _ => {},
    }
}

/// What a projection gives projects onto the same dtype as itself.
proof fn lemma_projection_is_fixed(v: ValueModel, d: Dtype)
    requires
        consistent_names(d),
        project_model(v, d) is Ok,
    ensures
        project_model(project_model(v, d)->Ok_0, d) == project_model(v, d),
    decreases d,
{
    match d {
        Dtype::Struct(fs) => match v {
            ValueModel::Mapping(entries) => {
                lemma_consistent_fields(fs);
                lemma_project_fields(entries, fs);
                let es = project_fields(entries, fs)->Ok_0;
                assert forall|i: int| 0 <= i < fs.len() implies project_model(
                    #[trigger] es[i].1,
                    fs[i].dtype,
                ) == Ok::<ValueModel, ValueErrorModel>(es[i].1) by {
                    assert(decreases_to!(d => fs[i].dtype));
                    match first_entry(entries, fs[i].name) {
                        Some(j) => {
                            assert(field_source(entries, fs[i]) == Some(
                                project_model(entries[j].1, fs[i].dtype),
                            ));
                            lemma_projection_is_fixed(entries[j].1, fs[i].dtype);
                        },
                        None => {
                            lemma_default_projects_to_itself(fs[i].dtype);
                        },
                    }
                }
                assert forall|i: int| 0 <= i < fs.len() implies (first_entry(
                    es,
                    #[trigger] fs[i].name,
                ) matches Some(j) && project_model(es[j].1, fs[i].dtype) == Ok::<
                    ValueModel,
                    ValueErrorModel,
                >(es[i].1)) by {
                    lemma_first_equal_field(es, fs, i);
                    let c = first_entry(es, fs[i].name)->Some_0;
                    assert(es[c] == es[i]);
                    assert(project_model(es[i].1, fs[i].dtype) == Ok::<ValueModel, ValueErrorModel>(
                        es[i].1,
                    ));
                }
                lemma_project_keyed(es, fs);
            },
            _ => {
                lemma_default_projects_to_itself(d);
            },
        },
        Dtype::List(inner) => match v {
            ValueModel::List(items) => {
                lemma_project_items_ok(items, *inner);
                let ps = project_items(items, *inner)->Ok_0;
                assert forall|k: int| 0 <= k < ps.len() implies project_model(#[trigger] ps[k], *inner)
                    == Ok::<ValueModel, ValueErrorModel>(ps[k]) by {
                    assert(project_model(items[k], *inner) == Ok::<ValueModel, ValueErrorModel>(ps[k]));
                    lemma_projection_is_fixed(items[k], *inner);
                }
                lemma_project_items_exact(ps, *inner);
            },
            _ => {
                lemma_default_projects_to_itself(d);
            },
        },
        _ => {},
    }
}

/// A value has the shape that a projection gives it: at every Struct a map
/// whose keys are the Struct's field names in order, at every List a list,
/// and at every leaf null or a value that fits.
pub open spec fn shaped(v: ValueModel, d: Dtype) -> bool
    decreases d,
{
    match d {
        Dtype::Struct(fs) => match v {
            ValueModel::Mapping(es) => es.len() == fs.len() && forall|i: int|
                #![trigger fs[i]]
                0 <= i < fs.len() ==> es[i].0 == fs[i].name && shaped(es[i].1, fs[i].dtype),
            _ => false,
        },
        Dtype::List(inner) => match v {
            ValueModel::List(items) => forall|k: int|
                0 <= k < items.len() ==> shaped(#[trigger] items[k], *inner),
            _ => false,
        },
        _ => v is Null || scalar_fits(v, d),
    }
}

/// A dtype's default has its shape.
proof fn lemma_default_shaped(d: Dtype)
    ensures
        shaped(default_model(d), d),
    decreases d,
{
    if let Dtype::Struct(fs) = d {
        lemma_field_defaults(fs);
        let es = field_defaults(fs);
        assert forall|i: int| #![trigger fs[i]] 0 <= i < fs.len() implies es[i].0 == fs[i].name
            && shaped(es[i].1, fs[i].dtype) by {
            assert(decreases_to!(d => fs[i].dtype));
            lemma_default_shaped(fs[i].dtype);
        }
    }
}

/// What a projection gives has the dtype's shape.
proof fn lemma_projection_shaped(v: ValueModel, d: Dtype)
    requires
        project_model(v, d) is Ok,
    ensures
        shaped(project_model(v, d)->Ok_0, d),
    decreases d,
{
    match d {
        Dtype::Struct(fs) => match v {
            ValueModel::Mapping(entries) => {
                lemma_project_fields(entries, fs);
                let es = project_fields(entries, fs)->Ok_0;
                assert forall|i: int| #![trigger fs[i]] 0 <= i < fs.len() implies es[i].0
                    == fs[i].name && shaped(es[i].1, fs[i].dtype) by {
                    assert(decreases_to!(d => fs[i].dtype));
                    match first_entry(entries, fs[i].name) {
                        Some(j) => {
                            assert(field_source(entries, fs[i]) == Some(
                                project_model(entries[j].1, fs[i].dtype),
                            ));
                            lemma_projection_shaped(entries[j].1, fs[i].dtype);
                            assert(es[i].1 == project_model(entries[j].1, fs[i].dtype)->Ok_0);
                        },
                        None => {
                            lemma_default_shaped(fs[i].dtype);
                        },
                    }
                }
            },
            _ => {
                lemma_default_shaped(d);
            },
        },
        Dtype::List(inner) => match v {
            ValueModel::List(items) => {
                lemma_project_items_ok(items, *inner);
                let ps = project_items(items, *inner)->Ok_0;
                assert forall|k: int| 0 <= k < ps.len() implies shaped(#[trigger] ps[k], *inner) by {
                    assert(project_model(items[k], *inner) == Ok::<ValueModel, ValueErrorModel>(ps[k]));
                    lemma_projection_shaped(items[k], *inner);
                }
            },
            _ => {
                lemma_default_shaped(d);
            },
        },
        _ => {},
    }
}

/// Projecting twice is projecting once: where fields that share a name in a
/// Struct of the dtype also share their dtype (in particular where names are
/// distinct), a value that projects onto the dtype gives a value that
/// projects onto it as itself. Whatever the names, what a projection gives
/// has the dtype's shape: at every Struct a map whose keys are the field
/// names in order, at every List a list.
pub proof fn law_projecting_twice_is_projecting_once(v: ValueModel, d: Dtype)
    requires
        project_model(v, d) is Ok,
    ensures
        consistent_names(d) ==> project_model(project_model(v, d)->Ok_0, d) == project_model(v, d),
        shaped(project_model(v, d)->Ok_0, d),
{
    lemma_projection_shaped(v, d);
    if consistent_names(d) {
        lemma_projection_is_fixed(v, d);
    }
}

/// What a projection gives has the shape of the dtype.
proof fn lemma_projection_conforms(v: ValueModel, d: Dtype)
    requires
        distinct_names(d),
        project_model(v, d) is Ok,
    ensures
        conform(project_model(v, d)->Ok_0, d),
    decreases d,
{
    match d {
        Dtype::Struct(fs) => match v {
            ValueModel::Mapping(entries) => {
                lemma_distinct_fields(fs);
                lemma_project_fields(entries, fs);
                let es = project_fields(entries, fs)->Ok_0;
                assert forall|a: int, b: int| 0 <= a < b < es.len() implies #[trigger] es[a].0
                    != #[trigger] es[b].0 by {
                    assert(fs[a].name != fs[b].name);
                }
                assert forall|i: int| 0 <= i < fs.len() implies (first_entry(
                    es,
                    #[trigger] fs[i].name,
                ) matches Some(j) ==> conform(es[j].1, fs[i].dtype)) by {
                    lemma_entry_at(es, i);
                    assert(decreases_to!(d => fs[i].dtype));
                    match first_entry(entries, fs[i].name) {
                        Some(j) => {
                            assert(field_source(entries, fs[i]) == Some(
                                project_model(entries[j].1, fs[i].dtype),
                            ));
                            lemma_projection_conforms(entries[j].1, fs[i].dtype);
                        },
                        None => {
                            lemma_default_conforms(fs[i].dtype);
                        },
                    }
                }
            },
            _ => {
                lemma_default_conforms(d);
            },
        },
        Dtype::List(inner) => match v {
            ValueModel::List(items) => {
                lemma_project_items_ok(items, *inner);
                let ps = project_items(items, *inner)->Ok_0;
                assert forall|k: int| 0 <= k < ps.len() implies conform(#[trigger] ps[k], *inner) by {
                    assert(project_model(items[k], *inner) == Ok::<ValueModel, ValueErrorModel>(ps[k]));
                    lemma_projection_conforms(items[k], *inner);
                }
            },
            _ => {
                lemma_default_conforms(d);
            },
        },
        _ => {},
    }
}

/// A projected value builds a column: where every Struct of a dtype has
/// distinct field names, the value that a projection onto the dtype gives
/// builds a one-row column of that dtype, and for a Struct the row is
/// present.
pub proof fn law_projected_value_builds_a_present_row(v: ValueModel, d: Dtype)
    requires
        distinct_names(d),
        project_model(v, d) is Ok,
    ensures
        build_model(d, seq![Some(project_model(v, d)->Ok_0)]) is Ok,
        d is Struct ==> (build_model(d, seq![Some(project_model(v, d)->Ok_0)]) matches Ok(
            ColumnModel::Struct(validity, _),
        ) && validity == seq![true]),
{
    let w = project_model(v, d)->Ok_0;
    let rows = seq![Some(w)];
    lemma_projection_conforms(v, d);
    assert(rows[0] == Some(w));
    lemma_build_ok(d, rows);
    if d is Struct {
        lemma_struct_validity(d, rows);
        assert(w is Mapping);
        assert(rows.map_values(|r: Option<ValueModel>| r matches Some(ValueModel::Mapping(_))) =~= seq![
            true,
        ]);
    }
}

/// Deduplicated lookups of projected records give the row-wise column:
/// where every Struct of the dtype has distinct field names and every
/// distinct record already projects onto the dtype as itself, laying out
/// the records with their row indexes builds the same column as building it
/// from each row's own record, and that column builds.
pub proof fn law_deduplicated_projected_records_match_rows(
    d: Dtype,
    records: Seq<Option<ValueModel>>,
    rows: Seq<Option<int>>,
)
    requires
        distinct_names(d),
        forall|k: int|
            0 <= k < records.len() ==> (#[trigger] records[k] matches Some(v) ==> project_model(v, d)
                == Ok::<ValueModel, ValueErrorModel>(v)),
        forall|i: int| 0 <= i < rows.len() ==> (#[trigger] rows[i] matches Some(k) ==> 0 <= k < records.len()),
    ensures
        build_model(d, gather(records, rows)) is Ok,
        layout_model(d, presence(records), records, rows, row_validity(records, rows)) == build_model(
            d,
            gather(records, rows),
        ),
{
    assert forall|k: int| 0 <= k < records.len() implies (#[trigger] records[k] matches Some(v)
        ==> conform(v, d)) by {
        if let Some(v) = records[k] {
            lemma_projection_conforms(v, d);
        }
    }
    law_deduplicated_layout_matches_rows(d, records, rows);
    let gathered = gather(records, rows);
    assert forall|i: int| 0 <= i < gathered.len() implies (#[trigger] gathered[i] matches Some(v)
        ==> conform(v, d)) by {
        if let Some(k) = rows[i] {
            assert(gathered[i] == records[k]);
        }
    }
    lemma_build_ok(d, gathered);
}

} // verus!
