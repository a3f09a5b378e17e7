use vstd::prelude::*;

use crate::column::{
    layout_fields, layout_model, leaf_values, presence, row_validity, sub_records, field_of,
    build_fields, build_model, cell_model, child_rows, gather, leaf_cells, list_rows, struct_validity,
    take_model, CellModel, ColumnModel,
};
use crate::value::{kind_text, ValueErrorModel};
use crate::schema::{Dtype, FieldModel};
use crate::value::{default_model, field_defaults, first_entry, lemma_field_defaults, scalar_fits, ValueModel};

verus! {

/// Field names are distinct in every Struct of a dtype.
pub open spec fn distinct_names(d: Dtype) -> bool
    decreases d,
{
    match d {
        Dtype::Struct(fields) => distinct_fields(fields),
        Dtype::List(inner) => distinct_names(*inner),
        _ => true,
    }
}

/// Field names are distinct, and distinct within each field's dtype.
pub open spec fn distinct_fields(fields: Seq<FieldModel>) -> bool
    decreases fields,
{
    if fields.len() == 0 {
        true
    } else {
        proof {
            assert(decreases_to!(fields => fields.drop_last()));
            assert(decreases_to!(fields => fields[fields.len() - 1]));
        }
        &&& distinct_fields(fields.drop_last())
        &&& distinct_names(fields.last().dtype)
        &&& forall|j: int| 0 <= j < fields.len() - 1 ==> fields[j].name != fields.last().name
    }
}

/// Fields that share a name share their dtype too, in every Struct of a
/// dtype.
pub open spec fn consistent_names(d: Dtype) -> bool
    decreases d,
{
    match d {
        Dtype::Struct(fields) => consistent_fields(fields),
        Dtype::List(inner) => consistent_names(*inner),
        _ => true,
    }
}

/// Fields of one name have one dtype, and each field's dtype is consistent
/// within.
pub open spec fn consistent_fields(fields: Seq<FieldModel>) -> bool
    decreases fields,
{
    if fields.len() == 0 {
        true
    } else {
        proof {
            assert(decreases_to!(fields => fields.drop_last()));
            assert(decreases_to!(fields => fields[fields.len() - 1]));
        }
        &&& consistent_fields(fields.drop_last())
        &&& consistent_names(fields.last().dtype)
        &&& forall|j: int|
            0 <= j < fields.len() - 1 ==> fields[j].name == fields.last().name ==> fields[j].dtype
                == fields.last().dtype
    }
}

/// Consistent fields: each dtype is consistent, and two fields of one name
/// have one dtype.
pub proof fn lemma_consistent_fields(fields: Seq<FieldModel>)
    requires
        consistent_fields(fields),
    ensures
        forall|j: int| 0 <= j < fields.len() ==> consistent_names(#[trigger] fields[j].dtype),
        forall|i: int, j: int|
            0 <= i < fields.len() && 0 <= j < fields.len() && #[trigger] fields[i].name
                == #[trigger] fields[j].name ==> fields[i].dtype == fields[j].dtype,
    decreases fields.len(),
{
    if fields.len() > 0 {
        let prefix = fields.drop_last();
        lemma_consistent_fields(prefix);
        assert forall|j: int| 0 <= j < fields.len() implies consistent_names(
            #[trigger] fields[j].dtype,
        ) by {
            if j < fields.len() - 1 {
                assert(fields[j] == prefix[j]);
            }
        }
        assert forall|i: int, j: int|
            0 <= i < fields.len() && 0 <= j < fields.len() && #[trigger] fields[i].name
                == #[trigger] fields[j].name implies fields[i].dtype == fields[j].dtype by {
            let n = fields.len() - 1;
            if i < n && j < n {
                assert(fields[i] == prefix[i]);
                assert(fields[j] == prefix[j]);
            }
        }
    }
}

/// Distinct fields have pairwise distinct names and distinct names within.
pub proof fn lemma_distinct_fields(fields: Seq<FieldModel>)
    requires
        distinct_fields(fields),
    ensures
        forall|j: int| 0 <= j < fields.len() ==> distinct_names(#[trigger] fields[j].dtype),
        forall|i: int, j: int|
            0 <= i < j < fields.len() ==> #[trigger] fields[i].name != #[trigger] fields[j].name,
    decreases fields.len(),
{
    if fields.len() > 0 {
        lemma_distinct_fields(fields.drop_last());
        assert forall|j: int| 0 <= j < fields.len() implies distinct_names(
            #[trigger] fields[j].dtype,
        ) by {
            if j < fields.len() - 1 {
                assert(fields[j] == fields.drop_last()[j]);
            }
        }
        assert forall|i: int, j: int|
            0 <= i < j < fields.len() implies #[trigger] fields[i].name
            != #[trigger] fields[j].name by {
            if j < fields.len() - 1 {
                assert(fields[i] == fields.drop_last()[i]);
                assert(fields[j] == fields.drop_last()[j]);
            }
        }
    }
}

/// A value has the shape of a dtype: Structs are maps whose requested
/// fields have their field's shape, Lists are null or lists of elements of
/// the element shape, and leaves are null or fit.
pub open spec fn conform(v: ValueModel, d: Dtype) -> bool
    decreases d,
{
    match d {
        Dtype::Struct(fields) => match v {
            ValueModel::Mapping(es) => forall|i: int|
                0 <= i < fields.len() ==> (first_entry(es, #[trigger] fields[i].name) matches Some(
                    j,
                ) ==> conform(es[j].1, fields[i].dtype)),
            _ => false,
        },
        Dtype::List(inner) => match v {
            ValueModel::Null => true,
            ValueModel::List(items) => forall|j: int|
                0 <= j < items.len() ==> conform(#[trigger] items[j], *inner),
            _ => false,
        },
        _ => v is Null || scalar_fits(v, d),
    }
}

/// In a map built from fields with distinct names, the first entry of a
/// field's name is that field's own entry.
pub proof fn lemma_first_of_distinct(fields: Seq<FieldModel>, i: int)
    requires
        0 <= i < fields.len(),
        forall|a: int, b: int|
            0 <= a < b < fields.len() ==> #[trigger] fields[a].name != #[trigger] fields[b].name,
    ensures
        first_entry(field_defaults(fields), fields[i].name) == Some(i),
{
    lemma_field_defaults(fields);
    let es = field_defaults(fields);
    assert(es[i].0 == fields[i].name);
    assert forall|j: int| 0 <= j < i implies es[j].0 != fields[i].name by {
        assert(fields[j].name != fields[i].name);
    }
    let c = choose|c: int|
        0 <= c < es.len() && #[trigger] es[c].0 == fields[i].name && forall|j: int|
            0 <= j < c ==> es[j].0 != fields[i].name;
    if c > i {
        assert(es[i].0 != fields[i].name);
    }
    if c < i {
        assert(fields[c].name != fields[i].name);
    }
}

/// Defaults have the shape of their dtype.
pub proof fn lemma_default_conforms(d: Dtype)
    requires
        distinct_names(d),
    ensures
        conform(default_model(d), d),
    decreases d,
{
    match d {
        Dtype::Struct(fields) => {
            lemma_distinct_fields(fields);
            lemma_field_defaults(fields);
            let es = field_defaults(fields);
            assert forall|i: int| 0 <= i < fields.len() implies (first_entry(
                es,
                #[trigger] fields[i].name,
            ) matches Some(j) ==> conform(es[j].1, fields[i].dtype)) by {
                lemma_first_of_distinct(fields, i);
                assert(decreases_to!(fields => fields[i]));
                lemma_default_conforms(fields[i].dtype);
            }
        },
        _ => {},
    }
}


/// A row that a leaf column accepts.
pub open spec fn leaf_ok(d: Dtype, r: Option<ValueModel>) -> bool {
    match r {
        None => true,
        Some(v) => v is Null || scalar_fits(v, d),
    }
}

/// The cell a leaf column holds for an accepted row.
pub open spec fn leaf_cell(r: Option<ValueModel>) -> Option<CellModel> {
    match r {
        None => None,
        Some(v) => if v is Null {
            None
        } else {
            Some(cell_model(v))
        },
    }
}

/// A leaf column is built exactly when every row is accepted, and then holds
/// each row's cell.
pub proof fn lemma_leaf_cells(d: Dtype, rows: Seq<Option<ValueModel>>)
    ensures
        leaf_cells(d, rows) is Ok <==> forall|i: int| 0 <= i < rows.len() ==> leaf_ok(d, #[trigger] rows[i]),
        leaf_cells(d, rows) is Ok ==> leaf_cells(d, rows) == Ok::<
            Seq<Option<CellModel>>,
            ValueErrorModel,
        >(rows.map_values(|r: Option<ValueModel>| leaf_cell(r))),
    decreases rows.len(),
{
    if rows.len() > 0 {
        lemma_leaf_cells(d, rows.drop_last());
        if leaf_cells(d, rows) is Ok {
            assert forall|i: int| 0 <= i < rows.len() implies leaf_ok(d, #[trigger] rows[i]) by {
                if i < rows.len() - 1 {
                    assert(rows[i] == rows.drop_last()[i]);
                }
            }
            assert(rows.map_values(|r: Option<ValueModel>| leaf_cell(r)) =~= rows.drop_last().map_values(
                |r: Option<ValueModel>| leaf_cell(r),
            ).push(leaf_cell(rows.last())));
        } else {
            if forall|i: int| 0 <= i < rows.len() ==> leaf_ok(d, #[trigger] rows[i]) {
                assert forall|i: int| 0 <= i < rows.drop_last().len() implies leaf_ok(
                    d,
                    #[trigger] rows.drop_last()[i],
                ) by {
                    assert(rows[i] == rows.drop_last()[i]);
                }
                assert(leaf_ok(d, rows[rows.len() - 1]));
            }
        }
    } else {
        assert(rows.map_values(|r: Option<ValueModel>| leaf_cell(r)) =~= Seq::<Option<CellModel>>::empty());
    }
}

/// A row that a Struct column accepts.
pub open spec fn record_ok(r: Option<ValueModel>) -> bool {
    match r {
        None => true,
        Some(v) => v is Null || v is Mapping,
    }
}

/// A Struct validity is computed exactly when every row is accepted; a row
/// is valid when it holds a map.
pub proof fn lemma_struct_validity(d: Dtype, rows: Seq<Option<ValueModel>>)
    ensures
        struct_validity(d, rows) is Ok <==> forall|i: int| 0 <= i < rows.len() ==> record_ok(#[trigger] rows[i]),
        struct_validity(d, rows) is Ok ==> struct_validity(d, rows) == Ok::<Seq<bool>, ValueErrorModel>(
            rows.map_values(|r: Option<ValueModel>| r matches Some(ValueModel::Mapping(_))),
        ),
    decreases rows.len(),
{
    if rows.len() > 0 {
        lemma_struct_validity(d, rows.drop_last());
        if struct_validity(d, rows) is Ok {
            assert forall|i: int| 0 <= i < rows.len() implies record_ok(#[trigger] rows[i]) by {
                if i < rows.len() - 1 {
                    assert(rows[i] == rows.drop_last()[i]);
                }
            }
            assert(rows.map_values(|r: Option<ValueModel>| r matches Some(ValueModel::Mapping(_)))
                =~= rows.drop_last().map_values(
                |r: Option<ValueModel>| r matches Some(ValueModel::Mapping(_)),
            ).push(rows.last() matches Some(ValueModel::Mapping(_))));
        } else {
            if forall|i: int| 0 <= i < rows.len() ==> record_ok(#[trigger] rows[i]) {
                assert forall|i: int| 0 <= i < rows.drop_last().len() implies record_ok(
                    #[trigger] rows.drop_last()[i],
                ) by {
                    assert(rows[i] == rows.drop_last()[i]);
                }
                assert(record_ok(rows[rows.len() - 1]));
            }
        }
    } else {
        assert(rows.map_values(|r: Option<ValueModel>| r matches Some(ValueModel::Mapping(_)))
            =~= Seq::<bool>::empty());
    }
}

/// The elements of a list as present rows.
pub open spec fn element_rows(items: Seq<ValueModel>) -> Seq<Option<ValueModel>> {
    items.map_values(|x: ValueModel| Some(x))
}

/// A row that a List column accepts.
pub open spec fn list_ok(inner: Dtype, r: Option<ValueModel>) -> bool {
    match r {
        None => true,
        Some(v) => match v {
            ValueModel::Null => true,
            ValueModel::List(items) => build_model(inner, element_rows(items)) is Ok,
            _ => false,
        },
    }
}

/// The list a List column holds for an accepted row.
pub open spec fn list_cell(inner: Dtype, r: Option<ValueModel>) -> Option<ColumnModel> {
    match r {
        Some(ValueModel::List(items)) => match build_model(inner, element_rows(items)) {
            Ok(c) => Some(c),
            Err(_) => None,
        },
        _ => None,
    }
}

/// A List column is built exactly when every row is accepted, and then
/// holds each row's list.
pub proof fn lemma_list_rows(inner: Dtype, rows: Seq<Option<ValueModel>>)
    ensures
        list_rows(inner, rows) is Ok <==> forall|i: int|
            0 <= i < rows.len() ==> list_ok(inner, #[trigger] rows[i]),
        list_rows(inner, rows) is Ok ==> list_rows(inner, rows) == Ok::<
            Seq<Option<ColumnModel>>,
            ValueErrorModel,
        >(rows.map_values(|r: Option<ValueModel>| list_cell(inner, r))),
    decreases rows.len(),
{
    if rows.len() > 0 {
        lemma_list_rows(inner, rows.drop_last());
        if list_rows(inner, rows) is Ok {
            assert forall|i: int| 0 <= i < rows.len() implies list_ok(inner, #[trigger] rows[i]) by {
                if i < rows.len() - 1 {
                    assert(rows[i] == rows.drop_last()[i]);
                }
            }
            assert(rows.map_values(|r: Option<ValueModel>| list_cell(inner, r)) =~= rows.drop_last().map_values(
                |r: Option<ValueModel>| list_cell(inner, r),
            ).push(list_cell(inner, rows.last())));
        } else {
            if forall|i: int| 0 <= i < rows.len() ==> list_ok(inner, #[trigger] rows[i]) {
                assert forall|i: int| 0 <= i < rows.drop_last().len() implies list_ok(
                    inner,
                    #[trigger] rows.drop_last()[i],
                ) by {
                    assert(rows[i] == rows.drop_last()[i]);
                }
                assert(list_ok(inner, rows[rows.len() - 1]));
            }
        }
    } else {
        assert(rows.map_values(|r: Option<ValueModel>| list_cell(inner, r)) =~= Seq::<
            Option<ColumnModel>,
        >::empty());
    }
}


/// The child column of one field.
pub open spec fn field_child(f: FieldModel, rows: Seq<Option<ValueModel>>) -> (Seq<char>, ColumnModel) {
    (
        f.name,
        match build_model(f.dtype, child_rows(rows, f)) {
            Ok(c) => c,
            Err(_) => ColumnModel::Struct(Seq::empty(), Seq::empty()),
        },
    )
}

/// The child columns of a Struct are built exactly when every field's child
/// is, and then they are those children in field order.
pub proof fn lemma_build_fields(fields: Seq<FieldModel>, rows: Seq<Option<ValueModel>>)
    ensures
        build_fields(fields, rows) is Ok <==> forall|i: int|
            0 <= i < fields.len() ==> build_model(
                #[trigger] fields[i].dtype,
                child_rows(rows, fields[i]),
            ) is Ok,
        build_fields(fields, rows) is Ok ==> build_fields(fields, rows) == Ok::<
            Seq<(Seq<char>, ColumnModel)>,
            ValueErrorModel,
        >(fields.map_values(|f: FieldModel| field_child(f, rows))),
    decreases fields.len(),
{
    if fields.len() > 0 {
        lemma_build_fields(fields.drop_last(), rows);
        if build_fields(fields, rows) is Ok {
            assert forall|i: int| 0 <= i < fields.len() implies build_model(
                #[trigger] fields[i].dtype,
                child_rows(rows, fields[i]),
            ) is Ok by {
                if i < fields.len() - 1 {
                    assert(fields[i] == fields.drop_last()[i]);
                }
            }
            assert(fields.map_values(|f: FieldModel| field_child(f, rows)) =~= fields.drop_last().map_values(
                |f: FieldModel| field_child(f, rows),
            ).push(field_child(fields.last(), rows)));
        } else {
            if forall|i: int|
                0 <= i < fields.len() ==> build_model(
                    #[trigger] fields[i].dtype,
                    child_rows(rows, fields[i]),
                ) is Ok {
                assert forall|i: int| 0 <= i < fields.drop_last().len() implies build_model(
                    #[trigger] fields.drop_last()[i].dtype,
                    child_rows(rows, fields.drop_last()[i]),
                ) is Ok by {
                    assert(fields[i] == fields.drop_last()[i]);
                }
                assert(build_model(
                    fields[fields.len() - 1].dtype,
                    child_rows(rows, fields[fields.len() - 1]),
                ) is Ok);
            }
        }
    } else {
        assert(fields.map_values(|f: FieldModel| field_child(f, rows)) =~= Seq::<
            (Seq<char>, ColumnModel),
        >::empty());
    }
}

/// Rows whose present values all have the shape of the dtype build a column.
pub proof fn lemma_build_ok(d: Dtype, rows: Seq<Option<ValueModel>>)
    requires
        distinct_names(d),
        forall|i: int| 0 <= i < rows.len() ==> (#[trigger] rows[i] matches Some(v) ==> conform(v, d)),
    ensures
        build_model(d, rows) is Ok,
    decreases d, rows.len(),
{
    match d {
        Dtype::Struct(fields) => {
            lemma_struct_validity(d, rows);
            assert forall|i: int| 0 <= i < rows.len() implies record_ok(#[trigger] rows[i]) by {
                if rows[i] is Some {
                    assert(conform(rows[i]->Some_0, d));
                }
            }
            lemma_distinct_fields(fields);
            lemma_build_fields(fields, rows);
            assert forall|f: int| 0 <= f < fields.len() implies build_model(
                #[trigger] fields[f].dtype,
                child_rows(rows, fields[f]),
            ) is Ok by {
                let field = fields[f];
                let child = child_rows(rows, field);
                assert forall|i: int| 0 <= i < child.len() implies (#[trigger] child[i] matches Some(
                    v,
                ) ==> conform(v, field.dtype)) by {
                    if let Some(ValueModel::Mapping(es)) = rows[i] {
                        assert(conform(rows[i]->Some_0, d));
                        match first_entry(es, field.name) {
                            Some(j) => {
                                assert(conform(es[j].1, fields[f].dtype));
                            },
                            None => {
                                lemma_default_conforms(field.dtype);
                            },
                        }
                    }
                }
                assert(decreases_to!(fields => fields[f]));
                lemma_build_ok(field.dtype, child);
            }
        },
        Dtype::List(inner) => {
            lemma_list_rows(*inner, rows);
            assert forall|i: int| 0 <= i < rows.len() implies list_ok(*inner, #[trigger] rows[i]) by {
                if let Some(ValueModel::List(items)) = rows[i] {
                    assert(conform(rows[i]->Some_0, d));
                    let elements = element_rows(items);
                    assert forall|j: int| 0 <= j < elements.len() implies (
                    #[trigger] elements[j] matches Some(v) ==> conform(v, *inner)) by {
                        assert(conform(items[j], *inner));
                    }
                    lemma_build_ok(*inner, elements);
                } else if rows[i] is Some {
                    assert(conform(rows[i]->Some_0, d));
                }
            }
        },
        _ => {
            lemma_leaf_cells(d, rows);
            assert forall|i: int| 0 <= i < rows.len() implies leaf_ok(d, #[trigger] rows[i]) by {
                if rows[i] is Some {
                    assert(conform(rows[i]->Some_0, d));
                }
            }
        },
    }
}


/// Picking rows of a built leaf or List column is building the column of
/// the picked rows.
pub proof fn lemma_take_build(d: Dtype, vals: Seq<Option<ValueModel>>, rows: Seq<Option<int>>)
    requires
        !(d is Struct),
        build_model(d, vals) is Ok,
        forall|i: int| 0 <= i < rows.len() ==> (#[trigger] rows[i] matches Some(k) ==> 0 <= k < vals.len()),
    ensures
        build_model(d, gather(vals, rows)) == Ok::<ColumnModel, ValueErrorModel>(
            take_model(build_model(d, vals)->Ok_0, rows),
        ),
{
    let g = gather(vals, rows);
    match d {
        Dtype::List(inner) => {
            lemma_list_rows(*inner, vals);
            assert forall|i: int| 0 <= i < g.len() implies list_ok(*inner, #[trigger] g[i]) by {
                if let Some(k) = rows[i] {
                    assert(list_ok(*inner, vals[k]));
                }
            }
            lemma_list_rows(*inner, g);
            assert(g.map_values(|r: Option<ValueModel>| list_cell(*inner, r)) =~= gather(
                vals.map_values(|r: Option<ValueModel>| list_cell(*inner, r)),
                rows,
            ));
        },
        _ => {
            lemma_leaf_cells(d, vals);
            assert forall|i: int| 0 <= i < g.len() implies leaf_ok(d, #[trigger] g[i]) by {
                if let Some(k) = rows[i] {
                    assert(leaf_ok(d, vals[k]));
                }
            }
            lemma_leaf_cells(d, g);
            assert(g.map_values(|r: Option<ValueModel>| leaf_cell(r)) =~= gather(
                vals.map_values(|r: Option<ValueModel>| leaf_cell(r)),
                rows,
            ));
        },
    }
}

/// Struct children laid out field by field equal the children built field by
/// field, when each field's child is equal.
pub proof fn lemma_fields_lockstep(
    fields: Seq<FieldModel>,
    present: Seq<bool>,
    records: Seq<Option<ValueModel>>,
    rows: Seq<Option<int>>,
    validity: Seq<bool>,
    expected: Seq<Option<ValueModel>>,
)
    requires
        forall|j: int|
            0 <= j < fields.len() ==> layout_model(
                #[trigger] fields[j].dtype,
                present,
                sub_records(records, fields[j].name),
                rows,
                validity,
            ) == build_model(fields[j].dtype, child_rows(expected, fields[j])),
    ensures
        layout_fields(fields, present, records, rows, validity) == build_fields(fields, expected),
    decreases fields.len(),
{
    if fields.len() > 0 {
        assert forall|j: int| 0 <= j < fields.drop_last().len() implies layout_model(
            #[trigger] fields.drop_last()[j].dtype,
            present,
            sub_records(records, fields.drop_last()[j].name),
            rows,
            validity,
        ) == build_model(fields.drop_last()[j].dtype, child_rows(expected, fields.drop_last()[j])) by {
            assert(fields.drop_last()[j] == fields[j]);
        }
        lemma_fields_lockstep(fields.drop_last(), present, records, rows, validity, expected);
        assert(layout_model(
            fields[fields.len() - 1].dtype,
            present,
            sub_records(records, fields[fields.len() - 1].name),
            rows,
            validity,
        ) == build_model(fields[fields.len() - 1].dtype, child_rows(expected, fields[fields.len() - 1])));
    }
}

/// Laying out records is building the column of each row's record: a row
/// that picks a present record gets that record's value (or the dtype's
/// default where the value is missing), any other row gets nothing.
pub proof fn lemma_layout_rows(
    d: Dtype,
    present: Seq<bool>,
    records: Seq<Option<ValueModel>>,
    rows: Seq<Option<int>>,
    validity: Seq<bool>,
)
    requires
        distinct_names(d),
        present.len() == records.len(),
        forall|k: int|
            0 <= k < records.len() ==> (present[k] ==> (#[trigger] records[k] matches Some(v) ==> conform(v, d))),
        forall|i: int| 0 <= i < rows.len() ==> (#[trigger] rows[i] matches Some(k) ==> 0 <= k < records.len()),
        validity.len() == rows.len(),
        forall|i: int|
            0 <= i < rows.len() ==> #[trigger] validity[i] == (rows[i] matches Some(k) && present[k]),
    ensures
        layout_model(d, present, records, rows, validity) == build_model(
            d,
            gather(leaf_values(d, present, records), rows),
        ),
    decreases d,
{
    let lv = leaf_values(d, present, records);
    let expected = gather(lv, rows);
    assert forall|k: int| 0 <= k < lv.len() implies (#[trigger] lv[k] matches Some(v) ==> conform(v, d)) by {
        if present[k] {
            if records[k] is None {
                lemma_default_conforms(d);
            }
        }
    }
    match d {
        Dtype::Struct(fields) => {
            lemma_struct_validity(d, expected);
            assert forall|i: int| 0 <= i < expected.len() implies record_ok(#[trigger] expected[i]) by {
                if let Some(k) = rows[i] {
                    if present[k] {
                        assert(conform(lv[k]->Some_0, d));
                    }
                }
            }
            assert forall|i: int| 0 <= i < expected.len() implies (#[trigger] expected[i] matches Some(
                ValueModel::Mapping(_),
            )) == validity[i] by {
                if let Some(k) = rows[i] {
                    if present[k] {
                        assert(conform(lv[k]->Some_0, d));
                    }
                }
            }
            assert(expected.map_values(|r: Option<ValueModel>| r matches Some(ValueModel::Mapping(_)))
                =~= validity);
            lemma_distinct_fields(fields);
            assert forall|j: int| 0 <= j < fields.len() implies layout_model(
                #[trigger] fields[j].dtype,
                present,
                sub_records(records, fields[j].name),
                rows,
                validity,
            ) == build_model(fields[j].dtype, child_rows(expected, fields[j])) by {
                let f = fields[j];
                let sub = sub_records(records, f.name);
                assert forall|k: int|
                    0 <= k < sub.len() && present[k] && #[trigger] sub[k] is Some implies conform(
                        sub[k]->Some_0,
                        f.dtype,
                    ) by {
                    let v = records[k]->Some_0;
                    assert(conform(v, d));
                }
                assert(child_rows(expected, f) =~= gather(leaf_values(f.dtype, present, sub), rows))
                    by {
                    assert forall|i: int| 0 <= i < rows.len() implies #[trigger] child_rows(
                        expected,
                        f,
                    )[i] == gather(leaf_values(f.dtype, present, sub), rows)[i] by {
                        if let Some(k) = rows[i] {
                            if present[k] {
                                match records[k] {
                                    Some(v) => {
                                        assert(conform(v, d));
                                    },
                                    None => {
                                        lemma_first_of_distinct(fields, j);
                                        lemma_field_defaults(fields);
                                    },
                                }
                            }
                        }
                    }
                }
                assert(decreases_to!(fields => fields[j]));
                lemma_layout_rows(f.dtype, present, sub, rows, validity);
            }
            lemma_fields_lockstep(fields, present, records, rows, validity, expected);
        },
        _ => {
            lemma_build_ok(d, lv);
            lemma_take_build(d, lv, rows);
        },
    }
}

/// Deduplicated lookups give the row-wise column: laying out deduplicated
/// records with their row indexes is the same as building the column from
/// each row's own record, when every record has the shape of the dtype and
/// field names are distinct.
pub proof fn law_deduplicated_layout_matches_rows(
    d: Dtype,
    records: Seq<Option<ValueModel>>,
    rows: Seq<Option<int>>,
)
    requires
        distinct_names(d),
        forall|k: int| 0 <= k < records.len() ==> (#[trigger] records[k] matches Some(v) ==> conform(v, d)),
        forall|i: int| 0 <= i < rows.len() ==> (#[trigger] rows[i] matches Some(k) ==> 0 <= k < records.len()),
    ensures
        layout_model(d, presence(records), records, rows, row_validity(records, rows)) == build_model(
            d,
            gather(records, rows),
        ),
{
    let present = presence(records);
    lemma_layout_rows(d, present, records, rows, row_validity(records, rows));
    assert(leaf_values(d, present, records) =~= records);
}

} // verus!
