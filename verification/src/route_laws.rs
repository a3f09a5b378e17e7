use vstd::prelude::*;

use crate::column::{
    field_of, index_model, indexes_below, layout_fields, layout_model, leaf_values, presence,
    row_validity, sub_records, ColumnModel,
};
use crate::projection::{
    assemble_fields, assemble_model, field_leaves, fields_leaf_count, leaf_column_model,
    leaf_columns_model, leaves_of, lemma_field_leaves_len, lemma_leaves_len, row_presence,
    with_defaults,
};
use crate::schema::{Dtype, FieldModel};
use crate::value::{value_at, ValueErrorModel, ValueModel};

verus! {

/// The value at a path in each record (nothing for an absent record).
pub open spec fn values_at(records: Seq<Option<ValueModel>>, path: Seq<Seq<char>>) -> Seq<
    Option<ValueModel>,
> {
    records.map_values(
        |r: Option<ValueModel>|
            match r {
                Some(v) => value_at(v, path),
                None => None,
            },
    )
}

/// What decoding each leaf at its path gives for each record.
pub open spec fn leaf_decodes(
    records: Seq<Option<ValueModel>>,
    leaves: Seq<(Seq<Seq<char>>, Dtype)>,
) -> Seq<Seq<Option<ValueModel>>> {
    leaves.map_values(|l: (Seq<Seq<char>>, Dtype)| values_at(records, l.0))
}

/// Following one more key is taking that field of the value reached.
proof fn lemma_value_at_push(v: ValueModel, path: Seq<Seq<char>>, name: Seq<char>)
    ensures
        value_at(v, path.push(name)) == match value_at(v, path) {
            Some(w) => field_of(w, name),
            None => None,
        },
    decreases path.len(),
{
    let longer = path.push(name);
    if path.len() == 0 {
        assert(longer.drop_first() =~= Seq::<Seq<char>>::empty());
        assert(longer[0] == name);
        assert(value_at(v, path) == Some(v));
        match v {
            ValueModel::Mapping(entries) => match crate::value::first_entry(entries, name) {
                Some(j) => {
                    assert(value_at(entries[j].1, Seq::<Seq<char>>::empty()) == Some(entries[j].1));
                },
                None => {},
            },
            _ => {},
        }
    } else {
        assert(longer[0] == path[0]);
        assert(longer.drop_first() =~= path.drop_first().push(name));
        match v {
            ValueModel::Mapping(entries) => match crate::value::first_entry(entries, path[0]) {
                Some(j) => {
                    lemma_value_at_push(entries[j].1, path.drop_first(), name);
                    assert(value_at(v, longer) == value_at(entries[j].1, longer.drop_first()));
                    assert(value_at(v, path) == value_at(entries[j].1, path.drop_first()));
                },
                None => {},
            },
            _ => {},
        }
    }
}

/// The field of the values at a path are the values at the longer path.
proof fn lemma_sub_records_at(records: Seq<Option<ValueModel>>, path: Seq<Seq<char>>, name: Seq<char>)
    ensures
        sub_records(values_at(records, path), name) == values_at(records, path.push(name)),
{
    assert forall|k: int| 0 <= k < records.len() implies #[trigger] sub_records(
        values_at(records, path),
        name,
    )[k] == values_at(records, path.push(name))[k] by {
        if let Some(v) = records[k] {
            lemma_value_at_push(v, path, name);
        }
    }
    assert(sub_records(values_at(records, path), name) =~= values_at(records, path.push(name)));
}

/// Leaf columns only read the decodes of their own leaves.
proof fn lemma_leaf_columns_decodes(
    leaves: Seq<(Seq<Seq<char>>, Dtype)>,
    a: Seq<Seq<Option<ValueModel>>>,
    b: Seq<Seq<Option<ValueModel>>>,
    rows: Seq<Option<int>>,
)
    requires
        forall|i: int| 0 <= i < leaves.len() ==> #[trigger] a[i] == b[i],
    ensures
        leaf_columns_model(leaves, a, rows) == leaf_columns_model(leaves, b, rows),
    decreases leaves.len(),
{
    if leaves.len() > 0 {
        lemma_leaf_columns_decodes(leaves.drop_last(), a, b, rows);
        assert(a[leaves.len() - 1] == b[leaves.len() - 1]);
    }
}

/// Successful leaf columns come one per leaf.
proof fn lemma_leaf_columns_len(
    leaves: Seq<(Seq<Seq<char>>, Dtype)>,
    decodes: Seq<Seq<Option<ValueModel>>>,
    rows: Seq<Option<int>>,
)
    ensures
        leaf_columns_model(leaves, decodes, rows) matches Ok(cols) ==> cols.len() == leaves.len(),
    decreases leaves.len(),
{
    if leaves.len() > 0 {
        lemma_leaf_columns_len(leaves.drop_last(), decodes, rows);
    }
}

/// The leaf columns of two runs of leaves are those of the first run
/// followed by those of the second; the first failing leaf gives the error.
proof fn lemma_leaf_columns_concat(
    records: Seq<Option<ValueModel>>,
    a: Seq<(Seq<Seq<char>>, Dtype)>,
    b: Seq<(Seq<Seq<char>>, Dtype)>,
    rows: Seq<Option<int>>,
)
    ensures
        leaf_columns_model(a + b, leaf_decodes(records, a + b), rows) == match leaf_columns_model(
            a,
            leaf_decodes(records, a),
            rows,
        ) {
            Err(e) => Err::<Seq<ColumnModel>, ValueErrorModel>(e),
            Ok(ca) => match leaf_columns_model(b, leaf_decodes(records, b), rows) {
                Ok(cb) => Ok::<Seq<ColumnModel>, ValueErrorModel>(ca + cb),
                Err(e) => Err::<Seq<ColumnModel>, ValueErrorModel>(e),
            },
        },
    decreases b.len(),
{
    let whole = a + b;
    if b.len() == 0 {
        assert(whole =~= a);
        lemma_leaf_columns_decodes(a, leaf_decodes(records, whole), leaf_decodes(records, a), rows);
        if let Ok(ca) = leaf_columns_model(a, leaf_decodes(records, a), rows) {
            assert(ca + Seq::<ColumnModel>::empty() =~= ca);
        }
    } else {
        let b0 = b.drop_last();
        assert(whole.drop_last() =~= a + b0);
        lemma_leaf_columns_decodes(
            a + b0,
            leaf_decodes(records, whole),
            leaf_decodes(records, a + b0),
            rows,
        );
        lemma_leaf_columns_decodes(b0, leaf_decodes(records, b), leaf_decodes(records, b0), rows);
        lemma_leaf_columns_concat(records, a, b0, rows);
        assert(whole.last() == b.last());
        assert(leaf_decodes(records, whole)[whole.len() - 1] == leaf_decodes(records, b)[b.len() - 1]);
        match leaf_columns_model(a, leaf_decodes(records, a), rows) {
            Err(_) => {},
            Ok(ca) => match leaf_columns_model(b0, leaf_decodes(records, b0), rows) {
                Err(_) => {},
                Ok(cb0) => {
                    match leaf_column_model(b.last().1, leaf_decodes(records, b)[b.len() - 1], rows) {
                        Ok(c) => {
                            assert((ca + cb0).push(c) =~= ca + cb0.push(c));
                        },
                        Err(_) => {},
                    }
                },
            },
        }
    }
}

/// Laying out a dtype over the values at a path of whole records is
/// assembling the leaf columns decoded at its leaves' paths.
proof fn lemma_route(
    d: Dtype,
    path: Seq<Seq<char>>,
    records: Seq<Option<ValueModel>>,
    rows: Seq<Option<int>>,
    validity: Seq<bool>,
)
    requires
        forall|k: int| 0 <= k < records.len() ==> #[trigger] records[k] is Some,
    ensures
        layout_model(d, presence(records), values_at(records, path), rows, validity) == match leaf_columns_model(
            leaves_of(d, path),
            leaf_decodes(records, leaves_of(d, path)),
            rows,
        ) {
            Ok(cols) => Ok::<ColumnModel, ValueErrorModel>(assemble_model(d, validity, cols)),
            Err(e) => Err::<ColumnModel, ValueErrorModel>(e),
        },
    decreases d,
{
    match d {
        Dtype::Struct(fields) => {
            lemma_route_fields(fields, path, records, rows, validity);
            let recs = values_at(records, path);
            assert(layout_model(d, presence(records), recs, rows, validity) == match layout_fields(
                fields,
                presence(records),
                recs,
                rows,
                validity,
            ) {
                Ok(children) => Ok::<ColumnModel, ValueErrorModel>(ColumnModel::Struct(validity, children)),
                Err(e) => Err::<ColumnModel, ValueErrorModel>(e),
            });
            assert(leaves_of(d, path) == field_leaves(fields, path));
            if let Ok(cols) = leaf_columns_model(
                leaves_of(d, path),
                leaf_decodes(records, leaves_of(d, path)),
                rows,
            ) {
                assert(assemble_model(d, validity, cols) == ColumnModel::Struct(
                    validity,
                    assemble_fields(fields, validity, cols),
                ));
            }
        },
        _ => {
            let recs = values_at(records, path);
            assert(leaf_decodes(records, leaves_of(d, path))[0] == recs);
            assert(leaf_values(d, presence(records), recs) =~= with_defaults(d, recs));
            let leaves = leaves_of(d, path);
            let decodes = leaf_decodes(records, leaves);
            assert(leaves.drop_last() =~= Seq::<(Seq<Seq<char>>, Dtype)>::empty());
            assert(leaf_columns_model(leaves.drop_last(), decodes, rows) == Ok::<
                Seq<ColumnModel>,
                ValueErrorModel,
            >(Seq::empty()));
            assert(leaves.last().1 == d);
            if let Ok(c) = leaf_column_model(d, recs, rows) {
                assert(seq![c][0] == c);
                assert(Seq::<ColumnModel>::empty().push(c) =~= seq![c]);
            }
        },
    }
}

/// The fields of a Struct, laid out one by one, are the fields assembled
/// from the leaf columns of their runs of leaves.
proof fn lemma_route_fields(
    fields: Seq<FieldModel>,
    path: Seq<Seq<char>>,
    records: Seq<Option<ValueModel>>,
    rows: Seq<Option<int>>,
    validity: Seq<bool>,
)
    requires
        forall|k: int| 0 <= k < records.len() ==> #[trigger] records[k] is Some,
    ensures
        layout_fields(fields, presence(records), values_at(records, path), rows, validity)
            == match leaf_columns_model(
            field_leaves(fields, path),
            leaf_decodes(records, field_leaves(fields, path)),
            rows,
        ) {
            Ok(cols) => Ok::<Seq<(Seq<char>, ColumnModel)>, ValueErrorModel>(
                assemble_fields(fields, validity, cols),
            ),
            Err(e) => Err::<Seq<(Seq<char>, ColumnModel)>, ValueErrorModel>(e),
        },
    decreases fields,
{
    if fields.len() == 0 {
        assert(field_leaves(fields, path) =~= Seq::<(Seq<Seq<char>>, Dtype)>::empty());
    } else {
        assert(decreases_to!(fields => fields.drop_last()));
        assert(decreases_to!(fields => fields[fields.len() - 1]));
        let front = fields.drop_last();
        let f = fields.last();
        let fpath = path.push(f.name);
        let a = field_leaves(front, path);
        let b = leaves_of(f.dtype, fpath);
        lemma_route_fields(front, path, records, rows, validity);
        lemma_route(f.dtype, fpath, records, rows, validity);
        lemma_sub_records_at(records, path, f.name);
        lemma_leaf_columns_concat(records, a, b, rows);
        lemma_leaf_columns_len(a, leaf_decodes(records, a), rows);
        lemma_field_leaves_len(front, path);
        assert(field_leaves(fields, path) == a + b);
        match leaf_columns_model(a, leaf_decodes(records, a), rows) {
            Err(_) => {},
            Ok(ca) => match leaf_columns_model(b, leaf_decodes(records, b), rows) {
                Err(_) => {},
                Ok(cb) => {
                    let cols = ca + cb;
                    let before = fields_leaf_count(front) as int;
                    assert(cols.take(before) =~= ca);
                    assert(cols.skip(before) =~= cb);
                },
            },
        }
    }
}

/// A lookup decoded leaf by leaf gives the column of the same records laid
/// out whole: when every record is present and each leaf's decode is the
/// value at the leaf's path in each record, assembling the leaf columns
/// (under the rows that have a record) is laying out the records, and the
/// first leaf that fails is the failure of the layout.
pub proof fn law_leaf_route_matches_record_route(
    d: Dtype,
    records: Seq<Option<ValueModel>>,
    rows: Seq<Option<usize>>,
)
    requires
        forall|k: int| 0 <= k < records.len() ==> #[trigger] records[k] is Some,
        indexes_below(rows, records.len() as int),
    ensures
        match leaf_columns_model(
            leaves_of(d, Seq::empty()),
            leaf_decodes(records, leaves_of(d, Seq::empty())),
            index_model(rows),
        ) {
            Ok(cols) => layout_model(
                d,
                presence(records),
                records,
                index_model(rows),
                row_validity(records, index_model(rows)),
            ) == Ok::<ColumnModel, ValueErrorModel>(assemble_model(d, row_presence(rows), cols)),
            Err(e) => layout_model(
                d,
                presence(records),
                records,
                index_model(rows),
                row_validity(records, index_model(rows)),
            ) == Err::<ColumnModel, ValueErrorModel>(e),
        },
{
    let validity = row_validity(records, index_model(rows));
    assert forall|i: int| 0 <= i < rows.len() implies #[trigger] validity[i] == row_presence(rows)[i] by {
        if let Some(k) = rows[i] {
            assert(records[k as int] is Some);
        }
    }
    assert(validity =~= row_presence(rows));
    assert forall|k: int| 0 <= k < records.len() implies #[trigger] values_at(records, Seq::empty())[k]
        == records[k] by {}
    assert(values_at(records, Seq::empty()) =~= records);
    lemma_route(d, Seq::empty(), records, index_model(rows), validity);
}

} // verus!
