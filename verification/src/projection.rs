use vstd::prelude::*;

use crate::column::{
    build_column, build_model, column_len, index_model, indexes_below, lemma_build_len,
    options_model, take_column, take_model, Column, ColumnModel, NamedColumn, named_model,
    lemma_named_model,
};
use crate::schema::{fields_model, lemma_fields_model, Dtype, FieldModel, SchemaSpec};
use crate::value::{default_model, default_value, Value, ValueErrorModel, ValueModel};

verus! {

/// One leaf of a projection: the field names that lead to it and its dtype.
#[derive(Debug)]
pub struct ProjectionLeaf {
    pub path: Vec<String>,
    pub dtype: SchemaSpec,
}

/// The models of some names.
pub open spec fn names_model(names: Seq<String>) -> Seq<Seq<char>> {
    names.map_values(|n: String| n@)
}

/// The number of leaves of a dtype: a Struct has its fields' leaves, any
/// other dtype is one leaf.
pub open spec fn leaf_count(d: Dtype) -> nat
    decreases d,
{
    match d {
        Dtype::Struct(fields) => fields_leaf_count(fields),
        _ => 1,
    }
}

/// The number of leaves of some fields.
pub open spec fn fields_leaf_count(fields: Seq<FieldModel>) -> nat
    decreases fields,
{
    if fields.len() == 0 {
        0
    } else {
        proof {
            assert(decreases_to!(fields => fields.drop_last()));
            assert(decreases_to!(fields => fields[fields.len() - 1]));
        }
        fields_leaf_count(fields.drop_last()) + leaf_count(fields.last().dtype)
    }
}

/// The leaves of a dtype in depth-first field order, each with the path of
/// field names from the top (after `prefix`).
pub open spec fn leaves_of(d: Dtype, prefix: Seq<Seq<char>>) -> Seq<(Seq<Seq<char>>, Dtype)>
    decreases d,
{
    match d {
        Dtype::Struct(fields) => field_leaves(fields, prefix),
        _ => seq![(prefix, d)],
    }
}

/// The leaves of some fields in order.
pub open spec fn field_leaves(fields: Seq<FieldModel>, prefix: Seq<Seq<char>>) -> Seq<
    (Seq<Seq<char>>, Dtype),
>
    decreases fields,
{
    if fields.len() == 0 {
        Seq::empty()
    } else {
        proof {
            assert(decreases_to!(fields => fields.drop_last()));
            assert(decreases_to!(fields => fields[fields.len() - 1]));
        }
        field_leaves(fields.drop_last(), prefix) + leaves_of(
            fields.last().dtype,
            prefix.push(fields.last().name),
        )
    }
}

/// The models of projection leaves.
pub open spec fn projection_model(leaves: Seq<ProjectionLeaf>) -> Seq<(Seq<Seq<char>>, Dtype)> {
    leaves.map_values(|l: ProjectionLeaf| (names_model(l.path@), l.dtype@))
}

/// A dtype has as many leaves as its leaf count.
pub proof fn lemma_leaves_len(d: Dtype, prefix: Seq<Seq<char>>)
    ensures
        leaves_of(d, prefix).len() == leaf_count(d),
    decreases d,
{
    match d {
        Dtype::Struct(fields) => lemma_field_leaves_len(fields, prefix),
        _ => {},
    }
}

/// Fields have as many leaves as their leaf count.
pub proof fn lemma_field_leaves_len(fields: Seq<FieldModel>, prefix: Seq<Seq<char>>)
    ensures
        field_leaves(fields, prefix).len() == fields_leaf_count(fields),
    decreases fields,
{
    if fields.len() > 0 {
        assert(decreases_to!(fields => fields.drop_last()));
        assert(decreases_to!(fields => fields[fields.len() - 1]));
        lemma_field_leaves_len(fields.drop_last(), prefix);
        lemma_leaves_len(fields.last().dtype, prefix.push(fields.last().name));
    }
}

/// Appends the leaves of a dtype to `leaves`, with `path` leading to it.
#[verifier::loop_isolation(false)]
fn collect_leaves(dtype: &SchemaSpec, path: &mut Vec<String>, leaves: &mut Vec<ProjectionLeaf>)
    ensures
        final(path)@ == old(path)@,
        projection_model(final(leaves)@) == projection_model(old(leaves)@) + leaves_of(
            dtype@,
            names_model(old(path)@),
        ),
    decreases dtype,
{
    match dtype {
        SchemaSpec::Struct { fields } => {
            let ghost start = projection_model(leaves@);
            let ghost prefix = names_model(path@);
            let ghost fs = fields_model(fields@);
            proof {
                lemma_fields_model(fields@);
            }
            let n = fields.len();
            let mut i: usize = 0;
            assert(fs.take(0) =~= Seq::<FieldModel>::empty());
            assert(projection_model(leaves@) =~= start + field_leaves(fs.take(0), prefix));
            while i < n
                invariant
                    n == fields@.len(),
                    n == fs.len(),
                    i <= n,
                    names_model(path@) == prefix,
                    path@ == old(path)@,
                    projection_model(leaves@) == start + field_leaves(fs.take(i as int), prefix),
                decreases n - i,
            {
                proof {
                    broadcast use vstd::std_specs::vec::axiom_vec_index_decreases;
                    assert(decreases_to!(fields => fields[i as int]));
                    assert(fs.take(i + 1).drop_last() =~= fs.take(i as int));
                    assert(fs.take(i + 1).last() == fs[i as int]);
                }
                let ghost before_path = path@;
                path.push(fields[i].name.clone());
                assert(names_model(path@) =~= prefix.push(fields@[i as int].name@));
                collect_leaves(&fields[i].dtype, path, leaves);
                path.pop();
                assert(path@ =~= before_path);
                assert(projection_model(leaves@) =~= start + field_leaves(fs.take(i + 1), prefix));
                i = i + 1;
            }
            assert(fs.take(n as int) =~= fs);
        },
        _ => {
            let ghost before = leaves@;
            let copy = clone_names(path);
            leaves.push(ProjectionLeaf { path: copy, dtype: dtype.duplicate() });
            assert(projection_model(leaves@) =~= projection_model(before) + leaves_of(
                dtype@,
                names_model(path@),
            ));
        },
    }
}

/// A copy of some names.
fn clone_names(names: &Vec<String>) -> (r: Vec<String>)
    ensures
        names_model(r@) == names_model(names@),
{
    let mut out: Vec<String> = Vec::new();
    let n = names.len();
    let mut i: usize = 0;
    while i < n
        invariant
            n == names@.len(),
            i <= n,
            out@.len() == i,
            forall|j: int| 0 <= j < i ==> #[trigger] out@[j]@ == names@[j]@,
        decreases n - i,
    {
        out.push(names[i].clone());
        i = i + 1;
    }
    assert(names_model(out@) =~= names_model(names@));
    out
}

/// The leaves of a projection dtype, in depth-first field order.
pub fn flatten_projection(dtype: &SchemaSpec) -> (r: Vec<ProjectionLeaf>)
    ensures
        projection_model(r@) == leaves_of(dtype@, Seq::empty()),
{
    let mut path: Vec<String> = Vec::new();
    let mut leaves: Vec<ProjectionLeaf> = Vec::new();
    assert(names_model(path@) =~= Seq::<Seq<char>>::empty());
    assert(projection_model(leaves@) =~= Seq::<(Seq<Seq<char>>, Dtype)>::empty());
    collect_leaves(dtype, &mut path, &mut leaves);
    assert(projection_model(leaves@) =~= leaves_of(dtype@, Seq::empty()));
    leaves
}


/// The models of some columns.
pub open spec fn columns_model(cols: Seq<Column>) -> Seq<ColumnModel> {
    cols.map_values(|c: Column| c@)
}

/// The column of a dtype assembled from its leaf columns in depth-first
/// order: a Struct (at any depth) takes the given validity, any other dtype
/// is its leaf column.
pub open spec fn assemble_model(d: Dtype, validity: Seq<bool>, cols: Seq<ColumnModel>) -> ColumnModel
    decreases d,
{
    match d {
        Dtype::Struct(fields) => ColumnModel::Struct(validity, assemble_fields(fields, validity, cols)),
        _ => cols[0],
    }
}

/// The assembled children of some fields, each from its own run of leaves.
pub open spec fn assemble_fields(
    fields: Seq<FieldModel>,
    validity: Seq<bool>,
    cols: Seq<ColumnModel>,
) -> Seq<(Seq<char>, ColumnModel)>
    decreases fields,
{
    if fields.len() == 0 {
        Seq::empty()
    } else {
        proof {
            assert(decreases_to!(fields => fields.drop_last()));
            assert(decreases_to!(fields => fields[fields.len() - 1]));
        }
        let before = fields_leaf_count(fields.drop_last()) as int;
        assemble_fields(fields.drop_last(), validity, cols.take(before)).push(
            (fields.last().name, assemble_model(fields.last().dtype, validity, cols.skip(before))),
        )
    }
}

/// A prefix of the fields has no more leaves than all of them.
pub proof fn lemma_fields_leaf_count_prefix(fields: Seq<FieldModel>, k: int)
    requires
        0 <= k <= fields.len(),
    ensures
        fields_leaf_count(fields.take(k)) <= fields_leaf_count(fields),
    decreases fields.len(),
{
    if fields.len() > k {
        assert(fields.drop_last().take(k) =~= fields.take(k));
        lemma_fields_leaf_count_prefix(fields.drop_last(), k);
    } else {
        assert(fields.take(k) =~= fields);
    }
}

/// Assembles the column of a dtype from the leaf columns that start at
/// `start`; returns it with the position after its last leaf.
#[verifier::loop_isolation(false)]
fn assemble_at(dtype: &SchemaSpec, validity: &Vec<bool>, leaves: &Vec<Column>, start: usize) -> (r: (
    Column,
    usize,
))
    requires
        start + leaf_count(dtype@) <= leaves@.len(),
    ensures
        r.1 == start + leaf_count(dtype@),
        r.0@ == assemble_model(dtype@, validity@, columns_model(leaves@).subrange(start as int, r.1 as int)),
    decreases dtype,
{
    let ghost models = columns_model(leaves@);
    match dtype {
        SchemaSpec::Struct { fields } => {
            let ghost fs = fields_model(fields@);
            proof {
                lemma_fields_model(fields@);
            }
            let mut children: Vec<NamedColumn> = Vec::new();
            let mut cursor = start;
            let n = fields.len();
            let mut i: usize = 0;
            assert(fs.take(0) =~= Seq::<FieldModel>::empty());
            assert(named_model(children@) =~= Seq::<(Seq<char>, ColumnModel)>::empty());
            assert(leaf_count(dtype@) == fields_leaf_count(fs));
            while i < n
                invariant
                    n == fields@.len(),
                    n == fs.len(),
                    i <= n,
                    cursor == start + fields_leaf_count(fs.take(i as int)),
                    fields_leaf_count(fs.take(i as int)) <= fields_leaf_count(fs),
                    start + fields_leaf_count(fs) <= leaves@.len(),
                    models == columns_model(leaves@),
                    named_model(children@) == assemble_fields(
                        fs.take(i as int),
                        validity@,
                        models.subrange(start as int, cursor as int),
                    ),
                decreases n - i,
            {
                proof {
                    broadcast use vstd::std_specs::vec::axiom_vec_index_decreases;
                    assert(decreases_to!(fields => fields[i as int]));
                    assert(fs.take(i + 1).drop_last() =~= fs.take(i as int));
                    assert(fs.take(i + 1).last() == fs[i as int]);
                    lemma_fields_leaf_count_prefix(fs, i + 1);
                }
                let (data, next) = assemble_at(&fields[i].dtype, validity, leaves, cursor);
                let ghost before = children@;
                children.push(NamedColumn { name: fields[i].name.clone(), data });
                proof {
                    let whole = models.subrange(start as int, next as int);
                    let count = fields_leaf_count(fs.take(i as int)) as int;
                    assert(whole.take(count) =~= models.subrange(start as int, cursor as int));
                    assert(whole.skip(count) =~= models.subrange(cursor as int, next as int));
                    lemma_named_model(children@);
                    lemma_named_model(before);
                    assert(named_model(children@) =~= named_model(before).push(
                        (fields@[i as int].name@, data@),
                    ));
                }
                cursor = next;
                i = i + 1;
            }
            assert(fs.take(n as int) =~= fs);
            let v = validity.clone();
            assert(v@ =~= validity@);
            (Column::Struct { validity: v, fields: children }, cursor)
        },
        _ => {
            assert(leaf_count(dtype@) == 1);
            let total = leaves.len();
            assert(start < total);
            let column = leaves[start].duplicate();
            (column, start + 1)
        },
    }
}

/// The column of a projection dtype assembled from its leaf columns, given
/// in the order of `flatten_projection`.
pub fn assemble_projection_series(
    name: String,
    dtype: &SchemaSpec,
    validity: &Vec<bool>,
    leaves: &Vec<Column>,
) -> (r: NamedColumn)
    requires
        leaves@.len() == leaf_count(dtype@),
    ensures
        r.name@ == name@,
        r.data@ == assemble_model(dtype@, validity@, columns_model(leaves@)),
{
    let (data, _) = assemble_at(dtype, validity, leaves, 0);
    assert(columns_model(leaves@).subrange(0, leaves@.len() as int) =~= columns_model(leaves@));
    NamedColumn { name, data }
}

/// No leaf of a projection is a Struct.
pub proof fn lemma_leaves_not_struct(d: Dtype, prefix: Seq<Seq<char>>)
    ensures
        forall|i: int|
            0 <= i < leaves_of(d, prefix).len() ==> !(#[trigger] leaves_of(d, prefix)[i].1 is Struct),
    decreases d,
{
    match d {
        Dtype::Struct(fields) => lemma_field_leaves_not_struct(fields, prefix),
        _ => {},
    }
}

/// No leaf of some fields is a Struct.
pub proof fn lemma_field_leaves_not_struct(fields: Seq<FieldModel>, prefix: Seq<Seq<char>>)
    ensures
        forall|i: int|
            0 <= i < field_leaves(fields, prefix).len() ==> !(#[trigger] field_leaves(fields, prefix)[i].1 is Struct),
    decreases fields,
{
    if fields.len() > 0 {
        assert(decreases_to!(fields => fields.drop_last()));
        assert(decreases_to!(fields => fields[fields.len() - 1]));
        lemma_field_leaves_not_struct(fields.drop_last(), prefix);
        lemma_leaves_not_struct(fields.last().dtype, prefix.push(fields.last().name));
        let a = field_leaves(fields.drop_last(), prefix);
        let b = leaves_of(fields.last().dtype, prefix.push(fields.last().name));
        assert forall|i: int| 0 <= i < (a + b).len() implies !(#[trigger] (a + b)[i].1 is Struct) by {
            if i >= a.len() {
                assert((a + b)[i] == b[i - a.len()]);
            }
        }
    }
}

/// The values of one leaf for each distinct record: what was decoded at its
/// path, or the leaf dtype's default where nothing was.
pub open spec fn with_defaults(d: Dtype, decoded: Seq<Option<ValueModel>>) -> Seq<Option<ValueModel>> {
    decoded.map_values(
        |v: Option<ValueModel>|
            Some(
                match v {
                    Some(x) => x,
                    None => default_model(d),
                },
            ),
    )
}

/// The column of one leaf: built once over the distinct records, then
/// picked for each row.
pub open spec fn leaf_column_model(
    d: Dtype,
    decoded: Seq<Option<ValueModel>>,
    rows: Seq<Option<int>>,
) -> Result<ColumnModel, ValueErrorModel> {
    match build_model(d, with_defaults(d, decoded)) {
        Ok(c) => Ok(take_model(c, rows)),
        Err(e) => Err(e),
    }
}

/// The columns of the leaves, in order; the first leaf that fails gives the
/// error.
pub open spec fn leaf_columns_model(
    leaves: Seq<(Seq<Seq<char>>, Dtype)>,
    decoded: Seq<Seq<Option<ValueModel>>>,
    rows: Seq<Option<int>>,
) -> Result<Seq<ColumnModel>, ValueErrorModel>
    decreases leaves.len(),
{
    if leaves.len() == 0 {
        Ok(Seq::empty())
    } else {
        match leaf_columns_model(leaves.drop_last(), decoded, rows) {
            Err(e) => Err(e),
            Ok(cols) => match leaf_column_model(leaves.last().1, decoded[leaves.len() - 1], rows) {
                Ok(c) => Ok(cols.push(c)),
                Err(e) => Err(e),
            },
        }
    }
}

/// Once a prefix of the leaves fails, all of them fail the same way.
pub proof fn lemma_leaf_columns_err(
    leaves: Seq<(Seq<Seq<char>>, Dtype)>,
    decoded: Seq<Seq<Option<ValueModel>>>,
    rows: Seq<Option<int>>,
    k: int,
)
    requires
        0 <= k <= leaves.len(),
        leaf_columns_model(leaves.take(k), decoded, rows) is Err,
    ensures
        leaf_columns_model(leaves, decoded, rows) == leaf_columns_model(leaves.take(k), decoded, rows),
    decreases leaves.len(),
{
    if leaves.len() > k {
        assert(leaves.drop_last().take(k) =~= leaves.take(k));
        lemma_leaf_columns_err(leaves.drop_last(), decoded, rows, k);
    } else {
        assert(leaves.take(k) =~= leaves);
    }
}

/// The models of the decoded values of each leaf.
pub open spec fn decoded_models(decoded: Seq<Vec<Option<Value>>>) -> Seq<Seq<Option<ValueModel>>> {
    decoded.map_values(|v: Vec<Option<Value>>| options_model(v@))
}

/// Whether each row has a record.
pub open spec fn row_presence(rows: Seq<Option<usize>>) -> Seq<bool> {
    rows.map_values(|r: Option<usize>| r is Some)
}

/// The decoded values of a leaf, with its default where nothing was decoded.
fn fill_defaults(dtype: &SchemaSpec, values: Vec<Option<Value>>) -> (r: Vec<Option<Value>>)
    ensures
        options_model(r@) == with_defaults(dtype@, options_model(values@)),
{
    let ghost all = values@;
    let mut rest = values;
    let mut out: Vec<Option<Value>> = Vec::new();
    let n = rest.len();
    let mut i: usize = 0;
    while i < n
        invariant
            n == all.len(),
            i <= n,
            rest@ == all.skip(i as int),
            out@.len() == i,
            forall|j: int|
                #![trigger out@[j]]
                0 <= j < i ==> (out@[j] matches Some(v) && v@ == match all[j] {
                    Some(x) => x@,
                    None => default_model(dtype@),
                }),
        decreases n - i,
    {
        let value = rest.remove(0);
        assert(all.skip(i as int).remove(0) =~= all.skip(i + 1));
        let filled = match value {
            Some(v) => v,
            None => default_value(dtype),
        };
        out.push(Some(filled));
        i = i + 1;
    }
    assert(options_model(out@) =~= with_defaults(dtype@, options_model(all)));
    out
}

/// The column of a projection dtype from the values decoded at each of its
/// leaves (in the order of `flatten_projection`, one per distinct record,
/// `None` where the path is absent) and the record each row takes: every
/// leaf is built once over the distinct records with its default where
/// nothing was decoded, then picked for each row, and the leaves are
/// reassembled under the validity of the rows that have a record.
#[verifier::loop_isolation(false)]
pub fn decoded_leaves_to_series(
    name: String,
    dtype: &SchemaSpec,
    decoded: Vec<Vec<Option<Value>>>,
    unique_count: usize,
    rows: &Vec<Option<usize>>,
) -> (r: Result<NamedColumn, crate::value::ValueError>)
    requires
        decoded@.len() == leaf_count(dtype@),
        forall|l: int| 0 <= l < decoded@.len() ==> (#[trigger] decoded@[l])@.len() == unique_count,
        indexes_below(rows@, unique_count as int),
    ensures
        match leaf_columns_model(
            leaves_of(dtype@, Seq::empty()),
            decoded_models(decoded@),
            index_model(rows@),
        ) {
            Ok(cols) => r matches Ok(c) && c.name@ == name@ && c.data@ == assemble_model(
                dtype@,
                row_presence(rows@),
                cols,
            ),
            Err(e) => r matches Err(x) && x@ == e,
        },
{
    let leaves = flatten_projection(dtype);
    let ghost lm = leaves_of(dtype@, Seq::empty());
    let ghost dm = decoded_models(decoded@);
    let ghost im = index_model(rows@);
    proof {
        lemma_leaves_len(dtype@, Seq::empty());
        lemma_leaves_not_struct(dtype@, Seq::empty());
    }
    let n = leaves.len();
    assert(n == lm.len());
    let ghost all = decoded@;
    let mut rest = decoded;
    let mut cols: Vec<Column> = Vec::new();
    let mut l: usize = 0;
    assert(lm.take(0) =~= Seq::<(Seq<Seq<char>>, Dtype)>::empty());
    assert(columns_model(cols@) =~= Seq::<ColumnModel>::empty());
    while l < n
        invariant
            n == leaves@.len(),
            n == lm.len(),
            n == all.len(),
            projection_model(leaves@) == lm,
            forall|i: int| 0 <= i < lm.len() ==> !(#[trigger] lm[i].1 is Struct),
            dm == decoded_models(all),
            forall|j: int| 0 <= j < all.len() ==> (#[trigger] all[j])@.len() == unique_count,
            im == index_model(rows@),
            indexes_below(rows@, unique_count as int),
            l <= n,
            rest@ == all.skip(l as int),
            cols@.len() == l,
            leaf_columns_model(lm.take(l as int), dm, im) == Ok::<Seq<ColumnModel>, ValueErrorModel>(
                columns_model(cols@),
            ),
        decreases n - l,
    {
        let values = rest.remove(0);
        assert(all.skip(l as int).remove(0) =~= all.skip(l + 1));
        assert(values == all[l as int]);
        let leaf_dtype = &leaves[l].dtype;
        assert(projection_model(leaves@)[l as int] == (names_model(leaves@[l as int].path@), leaf_dtype@));
        assert(lm[l as int].1 == leaf_dtype@);
        assert(lm.take(l + 1).drop_last() =~= lm.take(l as int));
        assert(dm[l as int] == options_model(values@));
        let filled = fill_defaults(leaf_dtype, values);
        match build_column(leaf_dtype, &filled) {
            Err(e) => {
                proof {
                    let upto = lm.take(l + 1);
                    assert(upto.last() == lm[l as int]);
                    assert(upto.len() - 1 == l);
                    assert(leaf_column_model(lm[l as int].1, dm[l as int], im) == Err::<
                        ColumnModel,
                        ValueErrorModel,
                    >(e@));
                    assert(leaf_columns_model(upto, dm, im) == Err::<Seq<ColumnModel>, ValueErrorModel>(e@));
                    lemma_leaf_columns_err(lm, dm, im, l + 1);
                    assert(leaf_columns_model(lm, dm, im) == Err::<Seq<ColumnModel>, ValueErrorModel>(e@));
                }
                return Err(e);
            },
            Ok(c) => {
                proof {
                    lemma_build_len(leaf_dtype@, options_model(filled@));
                    assert(column_len(c@) == unique_count);
                }
                let taken = take_column(&c, rows);
                let ghost before = columns_model(cols@);
                cols.push(taken);
                assert(columns_model(cols@) =~= before.push(taken@));
            },
        }
        l = l + 1;
    }
    assert(lm.take(n as int) =~= lm);
    let mut validity: Vec<bool> = Vec::new();
    let m = rows.len();
    let mut i: usize = 0;
    while i < m
        invariant
            m == rows@.len(),
            i <= m,
            validity@ =~= row_presence(rows@).take(i as int),
        decreases m - i,
    {
        validity.push(rows[i].is_some());
        i = i + 1;
    }
    assert(validity@ =~= row_presence(rows@));
    Ok(assemble_projection_series(name, dtype, &validity, &cols))
}

} // verus!
